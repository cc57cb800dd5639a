//! Placing a command in a pane of its own, and replacing a pane by another.
//!
//! Each step takes what Herdr answered and says what is asked of it next.

use vstd::prelude::*;
use vstd::string::*;

use crate::backend::{CommandSpec, CommandView};
use crate::failure::{led_to, plain, Failure, FailureView};
use crate::herdr::{
    close_reply, done_problem, inspected, inspection_reply, run_problem, run_reply, split_reply,
    tab_reply, text_response, ContextView, HerdrClient, HerdrContext, PlacedPane, PlacedView,
    SplitDirection,
};
use crate::herdr_reply::{
    attach_process, is_attach_process, HerdrOutput, InspectionView, ReplacementInspection,
};
use crate::model::Placement;
use crate::text::views;

verus! {

/// How often a new pane is asked for the command that it was to run.
pub const VERIFY_ATTEMPTS: usize = 20;

/// The pause between two of these questions, in milliseconds.
pub const VERIFY_INTERVAL_MILLIS: u64 = 50;

/// How a destination is made.
#[derive(Clone, Copy, Debug, PartialEq, Eq, Structural)]
pub enum Destination {
    Split(SplitDirection),
    Tab,
}

/// How a destination for a placement is made. A replacement needs a person's
/// confirmation and is no placement.
pub open spec fn destination_for(placement: Placement) -> Option<Destination> {
    match placement {
        Placement::SplitRight => Some(Destination::Split(SplitDirection::Right)),
        Placement::SplitDown => Some(Destination::Split(SplitDirection::Down)),
        Placement::NewTab => Some(Destination::Tab),
        Placement::ReplaceCurrentPane => None,
    }
}

/// The pane that was made, or why there is none.
pub open spec fn made_pane(destination: Destination, reply: Result<HerdrOutput, Failure>) -> Result<
    Seq<char>,
    FailureView,
> {
    match destination {
        Destination::Split(_) => text_response(
            reply,
            "split pane"@,
            "pane_info"@,
            seq!["pane"@, "pane_id"@],
            "split response pane_id"@,
        ),
        Destination::Tab => text_response(
            reply,
            "create tab"@,
            "tab_created"@,
            seq!["root_pane"@, "pane_id"@],
            "tab response root pane_id"@,
        ),
    }
}

/// A placement whose destination is to be made.
#[derive(Debug, PartialEq, Eq)]
pub struct PlacementStart {
    client: HerdrClient,
    destination: Destination,
}

/// A placement of a given command, whose destination is to be made.
#[derive(Debug, PartialEq, Eq)]
pub struct CommandPlacement {
    start: PlacementStart,
    command: CommandSpec,
}

/// A placement whose destination is there and whose command is to be built.
#[derive(Debug, PartialEq, Eq)]
pub struct PlacementBuild {
    context: HerdrContext,
}

/// A placement whose command is to run.
#[derive(Debug, PartialEq, Eq)]
pub struct PlacementLaunch {
    pane_id: String,
    command: CommandSpec,
}

/// A placement that failed and whose empty destination is to be closed.
#[derive(Debug, PartialEq, Eq)]
pub struct PlacementFailed {
    pane_id: String,
    stage: String,
    failure: Failure,
}

/// The contents of a [`PlacementFailed`].
pub struct PlacementFailedView {
    pub pane_id: Seq<char>,
    pub stage: Seq<char>,
    pub failure: FailureView,
}

impl View for PlacementFailed {
    type V = PlacementFailedView;

    closed spec fn view(&self) -> PlacementFailedView {
        PlacementFailedView {
            pane_id: self.pane_id@,
            stage: self.stage@,
            failure: self.failure@,
        }
    }
}

impl HerdrClient {
    /// Begins to place a command: the destination comes first, so that the
    /// command can be built for the pane that it runs in.
    pub fn place_with_destination(self, placement: Placement) -> (r: Result<
        PlacementStart,
        Failure,
    >)
        ensures
            match destination_for(placement) {
                Some(destination) => r is Ok && r->Ok_0.client_view() == self@
                    && r->Ok_0.destination_view() == destination,
                None => r is Err && r->Err_0@ == plain(
                    "replace-current placement requires explicit replacement confirmation"@,
                ),
            },
    {
        let destination = match placement {
            Placement::SplitRight => Destination::Split(SplitDirection::Right),
            Placement::SplitDown => Destination::Split(SplitDirection::Down),
            Placement::NewTab => Destination::Tab,
            Placement::ReplaceCurrentPane => {
                return Err(
                    Failure::new(
                        "replace-current placement requires explicit replacement confirmation".to_owned(),
                    ),
                );
            },
        };
        Ok(PlacementStart { client: self, destination })
    }

    /// Begins to place a command that is the same in every pane.
    pub fn place(self, command: CommandSpec, placement: Placement) -> (r: Result<
        CommandPlacement,
        Failure,
    >)
        ensures
            match destination_for(placement) {
                Some(destination) => r is Ok && r->Ok_0.client_view() == self@
                    && r->Ok_0.destination_view() == destination && r->Ok_0.command_view()
                    == command@,
                None => r is Err && r->Err_0@ == plain(
                    "replace-current placement requires explicit replacement confirmation"@,
                ),
            },
    {
        match self.place_with_destination(placement) {
            Ok(start) => Ok(CommandPlacement { start, command }),
            Err(failure) => Err(failure),
        }
    }

    /// Begins to replace the client's pane by a command that is the same in every
    /// pane, once it is known what runs there.
    pub fn replace_current(self, command: CommandSpec, reply: Result<HerdrOutput, Failure>) -> (r:
        Result<CommandReplacement, Failure>)
        ensures
            match inspected(reply, self@.pane_id) {
                Ok(found) => r is Ok && r->Ok_0.client_view() == self@ && r->Ok_0.source_view()
                    == found && r->Ok_0.command_view() == command@,
                Err(failure) => r is Err && r->Err_0@ == led_to(
                    "capture the exact source pane occupant before replacement"@,
                    failure,
                ),
            },
    {
        match self.replace_current_with_destination(reply) {
            Ok(replacement) => Ok(CommandReplacement { replacement, command }),
            Err(failure) => Err(failure),
        }
    }

    /// Begins to replace the client's pane, once it is known what runs there.
    pub fn replace_current_with_destination(self, reply: Result<HerdrOutput, Failure>) -> (r:
        Result<Replacement, Failure>)
        ensures
            match inspected(reply, self@.pane_id) {
                Ok(found) => r is Ok && r->Ok_0.client_view() == self@ && r->Ok_0.source_view()
                    == found,
                Err(failure) => r is Err && r->Err_0@ == led_to(
                    "capture the exact source pane occupant before replacement"@,
                    failure,
                ),
            },
    {
        match inspection_reply(reply, self.context().pane_id.as_str()) {
            Ok(source) => Ok(Replacement { client: self, source }),
            Err(failure) => Err(
                failure.context(
                    "capture the exact source pane occupant before replacement".to_owned(),
                ),
            ),
        }
    }
}

impl PlacementStart {
    /// The context that the placement begins in.
    pub closed spec fn client_view(self) -> ContextView {
        self.client@
    }

    /// How the destination is made.
    pub closed spec fn destination_view(self) -> Destination {
        self.destination
    }

    /// The request that makes the destination.
    pub fn arguments(&self) -> (arguments: Vec<String>)
        ensures
            views(arguments@) == match self.destination_view() {
                Destination::Split(direction) => seq![
                    "pane"@,
                    "split"@,
                    "--pane"@,
                    self.client_view().pane_id,
                    "--direction"@,
                    direction.text(),
                    "--focus"@,
                ],
                Destination::Tab => seq![
                    "tab"@,
                    "create"@,
                    "--workspace"@,
                    self.client_view().workspace_id,
                    "--focus"@,
                ],
            },
    {
        match self.destination {
            Destination::Split(direction) => self.client.split_arguments(direction),
            Destination::Tab => self.client.create_tab_arguments(),
        }
    }

    /// Takes the answer to the request for a destination.
    pub fn created(self, reply: Result<HerdrOutput, Failure>) -> (r: Result<
        PlacementBuild,
        Failure,
    >)
        ensures
            match made_pane(self.destination_view(), reply) {
                Ok(pane_id) => r is Ok && r->Ok_0.context_view() == (ContextView {
                    pane_id,
                    ..self.client_view()
                }),
                Err(failure) => r is Err && r->Err_0@ == failure,
            },
    {
        let made = match self.destination {
            Destination::Split(_) => split_reply(reply),
            Destination::Tab => tab_reply(reply),
        };
        match made {
            Ok(pane_id) => {
                let own = self.client.context();
                let context = HerdrContext {
                    binary: own.binary.clone(),
                    pane_id,
                    workspace_id: own.workspace_id.clone(),
                };
                Ok(PlacementBuild { context })
            },
            Err(failure) => Err(failure),
        }
    }
}

impl CommandPlacement {
    /// The context that the placement begins in.
    pub closed spec fn client_view(self) -> ContextView {
        self.start.client_view()
    }

    /// How the destination is made.
    pub closed spec fn destination_view(self) -> Destination {
        self.start.destination_view()
    }

    /// The command that is to run.
    pub closed spec fn command_view(self) -> CommandView {
        self.command@
    }

    /// The placement whose destination is to be made.
    pub fn start(&self) -> (start: &PlacementStart)
        ensures
            start.client_view() == self.client_view(),
            start.destination_view() == self.destination_view(),
    {
        &self.start
    }

    /// Takes the answer to the request for a destination.
    pub fn created(self, reply: Result<HerdrOutput, Failure>) -> (r: Result<
        PlacementLaunch,
        Failure,
    >)
        ensures
            match made_pane(self.destination_view(), reply) {
                Ok(pane_id) => r is Ok && r->Ok_0.pane_view() == pane_id && r->Ok_0.command_view()
                    == self.command_view(),
                Err(failure) => r is Err && r->Err_0@ == failure,
            },
    {
        match self.start.created(reply) {
            Ok(build) => Ok(
                PlacementLaunch { pane_id: build.context.pane_id, command: self.command },
            ),
            Err(failure) => Err(failure),
        }
    }
}

impl PlacementBuild {
    /// The context of the destination.
    pub closed spec fn context_view(self) -> ContextView {
        self.context@
    }

    /// The context of the destination.
    pub fn context(&self) -> (context: &HerdrContext)
        ensures
            context@ == self.context_view(),
    {
        &self.context
    }

    /// Takes the command that was built for the destination.
    pub fn built(self, command: Result<CommandSpec, Failure>) -> (r: Result<
        PlacementLaunch,
        PlacementFailed,
    >)
        ensures
            match command {
                Ok(command) => r is Ok && r->Ok_0.pane_view() == self.context_view().pane_id
                    && r->Ok_0.command_view() == command@,
                Err(failure) => r is Err && r->Err_0@ == (PlacementFailedView {
                    pane_id: self.context_view().pane_id,
                    stage: "build destination command failed"@,
                    failure: failure@,
                }),
            },
    {
        match command {
            Ok(command) => Ok(PlacementLaunch { pane_id: self.context.pane_id, command }),
            Err(failure) => Err(
                PlacementFailed {
                    pane_id: self.context.pane_id,
                    stage: "build destination command failed".to_owned(),
                    failure,
                },
            ),
        }
    }
}

impl PlacementLaunch {
    /// The pane that the command is to run in.
    pub closed spec fn pane_view(self) -> Seq<char> {
        self.pane_id@
    }

    /// The command that is to run.
    pub closed spec fn command_view(self) -> CommandView {
        self.command@
    }

    /// The pane that the command is to run in.
    pub fn pane_id(&self) -> (pane_id: &str)
        ensures
            pane_id@ == self.pane_view(),
    {
        self.pane_id.as_str()
    }

    /// The command that is to run.
    pub fn command(&self) -> (command: &CommandSpec)
        ensures
            command@ == self.command_view(),
    {
        &self.command
    }

    /// Takes the answer to the request to run the command.
    pub fn ran(self, reply: Result<HerdrOutput, Failure>) -> (r: Result<
        PlacedPane,
        PlacementFailed,
    >)
        ensures
            match run_problem(reply, self.pane_view()) {
                None => r is Ok && r->Ok_0@ == (PlacedView {
                    pane_id: self.pane_view(),
                    warning: None,
                }),
                Some(failure) => r is Err && r->Err_0@ == (PlacementFailedView {
                    pane_id: self.pane_view(),
                    stage: "placement failed"@,
                    failure,
                }),
            },
    {
        match run_reply(reply, self.pane_id.as_str()) {
            Ok(()) => Ok(PlacedPane { pane_id: self.pane_id, warning: None }),
            Err(failure) => Err(
                PlacementFailed {
                    pane_id: self.pane_id,
                    stage: "placement failed".to_owned(),
                    failure,
                },
            ),
        }
    }
}

/// What a reader is told of a failed placement, once its destination was to be
/// closed.
pub open spec fn placement_failure(
    failed: PlacementFailedView,
    cleanup: Option<FailureView>,
) -> FailureView {
    let head = failed.stage + " ("@ + failed.failure.full() + ")"@;
    led_to(
        match cleanup {
            None => head + "; empty destination `"@ + failed.pane_id + "` was removed"@,
            Some(cleanup) => head + " and empty destination `"@ + failed.pane_id
                + "` could not be removed: "@ + cleanup.full(),
        },
        failed.failure,
    )
}

impl PlacementFailed {
    /// The empty destination, which is to be closed.
    pub fn pane_id(&self) -> (pane_id: &str)
        ensures
            pane_id@ == self@.pane_id,
    {
        self.pane_id.as_str()
    }

    /// Takes the answer to the request to close the destination.
    pub fn cleaned(self, reply: Result<HerdrOutput, Failure>) -> (failure: Failure)
        ensures
            failure@ == placement_failure(
                self@,
                done_problem(reply, "close replaced pane"@, "ok"@),
            ),
    {
        let head = self.stage.clone().concat(" (").concat(self.failure.detail().as_str()).concat(
            ")",
        );
        let text = match close_reply(reply) {
            Ok(()) => head.concat("; empty destination `").concat(self.pane_id.as_str()).concat(
                "` was removed",
            ),
            Err(cleanup) => head.concat(" and empty destination `").concat(
                self.pane_id.as_str(),
            ).concat("` could not be removed: ").concat(cleanup.detail().as_str()),
        };
        self.failure.context(text)
    }
}

/// A replacement whose source was seen and whose destination is to be made.
#[derive(Debug, PartialEq, Eq)]
pub struct Replacement {
    client: HerdrClient,
    source: ReplacementInspection,
}

/// A replacement by a given command, whose destination is to be made.
#[derive(Debug, PartialEq, Eq)]
pub struct CommandReplacement {
    replacement: Replacement,
    command: CommandSpec,
}

/// A replacement whose destination is there and whose command is to be built.
#[derive(Debug, PartialEq, Eq)]
pub struct ReplacementBuild {
    context: HerdrContext,
    source: ReplacementInspection,
    source_pane: String,
}

/// A replacement whose command is to run.
#[derive(Debug, PartialEq, Eq)]
pub struct ReplacementLaunch {
    pane_id: String,
    command: CommandSpec,
    source: ReplacementInspection,
    source_pane: String,
}

/// A replacement whose command was sent and is to be seen running.
#[derive(Debug, PartialEq, Eq)]
pub struct ReplacementCheck {
    pane_id: String,
    command: CommandSpec,
    source: ReplacementInspection,
    source_pane: String,
    attempts: usize,
}

/// A replacement whose command was seen running, and whose source is to be
/// seen unchanged.
#[derive(Debug, PartialEq, Eq)]
pub struct ReplacementReady {
    pane_id: String,
    source: ReplacementInspection,
    source_pane: String,
}

/// A replacement whose source is to be closed.
#[derive(Debug, PartialEq, Eq)]
pub struct ReplacementClose {
    pane_id: String,
    source_pane: String,
}

/// Why a replacement failed.
#[derive(Debug, PartialEq, Eq)]
pub enum ReplacementReason {
    /// The command could not be built or sent.
    Launch(Failure),
    /// The command was not seen running.
    Verification(String),
}

/// The contents of a [`ReplacementReason`].
pub enum ReasonView {
    Launch(FailureView),
    Verification(Seq<char>),
}

impl View for ReplacementReason {
    type V = ReasonView;

    open spec fn view(&self) -> ReasonView {
        match self {
            ReplacementReason::Launch(failure) => ReasonView::Launch(failure@),
            ReplacementReason::Verification(text) => ReasonView::Verification(text@),
        }
    }
}

/// A replacement that failed and whose destination is to be closed. Its source
/// is left alone.
#[derive(Debug, PartialEq, Eq)]
pub struct ReplacementFailed {
    pane_id: String,
    source_pane: String,
    reason: ReplacementReason,
}

/// The contents of a [`ReplacementFailed`].
pub struct ReplacementFailedView {
    pub pane_id: Seq<char>,
    pub source_pane: Seq<char>,
    pub reason: ReasonView,
}

impl View for ReplacementFailed {
    type V = ReplacementFailedView;

    closed spec fn view(&self) -> ReplacementFailedView {
        ReplacementFailedView {
            pane_id: self.pane_id@,
            source_pane: self.source_pane@,
            reason: self.reason@,
        }
    }
}

/// What a replacement knows: its destination, its source, and who was there
/// when it began.
pub struct ReplacementView {
    pub pane_id: Seq<char>,
    pub source_pane: Seq<char>,
    pub occupant: InspectionView,
}

impl Replacement {
    /// The context that the replacement begins in.
    pub closed spec fn client_view(self) -> ContextView {
        self.client@
    }

    /// Who was in the source when the replacement began.
    pub closed spec fn source_view(self) -> InspectionView {
        self.source@
    }

    /// The request that makes the destination.
    pub fn arguments(&self) -> (arguments: Vec<String>)
        ensures
            views(arguments@) == seq![
                "pane"@,
                "split"@,
                "--pane"@,
                self.client_view().pane_id,
                "--direction"@,
                "right"@,
                "--focus"@,
            ],
    {
        self.client.split_arguments(SplitDirection::Right)
    }

    /// Takes the answer to the request for a destination.
    pub fn created(self, reply: Result<HerdrOutput, Failure>) -> (r: Result<
        ReplacementBuild,
        Failure,
    >)
        ensures
            match made_pane(Destination::Split(SplitDirection::Right), reply) {
                Ok(pane_id) => r is Ok && r->Ok_0.context_view() == (ContextView {
                    pane_id,
                    ..self.client_view()
                }) && r->Ok_0.known() == (ReplacementView {
                    pane_id,
                    source_pane: self.client_view().pane_id,
                    occupant: self.source_view(),
                }),
                Err(failure) => r is Err && r->Err_0@ == failure,
            },
    {
        match split_reply(reply) {
            Ok(pane_id) => {
                let own = self.client.context();
                let source_pane = own.pane_id.clone();
                let context = HerdrContext {
                    binary: own.binary.clone(),
                    pane_id,
                    workspace_id: own.workspace_id.clone(),
                };
                Ok(ReplacementBuild { context, source: self.source, source_pane })
            },
            Err(failure) => Err(failure),
        }
    }
}

impl CommandReplacement {
    /// The context that the replacement begins in.
    pub closed spec fn client_view(self) -> ContextView {
        self.replacement.client_view()
    }

    /// Who was in the source when the replacement began.
    pub closed spec fn source_view(self) -> InspectionView {
        self.replacement.source_view()
    }

    /// The command that is to run.
    pub closed spec fn command_view(self) -> CommandView {
        self.command@
    }

    /// The replacement whose destination is to be made.
    pub fn replacement(&self) -> (replacement: &Replacement)
        ensures
            replacement.client_view() == self.client_view(),
            replacement.source_view() == self.source_view(),
    {
        &self.replacement
    }

    /// Takes the answer to the request for a destination.
    pub fn created(self, reply: Result<HerdrOutput, Failure>) -> (r: Result<
        ReplacementLaunch,
        Failure,
    >)
        ensures
            match made_pane(Destination::Split(SplitDirection::Right), reply) {
                Ok(pane_id) => r is Ok && r->Ok_0.known() == (ReplacementView {
                    pane_id,
                    source_pane: self.client_view().pane_id,
                    occupant: self.source_view(),
                }) && r->Ok_0.command_view() == self.command_view(),
                Err(failure) => r is Err && r->Err_0@ == failure,
            },
    {
        match self.replacement.created(reply) {
            Ok(build) => Ok(
                ReplacementLaunch {
                    pane_id: build.context.pane_id,
                    command: self.command,
                    source: build.source,
                    source_pane: build.source_pane,
                },
            ),
            Err(failure) => Err(failure),
        }
    }
}

impl ReplacementBuild {
    /// The context of the destination.
    pub closed spec fn context_view(self) -> ContextView {
        self.context@
    }

    /// What the replacement knows.
    pub closed spec fn known(self) -> ReplacementView {
        ReplacementView {
            pane_id: self.context.pane_id@,
            source_pane: self.source_pane@,
            occupant: self.source@,
        }
    }

    /// The context of the destination.
    pub fn context(&self) -> (context: &HerdrContext)
        ensures
            context@ == self.context_view(),
    {
        &self.context
    }

    /// Takes the command that was built for the destination.
    pub fn built(self, command: Result<CommandSpec, Failure>) -> (r: Result<
        ReplacementLaunch,
        ReplacementFailed,
    >)
        ensures
            match command {
                Ok(command) => r is Ok && r->Ok_0.known() == self.known()
                    && r->Ok_0.command_view() == command@,
                Err(failure) => r is Err && r->Err_0@ == (ReplacementFailedView {
                    pane_id: self.known().pane_id,
                    source_pane: self.known().source_pane,
                    reason: ReasonView::Launch(failure@),
                }),
            },
    {
        match command {
            Ok(command) => Ok(
                ReplacementLaunch {
                    pane_id: self.context.pane_id,
                    command,
                    source: self.source,
                    source_pane: self.source_pane,
                },
            ),
            Err(failure) => Err(
                ReplacementFailed {
                    pane_id: self.context.pane_id,
                    source_pane: self.source_pane,
                    reason: ReplacementReason::Launch(failure),
                },
            ),
        }
    }
}

impl ReplacementLaunch {
    /// What the replacement knows.
    pub closed spec fn known(self) -> ReplacementView {
        ReplacementView {
            pane_id: self.pane_id@,
            source_pane: self.source_pane@,
            occupant: self.source@,
        }
    }

    /// The command that is to run.
    pub closed spec fn command_view(self) -> CommandView {
        self.command@
    }

    /// The pane that the command is to run in.
    pub fn pane_id(&self) -> (pane_id: &str)
        ensures
            pane_id@ == self.known().pane_id,
    {
        self.pane_id.as_str()
    }

    /// The command that is to run.
    pub fn command(&self) -> (command: &CommandSpec)
        ensures
            command@ == self.command_view(),
    {
        &self.command
    }

    /// Takes the answer to the request to run the command.
    pub fn ran(self, reply: Result<HerdrOutput, Failure>) -> (r: Result<
        ReplacementCheck,
        ReplacementFailed,
    >)
        ensures
            match run_problem(reply, self.known().pane_id) {
                None => r is Ok && r->Ok_0.known() == self.known() && r->Ok_0.command_view()
                    == self.command_view() && r->Ok_0.attempts_view() == 0,
                Some(failure) => r is Err && r->Err_0@ == (ReplacementFailedView {
                    pane_id: self.known().pane_id,
                    source_pane: self.known().source_pane,
                    reason: ReasonView::Launch(failure),
                }),
            },
    {
        match run_reply(reply, self.pane_id.as_str()) {
            Ok(()) => Ok(
                ReplacementCheck {
                    pane_id: self.pane_id,
                    command: self.command,
                    source: self.source,
                    source_pane: self.source_pane,
                    attempts: 0,
                },
            ),
            Err(failure) => Err(
                ReplacementFailed {
                    pane_id: self.pane_id,
                    source_pane: self.source_pane,
                    reason: ReplacementReason::Launch(failure),
                },
            ),
        }
    }
}

/// The command is among the processes of a pane.
pub open spec fn runs_command(found: InspectionView, command: CommandView) -> bool {
    exists|i: int|
        0 <= i < found.foreground_processes.len() && attach_process(
            #[trigger] found.foreground_processes[i],
            command,
        )
}

/// Whether the command is among the processes of a pane.
fn sees_command(found: &ReplacementInspection, command: &CommandSpec) -> (r: bool)
    ensures
        r == runs_command(found@, command@),
{
    let ghost all = found@.foreground_processes;
    let mut i: usize = 0;
    while i < found.foreground_processes.len()
        invariant
            i <= found.foreground_processes@.len(),
            all == found@.foreground_processes,
            forall|j: int| 0 <= j < i ==> !attach_process(#[trigger] all[j], command@),
        decreases found.foreground_processes.len() - i,
    {
        assert(all[i as int] == found.foreground_processes@[i as int]@);
        if is_attach_process(&found.foreground_processes[i], command) {
            return true;
        }
        i += 1;
    }
    false
}

/// Why the command was not seen.
pub open spec fn unseen_text(found: Result<InspectionView, FailureView>) -> Seq<char> {
    match found {
        Ok(_) => "no verified tmux attach process was reported"@,
        Err(failure) => failure.full(),
    }
}

/// What follows a question for the command.
#[derive(Debug, PartialEq, Eq)]
pub enum CheckStep {
    /// The command runs.
    Ready(ReplacementReady),
    /// The question is asked again after a pause.
    Again(ReplacementCheck),
    /// The question was asked often enough.
    Failed(ReplacementFailed),
}

impl ReplacementCheck {
    /// What the replacement knows.
    pub closed spec fn known(self) -> ReplacementView {
        ReplacementView {
            pane_id: self.pane_id@,
            source_pane: self.source_pane@,
            occupant: self.source@,
        }
    }

    /// The command that is to be seen.
    pub closed spec fn command_view(self) -> CommandView {
        self.command@
    }

    /// How often the question was asked.
    pub closed spec fn attempts_view(self) -> int {
        self.attempts as int
    }

    /// The pane that is asked.
    pub fn pane_id(&self) -> (pane_id: &str)
        ensures
            pane_id@ == self.known().pane_id,
    {
        self.pane_id.as_str()
    }

    /// Takes the answer to the question what the destination runs.
    pub fn observed(self, reply: Result<HerdrOutput, Failure>) -> (step: CheckStep)
        ensures
            ({
                let found = inspected(reply, self.known().pane_id);
                if found is Ok && runs_command(found->Ok_0, self.command_view()) {
                    step is Ready && step->Ready_0.known() == self.known()
                } else if self.attempts_view() + 1 < VERIFY_ATTEMPTS {
                    step is Again && step->Again_0.known() == self.known()
                        && step->Again_0.command_view() == self.command_view()
                        && step->Again_0.attempts_view() == self.attempts_view() + 1
                } else {
                    step is Failed && step->Failed_0@ == (ReplacementFailedView {
                        pane_id: self.known().pane_id,
                        source_pane: self.known().source_pane,
                        reason: ReasonView::Verification(unseen_text(found)),
                    })
                }
            }),
    {
        let text = match inspection_reply(reply, self.pane_id.as_str()) {
            Ok(found) => {
                if sees_command(&found, &self.command) {
                    return CheckStep::Ready(
                        ReplacementReady {
                            pane_id: self.pane_id,
                            source: self.source,
                            source_pane: self.source_pane,
                        },
                    );
                }
                "no verified tmux attach process was reported".to_owned()
            },
            Err(failure) => failure.detail(),
        };
        if self.attempts < VERIFY_ATTEMPTS - 1 {
            CheckStep::Again(
                ReplacementCheck {
                    pane_id: self.pane_id,
                    command: self.command,
                    source: self.source,
                    source_pane: self.source_pane,
                    attempts: self.attempts + 1,
                },
            )
        } else {
            CheckStep::Failed(
                ReplacementFailed {
                    pane_id: self.pane_id,
                    source_pane: self.source_pane,
                    reason: ReplacementReason::Verification(text),
                },
            )
        }
    }
}

/// What a reader is told of a failed replacement, once its destination was to
/// be closed.
pub open spec fn replacement_failure_text(
    source_pane: Seq<char>,
    pane_id: Seq<char>,
    cleanup: Option<FailureView>,
) -> Seq<char> {
    match cleanup {
        Some(cleanup) => "replacement destination `"@ + pane_id
            + "` failed and cleanup also failed ("@ + cleanup.full() + "); source pane `"@
            + source_pane + "` was preserved"@,
        None => "replacement destination `"@ + pane_id + "` failed and was removed; source pane `"@
            + source_pane + "` was preserved"@,
    }
}

/// What a reader is told of a failed replacement.
pub fn replacement_failure_context(
    source_pane: &str,
    pane_id: &str,
    cleanup: Option<&Failure>,
) -> (text: String)
    ensures
        text@ == replacement_failure_text(
            source_pane@,
            pane_id@,
            match cleanup {
                Some(cleanup) => Some(cleanup@),
                None => None,
            },
        ),
{
    match cleanup {
        Some(cleanup) => "replacement destination `".to_owned().concat(pane_id).concat(
            "` failed and cleanup also failed (",
        ).concat(cleanup.detail().as_str()).concat("); source pane `").concat(source_pane).concat(
            "` was preserved",
        ),
        None => "replacement destination `".to_owned().concat(pane_id).concat(
            "` failed and was removed; source pane `",
        ).concat(source_pane).concat("` was preserved"),
    }
}

impl ReplacementFailed {
    /// The destination, which is to be closed.
    pub fn pane_id(&self) -> (pane_id: &str)
        ensures
            pane_id@ == self@.pane_id,
    {
        self.pane_id.as_str()
    }

    /// Takes the answer to the request to close the destination.
    pub fn cleaned(self, reply: Result<HerdrOutput, Failure>) -> (failure: Failure)
        ensures
            ({
                let text = replacement_failure_text(
                    self@.source_pane,
                    self@.pane_id,
                    done_problem(reply, "close replaced pane"@, "ok"@),
                );
                failure@ == match self@.reason {
                    ReasonView::Launch(cause) => led_to(text, cause),
                    ReasonView::Verification(reason) => plain(
                        text + "; verification failed: "@ + reason,
                    ),
                }
            }),
    {
        let text = match close_reply(reply) {
            Ok(()) => replacement_failure_context(
                self.source_pane.as_str(),
                self.pane_id.as_str(),
                None,
            ),
            Err(cleanup) => replacement_failure_context(
                self.source_pane.as_str(),
                self.pane_id.as_str(),
                Some(&cleanup),
            ),
        };
        match self.reason {
            ReplacementReason::Launch(cause) => cause.context(text),
            ReplacementReason::Verification(reason) => Failure::new(
                text.concat("; verification failed: ").concat(reason.as_str()),
            ),
        }
    }
}

/// What follows the last look at the source.
#[derive(Debug, PartialEq, Eq)]
pub enum RecheckStep {
    /// Nobody else came, so the source is closed.
    CloseSource(ReplacementClose),
    /// The source is left alone.
    Done(PlacedPane),
}

/// How a warning begins: the destination runs, but not all was done.
pub open spec fn running_but(pane_id: Seq<char>, source_pane: Seq<char>) -> Seq<char> {
    "replacement destination `"@ + pane_id + "` is running, but source pane `"@ + source_pane + "`"@
}

/// How a warning begins.
fn running_but_text(pane_id: &str, source_pane: &str) -> (text: String)
    ensures
        text@ == running_but(pane_id@, source_pane@),
{
    "replacement destination `".to_owned().concat(pane_id).concat(
        "` is running, but source pane `",
    ).concat(source_pane).concat("`")
}

/// The source may be closed: its occupant is exactly the one that was there
/// when the replacement began.
pub open spec fn may_close_source(
    found: Result<InspectionView, FailureView>,
    occupant: InspectionView,
) -> bool {
    found == Ok::<InspectionView, FailureView>(occupant)
}

impl ReplacementReady {
    /// What the replacement knows.
    pub closed spec fn known(self) -> ReplacementView {
        ReplacementView {
            pane_id: self.pane_id@,
            source_pane: self.source_pane@,
            occupant: self.source@,
        }
    }

    /// The pane that is looked at once more.
    pub fn source_pane(&self) -> (pane_id: &str)
        ensures
            pane_id@ == self.known().source_pane,
    {
        self.source_pane.as_str()
    }

    /// Takes the answer to the question what the source runs now.
    pub fn rechecked(self, reply: Result<HerdrOutput, Failure>) -> (step: RecheckStep)
        ensures
            ({
                let known = self.known();
                let found = inspected(reply, known.source_pane);
                let head = running_but(known.pane_id, known.source_pane);
                if may_close_source(found, known.occupant) {
                    step is CloseSource && step->CloseSource_0.pane_view() == known.pane_id
                        && step->CloseSource_0.source_view() == known.source_pane
                } else {
                    step is Done && step->Done_0@ == (PlacedView {
                        pane_id: known.pane_id,
                        warning: Some(
                            match found {
                                Ok(_) => head
                                    + " changed during replacement and was preserved"@,
                                Err(failure) => head
                                    + " could not be reverified and was preserved: "@
                                    + failure.full(),
                            },
                        ),
                    })
                }
            }),
    {
        let head = running_but_text(self.pane_id.as_str(), self.source_pane.as_str());
        match inspection_reply(reply, self.source_pane.as_str()) {
            Ok(current) => {
                if current.same(&self.source) {
                    RecheckStep::CloseSource(
                        ReplacementClose { pane_id: self.pane_id, source_pane: self.source_pane },
                    )
                } else {
                    RecheckStep::Done(
                        PlacedPane {
                            pane_id: self.pane_id,
                            warning: Some(
                                head.concat(" changed during replacement and was preserved"),
                            ),
                        },
                    )
                }
            },
            Err(failure) => RecheckStep::Done(
                PlacedPane {
                    pane_id: self.pane_id,
                    warning: Some(
                        head.concat(" could not be reverified and was preserved: ").concat(
                            failure.detail().as_str(),
                        ),
                    ),
                },
            ),
        }
    }
}

impl ReplacementClose {
    /// The destination.
    pub closed spec fn pane_view(self) -> Seq<char> {
        self.pane_id@
    }

    /// The source.
    pub closed spec fn source_view(self) -> Seq<char> {
        self.source_pane@
    }

    /// The source, which is to be closed.
    pub fn source_pane(&self) -> (pane_id: &str)
        ensures
            pane_id@ == self.source_view(),
    {
        self.source_pane.as_str()
    }

    /// Takes the answer to the request to close the source.
    pub fn closed(self, reply: Result<HerdrOutput, Failure>) -> (placed: PlacedPane)
        ensures
            placed@ == (PlacedView {
                pane_id: self.pane_view(),
                warning: match done_problem(reply, "close replaced pane"@, "ok"@) {
                    None => None,
                    Some(failure) => Some(
                        running_but(self.pane_view(), self.source_view())
                            + " could not be closed: "@ + failure.full(),
                    ),
                },
            }),
    {
        match close_reply(reply) {
            Ok(()) => PlacedPane { pane_id: self.pane_id, warning: None },
            Err(failure) => {
                let warning = running_but_text(
                    self.pane_id.as_str(),
                    self.source_pane.as_str(),
                ).concat(" could not be closed: ").concat(failure.detail().as_str());
                PlacedPane { pane_id: self.pane_id, warning: Some(warning) }
            },
        }
    }
}

/// A source whose occupant changed, or who cannot be seen, is never closed.
pub proof fn changed_sources_are_preserved(
    found: Result<InspectionView, FailureView>,
    occupant: InspectionView,
)
    requires
        found is Err || found->Ok_0 != occupant,
    ensures
        !may_close_source(found, occupant),
{
}

} // verus!
