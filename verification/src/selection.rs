//! What is opened: hosts and commands as they are asked for by name, and the
//! choices of the picker.

use vstd::prelude::*;
use vstd::string::*;

use crate::config::{
    alias_host, host_named, host_position, host_position_finds, host_views, preset_views,
    with_aliases, CommandPreset, Config, ConfigView, HostConfig, HostView, PresetView,
};
use crate::discovery::DiscoveryLimits;
use crate::failure::{plain, Failure};
use crate::model::{ExternalSessionName, HerdrAgentKind, Placement, SessionId};
use crate::state::agent_view;
use crate::text::{
    blank, chars_of, holds_text, is_blank, opt_view, same_text, text_between, views,
};

verus! {

/// This machine as a host.
pub open spec fn local_host() -> HostView {
    HostView { name: "local"@, target: "local"@, roots: Seq::empty(), presets: Seq::empty() }
}

/// The host of a name: this machine, a configured one, or an SSH alias.
pub open spec fn resolved_host(config: ConfigView, aliases: Seq<Seq<char>>, name: Seq<char>) -> Option<
    HostView,
> {
    if name == "local"@ {
        Some(local_host())
    } else {
        match host_position(config.hosts, name) {
            Some(at) => Some(config.hosts[at]),
            None => if aliases.contains(name) {
                Some(alias_host(name))
            } else {
                None
            },
        }
    }
}

/// A host without roots and presets.
fn bare_host(name: &str) -> (host: HostConfig)
    ensures
        host@ == alias_host(name@),
{
    let host = HostConfig {
        name: name.to_owned(),
        target: name.to_owned(),
        roots: Vec::new(),
        presets: Vec::new(),
    };
    assert(host@ =~= alias_host(name@)) by {
        assert(views(host.roots@) =~= Seq::empty());
        assert(preset_views(host.presets@) =~= Seq::empty());
    }
    host
}

/// The host of a name, or a failure that names it.
pub fn resolve_host_from(config: &Config, aliases: &Vec<String>, name: &str) -> (r: Result<
    HostConfig,
    Failure,
>)
    ensures
        match resolved_host(config@, views(aliases@), name@) {
            Some(host) => r is Ok && r->Ok_0@ == host,
            None => r is Err && r->Err_0@ == plain("unknown host `"@ + name@ + "`"@),
        },
{
    if same_text(name, "local") {
        return Ok(bare_host("local"));
    }
    let ghost all = config@.hosts;
    let mut i: usize = 0;
    while i < config.hosts.len()
        invariant
            i <= config.hosts@.len(),
            all == config@.hosts,
            name@ != "local"@,
            forall|j: int| 0 <= j < i ==> (#[trigger] all[j]).name != name@,
        decreases config.hosts.len() - i,
    {
        assert(all[i as int] == config.hosts@[i as int]@);
        if same_text(config.hosts[i].name.as_str(), name) {
            proof {
                host_position_finds(all, name@);
                let at = host_position(all, name@);
                assert(host_named(all, name@));
                assert(at is Some);
                if at->0 < i {
                    assert(all[at->0].name != name@);
                }
                if i < at->0 {
                    assert(all.take(at->0)[i as int] == all[i as int]);
                    assert(host_named(all.take(at->0), name@));
                }
            }
            return Ok(config.hosts[i].clone());
        }
        i += 1;
    }
    proof {
        host_position_finds(all, name@);
    }
    if holds_text(aliases, name) {
        return Ok(bare_host(name));
    }
    Err(Failure::new("unknown host `".to_owned().concat(name).concat("`")))
}

/// A command as it was asked for: its preset, its text and its agent.
pub struct CommandChoiceView {
    pub preset: Option<Seq<char>>,
    pub command: Seq<char>,
    pub agent: Option<Seq<char>>,
}

/// A command as it was asked for: its preset, its text and its agent.
#[derive(Debug, PartialEq, Eq)]
pub struct CommandChoice {
    pub preset: Option<String>,
    pub command: String,
    pub agent: Option<HerdrAgentKind>,
}

impl View for CommandChoice {
    type V = CommandChoiceView;

    open spec fn view(&self) -> CommandChoiceView {
        CommandChoiceView {
            preset: opt_view(self.preset),
            command: self.command@,
            agent: agent_view(self.agent),
        }
    }
}

/// The position of the first preset of a name.
pub open spec fn preset_position(presets: Seq<PresetView>, name: Seq<char>) -> Option<int>
    decreases presets.len(),
{
    if presets.len() == 0 {
        None
    } else {
        match preset_position(presets.drop_last(), name) {
            Some(at) => Some(at),
            None => if presets.last().name == name {
                Some(presets.len() - 1)
            } else {
                None
            },
        }
    }
}

/// A preset that is found among the first is found among all.
proof fn lemma_preset_stays(presets: Seq<PresetView>, name: Seq<char>, k: int)
    requires
        0 <= k <= presets.len(),
    ensures
        preset_position(presets.take(k), name) is Some ==> preset_position(presets, name)
            == preset_position(presets.take(k), name),
    decreases presets.len(),
{
    if k < presets.len() {
        assert(presets.drop_last().take(k) =~= presets.take(k));
        lemma_preset_stays(presets.drop_last(), name, k);
    } else {
        assert(presets.take(k) =~= presets);
    }
}

/// The position of the first preset of a name.
fn find_preset(host: &HostConfig, name: &str) -> (at: Option<usize>)
    ensures
        match (at, preset_position(host@.presets, name@)) {
            (Some(at), Some(wanted)) => at == wanted && at < host.presets@.len(),
            (None, None) => true,
            _ => false,
        },
{
    let ghost all = host@.presets;
    let mut i: usize = 0;
    while i < host.presets.len()
        invariant
            i <= host.presets@.len(),
            all == host@.presets,
            preset_position(all.take(i as int), name@) is None,
        decreases host.presets.len() - i,
    {
        let found = &host.presets[i];
        proof {
            assert(all.take(i + 1).drop_last() =~= all.take(i as int));
            assert(all.take(i + 1).last() == found@);
            lemma_preset_stays(all, name@, i + 1);
        }
        if same_text(found.name.as_str(), name) {
            return Some(i);
        }
        i += 1;
    }
    assert(all.take(i as int) =~= all);
    None
}

/// The command that was asked for, or why it cannot be told.
pub open spec fn chosen_command(
    host: HostView,
    preset: Option<Seq<char>>,
    command: Option<Seq<char>>,
) -> Result<CommandChoiceView, Seq<char>> {
    match (preset, command) {
        (Some(name), None) => match preset_position(host.presets, name) {
            Some(at) => Ok(
                CommandChoiceView {
                    preset: Some(name),
                    command: host.presets[at].command,
                    agent: host.presets[at].herdr_agent,
                },
            ),
            None => Err("unknown preset `"@ + name + "` for host `"@ + host.name + "`"@),
        },
        (None, Some(command)) => if blank(command) {
            Err("--command must not be empty"@)
        } else {
            Ok(CommandChoiceView { preset: None, command, agent: None })
        },
        _ => Err("exactly one of --command or --preset is required"@),
    }
}

/// The command that was asked for.
pub fn resolve_command(host: &HostConfig, preset: Option<String>, command: Option<String>) -> (r:
    Result<CommandChoice, Failure>)
    ensures
        match chosen_command(host@, opt_view(preset), opt_view(command)) {
            Ok(choice) => r is Ok && r->Ok_0@ == choice,
            Err(text) => r is Err && r->Err_0@ == plain(text),
        },
{
    match (preset, command) {
        (Some(name), None) => {
            match find_preset(host, name.as_str()) {
                Some(at) => {
                    let found = &host.presets[at];
                    assert(host@.presets[at as int] == found@);
                    Ok(
                        CommandChoice {
                            preset: Some(name),
                            command: found.command.clone(),
                            agent: copy_kind(&found.herdr_agent),
                        },
                    )
                },
                None => Err(
                    Failure::new(
                        "unknown preset `".to_owned().concat(name.as_str()).concat(
                            "` for host `",
                        ).concat(host.name.as_str()).concat("`"),
                    ),
                ),
            }
        },
        (None, Some(command)) => {
            if is_blank(command.as_str()) {
                Err(Failure::new("--command must not be empty".to_owned()))
            } else {
                Ok(CommandChoice { preset: None, command, agent: None })
            }
        },
        _ => Err(
            Failure::new("exactly one of --command or --preset is required".to_owned()),
        ),
    }
}

/// A preset as it is written on the command line.
#[derive(Debug, PartialEq, Eq)]
pub struct CommandPresetArg {
    pub name: String,
    pub command: String,
}

/// The position of the first equals sign.
pub open spec fn equals_at(text: Seq<char>) -> Option<int>
    decreases text.len(),
{
    if text.len() == 0 {
        None
    } else if text[0] == '=' {
        Some(0)
    } else {
        match equals_at(text.drop_first()) {
            Some(at) => Some(at + 1),
            None => None,
        }
    }
}

/// An equals sign that is found stands where it was found.
proof fn lemma_equals_at(text: Seq<char>)
    ensures
        match equals_at(text) {
            Some(at) => 0 <= at < text.len() && text[at] == '=',
            None => !text.contains('='),
        },
    decreases text.len(),
{
    if text.len() > 0 && text[0] != '=' {
        let rest = text.drop_first();
        lemma_equals_at(rest);
        match equals_at(rest) {
            Some(at) => {
                assert(text[at + 1] == rest[at]);
            },
            None => {
                assert forall|i: int| 0 <= i < text.len() implies text[i] != '=' by {
                    if i > 0 {
                        assert(text[i] == rest[i - 1]);
                        assert(rest.contains(rest[i - 1]));
                    }
                }
            },
        }
    }
}

/// A preset as it is written on the command line: `NAME=COMMAND`.
pub fn parse_preset(value: &str) -> (r: Result<CommandPresetArg, String>)
    ensures
        match equals_at(value@) {
            None => r is Err && r->Err_0@ == "expected NAME=COMMAND"@,
            Some(at) => {
                let name = value@.take(at);
                let command = value@.skip(at + 1);
                if blank(name) || blank(command) {
                    r is Err && r->Err_0@ == "preset name and command must not be empty"@
                } else {
                    r is Ok && r->Ok_0.name@ == name && r->Ok_0.command@ == command
                }
            },
        },
{
    let chars = chars_of(value);
    let mut at: usize = 0;
    assert(value@.skip(0) =~= value@);
    while at < chars.len() && chars[at] != '='
        invariant
            at <= chars@.len(),
            chars@ == value@,
            equals_at(value@) == match equals_at(value@.skip(at as int)) {
                Some(found) => Some(found + at),
                None => None::<int>,
            },
        decreases chars.len() - at,
    {
        assert(value@.skip(at as int).drop_first() =~= value@.skip(at + 1));
        at += 1;
    }
    if at >= chars.len() {
        assert(value@.skip(at as int).len() == 0);
        return Err("expected NAME=COMMAND".to_owned());
    }
    assert(equals_at(value@) == Some(at as int));
    let name = text_between(&chars, 0, at);
    let command = text_between(&chars, at + 1, chars.len());
    assert(name@ =~= value@.take(at as int));
    assert(command@ =~= value@.skip(at + 1));
    if is_blank(name.as_str()) || is_blank(command.as_str()) {
        return Err("preset name and command must not be empty".to_owned());
    }
    Ok(CommandPresetArg { name, command })
}

/// What was asked for on the command line.
#[derive(Debug, PartialEq, Eq)]
pub struct OpenRequest {
    pub host: Option<String>,
    pub directory: Option<String>,
    pub command: Option<String>,
    pub preset: Option<String>,
    pub herdr_agent: Option<HerdrAgentKind>,
    pub placement: Option<Placement>,
}

/// The contents of an [`OpenRequest`].
pub struct RequestView {
    pub host: Option<Seq<char>>,
    pub directory: Option<Seq<char>>,
    pub command: Option<Seq<char>>,
    pub preset: Option<Seq<char>>,
    pub herdr_agent: Option<Seq<char>>,
    pub placement: Option<Placement>,
}

impl View for OpenRequest {
    type V = RequestView;

    open spec fn view(&self) -> RequestView {
        RequestView {
            host: opt_view(self.host),
            directory: opt_view(self.directory),
            command: opt_view(self.command),
            preset: opt_view(self.preset),
            herdr_agent: agent_view(self.herdr_agent),
            placement: self.placement,
        }
    }
}

/// A workload that is to be made.
#[derive(Debug, PartialEq, Eq)]
pub struct OpenSelection {
    pub host: String,
    pub directory: String,
    pub preset: Option<String>,
    pub herdr_agent: Option<HerdrAgentKind>,
    pub command: String,
    pub placement: Placement,
}

/// The contents of an [`OpenSelection`].
pub struct SelectionView {
    pub host: Seq<char>,
    pub directory: Seq<char>,
    pub preset: Option<Seq<char>>,
    pub herdr_agent: Option<Seq<char>>,
    pub command: Seq<char>,
    pub placement: Placement,
}

impl View for OpenSelection {
    type V = SelectionView;

    open spec fn view(&self) -> SelectionView {
        SelectionView {
            host: self.host@,
            directory: self.directory@,
            preset: opt_view(self.preset),
            herdr_agent: agent_view(self.herdr_agent),
            command: self.command@,
            placement: self.placement,
        }
    }
}

/// What a person chose in the picker.
#[derive(Debug, PartialEq, Eq)]
pub enum PickerSelection {
    Create(OpenSelection),
    Resume { id: SessionId, placement: Placement },
    Restart { id: SessionId, placement: Placement },
    AttachExternal {
        host: String,
        target: Option<String>,
        name: ExternalSessionName,
        placement: Placement,
    },
    ManageObservers,
}

/// The contents of a [`PickerSelection`].
pub enum PickView {
    Create(SelectionView),
    Resume { id: SessionId, placement: Placement },
    Restart { id: SessionId, placement: Placement },
    AttachExternal {
        host: Seq<char>,
        target: Option<Seq<char>>,
        name: Seq<char>,
        placement: Placement,
    },
    ManageObservers,
}

impl View for PickerSelection {
    type V = PickView;

    open spec fn view(&self) -> PickView {
        match self {
            PickerSelection::Create(selection) => PickView::Create(selection@),
            PickerSelection::Resume { id, placement } => PickView::Resume {
                id: *id,
                placement: *placement,
            },
            PickerSelection::Restart { id, placement } => PickView::Restart {
                id: *id,
                placement: *placement,
            },
            PickerSelection::AttachExternal { host, target, name, placement } =>
                PickView::AttachExternal {
                host: host@,
                target: opt_view(*target),
                name: name@,
                placement: *placement,
            },
            PickerSelection::ManageObservers => PickView::ManageObservers,
        }
    }
}

/// One value where it is given, and another where it is not.
pub open spec fn or_else(a: Option<Seq<char>>, b: Option<Seq<char>>) -> Option<Seq<char>> {
    if a is Some {
        a
    } else {
        b
    }
}

/// The placement that was asked for, or the usual one.
pub open spec fn placement_or(asked: Option<Placement>, usual: Placement) -> Placement {
    match asked {
        Some(placement) => placement,
        None => usual,
    }
}

/// A copy of an optional agent kind.
fn copy_kind(kind: &Option<HerdrAgentKind>) -> (copy: Option<HerdrAgentKind>)
    ensures
        copy == *kind,
{
    match kind {
        Some(kind) => Some(kind.clone()),
        None => None,
    }
}

/// Nothing needs to be picked: host, directory and command were all given.
pub open spec fn complete(request: RequestView) -> bool {
    request.host is Some && request.directory is Some && (request.command is Some || request.preset
        is Some)
}

/// The workload that the command line asks for, or why it cannot be told.
pub open spec fn selected_by_args(
    config: ConfigView,
    aliases: Seq<Seq<char>>,
    request: RequestView,
) -> Result<SelectionView, Seq<char>> {
    match request.host {
        None => Err("--host is required"@),
        Some(name) => match resolved_host(config, aliases, name) {
            None => Err("unknown host `"@ + name + "`"@),
            Some(host) => match chosen_command(host, request.preset, request.command) {
                Err(text) => Err(text),
                Ok(choice) => match request.directory {
                    None => Err("--directory is required"@),
                    Some(directory) => Ok(
                        SelectionView {
                            host: name,
                            directory,
                            preset: choice.preset,
                            herdr_agent: or_else(request.herdr_agent, choice.agent),
                            command: choice.command,
                            placement: placement_or(request.placement, config.ui.placement),
                        },
                    ),
                },
            },
        },
    }
}

/// Whether nothing needs to be picked.
pub fn is_complete(request: &OpenRequest) -> (r: bool)
    ensures
        r == complete(request@),
{
    request.host.is_some() && request.directory.is_some() && (request.command.is_some()
        || request.preset.is_some())
}

/// The workload that the command line asks for.
pub fn selection_from_args(config: &Config, aliases: &Vec<String>, request: OpenRequest) -> (r:
    Result<OpenSelection, Failure>)
    ensures
        match selected_by_args(config@, views(aliases@), request@) {
            Ok(selection) => r is Ok && r->Ok_0@ == selection,
            Err(text) => r is Err && r->Err_0@ == plain(text),
        },
{
    let name = match request.host {
        Some(name) => name,
        None => {
            return Err(Failure::new("--host is required".to_owned()));
        },
    };
    let host = match resolve_host_from(config, aliases, name.as_str()) {
        Ok(host) => host,
        Err(failure) => {
            return Err(failure);
        },
    };
    let choice = match resolve_command(&host, request.preset, request.command) {
        Ok(choice) => choice,
        Err(failure) => {
            return Err(failure);
        },
    };
    let directory = match request.directory {
        Some(directory) => directory,
        None => {
            return Err(Failure::new("--directory is required".to_owned()));
        },
    };
    Ok(
        OpenSelection {
            host: name,
            directory,
            preset: choice.preset,
            herdr_agent: match request.herdr_agent {
                Some(kind) => Some(kind),
                None => choice.agent,
            },
            command: choice.command,
            placement: match request.placement {
                Some(placement) => placement,
                None => config.ui.placement,
            },
        },
    )
}

/// A picked workload with what the command line asks for in its place.
pub open spec fn overridden_workload(
    config: ConfigView,
    aliases: Seq<Seq<char>>,
    request: RequestView,
    picked: SelectionView,
) -> Result<SelectionView, Seq<char>> {
    let host_name = match request.host {
        Some(name) => name,
        None => picked.host,
    };
    let directory = match request.directory {
        Some(directory) => directory,
        None => picked.directory,
    };
    let placement = placement_or(request.placement, picked.placement);
    if request.host is Some && resolved_host(config, aliases, host_name) is None {
        Err("unknown host `"@ + host_name + "`"@)
    } else if request.command is Some || request.preset is Some {
        match resolved_host(config, aliases, host_name) {
            None => Err("unknown host `"@ + host_name + "`"@),
            Some(host) => match chosen_command(host, request.preset, request.command) {
                Err(text) => Err(text),
                Ok(choice) => Ok(
                    SelectionView {
                        host: host_name,
                        directory,
                        preset: choice.preset,
                        herdr_agent: or_else(request.herdr_agent, choice.agent),
                        command: choice.command,
                        placement,
                    },
                ),
            },
        }
    } else {
        Ok(
            SelectionView {
                host: host_name,
                directory,
                herdr_agent: or_else(request.herdr_agent, picked.herdr_agent),
                placement,
                ..picked
            },
        )
    }
}

/// A choice of the picker with what the command line asks for in its place.
pub open spec fn overridden(
    config: ConfigView,
    aliases: Seq<Seq<char>>,
    request: RequestView,
    picked: PickView,
) -> Result<PickView, Seq<char>> {
    match picked {
        PickView::Create(selection) => match overridden_workload(
            config,
            aliases,
            request,
            selection,
        ) {
            Ok(selection) => Ok(PickView::Create(selection)),
            Err(text) => Err(text),
        },
        PickView::Resume { id, placement } => Ok(
            PickView::Resume { id, placement: placement_or(request.placement, placement) },
        ),
        PickView::Restart { id, placement } => Ok(
            PickView::Restart { id, placement: placement_or(request.placement, placement) },
        ),
        PickView::AttachExternal { host, target, name, placement } => Ok(
            PickView::AttachExternal {
                host,
                target,
                name,
                placement: placement_or(request.placement, placement),
            },
        ),
        PickView::ManageObservers => Ok(PickView::ManageObservers),
    }
}

/// A picked workload with what the command line asks for in its place.
fn override_workload(
    config: &Config,
    aliases: &Vec<String>,
    request: OpenRequest,
    picked: OpenSelection,
) -> (r: Result<OpenSelection, Failure>)
    ensures
        match overridden_workload(config@, views(aliases@), request@, picked@) {
            Ok(selection) => r is Ok && r->Ok_0@ == selection,
            Err(text) => r is Err && r->Err_0@ == plain(text),
        },
{
    let mut selection = picked;
    let asked = request.command.is_some() || request.preset.is_some();
    if let Some(name) = request.host {
        match resolve_host_from(config, aliases, name.as_str()) {
            Ok(_) => {},
            Err(failure) => {
                return Err(failure);
            },
        }
        selection.host = name;
    }
    if let Some(directory) = request.directory {
        selection.directory = directory;
    }
    if asked {
        let host = match resolve_host_from(config, aliases, selection.host.as_str()) {
            Ok(host) => host,
            Err(failure) => {
                return Err(failure);
            },
        };
        let choice = match resolve_command(&host, request.preset, request.command) {
            Ok(choice) => choice,
            Err(failure) => {
                return Err(failure);
            },
        };
        selection.preset = choice.preset;
        selection.command = choice.command;
        selection.herdr_agent = choice.agent;
    }
    if let Some(kind) = request.herdr_agent {
        selection.herdr_agent = Some(kind);
    }
    if let Some(placement) = request.placement {
        selection.placement = placement;
    }
    Ok(selection)
}

/// A choice of the picker with what the command line asks for in its place.
pub fn selection_from_picker(
    config: &Config,
    aliases: &Vec<String>,
    request: OpenRequest,
    picked: PickerSelection,
) -> (r: Result<PickerSelection, Failure>)
    ensures
        match overridden(config@, views(aliases@), request@, picked@) {
            Ok(selection) => r is Ok && r->Ok_0@ == selection,
            Err(text) => r is Err && r->Err_0@ == plain(text),
        },
{
    let asked = request.placement;
    match picked {
        PickerSelection::Create(selection) => match override_workload(
            config,
            aliases,
            request,
            selection,
        ) {
            Ok(selection) => Ok(PickerSelection::Create(selection)),
            Err(failure) => Err(failure),
        },
        PickerSelection::Resume { id, placement } => Ok(
            PickerSelection::Resume { id, placement: choose_placement(asked, placement) },
        ),
        PickerSelection::Restart { id, placement } => Ok(
            PickerSelection::Restart { id, placement: choose_placement(asked, placement) },
        ),
        PickerSelection::AttachExternal { host, target, name, placement } => Ok(
            PickerSelection::AttachExternal {
                host,
                target,
                name,
                placement: choose_placement(asked, placement),
            },
        ),
        PickerSelection::ManageObservers => Ok(PickerSelection::ManageObservers),
    }
}

/// The placement that was asked for, or the usual one.
pub fn choose_placement(asked: Option<Placement>, usual: Placement) -> (placement: Placement)
    ensures
        placement == placement_or(asked, usual),
{
    match asked {
        Some(placement) => placement,
        None => usual,
    }
}

/// Where a host of the picker comes from.
#[derive(Clone, Copy, Debug, PartialEq, Eq, Structural)]
pub enum PickerHostOrigin {
    /// It is configured, or an alias.
    Effective,
    /// Only workloads remember it.
    Retained,
}

/// A command that the picker offers.
#[derive(Debug, PartialEq, Eq)]
pub enum PickerCommand {
    Shell,
    Preset(CommandPreset),
}

/// A host that the picker offers.
#[derive(Debug, PartialEq, Eq)]
pub struct PickerHost {
    pub name: String,
    pub label: String,
    pub target: Option<String>,
    pub origin: PickerHostOrigin,
    pub directories: Vec<String>,
    pub scan_roots: Vec<String>,
    pub commands: Vec<PickerCommand>,
    pub workloads: Vec<SessionId>,
    pub allow_existing: bool,
    pub allow_create: bool,
}

/// What the picker offers.
#[derive(Debug, PartialEq, Eq)]
pub struct PickerOptions {
    pub hosts: Vec<PickerHost>,
    pub default_placement: Placement,
}

/// The hosts of a name, in order.
pub open spec fn hosts_of_name(hosts: Seq<PickerHost>, name: Seq<char>) -> Seq<PickerHost>
    decreases hosts.len(),
{
    if hosts.len() == 0 {
        Seq::empty()
    } else {
        let front = hosts_of_name(hosts.drop_last(), name);
        if hosts.last().name@ == name {
            front.push(hosts.last())
        } else {
            front
        }
    }
}

/// Keeps the hosts of the name that was asked for, wherever they come from.
pub fn retain_requested_host_groups(options: &mut PickerOptions, requested_host: Option<&str>)
    ensures
        final(options).default_placement == old(options).default_placement,
        final(options).hosts@ == match requested_host {
            Some(name) => hosts_of_name(old(options).hosts@, name@),
            None => old(options).hosts@,
        },
{
    let name = match requested_host {
        Some(name) => name,
        None => {
            return;
        },
    };
    let ghost all = options.hosts@;
    let ghost usual = options.default_placement;
    let mut kept: Vec<PickerHost> = Vec::new();
    assert(all.take(0) =~= Seq::empty());
    assert(options.hosts@ =~= all.skip(0));
    while options.hosts.len() > 0
        invariant
            options.default_placement == usual,
            options.hosts@.len() <= all.len(),
            options.hosts@ == all.skip(all.len() - options.hosts@.len()),
            kept@ == hosts_of_name(all.take(all.len() - options.hosts@.len()), name@),
        decreases options.hosts.len(),
    {
        let ghost at = all.len() - options.hosts@.len();
        let host = options.hosts.remove(0);
        proof {
            assert(host == all[at]);
            assert(all.take(at + 1).drop_last() =~= all.take(at));
            assert(all.take(at + 1).last() == host);
            assert(options.hosts@ =~= all.skip(at + 1));
        }
        if same_text(host.name.as_str(), name) {
            kept.push(host);
        }
    }
    assert(all.take(all.len() as int) =~= all);
    options.hosts = kept;
}

/// A host as it is offered where only a new workload is wanted.
pub open spec fn offers_creation(before: PickerHost, after: PickerHost) -> bool {
    &&& after.name == before.name
    &&& after.label == before.label
    &&& after.target == before.target
    &&& after.origin == before.origin
    &&& after.directories == before.directories
    &&& after.scan_roots == before.scan_roots
    &&& after.commands == before.commands
    &&& after.workloads@.len() == 0
    &&& !after.allow_existing
    &&& after.allow_create == before.allow_create
}

/// The effective hosts, in order.
pub open spec fn effective_hosts(hosts: Seq<PickerHost>) -> Seq<PickerHost>
    decreases hosts.len(),
{
    if hosts.len() == 0 {
        Seq::empty()
    } else {
        let front = effective_hosts(hosts.drop_last());
        if hosts.last().origin == PickerHostOrigin::Effective {
            front.push(hosts.last())
        } else {
            front
        }
    }
}

/// Keeps what the picker offers to a new workload: effective hosts, and none of
/// their workloads.
pub fn offer_only_creation(options: &mut PickerOptions)
    ensures
        final(options).default_placement == old(options).default_placement,
        final(options).hosts@.len() == effective_hosts(old(options).hosts@).len(),
        forall|i: int|
            0 <= i < final(options).hosts@.len() ==> offers_creation(
                effective_hosts(old(options).hosts@)[i],
                #[trigger] final(options).hosts@[i],
            ),
{
    let ghost all = options.hosts@;
    let ghost usual = options.default_placement;
    let mut kept: Vec<PickerHost> = Vec::new();
    assert(all.take(0) =~= Seq::empty());
    assert(options.hosts@ =~= all.skip(0));
    while options.hosts.len() > 0
        invariant
            options.default_placement == usual,
            options.hosts@.len() <= all.len(),
            options.hosts@ == all.skip(all.len() - options.hosts@.len()),
            kept@.len() == effective_hosts(all.take(all.len() - options.hosts@.len())).len(),
            forall|i: int|
                0 <= i < kept@.len() ==> offers_creation(
                    effective_hosts(all.take(all.len() - options.hosts@.len()))[i],
                    #[trigger] kept@[i],
                ),
        decreases options.hosts.len(),
    {
        let ghost at = all.len() - options.hosts@.len();
        let mut host = options.hosts.remove(0);
        proof {
            assert(host == all[at]);
            assert(all.take(at + 1).drop_last() =~= all.take(at));
            assert(all.take(at + 1).last() == host);
            assert(options.hosts@ =~= all.skip(at + 1));
        }
        if host.origin == PickerHostOrigin::Effective {
            let ghost before = kept@;
            host.workloads = Vec::new();
            host.allow_existing = false;
            assert(offers_creation(all[at], host));
            kept.push(host);
            assert forall|i: int| 0 <= i < kept@.len() implies offers_creation(
                effective_hosts(all.take(at + 1))[i],
                #[trigger] kept@[i],
            ) by {
                if i < before.len() {
                    assert(kept@[i] == before[i]);
                    assert(effective_hosts(all.take(at + 1))[i] == effective_hosts(
                        all.take(at),
                    )[i]);
                }
            }
        }
    }
    assert(all.take(all.len() as int) =~= all);
    options.hosts = kept;
}

/// The hosts that a request is about: configured ones and aliases, or only
/// those of the name that was asked for.
pub open spec fn hosts_in_scope(hosts: Seq<HostView>, requested: Option<Seq<char>>) -> Seq<HostView>
    decreases hosts.len(),
{
    match requested {
        None => hosts,
        Some(name) => if hosts.len() == 0 {
            Seq::empty()
        } else {
            let front = hosts_in_scope(hosts.drop_last(), requested);
            if hosts.last().name == name {
                front.push(hosts.last())
            } else {
                front
            }
        },
    }
}

/// Keeps the hosts that a request is about, and says whether this machine is
/// one of them.
pub fn scope_to_request(config: &mut Config, aliases: &Vec<String>, requested_host: Option<&str>) -> (include_local:
    bool)
    ensures
        include_local == (requested_host is None || requested_host->0@ == "local"@),
        final(config)@ == (ConfigView {
            hosts: hosts_in_scope(
                with_aliases(old(config)@.hosts, views(aliases@)),
                crate::pane_title::str_view(requested_host),
            ),
            ..old(config)@
        }),
{
    let ghost known = config@;
    config.append_alias_hosts(aliases);
    let name = match requested_host {
        Some(name) => name,
        None => {
            return true;
        },
    };
    let ghost all = config@.hosts;
    let ghost requested = Some(name@);
    let mut kept: Vec<HostConfig> = Vec::new();
    let mut i: usize = 0;
    assert(host_views(kept@) =~= hosts_in_scope(all.take(0), requested));
    while i < config.hosts.len()
        invariant
            i <= config.hosts@.len(),
            all == host_views(config.hosts@),
            config@ == (ConfigView { hosts: all, ..known }),
            requested == Some(name@),
            host_views(kept@) == hosts_in_scope(all.take(i as int), requested),
        decreases config.hosts.len() - i,
    {
        assert(all.take(i + 1).drop_last() =~= all.take(i as int));
        assert(all.take(i + 1).last() == config.hosts@[i as int]@);
        if same_text(config.hosts[i].name.as_str(), name) {
            let host = config.hosts[i].clone();
            let ghost before = kept@;
            let ghost shown = host@;
            kept.push(host);
            assert(host_views(kept@) =~= host_views(before).push(shown));
        }
        i += 1;
    }
    assert(all.take(i as int) =~= all);
    config.hosts = kept;
    same_text(name, "local")
}

/// The bounds of a search, as they are configured.
pub fn discovery_limits(config: &Config) -> (limits: DiscoveryLimits)
    requires
        config.discovery.timeout_seconds * 1_000_000_000 <= u64::MAX,
    ensures
        limits == (DiscoveryLimits {
            max_depth: config.discovery.max_depth,
            max_entries: config.discovery.max_entries,
            max_results: config.discovery.max_results,
            timeout_nanos: (config.discovery.timeout_seconds * 1_000_000_000) as u64,
            workers: config.discovery.workers,
        }),
{
    DiscoveryLimits {
        max_depth: config.discovery.max_depth,
        max_entries: config.discovery.max_entries,
        max_results: config.discovery.max_results,
        timeout_nanos: config.discovery.timeout_seconds * 1_000_000_000,
        workers: config.discovery.workers,
    }
}

/// A host as it is listed.
#[derive(Debug, PartialEq, Eq)]
pub struct HostListEntry {
    pub name: String,
    pub target: String,
    pub source: &'static str,
}

/// The contents of each listed host.
pub open spec fn entry_views(entries: Seq<HostListEntry>) -> Seq<(Seq<char>, Seq<char>, Seq<char>)> {
    entries.map_values(|entry: HostListEntry| (entry.name@, entry.target@, entry.source@))
}

/// The aliases whose names no configured host has.
pub open spec fn free_aliases(hosts: Seq<HostView>, aliases: Seq<Seq<char>>) -> Seq<(
    Seq<char>,
    Seq<char>,
    Seq<char>,
)>
    decreases aliases.len(),
{
    if aliases.len() == 0 {
        Seq::empty()
    } else {
        let front = free_aliases(hosts, aliases.drop_last());
        if host_named(hosts, aliases.last()) {
            front
        } else {
            front.push((aliases.last(), aliases.last(), "ssh_config"@))
        }
    }
}

/// The hosts as they are listed: this machine, the configured ones, and the
/// aliases whose names are not taken.
pub open spec fn host_list(config: ConfigView, aliases: Seq<Seq<char>>) -> Seq<(
    Seq<char>,
    Seq<char>,
    Seq<char>,
)> {
    seq![("local"@, "local"@, "builtin"@)] + config.hosts.map_values(
        |host: HostView| (host.name, host.target, "configured"@),
    ) + free_aliases(config.hosts, aliases)
}

/// The hosts as they are listed.
pub fn list_hosts(config: &Config, aliases: &Vec<String>) -> (entries: Vec<HostListEntry>)
    ensures
        entry_views(entries@) == host_list(config@, views(aliases@)),
{
    let ghost hosts = config@.hosts;
    let ghost configured = hosts.map_values(
        |host: HostView| (host.name, host.target, "configured"@),
    );
    let ghost head = seq![("local"@, "local"@, "builtin"@)];
    let mut entries: Vec<HostListEntry> = Vec::new();
    entries.push(
        HostListEntry { name: "local".to_owned(), target: "local".to_owned(), source: "builtin" },
    );
    let mut i: usize = 0;
    assert(entry_views(entries@) =~= head + configured.take(0));
    while i < config.hosts.len()
        invariant
            i <= config.hosts@.len(),
            hosts == config@.hosts,
            configured == hosts.map_values(
                |host: HostView| (host.name, host.target, "configured"@),
            ),
            entry_views(entries@) == head + configured.take(i as int),
        decreases config.hosts.len() - i,
    {
        let host = &config.hosts[i];
        assert(hosts[i as int] == host@);
        let ghost before = entries@;
        entries.push(
            HostListEntry {
                name: host.name.clone(),
                target: host.target.clone(),
                source: "configured",
            },
        );
        assert(entry_views(entries@) =~= entry_views(before).push(configured[i as int]));
        i += 1;
        assert(head + configured.take(i as int) =~= (head + configured.take(i - 1)).push(
            configured[i - 1],
        ));
    }
    assert(configured.take(i as int) =~= configured);
    let ghost front = head + configured;
    let ghost names = views(aliases@);
    let mut k: usize = 0;
    assert(front + free_aliases(hosts, names.take(0)) =~= front);
    while k < aliases.len()
        invariant
            k <= aliases@.len(),
            hosts == config@.hosts,
            names == views(aliases@),
            entry_views(entries@) == front + free_aliases(hosts, names.take(k as int)),
        decreases aliases.len() - k,
    {
        let alias = &aliases[k];
        assert(names.take(k + 1).drop_last() =~= names.take(k as int));
        assert(names.take(k + 1).last() == alias@);
        if !is_host_named(config, alias.as_str()) {
            let ghost before = entries@;
            let ghost shown = (alias@, alias@, "ssh_config"@);
            entries.push(
                HostListEntry {
                    name: alias.clone(),
                    target: alias.clone(),
                    source: "ssh_config",
                },
            );
            assert(entry_views(entries@) =~= entry_views(before).push(shown));
            assert(front + free_aliases(hosts, names.take(k + 1)) =~= (front + free_aliases(
                hosts,
                names.take(k as int),
            )).push(shown));
        }
        k += 1;
    }
    assert(names.take(k as int) =~= names);
    entries
}

/// Whether a configured host has a name.
fn is_host_named(config: &Config, name: &str) -> (r: bool)
    ensures
        r == host_named(config@.hosts, name@),
{
    let ghost all = config@.hosts;
    let mut i: usize = 0;
    while i < config.hosts.len()
        invariant
            i <= config.hosts@.len(),
            all == config@.hosts,
            forall|j: int| 0 <= j < i ==> (#[trigger] all[j]).name != name@,
        decreases config.hosts.len() - i,
    {
        assert(all[i as int] == config.hosts@[i as int]@);
        if same_text(config.hosts[i].name.as_str(), name) {
            return true;
        }
        i += 1;
    }
    false
}

/// Every host that can be opened is listed with the target that it is opened at,
/// and every listed name can be opened.
pub proof fn listed_hosts_resolve(config: ConfigView, aliases: Seq<Seq<char>>, name: Seq<char>)
    ensures
        resolved_host(config, aliases, name) is Some <==> exists|i: int|
            0 <= i < host_list(config, aliases).len() && (#[trigger] host_list(
                config,
                aliases,
            )[i]).0 == name,
        resolved_host(config, aliases, name) matches Some(host) ==> exists|i: int|
            0 <= i < host_list(config, aliases).len() && (#[trigger] host_list(
                config,
                aliases,
            )[i]).0 == name && host_list(config, aliases)[i].1 == host.target,
{
    let list = host_list(config, aliases);
    let n = config.hosts.len();
    let free = free_aliases(config.hosts, aliases);
    host_position_finds(config.hosts, name);
    lemma_free_aliases(config.hosts, aliases);
    assert(list[0] == ("local"@, "local"@, "builtin"@));
    if name != "local"@ {
        match host_position(config.hosts, name) {
            Some(at) => {
                assert(list[1 + at] == (
                    config.hosts[at].name,
                    config.hosts[at].target,
                    "configured"@,
                ));
            },
            None => if aliases.contains(name) {
                let k = choose|k: int| 0 <= k < free.len() && (#[trigger] free[k]).0 == name;
                assert(list[1 + n + k] == free[k]);
            },
        }
    }
    assert forall|i: int| 0 <= i < list.len() && (#[trigger] list[i]).0 == name implies resolved_host(
        config,
        aliases,
        name,
    ) is Some by {
        if 1 <= i <= n {
            assert(list[i].0 == config.hosts[i - 1].name);
        } else if i > n {
            assert(list[i] == free[i - 1 - n]);
        }
    }
}

/// The aliases that are listed are those that no configured host is named as.
proof fn lemma_free_aliases(hosts: Seq<HostView>, aliases: Seq<Seq<char>>)
    ensures
        forall|k: int|
            0 <= k < free_aliases(hosts, aliases).len() ==> {
                let entry = #[trigger] free_aliases(hosts, aliases)[k];
                entry.0 == entry.1 && aliases.contains(entry.0)
            },
        forall|name: Seq<char>|
            #[trigger] aliases.contains(name) && !host_named(hosts, name) ==> exists|k: int|
                0 <= k < free_aliases(hosts, aliases).len() && (#[trigger] free_aliases(
                    hosts,
                    aliases,
                )[k]).0 == name,
    decreases aliases.len(),
{
    if aliases.len() > 0 {
        let rest = aliases.drop_last();
        let front = free_aliases(hosts, rest);
        let all = free_aliases(hosts, aliases);
        lemma_free_aliases(hosts, rest);
        assert(forall|name: Seq<char>| rest.contains(name) ==> #[trigger] aliases.contains(name));
        assert(aliases.contains(aliases.last()));
        assert forall|k: int| 0 <= k < all.len() implies {
            let entry = #[trigger] all[k];
            entry.0 == entry.1 && aliases.contains(entry.0)
        } by {
            if k < front.len() {
                assert(all[k] == front[k]);
                assert(rest.contains(front[k].0));
            }
        }
        assert forall|name: Seq<char>| #[trigger]
            aliases.contains(name) && !host_named(hosts, name) implies exists|k: int|
            0 <= k < all.len() && (#[trigger] all[k]).0 == name by {
            let at = choose|at: int| 0 <= at < aliases.len() && aliases[at] == name;
            if at < rest.len() {
                assert(rest[at] == name);
                assert(rest.contains(name));
                let k = choose|k: int| 0 <= k < front.len() && (#[trigger] front[k]).0 == name;
                assert(all[k] == front[k]);
            } else {
                assert(all[all.len() - 1].0 == name);
            }
        }
    }
}

/// An alias never hides a configured host of its name.
pub proof fn aliases_never_shadow_hosts(
    config: ConfigView,
    aliases: Seq<Seq<char>>,
    name: Seq<char>,
)
    requires
        host_named(config.hosts, name),
        name != "local"@,
    ensures
        resolved_host(config, aliases, name) == Some(
            config.hosts[host_position(config.hosts, name)->0],
        ),
        config.hosts[host_position(config.hosts, name)->0].name == name,
{
    host_position_finds(config.hosts, name);
}

} // verus!
