//! The Observer manager: its screens, what each key does on them, and the
//! changes that it asks for.

use vstd::prelude::*;
use vstd::string::*;

use crate::agent_view::AgentViewFilter;
use crate::manager_names::{
    eligible_records, free_suffix, full_label, group_base, label_for, next_group_identity,
    numbered_id, numbered_title, repository_name, repository_of, safe_component, safe_name,
    safe_names_are_titles,
};
use crate::model::{OrchestrationGroupId, OrchestrationTitle, SessionId};
use crate::observer_runtime::{TerminalKey, TerminalKeyCode, TerminalKeyKind};
use crate::orchestration::{spec_views, OrchestrationWorkerSpec, WorkerSpecView};
use crate::state::{
    copy_title, find_member, group_views, is_listed_before, list_place, listing, member_position,
    record_views, GroupView, MemberView, OrchestrationCapabilities, OrchestrationGroup,
    OrchestrationMember, RecordView, SessionRecord, SessionStatus, State, StateView,
};
use crate::text::{decimal, numeral, opt_view, views};

verus! {

/// The most groups that a manager names new ones beside.
pub const MAX_MANAGED_GROUPS: usize = 99_998;

/// What a worker allows unless told otherwise.
pub open spec fn default_capabilities() -> OrchestrationCapabilities {
    OrchestrationCapabilities { observe_output: true, open_interactive: true, prompt_agent: false }
}

/// A screen of the manager.
#[derive(Clone, Copy, Debug, PartialEq, Eq, Structural)]
pub enum ObserverManagerScreen {
    Groups,
    CreateOrchestrator,
    CreateWorkers,
    GroupActions,
    EditWorkers,
    ChangeOrchestrator,
    ReviewTopology,
    ConfirmDelete,
}

/// What a person asks of the manager.
#[derive(Clone, Copy, Debug, PartialEq, Eq, Structural)]
pub enum ObserverManagerEvent {
    /// The row before, and from the first row the last.
    Previous,
    /// The row behind, and from the last row the first.
    Next,
    /// The row before, if there is one: from a key that is held down.
    HeldPrevious,
    /// The row behind, if there is one: from a key that is held down.
    HeldNext,
    Confirm,
    Back,
    Toggle,
    Create,
    Edit,
    Delete,
    ConfirmDelete,
    DismissDelete,
}

/// What the manager asks for.
#[derive(Debug, PartialEq, Eq)]
pub enum ObserverManagerAction {
    Create {
        id: OrchestrationGroupId,
        title: OrchestrationTitle,
        orchestrator_session_id: SessionId,
        workers: Vec<OrchestrationWorkerSpec>,
    },
    ReplaceWorkers { expected_group: OrchestrationGroup, workers: Vec<OrchestrationWorkerSpec> },
    ReassignOrchestrator { expected_group: OrchestrationGroup, orchestrator_session_id: SessionId },
    Delete { expected_group: OrchestrationGroup },
    Launch { group_id: OrchestrationGroupId },
    /// The sidebar is to show the agents of a group.
    SetAgentView { group_id: OrchestrationGroupId, filter: AgentViewFilter },
    /// The sidebar is to be shown as usual.
    ClearAgentView,
    BackToPicker,
}

/// The contents of an [`ObserverManagerAction`].
pub enum ActionView {
    Create {
        id: Seq<char>,
        title: Seq<char>,
        orchestrator: SessionId,
        workers: Seq<WorkerSpecView>,
    },
    ReplaceWorkers { group: GroupView, workers: Seq<WorkerSpecView> },
    ReassignOrchestrator { group: GroupView, orchestrator: SessionId },
    Delete { group: GroupView },
    Launch { group_id: Seq<char> },
    SetAgentView { group_id: Seq<char>, filter: AgentViewFilter },
    ClearAgentView,
    BackToPicker,
}

impl View for ObserverManagerAction {
    type V = ActionView;

    open spec fn view(&self) -> ActionView {
        match self {
            ObserverManagerAction::Create { id, title, orchestrator_session_id, workers } =>
                ActionView::Create {
                id: id@,
                title: title@,
                orchestrator: *orchestrator_session_id,
                workers: spec_views(workers@),
            },
            ObserverManagerAction::ReplaceWorkers { expected_group, workers } =>
                ActionView::ReplaceWorkers {
                group: expected_group@,
                workers: spec_views(workers@),
            },
            ObserverManagerAction::ReassignOrchestrator {
                expected_group,
                orchestrator_session_id,
            } => ActionView::ReassignOrchestrator {
                group: expected_group@,
                orchestrator: *orchestrator_session_id,
            },
            ObserverManagerAction::Delete { expected_group } => ActionView::Delete {
                group: expected_group@,
            },
            ObserverManagerAction::Launch { group_id } => ActionView::Launch {
                group_id: group_id@,
            },
            ObserverManagerAction::SetAgentView { group_id, filter } => ActionView::SetAgentView {
                group_id: group_id@,
                filter: *filter,
            },
            ObserverManagerAction::ClearAgentView => ActionView::ClearAgentView,
            ObserverManagerAction::BackToPicker => ActionView::BackToPicker,
        }
    }
}

/// What follows an event.
#[derive(Debug, PartialEq, Eq)]
pub enum ObserverManagerOutcome {
    Continue,
    Action(ObserverManagerAction),
}

/// The contents of an [`ObserverManagerOutcome`].
pub enum OutcomeView {
    Continue,
    Action(ActionView),
}

impl View for ObserverManagerOutcome {
    type V = OutcomeView;

    open spec fn view(&self) -> OutcomeView {
        match self {
            ObserverManagerOutcome::Continue => OutcomeView::Continue,
            ObserverManagerOutcome::Action(action) => OutcomeView::Action(action@),
        }
    }
}

/// A workload that may take part in a group.
#[derive(Debug, PartialEq, Eq)]
pub struct Candidate {
    pub session_id: SessionId,
    pub label: String,
    pub host: String,
    pub repository: String,
    pub title: OrchestrationTitle,
    pub existing: Option<OrchestrationMember>,
}

/// The contents of a [`Candidate`].
pub struct CandidateView {
    pub session_id: SessionId,
    pub label: Seq<char>,
    pub host: Seq<char>,
    pub repository: Seq<char>,
    pub title: Seq<char>,
    pub existing: Option<MemberView>,
}

/// The contents of an optional member.
pub open spec fn opt_member(member: Option<OrchestrationMember>) -> Option<MemberView> {
    match member {
        Some(member) => Some(member@),
        None => None,
    }
}

impl View for Candidate {
    type V = CandidateView;

    open spec fn view(&self) -> CandidateView {
        CandidateView {
            session_id: self.session_id,
            label: self.label@,
            host: self.host@,
            repository: self.repository@,
            title: self.title@,
            existing: opt_member(self.existing),
        }
    }
}

impl Clone for Candidate {
    fn clone(&self) -> (copy: Self)
        ensures
            copy == *self,
    {
        Candidate {
            session_id: self.session_id,
            label: self.label.clone(),
            host: self.host.clone(),
            repository: self.repository.clone(),
            title: self.title.clone(),
            existing: match &self.existing {
                Some(member) => Some(member.clone()),
                None => None,
            },
        }
    }
}

/// The contents of each candidate.
pub open spec fn candidate_views(candidates: Seq<Candidate>) -> Seq<CandidateView> {
    candidates.map_values(|candidate: Candidate| candidate@)
}

/// A change that is being looked over.
#[derive(Clone, Copy, Debug, PartialEq, Eq, Structural)]
pub enum ReviewKind {
    Create,
    ReplaceWorkers,
    ReassignOrchestrator,
}

/// What a session is called.
#[derive(Debug, PartialEq, Eq)]
pub struct SessionLabel {
    pub session_id: SessionId,
    pub label: String,
}

/// The contents of each label.
pub open spec fn label_views(labels: Seq<SessionLabel>) -> Seq<(SessionId, Seq<char>)> {
    labels.map_values(|label: SessionLabel| (label.session_id, label.label@))
}

/// What a session is called, if it is called anything.
pub open spec fn label_in(labels: Seq<(SessionId, Seq<char>)>, id: SessionId) -> Option<Seq<char>>
    decreases labels.len(),
{
    if labels.len() == 0 {
        None
    } else {
        match label_in(labels.drop_last(), id) {
            Some(label) => Some(label),
            None => if labels.last().0 == id {
                Some(labels.last().1)
            } else {
                None
            },
        }
    }
}

/// A label that is found among the first is found among all.
proof fn lemma_label_stays(labels: Seq<(SessionId, Seq<char>)>, id: SessionId, k: int)
    requires
        0 <= k <= labels.len(),
    ensures
        label_in(labels.take(k), id) is Some ==> label_in(labels, id) == label_in(
            labels.take(k),
            id,
        ),
    decreases labels.len(),
{
    if k < labels.len() {
        assert(labels.drop_last().take(k) =~= labels.take(k));
        lemma_label_stays(labels.drop_last(), id, k);
    } else {
        assert(labels.take(k) =~= labels);
    }
}

/// What a session is called, if it is called anything.
fn find_label(labels: &Vec<SessionLabel>, id: SessionId) -> (label: Option<String>)
    ensures
        opt_view(label) == label_in(label_views(labels@), id),
{
    let ghost all = label_views(labels@);
    let mut i: usize = 0;
    while i < labels.len()
        invariant
            i <= labels@.len(),
            all == label_views(labels@),
            label_in(all.take(i as int), id) is None,
        decreases labels.len() - i,
    {
        proof {
            assert(all.take(i + 1).drop_last() =~= all.take(i as int));
            assert(all.take(i + 1).last() == (
                labels@[i as int].session_id,
                labels@[i as int].label@,
            ));
            lemma_label_stays(all, id, i + 1);
        }
        if labels[i].session_id == id {
            return Some(labels[i].label.clone());
        }
        i += 1;
    }
    assert(all.take(i as int) =~= all);
    None
}

/// The first candidate that is a session.
pub open spec fn candidate_in(candidates: Seq<CandidateView>, id: SessionId) -> Option<CandidateView>
    decreases candidates.len(),
{
    if candidates.len() == 0 {
        None
    } else {
        match candidate_in(candidates.drop_last(), id) {
            Some(candidate) => Some(candidate),
            None => if candidates.last().session_id == id {
                Some(candidates.last())
            } else {
                None
            },
        }
    }
}

/// A candidate that is found among the first is found among all.
proof fn lemma_candidate_stays(candidates: Seq<CandidateView>, id: SessionId, k: int)
    requires
        0 <= k <= candidates.len(),
    ensures
        candidate_in(candidates.take(k), id) is Some ==> candidate_in(candidates, id)
            == candidate_in(candidates.take(k), id),
    decreases candidates.len(),
{
    if k < candidates.len() {
        assert(candidates.drop_last().take(k) =~= candidates.take(k));
        lemma_candidate_stays(candidates.drop_last(), id, k);
    } else {
        assert(candidates.take(k) =~= candidates);
    }
}

/// Every candidate is found under its session.
proof fn lemma_candidate_found(candidates: Seq<CandidateView>, k: int)
    requires
        0 <= k < candidates.len(),
    ensures
        candidate_in(candidates, candidates[k].session_id) is Some,
{
    let id = candidates[k].session_id;
    assert(candidates.take(k + 1).last() == candidates[k]);
    lemma_candidate_stays(candidates, id, k + 1);
}

/// The first candidate that is a session.
fn find_candidate(candidates: &Vec<Candidate>, id: SessionId) -> (found: Option<&Candidate>)
    ensures
        match found {
            Some(found) => candidate_in(candidate_views(candidates@), id) == Some(found@),
            None => candidate_in(candidate_views(candidates@), id) is None,
        },
{
    let ghost all = candidate_views(candidates@);
    let mut i: usize = 0;
    while i < candidates.len()
        invariant
            i <= candidates@.len(),
            all == candidate_views(candidates@),
            candidate_in(all.take(i as int), id) is None,
        decreases candidates.len() - i,
    {
        proof {
            assert(all.take(i + 1).drop_last() =~= all.take(i as int));
            assert(all.take(i + 1).last() == candidates@[i as int]@);
            lemma_candidate_stays(all, id, i + 1);
        }
        if candidates[i].session_id == id {
            return Some(&candidates[i]);
        }
        i += 1;
    }
    assert(all.take(i as int) =~= all);
    None
}

/// Whether a session is among the given ones.
fn holds_id(ids: &Vec<SessionId>, id: SessionId) -> (r: bool)
    ensures
        r == ids@.contains(id),
{
    let mut i: usize = 0;
    while i < ids.len()
        invariant
            i <= ids@.len(),
            forall|j: int| 0 <= j < i ==> ids@[j] != id,
        decreases ids.len() - i,
    {
        if ids[i] == id {
            assert(ids@[i as int] == id);
            return true;
        }
        i += 1;
    }
    false
}

/// The candidates but for one session and the given ones.
pub open spec fn others(
    candidates: Seq<CandidateView>,
    id: SessionId,
    known: Seq<SessionId>,
) -> Seq<CandidateView>
    decreases candidates.len(),
{
    if candidates.len() == 0 {
        Seq::empty()
    } else {
        let front = others(candidates.drop_last(), id, known);
        if candidates.last().session_id == id || known.contains(candidates.last().session_id) {
            front
        } else {
            front.push(candidates.last())
        }
    }
}

/// The candidates but for one session and the given ones.
fn other_candidates(candidates: &Vec<Candidate>, id: SessionId, known: &Vec<SessionId>) -> (r: Vec<
    Candidate,
>)
    ensures
        candidate_views(r@) == others(candidate_views(candidates@), id, known@),
{
    let ghost all = candidate_views(candidates@);
    let mut r: Vec<Candidate> = Vec::new();
    let mut i: usize = 0;
    assert(candidate_views(r@) =~= Seq::empty());
    while i < candidates.len()
        invariant
            i <= candidates@.len(),
            all == candidate_views(candidates@),
            candidate_views(r@) == others(all.take(i as int), id, known@),
        decreases candidates.len() - i,
    {
        assert(all.take(i + 1).drop_last() =~= all.take(i as int));
        assert(all.take(i + 1).last() == candidates@[i as int]@);
        let candidate = &candidates[i];
        if candidate.session_id != id && !holds_id(known, candidate.session_id) {
            let copy = candidate.clone();
            let ghost before = r@;
            let ghost shown = copy@;
            r.push(copy);
            assert(candidate_views(r@) =~= candidate_views(before).push(shown));
        }
        i += 1;
    }
    assert(all.take(i as int) =~= all);
    r
}

/// A copy of some candidates.
fn copy_candidates(candidates: &Vec<Candidate>) -> (copy: Vec<Candidate>)
    ensures
        copy@ == candidates@,
{
    let mut copy: Vec<Candidate> = Vec::new();
    let mut i: usize = 0;
    while i < candidates.len()
        invariant
            i <= candidates@.len(),
            copy@ == candidates@.take(i as int),
        decreases candidates.len() - i,
    {
        copy.push(candidates[i].clone());
        i += 1;
        assert(candidates@.take(i as int) =~= candidates@.take(i - 1).push(candidates@[i - 1]));
    }
    assert(candidates@.take(i as int) =~= candidates@);
    copy
}

/// The sessions of some members.
pub open spec fn member_ids(members: Seq<MemberView>) -> Seq<SessionId> {
    members.map_values(|member: MemberView| member.session_id)
}

/// What a member is called that is no candidate itself.
pub open spec fn absent_label(member: MemberView, at: int) -> Seq<char> {
    match member.title {
        Some(title) => title,
        None => "Unavailable worker "@ + numeral((at + 1) as nat),
    }
}

/// The candidate that a member of a group is.
pub open spec fn member_candidate(
    eligible: Seq<CandidateView>,
    member: MemberView,
    at: int,
) -> CandidateView {
    match candidate_in(eligible, member.session_id) {
        Some(candidate) => CandidateView { existing: Some(member), ..candidate },
        None => CandidateView {
            session_id: member.session_id,
            label: safe_name(absent_label(member, at), 72),
            host: "unavailable"@,
            repository: "worker-"@ + numeral((at + 1) as nat),
            title: safe_name(absent_label(member, at), 96),
            existing: Some(member),
        },
    }
}

/// The candidates for the workers of a group: its members, and then the others.
pub open spec fn edit_candidates(eligible: Seq<CandidateView>, group: GroupView) -> Seq<
    CandidateView,
> {
    Seq::new(
        group.workers.len(),
        |i: int| member_candidate(eligible, group.workers[i], i),
    ) + others(eligible, group.orchestrator, member_ids(group.workers))
}

/// The workers that were chosen.
pub open spec fn chosen_workers(candidates: Seq<CandidateView>, chosen: Seq<SessionId>) -> Seq<
    WorkerSpecView,
>
    decreases candidates.len(),
{
    if candidates.len() == 0 {
        Seq::empty()
    } else {
        let front = chosen_workers(candidates.drop_last(), chosen);
        let candidate = candidates.last();
        if chosen.contains(candidate.session_id) {
            front.push(
                match candidate.existing {
                    Some(member) => WorkerSpecView {
                        session_id: member.session_id,
                        title: member.title,
                        capabilities: member.capabilities,
                    },
                    None => WorkerSpecView {
                        session_id: candidate.session_id,
                        title: Some(candidate.title),
                        capabilities: default_capabilities(),
                    },
                },
            )
        } else {
            front
        }
    }
}

/// The labels of the candidates that were chosen.
pub open spec fn chosen_labels(candidates: Seq<CandidateView>, chosen: Seq<SessionId>) -> Seq<
    Seq<char>,
>
    decreases candidates.len(),
{
    if candidates.len() == 0 {
        Seq::empty()
    } else {
        let front = chosen_labels(candidates.drop_last(), chosen);
        if chosen.contains(candidates.last().session_id) {
            front.push("WORKER "@ + candidates.last().label)
        } else {
            front
        }
    }
}

/// The sessions without one.
pub open spec fn without_id(ids: Seq<SessionId>, id: SessionId) -> Seq<SessionId>
    decreases ids.len(),
{
    if ids.len() == 0 {
        Seq::empty()
    } else if ids.last() == id {
        without_id(ids.drop_last(), id)
    } else {
        without_id(ids.drop_last(), id).push(ids.last())
    }
}

/// A session that is chosen is let go, and one that is not is chosen.
pub open spec fn toggled_id(ids: Seq<SessionId>, id: SessionId) -> Seq<SessionId> {
    if ids.contains(id) {
        without_id(ids, id)
    } else {
        ids.push(id)
    }
}

/// Exactly the one session changes its place among the chosen.
pub proof fn toggling_changes_one_session(ids: Seq<SessionId>, id: SessionId, other: SessionId)
    ensures
        toggled_id(ids, id).contains(id) <==> !ids.contains(id),
        other != id ==> (toggled_id(ids, id).contains(other) <==> ids.contains(other)),
{
    lemma_without_id(ids, id, other);
    lemma_without_id(ids, id, id);
    if !ids.contains(id) {
        let more = ids.push(id);
        assert(more[ids.len() as int] == id);
        if ids.contains(other) {
            let k = choose|k: int| 0 <= k < ids.len() && ids[k] == other;
            assert(more[k] == other);
        }
    }
}

/// Exactly the one session is left out.
proof fn lemma_without_id(ids: Seq<SessionId>, id: SessionId, other: SessionId)
    ensures
        without_id(ids, id).contains(other) <==> ids.contains(other) && other != id,
    decreases ids.len(),
{
    if ids.len() > 0 {
        let front = ids.drop_last();
        lemma_without_id(front, id, other);
        let rest = without_id(front, id);
        assert(ids.contains(other) <==> front.contains(other) || ids.last() == other) by {
            if ids.contains(other) {
                let k = choose|k: int| 0 <= k < ids.len() && ids[k] == other;
                if k < front.len() {
                    assert(front[k] == other);
                }
            }
            if front.contains(other) {
                let k = choose|k: int| 0 <= k < front.len() && front[k] == other;
                assert(ids[k] == other);
            }
            assert(ids[ids.len() - 1] == ids.last());
        }
        if ids.last() != id {
            let more = rest.push(ids.last());
            assert(more.contains(other) <==> rest.contains(other) || ids.last() == other) by {
                if more.contains(other) {
                    let k = choose|k: int| 0 <= k < more.len() && more[k] == other;
                    if k < rest.len() {
                        assert(rest[k] == other);
                    }
                }
                if rest.contains(other) {
                    let k = choose|k: int| 0 <= k < rest.len() && rest[k] == other;
                    assert(more[k] == other);
                }
                assert(more[rest.len() as int] == ids.last());
            }
        }
    }
}

/// Takes a session out.
fn remove_id(ids: &Vec<SessionId>, id: SessionId) -> (rest: Vec<SessionId>)
    ensures
        rest@ == without_id(ids@, id),
{
    let mut rest: Vec<SessionId> = Vec::new();
    let mut i: usize = 0;
    while i < ids.len()
        invariant
            i <= ids@.len(),
            rest@ == without_id(ids@.take(i as int), id),
        decreases ids.len() - i,
    {
        assert(ids@.take(i + 1).drop_last() =~= ids@.take(i as int));
        if ids[i] != id {
            rest.push(ids[i]);
        }
        i += 1;
    }
    assert(ids@.take(i as int) =~= ids@);
    rest
}

/// The members that do not run.
pub open spec fn unavailable_count(members: Seq<MemberView>, running: Seq<SessionId>) -> nat
    decreases members.len(),
{
    if members.len() == 0 {
        0
    } else {
        unavailable_count(members.drop_last(), running) + if running.contains(
            members.last().session_id,
        ) {
            0nat
        } else {
            1nat
        }
    }
}

/// The contents of the manager.
#[verifier::ext_equal]
pub struct ManagerView {
    pub screen: ObserverManagerScreen,
    pub groups: Seq<GroupView>,
    pub eligible: Seq<CandidateView>,
    pub candidates: Seq<CandidateView>,
    pub labels: Seq<(SessionId, Seq<char>)>,
    pub running: Seq<SessionId>,
    pub selected: int,
    pub group: Option<int>,
    pub orchestrator: Option<SessionId>,
    pub workers: Seq<SessionId>,
    pub review: Option<ReviewKind>,
    pub return_to: int,
    pub notice: Option<Seq<char>>,
}

impl ManagerView {
    /// Every screen knows what it is about.
    pub open spec fn well_formed(self) -> bool {
        let in_group = self.group is Some;
        let creating = self.group is None && self.orchestrator is Some && candidate_in(
            self.eligible,
            self.orchestrator->0,
        ) is Some;
        &&& self.groups.len() <= MAX_MANAGED_GROUPS
        &&& self.group is Some ==> 0 <= self.group->0 < self.groups.len()
        &&& 0 <= self.selected < usize::MAX
        &&& 0 <= self.return_to < usize::MAX
        &&& match self.screen {
            ObserverManagerScreen::Groups => true,
            ObserverManagerScreen::CreateOrchestrator => self.group is None && self.candidates
                == self.eligible,
            ObserverManagerScreen::CreateWorkers => creating,
            ObserverManagerScreen::GroupActions => in_group,
            ObserverManagerScreen::EditWorkers => in_group,
            ObserverManagerScreen::ChangeOrchestrator => in_group,
            ObserverManagerScreen::ConfirmDelete => in_group,
            ObserverManagerScreen::ReviewTopology => match self.review {
                None => false,
                Some(ReviewKind::Create) => creating,
                Some(ReviewKind::ReplaceWorkers) => in_group,
                Some(ReviewKind::ReassignOrchestrator) => in_group && self.orchestrator is Some,
            },
        }
    }

    /// The group that the screen is about.
    pub open spec fn shown_group(self) -> GroupView {
        self.groups[self.group->0]
    }

    /// What is said about a group.
    pub open spec fn summary(self, group: GroupView) -> Seq<char> {
        group.title + " · ORCHESTRATOR "@ + (match label_in(self.labels, group.orchestrator) {
            Some(label) => label,
            None => "unavailable"@,
        }) + (if self.running.contains(group.orchestrator) {
            ""@
        } else {
            " unavailable"@
        }) + " · "@ + numeral(group.workers.len()) + " workers · "@ + numeral(
            unavailable_count(group.workers, self.running),
        ) + " unavailable"@
    }

    /// The orchestrator that a review is about.
    pub open spec fn review_orchestrator(self) -> SessionId {
        match self.orchestrator {
            Some(id) => id,
            None => self.shown_group().orchestrator,
        }
    }

    /// What a worker of the shown group is called in a review.
    pub open spec fn worker_label(self, member: MemberView) -> Seq<char> {
        match member.title {
            Some(title) => title,
            None => match label_in(self.labels, member.session_id) {
                Some(label) => label,
                None => "unavailable"@,
            },
        }
    }

    /// The workers that stay when another session becomes the orchestrator.
    pub open spec fn staying_labels(self, members: Seq<MemberView>, id: SessionId) -> Seq<Seq<char>>
        decreases members.len(),
    {
        if members.len() == 0 {
            Seq::empty()
        } else {
            let front = self.staying_labels(members.drop_last(), id);
            if members.last().session_id == id {
                front
            } else {
                front.push("WORKER "@ + self.worker_label(members.last()))
            }
        }
    }

    /// What a review shows.
    pub open spec fn review_labels(self) -> Seq<Seq<char>> {
        let id = self.review_orchestrator();
        let label = match candidate_in(self.eligible, id) {
            Some(candidate) => candidate.label,
            None => match label_in(self.labels, id) {
                Some(label) => label,
                None => "unavailable"@,
            },
        };
        let reassign = self.review == Some(ReviewKind::ReassignOrchestrator);
        seq!["ORCHESTRATOR "@ + label] + (if reassign && find_member(
            self.shown_group().workers,
            id,
        ) is Some {
            seq!["Promote selected WORKER; remove from workers"@]
        } else {
            Seq::empty()
        }) + (if reassign {
            self.staying_labels(self.shown_group().workers, id)
        } else {
            chosen_labels(self.candidates, self.workers)
        })
    }

    /// The rows of the screen.
    pub open spec fn rows(self) -> Seq<Seq<char>> {
        match self.screen {
            ObserverManagerScreen::Groups => self.groups.map_values(
                |group: GroupView| self.summary(group),
            ).push("+ Create Observer"@),
            ObserverManagerScreen::CreateOrchestrator => self.candidates.map_values(
                |candidate: CandidateView| "ORCHESTRATOR "@ + candidate.label,
            ),
            ObserverManagerScreen::ChangeOrchestrator => self.candidates.map_values(
                |candidate: CandidateView| "ORCHESTRATOR "@ + candidate.label,
            ),
            ObserverManagerScreen::CreateWorkers => self.candidates.map_values(
                |candidate: CandidateView| self.worker_row(candidate),
            ),
            ObserverManagerScreen::EditWorkers => self.candidates.map_values(
                |candidate: CandidateView| self.worker_row(candidate),
            ),
            ObserverManagerScreen::GroupActions => seq![
                "Open Observer"@,
                "Edit workers"@,
                "Change orchestrator"@,
                "Delete group"@,
                "Show group in Agents sidebar"@,
                "Restore default Agents sidebar"@,
            ],
            ObserverManagerScreen::ReviewTopology => self.review_labels(),
            ObserverManagerScreen::ConfirmDelete => seq![
                "Metadata only; workloads keep running. Delete "@ + self.shown_group().title + "?"@,
            ],
        }
    }

    /// The row of a candidate that may be chosen as a worker.
    pub open spec fn worker_row(self, candidate: CandidateView) -> Seq<char> {
        (if self.workers.contains(candidate.session_id) {
            "[x]"@
        } else {
            "[ ]"@
        }) + " WORKER "@ + candidate.label
    }

    /// What stands above the rows.
    pub open spec fn context(self) -> Option<Seq<char>> {
        if self.screen == ObserverManagerScreen::ReviewTopology && self.review == Some(
            ReviewKind::ReassignOrchestrator,
        ) {
            None
        } else if (self.screen == ObserverManagerScreen::CreateWorkers || self.screen
            == ObserverManagerScreen::ReviewTopology) && self.group is None {
            match self.orchestrator {
                None => None,
                Some(id) => match candidate_in(self.eligible, id) {
                    None => None,
                    Some(candidate) => Some("ORCHESTRATOR "@ + candidate.label),
                },
            }
        } else if self.screen == ObserverManagerScreen::GroupActions || self.screen
            == ObserverManagerScreen::EditWorkers || self.screen
            == ObserverManagerScreen::ChangeOrchestrator || self.screen
            == ObserverManagerScreen::ReviewTopology {
            Some(self.summary(self.shown_group()))
        } else {
            None
        }
    }

    /// The manager that begins to make a group, where there are workloads for
    /// one.
    pub open spec fn creating(self) -> ManagerView {
        if self.eligible.len() < 2 {
            ManagerView {
                screen: ObserverManagerScreen::Groups,
                selected: self.groups.len() as int,
                notice: Some(
                    if self.eligible.len() == 0 {
                        "No running exact-owned workloads are available"@
                    } else {
                        "Observer needs at least two running exact-owned workloads"@
                    },
                ),
                ..self
            }
        } else {
            ManagerView {
                screen: ObserverManagerScreen::CreateOrchestrator,
                candidates: self.eligible,
                selected: 0,
                group: None,
                orchestrator: None,
                workers: Seq::empty(),
                notice: None,
                ..self
            }
        }
    }

    /// The manager that begins to edit the workers of the shown group.
    pub open spec fn editing(self) -> ManagerView {
        ManagerView {
            screen: ObserverManagerScreen::EditWorkers,
            candidates: edit_candidates(self.eligible, self.shown_group()),
            workers: member_ids(self.shown_group().workers),
            selected: 0,
            notice: None,
            ..self
        }
    }

    /// The manager that begins to change the orchestrator of the shown group.
    pub open spec fn reassigning(self) -> ManagerView {
        let candidates = others(self.eligible, self.shown_group().orchestrator, Seq::empty());
        ManagerView {
            screen: ObserverManagerScreen::ChangeOrchestrator,
            candidates,
            orchestrator: None,
            selected: 0,
            notice: if candidates.len() == 0 {
                Some("No other running exact-owned workload is available"@)
            } else {
                None
            },
            ..self
        }
    }

    /// The manager that looks a change over, unless nobody was chosen.
    pub open spec fn reviewing(self, kind: ReviewKind) -> ManagerView {
        if kind != ReviewKind::ReassignOrchestrator && self.workers.len() == 0 {
            ManagerView { notice: Some("Select at least one worker"@), ..self }
        } else {
            ManagerView {
                review: Some(kind),
                return_to: self.selected,
                screen: ObserverManagerScreen::ReviewTopology,
                selected: 0,
                notice: None,
                ..self
            }
        }
    }

    /// The manager that asks whether the shown group is to go.
    pub open spec fn deleting(self) -> ManagerView {
        ManagerView { screen: ObserverManagerScreen::ConfirmDelete, selected: 0, ..self }
    }

    /// The identifiers of all groups.
    pub open spec fn group_ids(self) -> Seq<Seq<char>> {
        self.groups.map_values(|group: GroupView| group.id)
    }

    /// What is asked for when a review is confirmed.
    pub open spec fn reviewed(self) -> ActionView {
        match self.review->0 {
            ReviewKind::Create => {
                let candidate = candidate_in(self.eligible, self.orchestrator->0)->0;
                let base = group_base(candidate.host, candidate.repository);
                let suffix = free_suffix(self.group_ids(), base);
                ActionView::Create {
                    id: numbered_id(base, suffix),
                    title: numbered_title(candidate.host, candidate.repository, suffix),
                    orchestrator: self.orchestrator->0,
                    workers: chosen_workers(self.candidates, self.workers),
                }
            },
            ReviewKind::ReplaceWorkers => ActionView::ReplaceWorkers {
                group: self.shown_group(),
                workers: chosen_workers(self.candidates, self.workers),
            },
            ReviewKind::ReassignOrchestrator => ActionView::ReassignOrchestrator {
                group: self.shown_group(),
                orchestrator: self.orchestrator->0,
            },
        }
    }

    /// What confirming does.
    pub open spec fn confirmed(self) -> (ManagerView, OutcomeView) {
        match self.screen {
            ObserverManagerScreen::Groups => (
                if self.selected < self.groups.len() {
                    ManagerView {
                        group: Some(self.selected),
                        screen: ObserverManagerScreen::GroupActions,
                        selected: 0,
                        ..self
                    }
                } else {
                    self.creating()
                },
                OutcomeView::Continue,
            ),
            ObserverManagerScreen::CreateOrchestrator => (
                if self.selected < self.candidates.len() {
                    let id = self.candidates[self.selected].session_id;
                    ManagerView {
                        orchestrator: Some(id),
                        candidates: others(self.eligible, id, Seq::empty()),
                        workers: Seq::empty(),
                        screen: ObserverManagerScreen::CreateWorkers,
                        selected: 0,
                        notice: None,
                        ..self
                    }
                } else {
                    ManagerView {
                        notice: Some("No running exact-owned workloads are available"@),
                        ..self
                    }
                },
                OutcomeView::Continue,
            ),
            ObserverManagerScreen::CreateWorkers => (
                self.reviewing(ReviewKind::Create),
                OutcomeView::Continue,
            ),
            ObserverManagerScreen::GroupActions => if self.selected == 0 {
                (
                    self,
                    OutcomeView::Action(ActionView::Launch { group_id: self.shown_group().id }),
                )
            } else if self.selected == 1 {
                (self.editing(), OutcomeView::Continue)
            } else if self.selected == 2 {
                (self.reassigning(), OutcomeView::Continue)
            } else if self.selected == 3 {
                (self.deleting(), OutcomeView::Continue)
            } else if self.selected == 4 {
                (
                    self,
                    OutcomeView::Action(
                        ActionView::SetAgentView {
                            group_id: self.shown_group().id,
                            filter: AgentViewFilter::All,
                        },
                    ),
                )
            } else if self.selected == 5 {
                (self, OutcomeView::Action(ActionView::ClearAgentView))
            } else {
                (self, OutcomeView::Continue)
            },
            ObserverManagerScreen::EditWorkers => (
                self.reviewing(ReviewKind::ReplaceWorkers),
                OutcomeView::Continue,
            ),
            ObserverManagerScreen::ChangeOrchestrator => (
                if self.selected < self.candidates.len() {
                    ManagerView {
                        orchestrator: Some(self.candidates[self.selected].session_id),
                        ..self
                    }.reviewing(ReviewKind::ReassignOrchestrator)
                } else {
                    self
                },
                OutcomeView::Continue,
            ),
            ObserverManagerScreen::ReviewTopology => (self, OutcomeView::Action(self.reviewed())),
            ObserverManagerScreen::ConfirmDelete => (self, OutcomeView::Continue),
        }
    }

    /// What going back does.
    pub open spec fn back(self) -> (ManagerView, OutcomeView) {
        let quiet = ManagerView { notice: None, ..self };
        match self.screen {
            ObserverManagerScreen::Groups => (quiet, OutcomeView::Action(ActionView::BackToPicker)),
            ObserverManagerScreen::CreateOrchestrator => (
                quiet.to_groups(),
                OutcomeView::Continue,
            ),
            ObserverManagerScreen::GroupActions => (quiet.to_groups(), OutcomeView::Continue),
            ObserverManagerScreen::CreateWorkers => (
                ManagerView {
                    screen: ObserverManagerScreen::CreateOrchestrator,
                    candidates: self.eligible,
                    selected: 0,
                    workers: Seq::empty(),
                    ..quiet
                },
                OutcomeView::Continue,
            ),
            ObserverManagerScreen::EditWorkers => (
                ManagerView {
                    screen: ObserverManagerScreen::GroupActions,
                    selected: 1,
                    workers: Seq::empty(),
                    ..quiet
                },
                OutcomeView::Continue,
            ),
            ObserverManagerScreen::ChangeOrchestrator => (
                ManagerView {
                    screen: ObserverManagerScreen::GroupActions,
                    selected: 2,
                    orchestrator: None,
                    ..quiet
                },
                OutcomeView::Continue,
            ),
            ObserverManagerScreen::ReviewTopology => (
                ManagerView {
                    screen: match self.review->0 {
                        ReviewKind::Create => ObserverManagerScreen::CreateWorkers,
                        ReviewKind::ReplaceWorkers => ObserverManagerScreen::EditWorkers,
                        ReviewKind::ReassignOrchestrator =>
                            ObserverManagerScreen::ChangeOrchestrator,
                    },
                    selected: self.return_to,
                    review: None,
                    ..quiet
                },
                OutcomeView::Continue,
            ),
            ObserverManagerScreen::ConfirmDelete => (self, OutcomeView::Continue),
        }
    }

    /// The manager that shows the groups again.
    pub open spec fn to_groups(self) -> ManagerView {
        ManagerView {
            screen: ObserverManagerScreen::Groups,
            selected: match self.group {
                Some(at) => at,
                None => 0,
            },
            ..self
        }
    }

    /// The manager with another row selected.
    pub open spec fn moved(self, down: bool) -> ManagerView {
        let len = self.rows().len() as int;
        ManagerView {
            selected: if len == 0 {
                0
            } else if down {
                (self.selected + 1) % len
            } else if self.selected == 0 {
                len - 1
            } else {
                self.selected - 1
            },
            ..self
        }
    }

    /// The manager with the row beside the selected one selected, where there is
    /// one.
    pub open spec fn nudged(self, down: bool) -> ManagerView {
        let len = self.rows().len() as int;
        ManagerView {
            selected: if down && self.selected + 1 < len {
                self.selected + 1
            } else if !down && self.selected > 0 {
                self.selected - 1
            } else {
                self.selected
            },
            ..self
        }
    }

    /// The manager with the selected worker chosen or let go.
    pub open spec fn toggled(self) -> ManagerView {
        if (self.screen == ObserverManagerScreen::CreateWorkers || self.screen
            == ObserverManagerScreen::EditWorkers) && self.selected < self.candidates.len() {
            ManagerView {
                workers: toggled_id(self.workers, self.candidates[self.selected].session_id),
                notice: None,
                ..self
            }
        } else {
            self
        }
    }

    /// What an event does.
    pub open spec fn handled(self, event: ObserverManagerEvent) -> (ManagerView, OutcomeView) {
        if self.screen == ObserverManagerScreen::ConfirmDelete {
            match event {
                ObserverManagerEvent::ConfirmDelete => (
                    self,
                    OutcomeView::Action(ActionView::Delete { group: self.shown_group() }),
                ),
                ObserverManagerEvent::DismissDelete => (self.kept(), OutcomeView::Continue),
                ObserverManagerEvent::Back => (self.kept(), OutcomeView::Continue),
                _ => (self, OutcomeView::Continue),
            }
        } else {
            match event {
                ObserverManagerEvent::Previous => (self.moved(false), OutcomeView::Continue),
                ObserverManagerEvent::Next => (self.moved(true), OutcomeView::Continue),
                ObserverManagerEvent::HeldPrevious => (self.nudged(false), OutcomeView::Continue),
                ObserverManagerEvent::HeldNext => (self.nudged(true), OutcomeView::Continue),
                ObserverManagerEvent::Back => self.back(),
                ObserverManagerEvent::Toggle => (self.toggled(), OutcomeView::Continue),
                ObserverManagerEvent::Create => (
                    if self.screen == ObserverManagerScreen::Groups {
                        self.creating()
                    } else {
                        self
                    },
                    OutcomeView::Continue,
                ),
                ObserverManagerEvent::Edit => (
                    if self.screen == ObserverManagerScreen::GroupActions {
                        self.editing()
                    } else {
                        self
                    },
                    OutcomeView::Continue,
                ),
                ObserverManagerEvent::Delete => (
                    if self.screen == ObserverManagerScreen::GroupActions {
                        self.deleting()
                    } else {
                        self
                    },
                    OutcomeView::Continue,
                ),
                ObserverManagerEvent::Confirm => self.confirmed(),
                _ => (self, OutcomeView::Continue),
            }
        }
    }

    /// The manager that leaves the shown group alone.
    pub open spec fn kept(self) -> ManagerView {
        ManagerView { screen: ObserverManagerScreen::GroupActions, selected: 3, ..self }
    }
}

/// The manager itself.
#[derive(Debug, PartialEq, Eq)]
pub struct ObserverManagerState {
    screen: ObserverManagerScreen,
    groups: Vec<OrchestrationGroup>,
    eligible: Vec<Candidate>,
    screen_candidates: Vec<Candidate>,
    session_labels: Vec<SessionLabel>,
    running_sessions: Vec<SessionId>,
    selected_index: usize,
    selected_group: Option<usize>,
    selected_orchestrator: Option<SessionId>,
    selected_workers: Vec<SessionId>,
    review_kind: Option<ReviewKind>,
    review_return_index: usize,
    notice: Option<String>,
}

impl View for ObserverManagerState {
    type V = ManagerView;

    closed spec fn view(&self) -> ManagerView {
        ManagerView {
            screen: self.screen,
            groups: group_views(self.groups@),
            eligible: candidate_views(self.eligible@),
            candidates: candidate_views(self.screen_candidates@),
            labels: label_views(self.session_labels@),
            running: self.running_sessions@,
            selected: self.selected_index as int,
            group: match self.selected_group {
                Some(at) => Some(at as int),
                None => None,
            },
            orchestrator: self.selected_orchestrator,
            workers: self.selected_workers@,
            review: self.review_kind,
            return_to: self.review_return_index as int,
            notice: opt_view(self.notice),
        }
    }
}

/// The candidate that a workload is.
pub open spec fn candidate_of(records: Seq<RecordView>, record: RecordView) -> CandidateView {
    CandidateView {
        session_id: record.id,
        label: full_label(records, record),
        host: safe_name(record.host, 24),
        repository: safe_name(repository_of(record.directory), 32),
        title: safe_name(full_label(records, record), 96),
        existing: None,
    }
}

/// The running sessions.
pub open spec fn running_ids(records: Seq<RecordView>) -> Seq<SessionId>
    decreases records.len(),
{
    if records.len() == 0 {
        Seq::empty()
    } else {
        let front = running_ids(records.drop_last());
        if records.last().status == SessionStatus::Running {
            front.push(records.last().id)
        } else {
            front
        }
    }
}

/// The manager of a state.
pub open spec fn manager_of(state: StateView, notice: Option<Seq<char>>) -> ManagerView {
    let records = state.sessions;
    ManagerView {
        screen: ObserverManagerScreen::Groups,
        groups: state.groups,
        eligible: listing(eligible_records(records)).map_values(
            |record: RecordView| candidate_of(records, record),
        ),
        candidates: Seq::empty(),
        labels: eligible_records(records).map_values(
            |record: RecordView| (record.id, full_label(records, record)),
        ),
        running: running_ids(records),
        selected: 0,
        group: None,
        orchestrator: None,
        workers: Seq::empty(),
        review: None,
        return_to: 0,
        notice,
    }
}

/// The candidate that a workload is.
fn candidate(records: &Vec<SessionRecord>, record: &SessionRecord) -> (candidate: Candidate)
    ensures
        candidate@ == candidate_of(record_views(records@), record@),
{
    let label = label_for(records, record);
    let name = safe_component(label.as_str(), 96);
    proof {
        safe_names_are_titles(label@, 96);
    }
    let title = OrchestrationTitle::from_str(name.as_str());
    Candidate {
        session_id: record.id,
        host: safe_component(record.host.as_str(), 24),
        repository: safe_component(repository_name(record.directory.as_str()).as_str(), 32),
        title: title.unwrap(),
        label,
        existing: None,
    }
}

/// The places of the running exact-owned workloads, as they are listed.
fn list_eligible(records: &Vec<SessionRecord>) -> (order: Vec<usize>)
    ensures
        forall|k: int| 0 <= k < order@.len() ==> (#[trigger] order@[k]) < records@.len(),
        order@.map_values(|at: usize| record_views(records@)[at as int]) == listing(
            eligible_records(record_views(records@)),
        ),
{
    let ghost all = record_views(records@);
    let mut order: Vec<usize> = Vec::new();
    let mut i: usize = 0;
    assert(order@.map_values(|at: usize| all[at as int]) =~= Seq::empty());
    while i < records.len()
        invariant
            i <= records@.len(),
            all == record_views(records@),
            forall|k: int| 0 <= k < order@.len() ==> (#[trigger] order@[k]) < records@.len(),
            order@.map_values(|at: usize| all[at as int]) == listing(
                eligible_records(all.take(i as int)),
            ),
        decreases records.len() - i,
    {
        let record = &records[i];
        let ghost front = eligible_records(all.take(i as int));
        let ghost listed = order@.map_values(|at: usize| all[at as int]);
        assert(all.take(i + 1).drop_last() =~= all.take(i as int));
        assert(all.take(i + 1).last() == record@);
        if record.is_exact_running() {
            assert(front.push(record@).drop_last() =~= front);
            let mut place: usize = 0;
            assert(listed.skip(0) =~= listed);
            while place < order.len() && !is_listed_before(record, &records[order[place]])
                invariant
                    place <= order@.len(),
                    i < records@.len(),
                    record@ == all[i as int],
                    all == record_views(records@),
                    listed == order@.map_values(|at: usize| all[at as int]),
                    forall|k: int|
                        0 <= k < order@.len() ==> (#[trigger] order@[k]) < records@.len(),
                    list_place(listed, record@) == place + list_place(
                        listed.skip(place as int),
                        record@,
                    ),
                decreases order.len() - place,
            {
                let ghost rest = listed.skip(place as int);
                assert(rest[0] == listed[place as int]);
                assert(listed[place as int] == all[order@[place as int] as int]);
                assert(all[order@[place as int] as int] == records@[order@[place as int] as int]@);
                assert(rest.drop_first() =~= listed.skip(place + 1));
                place += 1;
            }
            proof {
                if place < order@.len() {
                    assert(listed.skip(place as int)[0] == listed[place as int]);
                    assert(listed[place as int] == all[order@[place as int] as int]);
                    assert(all[order@[place as int] as int]
                        == records@[order@[place as int] as int]@);
                }
            }
            let ghost before = order@;
            order.insert(place, i);
            assert(order@.map_values(|at: usize| all[at as int]) =~= listed.insert(
                place as int,
                record@,
            ));
            assert forall|k: int| 0 <= k < order@.len() implies (#[trigger] order@[k])
                < records@.len() by {
                if k < place {
                    assert(order@[k] == before[k]);
                } else if k > place {
                    assert(order@[k] == before[k - 1]);
                }
            }
        }
        i += 1;
    }
    assert(all.take(i as int) =~= all);
    order
}

impl ObserverManagerState {
    /// The manager of a state, at its list of groups.
    pub fn from_state(state: &State, notice: Option<String>) -> (manager: Self)
        requires
            state@.groups.len() <= MAX_MANAGED_GROUPS,
        ensures
            manager@ == manager_of(state@, opt_view(notice)),
            manager@.well_formed(),
    {
        let records = &state.sessions;
        let ghost all = record_views(records@);
        let order = list_eligible(records);
        let ghost listed = listing(eligible_records(all));
        let mut eligible: Vec<Candidate> = Vec::new();
        let mut i: usize = 0;
        assert(candidate_views(eligible@) =~= listed.take(0).map_values(
            |record: RecordView| candidate_of(all, record),
        ));
        while i < order.len()
            invariant
                i <= order@.len(),
                all == record_views(records@),
                listed == order@.map_values(|at: usize| all[at as int]),
                forall|k: int| 0 <= k < order@.len() ==> (#[trigger] order@[k]) < records@.len(),
                candidate_views(eligible@) == listed.take(i as int).map_values(
                    |record: RecordView| candidate_of(all, record),
                ),
            decreases order.len() - i,
        {
            let ghost before = eligible@;
            assert(listed[i as int] == all[order@[i as int] as int]);
            assert(all[order@[i as int] as int] == records@[order@[i as int] as int]@);
            let next = candidate(records, &records[order[i]]);
            let ghost shown = next@;
            eligible.push(next);
            assert(candidate_views(eligible@) =~= candidate_views(before).push(shown));
            i += 1;
            assert(listed.take(i as int).map_values(
                |record: RecordView| candidate_of(all, record),
            ) =~= listed.take(i - 1).map_values(
                |record: RecordView| candidate_of(all, record),
            ).push(shown));
        }
        assert(listed.take(i as int) =~= listed);
        let mut labels: Vec<SessionLabel> = Vec::new();
        let mut running: Vec<SessionId> = Vec::new();
        let mut k: usize = 0;
        assert(all.take(0) =~= Seq::empty());
        assert(label_views(labels@) =~= eligible_records(all.take(0)).map_values(
            |record: RecordView| (record.id, full_label(all, record)),
        ));
        while k < records.len()
            invariant
                k <= records@.len(),
                all == record_views(records@),
                label_views(labels@) == eligible_records(all.take(k as int)).map_values(
                    |record: RecordView| (record.id, full_label(all, record)),
                ),
                running@ == running_ids(all.take(k as int)),
            decreases records.len() - k,
        {
            let record = &records[k];
            let ghost front = eligible_records(all.take(k as int));
            assert(all.take(k + 1).drop_last() =~= all.take(k as int));
            assert(all.take(k + 1).last() == record@);
            if record.status == SessionStatus::Running {
                running.push(record.id);
            }
            if record.is_exact_running() {
                let label = label_for(records, record);
                let ghost before = labels@;
                let ghost shown = label@;
                labels.push(SessionLabel { session_id: record.id, label });
                assert(label_views(labels@) =~= label_views(before).push((record@.id, shown)));
                assert(front.push(record@).map_values(
                    |record: RecordView| (record.id, full_label(all, record)),
                ) =~= front.map_values(
                    |record: RecordView| (record.id, full_label(all, record)),
                ).push((record@.id, shown)));
            }
            k += 1;
        }
        assert(all.take(k as int) =~= all);
        let groups = copy_groups(&state.orchestration_groups);
        let manager = ObserverManagerState {
            screen: ObserverManagerScreen::Groups,
            groups,
            eligible,
            screen_candidates: Vec::new(),
            session_labels: labels,
            running_sessions: running,
            selected_index: 0,
            selected_group: None,
            selected_orchestrator: None,
            selected_workers: Vec::new(),
            review_kind: None,
            review_return_index: 0,
            notice,
        };
        assert(manager@.candidates =~= Seq::empty());
        assert(manager@.workers =~= Seq::empty());
        assert(manager@ =~= manager_of(state@, opt_view(notice)));
        manager
    }

    /// The screen that is shown.
    pub fn screen(&self) -> (screen: ObserverManagerScreen)
        ensures
            screen == self@.screen,
    {
        self.screen
    }

    /// The title of the screen.
    pub open spec fn title_of(screen: ObserverManagerScreen) -> Seq<char> {
        match screen {
            ObserverManagerScreen::Groups => "Observers"@,
            ObserverManagerScreen::CreateOrchestrator => "Choose orchestrator"@,
            ObserverManagerScreen::CreateWorkers => "Choose workers"@,
            ObserverManagerScreen::GroupActions => "Observer actions"@,
            ObserverManagerScreen::EditWorkers => "Edit workers"@,
            ObserverManagerScreen::ChangeOrchestrator => "Change orchestrator"@,
            ObserverManagerScreen::ReviewTopology => "Review topology"@,
            ObserverManagerScreen::ConfirmDelete => "Confirm delete"@,
        }
    }

    /// The title of the screen.
    pub fn frame_title(&self) -> (title: &'static str)
        ensures
            title@ == Self::title_of(self@.screen),
    {
        match self.screen {
            ObserverManagerScreen::Groups => "Observers",
            ObserverManagerScreen::CreateOrchestrator => "Choose orchestrator",
            ObserverManagerScreen::CreateWorkers => "Choose workers",
            ObserverManagerScreen::GroupActions => "Observer actions",
            ObserverManagerScreen::EditWorkers => "Edit workers",
            ObserverManagerScreen::ChangeOrchestrator => "Change orchestrator",
            ObserverManagerScreen::ReviewTopology => "Review topology",
            ObserverManagerScreen::ConfirmDelete => "Confirm delete",
        }
    }

    /// What the keys do on a screen.
    pub open spec fn guidance(screen: ObserverManagerScreen) -> Seq<char> {
        match screen {
            ObserverManagerScreen::Groups =>
                "n Create · Enter manage · ↑/↓ navigate · Esc/Backspace back"@,
            ObserverManagerScreen::CreateOrchestrator =>
                "Enter choose orchestrator · ↑/↓ navigate · Esc/Backspace back"@,
            ObserverManagerScreen::CreateWorkers =>
                "Space select workers · Enter review · ↑/↓ navigate · Esc/Backspace back"@,
            ObserverManagerScreen::GroupActions =>
                "Enter choose · e Edit · d Delete · ↑/↓ navigate · Esc/Backspace back"@,
            ObserverManagerScreen::EditWorkers =>
                "Space add/remove · Enter review · ↑/↓ navigate · Esc/Backspace back"@,
            ObserverManagerScreen::ChangeOrchestrator =>
                "Enter review replacement · ↑/↓ navigate · Esc/Backspace back"@,
            ObserverManagerScreen::ReviewTopology => "Enter apply once · Esc/Backspace revise"@,
            ObserverManagerScreen::ConfirmDelete =>
                "y delete metadata · n/Esc keep · workloads are untouched"@,
        }
    }

    /// What stands below the rows.
    pub open spec fn footer(manager: ManagerView) -> Seq<char> {
        match manager.notice {
            Some(notice) => notice + " · "@ + Self::guidance(manager.screen),
            None => Self::guidance(manager.screen),
        }
    }

    /// What stands below the rows: a notice, and what the keys do.
    pub fn footer_text(&self) -> (text: String)
        ensures
            text@ == Self::footer(self@),
    {
        let guidance = match self.screen {
            ObserverManagerScreen::Groups =>
                "n Create · Enter manage · ↑/↓ navigate · Esc/Backspace back",
            ObserverManagerScreen::CreateOrchestrator =>
                "Enter choose orchestrator · ↑/↓ navigate · Esc/Backspace back",
            ObserverManagerScreen::CreateWorkers =>
                "Space select workers · Enter review · ↑/↓ navigate · Esc/Backspace back",
            ObserverManagerScreen::GroupActions =>
                "Enter choose · e Edit · d Delete · ↑/↓ navigate · Esc/Backspace back",
            ObserverManagerScreen::EditWorkers =>
                "Space add/remove · Enter review · ↑/↓ navigate · Esc/Backspace back",
            ObserverManagerScreen::ChangeOrchestrator =>
                "Enter review replacement · ↑/↓ navigate · Esc/Backspace back",
            ObserverManagerScreen::ReviewTopology => "Enter apply once · Esc/Backspace revise",
            ObserverManagerScreen::ConfirmDelete =>
                "y delete metadata · n/Esc keep · workloads are untouched",
        };
        match &self.notice {
            Some(notice) => notice.clone().concat(" · ").concat(guidance),
            None => guidance.to_owned(),
        }
    }

    /// The selected row.
    pub fn selected_index(&self) -> (index: usize)
        ensures
            index == self@.selected,
    {
        self.selected_index
    }

    /// What is said about a group.
    fn group_summary(&self, group: &OrchestrationGroup) -> (text: String)
        ensures
            text@ == self@.summary(group@),
    {
        let label = match find_label(&self.session_labels, group.orchestrator_session_id) {
            Some(label) => label,
            None => "unavailable".to_owned(),
        };
        let health = if holds_id(&self.running_sessions, group.orchestrator_session_id) {
            ""
        } else {
            " unavailable"
        };
        let ghost all = group@.workers;
        let mut unavailable: u64 = 0;
        let mut i: usize = 0;
        while i < group.workers.len()
            invariant
                i <= group.workers@.len(),
                all == group@.workers,
                unavailable <= i,
                unavailable == unavailable_count(all.take(i as int), self@.running),
            decreases group.workers.len() - i,
        {
            assert(all.take(i + 1).drop_last() =~= all.take(i as int));
            assert(all.take(i + 1).last() == group.workers@[i as int]@);
            if !holds_id(&self.running_sessions, group.workers[i].session_id) {
                unavailable += 1;
            }
            i += 1;
        }
        assert(all.take(i as int) =~= all);
        group.title.as_str().to_owned().concat(" · ORCHESTRATOR ").concat(label.as_str()).concat(
            health,
        ).concat(" · ").concat(decimal(group.workers.len() as u64).as_str()).concat(
            " workers · ",
        ).concat(decimal(unavailable).as_str()).concat(" unavailable")
    }

    /// The group that the screen is about.
    fn shown_group(&self) -> (group: &OrchestrationGroup)
        requires
            self@.group is Some,
            0 <= self@.group->0 < self@.groups.len(),
        ensures
            group@ == self@.shown_group(),
    {
        let at: usize = self.selected_group.unwrap();
        assert(self@.groups[at as int] == self.groups@[at as int]@);
        &self.groups[at]
    }

    /// The orchestrator rows of the candidates.
    fn orchestrator_rows(&self) -> (rows: Vec<String>)
        ensures
            views(rows@) == self@.candidates.map_values(
                |candidate: CandidateView| "ORCHESTRATOR "@ + candidate.label,
            ),
    {
        let ghost wanted = self@.candidates.map_values(
            |candidate: CandidateView| "ORCHESTRATOR "@ + candidate.label,
        );
        let mut rows: Vec<String> = Vec::new();
        let mut i: usize = 0;
        assert(views(rows@) =~= wanted.take(0));
        while i < self.screen_candidates.len()
            invariant
                i <= self.screen_candidates@.len(),
                wanted == self@.candidates.map_values(
                    |candidate: CandidateView| "ORCHESTRATOR "@ + candidate.label,
                ),
                views(rows@) == wanted.take(i as int),
            decreases self.screen_candidates.len() - i,
        {
            let row = "ORCHESTRATOR ".to_owned().concat(self.screen_candidates[i].label.as_str());
            let ghost before = rows@;
            let ghost shown = row@;
            assert(self@.candidates[i as int] == self.screen_candidates@[i as int]@);
            rows.push(row);
            assert(views(rows@) =~= views(before).push(shown));
            i += 1;
            assert(wanted.take(i as int) =~= wanted.take(i - 1).push(shown));
        }
        assert(wanted.take(i as int) =~= wanted);
        rows
    }

    /// The worker rows of the candidates.
    fn worker_rows(&self) -> (rows: Vec<String>)
        ensures
            views(rows@) == self@.candidates.map_values(
                |candidate: CandidateView| self@.worker_row(candidate),
            ),
    {
        let ghost wanted = self@.candidates.map_values(
            |candidate: CandidateView| self@.worker_row(candidate),
        );
        let mut rows: Vec<String> = Vec::new();
        let mut i: usize = 0;
        assert(views(rows@) =~= wanted.take(0));
        while i < self.screen_candidates.len()
            invariant
                i <= self.screen_candidates@.len(),
                wanted == self@.candidates.map_values(
                    |candidate: CandidateView| self@.worker_row(candidate),
                ),
                views(rows@) == wanted.take(i as int),
            decreases self.screen_candidates.len() - i,
        {
            let candidate = &self.screen_candidates[i];
            let marker = if holds_id(&self.selected_workers, candidate.session_id) {
                "[x]"
            } else {
                "[ ]"
            };
            let row = marker.to_owned().concat(" WORKER ").concat(candidate.label.as_str());
            let ghost before = rows@;
            let ghost shown = row@;
            assert(self@.candidates[i as int] == candidate@);
            assert(shown == self@.worker_row(candidate@));
            rows.push(row);
            assert(views(rows@) =~= views(before).push(shown));
            i += 1;
            assert(wanted.take(i as int) =~= wanted.take(i - 1).push(shown));
        }
        assert(wanted.take(i as int) =~= wanted);
        rows
    }

    /// The rows of the list of groups.
    fn group_rows(&self) -> (rows: Vec<String>)
        ensures
            views(rows@) == self@.groups.map_values(
                |group: GroupView| self@.summary(group),
            ).push("+ Create Observer"@),
    {
        let ghost wanted = self@.groups.map_values(|group: GroupView| self@.summary(group));
        let mut rows: Vec<String> = Vec::new();
        let mut i: usize = 0;
        assert(views(rows@) =~= wanted.take(0));
        while i < self.groups.len()
            invariant
                i <= self.groups@.len(),
                wanted == self@.groups.map_values(|group: GroupView| self@.summary(group)),
                views(rows@) == wanted.take(i as int),
            decreases self.groups.len() - i,
        {
            let row = self.group_summary(&self.groups[i]);
            let ghost before = rows@;
            let ghost shown = row@;
            assert(self@.groups[i as int] == self.groups@[i as int]@);
            rows.push(row);
            assert(views(rows@) =~= views(before).push(shown));
            i += 1;
            assert(wanted.take(i as int) =~= wanted.take(i - 1).push(shown));
        }
        assert(wanted.take(i as int) =~= wanted);
        let ghost before = rows@;
        rows.push("+ Create Observer".to_owned());
        assert(views(rows@) =~= views(before).push("+ Create Observer"@));
        rows
    }

    /// The rows of the workers that stay when another session becomes the
    /// orchestrator.
    fn staying_rows(&self, group: &OrchestrationGroup, id: SessionId) -> (rows: Vec<String>)
        ensures
            views(rows@) == self@.staying_labels(group@.workers, id),
    {
        let ghost all = group@.workers;
        let mut rows: Vec<String> = Vec::new();
        let mut i: usize = 0;
        assert(views(rows@) =~= Seq::empty());
        while i < group.workers.len()
            invariant
                i <= group.workers@.len(),
                all == group@.workers,
                views(rows@) == self@.staying_labels(all.take(i as int), id),
            decreases group.workers.len() - i,
        {
            let member = &group.workers[i];
            assert(all.take(i + 1).drop_last() =~= all.take(i as int));
            assert(all.take(i + 1).last() == member@);
            if member.session_id != id {
                let label = match &member.title {
                    Some(title) => title.to_string(),
                    None => match find_label(&self.session_labels, member.session_id) {
                        Some(label) => label,
                        None => "unavailable".to_owned(),
                    },
                };
                let row = "WORKER ".to_owned().concat(label.as_str());
                let ghost before = rows@;
                let ghost shown = row@;
                rows.push(row);
                assert(views(rows@) =~= views(before).push(shown));
            }
            i += 1;
        }
        assert(all.take(i as int) =~= all);
        rows
    }

    /// The rows of the workers that were chosen.
    fn chosen_rows(&self) -> (rows: Vec<String>)
        ensures
            views(rows@) == chosen_labels(self@.candidates, self@.workers),
    {
        let ghost all = self@.candidates;
        let mut rows: Vec<String> = Vec::new();
        let mut i: usize = 0;
        assert(views(rows@) =~= Seq::empty());
        while i < self.screen_candidates.len()
            invariant
                i <= self.screen_candidates@.len(),
                all == self@.candidates,
                views(rows@) == chosen_labels(all.take(i as int), self@.workers),
            decreases self.screen_candidates.len() - i,
        {
            let candidate = &self.screen_candidates[i];
            assert(all.take(i + 1).drop_last() =~= all.take(i as int));
            assert(all.take(i + 1).last() == candidate@);
            if holds_id(&self.selected_workers, candidate.session_id) {
                let row = "WORKER ".to_owned().concat(candidate.label.as_str());
                let ghost before = rows@;
                let ghost shown = row@;
                rows.push(row);
                assert(views(rows@) =~= views(before).push(shown));
            }
            i += 1;
        }
        assert(all.take(i as int) =~= all);
        rows
    }

    /// What a review shows.
    fn review_labels(&self) -> (rows: Vec<String>)
        requires
            self@.well_formed(),
            self@.screen == ObserverManagerScreen::ReviewTopology,
        ensures
            views(rows@) == self@.review_labels(),
    {
        let id = match self.selected_orchestrator {
            Some(id) => id,
            None => self.shown_group().orchestrator_session_id,
        };
        let label = match find_candidate(&self.eligible, id) {
            Some(candidate) => candidate.label.clone(),
            None => match find_label(&self.session_labels, id) {
                Some(label) => label,
                None => "unavailable".to_owned(),
            },
        };
        let reassign = match self.review_kind {
            Some(ReviewKind::ReassignOrchestrator) => true,
            _ => false,
        };
        let mut rows = vec!["ORCHESTRATOR ".to_owned().concat(label.as_str())];
        if reassign && member_position(&self.shown_group().workers, id).is_some() {
            rows.push("Promote selected WORKER; remove from workers".to_owned());
        }
        let ghost head = views(rows@);
        let mut more = if reassign {
            self.staying_rows(self.shown_group(), id)
        } else {
            self.chosen_rows()
        };
        let ghost rest = views(more@);
        rows.append(&mut more);
        assert(views(rows@) =~= head + rest);
        assert(views(rows@) =~= self@.review_labels());
        rows
    }

    /// The rows of the screen.
    pub fn item_labels(&self) -> (rows: Vec<String>)
        requires
            self@.well_formed(),
        ensures
            views(rows@) == self@.rows(),
    {
        match self.screen {
            ObserverManagerScreen::Groups => self.group_rows(),
            ObserverManagerScreen::CreateOrchestrator
            | ObserverManagerScreen::ChangeOrchestrator => self.orchestrator_rows(),
            ObserverManagerScreen::CreateWorkers
            | ObserverManagerScreen::EditWorkers => self.worker_rows(),
            ObserverManagerScreen::GroupActions => {
                let rows = vec![
                    "Open Observer".to_owned(),
                    "Edit workers".to_owned(),
                    "Change orchestrator".to_owned(),
                    "Delete group".to_owned(),
                    "Show group in Agents sidebar".to_owned(),
                    "Restore default Agents sidebar".to_owned(),
                ];
                assert(views(rows@) =~= self@.rows());
                rows
            },
            ObserverManagerScreen::ReviewTopology => self.review_labels(),
            ObserverManagerScreen::ConfirmDelete => {
                let row = "Metadata only; workloads keep running. Delete ".to_owned().concat(
                    self.shown_group().title.as_str(),
                ).concat("?");
                let rows = vec![row];
                assert(views(rows@) =~= self@.rows());
                rows
            },
        }
    }

    /// What stands above the rows.
    pub fn context_text(&self) -> (text: Option<String>)
        requires
            self@.well_formed(),
        ensures
            opt_view(text) == self@.context(),
    {
        match self.screen {
            ObserverManagerScreen::CreateWorkers => self.orchestrator_context(),
            ObserverManagerScreen::ReviewTopology => {
                let reassign = match self.review_kind {
                    Some(ReviewKind::ReassignOrchestrator) => true,
                    _ => false,
                };
                if reassign {
                    None
                } else if self.selected_group.is_none() {
                    self.orchestrator_context()
                } else {
                    Some(self.group_summary(self.shown_group()))
                }
            },
            ObserverManagerScreen::GroupActions
            | ObserverManagerScreen::EditWorkers
            | ObserverManagerScreen::ChangeOrchestrator => Some(
                self.group_summary(self.shown_group()),
            ),
            _ => None,
        }
    }

    /// The orchestrator that was chosen for a new group.
    fn orchestrator_context(&self) -> (text: Option<String>)
        ensures
            opt_view(text) == match self@.orchestrator {
                None => None::<Seq<char>>,
                Some(id) => match candidate_in(self@.eligible, id) {
                    None => None,
                    Some(candidate) => Some("ORCHESTRATOR "@ + candidate.label),
                },
            },
    {
        match self.selected_orchestrator {
            None => None,
            Some(id) => match find_candidate(&self.eligible, id) {
                None => None,
                Some(candidate) => Some(
                    "ORCHESTRATOR ".to_owned().concat(candidate.label.as_str()),
                ),
            },
        }
    }

    /// Takes what a person asks for.
    pub fn handle(&mut self, event: ObserverManagerEvent) -> (outcome: ObserverManagerOutcome)
        requires
            old(self)@.well_formed(),
        ensures
            (final(self)@, outcome@) == old(self)@.handled(event),
            final(self)@.well_formed(),
    {
        if self.screen == ObserverManagerScreen::ConfirmDelete {
            match event {
                ObserverManagerEvent::ConfirmDelete => {
                    let expected_group = self.shown_group().clone();
                    return ObserverManagerOutcome::Action(
                        ObserverManagerAction::Delete { expected_group },
                    );
                },
                ObserverManagerEvent::DismissDelete | ObserverManagerEvent::Back => {
                    self.screen = ObserverManagerScreen::GroupActions;
                    self.selected_index = 3;
                    return ObserverManagerOutcome::Continue;
                },
                _ => {
                    return ObserverManagerOutcome::Continue;
                },
            }
        }
        match event {
            ObserverManagerEvent::Previous => {
                self.move_selection(false);
                ObserverManagerOutcome::Continue
            },
            ObserverManagerEvent::Next => {
                self.move_selection(true);
                ObserverManagerOutcome::Continue
            },
            ObserverManagerEvent::HeldPrevious => {
                self.nudge_selection(false);
                ObserverManagerOutcome::Continue
            },
            ObserverManagerEvent::HeldNext => {
                self.nudge_selection(true);
                ObserverManagerOutcome::Continue
            },
            ObserverManagerEvent::Back => self.back(),
            ObserverManagerEvent::Toggle => {
                self.toggle_worker();
                ObserverManagerOutcome::Continue
            },
            ObserverManagerEvent::Create => {
                if self.screen == ObserverManagerScreen::Groups {
                    self.begin_create();
                }
                ObserverManagerOutcome::Continue
            },
            ObserverManagerEvent::Edit => {
                if self.screen == ObserverManagerScreen::GroupActions {
                    self.begin_edit();
                }
                ObserverManagerOutcome::Continue
            },
            ObserverManagerEvent::Delete => {
                if self.screen == ObserverManagerScreen::GroupActions {
                    self.screen = ObserverManagerScreen::ConfirmDelete;
                    self.selected_index = 0;
                }
                ObserverManagerOutcome::Continue
            },
            ObserverManagerEvent::Confirm => self.confirm(),
            _ => ObserverManagerOutcome::Continue,
        }
    }

    /// Selects another row.
    fn move_selection(&mut self, down: bool)
        requires
            old(self)@.well_formed(),
        ensures
            final(self)@ == old(self)@.moved(down),
            final(self)@.well_formed(),
    {
        let rows = self.item_labels();
        let len: usize = rows.len();
        assert(self@.rows().len() == len);
        if len == 0 {
            self.selected_index = 0;
        } else if down {
            self.selected_index = (self.selected_index + 1) % len;
        } else if self.selected_index == 0 {
            self.selected_index = len - 1;
        } else {
            self.selected_index = self.selected_index - 1;
        }
    }

    /// Selects the row beside the selected one, where there is one.
    fn nudge_selection(&mut self, down: bool)
        requires
            old(self)@.well_formed(),
        ensures
            final(self)@ == old(self)@.nudged(down),
            final(self)@.well_formed(),
    {
        let rows = self.item_labels();
        let len: usize = rows.len();
        assert(self@.rows().len() == len);
        if down {
            if len > 0 && self.selected_index < len - 1 {
                self.selected_index = self.selected_index + 1;
            }
        } else if self.selected_index > 0 {
            self.selected_index = self.selected_index - 1;
        }
    }

    /// Chooses the selected worker, or lets it go.
    fn toggle_worker(&mut self)
        requires
            old(self)@.well_formed(),
        ensures
            final(self)@ == old(self)@.toggled(),
            final(self)@.well_formed(),
    {
        if self.screen != ObserverManagerScreen::CreateWorkers && self.screen
            != ObserverManagerScreen::EditWorkers {
            return;
        }
        if self.selected_index >= self.screen_candidates.len() {
            return;
        }
        let id = self.screen_candidates[self.selected_index].session_id;
        assert(self@.candidates[self@.selected].session_id == id);
        if holds_id(&self.selected_workers, id) {
            self.selected_workers = remove_id(&self.selected_workers, id);
        } else {
            self.selected_workers.push(id);
        }
        self.notice = None;
    }

    /// Begins to make a group.
    fn begin_create(&mut self)
        requires
            old(self)@.well_formed(),
        ensures
            final(self)@ == old(self)@.creating(),
            final(self)@.well_formed(),
    {
        if self.eligible.len() < 2 {
            self.notice =
            Some(
                if self.eligible.len() == 0 {
                    "No running exact-owned workloads are available".to_owned()
                } else {
                    "Observer needs at least two running exact-owned workloads".to_owned()
                },
            );
            self.screen = ObserverManagerScreen::Groups;
            self.selected_index = self.groups.len();
            return;
        }
        self.notice = None;
        self.screen = ObserverManagerScreen::CreateOrchestrator;
        self.screen_candidates = copy_candidates(&self.eligible);
        self.selected_index = 0;
        self.selected_group = None;
        self.selected_orchestrator = None;
        self.selected_workers = Vec::new();
        assert(self@.workers =~= Seq::empty());
        assert(self@ =~= old(self)@.creating());
    }

    /// The candidates for the workers of a group.
    fn candidates_for(&self, group: &OrchestrationGroup) -> (candidates: Vec<Candidate>)
        ensures
            candidate_views(candidates@) == edit_candidates(self@.eligible, group@),
    {
        let ghost all = group@.workers;
        let ghost wanted = Seq::new(
            all.len(),
            |i: int| member_candidate(self@.eligible, all[i], i),
        );
        let mut candidates: Vec<Candidate> = Vec::new();
        let mut known: Vec<SessionId> = Vec::new();
        let mut i: usize = 0;
        assert(candidate_views(candidates@) =~= wanted.take(0));
        assert(known@ =~= member_ids(all).take(0));
        while i < group.workers.len()
            invariant
                i <= group.workers@.len(),
                all == group@.workers,
                wanted == Seq::new(
                    all.len(),
                    |i: int| member_candidate(self@.eligible, all[i], i),
                ),
                candidate_views(candidates@) == wanted.take(i as int),
                known@ == member_ids(all).take(i as int),
            decreases group.workers.len() - i,
        {
            let member = &group.workers[i];
            assert(all[i as int] == member@);
            let next = self.candidate_for_member(member, i);
            let ghost before = candidates@;
            let ghost shown = next@;
            assert(shown == wanted[i as int]);
            candidates.push(next);
            assert(candidate_views(candidates@) =~= candidate_views(before).push(shown));
            known.push(member.session_id);
            i += 1;
            assert(wanted.take(i as int) =~= wanted.take(i - 1).push(wanted[i - 1]));
            assert(member_ids(all).take(i as int) =~= member_ids(all).take(i - 1).push(
                member_ids(all)[i - 1],
            ));
        }
        assert(wanted.take(i as int) =~= wanted);
        assert(member_ids(all).take(i as int) =~= member_ids(all));
        let mut more = other_candidates(&self.eligible, group.orchestrator_session_id, &known);
        let ghost head = candidate_views(candidates@);
        let ghost rest = candidate_views(more@);
        candidates.append(&mut more);
        assert(candidate_views(candidates@) =~= head + rest);
        candidates
    }

    /// The candidate that a member of a group is.
    fn candidate_for_member(&self, member: &OrchestrationMember, at: usize) -> (candidate: Candidate)
        requires
            at < usize::MAX,
        ensures
            candidate@ == member_candidate(self@.eligible, member@, at as int),
    {
        if let Some(found) = find_candidate(&self.eligible, member.session_id) {
            let mut candidate = found.clone();
            candidate.existing = Some(member.clone());
            return candidate;
        }
        let number = decimal((at + 1) as u64);
        let label = match &member.title {
            Some(title) => title.to_string(),
            None => "Unavailable worker ".to_owned().concat(number.as_str()),
        };
        let name = safe_component(label.as_str(), 96);
        proof {
            safe_names_are_titles(label@, 96);
        }
        let title = OrchestrationTitle::from_str(name.as_str());
        Candidate {
            session_id: member.session_id,
            label: safe_component(label.as_str(), 72),
            host: "unavailable".to_owned(),
            repository: "worker-".to_owned().concat(number.as_str()),
            title: title.unwrap(),
            existing: Some(member.clone()),
        }
    }

    /// Begins to edit the workers of the shown group.
    fn begin_edit(&mut self)
        requires
            old(self)@.well_formed(),
            old(self)@.group is Some,
        ensures
            final(self)@ == old(self)@.editing(),
            final(self)@.well_formed(),
    {
        let group = self.shown_group();
        let candidates = self.candidates_for(group);
        let mut ids: Vec<SessionId> = Vec::new();
        let ghost all = member_ids(group@.workers);
        let mut i: usize = 0;
        assert(ids@ =~= all.take(0));
        while i < group.workers.len()
            invariant
                i <= group.workers@.len(),
                all == member_ids(group@.workers),
                ids@ == all.take(i as int),
            decreases group.workers.len() - i,
        {
            assert(group@.workers[i as int] == group.workers@[i as int]@);
            ids.push(group.workers[i].session_id);
            i += 1;
            assert(all.take(i as int) =~= all.take(i - 1).push(all[i - 1]));
        }
        assert(all.take(i as int) =~= all);
        self.selected_workers = ids;
        self.screen_candidates = candidates;
        self.screen = ObserverManagerScreen::EditWorkers;
        self.selected_index = 0;
        self.notice = None;
        assert(self@ =~= old(self)@.editing());
    }

    /// Begins to change the orchestrator of the shown group.
    fn begin_reassign(&mut self)
        requires
            old(self)@.well_formed(),
            old(self)@.group is Some,
        ensures
            final(self)@ == old(self)@.reassigning(),
            final(self)@.well_formed(),
    {
        let current = self.shown_group().orchestrator_session_id;
        let none: Vec<SessionId> = Vec::new();
        let candidates = other_candidates(&self.eligible, current, &none);
        assert(none@ =~= Seq::empty());
        self.notice =
        if candidates.len() == 0 {
            Some("No other running exact-owned workload is available".to_owned())
        } else {
            None
        };
        self.screen_candidates = candidates;
        self.selected_orchestrator = None;
        self.screen = ObserverManagerScreen::ChangeOrchestrator;
        self.selected_index = 0;
        assert(self@ =~= old(self)@.reassigning());
    }

    /// Begins to look a change over, unless nobody was chosen.
    fn begin_review(&mut self, kind: ReviewKind)
        requires
            old(self)@.well_formed(),
            kind == ReviewKind::Create ==> old(self)@.screen
                == ObserverManagerScreen::CreateWorkers,
            kind == ReviewKind::ReplaceWorkers ==> old(self)@.screen
                == ObserverManagerScreen::EditWorkers,
            kind == ReviewKind::ReassignOrchestrator ==> old(self)@.screen
                == ObserverManagerScreen::ChangeOrchestrator && old(self)@.orchestrator is Some,
        ensures
            final(self)@ == old(self)@.reviewing(kind),
            final(self)@.well_formed(),
    {
        if kind != ReviewKind::ReassignOrchestrator && self.selected_workers.len() == 0 {
            self.notice = Some("Select at least one worker".to_owned());
            return;
        }
        self.review_kind = Some(kind);
        self.review_return_index = self.selected_index;
        self.screen = ObserverManagerScreen::ReviewTopology;
        self.selected_index = 0;
        self.notice = None;
    }

    /// The workers that were chosen.
    fn selected_worker_specs(&self) -> (specs: Vec<OrchestrationWorkerSpec>)
        ensures
            spec_views(specs@) == chosen_workers(self@.candidates, self@.workers),
    {
        let ghost all = self@.candidates;
        let mut specs: Vec<OrchestrationWorkerSpec> = Vec::new();
        let mut i: usize = 0;
        assert(spec_views(specs@) =~= Seq::empty());
        while i < self.screen_candidates.len()
            invariant
                i <= self.screen_candidates@.len(),
                all == self@.candidates,
                spec_views(specs@) == chosen_workers(all.take(i as int), self@.workers),
            decreases self.screen_candidates.len() - i,
        {
            let candidate = &self.screen_candidates[i];
            assert(all.take(i + 1).drop_last() =~= all.take(i as int));
            assert(all.take(i + 1).last() == candidate@);
            if holds_id(&self.selected_workers, candidate.session_id) {
                let worker = match &candidate.existing {
                    Some(member) => OrchestrationWorkerSpec {
                        session_id: member.session_id,
                        title: copy_title(&member.title),
                        capabilities: member.capabilities,
                    },
                    None => OrchestrationWorkerSpec {
                        session_id: candidate.session_id,
                        title: Some(candidate.title.clone()),
                        capabilities: OrchestrationCapabilities {
                            observe_output: true,
                            open_interactive: true,
                            prompt_agent: false,
                        },
                    },
                };
                let ghost before = specs@;
                let ghost shown = worker@;
                specs.push(worker);
                assert(spec_views(specs@) =~= spec_views(before).push(shown));
            }
            i += 1;
        }
        assert(all.take(i as int) =~= all);
        specs
    }

    /// The identifiers of all groups.
    fn taken_ids(&self) -> (ids: Vec<String>)
        ensures
            views(ids@) == self@.group_ids(),
    {
        let ghost all = self@.group_ids();
        let mut ids: Vec<String> = Vec::new();
        let mut i: usize = 0;
        assert(views(ids@) =~= all.take(0));
        while i < self.groups.len()
            invariant
                i <= self.groups@.len(),
                all == self@.group_ids(),
                views(ids@) == all.take(i as int),
            decreases self.groups.len() - i,
        {
            let id = self.groups[i].id.to_string();
            let ghost before = ids@;
            let ghost shown = id@;
            assert(self@.groups[i as int] == self.groups@[i as int]@);
            ids.push(id);
            assert(views(ids@) =~= views(before).push(shown));
            i += 1;
            assert(all.take(i as int) =~= all.take(i - 1).push(shown));
        }
        assert(all.take(i as int) =~= all);
        ids
    }

    /// What is asked for when a review is confirmed.
    fn review_action(&self) -> (action: ObserverManagerAction)
        requires
            self@.well_formed(),
            self@.screen == ObserverManagerScreen::ReviewTopology,
        ensures
            action@ == self@.reviewed(),
    {
        match self.review_kind.unwrap() {
            ReviewKind::Create => {
                let id = self.selected_orchestrator.unwrap();
                let candidate = find_candidate(&self.eligible, id).unwrap();
                let taken = self.taken_ids();
                assert(views(taken@).len() == taken@.len());
                let (group_id, title) = next_group_identity(
                    candidate.host.as_str(),
                    candidate.repository.as_str(),
                    &taken,
                );
                ObserverManagerAction::Create {
                    id: group_id,
                    title,
                    orchestrator_session_id: id,
                    workers: self.selected_worker_specs(),
                }
            },
            ReviewKind::ReplaceWorkers => ObserverManagerAction::ReplaceWorkers {
                expected_group: self.shown_group().clone(),
                workers: self.selected_worker_specs(),
            },
            ReviewKind::ReassignOrchestrator => ObserverManagerAction::ReassignOrchestrator {
                expected_group: self.shown_group().clone(),
                orchestrator_session_id: self.selected_orchestrator.unwrap(),
            },
        }
    }

    /// Confirms what is selected.
    fn confirm(&mut self) -> (outcome: ObserverManagerOutcome)
        requires
            old(self)@.well_formed(),
        ensures
            (final(self)@, outcome@) == old(self)@.confirmed(),
            final(self)@.well_formed(),
    {
        match self.screen {
            ObserverManagerScreen::Groups => {
                if self.selected_index < self.groups.len() {
                    self.selected_group = Some(self.selected_index);
                    self.screen = ObserverManagerScreen::GroupActions;
                    self.selected_index = 0;
                } else {
                    self.begin_create();
                }
                ObserverManagerOutcome::Continue
            },
            ObserverManagerScreen::CreateOrchestrator => {
                if self.selected_index >= self.screen_candidates.len() {
                    self.notice =
                    Some("No running exact-owned workloads are available".to_owned());
                    return ObserverManagerOutcome::Continue;
                }
                let id = self.screen_candidates[self.selected_index].session_id;
                proof {
                    assert(self@.candidates[self@.selected].session_id == id);
                    lemma_candidate_found(self@.candidates, self@.selected);
                }
                let none: Vec<SessionId> = Vec::new();
                assert(none@ =~= Seq::empty());
                let candidates = other_candidates(&self.eligible, id, &none);
                self.selected_orchestrator = Some(id);
                self.screen_candidates = candidates;
                self.selected_workers = Vec::new();
                self.screen = ObserverManagerScreen::CreateWorkers;
                self.selected_index = 0;
                self.notice = None;
                assert(self@.workers =~= Seq::empty());
                assert(self@ =~= old(self)@.confirmed().0);
                ObserverManagerOutcome::Continue
            },
            ObserverManagerScreen::CreateWorkers => {
                self.begin_review(ReviewKind::Create);
                ObserverManagerOutcome::Continue
            },
            ObserverManagerScreen::GroupActions => {
                if self.selected_index == 0 {
                    let group_id = self.shown_group().id.clone();
                    return ObserverManagerOutcome::Action(
                        ObserverManagerAction::Launch { group_id },
                    );
                }
                if self.selected_index == 1 {
                    self.begin_edit();
                } else if self.selected_index == 2 {
                    self.begin_reassign();
                } else if self.selected_index == 3 {
                    self.screen = ObserverManagerScreen::ConfirmDelete;
                    self.selected_index = 0;
                } else if self.selected_index == 4 {
                    let group_id = self.shown_group().id.clone();
                    return ObserverManagerOutcome::Action(
                        ObserverManagerAction::SetAgentView {
                            group_id,
                            filter: AgentViewFilter::All,
                        },
                    );
                } else if self.selected_index == 5 {
                    return ObserverManagerOutcome::Action(ObserverManagerAction::ClearAgentView);
                }
                ObserverManagerOutcome::Continue
            },
            ObserverManagerScreen::EditWorkers => {
                self.begin_review(ReviewKind::ReplaceWorkers);
                ObserverManagerOutcome::Continue
            },
            ObserverManagerScreen::ChangeOrchestrator => {
                if self.selected_index < self.screen_candidates.len() {
                    let id = self.screen_candidates[self.selected_index].session_id;
                    assert(self@.candidates[self@.selected].session_id == id);
                    self.selected_orchestrator = Some(id);
                    self.begin_review(ReviewKind::ReassignOrchestrator);
                }
                ObserverManagerOutcome::Continue
            },
            ObserverManagerScreen::ReviewTopology => ObserverManagerOutcome::Action(
                self.review_action(),
            ),
            ObserverManagerScreen::ConfirmDelete => ObserverManagerOutcome::Continue,
        }
    }

    /// Goes back.
    fn back(&mut self) -> (outcome: ObserverManagerOutcome)
        requires
            old(self)@.well_formed(),
            old(self)@.screen != ObserverManagerScreen::ConfirmDelete,
        ensures
            (final(self)@, outcome@) == old(self)@.back(),
            final(self)@.well_formed(),
    {
        self.notice = None;
        match self.screen {
            ObserverManagerScreen::Groups => {
                return ObserverManagerOutcome::Action(ObserverManagerAction::BackToPicker);
            },
            ObserverManagerScreen::CreateOrchestrator | ObserverManagerScreen::GroupActions => {
                self.screen = ObserverManagerScreen::Groups;
                self.selected_index =
                match self.selected_group {
                    Some(at) => at,
                    None => 0,
                };
            },
            ObserverManagerScreen::CreateWorkers => {
                self.screen = ObserverManagerScreen::CreateOrchestrator;
                self.screen_candidates = copy_candidates(&self.eligible);
                self.selected_index = 0;
                self.selected_workers = Vec::new();
                assert(self@.workers =~= Seq::empty());
            },
            ObserverManagerScreen::EditWorkers => {
                self.screen = ObserverManagerScreen::GroupActions;
                self.selected_index = 1;
                self.selected_workers = Vec::new();
                assert(self@.workers =~= Seq::empty());
            },
            ObserverManagerScreen::ChangeOrchestrator => {
                self.screen = ObserverManagerScreen::GroupActions;
                self.selected_index = 2;
                self.selected_orchestrator = None;
            },
            ObserverManagerScreen::ReviewTopology => {
                self.screen =
                match self.review_kind.unwrap() {
                    ReviewKind::Create => ObserverManagerScreen::CreateWorkers,
                    ReviewKind::ReplaceWorkers => ObserverManagerScreen::EditWorkers,
                    ReviewKind::ReassignOrchestrator => ObserverManagerScreen::ChangeOrchestrator,
                };
                self.selected_index = self.review_return_index;
                self.review_kind = None;
            },
            ObserverManagerScreen::ConfirmDelete => {},
        }
        assert(self@ =~= old(self)@.back().0);
        ObserverManagerOutcome::Continue
    }
}

/// A copy of each group.
fn copy_groups(groups: &Vec<OrchestrationGroup>) -> (copy: Vec<OrchestrationGroup>)
    ensures
        group_views(copy@) == group_views(groups@),
{
    let ghost all = group_views(groups@);
    let mut copy: Vec<OrchestrationGroup> = Vec::new();
    let mut i: usize = 0;
    assert(group_views(copy@) =~= all.take(0));
    while i < groups.len()
        invariant
            i <= groups@.len(),
            all == group_views(groups@),
            group_views(copy@) == all.take(i as int),
        decreases groups.len() - i,
    {
        let group = groups[i].clone();
        let ghost before = copy@;
        let ghost shown = group@;
        assert(shown == all[i as int]);
        copy.push(group);
        assert(group_views(copy@) =~= group_views(before).push(shown));
        i += 1;
        assert(all.take(i as int) =~= all.take(i - 1).push(all[i - 1]));
    }
    assert(all.take(i as int) =~= all);
    copy
}

/// What a key that moves asks for: one that is held down does not go round.
pub open spec fn step_event(down: bool, pressed: bool) -> ObserverManagerEvent {
    if down && pressed {
        ObserverManagerEvent::Next
    } else if down {
        ObserverManagerEvent::HeldNext
    } else if pressed {
        ObserverManagerEvent::Previous
    } else {
        ObserverManagerEvent::HeldPrevious
    }
}

/// What a key that moves asks for.
fn step(down: bool, pressed: bool) -> (event: ObserverManagerEvent)
    ensures
        event == step_event(down, pressed),
{
    if down && pressed {
        ObserverManagerEvent::Next
    } else if down {
        ObserverManagerEvent::HeldNext
    } else if pressed {
        ObserverManagerEvent::Previous
    } else {
        ObserverManagerEvent::HeldPrevious
    }
}

/// What a key asks for on a screen.
pub open spec fn key_event(key: TerminalKey, screen: ObserverManagerScreen) -> Option<
    ObserverManagerEvent,
> {
    let pressed = key.kind == TerminalKeyKind::Press;
    if key.kind == TerminalKeyKind::Release {
        None
    } else if key.control && (key.code == TerminalKeyCode::Char('c') || key.code == TerminalKeyCode::Char('C')) {
        Some(ObserverManagerEvent::Back)
    } else if key.control || key.alt {
        None
    } else if screen == ObserverManagerScreen::ConfirmDelete {
        if !pressed {
            None
        } else {
            match key.code {
                TerminalKeyCode::Char(c) => if c == 'y' || c == 'Y' {
                    Some(ObserverManagerEvent::ConfirmDelete)
                } else if c == 'n' || c == 'N' {
                    Some(ObserverManagerEvent::DismissDelete)
                } else {
                    None
                },
                TerminalKeyCode::Escape => Some(ObserverManagerEvent::DismissDelete),
                TerminalKeyCode::Backspace => Some(ObserverManagerEvent::DismissDelete),
                _ => None,
            }
        }
    } else {
        match key.code {
            TerminalKeyCode::Up => Some(step_event(false, pressed)),
            TerminalKeyCode::BackTab => Some(step_event(false, pressed)),
            TerminalKeyCode::Down => Some(step_event(true, pressed)),
            TerminalKeyCode::Tab => Some(step_event(true, pressed)),
            TerminalKeyCode::Escape => Some(ObserverManagerEvent::Back),
            TerminalKeyCode::Backspace => Some(ObserverManagerEvent::Back),
            TerminalKeyCode::Enter => if pressed {
                Some(ObserverManagerEvent::Confirm)
            } else {
                None
            },
            TerminalKeyCode::Char(c) => if c == 'k' {
                Some(step_event(false, pressed))
            } else if c == 'j' {
                Some(step_event(true, pressed))
            } else if !pressed {
                None
            } else if c == ' ' {
                Some(ObserverManagerEvent::Toggle)
            } else if c == 'n' || c == 'N' {
                Some(ObserverManagerEvent::Create)
            } else if c == 'e' || c == 'E' {
                Some(ObserverManagerEvent::Edit)
            } else if c == 'd' || c == 'D' {
                Some(ObserverManagerEvent::Delete)
            } else {
                None
            },
            _ => None,
        }
    }
}

/// What a key asks for on a screen.
pub fn event_for_key(key: TerminalKey, screen: ObserverManagerScreen) -> (event: Option<
    ObserverManagerEvent,
>)
    ensures
        event == key_event(key, screen),
{
    let pressed = key.kind == TerminalKeyKind::Press;
    if key.kind == TerminalKeyKind::Release {
        return None;
    }
    if key.control && (key.code == TerminalKeyCode::Char('c') || key.code == TerminalKeyCode::Char('C')) {
        return Some(ObserverManagerEvent::Back);
    }
    if key.control || key.alt {
        return None;
    }
    if screen == ObserverManagerScreen::ConfirmDelete {
        if !pressed {
            return None;
        }
        return match key.code {
            TerminalKeyCode::Char(c) => {
                if c == 'y' || c == 'Y' {
                    Some(ObserverManagerEvent::ConfirmDelete)
                } else if c == 'n' || c == 'N' {
                    Some(ObserverManagerEvent::DismissDelete)
                } else {
                    None
                }
            },
            TerminalKeyCode::Escape | TerminalKeyCode::Backspace => Some(
                ObserverManagerEvent::DismissDelete,
            ),
            _ => None,
        };
    }
    match key.code {
        TerminalKeyCode::Up | TerminalKeyCode::BackTab => Some(step(false, pressed)),
        TerminalKeyCode::Down | TerminalKeyCode::Tab => Some(step(true, pressed)),
        TerminalKeyCode::Escape | TerminalKeyCode::Backspace => Some(ObserverManagerEvent::Back),
        TerminalKeyCode::Enter => {
            if pressed {
                Some(ObserverManagerEvent::Confirm)
            } else {
                None
            }
        },
        TerminalKeyCode::Char(c) => {
            if c == 'k' {
                Some(step(false, pressed))
            } else if c == 'j' {
                Some(step(true, pressed))
            } else if !pressed {
                None
            } else if c == ' ' {
                Some(ObserverManagerEvent::Toggle)
            } else if c == 'n' || c == 'N' {
                Some(ObserverManagerEvent::Create)
            } else if c == 'e' || c == 'E' {
                Some(ObserverManagerEvent::Edit)
            } else if c == 'd' || c == 'D' {
                Some(ObserverManagerEvent::Delete)
            } else {
                None
            }
        },
        _ => None,
    }
}

/// A key that is held down changes no group and no choice: it only moves.
pub proof fn held_keys_change_nothing(key: TerminalKey, screen: ObserverManagerScreen)
    requires
        key.kind == TerminalKeyKind::Repeat,
    ensures
        match key_event(key, screen) {
            None => true,
            Some(event) => event == ObserverManagerEvent::HeldPrevious || event
                == ObserverManagerEvent::HeldNext || event == ObserverManagerEvent::Back,
        },
{
}

/// Held navigation keys repeat without wrapping: on the last row a key that
/// moves down leaves everything as it is, on the first row one that moves up
/// does, and elsewhere they move by one row.
pub proof fn held_keys_do_not_wrap(manager: ManagerView, key: TerminalKey)
    requires
        manager.well_formed(),
        key.kind == TerminalKeyKind::Repeat,
    ensures
        ({
            let event = key_event(key, manager.screen);
            let next = manager.handled(event->0);
            let last = manager.rows().len() - 1;
            &&& event == Some(ObserverManagerEvent::HeldNext) ==> next == (
                ManagerView {
                    selected: if manager.selected < last {
                        manager.selected + 1
                    } else {
                        manager.selected
                    },
                    ..manager
                },
                OutcomeView::Continue,
            )
            &&& event == Some(ObserverManagerEvent::HeldPrevious) ==> next == (
                ManagerView {
                    selected: if manager.selected > 0 {
                        manager.selected - 1
                    } else {
                        manager.selected
                    },
                    ..manager
                },
                OutcomeView::Continue,
            )
        }),
{
}

/// Nothing is asked for but what a person confirmed: a change behind its
/// review, a deletion behind its question.
pub proof fn changes_are_confirmed(manager: ManagerView, event: ObserverManagerEvent)
    requires
        manager.well_formed(),
    ensures
        match manager.handled(event).1 {
            OutcomeView::Continue => true,
            OutcomeView::Action(action) => match action {
                ActionView::Create { .. } => manager.screen
                    == ObserverManagerScreen::ReviewTopology && event
                    == ObserverManagerEvent::Confirm,
                ActionView::ReplaceWorkers { .. } => manager.screen
                    == ObserverManagerScreen::ReviewTopology && event
                    == ObserverManagerEvent::Confirm,
                ActionView::ReassignOrchestrator { .. } => manager.screen
                    == ObserverManagerScreen::ReviewTopology && event
                    == ObserverManagerEvent::Confirm,
                ActionView::Delete { .. } => manager.screen
                    == ObserverManagerScreen::ConfirmDelete && event
                    == ObserverManagerEvent::ConfirmDelete,
                ActionView::Launch { .. } => manager.screen
                    == ObserverManagerScreen::GroupActions && event
                    == ObserverManagerEvent::Confirm,
                ActionView::SetAgentView { .. } => manager.screen
                    == ObserverManagerScreen::GroupActions && event
                    == ObserverManagerEvent::Confirm,
                ActionView::ClearAgentView => manager.screen
                    == ObserverManagerScreen::GroupActions && event
                    == ObserverManagerEvent::Confirm,
                ActionView::BackToPicker => manager.screen == ObserverManagerScreen::Groups
                    && event == ObserverManagerEvent::Back,
            },
        },
{
}

/// A manager never changes the groups that it was made of.
pub proof fn managing_leaves_the_groups_alone(manager: ManagerView, event: ObserverManagerEvent)
    ensures
        manager.handled(event).0.groups == manager.groups,
        manager.handled(event).0.eligible == manager.eligible,
{
}

} // verus!
