//! What the Observer manager shows, keeps and asks for.

use vstd::prelude::*;
use vstd::string::*;

use crate::agent_view::AgentViewFilter;
use crate::manager_names::{
    base_label, eligible_records, first_free, free_suffix, full_label, namesakes, numbered_id,
    repository_of, safe_name,
};
use crate::model::SessionId;
use crate::observer_manager::{
    candidate_in, candidate_of, chosen_workers, key_event, manager_of, member_candidate, member_ids,
    others, running_ids, unavailable_count, ActionView, CandidateView, ManagerView,
    ObserverManagerEvent, ObserverManagerScreen, OutcomeView, ReviewKind,
};
use crate::observer_runtime::{TerminalKey, TerminalKeyCode, TerminalKeyKind};
use crate::orchestration::WorkerSpecView;
use crate::state::{
    listing, MemberView, OrchestrationCapabilities, RecordView, SessionStatus, StateView,
};
use crate::text::numeral;
use crate::text_laws::{holds_part, lemma_holds};

verus! {

/// What no event changes: the groups, who may be chosen, what sessions are
/// called and which run.
pub open spec fn same_world(a: ManagerView, b: ManagerView) -> bool {
    &&& a.groups == b.groups
    &&& a.eligible == b.eligible
    &&& a.labels == b.labels
    &&& a.running == b.running
}

/// No event changes the groups, who may be chosen, what sessions are called or
/// which run.
pub proof fn events_leave_the_world_alone(manager: ManagerView, event: ObserverManagerEvent)
    ensures
        same_world(manager.handled(event).0, manager),
{
}

/// A key that is pressed moves by one row and goes round; nothing else changes.
pub proof fn pressed_keys_move_by_one_row(manager: ManagerView)
    requires
        manager.screen != ObserverManagerScreen::ConfirmDelete,
        0 <= manager.selected < manager.rows().len(),
    ensures
        ({
            let n = manager.rows().len() as int;
            let (next, outcome) = manager.handled(ObserverManagerEvent::Next);
            let (previous, back) = manager.handled(ObserverManagerEvent::Previous);
            &&& outcome == OutcomeView::Continue && back == OutcomeView::Continue
            &&& manager.selected + 1 < n ==> next.selected == manager.selected + 1
            &&& manager.selected + 1 == n ==> next.selected == 0
            &&& manager.selected > 0 ==> previous.selected == manager.selected - 1
            &&& manager.selected == 0 ==> previous.selected == n - 1
            &&& next == (ManagerView { selected: next.selected, ..manager })
            &&& previous == (ManagerView { selected: previous.selected, ..manager })
        }),
{
    let n = manager.rows().len() as int;
    if manager.selected + 1 < n {
        vstd::arithmetic::div_mod::lemma_small_mod((manager.selected + 1) as nat, n as nat);
    } else {
        vstd::arithmetic::div_mod::lemma_mod_self_0(n);
    }
}

/// Confirming on a group shows its actions; confirming behind the last group, or
/// asking for it, begins a new one where at least two workloads may take part.
pub proof fn groups_are_opened_or_made(manager: ManagerView)
    requires
        manager.screen == ObserverManagerScreen::Groups,
    ensures
        ({
            let (next, outcome) = manager.handled(ObserverManagerEvent::Confirm);
            let made = manager.handled(ObserverManagerEvent::Create).0;
            &&& outcome == OutcomeView::Continue
            &&& manager.selected < manager.groups.len() ==> next.screen
                == ObserverManagerScreen::GroupActions && next.group == Some(manager.selected)
                && next.selected == 0
            &&& manager.selected >= manager.groups.len() ==> next == made
            &&& manager.eligible.len() >= 2 ==> {
                &&& made.screen == ObserverManagerScreen::CreateOrchestrator
                &&& made.candidates == manager.eligible
                &&& made.group is None && made.orchestrator is None
                &&& made.workers.len() == 0
                &&& made.selected == 0 && made.notice is None
            }
            &&& manager.eligible.len() < 2 ==> made.screen == ObserverManagerScreen::Groups
                && made.notice is Some
        }),
{
}

/// The orchestrator of a new group is the selected candidate, and its workers are
/// chosen among all others.
pub proof fn the_selected_candidate_becomes_the_orchestrator(manager: ManagerView)
    requires
        manager.screen == ObserverManagerScreen::CreateOrchestrator,
        0 <= manager.selected < manager.candidates.len(),
    ensures
        ({
            let (next, outcome) = manager.handled(ObserverManagerEvent::Confirm);
            let id = manager.candidates[manager.selected].session_id;
            &&& outcome == OutcomeView::Continue
            &&& next.screen == ObserverManagerScreen::CreateWorkers
            &&& next.orchestrator == Some(id)
            &&& next.candidates == manager.eligible.filter(
                |candidate: CandidateView| candidate.session_id != id,
            )
            &&& next.workers.len() == 0
            &&& next.selected == 0
            &&& next.group == manager.group
        }),
{
    let id = manager.candidates[manager.selected].session_id;
    candidates_but_for_some(manager.eligible, id, Seq::empty());
    let a = |candidate: CandidateView|
        candidate.session_id != id && !Seq::<SessionId>::empty().contains(candidate.session_id);
    let b = |candidate: CandidateView| candidate.session_id != id;
    assert(a =~= b);
}

/// Leaving candidates out leaves exactly the others, in their order.
pub proof fn candidates_but_for_some(
    candidates: Seq<CandidateView>,
    id: SessionId,
    known: Seq<SessionId>,
)
    ensures
        others(candidates, id, known) == candidates.filter(
            |candidate: CandidateView|
                candidate.session_id != id && !known.contains(candidate.session_id),
        ),
    decreases candidates.len(),
{
    reveal(Seq::filter);
    if candidates.len() > 0 {
        candidates_but_for_some(candidates.drop_last(), id, known);
    } else {
        assert(candidates.filter(
            |candidate: CandidateView|
                candidate.session_id != id && !known.contains(candidate.session_id),
        ) =~= Seq::empty());
    }
}

/// The six actions of a group, in their order: it is opened, its workers edited,
/// its orchestrator changed, it is deleted once confirmed, and the sidebar shows
/// it or is restored. Each is about the shown group.
pub proof fn actions_are_about_the_shown_group(manager: ManagerView)
    requires
        manager.screen == ObserverManagerScreen::GroupActions,
    ensures
        ({
            let group = manager.groups[manager.group->0];
            let (next, outcome) = manager.handled(ObserverManagerEvent::Confirm);
            &&& manager.rows().len() == 6
            &&& manager.selected == 0 ==> next == manager && outcome == OutcomeView::Action(
                ActionView::Launch { group_id: group.id },
            )
            &&& manager.selected == 1 ==> next.screen == ObserverManagerScreen::EditWorkers
                && outcome == OutcomeView::Continue
            &&& manager.selected == 2 ==> next.screen == ObserverManagerScreen::ChangeOrchestrator
                && outcome == OutcomeView::Continue
            &&& manager.selected == 3 ==> next.screen == ObserverManagerScreen::ConfirmDelete
                && outcome == OutcomeView::Continue
            &&& manager.selected == 4 ==> next == manager && outcome == OutcomeView::Action(
                ActionView::SetAgentView { group_id: group.id, filter: AgentViewFilter::All },
            )
            &&& manager.selected == 5 ==> next == manager && outcome == OutcomeView::Action(
                ActionView::ClearAgentView,
            )
            &&& manager.handled(ObserverManagerEvent::Edit).0.screen
                == ObserverManagerScreen::EditWorkers
            &&& manager.handled(ObserverManagerEvent::Delete).0.screen
                == ObserverManagerScreen::ConfirmDelete
            &&& next.group == manager.group
        }),
{
}

/// Editing begins with the members of the group chosen, in their order, and
/// offers them before everyone else but the orchestrator.
pub proof fn editing_begins_with_the_members(manager: ManagerView, at: int)
    requires
        manager.screen == ObserverManagerScreen::GroupActions,
    ensures
        ({
            let group = manager.groups[manager.group->0];
            let next = manager.handled(ObserverManagerEvent::Edit).0;
            let n = group.workers.len() as int;
            &&& next.workers.len() == n
            &&& next.candidates.len() >= n
            &&& 0 <= at < n ==> next.workers[at] == group.workers[at].session_id
                && next.candidates[at].existing == Some(group.workers[at])
            &&& next.candidates.skip(n) == manager.eligible.filter(
                |candidate: CandidateView|
                    candidate.session_id != group.orchestrator && !next.workers.contains(
                        candidate.session_id,
                    ),
            )
            &&& next.selected == 0 && next.notice is None
        }),
{
    let group = manager.groups[manager.group->0];
    let next = manager.handled(ObserverManagerEvent::Edit).0;
    candidates_but_for_some(manager.eligible, group.orchestrator, member_ids(group.workers));
    assert(next.candidates.skip(group.workers.len() as int) =~= others(
        manager.eligible,
        group.orchestrator,
        member_ids(group.workers),
    ));
}

/// A member is offered as the workload that it is, if that may be chosen, and
/// else under its title; either way it stays the member that it is.
pub proof fn members_stay_who_they_are(
    eligible: Seq<CandidateView>,
    member: MemberView,
    at: int,
)
    ensures
        member_candidate(eligible, member, at).existing == Some(member),
        candidate_in(eligible, member.session_id) is None ==> member_candidate(
            eligible,
            member,
            at,
        ).session_id == member.session_id,
        candidate_in(eligible, member.session_id) matches Some(candidate) ==> {
            let offered = member_candidate(eligible, member, at);
            &&& offered.session_id == member.session_id
            &&& offered.label == candidate.label
            &&& offered.host == candidate.host
            &&& offered.repository == candidate.repository
            &&& offered.title == candidate.title
        },
{
    lemma_candidate_in(eligible, member.session_id);
}

/// A candidate that is found is the first of its session.
proof fn lemma_candidate_in(candidates: Seq<CandidateView>, id: SessionId)
    ensures
        match candidate_in(candidates, id) {
            Some(candidate) => candidate.session_id == id && candidates.contains(candidate),
            None => forall|i: int|
                0 <= i < candidates.len() ==> (#[trigger] candidates[i]).session_id != id,
        },
    decreases candidates.len(),
{
    if candidates.len() > 0 {
        let front = candidates.drop_last();
        lemma_candidate_in(front, id);
        match candidate_in(front, id) {
            Some(candidate) => {
                let k = choose|k: int| 0 <= k < front.len() && front[k] == candidate;
                assert(candidates[k] == candidate);
            },
            None => {
                assert(candidates[candidates.len() - 1] == candidates.last());
                assert forall|i: int| 0 <= i < candidates.len() - 1 implies (
                #[trigger] candidates[i]).session_id != id by {
                    assert(front[i] == candidates[i]);
                }
            },
        }
    }
}

/// The workers that were chosen are asked for in the order of the candidates: a
/// member as it is, and a new one under its title, to be observed and opened but
/// not prompted.
pub proof fn chosen_workers_are_asked_for(
    candidates: Seq<CandidateView>,
    chosen: Seq<SessionId>,
)
    ensures
        chosen_workers(candidates, chosen) == candidates.filter(
            |candidate: CandidateView| chosen.contains(candidate.session_id),
        ).map_values(|candidate: CandidateView| as_worker(candidate)),
    decreases candidates.len(),
{
    let wanted = |candidate: CandidateView| chosen.contains(candidate.session_id);
    let of = |candidate: CandidateView| as_worker(candidate);
    reveal(Seq::filter);
    if candidates.len() > 0 {
        let front = candidates.drop_last();
        let last = candidates.last();
        chosen_workers_are_asked_for(front, chosen);
        assert(front.filter(wanted).push(last).map_values(of) =~= front.filter(wanted).map_values(
            of,
        ).push(of(last)));
    } else {
        assert(candidates.filter(wanted).map_values(of) =~= Seq::empty());
    }
}

/// A candidate as a worker.
pub open spec fn as_worker(candidate: CandidateView) -> WorkerSpecView {
    match candidate.existing {
        Some(member) => WorkerSpecView {
            session_id: member.session_id,
            title: member.title,
            capabilities: member.capabilities,
        },
        None => WorkerSpecView {
            session_id: candidate.session_id,
            title: Some(candidate.title),
            capabilities: OrchestrationCapabilities {
                observe_output: true,
                open_interactive: true,
                prompt_agent: false,
            },
        },
    }
}

/// A selected candidate is chosen or let go; nothing else changes, and where no
/// workers are chosen nothing does.
pub proof fn toggling_chooses_the_selected_candidate(manager: ManagerView, other: SessionId)
    requires
        manager.screen != ObserverManagerScreen::ConfirmDelete,
        0 <= manager.selected,
    ensures
        ({
            let (next, outcome) = manager.handled(ObserverManagerEvent::Toggle);
            let choosing = manager.screen == ObserverManagerScreen::CreateWorkers
                || manager.screen == ObserverManagerScreen::EditWorkers;
            &&& outcome == OutcomeView::Continue
            &&& !choosing || manager.selected >= manager.candidates.len() ==> next == manager
            &&& choosing && manager.selected < manager.candidates.len() ==> {
                let id = manager.candidates[manager.selected].session_id;
                &&& next.workers.contains(id) <==> !manager.workers.contains(id)
                &&& other != id ==> (next.workers.contains(other) <==> manager.workers.contains(
                    other,
                ))
                &&& next == (ManagerView { workers: next.workers, notice: None, ..manager })
            }
        }),
{
    if manager.selected < manager.candidates.len() {
        crate::observer_manager::toggling_changes_one_session(
            manager.workers,
            manager.candidates[manager.selected].session_id,
            other,
        );
    }
}

/// Workers that were chosen are looked over before anything is asked for, and so
/// is another orchestrator. Where nobody was chosen, that is said.
pub proof fn changes_are_looked_over_first(manager: ManagerView)
    requires
        0 <= manager.selected,
    ensures
        ({
            let (next, outcome) = manager.handled(ObserverManagerEvent::Confirm);
            let create = manager.screen == ObserverManagerScreen::CreateWorkers;
            let edit = manager.screen == ObserverManagerScreen::EditWorkers;
            let change = manager.screen == ObserverManagerScreen::ChangeOrchestrator;
            &&& create || edit || change ==> outcome == OutcomeView::Continue
            &&& (create || edit) && manager.workers.len() == 0 ==> next.screen == manager.screen
                && next.notice is Some
            &&& (create || edit) && manager.workers.len() > 0 ==> next.screen
                == ObserverManagerScreen::ReviewTopology && next.workers == manager.workers
                && next.candidates == manager.candidates && next.orchestrator
                == manager.orchestrator && next.return_to == manager.selected
            &&& create && manager.workers.len() > 0 ==> next.review == Some(ReviewKind::Create)
            &&& edit && manager.workers.len() > 0 ==> next.review == Some(
                ReviewKind::ReplaceWorkers,
            )
            &&& change && manager.selected < manager.candidates.len() ==> next.screen
                == ObserverManagerScreen::ReviewTopology && next.review == Some(
                ReviewKind::ReassignOrchestrator,
            ) && next.orchestrator == Some(manager.candidates[manager.selected].session_id)
            &&& change && manager.selected >= manager.candidates.len() ==> next == manager
        }),
{
}

/// What was looked over is asked for as it was shown: the chosen workers, in the
/// shown group or in a new one with the chosen orchestrator, or the chosen
/// orchestrator of the shown group.
pub proof fn what_was_looked_over_is_asked_for(manager: ManagerView)
    requires
        manager.screen == ObserverManagerScreen::ReviewTopology,
        manager.review is Some,
    ensures
        ({
            let (next, outcome) = manager.handled(ObserverManagerEvent::Confirm);
            let chosen = chosen_workers(manager.candidates, manager.workers);
            &&& next == manager
            &&& manager.review == Some(ReviewKind::ReplaceWorkers) ==> outcome
                == OutcomeView::Action(
                ActionView::ReplaceWorkers {
                    group: manager.groups[manager.group->0],
                    workers: chosen,
                },
            )
            &&& manager.review == Some(ReviewKind::ReassignOrchestrator) ==> outcome
                == OutcomeView::Action(
                ActionView::ReassignOrchestrator {
                    group: manager.groups[manager.group->0],
                    orchestrator: manager.orchestrator->0,
                },
            )
            &&& manager.review == Some(ReviewKind::Create) ==> (outcome matches OutcomeView::Action(
                ActionView::Create { id, title, orchestrator, workers },
            ) && orchestrator == manager.orchestrator->0 && workers == chosen)
        }),
{
}

/// A new group has an identifier that no group has.
pub proof fn new_groups_have_identifiers_of_their_own(
    taken: Seq<Seq<char>>,
    base: Seq<char>,
    suffix: int,
)
    requires
        first_free(taken, base, suffix),
    ensures
        first_free(taken, base, free_suffix(taken, base)),
        !taken.contains(numbered_id(base, free_suffix(taken, base))),
        numbered_id(base, 1) == base,
        suffix > 1 ==> numbered_id(base, suffix) == base + "-"@ + numeral(suffix as nat),
{
}

/// Going back shows the screen before: the groups, the orchestrators, the actions
/// of the group or what was looked over; from the groups it leaves the manager.
pub proof fn back_shows_the_screen_before(manager: ManagerView)
    requires
        manager.screen == ObserverManagerScreen::ReviewTopology ==> manager.review is Some,
    ensures
        ({
            let (next, outcome) = manager.handled(ObserverManagerEvent::Back);
            &&& manager.screen == ObserverManagerScreen::Groups ==> outcome == OutcomeView::Action(
                ActionView::BackToPicker,
            )
            &&& manager.screen != ObserverManagerScreen::Groups ==> outcome
                == OutcomeView::Continue
            &&& next.screen == match manager.screen {
                ObserverManagerScreen::Groups => ObserverManagerScreen::Groups,
                ObserverManagerScreen::CreateOrchestrator => ObserverManagerScreen::Groups,
                ObserverManagerScreen::CreateWorkers => ObserverManagerScreen::CreateOrchestrator,
                ObserverManagerScreen::GroupActions => ObserverManagerScreen::Groups,
                ObserverManagerScreen::EditWorkers => ObserverManagerScreen::GroupActions,
                ObserverManagerScreen::ChangeOrchestrator => ObserverManagerScreen::GroupActions,
                ObserverManagerScreen::ConfirmDelete => ObserverManagerScreen::GroupActions,
                ObserverManagerScreen::ReviewTopology => match manager.review->0 {
                    ReviewKind::Create => ObserverManagerScreen::CreateWorkers,
                    ReviewKind::ReplaceWorkers => ObserverManagerScreen::EditWorkers,
                    ReviewKind::ReassignOrchestrator => ObserverManagerScreen::ChangeOrchestrator,
                },
            }
            &&& manager.screen == ObserverManagerScreen::ReviewTopology ==> next.workers
                == manager.workers && next.candidates == manager.candidates && next.orchestrator
                == manager.orchestrator && next.selected == manager.return_to
            &&& next.group == manager.group
        }),
{
}

/// A group is deleted only where that is confirmed, and it is the shown one.
/// Everything else leaves it alone.
pub proof fn deletions_are_confirmed(manager: ManagerView, event: ObserverManagerEvent)
    requires
        manager.screen == ObserverManagerScreen::ConfirmDelete,
    ensures
        ({
            let (next, outcome) = manager.handled(event);
            &&& event == ObserverManagerEvent::ConfirmDelete ==> outcome == OutcomeView::Action(
                ActionView::Delete { group: manager.groups[manager.group->0] },
            )
            &&& event != ObserverManagerEvent::ConfirmDelete ==> outcome == OutcomeView::Continue
            &&& event == ObserverManagerEvent::DismissDelete || event == ObserverManagerEvent::Back
                ==> next.screen == ObserverManagerScreen::GroupActions && next.group
                == manager.group
            &&& event != ObserverManagerEvent::DismissDelete && event
                != ObserverManagerEvent::Back ==> next == manager
        }),
{
}

/// The keys of the manager. On the question whether a group is to go, only a
/// pressed yes or no counts.
pub proof fn keys_of_the_manager(key: TerminalKey, screen: ObserverManagerScreen)
    requires
        !key.control,
        !key.alt,
        key.kind == TerminalKeyKind::Press,
    ensures
        ({
            let event = key_event(key, screen);
            let asks = screen == ObserverManagerScreen::ConfirmDelete;
            let c = key.code->Char_0;
            &&& asks ==> {
                &&& key.code is Char && (c == 'y' || c == 'Y') <==> event == Some(
                    ObserverManagerEvent::ConfirmDelete,
                )
                &&& (key.code is Char && (c == 'n' || c == 'N')) || key.code is Escape || key.code
                    is Backspace <==> event == Some(ObserverManagerEvent::DismissDelete)
                &&& event is None || event == Some(ObserverManagerEvent::ConfirmDelete) || event
                    == Some(ObserverManagerEvent::DismissDelete)
            }
            &&& !asks ==> {
                &&& key.code is Up || key.code is BackTab || (key.code is Char && c == 'k')
                    <==> event == Some(ObserverManagerEvent::Previous)
                &&& key.code is Down || key.code is Tab || (key.code is Char && c == 'j')
                    <==> event == Some(ObserverManagerEvent::Next)
                &&& key.code is Escape || key.code is Backspace <==> event == Some(
                    ObserverManagerEvent::Back,
                )
                &&& key.code is Enter <==> event == Some(ObserverManagerEvent::Confirm)
                &&& key.code is Char && c == ' ' <==> event == Some(ObserverManagerEvent::Toggle)
                &&& key.code is Char && (c == 'n' || c == 'N') <==> event == Some(
                    ObserverManagerEvent::Create,
                )
                &&& key.code is Char && (c == 'e' || c == 'E') <==> event == Some(
                    ObserverManagerEvent::Edit,
                )
                &&& key.code is Char && (c == 'd' || c == 'D') <==> event == Some(
                    ObserverManagerEvent::Delete,
                )
            }
        }),
{
}

/// A released key asks for nothing; control and C go back, and nothing else
/// counts with control or alt.
pub proof fn keys_with_modifiers(key: TerminalKey, screen: ObserverManagerScreen)
    ensures
        key.kind == TerminalKeyKind::Release ==> key_event(key, screen) is None,
        key.kind != TerminalKeyKind::Release && key.control && (key.code == TerminalKeyCode::Char(
            'c',
        ) || key.code == TerminalKeyCode::Char('C')) ==> key_event(key, screen) == Some(
            ObserverManagerEvent::Back,
        ),
        key.control && key.code != TerminalKeyCode::Char('c') && key.code != TerminalKeyCode::Char(
            'C',
        ) ==> key_event(key, screen) is None,
        key.alt && !key.control ==> key_event(key, screen) is None,
{
}

/// The manager of a state begins with its groups, offers the workloads that run
/// as they are listed, and shows the notice that it was given.
pub proof fn managers_show_their_state(state: StateView, notice: Option<Seq<char>>)
    ensures
        ({
            let manager = manager_of(state, notice);
            &&& manager.screen == ObserverManagerScreen::Groups
            &&& manager.groups == state.groups
            &&& manager.selected == 0
            &&& manager.group is None && manager.orchestrator is None && manager.review is None
            &&& manager.workers.len() == 0
            &&& manager.notice == notice
            &&& manager.running == state.sessions.filter(
                |record: RecordView| record.status == SessionStatus::Running,
            ).map_values(|record: RecordView| record.id)
            &&& manager.eligible.len() == listing(eligible_records(state.sessions)).len()
            &&& forall|i: int|
                0 <= i < manager.eligible.len() ==> (#[trigger] manager.eligible[i]).session_id
                    == listing(eligible_records(state.sessions))[i].id
            &&& manager.rows().len() == state.groups.len() + 1
        }),
{
    running_sessions_are_listed(state.sessions);
}

/// The running sessions, in their order.
pub proof fn running_sessions_are_listed(records: Seq<RecordView>)
    ensures
        running_ids(records) == records.filter(
            |record: RecordView| record.status == SessionStatus::Running,
        ).map_values(|record: RecordView| record.id),
    decreases records.len(),
{
    let runs = |record: RecordView| record.status == SessionStatus::Running;
    let of = |record: RecordView| record.id;
    reveal(Seq::filter);
    if records.len() > 0 {
        let front = records.drop_last();
        let last = records.last();
        running_sessions_are_listed(front);
        assert(front.filter(runs).push(last).map_values(of) =~= front.filter(runs).map_values(
            of,
        ).push(last.id));
    } else {
        assert(records.filter(runs).map_values(of) =~= Seq::empty());
    }
}

/// The workloads that may take part run, are owned and are known as incarnations.
pub proof fn workloads_that_run_may_take_part(records: Seq<RecordView>, label: Seq<char>)
    ensures
        eligible_records(records) == records.filter(
            |record: RecordView|
                record.status == SessionStatus::Running && record.ownership_proof is Some
                    && record.tmux_session_id is Some,
        ),
        namesakes(records, label) == records.filter(
            |record: RecordView| base_label(record) == label,
        ).map_values(|record: RecordView| record.id),
    decreases records.len(),
{
    let runs = |record: RecordView|
        record.status == SessionStatus::Running && record.ownership_proof is Some
            && record.tmux_session_id is Some;
    let same = |record: RecordView| base_label(record) == label;
    let of = |record: RecordView| record.id;
    reveal(Seq::filter);
    if records.len() > 0 {
        let front = records.drop_last();
        let last = records.last();
        workloads_that_run_may_take_part(front, label);
        assert(front.filter(same).push(last).map_values(of) =~= front.filter(same).map_values(
            of,
        ).push(last.id));
    } else {
        assert(records.filter(runs) =~= Seq::empty());
        assert(records.filter(same).map_values(of) =~= Seq::empty());
    }
}

/// A workload is called by its host, its repository and its preset.
pub proof fn labels_tell_host_repository_and_preset(records: Seq<RecordView>, record: RecordView)
    ensures
        ({
            let label = base_label(record);
            &&& holds_part(label, safe_name(record.host, 24))
            &&& holds_part(label, safe_name(repository_of(record.directory), 32))
            &&& record.preset matches Some(preset) ==> holds_part(label, safe_name(preset, 24))
            &&& record.preset is None ==> holds_part(label, safe_name("shell"@, 24))
            &&& holds_part(full_label(records, record), label)
            &&& candidate_of(records, record).session_id == record.id
            &&& candidate_of(records, record).label == full_label(records, record)
            &&& candidate_of(records, record).host == safe_name(record.host, 24)
            &&& candidate_of(records, record).existing is None
        }),
{
    let host = safe_name(record.host, 24);
    let repository = safe_name(repository_of(record.directory), 32);
    let preset = safe_name(
        match record.preset {
            Some(preset) => preset,
            None => "shell"@,
        },
        24,
    );
    let label = base_label(record);
    lemma_holds(Seq::empty(), host, " / "@ + repository + " / "@ + preset);
    assert(label =~= host + (" / "@ + repository + " / "@ + preset));
    lemma_holds(host + " / "@, repository, " / "@ + preset);
    assert(label =~= host + " / "@ + repository + (" / "@ + preset));
    lemma_holds(host + " / "@ + repository + " / "@, preset, Seq::empty());
    let full = full_label(records, record);
    if full == label {
        lemma_holds(label, label, Seq::empty());
        let at: int = 0;
        assert(full.subrange(at, at + label.len()) =~= label);
    } else {
        let rest = full.skip(label.len() as int);
        assert(full =~= label + rest);
        lemma_holds(Seq::empty(), label, rest);
    }
}

/// The rows of the groups tell each group by its title and end with the offer to
/// make one.
pub proof fn rows_tell_every_group(manager: ManagerView, at: int)
    requires
        manager.screen == ObserverManagerScreen::Groups,
    ensures
        manager.rows().len() == manager.groups.len() + 1,
        manager.rows().last() == "+ Create Observer"@,
        0 <= at < manager.groups.len() ==> holds_part(
            manager.rows()[at],
            manager.groups[at].title,
        ),
{
    if 0 <= at < manager.groups.len() {
        let group = manager.groups[at];
        let row = manager.rows()[at];
        assert(row == manager.summary(group));
        let start: int = 0;
        assert(row.subrange(start, start + group.title.len()) =~= group.title);
    }
}

/// The rows of candidates tell each by its label, and whether it is chosen.
pub proof fn rows_tell_every_candidate(manager: ManagerView, at: int)
    requires
        0 <= at < manager.candidates.len(),
    ensures
        ({
            let candidate = manager.candidates[at];
            let choosing = manager.screen == ObserverManagerScreen::CreateWorkers
                || manager.screen == ObserverManagerScreen::EditWorkers;
            let leading = manager.screen == ObserverManagerScreen::CreateOrchestrator
                || manager.screen == ObserverManagerScreen::ChangeOrchestrator;
            &&& choosing || leading ==> manager.rows().len() == manager.candidates.len()
            &&& leading ==> manager.rows()[at] == "ORCHESTRATOR "@ + candidate.label
            &&& choosing && manager.workers.contains(candidate.session_id) ==> manager.rows()[at]
                == "[x]"@ + " WORKER "@ + candidate.label
            &&& choosing && !manager.workers.contains(candidate.session_id) ==> manager.rows()[at]
                == "[ ]"@ + " WORKER "@ + candidate.label
        }),
{
}

/// The members that do not run are counted.
pub proof fn members_that_do_not_run_are_counted(
    members: Seq<MemberView>,
    running: Seq<SessionId>,
)
    ensures
        unavailable_count(members, running) == members.filter(
            |member: MemberView| !running.contains(member.session_id),
        ).len(),
    decreases members.len(),
{
    reveal(Seq::filter);
    if members.len() > 0 {
        members_that_do_not_run_are_counted(members.drop_last(), running);
    } else {
        assert(members.filter(|member: MemberView| !running.contains(member.session_id))
            =~= Seq::empty());
    }
}

} // verus!
