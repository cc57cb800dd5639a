//! What an Observer shows, keeps and asks for.

use vstd::prelude::*;
use vstd::string::*;

use crate::capture::shown_capture;
use crate::observer::{
    chosen_ids, find_worker, find_worker_finds, first_workers, input_action, key_action,
    prompt_ready, reference_text, AttentionReason, AttentionView, CaptureStatus, ObserverAction,
    ObserverCapture, ObserverInputKind, ObserverKey, ObserverView, OutcomeView, StaleReason,
    WorkerView,
};

verus! {

/// The worker of an identifier: the first one that has it.
pub open spec fn shows(workers: Seq<WorkerView>, id: Seq<char>, at: int) -> bool {
    &&& 0 <= at < workers.len()
    &&& workers[at].id == id
    &&& forall|i: int| 0 <= i < at ==> (#[trigger] workers[i]).id != id
}

/// No worker has the identifier.
pub open spec fn shows_none(workers: Seq<WorkerView>, id: Seq<char>) -> bool {
    forall|i: int| 0 <= i < workers.len() ==> (#[trigger] workers[i]).id != id
}

/// The worker of an identifier is the one that is found.
proof fn lemma_shows(workers: Seq<WorkerView>, id: Seq<char>, at: int)
    ensures
        find_worker(workers, id) == Some(at) <==> shows(workers, id, at),
        find_worker(workers, id) is None <==> shows_none(workers, id),
{
    find_worker_finds(workers, id);
    match find_worker(workers, id) {
        Some(found) => {
            assert(workers[found].id == id);
            if shows(workers, id, at) {
                if found < at {
                    assert(workers[found].id != id);
                }
                if at < found {
                    assert(workers[at].id != id);
                }
            }
        },
        None => {
            if shows(workers, id, at) {
                assert(workers[at].id != id);
            }
        },
    }
}

/// A worker is opened, focused, read and prompted only while it runs and is
/// owned, and only as it allows; a prompt further needs an agent that waits.
pub proof fn workers_allow_what_they_say(worker: WorkerView)
    ensures
        ({
            let runs = worker.owned && worker.lifecycle is Running;
            let reached = !(worker.agent_state is Unreachable) && !(worker.agent_state is Stale);
            let waits = worker.agent_state is Idle || worker.agent_state is Done;
            &&& worker.openable() <==> runs && reached && worker.capabilities.open_interactive
            &&& worker.focusable() <==> runs && reached && worker.capabilities.open_interactive
                && worker.live_agent
            &&& worker.observable() <==> runs && reached && worker.capabilities.observe_output
                && worker.live_agent
            &&& worker.promptable() <==> runs && waits && worker.capabilities.prompt_agent
                && worker.live_agent
            &&& worker.live_agent && worker.lifecycle is Running ==> worker.status_word()
                == worker.agent_state.word()
            &&& !(worker.live_agent && worker.lifecycle is Running) ==> worker.status_word()
                == worker.lifecycle.word()
        }),
{
}

/// The keys that move the selection.
pub proof fn keys_move_the_selection()
    ensures
        key_action(ObserverKey::Up) == Some(ObserverAction::PreviousWorker),
        key_action(ObserverKey::Left) == Some(ObserverAction::PreviousWorker),
        key_action(ObserverKey::Char('k')) == Some(ObserverAction::PreviousWorker),
        key_action(ObserverKey::Char('h')) == Some(ObserverAction::PreviousWorker),
        key_action(ObserverKey::Down) == Some(ObserverAction::NextWorker),
        key_action(ObserverKey::Right) == Some(ObserverAction::NextWorker),
        key_action(ObserverKey::Char('j')) == Some(ObserverAction::NextWorker),
        key_action(ObserverKey::Char('l')) == Some(ObserverAction::NextWorker),
        key_action(ObserverKey::PageUp) == Some(ObserverAction::PreviousPage),
        key_action(ObserverKey::BackTab) == Some(ObserverAction::PreviousPage),
        key_action(ObserverKey::Char('[')) == Some(ObserverAction::PreviousPage),
        key_action(ObserverKey::PageDown) == Some(ObserverAction::NextPage),
        key_action(ObserverKey::Tab) == Some(ObserverAction::NextPage),
        key_action(ObserverKey::Char(']')) == Some(ObserverAction::NextPage),
{
}

/// The keys that ask for something, and that no other key does.
pub proof fn keys_ask_for_one_thing(c: char)
    ensures
        key_action(ObserverKey::Enter) == Some(ObserverAction::OpenSelected),
        key_action(ObserverKey::Escape) == Some(ObserverAction::Quit),
        key_action(ObserverKey::ControlC) == Some(ObserverAction::Quit),
        key_action(ObserverKey::Char(c)) == Some(ObserverAction::TogglePromptTarget) <==> c == ' ',
        key_action(ObserverKey::Char(c)) == Some(ObserverAction::ComposePrompt) <==> c == 'p' || c
            == 'P',
        key_action(ObserverKey::Char(c)) == Some(ObserverAction::FocusSelected) <==> c == 'f' || c
            == 'F',
        key_action(ObserverKey::Char(c)) == Some(ObserverAction::WaitSelected) <==> c == 'w' || c
            == 'W',
        key_action(ObserverKey::Char(c)) == Some(ObserverAction::ReadSelected) <==> c == 'v' || c
            == 'V',
        key_action(ObserverKey::Char(c)) == Some(ObserverAction::ExplainSelected) <==> c == 'e'
            || c == 'E',
        key_action(ObserverKey::Char(c)) == Some(ObserverAction::Refresh) <==> c == 'r' || c == 'R',
        key_action(ObserverKey::Char(c)) == Some(ObserverAction::Quit) <==> c == 'q' || c == 'Q',
        key_action(ObserverKey::Char(c)) != Some(ObserverAction::OpenSelected),
{
}

/// A key acts if it navigates; if it is pressed and leaves; and if it is pressed
/// while nothing is in flight.
pub proof fn keys_act_when_they_may(key: ObserverKey, kind: ObserverInputKind, busy: bool)
    ensures
        ({
            let r = input_action(key, kind, busy);
            let action = key_action(key);
            let moves = action == Some(ObserverAction::PreviousWorker) || action == Some(
                ObserverAction::NextWorker,
            ) || action == Some(ObserverAction::PreviousPage) || action == Some(
                ObserverAction::NextPage,
            );
            &&& moves ==> r == action
            &&& action == Some(ObserverAction::Quit) && kind == ObserverInputKind::Press ==> r
                == action
            &&& action is Some && kind == ObserverInputKind::Press && !busy ==> r == action
            &&& action is Some && !moves && kind != ObserverInputKind::Press ==> r is None
            &&& action is Some && !moves && action != Some(ObserverAction::Quit) && busy ==> r
                is None
            &&& action is None ==> r is None
        }),
{
}

/// An action is offered exactly if there is a worker that it makes sense for.
pub proof fn actions_are_offered_where_they_make_sense(view: ObserverView, action: ObserverAction)
    ensures
        view.offers(ObserverAction::Refresh),
        view.offers(ObserverAction::Quit),
        action.navigates() || action == ObserverAction::OpenSelected ==> (view.offers(action)
            <==> view.workers.len() > 0),
        action == ObserverAction::TogglePromptTarget || action == ObserverAction::ComposePrompt
            ==> (view.offers(action) <==> exists|i: int|
            0 <= i < view.workers.len() && (#[trigger] view.workers[i]).capabilities.prompt_agent),
        action == ObserverAction::FocusSelected ==> (view.offers(action) <==> exists|i: int|
            0 <= i < view.workers.len() && (#[trigger] view.workers[i]).focusable()),
        action == ObserverAction::WaitSelected || action == ObserverAction::ReadSelected || action
            == ObserverAction::ExplainSelected ==> (view.offers(action) <==> exists|i: int|
            0 <= i < view.workers.len() && (#[trigger] view.workers[i]).observable()),
{
}

/// What a worker is never changes by a refresh or by a capture: who it is, what
/// it allows, how it stands and which incarnation it is.
pub open spec fn same_worker(a: WorkerView, b: WorkerView) -> bool {
    &&& a.id == b.id
    &&& a.title == b.title
    &&& a.capabilities == b.capabilities
    &&& a.lifecycle == b.lifecycle
    &&& a.owned == b.owned
    &&& a.incarnation == b.incarnation
}

/// A refreshed worker is the one that was supplied. A capture that it brings is
/// shown and counts as ready; nothing else of it changes then.
pub proof fn supplied_captures_are_shown(known: ObserverView, worker: WorkerView)
    ensures
        same_worker(known.refreshed(worker).0, worker),
        worker.capture matches Some(text) ==> {
            let (next, status) = known.refreshed(worker);
            &&& next.capture == Some(shown_capture(text))
            &&& status == CaptureStatus::Ready
            &&& next.agent_state == worker.agent_state
            &&& next.live_agent == worker.live_agent
            &&& next.last_observed == worker.last_observed
            &&& next.latency_ms == worker.latency_ms
            &&& next.sampled == worker.sampled
            &&& next.stale_reason == worker.stale_reason
        },
{
}

/// A refresh without a capture keeps the one that is known, be it whole, cut or
/// stale, and says whether it was sampled. A worker that was not known, or of
/// which no capture came yet, has none.
pub proof fn known_captures_are_kept(
    known: ObserverView,
    worker: WorkerView,
    at: int,
)
    requires
        worker.capture is None,
    ensures
        shows(known.workers, worker.id, at) ==> {
            let before = known.workers[at];
            let status = known.statuses[at];
            let (next, after) = known.refreshed(worker);
            let held = status is Ready || status is Truncated || status is Stale;
            &&& held ==> next.capture == before.capture && next.sampled == before.sampled
            &&& !held ==> next.capture is None && next.sampled == worker.sampled
            &&& next.last_observed == match worker.last_observed {
                Some(at) => Some(at),
                None => before.last_observed,
            }
            &&& next.latency_ms == match worker.latency_ms {
                Some(millis) => Some(millis),
                None => before.latency_ms,
            }
        },
        shows_none(known.workers, worker.id) ==> {
            let (next, after) = known.refreshed(worker);
            &&& next == worker
            &&& after is Loading
        },
{
    lemma_shows(known.workers, worker.id, at);
}

/// A worker whose live agent stops answering, or whose capture is out of date,
/// is stale; one that answers again is no longer. Otherwise its agent is told as
/// it was supplied.
pub proof fn workers_out_of_reach_are_stale(known: ObserverView, worker: WorkerView, at: int)
    requires
        worker.capture is None,
        shows(known.workers, worker.id, at),
    ensures
        ({
            let before = known.workers[at];
            let status = known.statuses[at];
            let (next, after) = known.refreshed(worker);
            let held = (status is Ready || status is Truncated || status is Stale)
                && before.capture is Some;
            let lost = before.live_agent && worker.agent_state is Unreachable;
            let stale = lost || (held && (worker.agent_state is Unreachable
                || worker.agent_state is Stale));
            &&& stale ==> next.agent_state is Stale && after is Stale
            &&& !stale ==> next.agent_state == worker.agent_state
            &&& lost ==> next.live_agent && next.stale_reason == Some(StaleReason::Connection)
            &&& stale && !lost && worker.agent_state is Unreachable ==> next.stale_reason == Some(
                StaleReason::Retained,
            )
            &&& !lost ==> next.live_agent == worker.live_agent
            &&& !stale && status is Stale && (worker.agent_state is Idle
                || worker.agent_state is Working || worker.agent_state is Blocked
                || worker.agent_state is Done) ==> if held {
                after is Ready
            } else {
                after is Loading
            }
            &&& !stale && !(status is Stale) ==> after == status
        }),
{
    lemma_shows(known.workers, worker.id, at);
}

/// An Observer shows the first worker of each identifier, at most 64, in the
/// order in which they were supplied.
pub proof fn first_workers_are_shown(incoming: Seq<WorkerView>, at: int)
    ensures
        first_workers(incoming).len() <= 64,
        forall|i: int, j: int|
            0 <= i < j < first_workers(incoming).len() ==> (
            #[trigger] first_workers(incoming)[i]).id != (#[trigger] first_workers(incoming)[j]).id,
        forall|i: int|
            0 <= i < first_workers(incoming).len() ==> incoming.contains(
                #[trigger] first_workers(incoming)[i],
            ),
        0 <= at < incoming.len() && first_workers(incoming).len() < 64 ==> !shows_none(
            first_workers(incoming),
            incoming[at].id,
        ),
        incoming.len() <= 64 && (forall|i: int, j: int|
            0 <= i < j < incoming.len() ==> (#[trigger] incoming[i]).id != (
            #[trigger] incoming[j]).id) ==> first_workers(incoming) == incoming,
    decreases incoming.len(),
{
    if incoming.len() > 0 {
        let front = incoming.drop_last();
        let last = incoming.last();
        let n = front.len() as int;
        let kept = first_workers(front);
        let all = first_workers(incoming);
        first_workers_are_shown(front, at);
        lemma_shows(kept, last.id, 0);
        assert(incoming[n] == last);
        assert(forall|i: int| 0 <= i < n ==> front[i] == incoming[i]);
        assert forall|i: int| 0 <= i < all.len() implies incoming.contains(#[trigger] all[i]) by {
            if i < kept.len() {
                assert(all[i] == kept[i]);
                assert(front.contains(kept[i]));
                let k = choose|k: int| 0 <= k < front.len() && front[k] == kept[i];
                assert(incoming[k] == all[i]);
            } else {
                assert(incoming[n] == all[i]);
            }
        }
        assert forall|i: int, j: int| 0 <= i < j < all.len() implies (#[trigger] all[i]).id != (
        #[trigger] all[j]).id by {
            assert(all[i] == kept[i]);
            if j < kept.len() {
                assert(all[j] == kept[j]);
            } else {
                assert(kept[i].id != last.id);
            }
        }
        if 0 <= at < incoming.len() && all.len() < 64 {
            if at < n {
                assert(front[at] == incoming[at]);
                assert(!shows_none(kept, front[at].id));
                let k = choose|k: int| 0 <= k < kept.len() && (#[trigger] kept[k]).id
                    == front[at].id;
                assert(all[k].id == incoming[at].id);
            } else if all.len() > kept.len() {
                assert(all[all.len() - 1].id == last.id);
            } else {
                let k = choose|k: int| 0 <= k < kept.len() && (#[trigger] kept[k]).id == last.id;
                assert(all[k].id == incoming[at].id);
            }
        }
        if incoming.len() <= 64 && (forall|i: int, j: int|
            0 <= i < j < incoming.len() ==> (#[trigger] incoming[i]).id != (
            #[trigger] incoming[j]).id) {
            assert forall|i: int, j: int| 0 <= i < j < front.len() implies (
            #[trigger] front[i]).id != (#[trigger] front[j]).id by {
                assert(incoming[i].id != incoming[j].id);
            }
            assert(kept == front);
            assert forall|i: int| 0 <= i < kept.len() implies (#[trigger] kept[i]).id
                != last.id by {
                assert(incoming[i].id != incoming[n].id);
            }
            assert(shows_none(kept, last.id));
            assert(all =~= incoming);
        }
    } else {
        assert(first_workers(incoming) =~= incoming);
    }
}

/// A refresh replaces the workers by those supplied, one for one and in their
/// order, keeps the selection where the selected worker is still there and else
/// its place, keeps the destinations that may still be prompted, and keeps the
/// notice.
pub proof fn refreshes_keep_selection_and_destinations(
    known: ObserverView,
    incoming: Seq<WorkerView>,
    id: Seq<char>,
    at: int,
)
    ensures
        ({
            let next = known.updated(incoming);
            let kept = first_workers(incoming);
            &&& next.workers.len() == kept.len()
            &&& next.statuses.len() == kept.len()
            &&& 0 <= at < kept.len() ==> next.workers[at] == known.refreshed(kept[at]).0
                && next.statuses[at] == known.refreshed(kept[at]).1
            &&& kept.len() == 0 ==> next.selected is None
            &&& known.selected == Some(id) && !shows_none(next.workers, id) ==> next.selected
                == Some(id)
            &&& kept.len() > 0 && (known.selected is None || shows_none(
                next.workers,
                known.selected->0,
            )) ==> next.selected == Some(
                if 0 <= known.position() < kept.len() {
                    next.workers[known.position()].id
                } else {
                    next.workers.last().id
                },
            ) || known.position() < 0
            &&& next.targets.contains(id) <==> known.targets.contains(id) && prompt_ready(
                next.workers,
                id,
            )
            &&& next.notice == known.notice
        }),
{
    let next = known.updated(incoming);
    lemma_shows(next.workers, id, at);
    if known.selected is Some {
        lemma_shows(next.workers, known.selected->0, at);
    }
}

/// A worker may be prompted as a destination exactly if it is there and allows it.
pub proof fn destinations_are_workers_that_allow_it(
    workers: Seq<WorkerView>,
    id: Seq<char>,
    at: int,
)
    ensures
        shows(workers, id, at) ==> prompt_ready(workers, id) == workers[at].promptable(),
        shows_none(workers, id) ==> !prompt_ready(workers, id),
{
    lemma_shows(workers, id, at);
}

/// News are told of exactly the agents that newly wait on a person and of exactly
/// the workloads that newly failed, each with its worker and its reason, in the
/// order of the workers.
pub proof fn news_tell_who_needs_attention(known: ObserverView, workers: Seq<WorkerView>)
    ensures
        known.waiting_news(workers) == workers.filter(
            |worker: WorkerView| known.newly_waiting(worker),
        ).map_values(
            |worker: WorkerView|
                AttentionView {
                    worker_id: worker.id,
                    reference: reference_text(worker.id),
                    reason: AttentionReason::Agent(worker.agent_state),
                },
        ),
        known.failure_news(workers) == workers.filter(
            |worker: WorkerView| known.newly_failed(worker),
        ).map_values(
            |worker: WorkerView|
                AttentionView {
                    worker_id: worker.id,
                    reference: reference_text(worker.id),
                    reason: AttentionReason::Failed { exit_status: worker.lifecycle->exit_status },
                },
        ),
    decreases workers.len(),
{
    let waits = |worker: WorkerView| known.newly_waiting(worker);
    let fails = |worker: WorkerView| known.newly_failed(worker);
    let waiting = |worker: WorkerView|
        AttentionView {
            worker_id: worker.id,
            reference: reference_text(worker.id),
            reason: AttentionReason::Agent(worker.agent_state),
        };
    let failed = |worker: WorkerView|
        AttentionView {
            worker_id: worker.id,
            reference: reference_text(worker.id),
            reason: AttentionReason::Failed { exit_status: worker.lifecycle->exit_status },
        };
    reveal(Seq::filter);
    if workers.len() > 0 {
        let front = workers.drop_last();
        let last = workers.last();
        news_tell_who_needs_attention(known, front);
        assert(front.filter(waits).push(last).map_values(waiting) =~= front.filter(
            waits,
        ).map_values(waiting).push(waiting(last)));
        assert(front.filter(fails).push(last).map_values(failed) =~= front.filter(
            fails,
        ).map_values(failed).push(failed(last)));
    } else {
        assert(workers.filter(waits).map_values(waiting) =~= Seq::empty());
        assert(workers.filter(fails).map_values(failed) =~= Seq::empty());
    }
}

/// An agent newly waits if it is live and blocked or done, and was not known so.
/// A workload newly failed if it is known, and did not fail before or is another
/// incarnation.
pub proof fn attention_is_asked_for_once(known: ObserverView, worker: WorkerView, at: int)
    ensures
        ({
            let waits = worker.live_agent && (worker.agent_state is Blocked
                || worker.agent_state is Done);
            let failed = worker.lifecycle is Failed;
            &&& shows_none(known.workers, worker.id) ==> known.newly_waiting(worker) == waits
                && !known.newly_failed(worker)
            &&& shows(known.workers, worker.id, at) ==> {
                let before = known.workers[at];
                &&& known.newly_waiting(worker) == (waits && before.agent_state
                    != worker.agent_state)
                &&& known.newly_failed(worker) == (failed && (!(before.lifecycle is Failed)
                    || before.incarnation != worker.incarnation))
            }
        }),
{
    lemma_shows(known.workers, worker.id, at);
}

/// A reference is the whole of a short identifier, or the last eight characters
/// of a long one behind an ellipsis.
pub proof fn references_are_short(id: Seq<char>)
    ensures
        id.len() <= 8 ==> reference_text(id) == id,
        id.len() > 8 ==> reference_text(id).len() == 9 && reference_text(id)[0] == '…'
            && reference_text(id).skip(1) == id.skip(id.len() - 8),
{
    if id.len() > 8 {
        assert(reference_text(id).skip(1) =~= id.skip(id.len() - 8));
    }
}

/// A capture result changes what a worker shows and never who it is. Text is
/// shown and counts as whole or cut, as it came; where there is none, what was
/// seen before is kept as stale, and only a worker without it counts as
/// unavailable.
pub proof fn captures_are_shown_as_they_come(worker: WorkerView, text: String, cut: bool)
    ensures
        ({
            let (ready, ready_status) = ObserverView::captured(
                worker,
                ObserverCapture::Ready(text),
            );
            &&& same_worker(ready, worker)
            &&& ready.capture == Some(shown_capture(text@)) && !ready.sampled && ready_status
                is Ready
            &&& ready.agent_state == worker.agent_state
            &&& ready.live_agent == worker.live_agent
        }),
        ({
            let (part, status) = ObserverView::captured(worker, ObserverCapture::Truncated(text));
            &&& same_worker(part, worker)
            &&& part.capture == Some(shown_capture(text@)) && !part.sampled && status is Truncated
            &&& part.agent_state == worker.agent_state
        }),
        ({
            let (sample, status) = ObserverView::captured(
                worker,
                ObserverCapture::Preview { text, truncated: cut },
            );
            &&& same_worker(sample, worker)
            &&& sample.capture == Some(shown_capture(text@)) && sample.sampled
            &&& cut ==> status is Truncated
            &&& !cut ==> status is Ready
            &&& sample.agent_state == worker.agent_state
        }),
        ({
            let (empty, status) = ObserverView::captured(worker, ObserverCapture::Loading);
            &&& same_worker(empty, worker)
            &&& empty.capture is None && !empty.sampled && status is Loading
        }),
        ({
            let (gone, status) = ObserverView::captured(worker, ObserverCapture::Unavailable);
            let seen = worker.capture is Some && worker.last_observed is Some;
            &&& same_worker(gone, worker)
            &&& seen ==> gone.capture == worker.capture && gone.agent_state is Stale && status
                is Stale && gone.stale_reason == Some(StaleReason::Retained)
            &&& !seen ==> gone.capture is None && status is Unavailable
            &&& !seen && worker.capabilities.prompt_agent ==> gone.agent_state is Unreachable
            &&& !seen && !worker.capabilities.prompt_agent ==> gone.agent_state
                == worker.agent_state
        }),
{
}

/// The selection moves by one worker, or to the first of the next or the last
/// page, and stays within the workers.
pub proof fn navigation_moves_by_one(view: ObserverView)
    requires
        view.well_formed(),
        view.workers.len() > 0,
    ensures
        ({
            let n = view.workers.len() as int;
            let at = view.position();
            let page = at / 4;
            &&& 0 <= at < n
            &&& view.applied(ObserverAction::NextWorker).0.selected == Some(
                view.workers[if at + 1 < n {
                    at + 1
                } else {
                    at
                }].id,
            )
            &&& view.applied(ObserverAction::PreviousWorker).0.selected == Some(
                view.workers[if at > 0 {
                    at - 1
                } else {
                    at
                }].id,
            )
            &&& (page + 1) * 4 < n ==> view.applied(ObserverAction::NextPage).0.selected == Some(
                view.workers[(page + 1) * 4].id,
            )
            &&& (page + 1) * 4 >= n ==> view.applied(ObserverAction::NextPage).0.selected == Some(
                view.workers[page * 4].id,
            )
            &&& page > 0 ==> view.applied(ObserverAction::PreviousPage).0.selected == Some(
                view.workers[(page - 1) * 4].id,
            )
            &&& page == 0 ==> view.applied(ObserverAction::PreviousPage).0.selected == Some(
                view.workers[0].id,
            )
        }),
{
    let id = view.selected->0;
    find_worker_finds(view.workers, id);
    let n = view.workers.len() as int;
    let at = view.position();
    assert(view.workers[at].id == id);
    assert(view.page_number() == at / 4);
    assert(view.pages() == (n + 3) / 4);
}

/// There are as many pages as hold four workers each, and at least one; a page
/// shows the workers from its first on.
pub proof fn pages_hold_four_workers(view: ObserverView)
    requires
        view.well_formed(),
    ensures
        ({
            let n = view.workers.len() as int;
            &&& view.pages() >= 1
            &&& n > 0 ==> (view.pages() - 1) * 4 < n <= view.pages() * 4
            &&& n == 0 ==> view.pages() == 1
            &&& view.page_number() == view.position() / 4
            &&& forall|i: int|
                0 <= i < view.visible().len() ==> #[trigger] view.visible()[i]
                    == view.workers[view.page_number() * 4 + i]
            &&& view.page_number() * 4 + 4 <= n ==> view.visible().len() == 4
            &&& view.page_number() * 4 + 4 > n ==> view.visible().len() == n - view.page_number()
                * 4
        }),
{
    if let Some(id) = view.selected {
        find_worker_finds(view.workers, id);
    }
}

/// What is asked of the selected worker is asked for only if the worker allows
/// it, and names that worker. Leaving and refreshing are always asked for.
pub proof fn actions_ask_for_the_selected_worker(view: ObserverView, at: int)
    requires
        view.selected is Some,
        shows(view.workers, view.selected->0, at),
    ensures
        ({
            let worker = view.workers[at];
            let open = view.applied(ObserverAction::OpenSelected);
            let focus = view.applied(ObserverAction::FocusSelected);
            let wait = view.applied(ObserverAction::WaitSelected);
            let read = view.applied(ObserverAction::ReadSelected);
            let explain = view.applied(ObserverAction::ExplainSelected);
            &&& view.applied(ObserverAction::Refresh) == (view, OutcomeView::Refresh)
            &&& view.applied(ObserverAction::Quit) == (view, OutcomeView::Quit)
            &&& open.0 == view
            &&& worker.openable() ==> open.1 == OutcomeView::OpenSelected(worker.id)
            &&& !worker.openable() ==> open.1 == OutcomeView::OpenUnavailable(worker.id)
            &&& worker.focusable() ==> focus == (view, OutcomeView::FocusSelected(worker.id))
            &&& !worker.focusable() ==> focus.1 == OutcomeView::Nothing && focus.0.notice is Some
            &&& worker.observable() ==> wait == (view, OutcomeView::WaitSelected(worker.id))
                && read == (view, OutcomeView::ReadSelected(worker.id)) && explain == (
                view,
                OutcomeView::ExplainSelected(worker.id),
            )
            &&& !worker.observable() ==> wait.1 == OutcomeView::Nothing && read.1
                == OutcomeView::Nothing && explain.1 == OutcomeView::Nothing
                && wait.0.notice is Some && read.0.notice is Some && explain.0.notice is Some
        }),
{
    lemma_shows(view.workers, view.selected->0, at);
}

/// A worker is marked as a destination if it may be prompted and fewer than eight
/// are marked, and unmarked if it is marked. No other destination changes.
pub proof fn destinations_are_marked_one_by_one(view: ObserverView, at: int, other: Seq<char>)
    requires
        view.selected is Some,
        shows(view.workers, view.selected->0, at),
    ensures
        ({
            let id = view.workers[at].id;
            let (next, outcome) = view.applied(ObserverAction::TogglePromptTarget);
            let marked = view.targets.contains(id);
            let admits = view.workers[at].promptable() && view.targets.len() < 8;
            &&& outcome == OutcomeView::Nothing
            &&& marked ==> !next.targets.contains(id) && next.notice is None
            &&& !marked && admits ==> next.targets.contains(id) && next.notice is None
            &&& !marked && !admits ==> !next.targets.contains(id) && next.notice is Some
            &&& other != id ==> next.targets.contains(other) == view.targets.contains(other)
            &&& next.selected == view.selected
            &&& next.workers == view.workers
        }),
{
    lemma_shows(view.workers, view.selected->0, at);
}

/// A prompt is composed for the marked workers, in the order of the workers. Where
/// none is marked, it is composed for the selected one if that may be prompted.
pub proof fn prompts_are_composed_for_the_marked(view: ObserverView, at: int)
    requires
        view.selected is Some,
        shows(view.workers, view.selected->0, at),
        view.targets.finite(),
    ensures
        ({
            let worker = view.workers[at];
            let (next, outcome) = view.applied(ObserverAction::ComposePrompt);
            let marked = view.workers.filter(
                |worker: WorkerView| view.targets.contains(worker.id),
            ).map_values(|worker: WorkerView| worker.id);
            &&& next.workers == view.workers
            &&& next.selected == view.selected
            &&& view.targets.len() > 0 && marked.len() > 0 ==> outcome
                == OutcomeView::ComposePrompt(marked) && next == view
            &&& view.targets.len() > 0 && marked.len() == 0 ==> outcome == OutcomeView::Nothing
                && next.notice is Some
            &&& view.targets.len() == 0 && worker.promptable() ==> next.targets.contains(worker.id)
                && next.targets.len() == 1
            &&& view.targets.len() == 0 && !worker.promptable() && marked.len() == 0 ==> outcome
                == OutcomeView::Nothing && next.notice is Some && next.targets == view.targets
        }),
{
    lemma_shows(view.workers, view.selected->0, at);
    marked_workers_are_listed_in_order(view.workers, view.targets);
    if view.targets.len() == 0 {
        assert(view.targets =~= Set::empty());
    }
}

/// The destinations are listed as the workers stand.
pub proof fn marked_workers_are_listed_in_order(
    workers: Seq<WorkerView>,
    targets: Set<Seq<char>>,
)
    ensures
        chosen_ids(workers, targets) == workers.filter(
            |worker: WorkerView| targets.contains(worker.id),
        ).map_values(|worker: WorkerView| worker.id),
    decreases workers.len(),
{
    let wanted = |worker: WorkerView| targets.contains(worker.id);
    let of = |worker: WorkerView| worker.id;
    reveal(Seq::filter);
    if workers.len() > 0 {
        let front = workers.drop_last();
        let last = workers.last();
        marked_workers_are_listed_in_order(front, targets);
        assert(front.filter(wanted).push(last).map_values(of) =~= front.filter(wanted).map_values(
            of,
        ).push(last.id));
    } else {
        assert(workers.filter(wanted).map_values(of) =~= Seq::empty());
    }
}

} // verus!
