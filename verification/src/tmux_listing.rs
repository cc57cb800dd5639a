//! What a listing of tmux sessions tells of an owned workload.
//!
//! Each line is about one session: its name, its identity, how many clients are
//! attached, whether its pane is dead, with which status, and the proof of
//! ownership that it was created with, all separated by colons.

use vstd::prelude::*;
use vstd::string::*;

use crate::backend::WorkloadState;
use crate::capture::{lines_of, split_lines};
use crate::fields::{number_of, parse_number, parts_between, split_on};
use crate::model::{denotes_tmux_id, session_id_text, OwnershipProof, SessionId, TmuxSessionId};
use crate::text::{numeral_value, same_text, views};
use crate::uuids::simple_text;

verus! {

/// The fields of a listing, as tmux fills them in.
pub const LISTING_FORMAT: &'static str =
    "#{session_name}:#{session_id}:#{session_attached}:#{pane_dead}:#{pane_dead_status}:#{@tether_ownership_proof}";

/// What is told of a workload, with its identity as a number.
pub enum ListedView {
    Missing,
    Running { identity: u64, attached: u32 },
    Ended { identity: u64, exit_status: Option<i32> },
    Unknown,
}

/// What is told of a workload, with its identity as a number.
pub open spec fn listed_view(state: WorkloadState) -> ListedView {
    match state {
        WorkloadState::Missing => ListedView::Missing,
        WorkloadState::Running { identity, attached } => ListedView::Running {
            identity: identity@,
            attached,
        },
        WorkloadState::Ended { identity, exit_status } => ListedView::Ended {
            identity: identity@,
            exit_status,
        },
        WorkloadState::Unknown => ListedView::Unknown,
    }
}

/// The exit status that a field holds.
pub open spec fn listed_status(field: Seq<char>) -> Option<i32> {
    match number_of(field) {
        Some(number) => if number <= i32::MAX {
            Some(number as i32)
        } else {
            None
        },
        None => None,
    }
}

/// What a line tells of a workload, or none if it is about another session. A
/// session of that name with another owner is not known.
pub open spec fn told_by(line: Seq<char>, name: Seq<char>, owner: Seq<char>) -> Option<ListedView> {
    let fields = parts_between(line, ':');
    if fields[0] != name {
        None
    } else if fields.len() != 6 || fields[5] != owner || !denotes_tmux_id(fields[1]) {
        Some(ListedView::Unknown)
    } else {
        let identity = numeral_value(fields[1].skip(1)) as u64;
        if fields[3] == "1"@ {
            Some(ListedView::Ended { identity, exit_status: listed_status(fields[4]) })
        } else {
            match number_of(fields[2]) {
                Some(attached) => if attached <= u32::MAX {
                    Some(ListedView::Running { identity, attached: attached as u32 })
                } else {
                    Some(ListedView::Unknown)
                },
                None => Some(ListedView::Unknown),
            }
        }
    }
}

/// What the first line that is about a workload tells of it.
pub open spec fn told(lines: Seq<Seq<char>>, name: Seq<char>, owner: Seq<char>) -> ListedView
    decreases lines.len(),
{
    if lines.len() == 0 {
        ListedView::Missing
    } else {
        match told_by(lines[0], name, owner) {
            Some(view) => view,
            None => told(lines.drop_first(), name, owner),
        }
    }
}

/// The exit status that a field holds.
fn status_of(field: &str) -> (status: Option<i32>)
    ensures
        status == listed_status(field@),
{
    match parse_number(field) {
        Some(number) => if number <= 2_147_483_647 {
            Some(number as i32)
        } else {
            None
        },
        None => None,
    }
}

/// What a line tells of a workload.
fn read_line(line: &str, name: &str, owner: &str) -> (state: Option<WorkloadState>)
    ensures
        match state {
            Some(state) => told_by(line@, name@, owner@) == Some(listed_view(state)),
            None => told_by(line@, name@, owner@) is None,
        },
{
    let fields = split_on(line, ':');
    let ghost all = parts_between(line@, ':');
    assert(all == views(fields@));
    assert(all[0] == fields@[0]@);
    if !same_text(fields[0].as_str(), name) {
        return None;
    }
    if fields.len() != 6 {
        return Some(WorkloadState::Unknown);
    }
    assert(all[1] == fields@[1]@ && all[2] == fields@[2]@ && all[3] == fields@[3]@ && all[4]
        == fields@[4]@ && all[5] == fields@[5]@);
    if !same_text(fields[5].as_str(), owner) {
        return Some(WorkloadState::Unknown);
    }
    let identity = match TmuxSessionId::from_str(fields[1].as_str()) {
        Ok(identity) => identity,
        Err(_) => {
            return Some(WorkloadState::Unknown);
        },
    };
    if same_text(fields[3].as_str(), "1") {
        return Some(WorkloadState::Ended { identity, exit_status: status_of(fields[4].as_str()) });
    }
    match parse_number(fields[2].as_str()) {
        Some(attached) => if attached <= 4_294_967_295 {
            Some(WorkloadState::Running { identity, attached: attached as u32 })
        } else {
            Some(WorkloadState::Unknown)
        },
        None => Some(WorkloadState::Unknown),
    }
}

/// What a listing tells of an owned workload. One that is not listed is missing.
pub fn find_workload(listing: &str, id: SessionId, ownership_proof: &OwnershipProof) -> (state:
    WorkloadState)
    ensures
        listed_view(state) == told(
            lines_of(listing@),
            session_id_text(id@),
            simple_text(ownership_proof@),
        ),
{
    let name = id.to_string();
    let owner = ownership_proof.to_string();
    let lines = split_lines(listing);
    let ghost all = views(lines@);
    let mut i: usize = 0;
    assert(all.skip(0) =~= all);
    while i < lines.len()
        invariant
            i <= lines@.len(),
            all == views(lines@),
            all == lines_of(listing@),
            name@ == session_id_text(id@),
            owner@ == simple_text(ownership_proof@),
            told(all, name@, owner@) == told(all.skip(i as int), name@, owner@),
        decreases lines.len() - i,
    {
        assert(all.skip(i as int)[0] == lines@[i as int]@);
        assert(all.skip(i as int).drop_first() =~= all.skip(i + 1));
        if let Some(state) = read_line(lines[i].as_str(), name.as_str(), owner.as_str()) {
            return state;
        }
        i += 1;
    }
    WorkloadState::Missing
}

/// A session that somebody else created under the name of a workload is never
/// taken for it: nothing is known of the workload.
pub proof fn strangers_are_not_known(line: Seq<char>, name: Seq<char>, owner: Seq<char>)
    requires
        parts_between(line, ':')[0] == name,
        parts_between(line, ':').len() < 6 || parts_between(line, ':')[5] != owner,
    ensures
        told(seq![line], name, owner) == ListedView::Unknown,
{
}

} // verus!
