//! Management of opt-in orchestration groups, on state alone.
//!
//! Every operation checks the state that it is about to change. An operation
//! that is refused leaves the state as it was.

use vstd::prelude::*;
use vstd::string::*;

use crate::model::{
    OrchestrationGroupId, OrchestrationMembershipId, OrchestrationTitle, Placement, SessionId,
};
use crate::model::session_id_text;
use crate::state::{
    copy_title, find_group, find_group_finds, find_member, find_member_finds, group_position,
    group_views, member_position, member_views, record_views, title_view, GroupView, MemberView,
    OrchestrationCapabilities, OrchestrationGroup, OrchestrationMember, RecordView, SessionRecord,
    State, StateStore, StateView,
};
use crate::uuids::version_of;

verus! {

/// What the manager is told when the group that it shows is no longer current.
pub const MANAGER_STALE_GROUP_ERROR: &'static str =
    "Observer group changed while the manager was open; refresh and retry";

/// A worker as it is requested for a group.
#[derive(Debug, PartialEq, Eq)]
pub struct OrchestrationWorkerSpec {
    pub session_id: SessionId,
    pub title: Option<OrchestrationTitle>,
    pub capabilities: OrchestrationCapabilities,
}

/// The contents of an [`OrchestrationWorkerSpec`].
pub struct WorkerSpecView {
    pub session_id: SessionId,
    pub title: Option<Seq<char>>,
    pub capabilities: OrchestrationCapabilities,
}

impl View for OrchestrationWorkerSpec {
    type V = WorkerSpecView;

    open spec fn view(&self) -> WorkerSpecView {
        WorkerSpecView {
            session_id: self.session_id,
            title: title_view(self.title),
            capabilities: self.capabilities,
        }
    }
}

impl Clone for OrchestrationWorkerSpec {
    fn clone(&self) -> (copy: Self)
        ensures
            copy == *self,
    {
        OrchestrationWorkerSpec {
            session_id: self.session_id,
            title: copy_title(&self.title),
            capabilities: self.capabilities,
        }
    }
}

/// The contents of each requested worker.
pub open spec fn spec_views(specs: Seq<OrchestrationWorkerSpec>) -> Seq<WorkerSpecView> {
    specs.map_values(|worker: OrchestrationWorkerSpec| worker@)
}

/// Why an operation on groups was refused.
#[derive(Debug, PartialEq, Eq)]
pub enum OrchestrationError {
    /// The session in this role is not a running exact-owned workload.
    NotEligible { role: &'static str },
    GroupExists { group: OrchestrationGroupId },
    GroupLimit,
    UnknownGroup { group: OrchestrationGroupId },
    /// The group is not the one that the caller saw.
    Stale,
    TooManyWorkers,
    OrchestratorIsWorker,
    DuplicateWorker { session: SessionId },
    NoCapability { session: SessionId },
    AlreadyMember { session: SessionId, group: OrchestrationGroupId },
    WorkerLimit { group: OrchestrationGroupId },
    NotMember { session: SessionId, group: OrchestrationGroupId },
}

/// The contents of an [`OrchestrationError`].
pub enum OrchestrationErrorView {
    NotEligible { role: Seq<char> },
    GroupExists { group: Seq<char> },
    GroupLimit,
    UnknownGroup { group: Seq<char> },
    Stale,
    TooManyWorkers,
    OrchestratorIsWorker,
    DuplicateWorker { session: SessionId },
    NoCapability { session: SessionId },
    AlreadyMember { session: SessionId, group: Seq<char> },
    WorkerLimit { group: Seq<char> },
    NotMember { session: SessionId, group: Seq<char> },
}

impl View for OrchestrationError {
    type V = OrchestrationErrorView;

    open spec fn view(&self) -> OrchestrationErrorView {
        match self {
            OrchestrationError::NotEligible { role } => OrchestrationErrorView::NotEligible {
                role: role@,
            },
            OrchestrationError::GroupExists { group } => OrchestrationErrorView::GroupExists {
                group: group@,
            },
            OrchestrationError::GroupLimit => OrchestrationErrorView::GroupLimit,
            OrchestrationError::UnknownGroup { group } => OrchestrationErrorView::UnknownGroup {
                group: group@,
            },
            OrchestrationError::Stale => OrchestrationErrorView::Stale,
            OrchestrationError::TooManyWorkers => OrchestrationErrorView::TooManyWorkers,
            OrchestrationError::OrchestratorIsWorker => OrchestrationErrorView::OrchestratorIsWorker,
            OrchestrationError::DuplicateWorker { session } =>
                OrchestrationErrorView::DuplicateWorker { session: *session },
            OrchestrationError::NoCapability { session } => OrchestrationErrorView::NoCapability {
                session: *session,
            },
            OrchestrationError::AlreadyMember { session, group } =>
                OrchestrationErrorView::AlreadyMember { session: *session, group: group@ },
            OrchestrationError::WorkerLimit { group } => OrchestrationErrorView::WorkerLimit {
                group: group@,
            },
            OrchestrationError::NotMember { session, group } => OrchestrationErrorView::NotMember {
                session: *session,
                group: group@,
            },
        }
    }
}

impl OrchestrationErrorView {
    /// What went wrong, for a reader.
    pub open spec fn text(self) -> Seq<char> {
        match self {
            OrchestrationErrorView::NotEligible { role } => role
                + " is no longer a running exact-owned workload"@,
            OrchestrationErrorView::GroupExists { group } => "orchestration group `"@ + group
                + "` already exists"@,
            OrchestrationErrorView::GroupLimit =>
                "orchestration group limit of 64 has been reached"@,
            OrchestrationErrorView::UnknownGroup { group } => "unknown orchestration group `"@
                + group + "`"@,
            OrchestrationErrorView::Stale => MANAGER_STALE_GROUP_ERROR@,
            OrchestrationErrorView::TooManyWorkers =>
                "orchestration group may contain at most 64 workers"@,
            OrchestrationErrorView::OrchestratorIsWorker =>
                "orchestrator must not also be a worker"@,
            OrchestrationErrorView::DuplicateWorker { session } => "duplicate worker session `"@
                + session_id_text(session@) + "`"@,
            OrchestrationErrorView::NoCapability { session } => "worker `"@ + session_id_text(
                session@,
            ) + "` must declare at least one capability"@,
            OrchestrationErrorView::AlreadyMember { session, group } => "worker `"@
                + session_id_text(session@) + "` is already a member of orchestration group `"@
                + group + "`"@,
            OrchestrationErrorView::WorkerLimit { group } =>
                "orchestration worker limit of 64 has been reached for group `"@ + group + "`"@,
            OrchestrationErrorView::NotMember { session, group } => "worker `"@ + session_id_text(
                session@,
            ) + "` is not a member of orchestration group `"@ + group + "`"@,
        }
    }
}

impl OrchestrationError {
    /// What went wrong, for a reader.
    pub fn message(&self) -> (text: String)
        ensures
            text@ == self@.text(),
    {
        match self {
            OrchestrationError::NotEligible { role } => (*role).to_owned().concat(
                " is no longer a running exact-owned workload",
            ),
            OrchestrationError::GroupExists { group } => "orchestration group `".to_owned().concat(
                group.as_str(),
            ).concat("` already exists"),
            OrchestrationError::GroupLimit =>
                "orchestration group limit of 64 has been reached".to_owned(),
            OrchestrationError::UnknownGroup { group } =>
                "unknown orchestration group `".to_owned().concat(group.as_str()).concat("`"),
            OrchestrationError::Stale => MANAGER_STALE_GROUP_ERROR.to_owned(),
            OrchestrationError::TooManyWorkers =>
                "orchestration group may contain at most 64 workers".to_owned(),
            OrchestrationError::OrchestratorIsWorker =>
                "orchestrator must not also be a worker".to_owned(),
            OrchestrationError::DuplicateWorker { session } =>
                "duplicate worker session `".to_owned().concat(session.to_string().as_str()).concat(
                "`",
            ),
            OrchestrationError::NoCapability { session } => "worker `".to_owned().concat(
                session.to_string().as_str(),
            ).concat("` must declare at least one capability"),
            OrchestrationError::AlreadyMember { session, group } => "worker `".to_owned().concat(
                session.to_string().as_str(),
            ).concat("` is already a member of orchestration group `").concat(
                group.as_str(),
            ).concat("`"),
            OrchestrationError::WorkerLimit { group } =>
                "orchestration worker limit of 64 has been reached for group `".to_owned().concat(
                group.as_str(),
            ).concat("`"),
            OrchestrationError::NotMember { session, group } => "worker `".to_owned().concat(
                session.to_string().as_str(),
            ).concat("` is not a member of orchestration group `").concat(group.as_str()).concat(
                "`",
            ),
        }
    }
}

/// A session that may take a role: some record of it is running and exact-owned.
pub open spec fn eligible(records: Seq<RecordView>, id: SessionId) -> bool {
    exists|i: int|
        0 <= i < records.len() && (#[trigger] records[i]).id == id && records[i].exact_running()
}

/// Whether the session may take a role.
fn is_eligible(records: &Vec<SessionRecord>, id: SessionId) -> (r: bool)
    ensures
        r == eligible(record_views(records@), id),
{
    let ghost all = record_views(records@);
    let mut i: usize = 0;
    while i < records.len()
        invariant
            i <= records@.len(),
            all == record_views(records@),
            forall|j: int|
                0 <= j < i ==> !((#[trigger] all[j]).id == id && all[j].exact_running()),
        decreases records.len() - i,
    {
        if records[i].id == id && records[i].is_exact_running() {
            assert(all[i as int].id == id);
            return true;
        }
        i += 1;
    }
    false
}

/// What is wrong with a requested worker, given those before it.
pub open spec fn worker_problem(
    orchestrator: SessionId,
    before: Seq<WorkerSpecView>,
    worker: WorkerSpecView,
) -> Option<OrchestrationErrorView> {
    if worker.session_id == orchestrator {
        Some(OrchestrationErrorView::OrchestratorIsWorker)
    } else if exists|i: int|
        0 <= i < before.len() && (#[trigger] before[i]).session_id == worker.session_id {
        Some(OrchestrationErrorView::DuplicateWorker { session: worker.session_id })
    } else if worker.capabilities.none() {
        Some(OrchestrationErrorView::NoCapability { session: worker.session_id })
    } else {
        None
    }
}

/// The first thing that is wrong with requested workers.
pub open spec fn first_worker_problem(
    orchestrator: SessionId,
    workers: Seq<WorkerSpecView>,
) -> Option<OrchestrationErrorView>
    decreases workers.len(),
{
    if workers.len() == 0 {
        None
    } else {
        match first_worker_problem(orchestrator, workers.drop_last()) {
            Some(problem) => Some(problem),
            None => worker_problem(orchestrator, workers.drop_last(), workers.last()),
        }
    }
}

/// What is wrong with requested workers: too many, or the first problem.
pub open spec fn workers_problem(
    orchestrator: SessionId,
    workers: Seq<WorkerSpecView>,
) -> Option<OrchestrationErrorView> {
    if workers.len() > OrchestrationGroup::MAX_WORKERS {
        Some(OrchestrationErrorView::TooManyWorkers)
    } else {
        first_worker_problem(orchestrator, workers)
    }
}

/// Once there is a problem, more workers do not change it.
proof fn lemma_problem_stays(orchestrator: SessionId, workers: Seq<WorkerSpecView>, n: int)
    requires
        0 <= n <= workers.len(),
        first_worker_problem(orchestrator, workers.take(n)) is Some,
    ensures
        first_worker_problem(orchestrator, workers) == first_worker_problem(
            orchestrator,
            workers.take(n),
        ),
    decreases workers.len() - n,
{
    if n == workers.len() {
        assert(workers.take(n) =~= workers);
    } else {
        assert(workers.take(n + 1).drop_last() =~= workers.take(n));
        lemma_problem_stays(orchestrator, workers, n + 1);
    }
}

/// Checks requested workers before any state is looked at.
fn validate_worker_specs(orchestrator: SessionId, workers: &Vec<OrchestrationWorkerSpec>) -> (r:
    Result<(), OrchestrationError>)
    ensures
        match r {
            Ok(_) => workers_problem(orchestrator, spec_views(workers@)) is None,
            Err(error) => workers_problem(orchestrator, spec_views(workers@)) == Some(error@),
        },
{
    if workers.len() > OrchestrationGroup::MAX_WORKERS {
        return Err(OrchestrationError::TooManyWorkers);
    }
    let ghost all = spec_views(workers@);
    let mut i: usize = 0;
    assert(all.take(0) =~= Seq::empty());
    while i < workers.len()
        invariant
            i <= workers@.len() <= OrchestrationGroup::MAX_WORKERS,
            all == spec_views(workers@),
            first_worker_problem(orchestrator, all.take(i as int)) is None,
        decreases workers.len() - i,
    {
        let worker = &workers[i];
        let ghost before = all.take(i as int);
        proof {
            assert(all.take(i + 1).drop_last() =~= before);
            assert(all.take(i + 1).last() == worker@);
        }
        if worker.session_id == orchestrator {
            proof {
                lemma_problem_stays(orchestrator, all, i + 1);
            }
            return Err(OrchestrationError::OrchestratorIsWorker);
        }
        let mut j: usize = 0;
        while j < i
            invariant
                j <= i < workers@.len() <= OrchestrationGroup::MAX_WORKERS,
                all == spec_views(workers@),
                before == all.take(i as int),
                worker@ == all[i as int],
                worker@.session_id != orchestrator,
                first_worker_problem(orchestrator, before) is None,
                all.take(i + 1).drop_last() == before,
                all.take(i + 1).last() == worker@,
                forall|k: int| 0 <= k < j ==> (#[trigger] before[k]).session_id != worker@.session_id,
            decreases i - j,
        {
            if workers[j].session_id == worker.session_id {
                proof {
                    assert(before[j as int].session_id == worker@.session_id);
                    lemma_problem_stays(orchestrator, all, i + 1);
                }
                return Err(OrchestrationError::DuplicateWorker { session: worker.session_id });
            }
            j += 1;
        }
        if worker.capabilities.is_empty() {
            proof {
                lemma_problem_stays(orchestrator, all, i + 1);
            }
            return Err(OrchestrationError::NoCapability { session: worker.session_id });
        }
        i += 1;
    }
    assert(all.take(all.len() as int) =~= all);
    Ok(())
}

/// The last member of a session.
pub open spec fn latest_member(members: Seq<MemberView>, id: SessionId) -> Option<MemberView>
    decreases members.len(),
{
    if members.len() == 0 {
        None
    } else if members.last().session_id == id {
        Some(members.last())
    } else {
        latest_member(members.drop_last(), id)
    }
}

/// `member` is `worker` as a member: it keeps the membership that the session
/// has among `existing`, or has a fresh one.
pub open spec fn admits(
    existing: Seq<MemberView>,
    worker: WorkerSpecView,
    member: MemberView,
) -> bool {
    &&& member.session_id == worker.session_id
    &&& member.title == worker.title
    &&& member.capabilities == worker.capabilities
    &&& match latest_member(existing, worker.session_id) {
        Some(known) => member.membership_id == known.membership_id,
        None => version_of(member.membership_id@) == 7,
    }
}

/// `members` are the requested workers as members, in their order.
pub open spec fn admitted(
    existing: Seq<MemberView>,
    workers: Seq<WorkerSpecView>,
    members: Seq<MemberView>,
) -> bool {
    &&& members.len() == workers.len()
    &&& forall|i: int|
        0 <= i < workers.len() ==> admits(existing, #[trigger] workers[i], members[i])
}

/// The requested workers as members.
fn worker_members(
    existing: &Vec<OrchestrationMember>,
    workers: &Vec<OrchestrationWorkerSpec>,
) -> (members: Vec<OrchestrationMember>)
    ensures
        admitted(member_views(existing@), spec_views(workers@), member_views(members@)),
{
    let ghost known = member_views(existing@);
    let mut members: Vec<OrchestrationMember> = Vec::new();
    let mut i: usize = 0;
    while i < workers.len()
        invariant
            i <= workers@.len(),
            known == member_views(existing@),
            members@.len() == i,
            forall|j: int|
                0 <= j < i ==> admits(known, (#[trigger] workers@[j])@, members@[j]@),
        decreases workers.len() - i,
    {
        let worker = &workers[i];
        let mut k: usize = existing.len();
        let mut found: Option<OrchestrationMembershipId> = None;
        assert(known.take(k as int) =~= known);
        while k > 0 && found.is_none()
            invariant
                k <= existing@.len(),
                known == member_views(existing@),
                match found {
                    Some(id) => latest_member(known, worker.session_id) is Some && latest_member(
                        known,
                        worker.session_id,
                    )->0.membership_id == id,
                    None => latest_member(known, worker.session_id) == latest_member(
                        known.take(k as int),
                        worker.session_id,
                    ),
                },
            decreases k,
        {
            k -= 1;
            proof {
                assert(known.take(k + 1).drop_last() =~= known.take(k as int));
                assert(known.take(k + 1).last() == existing@[k as int]@);
            }
            if existing[k].session_id == worker.session_id {
                found = Some(existing[k].membership_id);
            }
        }
        let membership_id = match found {
            Some(id) => id,
            None => OrchestrationMembershipId::new(),
        };
        members.push(
            OrchestrationMember {
                session_id: worker.session_id,
                membership_id,
                title: copy_title(&worker.title),
                capabilities: worker.capabilities,
            },
        );
        i += 1;
    }
    proof {
        assert forall|j: int| 0 <= j < spec_views(workers@).len() implies admits(
            known,
            #[trigger] spec_views(workers@)[j],
            member_views(members@)[j],
        ) by {
            assert(spec_views(workers@)[j] == workers@[j]@);
        }
    }
    members
}

/// Where a companion pane opens: never in place of the invoking pane.
pub open spec fn beside(placement: Placement) -> Placement {
    if placement == Placement::ReplaceCurrentPane {
        Placement::SplitRight
    } else {
        placement
    }
}

/// Where a companion pane opens, so that the source pane remains.
pub fn companion_placement(placement: Placement) -> (r: Placement)
    ensures
        r == beside(placement),
        r != Placement::ReplaceCurrentPane,
{
    if matches!(placement, Placement::ReplaceCurrentPane) {
        Placement::SplitRight
    } else {
        placement
    }
}

/// A group in order: at most as many workers as fit, each once and with some
/// capability, and the orchestrator is none of them.
pub open spec fn valid_group(group: GroupView) -> bool {
    &&& group.workers.len() <= OrchestrationGroup::MAX_WORKERS
    &&& forall|i: int|
        0 <= i < group.workers.len() ==> (#[trigger] group.workers[i]).session_id
            != group.orchestrator && !group.workers[i].capabilities.none()
    &&& forall|i: int, j: int|
        0 <= i < j < group.workers.len() ==> (#[trigger] group.workers[i]).session_id != (
        #[trigger] group.workers[j]).session_id
}

/// Groups in order: not too many, with identifiers that all differ.
pub open spec fn valid_groups(groups: Seq<GroupView>) -> bool {
    &&& groups.len() <= State::MAX_ORCHESTRATION_GROUPS
    &&& forall|i: int| 0 <= i < groups.len() ==> valid_group(#[trigger] groups[i])
    &&& forall|i: int, j: int|
        0 <= i < j < groups.len() ==> (#[trigger] groups[i]).id != (#[trigger] groups[j]).id
}

/// Whether a group is in order.
pub fn is_valid_group(group: &OrchestrationGroup) -> (r: bool)
    ensures
        r == valid_group(group@),
{
    let workers = &group.workers;
    let ghost all = group@.workers;
    if workers.len() > OrchestrationGroup::MAX_WORKERS {
        return false;
    }
    let mut i: usize = 0;
    while i < workers.len()
        invariant
            i <= workers@.len(),
            all == group@.workers,
            all == member_views(workers@),
            forall|k: int|
                0 <= k < i ==> (#[trigger] all[k]).session_id != group@.orchestrator
                    && !all[k].capabilities.none(),
            forall|k: int, l: int|
                0 <= k < l < i ==> (#[trigger] all[k]).session_id != (#[trigger] all[l]).session_id,
        decreases workers.len() - i,
    {
        let worker = &workers[i];
        assert(all[i as int] == worker@);
        if worker.session_id == group.orchestrator_session_id || worker.capabilities.is_empty() {
            return false;
        }
        let mut j: usize = 0;
        while j < i
            invariant
                j <= i < workers@.len(),
                all == group@.workers,
                all == member_views(workers@),
                all[i as int].session_id == worker.session_id,
                forall|k: int|
                    0 <= k < j ==> (#[trigger] all[k]).session_id != all[i as int].session_id,
            decreases i - j,
        {
            assert(all[j as int] == workers@[j as int]@);
            if workers[j].session_id == worker.session_id {
                return false;
            }
            j += 1;
        }
        i += 1;
    }
    true
}

/// Whether groups are in order.
pub fn are_valid_groups(groups: &Vec<OrchestrationGroup>) -> (r: bool)
    ensures
        r == valid_groups(group_views(groups@)),
{
    let ghost all = group_views(groups@);
    if groups.len() > State::MAX_ORCHESTRATION_GROUPS {
        return false;
    }
    let mut i: usize = 0;
    while i < groups.len()
        invariant
            i <= groups@.len(),
            all == group_views(groups@),
            forall|k: int| 0 <= k < i ==> valid_group(#[trigger] all[k]),
            forall|k: int, l: int|
                0 <= k < l < i ==> (#[trigger] all[k]).id != (#[trigger] all[l]).id,
        decreases groups.len() - i,
    {
        let group = &groups[i];
        assert(all[i as int] == group@);
        if !is_valid_group(group) {
            return false;
        }
        let mut j: usize = 0;
        while j < i
            invariant
                j <= i < groups@.len(),
                all == group_views(groups@),
                all[i as int].id == group.id@,
                forall|k: int| 0 <= k < j ==> (#[trigger] all[k]).id != all[i as int].id,
            decreases i - j,
        {
            assert(all[j as int] == groups@[j as int]@);
            if groups[j].id.same(&group.id) {
                return false;
            }
            j += 1;
        }
        i += 1;
    }
    true
}

/// Workers without a problem become members of a valid group.
proof fn lemma_admitted_group_is_valid(
    existing: Seq<MemberView>,
    workers: Seq<WorkerSpecView>,
    group: GroupView,
)
    requires
        workers_problem(group.orchestrator, workers) is None,
        admitted(existing, workers, group.workers),
    ensures
        valid_group(group),
{
    assert forall|i: int| 0 <= i < group.workers.len() implies (
    #[trigger] group.workers[i]).session_id != group.orchestrator
        && !group.workers[i].capabilities.none() by {
        lemma_no_problem(group.orchestrator, workers, i);
        assert(admits(existing, workers[i], group.workers[i]));
    }
    assert forall|i: int, j: int| 0 <= i < j < group.workers.len() implies (
    #[trigger] group.workers[i]).session_id != (#[trigger] group.workers[j]).session_id by {
        lemma_no_problem(group.orchestrator, workers, j);
        assert(admits(existing, workers[i], group.workers[i]));
        assert(admits(existing, workers[j], group.workers[j]));
        assert(workers.take(j)[i] == workers[i]);
    }
}

/// Where there is no problem, no single worker has one.
proof fn lemma_no_problem(orchestrator: SessionId, workers: Seq<WorkerSpecView>, i: int)
    requires
        first_worker_problem(orchestrator, workers) is None,
        0 <= i < workers.len(),
    ensures
        worker_problem(orchestrator, workers.take(i), workers[i]) is None,
    decreases workers.len(),
{
    if i == workers.len() - 1 {
        assert(workers.take(i) =~= workers.drop_last());
    } else {
        lemma_no_problem(orchestrator, workers.drop_last(), i);
        assert(workers.drop_last().take(i) =~= workers.take(i));
    }
}

/// State-only management for opt-in orchestration groups.
#[derive(Debug, PartialEq, Eq)]
pub struct OrchestrationService {
    store: StateStore,
}

impl View for OrchestrationService {
    type V = Seq<char>;

    closed spec fn view(&self) -> Seq<char> {
        self.store@
    }
}

/// What refuses a new group.
pub open spec fn creation_refusal(
    state: StateView,
    id: Seq<char>,
    orchestrator: SessionId,
    workers: Seq<WorkerSpecView>,
) -> Option<OrchestrationErrorView> {
    if !eligible(state.sessions, orchestrator) {
        Some(OrchestrationErrorView::NotEligible { role: "orchestrator"@ })
    } else if exists|i: int|
        0 <= i < workers.len() && !eligible(state.sessions, (#[trigger] workers[i]).session_id) {
        Some(OrchestrationErrorView::NotEligible { role: "worker"@ })
    } else if find_group(state.groups, id) is Some {
        Some(OrchestrationErrorView::GroupExists { group: id })
    } else if state.groups.len() >= State::MAX_ORCHESTRATION_GROUPS {
        Some(OrchestrationErrorView::GroupLimit)
    } else {
        None
    }
}

impl OrchestrationService {
    /// Management of the groups in `store`.
    pub fn new(store: StateStore) -> (service: Self)
        ensures
            service@ == store@,
    {
        OrchestrationService { store }
    }

    /// The store whose groups are managed.
    pub fn store(&self) -> (store: &StateStore)
        ensures
            store@ == self@,
    {
        &self.store
    }

    /// Creates a group without workers.
    pub fn create_group(
        &self,
        state: &mut State,
        id: OrchestrationGroupId,
        title: OrchestrationTitle,
        orchestrator_session_id: SessionId,
    ) -> (r: Result<OrchestrationGroup, OrchestrationError>)
        ensures
            match r {
                Ok(group) => {
                    &&& creation_refusal(old(state)@, id@, orchestrator_session_id, Seq::empty())
                        is None
                    &&& group@ == (GroupView {
                        id: id@,
                        title: title@,
                        orchestrator: orchestrator_session_id,
                        workers: Seq::empty(),
                    })
                    &&& final(state)@ == (StateView {
                        groups: old(state)@.groups.push(group@),
                        ..old(state)@
                    })
                },
                Err(error) => {
                    &&& creation_refusal(old(state)@, id@, orchestrator_session_id, Seq::empty())
                        == Some(error@)
                    &&& final(state)@ == old(state)@
                },
            },
            valid_groups(old(state)@.groups) ==> valid_groups(final(state)@.groups),
    {
        let workers: Vec<OrchestrationWorkerSpec> = Vec::new();
        assert(spec_views(workers@) =~= Seq::empty());
        let r = self.admit_group(state, id, title, orchestrator_session_id, &workers);
        proof {
            if r is Ok {
                assert(r->Ok_0@.workers =~= Seq::empty());
                assert(valid_group(r->Ok_0@));
            }
        }
        r
    }

    /// Creates a group with its workers in one step.
    pub fn create_group_with_workers(
        &self,
        state: &mut State,
        id: OrchestrationGroupId,
        title: OrchestrationTitle,
        orchestrator_session_id: SessionId,
        workers: Vec<OrchestrationWorkerSpec>,
    ) -> (r: Result<OrchestrationGroup, OrchestrationError>)
        ensures
            ({
                let wrong = workers_problem(orchestrator_session_id, spec_views(workers@));
                let refusal = if wrong is Some {
                    wrong
                } else {
                    creation_refusal(
                        old(state)@,
                        id@,
                        orchestrator_session_id,
                        spec_views(workers@),
                    )
                };
                match r {
                    Ok(group) => {
                        &&& refusal is None
                        &&& group@.id == id@
                        &&& group@.title == title@
                        &&& group@.orchestrator == orchestrator_session_id
                        &&& admitted(Seq::empty(), spec_views(workers@), group@.workers)
                        &&& final(state)@ == (StateView {
                            groups: old(state)@.groups.push(group@),
                            ..old(state)@
                        })
                    },
                    Err(error) => refusal == Some(error@) && final(state)@ == old(state)@,
                }
            }),
            valid_groups(old(state)@.groups) ==> valid_groups(final(state)@.groups),
    {
        match validate_worker_specs(orchestrator_session_id, &workers) {
            Ok(_) => {},
            Err(error) => {
                return Err(error);
            },
        }
        let r = self.admit_group(state, id, title, orchestrator_session_id, &workers);
        proof {
            if r is Ok {
                lemma_admitted_group_is_valid(Seq::empty(), spec_views(workers@), r->Ok_0@);
            }
        }
        r
    }

    /// Creates a group with workers that have been checked on their own.
    fn admit_group(
        &self,
        state: &mut State,
        id: OrchestrationGroupId,
        title: OrchestrationTitle,
        orchestrator_session_id: SessionId,
        workers: &Vec<OrchestrationWorkerSpec>,
    ) -> (r: Result<OrchestrationGroup, OrchestrationError>)
        ensures
            match r {
                Ok(group) => {
                    &&& creation_refusal(
                        old(state)@,
                        id@,
                        orchestrator_session_id,
                        spec_views(workers@),
                    ) is None
                    &&& group@.id == id@
                    &&& group@.title == title@
                    &&& group@.orchestrator == orchestrator_session_id
                    &&& admitted(Seq::empty(), spec_views(workers@), group@.workers)
                    &&& final(state)@ == (StateView {
                        groups: old(state)@.groups.push(group@),
                        ..old(state)@
                    })
                    &&& valid_groups(old(state)@.groups) && valid_group(group@) ==> valid_groups(
                        final(state)@.groups,
                    )
                },
                Err(error) => {
                    &&& creation_refusal(
                        old(state)@,
                        id@,
                        orchestrator_session_id,
                        spec_views(workers@),
                    ) == Some(error@)
                    &&& final(state)@ == old(state)@
                },
            },
    {
        let ghost before = state@;
        let ghost wanted = spec_views(workers@);
        if !is_eligible(&state.sessions, orchestrator_session_id) {
            return Err(OrchestrationError::NotEligible { role: "orchestrator" });
        }
        let mut i: usize = 0;
        while i < workers.len()
            invariant
                i <= workers@.len(),
                state@ == before,
                before == old(state)@,
                wanted == spec_views(workers@),
                eligible(before.sessions, orchestrator_session_id),
                forall|j: int|
                    0 <= j < i ==> eligible(before.sessions, (#[trigger] wanted[j]).session_id),
            decreases workers.len() - i,
        {
            if !is_eligible(&state.sessions, workers[i].session_id) {
                assert(!eligible(before.sessions, wanted[i as int].session_id));
                return Err(OrchestrationError::NotEligible { role: "worker" });
            }
            i += 1;
        }
        if group_position(&state.orchestration_groups, &id).is_some() {
            return Err(OrchestrationError::GroupExists { group: id });
        }
        if state.orchestration_groups.len() >= State::MAX_ORCHESTRATION_GROUPS {
            return Err(OrchestrationError::GroupLimit);
        }
        let nobody: Vec<OrchestrationMember> = Vec::new();
        assert(member_views(nobody@) =~= Seq::empty());
        let group = OrchestrationGroup {
            id,
            title,
            orchestrator_session_id,
            workers: worker_members(&nobody, workers),
        };
        let copy = group.clone();
        state.orchestration_groups.push(group);
        proof {
            assert(state@.groups =~= before.groups.push(copy@));
            assert(state@.sessions =~= before.sessions);
            if valid_groups(before.groups) && valid_group(copy@) {
                find_group_finds(before.groups, copy@.id);
                assert forall|i: int, j: int| 0 <= i < j < state@.groups.len() implies (
                #[trigger] state@.groups[i]).id != (#[trigger] state@.groups[j]).id by {
                    assert(state@.groups[i] == before.groups[i]);
                    if j < before.groups.len() {
                        assert(state@.groups[j] == before.groups[j]);
                    }
                }
                assert forall|i: int| 0 <= i < state@.groups.len() implies valid_group(
                    #[trigger] state@.groups[i],
                ) by {
                    if i < before.groups.len() {
                        assert(state@.groups[i] == before.groups[i]);
                    }
                }
            }
        }
        Ok(copy)
    }
}

/// What refuses an edit of the group that the caller saw.
pub open spec fn edit_refusal(state: StateView, expected: GroupView) -> Option<
    OrchestrationErrorView,
> {
    match find_group(state.groups, expected.id) {
        None => Some(OrchestrationErrorView::UnknownGroup { group: expected.id }),
        Some(index) => if state.groups[index] != expected {
            Some(OrchestrationErrorView::Stale)
        } else {
            None
        },
    }
}

/// What refuses to replace the workers of the group that the caller saw.
pub open spec fn replacement_refusal(
    state: StateView,
    expected: GroupView,
    workers: Seq<WorkerSpecView>,
) -> Option<OrchestrationErrorView> {
    let wrong = workers_problem(expected.orchestrator, workers);
    if wrong is Some {
        wrong
    } else if edit_refusal(state, expected) is Some {
        edit_refusal(state, expected)
    } else if exists|i: int|
        0 <= i < workers.len() && find_member(
            expected.workers,
            (#[trigger] workers[i]).session_id,
        ) is None && !eligible(state.sessions, workers[i].session_id) {
        Some(OrchestrationErrorView::NotEligible { role: "new worker"@ })
    } else {
        None
    }
}

/// What refuses a new worker in a group.
pub open spec fn addition_refusal(
    state: StateView,
    group: Seq<char>,
    session: SessionId,
    capabilities: OrchestrationCapabilities,
) -> Option<OrchestrationErrorView> {
    if capabilities.none() {
        Some(OrchestrationErrorView::NoCapability { session })
    } else if !eligible(state.sessions, session) {
        Some(OrchestrationErrorView::NotEligible { role: "worker"@ })
    } else {
        match find_group(state.groups, group) {
            None => Some(OrchestrationErrorView::UnknownGroup { group }),
            Some(index) => if state.groups[index].orchestrator == session {
                Some(OrchestrationErrorView::OrchestratorIsWorker)
            } else if find_member(state.groups[index].workers, session) is Some {
                Some(OrchestrationErrorView::AlreadyMember { session, group })
            } else if state.groups[index].workers.len() >= OrchestrationGroup::MAX_WORKERS {
                Some(OrchestrationErrorView::WorkerLimit { group })
            } else {
                None
            },
        }
    }
}

/// The members of sessions other than `session`, in their order.
pub open spec fn members_without(members: Seq<MemberView>, session: SessionId) -> Seq<MemberView>
    decreases members.len(),
{
    if members.len() == 0 {
        Seq::empty()
    } else {
        let front = members_without(members.drop_last(), session);
        if members.last().session_id != session {
            front.push(members.last())
        } else {
            front
        }
    }
}

/// The group after another session took over as orchestrator. A worker that is
/// promoted leaves the workers; the others keep their memberships.
pub open spec fn reassigned(group: GroupView, session: SessionId) -> GroupView {
    GroupView {
        orchestrator: session,
        workers: members_without(group.workers, session),
        ..group
    }
}

/// Leaving a session out keeps members valid.
proof fn lemma_members_without(members: Seq<MemberView>, session: SessionId)
    ensures
        members_without(members, session).len() <= members.len(),
        forall|i: int|
            0 <= i < members_without(members, session).len() ==> members.contains(
                #[trigger] members_without(members, session)[i],
            ) && members_without(members, session)[i].session_id != session,
        (forall|i: int, j: int|
            0 <= i < j < members.len() ==> (#[trigger] members[i]).session_id != (
            #[trigger] members[j]).session_id) ==> (forall|i: int, j: int|
            0 <= i < j < members_without(members, session).len() ==> (
            #[trigger] members_without(members, session)[i]).session_id != (
            #[trigger] members_without(members, session)[j]).session_id),
    decreases members.len(),
{
    if members.len() > 0 {
        let front = members.drop_last();
        let kept = members_without(front, session);
        lemma_members_without(front, session);
        let all = members_without(members, session);
        assert forall|i: int| 0 <= i < all.len() implies members.contains(#[trigger] all[i])
            && all[i].session_id != session by {
            if i < kept.len() {
                assert(kept[i] == all[i]);
                let k = choose|k: int| 0 <= k < front.len() && front[k] == kept[i];
                assert(members[k] == all[i]);
            } else {
                assert(members[members.len() - 1] == all[i]);
            }
        }
        if forall|i: int, j: int|
            0 <= i < j < members.len() ==> (#[trigger] members[i]).session_id != (
            #[trigger] members[j]).session_id {
            assert forall|i: int, j: int| 0 <= i < j < front.len() implies (
            #[trigger] front[i]).session_id != (#[trigger] front[j]).session_id by {
                assert(members[i].session_id != members[j].session_id);
            }
            assert forall|i: int, j: int| 0 <= i < j < all.len() implies (
            #[trigger] all[i]).session_id != (#[trigger] all[j]).session_id by {
                assert(kept[i] == all[i]);
                if j < kept.len() {
                    assert(kept[j] == all[j]);
                } else {
                    let k = choose|k: int| 0 <= k < front.len() && front[k] == kept[i];
                    assert(members[k].session_id != members[members.len() - 1].session_id);
                }
            }
        }
    }
}

/// Reassigning the orchestrator of a valid group gives a valid group.
pub proof fn reassigning_keeps_groups_valid(group: GroupView, session: SessionId)
    requires
        valid_group(group),
    ensures
        valid_group(reassigned(group, session)),
        forall|i: int|
            0 <= i < reassigned(group, session).workers.len() ==> group.workers.contains(
                #[trigger] reassigned(group, session).workers[i],
            ),
{
    lemma_members_without(group.workers, session);
    let next = reassigned(group, session);
    assert forall|i: int| 0 <= i < next.workers.len() implies (
    #[trigger] next.workers[i]).session_id != next.orchestrator
        && !next.workers[i].capabilities.none() by {
        let k = choose|k: int| 0 <= k < group.workers.len() && group.workers[k] == next.workers[i];
        assert(!group.workers[k].capabilities.none());
    }
}

/// Putting a valid group in the place of one with the same identifier keeps
/// groups valid.
proof fn lemma_update_keeps_valid(groups: Seq<GroupView>, index: int, group: GroupView)
    requires
        valid_groups(groups),
        0 <= index < groups.len(),
        valid_group(group),
        group.id == groups[index].id,
    ensures
        valid_groups(groups.update(index, group)),
{
    let next = groups.update(index, group);
    assert forall|i: int, j: int| 0 <= i < j < next.len() implies (#[trigger] next[i]).id != (
    #[trigger] next[j]).id by {
        assert(groups[i].id != groups[j].id);
    }
}

/// Taking a group out keeps groups valid.
proof fn lemma_remove_keeps_valid(groups: Seq<GroupView>, index: int)
    requires
        valid_groups(groups),
        0 <= index < groups.len(),
    ensures
        valid_groups(groups.remove(index)),
{
    let next = groups.remove(index);
    assert forall|i: int, j: int| 0 <= i < j < next.len() implies (#[trigger] next[i]).id != (
    #[trigger] next[j]).id by {
        let a = if i < index {
            i
        } else {
            i + 1
        };
        let b = if j < index {
            j
        } else {
            j + 1
        };
        assert(groups[a].id != groups[b].id);
    }
    assert forall|i: int| 0 <= i < next.len() implies valid_group(#[trigger] next[i]) by {
        if i < index {
            assert(valid_group(groups[i]));
        } else {
            assert(valid_group(groups[i + 1]));
        }
    }
}

impl OrchestrationService {
    /// The position of the group that the caller saw, if it is still the same.
    fn current(&self, state: &State, expected: &OrchestrationGroup) -> (r: Result<
        usize,
        OrchestrationError,
    >)
        ensures
            match r {
                Ok(index) => edit_refusal(state@, expected@) is None && find_group(
                    state@.groups,
                    expected@.id,
                ) == Some(index as int) && index < state.orchestration_groups@.len(),
                Err(error) => edit_refusal(state@, expected@) == Some(error@),
            },
    {
        match group_position(&state.orchestration_groups, &expected.id) {
            None => Err(OrchestrationError::UnknownGroup { group: expected.id.clone() }),
            Some(index) => {
                assert(state@.groups[index as int] == state.orchestration_groups@[index as int]@);
                if !state.orchestration_groups[index].same(expected) {
                    Err(OrchestrationError::Stale)
                } else {
                    Ok(index)
                }
            },
        }
    }

    /// Puts `group` in the place of the one at `index`.
    fn put_group(&self, state: &mut State, index: usize, group: OrchestrationGroup)
        requires
            index < old(state)@.groups.len(),
        ensures
            final(state)@ == (StateView {
                groups: old(state)@.groups.update(index as int, group@),
                ..old(state)@
            }),
    {
        let ghost before = state@;
        let ghost shown = group@;
        assert(before.groups.len() == state.orchestration_groups@.len());
        state.orchestration_groups.set(index, group);
        assert(state@.groups =~= before.groups.update(index as int, shown));
        assert(state@.sessions =~= before.sessions);
    }

    /// Takes out the group at `index`.
    fn take_group(&self, state: &mut State, index: usize) -> (group: OrchestrationGroup)
        requires
            index < old(state)@.groups.len(),
        ensures
            group@ == old(state)@.groups[index as int],
            final(state)@ == (StateView {
                groups: old(state)@.groups.remove(index as int),
                ..old(state)@
            }),
    {
        let ghost before = state@;
        assert(before.groups.len() == state.orchestration_groups@.len());
        let group = state.orchestration_groups.remove(index);
        assert(state@.groups =~= before.groups.remove(index as int));
        assert(state@.sessions =~= before.sessions);
        group
    }

    /// Replaces the workers of the group that the caller saw. A worker that
    /// stays keeps its membership and need not be running.
    pub fn replace_workers(
        &self,
        state: &mut State,
        expected: &OrchestrationGroup,
        workers: Vec<OrchestrationWorkerSpec>,
    ) -> (r: Result<OrchestrationGroup, OrchestrationError>)
        ensures
            match r {
                Ok(group) => {
                    &&& replacement_refusal(old(state)@, expected@, spec_views(workers@)) is None
                    &&& group@ == (GroupView { workers: group@.workers, ..expected@ })
                    &&& admitted(expected@.workers, spec_views(workers@), group@.workers)
                    &&& final(state)@ == (StateView {
                        groups: old(state)@.groups.update(
                            find_group(old(state)@.groups, expected@.id)->0,
                            group@,
                        ),
                        ..old(state)@
                    })
                },
                Err(error) => replacement_refusal(old(state)@, expected@, spec_views(workers@))
                    == Some(error@) && final(state)@ == old(state)@,
            },
            valid_groups(old(state)@.groups) ==> valid_groups(final(state)@.groups),
    {
        let ghost before = state@;
        let ghost wanted = spec_views(workers@);
        match validate_worker_specs(expected.orchestrator_session_id, &workers) {
            Ok(_) => {},
            Err(error) => {
                return Err(error);
            },
        }
        let index = match self.current(state, expected) {
            Ok(index) => index,
            Err(error) => {
                return Err(error);
            },
        };
        let mut i: usize = 0;
        while i < workers.len()
            invariant
                i <= workers@.len(),
                state@ == before,
                before == old(state)@,
                wanted == spec_views(workers@),
                workers_problem(expected@.orchestrator, wanted) is None,
                edit_refusal(before, expected@) is None,
                forall|j: int|
                    0 <= j < i ==> find_member(
                        expected@.workers,
                        (#[trigger] wanted[j]).session_id,
                    ) is Some || eligible(before.sessions, wanted[j].session_id),
            decreases workers.len() - i,
        {
            let id = workers[i].session_id;
            assert(wanted[i as int].session_id == id);
            if member_position(&expected.workers, id).is_none() && !is_eligible(
                &state.sessions,
                id,
            ) {
                return Err(OrchestrationError::NotEligible { role: "new worker" });
            }
            i += 1;
        }
        let group = OrchestrationGroup {
            id: expected.id.clone(),
            title: expected.title.clone(),
            orchestrator_session_id: expected.orchestrator_session_id,
            workers: worker_members(&expected.workers, &workers),
        };
        let copy = group.clone();
        self.put_group(state, index, group);
        proof {
            lemma_admitted_group_is_valid(expected@.workers, wanted, copy@);
            find_group_finds(before.groups, expected@.id);
            if valid_groups(before.groups) {
                lemma_update_keeps_valid(before.groups, index as int, copy@);
            }
        }
        Ok(copy)
    }

    /// Deletes a group, whatever it holds.
    pub fn delete_group(&self, state: &mut State, id: &OrchestrationGroupId) -> (r: Result<
        OrchestrationGroup,
        OrchestrationError,
    >)
        ensures
            match r {
                Ok(group) => match find_group(old(state)@.groups, id@) {
                    Some(index) => group@ == old(state)@.groups[index] && final(state)@ == (
                    StateView { groups: old(state)@.groups.remove(index), ..old(state)@ }),
                    None => false,
                },
                Err(error) => find_group(old(state)@.groups, id@) is None && error@ == (
                OrchestrationErrorView::UnknownGroup { group: id@ }) && final(state)@ == old(
                    state,
                )@,
            },
            valid_groups(old(state)@.groups) ==> valid_groups(final(state)@.groups),
    {
        let ghost before = state@;
        match group_position(&state.orchestration_groups, id) {
            Some(index) => {
                proof {
                    find_group_finds(before.groups, id@);
                    if valid_groups(before.groups) {
                        lemma_remove_keeps_valid(before.groups, index as int);
                    }
                }
                Ok(self.take_group(state, index))
            },
            None => Err(OrchestrationError::UnknownGroup { group: id.clone() }),
        }
    }

    /// Deletes the group that the caller saw, if it is still the same.
    pub fn delete_group_if_unchanged(&self, state: &mut State, expected: &OrchestrationGroup) -> (r:
        Result<OrchestrationGroup, OrchestrationError>)
        ensures
            match r {
                Ok(group) => edit_refusal(old(state)@, expected@) is None && group@ == expected@
                    && final(state)@ == (StateView {
                    groups: old(state)@.groups.remove(
                        find_group(old(state)@.groups, expected@.id)->0,
                    ),
                    ..old(state)@
                }),
                Err(error) => edit_refusal(old(state)@, expected@) == Some(error@) && final(state)@
                    == old(state)@,
            },
            valid_groups(old(state)@.groups) ==> valid_groups(final(state)@.groups),
    {
        let ghost before = state@;
        match self.current(state, expected) {
            Ok(index) => {
                proof {
                    find_group_finds(before.groups, expected@.id);
                    if valid_groups(before.groups) {
                        lemma_remove_keeps_valid(before.groups, index as int);
                    }
                }
                Ok(self.take_group(state, index))
            },
            Err(error) => Err(error),
        }
    }

    /// The groups, in order.
    pub fn list_groups(&self, state: &State) -> (groups: Vec<OrchestrationGroup>)
        ensures
            group_views(groups@) == state@.groups,
    {
        let mut groups: Vec<OrchestrationGroup> = Vec::new();
        let mut i: usize = 0;
        assert(group_views(groups@) =~= state@.groups.take(0));
        while i < state.orchestration_groups.len()
            invariant
                i <= state.orchestration_groups@.len(),
                group_views(groups@) == state@.groups.take(i as int),
            decreases state.orchestration_groups.len() - i,
        {
            let ghost listed = groups@;
            let group = state.orchestration_groups[i].clone();
            let ghost shown = group@;
            groups.push(group);
            i += 1;
            assert(group_views(groups@) =~= group_views(listed).push(shown));
            assert(state@.groups.take(i as int) =~= state@.groups.take(i - 1).push(shown));
        }
        assert(state@.groups.take(i as int) =~= state@.groups);
        groups
    }

    /// One group.
    pub fn group(&self, state: &State, id: &OrchestrationGroupId) -> (r: Result<
        OrchestrationGroup,
        OrchestrationError,
    >)
        ensures
            match r {
                Ok(group) => match find_group(state@.groups, id@) {
                    Some(index) => group@ == state@.groups[index],
                    None => false,
                },
                Err(error) => find_group(state@.groups, id@) is None && error@ == (
                OrchestrationErrorView::UnknownGroup { group: id@ }),
            },
    {
        match group_position(&state.orchestration_groups, id) {
            Some(index) => Ok(state.orchestration_groups[index].clone()),
            None => Err(OrchestrationError::UnknownGroup { group: id.clone() }),
        }
    }

    /// Adds one worker with a fresh membership.
    pub fn add_worker(
        &self,
        state: &mut State,
        group_id: &OrchestrationGroupId,
        session_id: SessionId,
        title: Option<OrchestrationTitle>,
        capabilities: OrchestrationCapabilities,
    ) -> (r: Result<OrchestrationMember, OrchestrationError>)
        ensures
            match r {
                Ok(member) => {
                    let index = find_group(old(state)@.groups, group_id@)->0;
                    let group = old(state)@.groups[index];
                    &&& addition_refusal(old(state)@, group_id@, session_id, capabilities) is None
                    &&& member@ == (MemberView {
                        session_id,
                        membership_id: member@.membership_id,
                        title: title_view(title),
                        capabilities,
                    })
                    &&& version_of(member@.membership_id@) == 7
                    &&& final(state)@ == (StateView {
                        groups: old(state)@.groups.update(
                            index,
                            GroupView { workers: group.workers.push(member@), ..group },
                        ),
                        ..old(state)@
                    })
                },
                Err(error) => addition_refusal(old(state)@, group_id@, session_id, capabilities)
                    == Some(error@) && final(state)@ == old(state)@,
            },
            valid_groups(old(state)@.groups) ==> valid_groups(final(state)@.groups),
    {
        let ghost before = state@;
        if capabilities.is_empty() {
            return Err(OrchestrationError::NoCapability { session: session_id });
        }
        if !is_eligible(&state.sessions, session_id) {
            return Err(OrchestrationError::NotEligible { role: "worker" });
        }
        let index = match group_position(&state.orchestration_groups, group_id) {
            Some(index) => index,
            None => {
                return Err(OrchestrationError::UnknownGroup { group: group_id.clone() });
            },
        };
        let mut group = state.orchestration_groups[index].clone();
        let ghost shown = group@;
        assert(shown == before.groups[index as int]);
        if group.orchestrator_session_id == session_id {
            return Err(OrchestrationError::OrchestratorIsWorker);
        }
        if member_position(&group.workers, session_id).is_some() {
            return Err(
                OrchestrationError::AlreadyMember { session: session_id, group: group_id.clone() },
            );
        }
        if group.workers.len() >= OrchestrationGroup::MAX_WORKERS {
            return Err(OrchestrationError::WorkerLimit { group: group_id.clone() });
        }
        let member = OrchestrationMember {
            session_id,
            membership_id: OrchestrationMembershipId::new(),
            title,
            capabilities,
        };
        group.workers.push(member.clone());
        proof {
            assert(group@.workers =~= shown.workers.push(member@));
            find_group_finds(before.groups, group_id@);
            find_member_finds(shown.workers, session_id);
            if valid_groups(before.groups) {
                assert(valid_group(shown));
                assert(valid_group(group@)) by {
                    let workers = group@.workers;
                    assert forall|i: int| 0 <= i < workers.len() implies (
                    #[trigger] workers[i]).session_id != shown.orchestrator
                        && !workers[i].capabilities.none() by {
                        if i < shown.workers.len() {
                            assert(workers[i] == shown.workers[i]);
                        }
                    }
                    assert forall|i: int, j: int| 0 <= i < j < workers.len() implies (
                    #[trigger] workers[i]).session_id != (#[trigger] workers[j]).session_id by {
                        assert(workers[i] == shown.workers[i]);
                        if j < shown.workers.len() {
                            assert(workers[j] == shown.workers[j]);
                        }
                    }
                }
                lemma_update_keeps_valid(before.groups, index as int, group@);
            }
        }
        self.put_group(state, index, group);
        Ok(member)
    }

    /// Makes another session the orchestrator of the group that the caller saw.
    pub fn reassign_orchestrator(
        &self,
        state: &mut State,
        expected: &OrchestrationGroup,
        new_session_id: SessionId,
    ) -> (r: Result<OrchestrationGroup, OrchestrationError>)
        ensures
            ({
                let stale = edit_refusal(old(state)@, expected@);
                let refusal = if stale is Some {
                    stale
                } else if !eligible(old(state)@.sessions, new_session_id) {
                    Some(OrchestrationErrorView::NotEligible { role: "orchestrator"@ })
                } else {
                    None
                };
                match r {
                    Ok(group) => refusal is None && group@ == reassigned(expected@, new_session_id)
                        && final(state)@ == (StateView {
                        groups: old(state)@.groups.update(
                            find_group(old(state)@.groups, expected@.id)->0,
                            group@,
                        ),
                        ..old(state)@
                    }),
                    Err(error) => refusal == Some(error@) && final(state)@ == old(state)@,
                }
            }),
            valid_groups(old(state)@.groups) ==> valid_groups(final(state)@.groups),
    {
        let ghost before = state@;
        let index = match self.current(state, expected) {
            Ok(index) => index,
            Err(error) => {
                return Err(error);
            },
        };
        if !is_eligible(&state.sessions, new_session_id) {
            return Err(OrchestrationError::NotEligible { role: "orchestrator" });
        }
        let mut workers: Vec<OrchestrationMember> = Vec::new();
        let ghost all = expected@.workers;
        let mut i: usize = 0;
        assert(all.take(0) =~= Seq::empty());
        assert(member_views(workers@) =~= Seq::empty());
        while i < expected.workers.len()
            invariant
                i <= expected.workers@.len(),
                all == member_views(expected.workers@),
                member_views(workers@) == members_without(all.take(i as int), new_session_id),
            decreases expected.workers.len() - i,
        {
            assert(all.take(i + 1).drop_last() =~= all.take(i as int));
            assert(all.take(i + 1).last() == expected.workers@[i as int]@);
            if expected.workers[i].session_id != new_session_id {
                let ghost kept = workers@;
                let member = expected.workers[i].clone();
                let ghost shown = member@;
                workers.push(member);
                assert(member_views(workers@) =~= member_views(kept).push(shown));
            }
            i += 1;
        }
        assert(all.take(all.len() as int) =~= all);
        let group = OrchestrationGroup {
            id: expected.id.clone(),
            title: expected.title.clone(),
            orchestrator_session_id: new_session_id,
            workers,
        };
        let copy = group.clone();
        proof {
            find_group_finds(before.groups, expected@.id);
            if valid_groups(before.groups) {
                assert(valid_group(before.groups[index as int]));
                reassigning_keeps_groups_valid(expected@, new_session_id);
                lemma_update_keeps_valid(before.groups, index as int, copy@);
            }
        }
        self.put_group(state, index, group);
        Ok(copy)
    }

    /// Removes one worker.
    pub fn remove_worker(
        &self,
        state: &mut State,
        group_id: &OrchestrationGroupId,
        session_id: SessionId,
    ) -> (r: Result<OrchestrationMember, OrchestrationError>)
        ensures
            match find_group(old(state)@.groups, group_id@) {
                None => {
                    &&& r is Err
                    &&& r->Err_0@ == (OrchestrationErrorView::UnknownGroup { group: group_id@ })
                    &&& final(state)@ == old(state)@
                },
                Some(index) => {
                    let group = old(state)@.groups[index];
                    match find_member(group.workers, session_id) {
                        None => {
                            &&& r is Err
                            &&& r->Err_0@ == (OrchestrationErrorView::NotMember {
                                session: session_id,
                                group: group_id@,
                            })
                            &&& final(state)@ == old(state)@
                        },
                        Some(at) => {
                            &&& r is Ok
                            &&& r->Ok_0@ == group.workers[at]
                            &&& final(state)@ == (StateView {
                                groups: old(state)@.groups.update(
                                    index,
                                    GroupView { workers: group.workers.remove(at), ..group },
                                ),
                                ..old(state)@
                            })
                        },
                    }
                },
            },
            valid_groups(old(state)@.groups) ==> valid_groups(final(state)@.groups),
    {
        let ghost before = state@;
        let index = match group_position(&state.orchestration_groups, group_id) {
            Some(index) => index,
            None => {
                return Err(OrchestrationError::UnknownGroup { group: group_id.clone() });
            },
        };
        let mut group = state.orchestration_groups[index].clone();
        let ghost shown = group@;
        assert(shown == before.groups[index as int]);
        let at = match member_position(&group.workers, session_id) {
            Some(at) => at,
            None => {
                return Err(
                    OrchestrationError::NotMember { session: session_id, group: group_id.clone() },
                );
            },
        };
        let member = group.workers.remove(at);
        proof {
            assert(group@.workers =~= shown.workers.remove(at as int));
            find_group_finds(before.groups, group_id@);
            if valid_groups(before.groups) {
                assert(valid_group(shown));
                assert(valid_group(group@)) by {
                    let workers = group@.workers;
                    assert forall|i: int| 0 <= i < workers.len() implies (
                    #[trigger] workers[i]).session_id != shown.orchestrator
                        && !workers[i].capabilities.none() by {
                        assert(workers[i] == shown.workers[if i < at {
                            i
                        } else {
                            i + 1
                        }]);
                    }
                    assert forall|i: int, j: int| 0 <= i < j < workers.len() implies (
                    #[trigger] workers[i]).session_id != (#[trigger] workers[j]).session_id by {
                        assert(workers[i] == shown.workers[if i < at {
                            i
                        } else {
                            i + 1
                        }]);
                        assert(workers[j] == shown.workers[if j < at {
                            j
                        } else {
                            j + 1
                        }]);
                    }
                }
                lemma_update_keeps_valid(before.groups, index as int, group@);
            }
        }
        self.put_group(state, index, group);
        Ok(member)
    }
}

} // verus!
