//! Persisted workloads and orchestration groups.

use vstd::prelude::*;
use vstd::string::*;

use crate::clock::Timestamp;
use crate::model::{
    HerdrAgentKind, OrchestrationGroupId, OrchestrationMembershipId, OrchestrationTitle,
    OwnershipProof, SessionId, TmuxSessionId,
};
use crate::text::{copy_opt, opt_view, same_text};

verus! {

/// Where a workload stands in its life.
#[derive(Clone, Copy, Debug, PartialEq, Eq, Structural)]
pub enum SessionStatus {
    /// Reserved, but not known to exist yet.
    Creating,
    Running,
    /// A stop was confirmed and has not been finalized.
    Stopping,
    Ended,
    /// Forgotten, but still retained as history.
    Removed,
}

/// One persisted workload.
#[derive(Debug, PartialEq, Eq)]
pub struct SessionRecord {
    pub id: SessionId,
    pub host: String,
    pub target: String,
    pub directory: String,
    pub preset: Option<String>,
    pub herdr_agent: Option<HerdrAgentKind>,
    pub command: Option<String>,
    pub tmux_session_id: Option<TmuxSessionId>,
    pub ownership_proof: Option<OwnershipProof>,
    pub status: SessionStatus,
    pub created_at: Timestamp,
    pub last_used_at: Timestamp,
    pub closed_at: Option<Timestamp>,
    pub exit_status: Option<i32>,
}

/// The contents of a [`SessionRecord`].
pub struct RecordView {
    pub id: SessionId,
    pub host: Seq<char>,
    pub target: Seq<char>,
    pub directory: Seq<char>,
    pub preset: Option<Seq<char>>,
    pub herdr_agent: Option<Seq<char>>,
    pub command: Option<Seq<char>>,
    pub tmux_session_id: Option<TmuxSessionId>,
    pub ownership_proof: Option<OwnershipProof>,
    pub status: SessionStatus,
    pub created_at: Timestamp,
    pub last_used_at: Timestamp,
    pub closed_at: Option<Timestamp>,
    pub exit_status: Option<i32>,
}

/// The name of an optional agent kind.
pub open spec fn agent_view(kind: Option<HerdrAgentKind>) -> Option<Seq<char>> {
    match kind {
        Some(kind) => Some(kind@),
        None => None,
    }
}

impl View for SessionRecord {
    type V = RecordView;

    open spec fn view(&self) -> RecordView {
        RecordView {
            id: self.id,
            host: self.host@,
            target: self.target@,
            directory: self.directory@,
            preset: opt_view(self.preset),
            herdr_agent: agent_view(self.herdr_agent),
            command: opt_view(self.command),
            tmux_session_id: self.tmux_session_id,
            ownership_proof: self.ownership_proof,
            status: self.status,
            created_at: self.created_at,
            last_used_at: self.last_used_at,
            closed_at: self.closed_at,
            exit_status: self.exit_status,
        }
    }
}

impl RecordView {
    /// A running workload with its proof and its tmux identity.
    pub open spec fn exact_running(self) -> bool {
        self.status == SessionStatus::Running && self.ownership_proof is Some
            && self.tmux_session_id is Some
    }
}

impl Clone for SessionRecord {
    fn clone(&self) -> (copy: Self)
        ensures
            copy == *self,
    {
        SessionRecord {
            id: self.id,
            host: self.host.clone(),
            target: self.target.clone(),
            directory: self.directory.clone(),
            preset: copy_opt(&self.preset),
            herdr_agent: match &self.herdr_agent {
                Some(kind) => Some(kind.clone()),
                None => None,
            },
            command: copy_opt(&self.command),
            tmux_session_id: self.tmux_session_id,
            ownership_proof: self.ownership_proof,
            status: self.status,
            created_at: self.created_at,
            last_used_at: self.last_used_at,
            closed_at: self.closed_at,
            exit_status: self.exit_status,
        }
    }
}

/// Whether two optional texts are the same.
pub(crate) fn same_opt_text(a: &Option<String>, b: &Option<String>) -> (r: bool)
    ensures
        r == (opt_view(*a) == opt_view(*b)),
{
    match (a, b) {
        (Some(a), Some(b)) => same_text(a.as_str(), b.as_str()),
        (None, None) => true,
        _ => false,
    }
}

/// Whether two optional identities are the same.
pub(crate) fn same_identity(a: Option<TmuxSessionId>, b: Option<TmuxSessionId>) -> (r: bool)
    ensures
        r == (a == b),
{
    match (a, b) {
        (Some(a), Some(b)) => a == b,
        (None, None) => true,
        _ => false,
    }
}

/// Whether two optional proofs are the same.
fn same_ownership(a: Option<OwnershipProof>, b: Option<OwnershipProof>) -> (r: bool)
    ensures
        r == (a == b),
{
    match (a, b) {
        (Some(a), Some(b)) => a == b,
        (None, None) => true,
        _ => false,
    }
}

/// Whether two optional instants are the same.
fn same_instant(a: Option<Timestamp>, b: Option<Timestamp>) -> (r: bool)
    ensures
        r == (a == b),
{
    match (a, b) {
        (Some(a), Some(b)) => a == b,
        (None, None) => true,
        _ => false,
    }
}

/// Whether two optional exit statuses are the same.
fn same_exit(a: Option<i32>, b: Option<i32>) -> (r: bool)
    ensures
        r == (a == b),
{
    match (a, b) {
        (Some(a), Some(b)) => a == b,
        (None, None) => true,
        _ => false,
    }
}

impl SessionRecord {
    /// Whether two records agree in every field.
    pub fn same(&self, other: &SessionRecord) -> (r: bool)
        ensures
            r == (self@ == other@),
    {
        let same_agent = match (&self.herdr_agent, &other.herdr_agent) {
            (Some(a), Some(b)) => a.same(b),
            (None, None) => true,
            _ => false,
        };
        self.id == other.id && same_text(self.host.as_str(), other.host.as_str()) && same_text(
            self.target.as_str(),
            other.target.as_str(),
        ) && same_text(self.directory.as_str(), other.directory.as_str()) && same_opt_text(
            &self.preset,
            &other.preset,
        ) && same_agent && same_opt_text(&self.command, &other.command) && same_identity(
            self.tmux_session_id,
            other.tmux_session_id,
        ) && same_ownership(self.ownership_proof, other.ownership_proof) && self.status == other.status
            && self.created_at == other.created_at && self.last_used_at == other.last_used_at
            && same_instant(self.closed_at, other.closed_at) && same_exit(
            self.exit_status,
            other.exit_status,
        )
    }

    /// Whether the workload is running with its proof and its tmux identity.
    pub fn is_exact_running(&self) -> (r: bool)
        ensures
            r == self@.exact_running(),
    {
        self.status == SessionStatus::Running && self.ownership_proof.is_some()
            && self.tmux_session_id.is_some()
    }
}

/// What a member of a group allows.
#[derive(Clone, Copy, Debug, Default, PartialEq, Eq, Structural)]
pub struct OrchestrationCapabilities {
    pub observe_output: bool,
    pub open_interactive: bool,
    pub prompt_agent: bool,
}

impl OrchestrationCapabilities {
    /// Nothing is allowed.
    pub open spec fn none(self) -> bool {
        !self.observe_output && !self.open_interactive && !self.prompt_agent
    }

    /// Whether nothing is allowed.
    pub fn is_empty(&self) -> (r: bool)
        ensures
            r == self.none(),
    {
        !self.observe_output && !self.open_interactive && !self.prompt_agent
    }
}

/// One worker of a group.
#[derive(Debug, PartialEq, Eq)]
pub struct OrchestrationMember {
    pub session_id: SessionId,
    pub membership_id: OrchestrationMembershipId,
    pub title: Option<OrchestrationTitle>,
    pub capabilities: OrchestrationCapabilities,
}

/// The contents of an [`OrchestrationMember`].
pub struct MemberView {
    pub session_id: SessionId,
    pub membership_id: OrchestrationMembershipId,
    pub title: Option<Seq<char>>,
    pub capabilities: OrchestrationCapabilities,
}

/// The text of an optional title.
pub open spec fn title_view(title: Option<OrchestrationTitle>) -> Option<Seq<char>> {
    match title {
        Some(title) => Some(title@),
        None => None,
    }
}

/// A copy of an optional title.
pub(crate) fn copy_title(title: &Option<OrchestrationTitle>) -> (copy: Option<OrchestrationTitle>)
    ensures
        copy == *title,
{
    match title {
        Some(title) => Some(title.clone()),
        None => None,
    }
}

impl View for OrchestrationMember {
    type V = MemberView;

    open spec fn view(&self) -> MemberView {
        MemberView {
            session_id: self.session_id,
            membership_id: self.membership_id,
            title: title_view(self.title),
            capabilities: self.capabilities,
        }
    }
}

impl Clone for OrchestrationMember {
    fn clone(&self) -> (copy: Self)
        ensures
            copy == *self,
    {
        OrchestrationMember {
            session_id: self.session_id,
            membership_id: self.membership_id,
            title: copy_title(&self.title),
            capabilities: self.capabilities,
        }
    }
}

impl OrchestrationMember {
    /// Whether two members agree in every field.
    pub fn same(&self, other: &OrchestrationMember) -> (r: bool)
        ensures
            r == (self@ == other@),
    {
        let same_title = match (&self.title, &other.title) {
            (Some(a), Some(b)) => a.same(b),
            (None, None) => true,
            _ => false,
        };
        self.session_id == other.session_id && self.membership_id == other.membership_id && same_title
            && self.capabilities == other.capabilities
    }
}

/// An opt-in group of workloads: one orchestrator and its workers.
#[derive(Debug, PartialEq, Eq)]
pub struct OrchestrationGroup {
    pub id: OrchestrationGroupId,
    pub title: OrchestrationTitle,
    pub orchestrator_session_id: SessionId,
    pub workers: Vec<OrchestrationMember>,
}

/// The contents of an [`OrchestrationGroup`].
#[verifier::ext_equal]
pub struct GroupView {
    pub id: Seq<char>,
    pub title: Seq<char>,
    pub orchestrator: SessionId,
    pub workers: Seq<MemberView>,
}

/// The contents of each member.
pub open spec fn member_views(members: Seq<OrchestrationMember>) -> Seq<MemberView> {
    members.map_values(|member: OrchestrationMember| member@)
}

impl View for OrchestrationGroup {
    type V = GroupView;

    open spec fn view(&self) -> GroupView {
        GroupView {
            id: self.id@,
            title: self.title@,
            orchestrator: self.orchestrator_session_id,
            workers: member_views(self.workers@),
        }
    }
}

/// A copy of each member.
pub(crate) fn copy_members(members: &Vec<OrchestrationMember>) -> (copy: Vec<OrchestrationMember>)
    ensures
        copy@ == members@,
{
    let mut copy: Vec<OrchestrationMember> = Vec::new();
    let mut i: usize = 0;
    while i < members.len()
        invariant
            i <= members@.len(),
            copy@ == members@.take(i as int),
        decreases members.len() - i,
    {
        copy.push(members[i].clone());
        i += 1;
        assert(members@.take(i as int) =~= members@.take(i - 1).push(members@[i - 1]));
    }
    assert(members@.take(members@.len() as int) =~= members@);
    copy
}

impl Clone for OrchestrationGroup {
    fn clone(&self) -> (copy: Self)
        ensures
            copy@ == self@,
            copy.workers@ == self.workers@,
    {
        OrchestrationGroup {
            id: self.id.clone(),
            title: self.title.clone(),
            orchestrator_session_id: self.orchestrator_session_id,
            workers: copy_members(&self.workers),
        }
    }
}

impl OrchestrationGroup {
    pub const MAX_WORKERS: usize = 64;

    /// Whether two groups agree in every field and in every member.
    pub fn same(&self, other: &OrchestrationGroup) -> (r: bool)
        ensures
            r == (self@ == other@),
    {
        if !self.id.same(&other.id) || !self.title.same(&other.title)
            || self.orchestrator_session_id != other.orchestrator_session_id || self.workers.len()
            != other.workers.len() {
            assert(self@ != other@) by {
                if self.workers@.len() != other.workers@.len() {
                    assert(self@.workers.len() != other@.workers.len());
                }
            }
            return false;
        }
        let mut i: usize = 0;
        while i < self.workers.len()
            invariant
                i <= self.workers@.len(),
                self.workers@.len() == other.workers@.len(),
                forall|j: int|
                    0 <= j < i ==> (#[trigger] self.workers@[j])@ == other.workers@[j]@,
            decreases self.workers.len() - i,
        {
            if !self.workers[i].same(&other.workers[i]) {
                assert(self@.workers[i as int] != other@.workers[i as int]);
                return false;
            }
            i += 1;
        }
        assert(self@.workers =~= other@.workers);
        true
    }
}

/// The file that holds the persisted state.
#[derive(Debug, PartialEq, Eq)]
pub struct StateStore {
    path: String,
}

impl View for StateStore {
    type V = Seq<char>;

    closed spec fn view(&self) -> Seq<char> {
        self.path@
    }
}

impl Clone for StateStore {
    fn clone(&self) -> (copy: Self)
        ensures
            copy == *self,
    {
        StateStore { path: self.path.clone() }
    }
}

impl StateStore {
    /// The store at `path`.
    pub fn new(path: String) -> (store: Self)
        ensures
            store@ == path@,
    {
        StateStore { path }
    }

    /// The path of the file.
    pub fn path(&self) -> (path: &str)
        ensures
            path@ == self@,
    {
        self.path.as_str()
    }
}

/// Everything that is persisted.
#[derive(Debug, PartialEq, Eq)]
pub struct State {
    pub version: u32,
    pub sessions: Vec<SessionRecord>,
    pub orchestration_groups: Vec<OrchestrationGroup>,
}

/// The contents of a [`State`].
#[verifier::ext_equal]
pub struct StateView {
    pub version: u32,
    pub sessions: Seq<RecordView>,
    pub groups: Seq<GroupView>,
}

/// The contents of each record.
pub open spec fn record_views(records: Seq<SessionRecord>) -> Seq<RecordView> {
    records.map_values(|record: SessionRecord| record@)
}

/// The contents of each group.
pub open spec fn group_views(groups: Seq<OrchestrationGroup>) -> Seq<GroupView> {
    groups.map_values(|group: OrchestrationGroup| group@)
}

impl View for State {
    type V = StateView;

    open spec fn view(&self) -> StateView {
        StateView {
            version: self.version,
            sessions: record_views(self.sessions@),
            groups: group_views(self.orchestration_groups@),
        }
    }
}

/// One record stands before another in a list: running ones first, then those
/// used last, and then by identifier.
pub open spec fn listed_before(a: RecordView, b: RecordView) -> bool {
    let a_running = a.status == SessionStatus::Running;
    let b_running = b.status == SessionStatus::Running;
    if a_running != b_running {
        a_running
    } else if a.last_used_at != b.last_used_at {
        b.last_used_at.before(a.last_used_at)
    } else {
        a.id@ < b.id@
    }
}

/// Whether one record stands before another in a list.
pub fn is_listed_before(a: &SessionRecord, b: &SessionRecord) -> (r: bool)
    ensures
        r == listed_before(a@, b@),
{
    let a_running = a.status == SessionStatus::Running;
    let b_running = b.status == SessionStatus::Running;
    if a_running != b_running {
        a_running
    } else if a.last_used_at != b.last_used_at {
        b.last_used_at.is_before(a.last_used_at)
    } else {
        a.id.as_uuid() < b.id.as_uuid()
    }
}

/// The place of a record in a list: before the first that stands behind it.
pub open spec fn list_place(records: Seq<RecordView>, record: RecordView) -> int
    decreases records.len(),
{
    if records.len() == 0 || listed_before(record, records[0]) {
        0
    } else {
        1 + list_place(records.drop_first(), record)
    }
}

/// Records as they are listed.
pub open spec fn listing(records: Seq<RecordView>) -> Seq<RecordView>
    decreases records.len(),
{
    if records.len() == 0 {
        Seq::empty()
    } else {
        let front = listing(records.drop_last());
        front.insert(list_place(front, records.last()), records.last())
    }
}

/// The place of a record lies in the list.
pub proof fn list_place_lies_in_the_list(records: Seq<RecordView>, record: RecordView)
    ensures
        0 <= list_place(records, record) <= records.len(),
    decreases records.len(),
{
    if records.len() > 0 {
        list_place_lies_in_the_list(records.drop_first(), record);
    }
}

/// The first record of a session.
pub open spec fn find_record(records: Seq<RecordView>, id: SessionId) -> Option<int>
    decreases records.len(),
{
    if records.len() == 0 {
        None
    } else {
        match find_record(records.drop_last(), id) {
            Some(index) => Some(index),
            None => if records.last().id == id {
                Some(records.len() - 1)
            } else {
                None
            },
        }
    }
}

/// The first match is a match, and no match means that there is none.
pub proof fn find_record_finds(records: Seq<RecordView>, id: SessionId)
    ensures
        match find_record(records, id) {
            Some(index) => 0 <= index < records.len() && records[index].id == id && forall|i: int|
                0 <= i < index ==> (#[trigger] records[i]).id != id,
            None => forall|i: int| 0 <= i < records.len() ==> (#[trigger] records[i]).id != id,
        },
    decreases records.len(),
{
    if records.len() > 0 {
        let front = records.drop_last();
        find_record_finds(front, id);
        match find_record(front, id) {
            Some(index) => {
                assert(front[index] == records[index]);
                assert forall|i: int| 0 <= i < index implies (#[trigger] records[i]).id != id by {
                    assert(front[i] == records[i]);
                }
            },
            None => {
                assert forall|i: int| 0 <= i < records.len() - 1 implies (
                #[trigger] records[i]).id != id by {
                    assert(front[i] == records[i]);
                }
            },
        }
    }
}

/// The first group with an identifier.
pub open spec fn find_group(groups: Seq<GroupView>, id: Seq<char>) -> Option<int>
    decreases groups.len(),
{
    if groups.len() == 0 {
        None
    } else {
        match find_group(groups.drop_last(), id) {
            Some(index) => Some(index),
            None => if groups.last().id == id {
                Some(groups.len() - 1)
            } else {
                None
            },
        }
    }
}

/// The first match is a match, and no match means that there is none.
pub proof fn find_group_finds(groups: Seq<GroupView>, id: Seq<char>)
    ensures
        match find_group(groups, id) {
            Some(index) => 0 <= index < groups.len() && groups[index].id == id && forall|i: int|
                0 <= i < index ==> (#[trigger] groups[i]).id != id,
            None => forall|i: int| 0 <= i < groups.len() ==> (#[trigger] groups[i]).id != id,
        },
    decreases groups.len(),
{
    if groups.len() > 0 {
        let front = groups.drop_last();
        find_group_finds(front, id);
        match find_group(front, id) {
            Some(index) => {
                assert(front[index] == groups[index]);
                assert forall|i: int| 0 <= i < index implies (#[trigger] groups[i]).id != id by {
                    assert(front[i] == groups[i]);
                }
            },
            None => {
                assert forall|i: int| 0 <= i < groups.len() - 1 implies (
                #[trigger] groups[i]).id != id by {
                    assert(front[i] == groups[i]);
                }
            },
        }
    }
}

/// The first member of a session.
pub open spec fn find_member(members: Seq<MemberView>, id: SessionId) -> Option<int>
    decreases members.len(),
{
    if members.len() == 0 {
        None
    } else {
        match find_member(members.drop_last(), id) {
            Some(index) => Some(index),
            None => if members.last().session_id == id {
                Some(members.len() - 1)
            } else {
                None
            },
        }
    }
}

/// The first match is a match, and no match means that there is none.
pub proof fn find_member_finds(members: Seq<MemberView>, id: SessionId)
    ensures
        match find_member(members, id) {
            Some(index) => 0 <= index < members.len() && members[index].session_id == id
                && forall|i: int| 0 <= i < index ==> (#[trigger] members[i]).session_id != id,
            None => forall|i: int|
                0 <= i < members.len() ==> (#[trigger] members[i]).session_id != id,
        },
    decreases members.len(),
{
    if members.len() > 0 {
        let front = members.drop_last();
        find_member_finds(front, id);
        match find_member(front, id) {
            Some(index) => {
                assert(front[index] == members[index]);
                assert forall|i: int| 0 <= i < index implies (
                #[trigger] members[i]).session_id != id by {
                    assert(front[i] == members[i]);
                }
            },
            None => {
                assert forall|i: int| 0 <= i < members.len() - 1 implies (
                #[trigger] members[i]).session_id != id by {
                    assert(front[i] == members[i]);
                }
            },
        }
    }
}

/// The position of the first record of a session.
pub fn record_position(records: &Vec<SessionRecord>, id: SessionId) -> (found: Option<usize>)
    ensures
        match found {
            Some(index) => index < records@.len() && find_record(record_views(records@), id) == Some(
                index as int,
            ) && records@[index as int].id == id,
            None => find_record(record_views(records@), id) is None,
        },
{
    let ghost all = record_views(records@);
    let mut i: usize = 0;
    while i < records.len()
        invariant
            i <= records@.len(),
            all == record_views(records@),
            forall|j: int| 0 <= j < i ==> (#[trigger] all[j]).id != id,
        decreases records.len() - i,
    {
        if records[i].id == id {
            proof {
                find_record_finds(all, id);
                assert(all[i as int].id == id);
            }
            return Some(i);
        }
        i += 1;
    }
    proof {
        find_record_finds(all, id);
    }
    None
}

/// The position of the first group with an identifier.
pub fn group_position(groups: &Vec<OrchestrationGroup>, id: &OrchestrationGroupId) -> (found: Option<
    usize,
>)
    ensures
        match found {
            Some(index) => index < groups@.len() && find_group(group_views(groups@), id@) == Some(
                index as int,
            ),
            None => find_group(group_views(groups@), id@) is None,
        },
{
    let ghost all = group_views(groups@);
    let mut i: usize = 0;
    while i < groups.len()
        invariant
            i <= groups@.len(),
            all == group_views(groups@),
            forall|j: int| 0 <= j < i ==> (#[trigger] all[j]).id != id@,
        decreases groups.len() - i,
    {
        if groups[i].id.same(id) {
            proof {
                find_group_finds(all, id@);
                assert(all[i as int].id == id@);
            }
            return Some(i);
        }
        i += 1;
    }
    proof {
        find_group_finds(all, id@);
    }
    None
}

/// The position of the first member of a session.
pub fn member_position(members: &Vec<OrchestrationMember>, id: SessionId) -> (found: Option<usize>)
    ensures
        match found {
            Some(index) => index < members@.len() && find_member(member_views(members@), id) == Some(
                index as int,
            ) && members@[index as int].session_id == id,
            None => find_member(member_views(members@), id) is None,
        },
{
    let ghost all = member_views(members@);
    let mut i: usize = 0;
    while i < members.len()
        invariant
            i <= members@.len(),
            all == member_views(members@),
            forall|j: int| 0 <= j < i ==> (#[trigger] all[j]).session_id != id,
        decreases members.len() - i,
    {
        if members[i].session_id == id {
            proof {
                find_member_finds(all, id);
                assert(all[i as int].session_id == id);
            }
            return Some(i);
        }
        i += 1;
    }
    proof {
        find_member_finds(all, id);
    }
    None
}

impl State {
    pub const CURRENT_VERSION: u32 = 1;

    pub const MAX_ORCHESTRATION_GROUPS: usize = 64;
}

} // verus!
