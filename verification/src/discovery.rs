//! Looking for repositories: the bounds of a search, how its work is shared
//! out, and how its findings are made known.

use vstd::prelude::*;
use vstd::string::*;

use crate::backend::{BinariesView, ProcessBinaries};

verus! {

pub const MAX_DISCOVERY_WORKERS: usize = 16;

pub const MAX_DISCOVERY_ENTRIES: usize = 100_000;

pub const MAX_DISCOVERY_RESULTS: usize = 4_096;

pub const MAX_DISCOVERY_LOCATIONS: usize = 256;

pub const MAX_DISCOVERY_ROOTS: usize = 256;

/// The most messages of one search: its results, the errors of its roots, the
/// ends of its locations and its own end.
pub const MAX_DISCOVERY_MESSAGES: usize = 4_609;

/// How the search of one location ended.
#[derive(Clone, Copy, Debug, PartialEq, Eq, Structural)]
pub enum DiscoveryCompletion {
    Complete,
    ResultsLimit,
    EntriesLimit,
    TimedOut,
    Unavailable,
    OutputLimit,
    Malformed,
    Error,
}

/// How a whole search ended.
#[derive(Clone, Copy, Debug, PartialEq, Eq, Structural)]
pub enum DiscoveryRunCompletion {
    Complete,
    ResultsLimit,
    EntriesLimit,
    TimedOut,
    Unavailable,
    OutputLimit,
    Malformed,
    Error,
    Cancelled,
}

/// What a search makes known.
#[derive(Debug, PartialEq, Eq)]
pub enum DiscoveryMessage {
    Repository { generation: u64, host: String, path: String },
    RootError { generation: u64, host: String, root: String },
    HostFinished { generation: u64, host: String, completion: DiscoveryCompletion },
    Finished { generation: u64 },
}

/// The contents of a [`DiscoveryMessage`].
pub enum MessageView {
    Repository { generation: u64, host: Seq<char>, path: Seq<char> },
    RootError { generation: u64, host: Seq<char>, root: Seq<char> },
    HostFinished { generation: u64, host: Seq<char>, completion: DiscoveryCompletion },
    Finished { generation: u64 },
}

impl View for DiscoveryMessage {
    type V = MessageView;

    open spec fn view(&self) -> MessageView {
        match self {
            DiscoveryMessage::Repository { generation, host, path } => MessageView::Repository {
                generation: *generation,
                host: host@,
                path: path@,
            },
            DiscoveryMessage::RootError { generation, host, root } => MessageView::RootError {
                generation: *generation,
                host: host@,
                root: root@,
            },
            DiscoveryMessage::HostFinished { generation, host, completion } =>
                MessageView::HostFinished {
                generation: *generation,
                host: host@,
                completion: *completion,
            },
            DiscoveryMessage::Finished { generation } => MessageView::Finished {
                generation: *generation,
            },
        }
    }
}

/// The contents of an optional message.
pub open spec fn message_view(message: Option<DiscoveryMessage>) -> Option<MessageView> {
    match message {
        Some(message) => Some(message@),
        None => None,
    }
}

impl DiscoveryMessage {
    /// The search that the message belongs to.
    pub fn generation(&self) -> (generation: u64)
        ensures
            generation == match self@ {
                MessageView::Repository { generation, .. } => generation,
                MessageView::RootError { generation, .. } => generation,
                MessageView::HostFinished { generation, .. } => generation,
                MessageView::Finished { generation } => generation,
            },
    {
        match self {
            DiscoveryMessage::Repository { generation, .. } => *generation,
            DiscoveryMessage::RootError { generation, .. } => *generation,
            DiscoveryMessage::HostFinished { generation, .. } => *generation,
            DiscoveryMessage::Finished { generation } => *generation,
        }
    }
}

/// A host and the places on it that are searched.
#[derive(Debug, PartialEq, Eq)]
pub struct DiscoveryLocation {
    pub host: String,
    pub target: Option<String>,
    pub roots: Vec<String>,
}

/// A search.
#[derive(Debug, PartialEq, Eq)]
pub struct DiscoveryRequest {
    pub generation: u64,
    pub locations: Vec<DiscoveryLocation>,
}

/// The bounds of a search. Its time is in nanoseconds.
#[derive(Clone, Copy, Debug, PartialEq, Eq, Structural)]
pub struct DiscoveryLimits {
    pub max_depth: usize,
    pub max_entries: usize,
    pub max_results: usize,
    pub timeout_nanos: u64,
    pub workers: usize,
}

/// The nearest number from `low` to `high`.
pub open spec fn clamped(value: usize, low: usize, high: usize) -> usize {
    if value < low {
        low
    } else if value > high {
        high
    } else {
        value
    }
}

/// The nearest number from `low` to `high`.
fn clamp(value: usize, low: usize, high: usize) -> (r: usize)
    ensures
        r == clamped(value, low, high),
{
    if value < low {
        low
    } else if value > high {
        high
    } else {
        value
    }
}

/// The bounds that a search is held to, whatever was configured.
pub open spec fn bounded_limits(limits: DiscoveryLimits) -> DiscoveryLimits {
    DiscoveryLimits {
        workers: clamped(limits.workers, 1, MAX_DISCOVERY_WORKERS),
        max_entries: clamped(limits.max_entries, 1, MAX_DISCOVERY_ENTRIES),
        max_results: clamped(limits.max_results, 1, MAX_DISCOVERY_RESULTS),
        ..limits
    }
}

/// The roots of all locations.
pub open spec fn root_count(locations: Seq<DiscoveryLocation>) -> nat
    decreases locations.len(),
{
    if locations.len() == 0 {
        0
    } else {
        root_count(locations.drop_last()) + locations.last().roots@.len()
    }
}

/// The first locations have no more roots than all.
proof fn lemma_root_count(locations: Seq<DiscoveryLocation>, k: int)
    requires
        0 <= k <= locations.len(),
    ensures
        root_count(locations.take(k)) <= root_count(locations),
    decreases locations.len(),
{
    if k < locations.len() {
        assert(locations.drop_last().take(k) =~= locations.take(k));
        lemma_root_count(locations.drop_last(), k);
    } else {
        assert(locations.take(k) =~= locations);
    }
}

/// A search is small enough to be made.
pub open spec fn admitted(locations: Seq<DiscoveryLocation>) -> bool {
    locations.len() <= MAX_DISCOVERY_LOCATIONS && root_count(locations) <= MAX_DISCOVERY_ROOTS
}

/// Whether a search is small enough to be made.
fn is_admitted(locations: &Vec<DiscoveryLocation>) -> (r: bool)
    ensures
        r == admitted(locations@),
{
    if locations.len() > MAX_DISCOVERY_LOCATIONS {
        return false;
    }
    let mut count: usize = 0;
    let mut i: usize = 0;
    while i < locations.len()
        invariant
            i <= locations@.len(),
            count == root_count(locations@.take(i as int)),
            count <= MAX_DISCOVERY_ROOTS,
        decreases locations.len() - i,
    {
        let more: usize = locations[i].roots.len();
        proof {
            assert(locations@.take(i + 1).drop_last() =~= locations@.take(i as int));
            lemma_root_count(locations@, i + 1);
        }
        if more > MAX_DISCOVERY_ROOTS - count {
            return false;
        }
        count += more;
        i += 1;
    }
    assert(locations@.take(i as int) =~= locations@);
    true
}

/// A service that looks for repositories.
#[derive(Debug, PartialEq, Eq)]
pub struct DiscoveryService {
    binaries: ProcessBinaries,
    limits: DiscoveryLimits,
}

/// A search that is under way: its jobs, its end and how many work on it.
#[derive(Debug, PartialEq, Eq)]
pub struct DiscoveryStart {
    pub queue: JobQueue,
    pub worker_count: usize,
    pub deadline_nanos: u64,
    pub generation: u64,
}

impl DiscoveryService {
    /// The programs that the service uses.
    pub closed spec fn binaries_view(self) -> BinariesView {
        self.binaries@
    }

    /// The bounds that the service keeps.
    pub closed spec fn limits_view(self) -> DiscoveryLimits {
        self.limits
    }

    /// A service that keeps within its own ceilings, whatever was configured.
    pub fn new(binaries: ProcessBinaries, limits: DiscoveryLimits) -> (service: Self)
        ensures
            service.binaries_view() == binaries@,
            service.limits_view() == bounded_limits(limits),
    {
        let limits = DiscoveryLimits {
            max_depth: limits.max_depth,
            max_entries: clamp(limits.max_entries, 1, MAX_DISCOVERY_ENTRIES),
            max_results: clamp(limits.max_results, 1, MAX_DISCOVERY_RESULTS),
            timeout_nanos: limits.timeout_nanos,
            workers: clamp(limits.workers, 1, MAX_DISCOVERY_WORKERS),
        };
        DiscoveryService { binaries, limits }
    }

    /// The programs that the service uses.
    pub fn binaries(&self) -> (binaries: &ProcessBinaries)
        ensures
            binaries@ == self.binaries_view(),
    {
        &self.binaries
    }

    /// The bounds that the service keeps.
    pub fn limits(&self) -> (limits: DiscoveryLimits)
        ensures
            limits == self.limits_view(),
    {
        self.limits
    }

    /// Begins a search at the time `now_nanos`, unless it is too large.
    pub fn start(&self, request: DiscoveryRequest, now_nanos: u64) -> (start: Option<
        DiscoveryStart,
    >)
        ensures
            match start {
                None => !admitted(request.locations@),
                Some(start) => admitted(request.locations@) && start.generation
                    == request.generation && start.queue.locations_view() == request.locations@
                    && start.queue.remaining_view() == self.limits_view().max_entries
                    && start.worker_count == worker_count_for(
                    self.limits_view().workers,
                    request.locations@.len(),
                ) && start.deadline_nanos == deadline_for(
                    now_nanos,
                    self.limits_view().timeout_nanos,
                ),
            },
    {
        if !is_admitted(&request.locations) {
            return None;
        }
        let count = request.locations.len();
        let wanted: usize = if count > 1 {
            count
        } else {
            1
        };
        let worker_count: usize = if self.limits.workers < wanted {
            self.limits.workers
        } else {
            wanted
        };
        let deadline_nanos: u64 = match now_nanos.checked_add(self.limits.timeout_nanos) {
            Some(deadline) => deadline,
            None => now_nanos,
        };
        Some(
            DiscoveryStart {
                queue: JobQueue {
                    jobs: request.locations,
                    reservations: EntryReservations::new(self.limits.max_entries),
                },
                worker_count,
                deadline_nanos,
                generation: request.generation,
            },
        )
    }
}

/// The number of workers of a search: at least one, and no more than it has
/// locations.
pub open spec fn worker_count_for(workers: usize, locations: nat) -> int {
    let wanted: int = if locations > 1 {
        locations as int
    } else {
        1
    };
    if workers < wanted {
        workers as int
    } else {
        wanted
    }
}

/// The end of a search; one that cannot be told is over at once.
pub open spec fn deadline_for(now_nanos: u64, timeout_nanos: u64) -> int {
    if now_nanos + timeout_nanos <= u64::MAX {
        now_nanos + timeout_nanos
    } else {
        now_nanos as int
    }
}

/// The share of the first of some jobs, rounded up.
pub open spec fn share(remaining: int, jobs: int) -> int {
    (remaining + jobs - 1) / jobs
}

/// The shares of some jobs, in order.
pub open spec fn shares(remaining: int, jobs: nat) -> Seq<int>
    decreases jobs,
{
    if jobs == 0 {
        Seq::empty()
    } else {
        let first = share(remaining, jobs as int);
        seq![first] + shares(remaining - first, (jobs - 1) as nat)
    }
}

/// The sum of some numbers.
pub open spec fn total(numbers: Seq<int>) -> int
    decreases numbers.len(),
{
    if numbers.len() == 0 {
        0
    } else {
        numbers[0] + total(numbers.drop_first())
    }
}

/// A share takes part of what is left, and no more than that.
proof fn lemma_share(remaining: int, jobs: int)
    requires
        remaining >= 0,
        jobs > 0,
    ensures
        0 <= share(remaining, jobs) <= remaining,
        remaining <= share(remaining, jobs) * jobs < remaining + jobs,
        jobs == 1 ==> share(remaining, jobs) == remaining,
{
    let q = share(remaining, jobs);
    let r = (remaining + jobs - 1) % jobs;
    assert(remaining + jobs - 1 == jobs * q + r) by {
        vstd::arithmetic::div_mod::lemma_fundamental_div_mod(remaining + jobs - 1, jobs);
    }
    assert(0 <= r < jobs) by {
        vstd::arithmetic::div_mod::lemma_mod_bound(remaining + jobs - 1, jobs);
    }
    assert(jobs * q == q * jobs) by (nonlinear_arith);
    assert(q >= 0) by (nonlinear_arith)
        requires
            q * jobs > -jobs,
            jobs > 0,
    ;
    assert(q <= remaining) by (nonlinear_arith)
        requires
            q * jobs < remaining + jobs,
            jobs > 0,
            remaining >= 0,
    ;
}

/// Every entry that a search may look at is some location's, and the shares of
/// all locations make up the whole.
pub proof fn shares_make_up_the_whole(entries: int, jobs: nat)
    requires
        entries >= 0,
        jobs > 0,
    ensures
        shares(entries, jobs).len() == jobs,
        total(shares(entries, jobs)) == entries,
    decreases jobs,
{
    lemma_share(entries, jobs as int);
    let first = share(entries, jobs as int);
    let rest = shares(entries - first, (jobs - 1) as nat);
    let all = shares(entries, jobs);
    assert(all == seq![first] + rest);
    assert(all[0] == first);
    assert(all.drop_first() =~= rest);
    assert(total(all) == first + total(rest));
    if jobs > 1 {
        shares_make_up_the_whole(entries - first, (jobs - 1) as nat);
    } else {
        assert(rest.len() == 0);
        assert(total(rest) == 0);
    }
}

/// The entries that are not handed out yet.
#[derive(Debug, PartialEq, Eq)]
pub struct EntryReservations {
    remaining: usize,
}

impl EntryReservations {
    /// The entries that are not handed out yet.
    pub closed spec fn remaining_view(self) -> int {
        self.remaining as int
    }

    /// All entries of a search.
    pub fn new(max_entries: usize) -> (reservations: Self)
        ensures
            reservations.remaining_view() == max_entries,
    {
        EntryReservations { remaining: max_entries }
    }

    /// Hands the first of some jobs its share.
    pub fn reserve(&mut self, remaining_jobs: usize) -> (allowance: usize)
        requires
            remaining_jobs > 0,
        ensures
            allowance == share(old(self).remaining_view(), remaining_jobs as int),
            final(self).remaining_view() == old(self).remaining_view() - allowance,
    {
        proof {
            lemma_share(self.remaining as int, remaining_jobs as int);
        }
        let whole: usize = self.remaining / remaining_jobs;
        let over: usize = self.remaining % remaining_jobs;
        proof {
            let n = self.remaining as int;
            let j = remaining_jobs as int;
            let q = share(n, j);
            vstd::arithmetic::div_mod::lemma_fundamental_div_mod(n, j);
            vstd::arithmetic::div_mod::lemma_mod_bound(n, j);
            let w = n / j;
            let o = n % j;
            assert(n == j * w + o);
            if o == 0 {
                assert(q == w) by (nonlinear_arith)
                    requires
                        n == j * w + o,
                        o == 0,
                        n <= q * j < n + j,
                        j > 0,
                ;
            } else {
                assert(q == w + 1) by (nonlinear_arith)
                    requires
                        n == j * w + o,
                        0 < o < j,
                        n <= q * j < n + j,
                        j > 0,
                ;
            }
        }
        let allowance: usize = if over == 0 {
            whole
        } else {
            whole + 1
        };
        self.remaining -= allowance;
        allowance
    }
}

/// The jobs of a search.
///
/// Entry allowances are assigned while jobs are dequeued, so worker timing
/// cannot change which request index owns each allowance. Earlier locations
/// receive any indivisible remainder. An unused allowance is intentionally not
/// returned: bounded under-utilization is preferable to timing-dependent theft
/// by a later, faster scan.
#[derive(Debug, PartialEq, Eq)]
pub struct JobQueue {
    jobs: Vec<DiscoveryLocation>,
    reservations: EntryReservations,
}

impl JobQueue {
    /// The locations that nobody has taken yet.
    pub closed spec fn locations_view(self) -> Seq<DiscoveryLocation> {
        self.jobs@
    }

    /// The entries that are not handed out yet.
    pub closed spec fn remaining_view(self) -> int {
        self.reservations.remaining_view()
    }

    /// Takes the next location with its share of entries.
    pub fn pop(&mut self) -> (job: Option<(DiscoveryLocation, usize)>)
        ensures
            match job {
                None => old(self).locations_view().len() == 0 && *final(self) == *old(self),
                Some((location, allowance)) => {
                    &&& old(self).locations_view().len() > 0
                    &&& location == old(self).locations_view()[0]
                    &&& allowance == share(
                        old(self).remaining_view(),
                        old(self).locations_view().len() as int,
                    )
                    &&& final(self).locations_view() == old(self).locations_view().drop_first()
                    &&& final(self).remaining_view() == old(self).remaining_view() - allowance
                },
            },
    {
        let remaining_jobs = self.jobs.len();
        if remaining_jobs == 0 {
            return None;
        }
        let location = self.jobs.remove(0);
        assert(self.jobs@ =~= old(self).jobs@.drop_first());
        let allowance = self.reservations.reserve(remaining_jobs);
        Some((location, allowance))
    }
}

/// How weighty the end of a search is.
pub open spec fn priority(completion: DiscoveryRunCompletion) -> int {
    match completion {
        DiscoveryRunCompletion::Complete => 0,
        DiscoveryRunCompletion::Unavailable => 1,
        DiscoveryRunCompletion::Malformed => 2,
        DiscoveryRunCompletion::Error => 3,
        DiscoveryRunCompletion::OutputLimit => 4,
        DiscoveryRunCompletion::EntriesLimit => 5,
        DiscoveryRunCompletion::ResultsLimit => 6,
        DiscoveryRunCompletion::TimedOut => 7,
        DiscoveryRunCompletion::Cancelled => 8,
    }
}

/// How weighty the end of a search is.
fn completion_priority(completion: DiscoveryRunCompletion) -> (r: usize)
    ensures
        r == priority(completion),
{
    match completion {
        DiscoveryRunCompletion::Complete => 0,
        DiscoveryRunCompletion::Unavailable => 1,
        DiscoveryRunCompletion::Malformed => 2,
        DiscoveryRunCompletion::Error => 3,
        DiscoveryRunCompletion::OutputLimit => 4,
        DiscoveryRunCompletion::EntriesLimit => 5,
        DiscoveryRunCompletion::ResultsLimit => 6,
        DiscoveryRunCompletion::TimedOut => 7,
        DiscoveryRunCompletion::Cancelled => 8,
    }
}

/// The end of a search in which one location ended like this.
pub open spec fn run_completion(completion: DiscoveryCompletion) -> DiscoveryRunCompletion {
    match completion {
        DiscoveryCompletion::Complete => DiscoveryRunCompletion::Complete,
        DiscoveryCompletion::ResultsLimit => DiscoveryRunCompletion::ResultsLimit,
        DiscoveryCompletion::EntriesLimit => DiscoveryRunCompletion::EntriesLimit,
        DiscoveryCompletion::TimedOut => DiscoveryRunCompletion::TimedOut,
        DiscoveryCompletion::Unavailable => DiscoveryRunCompletion::Unavailable,
        DiscoveryCompletion::OutputLimit => DiscoveryRunCompletion::OutputLimit,
        DiscoveryCompletion::Malformed => DiscoveryRunCompletion::Malformed,
        DiscoveryCompletion::Error => DiscoveryRunCompletion::Error,
    }
}

/// The weightier of two ends.
pub open spec fn weightier(current: DiscoveryRunCompletion, completion: DiscoveryCompletion) -> DiscoveryRunCompletion {
    if priority(run_completion(completion)) > priority(current) {
        run_completion(completion)
    } else {
        current
    }
}

/// The weightier of two ends.
pub fn more_significant_completion(
    current: DiscoveryRunCompletion,
    completion: DiscoveryCompletion,
) -> (r: DiscoveryRunCompletion)
    ensures
        r == weightier(current, completion),
{
    let candidate = match completion {
        DiscoveryCompletion::Complete => DiscoveryRunCompletion::Complete,
        DiscoveryCompletion::ResultsLimit => DiscoveryRunCompletion::ResultsLimit,
        DiscoveryCompletion::EntriesLimit => DiscoveryRunCompletion::EntriesLimit,
        DiscoveryCompletion::TimedOut => DiscoveryRunCompletion::TimedOut,
        DiscoveryCompletion::Unavailable => DiscoveryRunCompletion::Unavailable,
        DiscoveryCompletion::OutputLimit => DiscoveryRunCompletion::OutputLimit,
        DiscoveryCompletion::Malformed => DiscoveryRunCompletion::Malformed,
        DiscoveryCompletion::Error => DiscoveryRunCompletion::Error,
    };
    if completion_priority(candidate) > completion_priority(current) {
        candidate
    } else {
        current
    }
}

/// The order in which locations end does not change how the search ends.
pub proof fn completion_order_does_not_matter(
    current: DiscoveryRunCompletion,
    a: DiscoveryCompletion,
    b: DiscoveryCompletion,
)
    ensures
        weightier(weightier(current, a), b) == weightier(weightier(current, b), a),
        priority(weightier(current, a)) >= priority(current),
        priority(weightier(current, a)) >= priority(run_completion(a)),
{
}

/// What is made known of a search, location by location.
#[derive(Clone, Copy, Debug, PartialEq, Eq, Structural)]
pub struct Publisher {
    pub generation: u64,
    pub max_results: usize,
    pub overall: DiscoveryRunCompletion,
    /// The repositories made known so far.
    pub published: usize,
    /// Whether the current location had more than could be made known.
    pub exceeded: bool,
}

impl Publisher {
    /// No more is made known than allowed.
    pub open spec fn well_formed(self) -> bool {
        self.published <= self.max_results
    }

    /// What is made known of a message.
    pub open spec fn shown(self, message: MessageView) -> Option<MessageView> {
        match message {
            MessageView::Repository { .. } => if self.published < self.max_results {
                Some(message)
            } else {
                None
            },
            MessageView::HostFinished { host, completion, .. } => Some(
                MessageView::HostFinished {
                    generation: self.generation,
                    host,
                    completion: self.ending(completion),
                },
            ),
            _ => Some(message),
        }
    }

    /// How a location ended: one that had too much ended at the limit.
    pub open spec fn ending(self, completion: DiscoveryCompletion) -> DiscoveryCompletion {
        if self.exceeded {
            DiscoveryCompletion::ResultsLimit
        } else {
            completion
        }
    }

    /// The publisher behind a message.
    pub open spec fn after(self, message: MessageView) -> Publisher {
        match message {
            MessageView::Repository { .. } => if self.published < self.max_results {
                Publisher { published: (self.published + 1) as usize, ..self }
            } else {
                Publisher { exceeded: true, ..self }
            },
            MessageView::HostFinished { completion, .. } => Publisher {
                overall: weightier(self.overall, self.ending(completion)),
                ..self
            },
            _ => self,
        }
    }

    /// A publisher of a search.
    pub fn new(generation: u64, max_results: usize) -> (publisher: Self)
        ensures
            publisher == (Publisher {
                generation,
                max_results,
                overall: DiscoveryRunCompletion::Complete,
                published: 0,
                exceeded: false,
            }),
            publisher.well_formed(),
    {
        Publisher {
            generation,
            max_results,
            overall: DiscoveryRunCompletion::Complete,
            published: 0,
            exceeded: false,
        }
    }

    /// Takes a message of the current location, and says what is made known.
    pub fn publish(&mut self, message: DiscoveryMessage) -> (shown: Option<DiscoveryMessage>)
        requires
            old(self).well_formed(),
        ensures
            final(self).well_formed(),
            message_view(shown) == old(self).shown(message@),
            *final(self) == old(self).after(message@),
    {
        match message {
            DiscoveryMessage::Repository { generation, host, path } => {
                if self.published < self.max_results {
                    self.published += 1;
                    Some(DiscoveryMessage::Repository { generation, host, path })
                } else {
                    self.exceeded = true;
                    None
                }
            },
            DiscoveryMessage::HostFinished { host, completion, .. } => {
                let completion = if self.exceeded {
                    DiscoveryCompletion::ResultsLimit
                } else {
                    completion
                };
                self.overall = more_significant_completion(self.overall, completion);
                Some(
                    DiscoveryMessage::HostFinished {
                        generation: self.generation,
                        host,
                        completion,
                    },
                )
            },
            other => Some(other),
        }
    }

    /// Takes the end of the current location. Behind one that had too much,
    /// the search is over.
    pub fn location_ended(&mut self) -> (end: Option<DiscoveryRunCompletion>)
        ensures
            *final(self) == *old(self),
            end == if old(self).exceeded {
                Some(DiscoveryRunCompletion::ResultsLimit)
            } else {
                None::<DiscoveryRunCompletion>
            },
    {
        if self.exceeded {
            Some(DiscoveryRunCompletion::ResultsLimit)
        } else {
            None
        }
    }
}

/// How a search stands: whether it is to stop, and how it ended.
#[derive(Clone, Copy, Debug, PartialEq, Eq, Structural)]
pub struct DiscoveryRun {
    pub cancelled: bool,
    pub outcome: Option<DiscoveryRunCompletion>,
}

impl DiscoveryRun {
    /// A search that has just begun, or one that was too large to begin.
    pub fn new(admitted: bool) -> (run: Self)
        ensures
            run == (DiscoveryRun {
                cancelled: false,
                outcome: if admitted {
                    None
                } else {
                    Some(DiscoveryRunCompletion::Error)
                },
            }),
    {
        DiscoveryRun {
            cancelled: false,
            outcome: if admitted {
                None
            } else {
                Some(DiscoveryRunCompletion::Error)
            },
        }
    }

    /// Asks the search to stop. One that has ended keeps its end.
    pub fn cancel(&mut self)
        ensures
            *final(self) == (DiscoveryRun {
                cancelled: true,
                outcome: if old(self).outcome is None {
                    Some(DiscoveryRunCompletion::Cancelled)
                } else {
                    old(self).outcome
                },
            }),
    {
        if self.outcome.is_none() {
            self.outcome = Some(DiscoveryRunCompletion::Cancelled);
        }
        self.cancelled = true;
    }

    /// Ends the search. One that has ended keeps its end.
    pub fn finish(&mut self, outcome: DiscoveryRunCompletion)
        ensures
            *final(self) == (DiscoveryRun {
                cancelled: true,
                outcome: if old(self).outcome is None {
                    Some(outcome)
                } else {
                    old(self).outcome
                },
            }),
    {
        if self.outcome.is_none() {
            self.outcome = Some(outcome);
        }
        self.cancelled = true;
    }

    /// How the search ended, if it has.
    pub fn completion(&self) -> (completion: Option<DiscoveryRunCompletion>)
        ensures
            completion == self.outcome,
    {
        self.outcome
    }
}

/// The repositories among some messages that are made known.
pub open spec fn made_known(publisher: Publisher, messages: Seq<MessageView>) -> int
    decreases messages.len(),
{
    if messages.len() == 0 {
        0
    } else {
        let first = messages[0];
        made_known(publisher.after(first), messages.drop_first()) + if first is Repository
            && publisher.shown(first) is Some {
            1int
        } else {
            0int
        }
    }
}

/// However many repositories are found, no more are made known than allowed.
pub proof fn results_stay_within_the_limit(publisher: Publisher, messages: Seq<MessageView>)
    requires
        publisher.well_formed(),
    ensures
        0 <= made_known(publisher, messages) <= publisher.max_results - publisher.published,
    decreases messages.len(),
{
    if messages.len() > 0 {
        results_stay_within_the_limit(publisher.after(messages[0]), messages.drop_first());
    }
}

} // verus!
