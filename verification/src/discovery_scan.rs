//! The search of directories on this machine: what is looked at, what is made
//! known, and when it stops.

use vstd::prelude::*;
use vstd::string::*;

use crate::backend::{absolute, is_absolute, join_path, joined_path};
use crate::discovery::{DiscoveryCompletion, DiscoveryLimits};
use crate::fields::{strip_prefix, without_prefix};
use crate::pane_title::str_view;
use crate::path_order::{components, is_before, paths_are_ordered, precedes, same_path};
use crate::text::{same_text, views};

verus! {

/// Paths stand in order.
pub open spec fn in_order(paths: Seq<Seq<char>>) -> bool {
    forall|i: int, j: int|
        0 <= i < j < paths.len() ==> !precedes(#[trigger] paths[j], #[trigger] paths[i])
}

/// The place of a path among paths in order: behind those that do not come
/// after it.
pub open spec fn place_of(paths: Seq<Seq<char>>, path: Seq<char>) -> int
    decreases paths.len(),
{
    if paths.len() == 0 || precedes(path, paths[0]) {
        0
    } else {
        1 + place_of(paths.drop_first(), path)
    }
}

/// Paths in order with one more.
pub open spec fn inserted(paths: Seq<Seq<char>>, path: Seq<char>) -> Seq<Seq<char>> {
    paths.insert(place_of(paths, path), path)
}

/// The paths that are kept when one more is offered: the first ones, at most
/// `capacity`.
pub open spec fn retained(paths: Seq<Seq<char>>, path: Seq<char>, capacity: int) -> Seq<Seq<char>> {
    if capacity == 0 {
        paths
    } else if paths.len() < capacity {
        inserted(paths, path)
    } else if precedes(path, paths.last()) {
        inserted(paths.drop_last(), path)
    } else {
        paths
    }
}

/// The paths that are kept when some are offered in a row.
pub open spec fn kept_of(offered: Seq<Seq<char>>, capacity: int) -> Seq<Seq<char>>
    decreases offered.len(),
{
    if offered.len() == 0 {
        Seq::empty()
    } else {
        retained(kept_of(offered.drop_last(), capacity), offered.last(), capacity)
    }
}

/// The place of a path lies among the others, behind those that do not come
/// after it.
proof fn lemma_place(paths: Seq<Seq<char>>, path: Seq<char>)
    ensures
        0 <= place_of(paths, path) <= paths.len(),
        forall|i: int|
            0 <= i < place_of(paths, path) ==> !precedes(path, #[trigger] paths[i]),
        place_of(paths, path) < paths.len() ==> precedes(path, paths[place_of(paths, path)]),
    decreases paths.len(),
{
    if paths.len() > 0 && !precedes(path, paths[0]) {
        let rest = paths.drop_first();
        lemma_place(rest, path);
        assert forall|i: int| 0 <= i < place_of(paths, path) implies !precedes(
            path,
            #[trigger] paths[i],
        ) by {
            if i > 0 {
                assert(paths[i] == rest[i - 1]);
            }
        }
    }
}

/// Paths in order stay in order when one more is put in its place.
proof fn lemma_inserted_in_order(paths: Seq<Seq<char>>, path: Seq<char>)
    requires
        in_order(paths),
    ensures
        in_order(inserted(paths, path)),
        inserted(paths, path).len() == paths.len() + 1,
        inserted(paths, path).contains(path),
        forall|other: Seq<char>|
            #![trigger inserted(paths, path).contains(other)]
            inserted(paths, path).contains(other) <==> other == path || paths.contains(other),
{
    lemma_place(paths, path);
    let at = place_of(paths, path);
    let all = inserted(paths, path);
    assert(all[at] == path);
    assert forall|i: int, j: int| 0 <= i < j < all.len() implies !precedes(
        #[trigger] all[j],
        #[trigger] all[i],
    ) by {
        if j < at {
            assert(all[i] == paths[i] && all[j] == paths[j]);
        } else if j == at {
            assert(all[i] == paths[i]);
        } else if i < at {
            assert(all[i] == paths[i] && all[j] == paths[j - 1]);
        } else if i == at {
            assert(all[j] == paths[j - 1]);
            assert(precedes(path, paths[at]));
            if j - 1 > at {
                assert(!precedes(paths[j - 1], paths[at]));
                paths_are_ordered(path, paths[at], paths[j - 1]);
            }
            paths_are_ordered(path, paths[j - 1], path);
        } else {
            assert(all[i] == paths[i - 1] && all[j] == paths[j - 1]);
        }
    }
    assert forall|other: Seq<char>| #[trigger] all.contains(other) <==> other == path
        || paths.contains(other) by {
        if all.contains(other) {
            let k = choose|k: int| 0 <= k < all.len() && all[k] == other;
            if k < at {
                assert(paths[k] == other);
            } else if k > at {
                assert(paths[k - 1] == other);
            }
        }
        if paths.contains(other) {
            let k = choose|k: int| 0 <= k < paths.len() && paths[k] == other;
            if k < at {
                assert(all[k] == other);
            } else {
                assert(all[k + 1] == other);
            }
        }
    }
}

/// Whatever the order in which paths are offered, those kept stand in order,
/// are as many as there is room for, and come before every other one.
pub proof fn the_first_paths_are_kept(offered: Seq<Seq<char>>, capacity: int)
    requires
        capacity > 0,
    ensures
        in_order(kept_of(offered, capacity)),
        kept_of(offered, capacity).len() == if offered.len() < capacity {
            offered.len() as int
        } else {
            capacity
        },
        forall|i: int|
            0 <= i < kept_of(offered, capacity).len() ==> offered.contains(
                #[trigger] kept_of(offered, capacity)[i],
            ),
        forall|path: Seq<char>, i: int|
            #![trigger offered.contains(path), kept_of(offered, capacity)[i]]
            offered.contains(path) && !kept_of(offered, capacity).contains(path) && 0 <= i
                < kept_of(offered, capacity).len() ==> !precedes(
                path,
                kept_of(offered, capacity)[i],
            ),
    decreases offered.len(),
{
    if offered.len() > 0 {
        let front = offered.drop_last();
        let path = offered.last();
        the_first_paths_are_kept(front, capacity);
        let before = kept_of(front, capacity);
        let after = kept_of(offered, capacity);
        assert forall|other: Seq<char>| front.contains(other) implies offered.contains(other) by {
            let k = choose|k: int| 0 <= k < front.len() && front[k] == other;
            assert(offered[k] == other);
        }
        assert(offered.contains(path)) by {
            assert(offered[offered.len() - 1] == path);
        }
        assert forall|other: Seq<char>| offered.contains(other) implies other == path
            || front.contains(other) by {
            let k = choose|k: int| 0 <= k < offered.len() && offered[k] == other;
            if k < front.len() {
                assert(front[k] == other);
            }
        }
        if before.len() < capacity {
            lemma_inserted_in_order(before, path);
            assert forall|i: int| 0 <= i < after.len() implies offered.contains(
                #[trigger] after[i],
            ) by {
                assert(after.contains(after[i]));
                if after[i] != path {
                    let k = choose|k: int| 0 <= k < before.len() && before[k] == after[i];
                    assert(front.contains(before[k]));
                }
            }
            assert forall|other: Seq<char>, i: int|
                #![trigger offered.contains(other), after[i]]
                offered.contains(other) && !after.contains(other) && 0 <= i
                    < after.len() implies !precedes(other, after[i]) by {
                lemma_all_kept_while_there_is_room(front, capacity);
                assert(front.contains(other));
                assert(before.contains(other));
            }
        } else if precedes(path, before.last()) {
            let rest = before.drop_last();
            assert(in_order(rest)) by {
                assert forall|i: int, j: int| 0 <= i < j < rest.len() implies !precedes(
                    #[trigger] rest[j],
                    #[trigger] rest[i],
                ) by {
                    assert(rest[i] == before[i] && rest[j] == before[j]);
                }
            }
            lemma_inserted_in_order(rest, path);
            assert forall|i: int| 0 <= i < after.len() implies offered.contains(
                #[trigger] after[i],
            ) by {
                assert(after.contains(after[i]));
                if after[i] != path {
                    let k = choose|k: int| 0 <= k < rest.len() && rest[k] == after[i];
                    assert(before[k] == after[i]);
                    assert(front.contains(before[k]));
                }
            }
            assert forall|other: Seq<char>, i: int|
                #![trigger offered.contains(other), after[i]]
                offered.contains(other) && !after.contains(other) && 0 <= i
                    < after.len() implies !precedes(other, after[i]) by {
                assert(after.contains(after[i]));
                let last = before.last();
                // Nothing that is left out comes before the one that made room.
                assert(!precedes(other, last)) by {
                    if before.contains(other) {
                        let k = choose|k: int| 0 <= k < before.len() && before[k] == other;
                        if k < rest.len() {
                            assert(rest[k] == other);
                        } else {
                            paths_are_ordered(last, last, last);
                        }
                    } else {
                        assert(front.contains(other));
                        assert(before[before.len() - 1] == last);
                    }
                }
                if after[i] == path {
                    paths_are_ordered(path, last, other);
                    paths_are_ordered(other, path, last);
                } else {
                    let k = choose|k: int| 0 <= k < rest.len() && rest[k] == after[i];
                    assert(before[k] == after[i]);
                    assert(!precedes(last, before[k]));
                    paths_are_ordered(other, before[k], last);
                }
            }
        } else {
            assert(after == before);
            assert forall|other: Seq<char>, i: int|
                #![trigger offered.contains(other), after[i]]
                offered.contains(other) && !after.contains(other) && 0 <= i
                    < after.len() implies !precedes(other, after[i]) by {
                if other == path {
                    let last = before.last();
                    if i < before.len() - 1 {
                        assert(!precedes(before[before.len() - 1], before[i]));
                        paths_are_ordered(path, before[i], last);
                    }
                } else {
                    assert(front.contains(other));
                }
            }
        }
    }
}

/// While there is room, everything is kept.
proof fn lemma_all_kept_while_there_is_room(offered: Seq<Seq<char>>, capacity: int)
    requires
        capacity > 0,
        kept_of(offered, capacity).len() < capacity,
    ensures
        forall|path: Seq<char>|
            #![trigger offered.contains(path)]
            offered.contains(path) ==> kept_of(offered, capacity).contains(path),
    decreases offered.len(),
{
    if offered.len() > 0 {
        let front = offered.drop_last();
        let path = offered.last();
        the_first_paths_are_kept(front, capacity);
        let before = kept_of(front, capacity);
        if before.len() < capacity {
            lemma_all_kept_while_there_is_room(front, capacity);
            lemma_inserted_in_order(before, path);
            assert forall|other: Seq<char>| #[trigger] offered.contains(other) implies kept_of(
                offered,
                capacity,
            ).contains(other) by {
                let k = choose|k: int| 0 <= k < offered.len() && offered[k] == other;
                if k < front.len() {
                    assert(front[k] == other);
                    assert(front.contains(other));
                }
            }
        } else {
            if precedes(path, before.last()) {
                let rest = before.drop_last();
                assert(in_order(rest)) by {
                    assert forall|i: int, j: int| 0 <= i < j < rest.len() implies !precedes(
                        #[trigger] rest[j],
                        #[trigger] rest[i],
                    ) by {
                        assert(rest[i] == before[i] && rest[j] == before[j]);
                    }
                }
                lemma_inserted_in_order(rest, path);
            }
        }
    }
}

/// Puts a path in its place.
fn insert_in_order(paths: &mut Vec<String>, path: String)
    ensures
        views(final(paths)@) == inserted(views(old(paths)@), path@),
{
    let ghost all = views(paths@);
    let mut i: usize = 0;
    assert(all.skip(0) =~= all);
    while i < paths.len() && !is_before(path.as_str(), paths[i].as_str())
        invariant
            i <= paths@.len(),
            *paths == *old(paths),
            all == views(paths@),
            place_of(all, path@) == i + place_of(all.skip(i as int), path@),
        decreases paths.len() - i,
    {
        let ghost rest = all.skip(i as int);
        assert(rest[0] == paths@[i as int]@);
        assert(rest.drop_first() =~= all.skip(i + 1));
        i += 1;
    }
    proof {
        if i < paths@.len() {
            assert(all.skip(i as int)[0] == paths@[i as int]@);
        }
    }
    let ghost shown = path@;
    paths.insert(i, path);
    assert(views(paths@) =~= all.insert(i as int, shown));
}

/// Keeps the first children of a directory, at most `capacity`.
pub fn retain_bounded_child(children: &mut Vec<String>, child: String, capacity: usize)
    ensures
        views(final(children)@) == retained(views(old(children)@), child@, capacity as int),
{
    if capacity == 0 {
        return;
    }
    let ghost all = views(children@);
    if children.len() < capacity {
        insert_in_order(children, child);
    } else {
        let last = children.len() - 1;
        assert(all.last() == children@[last as int]@);
        if is_before(child.as_str(), children[last].as_str()) {
            let _ = children.pop();
            assert(views(children@) =~= all.drop_last());
            insert_in_order(children, child);
        }
    }
}

/// The directory that a configured root stands for.
pub open spec fn expanded_root(root: Seq<char>, home: Option<Seq<char>>) -> Seq<char> {
    match home {
        None => root,
        Some(home) => if root == "~"@ {
            home
        } else {
            match without_prefix(root, "~/"@) {
                Some(rest) => if absolute(rest) {
                    rest
                } else {
                    joined_path(home, rest)
                },
                None => root,
            }
        },
    }
}

/// The directory that a configured root stands for.
pub fn expand_local_root(root: &str, home: Option<&str>) -> (path: String)
    ensures
        path@ == expanded_root(root@, str_view(home)),
{
    match home {
        None => root.to_owned(),
        Some(home) => {
            if same_text(root, "~") {
                return home.to_owned();
            }
            match strip_prefix(root, "~/") {
                Some(rest) => {
                    if is_absolute(rest.as_str()) {
                        rest
                    } else {
                        join_path(home, rest.as_str())
                    }
                },
                None => root.to_owned(),
            }
        },
    }
}

/// What a path turned out to be.
#[derive(Clone, Copy, Debug, PartialEq, Eq, Structural)]
pub enum EntryKind {
    /// A link, a file or something else that is not searched.
    Other,
    /// A directory that holds a repository.
    Repository,
    /// Another directory.
    Directory,
}

/// What is done with a path.
#[derive(Debug, PartialEq, Eq)]
pub enum VisitStep {
    /// Nothing.
    Skip,
    /// The repository at this path is made known.
    Report(String),
    /// The directory's children are looked at, at most so many of them.
    Descend(usize),
}

/// The contents of a [`VisitStep`].
pub enum VisitView {
    Skip,
    Report(Seq<char>),
    Descend(int),
}

impl View for VisitStep {
    type V = VisitView;

    open spec fn view(&self) -> VisitView {
        match self {
            VisitStep::Skip => VisitView::Skip,
            VisitStep::Report(path) => VisitView::Report(path@),
            VisitStep::Descend(remaining) => VisitView::Descend(*remaining as int),
        }
    }
}

/// The search of one location on this machine.
#[derive(Debug, PartialEq, Eq)]
pub struct LocalScan {
    pub entries: usize,
    pub entry_limit: usize,
    pub results: usize,
    pub max_results: usize,
    pub max_depth: usize,
    pub deadline_nanos: u64,
    pub seen: Vec<String>,
    pub completion: DiscoveryCompletion,
}

/// The contents of a [`LocalScan`].
#[verifier::ext_equal]
pub struct ScanView {
    pub entries: int,
    pub entry_limit: int,
    pub results: int,
    pub max_results: int,
    pub max_depth: int,
    pub deadline_nanos: u64,
    /// The repositories that were made known.
    pub seen: Seq<Seq<char>>,
    pub completion: DiscoveryCompletion,
}

impl View for LocalScan {
    type V = ScanView;

    open spec fn view(&self) -> ScanView {
        ScanView {
            entries: self.entries as int,
            entry_limit: self.entry_limit as int,
            results: self.results as int,
            max_results: self.max_results as int,
            max_depth: self.max_depth as int,
            deadline_nanos: self.deadline_nanos,
            seen: views(self.seen@),
            completion: self.completion,
        }
    }
}

impl ScanView {
    /// A path with the same components was taken for a repository before.
    pub open spec fn has_seen(self, path: Seq<char>) -> bool {
        exists|i: int|
            0 <= i < self.seen.len() && components(#[trigger] self.seen[i]) == components(path)
    }

    /// No more is looked at or made known than allowed.
    pub open spec fn well_formed(self) -> bool {
        0 <= self.entries <= self.entry_limit && 0 <= self.results <= self.max_results
    }

    /// The search goes no further.
    pub open spec fn stops(self, cancelled: bool, now_nanos: u64) -> bool {
        ||| cancelled
        ||| self.completion == DiscoveryCompletion::ResultsLimit
        ||| now_nanos >= self.deadline_nanos
        ||| self.entries >= self.entry_limit
    }

    /// The search behind the question whether it goes on.
    pub open spec fn asked(self, cancelled: bool, now_nanos: u64) -> ScanView {
        if cancelled || self.completion == DiscoveryCompletion::ResultsLimit {
            self
        } else if now_nanos >= self.deadline_nanos {
            ScanView { completion: DiscoveryCompletion::TimedOut, ..self }
        } else if self.entries >= self.entry_limit {
            ScanView { completion: DiscoveryCompletion::EntriesLimit, ..self }
        } else {
            self
        }
    }

    /// What is done with a path. `relative` is where it stands below a root
    /// that is shown as `display_root`.
    pub open spec fn step(
        self,
        kind: EntryKind,
        path: Seq<char>,
        display_root: Seq<char>,
        relative: Seq<char>,
        depth: int,
    ) -> VisitView {
        match kind {
            EntryKind::Other => VisitView::Skip,
            EntryKind::Repository => if self.has_seen(path) || self.results
                >= self.max_results {
                VisitView::Skip
            } else {
                VisitView::Report(
                    if relative.len() == 0 {
                        display_root
                    } else {
                        joined_path(display_root, relative)
                    },
                )
            },
            EntryKind::Directory => if depth >= self.max_depth {
                VisitView::Skip
            } else {
                VisitView::Descend(
                    if self.entries <= self.entry_limit {
                        self.entry_limit - self.entries
                    } else {
                        0
                    },
                )
            },
        }
    }

    /// The search behind a path.
    pub open spec fn visited(self, kind: EntryKind, path: Seq<char>) -> ScanView {
        if kind != EntryKind::Repository || self.has_seen(path) {
            self
        } else if self.results >= self.max_results {
            ScanView {
                seen: self.seen.push(path),
                completion: DiscoveryCompletion::ResultsLimit,
                ..self
            }
        } else {
            ScanView { seen: self.seen.push(path), results: self.results + 1, ..self }
        }
    }
}

impl LocalScan {
    /// The search of a location with its share of entries.
    pub fn new(limits: DiscoveryLimits, entry_limit: usize, deadline_nanos: u64) -> (scan: Self)
        ensures
            scan@ == (ScanView {
                entries: 0,
                entry_limit: entry_limit as int,
                results: 0,
                max_results: limits.max_results as int,
                max_depth: limits.max_depth as int,
                deadline_nanos,
                seen: Seq::empty(),
                completion: DiscoveryCompletion::Complete,
            }),
            scan@.well_formed(),
    {
        let scan = LocalScan {
            entries: 0,
            entry_limit,
            results: 0,
            max_results: limits.max_results,
            max_depth: limits.max_depth,
            deadline_nanos,
            seen: Vec::new(),
            completion: DiscoveryCompletion::Complete,
        };
        assert(views(scan.seen@) =~= Seq::empty());
        scan
    }

    /// Whether the search goes no further, and why.
    pub fn stopped(&mut self, cancelled: bool, now_nanos: u64) -> (r: bool)
        ensures
            r == old(self)@.stops(cancelled, now_nanos),
            final(self)@ == old(self)@.asked(cancelled, now_nanos),
    {
        if cancelled {
            return true;
        }
        if self.completion == DiscoveryCompletion::ResultsLimit {
            return true;
        }
        if now_nanos >= self.deadline_nanos {
            self.completion = DiscoveryCompletion::TimedOut;
            return true;
        }
        if self.entries >= self.entry_limit {
            self.completion = DiscoveryCompletion::EntriesLimit;
            return true;
        }
        false
    }

    /// Whether a path is looked at: if so it counts as one entry.
    pub fn enter(&mut self, cancelled: bool, now_nanos: u64) -> (r: bool)
        ensures
            r == !old(self)@.stops(cancelled, now_nanos),
            final(self)@ == if r {
                ScanView { entries: old(self)@.entries + 1, ..old(self)@ }
            } else {
                old(self)@.asked(cancelled, now_nanos)
            },
            old(self)@.well_formed() ==> final(self)@.well_formed(),
    {
        if self.stopped(cancelled, now_nanos) {
            return false;
        }
        self.entries += 1;
        true
    }

    /// Whether a path with the same components was taken for a repository before.
    fn knows(&self, path: &str) -> (r: bool)
        ensures
            r == self@.has_seen(path@),
    {
        let ghost all = self@.seen;
        let mut i: usize = 0;
        while i < self.seen.len()
            invariant
                i <= self.seen@.len(),
                all == self@.seen,
                all == views(self.seen@),
                forall|k: int|
                    0 <= k < i ==> components(#[trigger] all[k]) != components(path@),
            decreases self.seen.len() - i,
        {
            assert(all[i as int] == self.seen@[i as int]@);
            if same_path(self.seen[i].as_str(), path) {
                return true;
            }
            i += 1;
        }
        false
    }

    /// Takes what a path turned out to be.
    pub fn visit(
        &mut self,
        kind: EntryKind,
        path: &str,
        display_root: &str,
        relative: &str,
        depth: usize,
    ) -> (step: VisitStep)
        ensures
            step@ == old(self)@.step(kind, path@, display_root@, relative@, depth as int),
            final(self)@ == old(self)@.visited(kind, path@),
            old(self)@.well_formed() ==> final(self)@.well_formed(),
    {
        match kind {
            EntryKind::Other => VisitStep::Skip,
            EntryKind::Repository => {
                if self.knows(path) {
                    return VisitStep::Skip;
                }
                let ghost before = self.seen@;
                self.seen.push(path.to_owned());
                assert(views(self.seen@) =~= views(before).push(path@));
                if self.results >= self.max_results {
                    self.completion = DiscoveryCompletion::ResultsLimit;
                    return VisitStep::Skip;
                }
                self.results += 1;
                if relative.is_empty() {
                    VisitStep::Report(display_root.to_owned())
                } else {
                    VisitStep::Report(join_path(display_root, relative))
                }
            },
            EntryKind::Directory => {
                if depth >= self.max_depth {
                    VisitStep::Skip
                } else if self.entries <= self.entry_limit {
                    VisitStep::Descend(self.entry_limit - self.entries)
                } else {
                    VisitStep::Descend(0)
                }
            },
        }
    }

    /// Takes the failure of a child. One that is gone or locked is no matter.
    pub fn child_failed(&mut self, ignorable: bool)
        ensures
            final(self)@ == if ignorable {
                old(self)@
            } else {
                ScanView { completion: DiscoveryCompletion::Error, ..old(self)@ }
            },
    {
        if !ignorable {
            self.completion = DiscoveryCompletion::Error;
        }
    }

    /// Takes the failure of a root, and says whether it is made known.
    pub fn root_failed(&mut self, cancelled: bool) -> (shown: bool)
        ensures
            shown == !cancelled,
            final(self)@ == if cancelled {
                old(self)@
            } else {
                ScanView { completion: DiscoveryCompletion::Error, ..old(self)@ }
            },
    {
        if cancelled {
            return false;
        }
        self.completion = DiscoveryCompletion::Error;
        true
    }
}

/// A search whose time is over looks at nothing more.
pub proof fn expired_searches_look_at_nothing(scan: ScanView, cancelled: bool, now_nanos: u64)
    requires
        now_nanos >= scan.deadline_nanos,
    ensures
        scan.stops(cancelled, now_nanos),
        scan.asked(cancelled, now_nanos).entries == scan.entries,
{
}

} // verus!
