//! Paths as the components that they are made of: when two name the same place,
//! and which of two comes first.

use vstd::prelude::*;
use vstd::string::*;

use crate::backend::{absolute, is_absolute, slash_parts, split_slashes};
use crate::text::{chars_of, same_text, views};

verus! {

/// One component of a path.
pub ghost enum PartView {
    /// The root of an absolute path.
    Root,
    /// The `.` that a relative path starts with.
    Current,
    /// A `..`.
    Parent,
    /// The name of an entry.
    Name(Seq<char>),
}

/// The components among the parts of a path between slashes. Slashes in a row
/// count as one, and a `.` counts at the start alone.
pub open spec fn named_components(parts: Seq<Seq<char>>) -> Seq<PartView>
    decreases parts.len(),
{
    if parts.len() == 0 {
        Seq::empty()
    } else {
        let front = named_components(parts.drop_last());
        let last = parts.last();
        if last.len() == 0 {
            front
        } else if last == "."@ {
            if parts.len() == 1 {
                front.push(PartView::Current)
            } else {
                front
            }
        } else if last == ".."@ {
            front.push(PartView::Parent)
        } else {
            front.push(PartView::Name(last))
        }
    }
}

/// The components of a path.
pub open spec fn components(path: Seq<char>) -> Seq<PartView> {
    let root = if absolute(path) {
        seq![PartView::Root]
    } else {
        Seq::empty()
    };
    root + named_components(slash_parts(path))
}

/// One text comes before another, character by character.
pub open spec fn text_precedes(a: Seq<char>, b: Seq<char>) -> bool
    decreases a.len(),
{
    if b.len() == 0 {
        false
    } else if a.len() == 0 {
        true
    } else if a[0] == b[0] {
        text_precedes(a.drop_first(), b.drop_first())
    } else {
        a[0] < b[0]
    }
}

/// Where the components of one form stand among those of the others.
pub open spec fn rank(part: PartView) -> int {
    match part {
        PartView::Root => 0,
        PartView::Current => 1,
        PartView::Parent => 2,
        PartView::Name(_) => 3,
    }
}

/// One component comes before another.
pub open spec fn part_precedes(a: PartView, b: PartView) -> bool {
    if a is Name && b is Name {
        text_precedes(a->Name_0, b->Name_0)
    } else {
        rank(a) < rank(b)
    }
}

/// One row of components comes before another, component by component.
pub open spec fn parts_precede(a: Seq<PartView>, b: Seq<PartView>) -> bool
    decreases a.len(),
{
    if b.len() == 0 {
        false
    } else if a.len() == 0 {
        true
    } else if a[0] == b[0] {
        parts_precede(a.drop_first(), b.drop_first())
    } else {
        part_precedes(a[0], b[0])
    }
}

/// One path comes before another.
pub open spec fn precedes(a: Seq<char>, b: Seq<char>) -> bool {
    parts_precede(components(a), components(b))
}

/// No text comes before itself, and of two that come before each other in a
/// row the first comes before the last.
proof fn lemma_texts_are_ordered(a: Seq<char>, b: Seq<char>, c: Seq<char>)
    ensures
        !text_precedes(a, a),
        text_precedes(a, b) ==> !text_precedes(b, a),
        text_precedes(a, b) && !text_precedes(c, b) ==> text_precedes(a, c),
        !text_precedes(a, b) && !text_precedes(b, a) ==> a == b,
    decreases a.len() + b.len() + c.len(),
{
    if a.len() > 0 && b.len() > 0 && c.len() > 0 {
        lemma_texts_are_ordered(a.drop_first(), b.drop_first(), c.drop_first());
    } else if a.len() > 0 && b.len() > 0 {
        lemma_texts_are_ordered(a.drop_first(), b.drop_first(), c);
    } else if a.len() > 0 {
        lemma_texts_are_ordered(a.drop_first(), b, c);
    }
    if !text_precedes(a, b) && !text_precedes(b, a) {
        if a.len() > 0 && b.len() > 0 {
            assert(a =~= seq![a[0]] + a.drop_first());
            assert(b =~= seq![b[0]] + b.drop_first());
        } else {
            assert(a =~= b);
        }
    }
}

/// The same of single components.
proof fn lemma_parts_are_ordered(a: PartView, b: PartView, c: PartView)
    ensures
        !part_precedes(a, a),
        part_precedes(a, b) ==> !part_precedes(b, a),
        part_precedes(a, b) && !part_precedes(c, b) ==> part_precedes(a, c),
        !part_precedes(a, b) && !part_precedes(b, a) ==> a == b,
{
    if a is Name {
        lemma_texts_are_ordered(a->Name_0, a->Name_0, a->Name_0);
    }
    if a is Name && b is Name {
        lemma_texts_are_ordered(a->Name_0, b->Name_0, b->Name_0);
    }
    if a is Name && b is Name && c is Name {
        lemma_texts_are_ordered(a->Name_0, b->Name_0, c->Name_0);
    }
}

/// The same of rows of components.
proof fn lemma_rows_are_ordered(a: Seq<PartView>, b: Seq<PartView>, c: Seq<PartView>)
    ensures
        !parts_precede(a, a),
        parts_precede(a, b) ==> !parts_precede(b, a),
        parts_precede(a, b) && !parts_precede(c, b) ==> parts_precede(a, c),
        !parts_precede(a, b) && !parts_precede(b, a) ==> a == b,
    decreases a.len() + b.len() + c.len(),
{
    if a.len() > 0 && b.len() > 0 && c.len() > 0 {
        lemma_rows_are_ordered(a.drop_first(), b.drop_first(), c.drop_first());
        lemma_parts_are_ordered(a[0], b[0], c[0]);
        lemma_parts_are_ordered(b[0], c[0], a[0]);
        lemma_parts_are_ordered(c[0], b[0], a[0]);
    } else if a.len() > 0 && b.len() > 0 {
        lemma_rows_are_ordered(a.drop_first(), b.drop_first(), c);
        lemma_parts_are_ordered(a[0], b[0], b[0]);
    } else if a.len() > 0 {
        lemma_rows_are_ordered(a.drop_first(), b, c);
    }
    if !parts_precede(a, b) && !parts_precede(b, a) {
        if a.len() > 0 && b.len() > 0 {
            assert(a =~= seq![a[0]] + a.drop_first());
            assert(b =~= seq![b[0]] + b.drop_first());
        } else {
            assert(a =~= b);
        }
    }
}

/// Paths are ordered: none comes before itself, of two at most one comes before
/// the other, what does not come after the second of two in a row does not come
/// before the first either, and two of which neither comes first name the same
/// place.
pub proof fn paths_are_ordered(a: Seq<char>, b: Seq<char>, c: Seq<char>)
    ensures
        !precedes(a, a),
        precedes(a, b) ==> !precedes(b, a),
        precedes(a, b) && !precedes(c, b) ==> precedes(a, c),
        !precedes(a, b) && !precedes(b, a) ==> components(a) == components(b),
{
    lemma_rows_are_ordered(components(a), components(b), components(c));
}

/// One component of a path.
#[derive(Debug)]
enum PathPart {
    Root,
    Current,
    Parent,
    Name(String),
}

impl View for PathPart {
    type V = PartView;

    closed spec fn view(&self) -> PartView {
        match self {
            PathPart::Root => PartView::Root,
            PathPart::Current => PartView::Current,
            PathPart::Parent => PartView::Parent,
            PathPart::Name(name) => PartView::Name(name@),
        }
    }
}

/// What the components stand for.
spec fn part_views(parts: Seq<PathPart>) -> Seq<PartView> {
    parts.map_values(|part: PathPart| part@)
}

/// Puts a component behind the others.
fn push_part(parts: &mut Vec<PathPart>, part: PathPart)
    ensures
        part_views(final(parts)@) == part_views(old(parts)@).push(part@),
{
    let ghost before = parts@;
    let ghost shown = part@;
    parts.push(part);
    assert(part_views(parts@) =~= part_views(before).push(shown));
}

/// The components of a path.
fn split_path(path: &str) -> (parts: Vec<PathPart>)
    ensures
        part_views(parts@) == components(path@),
{
    let pieces = split_slashes(path);
    let ghost all = slash_parts(path@);
    let mut parts: Vec<PathPart> = Vec::new();
    assert(part_views(parts@) =~= Seq::empty());
    let ghost root = if absolute(path@) {
        seq![PartView::Root]
    } else {
        Seq::empty()
    };
    if is_absolute(path) {
        push_part(&mut parts, PathPart::Root);
    }
    assert(part_views(parts@) =~= root);
    let mut i: usize = 0;
    assert(all.take(0) =~= Seq::empty());
    assert(part_views(parts@) =~= root + named_components(all.take(0)));
    while i < pieces.len()
        invariant
            i <= pieces@.len(),
            all == views(pieces@),
            part_views(parts@) == root + named_components(all.take(i as int)),
        decreases pieces.len() - i,
    {
        let ghost front = named_components(all.take(i as int));
        let piece = &pieces[i];
        assert(all.take(i + 1).drop_last() =~= all.take(i as int));
        assert(all.take(i + 1).last() == piece@);
        if piece.as_str().is_empty() {
            assert(named_components(all.take(i + 1)) == front);
        } else if same_text(piece.as_str(), ".") {
            if i == 0 {
                push_part(&mut parts, PathPart::Current);
                assert(part_views(parts@) =~= root + front.push(PartView::Current));
            }
        } else if same_text(piece.as_str(), "..") {
            push_part(&mut parts, PathPart::Parent);
            assert(part_views(parts@) =~= root + front.push(PartView::Parent));
        } else {
            push_part(&mut parts, PathPart::Name(piece.clone()));
            assert(part_views(parts@) =~= root + front.push(PartView::Name(piece@)));
        }
        i += 1;
    }
    assert(all.take(all.len() as int) =~= all);
    parts
}

/// Whether one text comes before another.
fn text_is_before(a: &str, b: &str) -> (r: bool)
    ensures
        r == text_precedes(a@, b@),
{
    let left = chars_of(a);
    let right = chars_of(b);
    let mut i: usize = 0;
    assert(a@.skip(0) =~= a@);
    assert(b@.skip(0) =~= b@);
    while i < left.len() && i < right.len() && left[i] == right[i]
        invariant
            i <= left@.len(),
            i <= right@.len(),
            left@ == a@,
            right@ == b@,
            text_precedes(a@, b@) == text_precedes(a@.skip(i as int), b@.skip(i as int)),
        decreases left.len() - i,
    {
        assert(a@.skip(i as int).drop_first() =~= a@.skip(i + 1));
        assert(b@.skip(i as int).drop_first() =~= b@.skip(i + 1));
        i += 1;
    }
    if i >= right.len() {
        false
    } else if i >= left.len() {
        true
    } else {
        left[i] < right[i]
    }
}

/// Whether two components are the same.
fn same_part(a: &PathPart, b: &PathPart) -> (r: bool)
    ensures
        r == (a@ == b@),
{
    match (a, b) {
        (PathPart::Root, PathPart::Root) => true,
        (PathPart::Current, PathPart::Current) => true,
        (PathPart::Parent, PathPart::Parent) => true,
        (PathPart::Name(left), PathPart::Name(right)) => same_text(left.as_str(), right.as_str()),
        _ => false,
    }
}

/// Where the components of one form stand among those of the others.
fn rank_of(part: &PathPart) -> (r: u8)
    ensures
        r == rank(part@),
{
    match part {
        PathPart::Root => 0,
        PathPart::Current => 1,
        PathPart::Parent => 2,
        PathPart::Name(_) => 3,
    }
}

/// Whether one component comes before another.
fn part_is_before(a: &PathPart, b: &PathPart) -> (r: bool)
    ensures
        r == part_precedes(a@, b@),
{
    if let PathPart::Name(left) = a {
        if let PathPart::Name(right) = b {
            return text_is_before(left.as_str(), right.as_str());
        }
    }
    rank_of(a) < rank_of(b)
}

/// Whether one path comes before another, component by component.
pub fn is_before(a: &str, b: &str) -> (r: bool)
    ensures
        r == precedes(a@, b@),
{
    let left = split_path(a);
    let right = split_path(b);
    let ghost one = components(a@);
    let ghost other = components(b@);
    let mut i: usize = 0;
    assert(one.skip(0) =~= one);
    assert(other.skip(0) =~= other);
    while i < left.len() && i < right.len() && same_part(&left[i], &right[i])
        invariant
            i <= left@.len(),
            i <= right@.len(),
            part_views(left@) == one,
            part_views(right@) == other,
            parts_precede(one, other) == parts_precede(one.skip(i as int), other.skip(i as int)),
        decreases left.len() - i,
    {
        assert(one.skip(i as int).drop_first() =~= one.skip(i + 1));
        assert(other.skip(i as int).drop_first() =~= other.skip(i + 1));
        i += 1;
    }
    if i >= right.len() {
        false
    } else if i >= left.len() {
        true
    } else {
        part_is_before(&left[i], &right[i])
    }
}

/// Whether two paths have the same components, and so name the same place.
pub fn same_path(a: &str, b: &str) -> (r: bool)
    ensures
        r == (components(a@) == components(b@)),
{
    let left = split_path(a);
    let right = split_path(b);
    let ghost one = components(a@);
    let ghost other = components(b@);
    if left.len() != right.len() {
        return false;
    }
    let mut i: usize = 0;
    while i < left.len()
        invariant
            i <= left@.len(),
            left@.len() == right@.len(),
            one == components(a@),
            other == components(b@),
            part_views(left@) == one,
            part_views(right@) == other,
            forall|k: int| 0 <= k < i ==> one[k] == other[k],
        decreases left.len() - i,
    {
        assert(one[i as int] == left@[i as int]@);
        assert(other[i as int] == right@[i as int]@);
        if !same_part(&left[i], &right[i]) {
            return false;
        }
        i += 1;
    }
    assert(one =~= other);
    true
}

} // verus!
