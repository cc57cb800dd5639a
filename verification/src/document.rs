//! Paths into documents made of tables and arrays.

use vstd::prelude::*;
use vstd::string::*;

use crate::text::same_text;

verus! {

/// One step from a table or an array to what it holds.
#[derive(Clone, Debug, PartialEq, Eq)]
pub enum Step {
    Key(String),
    Item(usize),
}

/// The contents of a [`Step`].
pub enum StepView {
    Key(Seq<char>),
    Item(int),
}

impl View for Step {
    type V = StepView;

    open spec fn view(&self) -> StepView {
        match self {
            Step::Key(key) => StepView::Key(key@),
            Step::Item(at) => StepView::Item(*at as int),
        }
    }
}

/// The contents of each step.
pub open spec fn step_views(steps: Seq<Step>) -> Seq<StepView> {
    steps.map_values(|step: Step| step@)
}

/// Whether a step is the key `key`.
pub fn is_key(step: &Step, key: &str) -> (r: bool)
    ensures
        r == (step@ == StepView::Key(key@)),
{
    match step {
        Step::Key(text) => same_text(text.as_str(), key),
        Step::Item(_) => false,
    }
}

/// Whether two steps are the same.
pub fn same_step(a: &Step, b: &Step) -> (r: bool)
    ensures
        r == (a@ == b@),
{
    match (a, b) {
        (Step::Key(a), Step::Key(b)) => same_text(a.as_str(), b.as_str()),
        (Step::Item(a), Step::Item(b)) => *a == *b,
        _ => false,
    }
}

/// Whether two paths are the same.
pub fn same_path(a: &Vec<Step>, b: &Vec<Step>) -> (r: bool)
    ensures
        r == (step_views(a@) == step_views(b@)),
{
    let ghost left = step_views(a@);
    let ghost right = step_views(b@);
    if a.len() != b.len() {
        assert(left.len() != right.len());
        return false;
    }
    let mut i: usize = 0;
    while i < a.len()
        invariant
            i <= a@.len(),
            a@.len() == b@.len(),
            left == step_views(a@),
            right == step_views(b@),
            forall|j: int| 0 <= j < i ==> left[j] == right[j],
        decreases a.len() - i,
    {
        assert(left[i as int] == a@[i as int]@ && right[i as int] == b@[i as int]@);
        if !same_step(&a[i], &b[i]) {
            return false;
        }
        i += 1;
    }
    assert(left =~= right);
    true
}

/// The path of the whole document.
pub open spec fn root() -> Seq<StepView> {
    Seq::empty()
}

/// The path of a field.
pub open spec fn field(path: Seq<StepView>, key: Seq<char>) -> Seq<StepView> {
    path.push(StepView::Key(key))
}

/// The path of an item.
pub open spec fn item(path: Seq<StepView>, at: int) -> Seq<StepView> {
    path.push(StepView::Item(at))
}

/// The path of the whole document.
pub fn root_path() -> (path: Vec<Step>)
    ensures
        step_views(path@) == root(),
{
    let path: Vec<Step> = Vec::new();
    assert(step_views(path@) =~= root());
    path
}

/// A copy of a path.
pub fn copy_path(path: &Vec<Step>) -> (copy: Vec<Step>)
    ensures
        step_views(copy@) == step_views(path@),
{
    let ghost all = step_views(path@);
    let mut copy: Vec<Step> = Vec::new();
    let mut i: usize = 0;
    assert(step_views(copy@) =~= all.take(0));
    while i < path.len()
        invariant
            i <= path@.len(),
            all == step_views(path@),
            step_views(copy@) == all.take(i as int),
        decreases path.len() - i,
    {
        let step = match &path[i] {
            Step::Key(key) => Step::Key(key.clone()),
            Step::Item(at) => Step::Item(*at),
        };
        let ghost before = copy@;
        let ghost shown = step@;
        assert(shown == all[i as int]);
        copy.push(step);
        assert(step_views(copy@) =~= step_views(before).push(shown));
        i += 1;
        assert(all.take(i as int) =~= all.take(i - 1).push(all[i - 1]));
    }
    assert(all.take(i as int) =~= all);
    copy
}

/// The path of a field of what is at `path`.
pub fn field_path(path: Vec<Step>, key: &str) -> (longer: Vec<Step>)
    ensures
        step_views(longer@) == field(step_views(path@), key@),
{
    let mut longer = path;
    longer.push(Step::Key(key.to_owned()));
    assert(step_views(longer@) =~= field(step_views(path@), key@));
    longer
}

/// The path of an item of what is at `path`.
pub fn item_path(path: Vec<Step>, at: usize) -> (longer: Vec<Step>)
    ensures
        step_views(longer@) == item(step_views(path@), at as int),
{
    let mut longer = path;
    longer.push(Step::Item(at));
    assert(step_views(longer@) =~= item(step_views(path@), at as int));
    longer
}

} // verus!
