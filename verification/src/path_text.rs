//! Paths as text: their last names and what stands before them.

use vstd::prelude::*;
use vstd::string::*;

use crate::text::{chars_of, opt_view, same_text, text_between};

verus! {

/// A path without slashes and `.` parts at its end. The root stays.
pub open spec fn trimmed_path(path: Seq<char>) -> Seq<char>
    decreases path.len(),
{
    if path.len() > 1 && path.last() == '/' {
        trimmed_path(path.drop_last())
    } else if path.len() > 1 && path.last() == '.' && path[path.len() - 2] == '/' {
        trimmed_path(path.drop_last())
    } else {
        path
    }
}

/// The position behind the last slash.
pub open spec fn name_start(path: Seq<char>) -> int
    decreases path.len(),
{
    if path.len() == 0 {
        0
    } else if path.last() == '/' {
        path.len() as int
    } else {
        name_start(path.drop_last())
    }
}

/// The length of a path without slashes and `.` parts at its end.
pub fn trimmed_length(chars: &Vec<char>, len: usize) -> (end: usize)
    requires
        len <= chars@.len(),
    ensures
        end <= len,
        trimmed_path(chars@.take(len as int)) == chars@.take(end as int),
{
    let mut end: usize = len;
    while end > 1 && (chars[end - 1] == '/' || (chars[end - 1] == '.' && chars[end - 2] == '/'))
        invariant
            end <= len <= chars@.len(),
            trimmed_path(chars@.take(len as int)) == trimmed_path(chars@.take(end as int)),
        decreases end,
    {
        assert(chars@.take(end as int).drop_last() =~= chars@.take(end - 1));
        end -= 1;
    }
    end
}

/// The position behind the last slash of a path without slashes at its end.
pub fn find_name_start(chars: &Vec<char>, end: usize) -> (start: usize)
    requires
        end <= chars@.len(),
    ensures
        start <= end,
        start == name_start(chars@.take(end as int)),
{
    let ghost whole = chars@.take(end as int);
    let mut start: usize = end;
    assert(whole.take(end as int) =~= whole);
    while start > 0 && chars[start - 1] != '/'
        invariant
            start <= end <= chars@.len(),
            whole == chars@.take(end as int),
            name_start(whole) == name_start(whole.take(start as int)),
        decreases start,
    {
        assert(whole.take(start as int).last() == chars@[start - 1]);
        assert(whole.take(start as int).drop_last() =~= whole.take(start - 1));
        start -= 1;
    }
    proof {
        if start > 0 {
            assert(whole.take(start as int).last() == chars@[start - 1]);
        }
    }
    start
}

/// A name that stands for a place rather than for a file.
pub open spec fn place_name(name: Seq<char>) -> bool {
    name.len() == 0 || name == "."@ || name == ".."@
}

/// The last name of a path, if it has one.
pub open spec fn file_name(path: Seq<char>) -> Option<Seq<char>> {
    let whole = trimmed_path(path);
    let name = whole.skip(name_start(whole));
    if place_name(name) {
        None
    } else {
        Some(name)
    }
}

/// The last name of `path`, if it has one.
pub fn file_name_of(path: &str) -> (name: Option<String>)
    ensures
        opt_view(name) == file_name(path@),
{
    let chars = chars_of(path);
    assert(chars@.take(chars@.len() as int) =~= chars@);
    let end = trimmed_length(&chars, chars.len());
    let start = find_name_start(&chars, end);
    let name = text_between(&chars, start, end);
    assert(name@ =~= chars@.take(end as int).skip(start as int));
    if name.as_str().is_empty() || same_text(name.as_str(), ".") || same_text(name.as_str(), "..") {
        None
    } else {
        Some(name)
    }
}

} // verus!
