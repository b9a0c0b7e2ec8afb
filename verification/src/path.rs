//! Links to files: which path a target names, where the file is looked for,
//! and what the look at the file system means.
//!
//! Whether a path is absolute, and whether a file is there, is for the
//! caller to find out: the first differs from one operating system to the
//! next, and the second is a look at the file system.

use crate::check::outcome_view;
use crate::error::{LinkError, LinkErrorView};
use vstd::prelude::*;
use vstd::string::{StrSliceExecFns, StringExecFns};

verus! {

/// The position of the first `mark` in `text`, or the length of `text` where
/// it holds none.
pub open spec fn first_position(text: Seq<char>, mark: char) -> int
    decreases text.len(),
{
    if text.len() == 0 || text[0] == mark {
        0
    } else {
        1 + first_position(text.skip(1), mark)
    }
}

/// `text` up to its first `#`: a target without its fragment.
pub open spec fn without_fragment(text: Seq<char>) -> Seq<char> {
    text.take(first_position(text, '#'))
}

/// The first `mark` stands inside the text or at its end, and nothing before
/// it is a `mark`.
pub proof fn lemma_first_position(text: Seq<char>, mark: char)
    ensures
        0 <= first_position(text, mark) <= text.len(),
        first_position(text, mark) < text.len() ==> text[first_position(text, mark)] == mark,
        forall|i: int| 0 <= i < first_position(text, mark) ==> text[i] != mark,
    decreases text.len(),
{
    if text.len() != 0 && text[0] != mark {
        let rest = text.skip(1);
        lemma_first_position(rest, mark);
        assert forall|i: int| 0 <= i < first_position(text, mark) implies text[i] != mark by {
            if i > 0 {
                assert(rest[i - 1] == text[i]);
            }
        }
    }
}

/// A position that holds the mark, with none before it, is the first one.
pub proof fn lemma_first_position_is(text: Seq<char>, mark: char, at: int)
    requires
        0 <= at <= text.len(),
        at < text.len() ==> text[at] == mark,
        forall|i: int| 0 <= i < at ==> text[i] != mark,
    ensures
        first_position(text, mark) == at,
    decreases text.len(),
{
    if text.len() != 0 && text[0] != mark {
        let rest = text.skip(1);
        assert forall|i: int| 0 <= i < at - 1 implies rest[i] != mark by {
            assert(rest[i] == text[i + 1]);
        }
        lemma_first_position_is(rest, mark, at - 1);
    }
}

/// A target without its fragment holds no `#`, and a target that holds no
/// `#` stays as it is.
pub proof fn lemma_without_fragment(text: Seq<char>)
    ensures
        forall|i: int| 0 <= i < without_fragment(text).len() ==> without_fragment(text)[i] != '#',
        without_fragment(without_fragment(text)) == without_fragment(text),
        (forall|i: int| 0 <= i < text.len() ==> text[i] != '#') ==> without_fragment(text) == text,
{
    lemma_first_position(text, '#');
    let cut = without_fragment(text);
    lemma_first_position_is(cut, '#', cut.len() as int);
    assert(cut.take(cut.len() as int) =~= cut);
    if forall|i: int| 0 <= i < text.len() ==> text[i] != '#' {
        assert(text.take(text.len() as int) =~= text);
    }
}

/// Where the file of a link is looked for.
#[derive(Clone, Copy, Debug, PartialEq, Eq)]
pub enum PathRoute {
    /// Nowhere: the path is absolute, and absolute paths are not allowed.
    Refused,
    /// Under the root of the project.
    UnderRoot,
    /// Beside the document that holds the link.
    BesideFile,
}

/// Where a path is looked for: an absolute path under the root, if absolute
/// paths are allowed at all, and a relative path beside the document.
pub open spec fn path_route(is_absolute: bool, allow_absolute_paths: bool) -> PathRoute {
    if !is_absolute {
        PathRoute::BesideFile
    } else if allow_absolute_paths {
        PathRoute::UnderRoot
    } else {
        PathRoute::Refused
    }
}

/// What is wrong with a link to a path, given where it is looked for and
/// whether a file is there.
pub open spec fn path_verdict(route: PathRoute, found: bool) -> Result<(), LinkErrorView> {
    if route is Refused {
        Err(LinkErrorView::PathAbsolute)
    } else if found {
        Ok(())
    } else {
        Err(LinkErrorView::PathNonExistant)
    }
}

/// An absolute path is refused unless absolute paths are allowed, whatever
/// the file system holds. An allowed absolute path and a relative path are in
/// order just where a file is found.
pub proof fn lemma_path_verdict(is_absolute: bool, allow_absolute_paths: bool, found: bool)
    ensures
        is_absolute && !allow_absolute_paths ==> (path_verdict(
            path_route(is_absolute, allow_absolute_paths),
            found,
        ) matches Err(LinkErrorView::PathAbsolute)),
        (!is_absolute || allow_absolute_paths) && found ==> (path_verdict(
            path_route(is_absolute, allow_absolute_paths),
            found,
        ) matches Ok(_)),
        (!is_absolute || allow_absolute_paths) && !found ==> (path_verdict(
            path_route(is_absolute, allow_absolute_paths),
            found,
        ) matches Err(LinkErrorView::PathNonExistant)),
{
}

/// Says where a path is looked for.
pub fn route_path(is_absolute: bool, allow_absolute_paths: bool) -> (route: PathRoute)
    ensures
        route == path_route(is_absolute, allow_absolute_paths),
{
    if !is_absolute {
        PathRoute::BesideFile
    } else if allow_absolute_paths {
        PathRoute::UnderRoot
    } else {
        PathRoute::Refused
    }
}

/// Says what is wrong with a link to a path, if anything.
pub fn judge_path(route: PathRoute, found: bool) -> (outcome: Result<(), LinkError>)
    ensures
        outcome_view(outcome) == path_verdict(route, found),
{
    match route {
        PathRoute::Refused => Err(LinkError::PathAbsolute),
        _ => {
            if found {
                Ok(())
            } else {
                Err(LinkError::PathNonExistant)
            }
        },
    }
}

/// Cuts a target off at its first `#`.
pub fn strip_fragment(target: &str) -> (path: String)
    ensures
        path@ == without_fragment(target@),
{
    let length = target.unicode_len();
    let mut at: usize = 0;
    while at < length && target.get_char(at) != '#'
        invariant
            at <= length == target@.len(),
            forall|i: int| 0 <= i < at ==> target@[i] != '#',
        decreases length - at,
    {
        at = at + 1;
    }
    proof {
        lemma_first_position_is(target@, '#', at as int);
    }
    String::from_str(target.substring_char(0, at))
}

} // verus!
