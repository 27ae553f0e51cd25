//! Paths as texts.

use crate::text::{concat, concat3, starts_with, to_chars};
use vstd::prelude::*;

verus! {

/// A path from the root.
pub open spec fn is_absolute_path(path: Seq<char>) -> bool {
    path.len() > 0 && path[0] == '/'
}

/// A path continued by another: an absolute one takes its place, a relative one comes
/// behind it, with one slash between them.
pub open spec fn joined_path(base: Seq<char>, part: Seq<char>) -> Seq<char> {
    if is_absolute_path(part) || base.len() == 0 {
        part
    } else if base.last() == '/' {
        base + part
    } else {
        base + "/"@ + part
    }
}

/// Whether a path starts at the root.
pub fn is_absolute(path: &str) -> (r: bool)
    ensures
        r == is_absolute_path(path@),
{
    let r = starts_with(path, "/");
    proof {
        reveal_strlit("/");
        if "/"@.is_prefix_of(path@) {
            assert(path@.subrange(0, 1)[0] == '/');
        }
        if is_absolute_path(path@) {
            assert("/"@ =~= path@.subrange(0, 1));
        }
    }
    r
}

/// Continues a path by another.
pub fn join_path(base: &str, part: &str) -> (r: String)
    ensures
        r@ == joined_path(base@, part@),
{
    let chars = to_chars(base);
    if is_absolute(part) || chars.len() == 0 {
        part.to_owned()
    } else if chars[chars.len() - 1] == '/' {
        concat(base, part)
    } else {
        concat3(base, "/", part)
    }
}

/// A configured path counts from a directory, unless it is absolute.
pub open spec fn path_in(directory: Seq<char>, configured: Seq<char>) -> Seq<char> {
    if is_absolute_path(configured) {
        configured
    } else {
        joined_path(directory, configured)
    }
}

/// Resolves a configured path against a directory.
pub fn resolve_path(directory: &str, configured: &str) -> (r: String)
    ensures
        r@ == path_in(directory@, configured@),
{
    if is_absolute(configured) {
        configured.to_owned()
    } else {
        join_path(directory, configured)
    }
}

/// A path that is joined to an absolute one is absolute.
pub proof fn law_joined_path_stays_absolute(base: Seq<char>, part: Seq<char>)
    requires
        is_absolute_path(base),
    ensures
        is_absolute_path(joined_path(base, part)),
{
    reveal_strlit("/");
}

/// A relative path that is joined to another lies under it.
pub proof fn law_joined_path_lies_under(base: Seq<char>, part: Seq<char>)
    requires
        !is_absolute_path(part),
    ensures
        base.is_prefix_of(joined_path(base, part)),
{
    let whole = joined_path(base, part);
    reveal_strlit("/");
    assert(base =~= whole.subrange(0, base.len() as int));
}

/// A path that is joined to a directory stands in it: behind the directory and one
/// separator. An absolute path stands by itself, and so does one that is joined to
/// nothing.
pub proof fn law_joined_path_stands_in_its_directory(
    base: &str,
    part: &str,
    joined: String,
    resolved: String,
)
    requires
        call_ensures(join_path, (base, part), joined),
        call_ensures(resolve_path, (base, part), resolved),
    ensures
        part@.len() > 0 && part@[0] == '/' ==> joined@ == part@,
        base@.len() == 0 ==> joined@ == part@,
        base@.len() > 0 && !(part@.len() > 0 && part@[0] == '/') ==> {
            &&& base@.last() == '/' ==> joined@ == base@ + part@
            &&& base@.last() != '/' ==> joined@ == base@ + "/"@ + part@
        },
        resolved@ == joined@,
{
}

} // verus!
