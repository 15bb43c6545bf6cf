//! File paths as texts.
use crate::text::{chars_of, ends_in, range_of, string_of};
use crate::words::{cat2, cat3};
use vstd::prelude::*;

verus! {

/// `rel` seen from `base`: `rel` itself where it is absolute or `base` is empty, else
/// the two with one slash between them.
pub open spec fn joined_path(base: Seq<char>, rel: Seq<char>) -> Seq<char> {
    if base.len() == 0 || (rel.len() > 0 && rel[0] == '/') {
        rel
    } else if ends_in(base, '/') {
        base + rel
    } else {
        base + "/"@ + rel
    }
}

/// Joins two paths.
pub fn path_join(base: &str, rel: &str) -> (r: String)
    ensures
        r@ == joined_path(base@, rel@),
{
    let b = chars_of(base);
    let e = chars_of(rel);
    let n: usize = b.len();
    if n == 0 || (e.len() > 0 && e[0] == '/') {
        rel.to_owned()
    } else if b[n - 1] == '/' {
        cat2(base, rel)
    } else {
        cat3(base, "/", rel)
    }
}

/// What stands before the last slash, nothing where there is none.
pub open spec fn parent_of(p: Seq<char>) -> Seq<char>
    decreases p.len(),
{
    if p.len() == 0 {
        p
    } else if p.last() == '/' {
        p.drop_last()
    } else {
        parent_of(p.drop_last())
    }
}

/// What stands before the last slash.
pub fn path_parent(p: &str) -> (r: String)
    ensures
        r@ == parent_of(p@),
{
    let v = chars_of(p);
    let mut n: usize = v.len();
    assert(v@.take(n as int) =~= v@);
    while n > 0
        invariant
            n <= v@.len(),
            v@ == p@,
            parent_of(v@) == parent_of(v@.take(n as int)),
        decreases n,
    {
        assert(v@.take(n as int).drop_last() =~= v@.take(n - 1));
        if v[n - 1] == '/' {
            let front = range_of(&v, 0, n - 1);
            assert(front@ =~= v@.take(n - 1));
            return string_of(&front);
        }
        n -= 1;
    }
    assert(v@.take(0) =~= Seq::<char>::empty());
    String::new()
}

/// A path is absolute.
pub open spec fn is_absolute(p: Seq<char>) -> bool {
    p.len() > 0 && p[0] == '/'
}

/// A directory that is seen from an absolute one is absolute, and so is a file in it: they
/// are the same from wherever a command runs.
pub proof fn law_absolute_paths_are_the_same_everywhere(
    cwd: Seq<char>,
    dir: Seq<char>,
    name: Seq<char>,
    elsewhere: Seq<char>,
)
    requires
        is_absolute(cwd),
    ensures
        is_absolute(joined_path(cwd, dir)),
        joined_path(elsewhere, joined_path(joined_path(cwd, dir), name)) == joined_path(
            joined_path(cwd, dir),
            name,
        ),
{
}

} // verus!
