//! What the paths of a patch promise.
use crate::diff::{are_min_kdp_paths, header_path, is_extra_path, is_unsafe_path};
use crate::text::{begins, first_word, is_white, occurs, occurs_at, trimmed_start, word_len};
use vstd::prelude::*;

verus! {

/// A text without white space, and not empty.
pub open spec fn is_word(p: Seq<char>) -> bool {
    p.len() > 0 && forall|i: int| 0 <= i < p.len() ==> !is_white(#[trigger] p[i])
}

/// A word is the first word of itself, and of a text that goes on behind white space.
proof fn lemma_first_word(p: Seq<char>, rest: Seq<char>)
    requires
        is_word(p),
        rest.len() > 0 ==> is_white(rest[0]),
    ensures
        first_word(p + rest) == p,
{
    let s = p + rest;
    assert(s[0] == p[0]);
    assert(!is_white(s[0]));
    assert(trimmed_start(s) == s);
    lemma_word_len(p, rest);
    assert(s.take(p.len() as int) =~= p);
}

proof fn lemma_word_len(p: Seq<char>, rest: Seq<char>)
    requires
        forall|i: int| 0 <= i < p.len() ==> !is_white(#[trigger] p[i]),
        rest.len() > 0 ==> is_white(rest[0]),
    ensures
        word_len(p + rest) == p.len(),
    decreases p.len(),
{
    let s = p + rest;
    if p.len() == 0 {
        assert(s =~= rest);
    } else {
        let t = p.skip(1);
        assert forall|i: int| 0 <= i < t.len() implies !is_white(#[trigger] t[i]) by {
            assert(t[i] == p[i + 1]);
        }
        lemma_word_len(t, rest);
        assert(s.skip(1) =~= t + rest);
        assert(s[0] == p[0]);
    }
}

/// The header of either side of a file names the path that follows the mark of the side,
/// whatever comes behind it on the line.
pub proof fn law_headers_name_their_file(p: Seq<char>, rest: Seq<char>)
    requires
        is_word(p),
        rest.len() > 0 ==> is_white(rest[0]),
    ensures
        header_path("--- a/"@ + p + rest) == Some(p),
        header_path("+++ b/"@ + p + rest) == Some(p),
{
    reveal_strlit("--- a/");
    reveal_strlit("+++ b/");
    reveal_strlit("--- ");
    reveal_strlit("+++ ");
    reveal_strlit("a/");
    reveal_strlit("b/");
    let (x, y) = ("--- a/"@ + p + rest, "+++ b/"@ + p + rest);
    let (v, w) = ("a/"@ + p, "b/"@ + p);
    assert forall|i: int| 0 <= i < v.len() implies !is_white(#[trigger] v[i]) && !is_white(
        w[i],
    ) by {
        if i >= 2 {
            assert(v[i] == p[i - 2] && w[i] == p[i - 2]);
        }
    }
    assert forall|i: int| 0 <= i < w.len() implies !is_white(#[trigger] w[i]) by {
        assert(!is_white(v[i]));
    }
    lemma_first_word(v, rest);
    lemma_first_word(w, rest);
    assert(x.skip(4) =~= v + rest);
    assert(y.skip(4) =~= w + rest);
    assert(x.subrange(0, 4) =~= "--- "@);
    assert(y.subrange(0, 4) =~= "+++ "@);
    assert(v.subrange(0, 2) =~= "a/"@);
    assert(w.subrange(0, 2) =~= "b/"@);
    assert(v.skip(2) =~= p);
    assert(w.skip(2) =~= p);
}

/// A line that begins with neither mark names no file.
pub proof fn law_other_lines_name_no_file(line: Seq<char>)
    requires
        !begins(line, "--- "@),
        !begins(line, "+++ "@),
    ensures
        header_path(line) is None,
{
}

/// A path that begins at the root, or goes up at its front or between two of its parts, is
/// unsafe, whatever it is else.
pub proof fn law_ways_out_are_unsafe(p: Seq<char>, q: Seq<char>)
    ensures
        is_unsafe_path("/"@ + p),
        is_unsafe_path("../"@ + p),
        is_unsafe_path(p + "/../"@ + q),
        is_unsafe_path(".."@),
{
    let (a, b, c) = ("/"@ + p, "../"@ + p, p + "/../"@ + q);
    assert(a.subrange(0, "/"@.len() as int) =~= "/"@);
    assert(occurs_at(a, "/"@, 0));
    assert(b.subrange(0, "../"@.len() as int) =~= "../"@);
    assert(occurs_at(b, "../"@, 0));
    let n = p.len() as int;
    assert(c.subrange(n, n + "/../"@.len()) =~= "/../"@);
    assert(occurs_at(c, "/../"@, n));
}

/// A path that does not begin with a slash and never has two points in a row is safe.
pub proof fn law_plain_paths_are_safe(p: Seq<char>)
    requires
        p.len() > 0,
        p[0] != '/',
        !occurs(p, ".."@),
    ensures
        !is_unsafe_path(p),
{
    reveal_strlit("/");
    reveal_strlit("..");
    reveal_strlit("../");
    reveal_strlit("/../");
    reveal_strlit("/dev/null");
    if begins(p, "/"@) {
        assert(p.subrange(0, 1)[0] == '/');
    }
    if p == ".."@ {
        assert(p.subrange(0, 2) =~= ".."@);
        assert(occurs_at(p, ".."@, 0));
    }
    if begins(p, "../"@) {
        assert(p.subrange(0, 2) =~= p.subrange(0, 3).take(2));
        assert("../"@.take(2) =~= ".."@);
        assert(occurs_at(p, ".."@, 0));
    }
    if occurs(p, "/../"@) {
        let i = choose|i: int| occurs_at(p, "/../"@, i);
        assert(p.subrange(i + 1, i + 3) =~= p.subrange(i, i + 4).subrange(1, 3));
        assert("/../"@.subrange(1, 3) =~= ".."@);
        assert(occurs_at(p, ".."@, i + 1));
    }
}

/// Whatever a patch names, the list of the device, the Makefile of the drivers and the
/// source that goes there are among the files that its integration changes.
pub proof fn law_three_files_change_anyway(ps: Seq<Seq<char>>, content: Seq<char>)
    requires
        are_min_kdp_paths(ps, content),
    ensures
        ps.contains("android/abi_gki_aarch64_galaxy"@),
        ps.contains("drivers/Makefile"@),
        ps.contains("drivers/min_kdp.c"@),
{
    assert(is_extra_path("android/abi_gki_aarch64_galaxy"@));
    assert(is_extra_path("drivers/Makefile"@));
    assert(is_extra_path("drivers/min_kdp.c"@));
}

} // verus!
