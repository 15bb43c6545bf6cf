//! The files that a patch names.
use crate::failure::{unsafe_path_text, Failure};
use crate::lines::{char_rows, vec_bare_lines};
use crate::text::{
    bare_lines, begins, chars_of, contains, first_word, occurs, range_of, same, starts_with,
    string_of, texts, vec_occurs_at,
};
use crate::words::vec_first_word;
use vstd::prelude::*;

verus! {

// ---------------------------------------------------------------------------
// Models
// ---------------------------------------------------------------------------

/// `a` comes before `b` in the order of code points.
pub open spec fn text_less(a: Seq<char>, b: Seq<char>) -> bool
    decreases a.len(),
{
    if b.len() == 0 {
        false
    } else if a.len() == 0 {
        true
    } else if a[0] != b[0] {
        a[0] < b[0]
    } else {
        text_less(a.skip(1), b.skip(1))
    }
}

/// The texts stand in order, none twice.
pub open spec fn is_ascending(ps: Seq<Seq<char>>) -> bool {
    forall|i: int, j: int| 0 <= i < j < ps.len() ==> text_less(#[trigger] ps[i], #[trigger] ps[j])
}

/// `p` without one of the two prefixes that mark the sides of a diff.
pub open spec fn without_side(p: Seq<char>) -> Seq<char> {
    if begins(p, "a/"@) || begins(p, "b/"@) {
        p.skip(2)
    } else {
        p
    }
}

/// The path that a line of a patch names, if it is the header of a file.
pub open spec fn header_path(line: Seq<char>) -> Option<Seq<char>> {
    if begins(line, "--- "@) || begins(line, "+++ "@) {
        let path = without_side(first_word(line.skip(4)));
        if path.len() == 0 {
            None
        } else {
            Some(path)
        }
    } else {
        None
    }
}

/// One of the first `n` lines names the path.
pub open spec fn is_named(lines: Seq<Seq<char>>, n: int, path: Seq<char>) -> bool {
    exists|i: int| 0 <= i < n && header_path(#[trigger] lines[i]) == Some(path)
}

/// `ps` are the paths that a patch names, in order.
pub open spec fn are_target_paths(ps: Seq<Seq<char>>, content: Seq<char>) -> bool {
    let lines = bare_lines(content);
    &&& is_ascending(ps)
    &&& forall|p: Seq<char>| #[trigger]
        ps.contains(p) <==> is_named(lines, lines.len() as int, p)
}

/// The path leads out of the tree, or to no file of it.
pub open spec fn is_unsafe_path(p: Seq<char>) -> bool {
    ||| p == "/dev/null"@
    ||| begins(p, "/"@)
    ||| p == ".."@
    ||| begins(p, "../"@)
    ||| occurs(p, "/../"@)
}

/// One of the files that change whatever the patch names.
pub open spec fn is_extra_path(p: Seq<char>) -> bool {
    ||| p == "android/abi_gki_aarch64_galaxy"@
    ||| p == "drivers/min_kdp.c"@
    ||| p == "drivers/Makefile"@
}

/// `ps` are the paths that the integration of `min_kdp` changes, in order.
pub open spec fn are_min_kdp_paths(ps: Seq<Seq<char>>, content: Seq<char>) -> bool {
    let lines = bare_lines(content);
    &&& is_ascending(ps)
    &&& forall|p: Seq<char>| #[trigger]
        ps.contains(p) <==> is_named(lines, lines.len() as int, p) || is_extra_path(p)
}

/// `p` is the first path of the list that is unsafe.
pub open spec fn is_first_unsafe(ps: Seq<Seq<char>>, p: Seq<char>) -> bool {
    exists|k: int|
        {
            &&& 0 <= k < ps.len()
            &&& #[trigger] ps[k] == p
            &&& is_unsafe_path(p)
            &&& forall|j: int| 0 <= j < k ==> !is_unsafe_path(#[trigger] ps[j])
        }
}

// ---------------------------------------------------------------------------
// Facts about the order
// ---------------------------------------------------------------------------

/// Of two texts one comes first, or they are the same.
pub proof fn lemma_text_less_total(a: Seq<char>, b: Seq<char>)
    ensures
        text_less(a, b) || text_less(b, a) || a == b,
        !(text_less(a, b) && text_less(b, a)),
        text_less(a, b) ==> a != b,
    decreases a.len(),
{
    if a.len() == 0 || b.len() == 0 {
        if a.len() == 0 && b.len() == 0 {
            assert(a =~= b);
        }
    } else if a[0] == b[0] {
        lemma_text_less_total(a.skip(1), b.skip(1));
        if a.skip(1) == b.skip(1) {
            assert(a =~= seq![a[0]] + a.skip(1));
            assert(b =~= seq![b[0]] + b.skip(1));
        }
    }
}

/// What comes before what comes before comes before.
pub proof fn lemma_text_less_transitive(a: Seq<char>, b: Seq<char>, c: Seq<char>)
    requires
        text_less(a, b),
        text_less(b, c),
    ensures
        text_less(a, c),
    decreases a.len(),
{
    if a.len() > 0 && a[0] == b[0] && b[0] == c[0] {
        lemma_text_less_transitive(a.skip(1), b.skip(1), c.skip(1));
    }
}

// ---------------------------------------------------------------------------
// Functions
// ---------------------------------------------------------------------------

/// Tells whether `a` comes before `b`.
pub fn comes_before(a: &str, b: &str) -> (r: bool)
    ensures
        r == text_less(a@, b@),
{
    let x = chars_of(a);
    let y = chars_of(b);
    let mut i: usize = 0;
    assert(x@.skip(0) =~= x@ && y@.skip(0) =~= y@);
    while i < x.len() && i < y.len() && x[i] == y[i]
        invariant
            i <= x@.len(),
            i <= y@.len(),
            x@ == a@,
            y@ == b@,
            text_less(a@, b@) == text_less(x@.skip(i as int), y@.skip(i as int)),
        decreases x@.len() - i,
    {
        assert(x@.skip(i as int)[0] == x@[i as int] && y@.skip(i as int)[0] == y@[i as int]);
        assert(x@.skip(i as int).skip(1) =~= x@.skip(i + 1));
        assert(y@.skip(i as int).skip(1) =~= y@.skip(i + 1));
        i += 1;
    }
    if i == y.len() {
        false
    } else if i == x.len() {
        true
    } else {
        assert(x@.skip(i as int)[0] == x@[i as int] && y@.skip(i as int)[0] == y@[i as int]);
        x[i] < y[i]
    }
}

/// Puts a path into an ordered list, unless it is there.
pub fn insert_path(ps: &mut Vec<String>, p: &str)
    requires
        is_ascending(texts(old(ps)@)),
    ensures
        is_ascending(texts(final(ps)@)),
        forall|x: Seq<char>| #[trigger]
            texts(final(ps)@).contains(x) <==> texts(old(ps)@).contains(x) || x == p@,
{
    let ghost before = texts(ps@);
    let mut k: usize = 0;
    while k < ps.len() && comes_before(&ps[k], p)
        invariant
            k <= ps@.len(),
            *ps == *old(ps),
            before == texts(ps@),
            forall|j: int| 0 <= j < k ==> text_less(#[trigger] before[j], p@),
        decreases ps@.len() - k,
    {
        assert(before[k as int] == ps@[k as int]@);
        k += 1;
    }
    if k < ps.len() && same(&ps[k], p) {
        assert(before[k as int] == p@);
        assert(before.contains(p@));
        return ;
    }
    proof {
        if k < before.len() {
            assert(before[k as int] == ps@[k as int]@);
            lemma_text_less_total(before[k as int], p@);
        }
    }
    ps.insert(k, p.to_owned());
    proof {
        let after = texts(ps@);
        assert(after =~= before.insert(k as int, p@));
        assert forall|i: int, j: int| 0 <= i < j < after.len() implies text_less(
            #[trigger] after[i],
            #[trigger] after[j],
        ) by {
            if i == k {
                assert(after[j] == before[j - 1]);
                if j - 1 > k {
                    lemma_text_less_transitive(p@, before[k as int], before[j - 1]);
                }
            } else if j == k {
                assert(after[i] == before[i]);
            } else if i < k && j > k {
                assert(after[i] == before[i] && after[j] == before[j - 1]);
            } else if i > k {
                assert(after[i] == before[i - 1] && after[j] == before[j - 1]);
            } else {
                assert(after[i] == before[i] && after[j] == before[j]);
            }
        }
        assert forall|x: Seq<char>| #[trigger] after.contains(x) <==> before.contains(x) || x
            == p@ by {
            if after.contains(x) {
                let i = choose|i: int| 0 <= i < after.len() && after[i] == x;
                if i < k {
                    assert(before[i] == x);
                } else if i > k {
                    assert(before[i - 1] == x);
                }
            }
            if before.contains(x) {
                let i = choose|i: int| 0 <= i < before.len() && before[i] == x;
                if i < k {
                    assert(after[i] == x);
                } else {
                    assert(after[i + 1] == x);
                }
            }
            assert(after[k as int] == p@);
        }
    }
}

/// The path that a line of a patch names.
fn read_header(row: &Vec<char>) -> (r: Option<String>)
    ensures
        r is Some <==> header_path(row@) is Some,
        r matches Some(p) ==> header_path(row@) == Some(p@),
{
    proof {
        reveal_strlit("--- ");
        reveal_strlit("+++ ");
        reveal_strlit("a/");
        reveal_strlit("b/");
    }
    if !vec_occurs_at(row, &chars_of("--- "), 0) && !vec_occurs_at(row, &chars_of("+++ "), 0) {
        return None;
    }
    let n: usize = row.len();
    let rest = range_of(row, 4, n);
    assert(rest@ =~= row@.skip(4));
    let word = vec_first_word(&rest);
    let m: usize = word.len();
    let path = if vec_occurs_at(&word, &chars_of("a/"), 0) || vec_occurs_at(
        &word,
        &chars_of("b/"),
        0,
    ) {
        let path = range_of(&word, 2, m);
        assert(path@ =~= word@.skip(2));
        path
    } else {
        word
    };
    if path.len() == 0 {
        None
    } else {
        Some(string_of(&path))
    }
}

/// The paths in the headers of a patch, in order, none twice.
pub fn patch_target_paths(content: &str) -> (r: Vec<String>)
    ensures
        are_target_paths(texts(r@), content@),
{
    let rows = vec_bare_lines(&chars_of(content));
    let ghost lines = bare_lines(content@);
    let mut ps: Vec<String> = Vec::new();
    let mut i: usize = 0;
    while i < rows.len()
        invariant
            i <= rows@.len(),
            char_rows(rows@) == lines,
            is_ascending(texts(ps@)),
            forall|p: Seq<char>| #[trigger]
                texts(ps@).contains(p) <==> is_named(lines, i as int, p),
        decreases rows@.len() - i,
    {
        assert(lines[i as int] == rows@[i as int]@);
        let ghost before = texts(ps@);
        let found = read_header(&rows[i]);
        match &found {
            Some(p) => {
                insert_path(&mut ps, p);
            },
            None => {},
        }
        assert forall|p: Seq<char>| #[trigger] texts(ps@).contains(p) <==> is_named(
            lines,
            i + 1,
            p,
        ) by {
            assert(is_named(lines, i as int, p) <==> before.contains(p));
            if is_named(lines, i as int, p) {
                let j = choose|j: int| 0 <= j < i && header_path(#[trigger] lines[j]) == Some(p);
                assert(header_path(lines[j]) == Some(p));
            }
            if is_named(lines, i + 1, p) && !is_named(lines, i as int, p) {
                let j = choose|j: int|
                    0 <= j < i + 1 && header_path(#[trigger] lines[j]) == Some(p);
                assert(j == i);
            }
            if header_path(lines[i as int]) == Some(p) {
                assert(is_named(lines, i + 1, p));
            }
        }
        i += 1;
    }
    ps
}

/// Tells whether a path leads out of the tree, or to no file of it.
pub fn unsafe_path(p: &str) -> (r: bool)
    ensures
        r == is_unsafe_path(p@),
{
    same(p, "/dev/null") || starts_with(p, "/") || same(p, "..") || starts_with(p, "../")
        || contains(p, "/../")
}

/// The paths that the integration of `min_kdp` changes, in order. Fails where one of
/// them leads out of the tree.
pub fn min_kdp_paths(patch: &str) -> (r: Result<Vec<String>, Failure>)
    ensures
        exists|ps: Seq<Seq<char>>| #[trigger]
            are_min_kdp_paths(ps, patch@) && match r {
                Ok(v) => texts(v@) == ps && forall|i: int|
                    0 <= i < ps.len() ==> !is_unsafe_path(#[trigger] ps[i]),
                Err(e) => exists|p: Seq<char>| #[trigger]
                    is_first_unsafe(ps, p) && e@ == unsafe_path_text(p),
            },
{
    let mut ps = patch_target_paths(patch);
    insert_path(&mut ps, "android/abi_gki_aarch64_galaxy");
    insert_path(&mut ps, "drivers/min_kdp.c");
    insert_path(&mut ps, "drivers/Makefile");
    let ghost all = texts(ps@);
    assert(are_min_kdp_paths(all, patch@));
    let mut i: usize = 0;
    while i < ps.len()
        invariant
            i <= ps@.len(),
            all == texts(ps@),
            are_min_kdp_paths(all, patch@),
            forall|j: int| 0 <= j < i ==> !is_unsafe_path(#[trigger] all[j]),
        decreases ps@.len() - i,
    {
        assert(all[i as int] == ps@[i as int]@);
        if unsafe_path(&ps[i]) {
            assert(is_first_unsafe(all, all[i as int]));
            return Err(Failure::UnsafePath { path: ps[i].as_str().to_owned() });
        }
        i += 1;
    }
    Ok(ps)
}

// ---------------------------------------------------------------------------
// Laws
// ---------------------------------------------------------------------------

/// Two ordered lists of the same texts are the same list.
proof fn lemma_ascending_unique(a: Seq<Seq<char>>, b: Seq<Seq<char>>)
    requires
        is_ascending(a),
        is_ascending(b),
        forall|p: Seq<char>| #[trigger] a.contains(p) <==> b.contains(p),
    ensures
        a == b,
    decreases a.len(),
{
    if a.len() == 0 {
        if b.len() > 0 {
            assert(b.contains(b[0]));
            assert(a.contains(b[0]));
        }
        assert(a =~= b);
    } else {
        assert(a.contains(a[0]));
        assert(b.contains(a[0]));
        let j = choose|j: int| 0 <= j < b.len() && b[j] == a[0];
        assert(b.contains(b[0]));
        assert(a.contains(b[0]));
        let i = choose|i: int| 0 <= i < a.len() && a[i] == b[0];
        if j > 0 {
            assert(text_less(b[0], b[j]));
            if i > 0 {
                assert(text_less(a[0], a[i]));
            }
            lemma_text_less_total(a[0], b[0]);
        }
        assert(a[0] == b[0]);
        let (x, y) = (a.skip(1), b.skip(1));
        lemma_rest_of_ascending(a);
        lemma_rest_of_ascending(b);
        assert forall|p: Seq<char>| #[trigger] x.contains(p) <==> y.contains(p) by {
            assert(a.contains(p) <==> b.contains(p));
        }
        lemma_ascending_unique(x, y);
        assert(a =~= seq![a[0]] + x);
        assert(b =~= seq![b[0]] + y);
    }
}

/// The rest of an ordered list holds all of it but the first text.
proof fn lemma_rest_of_ascending(a: Seq<Seq<char>>)
    requires
        is_ascending(a),
        a.len() > 0,
    ensures
        is_ascending(a.skip(1)),
        forall|p: Seq<char>| #[trigger] a.skip(1).contains(p) <==> a.contains(p) && p != a[0],
{
    let x = a.skip(1);
    assert forall|i: int, j: int| 0 <= i < j < x.len() implies text_less(
        #[trigger] x[i],
        #[trigger] x[j],
    ) by {
        assert(x[i] == a[i + 1] && x[j] == a[j + 1]);
    }
    assert forall|p: Seq<char>| #[trigger] x.contains(p) <==> a.contains(p) && p != a[0] by {
        if x.contains(p) {
            let i = choose|i: int| 0 <= i < x.len() && x[i] == p;
            assert(a[i + 1] == p);
            assert(text_less(a[0], a[i + 1]));
            lemma_text_less_total(a[0], a[i + 1]);
        }
        if a.contains(p) && p != a[0] {
            let i = choose|i: int| 0 <= i < a.len() && a[i] == p;
            assert(x[i - 1] == p);
        }
    }
}

/// A patch has one list of paths.
pub proof fn law_target_paths_are_unique(a: Seq<Seq<char>>, b: Seq<Seq<char>>, content: Seq<char>)
    ensures
        are_target_paths(a, content) && are_target_paths(b, content) ==> a == b,
        are_min_kdp_paths(a, content) && are_min_kdp_paths(b, content) ==> a == b,
{
    let lines = bare_lines(content);
    if are_target_paths(a, content) && are_target_paths(b, content) {
        assert forall|p: Seq<char>| #[trigger] a.contains(p) <==> b.contains(p) by {
            assert(a.contains(p) <==> is_named(lines, lines.len() as int, p));
            assert(b.contains(p) <==> is_named(lines, lines.len() as int, p));
        }
        lemma_ascending_unique(a, b);
    }
    if are_min_kdp_paths(a, content) && are_min_kdp_paths(b, content) {
        assert forall|p: Seq<char>| #[trigger] a.contains(p) <==> b.contains(p) by {
            assert(a.contains(p) <==> is_named(lines, lines.len() as int, p) || is_extra_path(p));
            assert(b.contains(p) <==> is_named(lines, lines.len() as int, p) || is_extra_path(p));
        }
        lemma_ascending_unique(a, b);
    }
}

} // verus!
