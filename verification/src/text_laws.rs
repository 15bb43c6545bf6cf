//! What search and replacement promise of all texts.
use crate::text::{begins, inserted_at, occurs, occurs_at, replaced};
use vstd::prelude::*;

verus! {

/// No proper suffix of `b` is a prefix of it.
pub open spec fn unbordered(b: Seq<char>) -> bool {
    forall|k: int| 0 < k < b.len() ==> b.skip(k) != #[trigger] b.take(b.len() - k)
}

/// What stands in a suffix of a text stands in the text.
pub proof fn lemma_occurs_skip(s: Seq<char>, k: int, n: Seq<char>)
    requires
        0 <= k <= s.len(),
        occurs(s.skip(k), n),
    ensures
        occurs(s, n),
{
    let i = choose|i: int| occurs_at(s.skip(k), n, i);
    assert(s.subrange(k + i, k + i + n.len()) =~= s.skip(k).subrange(i, i + n.len()));
    assert(occurs_at(s, n, k + i));
}

/// Replacing what does not occur changes nothing.
pub proof fn law_replace_needs_the_pattern(s: Seq<char>, from: Seq<char>, to: Seq<char>)
    requires
        !occurs(s, from),
    ensures
        replaced(s, from, to) == s,
    decreases s.len(),
{
    if from.len() > 0 && s.len() >= from.len() {
        assert(!occurs_at(s, from, 0));
        if occurs(s.skip(1), from) {
            lemma_occurs_skip(s, 1, from);
        }
        law_replace_needs_the_pattern(s.skip(1), from, to);
        assert(seq![s[0]] + s.skip(1) =~= s);
    }
}

/// Up to the first match a replacement copies the text.
proof fn lemma_replaced_split(s: Seq<char>, a: Seq<char>, b: Seq<char>) -> (k: int)
    requires
        a.len() > 0,
    ensures
        0 <= k <= s.len(),
        ({
            ||| k == s.len() && replaced(s, a, b) == s
            ||| {
                &&& begins(s.skip(k), a)
                &&& k + a.len() <= s.len()
                &&& replaced(s, a, b) == s.take(k) + b + replaced(s.skip(k + a.len()), a, b)
            }
        }),
        k == 0 && s.len() > 0 ==> begins(s, a),
    decreases s.len(),
{
    if s.len() < a.len() {
        s.len() as int
    } else if begins(s, a) {
        assert(s.skip(0) =~= s);
        assert(s.take(0) + b + replaced(s.skip(a.len() as int), a, b) =~= b + replaced(
            s.skip(a.len() as int),
            a,
            b,
        ));
        0
    } else {
        let t = s.skip(1);
        let k = lemma_replaced_split(t, a, b);
        if k == t.len() && replaced(t, a, b) == t {
            assert(seq![s[0]] + t =~= s);
        } else {
            assert(t.skip(k) =~= s.skip(k + 1));
            assert(t.skip(k + a.len()) =~= s.skip(k + 1 + a.len()));
            assert(seq![s[0]] + (t.take(k) + b + replaced(t.skip(k + a.len()), a, b)) =~= s.take(
                k + 1,
            ) + b + replaced(s.skip(k + 1 + a.len()), a, b));
        }
        k + 1
    }
}

/// Where a text does not begin with `a`, replacing `a` by `b` brings no `b` to its
/// front.
proof fn lemma_no_new_front(s: Seq<char>, a: Seq<char>, b: Seq<char>)
    requires
        a.len() > 0,
        b.len() > 0,
        s.len() > 0,
        unbordered(b),
        !occurs(s, b),
        !begins(s, a),
    ensures
        !begins(replaced(s, a, b), b),
{
    let r = replaced(s, a, b);
    let k = lemma_replaced_split(s, a, b);
    if begins(r, b) {
        if r == s {
            assert(occurs_at(s, b, 0));
        } else if b.len() <= k {
            assert(s.subrange(0, b.len() as int) =~= r.subrange(0, b.len() as int));
            assert(occurs_at(s, b, 0));
        } else {
            assert(r.subrange(0, b.len() as int) =~= b);
            assert forall|j: int| 0 <= j < b.len() - k implies b.skip(k)[j] == b.take(
                b.len() - k,
            )[j] by {
                assert(b[k + j] == r.subrange(0, b.len() as int)[k + j]);
                assert(r[k + j] == b[j]);
            }
            assert(b.skip(k) =~= b.take(b.len() - k));
        }
    }
}

/// Replacing `a` by `b` and then `b` by `a` restores a text that held no `b`, where
/// no proper suffix of `b` is a prefix of it.
pub proof fn law_replace_back_restores(s: Seq<char>, a: Seq<char>, b: Seq<char>)
    requires
        a.len() > 0,
        b.len() > 0,
        unbordered(b),
        !occurs(s, b),
    ensures
        replaced(replaced(s, a, b), b, a) == s,
    decreases s.len(),
{
    let r = replaced(s, a, b);
    if s.len() < a.len() {
        law_replace_needs_the_pattern(s, b, a);
    } else if begins(s, a) {
        let t = s.skip(a.len() as int);
        if occurs(t, b) {
            lemma_occurs_skip(s, a.len() as int, b);
        }
        law_replace_back_restores(t, a, b);
        assert(r.subrange(0, b.len() as int) =~= b);
        assert(r.skip(b.len() as int) =~= replaced(t, a, b));
        assert(a + t =~= s) by {
            assert(s.subrange(0, a.len() as int) == a);
        }
    } else {
        let t = s.skip(1);
        if occurs(t, b) {
            lemma_occurs_skip(s, 1, b);
        }
        law_replace_back_restores(t, a, b);
        lemma_no_new_front(s, a, b);
        let k = lemma_replaced_split(s, a, b);
        assert(r.skip(1) =~= replaced(t, a, b));
        if r.len() < b.len() {
            assert(r == s);
        } else {
            assert(seq![s[0]] + t =~= s);
        }
    }
}

/// What is put into a text is there afterwards, and makes it longer by its own length.
pub proof fn law_insert_grows(s: Seq<char>, i: int, t: Seq<char>)
    requires
        0 <= i <= s.len(),
    ensures
        inserted_at(s, i, t).len() == s.len() + t.len(),
        occurs(inserted_at(s, i, t), t),
{
    let r = inserted_at(s, i, t);
    assert(r.subrange(i, i + t.len()) =~= t);
    assert(occurs_at(r, t, i));
}

/// A `from` that begins `d` characters behind the start of a `to` differs from it.
pub open spec fn clash(from: Seq<char>, to: Seq<char>, d: int) -> bool {
    exists|j: int|
        0 <= j < to.len() && d <= j < d + from.len() && #[trigger] to[j] != from[j - d]
}

/// No `from` can come to stand across a `to`, nor within it.
pub open spec fn stand_apart(from: Seq<char>, to: Seq<char>) -> bool {
    &&& from.len() > 0
    &&& to.len() > 0
    &&& forall|d: int| -from.len() < d < to.len() ==> #[trigger] clash(from, to, d)
}

/// Two texts that differ stand apart where neither has the first character of the other
/// but in front.
pub proof fn lemma_apart_by_their_fronts(from: Seq<char>, to: Seq<char>, m: int)
    requires
        0 <= m < from.len(),
        m < to.len(),
        from[m] != to[m],
        forall|k: int| 0 < k < to.len() ==> #[trigger] to[k] != from[0],
        forall|k: int| 0 < k < from.len() ==> #[trigger] from[k] != to[0],
    ensures
        stand_apart(from, to),
{
    assert forall|d: int| -from.len() < d < to.len() implies #[trigger] clash(from, to, d) by {
        let j = if d > 0 {
            d
        } else if d == 0 {
            m
        } else {
            0
        };
        assert(to[j] != from[j - d]);
    }
}

/// Two texts stand apart where each has one character at one place only, and they differ
/// where these places meet, and the rest of `to` has neither the first nor the last
/// character of `from` where it could matter.
pub proof fn lemma_apart_by_a_mark(from: Seq<char>, to: Seq<char>, a: int, b: int, m: int)
    requires
        0 <= a < from.len(),
        0 <= b < to.len(),
        forall|k: int| 0 <= k < from.len() && k != a ==> #[trigger] from[k] != to[b],
        forall|k: int| 0 <= k < b ==> #[trigger] to[k] != from[from.len() - 1],
        forall|k: int| b < k < to.len() ==> #[trigger] to[k] != from[0],
        0 <= m < to.len(),
        b - a <= m < b - a + from.len(),
        to[m] != from[m - (b - a)],
    ensures
        stand_apart(from, to),
{
    assert forall|d: int| -from.len() < d < to.len() implies #[trigger] clash(from, to, d) by {
        let j = if d > b {
            d
        } else if d + from.len() <= b {
            d + from.len() - 1
        } else if d == b - a {
            m
        } else {
            b
        };
        assert(to[j] != from[j - d]);
    }
}

/// What is replaced is gone afterwards, where no `from` can come to stand across a `to`.
pub proof fn law_replaced_text_is_gone(s: Seq<char>, from: Seq<char>, to: Seq<char>)
    requires
        stand_apart(from, to),
    ensures
        !occurs(replaced(s, from, to), from),
    decreases s.len(),
{
    let r = replaced(s, from, to);
    if s.len() >= from.len() {
        let front = begins(s, from);
        let t = if front {
            s.skip(from.len() as int)
        } else {
            s.skip(1)
        };
        let d = if front {
            to.len() as int
        } else {
            1
        };
        law_replaced_text_is_gone(t, from, to);
        let rest = replaced(t, from, to);
        let k = lemma_replaced_split(s, from, to);
        assert forall|p: int| !occurs_at(r, from, p) by {
            if occurs_at(r, from, p) {
                assert(r.subrange(p, p + from.len()) == from);
                assert forall|i: int| 0 <= i < from.len() implies #[trigger] from[i] == r[p + i] by {
                    assert(r.subrange(p, p + from.len())[i] == from[i]);
                }
                if p >= d {
                    assert(rest.subrange(p - d, p - d + from.len()) =~= from);
                    assert(occurs_at(rest, from, p - d));
                } else if front {
                    assert(clash(from, to, p));
                    let j = choose|j: int|
                        0 <= j < to.len() && p <= j < p + from.len() && #[trigger] to[j]
                            != from[j - p];
                    assert(r[p + (j - p)] == to[j]);
                } else if k < s.len() && k < from.len() {
                    assert(clash(from, to, -k));
                    let j = choose|j: int|
                        0 <= j < to.len() && -k <= j < -k + from.len() && #[trigger] to[j]
                            != from[j - (-k)];
                    assert(r[p + (j + k)] == to[j]);
                } else {
                    assert(s.subrange(0, from.len() as int) =~= from);
                }
            }
        }
    }
}

/// What replaces a text that is there is there afterwards.
pub proof fn law_replacement_is_there(s: Seq<char>, from: Seq<char>, to: Seq<char>)
    requires
        from.len() > 0,
        occurs(s, from),
    ensures
        occurs(replaced(s, from, to), to),
    decreases s.len(),
{
    let r = replaced(s, from, to);
    let i = choose|i: int| occurs_at(s, from, i);
    if begins(s, from) {
        assert(r.subrange(0, to.len() as int) =~= to);
        assert(occurs_at(r, to, 0));
    } else {
        let t = s.skip(1);
        assert(i > 0);
        assert(t.subrange(i - 1, i - 1 + from.len()) =~= s.subrange(i, i + from.len()));
        assert(occurs_at(t, from, i - 1));
        law_replacement_is_there(t, from, to);
        assert(r.skip(1) =~= replaced(t, from, to));
        lemma_occurs_skip(r, 1, to);
    }
}

/// A replacement does not bring in a text that was not there and that cannot stand
/// across what is put in.
pub proof fn law_replacement_brings_nothing_else(
    s: Seq<char>,
    from: Seq<char>,
    to: Seq<char>,
    n: Seq<char>,
)
    requires
        from.len() > 0,
        stand_apart(n, to),
        !occurs(s, n),
    ensures
        !occurs(replaced(s, from, to), n),
    decreases s.len(),
{
    let r = replaced(s, from, to);
    if s.len() >= from.len() {
        let front = begins(s, from);
        let (e, d) = if front {
            (from.len() as int, to.len() as int)
        } else {
            (1int, 1int)
        };
        let t = s.skip(e);
        if occurs(t, n) {
            lemma_occurs_skip(s, e, n);
        }
        law_replacement_brings_nothing_else(t, from, to, n);
        let rest = replaced(t, from, to);
        let k = lemma_replaced_split(s, from, to);
        assert forall|p: int| !occurs_at(r, n, p) by {
            if occurs_at(r, n, p) {
                assert(r.subrange(p, p + n.len()) == n);
                assert forall|i: int| 0 <= i < n.len() implies #[trigger] n[i] == r[p + i] by {
                    assert(r.subrange(p, p + n.len())[i] == n[i]);
                }
                if p >= d {
                    assert(rest.subrange(p - d, p - d + n.len()) =~= n);
                    assert(occurs_at(rest, n, p - d));
                } else if front {
                    assert(clash(n, to, p));
                    let j = choose|j: int|
                        0 <= j < to.len() && p <= j < p + n.len() && #[trigger] to[j] != n[j - p];
                    assert(r[p + (j - p)] == to[j]);
                } else if k < s.len() && k < n.len() {
                    assert(clash(n, to, -k));
                    let j = choose|j: int|
                        0 <= j < to.len() && -k <= j < -k + n.len() && #[trigger] to[j] != n[j - (
                        -k)];
                    assert(r[p + (j + k)] == to[j]);
                } else {
                    assert(s.subrange(0, n.len() as int) =~= n);
                    assert(occurs_at(s, n, 0));
                }
            }
        }
    }
}

/// Two texts stand apart where `from` lacks the first character of `to`, and its own first
/// two characters are nowhere together in `to`.
pub proof fn lemma_apart_by_two(from: Seq<char>, to: Seq<char>)
    requires
        from.len() > 1,
        to.len() > 0,
        forall|k: int| 0 <= k < from.len() ==> #[trigger] from[k] != to[0],
        forall|k: int| 0 < k < to.len() - 1 ==> #[trigger] to[k] != from[0] || to[k + 1] != from[1],
        to[to.len() - 1] != from[0],
    ensures
        stand_apart(from, to),
{
    assert forall|d: int| -from.len() < d < to.len() implies #[trigger] clash(from, to, d) by {
        if d <= 0 {
            assert(to[0] != from[-d]);
            assert(to[0] != from[0 - d]);
        } else if to[d] != from[0] {
            assert(to[d] != from[d - d]);
        } else {
            assert(to[d + 1] != from[d + 1 - d]);
        }
    }
}

/// A replacement leaves the front of a text alone as far as it holds nothing that begins
/// what is put in.
pub proof fn lemma_front_is_not_new(s: Seq<char>, from: Seq<char>, to: Seq<char>, n: Seq<char>)
    requires
        from.len() > 0,
        to.len() > 0,
        forall|k: int| 0 <= k < n.len() ==> #[trigger] n[k] != to[0],
        begins(replaced(s, from, to), n),
    ensures
        begins(s, n),
{
    let r = replaced(s, from, to);
    let k = lemma_replaced_split(s, from, to);
    assert(r.subrange(0, n.len() as int) =~= n);
    if r != s {
        if k < n.len() {
            assert(r[k] == to[0]);
            assert(r.subrange(0, n.len() as int)[k] == n[k]);
        }
        assert(s.subrange(0, n.len() as int) =~= n);
    }
}

/// Of two texts that stand apart each stands apart from the other.
pub proof fn lemma_apart_is_mutual(a: Seq<char>, b: Seq<char>)
    requires
        stand_apart(a, b),
    ensures
        stand_apart(b, a),
{
    assert forall|d: int| -b.len() < d < a.len() implies #[trigger] clash(b, a, d) by {
        assert(clash(a, b, -d));
        let j = choose|j: int|
            0 <= j < b.len() && -d <= j < -d + a.len() && #[trigger] b[j] != a[j - (-d)];
        assert(a[j + d] != b[j + d - d]);
    }
}

/// A replacement keeps what stands apart from what is replaced.
pub proof fn law_replacement_keeps_the_rest(
    s: Seq<char>,
    from: Seq<char>,
    to: Seq<char>,
    n: Seq<char>,
)
    requires
        stand_apart(from, n),
        occurs(s, n),
    ensures
        occurs(replaced(s, from, to), n),
    decreases s.len(),
{
    let r = replaced(s, from, to);
    let i = choose|i: int| occurs_at(s, n, i);
    assert(s.subrange(i, i + n.len()) == n);
    assert forall|k: int| 0 <= k < n.len() implies #[trigger] n[k] == s[i + k] by {
        assert(s.subrange(i, i + n.len())[k] == n[k]);
    }
    if s.len() >= from.len() {
        if begins(s, from) {
            let m = from.len() as int;
            assert(s.subrange(0, m) == from);
            if i < m {
                assert(clash(from, n, -i));
                let j = choose|j: int|
                    0 <= j < n.len() && -i <= j < -i + from.len() && #[trigger] n[j] != from[j - (
                    -i)];
                assert(s.subrange(0, m)[i + j] == from[i + j]);
            }
            let t = s.skip(m);
            assert(t.subrange(i - m, i - m + n.len()) =~= n);
            assert(occurs_at(t, n, i - m));
            law_replacement_keeps_the_rest(t, from, to, n);
            assert(r.skip(to.len() as int) =~= replaced(t, from, to));
            lemma_occurs_skip(r, to.len() as int, n);
        } else if i > 0 {
            let t = s.skip(1);
            assert(t.subrange(i - 1, i - 1 + n.len()) =~= n);
            assert(occurs_at(t, n, i - 1));
            law_replacement_keeps_the_rest(t, from, to, n);
            assert(r.skip(1) =~= replaced(t, from, to));
            lemma_occurs_skip(r, 1, n);
        } else {
            let k = lemma_replaced_split(s, from, to);
            if k < s.len() && k < n.len() {
                assert(clash(from, n, k));
                let j = choose|j: int|
                    0 <= j < n.len() && k <= j < k + from.len() && #[trigger] n[j] != from[j - k];
                assert(s.skip(k).subrange(0, from.len() as int)[j - k] == from[j - k]);
                assert(s[i + j] == n[j]);
            }
            assert(r.subrange(0, n.len() as int) =~= n);
            assert(occurs_at(r, n, 0));
        }
    }
}

/// A text that cannot overlap with itself is replaced piece by piece: what stands in front
/// of one occurrence and what stands behind it do not meet.
pub proof fn law_replacement_goes_piece_by_piece(
    a: Seq<char>,
    b: Seq<char>,
    from: Seq<char>,
    to: Seq<char>,
)
    requires
        from.len() > 0,
        forall|d: int| 0 < d < from.len() ==> #[trigger] clash(from, from, d),
    ensures
        replaced(a + from + b, from, to) == replaced(a, from, to) + to + replaced(b, from, to),
    decreases a.len(),
{
    let s = a + from + b;
    let m = from.len() as int;
    if a.len() == 0 {
        assert(s.subrange(0, m) =~= from);
        assert(s.skip(m) =~= b);
        assert(replaced(s, from, to) =~= replaced(a, from, to) + to + replaced(b, from, to));
    } else if a.len() >= m && begins(a, from) {
        assert(s.subrange(0, m) =~= a.subrange(0, m));
        assert(s.skip(m) =~= a.skip(m) + from + b);
        law_replacement_goes_piece_by_piece(a.skip(m), b, from, to);
        assert(replaced(s, from, to) =~= replaced(a, from, to) + to + replaced(b, from, to));
    } else {
        if begins(s, from) {
            assert(s.subrange(0, m) == from);
            if a.len() >= m {
                assert(a.subrange(0, m) =~= s.subrange(0, m));
            } else {
                let d = a.len() as int;
                assert(clash(from, from, d));
                let j = choose|j: int|
                    0 <= j < m && d <= j < d + m && #[trigger] from[j] != from[j - d];
                assert(s.subrange(0, m)[j] == s[j]);
                assert(s[j] == from[j - d]);
            }
        }
        assert(s.skip(1) =~= a.skip(1) + from + b);
        law_replacement_goes_piece_by_piece(a.skip(1), b, from, to);
        assert(seq![a[0]] + a.skip(1) =~= a);
        assert(replaced(s, from, to) =~= replaced(a, from, to) + to + replaced(b, from, to));
    }
}

} // verus!
