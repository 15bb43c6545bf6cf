//! Splitting text into lines and putting lines together.
use crate::text::{bare, bare_lines, ends_in, joined, line_len, lemma_line_len, lines_of, range_of};
use vstd::prelude::*;

verus! {

/// The views of a vector of character vectors.
pub open spec fn char_rows(v: Seq<Vec<char>>) -> Seq<Seq<char>> {
    v.map_values(|r: Vec<char>| r@)
}

/// The index just behind the line of `v` that begins at `start`.
pub fn line_end(v: &Vec<char>, start: usize) -> (end: usize)
    requires
        start < v@.len(),
    ensures
        start < end <= v@.len(),
        end - start == line_len(v@.skip(start as int)),
{
    let mut i: usize = start;
    let ghost t = v@.skip(start as int);
    assert(t.skip(0) =~= t);
    while i < v.len()
        invariant
            start <= i <= v@.len(),
            start < v@.len(),
            t == v@.skip(start as int),
            line_len(t) == (i - start) + line_len(t.skip(i - start)),
        decreases v@.len() - i,
    {
        let ghost rest = t.skip(i - start);
        assert(rest[0] == v@[i as int]);
        if v[i] == '\n' {
            return i + 1;
        }
        assert(rest.skip(1) =~= t.skip(i + 1 - start));
        i += 1;
    }
    i
}

/// The lines of `v`, each with its line feed.
pub fn vec_lines(v: &Vec<char>) -> (r: Vec<Vec<char>>)
    ensures
        char_rows(r@) == lines_of(v@),
{
    let mut r: Vec<Vec<char>> = Vec::new();
    let mut i: usize = 0;
    assert(v@.skip(0) =~= v@);
    while i < v.len()
        invariant
            i <= v@.len(),
            lines_of(v@) == char_rows(r@) + lines_of(v@.skip(i as int)),
        decreases v@.len() - i,
    {
        let end: usize = line_end(v, i);
        let row = range_of(v, i, end);
        let ghost rest = v@.skip(i as int);
        let ghost before = char_rows(r@);
        assert(row@ =~= rest.take(line_len(rest) as int));
        assert(rest.skip(line_len(rest) as int) =~= v@.skip(end as int));
        r.push(row);
        assert(char_rows(r@) =~= before.push(row@));
        i = end;
        assert(lines_of(v@) =~= char_rows(r@) + lines_of(v@.skip(i as int)));
    }
    assert(lines_of(v@) =~= char_rows(r@));
    r
}

/// `row` without one line ending.
pub fn vec_bare(row: &Vec<char>) -> (r: Vec<char>)
    ensures
        r@ == bare(row@),
{
    let mut n: usize = row.len();
    if n > 0 && row[n - 1] == '\n' {
        n -= 1;
        if n > 0 && row[n - 1] == '\r' {
            n -= 1;
        }
    }
    let r = range_of(row, 0, n);
    assert(r@ =~= bare(row@));
    r
}

/// The lines of `v` without their line endings.
pub fn vec_bare_lines(v: &Vec<char>) -> (r: Vec<Vec<char>>)
    ensures
        char_rows(r@) == bare_lines(v@),
{
    let rows = vec_lines(v);
    let mut r: Vec<Vec<char>> = Vec::new();
    let mut i: usize = 0;
    while i < rows.len()
        invariant
            i <= rows@.len(),
            char_rows(rows@) == lines_of(v@),
            char_rows(r@) == bare_lines(v@).take(i as int),
        decreases rows@.len() - i,
    {
        let row = vec_bare(&rows[i]);
        let ghost before = char_rows(r@);
        assert(char_rows(rows@)[i as int] == rows@[i as int]@);
        r.push(row);
        i += 1;
        assert(char_rows(r@) =~= before.push(row@));
        assert(char_rows(r@) =~= bare_lines(v@).take(i as int));
    }
    assert(bare_lines(v@).take(bare_lines(v@).len() as int) =~= bare_lines(v@));
    r
}

// ---------------------------------------------------------------------------
// Facts about lines
// ---------------------------------------------------------------------------

/// `l` is one line with its line feed.
pub open spec fn is_line(l: Seq<char>) -> bool {
    &&& ends_in(l, '\n')
    &&& forall|i: int| 0 <= i < l.len() - 1 ==> l[i] != '\n'
}

/// `l` is a last line that lacks its line feed.
pub open spec fn is_open_line(l: Seq<char>) -> bool {
    &&& l.len() > 0
    &&& forall|i: int| 0 <= i < l.len() ==> l[i] != '\n'
}

/// Every element is a line; the last one may lack its line feed.
pub open spec fn are_lines(ls: Seq<Seq<char>>) -> bool {
    forall|i: int|
        0 <= i < ls.len() ==> is_line(#[trigger] ls[i]) || (i == ls.len() - 1 && is_open_line(
            ls[i],
        ))
}

/// What the first line of `s` looks like.
pub proof fn lemma_first_line(s: Seq<char>)
    requires
        s.len() > 0,
    ensures
        is_line(s.take(line_len(s) as int)) || (line_len(s) == s.len() && is_open_line(s)),
        0 < line_len(s) <= s.len(),
    decreases s.len(),
{
    lemma_line_len(s);
    let l = s.take(line_len(s) as int);
    if s[0] == '\n' {
        assert(l =~= seq!['\n']);
    } else {
        let t = s.skip(1);
        lemma_line_len(t);
        if t.len() > 0 {
            lemma_first_line(t);
            let m = t.take(line_len(t) as int);
            assert(l =~= seq![s[0]] + m);
            if is_line(m) {
                assert(l.last() == m.last());
                assert forall|i: int| 0 <= i < l.len() - 1 implies l[i] != '\n' by {
                    if i > 0 {
                        assert(m[i - 1] != '\n');
                    }
                }
            } else {
                assert forall|i: int| 0 <= i < s.len() implies s[i] != '\n' by {
                    if i > 0 {
                        assert(t[i - 1] != '\n');
                    }
                }
            }
        } else {
            assert(s =~= seq![s[0]]);
        }
    }
}

/// The lines of a text are lines.
pub proof fn lemma_lines_are_lines(s: Seq<char>)
    ensures
        are_lines(lines_of(s)),
    decreases s.len(),
{
    if s.len() > 0 {
        lemma_first_line(s);
        let n = line_len(s) as int;
        let rest = s.skip(n);
        lemma_lines_are_lines(rest);
        let ls = lines_of(s);
        assert(ls =~= seq![s.take(n)] + lines_of(rest));
        assert forall|i: int| 0 <= i < ls.len() implies is_line(#[trigger] ls[i]) || (i == ls.len()
            - 1 && is_open_line(ls[i])) by {
            if i == 0 {
                if n == s.len() {
                    assert(rest.len() == 0);
                    assert(s.take(n) =~= s);
                }
            } else {
                assert(ls[i] == lines_of(rest)[i - 1]);
            }
        }
    }
}

/// The first line of a text that begins with a given line.
pub proof fn lemma_line_len_of(l: Seq<char>, rest: Seq<char>)
    requires
        is_line(l) || (is_open_line(l) && rest.len() == 0),
    ensures
        line_len(l + rest) == l.len(),
    decreases l.len(),
{
    let s = l + rest;
    assert(s[0] == l[0]);
    if l.len() == 1 {
        if l[0] != '\n' {
            assert(s.skip(1).len() == 0);
            assert(line_len(s.skip(1)) == 0);
        }
    } else {
        assert(l[0] != '\n');
        let m = l.skip(1);
        assert(s.skip(1) =~= m + rest);
        assert(is_line(l) ==> m.last() == l.last());
        assert forall|i: int| 0 <= i < m.len() implies m[i] == l[i + 1] by {}
        lemma_line_len_of(m, rest);
    }
}

/// Taking the pieces together from the front.
pub proof fn lemma_joined_front(p: Seq<Seq<char>>)
    requires
        p.len() > 0,
    ensures
        joined(p) == p[0] + joined(p.skip(1)),
    decreases p.len(),
{
    if p.len() == 1 {
        assert(p.drop_last() =~= Seq::<Seq<char>>::empty());
        assert(p.skip(1) =~= Seq::<Seq<char>>::empty());
        assert(joined(p.skip(1)) =~= Seq::<char>::empty());
        assert(joined(p) =~= p[0] + joined(p.skip(1)));
    } else {
        lemma_joined_front(p.drop_last());
        assert(p.drop_last().skip(1) =~= p.skip(1).drop_last());
        assert(p.skip(1).last() == p.last());
        assert(joined(p) =~= p[0] + joined(p.skip(1)));
    }
}

/// Taking two runs of pieces together.
pub proof fn lemma_joined_sum(p: Seq<Seq<char>>, q: Seq<Seq<char>>)
    ensures
        joined(p + q) == joined(p) + joined(q),
    decreases q.len(),
{
    if q.len() == 0 {
        assert(p + q =~= p);
        assert(joined(p) + joined(q) =~= joined(p));
    } else {
        lemma_joined_sum(p, q.drop_last());
        assert((p + q).drop_last() =~= p + q.drop_last());
        assert(joined(p + q) =~= joined(p) + joined(q));
    }
}

/// The lines of a text make up the text.
pub proof fn lemma_lines_joined(s: Seq<char>)
    ensures
        joined(lines_of(s)) == s,
    decreases s.len(),
{
    if s.len() > 0 {
        lemma_line_len(s);
        let n = line_len(s) as int;
        lemma_lines_joined(s.skip(n));
        let ls = lines_of(s);
        lemma_joined_front(ls);
        assert(ls.skip(1) =~= lines_of(s.skip(n)));
        assert(s.take(n) + s.skip(n) =~= s);
    }
}

/// Splitting what lines make up gives the lines back.
pub proof fn lemma_joined_lines(ls: Seq<Seq<char>>)
    requires
        are_lines(ls),
    ensures
        lines_of(joined(ls)) == ls,
    decreases ls.len(),
{
    if ls.len() == 0 {
        assert(lines_of(joined(ls)) =~= ls);
    } else {
        lemma_joined_front(ls);
        let rest = ls.skip(1);
        assert forall|i: int| 0 <= i < rest.len() implies is_line(#[trigger] rest[i]) || (i
            == rest.len() - 1 && is_open_line(rest[i])) by {
            assert(rest[i] == ls[i + 1]);
        }
        lemma_joined_lines(rest);
        let s = joined(ls);
        if ls.len() == 1 {
            assert(rest =~= Seq::<Seq<char>>::empty());
        }
        lemma_line_len_of(ls[0], joined(rest));
        assert(s.take(ls[0].len() as int) =~= ls[0]);
        assert(s.skip(ls[0].len() as int) =~= joined(rest));
        assert(lines_of(s) =~= seq![ls[0]] + rest);
        assert(seq![ls[0]] + rest =~= ls);
    }
}

/// A text in front of which a whole number of lines stands.
pub proof fn lemma_lines_of_sum(a: Seq<char>, b: Seq<char>)
    requires
        a.len() == 0 || ends_in(a, '\n'),
    ensures
        lines_of(a + b) == lines_of(a) + lines_of(b),
    decreases a.len(),
{
    if a.len() == 0 {
        assert(a + b =~= b);
        assert(lines_of(a) + lines_of(b) =~= lines_of(b));
    } else {
        lemma_first_line(a);
        let n = line_len(a) as int;
        let l = a.take(n);
        let rest = a.skip(n);
        if n == a.len() && is_open_line(a) {
            assert(a[a.len() - 1] != '\n');
        }
        assert(a + b =~= l + (rest + b));
        lemma_line_len_of(l, rest + b);
        assert((a + b).take(n) =~= l);
        assert((a + b).skip(n) =~= rest + b);
        if rest.len() > 0 {
            assert(rest.last() == a.last());
        }
        lemma_lines_of_sum(rest, b);
        assert(lines_of(a + b) =~= lines_of(a) + lines_of(b));
    }
}

} // verus!
