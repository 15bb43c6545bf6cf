//! What the line edits promise of all texts.
use crate::lines::{
    are_lines, is_line, is_open_line, lemma_first_line, lemma_joined_lines, lemma_joined_sum,
    lemma_lines_are_lines, lemma_lines_joined, lemma_lines_of_sum,
};
use crate::sed::{
    appended, closed_text, deleted_exact, inserted_after, inserted_before, line_after, line_then,
    other_line, terminated, without_last_line,
};
use crate::text::{chomped, ends_in, joined, line_len, lines_of, occurs, occurs_at};
use vstd::prelude::*;

verus! {

/// `x` can stand as the content of one line.
pub open spec fn is_line_content(x: Seq<char>) -> bool {
    &&& forall|i: int| 0 <= i < x.len() ==> x[i] != '\n'
    &&& !ends_in(x, '\r')
}

/// No line of `content` is exactly `x`.
pub open spec fn no_line_is(content: Seq<char>, x: Seq<char>) -> bool {
    forall|i: int| 0 <= i < lines_of(content).len() ==> chomped(#[trigger] lines_of(content)[i]) != x
}

/// Every element is a line with its line feed.
spec fn all_closed(ls: Seq<Seq<char>>) -> bool {
    forall|i: int| 0 <= i < ls.len() ==> is_line(#[trigger] ls[i])
}

proof fn lemma_lines_but_last_closed(ls: Seq<Seq<char>>)
    requires
        are_lines(ls),
        ls.len() > 0,
    ensures
        all_closed(ls.drop_last()),
{
    assert forall|i: int| 0 <= i < ls.drop_last().len() implies is_line(
        #[trigger] ls.drop_last()[i],
    ) by {
        assert(ls.drop_last()[i] == ls[i]);
    }
}

proof fn lemma_closed_then_last(ls: Seq<Seq<char>>, l: Seq<char>)
    requires
        all_closed(ls),
        is_line(l) || is_open_line(l),
    ensures
        are_lines(ls.push(l)),
{
    let r = ls.push(l);
    assert forall|i: int| 0 <= i < r.len() implies is_line(#[trigger] r[i]) || (i == r.len() - 1
        && is_open_line(r[i])) by {
        if i < ls.len() {
            assert(r[i] == ls[i]);
        }
    }
}

proof fn lemma_filter_closed(ls: Seq<Seq<char>>, keep: spec_fn(Seq<char>) -> bool)
    requires
        all_closed(ls),
    ensures
        all_closed(ls.filter(keep)),
    decreases ls.len(),
{
    reveal(Seq::filter);
    if ls.len() > 0 {
        assert(all_closed(ls.drop_last())) by {
            assert forall|i: int| 0 <= i < ls.drop_last().len() implies is_line(
                #[trigger] ls.drop_last()[i],
            ) by {
                assert(ls.drop_last()[i] == ls[i]);
            }
        }
        lemma_filter_closed(ls.drop_last(), keep);
        assert(ls.last() == ls[ls.len() - 1]);
    }
}

proof fn lemma_filter_lines(ls: Seq<Seq<char>>, keep: spec_fn(Seq<char>) -> bool)
    requires
        are_lines(ls),
    ensures
        are_lines(ls.filter(keep)),
{
    reveal(Seq::filter);
    if ls.len() > 0 {
        lemma_lines_but_last_closed(ls);
        lemma_filter_closed(ls.drop_last(), keep);
        assert(ls.last() == ls[ls.len() - 1]);
        lemma_closed_then_last(ls.drop_last().filter(keep), ls.last());
    }
}

proof fn lemma_filter_all(ls: Seq<Seq<char>>, keep: spec_fn(Seq<char>) -> bool)
    requires
        forall|i: int| 0 <= i < ls.len() ==> keep(#[trigger] ls[i]),
    ensures
        ls.filter(keep) == ls,
    decreases ls.len(),
{
    reveal(Seq::filter);
    if ls.len() > 0 {
        assert forall|i: int| 0 <= i < ls.drop_last().len() implies keep(
            #[trigger] ls.drop_last()[i],
        ) by {
            assert(ls.drop_last()[i] == ls[i]);
        }
        lemma_filter_all(ls.drop_last(), keep);
        assert(keep(ls[ls.len() - 1]));
        assert(ls.drop_last().push(ls.last()) =~= ls);
    } else {
        assert(ls.filter(keep) =~= ls);
    }
}

proof fn lemma_filter_kept(ls: Seq<Seq<char>>, keep: spec_fn(Seq<char>) -> bool)
    ensures
        forall|i: int| 0 <= i < ls.filter(keep).len() ==> keep(#[trigger] ls.filter(keep)[i]),
    decreases ls.len(),
{
    reveal(Seq::filter);
    if ls.len() > 0 {
        lemma_filter_kept(ls.drop_last(), keep);
        let f = ls.drop_last().filter(keep);
        assert forall|i: int| 0 <= i < ls.filter(keep).len() implies keep(
            #[trigger] ls.filter(keep)[i],
        ) by {
            if i < f.len() {
                assert(ls.filter(keep)[i] == f[i]);
            }
        }
    }
}

proof fn lemma_filter_sum(
    a: Seq<Seq<char>>,
    b: Seq<Seq<char>>,
    keep: spec_fn(Seq<char>) -> bool,
)
    ensures
        (a + b).filter(keep) == a.filter(keep) + b.filter(keep),
    decreases b.len(),
{
    reveal(Seq::filter);
    if b.len() == 0 {
        assert(a + b =~= a);
        assert(a.filter(keep) + b.filter(keep) =~= a.filter(keep));
    } else {
        lemma_filter_sum(a, b.drop_last(), keep);
        assert((a + b).drop_last() =~= a + b.drop_last());
        assert((a + b).filter(keep) =~= a.filter(keep) + b.filter(keep));
    }
}

/// Chomping the line `x` gives `x` back.
pub proof fn lemma_chomped_line(x: Seq<char>)
    requires
        is_line_content(x),
    ensures
        chomped(x.push('\n')) == x,
        is_line(x.push('\n')),
        terminated(x) == x.push('\n'),
{
    let l = x.push('\n');
    assert(l.drop_last() =~= x);
    assert(l.last() == '\n');
    if x.len() > 0 {
        assert(x[x.len() - 1] != '\n');
    }
    assert(chomped(x) == x);
}

/// The lines of `ls`, with the line `t` behind each one that contains `needle`.
spec fn expanded(ls: Seq<Seq<char>>, needle: Seq<char>, t: Seq<char>) -> Seq<Seq<char>>
    decreases ls.len(),
{
    if ls.len() == 0 {
        seq![]
    } else {
        let front = expanded(ls.drop_last(), needle, t);
        if occurs(ls.last(), needle) {
            front + seq![ls.last(), t]
        } else {
            front + seq![ls.last()]
        }
    }
}

proof fn lemma_joined_two(a: Seq<char>, b: Seq<char>)
    ensures
        joined(seq![a, b]) == a + b,
        joined(seq![a]) == a,
{
    assert(seq![a].drop_last() =~= Seq::<Seq<char>>::empty());
    assert(joined(seq![a].drop_last()) =~= Seq::<char>::empty());
    assert(joined(seq![a]) =~= a);
    assert(seq![a, b].drop_last() =~= seq![a]);
    assert(joined(seq![a, b]) =~= a + b);
}

proof fn lemma_expanded(ls: Seq<Seq<char>>, needle: Seq<char>, x: Seq<char>)
    requires
        all_closed(ls),
        is_line_content(x),
        forall|i: int| 0 <= i < ls.len() ==> chomped(#[trigger] ls[i]) != x,
    ensures
        all_closed(expanded(ls, needle, x.push('\n'))),
        expanded(ls, needle, x.push('\n')).filter(other_line(x)) == ls,
        joined(expanded(ls, needle, x.push('\n'))) == joined(
            ls.map_values(|l: Seq<char>| line_then(l, needle, x)),
        ),
    decreases ls.len(),
{
    let t = x.push('\n');
    let keep = other_line(x);
    let mapped = ls.map_values(|l: Seq<char>| line_then(l, needle, x));
    lemma_chomped_line(x);
    reveal(Seq::filter);
    if ls.len() == 0 {
        assert(expanded(ls, needle, t).filter(keep) =~= ls);
        assert(mapped =~= Seq::<Seq<char>>::empty());
    } else {
        let d = ls.drop_last();
        let last = ls.last();
        assert forall|i: int| 0 <= i < d.len() implies is_line(#[trigger] d[i]) && chomped(d[i])
            != x by {
            assert(d[i] == ls[i]);
        }
        lemma_expanded(d, needle, x);
        let front = expanded(d, needle, t);
        assert(last == ls[ls.len() - 1]);
        let e = expanded(ls, needle, t);
        let back = if occurs(last, needle) {
            seq![last, t]
        } else {
            seq![last]
        };
        assert(e == front + back);
        assert forall|i: int| 0 <= i < e.len() implies is_line(#[trigger] e[i]) by {
            if i < front.len() {
                assert(e[i] == front[i]);
            }
        }
        lemma_filter_sum(front, back, keep);
        assert(seq![last].drop_last() =~= Seq::<Seq<char>>::empty());
        assert(seq![last].filter(keep) =~= seq![last]);
        assert(seq![last, t].drop_last() =~= seq![last]);
        assert(back.filter(keep) =~= seq![last]);
        assert(d + seq![last] =~= ls);
        lemma_joined_sum(front, back);
        lemma_joined_two(last, t);
        assert(mapped.drop_last() =~= d.map_values(|l: Seq<char>| line_then(l, needle, x)));
        assert(joined(e) =~= joined(mapped));
    }
}

/// A text whose last line lacks its line feed, with that line feed.
pub proof fn lemma_lines_with_end(content: Seq<char>)
    requires
        content.len() > 0,
        !ends_in(content, '\n'),
    ensures
        lines_of(content).len() > 0,
        is_open_line(lines_of(content).last()),
        lines_of(content.push('\n')) == lines_of(content).drop_last().push(
            lines_of(content).last().push('\n'),
        ),
{
    let ls = lines_of(content);
    lemma_lines_are_lines(content);
    lemma_lines_joined(content);
    if ls.len() == 0 {
        assert(joined(ls).len() == 0);
    }
    let last = ls.last();
    assert(last == ls[ls.len() - 1]);
    assert(joined(ls).last() == last.last());
    assert(is_open_line(last));
    lemma_lines_but_last_closed(ls);
    let us = ls.drop_last().push(last.push('\n'));
    assert(is_line(last.push('\n')));
    lemma_closed_then_last(ls.drop_last(), last.push('\n'));
    lemma_joined_lines(us);
    assert(us.drop_last() =~= ls.drop_last());
    assert(joined(us) =~= content.push('\n'));
}

/// What stands in a line stands in it with its line feed too, and the other way round
/// where no line feed is looked for.
proof fn lemma_occurs_with_end(l: Seq<char>, n: Seq<char>)
    ensures
        occurs(l, n) ==> occurs(l.push('\n'), n),
        is_line_content(n) && occurs(l.push('\n'), n) ==> occurs(l, n),
{
    let m = l.push('\n');
    if occurs(l, n) {
        let i = choose|i: int| occurs_at(l, n, i);
        assert(m.subrange(i, i + n.len()) =~= l.subrange(i, i + n.len()));
        assert(occurs_at(m, n, i));
    }
    if is_line_content(n) && occurs(m, n) {
        let i = choose|i: int| occurs_at(m, n, i);
        if n.len() == 0 {
            assert(l.subrange(0, 0) =~= n);
            assert(occurs_at(l, n, 0));
        } else {
            assert(m.subrange(i, i + n.len())[n.len() - 1] == n[n.len() - 1]);
            assert(m[i + n.len() - 1] != '\n');
            assert(l.subrange(i, i + n.len()) =~= m.subrange(i, i + n.len()));
            assert(occurs_at(l, n, i));
        }
    }
}

/// Whether a last line has its line feed makes no difference to an insertion behind it.
proof fn lemma_insert_after_open_end(content: Seq<char>, needle: Seq<char>, x: Seq<char>)
    requires
        !closed_at(content, needle),
    ensures
        inserted_after(content, needle, x) == inserted_after(content.push('\n'), needle, x),
{
    let f = |l: Seq<char>| line_then(l, needle, x);
    let ls = lines_of(content);
    lemma_lines_with_end(content);
    let us = lines_of(content.push('\n'));
    let last = ls.last();
    lemma_occurs_with_end(last, needle);
    assert(us.last() == last.push('\n'));
    assert(us.map_values(f).drop_last() =~= ls.map_values(f).drop_last());
    assert(us.map_values(f).last() == f(last.push('\n')));
    assert(ls.map_values(f).last() == f(last));
    assert(!ends_in(last, '\n'));
    assert(us.map_values(f) =~= ls.map_values(f));
}

/// A line feed at the end of a text makes no line of it another.
pub proof fn lemma_no_line_with_end(content: Seq<char>, x: Seq<char>)
    requires
        no_line_is(content, x),
        content.len() > 0,
        !ends_in(content, '\n'),
    ensures
        no_line_is(content.push('\n'), x),
{
    let ls = lines_of(content);
    lemma_lines_with_end(content);
    let us = lines_of(content.push('\n'));
    assert forall|i: int| 0 <= i < us.len() implies chomped(#[trigger] us[i]) != x by {
        assert(chomped(ls[i]) != x);
        if i == us.len() - 1 {
            assert(us[i].drop_last() =~= ls[i]);
        }
    }
}

/// `content` with a line feed behind a last line that contains `needle` and lacks it.
pub open spec fn ended_at(content: Seq<char>, needle: Seq<char>) -> Seq<char> {
    if closed_at(content, needle) {
        content
    } else {
        content.push('\n')
    }
}

/// Deleting the line that an insertion put behind the lines with `needle` restores
/// the text, unless the text held such a line before. A last line that contains `needle`
/// keeps the line feed that it got.
pub proof fn law_delete_undoes_insert_after(content: Seq<char>, needle: Seq<char>, x: Seq<char>)
    requires
        is_line_content(x),
        no_line_is(content, x),
    ensures
        deleted_exact(inserted_after(content, needle, x), x) == ended_at(content, needle),
{
    if closed_at(content, needle) {
        lemma_delete_undoes_closed_insert(content, needle, x);
    } else {
        lemma_insert_after_open_end(content, needle, x);
        lemma_no_line_with_end(content, x);
        lemma_delete_undoes_closed_insert(content.push('\n'), needle, x);
    }
}

/// Deleting undoes inserting where no line needs a line feed first.
proof fn lemma_delete_undoes_closed_insert(content: Seq<char>, needle: Seq<char>, x: Seq<char>)
    requires
        is_line_content(x),
        no_line_is(content, x),
        closed_at(content, needle),
    ensures
        deleted_exact(inserted_after(content, needle, x), x) == content,
{
    let ls = lines_of(content);
    let t = x.push('\n');
    let keep = other_line(x);
    lemma_lines_are_lines(content);
    lemma_lines_joined(content);
    lemma_chomped_line(x);
    let f = |l: Seq<char>| line_then(l, needle, x);
    if ls.len() == 0 {
        assert(ls.map_values(f) =~= ls);
        reveal(Seq::filter);
        assert(ls.filter(keep) =~= ls);
    } else {
        let d = ls.drop_last();
        let last = ls.last();
        assert(last == ls[ls.len() - 1]);
        lemma_lines_but_last_closed(ls);
        assert forall|i: int| 0 <= i < d.len() implies chomped(#[trigger] d[i]) != x by {
            assert(d[i] == ls[i]);
        }
        assert(joined(ls).last() == last.last());
        if occurs(last, needle) {
            assert(is_line(last));
        }
        if is_line(last) {
            assert(all_closed(ls)) by {
                assert forall|i: int| 0 <= i < ls.len() implies is_line(#[trigger] ls[i]) by {
                    if i < d.len() {
                        assert(ls[i] == d[i]);
                    }
                }
            }
            lemma_expanded(ls, needle, x);
            lemma_joined_lines(expanded(ls, needle, t));
        } else {
            lemma_expanded(d, needle, x);
            let front = expanded(d, needle, t);
            let e = front.push(last);
            lemma_closed_then_last(front, last);
            lemma_joined_lines(e);
            assert(e.drop_last() =~= front);
            assert(ls.map_values(f).drop_last() =~= d.map_values(f));
            assert(joined(e) =~= joined(ls.map_values(f)));
            reveal(Seq::filter);
            assert(d.push(last) =~= ls);
        }
    }
}

/// The last line of `content` does not contain `needle`, or has its line feed.
pub open spec fn closed_at(content: Seq<char>, needle: Seq<char>) -> bool {
    content.len() == 0 || ends_in(content, '\n') || !occurs(lines_of(content).last(), needle)
}

/// An insertion behind lines leaves a last line alone that lacks its line feed, unless it
/// is inserted behind that line.
pub proof fn lemma_insert_after_keeps_end(
    content: Seq<char>,
    needle: Seq<char>,
    x: Seq<char>,
    other: Seq<char>,
)
    requires
        is_line_content(x),
        is_line_content(needle),
    ensures
        closed_at(inserted_after(content, needle, x), other) <==> closed_at(
            ended_at(content, needle),
            other,
        ),
        !closed_at(inserted_after(content, needle, x), other) ==> inserted_after(
            content,
            needle,
            x,
        ).push('\n') == inserted_after(content.push('\n'), needle, x),
{
    let ls = lines_of(content);
    let f = |l: Seq<char>| line_then(l, needle, x);
    let out = inserted_after(content, needle, x);
    let mapped = ls.map_values(f);
    lemma_lines_are_lines(content);
    lemma_lines_joined(content);
    lemma_chomped_line(x);
    if ls.len() == 0 {
        assert(mapped =~= ls);
    } else {
        let d = ls.drop_last();
        let last = ls.last();
        assert(joined(ls).last() == last.last());
        assert(mapped.last() == f(last));
        if ends_in(content, '\n') || occurs(last, needle) {
            assert(out.last() == '\n');
        } else {
            assert(last == ls[ls.len() - 1]);
            assert(is_open_line(last));
            lemma_lines_but_last_closed(ls);
            lemma_mapped_is_closed(d, needle, x);
            let front = joined(d.map_values(f));
            assert(mapped.drop_last() =~= d.map_values(f));
            assert(out == front + last);
            lemma_lines_of_sum(front, last);
            assert(are_lines(seq![last]));
            lemma_joined_lines(seq![last]);
            lemma_joined_two(last, last);
            assert(lines_of(out).last() == last);
            lemma_lines_with_end(content);
            lemma_occurs_with_end(last, needle);
            let us = lines_of(content.push('\n'));
            assert(us.map_values(f).drop_last() =~= d.map_values(f));
            assert(us.map_values(f).last() == last.push('\n'));
            assert(out.push('\n') =~= front + last.push('\n'));
        }
    }
}

/// What lines with their line feeds become ends in a line feed.
proof fn lemma_mapped_is_closed(ls: Seq<Seq<char>>, needle: Seq<char>, x: Seq<char>)
    requires
        all_closed(ls),
        is_line_content(x),
    ensures
        ({
            let out = joined(ls.map_values(|l: Seq<char>| line_then(l, needle, x)));
            out.len() == 0 || ends_in(out, '\n')
        }),
{
    let f = |l: Seq<char>| line_then(l, needle, x);
    lemma_chomped_line(x);
    if ls.len() > 0 {
        let last = ls.last();
        assert(last == ls[ls.len() - 1]);
        assert(ls.map_values(f).last() == f(last));
        assert(f(last).len() > 0 && f(last).last() == '\n');
    }
}

/// An insertion brings in no other line than the one that it inserts.
pub proof fn lemma_insert_after_brings_one_line(
    content: Seq<char>,
    needle: Seq<char>,
    x: Seq<char>,
    y: Seq<char>,
)
    requires
        is_line_content(x),
        no_line_is(content, x),
        no_line_is(content, y),
        x != y,
    ensures
        no_line_is(inserted_after(content, needle, x), y),
{
    let out = inserted_after(content, needle, x);
    let keep = other_line(x);
    let base = ended_at(content, needle);
    law_delete_undoes_insert_after(content, needle, x);
    law_deleted_line_is_gone(out, x);
    assert(lines_of(out).filter(keep) == lines_of(base));
    if !closed_at(content, needle) {
        lemma_no_line_with_end(content, y);
    }
    assert forall|i: int| 0 <= i < lines_of(out).len() implies chomped(#[trigger] lines_of(out)[i])
        != y by {
        let l = lines_of(out)[i];
        if chomped(l) == y {
            assert(keep(l));
            lemma_filter_has(lines_of(out), keep, i);
            let j = choose|j: int| 0 <= j < lines_of(base).len() && lines_of(base)[j] == l;
            assert(chomped(lines_of(base)[j]) != y);
        }
    }
}

/// What is kept is there.
proof fn lemma_filter_has(ls: Seq<Seq<char>>, keep: spec_fn(Seq<char>) -> bool, i: int)
    requires
        0 <= i < ls.len(),
        keep(ls[i]),
    ensures
        exists|j: int| 0 <= j < ls.filter(keep).len() && #[trigger] ls.filter(keep)[j] == ls[i],
    decreases ls.len(),
{
    reveal(Seq::filter);
    let d = ls.drop_last();
    if i == ls.len() - 1 {
        assert(ls.filter(keep)[d.filter(keep).len() as int] == ls[i]);
    } else {
        assert(d[i] == ls[i]);
        lemma_filter_has(d, keep, i);
        let j = choose|j: int| 0 <= j < d.filter(keep).len() && #[trigger] d.filter(keep)[j]
            == d[i];
        assert(ls.filter(keep)[j] == ls[i]);
    }
}

/// Two filters can be applied in either order.
proof fn lemma_filters_commute(
    ls: Seq<Seq<char>>,
    f: spec_fn(Seq<char>) -> bool,
    g: spec_fn(Seq<char>) -> bool,
)
    ensures
        ls.filter(f).filter(g) == ls.filter(g).filter(f),
    decreases ls.len(),
{
    reveal(Seq::filter);
    if ls.len() > 0 {
        let d = ls.drop_last();
        let l = ls.last();
        lemma_filters_commute(d, f, g);
        let (a, b) = (d.filter(f), d.filter(g));
        assert(a.push(l).drop_last() =~= a);
        assert(b.push(l).drop_last() =~= b);
    }
}

/// Two lines can be deleted in either order.
pub proof fn law_deletions_commute(content: Seq<char>, x: Seq<char>, y: Seq<char>)
    ensures
        deleted_exact(deleted_exact(content, x), y) == deleted_exact(
            deleted_exact(content, y),
            x,
        ),
{
    law_deleted_line_is_gone(content, x);
    law_deleted_line_is_gone(content, y);
    lemma_filters_commute(lines_of(content), other_line(x), other_line(y));
}

/// The line `x` stands behind every line that contains `needle`, with a plain line feed,
/// and nowhere else.
pub open spec fn stands_behind(ls: Seq<Seq<char>>, needle: Seq<char>, x: Seq<char>) -> bool {
    &&& forall|i: int|
        0 <= i < ls.len() ==> (chomped(#[trigger] ls[i]) == x <==> i > 0 && occurs(
            ls[i - 1],
            needle,
        ))
    &&& forall|i: int| 0 <= i < ls.len() && chomped(#[trigger] ls[i]) == x ==> ls[i] == x.push('\n')
    &&& ls.len() > 0 ==> !occurs(ls.last(), needle)
}

proof fn lemma_insert_undoes_delete(ls: Seq<Seq<char>>, needle: Seq<char>, x: Seq<char>)
    requires
        are_lines(ls),
        is_line_content(x),
        !occurs(x.push('\n'), needle),
        stands_behind(ls, needle, x),
    ensures
        joined(
            ls.filter(other_line(x)).map_values(|l: Seq<char>| line_then(l, needle, x)),
        ) == joined(ls),
    decreases ls.len(),
{
    let f = |l: Seq<char>| line_then(l, needle, x);
    let keep = other_line(x);
    reveal(Seq::filter);
    lemma_chomped_line(x);
    if ls.len() == 0 {
        assert(ls.filter(keep).map_values(f) =~= ls);
    } else {
        let d = ls.drop_last();
        let n = ls.len() as int;
        let last = ls.last();
        assert(last == ls[n - 1]);
        if chomped(last) == x {
            let l = ls[n - 2];
            assert(is_line(l));
            assert(l == d.last());
            let e = d.drop_last();
            assert(chomped(l) != x);
            assert forall|i: int| 0 <= i < e.len() implies e[i] == #[trigger] ls[i] by {}
            if e.len() > 0 {
                assert(e.last() == ls[n - 3]);
            }
            lemma_insert_undoes_delete(e, needle, x);
            assert(d.filter(keep) == e.filter(keep).push(l));
            assert(ls.filter(keep) == d.filter(keep));
            let m = ls.filter(keep).map_values(f);
            assert(m.drop_last() =~= e.filter(keep).map_values(f));
            assert(m.last() == l + last);
            assert(joined(d) == joined(e) + l);
            assert(joined(ls) == joined(d) + last);
            assert(joined(m) =~= joined(ls));
        } else {
            if d.len() > 0 {
                assert(d.last() == ls[n - 2]);
            }
            assert forall|i: int| 0 <= i < d.len() implies d[i] == #[trigger] ls[i] by {}
            lemma_insert_undoes_delete(d, needle, x);
            let m = ls.filter(keep).map_values(f);
            assert(m.drop_last() =~= d.filter(keep).map_values(f));
            assert(m.last() == last);
        }
    }
}

/// Inserting a line behind the lines with `needle` restores a text from which it was
/// deleted, where it stood behind just those lines.
pub proof fn law_insert_after_undoes_delete(content: Seq<char>, needle: Seq<char>, x: Seq<char>)
    requires
        is_line_content(x),
        !occurs(x.push('\n'), needle),
        stands_behind(lines_of(content), needle, x),
    ensures
        inserted_after(deleted_exact(content, x), needle, x) == content,
{
    lemma_lines_are_lines(content);
    lemma_lines_joined(content);
    law_deleted_line_is_gone(content, x);
    lemma_insert_undoes_delete(lines_of(content), needle, x);
}

/// The lines of `ls`, with the line `t` in front of each one that contains `needle`.
spec fn preceded(ls: Seq<Seq<char>>, needle: Seq<char>, t: Seq<char>) -> Seq<Seq<char>>
    decreases ls.len(),
{
    if ls.len() == 0 {
        seq![]
    } else {
        let front = preceded(ls.drop_last(), needle, t);
        if occurs(ls.last(), needle) {
            front + seq![t, ls.last()]
        } else {
            front + seq![ls.last()]
        }
    }
}

proof fn lemma_preceded(ls: Seq<Seq<char>>, needle: Seq<char>, x: Seq<char>)
    requires
        are_lines(ls),
        is_line_content(x),
        forall|i: int| 0 <= i < ls.len() ==> chomped(#[trigger] ls[i]) != x,
    ensures
        are_lines(preceded(ls, needle, x.push('\n'))),
        all_closed(ls) ==> all_closed(preceded(ls, needle, x.push('\n'))),
        preceded(ls, needle, x.push('\n')).filter(other_line(x)) == ls,
        joined(preceded(ls, needle, x.push('\n'))) == joined(
            ls.map_values(|l: Seq<char>| line_after(l, needle, x)),
        ),
    decreases ls.len(),
{
    let t = x.push('\n');
    let keep = other_line(x);
    let mapped = ls.map_values(|l: Seq<char>| line_after(l, needle, x));
    lemma_chomped_line(x);
    reveal(Seq::filter);
    if ls.len() == 0 {
        assert(preceded(ls, needle, t).filter(keep) =~= ls);
        assert(mapped =~= Seq::<Seq<char>>::empty());
    } else {
        let d = ls.drop_last();
        let last = ls.last();
        lemma_lines_but_last_closed(ls);
        assert forall|i: int| 0 <= i < d.len() implies chomped(#[trigger] d[i]) != x by {
            assert(d[i] == ls[i]);
        }
        assert(are_lines(d));
        lemma_preceded(d, needle, x);
        let front = preceded(d, needle, t);
        assert(last == ls[ls.len() - 1]);
        let e = preceded(ls, needle, t);
        let back = if occurs(last, needle) {
            seq![t, last]
        } else {
            seq![last]
        };
        assert(e == front + back);
        let inner = if occurs(last, needle) {
            front.push(t)
        } else {
            front
        };
        assert(all_closed(inner));
        assert(e =~= inner.push(last));
        lemma_closed_then_last(inner, last);
        lemma_filter_sum(front, back, keep);
        assert(seq![last].drop_last() =~= Seq::<Seq<char>>::empty());
        assert(seq![last].filter(keep) =~= seq![last]);
        assert(seq![t].drop_last() =~= Seq::<Seq<char>>::empty());
        assert(seq![t].filter(keep) =~= Seq::<Seq<char>>::empty());
        assert(seq![t, last].drop_last() =~= seq![t]);
        assert(back.filter(keep) =~= seq![last]);
        assert(d + seq![last] =~= ls);
        lemma_joined_sum(front, back);
        lemma_joined_two(t, last);
        lemma_joined_two(last, t);
        assert(mapped.drop_last() =~= d.map_values(|l: Seq<char>| line_after(l, needle, x)));
        assert(joined(e) =~= joined(mapped));
    }
}

/// Deleting the line that an insertion put in front of the lines with `needle`
/// restores the text, unless the text held such a line before.
pub proof fn law_delete_undoes_insert_before(content: Seq<char>, needle: Seq<char>, x: Seq<char>)
    requires
        is_line_content(x),
        no_line_is(content, x),
    ensures
        deleted_exact(inserted_before(content, needle, x), x) == content,
{
    let ls = lines_of(content);
    lemma_lines_are_lines(content);
    lemma_lines_joined(content);
    lemma_preceded(ls, needle, x);
    lemma_joined_lines(preceded(ls, needle, x.push('\n')));
}

/// The lines that an exact deletion leaves, and that none of them is the line.
pub proof fn law_deleted_line_is_gone(content: Seq<char>, x: Seq<char>)
    ensures
        lines_of(deleted_exact(content, x)) == lines_of(content).filter(other_line(x)),
        no_line_is(deleted_exact(content, x), x),
{
    let ls = lines_of(content);
    lemma_lines_are_lines(content);
    lemma_filter_lines(ls, other_line(x));
    lemma_joined_lines(ls.filter(other_line(x)));
    lemma_filter_kept(ls, other_line(x));
    assert forall|i: int| 0 <= i < lines_of(deleted_exact(content, x)).len() implies chomped(
        #[trigger] lines_of(deleted_exact(content, x))[i],
    ) != x by {
        assert(other_line(x)(ls.filter(other_line(x))[i]));
    }
}

/// A text that does not hold the line is left as it is by its deletion; so a second
/// deletion changes nothing.
pub proof fn law_delete_is_idempotent(content: Seq<char>, x: Seq<char>)
    ensures
        no_line_is(content, x) ==> deleted_exact(content, x) == content,
        deleted_exact(deleted_exact(content, x), x) == deleted_exact(content, x),
{
    lemma_delete_absent(content, x);
    law_deleted_line_is_gone(content, x);
    lemma_delete_absent(deleted_exact(content, x), x);
}

proof fn lemma_delete_absent(content: Seq<char>, x: Seq<char>)
    ensures
        no_line_is(content, x) ==> deleted_exact(content, x) == content,
{
    if no_line_is(content, x) {
        assert forall|i: int| 0 <= i < lines_of(content).len() implies other_line(x)(
            #[trigger] lines_of(content)[i],
        ) by {}
        lemma_filter_all(lines_of(content), other_line(x));
        lemma_lines_joined(content);
    }
}

/// What stands in a piece stands in the whole.
pub proof fn lemma_has_in_joined(p: Seq<Seq<char>>, k: int, n: Seq<char>)
    requires
        0 <= k < p.len(),
        occurs(p[k], n),
    ensures
        occurs(joined(p), n),
    decreases p.len(),
{
    let all = joined(p);
    let front = joined(p.drop_last());
    if k == p.len() - 1 {
        let i = choose|i: int| occurs_at(p[k], n, i);
        assert(all.subrange(front.len() + i, front.len() + i + n.len()) =~= p[k].subrange(
            i,
            i + n.len(),
        ));
        assert(occurs_at(all, n, front.len() + i));
    } else {
        assert(p.drop_last()[k] == p[k]);
        lemma_has_in_joined(p.drop_last(), k, n);
        let i = choose|i: int| occurs_at(front, n, i);
        assert(all.subrange(i, i + n.len()) =~= front.subrange(i, i + n.len()));
        assert(occurs_at(all, n, i));
    }
}

/// An insertion leaves a text without the needle as it is.
pub proof fn law_insert_needs_the_needle(content: Seq<char>, needle: Seq<char>, x: Seq<char>)
    requires
        !occurs(content, needle),
    ensures
        inserted_after(content, needle, x) == content,
        inserted_before(content, needle, x) == content,
{
    let ls = lines_of(content);
    lemma_lines_joined(content);
    assert forall|k: int| 0 <= k < ls.len() implies !occurs(#[trigger] ls[k], needle) by {
        if occurs(ls[k], needle) {
            lemma_has_in_joined(ls, k, needle);
        }
    }
    assert(ls.map_values(|l: Seq<char>| line_then(l, needle, x)) =~= ls);
    assert(ls.map_values(|l: Seq<char>| line_after(l, needle, x)) =~= ls);
}

/// An appended line is the last line, and the lines before it are those of the text,
/// closed by a line feed.
pub proof fn law_append_adds_one_line(content: Seq<char>, line: Seq<char>)
    requires
        forall|i: int| 0 <= i < line.len() ==> line[i] != '\n',
    ensures
        lines_of(appended(content, line)) == lines_of(closed_text(content)).push(line.push('\n')),
        ends_in(appended(content, line), '\n'),
{
    let a = closed_text(content);
    let l = line.push('\n');
    assert(appended(content, line) =~= a + l);
    lemma_lines_of_sum(a, l);
    assert(is_line(l));
    assert(are_lines(seq![l]));
    lemma_joined_lines(seq![l]);
    lemma_joined_two(l, l);
    assert(lines_of(a) + seq![l] =~= lines_of(a).push(l));
}

/// Replacing the last line takes back the line appended before.
pub proof fn law_replace_takes_back_the_last_append(
    content: Seq<char>,
    a: Seq<char>,
    b: Seq<char>,
)
    requires
        forall|i: int| 0 <= i < a.len() ==> a[i] != '\n',
    ensures
        appended(without_last_line(appended(content, a)), b) == appended(content, b),
{
    law_append_adds_one_line(content, a);
    let c = closed_text(content);
    assert(lines_of(c).push(a.push('\n')).drop_last() =~= lines_of(c));
    lemma_lines_joined(c);
    assert(closed_text(c) == c);
}

/// Every line that contains `needle` has the line `x` behind it.
pub open spec fn is_followed(content: Seq<char>, needle: Seq<char>, x: Seq<char>) -> bool {
    forall|i: int|
        0 <= i < lines_of(content).len() && occurs(#[trigger] lines_of(content)[i], needle) ==> i
            + 1 < lines_of(content).len() && lines_of(content)[i + 1] == x.push('\n')
}

/// What an expanded list is made of.
proof fn lemma_expanded_lines(ls: Seq<Seq<char>>, needle: Seq<char>, x: Seq<char>)
    requires
        all_closed(ls),
        is_line_content(x),
        !occurs(x.push('\n'), needle),
    ensures
        ({
            let e = expanded(ls, needle, x.push('\n'));
            &&& all_closed(e)
            &&& joined(e) == joined(ls.map_values(|l: Seq<char>| line_then(l, needle, x)))
            &&& forall|i: int|
                0 <= i < e.len() && occurs(#[trigger] e[i], needle) ==> i + 1 < e.len() && e[i
                    + 1] == x.push('\n')
        }),
    decreases ls.len(),
{
    let t = x.push('\n');
    let mapped = ls.map_values(|l: Seq<char>| line_then(l, needle, x));
    lemma_chomped_line(x);
    if ls.len() == 0 {
        assert(mapped =~= Seq::<Seq<char>>::empty());
    } else {
        let d = ls.drop_last();
        let last = ls.last();
        assert forall|i: int| 0 <= i < d.len() implies is_line(#[trigger] d[i]) by {
            assert(d[i] == ls[i]);
        }
        lemma_expanded_lines(d, needle, x);
        let front = expanded(d, needle, t);
        assert(last == ls[ls.len() - 1]);
        let e = expanded(ls, needle, t);
        let back = if occurs(last, needle) {
            seq![last, t]
        } else {
            seq![last]
        };
        assert(e == front + back);
        assert forall|i: int| 0 <= i < e.len() implies is_line(#[trigger] e[i]) by {
            if i < front.len() {
                assert(e[i] == front[i]);
            }
        }
        assert forall|i: int| 0 <= i < e.len() && occurs(#[trigger] e[i], needle) implies i + 1
            < e.len() && e[i + 1] == t by {
            if i < front.len() {
                assert(e[i] == front[i]);
                assert(e[i + 1] == front[i + 1]);
            }
        }
        lemma_joined_sum(front, back);
        lemma_joined_two(last, t);
        assert(mapped.drop_last() =~= d.map_values(|l: Seq<char>| line_then(l, needle, x)));
        assert(joined(e) =~= joined(mapped));
    }
}

/// A line that is put behind the lines with `needle` stands behind every one of them.
pub proof fn law_inserted_line_follows(content: Seq<char>, needle: Seq<char>, x: Seq<char>)
    requires
        is_line_content(x),
        !occurs(x.push('\n'), needle),
    ensures
        is_followed(inserted_after(content, needle, x), needle, x),
{
    if closed_at(content, needle) {
        lemma_closed_insert_follows(content, needle, x);
    } else {
        lemma_insert_after_open_end(content, needle, x);
        lemma_closed_insert_follows(content.push('\n'), needle, x);
    }
}

proof fn lemma_closed_insert_follows(content: Seq<char>, needle: Seq<char>, x: Seq<char>)
    requires
        is_line_content(x),
        !occurs(x.push('\n'), needle),
        closed_at(content, needle),
    ensures
        is_followed(inserted_after(content, needle, x), needle, x),
{
    let ls = lines_of(content);
    let t = x.push('\n');
    lemma_lines_are_lines(content);
    lemma_lines_joined(content);
    let f = |l: Seq<char>| line_then(l, needle, x);
    if ls.len() == 0 {
        assert(ls.map_values(f) =~= ls);
    } else {
        let d = ls.drop_last();
        let last = ls.last();
        assert(last == ls[ls.len() - 1]);
        lemma_lines_but_last_closed(ls);
        assert(joined(ls).last() == last.last());
        if is_line(last) {
            assert(all_closed(ls)) by {
                assert forall|i: int| 0 <= i < ls.len() implies is_line(#[trigger] ls[i]) by {
                    if i < d.len() {
                        assert(ls[i] == d[i]);
                    }
                }
            }
            lemma_expanded_lines(ls, needle, x);
            lemma_joined_lines(expanded(ls, needle, t));
        } else {
            lemma_expanded_lines(d, needle, x);
            let front = expanded(d, needle, t);
            let e = front.push(last);
            lemma_closed_then_last(front, last);
            lemma_joined_lines(e);
            assert(e.drop_last() =~= front);
            assert(ls.map_values(f).drop_last() =~= d.map_values(f));
            assert(joined(e) =~= joined(ls.map_values(f)));
            assert forall|i: int| 0 <= i < e.len() && occurs(#[trigger] e[i], needle) implies i + 1
                < e.len() && e[i + 1] == t by {
                assert(e[i] == front[i]);
                assert(e[i + 1] == front[i + 1]);
            }
        }
    }
}

/// A line feed behind a last line leaves every line followed.
pub proof fn lemma_followed_with_end(content: Seq<char>, needle: Seq<char>, x: Seq<char>)
    requires
        is_line_content(needle),
        is_line_content(x),
        is_followed(content, needle, x),
        content.len() > 0,
        !ends_in(content, '\n'),
    ensures
        is_followed(content.push('\n'), needle, x),
{
    let ls = lines_of(content);
    lemma_lines_with_end(content);
    let us = lines_of(content.push('\n'));
    let n = ls.len() - 1;
    lemma_occurs_with_end(ls.last(), needle);
    assert forall|i: int| 0 <= i < us.len() && occurs(#[trigger] us[i], needle) implies i + 1
        < us.len() && us[i + 1] == x.push('\n') by {
        if i == n {
            assert(occurs(ls[n], needle));
        } else {
            assert(us[i] == ls[i]);
            assert(ls[i + 1] == x.push('\n'));
            if i + 1 == n {
                assert(ls.last().last() == '\n');
            }
        }
    }
}

/// What stands in a text, and holds no line feed, stands in one of its lines.
pub proof fn lemma_stands_in_a_line(content: Seq<char>, n: Seq<char>) -> (i: int)
    requires
        is_line_content(n),
        n.len() > 0,
        occurs(content, n),
    ensures
        0 <= i < lines_of(content).len(),
        occurs(lines_of(content)[i], n),
    decreases content.len(),
{
    let p = choose|p: int| occurs_at(content, n, p);
    lemma_first_line(content);
    let k = line_len(content) as int;
    let (first, rest) = (content.take(k), content.skip(k));
    assert(content.subrange(p, p + n.len()) == n);
    if p + n.len() <= k {
        assert(first.subrange(p, p + n.len()) =~= n);
        assert(occurs_at(first, n, p));
        0
    } else {
        if p < k {
            assert(first.last() == content[k - 1]);
            assert(n[k - 1 - p] == content.subrange(p, p + n.len())[k - 1 - p]);
        }
        assert(rest.subrange(p - k, p - k + n.len()) =~= n);
        assert(occurs_at(rest, n, p - k));
        let j = lemma_stands_in_a_line(rest, n);
        assert(lines_of(content)[j + 1] == lines_of(rest)[j]);
        j + 1
    }
}

/// What stands in a line stays when lines are put behind others.
pub proof fn law_insertion_keeps_the_lines(
    content: Seq<char>,
    needle: Seq<char>,
    x: Seq<char>,
    n: Seq<char>,
)
    requires
        is_line_content(n),
        n.len() > 0,
        occurs(content, n),
    ensures
        occurs(inserted_after(content, needle, x), n),
{
    let i = lemma_stands_in_a_line(content, n);
    let l = lines_of(content)[i];
    let p = lines_of(content).map_values(|l: Seq<char>| line_then(l, needle, x));
    assert(p[i] == line_then(l, needle, x));
    let k = choose|k: int| occurs_at(l, n, k);
    assert(p[i].subrange(k, k + n.len()) =~= l.subrange(k, k + n.len()));
    assert(occurs_at(p[i], n, k));
    lemma_has_in_joined(p, i, n);
}

/// A line that is put behind those with `needle` is there as a line of its own, not the
/// first one, where a line has `needle`.
pub proof fn law_inserted_line_is_there(content: Seq<char>, needle: Seq<char>, x: Seq<char>)
    requires
        is_line_content(needle),
        needle.len() > 0,
        is_line_content(x),
        occurs(content, needle),
    ensures
        occurs(inserted_after(content, needle, x), seq!['\n'] + x.push('\n')),
{
    let i = lemma_stands_in_a_line(content, needle);
    let l = lines_of(content)[i];
    let p = lines_of(content).map_values(|l: Seq<char>| line_then(l, needle, x));
    let n = seq!['\n'] + x.push('\n');
    let t = terminated(l);
    assert(p[i] == t + terminated(x));
    assert(t.last() == '\n');
    assert(terminated(x) == x.push('\n'));
    assert(p[i].subrange(t.len() - 1, t.len() - 1 + n.len()) =~= n);
    assert(occurs_at(p[i], n, t.len() - 1));
    lemma_has_in_joined(p, i, n);
}

} // verus!
