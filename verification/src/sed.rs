//! Line edits in the manner of `sed` and `echo >>`.
use crate::lines::{char_rows, lemma_lines_joined, vec_lines};
use crate::text::{
    chars_of, chomped, ends_in, extend_range, joined, lines_of, occurs, string_of, vec_contains,
    vec_same,
};
use crate::words::vec_chomp;
use vstd::prelude::*;

verus! {

// ---------------------------------------------------------------------------
// Models
// ---------------------------------------------------------------------------

/// `t` with a line feed at its end.
pub open spec fn terminated(t: Seq<char>) -> Seq<char> {
    if ends_in(t, '\n') {
        t
    } else {
        t.push('\n')
    }
}

/// The line `l`, followed by `inserted` as a line of its own where it contains `needle`.
pub open spec fn line_then(l: Seq<char>, needle: Seq<char>, inserted: Seq<char>) -> Seq<char> {
    if occurs(l, needle) {
        terminated(l) + terminated(inserted)
    } else {
        l
    }
}

/// The line `l`, preceded by `inserted` where it contains `needle`.
pub open spec fn line_after(l: Seq<char>, needle: Seq<char>, inserted: Seq<char>) -> Seq<char> {
    if occurs(l, needle) {
        terminated(inserted) + l
    } else {
        l
    }
}

/// `content` with `inserted` after every line that contains `needle`.
pub open spec fn inserted_after(
    content: Seq<char>,
    needle: Seq<char>,
    inserted: Seq<char>,
) -> Seq<char> {
    joined(lines_of(content).map_values(|l: Seq<char>| line_then(l, needle, inserted)))
}

/// `content` with `inserted` before every line that contains `needle`.
pub open spec fn inserted_before(
    content: Seq<char>,
    needle: Seq<char>,
    inserted: Seq<char>,
) -> Seq<char> {
    joined(lines_of(content).map_values(|l: Seq<char>| line_after(l, needle, inserted)))
}

/// `l` is not the line `needle`.
pub open spec fn other_line(needle: Seq<char>) -> spec_fn(Seq<char>) -> bool {
    |l: Seq<char>| chomped(l) != needle
}

/// `content` without the lines that are exactly `needle`.
pub open spec fn deleted_exact(content: Seq<char>, needle: Seq<char>) -> Seq<char> {
    joined(lines_of(content).filter(other_line(needle)))
}

/// `content` with a line feed at its end unless it is empty.
pub open spec fn closed_text(content: Seq<char>) -> Seq<char> {
    if content.len() > 0 && !ends_in(content, '\n') {
        content.push('\n')
    } else {
        content
    }
}

/// `content` with `line` as a further last line.
pub open spec fn appended(content: Seq<char>, line: Seq<char>) -> Seq<char> {
    (closed_text(content) + line).push('\n')
}

/// `content` without its last line.
pub open spec fn without_last_line(content: Seq<char>) -> Seq<char> {
    if content.len() == 0 {
        content
    } else {
        joined(lines_of(content).drop_last())
    }
}

// ---------------------------------------------------------------------------
// Edits
// ---------------------------------------------------------------------------

/// Appends `row` to `out`.
fn push_row(out: &mut Vec<char>, row: &Vec<char>)
    ensures
        final(out)@ == old(out)@ + row@,
{
    extend_range(out, row, 0, row.len());
    assert(row@.subrange(0, row@.len() as int) =~= row@);
}

/// The characters of `t` with a line feed at the end.
fn vec_terminated(t: &str) -> (r: Vec<char>)
    ensures
        r@ == terminated(t@),
{
    let mut r = chars_of(t);
    let n: usize = r.len();
    if n == 0 || r[n - 1] != '\n' {
        r.push('\n');
    }
    r
}

/// `sed '/needle/a line'`: inserts a line after every line that contains `needle`. A last
/// line without a line feed gets one before the inserted line.
pub fn sed_insert_after(content: &str, needle: &str, inserted: &str) -> (r: String)
    ensures
        r@ == inserted_after(content@, needle@, inserted@),
{
    let rows = vec_lines(&chars_of(content));
    let n = chars_of(needle);
    let extra = vec_terminated(inserted);
    let mut out: Vec<char> = Vec::new();
    let ghost mapped = lines_of(content@).map_values(
        |l: Seq<char>| line_then(l, needle@, inserted@),
    );
    let mut i: usize = 0;
    while i < rows.len()
        invariant
            i <= rows@.len(),
            char_rows(rows@) == lines_of(content@),
            n@ == needle@,
            extra@ == terminated(inserted@),
            mapped == lines_of(content@).map_values(
                |l: Seq<char>| line_then(l, needle@, inserted@),
            ),
            out@ == joined(mapped.take(i as int)),
        decreases rows@.len() - i,
    {
        assert(char_rows(rows@)[i as int] == rows@[i as int]@);
        let ghost before = out@;
        push_row(&mut out, &rows[i]);
        if vec_contains(&rows[i], &n) {
            let len: usize = rows[i].len();
            if len == 0 || rows[i][len - 1] != '\n' {
                out.push('\n');
            }
            assert(out@ =~= before + terminated(rows@[i as int]@));
            push_row(&mut out, &extra);
        }
        i += 1;
        assert(mapped.take(i as int).drop_last() =~= mapped.take(i - 1));
        assert(out@ =~= joined(mapped.take(i as int)));
    }
    assert(mapped.take(mapped.len() as int) =~= mapped);
    string_of(&out)
}

/// `sed '/needle/i line'`: inserts before every line that contains `needle`.
pub fn sed_insert_before(content: &str, needle: &str, inserted: &str) -> (r: String)
    ensures
        r@ == inserted_before(content@, needle@, inserted@),
{
    let rows = vec_lines(&chars_of(content));
    let n = chars_of(needle);
    let extra = vec_terminated(inserted);
    let mut out: Vec<char> = Vec::new();
    let ghost mapped = lines_of(content@).map_values(
        |l: Seq<char>| line_after(l, needle@, inserted@),
    );
    let mut i: usize = 0;
    while i < rows.len()
        invariant
            i <= rows@.len(),
            char_rows(rows@) == lines_of(content@),
            n@ == needle@,
            extra@ == terminated(inserted@),
            mapped == lines_of(content@).map_values(
                |l: Seq<char>| line_after(l, needle@, inserted@),
            ),
            out@ == joined(mapped.take(i as int)),
        decreases rows@.len() - i,
    {
        assert(char_rows(rows@)[i as int] == rows@[i as int]@);
        if vec_contains(&rows[i], &n) {
            push_row(&mut out, &extra);
        }
        push_row(&mut out, &rows[i]);
        i += 1;
        assert(mapped.take(i as int).drop_last() =~= mapped.take(i - 1));
        assert(out@ =~= joined(mapped.take(i as int)));
    }
    assert(mapped.take(mapped.len() as int) =~= mapped);
    string_of(&out)
}

/// `sed '/^needle$/d'`: drops the lines whose content is exactly `needle`.
pub fn sed_delete_exact(content: &str, needle: &str) -> (r: String)
    ensures
        r@ == deleted_exact(content@, needle@),
{
    let rows = vec_lines(&chars_of(content));
    let n = chars_of(needle);
    let mut out: Vec<char> = Vec::new();
    let ghost ls = lines_of(content@);
    let ghost keep = other_line(needle@);
    let mut i: usize = 0;
    proof {
        reveal(Seq::filter);
    }
    while i < rows.len()
        invariant
            i <= rows@.len(),
            char_rows(rows@) == ls,
            n@ == needle@,
            keep == other_line(needle@),
            out@ == joined(ls.take(i as int).filter(keep)),
        decreases rows@.len() - i,
    {
        proof {
            reveal(Seq::filter);
        }
        assert(ls[i as int] == rows@[i as int]@);
        assert(ls.take(i + 1).drop_last() =~= ls.take(i as int));
        let ghost kept = ls.take(i as int).filter(keep);
        if !vec_same(&vec_chomp(&rows[i]), &n) {
            push_row(&mut out, &rows[i]);
            assert(kept.push(ls[i as int]).drop_last() =~= kept);
        }
        i += 1;
    }
    assert(ls.take(ls.len() as int) =~= ls);
    string_of(&out)
}

/// Appends a line, adding the missing line feed first (`echo >> file`).
pub fn append_line(content: &str, line: &str) -> (r: String)
    ensures
        r@ == appended(content@, line@),
{
    let mut out = chars_of(content);
    let n: usize = out.len();
    if n > 0 && out[n - 1] != '\n' {
        out.push('\n');
    }
    push_row(&mut out, &chars_of(line));
    out.push('\n');
    string_of(&out)
}

/// `sed '$d'` followed by `echo line >> file`.
pub fn replace_last_line(content: &str, line: &str) -> (r: String)
    ensures
        r@ == appended(without_last_line(content@), line@),
{
    let rows = vec_lines(&chars_of(content));
    let mut out: Vec<char> = Vec::new();
    let ghost ls = lines_of(content@);
    let keep: usize = if rows.len() == 0 {
        0
    } else {
        rows.len() - 1
    };
    let mut i: usize = 0;
    while i < keep
        invariant
            i <= keep <= rows@.len(),
            char_rows(rows@) == ls,
            out@ == joined(ls.take(i as int)),
        decreases keep - i,
    {
        assert(ls[i as int] == rows@[i as int]@);
        push_row(&mut out, &rows[i]);
        i += 1;
        assert(ls.take(i as int).drop_last() =~= ls.take(i - 1));
    }
    proof {
        lemma_lines_joined(content@);
        if content@.len() == 0 {
            assert(out@ =~= without_last_line(content@));
        } else {
            assert(ls.take(keep as int) =~= ls.drop_last());
        }
    }
    append_line(&string_of(&out), line)
}

} // verus!
