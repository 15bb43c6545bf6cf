//! What reading versions, commits, dates and sublevels out of texts promises.
use crate::failure::{month_out_of_range_text, sublevel_count_text, year_out_of_range_text};
use crate::fixes::glibc_of;
use crate::lines::{is_line, lemma_joined_lines, lemma_lines_joined, lemma_lines_of_sum};
use crate::naming::{assigned_value, makefile_sublevel, sublevel_line};
use crate::process::{listed_sha, without_line_feeds};
use crate::regexes::{class_space_skipped, is_class_space, sets_sublevel};
use crate::sed_laws::lemma_has_in_joined;
use crate::stamp::{behind_dash, date_of, first_part, two_digits, year_month};
use crate::summary::{susfs_version_of, version_from};
use crate::targets::{filter_of, is_ascii_text, requested_of};
use crate::text::{
    all_digits, ascii_lowered, bare, bare_lines, decimal, digits_value, ends_in, find_from,
    first_word, is_digit, is_white, joined, last_word, lines_of, occurs, occurs_at, trimmed,
    trimmed_end, trimmed_start, unsigned_value, word_len, word_suffix,
};
use crate::word_laws::{law_numbers_read_back, law_trimming_cuts_white_space};
use vstd::prelude::*;

verus! {

// ---------------------------------------------------------------------------
// Words
// ---------------------------------------------------------------------------

/// Every character of `s` is white space.
pub open spec fn is_blank(s: Seq<char>) -> bool {
    forall|i: int| 0 <= i < s.len() ==> is_white(#[trigger] s[i])
}

/// `w` is one word.
pub open spec fn is_word(w: Seq<char>) -> bool {
    &&& w.len() > 0
    &&& forall|i: int| 0 <= i < w.len() ==> !is_white(#[trigger] w[i])
}

proof fn lemma_front_is_cut(p: Seq<char>, t: Seq<char>)
    requires
        is_blank(p),
        t.len() == 0 || !is_white(t[0]),
    ensures
        trimmed_start(p + t) == t,
    decreases p.len(),
{
    if p.len() == 0 {
        assert(p + t =~= t);
    } else {
        assert(is_white(p[0]));
        assert((p + t).skip(1) =~= p.skip(1) + t);
        lemma_front_is_cut(p.skip(1), t);
    }
}

proof fn lemma_end_is_cut(t: Seq<char>, q: Seq<char>)
    requires
        is_blank(q),
        t.len() == 0 || !is_white(t.last()),
    ensures
        trimmed_end(t + q) == t,
    decreases q.len(),
{
    if q.len() == 0 {
        assert(t + q =~= t);
    } else {
        assert(is_white(q.last()));
        assert((t + q).drop_last() =~= t + q.drop_last());
        lemma_end_is_cut(t, q.drop_last());
    }
}

proof fn lemma_word_len(w: Seq<char>, q: Seq<char>)
    requires
        forall|i: int| 0 <= i < w.len() ==> !is_white(#[trigger] w[i]),
        q.len() == 0 || is_white(q[0]),
    ensures
        word_len(w + q) == w.len(),
    decreases w.len(),
{
    if w.len() == 0 {
        assert(w + q =~= q);
    } else {
        assert((w + q).skip(1) =~= w.skip(1) + q);
        lemma_word_len(w.skip(1), q);
    }
}

proof fn lemma_word_suffix(p: Seq<char>, w: Seq<char>)
    requires
        forall|i: int| 0 <= i < w.len() ==> !is_white(#[trigger] w[i]),
        p.len() == 0 || is_white(p.last()),
    ensures
        word_suffix(p + w) == w,
    decreases w.len(),
{
    if w.len() == 0 {
        assert(p + w =~= p);
    } else {
        assert((p + w).drop_last() =~= p + w.drop_last());
        lemma_word_suffix(p, w.drop_last());
        assert(w.drop_last().push(w.last()) =~= w);
    }
}

/// The first word of a text is the one that white space alone stands in front of.
pub proof fn law_first_word_is_found(p: Seq<char>, w: Seq<char>, q: Seq<char>)
    requires
        is_blank(p),
        is_word(w),
        q.len() == 0 || is_white(q[0]),
    ensures
        first_word(p + w + q) == w,
{
    assert(p + w + q =~= p + (w + q));
    lemma_front_is_cut(p, w + q);
    lemma_word_len(w, q);
    assert((w + q).take(w.len() as int) =~= w);
}

/// The last word of a text is the one that white space alone stands behind.
pub proof fn law_last_word_is_found(p: Seq<char>, w: Seq<char>, q: Seq<char>)
    requires
        p.len() == 0 || is_white(p.last()),
        is_word(w),
        is_blank(q),
    ensures
        last_word(p + w + q) == w,
{
    lemma_end_is_cut(p + w, q);
    lemma_word_suffix(p, w);
}

// ---------------------------------------------------------------------------
// Lines
// ---------------------------------------------------------------------------

/// The lines of a text with the line `l` in it.
proof fn lemma_line_between(a: Seq<char>, l: Seq<char>, b: Seq<char>)
    requires
        a.len() == 0 || ends_in(a, '\n'),
        forall|i: int| 0 <= i < l.len() ==> l[i] != '\n',
        !ends_in(l, '\r'),
    ensures
        bare_lines(a + l.push('\n') + b) == bare_lines(a) + seq![l] + bare_lines(b),
{
    let t = l.push('\n');
    assert(is_line(t));
    lemma_joined_lines(seq![t]);
    assert(joined(seq![t].drop_last()) =~= Seq::<char>::empty());
    assert(joined(seq![t]) =~= t);
    lemma_lines_of_sum(a, t);
    lemma_lines_of_sum(a + t, b);
    assert(bare(t) =~= l) by {
        assert(t.drop_last() =~= l);
    }
    let f = |l: Seq<char>| bare(l);
    assert((lines_of(a) + seq![t] + lines_of(b)).map_values(f) =~= bare_lines(a) + seq![l]
        + bare_lines(b));
}

/// What a line has, the text has.
proof fn lemma_line_has(content: Seq<char>, k: int, n: Seq<char>)
    requires
        0 <= k < bare_lines(content).len(),
        occurs(bare_lines(content)[k], n),
    ensures
        occurs(content, n),
{
    let l = lines_of(content)[k];
    let x = bare(l);
    assert(bare_lines(content)[k] == x);
    let i = choose|i: int| occurs_at(x, n, i);
    assert(l.subrange(i, i + n.len()) =~= x.subrange(i, i + n.len()));
    assert(occurs_at(l, n, i));
    lemma_has_in_joined(lines_of(content), k, n);
    lemma_lines_joined(content);
}

/// Where a character is found.
proof fn lemma_find_char(s: Seq<char>, c: char, i: int, k: int)
    requires
        0 <= i <= k < s.len(),
        s[k] == c,
        forall|j: int| i <= j < k ==> #[trigger] s[j] != c,
    ensures
        find_from(s, seq![c], i) == Some(k),
    decreases k - i,
{
    if i == k {
        assert(s.subrange(i, i + 1) =~= seq![c]);
    } else {
        assert(s.subrange(i, i + 1)[0] == s[i]);
        lemma_find_char(s, c, i + 1, k);
    }
}

/// A character that is nowhere is not found.
proof fn lemma_no_char(s: Seq<char>, c: char, i: int)
    requires
        0 <= i,
        forall|j: int| i <= j < s.len() ==> #[trigger] s[j] != c,
    ensures
        find_from(s, seq![c], i) is None,
    decreases s.len() + 1 - i,
{
    if i < s.len() {
        assert(s.subrange(i, i + 1)[0] == s[i]);
        lemma_no_char(s, c, i + 1);
    }
}

// ---------------------------------------------------------------------------
// Commits and versions
// ---------------------------------------------------------------------------

/// The commit that a remote lists is what stands before the first white space of its
/// answer. An answer without a line lists none.
pub proof fn law_listed_commit_is_the_first_word(sha: Seq<char>, rest: Seq<char>, more: Seq<char>)
    requires
        is_word(sha),
        forall|i: int| 0 <= i < rest.len() ==> rest[i] != '\n',
        !ends_in(rest, '\r'),
    ensures
        listed_sha(sha + "\t"@ + rest + "\n"@ + more) == sha,
        listed_sha(Seq::<char>::empty()) == Seq::<char>::empty(),
{
    reveal_strlit("\t");
    reveal_strlit("\n");
    let l = sha + "\t"@ + rest;
    assert forall|i: int| 0 <= i < l.len() implies l[i] != '\n' by {
        if i < sha.len() {
            assert(!is_white(sha[i]));
        }
    }
    let e = Seq::<char>::empty();
    lemma_line_between(e, l, more);
    assert(e + l.push('\n') + more =~= sha + "\t"@ + rest + "\n"@ + more);
    assert(bare_lines(e) =~= Seq::<Seq<char>>::empty());
    let q = "\t"@ + rest;
    assert(q[0] == '\t');
    law_first_word_is_found(e, sha, q);
    assert(e + sha + q =~= l);
}

/// The version of the C library is the last word of the first line that was printed. What
/// went to the error output counts where nothing else was printed.
pub proof fn law_glibc_version_ends_the_first_line(
    p: Seq<char>,
    version: Seq<char>,
    more: Seq<char>,
    err: Seq<char>,
    blank: Seq<char>,
)
    requires
        is_word(version),
        forall|i: int| 0 <= i < p.len() ==> p[i] != '\n',
        is_blank(blank),
    ensures
        glibc_of(p + " "@ + version + "\n"@ + more, err) == Some(version),
        glibc_of(blank, p + " "@ + version + "\n"@ + more) == Some(version),
        glibc_of(blank, Seq::<char>::empty()) is None,
{
    reveal_strlit(" ");
    reveal_strlit("\n");
    let l = p + " "@ + version;
    assert forall|i: int| 0 <= i < l.len() implies l[i] != '\n' by {
        if i > p.len() {
            assert(!is_white(version[i - p.len() - 1]));
        }
    }
    assert(!is_white(version[version.len() - 1]));
    assert(l.last() == version[version.len() - 1]);
    let e = Seq::<char>::empty();
    let out = p + " "@ + version + "\n"@ + more;
    lemma_line_between(e, l, more);
    assert(e + l.push('\n') + more =~= out);
    assert(bare_lines(e) =~= Seq::<Seq<char>>::empty());
    law_last_word_is_found(p + " "@, version, e);
    assert(p + " "@ + version + e =~= l);
    let cut = law_trimming_cuts_white_space(out);
    assert(out[p.len() as int + 1] == version[0]);
    assert(trimmed(out).len() > 0);
    lemma_front_is_cut(blank, e);
    assert(blank + e =~= blank);
    assert(trimmed(blank).len() == 0);
}

/// The line feeds at the end of an output are dropped, and nothing else.
pub proof fn law_line_feeds_are_dropped_at_the_end(s: Seq<char>)
    ensures
        without_line_feeds(s + "\n"@) == without_line_feeds(s),
        !ends_in(s, '\n') ==> without_line_feeds(s) == s,
{
    reveal_strlit("\n");
    assert((s + "\n"@).drop_last() =~= s);
}

/// The version of SUSFS is what stands in quotes behind the name of its definition, in the
/// first line that defines it. Without such a line, and without a header, there is none.
pub proof fn law_susfs_version_is_read_back(
    a: Seq<char>,
    version: Seq<char>,
    b: Seq<char>,
)
    requires
        a.len() == 0 || ends_in(a, '\n'),
        !occurs(a, "#define SUSFS_VERSION"@),
        forall|i: int| 0 <= i < version.len() ==> version[i] != '\n' && version[i] != '"',
    ensures
        susfs_version_of(Some(a + "#define SUSFS_VERSION \""@ + version + "\"\n"@ + b)) == version,
        susfs_version_of(Some(a)) == "N/A"@,
        susfs_version_of(None) == "N/A"@,
{
    reveal_strlit("#define SUSFS_VERSION");
    reveal_strlit("#define SUSFS_VERSION \"");
    reveal_strlit("\"\n");
    reveal_strlit("\"");
    let name = "#define SUSFS_VERSION"@;
    let front = "#define SUSFS_VERSION \""@;
    let l = front + version.push('"');
    assert(a + l.push('\n') + b =~= a + front + version + "\"\n"@ + b);
    lemma_line_between(a, l, b);
    let lines = bare_lines(a) + seq![l] + bare_lines(b);
    assert(l.subrange(0, name.len() as int) =~= name);
    assert(occurs_at(l, name, 0));
    assert("\""@ =~= seq!['"']);
    lemma_find_char(l, '"', 0, 22);
    let k = front.len() + version.len();
    assert(l[k as int] == '"');
    assert forall|j: int| 23 <= j < k implies #[trigger] l[j] != '"' by {
        assert(l[j] == version[j - 23]);
    }
    lemma_find_char(l, '"', 23, k as int);
    assert(l.subrange(23, k as int) =~= version);
    lemma_no_version(a, bare_lines(a), 0);
    assert(lines[bare_lines(a).len() as int] == l);
    lemma_version_behind(a, lines, 0);
}

/// Lines without the definition give no version.
proof fn lemma_no_version(a: Seq<char>, lines: Seq<Seq<char>>, i: int)
    requires
        0 <= i,
        lines == bare_lines(a),
        !occurs(a, "#define SUSFS_VERSION"@),
    ensures
        version_from(lines, i) == "N/A"@,
    decreases lines.len() - i,
{
    if i < lines.len() {
        if occurs(lines[i], "#define SUSFS_VERSION"@) {
            lemma_line_has(a, i, "#define SUSFS_VERSION"@);
        }
        lemma_no_version(a, lines, i + 1);
    }
}

/// Lines without the definition are passed over.
proof fn lemma_version_behind(a: Seq<char>, lines: Seq<Seq<char>>, i: int)
    requires
        0 <= i <= bare_lines(a).len() < lines.len(),
        forall|k: int| 0 <= k < bare_lines(a).len() ==> lines[k] == bare_lines(a)[k],
        !occurs(a, "#define SUSFS_VERSION"@),
    ensures
        version_from(lines, i) == version_from(lines, bare_lines(a).len() as int),
    decreases bare_lines(a).len() - i,
{
    if i < bare_lines(a).len() {
        assert(lines[i] == bare_lines(a)[i]);
        if occurs(lines[i], "#define SUSFS_VERSION"@) {
            lemma_line_has(a, i, "#define SUSFS_VERSION"@);
        }
        lemma_version_behind(a, lines, i + 1);
    }
}

// ---------------------------------------------------------------------------
// Dates
// ---------------------------------------------------------------------------

/// A number below a hundred, in two digits, is read back.
proof fn lemma_two_digits_read_back(m: nat)
    requires
        m < 100,
    ensures
        all_digits(two_digits(m as int)),
        digits_value(two_digits(m as int)) == m,
{
    let d = two_digits(m as int);
    assert(is_digit(d[0]) && is_digit(d[1]));
    assert(d.drop_last() =~= seq![d[0]]);
    assert(seq![d[0]].drop_last() =~= Seq::<char>::empty());
    reveal_with_fuel(digits_value, 3);
    assert(digits_value(seq![d[0]]) == m / 10);
}

/// A year and a month that are written with a dash between them are read back. A month
/// that no year has, and a year of five digits or more, are told apart and refused.
pub proof fn law_months_are_read_back(y: nat, m: nat)
    requires
        y <= i32::MAX,
        m < 100,
    ensures
        date_of(decimal(y) + "-"@ + two_digits(m as int)) == (if m < 1 || m > 12 {
            Err::<(int, int), Seq<char>>(month_out_of_range_text())
        } else if y > 9999 {
            Err::<(int, int), Seq<char>>(year_out_of_range_text())
        } else {
            Ok::<(int, int), Seq<char>>((y as int, m as int))
        }),
{
    reveal_strlit("-");
    let (a, b) = (decimal(y), two_digits(m as int));
    let ym = a + "-"@ + b;
    law_numbers_read_back(y);
    lemma_two_digits_read_back(m);
    let k = a.len() as int;
    assert("-"@ =~= seq!['-']);
    assert(ym[k] == '-');
    assert forall|j: int| 0 <= j < k implies #[trigger] ym[j] != '-' by {
        assert(is_digit(a[j]));
    }
    lemma_find_char(ym, '-', 0, k);
    assert(ym.take(k) =~= a);
    assert(ym.skip(k + 1) =~= b);
    assert(first_part(ym) == a);
    assert(behind_dash(ym) == b);
    assert forall|j: int| 0 <= j < b.len() implies #[trigger] b[j] != '-' by {
        assert(is_digit(b[j]));
    }
    lemma_no_char(b, '-', 0);
    assert(first_part(b) == b);
    assert(is_digit(a[0]));
    assert(is_digit(b[0]));
    assert(unsigned_value(a, i32::MAX as nat) == Some(y));
    assert(unsigned_value(b, u8::MAX as nat) == Some(m));
}

/// The tip of a series without a month of its own is stamped with the month of the build.
pub proof fn law_tips_are_stamped_with_this_month(y: nat, m: nat)
    requires
        y <= 9999,
        1 <= m <= 12,
    ensures
        date_of(year_month("lts"@, y as int, m as int)) == Ok::<(int, int), Seq<char>>(
            (y as int, m as int),
        ),
{
    reveal_strlit("lts");
    assert("lts"@.subrange(0, 3) =~= "lts"@);
    law_months_are_read_back(y, m);
}

// ---------------------------------------------------------------------------
// The sublevel
// ---------------------------------------------------------------------------

/// Every character of `s` is a blank or a tab.
pub open spec fn is_spacing(s: Seq<char>) -> bool {
    forall|i: int| 0 <= i < s.len() ==> (#[trigger] s[i]) == ' ' || s[i] == '\t'
}

proof fn lemma_spacing_is_skipped(p: Seq<char>, t: Seq<char>)
    requires
        is_spacing(p),
        t.len() == 0 || !is_class_space(t[0]),
    ensures
        class_space_skipped(p + t) == t,
    decreases p.len(),
{
    if p.len() == 0 {
        assert(p + t =~= t);
    } else {
        assert(is_class_space(p[0]));
        assert((p + t).skip(1) =~= p.skip(1) + t);
        lemma_spacing_is_skipped(p.skip(1), t);
    }
}

proof fn lemma_skipped_is_an_end(l: Seq<char>) -> (k: int)
    ensures
        0 <= k <= l.len(),
        class_space_skipped(l) == l.skip(k),
    decreases l.len(),
{
    if l.len() > 0 && is_class_space(l[0]) {
        let k = lemma_skipped_is_an_end(l.skip(1));
        assert(l.skip(1).skip(k) =~= l.skip(k + 1));
        k + 1
    } else {
        assert(l.skip(0) =~= l);
        0
    }
}

/// A line that sets the sublevel speaks of it.
proof fn lemma_assignment_names_it(l: Seq<char>)
    requires
        sets_sublevel(l),
    ensures
        occurs(l, "SUBLEVEL"@),
{
    let k = lemma_skipped_is_an_end(l);
    let n = "SUBLEVEL"@.len() as int;
    assert(l.skip(k).subrange(0, n) =~= l.subrange(k, k + n));
    assert(occurs_at(l, "SUBLEVEL"@, k));
}

/// No line is kept where none sets the sublevel.
proof fn lemma_none_kept(ls: Seq<Seq<char>>)
    requires
        forall|i: int| 0 <= i < ls.len() ==> !sets_sublevel(#[trigger] ls[i]),
    ensures
        ls.filter(sublevel_line()) == Seq::<Seq<char>>::empty(),
    decreases ls.len(),
{
    reveal(Seq::filter);
    if ls.len() > 0 {
        let d = ls.drop_last();
        assert forall|i: int| 0 <= i < d.len() implies !sets_sublevel(#[trigger] d[i]) by {
            assert(d[i] == ls[i]);
        }
        lemma_none_kept(d);
        assert(ls.last() == ls[ls.len() - 1]);
    }
}

/// The lines of a text that does not speak of the sublevel do not set it.
proof fn lemma_no_assignment(a: Seq<char>)
    requires
        !occurs(a, "SUBLEVEL"@),
    ensures
        bare_lines(a).filter(sublevel_line()) == Seq::<Seq<char>>::empty(),
{
    let ls = bare_lines(a);
    assert forall|i: int| 0 <= i < ls.len() implies !sets_sublevel(#[trigger] ls[i]) by {
        if sets_sublevel(ls[i]) {
            lemma_assignment_names_it(ls[i]);
            lemma_line_has(a, i, "SUBLEVEL"@);
        }
    }
    lemma_none_kept(ls);
}

/// A line that sets the sublevel.
spec fn assignment(
    lead: Seq<char>,
    left: Seq<char>,
    right: Seq<char>,
    digits: Seq<char>,
) -> Seq<char> {
    lead + "SUBLEVEL"@ + left + "="@ + right + digits
}

/// Such a line is one line.
proof fn lemma_assignment_is_a_line(
    lead: Seq<char>,
    left: Seq<char>,
    right: Seq<char>,
    digits: Seq<char>,
)
    requires
        is_spacing(lead),
        is_spacing(left),
        is_spacing(right),
        all_digits(digits),
    ensures
        forall|i: int|
            0 <= i < assignment(lead, left, right, digits).len() ==> assignment(
                lead,
                left,
                right,
                digits,
            )[i] != '\n',
        !ends_in(assignment(lead, left, right, digits), '\r'),
{
    reveal_strlit("SUBLEVEL");
    reveal_strlit("=");
    let name = "SUBLEVEL"@;
    let l = assignment(lead, left, right, digits);
    let n = lead.len() as int + 8 + left.len();
    assert forall|i: int| 0 <= i < l.len() implies l[i] != '\n' && #[trigger] l[i] != '\r' by {
        if i < lead.len() {
            assert(l[i] == lead[i]);
        } else if i < lead.len() + 8 {
            assert(l[i] == name[i - lead.len()]);
        } else if i < n {
            assert(l[i] == left[i - lead.len() - 8]);
        } else if i > n && i <= n + right.len() {
            assert(l[i] == right[i - n - 1]);
        } else if i > n {
            assert(l[i] == digits[i - n - 1 - right.len()]);
            assert(is_digit(digits[i - n - 1 - right.len()]));
        }
    }
}

/// Such a line is taken for one, and has the digits for its value.
proof fn lemma_assignment_sets_it(
    lead: Seq<char>,
    left: Seq<char>,
    right: Seq<char>,
    digits: Seq<char>,
)
    requires
        is_spacing(lead),
        is_spacing(left),
        is_spacing(right),
        digits.len() > 0,
        all_digits(digits),
    ensures
        sets_sublevel(assignment(lead, left, right, digits)),
        assigned_value(assignment(lead, left, right, digits)) == digits,
{
    reveal_strlit("SUBLEVEL");
    reveal_strlit("=");
    let name = "SUBLEVEL"@;
    let l = assignment(lead, left, right, digits);
    let n = lead.len() as int + 8 + left.len();
    let u = "="@ + right + digits;
    let t = name + (left + u);
    assert(l =~= lead + t);
    lemma_spacing_is_skipped(lead, t);
    assert(t.subrange(0, 8) =~= name);
    assert(t.skip(8) =~= left + u);
    lemma_spacing_is_skipped(left, u);
    assert("="@ =~= seq!['=']);
    assert(l[n] == '=');
    assert forall|j: int| 0 <= j < n implies #[trigger] l[j] != '=' by {
        if j < lead.len() {
            assert(l[j] == lead[j]);
        } else if j < lead.len() + 8 {
            assert(l[j] == name[j - lead.len()]);
        } else {
            assert(l[j] == left[j - lead.len() - 8]);
        }
    }
    lemma_find_char(l, '=', 0, n);
    assert(l.skip(n + 1) =~= right + digits);
    assert(is_digit(digits[0]) && is_digit(digits[digits.len() - 1]));
    assert(is_blank(right)) by {
        assert forall|i: int| 0 <= i < right.len() implies is_white(#[trigger] right[i]) by {}
    }
    lemma_front_is_cut(right, digits);
    let e = Seq::<char>::empty();
    lemma_end_is_cut(digits, e);
    assert(digits + e =~= digits);
}

/// The one line that sets the sublevel is the one that is kept.
proof fn lemma_one_is_kept(la: Seq<Seq<char>>, l: Seq<char>, lb: Seq<Seq<char>>)
    requires
        la.filter(sublevel_line()) == Seq::<Seq<char>>::empty(),
        lb.filter(sublevel_line()) == Seq::<Seq<char>>::empty(),
        sets_sublevel(l),
    ensures
        (la + seq![l] + lb).filter(sublevel_line()) == seq![l],
{
    let p = sublevel_line();
    Seq::filter_distributes_over_add(la + seq![l], lb, p);
    Seq::filter_distributes_over_add(la, seq![l], p);
    assert(seq![l].filter(p) =~= seq![l]) by {
        reveal(Seq::filter);
        assert(seq![l].drop_last() =~= Seq::<Seq<char>>::empty());
        assert(seq![l].drop_last().filter(p) =~= Seq::<Seq<char>>::empty());
    }
    assert((la + seq![l] + lb).filter(p) =~= seq![l]);
}

/// The sublevel that a Makefile sets in one line is read back, whatever the spacing. A
/// Makefile that does not speak of it is refused.
pub proof fn law_sublevel_is_read_back(
    a: Seq<char>,
    b: Seq<char>,
    lead: Seq<char>,
    left: Seq<char>,
    right: Seq<char>,
    digits: Seq<char>,
    path: Seq<char>,
)
    requires
        a.len() == 0 || ends_in(a, '\n'),
        !occurs(a, "SUBLEVEL"@),
        !occurs(b, "SUBLEVEL"@),
        is_spacing(lead),
        is_spacing(left),
        is_spacing(right),
        digits.len() > 0,
        all_digits(digits),
    ensures
        makefile_sublevel(
            a + (lead + "SUBLEVEL"@ + left + "="@ + right + digits) + "\n"@ + b,
            path,
        ) == Ok::<Seq<char>, Seq<char>>(digits),
        makefile_sublevel(a, path) == Err::<Seq<char>, Seq<char>>(sublevel_count_text(path, 0)),
{
    reveal_strlit("\n");
    let l = assignment(lead, left, right, digits);
    assert(l == lead + "SUBLEVEL"@ + left + "="@ + right + digits);
    lemma_assignment_is_a_line(lead, left, right, digits);
    lemma_assignment_sets_it(lead, left, right, digits);
    lemma_line_between(a, l, b);
    assert(a + l.push('\n') + b =~= a + l + "\n"@ + b);
    lemma_no_assignment(a);
    lemma_no_assignment(b);
    lemma_one_is_kept(bare_lines(a), l, bare_lines(b));
}

// ---------------------------------------------------------------------------
// What is asked for
// ---------------------------------------------------------------------------

/// A filter is one word, whatever its case and the white space around it; the word that
/// stands for all filters nothing. The plain variant asks for no variant, and every other
/// one for itself.
pub proof fn law_filters_are_one_word(
    p: Seq<char>,
    w: Seq<char>,
    q: Seq<char>,
    variant: Seq<char>,
)
    requires
        is_blank(p),
        is_word(w),
        is_blank(q),
        is_ascii_text(w),
    ensures
        filter_of(p + w + q) == (if ascii_lowered(w) == "all"@ {
            Seq::<char>::empty()
        } else {
            ascii_lowered(w)
        }),
        filter_of(p) == Seq::<char>::empty(),
        requested_of(variant) == (if variant == "Normal"@ {
            Seq::<char>::empty()
        } else {
            variant
        }),
{
    assert(p + w + q =~= p + (w + q));
    lemma_front_is_cut(p, w + q);
    assert(!is_white(w[w.len() - 1]));
    lemma_end_is_cut(w, q);
    let e = Seq::<char>::empty();
    lemma_front_is_cut(p, e);
    assert(p + e =~= p);
    assert(ascii_lowered(e) =~= e);
}

} // verus!
