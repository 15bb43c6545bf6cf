//! What characters, numbers and paths as texts promise.
use crate::paths::{joined_path, parent_of};
use crate::process::{is_full_sha, missing_of};
use crate::text::{
    all_digits, ascii_lowered, decimal, digits_value, is_digit,
    is_hex_digit, is_white, signed_decimal, trimmed, trimmed_end, trimmed_start, unsigned_value,
};
use crate::version::{
    digit_runs, key_of, run_len, sublevel_at_least, sublevel_at_most, sublevel_number,
};
use vstd::prelude::*;

verus! {

/// White space is tab, line feed, vertical tab, form feed, carriage return, space, next
/// line, the no-break space and the twelve spaces and two separators above Latin that
/// Unicode counts among it, and nothing else.
pub proof fn law_white_space_is_that_of_unicode(c: char)
    ensures
        ({
            let n = c as int;
            is_white(c) <==> {
                ||| 0x9 <= n <= 0xd
                ||| n == 0x20 || n == 0x85 || n == 0xa0 || n == 0x1680
                ||| 0x2000 <= n <= 0x200a
                ||| n == 0x2028 || n == 0x2029 || n == 0x202f || n == 0x205f || n == 0x3000
            }
        }),
{
}

/// A text that was trimmed neither begins nor ends in white space, is a stretch of the
/// text, and what was cut off in front and behind is white space.
pub proof fn law_trimming_cuts_white_space(s: Seq<char>) -> (cut: (int, int))
    ensures
        0 <= cut.0 <= cut.1 <= s.len(),
        trimmed(s) == s.subrange(cut.0, cut.1),
        forall|i: int| 0 <= i < s.len() && !(cut.0 <= i < cut.1) ==> is_white(#[trigger] s[i]),
        trimmed(s).len() > 0 ==> !is_white(trimmed(s)[0]) && !is_white(trimmed(s).last()),
{
    let a = lemma_front_cut(s);
    let t = s.skip(a);
    let b = lemma_end_cut(t);
    assert(trimmed(s) =~= s.subrange(a, a + b));
    assert forall|i: int| 0 <= i < s.len() && !(a <= i < a + b) implies is_white(
        #[trigger] s[i],
    ) by {
        if i >= a + b {
            assert(t[i - a] == s[i]);
        }
    }
    if b > 0 {
        assert(t[0] == s[a]);
    }
    (a, a + b)
}

proof fn lemma_front_cut(s: Seq<char>) -> (a: int)
    ensures
        0 <= a <= s.len(),
        trimmed_start(s) == s.skip(a),
        forall|i: int| 0 <= i < a ==> is_white(#[trigger] s[i]),
        a < s.len() ==> !is_white(s[a]),
    decreases s.len(),
{
    if s.len() > 0 && is_white(s[0]) {
        let t = s.skip(1);
        let b = lemma_front_cut(t);
        assert(t.skip(b) =~= s.skip(b + 1));
        assert forall|i: int| 0 <= i < b + 1 implies is_white(#[trigger] s[i]) by {
            if i > 0 {
                assert(t[i - 1] == s[i]);
            }
        }
        b + 1
    } else {
        assert(s.skip(0) =~= s);
        0
    }
}

proof fn lemma_end_cut(s: Seq<char>) -> (b: int)
    ensures
        0 <= b <= s.len(),
        trimmed_end(s) == s.take(b),
        forall|i: int| b <= i < s.len() ==> is_white(#[trigger] s[i]),
        b > 0 ==> !is_white(s[b - 1]),
    decreases s.len(),
{
    if s.len() > 0 && is_white(s.last()) {
        let t = s.drop_last();
        let b = lemma_end_cut(t);
        assert(t.take(b) =~= s.take(b));
        assert forall|i: int| b <= i < s.len() implies is_white(#[trigger] s[i]) by {
            if i < t.len() {
                assert(t[i] == s[i]);
            }
        }
        b
    } else {
        assert(s.take(s.len() as int) =~= s);
        s.len() as int
    }
}

/// A number that is written out reads as itself.
pub proof fn law_numbers_read_back(n: nat)
    ensures
        decimal(n).len() > 0,
        all_digits(decimal(n)),
        digits_value(decimal(n)) == n,
        unsigned_value(decimal(n), n) == Some(n),
        n > 0 ==> decimal(n)[0] != '0',
    decreases n,
{
    let d = decimal(n);
    if n < 10 {
        assert(d.drop_last() =~= Seq::<char>::empty());
        assert(digits_value(d.drop_last()) == 0);
        assert(is_digit(d[0]));
    } else {
        law_numbers_read_back(n / 10);
        assert(d.drop_last() =~= decimal(n / 10));
        assert(d[0] == decimal(n / 10)[0]);
        assert forall|i: int| 0 <= i < d.len() implies is_digit(#[trigger] d[i]) by {
            if i < d.len() - 1 {
                assert(d[i] == decimal(n / 10)[i]);
            }
        }
    }
    assert(d[0] != '+');
}

/// A negative number is written as its opposite with a minus sign in front.
pub proof fn law_negative_numbers_have_a_sign(n: nat)
    ensures
        signed_decimal(n as int) == decimal(n),
        n > 0 ==> signed_decimal(-(n as int)) == seq!['-'] + decimal(n),
{
}

/// Lower case changes the twenty-six capitals, each to its letter, and keeps the rest; it
/// keeps the length, and a second time changes nothing.
pub proof fn law_lower_case_keeps_the_rest(s: Seq<char>, i: int)
    requires
        0 <= i < s.len(),
    ensures
        ascii_lowered(s).len() == s.len(),
        ascii_lowered(ascii_lowered(s)) == ascii_lowered(s),
        0x41 <= s[i] as int <= 0x5a ==> ascii_lowered(s)[i] as int == s[i] as int + 0x20,
        !(0x41 <= s[i] as int <= 0x5a) ==> ascii_lowered(s)[i] == s[i],
{
    assert(ascii_lowered(ascii_lowered(s)) =~= ascii_lowered(s));
}

/// The parent of a path below a directory is the directory.
pub proof fn law_parent_undoes_join(dir: Seq<char>, name: Seq<char>)
    requires
        dir.len() > 0,
        dir.last() != '/',
        name.len() > 0,
        forall|i: int| 0 <= i < name.len() ==> name[i] != '/',
    ensures
        parent_of(joined_path(dir, name)) == dir,
{
    reveal_strlit("/");
    lemma_parent(dir, name);
    assert(dir + "/"@ + name =~= dir.push('/') + name);
}

proof fn lemma_parent(dir: Seq<char>, name: Seq<char>)
    requires
        forall|i: int| 0 <= i < name.len() ==> name[i] != '/',
    ensures
        parent_of(dir.push('/') + name) == dir,
    decreases name.len(),
{
    let p = dir.push('/') + name;
    if name.len() == 0 {
        assert(p.drop_last() =~= dir);
    } else {
        lemma_parent(dir, name.drop_last());
        assert(p.drop_last() =~= dir.push('/') + name.drop_last());
        assert(p.last() == name.last());
    }
}

/// A commit in full has forty characters, each a digit or one of the first six letters in
/// either case.
pub proof fn law_full_commits_are_forty_digits(s: Seq<char>)
    ensures
        is_full_sha(s) <==> s.len() == 40 && (forall|i: int|
            0 <= i < s.len() ==> {
                let n = #[trigger] s[i] as int;
                0x30 <= n <= 0x39 || 0x41 <= n <= 0x46 || 0x61 <= n <= 0x66
            }),
{
    if is_full_sha(s) {
        assert forall|i: int| 0 <= i < s.len() implies ({
            let n = #[trigger] s[i] as int;
            0x30 <= n <= 0x39 || 0x41 <= n <= 0x46 || 0x61 <= n <= 0x66
        }) by {
            assert(is_hex_digit(s[i]));
        }
    }
}

/// A tool is among those that are missing exactly where it is required and was not found.
pub proof fn law_missing_tools_were_not_found(
    tools: Seq<Seq<char>>,
    found: Seq<bool>,
    n: int,
    tool: Seq<char>,
)
    requires
        0 <= n <= tools.len(),
        n <= found.len(),
    ensures
        missing_of(tools, found, n).contains(tool) <==> (exists|i: int|
            0 <= i < n && !found[i] && #[trigger] tools[i] == tool),
    decreases n,
{
    let m = missing_of(tools, found, n);
    if n <= 0 {
        assert(m.len() == 0);
    } else {
        law_missing_tools_were_not_found(tools, found, n - 1, tool);
        let front = missing_of(tools, found, n - 1);
        if !found[n - 1] {
            assert(m == front.push(tools[n - 1]));
            assert(m.last() == tools[n - 1]);
            if front.contains(tool) {
                let k = choose|k: int| 0 <= k < front.len() && front[k] == tool;
                assert(m[k] == tool);
            }
            if m.contains(tool) && tools[n - 1] != tool {
                let k = choose|k: int| 0 <= k < m.len() && m[k] == tool;
                assert(front[k] == tool);
            }
            if tools[n - 1] == tool {
                assert(m[m.len() - 1] == tool);
            }
        }
    }
}

/// Digits in front of something else are one run.
proof fn lemma_one_run(d: Seq<char>, rest: Seq<char>)
    requires
        all_digits(d),
        rest.len() > 0 ==> !is_digit(rest[0]),
    ensures
        run_len(d + rest) == d.len(),
        d.len() > 0 ==> digit_runs(d + rest) == seq![d] + digit_runs(rest),
    decreases d.len(),
{
    let s = d + rest;
    if d.len() == 0 {
        assert(s =~= rest);
    } else {
        let t = d.skip(1);
        assert forall|i: int| 0 <= i < t.len() implies is_digit(#[trigger] t[i]) by {
            assert(t[i] == d[i + 1]);
        }
        lemma_one_run(t, rest);
        assert(s.skip(1) =~= t + rest);
        assert(is_digit(d[0]));
        assert(run_len(s) == d.len());
        assert(s.take(d.len() as int) =~= d);
        assert(s.skip(d.len() as int) =~= rest);
    }
}

/// The numbers of a version are those that it is written with, whatever they are.
pub proof fn law_versions_read_back(a: u64, b: u64)
    ensures
        key_of(decimal(a as nat) + "."@ + decimal(b as nat)) == seq![a, b],
{
    reveal_strlit(".");
    let (x, y) = (decimal(a as nat), decimal(b as nat));
    law_numbers_read_back(a as nat);
    law_numbers_read_back(b as nat);
    let none = Seq::<char>::empty();
    let rest = "."@ + y;
    assert(x + "."@ + y =~= x + rest);
    lemma_one_run(x, rest);
    lemma_one_run(y, none);
    assert(y + none =~= y);
    assert(digit_runs(none) =~= Seq::<Seq<char>>::empty());
    assert(digit_runs(y) =~= seq![y]);
    assert(rest.skip(1) =~= y);
    assert(digit_runs(rest) == digit_runs(y));
    assert(digit_runs(x + rest) =~= seq![x, y]);
    assert(key_of(x + rest) =~= seq![a, b]);
}

/// A sublevel that is written as a number meets the bounds that the number meets.
pub proof fn law_sublevels_go_by_their_number(n: u64, bound: u64)
    ensures
        sublevel_number(decimal(n as nat)) == Some(n as nat),
        sublevel_at_most(decimal(n as nat), bound) <==> n <= bound,
        sublevel_at_least(decimal(n as nat), bound) <==> n >= bound,
{
    law_numbers_read_back(n as nat);
    let d = decimal(n as nat);
    assert(is_digit(d[0]) && is_digit(d[d.len() - 1]));
    assert(d[0] != '+');
    assert(trimmed(d) == d);
}

} // verus!
