//! Trimming, words, numbers and concatenation.
use crate::text::{
    all_digits, ascii_lowered, chars_of, chomped, decimal, digit_char, digits_value, first_word,
    is_digit, is_white, joined_with, last_word, range_of, signed_decimal, string_of, texts,
    trimmed, trimmed_end, trimmed_start, unsigned_value, vec_same, word_len, word_suffix,
};
use vstd::prelude::*;
use vstd::string::*;

verus! {

/// Tells whether `c` is whitespace.
pub fn white(c: char) -> (r: bool)
    ensures
        r == is_white(c),
{
    ('\u{9}' <= c && c <= '\u{d}') || c == ' ' || c == '\u{85}' || c == '\u{a0}' || c == '\u{1680}'
        || ('\u{2000}' <= c && c <= '\u{200a}') || c == '\u{2028}' || c == '\u{2029}' || c
        == '\u{202f}' || c == '\u{205f}' || c == '\u{3000}'
}

/// The index at which `v` without leading whitespace begins.
pub fn start_index(v: &Vec<char>) -> (i: usize)
    ensures
        i <= v@.len(),
        v@.skip(i as int) == trimmed_start(v@),
{
    let mut i: usize = 0;
    assert(v@.skip(0) =~= v@);
    while i < v.len() && white(v[i])
        invariant
            i <= v@.len(),
            trimmed_start(v@) == trimmed_start(v@.skip(i as int)),
        decreases v@.len() - i,
    {
        assert(v@.skip(i as int).skip(1) =~= v@.skip(i + 1));
        i += 1;
    }
    i
}

/// The length of `v` without trailing whitespace.
pub fn end_index(v: &Vec<char>) -> (i: usize)
    ensures
        i <= v@.len(),
        v@.take(i as int) == trimmed_end(v@),
{
    let mut i: usize = v.len();
    assert(v@.take(i as int) =~= v@);
    while i > 0 && white(v[i - 1])
        invariant
            i <= v@.len(),
            trimmed_end(v@) == trimmed_end(v@.take(i as int)),
        decreases i,
    {
        assert(v@.take(i as int).drop_last() =~= v@.take(i - 1));
        i -= 1;
    }
    i
}

/// `v` without whitespace at either end.
pub fn vec_trim(v: &Vec<char>) -> (r: Vec<char>)
    ensures
        r@ == trimmed(v@),
{
    let i: usize = start_index(v);
    let n: usize = v.len();
    let w = range_of(v, i, n);
    assert(w@ =~= v@.skip(i as int));
    let k: usize = end_index(&w);
    let r = range_of(&w, 0, k);
    assert(r@ =~= w@.take(k as int));
    r
}

/// `s` without whitespace at either end.
pub fn trim(s: &str) -> (r: String)
    ensures
        r@ == trimmed(s@),
{
    string_of(&vec_trim(&chars_of(s)))
}

/// The first whitespace-separated word of `v`, empty when there is none.
pub fn vec_first_word(v: &Vec<char>) -> (r: Vec<char>)
    ensures
        r@ == first_word(v@),
{
    let start: usize = start_index(v);
    let ghost t = trimmed_start(v@);
    let mut i: usize = start;
    assert(t.skip(0) =~= t);
    while i < v.len() && !white(v[i])
        invariant
            start <= i <= v@.len(),
            t == v@.skip(start as int),
            word_len(t) == (i - start) + word_len(t.skip(i - start)),
        decreases v@.len() - i,
    {
        assert(t.skip(i - start).skip(1) =~= t.skip(i + 1 - start));
        i += 1;
    }
    let r = range_of(v, start, i);
    assert(r@ =~= t.take(i - start));
    r
}

/// The last whitespace-separated word of `v`, empty when there is none.
pub fn vec_last_word(v: &Vec<char>) -> (r: Vec<char>)
    ensures
        r@ == last_word(v@),
{
    let end: usize = end_index(v);
    let ghost t = trimmed_end(v@);
    let mut i: usize = end;
    assert(t.take(t.len() as int) =~= t);
    assert(t.skip(t.len() as int) =~= Seq::<char>::empty());
    while i > 0 && !white(v[i - 1])
        invariant
            i <= end <= v@.len(),
            t == v@.take(end as int),
            word_suffix(t) == word_suffix(t.take(i as int)) + t.skip(i as int),
        decreases i,
    {
        assert(t.take(i as int).drop_last() =~= t.take(i - 1));
        assert(word_suffix(t.take(i - 1)).push(t[i - 1]) + t.skip(i as int) =~= word_suffix(
            t.take(i - 1),
        ) + t.skip(i - 1));
        i -= 1;
    }
    let r = range_of(v, i, end);
    assert(r@ =~= t.skip(i as int));
    assert(Seq::<char>::empty() + r@ =~= r@);
    r
}

/// `v` without trailing line feeds and carriage returns.
pub fn vec_chomp(v: &Vec<char>) -> (r: Vec<char>)
    ensures
        r@ == chomped(v@),
{
    let mut i: usize = v.len();
    assert(v@.take(i as int) =~= v@);
    while i > 0 && (v[i - 1] == '\n' || v[i - 1] == '\r')
        invariant
            i <= v@.len(),
            chomped(v@) == chomped(v@.take(i as int)),
        decreases i,
    {
        assert(v@.take(i as int).drop_last() =~= v@.take(i - 1));
        i -= 1;
    }
    let r = range_of(v, 0, i);
    assert(r@ =~= v@.take(i as int));
    r
}

/// Tells whether every character of `v` is a decimal digit.
pub fn vec_all_digits(v: &Vec<char>) -> (r: bool)
    ensures
        r == all_digits(v@),
{
    let mut i: usize = 0;
    while i < v.len()
        invariant
            i <= v@.len(),
            forall|j: int| 0 <= j < i ==> is_digit(#[trigger] v@[j]),
        decreases v@.len() - i,
    {
        if !('0' <= v[i] && v[i] <= '9') {
            return false;
        }
        i += 1;
    }
    true
}

/// The prefix of a digit string writes no greater a number than the whole.
pub proof fn lemma_digits_value_prefix(s: Seq<char>, i: int)
    requires
        0 <= i <= s.len(),
        all_digits(s),
    ensures
        digits_value(s.take(i)) <= digits_value(s),
    decreases s.len(),
{
    if i < s.len() {
        assert(s.drop_last().take(i) =~= s.take(i));
        lemma_digits_value_prefix(s.drop_last(), i);
    } else {
        assert(s.take(i) =~= s);
    }
}

/// The number that the digits of `v` write, where it is at most `max`.
pub fn vec_digits(v: &Vec<char>, max: u64) -> (r: Option<u64>)
    requires
        all_digits(v@),
    ensures
        r matches Some(n) ==> digits_value(v@) == n && n <= max,
        r is None ==> digits_value(v@) > max,
{
    let mut acc: u64 = 0;
    let mut i: usize = 0;
    assert(v@.take(0) =~= Seq::<char>::empty());
    while i < v.len()
        invariant
            i <= v@.len(),
            all_digits(v@),
            acc == digits_value(v@.take(i as int)),
            acc <= max,
        decreases v@.len() - i,
    {
        let d: u64 = (v[i] as u32 - '0' as u32) as u64;
        proof {
            assert(is_digit(v@[i as int]));
            assert(v@.take(i + 1).drop_last() =~= v@.take(i as int));
            lemma_digits_value_prefix(v@, i + 1);
        }
        if acc > max / 10 || acc * 10 > max - d.min(max) || d > max {
            assert(acc * 10 + d > max);
            return None;
        }
        acc = acc * 10 + d;
        i += 1;
    }
    assert(v@.take(v@.len() as int) =~= v@);
    Some(acc)
}

/// What an unsigned integer type with greatest value `max` reads from `s`.
pub fn vec_unsigned(v: &Vec<char>, max: u64) -> (r: Option<u64>)
    ensures
        r matches Some(n) ==> unsigned_value(v@, max as nat) == Some(n as nat),
        r is None ==> unsigned_value(v@, max as nat) is None,
{
    let from: usize = if v.len() > 0 && v[0] == '+' {
        1
    } else {
        0
    };
    let n: usize = v.len();
    let d = range_of(v, from, n);
    assert(d@ =~= v@.skip(from as int));
    assert(from == 0 ==> d@ =~= v@);
    if d.len() == 0 || !vec_all_digits(&d) {
        return None;
    }
    vec_digits(&d, max)
}

/// `n` in decimal, as characters.
pub fn vec_decimal(n: u64) -> (r: Vec<char>)
    ensures
        r@ == decimal(n as nat),
    decreases n,
{
    let d: u8 = (n % 10) as u8;
    let c: char = ('0' as u8 + d) as char;
    if n < 10 {
        let mut r: Vec<char> = Vec::new();
        r.push(c);
        assert(r@ =~= seq![digit_char(n as nat)]);
        r
    } else {
        let mut r = vec_decimal(n / 10);
        r.push(c);
        r
    }
}

/// `n` in decimal.
pub fn decimal_text(n: u64) -> (r: String)
    ensures
        r@ == decimal(n as nat),
{
    string_of(&vec_decimal(n))
}

/// `n` in decimal, with a minus sign where it is negative.
pub fn signed_text(n: i64) -> (r: String)
    ensures
        r@ == signed_decimal(n as int),
{
    if n < 0 {
        let m: u64 = (-(n as i128)) as u64;
        let d = decimal_text(m);
        proof {
            reveal_strlit("-");
            assert("-"@ =~= seq!['-']);
        }
        cat2("-", &d)
    } else {
        decimal_text(n as u64)
    }
}

/// Tells whether `a` and `b` differ at most in the case of ASCII letters.
pub fn same_ignoring_ascii_case(a: &str, b: &str) -> (r: bool)
    ensures
        r == (ascii_lowered(a@) == ascii_lowered(b@)),
{
    vec_same(&ascii_lower_chars(a), &ascii_lower_chars(b))
}

/// The characters of `s` with its ASCII capitals in lower case.
pub fn ascii_lower_chars(s: &str) -> (r: Vec<char>)
    ensures
        r@ == ascii_lowered(s@),
{
    let v = chars_of(s);
    let mut r: Vec<char> = Vec::new();
    let mut i: usize = 0;
    while i < v.len()
        invariant
            i <= v@.len(),
            v@ == s@,
            r@ == ascii_lowered(v@).take(i as int),
        decreases v@.len() - i,
    {
        let c: char = v[i];
        let l: char = if 'A' <= c && c <= 'Z' {
            (c as u8 + 32) as char
        } else {
            c
        };
        r.push(l);
        i += 1;
        assert(r@ =~= ascii_lowered(v@).take(i as int));
    }
    assert(ascii_lowered(v@).take(v@.len() as int) =~= ascii_lowered(v@));
    r
}

// ---------------------------------------------------------------------------
// Concatenation
// ---------------------------------------------------------------------------

/// `a` and `b` one after the other.
pub fn cat2(a: &str, b: &str) -> (r: String)
    ensures
        r@ == a@ + b@,
{
    let mut r = a.to_owned();
    r.append(b);
    r
}

/// The texts `a`, `b`, `c` one after the other.
pub fn cat3(a: &str, b: &str, c: &str) -> (r: String)
    ensures
        r@ == a@ + b@ + c@,
{
    let mut r = cat2(a, b);
    r.append(c);
    r
}

/// The texts `a` to `d` one after the other.
pub fn cat4(a: &str, b: &str, c: &str, d: &str) -> (r: String)
    ensures
        r@ == a@ + b@ + c@ + d@,
{
    let mut r = cat3(a, b, c);
    r.append(d);
    r
}

/// The texts `a` to `e` one after the other.
pub fn cat5(a: &str, b: &str, c: &str, d: &str, e: &str) -> (r: String)
    ensures
        r@ == a@ + b@ + c@ + d@ + e@,
{
    let mut r = cat4(a, b, c, d);
    r.append(e);
    r
}

/// The texts `a` to `g` one after the other.
pub fn cat7(a: &str, b: &str, c: &str, d: &str, e: &str, f: &str, g: &str) -> (r: String)
    ensures
        r@ == a@ + b@ + c@ + d@ + e@ + f@ + g@,
{
    let mut r = cat5(a, b, c, d, e);
    r.append(f);
    r.append(g);
    r
}

/// The texts `a` to `i` one after the other.
pub fn cat9(
    a: &str,
    b: &str,
    c: &str,
    d: &str,
    e: &str,
    f: &str,
    g: &str,
    h: &str,
    i: &str,
) -> (r: String)
    ensures
        r@ == a@ + b@ + c@ + d@ + e@ + f@ + g@ + h@ + i@,
{
    let mut r = cat7(a, b, c, d, e, f, g);
    r.append(h);
    r.append(i);
    r
}

/// The pieces one after the other with `sep` between neighbours.
pub fn join_with(pieces: &Vec<String>, sep: &str) -> (r: String)
    ensures
        r@ == joined_with(texts(pieces@), sep@),
{
    let mut r = String::new();
    let mut i: usize = 0;
    let ghost all = texts(pieces@);
    while i < pieces.len()
        invariant
            i <= pieces@.len(),
            all == texts(pieces@),
            r@ == joined_with(all.take(i as int), sep@),
        decreases pieces@.len() - i,
    {
        assert(all.take(i + 1).drop_last() =~= all.take(i as int));
        assert(all.take(i + 1).last() == pieces@[i as int]@);
        if i > 0 {
            r.append(sep);
        }
        r.append(pieces[i].as_str());
        i += 1;
        assert(r@ =~= joined_with(all.take(i as int), sep@));
    }
    assert(all.take(all.len() as int) =~= all);
    r
}

} // verus!
