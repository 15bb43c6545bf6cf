//! Character sequences: conversion, search, splitting and replacement.
//!
//! Text is modelled as `Seq<char>`. Executable functions take `&str`, work on a
//! vector of characters and give back a `String`.
use vstd::prelude::*;

verus! {

/// `String::push` appends the given character to the end of the string.
pub assume_specification[ String::push ](s: &mut String, c: char)
    ensures
        final(s)@ == old(s)@.push(c),
;

// ---------------------------------------------------------------------------
// Models
// ---------------------------------------------------------------------------

/// `n` stands in `s` at index `i`.
pub open spec fn occurs_at(s: Seq<char>, n: Seq<char>, i: int) -> bool {
    &&& 0 <= i
    &&& i + n.len() <= s.len()
    &&& s.subrange(i, i + n.len()) == n
}

/// `n` stands somewhere in `s`.
pub open spec fn occurs(s: Seq<char>, n: Seq<char>) -> bool {
    exists|i: int| occurs_at(s, n, i)
}

/// The first index from `i` on at which `n` stands in `s`.
pub open spec fn find_from(s: Seq<char>, n: Seq<char>, i: int) -> Option<int>
    decreases s.len() + 1 - i,
{
    if i + n.len() > s.len() {
        None
    } else if occurs_at(s, n, i) {
        Some(i)
    } else {
        find_from(s, n, i + 1)
    }
}

/// The first index at which `n` stands in `s`.
pub open spec fn first_at(s: Seq<char>, n: Seq<char>) -> Option<int> {
    find_from(s, n, 0)
}

/// `s` begins with `p`.
pub open spec fn begins(s: Seq<char>, p: Seq<char>) -> bool {
    occurs_at(s, p, 0)
}

/// `s` ends with the character `c`.
pub open spec fn ends_in(s: Seq<char>, c: char) -> bool {
    s.len() > 0 && s.last() == c
}

/// `s` ends with `p`.
pub open spec fn ends(s: Seq<char>, p: Seq<char>) -> bool {
    p.len() <= s.len() && s.skip(s.len() - p.len()) == p
}

/// `s` with every occurrence of `from`, taken from the left and without overlap,
/// replaced by `to`.
pub open spec fn replaced(s: Seq<char>, from: Seq<char>, to: Seq<char>) -> Seq<char>
    decreases s.len(),
{
    if from.len() == 0 || s.len() < from.len() {
        s
    } else if begins(s, from) {
        to + replaced(s.skip(from.len() as int), from, to)
    } else {
        seq![s[0]] + replaced(s.skip(1), from, to)
    }
}

/// `s` with the first occurrence of `from` replaced by `to`.
pub open spec fn replaced_first(s: Seq<char>, from: Seq<char>, to: Seq<char>) -> Seq<char> {
    match first_at(s, from) {
        Some(i) => s.take(i) + to + s.skip(i + from.len()),
        None => s,
    }
}

/// `s` with `t` put in at index `i`.
pub open spec fn inserted_at(s: Seq<char>, i: int, t: Seq<char>) -> Seq<char> {
    s.take(i) + t + s.skip(i)
}

/// `c` has the Unicode property White_Space.
pub open spec fn is_white(c: char) -> bool {
    ||| '\u{9}' <= c <= '\u{d}'
    ||| c == ' '
    ||| c == '\u{85}'
    ||| c == '\u{a0}'
    ||| c == '\u{1680}'
    ||| '\u{2000}' <= c <= '\u{200a}'
    ||| c == '\u{2028}'
    ||| c == '\u{2029}'
    ||| c == '\u{202f}'
    ||| c == '\u{205f}'
    ||| c == '\u{3000}'
}

/// `s` without leading whitespace.
pub open spec fn trimmed_start(s: Seq<char>) -> Seq<char>
    decreases s.len(),
{
    if s.len() > 0 && is_white(s[0]) {
        trimmed_start(s.skip(1))
    } else {
        s
    }
}

/// `s` without trailing whitespace.
pub open spec fn trimmed_end(s: Seq<char>) -> Seq<char>
    decreases s.len(),
{
    if s.len() > 0 && is_white(s.last()) {
        trimmed_end(s.drop_last())
    } else {
        s
    }
}

/// `s` without whitespace at either end.
pub open spec fn trimmed(s: Seq<char>) -> Seq<char> {
    trimmed_end(trimmed_start(s))
}

/// The number of leading characters of `s` that are not whitespace.
pub open spec fn word_len(s: Seq<char>) -> nat
    decreases s.len(),
{
    if s.len() > 0 && !is_white(s[0]) {
        1 + word_len(s.skip(1))
    } else {
        0
    }
}

/// The first whitespace-separated word of `s`, empty when there is none.
pub open spec fn first_word(s: Seq<char>) -> Seq<char> {
    trimmed_start(s).take(word_len(trimmed_start(s)) as int)
}

/// The longest suffix of `s` free of whitespace.
pub open spec fn word_suffix(s: Seq<char>) -> Seq<char>
    decreases s.len(),
{
    if s.len() > 0 && !is_white(s.last()) {
        word_suffix(s.drop_last()).push(s.last())
    } else {
        seq![]
    }
}

/// The last whitespace-separated word of `s`, empty when there is none.
pub open spec fn last_word(s: Seq<char>) -> Seq<char> {
    word_suffix(trimmed_end(s))
}

/// `s` without trailing line feeds and carriage returns.
pub open spec fn chomped(s: Seq<char>) -> Seq<char>
    decreases s.len(),
{
    if s.len() > 0 && (s.last() == '\n' || s.last() == '\r') {
        chomped(s.drop_last())
    } else {
        s
    }
}

/// The length of the first line of `s`, its line feed included.
pub open spec fn line_len(s: Seq<char>) -> nat
    decreases s.len(),
{
    if s.len() == 0 {
        0
    } else if s[0] == '\n' {
        1
    } else {
        1 + line_len(s.skip(1))
    }
}

/// The first line of a text that is not empty is not empty.
pub proof fn lemma_line_len(s: Seq<char>)
    ensures
        line_len(s) <= s.len(),
        s.len() > 0 ==> line_len(s) > 0,
    decreases s.len(),
{
    if s.len() > 0 && s[0] != '\n' {
        lemma_line_len(s.skip(1));
    }
}

/// The lines of `s`, each with its line feed; the last one may lack it.
pub open spec fn lines_of(s: Seq<char>) -> Seq<Seq<char>>
    decreases s.len(),
{
    if s.len() == 0 {
        seq![]
    } else {
        proof {
            lemma_line_len(s);
        }
        seq![s.take(line_len(s) as int)] + lines_of(s.skip(line_len(s) as int))
    }
}

/// `l` without one line ending (`\n` or `\r\n`).
pub open spec fn bare(l: Seq<char>) -> Seq<char> {
    if ends_in(l, '\n') {
        if ends_in(l.drop_last(), '\r') {
            l.drop_last().drop_last()
        } else {
            l.drop_last()
        }
    } else {
        l
    }
}

/// The lines of `s` without their line endings.
pub open spec fn bare_lines(s: Seq<char>) -> Seq<Seq<char>> {
    lines_of(s).map_values(|l: Seq<char>| bare(l))
}

/// The pieces one after the other.
pub open spec fn joined(pieces: Seq<Seq<char>>) -> Seq<char>
    decreases pieces.len(),
{
    if pieces.len() == 0 {
        seq![]
    } else {
        joined(pieces.drop_last()) + pieces.last()
    }
}

/// The pieces one after the other with `sep` between neighbours.
pub open spec fn joined_with(pieces: Seq<Seq<char>>, sep: Seq<char>) -> Seq<char>
    decreases pieces.len(),
{
    if pieces.len() == 0 {
        seq![]
    } else if pieces.len() == 1 {
        pieces[0]
    } else {
        joined_with(pieces.drop_last(), sep) + sep + pieces.last()
    }
}

/// The views of a vector of strings.
pub open spec fn texts(v: Seq<String>) -> Seq<Seq<char>> {
    v.map_values(|s: String| s@)
}

/// The views of a vector of string slices.
pub open spec fn slices(v: Seq<&str>) -> Seq<Seq<char>> {
    v.map_values(|s: &str| s@)
}

pub open spec fn is_digit(c: char) -> bool {
    '0' <= c <= '9'
}

pub open spec fn is_hex_digit(c: char) -> bool {
    is_digit(c) || 'a' <= c <= 'f' || 'A' <= c <= 'F'
}

pub open spec fn all_digits(s: Seq<char>) -> bool {
    forall|i: int| 0 <= i < s.len() ==> is_digit(#[trigger] s[i])
}

/// The number that the decimal digits of `s` write.
pub open spec fn digits_value(s: Seq<char>) -> nat
    decreases s.len(),
{
    if s.len() == 0 {
        0
    } else {
        digits_value(s.drop_last()) * 10 + (s.last() as nat - '0' as nat) as nat
    }
}

/// What an unsigned integer type with greatest value `max` reads from `s`: an
/// optional plus sign and at least one digit, nothing else.
pub open spec fn unsigned_value(s: Seq<char>, max: nat) -> Option<nat> {
    let d = if s.len() > 0 && s[0] == '+' {
        s.skip(1)
    } else {
        s
    };
    if d.len() > 0 && all_digits(d) && digits_value(d) <= max {
        Some(digits_value(d))
    } else {
        None
    }
}

/// The digit of a number below ten.
pub open spec fn digit_char(n: nat) -> char {
    ('0' as nat + n) as char
}

/// `n` in decimal.
pub open spec fn decimal(n: nat) -> Seq<char>
    decreases n,
{
    if n < 10 {
        seq![digit_char(n)]
    } else {
        decimal(n / 10).push(digit_char(n % 10))
    }
}

/// `n` in decimal, with a minus sign where it is negative.
pub open spec fn signed_decimal(n: int) -> Seq<char> {
    if n < 0 {
        seq!['-'] + decimal((-n) as nat)
    } else {
        decimal(n as nat)
    }
}

/// `c` in lower case where it is an ASCII capital.
pub open spec fn ascii_lower(c: char) -> char {
    if 'A' <= c <= 'Z' {
        (c as u32 + 32) as char
    } else {
        c
    }
}

/// `s` with its ASCII capitals in lower case.
pub open spec fn ascii_lowered(s: Seq<char>) -> Seq<char> {
    s.map_values(|c: char| ascii_lower(c))
}

// ---------------------------------------------------------------------------
// Conversion
// ---------------------------------------------------------------------------

/// The characters of `s`.
pub fn chars_of(s: &str) -> (v: Vec<char>)
    ensures
        v@ == s@,
{
    let mut v: Vec<char> = Vec::new();
    for c in iter: s.chars()
        invariant
            v@ == s@.take(iter.index()),
            iter.seq() == s@,
    {
        v.push(c);
        assert(s@.take(iter.index() + 1) =~= s@.take(iter.index()).push(c));
    }
    assert(s@.take(s@.len() as int) =~= s@);
    v
}

/// The text made of the characters of `v`.
pub fn string_of(v: &Vec<char>) -> (s: String)
    ensures
        s@ == v@,
{
    let mut s = String::new();
    let mut i: usize = 0;
    while i < v.len()
        invariant
            i <= v@.len(),
            s@ == v@.take(i as int),
        decreases v@.len() - i,
    {
        s.push(v[i]);
        i += 1;
        assert(v@.take(i as int) =~= v@.take(i - 1).push(v@[i - 1]));
    }
    assert(v@.take(v@.len() as int) =~= v@);
    s
}

/// Appends the characters `v[from..to]` to `out`.
pub fn extend_range(out: &mut Vec<char>, v: &Vec<char>, from: usize, to: usize)
    requires
        from <= to <= v@.len(),
    ensures
        final(out)@ == old(out)@ + v@.subrange(from as int, to as int),
{
    let mut i: usize = from;
    while i < to
        invariant
            from <= i <= to <= v@.len(),
            out@ == old(out)@ + v@.subrange(from as int, i as int),
        decreases to - i,
    {
        out.push(v[i]);
        i += 1;
        assert(v@.subrange(from as int, i as int) =~= v@.subrange(from as int, i - 1).push(
            v@[i - 1],
        ));
    }
}

/// The characters `v[from..to]`.
pub fn range_of(v: &Vec<char>, from: usize, to: usize) -> (r: Vec<char>)
    requires
        from <= to <= v@.len(),
    ensures
        r@ == v@.subrange(from as int, to as int),
{
    let mut r: Vec<char> = Vec::new();
    extend_range(&mut r, v, from, to);
    r
}

// ---------------------------------------------------------------------------
// Search
// ---------------------------------------------------------------------------

/// What `find_from` gives: the least index from `i` on, or none at all.
pub proof fn lemma_find_from(s: Seq<char>, n: Seq<char>, i: int)
    requires
        0 <= i,
    ensures
        find_from(s, n, i) matches Some(k) ==> i <= k && occurs_at(s, n, k) && (forall|j: int|
            i <= j < k ==> !occurs_at(s, n, j)),
        find_from(s, n, i) is None ==> (forall|j: int| i <= j ==> !occurs_at(s, n, j)),
    decreases s.len() + 1 - i,
{
    if i + n.len() > s.len() {
    } else if occurs_at(s, n, i) {
    } else {
        lemma_find_from(s, n, i + 1);
    }
}

/// A search that succeeds is a search for something that is there.
pub proof fn lemma_first_at(s: Seq<char>, n: Seq<char>)
    ensures
        first_at(s, n) is Some <==> occurs(s, n),
        first_at(s, n) matches Some(k) ==> 0 <= k && occurs_at(s, n, k) && k + n.len() <= s.len(),
{
    lemma_find_from(s, n, 0);
    if occurs(s, n) {
        let i = choose|i: int| occurs_at(s, n, i);
        assert(0 <= i);
    }
    if let Some(k) = first_at(s, n) {
        assert(occurs_at(s, n, k));
    }
}

/// Tells whether `n` stands in `s` at index `i`.
pub fn vec_occurs_at(s: &Vec<char>, n: &Vec<char>, i: usize) -> (r: bool)
    ensures
        r == occurs_at(s@, n@, i as int),
{
    if i > s.len() || n.len() > s.len() - i {
        return false;
    }
    let len: usize = s.len();
    let mut k: usize = 0;
    while k < n.len()
        invariant
            k <= n@.len(),
            len == s@.len(),
            i + n@.len() <= len,
            forall|j: int| 0 <= j < k ==> s@[i + j] == n@[j],
        decreases n@.len() - k,
    {
        if s[i + k] != n[k] {
            assert(s@.subrange(i as int, i + n@.len())[k as int] != n@[k as int]);
            return false;
        }
        k += 1;
    }
    assert(s@.subrange(i as int, i + n@.len()) =~= n@);
    true
}

/// The first index at which `n` stands in `s`, from `start` on.
pub fn vec_find(s: &Vec<char>, n: &Vec<char>, start: usize) -> (r: Option<usize>)
    ensures
        r matches Some(k) ==> find_from(s@, n@, start as int) == Some(k as int),
        r is None ==> find_from(s@, n@, start as int) is None,
{
    let mut i: usize = start;
    while i <= s.len() && n.len() <= s.len() - i
        invariant
            start <= i,
            i <= s@.len() || i == start,
            find_from(s@, n@, start as int) == find_from(s@, n@, i as int),
        decreases s@.len() + 1 - i,
    {
        if vec_occurs_at(s, n, i) {
            return Some(i);
        }
        if i == s.len() {
            assert(find_from(s@, n@, i + 1) is None);
            return None;
        }
        i += 1;
    }
    None
}

/// Tells whether `s` contains `n`.
pub fn contains(s: &str, n: &str) -> (r: bool)
    ensures
        r == occurs(s@, n@),
{
    proof {
        lemma_first_at(s@, n@);
    }
    match vec_find(&chars_of(s), &chars_of(n), 0) {
        Some(_) => true,
        None => false,
    }
}

/// Tells whether the characters `s` contain `n`.
pub fn vec_contains(s: &Vec<char>, n: &Vec<char>) -> (r: bool)
    ensures
        r == occurs(s@, n@),
{
    proof {
        lemma_first_at(s@, n@);
    }
    match vec_find(s, n, 0) {
        Some(_) => true,
        None => false,
    }
}

/// Tells whether `s` begins with `p`.
pub fn starts_with(s: &str, p: &str) -> (r: bool)
    ensures
        r == begins(s@, p@),
{
    vec_occurs_at(&chars_of(s), &chars_of(p), 0)
}

/// Tells whether `a` and `b` hold the same characters.
pub fn vec_same(a: &Vec<char>, b: &Vec<char>) -> (r: bool)
    ensures
        r == (a@ == b@),
{
    if a.len() != b.len() {
        return false;
    }
    let r = vec_occurs_at(a, b, 0);
    assert(a@.subrange(0, a@.len() as int) =~= a@);
    r
}

/// Tells whether `a` and `b` are the same text.
pub fn same(a: &str, b: &str) -> (r: bool)
    ensures
        r == (a@ == b@),
{
    vec_same(&chars_of(a), &chars_of(b))
}

// ---------------------------------------------------------------------------
// Replacement
// ---------------------------------------------------------------------------

/// `s` with every occurrence of `from` replaced by `to`.
pub fn replace(s: &str, from: &str, to: &str) -> (r: String)
    requires
        from@.len() > 0,
    ensures
        r@ == replaced(s@, from@, to@),
{
    let v = chars_of(s);
    let f = chars_of(from);
    let t = chars_of(to);
    let mut out: Vec<char> = Vec::new();
    let mut i: usize = 0;
    assert(v@.skip(0) =~= v@);
    while i < v.len() && f.len() <= v.len() - i
        invariant
            i <= v@.len(),
            f@.len() > 0,
            replaced(v@, f@, t@) == out@ + replaced(v@.skip(i as int), f@, t@),
        decreases v@.len() - i,
    {
        let ghost rest = v@.skip(i as int);
        assert(rest.subrange(0, f@.len() as int) =~= v@.subrange(i as int, i + f@.len()));
        if vec_occurs_at(&v, &f, i) {
            extend_range(&mut out, &t, 0, t.len());
            assert(t@.subrange(0, t@.len() as int) =~= t@);
            i += f.len();
            assert(rest.skip(f@.len() as int) =~= v@.skip(i as int));
        } else {
            out.push(v[i]);
            i += 1;
            assert(rest.skip(1) =~= v@.skip(i as int));
        }
        assert(replaced(v@, f@, t@) =~= out@ + replaced(v@.skip(i as int), f@, t@));
    }
    let n: usize = v.len();
    extend_range(&mut out, &v, i, n);
    assert(v@.subrange(i as int, n as int) =~= v@.skip(i as int));
    string_of(&out)
}

/// `s` with the first occurrence of `from` replaced by `to`.
pub fn replace_first(s: &str, from: &str, to: &str) -> (r: String)
    ensures
        r@ == replaced_first(s@, from@, to@),
{
    let v = chars_of(s);
    let f = chars_of(from);
    match vec_find(&v, &f, 0) {
        None => string_of(&v),
        Some(i) => {
            proof {
                lemma_first_at(s@, from@);
            }
            let t = chars_of(to);
            let mut out: Vec<char> = Vec::new();
            extend_range(&mut out, &v, 0, i);
            extend_range(&mut out, &t, 0, t.len());
            let n: usize = v.len();
            assert(i + f@.len() <= n);
            extend_range(&mut out, &v, i + f.len(), n);
            assert(out@ =~= replaced_first(s@, from@, to@));
            string_of(&out)
        },
    }
}

/// `s` with `t` put in at index `i`.
pub fn insert_at(s: &str, i: usize, t: &str) -> (r: String)
    requires
        i <= s@.len(),
    ensures
        r@ == inserted_at(s@, i as int, t@),
{
    let v = chars_of(s);
    let w = chars_of(t);
    let mut out: Vec<char> = Vec::new();
    extend_range(&mut out, &v, 0, i);
    extend_range(&mut out, &w, 0, w.len());
    extend_range(&mut out, &v, i, v.len());
    assert(out@ =~= inserted_at(s@, i as int, t@));
    string_of(&out)
}

} // verus!
