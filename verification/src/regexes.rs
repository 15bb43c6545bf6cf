//! Regular expressions: what they match, and the calls into the `regex` crate.
use crate::text::{begins, ends_in, is_digit, joined, lines_of, occurs};
use regex::Regex;
use vstd::prelude::*;

verus! {

// ---------------------------------------------------------------------------
// Models
// ---------------------------------------------------------------------------

/// The groups of one match, group 0 first: where each begins and ends, in
/// characters, or nothing where the group took no part in the match.
pub type Spans = Seq<Option<(int, int)>>;

/// Where the whole match begins.
pub open spec fn match_start(m: Spans) -> int {
    m[0].unwrap().0
}

/// Where the whole match ends.
pub open spec fn match_end(m: Spans) -> int {
    m[0].unwrap().1
}

/// The spans of one match lie in a text of length `n`, and group 0 is there.
pub open spec fn match_fits(m: Spans, n: int) -> bool {
    &&& m.len() > 0
    &&& m[0] is Some
    &&& forall|g: int|
        0 <= g < m.len() ==> (#[trigger] m[g] matches Some(p) ==> 0 <= p.0 <= p.1 <= n)
}

/// The matches lie in a text of length `n`, in order and without overlap.
pub open spec fn matches_fit(ms: Seq<Spans>, n: int) -> bool {
    &&& forall|k: int| 0 <= k < ms.len() ==> match_fits(#[trigger] ms[k], n)
    &&& forall|k: int, l: int|
        0 <= k < l < ms.len() ==> match_end(#[trigger] ms[k]) <= match_start(#[trigger] ms[l])
}

/// The texts of the groups of a match.
pub open spec fn groups_of(text: Seq<char>, m: Spans) -> Seq<Option<Seq<char>>> {
    m.map_values(
        |g: Option<(int, int)>|
            match g {
                Some(p) => Some(text.subrange(p.0, p.1)),
                None => None,
            },
    )
}

/// The model of one vector of group spans.
pub open spec fn spans_view(m: Seq<Option<(usize, usize)>>) -> Spans {
    m.map_values(
        |g: Option<(usize, usize)>|
            match g {
                Some(p) => Some((p.0 as int, p.1 as int)),
                None => None,
            },
    )
}

/// The model of the vector of all matches.
pub open spec fn matches_view(ms: Seq<Vec<Option<(usize, usize)>>>) -> Seq<Spans> {
    ms.map_values(|m: Vec<Option<(usize, usize)>>| spans_view(m@))
}

/// What stands before the end of the match last replaced, and where that end is,
/// after the first `k` matches were answered.
pub open spec fn spliced_upto(
    text: Seq<char>,
    ms: Seq<Spans>,
    answers: Seq<Option<Seq<char>>>,
    k: int,
) -> (Seq<char>, int)
    decreases k,
{
    if k <= 0 {
        (seq![], 0)
    } else {
        let (out, last) = spliced_upto(text, ms, answers, k - 1);
        match answers[k - 1] {
            Some(r) => (
                out + text.subrange(last, match_start(ms[k - 1])) + r,
                match_end(ms[k - 1]),
            ),
            None => (out, last),
        }
    }
}

/// `text` with each match that has an answer replaced by it.
pub open spec fn spliced(
    text: Seq<char>,
    ms: Seq<Spans>,
    answers: Seq<Option<Seq<char>>>,
) -> Seq<char> {
    let (out, last) = spliced_upto(text, ms, answers, ms.len() as int);
    out + text.skip(last)
}

/// The same answer for every match.
pub open spec fn same_answer(ms: Seq<Spans>, r: Seq<char>) -> Seq<Option<Seq<char>>> {
    ms.map_values(|m: Spans| Some(r))
}

/// The answer of `f` for every match.
pub open spec fn answers_by(
    text: Seq<char>,
    ms: Seq<Spans>,
    f: spec_fn(Seq<Option<Seq<char>>>) -> Option<Seq<char>>,
) -> Seq<Option<Seq<char>>> {
    ms.map_values(|m: Spans| f(groups_of(text, m)))
}

/// `r` holds no dollar sign.
pub open spec fn no_dollar(r: Seq<char>) -> bool {
    forall|i: int| 0 <= i < r.len() ==> r[i] != '$'
}

/// `c` has a meaning of its own in a pattern.
pub open spec fn is_meta(c: char) -> bool {
    ||| c == '\\' || c == '.' || c == '+' || c == '*' || c == '?' || c == '(' || c == ')'
    ||| c == '|' || c == '[' || c == ']' || c == '{' || c == '}' || c == '^' || c == '$'
    ||| c == '#' || c == '&' || c == '-' || c == '~'
}

/// `s` with a backslash in front of every character that has a meaning of its own.
pub open spec fn escaped(s: Seq<char>) -> Seq<char>
    decreases s.len(),
{
    if s.len() == 0 {
        s
    } else if is_meta(s.last()) {
        escaped(s.drop_last()) + seq!['\\', s.last()]
    } else {
        escaped(s.drop_last()).push(s.last())
    }
}

/// The pattern for a line that begins with `key` and an equals sign.
pub open spec fn assignment_pattern(key: Seq<char>) -> Seq<char> {
    "(?m)^"@ + escaped(key) + "=.*$"@
}

/// `key` can stand at the front of one line.
pub open spec fn is_key(key: Seq<char>) -> bool {
    forall|i: int| 0 <= i < key.len() ==> key[i] != '\n'
}

/// `s` is short enough for a pattern made of it to stay within the limit on the size of
/// a compiled pattern.
pub open spec fn is_short(s: Seq<char>) -> bool {
    s.len() <= 1000
}

/// The line `l` assigns to `key`.
pub open spec fn assigns(l: Seq<char>, key: Seq<char>) -> bool {
    begins(l, key.push('='))
}

/// Some line of `text` assigns to `key`.
pub open spec fn has_assignment(text: Seq<char>, key: Seq<char>) -> bool {
    exists|i: int| 0 <= i < lines_of(text).len() && assigns(#[trigger] lines_of(text)[i], key)
}

/// The line `l`, or `r` with the line feed of `l` where `l` assigns to `key`.
pub open spec fn reassigned(l: Seq<char>, key: Seq<char>, r: Seq<char>) -> Seq<char> {
    if assigns(l, key) {
        if ends_in(l, '\n') {
            r.push('\n')
        } else {
            r
        }
    } else {
        l
    }
}

/// `text` with every line that assigns to `key` replaced by `r`.
pub open spec fn all_reassigned(text: Seq<char>, key: Seq<char>, r: Seq<char>) -> Seq<char> {
    joined(lines_of(text).map_values(|l: Seq<char>| reassigned(l, key, r)))
}

/// A text without which there is no match of `pattern`: every match of one of these
/// patterns contains it.
pub open spec fn needed_text(pattern: Seq<char>) -> Option<Seq<char>> {
    if pattern == exports_pattern() || pattern == aarch64_exports_pattern() {
        Some("\"protected_exports_list\""@)
    } else if pattern == module_names_pattern() || pattern == any_module_names_pattern() {
        Some("protected_module_names_list"@)
    } else {
        None
    }
}

/// A line with a reference to a list of protected exports.
pub open spec fn exports_pattern() -> Seq<char> {
    "(?m)^[ \\t]*\"protected_exports_list\"[ \\t]*:[ \\t]*\"android/abi_gki_protected_exports_[A-Za-z0-9_]+\",[ \\t]*\\n?"@
}

/// A reference to the list of protected exports for aarch64.
pub open spec fn aarch64_exports_pattern() -> Seq<char> {
    "\"protected_exports_list\"[ \\t]*:[ \\t]*\"android/abi_gki_protected_exports_aarch64\""@
}

/// A line that sets the names of the protected modules to one of the known targets.
pub open spec fn module_names_pattern() -> Seq<char> {
    "(?m)^[ \\t]*protected_module_names_list[ \\t]*=[ \\t]*\":gki_(?:aarch64|x86_64)_protected_module_names\",[ \\t]*\\n?"@
}

/// A line that sets the names of the protected modules to anything.
pub open spec fn any_module_names_pattern() -> Seq<char> {
    "(?m)^[ \\t]*protected_module_names_list[ \\t]*=[^\\n]*\\n?"@
}

/// A line that assigns to `SUBLEVEL`.
pub open spec fn sublevel_pattern() -> Seq<char> {
    "^[[:space:]]*SUBLEVEL[[:space:]]*="@
}

/// `c` is in the class `[[:space:]]`.
pub open spec fn is_class_space(c: char) -> bool {
    c == ' ' || '\u{9}' <= c <= '\u{d}'
}

/// `s` without leading characters of the class `[[:space:]]`.
pub open spec fn class_space_skipped(s: Seq<char>) -> Seq<char>
    decreases s.len(),
{
    if s.len() > 0 && is_class_space(s[0]) {
        class_space_skipped(s.skip(1))
    } else {
        s
    }
}

/// `l` begins, after space, with `SUBLEVEL`, space and an equals sign.
pub open spec fn sets_sublevel(l: Seq<char>) -> bool {
    let t = class_space_skipped(l);
    begins(t, "SUBLEVEL"@) && starts_in(class_space_skipped(t.skip(8)), '=')
}

/// `s` begins with the character `c`.
pub open spec fn starts_in(s: Seq<char>, c: char) -> bool {
    s.len() > 0 && s[0] == c
}

/// A patch level that pins the month.
pub open spec fn lts_month_pattern() -> Seq<char> {
    "^lts-([0-9]{2})$"@
}

/// `s` is `lts-` and two digits.
pub open spec fn is_lts_month(s: Seq<char>) -> bool {
    s.len() == 6 && begins(s, "lts-"@) && is_digit(s[4]) && is_digit(s[5])
}

/// A call that clears the padding flags of a mapping, with the space in front of it.
pub open spec fn pad_mask_pattern() -> Seq<char> {
    "[ \\t]*vm_flags_clear\\(new_vma, VM_PAD_MASK\\);"@
}

/// The declaration of `this_len` by the smaller of two values of one type.
pub open spec fn this_len_pattern() -> Seq<char> {
    "(int|size_t)\\s+this_len\\s*=\\s*min_t\\s*\\(\\s*(int|size_t)\\s*,"@
}

/// The test of the inode and the comment behind it.
pub open spec fn inode_comment_pattern() -> Seq<char> {
    "(?s)(if \\(inode\\) \\{\\n)\\t\\t/\\*\\n(?:\\t\\t \\*[^\\n]*\\n)+\\t\\t \\*/\\n"@
}

/// The line that declares the local `mask`.
pub open spec fn mask_local_pattern() -> Seq<char> {
    "(?m)^[ \\t]*u32 mask = mark->mask & IN_ALL_EVENTS;\\n"@
}

/// The two arguments that print the masks.
pub open spec fn mask_arguments_pattern() -> Seq<char> {
    "\\bmask,\\s*mark->ignored_mask"@
}

/// The directive that prints the ignored mask.
pub open spec fn ignored_mask_pattern() -> Seq<char> {
    "ignored_mask:%x"@
}

/// The line that begins the function which prints an inotify mark.
pub open spec fn inotify_fdinfo_pattern() -> Seq<char> {
    "(?m)^static void inotify_fdinfo\\(struct seq_file \\*m, struct fsnotify_mark \\*mark\\)$"@
}

/// The test for the end of the last mapping, with the one statement that it guards.
pub open spec fn last_vma_end_pattern() -> Seq<char> {
    "(\\t+\\t\\tif\\s*\\(\\s*vma->vm_end\\s*>\\s*last_vma_end\\s*\\))\\n(\\t+\\t\\t\\tsmap_gather_stats\\(vma,\\s*&mss,\\s*last_vma_end\\);)\\n(\\t+)\\}"@
}

/// The line that lists the protected modules.
pub open spec fn protected_modules_pattern() -> Seq<char> {
    "(?m)^protected_modules = \\[.*\\]"@
}

/// One of the fixed patterns above.
pub open spec fn is_fixed_pattern(p: Seq<char>) -> bool {
    ||| p == exports_pattern() || p == aarch64_exports_pattern()
    ||| p == module_names_pattern() || p == any_module_names_pattern()
    ||| p == sublevel_pattern() || p == lts_month_pattern()
    ||| p == pad_mask_pattern() || p == this_len_pattern()
    ||| p == inode_comment_pattern() || p == mask_local_pattern()
    ||| p == mask_arguments_pattern() || p == ignored_mask_pattern()
    ||| p == inotify_fdinfo_pattern() || p == last_vma_end_pattern()
    ||| p == protected_modules_pattern()
}

// ---------------------------------------------------------------------------
// Calls into the regex crate
// ---------------------------------------------------------------------------

/// The error of a pattern that does not compile.
#[verifier::external_type_specification]
#[verifier::external_body]
pub struct ExRegexError(regex::Error);

/// Whether `regex::Regex::new` accepts the pattern.
pub uninterp spec fn regex_compiles(pattern: Seq<char>) -> bool;

/// What `regex::Regex::captures_iter` yields: for each match the spans of its groups,
/// counted in characters.
pub uninterp spec fn regex_matches(pattern: Seq<char>, text: Seq<char>) -> Seq<Spans>;

/// What `regex::Regex::replace_all` gives back, `$` references in the replacement
/// expanded.
pub uninterp spec fn regex_expanded(
    pattern: Seq<char>,
    text: Seq<char>,
    replacement: Seq<char>,
) -> Seq<char>;

/// Compiles the pattern with `Regex::new` and walks `Regex::captures_iter`. Claimed: an
/// error exactly where the pattern does not compile, and none for a fixed pattern; else one
/// element per successive, non-overlapping match, with the spans of its groups as offsets
/// that lie in the text, group 0 always present. Byte offsets are turned into character
/// offsets. What a pattern matches is left to the name `regex_matches`.
#[verifier::external_body]
pub(crate) fn regex_captures_iter(
    pattern: &str,
    text: &str,
) -> (r: Result<Vec<Vec<Option<(usize, usize)>>>, regex::Error>)
    ensures
        r is Ok <==> regex_compiles(pattern@),
        is_fixed_pattern(pattern@) ==> r is Ok,
        r matches Ok(ms) ==> matches_view(ms@) == regex_matches(pattern@, text@) && matches_fit(
            matches_view(ms@),
            text@.len() as int,
        ),
{
    let re = Regex::new(pattern)?;
    let at = |byte: usize| text[..byte].chars().count();
    Ok(
        re.captures_iter(text).map(
            |caps| caps.iter().map(|g| g.map(|m| (at(m.start()), at(m.end())))).collect(),
        ).collect(),
    )
}

/// Compiles the pattern with `Regex::new` and calls `Regex::captures`. Claimed: an error
/// exactly where the pattern does not compile, and none for a fixed pattern; else the spans
/// of the groups of the first match, or nothing where there is no match.
#[verifier::external_body]
pub(crate) fn regex_captures(
    pattern: &str,
    text: &str,
) -> (r: Result<Option<Vec<Option<(usize, usize)>>>, regex::Error>)
    ensures
        r is Ok <==> regex_compiles(pattern@),
        is_fixed_pattern(pattern@) ==> r is Ok,
        r matches Ok(None) ==> regex_matches(pattern@, text@).len() == 0,
        r matches Ok(Some(m)) ==> {
            &&& regex_matches(pattern@, text@).len() > 0
            &&& spans_view(m@) == regex_matches(pattern@, text@)[0]
            &&& match_fits(spans_view(m@), text@.len() as int)
        },
        pattern@ == lts_month_pattern() ==> (r matches Ok(o) ==> (o is Some <==> is_lts_month(
            text@,
        ))),
        pattern@ == lts_month_pattern() ==> (r matches Ok(Some(m)) ==> spans_view(m@) == seq![
            Some((0int, 6int)),
            Some((4int, 6int)),
        ]),
{
    let re = Regex::new(pattern)?;
    let at = |byte: usize| text[..byte].chars().count();
    Ok(
        re.captures(text).map(
            |caps| caps.iter().map(|g| g.map(|m| (at(m.start()), at(m.end())))).collect(),
        ),
    )
}

/// Compiles the pattern with `Regex::new` and calls `Regex::find`. Claimed: an error
/// exactly where the pattern does not compile, and none for a fixed pattern; else where the
/// first match begins and ends, in characters, or nothing where there is no match.
#[verifier::external_body]
pub(crate) fn regex_find(pattern: &str, text: &str) -> (r: Result<
    Option<(usize, usize)>,
    regex::Error,
>)
    ensures
        r is Ok <==> regex_compiles(pattern@),
        is_fixed_pattern(pattern@) ==> r is Ok,
        r matches Ok(None) ==> regex_matches(pattern@, text@).len() == 0,
        r matches Ok(Some(p)) ==> {
            &&& regex_matches(pattern@, text@).len() > 0
            &&& p.0 == match_start(regex_matches(pattern@, text@)[0])
            &&& p.1 == match_end(regex_matches(pattern@, text@)[0])
            &&& p.0 <= p.1 <= text@.len()
        },
{
    let re = Regex::new(pattern)?;
    let at = |byte: usize| text[..byte].chars().count();
    Ok(re.find(text).map(|m| (at(m.start()), at(m.end()))))
}

/// Compiles the pattern with `Regex::new` and calls `Regex::is_match`. Claimed: an error
/// exactly where the pattern does not compile, and none for a fixed pattern; else whether
/// there is a match. The pattern of an assignment to a short key compiles: every character
/// of the key stands for itself in it, and what it compiles to is far below the limit of
/// ten mebibytes. A match of it is a line that begins with the key and an equals sign; for
/// the pattern of a sublevel, there is one where the text begins with an assignment to
/// `SUBLEVEL`; a pattern with a needed text does not match where that text is absent.
#[verifier::external_body]
pub(crate) fn regex_is_match(pattern: &str, text: &str) -> (r: Result<bool, regex::Error>)
    ensures
        r is Ok <==> regex_compiles(pattern@),
        is_fixed_pattern(pattern@) ==> r is Ok,
        r matches Ok(b) ==> b == (regex_matches(pattern@, text@).len() > 0),
        forall|key: Seq<char>| #[trigger]
            assignment_pattern(key) == pattern@ && is_short(key) ==> r is Ok,
        forall|key: Seq<char>| #[trigger]
            assignment_pattern(key) == pattern@ && is_key(key) ==> (r matches Ok(b) ==> b
                == has_assignment(text@, key)),
        pattern@ == sublevel_pattern() ==> (r matches Ok(b) ==> b == sets_sublevel(text@)),
        needed_text(pattern@) matches Some(n) ==> !occurs(text@, n) ==> (r matches Ok(b) ==> !b),
{
    Ok(Regex::new(pattern)?.is_match(text))
}

/// Compiles the pattern with `Regex::new` and calls `Regex::replace_all`. Claimed: an error
/// exactly where the pattern does not compile, and none for a fixed pattern; else the text
/// with every match replaced, where the replacement holds no dollar sign by the replacement
/// itself. For the pattern of an assignment those are the lines that begin with the key and
/// an equals sign; a pattern with a needed text changes nothing where that text is absent.
#[verifier::external_body]
pub(crate) fn regex_replace_all_text(
    pattern: &str,
    text: &str,
    replacement: &str,
) -> (r: Result<String, regex::Error>)
    ensures
        r is Ok <==> regex_compiles(pattern@),
        is_fixed_pattern(pattern@) ==> r is Ok,
        r matches Ok(out) ==> out@ == regex_expanded(pattern@, text@, replacement@),
        no_dollar(replacement@) ==> (r matches Ok(out) ==> out@ == spliced(
            text@,
            regex_matches(pattern@, text@),
            same_answer(regex_matches(pattern@, text@), replacement@),
        )),
        forall|key: Seq<char>| #[trigger]
            assignment_pattern(key) == pattern@ && is_key(key) && no_dollar(replacement@) ==> (
            r matches Ok(out) ==> out@ == all_reassigned(text@, key, replacement@)),
        needed_text(pattern@) matches Some(n) ==> !occurs(text@, n) ==> (r matches Ok(out) ==> out@
            == text@),
{
    Ok(Regex::new(pattern)?.replace_all(text, replacement).into_owned())
}

/// Calls `regex::escape`. Claimed: the text with a backslash in front of every character
/// that has a meaning of its own in a pattern.
#[verifier::external_body]
pub(crate) fn regex_escape(text: &str) -> (r: String)
    ensures
        r@ == escaped(text@),
{
    regex::escape(text)
}

} // verus!
