//! Edits by regular expression.
use crate::failure::{bad_regex_text, Failure};
use crate::regexes::{
    answers_by, groups_of, is_fixed_pattern, match_end, match_fits, match_start, matches_fit,
    matches_view, needed_text, no_dollar, regex_captures, regex_captures_iter, regex_compiles,
    regex_expanded, regex_find, regex_matches, regex_replace_all_text, same_answer, spans_view,
    spliced, spliced_upto, Spans,
};
use crate::text::{chars_of, extend_range, insert_at, inserted_at, occurs, range_of, string_of};
use vstd::prelude::*;

verus! {

/// The text of an optional string.
pub open spec fn opt_text(o: Option<String>) -> Option<Seq<char>> {
    match o {
        Some(s) => Some(s@),
        None => None,
    }
}

/// The texts of the groups of one match, group 0 first.
pub struct Captures {
    pub groups: Vec<Option<String>>,
}

impl View for Captures {
    type V = Seq<Option<Seq<char>>>;

    open spec fn view(&self) -> Seq<Option<Seq<char>>> {
        self.groups@.map_values(|o: Option<String>| opt_text(o))
    }
}

impl Captures {
    /// The text of group `i`, where there is such a group and it took part.
    pub fn get(&self, i: usize) -> (r: Option<&str>)
        ensures
            r is Some <==> i < self@.len() && self@[i as int] is Some,
            r matches Some(s) ==> self@[i as int] == Some(s@),
    {
        if i >= self.groups.len() {
            return None;
        }
        assert(self@[i as int] == opt_text(self.groups@[i as int]));
        match &self.groups[i] {
            Some(s) => Some(s.as_str()),
            None => None,
        }
    }
}

/// `f` may answer `a` where the groups of the match are `groups`.
pub open spec fn answer_of<F: Fn(&Captures) -> Option<String>>(
    f: F,
    groups: Seq<Option<Seq<char>>>,
    a: Option<Seq<char>>,
) -> bool {
    exists|c: Captures, o: Option<String>|
        c@ == groups && opt_text(o) == a && #[trigger] call_ensures(f, (&c,), o)
}

/// `answers` are answers of `f` for the matches, one each.
pub open spec fn answered<F: Fn(&Captures) -> Option<String>>(
    f: F,
    text: Seq<char>,
    ms: Seq<Spans>,
    answers: Seq<Option<Seq<char>>>,
) -> bool {
    &&& answers.len() == ms.len()
    &&& forall|k: int|
        0 <= k < ms.len() ==> answer_of(f, groups_of(text, ms[k]), #[trigger] answers[k])
}

/// Where each answer of `f` is `g` of the groups, the answers are those of `g`.
pub proof fn lemma_answers_by<F: Fn(&Captures) -> Option<String>>(
    f: F,
    g: spec_fn(Seq<Option<Seq<char>>>) -> Option<Seq<char>>,
    text: Seq<char>,
    ms: Seq<Spans>,
    answers: Seq<Option<Seq<char>>>,
)
    requires
        answered(f, text, ms, answers),
        forall|c: Captures, o: Option<String>| #[trigger]
            call_ensures(f, (&c,), o) ==> opt_text(o) == g(c@),
    ensures
        answers == answers_by(text, ms, g),
{
    assert forall|k: int| 0 <= k < ms.len() implies #[trigger] answers[k] == answers_by(
        text,
        ms,
        g,
    )[k] by {
        assert(answer_of(f, groups_of(text, ms[k]), answers[k]));
    }
    assert(answers =~= answers_by(text, ms, g));
}

/// The texts of the groups of a match.
pub fn captures_from(v: &Vec<char>, m: &Vec<Option<(usize, usize)>>) -> (r: Captures)
    requires
        match_fits(spans_view(m@), v@.len() as int),
    ensures
        r@ == groups_of(v@, spans_view(m@)),
{
    let mut groups: Vec<Option<String>> = Vec::new();
    let ghost want = groups_of(v@, spans_view(m@));
    let mut i: usize = 0;
    while i < m.len()
        invariant
            i <= m@.len(),
            want == groups_of(v@, spans_view(m@)),
            match_fits(spans_view(m@), v@.len() as int),
            (Captures { groups })@ == want.take(i as int),
        decreases m@.len() - i,
    {
        let ghost before = (Captures { groups })@;
        assert(spans_view(m@)[i as int] is Some <==> m@[i as int] is Some);
        match &m[i] {
            Some(p) => {
                groups.push(Some(string_of(&range_of(v, p.0, p.1))));
            },
            None => {
                groups.push(None);
            },
        }
        i += 1;
        assert((Captures { groups })@ =~= before.push(want[i - 1]));
        assert((Captures { groups })@ =~= want.take(i as int));
    }
    assert(want.take(want.len() as int) =~= want);
    Captures { groups }
}

/// The end of the match last replaced lies before the matches still to come.
proof fn lemma_spliced_last(
    text: Seq<char>,
    ms: Seq<Spans>,
    answers: Seq<Option<Seq<char>>>,
    k: int,
)
    requires
        matches_fit(ms, text.len() as int),
        answers.len() >= k,
        0 <= k <= ms.len(),
    ensures
        0 <= spliced_upto(text, ms, answers, k).1 <= text.len(),
        forall|l: int|
            k <= l < ms.len() ==> spliced_upto(text, ms, answers, k).1 <= match_start(
                #[trigger] ms[l],
            ),
    decreases k,
{
    if k > 0 {
        lemma_spliced_last(text, ms, answers, k - 1);
        assert(match_fits(ms[k - 1], text.len() as int));
        assert(ms[k - 1][0] is Some);
    } else {
        assert forall|l: int| 0 <= l < ms.len() implies 0 <= match_start(#[trigger] ms[l]) by {
            assert(match_fits(ms[l], text.len() as int));
            assert(ms[l][0] is Some);
        }
    }
}

/// The first answers decide what comes before.
proof fn lemma_spliced_prefix(
    text: Seq<char>,
    ms: Seq<Spans>,
    a: Seq<Option<Seq<char>>>,
    b: Seq<Option<Seq<char>>>,
    k: int,
)
    requires
        0 <= k <= a.len(),
        k <= b.len(),
        a.take(k) == b.take(k),
    ensures
        spliced_upto(text, ms, a, k) == spliced_upto(text, ms, b, k),
    decreases k,
{
    if k > 0 {
        assert(a.take(k - 1) =~= a.take(k).take(k - 1));
        assert(b.take(k - 1) =~= b.take(k).take(k - 1));
        lemma_spliced_prefix(text, ms, a, b, k - 1);
        assert(a[k - 1] == a.take(k)[k - 1]);
        assert(b[k - 1] == b.take(k)[k - 1]);
    }
}

/// Replaces each match for which `replacement` has an answer by that answer.
pub fn splice_matches<F: Fn(&Captures) -> Option<String>>(
    content: &str,
    ms: &Vec<Vec<Option<(usize, usize)>>>,
    replacement: F,
) -> (r: String)
    requires
        matches_fit(matches_view(ms@), content@.len() as int),
        forall|c: Captures| call_requires(replacement, (&c,)),
    ensures
        exists|answers: Seq<Option<Seq<char>>>|
            #![trigger answered(replacement, content@, matches_view(ms@), answers)]
            answered(replacement, content@, matches_view(ms@), answers) && r@ == spliced(
                content@,
                matches_view(ms@),
                answers,
            ),
{
    let v = chars_of(content);
    let mut out: Vec<char> = Vec::new();
    let mut last: usize = 0;
    let ghost mv = matches_view(ms@);
    let ghost mut answers: Seq<Option<Seq<char>>> = seq![];
    let mut k: usize = 0;
    while k < ms.len()
        invariant
            k <= ms@.len(),
            mv == matches_view(ms@),
            v@ == content@,
            matches_fit(mv, v@.len() as int),
            forall|c: Captures| call_requires(replacement, (&c,)),
            answers.len() == k,
            forall|j: int|
                0 <= j < k ==> answer_of(replacement, groups_of(v@, mv[j]), #[trigger] answers[j]),
            spliced_upto(v@, mv, answers, k as int) == (out@, last as int),
            last <= v@.len(),
        decreases ms@.len() - k,
    {
        proof {
            assert(mv[k as int] == spans_view(ms@[k as int]@));
            assert(match_fits(mv[k as int], v@.len() as int));
            lemma_spliced_last(v@, mv, answers, k as int);
        }
        let caps = captures_from(&v, &ms[k]);
        let rep = replacement(&caps);
        let ghost before = answers;
        proof {
            assert(answer_of(replacement, groups_of(v@, mv[k as int]), opt_text(rep)));
            answers = before.push(opt_text(rep));
            assert(answers.take(k as int) =~= before.take(k as int));
            lemma_spliced_prefix(v@, mv, before, answers, k as int);
        }
        match rep {
            Some(text) => {
                let m = &ms[k];
                assert(mv[k as int][0] is Some);
                assert(m@[0] is Some);
                if let Some(whole) = m[0] {
                    assert(whole.0 == match_start(mv[k as int]));
                    assert(whole.1 == match_end(mv[k as int]));
                    extend_range(&mut out, &v, last, whole.0);
                    let t = chars_of(&text);
                    extend_range(&mut out, &t, 0, t.len());
                    assert(t@.subrange(0, t@.len() as int) =~= t@);
                    last = whole.1;
                }
            },
            None => {},
        }
        k += 1;
    }
    extend_range(&mut out, &v, last, v.len());
    assert(v@.subrange(last as int, v@.len() as int) =~= v@.skip(last as int));
    assert(answered(replacement, content@, mv, answers));
    string_of(&out)
}

/// Replaces each match of `pattern` for which `replacement` has an answer.
pub fn regex_replace<F: Fn(&Captures) -> Option<String>>(
    content: &str,
    pattern: &str,
    replacement: F,
) -> (r: Result<String, Failure>)
    requires
        forall|c: Captures| call_requires(replacement, (&c,)),
    ensures
        r is Ok <==> regex_compiles(pattern@),
        is_fixed_pattern(pattern@) ==> r is Ok,
        r matches Err(e) ==> e@ == bad_regex_text(pattern@),
        r matches Ok(out) ==> exists|answers: Seq<Option<Seq<char>>>|
            #![trigger answered(replacement, content@, regex_matches(pattern@, content@), answers)]
            answered(replacement, content@, regex_matches(pattern@, content@), answers) && out@
                == spliced(content@, regex_matches(pattern@, content@), answers),
{
    match regex_captures_iter(pattern, content) {
        Ok(ms) => Ok(splice_matches(content, &ms, replacement)),
        Err(_) => Err(Failure::BadRegex { pattern: pattern.to_owned() }),
    }
}

/// Where the line that holds the index `i` begins.
pub open spec fn line_start(s: Seq<char>, i: int) -> int
    decreases i,
{
    if i <= 0 {
        0
    } else if s[i - 1] == '\n' {
        i
    } else {
        line_start(s, i - 1)
    }
}

/// Puts `insert` in front of the line that holds the index `at`.
pub fn insert_before_line(content: &str, at: usize, insert: &str) -> (r: String)
    requires
        at <= content@.len(),
    ensures
        r@ == inserted_at(content@, line_start(content@, at as int), insert@),
{
    let v = chars_of(content);
    let mut i: usize = at;
    while i > 0 && v[i - 1] != '\n'
        invariant
            i <= at <= v@.len(),
            v@ == content@,
            line_start(content@, at as int) == line_start(content@, i as int),
        decreases i,
    {
        i -= 1;
    }
    insert_at(content, i, insert)
}

/// What `insert_before_regex_once` makes of the matches.
pub open spec fn inserted_before_first(
    content: Seq<char>,
    ms: Seq<Spans>,
    insert: Seq<char>,
) -> Seq<char> {
    if ms.len() == 0 {
        content
    } else {
        inserted_at(content, line_start(content, match_start(ms[0])), insert)
    }
}

/// Puts `insert` in front of the first line that matches `pattern`, which is the line in
/// which the first match begins.
pub fn insert_before_regex_once(content: &str, pattern: &str, insert: &str) -> (r: Result<
    String,
    Failure,
>)
    ensures
        r is Ok <==> regex_compiles(pattern@),
        is_fixed_pattern(pattern@) ==> r is Ok,
        r matches Err(e) ==> e@ == bad_regex_text(pattern@),
        r matches Ok(out) ==> out@ == inserted_before_first(
            content@,
            regex_matches(pattern@, content@),
            insert@,
        ),
{
    match regex_find(pattern, content) {
        Ok(Some(p)) => Ok(insert_before_line(content, p.0, insert)),
        Ok(None) => Ok(content.to_owned()),
        Err(_) => Err(Failure::BadRegex { pattern: pattern.to_owned() }),
    }
}

/// `f` may give `a` where the groups of the match are `groups`.
pub open spec fn substitute_of<F: Fn(&Captures) -> String>(
    f: F,
    groups: Seq<Option<Seq<char>>>,
    a: Seq<char>,
) -> bool {
    exists|c: Captures, o: String|
        c@ == groups && o@ == a && #[trigger] call_ensures(f, (&c,), o)
}

/// `content` with the first match replaced by `a`.
pub open spec fn substituted_first(content: Seq<char>, m: Spans, a: Seq<char>) -> Seq<char> {
    content.take(match_start(m)) + a + content.skip(match_end(m))
}

/// Replaces one match by what `replacement` gives for it.
pub fn splice_match<F: Fn(&Captures) -> String>(
    content: &str,
    m: &Vec<Option<(usize, usize)>>,
    replacement: F,
) -> (r: String)
    requires
        match_fits(spans_view(m@), content@.len() as int),
        forall|c: Captures| call_requires(replacement, (&c,)),
    ensures
        exists|a: Seq<char>|
            #![trigger substitute_of(replacement, groups_of(content@, spans_view(m@)), a)]
            substitute_of(replacement, groups_of(content@, spans_view(m@)), a) && r@
                == substituted_first(content@, spans_view(m@), a),
{
    let v = chars_of(content);
    let caps = captures_from(&v, m);
    let rep = replacement(&caps);
    let mut out: Vec<char> = Vec::new();
    let ghost mv = spans_view(m@);
    assert(mv[0] is Some);
    assert(substitute_of(replacement, groups_of(content@, mv), rep@));
    if let Some(whole) = m[0] {
        assert(whole.0 == match_start(mv) && whole.1 == match_end(mv));
        extend_range(&mut out, &v, 0, whole.0);
        let t = chars_of(&rep);
        extend_range(&mut out, &t, 0, t.len());
        extend_range(&mut out, &v, whole.1, v.len());
        assert(out@ =~= substituted_first(content@, mv, rep@));
    }
    string_of(&out)
}

/// Replaces the first match of `pattern` by what `replacement` gives for it.
pub fn regex_sub_once<F: Fn(&Captures) -> String>(
    content: &str,
    pattern: &str,
    replacement: F,
) -> (r: Result<String, Failure>)
    requires
        forall|c: Captures| call_requires(replacement, (&c,)),
    ensures
        r is Ok <==> regex_compiles(pattern@),
        is_fixed_pattern(pattern@) ==> r is Ok,
        r matches Err(e) ==> e@ == bad_regex_text(pattern@),
        regex_matches(pattern@, content@).len() == 0 ==> (r matches Ok(out) ==> out@ == content@),
        regex_matches(pattern@, content@).len() > 0 ==> (r matches Ok(out) ==> exists|a: Seq<char>|
            #![trigger substitute_of(replacement, groups_of(content@, regex_matches(pattern@, content@)[0]), a)]
            substitute_of(
                replacement,
                groups_of(content@, regex_matches(pattern@, content@)[0]),
                a,
            ) && out@ == substituted_first(content@, regex_matches(pattern@, content@)[0], a)),
{
    match regex_captures(pattern, content) {
        Ok(Some(m)) => Ok(splice_match(content, &m, replacement)),
        Ok(None) => Ok(content.to_owned()),
        Err(_) => Err(Failure::BadRegex { pattern: pattern.to_owned() }),
    }
}

/// Replaces every match of `pattern` by `replacement`, in which `$` refers to groups.
pub fn regex_replace_all(content: &str, pattern: &str, replacement: &str) -> (r: Result<
    String,
    Failure,
>)
    ensures
        r is Ok <==> regex_compiles(pattern@),
        is_fixed_pattern(pattern@) ==> r is Ok,
        r matches Err(e) ==> e@ == bad_regex_text(pattern@),
        r matches Ok(out) ==> out@ == regex_expanded(pattern@, content@, replacement@),
        no_dollar(replacement@) ==> (r matches Ok(out) ==> out@ == spliced(
            content@,
            regex_matches(pattern@, content@),
            same_answer(regex_matches(pattern@, content@), replacement@),
        )),
        needed_text(pattern@) matches Some(n) ==> !occurs(content@, n)
            ==> (r matches Ok(out) ==> out@ == content@),
{
    match regex_replace_all_text(pattern, content, replacement) {
        Ok(out) => Ok(out),
        Err(_) => Err(Failure::BadRegex { pattern: pattern.to_owned() }),
    }
}

} // verus!
