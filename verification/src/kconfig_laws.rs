//! What setting options promises.
use crate::kconfig::{
    config_entry, has_unset_line, is_assigned, not_set_line, option_set, set_line,
    unset_line_replaced,
};
use crate::lines::{
    is_line, is_open_line, lemma_joined_lines, lemma_lines_are_lines, lemma_lines_joined,
};
use crate::regexes::{assigns, has_assignment, is_key, no_dollar, reassigned};
use crate::sed::closed_text;
use crate::sed_laws::{law_append_adds_one_line, lemma_lines_with_end};
use crate::text::{
    ends_in, first_at, is_white, lemma_find_from, lines_of, occurs_at, trimmed, trimmed_end,
    trimmed_start,
};
use vstd::prelude::*;

verus! {

/// An option and a value that fit on one line and hold no dollar sign.
pub open spec fn is_plain(key: Seq<char>, value: Seq<char>) -> bool {
    &&& is_key(key)
    &&& is_key(value)
    &&& no_dollar(key)
    &&& no_dollar(value)
}

/// `line` is a line of `content`.
pub open spec fn has_line(content: Seq<char>, line: Seq<char>) -> bool {
    exists|i: int|
        0 <= i < lines_of(content).len() && (#[trigger] lines_of(content)[i] == line || lines_of(
            content,
        )[i] == line.push('\n'))
}

/// What setting an option makes of one line.
pub open spec fn line_set(
    content: Seq<char>,
    key: Seq<char>,
    value: Seq<char>,
    l: Seq<char>,
) -> Seq<char> {
    if is_assigned(content, key) {
        reassigned(l, key, set_line(key, value))
    } else {
        unset_line_replaced(l, not_set_line(key), set_line(key, value))
    }
}

pub proof fn lemma_set_line(key: Seq<char>, value: Seq<char>)
    requires
        is_plain(key, value),
    ensures
        is_open_line(set_line(key, value)),
        is_line(set_line(key, value).push('\n')),
        no_dollar(set_line(key, value)),
        assigns(set_line(key, value), key),
        assigns(set_line(key, value).push('\n'), key),
{
    reveal_strlit("=");
    let r = set_line(key, value);
    let k = key.push('=');
    assert(r.subrange(0, k.len() as int) =~= k);
    assert(r.push('\n').subrange(0, k.len() as int) =~= k);
}

/// Setting an option goes line by line, and adds a line where none speaks of it.
pub proof fn law_option_goes_line_by_line(content: Seq<char>, key: Seq<char>, value: Seq<char>)
    requires
        is_plain(key, value),
    ensures
        is_assigned(content, key) || has_unset_line(content, not_set_line(key)) ==> lines_of(
            option_set(content, key, value),
        ) == lines_of(content).map_values(|l: Seq<char>| line_set(content, key, value, l)),
        !is_assigned(content, key) && !has_unset_line(content, not_set_line(key)) ==> lines_of(
            option_set(content, key, value),
        ) == lines_of(closed_text(content)).push(set_line(key, value).push('\n')),
{
    lemma_set_line(key, value);
    let r = set_line(key, value);
    let ls = lines_of(content);
    lemma_lines_are_lines(content);
    if is_assigned(content, key) || has_unset_line(content, not_set_line(key)) {
        let f = |l: Seq<char>| line_set(content, key, value, l);
        let out = ls.map_values(f);
        assert forall|i: int| 0 <= i < out.len() implies is_line(#[trigger] out[i]) || (i
            == out.len() - 1 && is_open_line(out[i])) by {
            assert(is_line(ls[i]) || (i == ls.len() - 1 && is_open_line(ls[i])));
            assert(out[i] == f(ls[i]));
        }
        lemma_joined_lines(out);
        if is_assigned(content, key) {
            assert(out =~= ls.map_values(|l: Seq<char>| reassigned(l, key, r)));
        } else {
            assert(out =~= ls.map_values(
                |l: Seq<char>| unset_line_replaced(l, not_set_line(key), r),
            ));
        }
    } else {
        law_append_adds_one_line(content, r);
    }
}

/// Once an option is set, a line sets it.
pub proof fn law_option_is_set(content: Seq<char>, key: Seq<char>, value: Seq<char>)
    requires
        is_plain(key, value),
    ensures
        has_line(option_set(content, key, value), set_line(key, value)),
{
    law_option_goes_line_by_line(content, key, value);
    let r = set_line(key, value);
    let ls = lines_of(content);
    let out = lines_of(option_set(content, key, value));
    if is_assigned(content, key) {
        let i = choose|i: int| 0 <= i < ls.len() && assigns(#[trigger] ls[i], key);
        assert(out[i] == reassigned(ls[i], key, r));
    } else if has_unset_line(content, not_set_line(key)) {
        let i = choose|i: int| 0 <= i < ls.len() && trimmed(#[trigger] ls[i]) == not_set_line(key);
        assert(out[i] == unset_line_replaced(ls[i], not_set_line(key), r));
    } else {
        assert(out.last() == r.push('\n'));
        assert(out[out.len() - 1] == r.push('\n'));
    }
}

/// Once an option is set, every line that assigns to it assigns the value.
pub proof fn law_option_has_one_value(content: Seq<char>, key: Seq<char>, value: Seq<char>, i: int)
    requires
        is_plain(key, value),
        0 <= i < lines_of(option_set(content, key, value)).len(),
        assigns(lines_of(option_set(content, key, value))[i], key),
    ensures
        ({
            let l = lines_of(option_set(content, key, value))[i];
            l == set_line(key, value) || l == set_line(key, value).push('\n')
        }),
{
    law_option_goes_line_by_line(content, key, value);
    let ls = lines_of(content);
    let r = set_line(key, value);
    if !is_assigned(content, key) && !has_unset_line(content, not_set_line(key)) {
        let c = closed_text(content);
        let lc = lines_of(c);
        if i < lc.len() {
            lemma_closed_lines(content);
            if i < ls.len() {
                assert(!assigns(ls[i], key));
                if lc[i] != ls[i] {
                    lemma_assigns_open(ls[i], key);
                }
            }
        }
    } else if !is_assigned(content, key) {
        assert(!assigns(ls[i], key));
    }
}

/// A line feed at the end of a line makes it no assignment, except to an option whose
/// name holds one.
pub proof fn lemma_assigns_open(l: Seq<char>, key: Seq<char>)
    requires
        assigns(l.push('\n'), key),
        is_key(key),
    ensures
        assigns(l, key),
{
    let k = key.push('=');
    let m = l.push('\n');
    assert(k.len() <= m.len());
    if k.len() == m.len() {
        assert(m.subrange(0, k.len() as int)[k.len() - 1] == '\n');
        assert(k[k.len() - 1] == '=');
    }
    assert(l.subrange(0, k.len() as int) =~= m.subrange(0, k.len() as int));
}

/// Closing a text changes its last line at most, by a line feed.
pub proof fn lemma_closed_lines(content: Seq<char>)
    ensures
        lines_of(closed_text(content)).len() == lines_of(content).len(),
        forall|i: int|
            0 <= i < lines_of(content).len() ==> (#[trigger] lines_of(closed_text(content))[i]
                == lines_of(content)[i] || lines_of(closed_text(content))[i] == lines_of(
                content,
            )[i].push('\n')),
{
    if content.len() > 0 && !ends_in(content, '\n') {
        lemma_lines_with_end(content);
    }
}

/// Setting an option leaves alone every line that speaks of no such option, but for a
/// line feed behind the last one.
pub proof fn law_other_lines_stay(
    content: Seq<char>,
    key: Seq<char>,
    value: Seq<char>,
    i: int,
)
    requires
        is_plain(key, value),
        0 <= i < lines_of(content).len(),
        !assigns(lines_of(content)[i], key),
        trimmed(lines_of(content)[i]) != not_set_line(key),
    ensures
        i < lines_of(option_set(content, key, value)).len(),
        ({
            let l = lines_of(content)[i];
            let m = lines_of(option_set(content, key, value))[i];
            m == l || m == l.push('\n')
        }),
{
    law_option_goes_line_by_line(content, key, value);
    lemma_closed_lines(content);
}

/// Setting an option a second time changes nothing.
pub proof fn law_setting_twice_is_setting_once(
    content: Seq<char>,
    key: Seq<char>,
    value: Seq<char>,
)
    requires
        is_plain(key, value),
    ensures
        option_set(option_set(content, key, value), key, value) == option_set(
            content,
            key,
            value,
        ),
{
    lemma_set_line(key, value);
    let c = option_set(content, key, value);
    let ls = lines_of(c);
    law_option_is_set(content, key, value);
    let r = set_line(key, value);
    let i = choose|i: int| 0 <= i < ls.len() && (#[trigger] ls[i] == r || ls[i] == r.push('\n'));
    assert(assigns(ls[i], key));
    assert(has_assignment(c, key));
    law_option_goes_line_by_line(c, key, value);
    let out = lines_of(option_set(c, key, value));
    assert forall|j: int| 0 <= j < ls.len() implies #[trigger] out[j] == ls[j] by {
        if assigns(ls[j], key) {
            law_option_has_one_value(content, key, value, j);
            if ls[j] == r {
                assert(is_open_line(r));
            }
        }
    }
    assert(out =~= ls);
    lemma_lines_joined(c);
    lemma_lines_joined(option_set(c, key, value));
}

/// What is left of a text after its trailing whitespace is gone.
pub proof fn lemma_trimmed_end(s: Seq<char>)
    ensures
        trimmed_end(s).len() <= s.len(),
        trimmed_end(s) == s.take(trimmed_end(s).len() as int),
        s.len() > 0 && !is_white(s[0]) ==> trimmed_end(s).len() > 0,
    decreases s.len(),
{
    if s.len() > 0 && is_white(s.last()) {
        lemma_trimmed_end(s.drop_last());
        assert(s.take(trimmed_end(s).len() as int) =~= s.drop_last().take(
            trimmed_end(s).len() as int,
        ));
    } else {
        assert(s.take(s.len() as int) =~= s);
    }
}

/// What is left of a text after its leading whitespace is gone.
pub proof fn lemma_trimmed_start(s: Seq<char>)
    ensures
        trimmed_start(s).len() <= s.len(),
        trimmed_start(s) == s.skip(s.len() - trimmed_start(s).len()),
        trimmed_start(s).len() > 0 ==> !is_white(trimmed_start(s)[0]),
        s.len() > 0 && !is_white(s[0]) ==> trimmed_start(s) == s,
    decreases s.len(),
{
    if s.len() > 0 && is_white(s[0]) {
        lemma_trimmed_start(s.skip(1));
        assert(s.skip(s.len() - trimmed_start(s).len()) =~= s.skip(1).skip(
            s.skip(1).len() - trimmed_start(s).len(),
        ));
    } else {
        assert(s.skip(0) =~= s);
    }
}

/// What an entry asks for: an option without an equals sign in its name, and a line
/// that begins neither with whitespace nor with a number sign.
pub proof fn lemma_entry_shape(raw: Seq<char>)
    requires
        config_entry(raw) is Some,
    ensures
        ({
            let (key, value) = config_entry(raw).unwrap();
            &&& forall|i: int| 0 <= i < key.len() ==> key[i] != '='
            &&& !is_white(set_line(key, value)[0])
            &&& set_line(key, value)[0] != '#'
        }),
{
    reveal_strlit("=");
    let line = trimmed(raw);
    let (key, value) = config_entry(raw).unwrap();
    lemma_trimmed_start(raw);
    lemma_trimmed_end(trimmed_start(raw));
    assert(!is_white(line[0]));
    lemma_find_from(line, "="@, 0);
    match first_at(line, "="@) {
        Some(i) => {
            let front = line.take(i);
            assert(line.subrange(i, i + 1)[0] == '=');
            assert forall|j: int| 0 <= j < i implies front[j] != '=' by {
                if line[j] == '=' {
                    assert(line.subrange(j, j + 1) =~= "="@);
                    assert(occurs_at(line, "="@, j));
                }
            }
            lemma_trimmed_start(front);
            lemma_trimmed_end(trimmed_start(front));
            assert forall|j: int| 0 <= j < key.len() implies key[j] != '=' by {
                let d = front.len() - trimmed_start(front).len();
                assert(trimmed_start(front)[j] == front[d + j]);
            }
            if i > 0 {
                assert(key[0] == line[0]);
                assert(set_line(key, value)[0] == key[0]);
            }
        },
        None => {
            assert forall|j: int| 0 <= j < line.len() implies line[j] != '=' by {
                if line[j] == '=' {
                    assert(line.subrange(j, j + 1) =~= "="@);
                    assert(occurs_at(line, "="@, j));
                }
            }
            assert(set_line(key, value)[0] == line[0]);
        },
    }
}

/// A line assigns to one option at most.
pub proof fn lemma_line_assigns_to_one(l: Seq<char>, k1: Seq<char>, k2: Seq<char>)
    requires
        assigns(l, k1),
        assigns(l, k2),
        forall|i: int| 0 <= i < k1.len() ==> k1[i] != '=',
        forall|i: int| 0 <= i < k2.len() ==> k2[i] != '=',
    ensures
        k1 == k2,
{
    let (a, b) = (k1.push('='), k2.push('='));
    let (la, lb) = (l.subrange(0, a.len() as int), l.subrange(0, b.len() as int));
    assert(la == a && lb == b);
    assert forall|i: int| 0 <= i < a.len() implies l[i] == a[i] by {
        assert(la[i] == l[i]);
    }
    assert forall|i: int| 0 <= i < b.len() implies l[i] == b[i] by {
        assert(lb[i] == l[i]);
    }
    if k1.len() < k2.len() {
        assert(b[k1.len() as int] == k2[k1.len() as int]);
        assert(a[k1.len() as int] == '=');
    } else if k2.len() < k1.len() {
        assert(a[k2.len() as int] == k1[k2.len() as int]);
        assert(b[k2.len() as int] == '=');
    } else {
        assert forall|i: int| 0 <= i < k1.len() implies k1[i] == k2[i] by {
            assert(a[i] == b[i]);
        }
        assert(k1 =~= k2);
    }
}

/// The line of one option speaks of no other.
pub proof fn lemma_lines_of_two_options(
    k1: Seq<char>,
    v1: Seq<char>,
    k2: Seq<char>,
    l: Seq<char>,
)
    requires
        l == set_line(k1, v1) || l == set_line(k1, v1).push('\n'),
        k1 != k2,
        forall|i: int| 0 <= i < k1.len() ==> k1[i] != '=',
        forall|i: int| 0 <= i < k2.len() ==> k2[i] != '=',
        !is_white(set_line(k1, v1)[0]),
        set_line(k1, v1)[0] != '#',
    ensures
        !assigns(l, k2),
        trimmed(l) != not_set_line(k2),
{
    reveal_strlit("=");
    reveal_strlit("# ");
    if assigns(l, k2) {
        let k = k1.push('=');
        assert(l.subrange(0, k.len() as int) =~= k);
        lemma_line_assigns_to_one(l, k1, k2);
    }
    assert(l[0] == set_line(k1, v1)[0]);
    lemma_trimmed_start(l);
    lemma_trimmed_end(l);
    assert(trimmed(l)[0] == l[0]);
    assert(not_set_line(k2)[0] == '#');
}

} // verus!
