//! What setting a list of options promises.
use crate::kconfig::{
    are_short, config_entry, droidspaces_options, entries_set, is_assigned, misc_options,
    not_set_line, option_set, root_options, set_line, susfs_open_redirect_options, susfs_options,
};
use crate::kconfig_laws::{
    has_line, is_plain, law_option_goes_line_by_line, law_option_has_one_value,
    law_option_is_set, law_other_lines_stay, lemma_assigns_open, lemma_closed_lines,
    lemma_entry_shape, lemma_line_assigns_to_one, lemma_lines_of_two_options, lemma_set_line,
};
use crate::lines::{is_line, is_open_line, lemma_lines_are_lines, lemma_lines_joined};
use crate::regexes::{assigns, has_assignment, reassigned};
use crate::text::{ends_in, is_white, lines_of, trimmed, trimmed_end, trimmed_start};
use vstd::prelude::*;

verus! {

/// The entries ask for plain options, where they ask for any.
pub open spec fn are_plain_entries(entries: Seq<Seq<char>>) -> bool {
    forall|i: int|
        0 <= i < entries.len() ==> (config_entry(#[trigger] entries[i]) matches Some(e)
            ==> is_plain(e.0, e.1))
}

/// The entry asks for an option that no later one asks for.
pub open spec fn is_last_of_its_kind(entries: Seq<Seq<char>>, i: int) -> bool {
    &&& config_entry(entries[i]) is Some
    &&& forall|j: int|
        i < j < entries.len() ==> (config_entry(#[trigger] entries[j]) matches Some(o) ==> o.0
            != config_entry(entries[i]).unwrap().0)
}

proof fn lemma_plain_front(entries: Seq<Seq<char>>)
    requires
        are_plain_entries(entries),
        entries.len() > 0,
    ensures
        are_plain_entries(entries.drop_last()),
{
    let front = entries.drop_last();
    assert forall|a: int| 0 <= a < front.len() implies (config_entry(
        #[trigger] front[a],
    ) matches Some(e) ==> is_plain(e.0, e.1)) by {
        assert(front[a] == entries[a]);
    }
}

proof fn lemma_last_front(entries: Seq<Seq<char>>, i: int)
    requires
        0 <= i < entries.len() - 1,
        is_last_of_its_kind(entries, i),
    ensures
        is_last_of_its_kind(entries.drop_last(), i),
        config_entry(entries.last()) matches Some(o) ==> o.0 != config_entry(
            entries[i],
        ).unwrap().0,
{
    let front = entries.drop_last();
    assert(front[i] == entries[i]);
    assert(entries.last() == entries[entries.len() - 1]);
    assert forall|j: int| i < j < front.len() implies (config_entry(
        #[trigger] front[j],
    ) matches Some(o) ==> o.0 != config_entry(front[i]).unwrap().0) by {
        assert(front[j] == entries[j]);
    }
}

/// A line with two line feeds is none.
proof fn lemma_no_second_end(content: Seq<char>, n: int, r: Seq<char>)
    requires
        0 <= n < lines_of(content).len(),
    ensures
        lines_of(content)[n] != r.push('\n').push('\n'),
{
    lemma_lines_are_lines(content);
    let m = lines_of(content)[n];
    assert(is_line(m) || is_open_line(m));
    if m == r.push('\n').push('\n') {
        assert(m[m.len() - 2] == '\n');
        assert(m[m.len() - 1] == '\n');
    }
}

/// Once a list of plain entries is set, a line sets each option to the value of the last
/// entry that asks for it.
pub proof fn law_all_options_are_set(
    content: Seq<char>,
    entries: Seq<Seq<char>>,
    out: Seq<char>,
    i: int,
)
    requires
        are_plain_entries(entries),
        entries_set(content, entries) == Ok::<Seq<char>, Seq<char>>(out),
        0 <= i < entries.len(),
        is_last_of_its_kind(entries, i),
    ensures
        ({
            let (key, value) = config_entry(entries[i]).unwrap();
            has_line(out, set_line(key, value))
        }),
    decreases entries.len(),
{
    let front = entries.drop_last();
    let last = entries.last();
    let (key, value) = config_entry(entries[i]).unwrap();
    assert(last == entries[entries.len() - 1]);
    assert(entries_set(content, front) is Ok);
    let c = entries_set(content, front)->Ok_0;
    if i == entries.len() - 1 {
        assert(out == option_set(c, key, value));
        law_option_is_set(c, key, value);
    } else {
        lemma_plain_front(entries);
        lemma_last_front(entries, i);
        assert(front[i] == entries[i]);
        law_all_options_are_set(content, front, c, i);
        if config_entry(last) is Some {
            let (k2, v2) = config_entry(last).unwrap();
            assert(out == option_set(c, k2, v2));
            let r = set_line(key, value);
            let ls = lines_of(c);
            let n = choose|n: int|
                0 <= n < ls.len() && (#[trigger] ls[n] == r || ls[n] == r.push('\n'));
            lemma_entry_shape(entries[i]);
            lemma_entry_shape(last);
            lemma_lines_of_two_options(key, value, k2, ls[n]);
            law_other_lines_stay(c, k2, v2, n);
            lemma_no_second_end(out, n, r);
            let m = lines_of(out)[n];
            assert(m == r || m == r.push('\n'));
        }
    }
}

/// Once a list of plain entries is set, every line that assigns to an option assigns the
/// value of the last entry that asks for it.
pub proof fn law_all_options_have_one_value(
    content: Seq<char>,
    entries: Seq<Seq<char>>,
    out: Seq<char>,
    i: int,
    n: int,
)
    requires
        are_plain_entries(entries),
        entries_set(content, entries) == Ok::<Seq<char>, Seq<char>>(out),
        0 <= i < entries.len(),
        is_last_of_its_kind(entries, i),
        0 <= n < lines_of(out).len(),
        assigns(lines_of(out)[n], config_entry(entries[i]).unwrap().0),
    ensures
        ({
            let (key, value) = config_entry(entries[i]).unwrap();
            let l = lines_of(out)[n];
            l == set_line(key, value) || l == set_line(key, value).push('\n')
        }),
    decreases entries.len(),
{
    let front = entries.drop_last();
    let last = entries.last();
    let (key, value) = config_entry(entries[i]).unwrap();
    assert(last == entries[entries.len() - 1]);
    assert(entries_set(content, front) is Ok);
    let c = entries_set(content, front)->Ok_0;
    if i == entries.len() - 1 {
        assert(out == option_set(c, key, value));
        law_option_has_one_value(c, key, value, n);
    } else {
        lemma_plain_front(entries);
        lemma_last_front(entries, i);
        assert(front[i] == entries[i]);
        if config_entry(last) is None {
            law_all_options_have_one_value(content, front, c, i, n);
        } else {
            let (k2, v2) = config_entry(last).unwrap();
            assert(out == option_set(c, k2, v2));
            let r = set_line(key, value);
            let ls = lines_of(c);
            let l = lines_of(out)[n];
            lemma_entry_shape(entries[i]);
            lemma_entry_shape(last);
            if l == set_line(k2, v2) || l == set_line(k2, v2).push('\n') {
                lemma_lines_of_two_options(k2, v2, key, l);
            }
            law_option_goes_line_by_line(c, k2, v2);
            lemma_closed_lines(c);
            assert(n < ls.len());
            assert(l == ls[n] || l == ls[n].push('\n'));
            if l != ls[n] {
                lemma_assigns_open(ls[n], key);
            }
            law_all_options_have_one_value(content, front, c, i, n);
            lemma_no_second_end(out, n, r);
        }
    }
}

/// A line feed at its end makes no difference to a trimmed line.
proof fn lemma_trimmed_with_end(l: Seq<char>)
    ensures
        trimmed(l.push('\n')) == trimmed(l),
    decreases l.len(),
{
    let m = l.push('\n');
    if l.len() == 0 {
        assert(m.skip(1) =~= Seq::<char>::empty());
        assert(trimmed_start(m) =~= Seq::<char>::empty()) by {
            assert(is_white(m[0]));
            assert(trimmed_start(m.skip(1)) == m.skip(1));
        }
        assert(trimmed_start(l) =~= trimmed_start(m));
    } else if is_white(l[0]) {
        assert(m.skip(1) =~= l.skip(1).push('\n'));
        lemma_trimmed_with_end(l.skip(1));
    } else {
        assert(m.drop_last() =~= l);
        assert(trimmed_end(m) == trimmed_end(l));
    }
}

/// The line speaks of no option that an entry asks for.
pub open spec fn speaks_of_none(entries: Seq<Seq<char>>, l: Seq<char>) -> bool {
    forall|j: int|
        0 <= j < entries.len() ==> (config_entry(#[trigger] entries[j]) matches Some(e)
            ==> !assigns(l, e.0) && trimmed(l) != not_set_line(e.0))
}

/// Setting a list of plain entries leaves alone, and at its place, every line that speaks
/// of none of them, but for a line feed behind the last one.
pub proof fn law_lists_leave_other_lines(
    content: Seq<char>,
    entries: Seq<Seq<char>>,
    out: Seq<char>,
    n: int,
)
    requires
        are_plain_entries(entries),
        entries_set(content, entries) == Ok::<Seq<char>, Seq<char>>(out),
        0 <= n < lines_of(content).len(),
        speaks_of_none(entries, lines_of(content)[n]),
    ensures
        n < lines_of(out).len(),
        ({
            let l = lines_of(content)[n];
            let m = lines_of(out)[n];
            m == l || m == l.push('\n')
        }),
    decreases entries.len(),
{
    if entries.len() > 0 {
        let front = entries.drop_last();
        let last = entries.last();
        let l = lines_of(content)[n];
        assert(last == entries[entries.len() - 1]);
        assert(entries_set(content, front) is Ok);
        let c = entries_set(content, front)->Ok_0;
        lemma_plain_front(entries);
        assert forall|j: int| 0 <= j < front.len() implies (config_entry(
            #[trigger] front[j],
        ) matches Some(e) ==> !assigns(l, e.0) && trimmed(l) != not_set_line(e.0)) by {
            assert(front[j] == entries[j]);
        }
        law_lists_leave_other_lines(content, front, c, n);
        if config_entry(last) is Some {
            let (k2, v2) = config_entry(last).unwrap();
            assert(out == option_set(c, k2, v2));
            let m = lines_of(c)[n];
            lemma_trimmed_with_end(l);
            if m == l.push('\n') && assigns(m, k2) {
                lemma_assigns_open(l, k2);
            }
            law_other_lines_stay(c, k2, v2, n);
            lemma_no_second_end(out, n, l);
        }
    }
}

/// What the entries, in order, make of a line that assigns to one of their options.
spec fn line_by_list(entries: Seq<Seq<char>>, l: Seq<char>) -> Seq<char>
    decreases entries.len(),
{
    if entries.len() == 0 {
        l
    } else {
        let before = line_by_list(entries.drop_last(), l);
        match config_entry(entries.last()) {
            Some(e) => reassigned(before, e.0, set_line(e.0, e.1)),
            None => before,
        }
    }
}

/// A line goes on to assign to its option, and keeps its line feed.
proof fn lemma_line_keeps_its_option(entries: Seq<Seq<char>>, l: Seq<char>, key: Seq<char>)
    requires
        are_plain_entries(entries),
        assigns(l, key),
        forall|i: int| 0 <= i < key.len() ==> key[i] != '=',
    ensures
        assigns(line_by_list(entries, l), key),
        ends_in(line_by_list(entries, l), '\n') == ends_in(l, '\n'),
    decreases entries.len(),
{
    if entries.len() > 0 {
        lemma_plain_front(entries);
        lemma_line_keeps_its_option(entries.drop_last(), l, key);
        let before = line_by_list(entries.drop_last(), l);
        assert(entries.last() == entries[entries.len() - 1]);
        if config_entry(entries.last()) is Some {
            let (k2, v2) = config_entry(entries.last()).unwrap();
            lemma_entry_shape(entries.last());
            lemma_set_line(k2, v2);
            if assigns(before, k2) {
                lemma_line_assigns_to_one(before, key, k2);
                let r = set_line(k2, v2);
                assert(!ends_in(r, '\n'));
            }
        }
    }
}

/// A line that has the value of the last entry for its option keeps it.
proof fn lemma_line_keeps_its_value(entries: Seq<Seq<char>>, l: Seq<char>, i: int)
    requires
        are_plain_entries(entries),
        0 <= i < entries.len(),
        is_last_of_its_kind(entries, i),
        ({
            let (key, value) = config_entry(entries[i]).unwrap();
            l == set_line(key, value) || l == set_line(key, value).push('\n')
        }),
    ensures
        line_by_list(entries, l) == l,
    decreases entries.len(),
{
    let front = entries.drop_last();
    let (key, value) = config_entry(entries[i]).unwrap();
    lemma_plain_front(entries);
    lemma_entry_shape(entries[i]);
    lemma_set_line(key, value);
    assert(entries.last() == entries[entries.len() - 1]);
    if i == entries.len() - 1 {
        lemma_line_keeps_its_option(front, l, key);
        assert(!ends_in(set_line(key, value), '\n'));
    } else {
        lemma_last_front(entries, i);
        assert(front[i] == entries[i]);
        lemma_line_keeps_its_value(front, l, i);
        if config_entry(entries.last()) is Some {
            let (k2, v2) = config_entry(entries.last()).unwrap();
            lemma_entry_shape(entries.last());
            if assigns(l, k2) {
                lemma_line_assigns_to_one(l, key, k2);
            }
        }
    }
}

/// A line that assigns to none of the options stays.
proof fn lemma_other_line_stays(entries: Seq<Seq<char>>, l: Seq<char>)
    requires
        forall|j: int|
            0 <= j < entries.len() ==> (config_entry(#[trigger] entries[j]) matches Some(e)
                ==> !assigns(l, e.0)),
    ensures
        line_by_list(entries, l) == l,
    decreases entries.len(),
{
    if entries.len() > 0 {
        let front = entries.drop_last();
        assert forall|j: int| 0 <= j < front.len() implies (config_entry(
            #[trigger] front[j],
        ) matches Some(e) ==> !assigns(l, e.0)) by {
            assert(front[j] == entries[j]);
        }
        lemma_other_line_stays(front, l);
        assert(entries.last() == entries[entries.len() - 1]);
    }
}

/// Of the entries for one option there is a last one.
proof fn lemma_last_of_its_kind(entries: Seq<Seq<char>>, j: int) -> (i: int)
    requires
        0 <= j < entries.len(),
        config_entry(entries[j]) is Some,
    ensures
        j <= i < entries.len(),
        is_last_of_its_kind(entries, i),
        config_entry(entries[i]).unwrap().0 == config_entry(entries[j]).unwrap().0,
    decreases entries.len() - j,
{
    if is_last_of_its_kind(entries, j) {
        j
    } else {
        let k = choose|k: int|
            j < k < entries.len() && config_entry(#[trigger] entries[k]) is Some && config_entry(
                entries[k],
            ).unwrap().0 == config_entry(entries[j]).unwrap().0;
        lemma_last_of_its_kind(entries, k)
    }
}

/// Where every option is assigned to, the entries go line by line.
proof fn lemma_list_goes_line_by_line(
    first: Seq<char>,
    content: Seq<char>,
    entries: Seq<Seq<char>>,
)
    requires
        are_plain_entries(entries),
        entries_set(first, entries) is Ok,
        forall|j: int|
            0 <= j < entries.len() ==> (config_entry(#[trigger] entries[j]) matches Some(e)
                ==> has_assignment(content, e.0)),
    ensures
        entries_set(content, entries) is Ok,
        lines_of(entries_set(content, entries)->Ok_0) == lines_of(content).map_values(
            |l: Seq<char>| line_by_list(entries, l),
        ),
    decreases entries.len(),
{
    let ls = lines_of(content);
    let f = |l: Seq<char>| line_by_list(entries, l);
    if entries.len() == 0 {
        assert(ls.map_values(f) =~= ls);
    } else {
        let front = entries.drop_last();
        let last = entries.last();
        assert(last == entries[entries.len() - 1]);
        lemma_plain_front(entries);
        assert forall|j: int| 0 <= j < front.len() implies (config_entry(
            #[trigger] front[j],
        ) matches Some(e) ==> has_assignment(content, e.0)) by {
            assert(front[j] == entries[j]);
        }
        lemma_list_goes_line_by_line(first, content, front);
        let c = entries_set(content, front)->Ok_0;
        let g = |l: Seq<char>| line_by_list(front, l);
        assert(lines_of(c) == ls.map_values(g));
        if config_entry(last) is Some {
            let (k2, v2) = config_entry(last).unwrap();
            lemma_entry_shape(last);
            let n = choose|n: int| 0 <= n < ls.len() && assigns(#[trigger] ls[n], k2);
            lemma_line_keeps_its_option(front, ls[n], k2);
            assert(lines_of(c)[n] == g(ls[n]));
            assert(has_assignment(c, k2));
            assert(is_assigned(c, k2));
            law_option_goes_line_by_line(c, k2, v2);
            let out = lines_of(option_set(c, k2, v2));
            assert forall|i: int| 0 <= i < ls.len() implies #[trigger] out[i] == f(ls[i]) by {
                assert(lines_of(c)[i] == g(ls[i]));
            }
            assert(out =~= ls.map_values(f));
        } else {
            assert(ls.map_values(f) =~= ls.map_values(g));
        }
    }
}

/// Setting a list of plain entries a second time changes nothing.
pub proof fn law_setting_a_list_twice_is_setting_it_once(
    content: Seq<char>,
    entries: Seq<Seq<char>>,
    out: Seq<char>,
)
    requires
        are_plain_entries(entries),
        entries_set(content, entries) == Ok::<Seq<char>, Seq<char>>(out),
    ensures
        entries_set(out, entries) == Ok::<Seq<char>, Seq<char>>(out),
{
    let ls = lines_of(out);
    assert forall|j: int| 0 <= j < entries.len() implies (config_entry(
        #[trigger] entries[j],
    ) matches Some(e) ==> has_assignment(out, e.0)) by {
        if config_entry(entries[j]) is Some {
            let i = lemma_last_of_its_kind(entries, j);
            let (key, value) = config_entry(entries[i]).unwrap();
            law_all_options_are_set(content, entries, out, i);
            lemma_set_line(key, value);
            let r = set_line(key, value);
            let n = choose|n: int|
                0 <= n < ls.len() && (#[trigger] ls[n] == r || ls[n] == r.push('\n'));
            assert(assigns(ls[n], key));
        }
    }
    lemma_list_goes_line_by_line(content, out, entries);
    let f = |l: Seq<char>| line_by_list(entries, l);
    assert forall|n: int| 0 <= n < ls.len() implies f(#[trigger] ls[n]) == ls[n] by {
        let l = ls[n];
        if exists|j: int|
            0 <= j < entries.len() && config_entry(#[trigger] entries[j]) is Some && assigns(
                l,
                config_entry(entries[j]).unwrap().0,
            ) {
            let j = choose|j: int|
                0 <= j < entries.len() && config_entry(#[trigger] entries[j]) is Some && assigns(
                    l,
                    config_entry(entries[j]).unwrap().0,
                );
            let i = lemma_last_of_its_kind(entries, j);
            law_all_options_have_one_value(content, entries, out, i, n);
            lemma_line_keeps_its_value(entries, l, i);
        } else {
            lemma_other_line_stays(entries, l);
        }
    }
    assert(ls.map_values(f) =~= ls);
    lemma_lines_joined(out);
    lemma_lines_joined(entries_set(out, entries)->Ok_0);
}

/// The lists of options of the program itself are short enough to be always accepted.
pub proof fn law_own_options_are_short()
    ensures
        are_short(root_options()),
        are_short(susfs_options()),
        are_short(susfs_open_redirect_options()),
        are_short(droidspaces_options()),
        are_short(misc_options()),
{
    reveal_strlit("CONFIG_KSU=y");
    reveal_strlit("CONFIG_KSU_SUSFS=y");
    reveal_strlit("CONFIG_KSU_SUSFS_SUS_PATH=y");
    reveal_strlit("CONFIG_KSU_SUSFS_SUS_MOUNT=y");
    reveal_strlit("CONFIG_KSU_SUSFS_SUS_KSTAT=y");
    reveal_strlit("CONFIG_KSU_SUSFS_SPOOF_UNAME=y");
    reveal_strlit("CONFIG_KSU_SUSFS_ENABLE_LOG=y");
    reveal_strlit("CONFIG_KSU_SUSFS_HIDE_KSU_SUSFS_SYMBOLS=y");
    reveal_strlit("CONFIG_KSU_SUSFS_SPOOF_CMDLINE_OR_BOOTCONFIG=y");
    reveal_strlit("CONFIG_KSU_SUSFS_SUS_MAP=y");
    reveal_strlit("CONFIG_KSU_SUSFS_OPEN_REDIRECT=y");
    reveal_strlit("CONFIG_PID_NS=y");
    reveal_strlit("CONFIG_SYSVIPC=y");
    reveal_strlit("CONFIG_POSIX_MQUEUE=y");
    reveal_strlit("CONFIG_IPC_NS=y");
    reveal_strlit("CONFIG_DEVTMPFS=y");
    reveal_strlit("CONFIG_BINFMT_MISC=y");
    reveal_strlit("CONFIG_BINFMT_SCRIPT=y");
    reveal_strlit("CONFIG_BINFMT_ELF=y");
    reveal_strlit("CONFIG_USER_NS=y");
    reveal_strlit("CONFIG_OVERLAY_FS=y");
    reveal_strlit("CONFIG_TMPFS_XATTR=y");
    reveal_strlit("CONFIG_TMPFS_POSIX_ACL=y");
    reveal_strlit("CONFIG_KALLSYMS=y");
    reveal_strlit("CONFIG_KALLSYMS_ALL=y");
}

} // verus!
