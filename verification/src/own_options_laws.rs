//! What the lists of options of the program itself turn on.
use crate::kconfig::{
    config_entry, droidspaces_options, entries_set, misc_options, not_set_line, root_options,
    set_line, susfs_open_redirect_options, susfs_options,
};
use crate::kconfig_laws::{has_line, is_plain};
use crate::option_list_laws::{
    are_plain_entries, is_last_of_its_kind, law_all_options_are_set,
    law_all_options_have_one_value, law_lists_leave_other_lines, speaks_of_none,
};
use crate::regexes::assigns;
use crate::text::{first_at, is_white, lemma_find_from, lines_of, occurs_at, trimmed};
use vstd::prelude::*;

verus! {

/// The option is on: a line says so, and no line that assigns to it says anything else.
pub open spec fn is_on(content: Seq<char>, name: Seq<char>) -> bool {
    &&& has_line(content, name + "=y"@)
    &&& forall|n: int|
        0 <= n < lines_of(content).len() && assigns(#[trigger] lines_of(content)[n], name)
            ==> lines_of(content)[n] == name + "=y"@ || lines_of(content)[n] == (name
            + "=y"@).push('\n')
}

/// The line is about none of the options.
pub open spec fn is_about_none(names: Seq<Seq<char>>, l: Seq<char>) -> bool {
    forall|k: int|
        0 <= k < names.len() ==> !assigns(l, #[trigger] names[k]) && trimmed(l) != "# "@
            + names[k] + " is not set"@
}

/// `after` has every one of the options on, and the lines of `before` about others at
/// their places, but for a line feed behind the last one.
pub open spec fn turned_on(before: Seq<char>, after: Seq<char>, names: Seq<Seq<char>>) -> bool {
    &&& forall|k: int| 0 <= k < names.len() ==> is_on(after, #[trigger] names[k])
    &&& forall|n: int|
        0 <= n < lines_of(before).len() && is_about_none(names, #[trigger] lines_of(before)[n])
            ==> n < lines_of(after).len() && (lines_of(after)[n] == lines_of(before)[n]
            || lines_of(after)[n] == lines_of(before)[n].push('\n'))
}

/// The name of an option: capital letters, digits and underscores.
spec fn is_name(name: Seq<char>) -> bool {
    &&& name.len() > 0
    &&& forall|i: int|
        0 <= i < name.len() ==> 'A' <= #[trigger] name[i] <= 'Z' || '0' <= name[i] <= '9'
            || name[i] == '_'
}

/// The entries ask for the options of `names`, one for one, and no name is there twice.
spec fn asks_for(entries: Seq<Seq<char>>, names: Seq<Seq<char>>) -> bool {
    &&& entries.len() == names.len()
    &&& forall|i: int|
        0 <= i < entries.len() ==> #[trigger] entries[i] == names[i] + "=y"@ && is_name(names[i])
    &&& forall|i: int, j: int|
        0 <= i < j < names.len() ==> #[trigger] names[i] != #[trigger] names[j]
}

/// An entry with a name and the value `y` asks for just that.
proof fn lemma_named_entry(name: Seq<char>)
    requires
        is_name(name),
    ensures
        config_entry(name + "=y"@) == Some((name, "y"@)),
        is_plain(name, "y"@),
        set_line(name, "y"@) == name + "=y"@,
{
    reveal_strlit("=y");
    reveal_strlit("=");
    reveal_strlit("y");
    let line = name + "=y"@;
    let k = name.len() as int;
    assert(line[0] == name[0] && line.last() == 'y');
    assert(!is_white(line[0]) && !is_white(line.last()));
    assert(trimmed(line) == line);
    assert(line.subrange(k, k + 1) =~= "="@);
    assert(occurs_at(line, "="@, k));
    lemma_find_from(line, "="@, 0);
    let i = first_at(line, "="@).unwrap();
    assert(line.subrange(i, i + 1)[0] == '=');
    assert(i == k);
    assert(line.take(k) =~= name);
    assert(line.skip(k + 1) =~= "y"@);
    assert(!is_white(name[0]) && !is_white(name.last()));
    assert(trimmed(name) == name);
    assert(!is_white("y"@[0]) && !is_white("y"@.last()));
    assert(trimmed("y"@) == "y"@);
    assert(set_line(name, "y"@) =~= line);
}

/// Setting a list of entries turns on what they ask for.
proof fn lemma_turned_on(
    content: Seq<char>,
    out: Seq<char>,
    entries: Seq<Seq<char>>,
    names: Seq<Seq<char>>,
)
    requires
        asks_for(entries, names),
        entries_set(content, entries) == Ok::<Seq<char>, Seq<char>>(out),
    ensures
        turned_on(content, out, names),
{
    assert forall|i: int| 0 <= i < entries.len() implies config_entry(#[trigger] entries[i])
        == Some((names[i], "y"@)) && is_plain(names[i], "y"@) by {
        lemma_named_entry(names[i]);
    }
    assert(are_plain_entries(entries));
    assert forall|k: int| 0 <= k < names.len() implies is_on(out, #[trigger] names[k]) by {
        assert(config_entry(entries[k]) == Some((names[k], "y"@)));
        assert(is_last_of_its_kind(entries, k)) by {
            assert forall|j: int| k < j < entries.len() implies (config_entry(
                #[trigger] entries[j],
            ) matches Some(o) ==> o.0 != config_entry(entries[k]).unwrap().0) by {
                assert(names[k] != names[j]);
            }
        }
        lemma_named_entry(names[k]);
        law_all_options_are_set(content, entries, out, k);
        assert forall|n: int|
            0 <= n < lines_of(out).len() && assigns(#[trigger] lines_of(out)[n], names[k]) implies
            lines_of(out)[n] == names[k] + "=y"@ || lines_of(out)[n] == (names[k]
            + "=y"@).push('\n') by {
            law_all_options_have_one_value(content, entries, out, k, n);
        }
    }
    assert forall|n: int|
        0 <= n < lines_of(content).len() && is_about_none(
            names,
            #[trigger] lines_of(content)[n],
        ) implies n < lines_of(out).len() && (lines_of(out)[n] == lines_of(content)[n]
        || lines_of(out)[n] == lines_of(content)[n].push('\n')) by {
        let l = lines_of(content)[n];
        assert(speaks_of_none(entries, l)) by {
            assert forall|j: int| 0 <= j < entries.len() implies (config_entry(
                #[trigger] entries[j],
            ) matches Some(e) ==> !assigns(l, e.0) && trimmed(l) != not_set_line(e.0)) by {
                assert(!assigns(l, names[j]));
            }
        }
        law_lists_leave_other_lines(content, entries, out, n);
    }
}

/// Setting the option of the root implementation turns `CONFIG_KSU` on, and touches no
/// other option.
pub proof fn law_root_option_is_on(content: Seq<char>, out: Seq<char>)
    requires
        entries_set(content, root_options()) == Ok::<Seq<char>, Seq<char>>(out),
    ensures
        turned_on(
            content,
            out,
            seq!["CONFIG_KSU"@],
        ),
{
    let entries = root_options();
    let names = seq!["CONFIG_KSU"@];
    reveal_strlit("=y");
    reveal_strlit("CONFIG_KSU");
    reveal_strlit("CONFIG_KSU=y");
    assert(entries[0] =~= names[0] + "=y"@);
    assert(asks_for(entries, names));
    lemma_turned_on(content, out, entries, names);
}

/// Setting the options of SUSFS turns each of the nine on, and touches no other option.
pub proof fn law_susfs_options_are_on(content: Seq<char>, out: Seq<char>)
    requires
        entries_set(content, susfs_options()) == Ok::<Seq<char>, Seq<char>>(out),
    ensures
        turned_on(
            content,
            out,
            seq![
                "CONFIG_KSU_SUSFS"@,
                "CONFIG_KSU_SUSFS_SUS_PATH"@,
                "CONFIG_KSU_SUSFS_SUS_MOUNT"@,
                "CONFIG_KSU_SUSFS_SUS_KSTAT"@,
                "CONFIG_KSU_SUSFS_SPOOF_UNAME"@,
                "CONFIG_KSU_SUSFS_ENABLE_LOG"@,
                "CONFIG_KSU_SUSFS_HIDE_KSU_SUSFS_SYMBOLS"@,
                "CONFIG_KSU_SUSFS_SPOOF_CMDLINE_OR_BOOTCONFIG"@,
                "CONFIG_KSU_SUSFS_SUS_MAP"@,
            ],
        ),
{
    let entries = susfs_options();
    let names = seq![
        "CONFIG_KSU_SUSFS"@,
        "CONFIG_KSU_SUSFS_SUS_PATH"@,
        "CONFIG_KSU_SUSFS_SUS_MOUNT"@,
        "CONFIG_KSU_SUSFS_SUS_KSTAT"@,
        "CONFIG_KSU_SUSFS_SPOOF_UNAME"@,
        "CONFIG_KSU_SUSFS_ENABLE_LOG"@,
        "CONFIG_KSU_SUSFS_HIDE_KSU_SUSFS_SYMBOLS"@,
        "CONFIG_KSU_SUSFS_SPOOF_CMDLINE_OR_BOOTCONFIG"@,
        "CONFIG_KSU_SUSFS_SUS_MAP"@,
    ];
    reveal_strlit("=y");
    reveal_strlit("CONFIG_KSU_SUSFS");
    reveal_strlit("CONFIG_KSU_SUSFS=y");
    reveal_strlit("CONFIG_KSU_SUSFS_SUS_PATH");
    reveal_strlit("CONFIG_KSU_SUSFS_SUS_PATH=y");
    reveal_strlit("CONFIG_KSU_SUSFS_SUS_MOUNT");
    reveal_strlit("CONFIG_KSU_SUSFS_SUS_MOUNT=y");
    reveal_strlit("CONFIG_KSU_SUSFS_SUS_KSTAT");
    reveal_strlit("CONFIG_KSU_SUSFS_SUS_KSTAT=y");
    reveal_strlit("CONFIG_KSU_SUSFS_SPOOF_UNAME");
    reveal_strlit("CONFIG_KSU_SUSFS_SPOOF_UNAME=y");
    reveal_strlit("CONFIG_KSU_SUSFS_ENABLE_LOG");
    reveal_strlit("CONFIG_KSU_SUSFS_ENABLE_LOG=y");
    reveal_strlit("CONFIG_KSU_SUSFS_HIDE_KSU_SUSFS_SYMBOLS");
    reveal_strlit("CONFIG_KSU_SUSFS_HIDE_KSU_SUSFS_SYMBOLS=y");
    reveal_strlit("CONFIG_KSU_SUSFS_SPOOF_CMDLINE_OR_BOOTCONFIG");
    reveal_strlit("CONFIG_KSU_SUSFS_SPOOF_CMDLINE_OR_BOOTCONFIG=y");
    reveal_strlit("CONFIG_KSU_SUSFS_SUS_MAP");
    reveal_strlit("CONFIG_KSU_SUSFS_SUS_MAP=y");
    assert(entries[0] =~= names[0] + "=y"@);
    assert(entries[1] =~= names[1] + "=y"@);
    assert(entries[2] =~= names[2] + "=y"@);
    assert(entries[3] =~= names[3] + "=y"@);
    assert(entries[4] =~= names[4] + "=y"@);
    assert(entries[5] =~= names[5] + "=y"@);
    assert(entries[6] =~= names[6] + "=y"@);
    assert(entries[7] =~= names[7] + "=y"@);
    assert(entries[8] =~= names[8] + "=y"@);
    assert(names[2][21] != names[3][21]);
    assert(asks_for(entries, names));
    lemma_turned_on(content, out, entries, names);
}

/// Setting the option of SUSFS that goes without NoMount turns it on, and touches no
/// other option.
pub proof fn law_open_redirect_option_is_on(content: Seq<char>, out: Seq<char>)
    requires
        entries_set(content, susfs_open_redirect_options()) == Ok::<Seq<char>, Seq<char>>(out),
    ensures
        turned_on(
            content,
            out,
            seq!["CONFIG_KSU_SUSFS_OPEN_REDIRECT"@],
        ),
{
    let entries = susfs_open_redirect_options();
    let names = seq!["CONFIG_KSU_SUSFS_OPEN_REDIRECT"@];
    reveal_strlit("=y");
    reveal_strlit("CONFIG_KSU_SUSFS_OPEN_REDIRECT");
    reveal_strlit("CONFIG_KSU_SUSFS_OPEN_REDIRECT=y");
    assert(entries[0] =~= names[0] + "=y"@);
    assert(asks_for(entries, names));
    lemma_turned_on(content, out, entries, names);
}

/// Setting the options of the container runtime turns on its namespaces, its queues, its
/// device files and its binary formats, and touches no other option.
pub proof fn law_container_options_are_on(content: Seq<char>, out: Seq<char>)
    requires
        entries_set(content, droidspaces_options()) == Ok::<Seq<char>, Seq<char>>(out),
    ensures
        turned_on(
            content,
            out,
            seq![
                "CONFIG_PID_NS"@,
                "CONFIG_SYSVIPC"@,
                "CONFIG_POSIX_MQUEUE"@,
                "CONFIG_IPC_NS"@,
                "CONFIG_DEVTMPFS"@,
                "CONFIG_BINFMT_MISC"@,
                "CONFIG_BINFMT_SCRIPT"@,
                "CONFIG_BINFMT_ELF"@,
                "CONFIG_USER_NS"@,
            ],
        ),
{
    let entries = droidspaces_options();
    let names = seq![
        "CONFIG_PID_NS"@,
        "CONFIG_SYSVIPC"@,
        "CONFIG_POSIX_MQUEUE"@,
        "CONFIG_IPC_NS"@,
        "CONFIG_DEVTMPFS"@,
        "CONFIG_BINFMT_MISC"@,
        "CONFIG_BINFMT_SCRIPT"@,
        "CONFIG_BINFMT_ELF"@,
        "CONFIG_USER_NS"@,
    ];
    reveal_strlit("=y");
    reveal_strlit("CONFIG_PID_NS");
    reveal_strlit("CONFIG_PID_NS=y");
    reveal_strlit("CONFIG_SYSVIPC");
    reveal_strlit("CONFIG_SYSVIPC=y");
    reveal_strlit("CONFIG_POSIX_MQUEUE");
    reveal_strlit("CONFIG_POSIX_MQUEUE=y");
    reveal_strlit("CONFIG_IPC_NS");
    reveal_strlit("CONFIG_IPC_NS=y");
    reveal_strlit("CONFIG_DEVTMPFS");
    reveal_strlit("CONFIG_DEVTMPFS=y");
    reveal_strlit("CONFIG_BINFMT_MISC");
    reveal_strlit("CONFIG_BINFMT_MISC=y");
    reveal_strlit("CONFIG_BINFMT_SCRIPT");
    reveal_strlit("CONFIG_BINFMT_SCRIPT=y");
    reveal_strlit("CONFIG_BINFMT_ELF");
    reveal_strlit("CONFIG_BINFMT_ELF=y");
    reveal_strlit("CONFIG_USER_NS");
    reveal_strlit("CONFIG_USER_NS=y");
    assert(entries[0] =~= names[0] + "=y"@);
    assert(entries[1] =~= names[1] + "=y"@);
    assert(entries[2] =~= names[2] + "=y"@);
    assert(entries[3] =~= names[3] + "=y"@);
    assert(entries[4] =~= names[4] + "=y"@);
    assert(entries[5] =~= names[5] + "=y"@);
    assert(entries[6] =~= names[6] + "=y"@);
    assert(entries[7] =~= names[7] + "=y"@);
    assert(entries[8] =~= names[8] + "=y"@);
    assert(names[0][7] != names[3][7]);
    assert(names[1][7] != names[8][7]);
    assert(asks_for(entries, names));
    lemma_turned_on(content, out, entries, names);
}

/// Setting the options that every build has turns on the overlay, the attributes of
/// temporary files and the symbol table, and touches no other option.
pub proof fn law_common_options_are_on(content: Seq<char>, out: Seq<char>)
    requires
        entries_set(content, misc_options()) == Ok::<Seq<char>, Seq<char>>(out),
    ensures
        turned_on(
            content,
            out,
            seq![
                "CONFIG_OVERLAY_FS"@,
                "CONFIG_TMPFS_XATTR"@,
                "CONFIG_TMPFS_POSIX_ACL"@,
                "CONFIG_KALLSYMS"@,
                "CONFIG_KALLSYMS_ALL"@,
            ],
        ),
{
    let entries = misc_options();
    let names = seq![
        "CONFIG_OVERLAY_FS"@,
        "CONFIG_TMPFS_XATTR"@,
        "CONFIG_TMPFS_POSIX_ACL"@,
        "CONFIG_KALLSYMS"@,
        "CONFIG_KALLSYMS_ALL"@,
    ];
    reveal_strlit("=y");
    reveal_strlit("CONFIG_OVERLAY_FS");
    reveal_strlit("CONFIG_OVERLAY_FS=y");
    reveal_strlit("CONFIG_TMPFS_XATTR");
    reveal_strlit("CONFIG_TMPFS_XATTR=y");
    reveal_strlit("CONFIG_TMPFS_POSIX_ACL");
    reveal_strlit("CONFIG_TMPFS_POSIX_ACL=y");
    reveal_strlit("CONFIG_KALLSYMS");
    reveal_strlit("CONFIG_KALLSYMS=y");
    reveal_strlit("CONFIG_KALLSYMS_ALL");
    reveal_strlit("CONFIG_KALLSYMS_ALL=y");
    assert(entries[0] =~= names[0] + "=y"@);
    assert(entries[1] =~= names[1] + "=y"@);
    assert(entries[2] =~= names[2] + "=y"@);
    assert(entries[3] =~= names[3] + "=y"@);
    assert(entries[4] =~= names[4] + "=y"@);
    assert(asks_for(entries, names));
    lemma_turned_on(content, out, entries, names);
}

} // verus!
