//! Options of the kernel configuration.
use crate::ctx::{common_dir_of, Ctx};
use crate::failure::{bad_regex_text, config_missing_text, Failure};
use crate::kconfig_laws::{lemma_trimmed_end, lemma_trimmed_start};
use crate::lines::{char_rows, vec_lines};
use crate::option_list_laws::law_own_options_are_short;
use crate::paths::joined_path;
use crate::regexes::{
    all_reassigned, assignment_pattern, has_assignment, is_key, is_short, no_dollar,
    regex_compiles, regex_escape, regex_expanded, regex_is_match, regex_matches,
    regex_replace_all_text,
};
use crate::sed::{append_line, appended};
use crate::text::{
    chars_of, ends_in, extend_range, first_at, joined, lemma_first_at, lines_of, range_of, slices,
    string_of, trimmed, trimmed_start, vec_find, vec_same,
};
use crate::tree::Tree;
use crate::words::{cat3, vec_trim};
use vstd::prelude::*;

verus! {

// ---------------------------------------------------------------------------
// Models
// ---------------------------------------------------------------------------

/// The option and value that an entry asks for, if any: blank entries and comments ask
/// for nothing, and an entry without an equals sign asks for `y`.
pub open spec fn config_entry(raw: Seq<char>) -> Option<(Seq<char>, Seq<char>)> {
    let line = trimmed(raw);
    if line.len() == 0 || line[0] == '#' {
        None
    } else {
        match first_at(line, "="@) {
            Some(i) => Some((trimmed(line.take(i)), trimmed(line.skip(i + 1)))),
            None => Some((line, "y"@)),
        }
    }
}

/// The line that says that an option is not set.
pub open spec fn not_set_line(key: Seq<char>) -> Seq<char> {
    "# "@ + key + " is not set"@
}

/// The line that sets an option.
pub open spec fn set_line(key: Seq<char>, value: Seq<char>) -> Seq<char> {
    key + "="@ + value
}

/// Some line of `content` assigns to `key`.
pub open spec fn is_assigned(content: Seq<char>, key: Seq<char>) -> bool {
    if is_key(key) {
        has_assignment(content, key)
    } else {
        regex_matches(assignment_pattern(key), content).len() > 0
    }
}

/// `content` with every assignment to `key` replaced by `line`.
pub open spec fn assignments_replaced(
    content: Seq<char>,
    key: Seq<char>,
    line: Seq<char>,
) -> Seq<char> {
    if is_key(key) && no_dollar(line) {
        all_reassigned(content, key, line)
    } else {
        regex_expanded(assignment_pattern(key), content, line)
    }
}

/// The line `l`, or `line` with the line feed of `l` where `l` is `unset`.
pub open spec fn unset_line_replaced(
    l: Seq<char>,
    unset: Seq<char>,
    line: Seq<char>,
) -> Seq<char> {
    if trimmed(l) == unset {
        if ends_in(l, '\n') {
            line.push('\n')
        } else {
            line
        }
    } else {
        l
    }
}

/// `content` with every line that is `unset` replaced by `line`.
pub open spec fn unset_lines_replaced(
    content: Seq<char>,
    unset: Seq<char>,
    line: Seq<char>,
) -> Seq<char> {
    joined(lines_of(content).map_values(|l: Seq<char>| unset_line_replaced(l, unset, line)))
}

/// Some line of `content` is `unset`.
pub open spec fn has_unset_line(content: Seq<char>, unset: Seq<char>) -> bool {
    exists|i: int| 0 <= i < lines_of(content).len() && trimmed(#[trigger] lines_of(content)[i])
        == unset
}

/// `content` with the option `key` set: assignments are replaced, else the lines that
/// say that it is not set, else a line is added.
pub open spec fn option_set(content: Seq<char>, key: Seq<char>, value: Seq<char>) -> Seq<char> {
    let line = set_line(key, value);
    if is_assigned(content, key) {
        assignments_replaced(content, key, line)
    } else if has_unset_line(content, not_set_line(key)) {
        unset_lines_replaced(content, not_set_line(key), line)
    } else {
        appended(content, line)
    }
}

/// What one entry makes of `content`.
pub open spec fn entry_set(content: Seq<char>, raw: Seq<char>) -> Result<Seq<char>, Seq<char>> {
    match config_entry(raw) {
        None => Ok(content),
        Some(e) => if regex_compiles(assignment_pattern(e.0)) {
            Ok(option_set(content, e.0, e.1))
        } else {
            Err(bad_regex_text(assignment_pattern(e.0)))
        },
    }
}

/// What the entries, in order, make of `content`.
pub open spec fn entries_set(content: Seq<char>, entries: Seq<Seq<char>>) -> Result<
    Seq<char>,
    Seq<char>,
>
    decreases entries.len(),
{
    if entries.len() == 0 {
        Ok(content)
    } else {
        match entries_set(content, entries.drop_last()) {
            Ok(c) => entry_set(c, entries.last()),
            Err(e) => Err(e),
        }
    }
}

/// No entry is too long for its option to be looked for.
pub open spec fn are_short(entries: Seq<Seq<char>>) -> bool {
    forall|i: int| 0 <= i < entries.len() ==> is_short(#[trigger] entries[i])
}

/// The option of an entry is no longer than the entry.
proof fn lemma_option_fits_entry(raw: Seq<char>)
    ensures
        config_entry(raw) matches Some(e) ==> e.0.len() <= raw.len(),
{
    lemma_trimmed_start(raw);
    lemma_trimmed_end(trimmed_start(raw));
    let line = trimmed(raw);
    lemma_first_at(line, "="@);
    if let Some(i) = first_at(line, "="@) {
        lemma_trimmed_start(line.take(i));
        lemma_trimmed_end(trimmed_start(line.take(i)));
    }
}

/// Where the kernel configuration stands in the common kernel tree.
pub open spec fn defconfig_path() -> Seq<char> {
    "arch/arm64/configs/gki_defconfig"@
}

/// The option of the root implementation.
pub open spec fn root_options() -> Seq<Seq<char>> {
    seq!["CONFIG_KSU=y"@]
}

/// The options of SUSFS.
pub open spec fn susfs_options() -> Seq<Seq<char>> {
    seq![
        "CONFIG_KSU_SUSFS=y"@,
        "CONFIG_KSU_SUSFS_SUS_PATH=y"@,
        "CONFIG_KSU_SUSFS_SUS_MOUNT=y"@,
        "CONFIG_KSU_SUSFS_SUS_KSTAT=y"@,
        "CONFIG_KSU_SUSFS_SPOOF_UNAME=y"@,
        "CONFIG_KSU_SUSFS_ENABLE_LOG=y"@,
        "CONFIG_KSU_SUSFS_HIDE_KSU_SUSFS_SYMBOLS=y"@,
        "CONFIG_KSU_SUSFS_SPOOF_CMDLINE_OR_BOOTCONFIG=y"@,
        "CONFIG_KSU_SUSFS_SUS_MAP=y"@,
    ]
}

/// The option of SUSFS that goes without NoMount.
pub open spec fn susfs_open_redirect_options() -> Seq<Seq<char>> {
    seq!["CONFIG_KSU_SUSFS_OPEN_REDIRECT=y"@]
}

/// The options of the container runtime.
pub open spec fn droidspaces_options() -> Seq<Seq<char>> {
    seq![
        "CONFIG_PID_NS=y"@,
        "CONFIG_SYSVIPC=y"@,
        "CONFIG_POSIX_MQUEUE=y"@,
        "CONFIG_IPC_NS=y"@,
        "CONFIG_DEVTMPFS=y"@,
        "CONFIG_BINFMT_MISC=y"@,
        "CONFIG_BINFMT_SCRIPT=y"@,
        "CONFIG_BINFMT_ELF=y"@,
        "CONFIG_USER_NS=y"@,
    ]
}

/// The options that every build has.
pub open spec fn misc_options() -> Seq<Seq<char>> {
    seq![
        "CONFIG_OVERLAY_FS=y"@,
        "CONFIG_TMPFS_XATTR=y"@,
        "CONFIG_TMPFS_POSIX_ACL=y"@,
        "CONFIG_KALLSYMS=y"@,
        "CONFIG_KALLSYMS_ALL=y"@,
    ]
}

// ---------------------------------------------------------------------------
// Functions
// ---------------------------------------------------------------------------

/// The option of the root implementation.
pub fn cfg_root() -> (r: Vec<&'static str>)
    ensures
        slices(r@) == root_options(),
{
    let r = vec!["CONFIG_KSU=y"];
    assert(slices(r@) =~= root_options());
    r
}

/// The options of SUSFS.
pub fn cfg_susfs() -> (r: Vec<&'static str>)
    ensures
        slices(r@) == susfs_options(),
{
    let r = vec![
        "CONFIG_KSU_SUSFS=y",
        "CONFIG_KSU_SUSFS_SUS_PATH=y",
        "CONFIG_KSU_SUSFS_SUS_MOUNT=y",
        "CONFIG_KSU_SUSFS_SUS_KSTAT=y",
        "CONFIG_KSU_SUSFS_SPOOF_UNAME=y",
        "CONFIG_KSU_SUSFS_ENABLE_LOG=y",
        "CONFIG_KSU_SUSFS_HIDE_KSU_SUSFS_SYMBOLS=y",
        "CONFIG_KSU_SUSFS_SPOOF_CMDLINE_OR_BOOTCONFIG=y",
        "CONFIG_KSU_SUSFS_SUS_MAP=y",
    ];
    assert(slices(r@) =~= susfs_options());
    r
}

/// The option of SUSFS that goes without NoMount.
pub fn cfg_susfs_open_redirect() -> (r: Vec<&'static str>)
    ensures
        slices(r@) == susfs_open_redirect_options(),
{
    let r = vec!["CONFIG_KSU_SUSFS_OPEN_REDIRECT=y"];
    assert(slices(r@) =~= susfs_open_redirect_options());
    r
}

/// The options of the container runtime.
pub fn cfg_droidspaces() -> (r: Vec<&'static str>)
    ensures
        slices(r@) == droidspaces_options(),
{
    let r = vec![
        "CONFIG_PID_NS=y",
        "CONFIG_SYSVIPC=y",
        "CONFIG_POSIX_MQUEUE=y",
        "CONFIG_IPC_NS=y",
        "CONFIG_DEVTMPFS=y",
        "CONFIG_BINFMT_MISC=y",
        "CONFIG_BINFMT_SCRIPT=y",
        "CONFIG_BINFMT_ELF=y",
        "CONFIG_USER_NS=y",
    ];
    assert(slices(r@) =~= droidspaces_options());
    r
}

/// The options that every build has.
pub fn cfg_misc() -> (r: Vec<&'static str>)
    ensures
        slices(r@) == misc_options(),
{
    let r = vec![
        "CONFIG_OVERLAY_FS=y",
        "CONFIG_TMPFS_XATTR=y",
        "CONFIG_TMPFS_POSIX_ACL=y",
        "CONFIG_KALLSYMS=y",
        "CONFIG_KALLSYMS_ALL=y",
    ];
    assert(slices(r@) =~= misc_options());
    r
}

/// Reads one entry.
pub fn parse_entry(raw: &str) -> (r: Option<(String, String)>)
    ensures
        r is Some <==> config_entry(raw@) is Some,
        r matches Some(e) ==> config_entry(raw@) == Some((e.0@, e.1@)),
{
    let line = vec_trim(&chars_of(raw));
    let n: usize = line.len();
    if n == 0 || line[0] == '#' {
        return None;
    }
    proof {
        lemma_first_at(line@, "="@);
        reveal_strlit("=");
    }
    match vec_find(&line, &chars_of("="), 0) {
        Some(i) => {
            let key = range_of(&line, 0, i);
            let value = range_of(&line, i + 1, n);
            assert(key@ =~= line@.take(i as int));
            assert(value@ =~= line@.skip(i + 1));
            Some((string_of(&vec_trim(&key)), string_of(&vec_trim(&value))))
        },
        None => Some((string_of(&line), "y".to_owned())),
    }
}

/// Tells whether some line is `unset`.
fn contains_unset_line(
    rows: &Vec<Vec<char>>,
    unset: &Vec<char>,
    Ghost(content): Ghost<Seq<char>>,
) -> (r: bool)
    requires
        char_rows(rows@) == lines_of(content),
    ensures
        r == has_unset_line(content, unset@),
{
    let mut i: usize = 0;
    while i < rows.len()
        invariant
            i <= rows@.len(),
            char_rows(rows@) == lines_of(content),
            forall|j: int| 0 <= j < i ==> trimmed(#[trigger] lines_of(content)[j]) != unset@,
        decreases rows@.len() - i,
    {
        assert(lines_of(content)[i as int] == rows@[i as int]@);
        if vec_same(&vec_trim(&rows[i]), unset) {
            return true;
        }
        i += 1;
    }
    false
}

/// Replaces every line that is `unset` by `line`.
fn replace_unset_lines(content: &str, unset: &Vec<char>, line: &str) -> (r: Option<String>)
    ensures
        r is Some <==> has_unset_line(content@, unset@),
        r matches Some(out) ==> out@ == unset_lines_replaced(content@, unset@, line@),
{
    let rows = vec_lines(&chars_of(content));
    if !contains_unset_line(&rows, unset, Ghost(content@)) {
        return None;
    }
    let set = chars_of(line);
    let mut out: Vec<char> = Vec::new();
    let ghost f = |l: Seq<char>| unset_line_replaced(l, unset@, line@);
    let ghost want = lines_of(content@).map_values(f);
    let mut i: usize = 0;
    assert(want.take(0) =~= Seq::<Seq<char>>::empty());
    while i < rows.len()
        invariant
            i <= rows@.len(),
            set@ == line@,
            char_rows(rows@) == lines_of(content@),
            want == lines_of(content@).map_values(f),
            f == (|l: Seq<char>| unset_line_replaced(l, unset@, line@)),
            out@ == joined(want.take(i as int)),
        decreases rows@.len() - i,
    {
        assert(lines_of(content@)[i as int] == rows@[i as int]@);
        let row = &rows[i];
        let n: usize = row.len();
        let ghost before = out@;
        if vec_same(&vec_trim(row), unset) {
            extend_range(&mut out, &set, 0, set.len());
            assert(set@.subrange(0, set@.len() as int) =~= set@);
            if n > 0 && row[n - 1] == '\n' {
                out.push('\n');
            }
        } else {
            extend_range(&mut out, row, 0, n);
            assert(row@.subrange(0, n as int) =~= row@);
        }
        assert(out@ =~= before + want[i as int]);
        assert(want.take(i + 1).drop_last() =~= want.take(i as int));
        i += 1;
    }
    assert(want.take(want.len() as int) =~= want);
    Some(string_of(&out))
}

/// Sets one option.
pub fn set_option(content: &str, key: &str, value: &str) -> (r: Result<String, Failure>)
    ensures
        r is Ok <==> regex_compiles(assignment_pattern(key@)),
        is_short(key@) ==> r is Ok,
        r matches Ok(out) ==> out@ == option_set(content@, key@, value@),
        r matches Err(e) ==> e@ == bad_regex_text(assignment_pattern(key@)),
{
    let pattern = cat3("(?m)^", &regex_escape(key), "=.*$");
    let line = cat3(key, "=", value);
    assert(pattern@ == assignment_pattern(key@));
    match regex_is_match(&pattern, content) {
        Ok(assigned) => {
            if assigned {
                match regex_replace_all_text(&pattern, content, &line) {
                    Ok(out) => Ok(out),
                    Err(_) => Err(Failure::BadRegex { pattern }),
                }
            } else {
                let unset = chars_of(&cat3("# ", key, " is not set"));
                match replace_unset_lines(content, &unset, &line) {
                    Some(out) => Ok(out),
                    None => Ok(append_line(content, &line)),
                }
            }
        },
        Err(_) => Err(Failure::BadRegex { pattern }),
    }
}

/// Sets the options of the entries in a configuration, in order.
pub fn set_options(content: &str, entries: &Vec<&str>) -> (r: Result<String, Failure>)
    ensures
        match r {
            Ok(out) => entries_set(content@, slices(entries@)) == Ok::<Seq<char>, Seq<char>>(out@),
            Err(e) => entries_set(content@, slices(entries@)) == Err::<Seq<char>, Seq<char>>(e@),
        },
        are_short(slices(entries@)) ==> r is Ok,
{
    let ghost all = slices(entries@);
    let mut out = content.to_owned();
    let mut i: usize = 0;
    assert(all.take(0) =~= Seq::<Seq<char>>::empty());
    while i < entries.len()
        invariant
            i <= entries@.len(),
            all == slices(entries@),
            entries_set(content@, all.take(i as int)) == Ok::<Seq<char>, Seq<char>>(out@),
        decreases entries@.len() - i,
    {
        assert(all.take(i + 1).drop_last() =~= all.take(i as int));
        assert(all.take(i + 1).last() == entries@[i as int]@);
        match parse_entry(entries[i]) {
            Some((key, value)) => match set_option(&out, &key, &value) {
                Ok(next) => {
                    out = next;
                },
                Err(e) => {
                    proof {
                        lemma_option_fits_entry(all[i as int]);
                        lemma_entries_stop(content@, all, i + 1);
                    }
                    return Err(e);
                },
            },
            None => {},
        }
        i += 1;
    }
    assert(all.take(all.len() as int) =~= all);
    Ok(out)
}

/// The first entry that fails decides.
proof fn lemma_entries_stop(content: Seq<char>, entries: Seq<Seq<char>>, k: int)
    requires
        0 <= k <= entries.len(),
        entries_set(content, entries.take(k)) is Err,
    ensures
        entries_set(content, entries) == entries_set(content, entries.take(k)),
    decreases entries.len() - k,
{
    if k < entries.len() {
        assert(entries.take(k + 1).drop_last() =~= entries.take(k));
        lemma_entries_stop(content, entries, k + 1);
    } else {
        assert(entries.take(k) =~= entries);
    }
}

/// Sets the options of the entries in the kernel configuration of the tree.
pub fn set_kernel_config(ctx: &Ctx, tree: &mut Tree, entries: &Vec<&str>) -> (r: Result<
    (),
    Failure,
>)
    ensures
        !old(tree)@.dom().contains(defconfig_path()) ==> (r matches Err(e) && e@
            == config_missing_text(
            joined_path(common_dir_of(ctx.workspace()), defconfig_path()),
        )),
        old(tree)@.dom().contains(defconfig_path()) ==> match entries_set(
            old(tree)@[defconfig_path()],
            slices(entries@),
        ) {
            Ok(out) => r is Ok && final(tree)@ == old(tree)@.insert(defconfig_path(), out),
            Err(text) => r matches Err(e) && e@ == text,
        },
        old(tree)@.dom().contains(defconfig_path()) && are_short(slices(entries@)) ==> r is Ok,
        r is Err ==> *final(tree) == *old(tree),
{
    let out = match tree.get("arch/arm64/configs/gki_defconfig") {
        Some(content) => set_options(content, entries)?,
        None => {
            return Err(Failure::ConfigMissing { path: ctx.defconfig() });
        },
    };
    tree.set("arch/arm64/configs/gki_defconfig", out);
    Ok(())
}

/// Sets the options that every build has.
pub fn apply_misc_configs(ctx: &Ctx, tree: &mut Tree) -> (r: Result<(), Failure>)
    ensures
        !old(tree)@.dom().contains(defconfig_path()) ==> (r matches Err(e) && e@
            == config_missing_text(
            joined_path(common_dir_of(ctx.workspace()), defconfig_path()),
        )),
        old(tree)@.dom().contains(defconfig_path()) ==> match entries_set(
            old(tree)@[defconfig_path()],
            misc_options(),
        ) {
            Ok(out) => r is Ok && final(tree)@ == old(tree)@.insert(defconfig_path(), out),
            Err(text) => r matches Err(e) && e@ == text,
        },
        r is Ok <==> old(tree)@.dom().contains(defconfig_path()),
        r is Err ==> *final(tree) == *old(tree),
{
    proof {
        law_own_options_are_short();
    }
    set_kernel_config(ctx, tree, &cfg_misc())
}

} // verus!
