//! What the compatibility fixes promise of the files of the tree.
use crate::edits::{pad_mask_cleared, FileEdit};
use crate::family::{lemma_series_key, Family};
use crate::fixes::{
    btf_edits, btf_verdict, edited_by, glibc_fixed, is_new_glibc, kernel_fixed, mmap_edits,
    namespace_edits, needs_mmap_fix, needs_parse_fix, noted, parse_edits, Work,
};
use crate::lines::lemma_lines_joined;
use crate::sed::{deleted_exact, inserted_after, line_then, terminated};
use crate::sed_laws::{
    ended_at, is_followed, law_delete_undoes_insert_after, law_insert_needs_the_needle,
    law_inserted_line_follows, law_inserted_line_is_there, law_insertion_keeps_the_lines,
    lemma_has_in_joined, lemma_stands_in_a_line,
};
use crate::susfs_laws::{
    file_after, law_edits_go_file_by_file, law_edits_need_their_files, lemma_char_is_missing,
};
use crate::text::{chomped, lines_of, occurs, occurs_at, replaced};
use crate::text_laws::{
    law_replace_needs_the_pattern, law_replaced_text_is_gone, law_replacement_is_there,
    law_replacement_keeps_the_rest, lemma_apart_by_a_mark, lemma_apart_by_their_fronts,
};
use crate::version::{exceeds_at, key_at, key_ge, key_of, sublevel_at_most};
use vstd::prelude::*;

verus! {

/// The numbers of a version are at least 2 and 38.
pub open spec fn is_from_2_38_on(version: Seq<char>) -> bool {
    let major = key_at(key_of(version), 0);
    let minor = key_at(key_of(version), 1);
    major > 2 || (major == 2 && minor >= 38)
}

/// A C library is new exactly from version 2.38 on, and one of no known version is not.
pub proof fn law_new_glibc_goes_by_the_numbers(version: Seq<char>)
    ensures
        is_new_glibc(Some(version)) <==> is_from_2_38_on(version),
        !is_new_glibc(None),
{
    reveal_strlit("2.38");
    lemma_series_key("2.38"@);
    let a = key_of(version);
    let b = key_of("2.38"@);
    assert(key_at(b, 0) == 2 && key_at(b, 1) == 38);
    assert forall|j: int| j >= 2 implies #[trigger] key_at(b, j) == 0 by {}
    if is_from_2_38_on(version) {
        if key_at(a, 0) > 2 {
            assert(exceeds_at(a, b, 0));
        } else if key_at(a, 1) > 38 {
            assert(exceeds_at(a, b, 1));
        } else if exists|j: int| j >= 2 && #[trigger] key_at(a, j) > 0 {
            let i = lemma_first_positive(a, 2, choose|j: int| j >= 2 && #[trigger] key_at(a, j) > 0);
            assert forall|j: int| 0 <= j < i implies #[trigger] key_at(a, j) == key_at(b, j) by {
                assert(j == 0 || j == 1 || key_at(a, j) == 0);
            }
            assert(exceeds_at(a, b, i));
        } else {
            assert forall|j: int| 0 <= j implies #[trigger] key_at(a, j) == key_at(b, j) by {
                assert(j == 0 || j == 1 || !(key_at(a, j) > 0));
            }
        }
    } else if key_ge(a, b) {
        assert(key_at(a, 0) != key_at(b, 0) || key_at(a, 1) != key_at(b, 1));
        let i = choose|i: int| exceeds_at(a, b, i);
        assert(i == 0 || i == 1 || i >= 2);
        assert(i > 0 ==> key_at(a, 0) == key_at(b, 0));
        assert(i > 1 ==> key_at(a, 1) == key_at(b, 1));
    }
}

/// The first component from `from` on that is not zero.
proof fn lemma_first_positive(a: Seq<u64>, from: int, k: int) -> (i: int)
    requires
        0 <= from <= k,
        key_at(a, k) > 0,
    ensures
        from <= i <= k,
        key_at(a, i) > 0,
        forall|j: int| from <= j < i ==> #[trigger] key_at(a, j) == 0,
    decreases k - from,
{
    if key_at(a, from) > 0 {
        from
    } else {
        lemma_first_positive(a, from + 1, k)
    }
}

/// What edits that succeed make of one file.
proof fn lemma_edited_by(w: Work, dir: Seq<char>, list: Seq<FileEdit>, path: Seq<char>)
    requires
        w.failed is None,
        edited_by(w, dir, list).failed is None,
    ensures
        edited_by(w, dir, list).files.dom() == w.files.dom(),
        w.files.dom().contains(path) ==> edited_by(w, dir, list).files[path] == file_after(
            list,
            path,
            w.files[path],
        ),
{
    law_edits_need_their_files(dir, list, w.files);
    law_edits_go_file_by_file(dir, list, w.files);
    assert(edited_by(w, dir, list).files.dom() =~= w.files.dom());
}

proof fn lemma_fixed_paths_differ()
    ensures
        "tools/bpf/resolve_btfids/Makefile"@ != "tools/lib/subcmd/parse-options.c"@,
        "tools/bpf/resolve_btfids/Makefile"@ != "fs/namespace.c"@,
        "tools/bpf/resolve_btfids/Makefile"@ != "mm/mmap.c"@,
        "tools/lib/subcmd/parse-options.c"@ != "fs/namespace.c"@,
        "tools/lib/subcmd/parse-options.c"@ != "mm/mmap.c"@,
        "fs/namespace.c"@ != "mm/mmap.c"@,
{
    reveal_strlit("tools/bpf/resolve_btfids/Makefile");
    reveal_strlit("tools/lib/subcmd/parse-options.c");
    reveal_strlit("fs/namespace.c");
    reveal_strlit("mm/mmap.c");
    assert("tools/bpf/resolve_btfids/Makefile"@.len() == 33);
    assert("tools/lib/subcmd/parse-options.c"@.len() == 32);
    assert("fs/namespace.c"@.len() == 14);
    assert("mm/mmap.c"@.len() == 9);
}

/// What the fixes make of one file, edit by edit.
proof fn lemma_fixes_by_file(
    w: Work,
    dir: Seq<char>,
    f: Family,
    s: Seq<char>,
    glibc: Option<Seq<char>>,
    path: Seq<char>,
)
    requires
        w.failed is None,
        kernel_fixed(w, dir, f, s, glibc).failed is None,
        w.files.dom().contains(path),
    ensures
        ({
            let out = kernel_fixed(w, dir, f, s, glibc);
            let t = w.files[path];
            let a = if is_new_glibc(glibc) {
                file_after(btf_edits(), path, t)
            } else {
                t
            };
            let b = if is_new_glibc(glibc) && needs_parse_fix(f, s) {
                file_after(parse_edits(), path, a)
            } else {
                a
            };
            let c = if f == Family::Android15_6_6 && sublevel_at_most(s, 58) {
                file_after(namespace_edits(), path, b)
            } else {
                b
            };
            &&& out.files.dom() == w.files.dom()
            &&& out.files[path] == (if needs_mmap_fix(f, s) {
                file_after(mmap_edits(), path, c)
            } else {
                c
            })
        }),
{
    let a = if is_new_glibc(glibc) {
        glibc_fixed(w, dir, f, s)
    } else {
        noted(w, "glibc < 2.38: skipping Makefile/parse-options fixes"@)
    };
    if is_new_glibc(glibc) {
        let verdict = btf_verdict(w.files["tools/bpf/resolve_btfids/Makefile"@]);
        lemma_edited_by(w, dir, btf_edits(), path);
        let one = noted(
            edited_by(w, dir, btf_edits()),
            "Makefile EXTRA_CFLAGS fix: "@ + verdict,
        );
        if needs_parse_fix(f, s) {
            lemma_edited_by(one, dir, parse_edits(), path);
        }
    }
    let b = if f == Family::Android15_6_6 && sublevel_at_most(s, 58) {
        noted(
            edited_by(a, dir, namespace_edits()),
            "fs/namespace.c include fix (android15-6.6): applied"@,
        )
    } else {
        a
    };
    if f == Family::Android15_6_6 && sublevel_at_most(s, 58) {
        lemma_edited_by(a, dir, namespace_edits(), path);
    }
    if needs_mmap_fix(f, s) {
        lemma_edited_by(b, dir, mmap_edits(), path);
    }
}

/// With a new C library, no loop header of the subcommand parser declares its variable
/// after the fixes on android13-5.10 up to sublevel 186, android13-5.15 up to 119 and
/// android14-5.15 up to 110. On every other tree, and with an older library, the parser is
/// as it was.
pub proof fn law_parser_is_fixed(
    w: Work,
    dir: Seq<char>,
    f: Family,
    s: Seq<char>,
    glibc: Option<Seq<char>>,
)
    requires
        w.failed is None,
        kernel_fixed(w, dir, f, s, glibc).failed is None,
        w.files.dom().contains("tools/lib/subcmd/parse-options.c"@),
    ensures
        ({
            let before = w.files["tools/lib/subcmd/parse-options.c"@];
            let after = kernel_fixed(
                w,
                dir,
                f,
                s,
                glibc,
            ).files["tools/lib/subcmd/parse-options.c"@];
            let old = match f {
                Family::Android13_5_10 => sublevel_at_most(s, 186),
                Family::Android13_5_15 => sublevel_at_most(s, 119),
                Family::Android14_5_15 => sublevel_at_most(s, 110),
                _ => false,
            };
            if (glibc matches Some(v) && is_from_2_38_on(v)) && old {
                &&& !occurs(after, "for (int i = 0; subcommands[i]; i++)"@)
                &&& occurs(before, "for (int i = 0; subcommands[i]; i++)"@) ==> occurs(
                    after,
                    "for (i = 0; subcommands[i]; i++)"@,
                )
                &&& occurs(before, "char *buf = NULL;"@) || occurs(before, "if (subcommands) {"@)
                    ==> occurs(after, "\nint i;\n"@)
            } else {
                after == before
            }
        }),
{
    let path = "tools/lib/subcmd/parse-options.c"@;
    let t = w.files[path];
    match glibc {
        Some(v) => law_new_glibc_goes_by_the_numbers(v),
        None => {},
    }
    lemma_fixes_by_file(w, dir, f, s, glibc, path);
    lemma_fixed_paths_differ();
    reveal_with_fuel(file_after, 2);
    if is_new_glibc(glibc) && needs_parse_fix(f, s) {
        let list = parse_edits();
        reveal_with_fuel(file_after, 5);
        let (from, to) = (
            "for (int i = 0; subcommands[i]; i++)"@,
            "for (i = 0; subcommands[i]; i++)"@,
        );
        let c = counter_declared(t);
        assert(file_after(list, path, t) == replaced(c, from, to));
        reveal_strlit("for (int i = 0; subcommands[i]; i++)");
        reveal_strlit("for (i = 0; subcommands[i]; i++)");
        lemma_apart_by_their_fronts(from, to, 6);
        law_replaced_text_is_gone(c, from, to);
        if occurs(t, from) {
            lemma_loops_are_there(t);
        }
        if occurs(t, "char *buf = NULL;"@) || occurs(t, "if (subcommands) {"@) {
            lemma_counters_are_there(t);
        }
    }
}

/// The text of the parser with the counter of its loops declared ahead of them.
spec fn counter_declared(t: Seq<char>) -> Seq<char> {
    inserted_after(
        replaced(
            inserted_after(t, "char *buf = NULL;"@, "int i;"@),
            "for (int i = 0; subcommands[i]; i++) {"@,
            "for (i = 0; subcommands[i]; i++) {"@,
        ),
        "if (subcommands) {"@,
        "int i;"@,
    )
}

/// A loop that declared its counter is there without the declaration.
proof fn lemma_loops_are_there(t: Seq<char>)
    requires
        occurs(t, "for (int i = 0; subcommands[i]; i++)"@),
    ensures
        occurs(
            replaced(
                counter_declared(t),
                "for (int i = 0; subcommands[i]; i++)"@,
                "for (i = 0; subcommands[i]; i++)"@,
            ),
            "for (i = 0; subcommands[i]; i++)"@,
        ),
{
    let (from, to) = (
        "for (int i = 0; subcommands[i]; i++)"@,
        "for (i = 0; subcommands[i]; i++)"@,
    );
    let (from2, to2) = (
        "for (int i = 0; subcommands[i]; i++) {"@,
        "for (i = 0; subcommands[i]; i++) {"@,
    );
    reveal_strlit("for (int i = 0; subcommands[i]; i++)");
    reveal_strlit("for (i = 0; subcommands[i]; i++)");
    reveal_strlit("for (i = 0; subcommands[i]; i++) {");
    reveal_strlit("for (int i = 0; subcommands[i]; i++) {");
    let a = inserted_after(t, "char *buf = NULL;"@, "int i;"@);
    let b = replaced(a, from2, to2);
    let c = counter_declared(t);
    law_insertion_keeps_the_lines(t, "char *buf = NULL;"@, "int i;"@, from);
    if occurs(a, from2) {
        law_replacement_is_there(a, from2, to2);
        let i = choose|i: int| occurs_at(b, to2, i);
        assert(b.subrange(i, i + to.len()) =~= b.subrange(i, i + to2.len()).take(to.len() as int));
        assert(to2.take(to.len() as int) =~= to);
        assert(occurs_at(b, to, i));
        law_insertion_keeps_the_lines(b, "if (subcommands) {"@, "int i;"@, to);
        lemma_apart_by_their_fronts(from, to, 6);
        law_replacement_keeps_the_rest(c, from, to, to);
    } else {
        law_replace_needs_the_pattern(a, from2, to2);
        law_insertion_keeps_the_lines(b, "if (subcommands) {"@, "int i;"@, from);
        law_replacement_is_there(c, from, to);
    }
}

/// Where a line is there that the declaration goes behind, the declaration is there.
proof fn lemma_counters_are_there(t: Seq<char>)
    requires
        occurs(t, "char *buf = NULL;"@) || occurs(t, "if (subcommands) {"@),
    ensures
        occurs(
            replaced(
                counter_declared(t),
                "for (int i = 0; subcommands[i]; i++)"@,
                "for (i = 0; subcommands[i]; i++)"@,
            ),
            "\nint i;\n"@,
        ),
{
    let (x, y, l, n) = ("char *buf = NULL;"@, "if (subcommands) {"@, "int i;"@, "\nint i;\n"@);
    let from = "for (int i = 0; subcommands[i]; i++)"@;
    let from2 = "for (int i = 0; subcommands[i]; i++) {"@;
    let to2 = "for (i = 0; subcommands[i]; i++) {"@;
    reveal_strlit("char *buf = NULL;");
    reveal_strlit("if (subcommands) {");
    reveal_strlit("int i;");
    reveal_strlit("\nint i;\n");
    reveal_strlit("for (int i = 0; subcommands[i]; i++)");
    reveal_strlit("for (int i = 0; subcommands[i]; i++) {");
    assert(seq!['\n'] + l.push('\n') =~= n);
    let a = inserted_after(t, x, l);
    let b = replaced(a, from2, to2);
    let c = counter_declared(t);
    lemma_apart_by_a_mark(from2, n, 0, 0, 0);
    lemma_apart_by_a_mark(from, n, 0, 0, 0);
    lemma_apart_by_a_mark(from2, y, 4, 3, 0);
    if occurs(t, y) {
        law_insertion_keeps_the_lines(t, x, l, y);
        law_replacement_keeps_the_rest(a, from2, to2, y);
    } else {
        law_inserted_line_is_there(t, x, l);
        law_replacement_keeps_the_rest(a, from2, to2, n);
    }
    if occurs(b, y) {
        law_inserted_line_is_there(b, y, l);
    } else {
        law_insert_needs_the_needle(b, y, l);
    }
    law_replacement_keeps_the_rest(c, from, "for (i = 0; subcommands[i]; i++)"@, n);
}

/// With a new C library, the call of make that passed no flags on passes them on after the
/// fixes, whatever the tree. With an older one it is as it was.
pub proof fn law_flags_are_passed_on(
    w: Work,
    dir: Seq<char>,
    f: Family,
    s: Seq<char>,
    glibc: Option<Seq<char>>,
)
    requires
        w.failed is None,
        kernel_fixed(w, dir, f, s, glibc).failed is None,
        w.files.dom().contains("tools/bpf/resolve_btfids/Makefile"@),
    ensures
        ({
            let before = w.files["tools/bpf/resolve_btfids/Makefile"@];
            let after = kernel_fixed(
                w,
                dir,
                f,
                s,
                glibc,
            ).files["tools/bpf/resolve_btfids/Makefile"@];
            let bare = "$(Q)$(MAKE) -C $(SUBCMD_SRC) OUTPUT=$(abspath $(dir $@))/ $(abspath $@)"@;
            if (glibc matches Some(v) && is_from_2_38_on(v)) && occurs(before, bare) {
                occurs(
                    after,
                    "$(Q)$(MAKE) -C $(SUBCMD_SRC) EXTRA_CFLAGS=\"$(CFLAGS)\" OUTPUT=$(abspath $(dir $@))/ $(abspath $@)"@,
                )
            } else {
                after == before
            }
        }),
{
    let path = "tools/bpf/resolve_btfids/Makefile"@;
    let t = w.files[path];
    match glibc {
        Some(v) => law_new_glibc_goes_by_the_numbers(v),
        None => {},
    }
    lemma_fixes_by_file(w, dir, f, s, glibc, path);
    lemma_fixed_paths_differ();
    reveal_with_fuel(file_after, 5);
    let from = "$(Q)$(MAKE) -C $(SUBCMD_SRC) OUTPUT=$(abspath $(dir $@))/ $(abspath $@)"@;
    let to = "$(Q)$(MAKE) -C $(SUBCMD_SRC) EXTRA_CFLAGS=\"$(CFLAGS)\" OUTPUT=$(abspath $(dir $@))/ $(abspath $@)"@;
    reveal_strlit("$(Q)$(MAKE) -C $(SUBCMD_SRC) OUTPUT=$(abspath $(dir $@))/ $(abspath $@)");
    if occurs(t, from) {
        law_replacement_is_there(t, from, to);
    } else {
        law_replace_needs_the_pattern(t, from, to);
    }
}

/// On the family on 6.6 up to sublevel 58, a `fs/namespace.c` that includes the block hooks
/// includes those of file systems after the fixes: behind each of the former, where it did
/// not before. On every other tree, or without the block hooks, the file is as it was.
pub proof fn law_file_system_hooks_are_included(
    w: Work,
    dir: Seq<char>,
    f: Family,
    s: Seq<char>,
    glibc: Option<Seq<char>>,
)
    requires
        w.failed is None,
        kernel_fixed(w, dir, f, s, glibc).failed is None,
        w.files.dom().contains("fs/namespace.c"@),
    ensures
        ({
            let before = w.files["fs/namespace.c"@];
            let after = kernel_fixed(w, dir, f, s, glibc).files["fs/namespace.c"@];
            let (blk, fs) = ("#include <trace/hooks/blk.h>"@, "#include <trace/hooks/fs.h>"@);
            if f == Family::Android15_6_6 && sublevel_at_most(s, 58) && occurs(before, blk)
                && !occurs(before, fs) {
                &&& occurs(after, fs)
                &&& is_followed(after, blk, fs)
                &&& deleted_exact(after, fs) == ended_at(before, blk)
            } else {
                after == before
            }
        }),
{
    let path = "fs/namespace.c"@;
    let t = w.files[path];
    lemma_fixes_by_file(w, dir, f, s, glibc, path);
    lemma_fixed_paths_differ();
    reveal_with_fuel(file_after, 5);
    let (blk, fs) = ("#include <trace/hooks/blk.h>"@, "#include <trace/hooks/fs.h>"@);
    if occurs(t, blk) && !occurs(t, fs) {
        reveal_strlit("#include <trace/hooks/blk.h>");
        reveal_strlit("#include <trace/hooks/fs.h>");
        let out = inserted_after(t, blk, fs);
        lemma_char_is_missing(fs.push('\n'), blk, 22);
        law_inserted_line_follows(t, blk, fs);
        let ls = lines_of(t);
        assert forall|i: int| 0 <= i < ls.len() implies chomped(#[trigger] ls[i]) != fs by {
            if chomped(ls[i]) == fs {
                lemma_chomped_stands(ls[i]);
                lemma_has_in_joined(ls, i, fs);
                lemma_lines_joined(t);
            }
        }
        law_delete_undoes_insert_after(t, blk, fs);
        let k = lemma_stands_in_a_line(t, blk);
        let pieces = ls.map_values(|l: Seq<char>| line_then(l, blk, fs));
        let piece = pieces[k];
        let at = terminated(ls[k]).len() as int;
        assert(piece == terminated(ls[k]) + terminated(fs));
        assert(piece.subrange(at, at + fs.len()) =~= fs);
        assert(occurs_at(piece, fs, at));
        lemma_has_in_joined(pieces, k, fs);
    } else if !occurs(t, blk) {
        law_insert_needs_the_needle(t, blk, fs);
    }
}

/// What is left of a line without its ending stands in it.
proof fn lemma_chomped_stands(l: Seq<char>)
    ensures
        occurs(l, chomped(l)),
    decreases l.len(),
{
    if chomped(l) == l {
        assert(l.subrange(0, l.len() as int) =~= l);
        assert(occurs_at(l, l, 0));
    } else {
        let m = l.drop_last();
        lemma_chomped_stands(m);
        assert(chomped(l) == chomped(m));
        let i = choose|i: int| occurs_at(m, chomped(m), i);
        let n = chomped(m).len() as int;
        assert(l.subrange(i, i + n) =~= m.subrange(i, i + n));
        assert(occurs_at(l, chomped(l), i));
    }
}

/// The padding flags are cleared in place on the four trees that call a function which
/// they lack: sublevel 226 of android12-5.10, 223 of android13-5.10 and 167 of both
/// families on 5.15. On every other tree `mm/mmap.c` is as it was.
pub proof fn law_padding_flags_are_cleared_in_place(
    w: Work,
    dir: Seq<char>,
    f: Family,
    s: Seq<char>,
    glibc: Option<Seq<char>>,
)
    requires
        w.failed is None,
        kernel_fixed(w, dir, f, s, glibc).failed is None,
        w.files.dom().contains("mm/mmap.c"@),
    ensures
        ({
            let before = w.files["mm/mmap.c"@];
            let after = kernel_fixed(w, dir, f, s, glibc).files["mm/mmap.c"@];
            let affected = match f {
                Family::Android12_5_10 => s == "226"@,
                Family::Android13_5_10 => s == "223"@,
                Family::Android13_5_15 => s == "167"@,
                Family::Android14_5_15 => s == "167"@,
                _ => false,
            };
            after == (if affected {
                pad_mask_cleared(before)
            } else {
                before
            })
        }),
{
    let path = "mm/mmap.c"@;
    lemma_fixes_by_file(w, dir, f, s, glibc, path);
    lemma_fixed_paths_differ();
    reveal_with_fuel(file_after, 5);
}

/// The fixes touch four files, and neither add nor remove any.
pub proof fn law_fixes_touch_four_files(
    w: Work,
    dir: Seq<char>,
    f: Family,
    s: Seq<char>,
    glibc: Option<Seq<char>>,
    path: Seq<char>,
)
    requires
        w.failed is None,
        kernel_fixed(w, dir, f, s, glibc).failed is None,
        w.files.dom().contains(path),
        path != "tools/bpf/resolve_btfids/Makefile"@,
        path != "tools/lib/subcmd/parse-options.c"@,
        path != "fs/namespace.c"@,
        path != "mm/mmap.c"@,
    ensures
        kernel_fixed(w, dir, f, s, glibc).files.dom() == w.files.dom(),
        kernel_fixed(w, dir, f, s, glibc).files[path] == w.files[path],
{
    lemma_fixes_by_file(w, dir, f, s, glibc, path);
    reveal_with_fuel(file_after, 5);
}

/// Every fix leaves one note behind the notes that were there, in the order of the fixes:
/// what became of the flags, whether the parser was fixed, and the two fixes of the tree
/// where they were made. Without a new C library one note says that its fixes were skipped.
pub proof fn law_fixes_are_noted(
    w: Work,
    dir: Seq<char>,
    f: Family,
    s: Seq<char>,
    glibc: Option<Seq<char>>,
)
    requires
        w.failed is None,
        kernel_fixed(w, dir, f, s, glibc).failed is None,
    ensures
        ({
            let makefile = w.files["tools/bpf/resolve_btfids/Makefile"@];
            let bare = "$(Q)$(MAKE) -C $(SUBCMD_SRC) OUTPUT=$(abspath $(dir $@))/ $(abspath $@)"@;
            let flags = if occurs(makefile, bare) {
                "true"@
            } else if occurs(makefile, "EXTRA_CFLAGS"@) {
                "already_fixed"@
            } else {
                "false"@
            };
            let old = match f {
                Family::Android13_5_10 => sublevel_at_most(s, 186),
                Family::Android13_5_15 => sublevel_at_most(s, 119),
                Family::Android14_5_15 => sublevel_at_most(s, 110),
                _ => false,
            };
            let library = if glibc matches Some(v) && is_from_2_38_on(v) {
                seq![
                    "Makefile EXTRA_CFLAGS fix: "@ + flags,
                    if old {
                        "parse-options.c fix: applied"@
                    } else {
                        "parse-options.c fix: not applicable"@
                    },
                ]
            } else {
                seq!["glibc < 2.38: skipping Makefile/parse-options fixes"@]
            };
            let hooks = if f == Family::Android15_6_6 && sublevel_at_most(s, 58) {
                seq!["fs/namespace.c include fix (android15-6.6): applied"@]
            } else {
                Seq::empty()
            };
            let padding = match f {
                Family::Android12_5_10 => s == "226"@,
                Family::Android13_5_10 => s == "223"@,
                Family::Android13_5_15 => s == "167"@,
                Family::Android14_5_15 => s == "167"@,
                _ => false,
            };
            kernel_fixed(w, dir, f, s, glibc).notes == w.notes + library + hooks + (if padding {
                seq!["mm/mmap.c VM_PAD_MASK fix: applied"@]
            } else {
                Seq::empty()
            })
        }),
{
    match glibc {
        Some(v) => law_new_glibc_goes_by_the_numbers(v),
        None => {},
    }
    let out = kernel_fixed(w, dir, f, s, glibc);
    let skipped = seq!["glibc < 2.38: skipping Makefile/parse-options fixes"@];
    let verdict = btf_verdict(w.files["tools/bpf/resolve_btfids/Makefile"@]);
    let library = if is_new_glibc(glibc) {
        seq![
            "Makefile EXTRA_CFLAGS fix: "@ + verdict,
            if needs_parse_fix(f, s) {
                "parse-options.c fix: applied"@
            } else {
                "parse-options.c fix: not applicable"@
            },
        ]
    } else {
        skipped
    };
    let a = if is_new_glibc(glibc) {
        glibc_fixed(w, dir, f, s)
    } else {
        noted(w, "glibc < 2.38: skipping Makefile/parse-options fixes"@)
    };
    assert(a.failed is None);
    assert(a.notes =~= w.notes + library);
    let hooks = if f == Family::Android15_6_6 && sublevel_at_most(s, 58) {
        seq!["fs/namespace.c include fix (android15-6.6): applied"@]
    } else {
        Seq::empty()
    };
    let padding = if needs_mmap_fix(f, s) {
        seq!["mm/mmap.c VM_PAD_MASK fix: applied"@]
    } else {
        Seq::empty()
    };
    assert(out.notes =~= w.notes + library + hooks + padding);
}

} // verus!
