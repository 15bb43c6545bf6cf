//! Compatibility fixes that go by the C library, the family and the sublevel.
use crate::ctx::{common_dir_of, Ctx};
use crate::edits::{edits_made, run_edits, Edit, FileEdit};
use crate::failure::Failure;
use crate::family::Family;
use crate::lines::{char_rows, vec_bare_lines};
use crate::text::{
    bare_lines, chars_of, contains, last_word, occurs, same, string_of, texts, trimmed,
};
use crate::tree::Tree;
use crate::version::{key_ge, key_of, sublevel_at_most, sublevel_le, version_ge};
use crate::words::{cat2, vec_last_word, vec_trim};
use vstd::prelude::*;

verus! {

// ---------------------------------------------------------------------------
// Models
// ---------------------------------------------------------------------------

/// The files, the notes and the failure, if any, after a part of a step.
#[verifier::ext_equal]
pub struct Work {
    pub files: Map<Seq<char>, Seq<char>>,
    pub notes: Seq<Seq<char>>,
    pub failed: Option<Seq<char>>,
}

/// Goes on with a note, unless there was a failure.
pub open spec fn noted(w: Work, note: Seq<char>) -> Work {
    if w.failed is Some {
        w
    } else {
        Work { notes: w.notes.push(note), ..w }
    }
}

/// Goes on with a list of edits, unless there was a failure.
pub open spec fn edited_by(w: Work, dir: Seq<char>, list: Seq<FileEdit>) -> Work {
    if w.failed is Some {
        w
    } else {
        let (files, failed) = edits_made(dir, list, w.files);
        Work { files, failed, ..w }
    }
}

/// What a step left behind.
pub open spec fn work_of(ctx: Ctx, tree: Tree, r: Result<(), Failure>) -> Work {
    Work {
        files: tree@,
        notes: texts(ctx.notes@),
        failed: match r {
            Ok(_) => None,
            Err(e) => Some(e@),
        },
    }
}

/// The version of the C library in what `ldd --version` printed: the last word of the
/// first line of the output, or of the error output where the output is blank.
pub open spec fn glibc_of(out: Seq<char>, err: Seq<char>) -> Option<Seq<char>> {
    let text = if trimmed(out).len() == 0 {
        err
    } else {
        out
    };
    if bare_lines(text).len() == 0 || last_word(bare_lines(text)[0]).len() == 0 {
        None
    } else {
        Some(last_word(bare_lines(text)[0]))
    }
}

/// The C library is of version 2.38 at least.
pub open spec fn is_new_glibc(glibc: Option<Seq<char>>) -> bool {
    glibc matches Some(v) && key_ge(key_of(v), key_of("2.38"@))
}

/// The call of make that passes no flags on.
pub open spec fn btf_make_call() -> Seq<char> {
    "$(Q)$(MAKE) -C $(SUBCMD_SRC) OUTPUT=$(abspath $(dir $@))/ $(abspath $@)"@
}

/// What became of the call of make.
pub open spec fn btf_verdict(makefile: Seq<char>) -> Seq<char> {
    if occurs(makefile, btf_make_call()) {
        "true"@
    } else if occurs(makefile, "EXTRA_CFLAGS"@) {
        "already_fixed"@
    } else {
        "false"@
    }
}

/// The edit that passes the flags on.
pub open spec fn btf_edits() -> Seq<FileEdit> {
    seq![
        FileEdit {
            path: "tools/bpf/resolve_btfids/Makefile",
            edit: Edit::Replace {
                from: "$(Q)$(MAKE) -C $(SUBCMD_SRC) OUTPUT=$(abspath $(dir $@))/ $(abspath $@)",
                to: "$(Q)$(MAKE) -C $(SUBCMD_SRC) EXTRA_CFLAGS=\"$(CFLAGS)\" OUTPUT=$(abspath $(dir $@))/ $(abspath $@)",
            },
        },
    ]
}

/// The tree declares variables in loop headers of `parse-options.c`.
pub open spec fn needs_parse_fix(f: Family, s: Seq<char>) -> bool {
    ||| f == Family::Android13_5_10 && sublevel_at_most(s, 186)
    ||| f == Family::Android13_5_15 && sublevel_at_most(s, 119)
    ||| f == Family::Android14_5_15 && sublevel_at_most(s, 110)
}

/// The edits that declare the variables in front of the loops.
pub open spec fn parse_edits() -> Seq<FileEdit> {
    seq![
        FileEdit {
            path: "tools/lib/subcmd/parse-options.c",
            edit: Edit::After { needle: "char *buf = NULL;", line: "int i;" },
        },
        FileEdit {
            path: "tools/lib/subcmd/parse-options.c",
            edit: Edit::Replace {
                from: "for (int i = 0; subcommands[i]; i++) {",
                to: "for (i = 0; subcommands[i]; i++) {",
            },
        },
        FileEdit {
            path: "tools/lib/subcmd/parse-options.c",
            edit: Edit::After { needle: "if (subcommands) {", line: "int i;" },
        },
        FileEdit {
            path: "tools/lib/subcmd/parse-options.c",
            edit: Edit::Replace {
                from: "for (int i = 0; subcommands[i]; i++)",
                to: "for (i = 0; subcommands[i]; i++)",
            },
        },
    ]
}

/// The edit that includes the trace hooks.
pub open spec fn namespace_edits() -> Seq<FileEdit> {
    seq![
        FileEdit {
            path: "fs/namespace.c",
            edit: Edit::AfterUnless {
                unless: "#include <trace/hooks/fs.h>",
                needle: "#include <trace/hooks/blk.h>",
                line: "#include <trace/hooks/fs.h>",
            },
        },
    ]
}

/// The tree calls a function that it lacks to clear the padding flags.
pub open spec fn needs_mmap_fix(f: Family, s: Seq<char>) -> bool {
    ||| f == Family::Android12_5_10 && s == "226"@
    ||| f == Family::Android13_5_10 && s == "223"@
    ||| f == Family::Android13_5_15 && s == "167"@
    ||| f == Family::Android14_5_15 && s == "167"@
}

/// The edit that clears the padding flags in place.
pub open spec fn mmap_edits() -> Seq<FileEdit> {
    seq![FileEdit { path: "mm/mmap.c", edit: Edit::PadMask }]
}

/// The fixes that a new C library needs.
pub open spec fn glibc_fixed(w: Work, dir: Seq<char>, f: Family, s: Seq<char>) -> Work {
    let verdict = btf_verdict(w.files["tools/bpf/resolve_btfids/Makefile"@]);
    let a = noted(edited_by(w, dir, btf_edits()), "Makefile EXTRA_CFLAGS fix: "@ + verdict);
    if needs_parse_fix(f, s) {
        noted(edited_by(a, dir, parse_edits()), "parse-options.c fix: applied"@)
    } else {
        noted(a, "parse-options.c fix: not applicable"@)
    }
}

/// The compatibility fixes.
pub open spec fn kernel_fixed(
    w: Work,
    dir: Seq<char>,
    f: Family,
    s: Seq<char>,
    glibc: Option<Seq<char>>,
) -> Work {
    let a = if is_new_glibc(glibc) {
        glibc_fixed(w, dir, f, s)
    } else {
        noted(w, "glibc < 2.38: skipping Makefile/parse-options fixes"@)
    };
    let b = if f == Family::Android15_6_6 && sublevel_at_most(s, 58) {
        noted(
            edited_by(a, dir, namespace_edits()),
            "fs/namespace.c include fix (android15-6.6): applied"@,
        )
    } else {
        a
    };
    if needs_mmap_fix(f, s) {
        noted(edited_by(b, dir, mmap_edits()), "mm/mmap.c VM_PAD_MASK fix: applied"@)
    } else {
        b
    }
}

// ---------------------------------------------------------------------------
// Functions
// ---------------------------------------------------------------------------

/// Reads the version of the C library in what `ldd --version` printed.
pub fn detect_glibc(out: &str, err: &str) -> (r: Option<String>)
    ensures
        r is Some <==> glibc_of(out@, err@) is Some,
        r matches Some(v) ==> glibc_of(out@, err@) == Some(v@),
{
    let o = chars_of(out);
    let text = if vec_trim(&o).len() == 0 {
        chars_of(err)
    } else {
        o
    };
    let rows = vec_bare_lines(&text);
    if rows.len() == 0 {
        return None;
    }
    assert(char_rows(rows@)[0] == rows@[0]@);
    let word = vec_last_word(&rows[0]);
    if word.len() == 0 {
        None
    } else {
        Some(string_of(&word))
    }
}

/// Adds a note.
fn add_note(ctx: &mut Ctx, note: &str)
    ensures
        texts(final(ctx).notes@) == texts(old(ctx).notes@).push(note@),
        final(ctx).same_but_notes(old(ctx)),
{
    ctx.note(note.to_owned());
}

/// The fixes that a new C library needs.
fn apply_glibc_fixes(ctx: &mut Ctx, tree: &mut Tree) -> (r: Result<(), Failure>)
    ensures
        work_of(*final(ctx), *final(tree), r) == glibc_fixed(
            work_of(*old(ctx), *old(tree), Ok(())),
            common_dir_of(old(ctx).workspace()),
            old(ctx).family,
            old(ctx).sublevel@,
        ),
        final(ctx).same_but_notes(old(ctx)),
{
    let verdict = match tree.get("tools/bpf/resolve_btfids/Makefile") {
        Some(c) => if contains(
            c,
            "$(Q)$(MAKE) -C $(SUBCMD_SRC) OUTPUT=$(abspath $(dir $@))/ $(abspath $@)",
        ) {
            "true"
        } else if contains(c, "EXTRA_CFLAGS") {
            "already_fixed"
        } else {
            "false"
        },
        None => "false",
    };
    let btf = vec![
        FileEdit {
            path: "tools/bpf/resolve_btfids/Makefile",
            edit: Edit::Replace {
                from: "$(Q)$(MAKE) -C $(SUBCMD_SRC) OUTPUT=$(abspath $(dir $@))/ $(abspath $@)",
                to: "$(Q)$(MAKE) -C $(SUBCMD_SRC) EXTRA_CFLAGS=\"$(CFLAGS)\" OUTPUT=$(abspath $(dir $@))/ $(abspath $@)",
            },
        },
    ];
    assert(btf@ =~= btf_edits());
    proof {
        crate::susfs_laws::law_edits_need_their_files(
            common_dir_of(ctx.workspace()),
            btf_edits(),
            tree@,
        );
        assert(btf_edits()[0].path@ == "tools/bpf/resolve_btfids/Makefile"@);
    }
    run_edits(ctx, tree, &btf)?;
    add_note(ctx, &cat2("Makefile EXTRA_CFLAGS fix: ", verdict));
    let f = ctx.family;
    if (f == Family::Android13_5_10 && sublevel_le(&ctx.sublevel, 186)) || (f
        == Family::Android13_5_15 && sublevel_le(&ctx.sublevel, 119)) || (f
        == Family::Android14_5_15 && sublevel_le(&ctx.sublevel, 110)) {
        let parse = vec![
            FileEdit {
                path: "tools/lib/subcmd/parse-options.c",
                edit: Edit::After { needle: "char *buf = NULL;", line: "int i;" },
            },
            FileEdit {
                path: "tools/lib/subcmd/parse-options.c",
                edit: Edit::Replace {
                    from: "for (int i = 0; subcommands[i]; i++) {",
                    to: "for (i = 0; subcommands[i]; i++) {",
                },
            },
            FileEdit {
                path: "tools/lib/subcmd/parse-options.c",
                edit: Edit::After { needle: "if (subcommands) {", line: "int i;" },
            },
            FileEdit {
                path: "tools/lib/subcmd/parse-options.c",
                edit: Edit::Replace {
                    from: "for (int i = 0; subcommands[i]; i++)",
                    to: "for (i = 0; subcommands[i]; i++)",
                },
            },
        ];
        assert(parse@ =~= parse_edits());
        run_edits(ctx, tree, &parse)?;
        add_note(ctx, "parse-options.c fix: applied");
    } else {
        add_note(ctx, "parse-options.c fix: not applicable");
    }
    Ok(())
}

/// Tells whether the C library is of version 2.38 at least.
pub fn new_glibc(glibc: Option<&str>) -> (r: bool)
    ensures
        r == is_new_glibc(
            (match glibc {
                Some(v) => Some(v@),
                None => None,
            }),
        ),
{
    match glibc {
        Some(v) => version_ge(v, "2.38"),
        None => false,
    }
}

/// Makes the compatibility fixes and notes them.
pub fn apply_kernel_fixes(ctx: &mut Ctx, tree: &mut Tree, glibc: Option<&str>) -> (r: Result<
    (),
    Failure,
>)
    ensures
        work_of(*final(ctx), *final(tree), r) == kernel_fixed(
            work_of(*old(ctx), *old(tree), Ok(())),
            common_dir_of(old(ctx).workspace()),
            old(ctx).family,
            old(ctx).sublevel@,
            (match glibc {
                Some(v) => Some(v@),
                None => None,
            }),
        ),
        final(ctx).same_but_notes(old(ctx)),
{
    if new_glibc(glibc) {
        apply_glibc_fixes(ctx, tree)?;
    } else {
        add_note(ctx, "glibc < 2.38: skipping Makefile/parse-options fixes");
    }
    if ctx.family == Family::Android15_6_6 && sublevel_le(&ctx.sublevel, 58) {
        let namespace = vec![
            FileEdit {
                path: "fs/namespace.c",
                edit: Edit::AfterUnless {
                    unless: "#include <trace/hooks/fs.h>",
                    needle: "#include <trace/hooks/blk.h>",
                    line: "#include <trace/hooks/fs.h>",
                },
            },
        ];
        assert(namespace@ =~= namespace_edits());
        run_edits(ctx, tree, &namespace)?;
        add_note(ctx, "fs/namespace.c include fix (android15-6.6): applied");
    }
    if (ctx.family == Family::Android12_5_10 && same(&ctx.sublevel, "226")) || (ctx.family
        == Family::Android13_5_10 && same(&ctx.sublevel, "223")) || (ctx.family
        == Family::Android13_5_15 && same(&ctx.sublevel, "167")) || (ctx.family
        == Family::Android14_5_15 && same(&ctx.sublevel, "167")) {
        let mmap = vec![FileEdit { path: "mm/mmap.c", edit: Edit::PadMask }];
        assert(mmap@ =~= mmap_edits());
        run_edits(ctx, tree, &mmap)?;
        add_note(ctx, "mm/mmap.c VM_PAD_MASK fix: applied");
    }
    Ok(())
}

} // verus!
