//! Compatibility fixes.
use trustgki::ctx::{Ctx, Options};
use trustgki::family::Family;
use trustgki::fixes::{apply_kernel_fixes, detect_glibc};
use trustgki::selinux::{fix_selinux_hide, fix_selinux_text, selinux_fix_applies};
use trustgki::tree::Tree;

fn context(family: Family, sublevel: &str, level: &str) -> Ctx {
    let opts = Options {
        workspace: "/ws".to_string(),
        output_dir: "/ws/out".to_string(),
        bazel_cache: "/ws/bazel".to_string(),
        brand_name: "Wild".to_string(),
        variant: "Normal".to_string(),
        jobs: 1,
        bypass: false,
        use_cache: false,
        strict_patches: false,
        root_commit: None,
        susfs_commit: None,
        droidspaces_commit: None,
        kernel_patches_commit: None,
        anykernel3_commit: None,
    };
    let mut ctx = Ctx::new(opts, family, sublevel.to_string(), level.to_string());
    ctx.sublevel = sublevel.to_string();
    ctx
}

const MAKEFILE: &str = "tools/bpf/resolve_btfids/Makefile";
const CALL: &str = "$(Q)$(MAKE) -C $(SUBCMD_SRC) OUTPUT=$(abspath $(dir $@))/ $(abspath $@)";

#[test]
fn the_c_library_is_read_from_its_banner() {
    let banner = "ldd (Ubuntu GLIBC 2.39-0ubuntu8) 2.39\nCopyright\n";
    assert_eq!(detect_glibc(banner, "").as_deref(), Some("2.39"));
    assert_eq!(detect_glibc(" \n", "musl libc 1.2.4\n").as_deref(), Some("1.2.4"));
    assert_eq!(detect_glibc("", ""), None);
    assert_eq!(detect_glibc("\nx 2.1\n", ""), None);
}

#[test]
fn an_old_c_library_needs_no_fixes() {
    let mut ctx = context(Family::Android13_5_10, "186", "lts");
    let mut tree = Tree::new();
    apply_kernel_fixes(&mut ctx, &mut tree, Some("2.37")).unwrap();
    apply_kernel_fixes(&mut ctx, &mut tree, None).unwrap();
    assert_eq!(
        ctx.notes,
        vec!["glibc < 2.38: skipping Makefile/parse-options fixes"; 2]
    );
}

#[test]
fn a_new_c_library_gets_both_fixes() {
    let mut ctx = context(Family::Android13_5_10, "186", "lts");
    let mut tree = Tree::new();
    assert_eq!(
        apply_kernel_fixes(&mut ctx, &mut tree, Some("2.38")).unwrap_err().message(),
        "cannot read /ws/kernel/common/tools/bpf/resolve_btfids/Makefile"
    );
    assert!(ctx.notes.is_empty());
    tree.set(MAKEFILE, format!("\t{CALL}\n"));
    tree.set(
        "tools/lib/subcmd/parse-options.c",
        "\tchar *buf = NULL;\n\tif (subcommands) {\n\t\tfor (int i = 0; subcommands[i]; i++) {\n\tfor (int i = 0; subcommands[i]; i++)\n"
            .to_string(),
    );
    apply_kernel_fixes(&mut ctx, &mut tree, Some("2.39")).unwrap();
    assert_eq!(
        tree.get(MAKEFILE).unwrap(),
        "\t$(Q)$(MAKE) -C $(SUBCMD_SRC) EXTRA_CFLAGS=\"$(CFLAGS)\" OUTPUT=$(abspath $(dir $@))/ $(abspath $@)\n"
    );
    assert_eq!(
        tree.get("tools/lib/subcmd/parse-options.c").unwrap(),
        "\tchar *buf = NULL;\nint i;\n\tif (subcommands) {\nint i;\n\t\tfor (i = 0; subcommands[i]; i++) {\n\tfor (i = 0; subcommands[i]; i++)\n"
    );
    assert_eq!(
        ctx.notes,
        vec!["Makefile EXTRA_CFLAGS fix: true", "parse-options.c fix: applied"]
    );
}

#[test]
fn the_notes_tell_what_became_of_the_makefile() {
    for (text, verdict) in [
        ("EXTRA_CFLAGS", "already_fixed"),
        ("nothing", "false"),
    ] {
        let mut ctx = context(Family::Android16_6_12, "69", "lts");
        let mut tree = Tree::new();
        tree.set(MAKEFILE, text.to_string());
        apply_kernel_fixes(&mut ctx, &mut tree, Some("2.40")).unwrap();
        assert_eq!(tree.get(MAKEFILE), Some(text));
        assert_eq!(
            ctx.notes,
            vec![
                format!("Makefile EXTRA_CFLAGS fix: {verdict}"),
                "parse-options.c fix: not applicable".to_string()
            ]
        );
    }
}

#[test]
fn trace_hooks_and_padding_flags_go_by_the_sublevel() {
    let mut ctx = context(Family::Android15_6_6, "58", "lts");
    let mut tree = Tree::new();
    tree.set("fs/namespace.c", "#include <trace/hooks/blk.h>\n".to_string());
    apply_kernel_fixes(&mut ctx, &mut tree, None).unwrap();
    let once = "#include <trace/hooks/blk.h>\n#include <trace/hooks/fs.h>\n";
    assert_eq!(tree.get("fs/namespace.c"), Some(once));
    apply_kernel_fixes(&mut ctx, &mut tree, None).unwrap();
    assert_eq!(tree.get("fs/namespace.c"), Some(once));
    assert_eq!(ctx.notes[1], "fs/namespace.c include fix (android15-6.6): applied");

    let mut ctx = context(Family::Android14_5_15, "167", "lts");
    let mut tree = Tree::new();
    tree.set("mm/mmap.c", "\t\tvm_flags_clear(new_vma, VM_PAD_MASK);\n".to_string());
    apply_kernel_fixes(&mut ctx, &mut tree, None).unwrap();
    assert_eq!(
        tree.get("mm/mmap.c"),
        Some("                new_vma->vm_flags &= ~VM_PAD_MASK;\n")
    );
    assert_eq!(ctx.notes[1], "mm/mmap.c VM_PAD_MASK fix: applied");
    // The sublevel is compared as a text here.
    let mut ctx = context(Family::Android14_5_15, "0167", "lts");
    apply_kernel_fixes(&mut ctx, &mut Tree::new(), None).unwrap();
}

#[test]
fn hooks_that_are_functions_are_tested_by_address() {
    assert_eq!(
        fix_selinux_text(
            "extern void security_dump_masked_av_fn(void);\nif (security_dump_masked_av_fn)\nif (context_struct_compute_av_fn != NULL)\n"
        ),
        "extern void security_dump_masked_av_fn(void);\nif (&security_dump_masked_av_fn)\nif (&context_struct_compute_av_fn != NULL)\n"
    );
}

#[test]
fn hooks_that_are_pointers_are_compared() {
    assert_eq!(
        fix_selinux_text("if (security_dump_masked_av_fn)\nif (context_struct_compute_av_fn)\n"),
        "if (security_dump_masked_av_fn != NULL)\nif (context_struct_compute_av_fn != NULL)\n"
    );
    assert_eq!(
        fix_selinux_text("if (context_struct_compute_av_fn)\n"),
        "if (context_struct_compute_av_fn)\n"
    );
}

#[test]
fn helpers_are_no_longer_static() {
    assert_eq!(
        fix_selinux_text(
            "static int security_context_to_sid_with_policy(x)\nstatic void security_compute_av_user_with_policy(x)\n static int security_sid_to_context_with_policy(x)\n"
        ),
        "int security_context_to_sid_with_policy(x)\nvoid security_compute_av_user_with_policy(x)\n static int security_sid_to_context_with_policy(x)\n"
    );
}

#[test]
fn only_new_kernels_need_the_selinux_fix() {
    let files = vec!["static int security_context_to_sid_with_policy\n".to_string()];
    for family in Family::ALL {
        let mut ctx = context(family, "1", "lts");
        let out = fix_selinux_hide(&mut ctx, &files);
        assert_eq!(selinux_fix_applies(ctx.family), out.is_some());
        if family == Family::Android15_6_6 || family == Family::Android16_6_12 {
            assert_eq!(out.unwrap(), vec!["int security_context_to_sid_with_policy\n"]);
            assert_eq!(ctx.notes, vec!["selinux_hide fix: patched 1 file(s)"]);
        } else {
            assert!(out.is_none());
            assert!(ctx.notes.is_empty());
        }
    }
}
