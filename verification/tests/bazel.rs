//! References to protected exports and modules.
use trustgki::bazel::{
    check_exports_gone, clear_protected_modules, is_protected_exports, remove_protected_exports,
    strip_protected_lists,
};
use trustgki::ctx::{Ctx, Options};
use trustgki::family::Family;
use trustgki::tree::Tree;

fn context() -> Ctx {
    let opts = Options {
        workspace: "/ws".to_string(),
        output_dir: "/ws/out".to_string(),
        bazel_cache: "/ws/bazel".to_string(),
        brand_name: "Wild".to_string(),
        variant: "Normal".to_string(),
        jobs: 1,
        bypass: false,
        use_cache: false,
        strict_patches: false,
        root_commit: None,
        susfs_commit: None,
        droidspaces_commit: None,
        kernel_patches_commit: None,
        anykernel3_commit: None,
    };
    Ctx::new(opts, Family::Android16_6_12, "69".to_string(), "2026-03".to_string())
}

#[test]
fn protected_exports_list_removes_every_deleted_reference() {
    let src = r#"kernel_build(
    name = "kernel_aarch64",
    **{
        "protected_exports_list": "android/abi_gki_protected_exports_aarch64",
        "protected_modules_list": "android/gki_aarch64_protected_modules",
    },
    **{
        "protected_exports_list": "android/abi_gki_protected_exports_x86_64",
        "protected_modules_list": "android/gki_x86_64_protected_modules",
    },
)
"#;
    let (out, notes) = strip_protected_lists(src).unwrap();
    assert!(!out.contains("protected_exports_list"));
    assert!(!out.contains("abi_gki_protected_exports_"));
    // protected_modules_list is untouched (modules.bzl own that check).
    assert_eq!(out.matches("protected_modules_list").count(), 2);
    assert!(
        notes
            .iter()
            .any(|n| n.contains("protected_exports_list entries removed")),
        "notes: {notes:?}"
    );
    // Running again is a no-op and must not fail.
    let (again, _) = strip_protected_lists(&out).unwrap();
    assert_eq!(again, out);
}

#[test]
fn protected_module_names_list_is_stripped_for_6_12() {
    let src = r#"kernel_build(
    name = "kernel_aarch64",
    protected_module_names_list = ":gki_aarch64_protected_module_names",
)

kernel_build(
    name = "kernel_aarch64_16k",
    protected_module_names_list = ":gki_aarch64_protected_module_names",
)
"#;
    let (out, notes) = strip_protected_lists(src).unwrap();
    assert!(!out.contains("protected_module_names_list"));
    assert!(
        notes
            .iter()
            .any(|n| n.contains("protected_module_names_list entries removed")),
        "notes: {notes:?}"
    );
    let (again, _) = strip_protected_lists(&out).unwrap();
    assert_eq!(again, out);
}

#[test]
fn protected_lists_are_left_alone_when_absent() {
    let src = "kernel_build(\n    name = \"kernel_aarch64\",\n)\n";
    let (out, notes) = strip_protected_lists(src).unwrap();
    assert_eq!(out, src);
    assert!(notes.is_empty(), "notes: {notes:?}");
}

#[test]
fn a_reference_that_cannot_be_taken_out_is_a_failure() {
    let e = strip_protected_lists(
        "x = {\"protected_exports_list\": \"android/abi_gki_protected_exports_aarch64\"}\n",
    )
    .unwrap_err();
    assert_eq!(
        e.message(),
        "common/BUILD.bazel was not modified for protected_exports_list"
    );
    let e = strip_protected_lists(
        "\"protected_exports_list\": \"android/abi_gki_protected_exports_x86_64\",\n\
x = {\"protected_exports_list\": \"android/abi_gki_protected_exports_aarch64\"}\n",
    )
    .unwrap_err();
    assert_eq!(
        e.message(),
        "protected_exports_list reference still present in common/BUILD.bazel"
    );
}

#[test]
fn references_that_are_left_are_noted() {
    let (out, notes) =
        strip_protected_lists("\"protected_exports_list\": other,\nx protected_module_names_list\n")
            .unwrap();
    assert_eq!(out, "\"protected_exports_list\": other,\nx protected_module_names_list\n");
    assert_eq!(
        notes,
        vec![
            "warning: common/BUILD.bazel still references a protected exports list",
            "warning: protected_module_names_list not matched in common/BUILD.bazel",
            "warning: common/BUILD.bazel still references protected_module_names_list",
        ]
    );
    let (out, notes) = strip_protected_lists("  protected_module_names_list = None,\n)\n").unwrap();
    assert_eq!(out, ")\n");
    assert_eq!(
        notes,
        vec!["warning: protected_module_names_list not matched in common/BUILD.bazel"]
    );
}

#[test]
fn the_list_of_protected_modules_is_emptied() {
    assert_eq!(
        clear_protected_modules("a = 1\nprotected_modules = [\"x.ko\"]\n").unwrap(),
        Some("a = 1\nprotected_modules = []\n".to_string())
    );
    assert_eq!(clear_protected_modules("a = 1\n").unwrap(), None);
    assert_eq!(
        clear_protected_modules("protected_modules = []\n").unwrap_err().message(),
        "common/modules.bzl was not modified"
    );
}

#[test]
fn lists_of_protected_exports_are_known_by_name() {
    assert!(is_protected_exports("abi_gki_protected_exports_aarch64"));
    assert!(!is_protected_exports("abi_gki_aarch64"));
    assert!(check_exports_gone(&vec!["abi_gki_aarch64".to_string()]).is_ok());
    assert_eq!(
        check_exports_gone(&vec!["x".to_string(), "abi_gki_protected_exports_x86_64".to_string()])
            .unwrap_err()
            .message(),
        "abi_gki_protected_exports_* still exists after removal"
    );
}

#[test]
fn both_bazel_files_of_the_tree_are_edited() {
    let mut ctx = context();
    let mut tree = Tree::new();
    assert_eq!(
        remove_protected_exports(&mut ctx, &mut tree, true).unwrap_err().message(),
        "cannot read /ws/kernel/common/BUILD.bazel"
    );
    tree.set(
        "BUILD.bazel",
        "    protected_module_names_list = \":gki_x86_64_protected_module_names\",\n".to_string(),
    );
    tree.set("modules.bzl", "protected_modules = [\"x\"]\n".to_string());
    remove_protected_exports(&mut ctx, &mut tree, true).unwrap();
    assert_eq!(tree.get("BUILD.bazel"), Some(""));
    assert_eq!(tree.get("modules.bzl"), Some("protected_modules = []\n"));
    assert_eq!(
        ctx.notes,
        vec![
            "protected_module_names_list entries removed (bazel)",
            "protected exports/modules removed (bazel)",
        ]
    );
    // A second run finds an empty list of modules, which it cannot change.
    assert!(remove_protected_exports(&mut ctx, &mut tree, true).is_err());
    assert!(remove_protected_exports(&mut ctx, &mut tree, false).is_ok());
}
