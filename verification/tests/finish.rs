//! Branding, version checks and dirty flags.
use trustgki::ctx::{Ctx, Options};
use trustgki::family::Family;
use trustgki::finish::{
    apply_bypass_hack, apply_kernel_branding, bypass_check, clean_kernel_flags, clean_stamp,
    commit_command, drop_dirty, stage_step, staged_command,
};
use trustgki::plan::Step;
use trustgki::tree::Tree;

fn context(family: Family, sublevel: &str, level: &str) -> Ctx {
    let opts = Options {
        workspace: "/ws".to_string(),
        output_dir: "/ws/out".to_string(),
        bazel_cache: "/ws/bazel".to_string(),
        brand_name: "Wild".to_string(),
        variant: "Normal".to_string(),
        jobs: 1,
        bypass: false,
        use_cache: false,
        strict_patches: false,
        root_commit: None,
        susfs_commit: None,
        droidspaces_commit: None,
        kernel_patches_commit: None,
        anykernel3_commit: None,
    };
    let mut ctx = Ctx::new(opts, family, sublevel.to_string(), level.to_string());
    ctx.sublevel = sublevel.to_string();
    ctx
}

#[test]
fn branding_rewrites_the_last_setlocalversion_line() {
    let ctx = context(Family::Android16_6_12, "69", "2026-03");
    let mut tree = Tree::new();
    tree.set("scripts/setlocalversion", "#!/bin/sh\necho old\n".to_string());
    apply_kernel_branding(&ctx, &mut tree).unwrap();
    assert_eq!(
        tree.get("scripts/setlocalversion").unwrap(),
        "#!/bin/sh\necho \"6.12.69-android16-Wild\"\n"
    );

    let legacy = context(Family::Android14_6_1, "157", "2025-12");
    let mut tree2 = Tree::new();
    tree2.set("scripts/setlocalversion", "#!/bin/sh\necho old\n".to_string());
    apply_kernel_branding(&legacy, &mut tree2).unwrap();
    assert_eq!(
        tree2.get("scripts/setlocalversion").unwrap(),
        "#!/bin/sh\necho \"-android14-Wild\"\n"
    );
    assert_eq!(
        apply_kernel_branding(&legacy, &mut Tree::new()).unwrap_err().message(),
        "cannot read /ws/kernel/common/scripts/setlocalversion"
    );
}

#[test]
fn the_version_check_is_passed_over_behind_its_label() {
    let s = "return 0;\nbad_version: return 0;\nx\n  return 0; return 0;\nreturn 0;\n";
    assert_eq!(
        bypass_check(s, "p").unwrap(),
        "return 0;\nbad_version: return 0;\nx\n  return 1; return 0;\nreturn 0;\n"
    );
    assert_eq!(
        bypass_check("return 0;\n", "p").unwrap_err().message(),
        "`bad_version:` not found in p"
    );
    assert_eq!(
        bypass_check("return 0;\nbad_version:\n", "p").unwrap_err().message(),
        "bypass hack: no `return 0;` found after `bad_version:`"
    );
    let new = context(Family::Android15_6_6, "1", "lts");
    let old = context(Family::Android14_5_15, "1", "lts");
    let mut tree = Tree::new();
    tree.set("kernel/module/version.c", "bad_version:\n\treturn 0;\n".to_string());
    apply_bypass_hack(&new, &mut tree).unwrap();
    assert_eq!(
        tree.get("kernel/module/version.c"),
        Some("bad_version:\n\treturn 1;\n")
    );
    assert_eq!(
        apply_bypass_hack(&old, &mut tree).unwrap_err().message(),
        "cannot read /ws/kernel/common/kernel/module.c"
    );
}

#[test]
fn dirty_flags_are_taken_out() {
    assert_eq!(drop_dirty("printf -dirty\n-dirty"), "printf \n");
    assert_eq!(
        clean_stamp("stable_scmversion_cmd = x-maybe-dirty-maybe-dirty\ny-maybe-dirty\n"),
        "stable_scmversion_cmd = x\ny-maybe-dirty\n"
    );
    let ctx = context(Family::Android13_5_10, "1", "lts");
    let c = clean_kernel_flags(&ctx, false, Some("a-dirty"), Some("x")).unwrap();
    assert_eq!(c.setlocalversion.as_deref(), Some("a"));
    assert_eq!(c.stamp, None);
    let c = clean_kernel_flags(&ctx, true, None, Some("stable_scmversion_cmd-maybe-dirty")).unwrap();
    assert_eq!(c.setlocalversion, None);
    assert_eq!(c.stamp.as_deref(), Some("stable_scmversion_cmd"));
    let e = clean_kernel_flags(&ctx, false, None, None).err().unwrap();
    assert_eq!(e.message(), "cannot read /ws/kernel/common/scripts/setlocalversion");
}

#[test]
fn the_patched_tree_is_committed_where_something_is_staged() {
    let ctx = context(Family::Android13_5_10, "1", "lts");
    match stage_step(&ctx) {
        Step::Run { command } => {
            assert_eq!(command.cwd, "/ws/kernel/common");
            assert_eq!(command.shown(), "git add .");
        }
        other => panic!("{other:?}"),
    }
    assert_eq!(staged_command(&ctx).shown(), "git diff --cached --name-only");
    assert!(commit_command(&ctx, " \n").is_none());
    let c = commit_command(&ctx, "fs/exec.c\n").unwrap();
    assert_eq!(c.shown(), "git commit -m Wild: Clean Dirty Flag");
    assert_eq!(c.env.len(), 4);
    assert_eq!(
        c.env[3],
        (
            "GIT_COMMITTER_EMAIL".to_string(),
            "github-actions[bot]@users.noreply.github.com".to_string()
        )
    );
}
