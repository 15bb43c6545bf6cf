//! The build and what it leaves.
use trustgki::ctx::{Ctx, Options};
use trustgki::family::Family;
use trustgki::kernel::{
    build_kernel, ccache_dir, ccache_env, file_is_named, gather_artifacts, image_candidates,
    is_reject, reject_name, rejects_index, scan_patch_rejects, setup_ccache, wants_ccache,
    CcacheAction, CcacheEvent, CcacheState,
};
use trustgki::plan::Step;
use trustgki::tree::Tree;

fn context(family: Family, sublevel: &str, level: &str) -> Ctx {
    let opts = Options {
        workspace: "/ws".to_string(),
        output_dir: "/ws/out".to_string(),
        bazel_cache: "/ws/bazel".to_string(),
        brand_name: "Wild".to_string(),
        variant: "Normal".to_string(),
        jobs: 1,
        bypass: false,
        use_cache: false,
        strict_patches: false,
        root_commit: None,
        susfs_commit: None,
        droidspaces_commit: None,
        kernel_patches_commit: None,
        anykernel3_commit: None,
    };
    let mut ctx = Ctx::new(opts, family, sublevel.to_string(), level.to_string());
    ctx.sublevel = sublevel.to_string();
    ctx
}

/// One line for each step.
fn shown(steps: &[Step]) -> Vec<String> {
    steps
        .iter()
        .map(|step| match step {
            Step::MakeDir { path } => format!("mkdir {path}"),
            Step::RemoveDir { path } => format!("rmdir {path}"),
            Step::EmptyDir { path } => format!("empty {path}"),
            Step::Sleep { seconds } => format!("sleep {seconds}"),
            Step::Run { command } => format!("{}: {}", command.cwd, command.shown()),
            Step::RunRetried { command, attempts, delay } => {
                format!("{}: {} ({attempts}x{delay}s)", command.cwd, command.shown())
            }
            Step::TryAll { commands, .. } => {
                let all: Vec<String> = commands.iter().map(|c| c.shown()).collect();
                format!("try {}", all.join(" && "))
            }
            Step::MakeExecutable { path } => format!("chmod {path}"),
            Step::CheckHead { dir, name, expected } => format!("head {dir} {name} {expected}"),
            Step::CaptureHead { dir, slot } => format!("capture {dir} {slot:?}"),
            Step::RewriteManifest { query, manifest, branch } => {
                format!("manifest {manifest} {branch} by {}", query.shown())
            }
            Step::Patch { cwd, patch, extra } => format!("{cwd}: patch {} < {patch}", extra.join(" ")),
            Step::OptionalPatch { cwd, patch } => format!("{cwd}: patch? < {patch}"),
            Step::CopyFiles { from, to } => format!("copy {from}/* {to}"),
            Step::CopyFile { from, to } => format!("copy {from} {to}"),
            Step::RestoreFile { from, to } => format!("restore {from} {to}"),
            Step::DiscardFile { path } => format!("discard {path}"),
            Step::DiscardDir { path } => format!("discard {path}/"),
            Step::SetOptions { set } => format!("options {set:?}"),
            Step::MakeEdits { edits } => {
                let all: Vec<&str> = edits.iter().map(|e| e.path).collect();
                format!("edit {}", all.join(" "))
            }
            Step::Note { text } => format!("note {text}"),
        })
        .collect()
}

fn env_of(steps: &[Step]) -> Vec<(String, String)> {
    match steps.last() {
        Some(Step::Run { command }) => command.env.clone(),
        other => panic!("{other:?}"),
    }
}

fn stamped() -> Ctx {
    let mut ctx = context(Family::Android14_6_1, "157", "2025-12");
    ctx.source_date_epoch = -5;
    ctx.kbuild_timestamp = "K".to_string();
    ctx.git_date = "G".to_string();
    ctx
}

const STAMPS: [(&str, &str); 4] = [
    ("SOURCE_DATE_EPOCH", "-5"),
    ("KBUILD_BUILD_TIMESTAMP", "K"),
    ("GIT_AUTHOR_DATE", "G"),
    ("GIT_COMMITTER_DATE", "G"),
];

fn owned(pairs: &[(&str, &str)]) -> Vec<(String, String)> {
    pairs.iter().map(|(a, b)| (a.to_string(), b.to_string())).collect()
}

#[test]
fn the_legacy_build_runs_its_script() {
    let ctx = stamped();
    let mut tree = Tree::new();
    tree.set("build.config.gki", "a check_defconfig b\n".to_string());
    let steps = build_kernel(&ctx, &mut tree, false, false, 8).unwrap();
    assert_eq!(shown(&steps), ["mkdir /ws/out", "/ws/kernel: build/build.sh -j 8"]);
    assert_eq!(tree.get("build.config.gki"), Some("a  b\n"));
    let env = env_of(&steps);
    assert_eq!(env[..4], owned(&STAMPS));
    assert_eq!(
        env[4..],
        owned(&[
            ("BUILD_GKI_ARTIFACTS", ""),
            ("BUILD_GKI_CERTIFICATION_TOOLS", "0"),
            ("BUILD_SYSTEM_DLKM", "0"),
            ("SKIP_VENDOR_BOOT", "1"),
            ("SKIP_EXT_MODULES", "1"),
            ("SKIP_CP_KERNEL_HDR", "1"),
            ("OUT_DIR", "/ws/out"),
            ("LTO", "thin"),
            ("BUILD_CONFIG", "common/build.config.gki.aarch64"),
        ])
    );
}

#[test]
fn compilers_go_through_ccache_where_it_is_usable() {
    let ctx = stamped();
    let steps = build_kernel(&ctx, &mut Tree::new(), false, true, 1).unwrap();
    let env = env_of(&steps);
    assert_eq!(env.len(), 32);
    assert_eq!(env[13..28], ccache_env(&ctx));
    assert_eq!(env[13], ("CCACHE_DIR".to_string(), "/ws/.ccache".to_string()));
    assert_eq!(
        env[28..],
        owned(&[
            ("CC", "/usr/bin/ccache clang"),
            ("CXX", "/usr/bin/ccache clang++"),
            ("HOSTCC", "/usr/bin/ccache clang"),
            ("HOSTCXX", "/usr/bin/ccache clang++"),
        ])
    );
}

#[test]
fn the_bazel_build_disables_the_check_once() {
    let ctx = stamped();
    let mut tree = Tree::new();
    assert_eq!(
        build_kernel(&ctx, &mut tree, true, false, 1).unwrap_err().message(),
        "cannot read /ws/kernel/common/BUILD.bazel"
    );
    tree.set("BUILD.bazel", "k(\n    name = \"kernel_aarch64\",\n)\n".to_string());
    let once = "k(\n    name = \"kernel_aarch64\",\n    check_defconfig = \"disabled\",\n)\n";
    for _ in 0..2 {
        let steps = build_kernel(&ctx, &mut tree, true, true, 1).unwrap();
        assert_eq!(
            shown(&steps),
            [
                "mkdir /ws/out",
                "mkdir /ws/bazel",
                "/ws/kernel: tools/bazel build --config=fast --disk_cache=/ws/bazel //common:kernel_aarch64/Image",
            ]
        );
        assert_eq!(env_of(&steps), owned(&STAMPS));
        assert_eq!(tree.get("BUILD.bazel"), Some(once));
    }
}

#[test]
fn ccache_is_installed_where_it_is_missing() {
    let ctx = stamped();
    let (_, action) = setup_ccache(&ctx, CcacheState::Start, CcacheEvent::Found { on_path: true });
    assert!(matches!(action, CcacheAction::Conclude { usable: true }));
    let (state, action) = setup_ccache(&ctx, CcacheState::Start, CcacheEvent::Found { on_path: false });
    match action {
        CcacheAction::Fetch { command } => assert_eq!(
            command.shown(),
            "curl -LfsS --retry 5 --retry-delay 5 --retry-all-errors --connect-timeout 30 -H User-Agent: Mozilla/5.0 https://github.com/WildKernels/kernel_patches/raw/refs/heads/main/ccache/ccache-x86-64 -o /ws/ccache"
        ),
        other => panic!("{other:?}"),
    }
    let (state, action) = setup_ccache(&ctx, state, CcacheEvent::Ended { succeeded: true });
    match action {
        CcacheAction::Install { staged, commands } => {
            assert_eq!(staged, "/ws/ccache");
            assert_eq!(commands[0].shown(), "sudo cp -f /ws/ccache /usr/bin/ccache");
            assert_eq!(commands[1].shown(), "sudo chmod +x /usr/bin/ccache");
        }
        other => panic!("{other:?}"),
    }
    let (state, action) = setup_ccache(&ctx, state, CcacheEvent::Ended { succeeded: true });
    assert!(matches!(action, CcacheAction::Look));
    for (on_path, installed) in [(true, false), (false, true), (false, false)] {
        let (end, action) = setup_ccache(&ctx, state, CcacheEvent::Seen { on_path, installed });
        assert_eq!(end, CcacheState::Done);
        match action {
            CcacheAction::Conclude { usable } => assert_eq!(usable, on_path || installed),
            other => panic!("{other:?}"),
        }
    }
}

#[test]
fn a_build_goes_on_without_ccache() {
    let ctx = stamped();
    for state in [CcacheState::Fetching, CcacheState::Installing] {
        let (end, action) = setup_ccache(&ctx, state, CcacheEvent::Ended { succeeded: false });
        assert_eq!(end, CcacheState::Done);
        assert!(matches!(action, CcacheAction::Conclude { usable: false }));
    }
}

#[test]
fn the_first_image_is_taken() {
    let ctx = stamped();
    let places = image_candidates(&ctx);
    assert_eq!(
        places,
        [
            "/ws/kernel/bazel-bin/common/kernel_aarch64/Image",
            "/ws/out/dist/Image",
            "/ws/out/Image",
        ]
    );
    for i in 0..3 {
        let mut there = [false; 3];
        for slot in there.iter_mut().skip(i) {
            *slot = true;
        }
        let (from, to) = gather_artifacts(&ctx, there).unwrap();
        assert_eq!(from, places[i]);
        assert_eq!(to, "/ws/AnyKernel3/Image");
    }
    assert_eq!(
        gather_artifacts(&ctx, [false; 3]).unwrap_err().message(),
        "no kernel Image produced (looked in /ws/kernel/bazel-bin/common/kernel_aarch64/Image and /ws/out/dist/Image)"
    );
}

#[test]
fn rejected_hunks_are_collected() {
    let ctx = stamped();
    for p in ["/a/b.c.rej", "x.rej", "/a/..rej"] {
        assert!(is_reject(p), "{p}");
    }
    for p in ["/a/.rej", "/a/b.rej/c", "/a/b.REJ", "/a/i2c-nomadik.c.rej", "rej", ""] {
        assert!(!is_reject(p), "{p}");
    }
    assert!(file_is_named("/a/selinux_hide.c", "selinux_hide.c"));
    assert!(!file_is_named("/a/xselinux_hide.c", "selinux_hide.c"));
    let p = "/ws/kernel/common/fs/exec.c.rej";
    assert_eq!(reject_name(&ctx, p), "common/fs/exec.c.rej");
    assert_eq!(reject_name(&ctx, "/ws/kernels/x.rej"), "/ws/kernels/x.rej");
    assert_eq!(
        shown(&scan_patch_rejects(&ctx, p, true)),
        [
            "mkdir /ws/patch-rejects/common/fs",
            "copy /ws/kernel/common/fs/exec.c.rej /ws/patch-rejects/common/fs/exec.c.rej",
            "copy /ws/kernel/common/fs/exec.c /ws/patch-rejects/common/fs/exec.c",
        ]
    );
    assert_eq!(scan_patch_rejects(&ctx, p, false).len(), 2);
}

#[test]
fn only_a_legacy_build_asks_for_ccache() {
    let mut ctx = context(Family::Android16_6_12, "81", "2026-06");
    ctx.opts.use_cache = true;
    assert!(wants_ccache(&ctx.opts, false));
    assert!(!wants_ccache(&ctx.opts, true));
    ctx.opts.use_cache = false;
    assert!(!wants_ccache(&ctx.opts, false));
    assert_eq!(ccache_dir(&ctx), "/ws/.ccache");
    assert_eq!(rejects_index(&ctx), "/ws/patch-rejects/index.txt");
}
