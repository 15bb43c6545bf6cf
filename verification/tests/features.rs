//! SUSFS, the container runtime and the fixes that come as patches.
use trustgki::ctx::{Ctx, Options};
use trustgki::family::Family;
use trustgki::failure::Failure;
use trustgki::features::{
    apply_ptrace_patch, apply_unicode_fix, optional_patch, setup_droidspaces, setup_susfs,
    SusfsAction, SusfsEvent, SusfsState,
};
use trustgki::plan::Step;

fn context(family: Family, sublevel: &str, level: &str) -> Ctx {
    let opts = Options {
        workspace: "/ws".to_string(),
        output_dir: "/ws/out".to_string(),
        bazel_cache: "/ws/bazel".to_string(),
        brand_name: "Wild".to_string(),
        variant: "Normal".to_string(),
        jobs: 1,
        bypass: false,
        use_cache: false,
        strict_patches: false,
        root_commit: None,
        susfs_commit: None,
        droidspaces_commit: None,
        kernel_patches_commit: None,
        anykernel3_commit: None,
    };
    let mut ctx = Ctx::new(opts, family, sublevel.to_string(), level.to_string());
    ctx.sublevel = sublevel.to_string();
    ctx
}

/// One line for each step.
fn shown(steps: &[Step]) -> Vec<String> {
    steps
        .iter()
        .map(|step| match step {
            Step::MakeDir { path } => format!("mkdir {path}"),
            Step::RemoveDir { path } => format!("rmdir {path}"),
            Step::EmptyDir { path } => format!("empty {path}"),
            Step::Sleep { seconds } => format!("sleep {seconds}"),
            Step::Run { command } => format!("{}: {}", command.cwd, command.shown()),
            Step::RunRetried { command, attempts, delay } => {
                format!("{}: {} ({attempts}x{delay}s)", command.cwd, command.shown())
            }
            Step::TryAll { commands, .. } => {
                let all: Vec<String> = commands.iter().map(|c| c.shown()).collect();
                format!("try {}", all.join(" && "))
            }
            Step::MakeExecutable { path } => format!("chmod {path}"),
            Step::CheckHead { dir, name, expected } => format!("head {dir} {name} {expected}"),
            Step::CaptureHead { dir, slot } => format!("capture {dir} {slot:?}"),
            Step::RewriteManifest { query, manifest, branch } => {
                format!("manifest {manifest} {branch} by {}", query.shown())
            }
            Step::Patch { cwd, patch, extra } => format!("{cwd}: patch {} < {patch}", extra.join(" ")),
            Step::OptionalPatch { cwd, patch } => format!("{cwd}: patch? < {patch}"),
            Step::CopyFiles { from, to } => format!("copy {from}/* {to}"),
            Step::CopyFile { from, to } => format!("copy {from} {to}"),
            Step::RestoreFile { from, to } => format!("restore {from} {to}"),
            Step::DiscardFile { path } => format!("discard {path}"),
            Step::DiscardDir { path } => format!("discard {path}/"),
            Step::SetOptions { set } => format!("options {set:?}"),
            Step::MakeEdits { edits } => {
                let all: Vec<&str> = edits.iter().map(|e| e.path).collect();
                format!("edit {}", all.join(" "))
            }
            Step::Note { text } => format!("note {text}"),
        })
        .collect()
}

fn steps_of(action: SusfsAction) -> Vec<String> {
    match action {
        SusfsAction::Perform { steps } => shown(&steps),
        other => panic!("{other:?}"),
    }
}

#[test]
fn susfs_is_cloned_patched_and_integrated() {
    let mut ctx = context(Family::Android16_6_12, "69", "2026-03");
    let (state, action) = setup_susfs(&ctx, SusfsState::Start, SusfsEvent::Begin).unwrap();
    assert_eq!(
        steps_of(action),
        [
            "rmdir /ws/susfs4ksu",
            "/ws: git clone -b gki-android16-6.12 https://gitlab.com/simonpunk/susfs4ksu.git /ws/susfs4ksu (5x5s)",
        ]
    );
    let (state, action) = setup_susfs(&ctx, state, SusfsEvent::Performed).unwrap();
    match action {
        SusfsAction::Ask { repo, reference } => {
            assert_eq!(repo, "https://gitlab.com/simonpunk/susfs4ksu.git");
            assert_eq!(reference, "refs/heads/gki-android16-6.12");
        }
        other => panic!("{other:?}"),
    }
    let answered = SusfsEvent::Answered { answer: Ok("c0ffee".to_string()) };
    let (state, action) = setup_susfs(&ctx, state, answered).unwrap();
    assert_eq!(
        steps_of(action),
        ["/ws/susfs4ksu: git checkout c0ffee", "capture /ws/susfs4ksu Susfs"]
    );
    ctx.susfs_sha = "c0ffee".to_string();
    let (state, action) = setup_susfs(&ctx, state, SusfsEvent::Performed).unwrap();
    assert_eq!(
        steps_of(action),
        [
            "/ws/susfs4ksu: patch? < /ws/kernel_patches/pershoot/susfs4ksu/0001-pershoot-Allow-core-to-be-built-with-no-features.patch",
            "/ws/susfs4ksu: patch? < /ws/kernel_patches/pershoot/susfs4ksu/0002-pershoot-Implement-SuSFS-and-Toolkit-coexistence.patch",
            "options Susfs",
            "options SusfsOpenRedirect",
            "copy /ws/susfs4ksu/kernel_patches/fs/* /ws/kernel/common/fs",
            "copy /ws/susfs4ksu/kernel_patches/include/linux/* /ws/kernel/common/include/linux",
            "copy /ws/susfs4ksu/kernel_patches/50_add_susfs_in_gki-android16-6.12.patch /ws/kernel/common/50_add_susfs_in_gki-android16-6.12.patch",
            "edit fs/exec.c fs/proc/task_mmu.c",
            "/ws/kernel/common: patch  < /ws/kernel/common/50_add_susfs_in_gki-android16-6.12.patch",
            "edit fs/exec.c fs/proc/task_mmu.c",
        ]
    );
    let (state, action) = setup_susfs(&ctx, state, SusfsEvent::Performed).unwrap();
    assert!(matches!(state, SusfsState::Done));
    assert!(matches!(action, SusfsAction::Nothing));
}

#[test]
fn susfs_must_be_at_its_commit() {
    let mut ctx = context(Family::Android14_6_1, "1", "lts");
    ctx.opts.susfs_commit = Some("abc".to_string());
    let (state, action) = setup_susfs(&ctx, SusfsState::Cloning, SusfsEvent::Performed).unwrap();
    assert_eq!(steps_of(action)[0], "/ws/susfs4ksu: git checkout abc");
    ctx.susfs_sha = "def".to_string();
    assert_eq!(
        setup_susfs(&ctx, state, SusfsEvent::Performed).unwrap_err().message(),
        "SUSFS commit mismatch: expected abc, got def"
    );
    let down = SusfsEvent::Answered { answer: Err(Failure::RetryFailed) };
    assert_eq!(
        setup_susfs(&ctx, SusfsState::Asked, down).unwrap_err().message(),
        "retry failed"
    );
}

#[test]
fn optional_patches_are_required_on_request() {
    let mut ctx = context(Family::Android14_6_1, "1", "lts");
    assert!(optional_patch(&mut ctx, "p", true).unwrap());
    assert!(ctx.notes.is_empty());
    assert!(!optional_patch(&mut ctx, "p", false).unwrap());
    assert_eq!(ctx.notes, ["warning: p not present in kernel_patches; skipping"]);
    ctx.opts.strict_patches = true;
    assert!(optional_patch(&mut ctx, "p", true).unwrap());
    assert_eq!(
        optional_patch(&mut ctx, "p", false).unwrap_err().message(),
        "missing required SUSFS patch p"
    );
    assert_eq!(ctx.notes.len(), 1);
}

#[test]
fn the_container_runtime_has_patches_by_family() {
    let gki = "/ws/Droidspaces-OSS/Documentation/resources/kernel-patches/GKI";
    let below = format!("/ws/kernel/common: patch  < {gki}/below-kernel-6.12/001.GKI-below-6.12-fix_sysvipc_kabi_6_7_8.patch");
    let mqueue = format!("/ws/kernel/common: patch  < {gki}/below-kernel-6.12/002.5.10_or_lower_use_android_abi_padding_for_posix_mqueue.patch");
    let above = format!("/ws/kernel/common: patch  < {gki}/kernel-6.12/001.GKI-6.12-or-above-fix_sysvipc_kabi.patch");
    for family in Family::ALL {
        let steps = shown(&setup_droidspaces(&context(family, "1", "lts")));
        assert_eq!(
            steps[..3],
            [
                "rmdir /ws/Droidspaces-OSS",
                "/ws: git clone --depth=1 https://github.com/ravindu644/Droidspaces-OSS.git /ws/Droidspaces-OSS (5x5s)",
                "capture /ws/Droidspaces-OSS Droidspaces",
            ]
        );
        let rest: Vec<&str> = steps[3..].iter().map(|s| s.as_str()).collect();
        match family {
            Family::Android12_5_10 | Family::Android13_5_10 => {
                assert_eq!(rest, [below.as_str(), &mqueue, "options Droidspaces"])
            }
            Family::Android16_6_12 => assert_eq!(
                rest,
                [
                    above.as_str(),
                    "edit ipc/namespace.c ipc/namespace.c ipc/msgutil.c ipc/msgutil.c",
                    "options Droidspaces"
                ]
            ),
            _ => assert_eq!(rest, [below.as_str(), "options Droidspaces"]),
        }
    }
    let mut pinned = context(Family::Android14_6_1, "1", "lts");
    pinned.opts.droidspaces_commit = Some("d0".to_string());
    assert_eq!(
        shown(&setup_droidspaces(&pinned))[2..5],
        [
            "/ws/Droidspaces-OSS: git fetch --depth=1 origin d0",
            "/ws/Droidspaces-OSS: git checkout d0",
            "head /ws/Droidspaces-OSS Droidspaces d0",
        ]
    );
}

#[test]
fn fixes_go_by_the_kernel_series() {
    for family in Family::ALL {
        let ctx = context(family, "1", "lts");
        let old = matches!(family.kernel(), "5.10" | "5.15");
        let ptrace = shown(&apply_ptrace_patch(&ctx));
        let unicode = shown(&apply_unicode_fix(&ctx));
        if old {
            assert_eq!(
                ptrace,
                [
                    "/ws/kernel/common: patch -F 3 < /ws/kernel_patches/gki_ptrace.patch",
                    "note ptrace leak fix: applied",
                ]
            );
        } else {
            assert!(ptrace.is_empty());
        }
        let name = if old { "6.1-" } else { "6.1+" };
        assert_eq!(
            unicode,
            [
                format!("/ws/kernel/common: patch --forward < /ws/kernel_patches/common/unicode_bypass_fix_{name}.patch"),
                format!("note unicode fix: applied (common/unicode_bypass_fix_{name}.patch)"),
            ]
        );
    }
}
