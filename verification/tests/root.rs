//! The root implementation.
use trustgki::ctx::{Ctx, Options};
use trustgki::family::Family;
use trustgki::failure::Failure;
use trustgki::plan::Step;
use trustgki::plan::OptionSet;
use trustgki::root::{
    check_integration, check_root, describe_command, integration_files, path_relative,
    register_kconfig, register_makefile, root_checkout, root_places, root_remote, setup_root,
    wiring, RootAction, RootEvent, RootFacts, RootState,
};

fn context(family: Family, sublevel: &str, level: &str) -> Ctx {
    let opts = Options {
        workspace: "/ws".to_string(),
        output_dir: "/ws/out".to_string(),
        bazel_cache: "/ws/bazel".to_string(),
        brand_name: "Wild".to_string(),
        variant: "Normal".to_string(),
        jobs: 1,
        bypass: false,
        use_cache: false,
        strict_patches: false,
        root_commit: None,
        susfs_commit: None,
        droidspaces_commit: None,
        kernel_patches_commit: None,
        anykernel3_commit: None,
    };
    let mut ctx = Ctx::new(opts, family, sublevel.to_string(), level.to_string());
    ctx.sublevel = sublevel.to_string();
    ctx
}

const SHA: &str = "0123456789abcdef0123456789abcdef01234567";

fn clean() -> RootFacts {
    RootFacts {
        kernelsu: false,
        resukisu: false,
        kernelsu_next: false,
        common_drivers: true,
        drivers: false,
        common_integration: false,
        integration: false,
    }
}

fn cloned_from(action: &RootAction) -> &str {
    match action {
        RootAction::Clone { steps } => match &steps[0] {
            Step::Run { command } => &command.words[3],
            other => panic!("{other:?}"),
        },
        other => panic!("{other:?}"),
    }
}

#[test]
fn the_whole_setup_runs_through() {
    let mut ctx = context(Family::Android16_6_12, "81", "2026-06");
    let (state, action) = setup_root(&mut ctx, RootState::Start, RootEvent::Begin).unwrap();
    match action {
        RootAction::Ask { repo, reference } => {
            assert_eq!(repo, "https://github.com/pershoot/KernelSU-Next.git");
            assert_eq!(reference, "refs/heads/dev-susfs");
        }
        other => panic!("{other:?}"),
    }
    let down = RootEvent::Answered { answer: Err(Failure::RetryFailed) };
    let (state, action) = setup_root(&mut ctx, state, down).unwrap();
    match action {
        RootAction::Ask { repo, reference } => {
            assert_eq!(repo, "https://github.com/KernelSU-Next/KernelSU-Next.git");
            assert_eq!(reference, "refs/heads/dev");
        }
        other => panic!("{other:?}"),
    }
    let up = RootEvent::Answered { answer: Ok(SHA.to_string()) };
    let (state, action) = setup_root(&mut ctx, state, up).unwrap();
    assert!(matches!(action, RootAction::Look));
    let seen = RootEvent::Seen { facts: clean() };
    let (state, action) = setup_root(&mut ctx, state, seen).unwrap();
    assert_eq!(cloned_from(&action), "https://github.com/pershoot/KernelSU-Next.git");
    let failed = RootEvent::CloneEnded { succeeded: false };
    let (state, action) = setup_root(&mut ctx, state, failed).unwrap();
    assert_eq!(cloned_from(&action), "https://github.com/KernelSU-Next/KernelSU-Next.git");
    let ended = RootEvent::CloneEnded { succeeded: true };
    let (state, action) = setup_root(&mut ctx, state, ended).unwrap();
    assert!(matches!(action, RootAction::Check));
    let checked = RootEvent::Checked { kconfig: true, makefile: true };
    let (state, action) = setup_root(&mut ctx, state, checked).unwrap();
    assert!(matches!(action, RootAction::Describe));
    assert!(ctx.notes.is_empty());
    let described = RootEvent::Described { sha: SHA.to_string(), version: "v3".to_string() };
    let (_, action) = setup_root(&mut ctx, state, described).unwrap();
    match action {
        RootAction::Wire { drivers } => assert_eq!(drivers, "/ws/kernel/common/drivers"),
        other => panic!("{other:?}"),
    }
    assert_eq!(ctx.root_sha, SHA);
    assert_eq!(ctx.root_repo, "https://github.com/KernelSU-Next/KernelSU-Next.git");
    assert_eq!(
        ctx.notes,
        [format!("root=https://github.com/KernelSU-Next/KernelSU-Next.git commit={SHA} version=v3")]
    );
}

#[test]
fn a_pinned_commit_is_not_asked_for() {
    let mut ctx = context(Family::Android16_6_12, "81", "2026-06");
    ctx.opts.root_commit = Some("abc".to_string());
    let (state, action) = setup_root(&mut ctx, RootState::Start, RootEvent::Begin).unwrap();
    assert!(matches!(action, RootAction::Look));
    let seen = RootEvent::Seen { facts: clean() };
    assert_eq!(
        setup_root(&mut ctx, state, seen).unwrap_err().message(),
        "root commit must be a full 40-character SHA (got 'abc')"
    );
}

#[test]
fn the_setup_fails_where_no_remote_helps() {
    let mut ctx = context(Family::Android16_6_12, "81", "2026-06");
    let asked = RootState::Asked { fallback: true };
    let down = RootEvent::Answered { answer: Err(Failure::RetryFailed) };
    assert_eq!(setup_root(&mut ctx, asked, down).unwrap_err().message(), "retry failed");
    let cloning = RootState::Cloning {
        sha: SHA.to_string(),
        drivers: "d".to_string(),
        remote: 1,
    };
    let failed = RootEvent::CloneEnded { succeeded: false };
    assert_eq!(
        setup_root(&mut ctx, cloning, failed).unwrap_err().message(),
        "could not resolve the KernelSU-Next commit on any remote"
    );
    assert_eq!(root_remote(2), None);
    let checked = setup_root(
        &mut ctx,
        RootState::Cloned { drivers: "d".to_string(), repo: "r".to_string() },
        RootEvent::Checked { kconfig: true, makefile: false },
    );
    assert_eq!(
        checked.unwrap_err().message(),
        "selected root checkout does not contain a kernel integration"
    );
    assert!(check_integration(true, true).is_ok());
    // What does not belong to the state changes nothing.
    let (state, action) = setup_root(&mut ctx, RootState::Start, RootEvent::CloneEnded { succeeded: true }).unwrap();
    assert!(matches!(state, RootState::Start));
    assert!(matches!(action, RootAction::Nothing));
}

#[test]
fn other_integrations_are_in_the_way() {
    let ctx = context(Family::Android16_6_12, "81", "2026-06");
    let message = |facts| check_root(&ctx, SHA, facts).unwrap_err().message();
    assert_eq!(
        message(RootFacts { kernelsu: true, resukisu: true, ..clean() }),
        "refusing mixed root implementations: found KernelSU"
    );
    assert_eq!(
        message(RootFacts { resukisu: true, kernelsu_next: true, ..clean() }),
        "refusing mixed root implementations: found ReSukiSU"
    );
    assert_eq!(
        message(RootFacts { common_drivers: false, kernelsu_next: true, ..clean() }),
        "kernel drivers directory not found"
    );
    assert_eq!(
        message(RootFacts { common_integration: true, kernelsu_next: true, ..clean() }),
        "refusing to replace an existing kernelsu integration"
    );
    assert_eq!(
        message(RootFacts { kernelsu_next: true, ..clean() }),
        "refusing to reuse an existing root checkout: KernelSU-Next"
    );
    // The other place of the drivers does not matter.
    assert_eq!(
        check_root(&ctx, SHA, RootFacts { integration: true, ..clean() }).unwrap(),
        "/ws/kernel/common/drivers"
    );
    let legacy = RootFacts { common_drivers: false, drivers: true, common_integration: true, ..clean() };
    assert_eq!(check_root(&ctx, SHA, legacy).unwrap(), "/ws/kernel/drivers");
}

#[test]
fn the_integration_is_registered_once() {
    let makefile = register_makefile("obj-y += a/");
    assert_eq!(makefile, "obj-y += a/\nobj-$(CONFIG_KSU) += kernelsu/\n");
    assert_eq!(register_makefile(&makefile), makefile);
    let kconfig = register_kconfig("menu\nendmenu\n");
    assert_eq!(kconfig, "menu\nsource \"drivers/kernelsu/Kconfig\"\nendmenu\n");
    assert_eq!(register_kconfig(&kconfig), kconfig);
    assert_eq!(register_kconfig("menu\n"), "menu\n");
}

#[test]
fn relative_paths_go_up_and_down() {
    let parts = |p: &str| p.split('/').map(|s| s.to_string()).collect::<Vec<_>>();
    let relative = |t: &str, b: &str| path_relative(&parts(t), &parts(b));
    assert_eq!(
        relative("/ws/kernel/KernelSU-Next/kernel", "/ws/kernel/common/drivers"),
        "../../KernelSU-Next/kernel"
    );
    assert_eq!(relative("/a/b/c", "/a"), "b/c");
    assert_eq!(relative("/a", "/a/b/c"), "../..");
    assert_eq!(relative("/a", "/a"), ".");
    assert_eq!(relative("/x/b", "/y/b"), "../../x/b");
}

#[test]
fn the_integration_is_wired_into_the_drivers() {
    let ctx = context(Family::Android16_6_12, "81", "2026-06");
    let w = wiring(&root_checkout(&ctx), "/ws/kernel/common/drivers");
    assert_eq!(w.link, "/ws/kernel/common/drivers/kernelsu");
    assert_eq!(w.target, "/ws/kernel/KernelSU-Next/kernel");
    assert_eq!(w.makefile, "/ws/kernel/common/drivers/Makefile");
    assert_eq!(w.kconfig, "/ws/kernel/common/drivers/Kconfig");
    assert_eq!(w.set, OptionSet::Root);
    let places = root_places(&ctx);
    assert_eq!(places.resukisu, "/ws/kernel/ReSukiSU");
    assert_eq!(places.common_integration, w.link);
    assert_eq!(places.kernelsu_next, root_checkout(&ctx));
    assert_eq!(
        integration_files("/c"),
        ("/c/kernel/Kconfig".to_string(), "/c/kernel/Makefile".to_string())
    );
    assert_eq!(describe_command("/c").shown(), "git describe --tags --always --dirty");
}
