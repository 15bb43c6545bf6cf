//! A run as a whole.
use trustgki::ctx::{Ctx, Options};
use trustgki::family::Family;
use trustgki::pipeline::{
    after_stage, build_target, first_stage, out_of_scope, required_tools, resolve_options, scope_line, target_banner,
    BuildArgs, Progress, Stage,
};
use trustgki::naming::file_name;
use trustgki::targets::{build_targets, ConfigEntry, ConfigFile};

fn context(family: Family, sublevel: &str, level: &str) -> Ctx {
    let opts = Options {
        workspace: "/ws".to_string(),
        output_dir: "/ws/out".to_string(),
        bazel_cache: "/ws/bazel".to_string(),
        brand_name: "Wild".to_string(),
        variant: "Normal".to_string(),
        jobs: 1,
        bypass: false,
        use_cache: false,
        strict_patches: false,
        root_commit: None,
        susfs_commit: None,
        droidspaces_commit: None,
        kernel_patches_commit: None,
        anykernel3_commit: None,
    };
    let mut ctx = Ctx::new(opts, family, sublevel.to_string(), level.to_string());
    ctx.sublevel = sublevel.to_string();
    ctx
}

fn args() -> BuildArgs {
    BuildArgs {
        workspace: None,
        output_dir: None,
        bazel_cache: None,
        brand_name: "Wild".to_string(),
        variant: "Normal".to_string(),
        jobs: 0,
        bypass: false,
        use_cache: true,
        strict_patches: false,
        root_commit: Some("r".to_string()),
        susfs_commit: None,
        droidspaces_commit: None,
        kernel_patches_commit: None,
        anykernel3_commit: None,
    }
}

#[test]
fn options_have_their_defaults() {
    let some = |s: &str| Some(s.to_string());
    let o = resolve_options(args(), some("/cwd"), some("/home/me"));
    assert_eq!(o.workspace, "/cwd");
    assert_eq!(o.output_dir, "/cwd/out");
    assert_eq!(o.bazel_cache, "/home/me/.cache/bazel");
    assert_eq!(o.root_commit.as_deref(), Some("r"));
    assert!(o.use_cache);
    let o = resolve_options(args(), None, None);
    assert_eq!(o.workspace, ".");
    assert_eq!(o.output_dir, "./out");
    assert_eq!(o.bazel_cache, "./.cache/bazel");
    let mut given = args();
    given.workspace = some("w/");
    given.output_dir = some("o");
    given.bazel_cache = some("b");
    let o = resolve_options(given, some("/cwd"), some("/home/me"));
    assert_eq!([o.workspace, o.output_dir, o.bazel_cache], ["w/", "/cwd/o", "b"]);
    let mut relative = args();
    relative.output_dir = some("./out");
    assert_eq!(resolve_options(relative, some("/cwd"), None).output_dir, "/cwd/./out");
    let mut relative = args();
    relative.workspace = some("w");
    assert_eq!(resolve_options(relative, some("/cwd"), None).output_dir, "/cwd/w/out");
    let mut absolute = args();
    absolute.output_dir = some("/o");
    assert_eq!(resolve_options(absolute, some("/cwd"), None).output_dir, "/o");
}

#[test]
fn all_cores_are_used_by_default() {
    let mut o = resolve_options(args(), None, None);
    assert_eq!(o.jobs(Some(12)), 12);
    assert_eq!(o.jobs(None), 4);
    o.jobs = 3;
    assert_eq!(o.jobs(Some(12)), 3);
}

#[test]
fn stages_are_in_order() {
    let mut o = resolve_options(args(), None, None);
    let usual = build_target(&o);
    assert_eq!(usual.len(), 21);
    assert!(!usual.contains(&Stage::BypassHack));
    assert_eq!(usual[..3], [Stage::SetupEnvironment, Stage::EmptyKernelDir, Stage::DownloadKernel]);
    o.bypass = true;
    let hacked = build_target(&o);
    assert_eq!(hacked.len(), 22);
    assert_eq!(hacked[13..16], [Stage::DevicePatches, Stage::BypassHack, Stage::Branding]);
    let at = |s: Stage| hacked.iter().position(|x| *x == s).unwrap();
    assert!(at(Stage::CleanFlags) < at(Stage::BuildKernel));
    assert_eq!(hacked[20..], [Stage::GatherArtifacts, Stage::WriteSummary]);
}

/// Runs the stages of a list, of which `failing` fails, and tells which ran.
fn run_stages(stages: &Vec<Stage>, failing: Option<Stage>) -> (Vec<Stage>, Result<(), String>) {
    let mut ran = Vec::new();
    let mut at = first_stage::<String>(stages);
    loop {
        match at {
            Progress::Next { index, stage } => {
                ran.push(stage);
                let result = if Some(stage) == failing { Err(format!("{stage:?}")) } else { Ok(()) };
                at = after_stage(stages, index, result);
            }
            Progress::Done => return (ran, Ok(())),
            Progress::Failed { error } => return (ran, Err(error)),
        }
    }
}

#[test]
fn a_failed_stage_ends_the_build() {
    let stages = build_target(&resolve_options(args(), None, None));
    assert_eq!(run_stages(&stages, None), (stages.clone(), Ok(())));
    assert_eq!(
        run_stages(&stages, Some(Stage::DownloadKernel)),
        (stages[..3].to_vec(), Err("DownloadKernel".to_string()))
    );
    assert_eq!(
        run_stages(&stages, Some(Stage::WriteSummary)),
        (stages.clone(), Err("WriteSummary".to_string()))
    );
    assert_eq!(run_stages(&Vec::new(), None), (Vec::new(), Ok(())));
}

#[test]
fn every_build_has_the_variant_of_its_target() {
    let entry = ConfigEntry {
        sublevel: "157".to_string(),
        date: "2025-12".to_string(),
        variant: Some("TheWildJames".to_string()),
    };
    let config = ConfigFile { version: "android14-6.1".to_string(), entries: vec![entry] };
    let opts = resolve_options(args(), Some("/cwd".to_string()), None);
    let targets = build_targets(Some(&config), None, None, "", &opts.variant).unwrap();
    let names: Vec<String> = targets
        .iter()
        .map(|t| {
            let ctx = Ctx::for_target(opts.clone(), t);
            assert_eq!(ctx.family, Family::Android14_6_1);
            assert_eq!(ctx.opts.output_dir, "/cwd/out");
            file_name(ctx.family, &ctx.sublevel_input, &ctx.os_patch_level, &ctx.opts.variant)
        })
        .collect();
    assert_eq!(names, ["6.1.157-android14-2025-12", "6.1.157-android14-2025-12-TheWildJames"]);
}

#[test]
fn a_build_is_announced() {
    let ctx = context(Family::Android16_6_12, "81", "2026-06");
    assert_eq!(
        target_banner(&ctx),
        "\n=== android16-6.12 | patch level 2026-06 | variant Normal ==="
    );
    assert_eq!(ctx.log("x"), "[trustgki android16-6.12-2026-06] x");
    let fresh = Ctx::new(ctx.opts.clone(), ctx.family, "81".to_string(), "2026-06".to_string());
    assert_eq!(fresh.sublevel, "X");
    assert_eq!(fresh.kernel_sha, "N/A");
    assert_eq!(fresh.root_repo, "https://github.com/pershoot/KernelSU-Next.git");
    assert!(fresh.uses_bazel(false));
    assert!(!fresh.uses_bazel(true));
    assert_eq!(fresh.legacy_script(), "/ws/kernel/build/build.sh");
}

#[test]
fn what_is_left_out_is_listed() {
    let lines: Vec<String> = out_of_scope().iter().map(|(f, s)| scope_line(f, s)).collect();
    assert_eq!(lines.len(), 6);
    assert_eq!(
        lines[0],
        "            - NoMount        (nomount/action.yml + nomount-metamodule/action.yml)"
    );
    assert_eq!(lines[1], "            - Baseband Guard (bbg/action.yml)");
    assert_eq!(scope_line("longer than fourteen", "s"), "            - longer than fourteen (s)");
    assert_eq!(required_tools(), ["git", "patch", "curl", "timeout", "clang"]);
}
