//! Sources and tools, and the processes that fetch them.
use trustgki::ctx::{Ctx, Options};
use trustgki::family::Family;
use trustgki::plan::{command, Slot, Step};
use trustgki::process::{
    capture, full_sha, head_command, ls_remote, patch_command, patch_present, patch_result,
    probe_command, remote_query, require_tools, run_result, spawn_failure, subject_command,
};
use trustgki::sources::{
    after_attempt, check_head, clone_pinned, download_kernel, first_attempt, record_commit,
    rewrite_manifest, setup_build_environment, Next, DOWNLOAD_ATTEMPTS, QUERY_ATTEMPTS,
    QUERY_DELAY,
};

fn context(family: Family, sublevel: &str, level: &str) -> Ctx {
    let opts = Options {
        workspace: "/ws".to_string(),
        output_dir: "/ws/out".to_string(),
        bazel_cache: "/ws/bazel".to_string(),
        brand_name: "Wild".to_string(),
        variant: "Normal".to_string(),
        jobs: 1,
        bypass: false,
        use_cache: false,
        strict_patches: false,
        root_commit: None,
        susfs_commit: None,
        droidspaces_commit: None,
        kernel_patches_commit: None,
        anykernel3_commit: None,
    };
    let mut ctx = Ctx::new(opts, family, sublevel.to_string(), level.to_string());
    ctx.sublevel = sublevel.to_string();
    ctx
}

/// One line for each step.
fn shown(steps: &[Step]) -> Vec<String> {
    steps
        .iter()
        .map(|step| match step {
            Step::MakeDir { path } => format!("mkdir {path}"),
            Step::RemoveDir { path } => format!("rmdir {path}"),
            Step::EmptyDir { path } => format!("empty {path}"),
            Step::Sleep { seconds } => format!("sleep {seconds}"),
            Step::Run { command } => format!("{}: {}", command.cwd, command.shown()),
            Step::RunRetried { command, attempts, delay } => {
                format!("{}: {} ({attempts}x{delay}s)", command.cwd, command.shown())
            }
            Step::TryAll { commands, .. } => {
                let all: Vec<String> = commands.iter().map(|c| c.shown()).collect();
                format!("try {}", all.join(" && "))
            }
            Step::MakeExecutable { path } => format!("chmod {path}"),
            Step::CheckHead { dir, name, expected } => format!("head {dir} {name} {expected}"),
            Step::CaptureHead { dir, slot } => format!("capture {dir} {slot:?}"),
            Step::RewriteManifest { query, manifest, branch } => {
                format!("manifest {manifest} {branch} by {}", query.shown())
            }
            Step::Patch { cwd, patch, extra } => format!("{cwd}: patch {} < {patch}", extra.join(" ")),
            Step::OptionalPatch { cwd, patch } => format!("{cwd}: patch? < {patch}"),
            Step::CopyFiles { from, to } => format!("copy {from}/* {to}"),
            Step::CopyFile { from, to } => format!("copy {from} {to}"),
            Step::RestoreFile { from, to } => format!("restore {from} {to}"),
            Step::DiscardFile { path } => format!("discard {path}"),
            Step::DiscardDir { path } => format!("discard {path}/"),
            Step::SetOptions { set } => format!("options {set:?}"),
            Step::MakeEdits { edits } => {
                let all: Vec<&str> = edits.iter().map(|e| e.path).collect();
                format!("edit {}", all.join(" "))
            }
            Step::Note { text } => format!("note {text}"),
        })
        .collect()
}

#[test]
fn the_workspace_is_prepared_in_order() {
    let ctx = context(Family::Android14_6_1, "1", "lts");
    assert_eq!(
        shown(&setup_build_environment(&ctx)),
        [
            "mkdir /ws/kernel",
            "mkdir /ws/git-repo",
            "/ws: curl -LfsS --retry 5 --retry-delay 5 --retry-all-errors -o /ws/git-repo/repo https://storage.googleapis.com/git-repo-downloads/repo (5x5s)",
            "chmod /ws/git-repo/repo",
            "rmdir /ws/kernel_patches",
            "/ws: git clone https://github.com/WildKernels/kernel_patches.git /ws/kernel_patches",
            "rmdir /ws/AnyKernel3",
            "/ws: git clone -b gki-2.0 https://github.com/WildKernels/AnyKernel3.git /ws/AnyKernel3",
        ]
    );
}

#[test]
fn pins_are_fetched_and_checked() {
    let mut ctx = context(Family::Android12_5_10, "1", "lts");
    ctx.opts.kernel_patches_commit = Some("p1".to_string());
    ctx.opts.anykernel3_commit = Some("p2".to_string());
    let steps = shown(&setup_build_environment(&ctx));
    assert_eq!(
        steps[6..9],
        [
            "/ws/kernel_patches: git fetch --depth=1 origin p1",
            "/ws/kernel_patches: git checkout p1",
            "head /ws/kernel_patches kernel_patches p1",
        ]
    );
    assert_eq!(
        steps[11..],
        [
            "/ws/AnyKernel3: git fetch --depth=1 origin p2",
            "/ws/AnyKernel3: git checkout p2",
            "head /ws/AnyKernel3 AnyKernel3 p2",
            "try sudo apt-get update -qq && sudo apt-get install -y -qq dwarves libelf-dev",
        ]
    );
    assert!(check_head("AnyKernel3", "p2", "p2").is_ok());
    assert_eq!(
        check_head("AnyKernel3", "p2", "p3").unwrap_err().message(),
        "AnyKernel3 pin mismatch: expected p2, got p3"
    );
}

#[test]
fn the_kernel_is_fetched_anew_on_each_attempt() {
    let ctx = context(Family::Android16_6_12, "81", "2026-06");
    let fetch = [
        "/ws/kernel: /ws/git-repo/repo init -u https://android.googlesource.com/kernel/manifest -b common-android16-6.12-2026-06 --depth=1",
        "manifest /ws/kernel/.repo/manifests/default.xml common-android16-6.12-2026-06 by git ls-remote https://android.googlesource.com/kernel/common common-android16-6.12-2026-06",
        "/ws/kernel: timeout 15m /ws/git-repo/repo sync -c --current-branch --no-clone-bundle --no-tags --jobs-checkout=4 -j4",
    ];
    assert_eq!(shown(&download_kernel(&ctx, 1)), fetch);
    let again = shown(&download_kernel(&ctx, 2));
    assert_eq!(again[..2], ["empty /ws/kernel", "sleep 15"]);
    assert_eq!(again[2..], fetch);
}

#[test]
fn attempts_come_to_an_end() {
    assert_eq!(first_attempt(3), Next::Again(1));
    assert_eq!(after_attempt(1, 3, false), Next::Again(2));
    assert_eq!(after_attempt(2, 3, true), Next::Done);
    assert_eq!(after_attempt(3, 3, false), Next::GiveUp);
    assert_eq!(first_attempt(0), Next::GiveUp);
    assert_eq!(after_attempt(u64::MAX, u64::MAX, false), Next::GiveUp);
}

#[test]
fn a_deprecated_branch_is_looked_up_elsewhere() {
    let manifest = "revision=\"b\" x=\"bb\" upstream=\"b\"";
    assert_eq!(
        rewrite_manifest(manifest, "b", "1234 refs/heads/deprecated/b").unwrap(),
        "revision=\"deprecated/b\" x=\"bb\" upstream=\"deprecated/b\""
    );
    assert_eq!(rewrite_manifest(manifest, "b", "1234 refs/heads/b"), None);
}

#[test]
fn one_commit_of_a_repository_is_cloned() {
    assert_eq!(
        shown(&clone_pinned("R", "/a", "/a/b", "abc")),
        [
            "/a: git clone --no-checkout R /a/b",
            "/a/b: git fetch --depth=1 origin abc",
            "/a/b: git checkout --detach abc",
            "head /a/b R abc",
        ]
    );
}

#[test]
fn commits_are_recorded_where_they_belong() {
    let mut ctx = context(Family::Android16_6_12, "81", "2026-06");
    for (slot, sha) in [
        (Slot::Kernel, "k"),
        (Slot::Root, "r"),
        (Slot::Susfs, "s"),
        (Slot::Droidspaces, "d"),
    ] {
        record_commit(&mut ctx, slot, sha.to_string());
    }
    assert_eq!(
        [&ctx.kernel_sha, &ctx.root_sha, &ctx.susfs_sha, &ctx.droidspaces_sha],
        ["k", "r", "s", "d"]
    );
}

#[test]
fn a_failing_command_is_shown() {
    let c = command("/ws", vec!["git", "ls-remote", "R"]);
    assert!(run_result(&c, true, "exit status: 0").is_ok());
    assert_eq!(
        run_result(&c, false, "exit status: 2").unwrap_err().message(),
        "command failed (exit status: 2): git ls-remote R"
    );
    assert_eq!(
        capture(&command("/ws", vec!["ldd"]), false, "exit status: 1", "", "no").unwrap_err().message(),
        "command failed (exit status: 1): ldd \nno"
    );
    assert_eq!(
        run_result(&command("/ws", vec!["ldd"]), false, "exit status: 1").unwrap_err().message(),
        "command failed (exit status: 1): ldd"
    );
    assert_eq!(spawn_failure(&c).message(), "failed to spawn `git`");
    assert_eq!(capture(&c, true, "", " out \n\n", "err").unwrap(), " out ");
    assert_eq!(capture(&c, true, "", "abc  \n\n", "").unwrap(), "abc  ");
    assert_eq!(capture(&c, true, "", "a\nb\t\r\n", "").unwrap(), "a\nb\t\r");
    assert_eq!(capture(&c, true, "", "\n\n", "").unwrap(), "");
    assert_eq!(
        capture(&c, false, "exit status: 2", "out", "bad\n").unwrap_err().message(),
        "command failed (exit status: 2): git ls-remote R\nbad\n"
    );
}

#[test]
fn a_failing_patch_is_named() {
    assert!(patch_present("a.patch", true).is_ok());
    assert_eq!(
        patch_present("a.patch", false).unwrap_err().message(),
        "patch file not found: a.patch"
    );
    assert!(patch_result("a.patch", true, "").is_ok());
    assert_eq!(
        patch_result("a.patch", false, "exit status: 1").unwrap_err().message(),
        "patch a.patch failed (exit status: 1)"
    );
}

#[test]
fn a_remote_lists_a_full_commit_first() {
    let sha = "0123456789abcdefABCDEF012345678901234567";
    assert!(full_sha(sha));
    assert!(!full_sha(&sha[1..]));
    assert!(!full_sha(&sha.replace('0', "g")));
    assert!(!full_sha(""));
    assert_eq!(
        ls_remote("R", "b", &format!("  {sha}\trefs/heads/b\nother\n")).unwrap(),
        sha
    );
    assert_eq!(
        ls_remote("R", "b", "abc refs/heads/b").unwrap_err().message(),
        "git ls-remote R b returned `abc`"
    );
    assert_eq!(
        ls_remote("R", "b", "").unwrap_err().message(),
        "git ls-remote R b returned ``"
    );
}

#[test]
fn missing_tools_are_listed_together() {
    assert!(require_tools(&vec!["a", "b"], &vec![true, true]).is_ok());
    assert_eq!(
        require_tools(&vec!["a", "b", "c"], &vec![false, true, false]).unwrap_err().message(),
        "missing required tool(s): a, c"
    );
}

#[test]
fn downloads_and_questions_are_tried_a_few_times() {
    let made = |attempts: u64, first_good: u64| {
        let mut next = first_attempt(attempts);
        let mut n = 0;
        while let Next::Again(k) = next {
            n += 1;
            next = after_attempt(k, attempts, k == first_good);
        }
        n
    };
    assert_eq!(made(DOWNLOAD_ATTEMPTS, 1), 1);
    assert_eq!(made(DOWNLOAD_ATTEMPTS, 2), 2);
    assert_eq!(made(DOWNLOAD_ATTEMPTS, 9), 3);
    assert_eq!(made(QUERY_ATTEMPTS, 9), 5);
    assert_eq!(QUERY_DELAY, 5);
}

#[test]
fn commands_are_written_out() {
    assert_eq!(head_command("/d").shown(), "git rev-parse HEAD");
    assert_eq!(subject_command("/d").shown(), "git log -1 --format=%s");
    assert_eq!(remote_query("/d", "R", "refs/heads/x").shown(), "git ls-remote R refs/heads/x");
    let extra = vec!["-F".to_string(), "3".to_string()];
    let patch = patch_command("/d", &extra);
    assert_eq!(patch.shown(), "patch -p1 -F 3");
    assert_eq!(patch.cwd, "/d");
    assert!(patch.env.is_empty());
    assert_eq!(probe_command("/d").shown(), "patch -p1 --dry-run --silent");
}
