//! Patches for single devices.
use trustgki::ctx::{Ctx, Options};
use trustgki::family::Family;
use trustgki::device::{
    apply_device_patches, apply_samsung_min_kdp, MinKdpAction, MinKdpEvent, MinKdpState,
};
use trustgki::plan::Step;
use std::collections::BTreeMap;

fn context(family: Family, sublevel: &str, level: &str) -> Ctx {
    let opts = Options {
        workspace: "/ws".to_string(),
        output_dir: "/ws/out".to_string(),
        bazel_cache: "/ws/bazel".to_string(),
        brand_name: "Wild".to_string(),
        variant: "Normal".to_string(),
        jobs: 1,
        bypass: false,
        use_cache: false,
        strict_patches: false,
        root_commit: None,
        susfs_commit: None,
        droidspaces_commit: None,
        kernel_patches_commit: None,
        anykernel3_commit: None,
    };
    let mut ctx = Ctx::new(opts, family, sublevel.to_string(), level.to_string());
    ctx.sublevel = sublevel.to_string();
    ctx
}

/// One line for each step.
fn shown(steps: &[Step]) -> Vec<String> {
    steps
        .iter()
        .map(|step| match step {
            Step::MakeDir { path } => format!("mkdir {path}"),
            Step::RemoveDir { path } => format!("rmdir {path}"),
            Step::EmptyDir { path } => format!("empty {path}"),
            Step::Sleep { seconds } => format!("sleep {seconds}"),
            Step::Run { command } => format!("{}: {}", command.cwd, command.shown()),
            Step::RunRetried { command, attempts, delay } => {
                format!("{}: {} ({attempts}x{delay}s)", command.cwd, command.shown())
            }
            Step::TryAll { commands, .. } => {
                let all: Vec<String> = commands.iter().map(|c| c.shown()).collect();
                format!("try {}", all.join(" && "))
            }
            Step::MakeExecutable { path } => format!("chmod {path}"),
            Step::CheckHead { dir, name, expected } => format!("head {dir} {name} {expected}"),
            Step::CaptureHead { dir, slot } => format!("capture {dir} {slot:?}"),
            Step::RewriteManifest { query, manifest, branch } => {
                format!("manifest {manifest} {branch} by {}", query.shown())
            }
            Step::Patch { cwd, patch, extra } => format!("{cwd}: patch {} < {patch}", extra.join(" ")),
            Step::OptionalPatch { cwd, patch } => format!("{cwd}: patch? < {patch}"),
            Step::CopyFiles { from, to } => format!("copy {from}/* {to}"),
            Step::CopyFile { from, to } => format!("copy {from} {to}"),
            Step::RestoreFile { from, to } => format!("restore {from} {to}"),
            Step::DiscardFile { path } => format!("discard {path}"),
            Step::DiscardDir { path } => format!("discard {path}/"),
            Step::SetOptions { set } => format!("options {set:?}"),
            Step::MakeEdits { edits } => {
                let all: Vec<&str> = edits.iter().map(|e| e.path).collect();
                format!("edit {}", all.join(" "))
            }
            Step::Note { text } => format!("note {text}"),
        })
        .collect()
}

const PATCH: &str = "--- a/kernel/cred.c\n+++ b/kernel/cred.c\n";

fn begun(ctx: &Ctx) -> (MinKdpState, MinKdpAction) {
    let begin = MinKdpEvent::Begin {
        patch_there: true,
        source_there: true,
        patch: PATCH.to_string(),
    };
    apply_samsung_min_kdp(ctx, MinKdpState::Start, begin).unwrap()
}

fn steps_of(action: MinKdpAction) -> Vec<Step> {
    match action {
        MinKdpAction::Perform { steps }
        | MinKdpAction::Change { steps }
        | MinKdpAction::Abandon { steps } => steps,
        other => panic!("{other:?}"),
    }
}

#[test]
fn only_one_family_has_device_patches() {
    for family in Family::ALL {
        let steps = apply_device_patches(&context(family, "1", "lts"));
        if family == Family::Android15_6_6 {
            assert_eq!(
                shown(&steps.unwrap()),
                [
                    "edit android/abi_gki_aarch64_xiaomi",
                    "note xiaomi symbol list: device_find_any_child",
                ]
            );
        } else {
            assert!(steps.is_none());
        }
    }
}

#[test]
fn the_patch_is_applied_where_it_applies() {
    let ctx = context(Family::Android15_6_6, "58", "2025-01");
    let (state, action) = begun(&ctx);
    assert!(matches!(action, MinKdpAction::Look));
    match &state {
        MinKdpState::Listed { paths } => assert_eq!(
            *paths,
            [
                "android/abi_gki_aarch64_galaxy",
                "drivers/Makefile",
                "drivers/min_kdp.c",
                "kernel/cred.c"
            ]
        ),
        other => panic!("{other:?}"),
    }
    let seen = MinKdpEvent::Seen { there: vec![true, true, false, true] };
    let (state, action) = apply_samsung_min_kdp(&ctx, state, seen).unwrap();
    assert_eq!(
        shown(&steps_of(action)),
        [
            "rmdir /ws/.samsung-tx",
            "mkdir /ws/.samsung-tx",
            "mkdir /ws/.samsung-tx/android",
            "copy /ws/kernel/common/android/abi_gki_aarch64_galaxy /ws/.samsung-tx/android/abi_gki_aarch64_galaxy",
            "mkdir /ws/.samsung-tx/drivers",
            "copy /ws/kernel/common/drivers/Makefile /ws/.samsung-tx/drivers/Makefile",
            "mkdir /ws/.samsung-tx/kernel",
            "copy /ws/kernel/common/kernel/cred.c /ws/.samsung-tx/kernel/cred.c",
        ]
    );
    let (state, action) = apply_samsung_min_kdp(&ctx, state, MinKdpEvent::Performed).unwrap();
    match action {
        MinKdpAction::Probe { patch } => {
            assert_eq!(patch, "/ws/kernel_patches/samsung/min_kdp/add-min_kdp-symbols.patch")
        }
        other => panic!("{other:?}"),
    }
    let probed = MinKdpEvent::Probed { applies: true };
    let (state, action) = apply_samsung_min_kdp(&ctx, state, probed).unwrap();
    assert_eq!(
        shown(&steps_of(action)),
        ["/ws/kernel/common: patch --no-backup-if-mismatch < /ws/kernel_patches/samsung/min_kdp/add-min_kdp-symbols.patch"]
    );
    let changed = MinKdpEvent::Changed { succeeded: true };
    let (state, action) = apply_samsung_min_kdp(&ctx, state, changed).unwrap();
    assert_eq!(
        shown(&steps_of(action)),
        [
            "discard /ws/.samsung-tx/",
            "edit android/abi_gki_aarch64_galaxy android/abi_gki_aarch64_galaxy android/abi_gki_aarch64_galaxy",
            "copy /ws/kernel_patches/samsung/min_kdp/min_kdp.c /ws/kernel/common/drivers/min_kdp.c",
            "edit drivers/Makefile",
            "note samsung min_kdp integration: applied",
        ]
    );
    let (state, action) = apply_samsung_min_kdp(&ctx, state, MinKdpEvent::Performed).unwrap();
    assert!(matches!(state, MinKdpState::Done));
    assert!(matches!(action, MinKdpAction::Nothing));
}

#[test]
fn a_patch_that_drifted_has_a_fallback() {
    let ctx = context(Family::Android15_6_6, "58", "2025-01");
    let saved = MinKdpState::Saved { files: vec![] };
    let probed = MinKdpEvent::Probed { applies: false };
    let (state, action) = apply_samsung_min_kdp(&ctx, saved, probed).unwrap();
    assert!(matches!(state, MinKdpState::Applying { .. }));
    match action {
        MinKdpAction::Fallback { path } => {
            assert_eq!(path, "/ws/kernel/common/android/abi_gki_aarch64.stg")
        }
        other => panic!("{other:?}"),
    }
}

#[test]
fn what_is_missing_or_unsafe_is_named() {
    let ctx = context(Family::Android15_6_6, "58", "2025-01");
    let message = |patch_there, source_there, patch: &str| {
        let begin = MinKdpEvent::Begin { patch_there, source_there, patch: patch.to_string() };
        apply_samsung_min_kdp(&ctx, MinKdpState::Start, begin).unwrap_err().message()
    };
    assert_eq!(
        message(false, false, PATCH),
        "missing Samsung min_kdp patch: /ws/kernel_patches/samsung/min_kdp/add-min_kdp-symbols.patch"
    );
    assert_eq!(
        message(true, false, PATCH),
        "missing Samsung min_kdp source: /ws/kernel_patches/samsung/min_kdp/min_kdp.c"
    );
    assert_eq!(
        message(true, true, "+++ b/x/../../y\n"),
        "unsafe Samsung patch path: x/../../y"
    );
}

/// What steps do to files that are held in memory.
fn perform(disk: &mut BTreeMap<String, String>, steps: &[Step]) {
    for step in steps {
        match step {
            Step::CopyFile { from, to } | Step::RestoreFile { from, to } => {
                if let Some(text) = disk.get(from).cloned() {
                    disk.insert(to.clone(), text);
                }
            }
            Step::DiscardFile { path } => {
                disk.remove(path);
            }
            Step::RemoveDir { path } | Step::DiscardDir { path } => {
                disk.retain(|p, _| !p.starts_with(&format!("{path}/")));
            }
            Step::MakeDir { .. } => {}
            other => panic!("{other:?}"),
        }
    }
}

#[test]
fn a_change_that_fails_leaves_nothing_behind() {
    let ctx = context(Family::Android15_6_6, "58", "2025-01");
    let common = "/ws/kernel/common";
    let mut disk = BTreeMap::new();
    for name in ["android/abi_gki_aarch64_galaxy", "kernel/cred.c", "other.c"] {
        disk.insert(format!("{common}/{name}"), format!("text of {name}"));
    }
    let then = disk.clone();
    // A stale copy of an earlier run is cleared away.
    disk.insert("/ws/.samsung-tx/kernel/cred.c".to_string(), "stale".to_string());
    let (state, _) = begun(&ctx);
    let seen = MinKdpEvent::Seen { there: vec![true, false, false, true] };
    let (state, action) = apply_samsung_min_kdp(&ctx, state, seen).unwrap();
    perform(&mut disk, &steps_of(action));
    let (state, _) = apply_samsung_min_kdp(&ctx, state, MinKdpEvent::Performed).unwrap();
    let probed = MinKdpEvent::Probed { applies: true };
    let (state, _) = apply_samsung_min_kdp(&ctx, state, probed).unwrap();
    // The change stops half-way.
    disk.insert(format!("{common}/kernel/cred.c"), "half".to_string());
    disk.insert(format!("{common}/drivers/Makefile"), "new".to_string());
    disk.remove(&format!("{common}/android/abi_gki_aarch64_galaxy"));
    let changed = MinKdpEvent::Changed { succeeded: false };
    let (state, action) = apply_samsung_min_kdp(&ctx, state, changed).unwrap();
    assert!(matches!(state, MinKdpState::Restored));
    perform(&mut disk, &steps_of(action));
    assert_eq!(disk, then);
}
