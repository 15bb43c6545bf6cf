//! What is written about a build.
use trustgki::ctx::{Ctx, Options};
use trustgki::family::Family;
use trustgki::plan::Step;
use trustgki::summary::{
    metadata, metadata_json, metadata_path, summary_path, susfs_version, version_command,
    write_summary, zip_step, Field,
};

fn context(family: Family, sublevel: &str, level: &str) -> Ctx {
    let opts = Options {
        workspace: "/ws".to_string(),
        output_dir: "/ws/out".to_string(),
        bazel_cache: "/ws/bazel".to_string(),
        brand_name: "Wild".to_string(),
        variant: "Normal".to_string(),
        jobs: 1,
        bypass: false,
        use_cache: false,
        strict_patches: false,
        root_commit: None,
        susfs_commit: None,
        droidspaces_commit: None,
        kernel_patches_commit: None,
        anykernel3_commit: None,
    };
    let mut ctx = Ctx::new(opts, family, sublevel.to_string(), level.to_string());
    ctx.sublevel = sublevel.to_string();
    ctx
}

fn built() -> Ctx {
    let mut ctx = context(Family::Android16_6_12, "81", "2026-06");
    ctx.file_name = "6.12.81-android16-2026-06".to_string();
    ctx.source_date_epoch = 1780633200;
    ctx.root_sha = "r0".to_string();
    ctx.susfs_sha = "s0".to_string();
    ctx.droidspaces_sha = "d0".to_string();
    ctx.kernel_sha = "k0".to_string();
    ctx
}

#[test]
fn the_version_of_susfs_is_quoted_in_its_header() {
    let header = "#define SUSFS_VARIANT \"GKI\"\n#define SUSFS_VERSION 1\n#define SUSFS_VERSION \"v2.0.0\" \"x\"\n";
    assert_eq!(susfs_version(Some(header)), "v2.0.0");
    assert_eq!(susfs_version(Some("#define SUSFS_VERSION \"v2\n")), "N/A");
    assert_eq!(susfs_version(Some("x\" #define SUSFS_VERSION \"v2")), " #define SUSFS_VERSION ");
    assert_eq!(susfs_version(Some("")), "N/A");
    assert_eq!(susfs_version(None), "N/A");
}

#[test]
fn the_summary_is_a_table() {
    let mut ctx = built();
    let table = "## android16 6.12 (81) - Normal release\n\n| Metric | Value |\n|--------|-------|\n\
| **Status** | [+] Success |\n\
| **Kernel** | 6.12.81-android16-2026-06 |\n\
| **Root Implementation** | KernelSU-Next |\n\
| **Root Commit** | r0 |\n\
| **Root Remote** | https://github.com/pershoot/KernelSU-Next.git |\n\
| **SUSFS Version** | v2 |\n\
| **SUSFS Commit** | s0 |\n\
| **DroidSpaces (LXC) Commit** | d0 |\n\
| **Kernel Source Commit** | k0 |\n\
| **Feature Set** | SUSFS+DS+KernelSU-Next |\n\
| **Patch Rejects** | 3 |\n\
| **SOURCE_DATE_EPOCH** | 1780633200 |\n\
| **Image** | /i |\n";
    assert_eq!(write_summary(&ctx, "/i", 3, "", "v2"), table);
    ctx.note("one".to_string());
    ctx.note("two".to_string());
    let with_version = table.replace(
        "| **Root Implementation**",
        "| **Version String** | `6.12` |\n| **Root Implementation**",
    );
    assert_eq!(
        write_summary(&ctx, "/i", 3, "6.12", "v2"),
        format!("{with_version}\n### Applied Fixes\n\n- one\n- two\n")
    );
}

#[test]
fn files_are_named_after_the_build() {
    let ctx = built();
    assert_eq!(summary_path(&ctx), "/ws/out/build-summary-6.12.81-android16-2026-06.md");
    assert_eq!(metadata_path(&ctx), "/ws/out/6.12.81-android16-2026-06-metadata.json");
    match zip_step(&ctx) {
        Step::Run { command } => {
            assert_eq!(command.cwd, "/ws/AnyKernel3");
            assert_eq!(
                command.shown(),
                "zip -qr /ws/out/6.12.81-android16-2026-06-AnyKernel3.zip ."
            );
        }
        other => panic!("{other:?}"),
    }
    let c = version_command(&ctx, "/i");
    assert_eq!(c.cwd, "/ws/out");
    assert_eq!(
        c.words,
        [
            "sh",
            "-c",
            "strings /i | grep -m1 '^Linux version ' | sed 's/Linux version //' || true"
        ]
    );
}

#[test]
fn the_metadata_is_json() {
    let ctx = built();
    assert_eq!(
        metadata_json(&ctx, "/i \"x\"", 3, "6.12", "v2"),
        r#"{
  "image": "/i \"x\"",
  "kernel": {
    "android": "android16",
    "family": "android16-6.12",
    "kernel_version": "6.12",
    "os_patch_level": "2026-06",
    "source_commit": "k0",
    "sublevel": "81",
    "variant": "Normal",
    "version_string": "6.12"
  },
  "lxc": {
    "commit": "d0",
    "project": "Droidspaces-OSS"
  },
  "method": "GKI source build with SHA-pinned KernelSU-Next, SUSFS and DroidSpaces (LXC)",
  "patch_rejects": 3,
  "root": {
    "commit": "r0",
    "implementation": "KernelSU-Next",
    "manager": "KernelSU Next Manager",
    "remote": "https://github.com/pershoot/KernelSU-Next.git"
  },
  "source_date_epoch": 1780633200,
  "susfs": {
    "branch": "gki-android16-6.12",
    "commit": "s0",
    "version": "v2"
  }
}"#
    );
    let members = metadata(&ctx, "/i", 3, "6.12", "v2");
    let names: Vec<&str> = members.iter().map(|m| m.0.as_str()).collect();
    assert_eq!(
        names,
        ["method", "root", "susfs", "lxc", "kernel", "image", "patch_rejects", "source_date_epoch"]
    );
    assert!(matches!(members[6].1, Field::Unsigned(3)));
    assert!(matches!(members[7].1, Field::Signed(1780633200)));
}
