//! Options of the kernel configuration.
use trustgki::ctx::{Ctx, Options};
use trustgki::family::Family;
use trustgki::kconfig::{
    apply_misc_configs, cfg_droidspaces, cfg_misc, cfg_root, cfg_susfs, cfg_susfs_open_redirect,
    parse_entry, set_kernel_config, set_option,
};
use trustgki::tree::Tree;

fn context(family: Family, sublevel: &str, level: &str) -> Ctx {
    let opts = Options {
        workspace: "/ws".to_string(),
        output_dir: "/ws/out".to_string(),
        bazel_cache: "/ws/bazel".to_string(),
        brand_name: "Wild".to_string(),
        variant: "Normal".to_string(),
        jobs: 1,
        bypass: false,
        use_cache: false,
        strict_patches: false,
        root_commit: None,
        susfs_commit: None,
        droidspaces_commit: None,
        kernel_patches_commit: None,
        anykernel3_commit: None,
    };
    let mut ctx = Ctx::new(opts, family, sublevel.to_string(), level.to_string());
    ctx.sublevel = sublevel.to_string();
    ctx
}

const DEFCONFIG: &str = "arch/arm64/configs/gki_defconfig";

fn with(content: &str, entries: Vec<&str>) -> String {
    let ctx = context(Family::Android16_6_12, "69", "2026-03");
    let mut tree = Tree::new();
    tree.set(DEFCONFIG, content.to_string());
    set_kernel_config(&ctx, &mut tree, &entries).unwrap();
    tree.get(DEFCONFIG).unwrap().to_string()
}

#[test]
fn set_kernel_config_matches_the_patch_action() {
    let ctx = context(Family::Android16_6_12, "69", "2026-03");
    let mut tree = Tree::new();
    tree.set(
        DEFCONFIG,
        "# CONFIG_KALLSYMS_ALL is not set\nCONFIG_OVERLAY_FS=n\nCONFIG_UNRELATED=y\n".to_string(),
    );
    set_kernel_config(&ctx, &mut tree, &cfg_misc()).unwrap();
    let out = tree.get(DEFCONFIG).unwrap();
    assert!(out.contains("CONFIG_KALLSYMS_ALL=y\n"));
    assert!(out.contains("CONFIG_OVERLAY_FS=y\n"));
    assert!(out.contains("CONFIG_TMPFS_XATTR=y\n")); // appended
    assert!(out.contains("CONFIG_UNRELATED=y\n")); // untouched
    assert!(!out.contains("CONFIG_OVERLAY_FS=n"));
    assert_eq!(
        out,
        "CONFIG_KALLSYMS_ALL=y\nCONFIG_OVERLAY_FS=y\nCONFIG_UNRELATED=y\nCONFIG_TMPFS_XATTR=y\nCONFIG_TMPFS_POSIX_ACL=y\nCONFIG_KALLSYMS=y\n"
    );
    // Setting the same options again changes nothing.
    let once = out.to_string();
    apply_misc_configs(&ctx, &mut tree).unwrap();
    assert_eq!(tree.get(DEFCONFIG).unwrap(), once);
}

#[test]
fn a_missing_configuration_is_a_failure() {
    let ctx = context(Family::Android16_6_12, "69", "2026-03");
    let mut tree = Tree::new();
    assert_eq!(
        set_kernel_config(&ctx, &mut tree, &cfg_root()).unwrap_err().message(),
        "ERROR: gki_defconfig not found at /ws/kernel/common/arch/arm64/configs/gki_defconfig"
    );
    assert!(apply_misc_configs(&ctx, &mut tree).is_err());
}

#[test]
fn entries_are_read_leniently() {
    let entry = |s: &str| parse_entry(s);
    assert_eq!(entry("  "), None);
    assert_eq!(entry(" # CONFIG_A=y"), None);
    assert_eq!(entry("CONFIG_A"), Some(("CONFIG_A".to_string(), "y".to_string())));
    assert_eq!(
        entry(" CONFIG_A = m=n "),
        Some(("CONFIG_A".to_string(), "m=n".to_string()))
    );
}

#[test]
fn only_whole_keys_at_the_front_of_a_line_are_assignments() {
    assert_eq!(
        with("CONFIG_AB=n\n CONFIG_A=n\nCONFIG_A=n\nCONFIG_A=m", vec!["CONFIG_A=y"]),
        "CONFIG_AB=n\n CONFIG_A=n\nCONFIG_A=y\nCONFIG_A=y"
    );
    assert_eq!(with("CONFIG_A=x\r\nB=1\r\n", vec!["CONFIG_A=y"]), "CONFIG_A=y\nB=1\r\n");
    assert_eq!(
        with("  # CONFIG_A is not set \r\n# CONFIG_A is not set", vec!["CONFIG_A"]),
        "CONFIG_A=y\nCONFIG_A=y"
    );
    assert_eq!(with("B=1", vec!["", "#x", "CONFIG_A=y"]), "B=1\nCONFIG_A=y\n");
    assert_eq!(with("", vec!["CONFIG_A=y"]), "CONFIG_A=y\n");
    // The characters of a key are taken literally.
    assert_eq!(with("aXb=1\na.b=1\n", vec!["a.b=2"]), "aXb=1\na.b=2\n");
}

#[test]
fn a_dollar_sign_in_a_value_refers_to_a_group() {
    assert_eq!(set_option("A=1\n", "A", "$0").unwrap(), "A=A=1\n");
    assert_eq!(set_option("B=1\n", "A", "$0").unwrap(), "B=1\nA=$0\n");
}

#[test]
fn the_option_lists_are_complete() {
    assert_eq!(cfg_root(), ["CONFIG_KSU=y"]);
    assert_eq!(cfg_susfs().len(), 9);
    assert_eq!(cfg_susfs_open_redirect(), ["CONFIG_KSU_SUSFS_OPEN_REDIRECT=y"]);
    assert_eq!(cfg_droidspaces().len(), 9);
    assert_eq!(cfg_misc().len(), 5);
    let out = with("", cfg_droidspaces());
    for entry in cfg_droidspaces() {
        assert!(out.lines().any(|l| l == entry));
    }
}

#[test]
fn a_list_set_twice_is_set_once() {
    let entries = vec!["A=1", "# no entry", "B", "A=2", ""];
    let once = with("X=1\nA=0\n# B is not set\nA=3", entries.clone());
    assert_eq!(once, "X=1\nA=2\nB=y\nA=2");
    assert_eq!(with(&once, entries), once);
}

#[test]
fn a_key_that_is_too_long_is_a_failure() {
    let ctx = context(Family::Android16_6_12, "69", "2026-03");
    let mut tree = Tree::new();
    tree.set(DEFCONFIG, "A=1\n".to_string());
    let long = "\u{1d54f}".repeat(1000);
    assert!(set_option("A=1\n", &long, "y").is_ok());
    let meta = "[".repeat(1000);
    assert!(set_option("A=1\n", &meta, "y").is_ok());
    let huge = "K".repeat(2_000_000);
    assert!(set_kernel_config(&ctx, &mut tree, &vec![huge.as_str()])
        .unwrap_err()
        .message()
        .starts_with("bad regex: (?m)^KKK"));
    assert_eq!(tree.get(DEFCONFIG), Some("A=1\n"));
}
