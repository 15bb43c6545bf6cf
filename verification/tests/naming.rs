//! Sublevels, file names and time stamps.
use trustgki::ctx::{Ctx, Options};
use trustgki::family::Family;
use trustgki::naming::{
    extract_sublevel_and_file_name, file_name, needs_makefile, read_sublevel,
};
use trustgki::stamp::{parse_year_month, resolve_year_month, set_build_timestamp};

fn context(family: Family, sublevel: &str, level: &str) -> Ctx {
    let opts = Options {
        workspace: "/ws".to_string(),
        output_dir: "/ws/out".to_string(),
        bazel_cache: "/ws/bazel".to_string(),
        brand_name: "Wild".to_string(),
        variant: "Normal".to_string(),
        jobs: 1,
        bypass: false,
        use_cache: false,
        strict_patches: false,
        root_commit: None,
        susfs_commit: None,
        droidspaces_commit: None,
        kernel_patches_commit: None,
        anykernel3_commit: None,
    };
    let mut ctx = Ctx::new(opts, family, sublevel.to_string(), level.to_string());
    ctx.sublevel = sublevel.to_string();
    ctx
}

#[test]
fn a_given_sublevel_is_taken_as_it_is() {
    let mut ctx = context(Family::Android16_6_12, "81", "2026-06");
    extract_sublevel_and_file_name(&mut ctx, None).unwrap();
    assert_eq!(ctx.sublevel, "81");
    assert_eq!(ctx.file_name, "6.12.81-android16-2026-06");
}

#[test]
fn the_tip_of_a_series_is_read_from_its_makefile() {
    let makefile = "VERSION = 6\nPATCHLEVEL = 1\n \tSUBLEVEL\t =  157 \nEXTRAVERSION =\nX SUBLEVEL = 3\n";
    for (input, level) in [("1", "LTS"), ("x", "2025-12"), ("X", "lts")] {
        let mut ctx = context(Family::Android14_6_1, input, level);
        ctx.opts.variant = "Wild".to_string();
        extract_sublevel_and_file_name(&mut ctx, Some(makefile)).unwrap();
        assert_eq!(ctx.sublevel, "157");
        assert_eq!(ctx.file_name, format!("6.1.157-android14-{level}-Wild"));
    }
    let mut ctx = context(Family::Android14_6_1, "X", "lts");
    assert_eq!(
        extract_sublevel_and_file_name(&mut ctx, None).unwrap_err().message(),
        "LTS build requires /ws/kernel/common/Makefile"
    );
    assert_eq!(ctx.file_name, "android14-6.1-lts");
}

#[test]
fn a_makefile_names_one_number() {
    let message = |s: &str| read_sublevel(s, "M").unwrap_err().message();
    assert_eq!(message(""), "expected exactly one SUBLEVEL assignment in M, found 0");
    assert_eq!(
        message("SUBLEVEL = 1\nSUBLEVEL=2\n"),
        "expected exactly one SUBLEVEL assignment in M, found 2"
    );
    assert_eq!(message("SUBLEVEL =\n"), "invalid numeric SUBLEVEL '' in M");
    assert_eq!(message("SUBLEVEL = -1\n"), "invalid numeric SUBLEVEL '-1' in M");
    assert_eq!(read_sublevel("SUBLEVEL = 007\r\n", "M").unwrap(), "007");
}

#[test]
fn a_normal_variant_is_not_part_of_the_name() {
    let name = |v: &str| file_name(Family::Android15_6_6, "58", "2025-01", v);
    assert_eq!(name("Normal"), "6.6.58-android15-2025-01");
    assert_eq!(name(""), "6.6.58-android15-2025-01");
    assert_eq!(name("normal"), "6.6.58-android15-2025-01-normal");
}

#[test]
fn the_time_stamp_goes_by_the_patch_level() {
    let mut ctx = context(Family::Android16_6_12, "81", "2026-06");
    set_build_timestamp(&mut ctx, 2030, 1).unwrap();
    assert_eq!(ctx.source_date_epoch, 1780633200);
    assert_eq!(ctx.kbuild_timestamp, "Fri Jun 05 04:20:00 UTC 2026");
    assert_eq!(ctx.git_date, "2026-06-05T04:20:00Z");
    let mut ctx = context(Family::Android16_6_12, "81", "1970-01-07");
    set_build_timestamp(&mut ctx, 2030, 1).unwrap();
    assert_eq!(ctx.source_date_epoch, 4 * 86400 + 4 * 3600 + 20 * 60);
    assert_eq!(ctx.kbuild_timestamp, "Mon Jan 05 04:20:00 UTC 1970");
    let mut ctx = context(Family::Android16_6_12, "81", "2024-02");
    set_build_timestamp(&mut ctx, 2030, 1).unwrap();
    assert_eq!(ctx.kbuild_timestamp, "Mon Feb 05 04:20:00 UTC 2024");
    let mut ctx = context(Family::Android16_6_12, "81", "0000-12");
    set_build_timestamp(&mut ctx, 2030, 1).unwrap();
    assert_eq!(ctx.source_date_epoch, -719189 * 86400 + 4 * 3600 + 20 * 60);
    assert_eq!(ctx.git_date, "0000-12-05T04:20:00Z");
}

#[test]
fn the_tip_of_a_series_is_of_this_month() {
    assert_eq!(resolve_year_month("lts", 2026, 3), "2026-03");
    assert_eq!(resolve_year_month("lts-11", 2026, 3), "2026-11");
    assert_eq!(resolve_year_month("lts-1", 2026, 12), "2026-12");
    assert_eq!(resolve_year_month("lts-011", 2026, 3), "2026-03");
    assert_eq!(resolve_year_month("2025-01", 2026, 3), "2025-01");
    let mut ctx = context(Family::Android14_6_1, "X", "lts-99");
    assert_eq!(
        set_build_timestamp(&mut ctx, 2026, 3).unwrap_err().message(),
        "month out of range"
    );
}

#[test]
fn patch_levels_that_are_no_month_are_refused() {
    let message = |s: &str| parse_year_month(s).unwrap_err().message();
    assert_eq!(message("x-01"), "cannot parse year from 'x-01'");
    assert_eq!(message("-01"), "cannot parse year from '-01'");
    assert_eq!(message("2025"), "cannot parse month from '2025'");
    assert_eq!(message("2025-x"), "cannot parse month from '2025-x'");
    assert_eq!(message("2025-256"), "cannot parse month from '2025-256'");
    assert_eq!(message("2025-0"), "month out of range");
    assert_eq!(message("2025-13"), "month out of range");
    assert_eq!(message("10000-1"), "year was not in range");
    assert_eq!(message("4294967296-1"), "cannot parse year from '4294967296-1'");
    assert_eq!(parse_year_month("+2025-+7-x").unwrap(), (2025, 7));
}

#[test]
fn only_the_tip_of_a_series_needs_its_makefile() {
    assert!(needs_makefile("LTS", "157"));
    assert!(needs_makefile("2025-12", "x"));
    assert!(!needs_makefile("2025-12", "157"));
    assert!(!needs_makefile("lts-05", "157"));
}

#[test]
fn variants_have_their_own_names() {
    let name = |v: &str| file_name(Family::Android14_6_1, "157", "2025-12", v);
    assert_ne!(name("A"), name("B"));
    assert_ne!(name("A"), name("Normal"));
    assert_eq!(name(""), name("Normal"));
}
