//! The builds that a configuration file expands to.
use trustgki::family::Family;
use trustgki::targets::{
    build_targets, list_config, lowercase, target_line, targets_from_config, ConfigEntry,
    ConfigFile, Target,
};

fn entry(sublevel: &str, date: &str, variant: Option<&str>) -> ConfigEntry {
    ConfigEntry {
        sublevel: sublevel.to_string(),
        date: date.to_string(),
        variant: variant.map(|v| v.to_string()),
    }
}

/// A matrix of the shape that the families have: one entry per monthly patch level, the
/// tip of the series last, and a variant on two of them.
fn matrix() -> ConfigFile {
    let mut entries = Vec::new();
    for i in 0..31u32 {
        let date = format!("{}-{:02}", 2023 + (i + 5) / 12, (i + 5) % 12 + 1);
        let variant = if i == 30 { Some("TheWildJames") } else { None };
        entries.push(entry(&(127 + i).to_string(), &date, variant));
    }
    entries.push(entry("X", "lts", Some("TheWildJames")));
    ConfigFile { version: "android14-6.1".to_string(), entries }
}

fn short(t: &Target) -> String {
    format!("{}/{}/{}", t.sublevel, t.os_patch_level, t.variant)
}

#[test]
fn config_targets_expand_like_prepare_yml() {
    let config = matrix();
    let all = targets_from_config(&config, "All", "Normal").unwrap();
    assert!(all.iter().any(|t| t.variant == "TheWildJames"));
    assert!(all.iter().any(|t| t.os_patch_level == "lts"));
    let filtered = targets_from_config(&config, "2025-12", "Normal").unwrap();
    assert!(filtered.iter().all(|t| t.os_patch_level == "2025-12"));
    let by_sublevel = targets_from_config(&config, "157", "Normal").unwrap();
    assert!(by_sublevel.iter().all(|t| t.sublevel == "157"));
    // A requested variant labels every entry instead of the entry variants.
    let labeled = targets_from_config(&config, "All", "Custom").unwrap();
    assert!(labeled.iter().all(|t| t.variant == "Custom"));
    assert_eq!(labeled.len(), 32);
    assert_eq!(all.len(), 34);
    assert_eq!(filtered.len(), 2);
    assert!(all.iter().all(|t| t.family == Family::Android14_6_1));
}

#[test]
fn no_target_is_listed_twice() {
    let config = ConfigFile {
        version: "android15-6.6".to_string(),
        entries: vec![
            entry("30", "2024-07", Some("Normal")),
            entry("30", "2024-07", None),
            entry("30", "2024-07", Some("W")),
            entry("58", "2024-07", Some("W")),
        ],
    };
    let names = |r: Vec<Target>| r.iter().map(short).collect::<Vec<_>>();
    assert_eq!(
        names(targets_from_config(&config, "", "Normal").unwrap()),
        ["30/2024-07/Normal", "30/2024-07/W", "58/2024-07/Normal", "58/2024-07/W"]
    );
    assert_eq!(
        names(targets_from_config(&config, "", "V").unwrap()),
        ["30/2024-07/V", "58/2024-07/V"]
    );
    assert_eq!(
        names(targets_from_config(&config, "58", "").unwrap()),
        ["58/2024-07/Normal", "58/2024-07/W"]
    );
}

#[test]
fn filters_ignore_case_and_space_of_the_patch_level() {
    let config = ConfigFile {
        version: "android14-6.1".to_string(),
        entries: vec![entry("X", "LTS", None), entry("lts", "2024-01", None)],
    };
    let one = targets_from_config(&config, "  LtS\n", "Normal").unwrap();
    assert_eq!(one.iter().map(short).collect::<Vec<_>>(), ["X/LTS/Normal"]);
    assert_eq!(targets_from_config(&config, " ALL ", "Normal").unwrap().len(), 2);
    let tip = targets_from_config(&matrix(), "X", "V").unwrap();
    assert_eq!(tip.iter().map(short).collect::<Vec<_>>(), ["X/lts/V"]);
    assert_eq!(targets_from_config(&matrix(), "x", "V").unwrap().len(), 1);
    assert_eq!(lowercase("ÄB\u{130}c"), "äbi\u{307}c");
    assert_eq!(lowercase("AZaz09-"), "azaz09-");
}

#[test]
fn what_matches_nothing_is_a_failure() {
    let config = matrix();
    assert_eq!(
        targets_from_config(&config, " 1999-01", "Normal").unwrap_err().message(),
        "no build targets match patch level '1999-01'"
    );
    let empty = ConfigFile { version: "android14-6.1".to_string(), entries: vec![] };
    assert_eq!(
        targets_from_config(&empty, "All", "Normal").unwrap_err().message(),
        "no build targets match patch level ''"
    );
    let unknown = ConfigFile { version: "linux".to_string(), entries: vec![] };
    assert!(targets_from_config(&unknown, "All", "Normal")
        .unwrap_err()
        .message()
        .starts_with("unknown kernel family 'linux'"));
}

#[test]
fn a_run_builds_a_file_or_one_target() {
    let config = matrix();
    let names = |r: Vec<Target>| r.iter().map(short).collect::<Vec<_>>();
    assert_eq!(build_targets(Some(&config), None, None, " ", "V").unwrap().len(), 32);
    assert_eq!(
        names(build_targets(Some(&config), None, None, "127", "V").unwrap()),
        ["127/2023-06/V"]
    );
    assert_eq!(
        names(build_targets(None, Some("android16-6.12"), Some("81"), "2026-06", "Normal").unwrap()),
        ["81/2026-06/Normal"]
    );
    assert_eq!(
        names(build_targets(None, Some("android16-6.12"), None, "", "W").unwrap()),
        ["X/lts/W"]
    );
    assert_eq!(
        build_targets(None, None, None, "", "W").unwrap_err().message(),
        "--version is required when --config is not used"
    );
    assert!(build_targets(None, Some("x"), None, "", "W").is_err());
    let tip = |level: &str| build_targets(None, Some("android14-6.1"), None, level, "W");
    assert_eq!(names(tip("LTS").unwrap()), ["X/LTS/W"]);
    assert_eq!(names(tip("lts-05").unwrap()), ["X/lts-05/W"]);
    for level in ["2025-12", "157", "lts-5", "lts-0x", "ltss"] {
        assert_eq!(
            tip(level).unwrap_err().message(),
            "--sublevel is required unless --os-patch-level lts is used"
        );
    }
    assert!(build_targets(None, Some("android14-6.1"), Some("157"), "2025-12", "W").is_ok());
}

#[test]
fn a_list_reads_a_file_or_that_of_a_family() {
    assert_eq!(list_config(Some("a.json"), Some("x")).unwrap(), "a.json");
    assert_eq!(
        list_config(None, Some("android15-6.6")).unwrap(),
        ".github/config/android15-6.6.json"
    );
    assert!(list_config(None, Some("x")).is_err());
    assert_eq!(
        list_config(None, None).unwrap_err().message(),
        "either --config or --version is required"
    );
    let t = &build_targets(None, Some("android16-6.12"), Some("81"), "2026-06", "N").unwrap()[0];
    assert_eq!(
        target_line(t),
        "android16-6.12\tsublevel=81\tpatch-level=2026-06\tvariant=N"
    );
}

#[test]
fn a_filter_goes_by_date_then_by_sublevel() {
    let config = ConfigFile {
        version: "android14-6.1".to_string(),
        entries: vec![
            entry("157", "2025-12", None),
            entry("2025", "2026-01", None),
            entry("157", "2026-02", None),
            entry("X", "157", None),
        ],
    };
    let names = |f: &str| {
        targets_from_config(&config, f, "V").map(|ts| ts.iter().map(short).collect::<Vec<_>>())
    };
    assert_eq!(names("157").unwrap(), ["X/157/V"]);
    assert_eq!(names("2025").unwrap(), ["2025/2026-01/V"]);
    assert_eq!(names(" 2026-02 ").unwrap(), ["157/2026-02/V"]);
    assert!(names("158").is_err());
}
