//! The kernel families.
use trustgki::family::{family_ids, Family};
use trustgki::summary::families_json;

#[test]
fn supported_families_match_the_workflow_matrix() {
    let ids: Vec<&str> = Family::ALL.iter().map(|family| family.id()).collect();
    assert_eq!(ids.len(), 7);
    assert_eq!(
        ids,
        vec![
            "android12-5.10",
            "android13-5.10",
            "android13-5.15",
            "android14-5.15",
            "android14-6.1",
            "android15-6.6",
            "android16-6.12",
        ]
    );
    // Every supported family has a config JSON to expand, named after it.
    for family in Family::ALL {
        assert_eq!(
            family.config_file(),
            format!(".github/config/{}.json", family.id())
        );
    }
    assert_eq!(family_ids(), ids);
}

#[test]
fn names_and_numbers_of_a_family_agree() {
    for family in Family::ALL {
        assert_eq!(family.id(), format!("{}-{}", family.android(), family.kernel()));
        let (major, minor) = family.kernel_ver();
        assert_eq!(family.kernel(), format!("{major}.{minor}"));
        assert_eq!(Family::parse(family.id()).unwrap(), family);
        assert_eq!(family.susfs_branch(), format!("gki-{}", family.id()));
        assert!(!family.is_older_than((major, minor)));
        assert!(family.is_older_than((major, minor + 1)));
        assert!(family.is_older_than((major + 1, 0)));
        assert!(!family.is_older_than((major - 1, 99)));
    }
    assert_eq!(Family::Android16_6_12.kernel_ver(), (6, 12));
}

#[test]
fn an_unknown_family_is_refused() {
    assert_eq!(
        Family::parse("android17-6.18").unwrap_err().message(),
        "unknown kernel family 'android17-6.18' (expected one of: android12-5.10, android13-5.10, android13-5.15, android14-5.15, android14-6.1, android15-6.6, android16-6.12)"
    );
    assert!(Family::parse("").is_err());
}

#[test]
fn families_are_listed_as_json() {
    assert_eq!(
        families_json(),
        "[\"android12-5.10\",\"android13-5.10\",\"android13-5.15\",\"android14-5.15\",\"android14-6.1\",\"android15-6.6\",\"android16-6.12\"]"
    );
}
