//! The files that a patch names.
use trustgki::diff::{comes_before, min_kdp_paths, patch_target_paths, unsafe_path};

#[test]
fn patch_target_paths_reads_unified_diff_headers() {
    let patch = "diff --git a/android/abi_gki_aarch64.stg b/android/abi_gki_aarch64.stg\n\
--- a/android/abi_gki_aarch64.stg\n\
+++ b/android/abi_gki_aarch64.stg\n\
@@ -1 +1 @@\n\
-old\n\
+new\n\
--- a/drivers/Makefile\n\
+++ b/drivers/Makefile\n";
    let paths = patch_target_paths(patch);
    assert!(paths.contains(&"android/abi_gki_aarch64.stg".to_string()));
    assert!(paths.contains(&"drivers/Makefile".to_string()));
    assert!(!paths
        .iter()
        .any(|p| p.starts_with("a/") || p.starts_with("b/")));
    assert_eq!(paths, vec!["android/abi_gki_aarch64.stg", "drivers/Makefile"]);
}

#[test]
fn paths_are_in_order_and_none_is_twice() {
    let patch = "--- b/z.c\t2024\n+++ b/b/y.c extra words\r\n--- \n+++ plain\n--- a/\n--- a/z.c\n";
    assert_eq!(patch_target_paths(patch), vec!["b/y.c", "plain", "z.c"]);
    assert!(patch_target_paths("").is_empty());
}

#[test]
fn the_extra_files_are_among_the_paths() {
    assert_eq!(
        min_kdp_paths("+++ b/kernel/cred.c\n").unwrap(),
        vec![
            "android/abi_gki_aarch64_galaxy",
            "drivers/Makefile",
            "drivers/min_kdp.c",
            "kernel/cred.c"
        ]
    );
}

#[test]
fn the_first_unsafe_path_is_named() {
    let e = min_kdp_paths("--- a/../x\n+++ /dev/null\n").unwrap_err();
    assert_eq!(e.message(), "unsafe Samsung patch path: ../x");
    let e = min_kdp_paths("+++ /dev/null\n").unwrap_err();
    assert_eq!(e.message(), "unsafe Samsung patch path: /dev/null");
    for p in ["/dev/null", "/etc/passwd", "..", "../x", "a/../b"] {
        assert!(unsafe_path(p), "{p}");
    }
    for p in ["a/b", "..x", "a/..", "a..b/c"] {
        assert!(!unsafe_path(p), "{p}");
    }
}

#[test]
fn texts_are_ordered_by_code_points() {
    assert!(comes_before("a", "b"));
    assert!(comes_before("a", "aa"));
    assert!(comes_before("", "a"));
    assert!(comes_before("Z", "a"));
    assert!(comes_before("z", "é"));
    assert!(!comes_before("a", "a"));
    assert!(!comes_before("b", "a"));
}
