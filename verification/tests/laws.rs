//! What holds of the text helpers, on concrete texts.
use trustgki::paths::{path_join, path_parent};
use trustgki::sed::{
    append_line, replace_last_line, sed_delete_exact, sed_insert_after, sed_insert_before,
};
use trustgki::text::{contains, insert_at, replace, replace_first, starts_with};
use trustgki::version::{sublevel_ge, sublevel_le, version_ge, version_key};
use trustgki::words::{decimal_text, same_ignoring_ascii_case, signed_text, trim};

const TEXTS: [&str; 6] = ["", "a", "a\n", "a\nneedle\nb", "needle x\r\n\nneedle", "é\nneedle\n"];

#[test]
fn deleting_undoes_inserting() {
    for t in TEXTS {
        let after = sed_insert_after(t, "needle", "new line");
        // A last line that contains the needle gets its line feed.
        let ended = if t.ends_with("needle") { format!("{t}\n") } else { t.to_string() };
        assert_eq!(sed_delete_exact(&after, "new line"), ended);
        let before = sed_insert_before(t, "needle", "new line");
        assert_eq!(sed_delete_exact(&before, "new line"), t);
    }
}

#[test]
fn an_inserted_line_is_a_line_of_its_own() {
    assert_eq!(sed_insert_after("x needle", "needle", "ins"), "x needle\nins\n");
    assert_eq!(sed_insert_after("x needle", "needle", "ins\n"), "x needle\nins\n");
    assert_eq!(sed_insert_after("needle\ny", "needle", "ins"), "needle\nins\ny");
}

#[test]
fn inserting_undoes_deleting() {
    for t in ["", "a\nneedle\nnew\nb", "needle\nnew\nneedle\nnew\n", "b\n"] {
        let without = sed_delete_exact(t, "new");
        assert_eq!(sed_insert_after(&without, "needle", "new"), t);
    }
    // It does not where the line stood elsewhere.
    let without = sed_delete_exact("new\nneedle\n", "new");
    assert_eq!(sed_insert_after(&without, "needle", "new"), "needle\nnew\n");
}

#[test]
fn a_line_is_deleted_once_and_for_all() {
    let text = "x\ny\nx\r\n x\nx";
    let once = sed_delete_exact(text, "x");
    assert_eq!(once, "y\n x\n");
    assert_eq!(sed_delete_exact(&once, "x"), once);
}

#[test]
fn nothing_is_inserted_without_the_needle() {
    for t in TEXTS {
        assert_eq!(sed_insert_after(t, "missing", "x"), t);
        assert_eq!(sed_insert_before(t, "missing", "x"), t);
    }
}

#[test]
fn the_last_appended_line_can_be_replaced() {
    for t in TEXTS {
        let one = append_line(t, "one");
        assert!(one.ends_with("one\n"));
        assert_eq!(replace_last_line(&one, "two"), append_line(t, "two"));
    }
}

#[test]
fn replacing_back_restores() {
    for t in ["", "vma_data_pages", "x vma_data_pages vma_data_pages y", "vma_data_vma_data_pages"] {
        let there = replace(t, "vma_data_pages", "vma_pages");
        assert_eq!(replace(&there, "vma_pages", "vma_data_pages"), t);
    }
    // It does not where the new text was there before.
    let there = replace("vma_pages vma_data_pages", "vma_data_pages", "vma_pages");
    assert_eq!(replace(&there, "vma_pages", "vma_data_pages"), "vma_data_pages vma_data_pages");
    assert_eq!(replace("aaa", "aa", "b"), "ba");
    assert_eq!(replace("éaé", "é", "ee"), "eeaee");
    assert_eq!(replace_first("aa", "a", "b"), "ba");
    assert_eq!(insert_at("éb", 1, "x"), "éxb");
    assert!(contains("abc", "bc") && !contains("abc", "cb") && contains("", ""));
    assert!(starts_with("abc", "ab") && !starts_with("abc", "b"));
}

#[test]
fn versions_are_ordered() {
    let all = ["", "0", "2.9", "2.38", "2.38.0", "2.38-x1", "6.12"];
    for a in all {
        assert!(version_ge(a, a));
        for b in all {
            assert!(version_ge(a, b) || version_ge(b, a));
            for c in all {
                if version_ge(a, b) && version_ge(b, c) {
                    assert!(version_ge(a, c));
                }
            }
        }
    }
    assert_eq!(version_key("6.12-rc3"), [6, 12, 3]);
    // A number that does not fit counts as zero.
    assert_eq!(version_key("1.18446744073709551616"), [1, 0]);
    assert_eq!(version_key("18446744073709551615"), [u64::MAX]);
}

#[test]
fn sublevels_are_numbers() {
    for bound in [0, 41, u64::MAX] {
        for s in ["0", " 41\n", "+7", "18446744073709551615"] {
            assert!(sublevel_le(s, bound) || sublevel_ge(s, bound));
        }
        for s in ["", "X", "-1", "4 1", "18446744073709551616", "+"] {
            assert!(!sublevel_le(s, bound) && !sublevel_ge(s, bound));
        }
    }
}

#[test]
fn numbers_are_written_out() {
    assert_eq!(decimal_text(0), "0");
    assert_eq!(decimal_text(u64::MAX), "18446744073709551615");
    assert_eq!(signed_text(i64::MIN), "-9223372036854775808");
    assert_eq!(signed_text(-1), "-1");
    assert_eq!(signed_text(i64::MAX), "9223372036854775807");
}

#[test]
fn white_space_is_that_of_unicode() {
    assert_eq!(trim("\u{a0}\u{2003} x \u{3000}\u{85}\n"), "x");
    assert_eq!(trim("\u{200b}"), "\u{200b}");
    assert!(same_ignoring_ascii_case("LtS", "lts"));
    assert!(!same_ignoring_ascii_case("É", "é"));
}

#[test]
fn paths_are_joined_with_one_slash() {
    assert_eq!(path_join("/a", "b"), "/a/b");
    assert_eq!(path_join("/a/", "b"), "/a/b");
    assert_eq!(path_join("/a", "/b"), "/b");
    assert_eq!(path_join("", "b"), "b");
    assert_eq!(path_parent("/a/b"), "/a");
    assert_eq!(path_parent("b"), "");
}

#[test]
fn absolute_paths_are_the_same_everywhere() {
    for dir in ["./out", "out/", "/out", ""] {
        let file = path_join(&path_join("/cwd", dir), "a.zip");
        assert!(file.starts_with('/'));
        assert_eq!(path_join("/ws/AnyKernel3", &file), file);
    }
}
