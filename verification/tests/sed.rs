use trustgki::sed::{append_line, replace_last_line, sed_delete_exact, sed_insert_after, sed_insert_before};

#[test]
fn sed_helpers_match_sed_semantics() {
    let content = "a\n// needle\nb\n// needle\nc\n";
    assert_eq!(
        sed_insert_after(content, "needle", "ins"),
        "a\n// needle\nins\nb\n// needle\nins\nc\n"
    );
    assert_eq!(
        sed_insert_before(content, "needle", "ins"),
        "a\nins\n// needle\nb\nins\n// needle\nc\n"
    );
    assert_eq!(
        sed_delete_exact(
            "#include <linux/pkeys.h>\n#include <linux/pkeys.h.x>\n",
            "#include <linux/pkeys.h>"
        ),
        "#include <linux/pkeys.h.x>\n"
    );
}

#[test]
fn line_helpers_match_echo_and_sed_dollar_d() {
    assert_eq!(append_line("x", "y"), "x\ny\n");
    assert_eq!(append_line("x\n", "y"), "x\ny\n");
    assert_eq!(replace_last_line("a\nb\n", "echo \"x\""), "a\necho \"x\"\n");
    assert_eq!(replace_last_line("a", "c"), "c\n");
    assert_eq!(replace_last_line("", "c"), "c\n");
}
