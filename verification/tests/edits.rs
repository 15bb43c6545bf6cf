//! Edits of single files.
use trustgki::edits::{
    apply_edit, clear_pad_mask, fdinfo_shim, remember_vma_end, restore_include, widen_this_len,
    Edit,
};
use trustgki::rewrite::{
    insert_before_line, insert_before_regex_once, regex_replace, regex_replace_all,
    regex_sub_once, Captures,
};

fn text(o: Option<&str>) -> String {
    o.unwrap_or("").to_string()
}

#[test]
fn fdinfo_shim_rewrites_like_the_perl_python_pipeline() {
    let input = "static void inotify_fdinfo(struct seq_file *m, struct fsnotify_mark *mark)\n\
{\n\
\tstruct inode *inode = NULL;\n\
\n\
\tif (inode) {\n\
\t\t/*\n\
\t\t * old kernels print the raw mask\n\
\t\t */\n\
\t\tseq_printf(m, \"ino:%lx mask:%x ignored_mask:%x\", 1, 2, 3);\n\
\t}\n\
\t{\n\
\t\tu32 mask = mark->mask & IN_ALL_EVENTS;\n\
\t\tseq_printf(m, \"mask, mark->ignored_mask\");\n\
\t}\n\
}\n";
    let out = fdinfo_shim(input).expect("shim");
    assert!(!out.contains("old kernels print the raw mask"));
    assert!(!out.contains("u32 mask = mark->mask & IN_ALL_EVENTS;"));
    assert!(out.contains("ignored_mask:0"));
    assert!(out.contains("\"inotify_mark_user_mask(mark)\""));
    assert!(out.starts_with(
        "static inline u32 inotify_mark_user_mask(struct fsnotify_mark *mark)\n\
{\n\treturn mark->mask & IN_ALL_EVENTS;\n}\n\n\
static void inotify_fdinfo"
    ));
    assert_eq!(
        out,
        "static inline u32 inotify_mark_user_mask(struct fsnotify_mark *mark)\n\
{\n\
\treturn mark->mask & IN_ALL_EVENTS;\n\
}\n\
\n\
static void inotify_fdinfo(struct seq_file *m, struct fsnotify_mark *mark)\n\
{\n\
\tstruct inode *inode = NULL;\n\
\n\
\tif (inode) {\n\
\t\tseq_printf(m, \"ino:%lx mask:%x ignored_mask:0\", 1, 2, 3);\n\
\t}\n\
\t{\n\
\t\tseq_printf(m, \"inotify_mark_user_mask(mark)\");\n\
\t}\n\
}\n"
    );
}

#[test]
fn this_len_upgrade_only_when_types_match() {
    let pattern = r"(int|size_t)\s+this_len\s*=\s*min_t\s*\(\s*(int|size_t)\s*,";
    let upgrade = |caps: &Captures| {
        if caps.get(1) == caps.get(2) {
            Some("size_t this_len = min_t(size_t,".to_string())
        } else {
            None
        }
    };
    assert_eq!(
        regex_replace(
            "int this_len = min_t(int, count, PAGE_SIZE);",
            pattern,
            upgrade
        )
        .unwrap(),
        "size_t this_len = min_t(size_t, count, PAGE_SIZE);"
    );
    assert_eq!(
        regex_replace(
            "size_t this_len = min_t(int, count, PAGE_SIZE);",
            pattern,
            upgrade
        )
        .unwrap(),
        "size_t this_len = min_t(int, count, PAGE_SIZE);"
    );
    assert_eq!(
        widen_this_len("a\nint this_len = min_t(int, count, PAGE_SIZE);\nsize_t this_len = min_t(int, x);\n"),
        "a\nsize_t this_len = min_t(size_t, count, PAGE_SIZE);\nsize_t this_len = min_t(int, x);\n"
    );
}

#[test]
fn android15_6_6_task_mmu_rewrite_matches_the_python_count_one_sub() {
    let input = "\t\t\tif (vma->vm_end > last_vma_end)\n\
\t\t\t\tsmap_gather_stats(vma, &mss, last_vma_end);\n\
\t}\n";
    let want = "\t\t\tif (vma->vm_end > last_vma_end) {\n\
\t\t\t\tsmap_gather_stats(vma, &mss, last_vma_end);\n\
\t\t\tlast_vma_end = vma->vm_end;\n\
\t\t}\n\
\t}\n";
    let out = regex_sub_once(
        input,
        r"(\t+\t\tif\s*\(\s*vma->vm_end\s*>\s*last_vma_end\s*\))\n(\t+\t\t\tsmap_gather_stats\(vma,\s*&mss,\s*last_vma_end\);)\n(\t+)\}",
        |caps: &Captures| {
            let mut s = String::new();
            s.push_str(&text(caps.get(1)));
            s.push_str(" {\n");
            s.push_str(&text(caps.get(2)));
            s.push('\n');
            s.push_str(&text(caps.get(3)));
            s.push_str("\t\tlast_vma_end = vma->vm_end;\n");
            s.push_str(&text(caps.get(3)));
            s.push_str("\t}\n");
            s.push_str(&text(caps.get(3)));
            s.push('}');
            s
        },
    )
    .unwrap();
    assert_eq!(out, want);
    assert_eq!(remember_vma_end(input), want);
    let twice = format!("{input}{input}");
    assert_eq!(remember_vma_end(&twice), format!("{want}{input}"));
    assert_eq!(remember_vma_end("no such test\n"), "no such test\n");
}

#[test]
fn regex_helpers_work_on_characters_not_bytes() {
    let out = regex_replace("äöü1x2é3", "[0-9]", |c: &Captures| {
        if c.get(0) == Some("2") {
            None
        } else {
            Some(format!("<{}>", text(c.get(0))))
        }
    })
    .unwrap();
    assert_eq!(out, "äöü<1>x2é<3>");
    assert_eq!(
        insert_before_regex_once("é\nmain()\nmain()\n", "(?m)^main", "// x\n").unwrap(),
        "é\n// x\nmain()\nmain()\n"
    );
    assert_eq!(
        insert_before_regex_once("int a;\nint b;\n", "b", "X\n").unwrap(),
        "int a;\nX\nint b;\n"
    );
    assert_eq!(insert_before_regex_once("é b\nb", "b", "X\n").unwrap(), "X\né b\nb");
    assert_eq!(insert_before_line("a\nbc\n", 3, "-"), "a\n-bc\n");
    assert_eq!(insert_before_line("a\nbc\n", 1, "-"), "-a\nbc\n");
    assert_eq!(insert_before_line("a\n", 2, "-"), "a\n-");
    assert_eq!(
        insert_before_regex_once("nothing", "(?m)^main", "x").unwrap(),
        "nothing"
    );
    assert_eq!(
        regex_replace_all("a1b22", "([0-9])", "<$1>").unwrap(),
        "a<1>b<2><2>"
    );
    assert_eq!(regex_replace_all("a1b22", "[0-9]+", "").unwrap(), "ab");
}

#[test]
fn a_pattern_that_does_not_compile_is_named() {
    let message = regex_replace_all("x", "(", "y").unwrap_err().message();
    assert_eq!(message, "bad regex: (");
    assert!(regex_replace("x", "[", |_: &Captures| None).is_err());
    assert!(regex_sub_once("x", "*", |_: &Captures| String::new()).is_err());
    assert!(insert_before_regex_once("x", "(?P<", "y").is_err());
}

#[test]
fn groups_that_took_no_part_are_absent() {
    let out = regex_replace("ab", "(a)|(b)", |c: &Captures| {
        let here = |i: usize| if c.get(i).is_some() { "1" } else { "0" };
        Some(format!("[{}{}{}]", here(1), here(2), here(3)))
    })
    .unwrap();
    assert_eq!(out, "[100][010]");
}

#[test]
fn padding_flags_are_cleared_in_place() {
    assert_eq!(
        clear_pad_mask("\tif (x) {\n\t\t\tvm_flags_clear(new_vma, VM_PAD_MASK);\n\t}\n"),
        "\tif (x) {\n                new_vma->vm_flags &= ~VM_PAD_MASK;\n\t}\n"
    );
    assert_eq!(clear_pad_mask("vm_flags_clear(vma, X);\n"), "vm_flags_clear(vma, X);\n");
}

#[test]
fn an_include_is_restored_once() {
    let line = "#include <linux/dma-buf.h>";
    assert_eq!(
        restore_include("// top\n#include <linux/fs.h>\n#include <linux/mm.h>\n", line),
        "// top\n#include <linux/fs.h>\n#include <linux/dma-buf.h>\n#include <linux/mm.h>\n"
    );
    let there = "#include <linux/dma-buf.h>\n";
    assert_eq!(restore_include(there, line), there);
    assert_eq!(restore_include("int x;\n", line), "int x;\n");
    // An include that does not end its line gets a line feed first.
    assert_eq!(
        restore_include("#include <a.h>", line),
        "#include <a.h>\n#include <linux/dma-buf.h>\n"
    );
}

#[test]
fn every_kind_of_edit_has_its_effect() {
    let s = "one\ntwo\n";
    let edit = |e: Edit| apply_edit(&e, s);
    assert_eq!(edit(Edit::After { needle: "one", line: "x" }), "one\nx\ntwo\n");
    assert_eq!(
        edit(Edit::AfterUnless { unless: "two", needle: "one", line: "x" }),
        s
    );
    assert_eq!(
        edit(Edit::AfterUnless { unless: "six", needle: "one", line: "x" }),
        "one\nx\ntwo\n"
    );
    assert_eq!(
        edit(Edit::BeforeUnless { unless: "six", needle: "two", line: "x" }),
        "one\nx\ntwo\n"
    );
    assert_eq!(
        edit(Edit::BeforeUnless { unless: "one", needle: "two", line: "x" }),
        s
    );
    assert_eq!(edit(Edit::Delete { line: "one" }), "two\n");
    assert_eq!(edit(Edit::Replace { from: "o", to: "0" }), "0ne\ntw0\n");
    assert_eq!(edit(Edit::Replace { from: "", to: "0" }), s);
    assert_eq!(edit(Edit::Append { line: "three" }), "one\ntwo\nthree\n");
    assert_eq!(edit(Edit::AppendMissing { line: "two" }), s);
    assert_eq!(edit(Edit::AppendMissing { line: "tw" }), "one\ntwo\ntw\n");
    assert_eq!(edit(Edit::Restore { line: "one" }), s);
    assert_eq!(edit(Edit::ThisLen), s);
    assert_eq!(edit(Edit::Fdinfo), s);
    assert_eq!(edit(Edit::LastVmaEnd), s);
    assert_eq!(edit(Edit::PadMask), s);
}
