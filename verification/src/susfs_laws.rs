//! What the edits around the SUSFS integration patch promise.
use crate::edits::{
    edit_if, edited, edits_made, fdinfo_shimmed, include_restored, this_len_widened,
    vma_end_remembered, Edit, FileEdit,
};
use crate::family::Family;
use crate::lines::{lemma_line_len_of, lemma_lines_of_sum};
use crate::sed::{deleted_exact, inserted_after, inserted_before, other_line};
use crate::sed_laws::{
    closed_at, ended_at, is_line_content, law_delete_is_idempotent,
    law_delete_undoes_insert_after, law_deleted_line_is_gone, law_deletions_commute,
    law_insert_after_undoes_delete, lemma_chomped_line, lemma_insert_after_brings_one_line,
    lemma_insert_after_keeps_end, lemma_no_line_with_end, no_line_is, stands_behind,
};
use crate::susfs::{fake_patches, needs_show_pad_fix, revert_patches};
use crate::text::{
    find_from, first_at, lemma_find_from, lemma_first_at, lines_of, occurs, occurs_at, replaced,
};
use crate::text_laws::{law_replace_back_restores, unbordered};
use crate::version::{sublevel_at_least, sublevel_at_most};
use vstd::prelude::*;

verus! {

/// A list of edits comes to its end exactly where every file that it names is there.
pub proof fn law_edits_need_their_files(
    dir: Seq<char>,
    list: Seq<FileEdit>,
    files: Map<Seq<char>, Seq<char>>,
)
    ensures
        edits_made(dir, list, files).1 is None <==> (forall|i: int|
            0 <= i < list.len() ==> files.dom().contains(#[trigger] list[i].path@)),
    decreases list.len(),
{
    if list.len() > 0 {
        let path = list[0].path@;
        if files.dom().contains(path) {
            let next = files.insert(path, edited(list[0].edit, files[path]));
            let rest = list.skip(1);
            law_edits_need_their_files(dir, rest, next);
            assert(next.dom() =~= files.dom());
            if forall|i: int| 0 <= i < list.len() ==> files.dom().contains(#[trigger] list[i].path@) {
                assert forall|i: int| 0 <= i < rest.len() implies next.dom().contains(
                    #[trigger] rest[i].path@,
                ) by {
                    assert(rest[i] == list[i + 1]);
                }
            }
            if forall|i: int| 0 <= i < rest.len() ==> next.dom().contains(#[trigger] rest[i].path@) {
                assert forall|i: int| 0 <= i < list.len() implies files.dom().contains(
                    #[trigger] list[i].path@,
                ) by {
                    if i > 0 {
                        assert(rest[i - 1] == list[i]);
                    }
                }
            }
        }
    }
}

/// A list of edits adds and removes no file, and leaves alone what it does not name.
pub proof fn law_edits_touch_only_their_files(
    dir: Seq<char>,
    list: Seq<FileEdit>,
    files: Map<Seq<char>, Seq<char>>,
    path: Seq<char>,
)
    requires
        forall|i: int| 0 <= i < list.len() ==> (#[trigger] list[i]).path@ != path,
    ensures
        edits_made(dir, list, files).0.dom() == files.dom(),
        edits_made(dir, list, files).0[path] == files[path],
    decreases list.len(),
{
    if list.len() > 0 {
        assert(list[0].path@ != path);
        let p = list[0].path@;
        if files.dom().contains(p) {
            let next = files.insert(p, edited(list[0].edit, files[p]));
            assert(next.dom() =~= files.dom());
            let rest = list.skip(1);
            assert forall|i: int| 0 <= i < rest.len() implies (#[trigger] rest[i]).path@
                != path by {
                assert(rest[i] == list[i + 1]);
            }
            law_edits_touch_only_their_files(dir, rest, next, path);
        }
    }
}

/// What a list with one more conditional edit holds.
proof fn lemma_edit_if_holds()
    ensures
        forall|a: Seq<FileEdit>, c: bool, p: &'static str, e: Edit, x: FileEdit| #[trigger]
            (a + edit_if(c, p, e)).contains(x) <==> a.contains(x) || (c && x == (FileEdit {
                path: p,
                edit: e,
            })),
{
    assert forall|a: Seq<FileEdit>, c: bool, p: &'static str, e: Edit, x: FileEdit| #[trigger]
        (a + edit_if(c, p, e)).contains(x) <==> a.contains(x) || (c && x == (FileEdit {
            path: p,
            edit: e,
        })) by {
        let b = a + edit_if(c, p, e);
        if a.contains(x) {
            let i = choose|i: int| 0 <= i < a.len() && a[i] == x;
            assert(b[i] == x);
        }
        if c && x == (FileEdit { path: p, edit: e }) {
            assert(b[a.len() as int] == x);
        }
        if b.contains(x) {
            let i = choose|i: int| 0 <= i < b.len() && b[i] == x;
            if i < a.len() {
                assert(a[i] == x);
            }
        }
    }
}

/// Every line that goes in before the integration patch is taken out of the same file
/// after it.
pub proof fn law_inserted_lines_are_taken_out(
    f: Family,
    s: Seq<char>,
    level: Seq<char>,
    path: &'static str,
    needle: &'static str,
    line: &'static str,
)
    requires
        fake_patches(f, s, level).contains(FileEdit { path, edit: Edit::After { needle, line } }),
    ensures
        revert_patches(f, s, level).contains(FileEdit { path, edit: Edit::Delete { line } }),
{
    lemma_edit_if_holds();
    assert(!Seq::<FileEdit>::empty().contains(
        FileEdit { path, edit: Edit::After { needle, line } },
    ));
}

/// `list` puts `line` into the file at `path`.
pub open spec fn puts_in(list: Seq<FileEdit>, path: &'static str, line: &'static str) -> bool {
    ||| list.contains(FileEdit { path, edit: Edit::Restore { line } })
    ||| exists|needle: &'static str| #[trigger]
        list.contains(FileEdit { path, edit: Edit::After { needle, line } })
}

/// Every line that is taken out before the integration patch goes into the same file
/// after it.
pub proof fn law_deleted_lines_are_put_in(
    f: Family,
    s: Seq<char>,
    level: Seq<char>,
    path: &'static str,
    line: &'static str,
)
    requires
        fake_patches(f, s, level).contains(FileEdit { path, edit: Edit::Delete { line } }),
    ensures
        puts_in(revert_patches(f, s, level), path, line),
{
    lemma_edit_if_holds();
    let list = revert_patches(f, s, level);
    assert(!Seq::<FileEdit>::empty().contains(FileEdit { path, edit: Edit::Delete { line } }));
    if f == Family::Android16_6_12 {
        assert(list.contains(FileEdit { path, edit: Edit::Restore { line } }));
    } else if path == "fs/proc/task_mmu.c" {
        assert(list.contains(
            FileEdit { path, edit: Edit::After { needle: "#include <linux/pkeys.h>", line } },
        ));
    } else {
        assert(list.contains(
            FileEdit { path, edit: Edit::After { needle: "#include \"internal.h\"", line } },
        ));
    }
}

/// The first include of a text is its last line and lacks its line feed.
pub open spec fn include_is_open(s: Seq<char>) -> bool {
    first_at(s, "#include "@) matches Some(i) && find_from(s, "\n"@, i) is None
}

/// Taking out what a restored include added gives the text back. A last line that the
/// include was put behind keeps the line feed that it got.
pub proof fn law_delete_undoes_restore(s: Seq<char>, line: Seq<char>)
    requires
        is_line_content(line),
        no_line_is(s, line),
    ensures
        deleted_exact(include_restored(s, line), line) == (if !occurs(s, line) && include_is_open(
            s,
        ) {
            s.push('\n')
        } else {
            s
        }),
{
    reveal_strlit("\n");
    law_delete_is_idempotent(s, line);
    lemma_first_at(s, "#include "@);
    if !occurs(s, line) && first_at(s, "#include "@) is Some {
        let i = first_at(s, "#include "@).unwrap();
        lemma_find_from(s, "\n"@, i);
        let l = line.push('\n');
        assert(line + "\n"@ =~= l);
        match find_from(s, "\n"@, i) {
            Some(e) => {
                let (a, b) = (s.take(e + 1), s.skip(e + 1));
                assert(s.subrange(e, e + 1)[0] == '\n');
                assert(a.last() == '\n');
                assert(a + b =~= s);
                assert(include_restored(s, line) =~= (a + l) + b);
                lemma_line_between(a, line, b);
            },
            None => {
                let a = s.push('\n');
                let b = Seq::<char>::empty();
                reveal_strlit("#include ");
                assert(s.len() > 0);
                if s.last() == '\n' {
                    let k = s.len() - 1;
                    assert(s.subrange(k, k + 1) =~= "\n"@);
                    assert(occurs_at(s, "\n"@, k));
                }
                lemma_no_line_with_end(s, line);
                assert(a + b =~= a);
                assert(include_restored(s, line) =~= (a + l) + b);
                lemma_line_between(a, line, b);
            },
        }
    }
}

/// Taking out a line that was put between two stretches of a text that lacks it.
proof fn lemma_line_between(a: Seq<char>, line: Seq<char>, b: Seq<char>)
    requires
        is_line_content(line),
        a.len() > 0,
        a.last() == '\n',
        no_line_is(a + b, line),
    ensures
        deleted_exact((a + line.push('\n')) + b, line) == a + b,
{
    let l = line.push('\n');
    let s = a + b;
    law_delete_is_idempotent(s, line);
    lemma_chomped_line(line);
    lemma_lines_of_sum(a, b);
    assert((a + l).last() == '\n');
    lemma_lines_of_sum(a + l, b);
    lemma_lines_of_sum(a, l);
    lemma_one_line(line);
    let out = (a + l) + b;
    let keep = other_line(line);
    let (la, lb) = (lines_of(a), lines_of(b));
    assert(lines_of(out) == la + seq![l] + lb);
    assert(lines_of(s) == la + lb);
    Seq::filter_distributes_over_add(la + seq![l], lb, keep);
    Seq::filter_distributes_over_add(la, seq![l], keep);
    Seq::filter_distributes_over_add(la, lb, keep);
    assert(!keep(l));
    assert(seq![l].filter(keep) =~= Seq::<Seq<char>>::empty()) by {
        reveal_with_fuel(Seq::filter, 2);
        assert(seq![l].drop_last() =~= Seq::<Seq<char>>::empty());
        assert(seq![l].last() == l);
    }
    assert(la.filter(keep) + Seq::<Seq<char>>::empty() =~= la.filter(keep));
    assert(lines_of(out).filter(keep) == lines_of(s).filter(keep));
}

/// One line alone.
proof fn lemma_one_line(line: Seq<char>)
    requires
        is_line_content(line),
    ensures
        lines_of(line.push('\n')) == seq![line.push('\n')],
{
    lemma_chomped_line(line);
    let l = line.push('\n');
    lemma_line_len_of(l, Seq::empty());
    assert(l + Seq::<char>::empty() =~= l);
    assert(l.take(l.len() as int) =~= l);
    assert(l.skip(l.len() as int) =~= Seq::<char>::empty());
    assert(lines_of(Seq::<char>::empty()) =~= Seq::<Seq<char>>::empty());
    assert(seq![l] + Seq::<Seq<char>>::empty() =~= seq![l]);
}

proof fn lemma_vma_pages_unbordered()
    ensures
        unbordered("vma_pages"@),
        "vma_pages"@.len() > 0,
        "vma_data_pages"@.len() > 0,
{
    reveal_strlit("vma_pages");
    reveal_strlit("vma_data_pages");
    let b = "vma_pages"@;
    assert forall|k: int| 0 < k < b.len() implies b.skip(k) != #[trigger] b.take(b.len() - k) by {
        assert(b.skip(k).last() == b[8]);
        assert(b.take(9 - k).last() == b[8 - k]);
        assert(k == 1 || k == 2 || k == 3 || k == 4 || k == 5 || k == 6 || k == 7 || k == 8);
    }
}

/// What a list of edits makes of the file at `path`.
pub open spec fn file_after(list: Seq<FileEdit>, path: Seq<char>, text: Seq<char>) -> Seq<char>
    decreases list.len(),
{
    if list.len() == 0 {
        text
    } else {
        file_after(
            list.skip(1),
            path,
            if list[0].path@ == path {
                edited(list[0].edit, text)
            } else {
                text
            },
        )
    }
}

/// Every file that the list names is there.
pub open spec fn files_there(list: Seq<FileEdit>, files: Map<Seq<char>, Seq<char>>) -> bool {
    forall|i: int| 0 <= i < list.len() ==> files.dom().contains(#[trigger] list[i].path@)
}

/// A list of edits whose files are all there goes file by file.
pub proof fn law_edits_go_file_by_file(
    dir: Seq<char>,
    list: Seq<FileEdit>,
    files: Map<Seq<char>, Seq<char>>,
)
    requires
        files_there(list, files),
    ensures
        edits_made(dir, list, files).1 is None,
        edits_made(dir, list, files).0 == Map::new(
            |p: Seq<char>| files.dom().contains(p),
            |p: Seq<char>| file_after(list, p, files[p]),
        ),
    decreases list.len(),
{
    if list.len() > 0 {
        let path = list[0].path@;
        let next = files.insert(path, edited(list[0].edit, files[path]));
        let rest = list.skip(1);
        assert(next.dom() =~= files.dom());
        assert forall|i: int| 0 <= i < rest.len() implies next.dom().contains(
            #[trigger] rest[i].path@,
        ) by {
            assert(rest[i] == list[i + 1]);
        }
        law_edits_go_file_by_file(dir, rest, next);
    }
    assert(edits_made(dir, list, files).0 =~= Map::new(
        |p: Seq<char>| files.dom().contains(p),
        |p: Seq<char>| file_after(list, p, files[p]),
    ));
}

/// A list behind another is made on what the other left.
proof fn lemma_file_after_sum(
    a: Seq<FileEdit>,
    b: Seq<FileEdit>,
    path: Seq<char>,
    text: Seq<char>,
)
    ensures
        file_after(a + b, path, text) == file_after(b, path, file_after(a, path, text)),
    decreases a.len(),
{
    if a.len() == 0 {
        assert(a + b =~= b);
    } else {
        let next = if a[0].path@ == path {
            edited(a[0].edit, text)
        } else {
            text
        };
        assert((a + b)[0] == a[0]);
        assert((a + b).skip(1) =~= a.skip(1) + b);
        lemma_file_after_sum(a.skip(1), b, path, next);
    }
}

/// What one more conditional edit makes of a file.
pub proof fn lemma_file_after_edit_if()
    ensures
        forall|a: Seq<FileEdit>, c: bool, p: &'static str, e: Edit, path: Seq<char>, t: Seq<char>|
            #[trigger]
            file_after(a + edit_if(c, p, e), path, t) == (if c && p@ == path {
                edited(e, file_after(a, path, t))
            } else {
                file_after(a, path, t)
            }),
{
    assert forall|a: Seq<FileEdit>, c: bool, p: &'static str, e: Edit, path: Seq<char>, t: Seq<char>|
        #[trigger]
        file_after(a + edit_if(c, p, e), path, t) == (if c && p@ == path {
            edited(e, file_after(a, path, t))
        } else {
            file_after(a, path, t)
        }) by {
        let b = edit_if(c, p, e);
        lemma_file_after_sum(a, b, path, t);
        reveal_with_fuel(file_after, 2);
        if c {
            assert(b.skip(1) =~= Seq::<FileEdit>::empty());
        }
    }
}

/// What the fake patches and then the edits that take them back make of the file at
/// `path`.
pub open spec fn there_and_back(
    f: Family,
    s: Seq<char>,
    level: Seq<char>,
    path: Seq<char>,
    text: Seq<char>,
) -> Seq<char> {
    file_after(
        revert_patches(f, s, level),
        path,
        file_after(fake_patches(f, s, level), path, text),
    )
}

/// Where every file is there, making the fake patches and taking them back succeeds, and
/// goes file by file.
pub proof fn law_fake_patches_go_there_and_back(
    dir: Seq<char>,
    f: Family,
    s: Seq<char>,
    level: Seq<char>,
    files: Map<Seq<char>, Seq<char>>,
)
    requires
        files_there(fake_patches(f, s, level), files),
        files_there(revert_patches(f, s, level), files),
    ensures
        ({
            let (mid, e) = edits_made(dir, fake_patches(f, s, level), files);
            let (end, e2) = edits_made(dir, revert_patches(f, s, level), mid);
            &&& e is None
            &&& e2 is None
            &&& end == Map::new(
                |p: Seq<char>| files.dom().contains(p),
                |p: Seq<char>| there_and_back(f, s, level, p, files[p]),
            )
        }),
{
    law_edits_go_file_by_file(dir, fake_patches(f, s, level), files);
    let mid = edits_made(dir, fake_patches(f, s, level), files).0;
    assert(mid.dom() =~= files.dom());
    law_edits_go_file_by_file(dir, revert_patches(f, s, level), mid);
    assert(edits_made(dir, revert_patches(f, s, level), mid).0 =~= Map::new(
        |p: Seq<char>| files.dom().contains(p),
        |p: Seq<char>| there_and_back(f, s, level, p, files[p]),
    ));
}

/// No two of the files that the edits name have the same path.
pub proof fn lemma_paths_differ()
    ensures
        "fs/proc/base.c"@ != "fs/proc/task_mmu.c"@,
        "fs/proc/base.c"@ != "fs/namespace.c"@,
        "fs/proc/base.c"@ != "fs/notify/fdinfo.c"@,
        "fs/proc/base.c"@ != "mm/memory.c"@,
        "fs/proc/task_mmu.c"@ != "fs/namespace.c"@,
        "fs/proc/task_mmu.c"@ != "fs/notify/fdinfo.c"@,
        "fs/proc/task_mmu.c"@ != "mm/memory.c"@,
        "fs/proc/task_mmu.c"@ != "fs/open.c"@,
        "fs/proc/task_mmu.c"@ != "fs/susfs.c"@,
        "fs/proc/task_mmu.c"@ != "fs/exec.c"@,
        "fs/namespace.c"@ != "fs/open.c"@,
        "fs/namespace.c"@ != "fs/susfs.c"@,
        "fs/namespace.c"@ != "fs/notify/fdinfo.c"@,
        "fs/open.c"@ != "fs/susfs.c"@,
        "fs/open.c"@ != "fs/notify/fdinfo.c"@,
        "fs/susfs.c"@ != "fs/notify/fdinfo.c"@,
{
    reveal_strlit("fs/proc/base.c");
    reveal_strlit("fs/proc/task_mmu.c");
    reveal_strlit("fs/namespace.c");
    reveal_strlit("fs/notify/fdinfo.c");
    reveal_strlit("mm/memory.c");
    reveal_strlit("fs/open.c");
    reveal_strlit("fs/susfs.c");
    reveal_strlit("fs/exec.c");
    assert("fs/proc/base.c"@.len() == 14 && "fs/proc/task_mmu.c"@.len() == 18);
    assert("fs/namespace.c"@.len() == 14 && "fs/notify/fdinfo.c"@.len() == 18);
    assert("fs/open.c"@.len() == 9 && "fs/susfs.c"@.len() == 10 && "mm/memory.c"@.len() == 11);
    assert("fs/proc/base.c"@[3] != "fs/namespace.c"@[3]);
    assert("fs/proc/task_mmu.c"@[3] != "fs/notify/fdinfo.c"@[3]);
}

/// On 6.12 the fake patches leave no line that includes `dma-buf.h` in `fs/exec.c`, and
/// taking them back restores one such include where there is any include. Every other file is restored, but for a `fs/proc/task_mmu.c` that called `vma_pages`
/// to begin with.
pub proof fn law_fake_patches_round_trip_on_6_12(
    s: Seq<char>,
    level: Seq<char>,
    path: Seq<char>,
    text: Seq<char>,
)
    requires
        path == "fs/proc/task_mmu.c"@ && sublevel_at_least(s, 69) ==> !occurs(text, "vma_pages"@),
    ensures
        ({
            let f = Family::Android16_6_12;
            let mid = file_after(fake_patches(f, s, level), path, text);
            let end = there_and_back(f, s, level, path, text);
            let dma_buf = "#include <linux/dma-buf.h>"@;
            if path == "fs/exec.c"@ && sublevel_at_least(s, 58) {
                &&& no_line_is(mid, dma_buf)
                &&& end == include_restored(mid, dma_buf)
                &&& deleted_exact(end, dma_buf) == (if !occurs(mid, dma_buf) && include_is_open(
                    mid,
                ) {
                    mid.push('\n')
                } else {
                    mid
                })
                &&& occurs(mid, "#include "@) ==> occurs(end, dma_buf)
            } else {
                end == text
            }
        }),
{
    let f = Family::Android16_6_12;
    let dma_buf = "#include <linux/dma-buf.h>"@;
    lemma_paths_differ();
    lemma_file_after_edit_if();
    assert(sublevel_at_least(s, 69) ==> sublevel_at_least(s, 58));
    if path == "fs/proc/task_mmu.c"@ && sublevel_at_least(s, 69) {
        lemma_vma_pages_unbordered();
        law_replace_back_restores(text, "vma_data_pages"@, "vma_pages"@);
    }
    if path == "fs/exec.c"@ && sublevel_at_least(s, 58) {
        let mid = file_after(fake_patches(f, s, level), path, text);
        law_deleted_line_is_gone(text, dma_buf);
        assert(mid == deleted_exact(text, dma_buf));
        reveal_strlit("#include <linux/dma-buf.h>");
        assert(is_line_content(dma_buf));
        law_delete_undoes_restore(mid, dma_buf);
        lemma_first_at(mid, "#include "@);
        if occurs(mid, "#include "@) && !occurs(mid, dma_buf) {
            let i = first_at(mid, "#include "@).unwrap();
            reveal_strlit("\n");
            lemma_find_from(mid, "\n"@, i);
            let at = match find_from(mid, "\n"@, i) {
                Some(e) => e + 1,
                None => mid.len() as int + 1,
            };
            let out = include_restored(mid, dma_buf);
            assert(out.subrange(at, at + dma_buf.len()) =~= dma_buf);
            assert(occurs_at(out, dma_buf, at));
        }
    }
}

/// What stays of the fake patches in `fs/proc/task_mmu.c` on 6.6 up to sublevel 30.
pub open spec fn mappings_fixed(level: Seq<char>, text: Seq<char>) -> Seq<char> {
    let t = vma_end_remembered(text);
    if level == "2024-07"@ && !occurs(t, "__fold_filemap_fixup_entry"@) {
        inserted_before(
            t,
            "#include <asm/elf.h>"@,
            "#ifndef __fold_filemap_fixup_entry\nstatic inline void __fold_filemap_fixup_entry(struct vma_iterator *iter, unsigned long *end) { }\n#endif /* __fold_filemap_fixup_entry */"@,
        )
    } else {
        t
    }
}

/// On 6.6, taking the fake patches back restores every file that did not hold the
/// inserted include before, but for a line feed that a last line got when a line was put
/// behind it, and for what stays in `fs/proc/task_mmu.c` up to sublevel 30.
pub proof fn law_fake_patches_round_trip_on_6_6(
    s: Seq<char>,
    level: Seq<char>,
    path: Seq<char>,
    text: Seq<char>,
)
    requires
        path == "fs/proc/base.c"@ && sublevel_at_most(s, 92) ==> no_line_is(
            text,
            "#include <linux/dma-buf.h>"@,
        ),
        path == "mm/memory.c"@ && sublevel_at_most(s, 57) ==> no_line_is(
            text,
            "#include <linux/zswap.h>"@,
        ),
    ensures
        there_and_back(Family::Android15_6_6, s, level, path, text) == (if path
            == "fs/proc/base.c"@ && sublevel_at_most(s, 92) {
            ended_at(text, "#include <linux/cpufreq_times.h>"@)
        } else if path == "mm/memory.c"@ && sublevel_at_most(s, 57) {
            ended_at(text, "#include <linux/sched/sysctl.h>"@)
        } else if path == "fs/proc/task_mmu.c"@ && sublevel_at_most(s, 30) {
            mappings_fixed(level, text)
        } else {
            text
        }),
{
    lemma_paths_differ();
    lemma_file_after_edit_if();
    reveal_strlit("#include <linux/dma-buf.h>");
    reveal_strlit("#include <linux/zswap.h>");
    if path == "fs/proc/base.c"@ && sublevel_at_most(s, 92) {
        law_delete_undoes_insert_after(
            text,
            "#include <linux/cpufreq_times.h>"@,
            "#include <linux/dma-buf.h>"@,
        );
    }
    if path == "mm/memory.c"@ && sublevel_at_most(s, 57) {
        law_delete_undoes_insert_after(
            text,
            "#include <linux/sched/sysctl.h>"@,
            "#include <linux/zswap.h>"@,
        );
    }
}

/// `text` with the fix for `show_pad`, where a tree needs it.
pub open spec fn show_pad_fixed(
    f: Family,
    s: Seq<char>,
    level: Seq<char>,
    text: Seq<char>,
) -> Seq<char> {
    if needs_show_pad_fix(f, s, level) {
        replaced(text, "goto show_pad;"@, "return 0;"@)
    } else {
        text
    }
}

/// Two lines that are put in one after the other and taken out in the same order.
proof fn lemma_two_lines_back(
    text: Seq<char>,
    n1: Seq<char>,
    x1: Seq<char>,
    n2: Seq<char>,
    x2: Seq<char>,
)
    requires
        is_line_content(n1),
        is_line_content(x1),
        is_line_content(x2),
        x1 != x2,
        no_line_is(text, x1),
        no_line_is(text, x2),
    ensures
        deleted_exact(
            deleted_exact(inserted_after(inserted_after(text, n1, x1), n2, x2), x1),
            x2,
        ) == ended_at(ended_at(text, n1), n2),
{
    let one = inserted_after(text, n1, x1);
    let two = inserted_after(one, n2, x2);
    lemma_insert_after_brings_one_line(text, n1, x1, x2);
    law_delete_undoes_insert_after(text, n1, x1);
    law_delete_undoes_insert_after(one, n2, x2);
    law_deletions_commute(two, x1, x2);
    lemma_insert_after_keeps_end(text, n1, x1, n2);
    if !closed_at(one, n2) {
        lemma_no_line_with_end(text, x1);
        law_delete_undoes_insert_after(text.push('\n'), n1, x1);
    }
}

/// On 6.1, taking the fake patches back restores every file that did not hold an inserted
/// include before, or held the deleted one just behind those of `internal.h`. What stays
/// is a line feed that a last line got when a line was put behind it, and the fix for
/// `show_pad`.
pub proof fn law_fake_patches_round_trip_on_6_1(
    s: Seq<char>,
    level: Seq<char>,
    path: Seq<char>,
    text: Seq<char>,
)
    requires
        path == "fs/proc/base.c"@ && sublevel_at_most(s, 141) ==> no_line_is(
            text,
            "#include <linux/dma-buf.h>"@,
        ),
        path == "fs/proc/base.c"@ && sublevel_at_most(s, 25) ==> no_line_is(
            text,
            "#include <trace/hooks/sched.h>"@,
        ),
        path == "fs/namespace.c"@ && sublevel_at_least(s, 157) ==> stands_behind(
            lines_of(text),
            "#include \"internal.h\""@,
            "#include <trace/hooks/blk.h>"@,
        ),
    ensures
        there_and_back(Family::Android14_6_1, s, level, path, text) == (if path
            == "fs/proc/base.c"@ && sublevel_at_most(s, 25) {
            ended_at(
                ended_at(text, "#include <trace/events/oom.h>"@),
                "#include <linux/cpufreq_times.h>"@,
            )
        } else if path == "fs/proc/base.c"@ && sublevel_at_most(s, 141) {
            ended_at(text, "#include <linux/cpufreq_times.h>"@)
        } else if path == "fs/proc/task_mmu.c"@ {
            show_pad_fixed(Family::Android14_6_1, s, level, text)
        } else {
            text
        }),
{
    lemma_paths_differ();
    lemma_file_after_edit_if();
    let (oom, sched) = ("#include <trace/events/oom.h>"@, "#include <trace/hooks/sched.h>"@);
    let (cpu, dma) = ("#include <linux/cpufreq_times.h>"@, "#include <linux/dma-buf.h>"@);
    reveal_strlit("#include <trace/events/oom.h>");
    reveal_strlit("#include <trace/hooks/sched.h>");
    reveal_strlit("#include <linux/dma-buf.h>");
    assert(sched.len() != dma.len());
    if path == "fs/proc/base.c"@ && sublevel_at_most(s, 25) {
        lemma_two_lines_back(text, oom, sched, cpu, dma);
    } else if path == "fs/proc/base.c"@ && sublevel_at_most(s, 141) {
        law_delete_undoes_insert_after(text, cpu, dma);
    }
    if path == "fs/namespace.c"@ && sublevel_at_least(s, 157) {
        lemma_block_hooks_back(text);
    }
}

/// The include of the block hooks goes in again where it went out.
proof fn lemma_block_hooks_back(text: Seq<char>)
    requires
        stands_behind(
            lines_of(text),
            "#include \"internal.h\""@,
            "#include <trace/hooks/blk.h>"@,
        ),
    ensures
        inserted_after(
            deleted_exact(text, "#include <trace/hooks/blk.h>"@),
            "#include \"internal.h\""@,
            "#include <trace/hooks/blk.h>"@,
        ) == text,
{
    reveal_strlit("#include \"internal.h\"");
    reveal_strlit("#include <trace/hooks/blk.h>");
    let (n, x) = ("#include \"internal.h\""@, "#include <trace/hooks/blk.h>"@);
    lemma_char_is_missing(x.push('\n'), n, 9);
    law_insert_after_undoes_delete(text, n, x);
}

/// A text that lacks a character of another one does not contain it.
pub proof fn lemma_char_is_missing(s: Seq<char>, n: Seq<char>, k: int)
    requires
        0 <= k < n.len(),
        forall|i: int| 0 <= i < s.len() ==> s[i] != n[k],
    ensures
        !occurs(s, n),
{
    if occurs(s, n) {
        let i = choose|i: int| occurs_at(s, n, i);
        assert(s.subrange(i, i + n.len())[k] == s[i + k]);
    }
}

/// `text` with the owner of an inode looked up in the initial user namespace.
pub open spec fn owner_lookup_fixed(text: Seq<char>) -> Seq<char> {
    replaced(
        replaced(
            text,
            "i_uid_into_mnt(i_user_ns(&fi->inode), &fi->inode).val"@,
            "i_uid_into_mnt(&init_user_ns, &fi->inode).val"@,
        ),
        "i_uid_into_mnt(i_user_ns(inode), inode).val"@,
        "i_uid_into_mnt(&init_user_ns, inode).val"@,
    )
}

/// On android13-5.15, taking the fake patches back restores every file that did not hold
/// an inserted include before, or held the deleted one just behind the line that it goes
/// back to. What stays is a line feed that a last line got when a line was put behind it,
/// the helper in `fs/notify/fdinfo.c` and the lookup of owners in `fs/susfs.c` up to
/// sublevel 41, and the fix for `show_pad`.
pub proof fn law_fake_patches_round_trip_on_5_15(
    s: Seq<char>,
    level: Seq<char>,
    path: Seq<char>,
    text: Seq<char>,
)
    requires
        (path == "fs/namespace.c"@ || path == "fs/open.c"@) && sublevel_at_most(s, 41)
            ==> no_line_is(text, "#include <linux/mnt_idmapping.h>"@),
        path == "fs/namespace.c"@ && sublevel_at_least(s, 197) ==> stands_behind(
            lines_of(text),
            "#include \"internal.h\""@,
            "#include <trace/hooks/blk.h>"@,
        ),
        path == "fs/proc/task_mmu.c"@ && sublevel_at_least(s, 197) ==> stands_behind(
            lines_of(text),
            "#include <linux/pkeys.h>"@,
            "#include <trace/hooks/mm.h>"@,
        ),
    ensures
        there_and_back(Family::Android13_5_15, s, level, path, text) == (if path
            == "fs/namespace.c"@ && sublevel_at_most(s, 41) {
            ended_at(text, "#include <linux/shmem_fs.h>"@)
        } else if path == "fs/open.c"@ && sublevel_at_most(s, 41) {
            ended_at(text, "#include <linux/compat.h>"@)
        } else if path == "fs/notify/fdinfo.c"@ && sublevel_at_most(s, 41) {
            fdinfo_shimmed(text)
        } else if path == "fs/susfs.c"@ && sublevel_at_most(s, 41) {
            owner_lookup_fixed(text)
        } else if path == "fs/proc/task_mmu.c"@ {
            show_pad_fixed(Family::Android13_5_15, s, level, text)
        } else {
            text
        }),
{
    lemma_paths_differ();
    lemma_file_after_edit_if();
    reveal_strlit("#include <linux/mnt_idmapping.h>");
    let idmapping = "#include <linux/mnt_idmapping.h>"@;
    if path == "fs/namespace.c"@ && sublevel_at_most(s, 41) {
        law_delete_undoes_insert_after(text, "#include <linux/shmem_fs.h>"@, idmapping);
    }
    if path == "fs/open.c"@ && sublevel_at_most(s, 41) {
        law_delete_undoes_insert_after(text, "#include <linux/compat.h>"@, idmapping);
    }
    if path == "fs/namespace.c"@ && sublevel_at_least(s, 197) {
        lemma_block_hooks_back(text);
    }
    if path == "fs/proc/task_mmu.c"@ && sublevel_at_least(s, 197) {
        reveal_strlit("#include <linux/pkeys.h>");
        reveal_strlit("#include <trace/hooks/mm.h>");
        let (n, x) = ("#include <linux/pkeys.h>"@, "#include <trace/hooks/mm.h>"@);
        lemma_char_is_missing(x.push('\n'), n, 16);
        law_insert_after_undoes_delete(text, n, x);
    }
}

/// On 5.10 and on android14-5.15, taking the fake patches back restores every file but
/// these: what stays is the helper in `fs/notify/fdinfo.c`, what the exchange of types
/// there and back makes of `this_len` in `fs/proc/base.c`, and the fix for `show_pad`.
pub proof fn law_fake_patches_round_trip_on_5_10(
    f: Family,
    s: Seq<char>,
    level: Seq<char>,
    path: Seq<char>,
    text: Seq<char>,
)
    requires
        f == Family::Android12_5_10 || f == Family::Android13_5_10 || f == Family::Android14_5_15,
    ensures
        there_and_back(f, s, level, path, text) == (if path == "fs/proc/base.c"@ && f
            == Family::Android12_5_10 && sublevel_at_most(s, 43) {
            replaced(
                this_len_widened(text),
                "size_t this_len = min_t(size_t, count, PAGE_SIZE);"@,
                "int this_len = min_t(int, count, PAGE_SIZE);"@,
            )
        } else if path == "fs/notify/fdinfo.c"@ && ((f == Family::Android12_5_10
            && sublevel_at_most(s, 117)) || (f == Family::Android13_5_10 && sublevel_at_most(
            s,
            107,
        ))) {
            fdinfo_shimmed(text)
        } else if path == "fs/proc/task_mmu.c"@ {
            show_pad_fixed(f, s, level, text)
        } else {
            text
        }),
{
    lemma_paths_differ();
    lemma_file_after_edit_if();
}

} // verus!
