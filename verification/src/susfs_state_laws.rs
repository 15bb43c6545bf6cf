//! What stands in the tree between the edits around the SUSFS integration patch, and what
//! stands in it after them.
use crate::edits::{fdinfo_shimmed, include_restored, this_len_widened, vma_end_remembered};
use crate::family::Family;
use crate::sed::{
    deleted_exact, inserted_after, inserted_before, line_after, other_line, terminated,
};
use crate::sed_laws::{
    closed_at, ended_at, is_followed, is_line_content, law_delete_is_idempotent,
    law_delete_undoes_insert_after, law_deleted_line_is_gone, law_deletions_commute,
    law_insert_needs_the_needle, law_inserted_line_follows, lemma_followed_with_end,
    lemma_has_in_joined, lemma_insert_after_brings_one_line, lemma_stands_in_a_line, no_line_is,
};
use crate::susfs::{fake_patches, needs_show_pad_fix, revert_patches};
use crate::susfs_laws::{
    file_after, law_delete_undoes_restore, lemma_char_is_missing, lemma_file_after_edit_if, lemma_paths_differ,
};
use crate::text::{
    chomped, find_from, first_at, lemma_find_from, lemma_first_at, lines_of, occurs, occurs_at,
    replaced,
};
use crate::text_laws::{
    law_replace_needs_the_pattern, law_replaced_text_is_gone, law_replacement_brings_nothing_else,
    law_replacement_is_there, lemma_apart_by_a_mark, lemma_apart_by_their_fronts, stand_apart,
};
use crate::version::{sublevel_at_least, sublevel_at_most};
use vstd::prelude::*;

verus! {

/// `after` has the line `x` behind every line with `needle`, and no other difference where
/// `before` had no line `x`, but for a line feed of the last line.
pub open spec fn is_put_behind(
    before: Seq<char>,
    after: Seq<char>,
    needle: Seq<char>,
    x: Seq<char>,
) -> bool {
    &&& is_followed(after, needle, x)
    &&& no_line_is(before, x) ==> deleted_exact(after, x) == ended_at(before, needle)
}

/// `after` has the lines of `before` but for the lines `x`.
pub open spec fn is_taken_out(before: Seq<char>, after: Seq<char>, x: Seq<char>) -> bool {
    &&& no_line_is(after, x)
    &&& lines_of(after) == lines_of(before).filter(|l: Seq<char>| chomped(l) != x)
}

/// `after` has `to` in place of `from`: no `from` is left, a `to` is there if a `from` was,
/// and nothing is changed otherwise.
pub open spec fn is_exchanged(
    before: Seq<char>,
    after: Seq<char>,
    from: Seq<char>,
    to: Seq<char>,
) -> bool {
    &&& !occurs(after, from)
    &&& occurs(before, from) ==> occurs(after, to)
    &&& !occurs(before, from) ==> after == before
}

proof fn lemma_exchanged(text: Seq<char>, from: Seq<char>, to: Seq<char>)
    requires
        stand_apart(from, to),
    ensures
        is_exchanged(text, replaced(text, from, to), from, to),
{
    law_replaced_text_is_gone(text, from, to);
    if occurs(text, from) {
        law_replacement_is_there(text, from, to);
    } else {
        law_replace_needs_the_pattern(text, from, to);
    }
}

proof fn lemma_put_behind(text: Seq<char>, needle: Seq<char>, x: Seq<char>)
    requires
        is_line_content(x),
        !occurs(x.push('\n'), needle),
    ensures
        is_put_behind(text, inserted_after(text, needle, x), needle, x),
{
    law_inserted_line_follows(text, needle, x);
    if no_line_is(text, x) {
        law_delete_undoes_insert_after(text, needle, x);
    }
}

proof fn lemma_taken_out(text: Seq<char>, x: Seq<char>)
    ensures
        is_taken_out(text, deleted_exact(text, x), x),
{
    law_deleted_line_is_gone(text, x);
    assert(other_line(x) =~= (|l: Seq<char>| chomped(l) != x));
}

/// Two lines that are taken out one after the other.
proof fn lemma_two_taken_out(text: Seq<char>, x: Seq<char>, y: Seq<char>)
    ensures
        ({
            let end = deleted_exact(deleted_exact(text, x), y);
            &&& no_line_is(end, x)
            &&& no_line_is(end, y)
            &&& no_line_is(text, x) ==> is_taken_out(text, end, y)
            &&& no_line_is(text, y) ==> is_taken_out(text, end, x)
        }),
{
    lemma_taken_out(deleted_exact(text, x), y);
    lemma_taken_out(deleted_exact(text, y), x);
    law_deletions_commute(text, x, y);
    law_delete_is_idempotent(text, x);
    law_delete_is_idempotent(text, y);
}

/// The lines that go in do not contain what they go in behind.
proof fn lemma_needles_differ()
    ensures
        is_line_content("#include <linux/mnt_idmapping.h>"@),
        is_line_content("#include <trace/hooks/sched.h>"@),
        is_line_content("#include <linux/dma-buf.h>"@),
        is_line_content("#include <linux/zswap.h>"@),
        is_line_content("#include <trace/hooks/blk.h>"@),
        is_line_content("#include <trace/hooks/mm.h>"@),
        is_line_content("#include <trace/events/oom.h>"@),
        !occurs("#include <linux/mnt_idmapping.h>"@.push('\n'), "#include <linux/shmem_fs.h>"@),
        !occurs("#include <linux/mnt_idmapping.h>"@.push('\n'), "#include <linux/compat.h>"@),
        !occurs("#include <trace/hooks/sched.h>"@.push('\n'), "#include <trace/events/oom.h>"@),
        !occurs("#include <linux/dma-buf.h>"@.push('\n'), "#include <linux/cpufreq_times.h>"@),
        !occurs("#include <linux/zswap.h>"@.push('\n'), "#include <linux/sched/sysctl.h>"@),
        !occurs("#include <trace/hooks/blk.h>"@.push('\n'), "#include \"internal.h\""@),
        !occurs("#include <trace/hooks/mm.h>"@.push('\n'), "#include <linux/pkeys.h>"@),
        "#include <trace/hooks/sched.h>"@ != "#include <linux/dma-buf.h>"@,
{
    reveal_strlit("#include <linux/mnt_idmapping.h>");
    reveal_strlit("#include <trace/hooks/sched.h>");
    reveal_strlit("#include <linux/dma-buf.h>");
    reveal_strlit("#include <linux/zswap.h>");
    reveal_strlit("#include <trace/hooks/blk.h>");
    reveal_strlit("#include <trace/hooks/mm.h>");
    reveal_strlit("#include <linux/shmem_fs.h>");
    reveal_strlit("#include <linux/compat.h>");
    reveal_strlit("#include <trace/events/oom.h>");
    reveal_strlit("#include <linux/cpufreq_times.h>");
    reveal_strlit("#include <linux/sched/sysctl.h>");
    reveal_strlit("#include \"internal.h\"");
    reveal_strlit("#include <linux/pkeys.h>");
    lemma_char_is_missing(
        "#include <linux/mnt_idmapping.h>"@.push('\n'),
        "#include <linux/shmem_fs.h>"@,
        16,
    );
    lemma_char_is_missing(
        "#include <linux/mnt_idmapping.h>"@.push('\n'),
        "#include <linux/compat.h>"@,
        17,
    );
    lemma_char_is_missing(
        "#include <trace/hooks/sched.h>"@.push('\n'),
        "#include <trace/events/oom.h>"@,
        17,
    );
    lemma_char_is_missing(
        "#include <linux/dma-buf.h>"@.push('\n'),
        "#include <linux/cpufreq_times.h>"@,
        17,
    );
    lemma_char_is_missing(
        "#include <linux/zswap.h>"@.push('\n'),
        "#include <linux/sched/sysctl.h>"@,
        23,
    );
    lemma_char_is_missing(
        "#include <trace/hooks/blk.h>"@.push('\n'),
        "#include \"internal.h\""@,
        9,
    );
    lemma_char_is_missing(
        "#include <trace/hooks/mm.h>"@.push('\n'),
        "#include <linux/pkeys.h>"@,
        16,
    );
    assert("#include <trace/hooks/sched.h>"@.len() != "#include <linux/dma-buf.h>"@.len());
}

/// On 5.10 and on android14-5.15, before the integration patch: `this_len` is widened in
/// `fs/proc/base.c` on android12 up to sublevel 43, inotify marks go by way of the helper
/// in `fs/notify/fdinfo.c` up to 117 on android12 and up to 107 on android13, and nothing
/// else is changed.
pub proof fn law_before_the_patch_on_5_10(
    f: Family,
    s: Seq<char>,
    level: Seq<char>,
    path: Seq<char>,
    text: Seq<char>,
)
    requires
        f == Family::Android12_5_10 || f == Family::Android13_5_10 || f == Family::Android14_5_15,
    ensures
        file_after(fake_patches(f, s, level), path, text) == (if path == "fs/proc/base.c"@ && f
            == Family::Android12_5_10 && sublevel_at_most(s, 43) {
            this_len_widened(text)
        } else if path == "fs/notify/fdinfo.c"@ && f == Family::Android12_5_10
            && sublevel_at_most(s, 117) {
            fdinfo_shimmed(text)
        } else if path == "fs/notify/fdinfo.c"@ && f == Family::Android13_5_10
            && sublevel_at_most(s, 107) {
            fdinfo_shimmed(text)
        } else {
            text
        }),
{
    lemma_paths_differ();
    lemma_file_after_edit_if();
}

/// On android13-5.15, before the integration patch: up to sublevel 41 the header of mapped
/// mounts follows those of shared memory in `fs/namespace.c` and of compatibility in
/// `fs/open.c`; from 197 on no line includes the block hooks in `fs/namespace.c` or the
/// memory hooks in `fs/proc/task_mmu.c`.
pub proof fn law_before_the_patch_on_5_15(
    s: Seq<char>,
    level: Seq<char>,
    path: Seq<char>,
    text: Seq<char>,
)
    ensures
        ({
            let mid = file_after(fake_patches(Family::Android13_5_15, s, level), path, text);
            let idmapping = "#include <linux/mnt_idmapping.h>"@;
            if path == "fs/namespace.c"@ && sublevel_at_most(s, 41) {
                is_put_behind(text, mid, "#include <linux/shmem_fs.h>"@, idmapping)
            } else if path == "fs/open.c"@ && sublevel_at_most(s, 41) {
                is_put_behind(text, mid, "#include <linux/compat.h>"@, idmapping)
            } else if path == "fs/notify/fdinfo.c"@ && sublevel_at_most(s, 41) {
                mid == fdinfo_shimmed(text)
            } else if path == "fs/namespace.c"@ && sublevel_at_least(s, 197) {
                is_taken_out(text, mid, "#include <trace/hooks/blk.h>"@)
            } else if path == "fs/proc/task_mmu.c"@ && sublevel_at_least(s, 197) {
                is_taken_out(text, mid, "#include <trace/hooks/mm.h>"@)
            } else {
                mid == text
            }
        }),
{
    let mid = file_after(fake_patches(Family::Android13_5_15, s, level), path, text);
    let idmapping = "#include <linux/mnt_idmapping.h>"@;
    let shmem = "#include <linux/shmem_fs.h>"@;
    let compat = "#include <linux/compat.h>"@;
    let blk = "#include <trace/hooks/blk.h>"@;
    let mm = "#include <trace/hooks/mm.h>"@;
    lemma_needles_differ();
    if path == "fs/namespace.c"@ && sublevel_at_most(s, 41) {
        assert(mid == inserted_after(text, shmem, idmapping)) by {
            lemma_paths_differ();
            lemma_file_after_edit_if();
        }
        lemma_put_behind(text, shmem, idmapping);
    } else if path == "fs/open.c"@ && sublevel_at_most(s, 41) {
        assert(mid == inserted_after(text, compat, idmapping)) by {
            lemma_paths_differ();
            lemma_file_after_edit_if();
        }
        lemma_put_behind(text, compat, idmapping);
    } else if path == "fs/notify/fdinfo.c"@ && sublevel_at_most(s, 41) {
        assert(mid == fdinfo_shimmed(text)) by {
            lemma_paths_differ();
            lemma_file_after_edit_if();
        }
    } else if path == "fs/namespace.c"@ && sublevel_at_least(s, 197) {
        assert(mid == deleted_exact(text, blk)) by {
            lemma_paths_differ();
            lemma_file_after_edit_if();
        }
        lemma_taken_out(text, blk);
    } else if path == "fs/proc/task_mmu.c"@ && sublevel_at_least(s, 197) {
        assert(mid == deleted_exact(text, mm)) by {
            lemma_paths_differ();
            lemma_file_after_edit_if();
        }
        lemma_taken_out(text, mm);
    } else {
        assert(mid == text) by {
            lemma_paths_differ();
            lemma_file_after_edit_if();
        }
    }
}

/// On 6.1, before the integration patch: in `fs/proc/base.c` the header of shared buffers
/// follows that of frequency times up to sublevel 141, and up to 25 the scheduler hooks
/// follow the events of the killer; from 157 on no line of `fs/namespace.c` includes the
/// block hooks.
pub proof fn law_before_the_patch_on_6_1(
    s: Seq<char>,
    level: Seq<char>,
    path: Seq<char>,
    text: Seq<char>,
)
    ensures
        ({
            let mid = file_after(fake_patches(Family::Android14_6_1, s, level), path, text);
            let (oom, sched) = (
                "#include <trace/events/oom.h>"@,
                "#include <trace/hooks/sched.h>"@,
            );
            let (times, dma_buf) = (
                "#include <linux/cpufreq_times.h>"@,
                "#include <linux/dma-buf.h>"@,
            );
            if path == "fs/proc/base.c"@ && sublevel_at_most(s, 25) {
                &&& is_followed(mid, times, dma_buf)
                &&& no_line_is(text, dma_buf) && no_line_is(text, sched) ==> is_followed(
                    deleted_exact(mid, dma_buf),
                    oom,
                    sched,
                )
            } else if path == "fs/proc/base.c"@ && sublevel_at_most(s, 141) {
                is_put_behind(text, mid, times, dma_buf)
            } else if path == "fs/namespace.c"@ && sublevel_at_least(s, 157) {
                is_taken_out(text, mid, "#include <trace/hooks/blk.h>"@)
            } else {
                mid == text
            }
        }),
{
    let mid = file_after(fake_patches(Family::Android14_6_1, s, level), path, text);
    let (oom, sched) = ("#include <trace/events/oom.h>"@, "#include <trace/hooks/sched.h>"@);
    let (times, dma_buf) = ("#include <linux/cpufreq_times.h>"@, "#include <linux/dma-buf.h>"@);
    let blk = "#include <trace/hooks/blk.h>"@;
    lemma_needles_differ();
    if path == "fs/proc/base.c"@ && sublevel_at_most(s, 25) {
        assert(mid == inserted_after(inserted_after(text, oom, sched), times, dma_buf)) by {
            lemma_paths_differ();
            lemma_file_after_edit_if();
        }
        let one = inserted_after(text, oom, sched);
        lemma_put_behind(text, oom, sched);
        lemma_put_behind(one, times, dma_buf);
        if no_line_is(text, dma_buf) && no_line_is(text, sched) {
            lemma_insert_after_brings_one_line(text, oom, sched, dma_buf);
            if !closed_at(one, times) {
                lemma_followed_with_end(one, oom, sched);
            }
        }
    } else if path == "fs/proc/base.c"@ && sublevel_at_most(s, 141) {
        assert(mid == inserted_after(text, times, dma_buf)) by {
            lemma_paths_differ();
            lemma_file_after_edit_if();
        }
        lemma_put_behind(text, times, dma_buf);
    } else if path == "fs/namespace.c"@ && sublevel_at_least(s, 157) {
        assert(mid == deleted_exact(text, blk)) by {
            lemma_paths_differ();
            lemma_file_after_edit_if();
        }
        lemma_taken_out(text, blk);
    } else {
        assert(mid == text) by {
            lemma_paths_differ();
            lemma_file_after_edit_if();
        }
    }
}

/// On 6.6, before the integration patch: the header of shared buffers follows that of
/// frequency times in `fs/proc/base.c` up to sublevel 92, the header of compressed swap
/// follows the limits of the scheduler in `mm/memory.c` up to 57, and up to 30 the end of
/// the last mapping is remembered in `fs/proc/task_mmu.c`, which at patch level 2024-07
/// also has the helper that it lacked.
pub proof fn law_before_the_patch_on_6_6(
    s: Seq<char>,
    level: Seq<char>,
    path: Seq<char>,
    text: Seq<char>,
)
    ensures
        ({
            let mid = file_after(fake_patches(Family::Android15_6_6, s, level), path, text);
            if path == "fs/proc/base.c"@ && sublevel_at_most(s, 92) {
                is_put_behind(
                    text,
                    mid,
                    "#include <linux/cpufreq_times.h>"@,
                    "#include <linux/dma-buf.h>"@,
                )
            } else if path == "mm/memory.c"@ && sublevel_at_most(s, 57) {
                is_put_behind(
                    text,
                    mid,
                    "#include <linux/sched/sysctl.h>"@,
                    "#include <linux/zswap.h>"@,
                )
            } else if path == "fs/proc/task_mmu.c"@ && sublevel_at_most(s, 30) {
                let fixed = vma_end_remembered(text);
                let known = occurs(fixed, "__fold_filemap_fixup_entry"@);
                let elf = occurs(fixed, "#include <asm/elf.h>"@);
                if level == "2024-07"@ && !known && elf {
                    occurs(
                        mid,
                        "\nstatic inline void __fold_filemap_fixup_entry(struct vma_iterator *iter, unsigned long *end) { }\n"@,
                    )
                } else {
                    mid == fixed
                }
            } else {
                mid == text
            }
        }),
{
    let mid = file_after(fake_patches(Family::Android15_6_6, s, level), path, text);
    let (times, dma_buf) = ("#include <linux/cpufreq_times.h>"@, "#include <linux/dma-buf.h>"@);
    let (sysctl, zswap) = ("#include <linux/sched/sysctl.h>"@, "#include <linux/zswap.h>"@);
    let elf = "#include <asm/elf.h>"@;
    let block = "#ifndef __fold_filemap_fixup_entry\nstatic inline void __fold_filemap_fixup_entry(struct vma_iterator *iter, unsigned long *end) { }\n#endif /* __fold_filemap_fixup_entry */"@;
    let fixed = vma_end_remembered(text);
    lemma_needles_differ();
    if path == "fs/proc/base.c"@ && sublevel_at_most(s, 92) {
        assert(mid == inserted_after(text, times, dma_buf)) by {
            lemma_paths_differ();
            lemma_file_after_edit_if();
        }
        lemma_put_behind(text, times, dma_buf);
    } else if path == "mm/memory.c"@ && sublevel_at_most(s, 57) {
        assert(mid == inserted_after(text, sysctl, zswap)) by {
            lemma_paths_differ();
            lemma_file_after_edit_if();
        }
        lemma_put_behind(text, sysctl, zswap);
    } else if path == "fs/proc/task_mmu.c"@ && sublevel_at_most(s, 30) {
        assert(mid == (if level == "2024-07"@ && !occurs(
            fixed,
            "__fold_filemap_fixup_entry"@,
        ) {
            inserted_before(fixed, elf, block)
        } else {
            fixed
        })) by {
            lemma_paths_differ();
            lemma_file_after_edit_if();
        }
        if occurs(fixed, elf) {
            lemma_helper_goes_in(fixed);
        } else {
            law_insert_needs_the_needle(fixed, elf, block);
        }
    } else {
        assert(mid == text) by {
            lemma_paths_differ();
            lemma_file_after_edit_if();
        }
    }
}

/// The helper is there once it was put in front of an include.
proof fn lemma_helper_goes_in(text: Seq<char>)
    requires
        occurs(text, "#include <asm/elf.h>"@),
    ensures
        occurs(
            inserted_before(
                text,
                "#include <asm/elf.h>"@,
                "#ifndef __fold_filemap_fixup_entry\nstatic inline void __fold_filemap_fixup_entry(struct vma_iterator *iter, unsigned long *end) { }\n#endif /* __fold_filemap_fixup_entry */"@,
            ),
            "\nstatic inline void __fold_filemap_fixup_entry(struct vma_iterator *iter, unsigned long *end) { }\n"@,
        ),
{
    reveal_strlit("#include <asm/elf.h>");
    reveal_strlit(
        "#ifndef __fold_filemap_fixup_entry\nstatic inline void __fold_filemap_fixup_entry(struct vma_iterator *iter, unsigned long *end) { }\n#endif /* __fold_filemap_fixup_entry */",
    );
    reveal_strlit(
        "\nstatic inline void __fold_filemap_fixup_entry(struct vma_iterator *iter, unsigned long *end) { }\n",
    );
    let elf = "#include <asm/elf.h>"@;
    let block = "#ifndef __fold_filemap_fixup_entry\nstatic inline void __fold_filemap_fixup_entry(struct vma_iterator *iter, unsigned long *end) { }\n#endif /* __fold_filemap_fixup_entry */"@;
    let helper = "\nstatic inline void __fold_filemap_fixup_entry(struct vma_iterator *iter, unsigned long *end) { }\n"@;
    let k = lemma_stands_in_a_line(text, elf);
    let pieces = lines_of(text).map_values(|l: Seq<char>| line_after(l, elf, block));
    let piece = pieces[k];
    assert(piece == terminated(block) + lines_of(text)[k]);
    assert(piece.subrange(34, (34 + helper.len()) as int) =~= helper);
    assert(occurs_at(piece, helper, 34));
    lemma_has_in_joined(pieces, k, helper);
}

/// On 6.12, before the integration patch: from sublevel 58 on no line of `fs/exec.c`
/// includes the shared buffers, and from 69 on `fs/proc/task_mmu.c` speaks of no
/// `vma_data_pages`.
pub proof fn law_before_the_patch_on_6_12(
    s: Seq<char>,
    level: Seq<char>,
    path: Seq<char>,
    text: Seq<char>,
)
    ensures
        ({
            let mid = file_after(fake_patches(Family::Android16_6_12, s, level), path, text);
            if path == "fs/exec.c"@ && sublevel_at_least(s, 58) {
                is_taken_out(text, mid, "#include <linux/dma-buf.h>"@)
            } else if path == "fs/proc/task_mmu.c"@ && sublevel_at_least(s, 69) {
                is_exchanged(text, mid, "vma_data_pages"@, "vma_pages"@)
            } else {
                mid == text
            }
        }),
{
    let mid = file_after(fake_patches(Family::Android16_6_12, s, level), path, text);
    let dma_buf = "#include <linux/dma-buf.h>"@;
    if path == "fs/exec.c"@ && sublevel_at_least(s, 58) {
        assert(mid == deleted_exact(text, dma_buf)) by {
            lemma_paths_differ();
            lemma_file_after_edit_if();
        }
        lemma_taken_out(text, dma_buf);
    } else if path == "fs/proc/task_mmu.c"@ && sublevel_at_least(s, 69) {
        assert(mid == replaced(text, "vma_data_pages"@, "vma_pages"@)) by {
            lemma_paths_differ();
            lemma_file_after_edit_if();
        }
        lemma_pages_apart();
        lemma_exchanged(text, "vma_data_pages"@, "vma_pages"@);
    } else {
        assert(mid == text) by {
            lemma_paths_differ();
            lemma_file_after_edit_if();
        }
    }
}

proof fn lemma_pages_apart()
    ensures
        stand_apart("vma_data_pages"@, "vma_pages"@),
        stand_apart("vma_pages"@, "vma_data_pages"@),
{
    reveal_strlit("vma_data_pages");
    reveal_strlit("vma_pages");
    lemma_apart_by_their_fronts("vma_data_pages"@, "vma_pages"@, 4);
    lemma_apart_by_their_fronts("vma_pages"@, "vma_data_pages"@, 4);
}

/// The jumps to `show_pad` are gone from `fs/proc/task_mmu.c` after the integration patch
/// on every tree that predates page-size migration: up to sublevel 209 on 5.10, up to 148
/// on 5.15 and up to 75 on 6.1, and except on android12 not at patch level 2024-05. On
/// other trees they stay.
pub proof fn law_no_jump_to_show_pad(f: Family, s: Seq<char>, level: Seq<char>, text: Seq<char>)
    ensures
        ({
            let end = file_after(revert_patches(f, s, level), "fs/proc/task_mmu.c"@, text);
            let old = match f {
                Family::Android12_5_10 => sublevel_at_most(s, 209),
                Family::Android13_5_10 => sublevel_at_most(s, 209) && level != "2024-05"@,
                Family::Android13_5_15 => sublevel_at_most(s, 148) && level != "2024-05"@,
                Family::Android14_5_15 => sublevel_at_most(s, 148) && level != "2024-05"@,
                Family::Android14_6_1 => sublevel_at_most(s, 75) && level != "2024-05"@,
                Family::Android15_6_6 => false,
                Family::Android16_6_12 => false,
            };
            if old {
                is_exchanged(text, end, "goto show_pad;"@, "return 0;"@)
            } else if f == Family::Android13_5_15 && sublevel_at_least(s, 197) {
                is_put_behind(text, end, "#include <linux/pkeys.h>"@, "#include <trace/hooks/mm.h>"@)
            } else if f == Family::Android16_6_12 && sublevel_at_least(s, 69) {
                is_exchanged(text, end, "vma_pages"@, "vma_data_pages"@)
            } else {
                end == text
            }
        }),
{
    let end = file_after(revert_patches(f, s, level), "fs/proc/task_mmu.c"@, text);
    let (pkeys, mm) = ("#include <linux/pkeys.h>"@, "#include <trace/hooks/mm.h>"@);
    let (from, to) = ("goto show_pad;"@, "return 0;"@);
    if needs_show_pad_fix(f, s, level) {
        assert(end == replaced(text, from, to)) by {
            lemma_paths_differ();
            lemma_file_after_edit_if();
        }
        reveal_strlit("goto show_pad;");
        reveal_strlit("return 0;");
        lemma_apart_by_their_fronts(from, to, 0);
        lemma_exchanged(text, from, to);
    } else if f == Family::Android13_5_15 && sublevel_at_least(s, 197) {
        assert(end == inserted_after(text, pkeys, mm)) by {
            lemma_paths_differ();
            lemma_file_after_edit_if();
        }
        lemma_needles_differ();
        lemma_put_behind(text, pkeys, mm);
    } else if f == Family::Android16_6_12 && sublevel_at_least(s, 69) {
        assert(end == replaced(text, "vma_pages"@, "vma_data_pages"@)) by {
            lemma_paths_differ();
            lemma_file_after_edit_if();
        }
        lemma_pages_apart();
        lemma_exchanged(text, "vma_pages"@, "vma_data_pages"@);
    } else {
        assert(end == text) by {
            lemma_paths_differ();
            lemma_file_after_edit_if();
        }
    }
}

/// On 5.10, after the integration patch only `fs/proc/base.c` on android12 up to sublevel
/// 43 is changed besides `fs/proc/task_mmu.c`: `this_len` is an `int` again. On
/// android14-5.15 nothing is.
pub proof fn law_after_the_patch_on_5_10(
    f: Family,
    s: Seq<char>,
    level: Seq<char>,
    path: Seq<char>,
    text: Seq<char>,
)
    requires
        f == Family::Android12_5_10 || f == Family::Android13_5_10 || f == Family::Android14_5_15,
        path != "fs/proc/task_mmu.c"@,
    ensures
        ({
            let end = file_after(revert_patches(f, s, level), path, text);
            if path == "fs/proc/base.c"@ && f == Family::Android12_5_10 && sublevel_at_most(s, 43) {
                is_exchanged(
                    text,
                    end,
                    "size_t this_len = min_t(size_t, count, PAGE_SIZE);"@,
                    "int this_len = min_t(int, count, PAGE_SIZE);"@,
                )
            } else {
                end == text
            }
        }),
{
    let end = file_after(revert_patches(f, s, level), path, text);
    let wide = "size_t this_len = min_t(size_t, count, PAGE_SIZE);"@;
    let narrow = "int this_len = min_t(int, count, PAGE_SIZE);"@;
    if path == "fs/proc/base.c"@ && f == Family::Android12_5_10 && sublevel_at_most(s, 43) {
        assert(end == replaced(text, wide, narrow)) by {
            lemma_paths_differ();
            lemma_file_after_edit_if();
        }
        reveal_strlit("size_t this_len = min_t(size_t, count, PAGE_SIZE);");
        reveal_strlit("int this_len = min_t(int, count, PAGE_SIZE);");
        lemma_apart_by_a_mark(wide, narrow, 49, 43, 0);
        lemma_exchanged(text, wide, narrow);
    } else {
        assert(end == text) by {
            lemma_paths_differ();
            lemma_file_after_edit_if();
        }
    }
}

/// On android13-5.15, after the integration patch: up to sublevel 41 no line includes the
/// header of mapped mounts and owners are looked up in the initial user namespace; from
/// 197 on the block hooks follow the internal header in `fs/namespace.c`.
pub proof fn law_after_the_patch_on_5_15(
    s: Seq<char>,
    level: Seq<char>,
    path: Seq<char>,
    text: Seq<char>,
)
    requires
        path != "fs/proc/task_mmu.c"@,
    ensures
        ({
            let end = file_after(revert_patches(Family::Android13_5_15, s, level), path, text);
            let idmapping = "#include <linux/mnt_idmapping.h>"@;
            if path == "fs/namespace.c"@ && sublevel_at_most(s, 41) {
                is_taken_out(text, end, idmapping)
            } else if path == "fs/open.c"@ && sublevel_at_most(s, 41) {
                is_taken_out(text, end, idmapping)
            } else if path == "fs/susfs.c"@ && sublevel_at_most(s, 41) {
                &&& !occurs(end, "i_uid_into_mnt(i_user_ns(&fi->inode), &fi->inode).val"@)
                &&& !occurs(end, "i_uid_into_mnt(i_user_ns(inode), inode).val"@)
                &&& is_exchanged(
                    text,
                    end,
                    "i_uid_into_mnt(i_user_ns(&fi->inode), &fi->inode).val"@,
                    "i_uid_into_mnt(&init_user_ns, &fi->inode).val"@,
                ) || occurs(text, "i_uid_into_mnt(i_user_ns(inode), inode).val"@)
                &&& is_exchanged(
                    text,
                    end,
                    "i_uid_into_mnt(i_user_ns(inode), inode).val"@,
                    "i_uid_into_mnt(&init_user_ns, inode).val"@,
                ) || occurs(text, "i_uid_into_mnt(i_user_ns(&fi->inode), &fi->inode).val"@)
            } else if path == "fs/namespace.c"@ && sublevel_at_least(s, 197) {
                is_put_behind(text, end, "#include \"internal.h\""@, "#include <trace/hooks/blk.h>"@)
            } else {
                end == text
            }
        }),
{
    let end = file_after(revert_patches(Family::Android13_5_15, s, level), path, text);
    let idmapping = "#include <linux/mnt_idmapping.h>"@;
    let (internal, blk) = ("#include \"internal.h\""@, "#include <trace/hooks/blk.h>"@);
    if path == "fs/namespace.c"@ && sublevel_at_most(s, 41) {
        assert(end == deleted_exact(text, idmapping)) by {
            lemma_paths_differ();
            lemma_file_after_edit_if();
        }
        lemma_taken_out(text, idmapping);
    } else if path == "fs/open.c"@ && sublevel_at_most(s, 41) {
        assert(end == deleted_exact(text, idmapping)) by {
            lemma_paths_differ();
            lemma_file_after_edit_if();
        }
        lemma_taken_out(text, idmapping);
    } else if path == "fs/susfs.c"@ && sublevel_at_most(s, 41) {
        assert(end == replaced(
            replaced(
                text,
                "i_uid_into_mnt(i_user_ns(&fi->inode), &fi->inode).val"@,
                "i_uid_into_mnt(&init_user_ns, &fi->inode).val"@,
            ),
            "i_uid_into_mnt(i_user_ns(inode), inode).val"@,
            "i_uid_into_mnt(&init_user_ns, inode).val"@,
        )) by {
            lemma_paths_differ();
            lemma_file_after_edit_if();
        }
        lemma_owner_lookup(text);
    } else if path == "fs/namespace.c"@ && sublevel_at_least(s, 197) {
        assert(end == inserted_after(text, internal, blk)) by {
            lemma_paths_differ();
            lemma_file_after_edit_if();
        }
        lemma_needles_differ();
        lemma_put_behind(text, internal, blk);
    } else {
        assert(end == text) by {
            lemma_paths_differ();
            lemma_file_after_edit_if();
        }
    }
}

/// The lookup of owners, after both exchanges.
proof fn lemma_owner_lookup(text: Seq<char>)
    ensures
        ({
            let a = "i_uid_into_mnt(i_user_ns(&fi->inode), &fi->inode).val"@;
            let a2 = "i_uid_into_mnt(&init_user_ns, &fi->inode).val"@;
            let b = "i_uid_into_mnt(i_user_ns(inode), inode).val"@;
            let b2 = "i_uid_into_mnt(&init_user_ns, inode).val"@;
            let end = replaced(replaced(text, a, a2), b, b2);
            &&& !occurs(end, a)
            &&& !occurs(end, b)
            &&& is_exchanged(text, end, a, a2) || occurs(text, b)
            &&& is_exchanged(text, end, b, b2) || occurs(text, a)
        }),
{
    reveal_strlit("i_uid_into_mnt(i_user_ns(&fi->inode), &fi->inode).val");
    reveal_strlit("i_uid_into_mnt(&init_user_ns, &fi->inode).val");
    reveal_strlit("i_uid_into_mnt(i_user_ns(inode), inode).val");
    reveal_strlit("i_uid_into_mnt(&init_user_ns, inode).val");
    let a = "i_uid_into_mnt(i_user_ns(&fi->inode), &fi->inode).val"@;
    let a2 = "i_uid_into_mnt(&init_user_ns, &fi->inode).val"@;
    let b = "i_uid_into_mnt(i_user_ns(inode), inode).val"@;
    let b2 = "i_uid_into_mnt(&init_user_ns, inode).val"@;
    let one = replaced(text, a, a2);
    lemma_apart_by_a_mark(a, a2, 49, 41, 0);
    lemma_apart_by_a_mark(b, b2, 39, 36, 1);
    lemma_apart_by_a_mark(a, b2, 49, 36, 0);
    lemma_apart_by_a_mark(b, a2, 39, 41, 2);
    lemma_exchanged(text, a, a2);
    lemma_exchanged(one, b, b2);
    law_replacement_brings_nothing_else(one, b, b2, a);
    if !occurs(text, b) {
        law_replacement_brings_nothing_else(text, a, a2, b);
    }
}

/// On 6.1, after the integration patch: in `fs/proc/base.c` no line includes the shared
/// buffers up to sublevel 141, nor the scheduler hooks up to 25; from 157 on the block
/// hooks follow the internal header in `fs/namespace.c`.
pub proof fn law_after_the_patch_on_6_1(
    s: Seq<char>,
    level: Seq<char>,
    path: Seq<char>,
    text: Seq<char>,
)
    requires
        path != "fs/proc/task_mmu.c"@,
    ensures
        ({
            let end = file_after(revert_patches(Family::Android14_6_1, s, level), path, text);
            let sched = "#include <trace/hooks/sched.h>"@;
            let dma_buf = "#include <linux/dma-buf.h>"@;
            if path == "fs/proc/base.c"@ && sublevel_at_most(s, 25) {
                &&& no_line_is(end, sched)
                &&& no_line_is(end, dma_buf)
                &&& no_line_is(text, sched) ==> is_taken_out(text, end, dma_buf)
                &&& no_line_is(text, dma_buf) ==> is_taken_out(text, end, sched)
            } else if path == "fs/proc/base.c"@ && sublevel_at_most(s, 141) {
                is_taken_out(text, end, dma_buf)
            } else if path == "fs/namespace.c"@ && sublevel_at_least(s, 157) {
                is_put_behind(text, end, "#include \"internal.h\""@, "#include <trace/hooks/blk.h>"@)
            } else {
                end == text
            }
        }),
{
    let end = file_after(revert_patches(Family::Android14_6_1, s, level), path, text);
    let sched = "#include <trace/hooks/sched.h>"@;
    let dma_buf = "#include <linux/dma-buf.h>"@;
    let (internal, blk) = ("#include \"internal.h\""@, "#include <trace/hooks/blk.h>"@);
    if path == "fs/proc/base.c"@ && sublevel_at_most(s, 25) {
        assert(end == deleted_exact(deleted_exact(text, sched), dma_buf)) by {
            lemma_paths_differ();
            lemma_file_after_edit_if();
        }
        lemma_two_taken_out(text, sched, dma_buf);
    } else if path == "fs/proc/base.c"@ && sublevel_at_most(s, 141) {
        assert(end == deleted_exact(text, dma_buf)) by {
            lemma_paths_differ();
            lemma_file_after_edit_if();
        }
        lemma_taken_out(text, dma_buf);
    } else if path == "fs/namespace.c"@ && sublevel_at_least(s, 157) {
        assert(end == inserted_after(text, internal, blk)) by {
            lemma_paths_differ();
            lemma_file_after_edit_if();
        }
        lemma_needles_differ();
        lemma_put_behind(text, internal, blk);
    } else {
        assert(end == text) by {
            lemma_paths_differ();
            lemma_file_after_edit_if();
        }
    }
}

/// On 6.6, after the integration patch: no line includes the shared buffers in
/// `fs/proc/base.c` up to sublevel 92, nor the compressed swap in `mm/memory.c` up to 57.
pub proof fn law_after_the_patch_on_6_6(
    s: Seq<char>,
    level: Seq<char>,
    path: Seq<char>,
    text: Seq<char>,
)
    requires
        path != "fs/proc/task_mmu.c"@,
    ensures
        ({
            let end = file_after(revert_patches(Family::Android15_6_6, s, level), path, text);
            if path == "fs/proc/base.c"@ && sublevel_at_most(s, 92) {
                is_taken_out(text, end, "#include <linux/dma-buf.h>"@)
            } else if path == "mm/memory.c"@ && sublevel_at_most(s, 57) {
                is_taken_out(text, end, "#include <linux/zswap.h>"@)
            } else {
                end == text
            }
        }),
{
    let end = file_after(revert_patches(Family::Android15_6_6, s, level), path, text);
    let (dma_buf, zswap) = ("#include <linux/dma-buf.h>"@, "#include <linux/zswap.h>"@);
    if path == "fs/proc/base.c"@ && sublevel_at_most(s, 92) {
        assert(end == deleted_exact(text, dma_buf)) by {
            lemma_paths_differ();
            lemma_file_after_edit_if();
        }
        lemma_taken_out(text, dma_buf);
    } else if path == "mm/memory.c"@ && sublevel_at_most(s, 57) {
        assert(end == deleted_exact(text, zswap)) by {
            lemma_paths_differ();
            lemma_file_after_edit_if();
        }
        lemma_taken_out(text, zswap);
    } else {
        assert(end == text) by {
            lemma_paths_differ();
            lemma_file_after_edit_if();
        }
    }
}

/// On 6.12, after the integration patch: from sublevel 58 on a `fs/exec.c` with any
/// include includes the shared buffers, and only that was added to it.
pub proof fn law_after_the_patch_on_6_12(
    s: Seq<char>,
    level: Seq<char>,
    path: Seq<char>,
    text: Seq<char>,
)
    requires
        path != "fs/proc/task_mmu.c"@,
    ensures
        ({
            let end = file_after(revert_patches(Family::Android16_6_12, s, level), path, text);
            let dma_buf = "#include <linux/dma-buf.h>"@;
            if path == "fs/exec.c"@ && sublevel_at_least(s, 58) {
                &&& occurs(text, "#include "@) ==> occurs(end, dma_buf)
                &&& occurs(text, dma_buf) || !occurs(text, "#include "@) ==> end == text
                &&& no_line_is(text, dma_buf) ==> deleted_exact(end, dma_buf) == text
                    || deleted_exact(end, dma_buf) == text.push('\n')
            } else {
                end == text
            }
        }),
{
    lemma_paths_differ();
    lemma_file_after_edit_if();
    let dma_buf = "#include <linux/dma-buf.h>"@;
    lemma_needles_differ();
    if no_line_is(text, dma_buf) {
        law_delete_undoes_restore(text, dma_buf);
    }
    lemma_first_at(text, "#include "@);
    if occurs(text, "#include "@) && !occurs(text, dma_buf) {
        let i = first_at(text, "#include "@).unwrap();
        reveal_strlit("\n");
        lemma_find_from(text, "\n"@, i);
        let at = match find_from(text, "\n"@, i) {
            Some(e) => e + 1,
            None => text.len() as int + 1,
        };
        let out = include_restored(text, dma_buf);
        assert(out.subrange(at, at + dma_buf.len()) =~= dma_buf);
        assert(occurs_at(out, dma_buf, at));
    }
}

} // verus!
