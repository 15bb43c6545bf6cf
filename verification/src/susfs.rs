//! The edits that let the SUSFS integration patch apply to older and newer trees, and
//! the edits that take them back.
use crate::ctx::{common_dir_of, Ctx};
use crate::edits::{edit_if, edits_made, push_if, run_edits, Edit, FileEdit};
use crate::failure::Failure;
use crate::family::Family;
use crate::text::same;
use crate::tree::Tree;
use crate::version::{sublevel_at_least, sublevel_at_most, sublevel_ge, sublevel_le};
use vstd::prelude::*;

verus! {

// ---------------------------------------------------------------------------
// Models
// ---------------------------------------------------------------------------

/// The edits before the integration patch, for a family, a sublevel and a patch level.
pub open spec fn fake_patches(f: Family, s: Seq<char>, level: Seq<char>) -> Seq<FileEdit> {
    let a12 = f == Family::Android12_5_10;
    let a13 = f == Family::Android13_5_10;
    let b13 = f == Family::Android13_5_15;
    let a14 = f == Family::Android14_6_1;
    let a15 = f == Family::Android15_6_6;
    let a16 = f == Family::Android16_6_12;
    Seq::<FileEdit>::empty()
        + edit_if(a12 && sublevel_at_most(s, 43), "fs/proc/base.c", Edit::ThisLen)
        + edit_if(
        (a12 && sublevel_at_most(s, 117)) || (a13 && sublevel_at_most(s, 107)),
        "fs/notify/fdinfo.c",
        Edit::Fdinfo,
    ) + edit_if(
        b13 && sublevel_at_most(s, 41),
        "fs/namespace.c",
        Edit::After {
            needle: "#include <linux/shmem_fs.h>",
            line: "#include <linux/mnt_idmapping.h>",
        },
    ) + edit_if(
        b13 && sublevel_at_most(s, 41),
        "fs/open.c",
        Edit::After {
            needle: "#include <linux/compat.h>",
            line: "#include <linux/mnt_idmapping.h>",
        },
    ) + edit_if(b13 && sublevel_at_most(s, 41), "fs/notify/fdinfo.c", Edit::Fdinfo) + edit_if(
        b13 && sublevel_at_least(s, 197),
        "fs/namespace.c",
        Edit::Delete { line: "#include <trace/hooks/blk.h>" },
    ) + edit_if(
        b13 && sublevel_at_least(s, 197),
        "fs/proc/task_mmu.c",
        Edit::Delete { line: "#include <trace/hooks/mm.h>" },
    ) + edit_if(
        a14 && sublevel_at_most(s, 25),
        "fs/proc/base.c",
        Edit::After {
            needle: "#include <trace/events/oom.h>",
            line: "#include <trace/hooks/sched.h>",
        },
    ) + edit_if(
        a14 && sublevel_at_most(s, 141),
        "fs/proc/base.c",
        Edit::After {
            needle: "#include <linux/cpufreq_times.h>",
            line: "#include <linux/dma-buf.h>",
        },
    ) + edit_if(
        a14 && sublevel_at_least(s, 157),
        "fs/namespace.c",
        Edit::Delete { line: "#include <trace/hooks/blk.h>" },
    ) + edit_if(a15 && sublevel_at_most(s, 30), "fs/proc/task_mmu.c", Edit::LastVmaEnd) + edit_if(
        a15 && sublevel_at_most(s, 30) && level == "2024-07"@,
        "fs/proc/task_mmu.c",
        Edit::BeforeUnless {
            unless: "__fold_filemap_fixup_entry",
            needle: "#include <asm/elf.h>",
            line: "#ifndef __fold_filemap_fixup_entry\nstatic inline void __fold_filemap_fixup_entry(struct vma_iterator *iter, unsigned long *end) { }\n#endif /* __fold_filemap_fixup_entry */",
        },
    ) + edit_if(
        a15 && sublevel_at_most(s, 92),
        "fs/proc/base.c",
        Edit::After {
            needle: "#include <linux/cpufreq_times.h>",
            line: "#include <linux/dma-buf.h>",
        },
    ) + edit_if(
        a15 && sublevel_at_most(s, 57),
        "mm/memory.c",
        Edit::After {
            needle: "#include <linux/sched/sysctl.h>",
            line: "#include <linux/zswap.h>",
        },
    ) + edit_if(
        a16 && sublevel_at_least(s, 58),
        "fs/exec.c",
        Edit::Delete { line: "#include <linux/dma-buf.h>" },
    ) + edit_if(
        a16 && sublevel_at_least(s, 69),
        "fs/proc/task_mmu.c",
        Edit::Replace { from: "vma_data_pages", to: "vma_pages" },
    )
}

/// The tree predates page-size migration, so that `show_pad` is not there to jump to.
pub open spec fn needs_show_pad_fix(f: Family, s: Seq<char>, level: Seq<char>) -> bool {
    ||| f == Family::Android12_5_10 && sublevel_at_most(s, 209)
    ||| f == Family::Android13_5_10 && sublevel_at_most(s, 209) && level != "2024-05"@
    ||| f == Family::Android13_5_15 && sublevel_at_most(s, 148) && level != "2024-05"@
    ||| f == Family::Android14_5_15 && sublevel_at_most(s, 148) && level != "2024-05"@
    ||| f == Family::Android14_6_1 && sublevel_at_most(s, 75) && level != "2024-05"@
}

/// The edits after the integration patch, for a family, a sublevel and a patch level.
pub open spec fn revert_patches(f: Family, s: Seq<char>, level: Seq<char>) -> Seq<FileEdit> {
    let a12 = f == Family::Android12_5_10;
    let b13 = f == Family::Android13_5_15;
    let a14 = f == Family::Android14_6_1;
    let a15 = f == Family::Android15_6_6;
    let a16 = f == Family::Android16_6_12;
    Seq::<FileEdit>::empty() + edit_if(
        a12 && sublevel_at_most(s, 43),
        "fs/proc/base.c",
        Edit::Replace {
            from: "size_t this_len = min_t(size_t, count, PAGE_SIZE);",
            to: "int this_len = min_t(int, count, PAGE_SIZE);",
        },
    ) + edit_if(
        b13 && sublevel_at_most(s, 41),
        "fs/namespace.c",
        Edit::Delete { line: "#include <linux/mnt_idmapping.h>" },
    ) + edit_if(
        b13 && sublevel_at_most(s, 41),
        "fs/open.c",
        Edit::Delete { line: "#include <linux/mnt_idmapping.h>" },
    ) + edit_if(
        b13 && sublevel_at_most(s, 41),
        "fs/susfs.c",
        Edit::Replace {
            from: "i_uid_into_mnt(i_user_ns(&fi->inode), &fi->inode).val",
            to: "i_uid_into_mnt(&init_user_ns, &fi->inode).val",
        },
    ) + edit_if(
        b13 && sublevel_at_most(s, 41),
        "fs/susfs.c",
        Edit::Replace {
            from: "i_uid_into_mnt(i_user_ns(inode), inode).val",
            to: "i_uid_into_mnt(&init_user_ns, inode).val",
        },
    ) + edit_if(
        b13 && sublevel_at_least(s, 197),
        "fs/namespace.c",
        Edit::After { needle: "#include \"internal.h\"", line: "#include <trace/hooks/blk.h>" },
    ) + edit_if(
        b13 && sublevel_at_least(s, 197),
        "fs/proc/task_mmu.c",
        Edit::After { needle: "#include <linux/pkeys.h>", line: "#include <trace/hooks/mm.h>" },
    ) + edit_if(
        a14 && sublevel_at_most(s, 25),
        "fs/proc/base.c",
        Edit::Delete { line: "#include <trace/hooks/sched.h>" },
    ) + edit_if(
        a14 && sublevel_at_most(s, 141),
        "fs/proc/base.c",
        Edit::Delete { line: "#include <linux/dma-buf.h>" },
    ) + edit_if(
        a14 && sublevel_at_least(s, 157),
        "fs/namespace.c",
        Edit::After { needle: "#include \"internal.h\"", line: "#include <trace/hooks/blk.h>" },
    ) + edit_if(
        a15 && sublevel_at_most(s, 92),
        "fs/proc/base.c",
        Edit::Delete { line: "#include <linux/dma-buf.h>" },
    ) + edit_if(
        a15 && sublevel_at_most(s, 57),
        "mm/memory.c",
        Edit::Delete { line: "#include <linux/zswap.h>" },
    ) + edit_if(
        a16 && sublevel_at_least(s, 58),
        "fs/exec.c",
        Edit::Restore { line: "#include <linux/dma-buf.h>" },
    ) + edit_if(
        a16 && sublevel_at_least(s, 69),
        "fs/proc/task_mmu.c",
        Edit::Replace { from: "vma_pages", to: "vma_data_pages" },
    ) + edit_if(
        needs_show_pad_fix(f, s, level),
        "fs/proc/task_mmu.c",
        Edit::Replace { from: "goto show_pad;", to: "return 0;" },
    )
}

// ---------------------------------------------------------------------------
// Functions
// ---------------------------------------------------------------------------

/// The edits before the integration patch.
pub fn fake_patch_list(f: Family, s: &str, level: &str) -> (r: Vec<FileEdit>)
    ensures
        r@ == fake_patches(f, s@, level@),
{
    let a12 = f == Family::Android12_5_10;
    let a13 = f == Family::Android13_5_10;
    let b13 = f == Family::Android13_5_15;
    let a14 = f == Family::Android14_6_1;
    let a15 = f == Family::Android15_6_6;
    let a16 = f == Family::Android16_6_12;
    let mut r: Vec<FileEdit> = Vec::new();
    push_if(&mut r, a12 && sublevel_le(s, 43), "fs/proc/base.c", Edit::ThisLen);
    push_if(
        &mut r,
        (a12 && sublevel_le(s, 117)) || (a13 && sublevel_le(s, 107)),
        "fs/notify/fdinfo.c",
        Edit::Fdinfo,
    );
    push_if(
        &mut r,
        b13 && sublevel_le(s, 41),
        "fs/namespace.c",
        Edit::After {
            needle: "#include <linux/shmem_fs.h>",
            line: "#include <linux/mnt_idmapping.h>",
        },
    );
    push_if(
        &mut r,
        b13 && sublevel_le(s, 41),
        "fs/open.c",
        Edit::After {
            needle: "#include <linux/compat.h>",
            line: "#include <linux/mnt_idmapping.h>",
        },
    );
    push_if(&mut r, b13 && sublevel_le(s, 41), "fs/notify/fdinfo.c", Edit::Fdinfo);
    push_if(
        &mut r,
        b13 && sublevel_ge(s, 197),
        "fs/namespace.c",
        Edit::Delete { line: "#include <trace/hooks/blk.h>" },
    );
    push_if(
        &mut r,
        b13 && sublevel_ge(s, 197),
        "fs/proc/task_mmu.c",
        Edit::Delete { line: "#include <trace/hooks/mm.h>" },
    );
    push_if(
        &mut r,
        a14 && sublevel_le(s, 25),
        "fs/proc/base.c",
        Edit::After {
            needle: "#include <trace/events/oom.h>",
            line: "#include <trace/hooks/sched.h>",
        },
    );
    push_if(
        &mut r,
        a14 && sublevel_le(s, 141),
        "fs/proc/base.c",
        Edit::After {
            needle: "#include <linux/cpufreq_times.h>",
            line: "#include <linux/dma-buf.h>",
        },
    );
    push_if(
        &mut r,
        a14 && sublevel_ge(s, 157),
        "fs/namespace.c",
        Edit::Delete { line: "#include <trace/hooks/blk.h>" },
    );
    push_if(&mut r, a15 && sublevel_le(s, 30), "fs/proc/task_mmu.c", Edit::LastVmaEnd);
    push_if(
        &mut r,
        a15 && sublevel_le(s, 30) && same(level, "2024-07"),
        "fs/proc/task_mmu.c",
        Edit::BeforeUnless {
            unless: "__fold_filemap_fixup_entry",
            needle: "#include <asm/elf.h>",
            line: "#ifndef __fold_filemap_fixup_entry\nstatic inline void __fold_filemap_fixup_entry(struct vma_iterator *iter, unsigned long *end) { }\n#endif /* __fold_filemap_fixup_entry */",
        },
    );
    push_if(
        &mut r,
        a15 && sublevel_le(s, 92),
        "fs/proc/base.c",
        Edit::After {
            needle: "#include <linux/cpufreq_times.h>",
            line: "#include <linux/dma-buf.h>",
        },
    );
    push_if(
        &mut r,
        a15 && sublevel_le(s, 57),
        "mm/memory.c",
        Edit::After {
            needle: "#include <linux/sched/sysctl.h>",
            line: "#include <linux/zswap.h>",
        },
    );
    push_if(
        &mut r,
        a16 && sublevel_ge(s, 58),
        "fs/exec.c",
        Edit::Delete { line: "#include <linux/dma-buf.h>" },
    );
    push_if(
        &mut r,
        a16 && sublevel_ge(s, 69),
        "fs/proc/task_mmu.c",
        Edit::Replace { from: "vma_data_pages", to: "vma_pages" },
    );
    r
}

/// The edits after the integration patch.
pub fn revert_patch_list(f: Family, s: &str, level: &str) -> (r: Vec<FileEdit>)
    ensures
        r@ == revert_patches(f, s@, level@),
{
    let a12 = f == Family::Android12_5_10;
    let b13 = f == Family::Android13_5_15;
    let a14 = f == Family::Android14_6_1;
    let a15 = f == Family::Android15_6_6;
    let a16 = f == Family::Android16_6_12;
    let mut r: Vec<FileEdit> = Vec::new();
    push_if(
        &mut r,
        a12 && sublevel_le(s, 43),
        "fs/proc/base.c",
        Edit::Replace {
            from: "size_t this_len = min_t(size_t, count, PAGE_SIZE);",
            to: "int this_len = min_t(int, count, PAGE_SIZE);",
        },
    );
    push_if(
        &mut r,
        b13 && sublevel_le(s, 41),
        "fs/namespace.c",
        Edit::Delete { line: "#include <linux/mnt_idmapping.h>" },
    );
    push_if(
        &mut r,
        b13 && sublevel_le(s, 41),
        "fs/open.c",
        Edit::Delete { line: "#include <linux/mnt_idmapping.h>" },
    );
    push_if(
        &mut r,
        b13 && sublevel_le(s, 41),
        "fs/susfs.c",
        Edit::Replace {
            from: "i_uid_into_mnt(i_user_ns(&fi->inode), &fi->inode).val",
            to: "i_uid_into_mnt(&init_user_ns, &fi->inode).val",
        },
    );
    push_if(
        &mut r,
        b13 && sublevel_le(s, 41),
        "fs/susfs.c",
        Edit::Replace {
            from: "i_uid_into_mnt(i_user_ns(inode), inode).val",
            to: "i_uid_into_mnt(&init_user_ns, inode).val",
        },
    );
    push_if(
        &mut r,
        b13 && sublevel_ge(s, 197),
        "fs/namespace.c",
        Edit::After { needle: "#include \"internal.h\"", line: "#include <trace/hooks/blk.h>" },
    );
    push_if(
        &mut r,
        b13 && sublevel_ge(s, 197),
        "fs/proc/task_mmu.c",
        Edit::After { needle: "#include <linux/pkeys.h>", line: "#include <trace/hooks/mm.h>" },
    );
    push_if(
        &mut r,
        a14 && sublevel_le(s, 25),
        "fs/proc/base.c",
        Edit::Delete { line: "#include <trace/hooks/sched.h>" },
    );
    push_if(
        &mut r,
        a14 && sublevel_le(s, 141),
        "fs/proc/base.c",
        Edit::Delete { line: "#include <linux/dma-buf.h>" },
    );
    push_if(
        &mut r,
        a14 && sublevel_ge(s, 157),
        "fs/namespace.c",
        Edit::After { needle: "#include \"internal.h\"", line: "#include <trace/hooks/blk.h>" },
    );
    push_if(
        &mut r,
        a15 && sublevel_le(s, 92),
        "fs/proc/base.c",
        Edit::Delete { line: "#include <linux/dma-buf.h>" },
    );
    push_if(
        &mut r,
        a15 && sublevel_le(s, 57),
        "mm/memory.c",
        Edit::Delete { line: "#include <linux/zswap.h>" },
    );
    push_if(
        &mut r,
        a16 && sublevel_ge(s, 58),
        "fs/exec.c",
        Edit::Restore { line: "#include <linux/dma-buf.h>" },
    );
    push_if(
        &mut r,
        a16 && sublevel_ge(s, 69),
        "fs/proc/task_mmu.c",
        Edit::Replace { from: "vma_pages", to: "vma_data_pages" },
    );
    let other_level = !same(level, "2024-05");
    push_if(
        &mut r,
        (f == Family::Android12_5_10 && sublevel_le(s, 209)) || (f == Family::Android13_5_10
            && sublevel_le(s, 209) && other_level) || (f == Family::Android13_5_15 && sublevel_le(
            s,
            148,
        ) && other_level) || (f == Family::Android14_5_15 && sublevel_le(s, 148) && other_level)
            || (f == Family::Android14_6_1 && sublevel_le(s, 75) && other_level),
        "fs/proc/task_mmu.c",
        Edit::Replace { from: "goto show_pad;", to: "return 0;" },
    );
    r
}

/// Makes the edits that let the integration patch apply.
pub fn apply_susfs_fake_patches(ctx: &Ctx, tree: &mut Tree) -> (r: Result<(), Failure>)
    ensures
        edits_made(
            common_dir_of(ctx.workspace()),
            fake_patches(ctx.family, ctx.sublevel@, ctx.os_patch_level@),
            old(tree)@,
        ) == (
            final(tree)@,
            (match r {
                Ok(_) => None,
                Err(e) => Some(e@),
            }),
        ),
{
    run_edits(ctx, tree, &fake_patch_list(ctx.family, &ctx.sublevel, &ctx.os_patch_level))
}

/// Makes the edits that take the fake patches back.
pub fn revert_susfs_fake_patches(ctx: &Ctx, tree: &mut Tree) -> (r: Result<(), Failure>)
    ensures
        edits_made(
            common_dir_of(ctx.workspace()),
            revert_patches(ctx.family, ctx.sublevel@, ctx.os_patch_level@),
            old(tree)@,
        ) == (
            final(tree)@,
            (match r {
                Ok(_) => None,
                Err(e) => Some(e@),
            }),
        ),
{
    run_edits(ctx, tree, &revert_patch_list(ctx.family, &ctx.sublevel, &ctx.os_patch_level))
}

} // verus!
