//! The edits around the SUSFS integration patch.
use trustgki::ctx::{Ctx, Options};
use trustgki::family::Family;
use trustgki::susfs::{
    apply_susfs_fake_patches, fake_patch_list, revert_patch_list, revert_susfs_fake_patches,
};
use trustgki::tree::Tree;

fn context(family: Family, sublevel: &str, level: &str) -> Ctx {
    let opts = Options {
        workspace: "/ws".to_string(),
        output_dir: "/ws/out".to_string(),
        bazel_cache: "/ws/bazel".to_string(),
        brand_name: "Wild".to_string(),
        variant: "Normal".to_string(),
        jobs: 1,
        bypass: false,
        use_cache: false,
        strict_patches: false,
        root_commit: None,
        susfs_commit: None,
        droidspaces_commit: None,
        kernel_patches_commit: None,
        anykernel3_commit: None,
    };
    let mut ctx = Ctx::new(opts, family, sublevel.to_string(), level.to_string());
    ctx.sublevel = sublevel.to_string();
    ctx
}

fn paths(list: &[trustgki::edits::FileEdit]) -> Vec<&'static str> {
    list.iter().map(|e| e.path).collect()
}

#[test]
fn android16_6_12_fake_patches_round_trip() {
    let ctx = context(Family::Android16_6_12, "69", "2026-03");
    let mut tree = Tree::new();
    let exec_before = "#include <linux/fs.h>\n#include <linux/dma-buf.h>\n#include <linux/mm.h>\n";
    let mmu_before =
        "static void show_smap(struct seq_file *m, void *v)\n{\n\tvma_data_pages(vma);\n}\n";
    tree.set("fs/exec.c", exec_before.to_string());
    tree.set("fs/proc/task_mmu.c", mmu_before.to_string());

    apply_susfs_fake_patches(&ctx, &mut tree).unwrap();
    assert_eq!(
        tree.get("fs/exec.c").unwrap(),
        "#include <linux/fs.h>\n#include <linux/mm.h>\n"
    );
    assert_eq!(
        tree.get("fs/proc/task_mmu.c").unwrap(),
        "static void show_smap(struct seq_file *m, void *v)\n{\n\tvma_pages(vma);\n}\n"
    );

    revert_susfs_fake_patches(&ctx, &mut tree).unwrap();
    let exec_after = tree.get("fs/exec.c").unwrap();
    assert_eq!(exec_after.matches("#include <linux/dma-buf.h>").count(), 1);
    assert_eq!(tree.get("fs/proc/task_mmu.c").unwrap(), mmu_before);
}

#[test]
fn a_file_that_is_not_there_stops_the_edits() {
    let ctx = context(Family::Android13_5_15, "41", "2023-01");
    let mut tree = Tree::new();
    tree.set("fs/namespace.c", "#include <linux/shmem_fs.h>\n".to_string());
    let e = apply_susfs_fake_patches(&ctx, &mut tree).unwrap_err();
    assert_eq!(e.message(), "cannot read /ws/kernel/common/fs/open.c");
    // What came before stands.
    assert_eq!(
        tree.get("fs/namespace.c"),
        Some("#include <linux/shmem_fs.h>\n#include <linux/mnt_idmapping.h>\n")
    );
    assert_eq!(tree.get("fs/open.c"), None);
}

#[test]
fn inserted_includes_are_taken_out_again() {
    let ctx = context(Family::Android14_6_1, "25", "2024-05");
    let base = "#include <trace/events/oom.h>\nint x;\n#include <linux/cpufreq_times.h>\n";
    let mut tree = Tree::new();
    tree.set("fs/proc/base.c", base.to_string());
    apply_susfs_fake_patches(&ctx, &mut tree).unwrap();
    assert_eq!(
        tree.get("fs/proc/base.c"),
        Some("#include <trace/events/oom.h>\n#include <trace/hooks/sched.h>\nint x;\n#include <linux/cpufreq_times.h>\n#include <linux/dma-buf.h>\n")
    );
    revert_susfs_fake_patches(&ctx, &mut tree).unwrap();
    assert_eq!(tree.get("fs/proc/base.c"), Some(base));
}

#[test]
fn the_edits_go_by_family_sublevel_and_patch_level() {
    let list = |f, s: &str, l: &str| paths(&fake_patch_list(f, s, l));
    assert_eq!(list(Family::Android12_5_10, "43", ""), ["fs/proc/base.c", "fs/notify/fdinfo.c"]);
    assert_eq!(list(Family::Android12_5_10, "44", ""), ["fs/notify/fdinfo.c"]);
    assert!(list(Family::Android12_5_10, "118", "").is_empty());
    assert_eq!(list(Family::Android13_5_10, "107", ""), ["fs/notify/fdinfo.c"]);
    assert!(list(Family::Android13_5_10, "108", "").is_empty());
    assert_eq!(
        list(Family::Android13_5_15, "197", ""),
        ["fs/namespace.c", "fs/proc/task_mmu.c"]
    );
    assert!(list(Family::Android14_5_15, "1", "").is_empty());
    assert_eq!(
        list(Family::Android15_6_6, "30", "2024-07"),
        ["fs/proc/task_mmu.c", "fs/proc/task_mmu.c", "fs/proc/base.c", "mm/memory.c"]
    );
    assert_eq!(
        list(Family::Android15_6_6, "30", "2024-08"),
        ["fs/proc/task_mmu.c", "fs/proc/base.c", "mm/memory.c"]
    );
    assert_eq!(list(Family::Android15_6_6, "92", ""), ["fs/proc/base.c"]);
    assert_eq!(list(Family::Android16_6_12, "58", ""), ["fs/exec.c"]);
    // A sublevel that is no number meets no bound.
    assert!(list(Family::Android16_6_12, "X", "").is_empty());
}

#[test]
fn reverts_know_the_show_pad_fix() {
    let list = |f, s: &str, l: &str| paths(&revert_patch_list(f, s, l));
    assert_eq!(list(Family::Android12_5_10, "209", "2024-05"), ["fs/proc/task_mmu.c"]);
    assert_eq!(list(Family::Android13_5_10, "209", "2024-06"), ["fs/proc/task_mmu.c"]);
    assert!(list(Family::Android13_5_10, "209", "2024-05").is_empty());
    assert_eq!(list(Family::Android14_5_15, "148", ""), ["fs/proc/task_mmu.c"]);
    assert!(list(Family::Android14_5_15, "149", "").is_empty());
    // The includes that go out from 197 on come back from there on.
    assert!(list(Family::Android13_5_15, "196", "").is_empty());
    assert_eq!(list(Family::Android13_5_15, "197", ""), ["fs/namespace.c", "fs/proc/task_mmu.c"]);
    let ctx = context(Family::Android14_6_1, "75", "2024-06");
    let mut tree = Tree::new();
    tree.set("fs/proc/base.c", String::new());
    tree.set("fs/proc/task_mmu.c", "\tgoto show_pad;\n".to_string());
    revert_susfs_fake_patches(&ctx, &mut tree).unwrap();
    assert_eq!(tree.get("fs/proc/task_mmu.c"), Some("\treturn 0;\n"));
}

#[test]
fn the_6_6_tree_is_restored() {
    let ctx = context(Family::Android15_6_6, "57", "2025-01");
    let base = "#include <linux/cpufreq_times.h>\nint a;";
    let memory = "#include <linux/sched/sysctl.h>\n#include <linux/sched/sysctl.h>\n";
    let mut tree = Tree::new();
    tree.set("fs/proc/base.c", base.to_string());
    tree.set("mm/memory.c", memory.to_string());
    apply_susfs_fake_patches(&ctx, &mut tree).unwrap();
    assert_eq!(
        tree.get("fs/proc/base.c"),
        Some("#include <linux/cpufreq_times.h>\n#include <linux/dma-buf.h>\nint a;")
    );
    revert_susfs_fake_patches(&ctx, &mut tree).unwrap();
    assert_eq!(tree.get("fs/proc/base.c"), Some(base));
    assert_eq!(tree.get("mm/memory.c"), Some(memory));
}

#[test]
fn the_5_15_tree_is_restored() {
    let ctx = context(Family::Android13_5_15, "200", "2026-01");
    let namespace = "#include \"internal.h\"\n#include <trace/hooks/blk.h>\n";
    let mmu = "#include <linux/pkeys.h>\n#include <trace/hooks/mm.h>\n";
    let mut tree = Tree::new();
    tree.set("fs/namespace.c", namespace.to_string());
    tree.set("fs/proc/task_mmu.c", mmu.to_string());
    apply_susfs_fake_patches(&ctx, &mut tree).unwrap();
    assert_eq!(tree.get("fs/namespace.c"), Some("#include \"internal.h\"\n"));
    assert_eq!(tree.get("fs/proc/task_mmu.c"), Some("#include <linux/pkeys.h>\n"));
    revert_susfs_fake_patches(&ctx, &mut tree).unwrap();
    assert_eq!(tree.get("fs/namespace.c"), Some(namespace));
    assert_eq!(tree.get("fs/proc/task_mmu.c"), Some(mmu));
}

#[test]
fn the_old_5_15_tree_keeps_what_it_needs() {
    let ctx = context(Family::Android13_5_15, "41", "2024-05");
    let namespace = "#include <linux/shmem_fs.h>\nint a;\n";
    let open = "#include <linux/compat.h>";
    let mut tree = Tree::new();
    tree.set("fs/namespace.c", namespace.to_string());
    tree.set("fs/open.c", open.to_string());
    tree.set("fs/notify/fdinfo.c", "ignored_mask:%x\n".to_string());
    tree.set("fs/susfs.c", "i_uid_into_mnt(i_user_ns(inode), inode).val\n".to_string());
    apply_susfs_fake_patches(&ctx, &mut tree).unwrap();
    assert_eq!(
        tree.get("fs/open.c"),
        Some("#include <linux/compat.h>\n#include <linux/mnt_idmapping.h>\n")
    );
    revert_susfs_fake_patches(&ctx, &mut tree).unwrap();
    assert_eq!(tree.get("fs/namespace.c"), Some(namespace));
    // The last line has its line feed now.
    assert_eq!(tree.get("fs/open.c"), Some("#include <linux/compat.h>\n"));
    assert_eq!(tree.get("fs/notify/fdinfo.c"), Some("ignored_mask:0\n"));
    assert_eq!(tree.get("fs/susfs.c"), Some("i_uid_into_mnt(&init_user_ns, inode).val\n"));
}

#[test]
fn the_6_12_tree_is_restored_below_69() {
    let ctx = context(Family::Android16_6_12, "58", "2026-01");
    let mut tree = Tree::new();
    tree.set("fs/exec.c", "#include <linux/fs.h>\n#include <linux/dma-buf.h>\n".to_string());
    apply_susfs_fake_patches(&ctx, &mut tree).unwrap();
    revert_susfs_fake_patches(&ctx, &mut tree).unwrap();
    assert_eq!(
        tree.get("fs/exec.c"),
        Some("#include <linux/fs.h>\n#include <linux/dma-buf.h>\n")
    );
}
