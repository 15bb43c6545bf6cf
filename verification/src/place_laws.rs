//! Where things are in a workspace.
use crate::ctx::{common_dir_of, kernel_dir_of};
use crate::device::{min_kdp_patch_of, min_kdp_source_of, save_dir_of};
use crate::features::{droidspaces_dir_of, susfs_dir_of, susfs_source_steps};
use crate::finish::{stamp_rules_of, version_script_of};
use crate::kernel::image_candidates_of;
use crate::paths::joined_path;
use crate::plan::StepModel;
use crate::sources::repo_tool_of;
use crate::summary::susfs_header_of;
use vstd::prelude::*;

verus! {

/// A name below a directory that is not written with a slash at its end.
proof fn lemma_below(dir: Seq<char>, name: Seq<char>)
    requires
        dir.len() > 0,
        dir.last() != '/',
        name.len() > 0,
        name[0] != '/',
        name.last() != '/',
    ensures
        joined_path(dir, name) == dir + "/"@ + name,
        joined_path(dir, name).len() > 0,
        joined_path(dir, name).last() != '/',
{
}

/// In a workspace that is not written with a slash at its end, the sources, the checkouts,
/// the tools and the images are at fixed places.
pub proof fn law_places_in_a_workspace(ws: Seq<char>)
    requires
        ws.len() > 0,
        ws.last() != '/',
    ensures
        kernel_dir_of(ws) == ws + "/kernel"@,
        common_dir_of(ws) == ws + "/kernel/common"@,
        susfs_dir_of(ws) == ws + "/susfs4ksu"@,
        droidspaces_dir_of(ws) == ws + "/Droidspaces-OSS"@,
        save_dir_of(ws) == ws + "/.samsung-tx"@,
        min_kdp_patch_of(ws) == ws + "/kernel_patches/samsung/min_kdp/add-min_kdp-symbols.patch"@,
        min_kdp_source_of(ws) == ws + "/kernel_patches/samsung/min_kdp/min_kdp.c"@,
        repo_tool_of(ws) == ws + "/git-repo/repo"@,
        version_script_of(ws) == ws + "/kernel/common/scripts/setlocalversion"@,
        stamp_rules_of(ws) == ws + "/kernel/build/kernel/kleaf/impl/stamp.bzl"@,
        susfs_header_of(ws) == ws + "/kernel/common/include/linux/susfs.h"@,
        image_candidates_of(ws)[0] == ws + "/kernel/bazel-bin/common/kernel_aarch64/Image"@,
        image_candidates_of(ws)[1] == ws + "/out/dist/Image"@,
        image_candidates_of(ws)[2] == ws + "/out/Image"@,
{
    reveal_strlit("/");
    reveal_strlit("kernel");
    reveal_strlit("/kernel");
    reveal_strlit("common");
    reveal_strlit("/kernel/common");
    reveal_strlit("susfs4ksu");
    reveal_strlit("/susfs4ksu");
    reveal_strlit("Droidspaces-OSS");
    reveal_strlit("/Droidspaces-OSS");
    reveal_strlit(".samsung-tx");
    reveal_strlit("/.samsung-tx");
    reveal_strlit("kernel_patches");
    reveal_strlit("samsung/min_kdp/add-min_kdp-symbols.patch");
    reveal_strlit("/kernel_patches/samsung/min_kdp/add-min_kdp-symbols.patch");
    reveal_strlit("samsung/min_kdp/min_kdp.c");
    reveal_strlit("/kernel_patches/samsung/min_kdp/min_kdp.c");
    reveal_strlit("git-repo/repo");
    reveal_strlit("/git-repo/repo");
    reveal_strlit("common/scripts/setlocalversion");
    reveal_strlit("/kernel/common/scripts/setlocalversion");
    reveal_strlit("build/kernel/kleaf/impl/stamp.bzl");
    reveal_strlit("/kernel/build/kernel/kleaf/impl/stamp.bzl");
    reveal_strlit("include/linux/susfs.h");
    reveal_strlit("/kernel/common/include/linux/susfs.h");
    reveal_strlit("bazel-bin/common/kernel_aarch64/Image");
    reveal_strlit("/kernel/bazel-bin/common/kernel_aarch64/Image");
    reveal_strlit("out");
    reveal_strlit("dist/Image");
    reveal_strlit("/out/dist/Image");
    reveal_strlit("Image");
    reveal_strlit("/out/Image");
    lemma_below(ws, "kernel"@);
    lemma_below(joined_path(ws, "kernel"@), "common"@);
    lemma_below(ws, "susfs4ksu"@);
    lemma_below(ws, "Droidspaces-OSS"@);
    lemma_below(ws, ".samsung-tx"@);
    lemma_below(ws, "kernel_patches"@);
    lemma_below(joined_path(ws, "kernel_patches"@), "samsung/min_kdp/add-min_kdp-symbols.patch"@);
    lemma_below(joined_path(ws, "kernel_patches"@), "samsung/min_kdp/min_kdp.c"@);
    lemma_below(ws, "git-repo/repo"@);
    lemma_below(joined_path(ws, "kernel"@), "common/scripts/setlocalversion"@);
    lemma_below(joined_path(ws, "kernel"@), "build/kernel/kleaf/impl/stamp.bzl"@);
    lemma_below(joined_path(joined_path(ws, "kernel"@), "common"@), "include/linux/susfs.h"@);
    lemma_below(joined_path(ws, "kernel"@), "bazel-bin/common/kernel_aarch64/Image"@);
    lemma_below(ws, "out"@);
    lemma_below(joined_path(ws, "out"@), "dist/Image"@);
    lemma_below(joined_path(ws, "out"@), "Image"@);
    assert(kernel_dir_of(ws) =~= ws + "/kernel"@);
    assert(common_dir_of(ws) =~= ws + "/kernel/common"@);
    assert(susfs_dir_of(ws) =~= ws + "/susfs4ksu"@);
    assert(droidspaces_dir_of(ws) =~= ws + "/Droidspaces-OSS"@);
    assert(save_dir_of(ws) =~= ws + "/.samsung-tx"@);
    assert(min_kdp_patch_of(ws) =~= ws + "/kernel_patches/samsung/min_kdp/add-min_kdp-symbols.patch"@);
    assert(min_kdp_source_of(ws) =~= ws + "/kernel_patches/samsung/min_kdp/min_kdp.c"@);
    assert(repo_tool_of(ws) =~= ws + "/git-repo/repo"@);
    assert(version_script_of(ws) =~= ws + "/kernel/common/scripts/setlocalversion"@);
    assert(stamp_rules_of(ws) =~= ws + "/kernel/build/kernel/kleaf/impl/stamp.bzl"@);
    assert(susfs_header_of(ws) =~= ws + "/kernel/common/include/linux/susfs.h"@);
    assert(image_candidates_of(ws)[0] =~= ws + "/kernel/bazel-bin/common/kernel_aarch64/Image"@);
    assert(image_candidates_of(ws)[1] =~= ws + "/out/dist/Image"@);
    assert(image_candidates_of(ws)[2] =~= ws + "/out/Image"@);
}

/// The header that names the version of SUSFS is looked for where the sources of SUSFS
/// were copied to.
pub proof fn law_header_comes_with_the_sources(ws: Seq<char>)
    requires
        ws.len() > 0,
        ws.last() != '/',
    ensures
        exists|i: int|
            0 <= i < susfs_source_steps(ws).len() && (#[trigger] susfs_source_steps(
                ws,
            )[i] matches StepModel::CopyFiles { to, .. } && susfs_header_of(ws) == joined_path(
                to,
                "susfs.h"@,
            )),
{
    reveal_strlit("kernel");
    reveal_strlit("common");
    reveal_strlit("include/linux");
    reveal_strlit("include/linux/susfs.h");
    reveal_strlit("susfs.h");
    reveal_strlit("/");
    lemma_below(ws, "kernel"@);
    lemma_below(kernel_dir_of(ws), "common"@);
    let common = common_dir_of(ws);
    lemma_below(common, "include/linux"@);
    lemma_below(common, "include/linux/susfs.h"@);
    lemma_below(joined_path(common, "include/linux"@), "susfs.h"@);
    assert(susfs_header_of(ws) =~= joined_path(joined_path(common, "include/linux"@), "susfs.h"@));
    assert(susfs_source_steps(ws)[5] is CopyFiles);
}

} // verus!
