//! The options of a run and the state of one build.
use crate::family::{id_of, Family};
use crate::paths::{joined_path, path_join};
use crate::targets::Target;
use crate::text::texts;
use crate::words::{cat3, cat4};
use vstd::prelude::*;

verus! {

/// The options of a run.
#[derive(Debug, Clone)]
pub struct Options {
    pub workspace: String,
    pub output_dir: String,
    pub bazel_cache: String,
    pub brand_name: String,
    pub variant: String,
    pub jobs: usize,
    pub bypass: bool,
    pub use_cache: bool,
    pub strict_patches: bool,
    pub root_commit: Option<String>,
    pub susfs_commit: Option<String>,
    pub droidspaces_commit: Option<String>,
    pub kernel_patches_commit: Option<String>,
    pub anykernel3_commit: Option<String>,
}

impl Options {
    /// The number of parallel jobs: as asked for, else one per core, else four.
    pub fn jobs(&self, cores: Option<usize>) -> (r: usize)
        ensures
            r == (if self.jobs > 0 {
                self.jobs
            } else {
                match cores {
                    Some(n) => n,
                    None => 4,
                }
            }),
    {
        if self.jobs > 0 {
            self.jobs
        } else {
            match cores {
                Some(n) => n,
                None => 4,
            }
        }
    }
}

/// The state of one build: one family, sublevel and patch level.
pub struct Ctx {
    pub opts: Options,
    pub family: Family,
    pub sublevel_input: String,
    pub os_patch_level: String,
    /// The sublevel once it is resolved.
    pub sublevel: String,
    /// `{kernel}.{sublevel}-{android}-{os_patch_level}[-{variant}]`.
    pub file_name: String,
    pub source_date_epoch: i64,
    pub kbuild_timestamp: String,
    pub git_date: String,
    pub kernel_sha: String,
    pub root_sha: String,
    pub susfs_sha: String,
    pub root_repo: String,
    pub droidspaces_sha: String,
    /// What was fixed, for the summary.
    pub notes: Vec<String>,
}

/// The directory of the kernel sources.
pub open spec fn kernel_dir_of(workspace: Seq<char>) -> Seq<char> {
    joined_path(workspace, "kernel"@)
}

/// The directory of the common kernel tree.
pub open spec fn common_dir_of(workspace: Seq<char>) -> Seq<char> {
    joined_path(kernel_dir_of(workspace), "common"@)
}

/// The line that the log shows for a message.
pub open spec fn log_line(file_name: Seq<char>, message: Seq<char>) -> Seq<char> {
    "[trustgki "@ + file_name + "] "@ + message
}

/// The fork of KernelSU-Next that carries SUSFS.
pub open spec fn ksu_next_susfs_repo() -> Seq<char> {
    "https://github.com/pershoot/KernelSU-Next.git"@
}

impl Ctx {
    pub open spec fn workspace(&self) -> Seq<char> {
        self.opts.workspace@
    }

    /// Nothing but the notes differs.
    pub open spec fn same_but_notes(&self, other: &Ctx) -> bool {
        *self == (Ctx { notes: self.notes, ..*other })
    }

    /// The state at the start of a build.
    pub fn new(
        opts: Options,
        family: Family,
        sublevel_input: String,
        os_patch_level: String,
    ) -> (r: Ctx)
        ensures
            r.opts == opts,
            r.family == family,
            r.sublevel_input == sublevel_input,
            r.os_patch_level == os_patch_level,
            r.sublevel@ == "X"@,
            r.file_name@ == id_of(family) + "-"@ + os_patch_level@,
            r.source_date_epoch == 0,
            r.kbuild_timestamp@ == Seq::<char>::empty(),
            r.git_date@ == Seq::<char>::empty(),
            r.kernel_sha@ == "N/A"@,
            r.root_sha@ == "N/A"@,
            r.susfs_sha@ == "N/A"@,
            r.root_repo@ == ksu_next_susfs_repo(),
            r.droidspaces_sha@ == "N/A"@,
            r.notes@ == Seq::<String>::empty(),
    {
        let provisional = cat3(family.id(), "-", &os_patch_level);
        Ctx {
            opts,
            family,
            sublevel_input,
            os_patch_level,
            sublevel: "X".to_owned(),
            file_name: provisional,
            source_date_epoch: 0,
            kbuild_timestamp: String::new(),
            git_date: String::new(),
            kernel_sha: "N/A".to_owned(),
            root_sha: "N/A".to_owned(),
            susfs_sha: "N/A".to_owned(),
            root_repo: "https://github.com/pershoot/KernelSU-Next.git".to_owned(),
            droidspaces_sha: "N/A".to_owned(),
            notes: Vec::new(),
        }
    }

    /// The state at the start of the build of a target. The variant of the target is that of
    /// the build.
    pub fn for_target(opts: Options, t: &Target) -> (r: Ctx)
        ensures
            r.opts == (Options { variant: r.opts.variant, ..opts }),
            r.opts.variant@ == t.variant@,
            r.family == t.family,
            r.sublevel_input@ == t.sublevel@,
            r.os_patch_level@ == t.os_patch_level@,
            r.sublevel@ == "X"@,
            r.file_name@ == id_of(t.family) + "-"@ + t.os_patch_level@,
            r.source_date_epoch == 0,
            r.kbuild_timestamp@ == Seq::<char>::empty(),
            r.git_date@ == Seq::<char>::empty(),
            r.kernel_sha@ == "N/A"@,
            r.root_sha@ == "N/A"@,
            r.susfs_sha@ == "N/A"@,
            r.root_repo@ == ksu_next_susfs_repo(),
            r.droidspaces_sha@ == "N/A"@,
            r.notes@ == Seq::<String>::empty(),
    {
        Ctx::new(
            Options { variant: t.variant.as_str().to_owned(), ..opts },
            t.family,
            t.sublevel.as_str().to_owned(),
            t.os_patch_level.as_str().to_owned(),
        )
    }

    /// The directory of the kernel sources.
    pub fn kernel_dir(&self) -> (r: String)
        ensures
            r@ == kernel_dir_of(self.workspace()),
    {
        path_join(&self.opts.workspace, "kernel")
    }

    /// The directory of the common kernel tree.
    pub fn common_dir(&self) -> (r: String)
        ensures
            r@ == common_dir_of(self.workspace()),
    {
        path_join(&self.kernel_dir(), "common")
    }

    /// The kernel configuration that the build starts from.
    pub fn defconfig(&self) -> (r: String)
        ensures
            r@ == joined_path(
                common_dir_of(self.workspace()),
                "arch/arm64/configs/gki_defconfig"@,
            ),
    {
        path_join(&self.common_dir(), "arch/arm64/configs/gki_defconfig")
    }

    /// The checkout of the kernel patches.
    pub fn kernel_patches(&self) -> (r: String)
        ensures
            r@ == joined_path(self.workspace(), "kernel_patches"@),
    {
        path_join(&self.opts.workspace, "kernel_patches")
    }

    /// The checkout of AnyKernel3.
    pub fn any_kernel3(&self) -> (r: String)
        ensures
            r@ == joined_path(self.workspace(), "AnyKernel3"@),
    {
        path_join(&self.opts.workspace, "AnyKernel3")
    }

    /// The checkout of SUSFS.
    pub fn susfs_dir(&self) -> (r: String)
        ensures
            r@ == joined_path(self.workspace(), "susfs4ksu"@),
    {
        path_join(&self.opts.workspace, "susfs4ksu")
    }

    /// The checkout of Droidspaces-OSS.
    pub fn droidspaces_dir(&self) -> (r: String)
        ensures
            r@ == joined_path(self.workspace(), "Droidspaces-OSS"@),
    {
        path_join(&self.opts.workspace, "Droidspaces-OSS")
    }

    /// Where rejected hunks are collected.
    pub fn rejects_dir(&self) -> (r: String)
        ensures
            r@ == joined_path(self.workspace(), "patch-rejects"@),
    {
        path_join(&self.opts.workspace, "patch-rejects")
    }

    /// The build directory.
    pub fn out_dir(&self) -> (r: String)
        ensures
            r@ == joined_path(self.workspace(), "out"@),
    {
        path_join(&self.opts.workspace, "out")
    }

    /// The script whose absence means that the kernel is built with bazel.
    pub fn legacy_script(&self) -> (r: String)
        ensures
            r@ == joined_path(kernel_dir_of(self.workspace()), "build/build.sh"@),
    {
        path_join(&self.kernel_dir(), "build/build.sh")
    }

    /// The kernel is built with bazel unless the legacy script is there.
    pub fn uses_bazel(&self, legacy_script_exists: bool) -> (r: bool)
        ensures
            r == !legacy_script_exists,
    {
        !legacy_script_exists
    }

    /// The line that the log shows for a message.
    pub fn log(&self, message: &str) -> (r: String)
        ensures
            r@ == log_line(self.file_name@, message@),
    {
        cat4("[trustgki ", &self.file_name, "] ", message)
    }

    /// Keeps a message for the summary and gives back the line for the log.
    pub fn note(&mut self, message: String) -> (r: String)
        ensures
            r@ == log_line(old(self).file_name@, message@),
            texts(final(self).notes@) == texts(old(self).notes@).push(message@),
            final(self).same_but_notes(old(self)),
    {
        let line = self.log(&message);
        self.notes.push(message);
        assert(texts(self.notes@) =~= texts(old(self).notes@).push(message@));
        line
    }
}

} // verus!
