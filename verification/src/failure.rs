//! What can go wrong, and the message for it.
use crate::family::{family_names, known_families};
use crate::text::decimal;
use crate::words::decimal_text;
use vstd::prelude::*;
use vstd::string::*;

verus! {

/// A failure of a build step. Its view is the message shown to the user.
#[derive(Debug)]
pub enum Failure {
    /// The name is not one of a kernel family.
    UnknownFamily { value: String },
    /// A file that a step reads is not there or not text.
    CannotRead { path: String },
    /// A pattern does not compile.
    BadRegex { pattern: String },
    /// The kernel configuration is not there.
    ConfigMissing { path: String },
    /// A command ended with a status other than success.
    CommandFailed { status: String, shown: String },
    /// A command whose output is wanted ended with a status other than success.
    CaptureFailed { status: String, shown: String, stderr: String },
    /// A program cannot be started.
    CannotSpawn { program: String },
    /// A patch file is not there.
    PatchMissing { path: String },
    /// A patch did not apply.
    PatchFailed { path: String, status: String },
    /// A remote named no full commit for a reference.
    BadSha { repo: String, reference: String, sha: String },
    /// A checkout is not at the commit that was asked for.
    PinMismatch { name: String, expected: String, actual: String },
    /// An operation that was to be tried no times.
    RetryFailed,
    /// Programs that the build needs are not installed.
    MissingTools { names: String },
    /// A patch level does not begin with a year.
    BadYear { text: String },
    /// A patch level has no month behind its year.
    BadMonth { text: String },
    /// A patch level has a month that is none.
    MonthOutOfRange,
    /// A patch level has a year that the calendar does not reach.
    YearOutOfRange,
    /// A time stamp has no text.
    CannotFormat { name: String },
    /// The file that names the sublevel is not there.
    MakefileMissing { path: String },
    /// The file that names the sublevel does not name exactly one.
    SublevelCount { path: String, count: usize },
    /// The file that names the sublevel names no number.
    BadSublevel { value: String, path: String },
    /// The commit of the root implementation is not given in full.
    RootCommitNotFull { commit: String },
    /// Another root implementation is there.
    MixedRoots { found: String },
    /// The kernel tree has no drivers.
    NoDrivers,
    /// The kernel tree has a root integration already.
    IntegrationExists,
    /// The root implementation was checked out already.
    CheckoutExists { directory: String },
    /// No remote has the commit of the root implementation.
    RootUnresolved,
    /// The root implementation has no part for the kernel.
    NoIntegration,
    /// The SUSFS checkout is not at the commit that was asked for.
    SusfsMismatch { expected: String, actual: String },
    /// A SUSFS patch is not there, and all are required.
    SusfsPatchMissing { path: String },
    /// The `min_kdp` patch is not there.
    MinKdpPatchMissing { path: String },
    /// The `min_kdp` source is not there.
    MinKdpSourceMissing { path: String },
    /// A patch names a file outside the tree.
    UnsafePath { path: String },
    /// The `min_kdp` patch did not apply.
    MinKdpFailed,
    /// Lists of protected exports are there after their removal.
    ExportsRemain,
    /// The reference to the protected exports could not be taken out.
    ExportsUnchanged,
    /// A reference to the protected exports is left.
    ExportsReferenced,
    /// The list of protected modules did not change.
    ModulesUnchanged,
    /// The list of protected modules is not empty.
    ModulesNotEmpty,
    /// The version check has no label for a bad version.
    NoBadVersion { path: String },
    /// The version check does not fail behind the label.
    NoReturnZero,
    /// The build produced no image.
    NoImage { bazel: String, dist: String },
    /// Nothing is left to build.
    NoTargets { filter: String },
    /// Neither a family nor a configuration was named for a build.
    VersionRequired,
    /// No sublevel is given for a patch level that needs one.
    SublevelRequired,
    /// Neither a family nor a configuration was named for a list.
    ConfigOrVersionRequired,
}

impl View for Failure {
    type V = Seq<char>;

    open spec fn view(&self) -> Seq<char> {
        match self {
            Failure::UnknownFamily { value } => unknown_family_text(value@),
            Failure::CannotRead { path } => cannot_read_text(path@),
            Failure::BadRegex { pattern } => bad_regex_text(pattern@),
            Failure::ConfigMissing { path } => config_missing_text(path@),
            Failure::CommandFailed { status, shown } => command_failed_text(status@, shown@),
            Failure::CaptureFailed { status, shown, stderr } => capture_failed_text(status@, shown@, stderr@),
            Failure::CannotSpawn { program } => cannot_spawn_text(program@),
            Failure::PatchMissing { path } => patch_missing_text(path@),
            Failure::PatchFailed { path, status } => patch_failed_text(path@, status@),
            Failure::BadSha { repo, reference, sha } => bad_sha_text(repo@, reference@, sha@),
            Failure::PinMismatch { name, expected, actual } => pin_mismatch_text(name@, expected@, actual@),
            Failure::RetryFailed => retry_failed_text(),
            Failure::MissingTools { names } => missing_tools_text(names@),
            Failure::BadYear { text } => bad_year_text(text@),
            Failure::BadMonth { text } => bad_month_text(text@),
            Failure::MonthOutOfRange => month_out_of_range_text(),
            Failure::YearOutOfRange => year_out_of_range_text(),
            Failure::CannotFormat { name } => cannot_format_text(name@),
            Failure::MakefileMissing { path } => makefile_missing_text(path@),
            Failure::SublevelCount { path, count } => sublevel_count_text(path@, *count as nat),
            Failure::BadSublevel { value, path } => bad_sublevel_text(value@, path@),
            Failure::RootCommitNotFull { commit } => root_commit_not_full_text(commit@),
            Failure::MixedRoots { found } => mixed_roots_text(found@),
            Failure::NoDrivers => no_drivers_text(),
            Failure::IntegrationExists => integration_exists_text(),
            Failure::CheckoutExists { directory } => checkout_exists_text(directory@),
            Failure::RootUnresolved => root_unresolved_text(),
            Failure::NoIntegration => no_integration_text(),
            Failure::SusfsMismatch { expected, actual } => susfs_mismatch_text(expected@, actual@),
            Failure::SusfsPatchMissing { path } => susfs_patch_missing_text(path@),
            Failure::MinKdpPatchMissing { path } => min_kdp_patch_missing_text(path@),
            Failure::MinKdpSourceMissing { path } => min_kdp_source_missing_text(path@),
            Failure::UnsafePath { path } => unsafe_path_text(path@),
            Failure::MinKdpFailed => min_kdp_failed_text(),
            Failure::ExportsRemain => exports_remain_text(),
            Failure::ExportsUnchanged => exports_unchanged_text(),
            Failure::ExportsReferenced => exports_referenced_text(),
            Failure::ModulesUnchanged => modules_unchanged_text(),
            Failure::ModulesNotEmpty => modules_not_empty_text(),
            Failure::NoBadVersion { path } => no_bad_version_text(path@),
            Failure::NoReturnZero => no_return_zero_text(),
            Failure::NoImage { bazel, dist } => no_image_text(bazel@, dist@),
            Failure::NoTargets { filter } => no_targets_text(filter@),
            Failure::VersionRequired => version_required_text(),
            Failure::SublevelRequired => sublevel_required_text(),
            Failure::ConfigOrVersionRequired => config_or_version_required_text(),
        }
    }
}

impl Failure {
    /// The message shown to the user.
    pub fn message(&self) -> (r: String)
        ensures
            r@ == self@,
    {
        match self {
            Failure::UnknownFamily { value } => {
                let mut r = "unknown kernel family '".to_owned();
                r.append(value);
                r.append("' (expected one of: ");
                r.append(&family_names());
                r.append(")");
                r
            },
            Failure::CannotRead { path } => {
                let mut r = "cannot read ".to_owned();
                r.append(path);
                r
            },
            Failure::BadRegex { pattern } => {
                let mut r = "bad regex: ".to_owned();
                r.append(pattern);
                r
            },
            Failure::ConfigMissing { path } => {
                let mut r = "ERROR: gki_defconfig not found at ".to_owned();
                r.append(path);
                r
            },
            Failure::CommandFailed { status, shown } => {
                let mut r = "command failed (".to_owned();
                r.append(status);
                r.append("): ");
                r.append(shown);
                r
            },
            Failure::CaptureFailed { status, shown, stderr } => {
                let mut r = "command failed (".to_owned();
                r.append(status);
                r.append("): ");
                r.append(shown);
                r.append("\n");
                r.append(stderr);
                r
            },
            Failure::CannotSpawn { program } => {
                let mut r = "failed to spawn `".to_owned();
                r.append(program);
                r.append("`");
                r
            },
            Failure::PatchMissing { path } => {
                let mut r = "patch file not found: ".to_owned();
                r.append(path);
                r
            },
            Failure::PatchFailed { path, status } => {
                let mut r = "patch ".to_owned();
                r.append(path);
                r.append(" failed (");
                r.append(status);
                r.append(")");
                r
            },
            Failure::BadSha { repo, reference, sha } => {
                let mut r = "git ls-remote ".to_owned();
                r.append(repo);
                r.append(" ");
                r.append(reference);
                r.append(" returned `");
                r.append(sha);
                r.append("`");
                r
            },
            Failure::PinMismatch { name, expected, actual } => {
                let mut r = name.as_str().to_owned();
                r.append(" pin mismatch: expected ");
                r.append(expected);
                r.append(", got ");
                r.append(actual);
                r
            },
            Failure::RetryFailed => "retry failed".to_owned(),
            Failure::MissingTools { names } => {
                let mut r = "missing required tool(s): ".to_owned();
                r.append(names);
                r
            },
            Failure::BadYear { text } => {
                let mut r = "cannot parse year from '".to_owned();
                r.append(text);
                r.append("'");
                r
            },
            Failure::BadMonth { text } => {
                let mut r = "cannot parse month from '".to_owned();
                r.append(text);
                r.append("'");
                r
            },
            Failure::MonthOutOfRange => "month out of range".to_owned(),
            Failure::YearOutOfRange => "year was not in range".to_owned(),
            Failure::CannotFormat { name } => {
                let mut r = "cannot format ".to_owned();
                r.append(name);
                r
            },
            Failure::MakefileMissing { path } => {
                let mut r = "LTS build requires ".to_owned();
                r.append(path);
                r
            },
            Failure::SublevelCount { path, count } => {
                let mut r = "expected exactly one SUBLEVEL assignment in ".to_owned();
                r.append(path);
                r.append(", found ");
                r.append(&decimal_text(*count as u64));
                r
            },
            Failure::BadSublevel { value, path } => {
                let mut r = "invalid numeric SUBLEVEL '".to_owned();
                r.append(value);
                r.append("' in ");
                r.append(path);
                r
            },
            Failure::RootCommitNotFull { commit } => {
                let mut r = "root commit must be a full 40-character SHA (got '".to_owned();
                r.append(commit);
                r.append("')");
                r
            },
            Failure::MixedRoots { found } => {
                let mut r = "refusing mixed root implementations: found ".to_owned();
                r.append(found);
                r
            },
            Failure::NoDrivers => "kernel drivers directory not found".to_owned(),
            Failure::IntegrationExists => "refusing to replace an existing kernelsu integration".to_owned(),
            Failure::CheckoutExists { directory } => {
                let mut r = "refusing to reuse an existing root checkout: ".to_owned();
                r.append(directory);
                r
            },
            Failure::RootUnresolved => "could not resolve the KernelSU-Next commit on any remote".to_owned(),
            Failure::NoIntegration => "selected root checkout does not contain a kernel integration".to_owned(),
            Failure::SusfsMismatch { expected, actual } => {
                let mut r = "SUSFS commit mismatch: expected ".to_owned();
                r.append(expected);
                r.append(", got ");
                r.append(actual);
                r
            },
            Failure::SusfsPatchMissing { path } => {
                let mut r = "missing required SUSFS patch ".to_owned();
                r.append(path);
                r
            },
            Failure::MinKdpPatchMissing { path } => {
                let mut r = "missing Samsung min_kdp patch: ".to_owned();
                r.append(path);
                r
            },
            Failure::MinKdpSourceMissing { path } => {
                let mut r = "missing Samsung min_kdp source: ".to_owned();
                r.append(path);
                r
            },
            Failure::UnsafePath { path } => {
                let mut r = "unsafe Samsung patch path: ".to_owned();
                r.append(path);
                r
            },
            Failure::MinKdpFailed => "Samsung min_kdp patch failed; tree restored".to_owned(),
            Failure::ExportsRemain => "abi_gki_protected_exports_* still exists after removal".to_owned(),
            Failure::ExportsUnchanged => "common/BUILD.bazel was not modified for protected_exports_list".to_owned(),
            Failure::ExportsReferenced => "protected_exports_list reference still present in common/BUILD.bazel".to_owned(),
            Failure::ModulesUnchanged => "common/modules.bzl was not modified".to_owned(),
            Failure::ModulesNotEmpty => "protected_modules was not set to [] in common/modules.bzl".to_owned(),
            Failure::NoBadVersion { path } => {
                let mut r = "`bad_version:` not found in ".to_owned();
                r.append(path);
                r
            },
            Failure::NoReturnZero => "bypass hack: no `return 0;` found after `bad_version:`".to_owned(),
            Failure::NoImage { bazel, dist } => {
                let mut r = "no kernel Image produced (looked in ".to_owned();
                r.append(bazel);
                r.append(" and ");
                r.append(dist);
                r.append(")");
                r
            },
            Failure::NoTargets { filter } => {
                let mut r = "no build targets match patch level '".to_owned();
                r.append(filter);
                r.append("'");
                r
            },
            Failure::VersionRequired => "--version is required when --config is not used".to_owned(),
            Failure::SublevelRequired => "--sublevel is required unless --os-patch-level lts is used".to_owned(),
            Failure::ConfigOrVersionRequired => "either --config or --version is required".to_owned(),
        }
    }
}

pub open spec fn unknown_family_text(value: Seq<char>) -> Seq<char> {
    "unknown kernel family '"@ + value + "' (expected one of: "@ + known_families() + ")"@
}

pub open spec fn cannot_read_text(path: Seq<char>) -> Seq<char> {
    "cannot read "@ + path
}

pub open spec fn bad_regex_text(pattern: Seq<char>) -> Seq<char> {
    "bad regex: "@ + pattern
}

pub open spec fn config_missing_text(path: Seq<char>) -> Seq<char> {
    "ERROR: gki_defconfig not found at "@ + path
}

pub open spec fn command_failed_text(status: Seq<char>, shown: Seq<char>) -> Seq<char> {
    "command failed ("@ + status + "): "@ + shown
}

pub open spec fn capture_failed_text(status: Seq<char>, shown: Seq<char>, stderr: Seq<char>) -> Seq<char> {
    "command failed ("@ + status + "): "@ + shown + "\n"@ + stderr
}

pub open spec fn cannot_spawn_text(program: Seq<char>) -> Seq<char> {
    "failed to spawn `"@ + program + "`"@
}

pub open spec fn patch_missing_text(path: Seq<char>) -> Seq<char> {
    "patch file not found: "@ + path
}

pub open spec fn patch_failed_text(path: Seq<char>, status: Seq<char>) -> Seq<char> {
    "patch "@ + path + " failed ("@ + status + ")"@
}

pub open spec fn bad_sha_text(repo: Seq<char>, reference: Seq<char>, sha: Seq<char>) -> Seq<char> {
    "git ls-remote "@ + repo + " "@ + reference + " returned `"@ + sha + "`"@
}

pub open spec fn pin_mismatch_text(name: Seq<char>, expected: Seq<char>, actual: Seq<char>) -> Seq<char> {
    name + " pin mismatch: expected "@ + expected + ", got "@ + actual
}

pub open spec fn retry_failed_text() -> Seq<char> {
    "retry failed"@
}

pub open spec fn missing_tools_text(names: Seq<char>) -> Seq<char> {
    "missing required tool(s): "@ + names
}

pub open spec fn bad_year_text(text: Seq<char>) -> Seq<char> {
    "cannot parse year from '"@ + text + "'"@
}

pub open spec fn bad_month_text(text: Seq<char>) -> Seq<char> {
    "cannot parse month from '"@ + text + "'"@
}

pub open spec fn month_out_of_range_text() -> Seq<char> {
    "month out of range"@
}

pub open spec fn year_out_of_range_text() -> Seq<char> {
    "year was not in range"@
}

pub open spec fn cannot_format_text(name: Seq<char>) -> Seq<char> {
    "cannot format "@ + name
}

pub open spec fn makefile_missing_text(path: Seq<char>) -> Seq<char> {
    "LTS build requires "@ + path
}

pub open spec fn sublevel_count_text(path: Seq<char>, count: nat) -> Seq<char> {
    "expected exactly one SUBLEVEL assignment in "@ + path + ", found "@ + decimal(count)
}

pub open spec fn bad_sublevel_text(value: Seq<char>, path: Seq<char>) -> Seq<char> {
    "invalid numeric SUBLEVEL '"@ + value + "' in "@ + path
}

pub open spec fn root_commit_not_full_text(commit: Seq<char>) -> Seq<char> {
    "root commit must be a full 40-character SHA (got '"@ + commit + "')"@
}

pub open spec fn mixed_roots_text(found: Seq<char>) -> Seq<char> {
    "refusing mixed root implementations: found "@ + found
}

pub open spec fn no_drivers_text() -> Seq<char> {
    "kernel drivers directory not found"@
}

pub open spec fn integration_exists_text() -> Seq<char> {
    "refusing to replace an existing kernelsu integration"@
}

pub open spec fn checkout_exists_text(directory: Seq<char>) -> Seq<char> {
    "refusing to reuse an existing root checkout: "@ + directory
}

pub open spec fn root_unresolved_text() -> Seq<char> {
    "could not resolve the KernelSU-Next commit on any remote"@
}

pub open spec fn no_integration_text() -> Seq<char> {
    "selected root checkout does not contain a kernel integration"@
}

pub open spec fn susfs_mismatch_text(expected: Seq<char>, actual: Seq<char>) -> Seq<char> {
    "SUSFS commit mismatch: expected "@ + expected + ", got "@ + actual
}

pub open spec fn susfs_patch_missing_text(path: Seq<char>) -> Seq<char> {
    "missing required SUSFS patch "@ + path
}

pub open spec fn min_kdp_patch_missing_text(path: Seq<char>) -> Seq<char> {
    "missing Samsung min_kdp patch: "@ + path
}

pub open spec fn min_kdp_source_missing_text(path: Seq<char>) -> Seq<char> {
    "missing Samsung min_kdp source: "@ + path
}

pub open spec fn unsafe_path_text(path: Seq<char>) -> Seq<char> {
    "unsafe Samsung patch path: "@ + path
}

pub open spec fn min_kdp_failed_text() -> Seq<char> {
    "Samsung min_kdp patch failed; tree restored"@
}

pub open spec fn exports_remain_text() -> Seq<char> {
    "abi_gki_protected_exports_* still exists after removal"@
}

pub open spec fn exports_unchanged_text() -> Seq<char> {
    "common/BUILD.bazel was not modified for protected_exports_list"@
}

pub open spec fn exports_referenced_text() -> Seq<char> {
    "protected_exports_list reference still present in common/BUILD.bazel"@
}

pub open spec fn modules_unchanged_text() -> Seq<char> {
    "common/modules.bzl was not modified"@
}

pub open spec fn modules_not_empty_text() -> Seq<char> {
    "protected_modules was not set to [] in common/modules.bzl"@
}

pub open spec fn no_bad_version_text(path: Seq<char>) -> Seq<char> {
    "`bad_version:` not found in "@ + path
}

pub open spec fn no_return_zero_text() -> Seq<char> {
    "bypass hack: no `return 0;` found after `bad_version:`"@
}

pub open spec fn no_image_text(bazel: Seq<char>, dist: Seq<char>) -> Seq<char> {
    "no kernel Image produced (looked in "@ + bazel + " and "@ + dist + ")"@
}

pub open spec fn no_targets_text(filter: Seq<char>) -> Seq<char> {
    "no build targets match patch level '"@ + filter + "'"@
}

pub open spec fn version_required_text() -> Seq<char> {
    "--version is required when --config is not used"@
}

pub open spec fn sublevel_required_text() -> Seq<char> {
    "--sublevel is required unless --os-patch-level lts is used"@
}

pub open spec fn config_or_version_required_text() -> Seq<char> {
    "either --config or --version is required"@
}

} // verus!
