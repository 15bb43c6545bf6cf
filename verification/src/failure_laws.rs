//! What the messages of failures promise.
use crate::failure::{
    bad_month_text, bad_regex_text, bad_sha_text, bad_sublevel_text, bad_year_text,
    cannot_format_text, cannot_read_text, cannot_spawn_text, capture_failed_text,
    checkout_exists_text, command_failed_text, config_missing_text,
    config_or_version_required_text, exports_referenced_text, exports_remain_text,
    exports_unchanged_text, integration_exists_text, makefile_missing_text, min_kdp_failed_text,
    min_kdp_patch_missing_text, min_kdp_source_missing_text, missing_tools_text, mixed_roots_text,
    modules_not_empty_text, modules_unchanged_text, month_out_of_range_text, no_bad_version_text,
    no_drivers_text, no_image_text, no_integration_text, no_return_zero_text, no_targets_text,
    patch_failed_text, patch_missing_text, pin_mismatch_text, root_commit_not_full_text,
    root_unresolved_text, sublevel_count_text, sublevel_required_text, susfs_mismatch_text,
    susfs_patch_missing_text, unknown_family_text, unsafe_path_text, version_required_text,
    year_out_of_range_text,
};
use crate::family::known_families;
use crate::text::{decimal, occurs, occurs_at};
use vstd::prelude::*;

verus! {

/// A text stands in every text that has it between others.
proof fn lemma_stands_between(a: Seq<char>, x: Seq<char>, b: Seq<char>)
    ensures
        occurs(a + x + b, x),
        occurs(a + x, x),
        occurs(x + b, x),
{
    assert((a + x + b).subrange(a.len() as int, (a.len() + x.len()) as int) =~= x);
    assert(occurs_at(a + x + b, x, a.len() as int));
    assert((a + x).subrange(a.len() as int, (a.len() + x.len()) as int) =~= x);
    assert(occurs_at(a + x, x, a.len() as int));
    assert((x + b).subrange(0, x.len() as int) =~= x);
    assert(occurs_at(x + b, x, 0));
}

/// A message about a file, a tool, a commit or another text names it.
pub proof fn law_messages_name_their_subject(x: Seq<char>)
    ensures
        occurs(cannot_read_text(x), x),
        occurs(config_missing_text(x), x),
        occurs(patch_missing_text(x), x),
        occurs(makefile_missing_text(x), x),
        occurs(susfs_patch_missing_text(x), x),
        occurs(min_kdp_patch_missing_text(x), x),
        occurs(min_kdp_source_missing_text(x), x),
        occurs(unsafe_path_text(x), x),
        occurs(no_bad_version_text(x), x),
        occurs(bad_regex_text(x), x),
        occurs(cannot_spawn_text(x), x),
        occurs(cannot_format_text(x), x),
        occurs(missing_tools_text(x), x),
        occurs(bad_year_text(x), x),
        occurs(bad_month_text(x), x),
        occurs(checkout_exists_text(x), x),
        occurs(mixed_roots_text(x), x),
        occurs(root_commit_not_full_text(x), x),
        occurs(no_targets_text(x), x),
        occurs(unknown_family_text(x), x),
{
    lemma_stands_between("cannot read "@, x, x);
    lemma_stands_between("ERROR: gki_defconfig not found at "@, x, x);
    lemma_stands_between("patch file not found: "@, x, x);
    lemma_stands_between("LTS build requires "@, x, x);
    lemma_stands_between("missing required SUSFS patch "@, x, x);
    lemma_stands_between("missing Samsung min_kdp patch: "@, x, x);
    lemma_stands_between("missing Samsung min_kdp source: "@, x, x);
    lemma_stands_between("unsafe Samsung patch path: "@, x, x);
    lemma_stands_between("`bad_version:` not found in "@, x, x);
    lemma_stands_between("bad regex: "@, x, x);
    lemma_stands_between("failed to spawn `"@, x, "`"@);
    lemma_stands_between("cannot format "@, x, x);
    lemma_stands_between("missing required tool(s): "@, x, x);
    lemma_stands_between("cannot parse year from '"@, x, "'"@);
    lemma_stands_between("cannot parse month from '"@, x, "'"@);
    lemma_stands_between("refusing to reuse an existing root checkout: "@, x, x);
    lemma_stands_between("refusing mixed root implementations: found "@, x, x);
    lemma_stands_between("root commit must be a full 40-character SHA (got '"@, x, "')"@);
    lemma_stands_between("no build targets match patch level '"@, x, "'"@);
    let rest = "' (expected one of: "@ + known_families() + ")"@;
    lemma_stands_between("unknown kernel family '"@, x, rest);
    assert(unknown_family_text(x) =~= "unknown kernel family '"@ + x + rest);
}

/// A message about two texts that should be one names both, and so does one about two
/// places where nothing is.
pub proof fn law_messages_name_both_sides(x: Seq<char>, y: Seq<char>, name: Seq<char>)
    ensures
        occurs(susfs_mismatch_text(x, y), x) && occurs(susfs_mismatch_text(x, y), y),
        occurs(pin_mismatch_text(name, x, y), x) && occurs(pin_mismatch_text(name, x, y), y),
        occurs(pin_mismatch_text(name, x, y), name),
        occurs(no_image_text(x, y), x) && occurs(no_image_text(x, y), y),
        occurs(bad_sublevel_text(x, y), x) && occurs(bad_sublevel_text(x, y), y),
{
    let a = "SUSFS commit mismatch: expected "@;
    let b = ", got "@ + y;
    lemma_stands_between(a, x, b);
    assert(susfs_mismatch_text(x, y) =~= a + x + b);
    lemma_stands_between(a + x + ", got "@, y, y);
    let c = name + " pin mismatch: expected "@;
    lemma_stands_between(c, x, b);
    assert(pin_mismatch_text(name, x, y) =~= c + x + b);
    lemma_stands_between(c + x + ", got "@, y, y);
    let d = " pin mismatch: expected "@ + x + ", got "@ + y;
    lemma_stands_between(name, name, d);
    assert(pin_mismatch_text(name, x, y) =~= name + d);
    let e = "no kernel Image produced (looked in "@;
    let f = " and "@ + y + ")"@;
    lemma_stands_between(e, x, f);
    assert(no_image_text(x, y) =~= e + x + f);
    lemma_stands_between(e + x + " and "@, y, ")"@);
    let g = "invalid numeric SUBLEVEL '"@;
    let h = "' in "@ + y;
    lemma_stands_between(g, x, h);
    assert(bad_sublevel_text(x, y) =~= g + x + h);
    lemma_stands_between(g + x + "' in "@, y, y);
}

/// The failure of a device patch says that the tree was restored; that of the list of
/// modules names the file that has it.
pub proof fn law_messages_say_what_stands()
    ensures
        occurs(min_kdp_failed_text(), "tree restored"@),
        occurs(min_kdp_failed_text(), "min_kdp patch failed"@),
        occurs(modules_not_empty_text(), "common/modules.bzl"@),
        occurs(modules_not_empty_text(), "protected_modules was not set to []"@),
{
    reveal_strlit("Samsung min_kdp patch failed; tree restored");
    reveal_strlit("tree restored");
    reveal_strlit("min_kdp patch failed");
    reveal_strlit("protected_modules was not set to [] in common/modules.bzl");
    reveal_strlit("common/modules.bzl");
    reveal_strlit("protected_modules was not set to []");
    let (a, b) = (min_kdp_failed_text(), modules_not_empty_text());
    assert(a.subrange(30, 43) =~= "tree restored"@);
    assert(occurs_at(a, "tree restored"@, 30));
    assert(a.subrange(8, 28) =~= "min_kdp patch failed"@);
    assert(occurs_at(a, "min_kdp patch failed"@, 8));
    assert(b.subrange(39, 57) =~= "common/modules.bzl"@);
    assert(occurs_at(b, "common/modules.bzl"@, 39));
    assert(b.subrange(0, 35) =~= "protected_modules was not set to []"@);
    assert(occurs_at(b, "protected_modules was not set to []"@, 0));
}

/// The message about a command shows how it ended, what it was and, where its output was
/// wanted, what it said; that about a patch names the patch; that about a reference names
/// the repository, the reference and the answer; that about a Makefile counts.
pub proof fn law_messages_of_commands_show_them(
    status: Seq<char>,
    shown: Seq<char>,
    said: Seq<char>,
    n: nat,
)
    ensures
        occurs(command_failed_text(status, shown), status),
        occurs(command_failed_text(status, shown), shown),
        occurs(capture_failed_text(status, shown, said), status),
        occurs(capture_failed_text(status, shown, said), shown),
        occurs(capture_failed_text(status, shown, said), said),
        occurs(patch_failed_text(shown, status), shown),
        occurs(patch_failed_text(shown, status), status),
        occurs(bad_sha_text(status, shown, said), status),
        occurs(bad_sha_text(status, shown, said), shown),
        occurs(bad_sha_text(status, shown, said), said),
        occurs(sublevel_count_text(shown, n), shown),
        occurs(sublevel_count_text(shown, n), ", found "@ + decimal(n)),
{
    lemma_command_message(status, shown);
    lemma_capture_message(status, shown, said);
    lemma_patch_message(shown, status);
    lemma_reference_message(status, shown, said);
    lemma_count_message(shown, n);
}

proof fn lemma_command_message(status: Seq<char>, shown: Seq<char>)
    ensures
        occurs(command_failed_text(status, shown), status),
        occurs(command_failed_text(status, shown), shown),
{
    let a = "command failed ("@;
    lemma_stands_between(a, status, "): "@ + shown);
    assert(a + status + ("): "@ + shown) =~= command_failed_text(status, shown));
    lemma_stands_between(a + status + "): "@, shown, Seq::<char>::empty());
}

proof fn lemma_capture_message(status: Seq<char>, shown: Seq<char>, said: Seq<char>)
    ensures
        occurs(capture_failed_text(status, shown, said), status),
        occurs(capture_failed_text(status, shown, said), shown),
        occurs(capture_failed_text(status, shown, said), said),
{
    let a = "command failed ("@;
    let c = capture_failed_text(status, shown, said);
    lemma_stands_between(a, status, "): "@ + shown + "\n"@ + said);
    assert(a + status + ("): "@ + shown + "\n"@ + said) =~= c);
    lemma_stands_between(a + status + "): "@, shown, "\n"@ + said);
    assert(a + status + "): "@ + shown + ("\n"@ + said) =~= c);
    lemma_stands_between(a + status + "): "@ + shown + "\n"@, said, Seq::<char>::empty());
}

proof fn lemma_patch_message(path: Seq<char>, status: Seq<char>)
    ensures
        occurs(patch_failed_text(path, status), path),
        occurs(patch_failed_text(path, status), status),
{
    let p = patch_failed_text(path, status);
    lemma_stands_between("patch "@, path, " failed ("@ + status + ")"@);
    assert("patch "@ + path + (" failed ("@ + status + ")"@) =~= p);
    lemma_stands_between("patch "@ + path + " failed ("@, status, ")"@);
}

proof fn lemma_reference_message(repo: Seq<char>, reference: Seq<char>, said: Seq<char>)
    ensures
        occurs(bad_sha_text(repo, reference, said), repo),
        occurs(bad_sha_text(repo, reference, said), reference),
        occurs(bad_sha_text(repo, reference, said), said),
{
    let b = bad_sha_text(repo, reference, said);
    let f = "git ls-remote "@;
    let r = " returned `"@ + said + "`"@;
    assert(occurs(b, repo)) by {
        lemma_stands_between(f, repo, " "@ + reference + r);
        assert(f + repo + (" "@ + reference + r) =~= b);
    }
    assert(occurs(b, reference)) by {
        lemma_stands_between(f + repo + " "@, reference, r);
        assert(f + repo + " "@ + reference + r =~= b);
    }
    lemma_stands_between(f + repo + " "@ + reference + " returned `"@, said, "`"@);
}

proof fn lemma_count_message(path: Seq<char>, n: nat)
    ensures
        occurs(sublevel_count_text(path, n), path),
        occurs(sublevel_count_text(path, n), ", found "@ + decimal(n)),
{
    let m = "expected exactly one SUBLEVEL assignment in "@;
    let k = ", found "@ + decimal(n);
    lemma_stands_between(m, path, k);
    assert(m + path + k =~= sublevel_count_text(path, n));
    lemma_stands_between(m + path, k, Seq::<char>::empty());
}

/// What is missing from the command line, and what no date has, is said.
pub proof fn law_messages_say_what_is_required()
    ensures
        occurs(version_required_text(), "--version is required"@),
        occurs(sublevel_required_text(), "--sublevel is required"@),
        occurs(sublevel_required_text(), "unless --os-patch-level lts"@),
        occurs(config_or_version_required_text(), "--config or --version"@),
        occurs(month_out_of_range_text(), "month"@),
        occurs(year_out_of_range_text(), "year"@),
{
    reveal_strlit("--version is required when --config is not used");
    reveal_strlit("--version is required");
    reveal_strlit("--sublevel is required unless --os-patch-level lts is used");
    reveal_strlit("--sublevel is required");
    reveal_strlit("unless --os-patch-level lts");
    reveal_strlit("either --config or --version is required");
    reveal_strlit("--config or --version");
    reveal_strlit("month out of range");
    reveal_strlit("month");
    reveal_strlit("year was not in range");
    reveal_strlit("year");
    let t = version_required_text();
    assert(t.subrange(0, 21) =~= "--version is required"@);
    assert(occurs_at(t, "--version is required"@, 0));
    let t = sublevel_required_text();
    assert(t.subrange(0, 22) =~= "--sublevel is required"@);
    assert(occurs_at(t, "--sublevel is required"@, 0));
    assert(t.subrange(23, 50) =~= "unless --os-patch-level lts"@);
    assert(occurs_at(t, "unless --os-patch-level lts"@, 23));
    let t = config_or_version_required_text();
    assert(t.subrange(7, 28) =~= "--config or --version"@);
    assert(occurs_at(t, "--config or --version"@, 7));
    let t = month_out_of_range_text();
    assert(t.subrange(0, 5) =~= "month"@);
    assert(occurs_at(t, "month"@, 0));
    let t = year_out_of_range_text();
    assert(t.subrange(0, 4) =~= "year"@);
    assert(occurs_at(t, "year"@, 0));
}

/// What is in the way of the root implementation, or missing from it, is said.
pub proof fn law_messages_say_what_is_in_the_way()
    ensures
        occurs(no_drivers_text(), "drivers directory not found"@),
        occurs(integration_exists_text(), "existing kernelsu integration"@),
        occurs(no_integration_text(), "does not contain a kernel integration"@),
        occurs(root_unresolved_text(), "KernelSU-Next"@),
        occurs(no_return_zero_text(), "return 0;"@),
        occurs(no_return_zero_text(), "bad_version:"@),
{
    reveal_strlit("kernel drivers directory not found");
    reveal_strlit("drivers directory not found");
    reveal_strlit("refusing to replace an existing kernelsu integration");
    reveal_strlit("existing kernelsu integration");
    reveal_strlit("selected root checkout does not contain a kernel integration");
    reveal_strlit("does not contain a kernel integration");
    reveal_strlit("could not resolve the KernelSU-Next commit on any remote");
    reveal_strlit("KernelSU-Next");
    reveal_strlit("bypass hack: no `return 0;` found after `bad_version:`");
    reveal_strlit("return 0;");
    reveal_strlit("bad_version:");
    let t = no_drivers_text();
    assert(t.subrange(7, 34) =~= "drivers directory not found"@);
    assert(occurs_at(t, "drivers directory not found"@, 7));
    let t = integration_exists_text();
    assert(t.subrange(23, 52) =~= "existing kernelsu integration"@);
    assert(occurs_at(t, "existing kernelsu integration"@, 23));
    let t = no_integration_text();
    assert(t.subrange(23, 60) =~= "does not contain a kernel integration"@);
    assert(occurs_at(t, "does not contain a kernel integration"@, 23));
    let t = root_unresolved_text();
    assert(t.subrange(22, 35) =~= "KernelSU-Next"@);
    assert(occurs_at(t, "KernelSU-Next"@, 22));
    let t = no_return_zero_text();
    assert(t.subrange(17, 26) =~= "return 0;"@);
    assert(occurs_at(t, "return 0;"@, 17));
    assert(t.subrange(41, 53) =~= "bad_version:"@);
    assert(occurs_at(t, "bad_version:"@, 41));
}

/// A failure with the files of bazel names the file, or the list that is left.
pub proof fn law_messages_name_the_file_of_bazel()
    ensures
        occurs(exports_remain_text(), "abi_gki_protected_exports_"@),
        occurs(exports_unchanged_text(), "common/BUILD.bazel"@),
        occurs(exports_unchanged_text(), "was not modified"@),
        occurs(exports_unchanged_text(), "protected_exports_list"@),
        occurs(exports_referenced_text(), "protected_exports_list reference still present"@),
        occurs(exports_referenced_text(), "common/BUILD.bazel"@),
        occurs(modules_unchanged_text(), "common/modules.bzl"@),
        occurs(modules_unchanged_text(), "was not modified"@),
{
    reveal_strlit("abi_gki_protected_exports_* still exists after removal");
    reveal_strlit("abi_gki_protected_exports_");
    reveal_strlit("common/BUILD.bazel was not modified for protected_exports_list");
    reveal_strlit("common/BUILD.bazel");
    reveal_strlit("was not modified");
    reveal_strlit("protected_exports_list");
    reveal_strlit("protected_exports_list reference still present in common/BUILD.bazel");
    reveal_strlit("protected_exports_list reference still present");
    reveal_strlit("common/modules.bzl was not modified");
    reveal_strlit("common/modules.bzl");
    let t = exports_remain_text();
    assert(t.subrange(0, 26) =~= "abi_gki_protected_exports_"@);
    assert(occurs_at(t, "abi_gki_protected_exports_"@, 0));
    let t = exports_unchanged_text();
    assert(t.subrange(0, 18) =~= "common/BUILD.bazel"@);
    assert(occurs_at(t, "common/BUILD.bazel"@, 0));
    assert(t.subrange(19, 35) =~= "was not modified"@);
    assert(occurs_at(t, "was not modified"@, 19));
    assert(t.subrange(40, 62) =~= "protected_exports_list"@);
    assert(occurs_at(t, "protected_exports_list"@, 40));
    let t = exports_referenced_text();
    assert(t.subrange(0, 46) =~= "protected_exports_list reference still present"@);
    assert(occurs_at(t, "protected_exports_list reference still present"@, 0));
    assert(t.subrange(50, 68) =~= "common/BUILD.bazel"@);
    assert(occurs_at(t, "common/BUILD.bazel"@, 50));
    let t = modules_unchanged_text();
    assert(t.subrange(0, 18) =~= "common/modules.bzl"@);
    assert(occurs_at(t, "common/modules.bzl"@, 0));
    assert(t.subrange(19, 35) =~= "was not modified"@);
    assert(occurs_at(t, "was not modified"@, 19));
}

} // verus!
