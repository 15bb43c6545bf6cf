//! What the plans that fetch sources and tools promise.
use crate::ctx::kernel_dir_of;
use crate::family::{
    config_path, id_of, law_id_names_release_and_series, susfs_branch_of,
    Family,
};
use crate::features::{droidspaces_steps, susfs_checkout_steps};
use crate::paths::joined_path;
use crate::plan::{CommandModel, OptionSet, Slot, StepModel};
use crate::sources::{
    any_kernel3_steps, attempt_steps, btf_tool_steps, clone_pinned_steps, environment_steps,
    init_steps, kernel_patches_steps, launcher_steps, manifest_branch, pin_steps,
};
use vstd::prelude::*;

verus! {

/// The branches and files of a family are named after its identifier: the branch of the
/// manifest with the patch level behind it, that of SUSFS, and the configuration file.
pub proof fn law_branches_are_named_after_the_family(f: Family, level: Seq<char>)
    ensures
        manifest_branch(f, level) == "common-"@ + id_of(f) + "-"@ + level,
        susfs_branch_of(f) == "gki-"@ + id_of(f),
        config_path(f) == ".github/config/"@ + id_of(f) + ".json"@,
{
    law_id_names_release_and_series(f);
    assert(manifest_branch(f, level) =~= "common-"@ + id_of(f) + "-"@ + level);
}

/// The step runs a command in `dir` that names `word`.
pub open spec fn runs_in(step: StepModel, dir: Seq<char>, word: Seq<char>) -> bool {
    step matches StepModel::Run { command } && command.cwd == dir && command.words.contains(word)
        && command.env.len() == 0
}

/// A checkout that is pinned is fetched and taken to its pin, and the plan ends with a
/// test that it is there. One that is not pinned is left as it is.
pub proof fn law_pins_are_fetched_and_tested(
    dir: Seq<char>,
    name: Seq<char>,
    pin: Option<Seq<char>>,
)
    ensures
        pin is None ==> pin_steps(dir, name, pin).len() == 0,
        pin matches Some(p) ==> {
            let steps = pin_steps(dir, name, pin);
            &&& steps.len() == 3
            &&& runs_in(steps[0], dir, p) && runs_in(steps[0], dir, "fetch"@)
            &&& runs_in(steps[1], dir, p) && runs_in(steps[1], dir, "checkout"@)
            &&& steps[2] == (StepModel::CheckHead { dir, name, expected: p })
        },
{
    if let Some(p) = pin {
        let steps = pin_steps(dir, name, pin);
        let a = seq!["git"@, "fetch"@, "--depth=1"@, "origin"@, p];
        let b = seq!["git"@, "checkout"@, p];
        assert(a[4] == p && a[1] == "fetch"@);
        assert(b[2] == p && b[1] == "checkout"@);
    }
}

/// A clone of one commit does not check anything out before that commit was fetched, and
/// ends with a test that the commit is there.
pub proof fn law_clones_end_at_their_commit(
    repo: Seq<char>,
    parent: Seq<char>,
    dir: Seq<char>,
    reference: Seq<char>,
)
    ensures
        ({
            let steps = clone_pinned_steps(repo, parent, dir, reference);
            &&& steps.len() == 4
            &&& runs_in(steps[0], parent, repo) && runs_in(steps[0], parent, dir)
            &&& runs_in(steps[0], parent, "--no-checkout"@)
            &&& runs_in(steps[1], dir, reference) && runs_in(steps[1], dir, "fetch"@)
            &&& runs_in(steps[2], dir, reference) && runs_in(steps[2], dir, "checkout"@)
            &&& runs_in(steps[2], dir, "--detach"@)
            &&& steps[3] == (StepModel::CheckHead { dir, name: repo, expected: reference })
        }),
{
    let a = seq!["git"@, "clone"@, "--no-checkout"@, repo, dir];
    let b = seq!["git"@, "fetch"@, "--depth=1"@, "origin"@, reference];
    let c = seq!["git"@, "checkout"@, "--detach"@, reference];
    assert(a[2] == "--no-checkout"@ && a[3] == repo && a[4] == dir);
    assert(b[1] == "fetch"@ && b[4] == reference);
    assert(c[1] == "checkout"@ && c[2] == "--detach"@ && c[3] == reference);
}

/// Every attempt at the kernel sources does the same; each but the first clears the kernel
/// directory and waits a quarter of a minute before.
pub proof fn law_attempts_are_alike(ws: Seq<char>, f: Family, level: Seq<char>, attempt: u64)
    ensures
        ({
            let first = attempt_steps(ws, f, level, 1);
            attempt_steps(ws, f, level, attempt) == (if attempt <= 1 {
                first
            } else {
                seq![
                    StepModel::EmptyDir { path: joined_path(ws, "kernel"@) },
                    StepModel::Sleep { seconds: 15 },
                ] + first
            })
        }),
{
    let first = attempt_steps(ws, f, level, 1);
    let init = init_steps(
        kernel_dir_of(ws),
        joined_path(ws, "git-repo/repo"@),
        manifest_branch(f, level),
    );
    assert(first =~= init);
    if attempt > 1 {
        assert(attempt_steps(ws, f, level, attempt) =~= seq![
            StepModel::EmptyDir { path: joined_path(ws, "kernel"@) },
            StepModel::Sleep { seconds: 15 },
        ] + first);
    } else {
        assert(attempt_steps(ws, f, level, attempt) =~= first);
    }
}

/// An attempt initialises the kernel directory with the branch, asks whether the branch is
/// deprecated and rewrites the manifest accordingly, and then synchronises within a time
/// limit.
pub proof fn law_sources_are_those_of_the_branch(
    kernel: Seq<char>,
    tool: Seq<char>,
    branch: Seq<char>,
)
    ensures
        ({
            let steps = init_steps(kernel, tool, branch);
            &&& steps.len() == 3
            &&& runs_in(steps[0], kernel, branch) && runs_in(steps[0], kernel, tool)
            &&& runs_in(steps[0], kernel, "init"@)
            &&& runs_in(
                steps[0],
                kernel,
                "https://android.googlesource.com/kernel/manifest"@,
            )
            &&& steps[1] matches StepModel::RewriteManifest { query, manifest, branch: b } && b
                == branch && manifest == joined_path(kernel, ".repo/manifests/default.xml"@)
                && query.cwd == kernel && query.words.last() == branch && query.words.contains(
                "https://android.googlesource.com/kernel/common"@,
            )
            &&& runs_in(steps[2], kernel, tool) && runs_in(steps[2], kernel, "sync"@)
            &&& runs_in(steps[2], kernel, "timeout"@) && runs_in(steps[2], kernel, "15m"@)
        }),
{
    let steps = init_steps(kernel, tool, branch);
    let a = steps[0]->Run_command.words;
    let b = steps[1]->query.words;
    let c = steps[2]->Run_command.words;
    assert(a[0] == tool && a[1] == "init"@ && a[5] == branch);
    assert(a[3] == "https://android.googlesource.com/kernel/manifest"@);
    assert(b[2] == "https://android.googlesource.com/kernel/common"@);
    assert(c[0] == "timeout"@ && c[1] == "15m"@ && c[2] == tool && c[3] == "sync"@);
}

/// What is in one of two lists is in both together.
proof fn lemma_in_sum(a: Seq<StepModel>, b: Seq<StepModel>, x: StepModel)
    requires
        a.contains(x) || b.contains(x),
    ensures
        (a + b).contains(x),
{
    if a.contains(x) {
        let i = choose|i: int| 0 <= i < a.len() && a[i] == x;
        assert((a + b)[i] == x);
    } else {
        let i = choose|i: int| 0 <= i < b.len() && b[i] == x;
        assert((a + b)[a.len() + i] == x);
    }
}

/// The workspace of every family gets the launcher, the kernel patches and AnyKernel3, each
/// checkout anew, and each that is pinned is tested to be at its pin.
pub proof fn law_workspaces_are_prepared(
    ws: Seq<char>,
    f: Family,
    patches_pin: Option<Seq<char>>,
    any_kernel3_pin: Option<Seq<char>>,
)
    ensures
        ({
            let steps = environment_steps(ws, f, patches_pin, any_kernel3_pin);
            let patches = joined_path(ws, "kernel_patches"@);
            let any_kernel3 = joined_path(ws, "AnyKernel3"@);
            &&& steps.contains(
                StepModel::MakeExecutable { path: joined_path(ws, "git-repo/repo"@) },
            )
            &&& steps.contains(StepModel::RemoveDir { path: patches })
            &&& steps.contains(StepModel::RemoveDir { path: any_kernel3 })
            &&& patches_pin matches Some(p) ==> steps.contains(
                StepModel::CheckHead { dir: patches, name: "kernel_patches"@, expected: p },
            )
            &&& any_kernel3_pin matches Some(p) ==> steps.contains(
                StepModel::CheckHead { dir: any_kernel3, name: "AnyKernel3"@, expected: p },
            )
            &&& steps.contains(
                StepModel::Run {
                    command: CommandModel {
                        cwd: ws,
                        words: seq![
                            "git"@,
                            "clone"@,
                            "https://github.com/WildKernels/kernel_patches.git"@,
                            patches,
                        ],
                        env: seq![],
                    },
                },
            )
            &&& steps.contains(
                StepModel::Run {
                    command: CommandModel {
                        cwd: ws,
                        words: seq![
                            "git"@,
                            "clone"@,
                            "-b"@,
                            "gki-2.0"@,
                            "https://github.com/WildKernels/AnyKernel3.git"@,
                            any_kernel3,
                        ],
                        env: seq![],
                    },
                },
            )
        }),
{
    let patches = joined_path(ws, "kernel_patches"@);
    let any_kernel3 = joined_path(ws, "AnyKernel3"@);
    let a = launcher_steps(ws);
    let b = kernel_patches_steps(ws);
    let c = pin_steps(patches, "kernel_patches"@, patches_pin);
    let d = any_kernel3_steps(ws);
    let e = pin_steps(any_kernel3, "AnyKernel3"@, any_kernel3_pin);
    let g = btf_tool_steps(ws, f);
    let all = a + b + c + d + e + g;
    assert forall|x: StepModel|
        a.contains(x) || b.contains(x) || c.contains(x) || d.contains(x) || e.contains(x) implies #[trigger] all.contains(
        x,
    ) by {
        if a.contains(x) || b.contains(x) {
            lemma_in_sum(a, b, x);
        }
        if a.contains(x) || b.contains(x) || c.contains(x) {
            lemma_in_sum(a + b, c, x);
        }
        if a.contains(x) || b.contains(x) || c.contains(x) || d.contains(x) {
            lemma_in_sum(a + b + c, d, x);
        }
        lemma_in_sum(a + b + c + d, e, x);
        lemma_in_sum(a + b + c + d + e, g, x);
    }
    assert(a.contains(a[3]));
    assert(b.contains(b[0]) && b.contains(b[1]));
    assert(d.contains(d[0]) && d.contains(d[1]));
    law_pins_are_fetched_and_tested(patches, "kernel_patches"@, patches_pin);
    law_pins_are_fetched_and_tested(any_kernel3, "AnyKernel3"@, any_kernel3_pin);
    if patches_pin is Some {
        assert(c.contains(c[2]));
    }
    if any_kernel3_pin is Some {
        assert(e.contains(e[2]));
    }
}

/// The container runtime is tested to be at its pin where it is pinned, its commit is
/// recorded either way, and its options are set last.
pub proof fn law_container_runtime_is_recorded(
    ws: Seq<char>,
    f: Family,
    pin: Option<Seq<char>>,
)
    ensures
        ({
            let steps = droidspaces_steps(ws, f, pin);
            let dir = joined_path(ws, "Droidspaces-OSS"@);
            &&& steps.last() == (StepModel::SetOptions { set: OptionSet::Droidspaces })
            &&& steps.contains(StepModel::CaptureHead { dir, slot: Slot::Droidspaces })
            &&& steps[0] == (StepModel::RemoveDir { path: dir })
            &&& steps[1] matches StepModel::RunRetried { command, attempts, delay } && attempts == 5
                && delay == 5 && command.cwd == ws && command.words.contains(
                "https://github.com/ravindu644/Droidspaces-OSS.git"@,
            ) && command.words.contains(dir)
            &&& pin matches Some(p) ==> steps.contains(
                StepModel::CheckHead { dir, name: "Droidspaces"@, expected: p },
            )
        }),
{
    let dir = joined_path(ws, "Droidspaces-OSS"@);
    let steps = droidspaces_steps(ws, f, pin);
    let n = pin_steps(dir, "Droidspaces"@, pin).len() as int;
    assert(steps[2 + n] == (StepModel::CaptureHead { dir, slot: Slot::Droidspaces }));
    let words = steps[1]->RunRetried_command.words;
    assert(words[3] == "https://github.com/ravindu644/Droidspaces-OSS.git"@ && words[4] == dir);
    law_pins_are_fetched_and_tested(dir, "Droidspaces"@, pin);
    if pin is Some {
        assert(steps[4] == pin_steps(dir, "Droidspaces"@, pin)[2]);
    }
}

/// A commit of SUSFS is checked out in its checkout, and what is there is recorded.
pub proof fn law_susfs_commit_is_recorded(ws: Seq<char>, commit: Seq<char>)
    ensures
        ({
            let steps = susfs_checkout_steps(ws, commit);
            let dir = joined_path(ws, "susfs4ksu"@);
            &&& steps.len() == 2
            &&& runs_in(steps[0], dir, commit) && runs_in(steps[0], dir, "checkout"@)
            &&& steps[1] == (StepModel::CaptureHead { dir, slot: Slot::Susfs })
        }),
{
    let words = seq!["git"@, "checkout"@, commit];
    assert(words[1] == "checkout"@ && words[2] == commit);
}

} // verus!
