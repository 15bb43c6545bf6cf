//! Plans that fetch sources and tools.
use crate::ctx::{kernel_dir_of, Ctx};
use crate::failure::{pin_mismatch_text, Failure};
use crate::family::{android_of, kernel_of, Family};
use crate::paths::{joined_path, path_join};
use crate::plan::{
    add_steps, command, command_in, command_models, run_in, run, step_models, Slot, Step,
    StepModel,
};
use crate::text::{contains, occurs, replace, replaced, same, slices};
use crate::words::{cat3, cat4};
use vstd::prelude::*;

verus! {

// ---------------------------------------------------------------------------
// Models
// ---------------------------------------------------------------------------

/// The text of an optional string.
pub open spec fn opt_string(s: Option<String>) -> Option<Seq<char>> {
    match s {
        Some(t) => Some(t@),
        None => None,
    }
}

/// The steps that take a checkout to a commit, where one is given.
pub open spec fn pin_steps(
    dir: Seq<char>,
    name: Seq<char>,
    pin: Option<Seq<char>>,
) -> Seq<StepModel> {
    match pin {
        Some(p) => seq![
            run_in(dir, seq!["git"@, "fetch"@, "--depth=1"@, "origin"@, p]),
            run_in(dir, seq!["git"@, "checkout"@, p]),
            StepModel::CheckHead { dir, name, expected: p },
        ],
        None => seq![],
    }
}

/// The steps that clone one commit of a repository into `dir`, which is in `parent`.
pub open spec fn clone_pinned_steps(
    repo: Seq<char>,
    parent: Seq<char>,
    dir: Seq<char>,
    reference: Seq<char>,
) -> Seq<StepModel> {
    seq![
        run_in(parent, seq!["git"@, "clone"@, "--no-checkout"@, repo, dir]),
        run_in(dir, seq!["git"@, "fetch"@, "--depth=1"@, "origin"@, reference]),
        run_in(dir, seq!["git"@, "checkout"@, "--detach"@, reference]),
        StepModel::CheckHead { dir, name: repo, expected: reference },
    ]
}

/// Where the `repo` launcher is put.
pub open spec fn repo_tool_of(workspace: Seq<char>) -> Seq<char> {
    joined_path(workspace, "git-repo/repo"@)
}

/// The steps that fetch the `repo` launcher.
pub open spec fn launcher_steps(ws: Seq<char>) -> Seq<StepModel> {
    seq![
        StepModel::MakeDir { path: joined_path(ws, "kernel"@) },
        StepModel::MakeDir { path: joined_path(ws, "git-repo"@) },
        StepModel::RunRetried {
            command: command_in(
                ws,
                seq![
                    "curl"@,
                    "-LfsS"@,
                    "--retry"@,
                    "5"@,
                    "--retry-delay"@,
                    "5"@,
                    "--retry-all-errors"@,
                    "-o"@,
                    repo_tool_of(ws),
                    "https://storage.googleapis.com/git-repo-downloads/repo"@,
                ],
            ),
            attempts: 5,
            delay: 5,
        },
        StepModel::MakeExecutable { path: repo_tool_of(ws) },
    ]
}

/// The steps that clone the kernel patches.
pub open spec fn kernel_patches_steps(ws: Seq<char>) -> Seq<StepModel> {
    let dir = joined_path(ws, "kernel_patches"@);
    seq![
        StepModel::RemoveDir { path: dir },
        run_in(
            ws,
            seq![
                "git"@,
                "clone"@,
                "https://github.com/WildKernels/kernel_patches.git"@,
                dir,
            ],
        ),
    ]
}

/// The steps that clone AnyKernel3.
pub open spec fn any_kernel3_steps(ws: Seq<char>) -> Seq<StepModel> {
    let dir = joined_path(ws, "AnyKernel3"@);
    seq![
        StepModel::RemoveDir { path: dir },
        run_in(
            ws,
            seq![
                "git"@,
                "clone"@,
                "-b"@,
                "gki-2.0"@,
                "https://github.com/WildKernels/AnyKernel3.git"@,
                dir,
            ],
        ),
    ]
}

/// The steps that install tools for type information, which the oldest family needs.
pub open spec fn btf_tool_steps(ws: Seq<char>, f: Family) -> Seq<StepModel> {
    if f == Family::Android12_5_10 {
        seq![
            StepModel::TryAll {
                commands: seq![
                    command_in(ws, seq!["sudo"@, "apt-get"@, "update"@, "-qq"@]),
                    command_in(
                        ws,
                        seq![
                            "sudo"@,
                            "apt-get"@,
                            "install"@,
                            "-y"@,
                            "-qq"@,
                            "dwarves"@,
                            "libelf-dev"@,
                        ],
                    ),
                ],
                warning: "warning: could not install BTF tooling automatically"@,
            },
        ]
    } else {
        seq![]
    }
}

/// The steps that prepare the workspace.
pub open spec fn environment_steps(
    ws: Seq<char>,
    f: Family,
    patches_pin: Option<Seq<char>>,
    any_kernel3_pin: Option<Seq<char>>,
) -> Seq<StepModel> {
    launcher_steps(ws) + kernel_patches_steps(ws) + pin_steps(
        joined_path(ws, "kernel_patches"@),
        "kernel_patches"@,
        patches_pin,
    ) + any_kernel3_steps(ws) + pin_steps(
        joined_path(ws, "AnyKernel3"@),
        "AnyKernel3"@,
        any_kernel3_pin,
    ) + btf_tool_steps(ws, f)
}

/// The branch of the kernel manifest.
pub open spec fn manifest_branch(f: Family, level: Seq<char>) -> Seq<char> {
    "common-"@ + android_of(f) + "-"@ + kernel_of(f) + "-"@ + level
}

/// The steps that fetch the kernel sources of a branch.
pub open spec fn init_steps(
    kernel: Seq<char>,
    repo_tool: Seq<char>,
    branch: Seq<char>,
) -> Seq<StepModel> {
    seq![
        run_in(
            kernel,
            seq![
                repo_tool,
                "init"@,
                "-u"@,
                "https://android.googlesource.com/kernel/manifest"@,
                "-b"@,
                branch,
                "--depth=1"@,
            ],
        ),
        StepModel::RewriteManifest {
            query: command_in(
                kernel,
                seq![
                    "git"@,
                    "ls-remote"@,
                    "https://android.googlesource.com/kernel/common"@,
                    branch,
                ],
            ),
            manifest: joined_path(kernel, ".repo/manifests/default.xml"@),
            branch,
        },
        run_in(
            kernel,
            seq![
                "timeout"@,
                "15m"@,
                repo_tool,
                "sync"@,
                "-c"@,
                "--current-branch"@,
                "--no-clone-bundle"@,
                "--no-tags"@,
                "--jobs-checkout=4"@,
                "-j4"@,
            ],
        ),
    ]
}

/// The steps of one attempt at the kernel sources: from the second on, the remains of
/// the one before are cleared away first.
pub open spec fn attempt_steps(
    ws: Seq<char>,
    f: Family,
    level: Seq<char>,
    attempt: u64,
) -> Seq<StepModel> {
    let kernel = kernel_dir_of(ws);
    (if attempt > 1 {
        seq![StepModel::EmptyDir { path: kernel }, StepModel::Sleep { seconds: 15 }]
    } else {
        seq![]
    }) + init_steps(kernel, repo_tool_of(ws), manifest_branch(f, level))
}

/// The manifest with a branch looked up among the deprecated ones.
pub open spec fn deprecated_manifest(content: Seq<char>, branch: Seq<char>) -> Seq<char> {
    replaced(content, "\""@ + branch + "\""@, "\"deprecated/"@ + branch + "\""@)
}

/// How often the download of the kernel sources is tried.
pub const DOWNLOAD_ATTEMPTS: u64 = 3;

/// How often a remote is asked for a commit.
pub const QUERY_ATTEMPTS: u64 = 5;

/// How many seconds lie between two such questions.
pub const QUERY_DELAY: u64 = 5;

/// What comes after an attempt.
#[derive(Clone, Copy, Debug, PartialEq, Eq, Structural)]
pub enum Next {
    /// It succeeded.
    Done,
    /// The attempt of that number.
    Again(u64),
    /// Nothing: the failure stands.
    GiveUp,
}

/// What comes after attempt `attempt` of at most `attempts`.
pub open spec fn next_attempt(attempt: u64, attempts: u64, succeeded: bool) -> Next {
    if succeeded {
        Next::Done
    } else if attempt < attempts {
        Next::Again((attempt + 1) as u64)
    } else {
        Next::GiveUp
    }
}

/// The number of attempts that are made, from attempt `attempt` on, where attempt `k`
/// succeeds exactly where `ok(k)` holds.
pub open spec fn attempts_made(attempt: u64, attempts: u64, ok: spec_fn(u64) -> bool) -> nat
    decreases attempts - attempt,
{
    match next_attempt(attempt, attempts, ok(attempt)) {
        Next::Again(n) => 1 + attempts_made(n, attempts, ok),
        _ => 1,
    }
}

// ---------------------------------------------------------------------------
// Functions
// ---------------------------------------------------------------------------

/// The steps that take a checkout to a commit, where one is given.
pub fn pin_plan(dir: &str, name: &str, pin: &Option<String>) -> (r: Vec<Step>)
    ensures
        step_models(r@) == pin_steps(dir@, name@, opt_string(*pin)),
{
    let mut r: Vec<Step> = Vec::new();
    match pin {
        Some(p) => {
            let fetch = vec!["git", "fetch", "--depth=1", "origin", p.as_str()];
            assert(slices(fetch@) =~= seq!["git"@, "fetch"@, "--depth=1"@, "origin"@, p@]);
            let checkout = vec!["git", "checkout", p.as_str()];
            assert(slices(checkout@) =~= seq!["git"@, "checkout"@, p@]);
            r.push(run(dir, fetch));
            r.push(run(dir, checkout));
            r.push(
                Step::CheckHead {
                    dir: dir.to_owned(),
                    name: name.to_owned(),
                    expected: p.as_str().to_owned(),
                },
            );
        },
        None => {},
    }
    assert(step_models(r@) =~= pin_steps(dir@, name@, opt_string(*pin)));
    r
}

/// The steps that clone one commit of a repository into `dir`, which is in `parent`.
pub fn clone_pinned(repo: &str, parent: &str, dir: &str, reference: &str) -> (r: Vec<Step>)
    ensures
        step_models(r@) == clone_pinned_steps(repo@, parent@, dir@, reference@),
{
    let clone = vec!["git", "clone", "--no-checkout", repo, dir];
    assert(slices(clone@) =~= seq!["git"@, "clone"@, "--no-checkout"@, repo@, dir@]);
    let fetch = vec!["git", "fetch", "--depth=1", "origin", reference];
    assert(slices(fetch@) =~= seq!["git"@, "fetch"@, "--depth=1"@, "origin"@, reference@]);
    let checkout = vec!["git", "checkout", "--detach", reference];
    assert(slices(checkout@) =~= seq!["git"@, "checkout"@, "--detach"@, reference@]);
    let r = vec![
        run(parent, clone),
        run(dir, fetch),
        run(dir, checkout),
        Step::CheckHead {
            dir: dir.to_owned(),
            name: repo.to_owned(),
            expected: reference.to_owned(),
        },
    ];
    assert(step_models(r@) =~= clone_pinned_steps(repo@, parent@, dir@, reference@));
    r
}

/// Fails unless the commit of a checkout is the one that was asked for.
pub fn check_head(name: &str, expected: &str, head: &str) -> (r: Result<(), Failure>)
    ensures
        r is Ok <==> head@ == expected@,
        r matches Err(e) ==> e@ == pin_mismatch_text(name@, expected@, head@),
{
    if same(head, expected) {
        Ok(())
    } else {
        Err(
            Failure::PinMismatch {
                name: name.to_owned(),
                expected: expected.to_owned(),
                actual: head.to_owned(),
            },
        )
    }
}

/// Records a commit.
pub fn record_commit(ctx: &mut Ctx, slot: Slot, sha: String)
    ensures
        match slot {
            Slot::Kernel => *final(ctx) == (Ctx { kernel_sha: sha, ..*old(ctx) }),
            Slot::Root => *final(ctx) == (Ctx { root_sha: sha, ..*old(ctx) }),
            Slot::Susfs => *final(ctx) == (Ctx { susfs_sha: sha, ..*old(ctx) }),
            Slot::Droidspaces => *final(ctx) == (Ctx { droidspaces_sha: sha, ..*old(ctx) }),
        },
{
    match slot {
        Slot::Kernel => {
            ctx.kernel_sha = sha;
        },
        Slot::Root => {
            ctx.root_sha = sha;
        },
        Slot::Susfs => {
            ctx.susfs_sha = sha;
        },
        Slot::Droidspaces => {
            ctx.droidspaces_sha = sha;
        },
    }
}

/// The steps that fetch the `repo` launcher.
fn launcher_plan(ws: &str) -> (r: Vec<Step>)
    ensures
        step_models(r@) == launcher_steps(ws@),
{
    let tool = path_join(ws, "git-repo/repo");
    let curl = vec![
        "curl",
        "-LfsS",
        "--retry",
        "5",
        "--retry-delay",
        "5",
        "--retry-all-errors",
        "-o",
        tool.as_str(),
        "https://storage.googleapis.com/git-repo-downloads/repo",
    ];
    assert(slices(curl@) =~= seq![
        "curl"@,
        "-LfsS"@,
        "--retry"@,
        "5"@,
        "--retry-delay"@,
        "5"@,
        "--retry-all-errors"@,
        "-o"@,
        tool@,
        "https://storage.googleapis.com/git-repo-downloads/repo"@,
    ]);
    let fetch = command(ws, curl);
    let r = vec![
        Step::MakeDir { path: path_join(ws, "kernel") },
        Step::MakeDir { path: path_join(ws, "git-repo") },
        Step::RunRetried { command: fetch, attempts: 5, delay: 5 },
        Step::MakeExecutable { path: tool },
    ];
    assert(step_models(r@) =~= launcher_steps(ws@));
    r
}

/// The steps that clone the kernel patches.
fn kernel_patches_plan(ws: &str, dir: &str) -> (r: Vec<Step>)
    requires
        dir@ == joined_path(ws@, "kernel_patches"@),
    ensures
        step_models(r@) == kernel_patches_steps(ws@),
{
    let clone = vec!["git", "clone", "https://github.com/WildKernels/kernel_patches.git", dir];
    assert(slices(clone@) =~= seq![
        "git"@,
        "clone"@,
        "https://github.com/WildKernels/kernel_patches.git"@,
        dir@,
    ]);
    let r = vec![Step::RemoveDir { path: dir.to_owned() }, run(ws, clone)];
    assert(step_models(r@) =~= kernel_patches_steps(ws@));
    r
}

/// The steps that clone AnyKernel3.
fn any_kernel3_plan(ws: &str, dir: &str) -> (r: Vec<Step>)
    requires
        dir@ == joined_path(ws@, "AnyKernel3"@),
    ensures
        step_models(r@) == any_kernel3_steps(ws@),
{
    let clone = vec![
        "git",
        "clone",
        "-b",
        "gki-2.0",
        "https://github.com/WildKernels/AnyKernel3.git",
        dir,
    ];
    assert(slices(clone@) =~= seq![
        "git"@,
        "clone"@,
        "-b"@,
        "gki-2.0"@,
        "https://github.com/WildKernels/AnyKernel3.git"@,
        dir@,
    ]);
    let r = vec![Step::RemoveDir { path: dir.to_owned() }, run(ws, clone)];
    assert(step_models(r@) =~= any_kernel3_steps(ws@));
    r
}

/// The steps that install tools for type information, which the oldest family needs.
fn btf_tool_plan(ws: &str, f: Family) -> (r: Vec<Step>)
    ensures
        step_models(r@) == btf_tool_steps(ws@, f),
{
    let mut r: Vec<Step> = Vec::new();
    if f == Family::Android12_5_10 {
        let update = vec!["sudo", "apt-get", "update", "-qq"];
        assert(slices(update@) =~= seq!["sudo"@, "apt-get"@, "update"@, "-qq"@]);
        let install = vec!["sudo", "apt-get", "install", "-y", "-qq", "dwarves", "libelf-dev"];
        assert(slices(install@) =~= seq![
            "sudo"@,
            "apt-get"@,
            "install"@,
            "-y"@,
            "-qq"@,
            "dwarves"@,
            "libelf-dev"@,
        ]);
        let commands = vec![command(ws, update), command(ws, install)];
        assert(command_models(commands@) =~= seq![commands@[0]@, commands@[1]@]);
        r.push(
            Step::TryAll {
                commands,
                warning: "warning: could not install BTF tooling automatically".to_owned(),
            },
        );
    }
    assert(step_models(r@) =~= btf_tool_steps(ws@, f));
    r
}

/// The steps that prepare the workspace.
pub fn setup_build_environment(ctx: &Ctx) -> (r: Vec<Step>)
    ensures
        step_models(r@) == environment_steps(
            ctx.workspace(),
            ctx.family,
            opt_string(ctx.opts.kernel_patches_commit),
            opt_string(ctx.opts.anykernel3_commit),
        ),
{
    let ws = ctx.opts.workspace.as_str();
    let patches = ctx.kernel_patches();
    let any_kernel3 = ctx.any_kernel3();
    let mut plan = launcher_plan(ws);
    add_steps(&mut plan, kernel_patches_plan(ws, &patches));
    add_steps(
        &mut plan,
        pin_plan(&patches, "kernel_patches", &ctx.opts.kernel_patches_commit),
    );
    add_steps(&mut plan, any_kernel3_plan(ws, &any_kernel3));
    add_steps(&mut plan, pin_plan(&any_kernel3, "AnyKernel3", &ctx.opts.anykernel3_commit));
    add_steps(&mut plan, btf_tool_plan(ws, ctx.family));
    plan
}

/// The steps that fetch the kernel sources of a branch.
pub fn init_kernel_repo(kernel: &str, repo_tool: &str, branch: &str) -> (r: Vec<Step>)
    ensures
        step_models(r@) == init_steps(kernel@, repo_tool@, branch@),
{
    let init = vec![
        repo_tool,
        "init",
        "-u",
        "https://android.googlesource.com/kernel/manifest",
        "-b",
        branch,
        "--depth=1",
    ];
    assert(slices(init@) =~= seq![
        repo_tool@,
        "init"@,
        "-u"@,
        "https://android.googlesource.com/kernel/manifest"@,
        "-b"@,
        branch@,
        "--depth=1"@,
    ]);
    let query = vec![
        "git",
        "ls-remote",
        "https://android.googlesource.com/kernel/common",
        branch,
    ];
    assert(slices(query@) =~= seq![
        "git"@,
        "ls-remote"@,
        "https://android.googlesource.com/kernel/common"@,
        branch@,
    ]);
    let sync = vec![
        "timeout",
        "15m",
        repo_tool,
        "sync",
        "-c",
        "--current-branch",
        "--no-clone-bundle",
        "--no-tags",
        "--jobs-checkout=4",
        "-j4",
    ];
    assert(slices(sync@) =~= seq![
        "timeout"@,
        "15m"@,
        repo_tool@,
        "sync"@,
        "-c"@,
        "--current-branch"@,
        "--no-clone-bundle"@,
        "--no-tags"@,
        "--jobs-checkout=4"@,
        "-j4"@,
    ]);
    let r = vec![
        run(kernel, init),
        Step::RewriteManifest {
            query: command(kernel, query),
            manifest: path_join(kernel, ".repo/manifests/default.xml"),
            branch: branch.to_owned(),
        },
        run(kernel, sync),
    ];
    assert(step_models(r@) =~= init_steps(kernel@, repo_tool@, branch@));
    r
}

/// The steps of one attempt at the kernel sources.
pub fn download_kernel(ctx: &Ctx, attempt: u64) -> (r: Vec<Step>)
    ensures
        step_models(r@) == attempt_steps(
            ctx.workspace(),
            ctx.family,
            ctx.os_patch_level@,
            attempt,
        ),
{
    let kernel = ctx.kernel_dir();
    let tool = path_join(&ctx.opts.workspace, "git-repo/repo");
    let name = cat3("common-", ctx.family.android(), "-");
    let branch = cat4(&name, ctx.family.kernel(), "-", &ctx.os_patch_level);
    let mut plan: Vec<Step> = Vec::new();
    if attempt > 1 {
        plan.push(Step::EmptyDir { path: ctx.kernel_dir() });
        plan.push(Step::Sleep { seconds: 15 });
    }
    assert(step_models(plan@) =~= if attempt > 1 {
        seq![
            StepModel::EmptyDir { path: kernel_dir_of(ctx.workspace()) },
            StepModel::Sleep { seconds: 15 },
        ]
    } else {
        seq![]
    });
    add_steps(&mut plan, init_kernel_repo(&kernel, &tool, &branch));
    plan
}

/// Tells what comes first: attempt 1, unless no attempt is allowed.
pub fn first_attempt(attempts: u64) -> (r: Next)
    ensures
        r == next_attempt(0, attempts, false),
        attempts > 0 ==> r == Next::Again(1),
        attempts == 0 ==> r == Next::GiveUp,
{
    after_attempt(0, attempts, false)
}

/// Tells what comes after attempt `attempt` of at most `attempts`.
pub fn after_attempt(attempt: u64, attempts: u64, succeeded: bool) -> (r: Next)
    ensures
        r == next_attempt(attempt, attempts, succeeded),
{
    if succeeded {
        Next::Done
    } else if attempt < attempts {
        Next::Again(attempt + 1)
    } else {
        Next::GiveUp
    }
}

/// Rewrites the manifest where a remote lists the branch among the deprecated ones.
pub fn rewrite_manifest(content: &str, branch: &str, remote: &str) -> (r: Option<String>)
    ensures
        r is Some <==> occurs(remote@, "deprecated"@),
        r matches Some(out) ==> out@ == deprecated_manifest(content@, branch@),
{
    if !contains(remote, "deprecated") {
        return None;
    }
    let from = cat3("\"", branch, "\"");
    let to = cat3("\"deprecated/", branch, "\"");
    proof {
        reveal_strlit("\"");
    }
    Some(replace(content, &from, &to))
}

// ---------------------------------------------------------------------------
// Laws
// ---------------------------------------------------------------------------

/// There are no more attempts than allowed, and no more than needed: the last one is
/// the first that succeeds, or the last that is allowed.
pub proof fn law_attempts_are_bounded(attempt: u64, attempts: u64, ok: spec_fn(u64) -> bool)
    requires
        attempt <= attempts,
    ensures
        1 <= attempts_made(attempt, attempts, ok) <= attempts - attempt + 1,
        ok(attempt) ==> attempts_made(attempt, attempts, ok) == 1,
        (forall|k: u64| attempt <= k < attempts ==> !(#[trigger] ok(k))) ==> attempts_made(
            attempt,
            attempts,
            ok,
        ) == attempts - attempt + 1,
    decreases attempts - attempt,
{
    if !ok(attempt) && attempt < attempts {
        law_attempts_are_bounded((attempt + 1) as u64, attempts, ok);
    }
}

/// The download is tried once to three times, a question to a remote once to five times;
/// either ends with the first attempt that succeeds, and is tried to the last where none
/// does.
pub proof fn law_downloads_and_questions_are_bounded(ok: spec_fn(u64) -> bool)
    ensures
        1 <= attempts_made(1, DOWNLOAD_ATTEMPTS, ok) <= 3,
        1 <= attempts_made(1, QUERY_ATTEMPTS, ok) <= 5,
        ok(1) ==> attempts_made(1, DOWNLOAD_ATTEMPTS, ok) == 1 && attempts_made(
            1,
            QUERY_ATTEMPTS,
            ok,
        ) == 1,
        !ok(1) && !ok(2) ==> attempts_made(1, DOWNLOAD_ATTEMPTS, ok) == 3,
        !ok(1) && !ok(2) && !ok(3) && !ok(4) ==> attempts_made(1, QUERY_ATTEMPTS, ok) == 5,
{
    law_attempts_are_bounded(1, DOWNLOAD_ATTEMPTS, ok);
    law_attempts_are_bounded(1, QUERY_ATTEMPTS, ok);
    assert forall|k: u64| !ok(1) && !ok(2) && 1 <= k < DOWNLOAD_ATTEMPTS implies !(#[trigger] ok(
        k,
    )) by {
        assert(k == 1 || k == 2);
    }
    assert forall|k: u64|
        !ok(1) && !ok(2) && !ok(3) && !ok(4) && 1 <= k < QUERY_ATTEMPTS implies !(#[trigger] ok(
        k,
    )) by {
        assert(k == 1 || k == 2 || k == 3 || k == 4);
    }
}

/// The tools for type information are fetched for the oldest series and release alone.
pub proof fn law_only_the_oldest_family_needs_tools(ws: Seq<char>, f: Family)
    ensures
        btf_tool_steps(ws, f).len() > 0 <==> android_of(f) == "android12"@,
        forall|i: int|
            0 <= i < btf_tool_steps(ws, f).len() ==> (#[trigger] btf_tool_steps(
                ws,
                f,
            )[i] matches StepModel::TryAll { warning, .. } && warning
                == "warning: could not install BTF tooling automatically"@),
{
    reveal_strlit("android12");
    reveal_strlit("android13");
    reveal_strlit("android14");
    reveal_strlit("android15");
    reveal_strlit("android16");
    assert("android12"@[8] == '2' && "android13"@[8] == '3' && "android14"@[8] == '4');
    assert("android15"@[8] == '5' && "android16"@[8] == '6');
}

} // verus!
