//! A run as a whole: its options, its stages and what it leaves out.
use crate::ctx::{Ctx, Options};
use crate::family::id_of;
use crate::paths::{joined_path, path_join};
use crate::text::{chars_of, slices};
use crate::words::{cat5, cat7};
use vstd::prelude::*;
use vstd::string::*;

verus! {

// ---------------------------------------------------------------------------
// Options
// ---------------------------------------------------------------------------

/// What the command line says of a build.
#[derive(Debug)]
pub struct BuildArgs {
    pub workspace: Option<String>,
    pub output_dir: Option<String>,
    pub bazel_cache: Option<String>,
    pub brand_name: String,
    pub variant: String,
    pub jobs: usize,
    pub bypass: bool,
    pub use_cache: bool,
    pub strict_patches: bool,
    pub root_commit: Option<String>,
    pub susfs_commit: Option<String>,
    pub droidspaces_commit: Option<String>,
    pub kernel_patches_commit: Option<String>,
    pub anykernel3_commit: Option<String>,
}

/// The text of an optional string, or another one.
pub open spec fn text_or(s: Option<String>, other: Seq<char>) -> Seq<char> {
    match s {
        Some(t) => t@,
        None => other,
    }
}

/// The options of a run. Without a workspace it is where the run was started; without
/// an output directory that is `out` in the workspace; without a bazel cache that is
/// in the home directory, or in the workspace where there is none. The output directory
/// is seen from where the run was started, so that it is the same one for a command that
/// runs elsewhere.
pub fn resolve_options(args: BuildArgs, cwd: Option<String>, home: Option<String>) -> (r: Options)
    ensures
        r.workspace@ == text_or(args.workspace, text_or(cwd, "."@)),
        r.output_dir@ == joined_path(
            text_or(cwd, ""@),
            text_or(args.output_dir, joined_path(r.workspace@, "out"@)),
        ),
        r.bazel_cache@ == text_or(
            args.bazel_cache,
            joined_path(text_or(home, r.workspace@), ".cache/bazel"@),
        ),
        r.brand_name == args.brand_name,
        r.variant == args.variant,
        r.jobs == args.jobs,
        r.bypass == args.bypass,
        r.use_cache == args.use_cache,
        r.strict_patches == args.strict_patches,
        r.root_commit == args.root_commit,
        r.susfs_commit == args.susfs_commit,
        r.droidspaces_commit == args.droidspaces_commit,
        r.kernel_patches_commit == args.kernel_patches_commit,
        r.anykernel3_commit == args.anykernel3_commit,
{
    let workspace = match args.workspace {
        Some(w) => w,
        None => match &cwd {
            Some(c) => c.as_str().to_owned(),
            None => ".".to_owned(),
        },
    };
    let output_dir = match args.output_dir {
        Some(o) => o,
        None => path_join(&workspace, "out"),
    };
    let output_dir = match &cwd {
        Some(c) => path_join(c, &output_dir),
        None => path_join("", &output_dir),
    };
    let bazel_cache = match args.bazel_cache {
        Some(b) => b,
        None => match home {
            Some(h) => path_join(&h, ".cache/bazel"),
            None => path_join(&workspace, ".cache/bazel"),
        },
    };
    Options {
        workspace,
        output_dir,
        bazel_cache,
        brand_name: args.brand_name,
        variant: args.variant,
        jobs: args.jobs,
        bypass: args.bypass,
        use_cache: args.use_cache,
        strict_patches: args.strict_patches,
        root_commit: args.root_commit,
        susfs_commit: args.susfs_commit,
        droidspaces_commit: args.droidspaces_commit,
        kernel_patches_commit: args.kernel_patches_commit,
        anykernel3_commit: args.anykernel3_commit,
    }
}

/// The tools that a build needs.
pub fn required_tools() -> (r: Vec<&'static str>)
    ensures
        slices(r@) == seq!["git"@, "patch"@, "curl"@, "timeout"@, "clang"@],
{
    let r = vec!["git", "patch", "curl", "timeout", "clang"];
    assert(slices(r@) =~= seq!["git"@, "patch"@, "curl"@, "timeout"@, "clang"@]);
    r
}

// ---------------------------------------------------------------------------
// Stages
// ---------------------------------------------------------------------------

/// A stage of a build.
#[derive(Clone, Copy, Debug, PartialEq, Eq, Structural)]
pub enum Stage {
    SetupEnvironment,
    EmptyKernelDir,
    DownloadKernel,
    SetTimestamp,
    ExtractSublevel,
    KernelFixes,
    SetupRoot,
    SetupSusfs,
    FixSelinuxHide,
    SetupDroidspaces,
    PtracePatch,
    UnicodeFix,
    MiscConfigs,
    DevicePatches,
    BypassHack,
    Branding,
    RemoveProtectedExports,
    CleanFlags,
    ScanRejects,
    BuildKernel,
    GatherArtifacts,
    WriteSummary,
}

/// The stages of a build, in order. The version check is passed over only on request.
pub open spec fn stage_list(bypass: bool) -> Seq<Stage> {
    seq![
        Stage::SetupEnvironment,
        Stage::EmptyKernelDir,
        Stage::DownloadKernel,
        Stage::SetTimestamp,
        Stage::ExtractSublevel,
        Stage::KernelFixes,
        Stage::SetupRoot,
        Stage::SetupSusfs,
        Stage::FixSelinuxHide,
        Stage::SetupDroidspaces,
        Stage::PtracePatch,
        Stage::UnicodeFix,
        Stage::MiscConfigs,
        Stage::DevicePatches,
    ] + (if bypass {
        seq![Stage::BypassHack]
    } else {
        seq![]
    }) + seq![
        Stage::Branding,
        Stage::RemoveProtectedExports,
        Stage::CleanFlags,
        Stage::ScanRejects,
        Stage::BuildKernel,
        Stage::GatherArtifacts,
        Stage::WriteSummary,
    ]
}

/// The stages of a build, in order.
pub fn build_target(opts: &Options) -> (r: Vec<Stage>)
    ensures
        r@ == stage_list(opts.bypass),
{
    let mut r = vec![
        Stage::SetupEnvironment,
        Stage::EmptyKernelDir,
        Stage::DownloadKernel,
        Stage::SetTimestamp,
        Stage::ExtractSublevel,
        Stage::KernelFixes,
        Stage::SetupRoot,
        Stage::SetupSusfs,
        Stage::FixSelinuxHide,
        Stage::SetupDroidspaces,
        Stage::PtracePatch,
        Stage::UnicodeFix,
        Stage::MiscConfigs,
        Stage::DevicePatches,
    ];
    if opts.bypass {
        r.push(Stage::BypassHack);
    }
    r.push(Stage::Branding);
    r.push(Stage::RemoveProtectedExports);
    r.push(Stage::CleanFlags);
    r.push(Stage::ScanRejects);
    r.push(Stage::BuildKernel);
    r.push(Stage::GatherArtifacts);
    r.push(Stage::WriteSummary);
    assert(r@ =~= stage_list(opts.bypass));
    r
}

/// What comes after a stage.
pub enum Progress<E> {
    /// The stage at `index` comes next.
    Next { index: usize, stage: Stage },
    /// All stages succeeded.
    Done,
    /// A stage failed, and with it the build.
    Failed { error: E },
}

/// What comes first in a list of stages.
pub open spec fn first_progress<E>(stages: Seq<Stage>) -> Progress<E> {
    if stages.len() > 0 {
        Progress::Next { index: 0, stage: stages[0] }
    } else {
        Progress::Done
    }
}

/// What comes after the stage at `index`, which came to `result`.
pub open spec fn next_progress<E>(
    stages: Seq<Stage>,
    index: int,
    result: Result<(), E>,
) -> Progress<E> {
    match result {
        Err(error) => Progress::Failed { error },
        Ok(_) => if index + 1 < stages.len() {
            Progress::Next { index: (index + 1) as usize, stage: stages[index + 1] }
        } else {
            Progress::Done
        },
    }
}

/// Tells which stage comes first.
pub fn first_stage<E>(stages: &Vec<Stage>) -> (r: Progress<E>)
    ensures
        r == first_progress::<E>(stages@),
{
    if stages.len() > 0 {
        Progress::Next { index: 0, stage: stages[0] }
    } else {
        Progress::Done
    }
}

/// Tells what comes after the stage at `index`: the next one where it succeeded, nothing
/// more where it was the last, and the end of the build, with its failure, where it failed.
pub fn after_stage<E>(stages: &Vec<Stage>, index: usize, result: Result<(), E>) -> (r: Progress<E>)
    ensures
        r == next_progress(stages@, index as int, result),
{
    match result {
        Err(error) => Progress::Failed { error },
        Ok(_) => if stages.len() > 0 && index < stages.len() - 1 {
            Progress::Next { index: index + 1, stage: stages[index + 1] }
        } else {
            Progress::Done
        },
    }
}

/// What a build comes to from `at` on, and how many stages run, where the stage at each
/// index comes to what `results` says.
pub open spec fn build_from<E>(
    stages: Seq<Stage>,
    results: spec_fn(int) -> Result<(), E>,
    at: Progress<E>,
) -> (Result<(), E>, int)
    decreases
        (match at {
            Progress::Next { index, .. } => stages.len() - index + 1,
            _ => 0,
        }),
{
    match at {
        Progress::Done => (Ok(()), 0),
        Progress::Failed { error } => (Err(error), 0),
        Progress::Next { index, .. } => if index < stages.len() && stages.len() <= usize::MAX {
            let (r, n) = build_from(
                stages,
                results,
                next_progress(stages, index as int, results(index as int)),
            );
            (r, n + 1)
        } else {
            (Ok(()), 0)
        },
    }
}

/// The first stage that fails ends the build, with its failure, and no later stage runs.
/// Where none fails all run, and the build succeeds.
pub proof fn law_first_failure_ends_the_build<E>(
    stages: Seq<Stage>,
    results: spec_fn(int) -> Result<(), E>,
    k: int,
)
    requires
        stages.len() <= usize::MAX,
        0 <= k <= stages.len(),
        forall|i: int| 0 <= i < k ==> (#[trigger] results(i)) is Ok,
        k < stages.len() ==> results(k) is Err,
    ensures
        build_from(stages, results, first_progress::<E>(stages)) == (if k < stages.len() {
            (results(k), k + 1)
        } else {
            (Ok::<(), E>(()), k)
        }),
{
    if stages.len() > 0 {
        lemma_build_from(stages, results, 0, k);
    }
}

proof fn lemma_build_from<E>(
    stages: Seq<Stage>,
    results: spec_fn(int) -> Result<(), E>,
    i: int,
    k: int,
)
    requires
        stages.len() <= usize::MAX,
        0 <= i <= k <= stages.len(),
        i < stages.len(),
        forall|j: int| i <= j < k ==> (#[trigger] results(j)) is Ok,
        k < stages.len() ==> results(k) is Err,
    ensures
        build_from(stages, results, Progress::Next { index: i as usize, stage: stages[i] }) == (
        if k < stages.len() {
            (results(k), k - i + 1)
        } else {
            (Ok::<(), E>(()), k - i)
        }),
    decreases k - i,
{
    reveal_with_fuel(build_from, 2);
    if i < k {
        assert(results(i) is Ok);
        if i + 1 < stages.len() {
            lemma_build_from(stages, results, i + 1, k);
        }
    }
}

/// The version check is passed over exactly where that was asked for.
pub proof fn law_bypass_is_opt_in(bypass: bool)
    ensures
        stage_list(bypass).contains(Stage::BypassHack) <==> bypass,
{
    let list = stage_list(bypass);
    if bypass {
        assert(list[14] == Stage::BypassHack);
    } else if list.contains(Stage::BypassHack) {
        let i = choose|i: int| 0 <= i < list.len() && list[i] == Stage::BypassHack;
        assert(0 <= i < 21);
    }
}

/// The kernel is built once, after every stage that changes the sources.
pub proof fn law_sources_change_before_the_build(bypass: bool, i: int, j: int)
    requires
        0 <= i < stage_list(bypass).len(),
        0 <= j < stage_list(bypass).len(),
        stage_list(bypass)[j] == Stage::BuildKernel,
        stage_list(bypass)[i] != Stage::GatherArtifacts,
        stage_list(bypass)[i] != Stage::WriteSummary,
    ensures
        i <= j,
{
    let n: int = if bypass {
        15
    } else {
        14
    };
    assert(j == n + 4);
}

/// The line that announces a build.
pub fn target_banner(ctx: &Ctx) -> (r: String)
    ensures
        r@ == "\n=== "@ + id_of(ctx.family) + " | patch level "@ + ctx.os_patch_level@
            + " | variant "@ + ctx.opts.variant@ + " ==="@,
{
    cat7(
        "\n=== ",
        ctx.family.id(),
        " | patch level ",
        &ctx.os_patch_level,
        " | variant ",
        &ctx.opts.variant,
        " ===",
    )
}

// ---------------------------------------------------------------------------
// What is left out
// ---------------------------------------------------------------------------

/// The features that are left out, each with where it would come from.
pub open spec fn left_out() -> Seq<(Seq<char>, Seq<char>)> {
    seq![
        ("NoMount"@, "nomount/action.yml + nomount-metamodule/action.yml"@),
        ("Baseband Guard"@, "bbg/action.yml"@),
        ("Networking"@, "networking/action.yml, networking-config, cifs, bbrv3"@),
        ("NTSync"@, "ntsync/action.yml"@),
        ("BPF stack"@, "btf/action.yml, fuse-bpf/action.yml"@),
        ("Performance"@, "performance/action.yml"@),
    ]
}

/// The features that are left out, each with where it would come from.
pub fn out_of_scope() -> (r: Vec<(&'static str, &'static str)>)
    ensures
        r@.map_values(|p: (&str, &str)| (p.0@, p.1@)) == left_out(),
{
    let r = vec![
        ("NoMount", "nomount/action.yml + nomount-metamodule/action.yml"),
        ("Baseband Guard", "bbg/action.yml"),
        ("Networking", "networking/action.yml, networking-config, cifs, bbrv3"),
        ("NTSync", "ntsync/action.yml"),
        ("BPF stack", "btf/action.yml, fuse-bpf/action.yml"),
        ("Performance", "performance/action.yml"),
    ];
    assert(r@.map_values(|p: (&str, &str)| (p.0@, p.1@)) =~= left_out());
    r
}

/// `n` spaces.
pub open spec fn spaces(n: int) -> Seq<char> {
    Seq::new(
        (if n > 0 {
            n
        } else {
            0
        }) as nat,
        |i: int| ' ',
    )
}

/// The line for a feature that is left out, its name padded to fourteen characters.
pub fn scope_line(feature: &str, source: &str) -> (r: String)
    ensures
        r@ == "            - "@ + (feature@ + spaces(14 - feature@.len())) + " ("@ + source@
            + ")"@,
{
    let mut padded = feature.to_owned();
    let mut n: usize = chars_of(feature).len();
    let ghost len = feature@.len() as int;
    assert(padded@ =~= feature@ + spaces(0));
    while n < 14
        invariant
            len == feature@.len(),
            len <= n,
            n <= 14 || n == len,
            padded@ == feature@ + spaces(n - len),
        decreases 14 - n,
    {
        padded.push(' ');
        n += 1;
        assert(padded@ =~= feature@ + spaces(n - len));
    }
    assert(spaces(n - len) =~= spaces(14 - len));
    cat5("            - ", &padded, " (", source, ")")
}

} // verus!
