//! The build itself: its environment, its command and what it leaves.
use crate::ctx::{common_dir_of, kernel_dir_of, Ctx, Options};
use crate::failure::{cannot_read_text, no_image_text, Failure};
use crate::paths::{joined_path, parent_of, path_join, path_parent};
use crate::plan::{
    command, command_in, command_models, env_model, step_models, Command, CommandModel, Step,
    StepModel,
};
use crate::sed::{inserted_after, sed_insert_after};
use crate::text::{
    begins, chars_of, contains, decimal, ends, occurs, range_of, replace, replaced, same,
    signed_decimal, slices, starts_with, string_of, texts,
};
use crate::tree::Tree;
use crate::words::{cat2, decimal_text, signed_text};
use vstd::prelude::*;

verus! {

// ---------------------------------------------------------------------------
// ccache
// ---------------------------------------------------------------------------

/// The command that fetches ccache.
pub open spec fn ccache_fetch_model(ws: Seq<char>) -> CommandModel {
    command_in(
        ws,
        seq![
            "curl"@,
            "-LfsS"@,
            "--retry"@,
            "5"@,
            "--retry-delay"@,
            "5"@,
            "--retry-all-errors"@,
            "--connect-timeout"@,
            "30"@,
            "-H"@,
            "User-Agent: Mozilla/5.0"@,
            "https://github.com/WildKernels/kernel_patches/raw/refs/heads/main/ccache/ccache-x86-64"@,
            "-o"@,
            joined_path(ws, "ccache"@),
        ],
    )
}

/// The commands that install ccache.
pub open spec fn ccache_install_models(ws: Seq<char>) -> Seq<CommandModel> {
    seq![
        command_in(
            ws,
            seq!["sudo"@, "cp"@, "-f"@, joined_path(ws, "ccache"@), "/usr/bin/ccache"@],
        ),
        command_in(ws, seq!["sudo"@, "chmod"@, "+x"@, "/usr/bin/ccache"@]),
    ]
}

/// How far the setup of ccache has come.
#[derive(Clone, Copy, Debug, PartialEq, Eq, Structural)]
pub enum CcacheState {
    Start,
    Fetching,
    Installing,
    Installed,
    Done,
}

/// What came back from outside.
#[derive(Clone, Copy, Debug, PartialEq, Eq, Structural)]
pub enum CcacheEvent {
    /// Whether ccache is on the path.
    Found { on_path: bool },
    /// Whether the commands succeeded.
    Ended { succeeded: bool },
    /// Whether ccache is on the path or where it was installed.
    Seen { on_path: bool, installed: bool },
}

/// What is to be done next.
#[derive(Debug)]
pub enum CcacheAction {
    /// Fetch ccache.
    Fetch { command: Command },
    /// Make the file executable, run the commands up to the first that fails, and
    /// remove the file.
    Install { staged: String, commands: Vec<Command> },
    /// Look for ccache.
    Look,
    /// Go on, with ccache or without it.
    Conclude { usable: bool },
}

/// The model of an action.
#[verifier::ext_equal]
pub enum CcacheActionModel {
    Fetch { command: CommandModel },
    Install { staged: Seq<char>, commands: Seq<CommandModel> },
    Look,
    Conclude { usable: bool },
}

impl View for CcacheAction {
    type V = CcacheActionModel;

    open spec fn view(&self) -> CcacheActionModel {
        match self {
            CcacheAction::Fetch { command } => CcacheActionModel::Fetch { command: command@ },
            CcacheAction::Install { staged, commands } => CcacheActionModel::Install {
                staged: staged@,
                commands: command_models(commands@),
            },
            CcacheAction::Look => CcacheActionModel::Look,
            CcacheAction::Conclude { usable } => CcacheActionModel::Conclude { usable: *usable },
        }
    }
}

/// The next state and action. What does not belong to the state concludes the setup
/// without ccache.
pub open spec fn ccache_next(ws: Seq<char>, state: CcacheState, event: CcacheEvent) -> (
    CcacheState,
    CcacheActionModel,
) {
    match (state, event) {
        (CcacheState::Start, CcacheEvent::Found { on_path }) => if on_path {
            (CcacheState::Done, CcacheActionModel::Conclude { usable: true })
        } else {
            (
                CcacheState::Fetching,
                CcacheActionModel::Fetch { command: ccache_fetch_model(ws) },
            )
        },
        (CcacheState::Fetching, CcacheEvent::Ended { succeeded: true }) => (
            CcacheState::Installing,
            CcacheActionModel::Install {
                staged: joined_path(ws, "ccache"@),
                commands: ccache_install_models(ws),
            },
        ),
        (CcacheState::Installing, CcacheEvent::Ended { succeeded: true }) => (
            CcacheState::Installed,
            CcacheActionModel::Look,
        ),
        (CcacheState::Installed, CcacheEvent::Seen { on_path, installed }) => (
            CcacheState::Done,
            CcacheActionModel::Conclude { usable: on_path || installed },
        ),
        _ => (CcacheState::Done, CcacheActionModel::Conclude { usable: false }),
    }
}

/// The command that fetches ccache.
fn ccache_fetch(ws: &str, staged: &str) -> (r: Command)
    requires
        staged@ == joined_path(ws@, "ccache"@),
    ensures
        r@ == ccache_fetch_model(ws@),
{
    let words = vec![
        "curl",
        "-LfsS",
        "--retry",
        "5",
        "--retry-delay",
        "5",
        "--retry-all-errors",
        "--connect-timeout",
        "30",
        "-H",
        "User-Agent: Mozilla/5.0",
        "https://github.com/WildKernels/kernel_patches/raw/refs/heads/main/ccache/ccache-x86-64",
        "-o",
        staged,
    ];
    assert(slices(words@) =~= ccache_fetch_model(ws@).words);
    command(ws, words)
}

/// Goes one step on in the setup of ccache.
pub fn setup_ccache(ctx: &Ctx, state: CcacheState, event: CcacheEvent) -> (r: (
    CcacheState,
    CcacheAction,
))
    ensures
        (r.0, r.1@) == ccache_next(ctx.workspace(), state, event),
{
    let ws = ctx.opts.workspace.as_str();
    let staged = path_join(ws, "ccache");
    match (state, event) {
        (CcacheState::Start, CcacheEvent::Found { on_path }) => if on_path {
            (CcacheState::Done, CcacheAction::Conclude { usable: true })
        } else {
            (CcacheState::Fetching, CcacheAction::Fetch { command: ccache_fetch(ws, &staged) })
        },
        (CcacheState::Fetching, CcacheEvent::Ended { succeeded: true }) => {
            let copy = vec!["sudo", "cp", "-f", staged.as_str(), "/usr/bin/ccache"];
            assert(slices(copy@) =~= seq![
                "sudo"@,
                "cp"@,
                "-f"@,
                staged@,
                "/usr/bin/ccache"@,
            ]);
            let chmod = vec!["sudo", "chmod", "+x", "/usr/bin/ccache"];
            assert(slices(chmod@) =~= seq!["sudo"@, "chmod"@, "+x"@, "/usr/bin/ccache"@]);
            let commands = vec![command(ws, copy), command(ws, chmod)];
            assert(command_models(commands@) =~= ccache_install_models(ws@));
            (CcacheState::Installing, CcacheAction::Install { staged, commands })
        },
        (CcacheState::Installing, CcacheEvent::Ended { succeeded: true }) => (
            CcacheState::Installed,
            CcacheAction::Look,
        ),
        (CcacheState::Installed, CcacheEvent::Seen { on_path, installed }) => (
            CcacheState::Done,
            CcacheAction::Conclude { usable: on_path || installed },
        ),
        _ => (CcacheState::Done, CcacheAction::Conclude { usable: false }),
    }
}

/// Tells whether a build asks for ccache: only the legacy build does, unless that is
/// switched off.
pub fn wants_ccache(opts: &Options, uses_bazel: bool) -> (r: bool)
    ensures
        r == (!uses_bazel && opts.use_cache),
{
    !uses_bazel && opts.use_cache
}

/// Where ccache keeps what it has compiled.
pub fn ccache_dir(ctx: &Ctx) -> (r: String)
    ensures
        r@ == joined_path(ctx.workspace(), ".ccache"@),
{
    path_join(&ctx.opts.workspace, ".ccache")
}

/// A failure on the way never stops the build: it goes on without ccache.
pub proof fn law_ccache_is_optional(ws: Seq<char>, state: CcacheState)
    requires
        state == CcacheState::Fetching || state == CcacheState::Installing,
    ensures
        ccache_next(ws, state, CcacheEvent::Ended { succeeded: false }) == (
            CcacheState::Done,
            CcacheActionModel::Conclude { usable: false },
        ),
{
}

// ---------------------------------------------------------------------------
// The environment
// ---------------------------------------------------------------------------

/// The environment that ccache reads.
pub open spec fn ccache_env_model(ws: Seq<char>) -> Seq<(Seq<char>, Seq<char>)> {
    seq![
        ("CCACHE_DIR"@, joined_path(ws, ".ccache"@)),
        ("CCACHE_MAXSIZE"@, "12G"@),
        ("CCACHE_BASEDIR"@, ws),
        ("CCACHE_COMPILERCHECK"@, "content"@),
        ("CCACHE_NOHASHDIR"@, "true"@),
        ("CCACHE_IGNOREOPTIONS"@, "--sysroot*"@),
        ("CCACHE_COMPRESS"@, "true"@),
        ("CCACHE_COMPRESSLEVEL"@, "3"@),
        ("CCACHE_DIRECT"@, "true"@),
        ("CCACHE_FILE_CLONE"@, "true"@),
        ("CCACHE_INODE_CACHE"@, "true"@),
        ("CCACHE_IS_KERNEL_COMPILING"@, "true"@),
        ("CCACHE_UMASK"@, "002"@),
        ("CCACHE_DEPEND"@, "true"@),
        (
            "CCACHE_SLOPPINESS"@,
            "file_macro,time_macros,include_file_mtime,include_file_ctime,pch_defines,system_headers,locale"@,
        ),
    ]
}

/// The environment that makes compilers go through ccache.
pub open spec fn compiler_env_model() -> Seq<(Seq<char>, Seq<char>)> {
    seq![
        ("CC"@, "/usr/bin/ccache clang"@),
        ("CXX"@, "/usr/bin/ccache clang++"@),
        ("HOSTCC"@, "/usr/bin/ccache clang"@),
        ("HOSTCXX"@, "/usr/bin/ccache clang++"@),
    ]
}

/// The environment that makes a build reproducible.
pub open spec fn stamp_env_model(ctx: Ctx) -> Seq<(Seq<char>, Seq<char>)> {
    seq![
        ("SOURCE_DATE_EPOCH"@, signed_decimal(ctx.source_date_epoch as int)),
        ("KBUILD_BUILD_TIMESTAMP"@, ctx.kbuild_timestamp@),
        ("GIT_AUTHOR_DATE"@, ctx.git_date@),
        ("GIT_COMMITTER_DATE"@, ctx.git_date@),
    ]
}

/// The environment of the legacy build script.
pub open spec fn script_env_model(ws: Seq<char>) -> Seq<(Seq<char>, Seq<char>)> {
    seq![
        ("BUILD_GKI_ARTIFACTS"@, Seq::<char>::empty()),
        ("BUILD_GKI_CERTIFICATION_TOOLS"@, "0"@),
        ("BUILD_SYSTEM_DLKM"@, "0"@),
        ("SKIP_VENDOR_BOOT"@, "1"@),
        ("SKIP_EXT_MODULES"@, "1"@),
        ("SKIP_CP_KERNEL_HDR"@, "1"@),
        ("OUT_DIR"@, joined_path(ws, "out"@)),
        ("LTO"@, "thin"@),
        ("BUILD_CONFIG"@, "common/build.config.gki.aarch64"@),
    ]
}

/// The environment of the legacy build.
pub open spec fn legacy_env_model(ctx: Ctx, use_ccache: bool) -> Seq<(Seq<char>, Seq<char>)> {
    let env = stamp_env_model(ctx) + script_env_model(ctx.workspace());
    if use_ccache {
        env + ccache_env_model(ctx.workspace()) + compiler_env_model()
    } else {
        env
    }
}

/// One variable and its value.
fn var(name: &str, value: &str) -> (r: (String, String))
    ensures
        (r.0@, r.1@) == (name@, value@),
{
    (name.to_owned(), value.to_owned())
}

/// Adds variables to an environment.
fn add_env(env: &mut Vec<(String, String)>, more: Vec<(String, String)>)
    ensures
        env_model(final(env)@) == env_model(old(env)@) + env_model(more@),
{
    let ghost all = more@;
    let mut more = more;
    env.append(&mut more);
    assert(env_model(env@) =~= env_model(old(env)@) + env_model(all));
}

/// The environment that ccache reads.
pub fn ccache_env(ctx: &Ctx) -> (r: Vec<(String, String)>)
    ensures
        env_model(r@) == ccache_env_model(ctx.workspace()),
{
    let dir = path_join(&ctx.opts.workspace, ".ccache");
    let r = vec![
        var("CCACHE_DIR", &dir),
        var("CCACHE_MAXSIZE", "12G"),
        var("CCACHE_BASEDIR", &ctx.opts.workspace),
        var("CCACHE_COMPILERCHECK", "content"),
        var("CCACHE_NOHASHDIR", "true"),
        var("CCACHE_IGNOREOPTIONS", "--sysroot*"),
        var("CCACHE_COMPRESS", "true"),
        var("CCACHE_COMPRESSLEVEL", "3"),
        var("CCACHE_DIRECT", "true"),
        var("CCACHE_FILE_CLONE", "true"),
        var("CCACHE_INODE_CACHE", "true"),
        var("CCACHE_IS_KERNEL_COMPILING", "true"),
        var("CCACHE_UMASK", "002"),
        var("CCACHE_DEPEND", "true"),
        var(
            "CCACHE_SLOPPINESS",
            "file_macro,time_macros,include_file_mtime,include_file_ctime,pch_defines,system_headers,locale",
        ),
    ];
    assert(env_model(r@) =~= ccache_env_model(ctx.workspace()));
    r
}

/// The environment that makes a build reproducible.
fn stamp_env(ctx: &Ctx) -> (r: Vec<(String, String)>)
    ensures
        env_model(r@) == stamp_env_model(*ctx),
{
    let epoch = signed_text(ctx.source_date_epoch);
    let r = vec![
        var("SOURCE_DATE_EPOCH", &epoch),
        var("KBUILD_BUILD_TIMESTAMP", &ctx.kbuild_timestamp),
        var("GIT_AUTHOR_DATE", &ctx.git_date),
        var("GIT_COMMITTER_DATE", &ctx.git_date),
    ];
    assert(env_model(r@) =~= stamp_env_model(*ctx));
    r
}

/// The environment of the legacy build.
fn legacy_env(ctx: &Ctx, use_ccache: bool) -> (r: Vec<(String, String)>)
    ensures
        env_model(r@) == legacy_env_model(*ctx, use_ccache),
{
    proof {
        reveal_strlit("");
        assert(""@ =~= Seq::<char>::empty());
    }
    let out = ctx.out_dir();
    let script = vec![
        var("BUILD_GKI_ARTIFACTS", ""),
        var("BUILD_GKI_CERTIFICATION_TOOLS", "0"),
        var("BUILD_SYSTEM_DLKM", "0"),
        var("SKIP_VENDOR_BOOT", "1"),
        var("SKIP_EXT_MODULES", "1"),
        var("SKIP_CP_KERNEL_HDR", "1"),
        var("OUT_DIR", &out),
        var("LTO", "thin"),
        var("BUILD_CONFIG", "common/build.config.gki.aarch64"),
    ];
    assert(env_model(script@) =~= script_env_model(ctx.workspace()));
    let mut env = stamp_env(ctx);
    add_env(&mut env, script);
    if use_ccache {
        add_env(&mut env, ccache_env(ctx));
        let compilers = vec![
            var("CC", "/usr/bin/ccache clang"),
            var("CXX", "/usr/bin/ccache clang++"),
            var("HOSTCC", "/usr/bin/ccache clang"),
            var("HOSTCXX", "/usr/bin/ccache clang++"),
        ];
        assert(env_model(compilers@) =~= compiler_env_model());
        add_env(&mut env, compilers);
    }
    env
}

// ---------------------------------------------------------------------------
// The build
// ---------------------------------------------------------------------------

/// A build configuration without the check of the kernel configuration.
pub open spec fn check_dropped(s: Seq<char>) -> Seq<char> {
    replaced(s, "check_defconfig"@, ""@)
}

/// The bazel file with the check of the kernel configuration disabled.
pub open spec fn check_disabled(s: Seq<char>) -> Seq<char> {
    if occurs(s, "check_defconfig = \"disabled\""@) {
        s
    } else {
        inserted_after(
            s,
            "name = \"kernel_aarch64\","@,
            "    check_defconfig = \"disabled\","@,
        )
    }
}

/// The files with the check dropped in the file at `path`, where it is there.
pub open spec fn check_dropped_in(
    files: Map<Seq<char>, Seq<char>>,
    path: Seq<char>,
) -> Map<Seq<char>, Seq<char>> {
    if files.dom().contains(path) {
        files.insert(path, check_dropped(files[path]))
    } else {
        files
    }
}

/// The files of the tree with the check dropped from the legacy configuration.
pub open spec fn legacy_checks_dropped(files: Map<Seq<char>, Seq<char>>) -> Map<
    Seq<char>,
    Seq<char>,
> {
    check_dropped_in(
        check_dropped_in(files, "build.config.gki"@),
        "build.config.gki.aarch64"@,
    )
}

/// The steps of the legacy build.
pub open spec fn legacy_steps(ctx: Ctx, use_ccache: bool, jobs: nat) -> Seq<StepModel> {
    seq![
        StepModel::MakeDir { path: joined_path(ctx.workspace(), "out"@) },
        StepModel::Run {
            command: CommandModel {
                cwd: kernel_dir_of(ctx.workspace()),
                words: seq!["build/build.sh"@, "-j"@, decimal(jobs)],
                env: legacy_env_model(ctx, use_ccache),
            },
        },
    ]
}

/// The steps of the bazel build.
pub open spec fn bazel_steps(ctx: Ctx) -> Seq<StepModel> {
    seq![
        StepModel::MakeDir { path: joined_path(ctx.workspace(), "out"@) },
        StepModel::MakeDir { path: ctx.opts.bazel_cache@ },
        StepModel::Run {
            command: CommandModel {
                cwd: kernel_dir_of(ctx.workspace()),
                words: seq![
                    "tools/bazel"@,
                    "build"@,
                    "--config=fast"@,
                    "--disk_cache="@ + ctx.opts.bazel_cache@,
                    "//common:kernel_aarch64/Image"@,
                ],
                env: stamp_env_model(ctx),
            },
        },
    ]
}

/// Drops the check in the file at `path`, where it is there.
fn drop_check(tree: &mut Tree, path: &str)
    ensures
        final(tree)@ == check_dropped_in(old(tree)@, path@),
{
    proof {
        reveal_strlit("check_defconfig");
    }
    let out = match tree.get(path) {
        Some(content) => replace(content, "check_defconfig", ""),
        None => {
            return ;
        },
    };
    tree.set(path, out);
}

/// Prepares the files of the tree and gives back the steps that build the kernel. With
/// bazel the bazel file must be there.
pub fn build_kernel(ctx: &Ctx, tree: &mut Tree, uses_bazel: bool, use_ccache: bool, jobs: u64) -> (r:
    Result<Vec<Step>, Failure>)
    ensures
        ({
            let files = legacy_checks_dropped(old(tree)@);
            if !uses_bazel {
                &&& r matches Ok(steps) && step_models(steps@) == legacy_steps(
                    *ctx,
                    use_ccache,
                    jobs as nat,
                )
                &&& final(tree)@ == files
            } else if files.dom().contains("BUILD.bazel"@) {
                &&& r matches Ok(steps) && step_models(steps@) == bazel_steps(*ctx)
                &&& final(tree)@ == files.insert(
                    "BUILD.bazel"@,
                    check_disabled(files["BUILD.bazel"@]),
                )
            } else {
                &&& r matches Err(e) && e@ == cannot_read_text(
                    joined_path(common_dir_of(ctx.workspace()), "BUILD.bazel"@),
                )
                &&& final(tree)@ == files
            }
        }),
{
    drop_check(tree, "build.config.gki");
    drop_check(tree, "build.config.gki.aarch64");
    let kernel = ctx.kernel_dir();
    let out_step = Step::MakeDir { path: ctx.out_dir() };
    if !uses_bazel {
        let count = decimal_text(jobs);
        let words = vec!["build/build.sh", "-j", count.as_str()];
        assert(slices(words@) =~= seq!["build/build.sh"@, "-j"@, decimal(jobs as nat)]);
        let mut c = command(&kernel, words);
        c.env = legacy_env(ctx, use_ccache);
        let steps = vec![out_step, Step::Run { command: c }];
        assert(step_models(steps@) =~= legacy_steps(*ctx, use_ccache, jobs as nat));
        return Ok(steps);
    }
    let bazel = match tree.get("BUILD.bazel") {
        Some(content) => if contains(content, "check_defconfig = \"disabled\"") {
            content.to_owned()
        } else {
            sed_insert_after(
                content,
                "name = \"kernel_aarch64\",",
                "    check_defconfig = \"disabled\",",
            )
        },
        None => {
            return Err(Failure::CannotRead { path: path_join(&ctx.common_dir(), "BUILD.bazel") });
        },
    };
    tree.set("BUILD.bazel", bazel);
    let cache = cat2("--disk_cache=", &ctx.opts.bazel_cache);
    let words = vec![
        "tools/bazel",
        "build",
        "--config=fast",
        cache.as_str(),
        "//common:kernel_aarch64/Image",
    ];
    assert(slices(words@) =~= seq![
        "tools/bazel"@,
        "build"@,
        "--config=fast"@,
        cache@,
        "//common:kernel_aarch64/Image"@,
    ]);
    let mut c = command(&kernel, words);
    c.env = stamp_env(ctx);
    let steps = vec![
        out_step,
        Step::MakeDir { path: ctx.opts.bazel_cache.as_str().to_owned() },
        Step::Run { command: c },
    ];
    assert(step_models(steps@) =~= bazel_steps(*ctx));
    Ok(steps)
}

// ---------------------------------------------------------------------------
// The image
// ---------------------------------------------------------------------------

/// The places where the image may be, in the order in which they are looked at.
pub open spec fn image_candidates_of(ws: Seq<char>) -> Seq<Seq<char>> {
    seq![
        joined_path(kernel_dir_of(ws), "bazel-bin/common/kernel_aarch64/Image"@),
        joined_path(joined_path(ws, "out"@), "dist/Image"@),
        joined_path(joined_path(ws, "out"@), "Image"@),
    ]
}

/// The places where the image may be.
pub fn image_candidates(ctx: &Ctx) -> (r: Vec<String>)
    ensures
        texts(r@) == image_candidates_of(ctx.workspace()),
{
    let out = ctx.out_dir();
    let r = vec![
        path_join(&ctx.kernel_dir(), "bazel-bin/common/kernel_aarch64/Image"),
        path_join(&out, "dist/Image"),
        path_join(&out, "Image"),
    ];
    assert(texts(r@) =~= image_candidates_of(ctx.workspace()));
    r
}

/// The image that was built, and where it is copied to: the first of the candidates
/// that is a file. `there` says of each whether it is.
pub fn gather_artifacts(ctx: &Ctx, there: [bool; 3]) -> (r: Result<(String, String), Failure>)
    ensures
        ({
            let places = image_candidates_of(ctx.workspace());
            let found = if there[0] {
                Some(places[0])
            } else if there[1] {
                Some(places[1])
            } else if there[2] {
                Some(places[2])
            } else {
                None
            };
            match found {
                Some(p) => r matches Ok(pair) && pair.0@ == p && pair.1@ == joined_path(
                    joined_path(ctx.workspace(), "AnyKernel3"@),
                    "Image"@,
                ),
                None => r matches Err(e) && e@ == no_image_text(places[0], places[1]),
            }
        }),
{
    let destination = path_join(&ctx.any_kernel3(), "Image");
    let bazel = path_join(&ctx.kernel_dir(), "bazel-bin/common/kernel_aarch64/Image");
    let out = ctx.out_dir();
    let dist = path_join(&out, "dist/Image");
    if there[0] {
        Ok((bazel, destination))
    } else if there[1] {
        Ok((dist, destination))
    } else if there[2] {
        Ok((path_join(&out, "Image"), destination))
    } else {
        Err(Failure::NoImage { bazel, dist })
    }
}

// ---------------------------------------------------------------------------
// Rejected hunks
// ---------------------------------------------------------------------------

/// What stands behind the last slash.
pub open spec fn file_name_part(p: Seq<char>) -> Seq<char>
    decreases p.len(),
{
    if p.len() == 0 || p.last() == '/' {
        seq![]
    } else {
        file_name_part(p.drop_last()).push(p.last())
    }
}

/// The file holds rejected hunks: its name ends in `.rej`, with something in front of
/// that. One file is known to be rejected and passed over.
pub open spec fn is_reject_path(p: Seq<char>) -> bool {
    let name = file_name_part(p);
    ends(name, ".rej"@) && name.len() > 4 && name != "i2c-nomadik.c.rej"@
}

/// The path below the kernel directory, or the path itself where it is not below.
pub open spec fn below_kernel(kernel: Seq<char>, p: Seq<char>) -> Seq<char> {
    if begins(p, kernel + "/"@) {
        p.skip((kernel + "/"@).len() as int)
    } else {
        p
    }
}

/// The path without its ending.
pub open spec fn without_rej(p: Seq<char>) -> Seq<char> {
    p.take(p.len() - 4)
}

/// The steps that collect one file of rejected hunks, and the file that they are for,
/// where that is there.
pub open spec fn reject_steps(
    ws: Seq<char>,
    p: Seq<char>,
    original_there: bool,
) -> Seq<StepModel> {
    let to = joined_path(joined_path(ws, "patch-rejects"@), below_kernel(kernel_dir_of(ws), p));
    let first = seq![
        StepModel::MakeDir { path: parent_of(to) },
        StepModel::CopyFile { from: p, to },
    ];
    if original_there {
        first.push(StepModel::CopyFile { from: without_rej(p), to: without_rej(to) })
    } else {
        first
    }
}

/// The characters behind the last slash.
fn name_part(v: &Vec<char>) -> (r: Vec<char>)
    ensures
        r@ == file_name_part(v@),
{
    let mut n: usize = v.len();
    let len: usize = v.len();
    assert(v@.take(n as int) =~= v@);
    assert(file_name_part(v@) =~= file_name_part(v@.take(n as int)) + v@.skip(n as int));
    while n > 0 && v[n - 1] != '/'
        invariant
            n <= v@.len(),
            len == v@.len(),
            file_name_part(v@) == file_name_part(v@.take(n as int)) + v@.skip(n as int),
        decreases n,
    {
        assert(v@.take(n as int).drop_last() =~= v@.take(n - 1));
        assert(file_name_part(v@.take(n - 1)).push(v@[n - 1]) + v@.skip(n as int)
            =~= file_name_part(v@.take(n - 1)) + v@.skip(n - 1));
        n -= 1;
    }
    let r = range_of(v, n, len);
    assert(r@ =~= v@.skip(n as int));
    assert(file_name_part(v@.take(n as int)) =~= Seq::<char>::empty());
    assert(file_name_part(v@) =~= r@);
    r
}

/// Tells whether a file has that name.
pub fn file_is_named(p: &str, name: &str) -> (r: bool)
    ensures
        r == (file_name_part(p@) == name@),
{
    same(&string_of(&name_part(&chars_of(p))), name)
}

/// Tells whether a file holds rejected hunks.
pub fn is_reject(p: &str) -> (r: bool)
    ensures
        r == is_reject_path(p@),
{
    proof {
        reveal_strlit(".rej");
    }
    let name = name_part(&chars_of(p));
    let n: usize = name.len();
    if n <= 4 {
        return false;
    }
    let end = range_of(&name, n - 4, n);
    assert(end@ =~= name@.skip(n - 4));
    same(&string_of(&end), ".rej") && !same(&string_of(&name), "i2c-nomadik.c.rej")
}

/// The path of a file with rejected hunks, below the kernel directory.
pub fn reject_name(ctx: &Ctx, p: &str) -> (r: String)
    ensures
        r@ == below_kernel(kernel_dir_of(ctx.workspace()), p@),
{
    let prefix = cat2(&ctx.kernel_dir(), "/");
    if starts_with(p, &prefix) {
        let v = chars_of(p);
        let k: usize = chars_of(&prefix).len();
        let n: usize = v.len();
        let rest = range_of(&v, k, n);
        assert(rest@ =~= p@.skip(k as int));
        string_of(&rest)
    } else {
        p.to_owned()
    }
}

/// The list of the files with rejected hunks.
pub fn rejects_index(ctx: &Ctx) -> (r: String)
    ensures
        r@ == joined_path(joined_path(ctx.workspace(), "patch-rejects"@), "index.txt"@),
{
    path_join(&ctx.rejects_dir(), "index.txt")
}

/// The path without its ending.
fn drop_ending(p: &str) -> (r: String)
    requires
        p@.len() >= 4,
    ensures
        r@ == without_rej(p@),
{
    let v = chars_of(p);
    let n: usize = v.len();
    let front = range_of(&v, 0, n - 4);
    assert(front@ =~= without_rej(p@));
    string_of(&front)
}

/// A path is at least as long as its name, and so is what it is below a directory.
proof fn lemma_reject_lengths(ws: Seq<char>, p: Seq<char>)
    requires
        is_reject_path(p),
    ensures
        p.len() >= 4,
        below_kernel(kernel_dir_of(ws), p).len() >= 4,
        joined_path(
            joined_path(ws, "patch-rejects"@),
            below_kernel(kernel_dir_of(ws), p),
        ).len() >= 4,
{
    lemma_name_is_behind(p);
    reveal_strlit("/");
    reveal_strlit(".rej");
    let pre = kernel_dir_of(ws) + "/"@;
    if begins(p, pre) {
        assert(p.subrange(0, pre.len() as int)[pre.len() - 1] == '/');
        assert(p[pre.len() - 1] == '/');
        lemma_no_slash_in_name(p, pre.len() - 1);
    }
}

/// The name is not longer than the path.
proof fn lemma_name_is_behind(p: Seq<char>)
    ensures
        file_name_part(p).len() <= p.len(),
    decreases p.len(),
{
    if p.len() > 0 && p.last() != '/' {
        lemma_name_is_behind(p.drop_last());
    }
}

/// The name stands behind every slash.
proof fn lemma_no_slash_in_name(p: Seq<char>, i: int)
    requires
        0 <= i < p.len(),
        p[i] == '/',
    ensures
        file_name_part(p).len() <= p.len() - i - 1,
    decreases p.len(),
{
    if p.last() != '/' {
        lemma_no_slash_in_name(p.drop_last(), i);
    }
}

/// The steps that collect one file of rejected hunks.
pub fn scan_patch_rejects(ctx: &Ctx, p: &str, original_there: bool) -> (r: Vec<Step>)
    requires
        is_reject_path(p@),
    ensures
        step_models(r@) == reject_steps(ctx.workspace(), p@, original_there),
{
    proof {
        lemma_reject_lengths(ctx.workspace(), p@);
    }
    let to = path_join(&ctx.rejects_dir(), &reject_name(ctx, p));
    let mut r: Vec<Step> = Vec::new();
    r.push(Step::MakeDir { path: path_parent(&to) });
    r.push(Step::CopyFile { from: p.to_owned(), to: to.as_str().to_owned() });
    if original_there {
        r.push(Step::CopyFile { from: drop_ending(p), to: drop_ending(&to) });
    }
    assert(step_models(r@) =~= reject_steps(ctx.workspace(), p@, original_there));
    r
}

} // verus!
