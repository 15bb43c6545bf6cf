//! What the setups of the root implementation, of SUSFS and of the cache promise, and what
//! the build runs.
use crate::ctx::{kernel_dir_of, Ctx};
use crate::failure::Failure;
use crate::family::id_of;
use crate::features::{susfs_next, SusfsActionModel, SusfsEvent, SusfsStateModel};
use crate::kernel::{
    bazel_steps, ccache_next, legacy_steps, CcacheActionModel, CcacheEvent, CcacheState,
};
use crate::paths::joined_path;
use crate::plan::StepModel;
use crate::process::is_full_sha;
use crate::root::{
    drivers_dir_of, registered_kconfig, registered_makefile, root_next, RootActionModel,
    RootEvent, RootFacts, RootStateModel,
};
use crate::sed::{line_after, terminated};
use crate::sed_laws::{
    law_insert_needs_the_needle, lemma_has_in_joined, lemma_stands_in_a_line,
};
use crate::sources::opt_string;
use crate::text::{decimal, lines_of, occurs, occurs_at};
use vstd::prelude::*;

verus! {

// ---------------------------------------------------------------------------
// The root implementation
// ---------------------------------------------------------------------------

/// The Makefile of the drivers builds the root implementation after it was registered, and
/// registering it once more changes nothing.
pub proof fn law_makefile_is_registered_once(s: Seq<char>)
    ensures
        occurs(registered_makefile(s), "obj-$(CONFIG_KSU) += kernelsu/"@),
        registered_makefile(registered_makefile(s)) == registered_makefile(s),
        occurs(s, "obj-$(CONFIG_KSU) += kernelsu/"@) ==> registered_makefile(s) == s,
{
    let line = "obj-$(CONFIG_KSU) += kernelsu/"@;
    let out = registered_makefile(s);
    if !occurs(s, line) {
        let at = out.len() - 1 - line.len();
        assert(out.subrange(at, at + line.len()) =~= line);
        assert(occurs_at(out, line, at));
    }
}

/// A menu of the drivers has the options of the root implementation after it was
/// registered, and registering it once more changes nothing. A file without a menu is
/// left as it is.
pub proof fn law_kconfig_is_registered_once(s: Seq<char>)
    ensures
        occurs(s, "endmenu"@) ==> occurs(
            registered_kconfig(s),
            "source \"drivers/kernelsu/Kconfig\""@,
        ) && registered_kconfig(registered_kconfig(s)) == registered_kconfig(s),
        !occurs(s, "endmenu"@) ==> registered_kconfig(s) == s,
        occurs(s, "source \"drivers/kernelsu/Kconfig\""@) ==> registered_kconfig(s) == s,
{
    let (end, line) = ("endmenu"@, "source \"drivers/kernelsu/Kconfig\""@);
    if !occurs(s, end) {
        law_insert_needs_the_needle(s, end, line);
    } else if !occurs(s, line) {
        reveal_strlit("endmenu");
        let k = lemma_stands_in_a_line(s, end);
        let pieces = lines_of(s).map_values(|l: Seq<char>| line_after(l, end, line));
        let piece = pieces[k];
        assert(piece == terminated(line) + lines_of(s)[k]);
        assert(piece.subrange(0, line.len() as int) =~= line);
        assert(occurs_at(piece, line, 0));
        lemma_has_in_joined(pieces, k, line);
    }
}

/// The drivers are taken from the common tree where it has them, else from the kernel
/// directory; and they are found exactly where the commit is given in full, neither of the
/// other implementations nor an earlier checkout is there, and nothing is wired in yet.
pub proof fn law_drivers_are_found_in_a_clean_tree(
    kernel: Seq<char>,
    sha: Seq<char>,
    w: RootFacts,
)
    ensures
        drivers_dir_of(kernel, sha, w) is Ok <==> {
            &&& is_full_sha(sha)
            &&& !w.kernelsu && !w.resukisu && !w.kernelsu_next
            &&& if w.common_drivers {
                !w.common_integration
            } else {
                w.drivers && !w.integration
            }
        },
        drivers_dir_of(kernel, sha, w) matches Ok(d) ==> d == joined_path(
            kernel,
            if w.common_drivers {
                "common/drivers"@
            } else {
                "drivers"@
            },
        ),
{
}

/// A pinned commit is taken as it is. Else the fork is asked for the tip of its branch
/// with SUSFS, and where it does not answer the project itself for that of its
/// development; the failure of the second ends the setup.
pub proof fn law_commit_is_pinned_or_asked_for(
    ws: Seq<char>,
    pin: Option<Seq<char>>,
    e: Failure,
)
    ensures
        pin matches Some(sha) ==> root_next(ws, pin, RootStateModel::Start, RootEvent::Begin)
            == Ok::<_, Seq<char>>((RootStateModel::Resolved { sha }, RootActionModel::Look)),
        pin is None ==> {
            &&& root_next(ws, pin, RootStateModel::Start, RootEvent::Begin) matches Ok((s, a))
            &&& s == (RootStateModel::Asked { fallback: false })
            &&& a matches RootActionModel::Ask { repo, reference }
            &&& repo == "https://github.com/pershoot/KernelSU-Next.git"@
            &&& reference == "refs/heads/dev-susfs"@
        },
        ({
            let answer = RootEvent::Answered { answer: Err(e) };
            &&& root_next(ws, pin, RootStateModel::Asked { fallback: false }, answer) matches Ok(
                (s, a),
            )
            &&& s == (RootStateModel::Asked { fallback: true })
            &&& a matches RootActionModel::Ask { repo, reference }
            &&& repo == "https://github.com/KernelSU-Next/KernelSU-Next.git"@
            &&& reference == "refs/heads/dev"@
        }),
        root_next(
            ws,
            pin,
            RootStateModel::Asked { fallback: true },
            RootEvent::Answered { answer: Err(e) },
        ) == Err::<(RootStateModel, RootActionModel), _>(e@),
{
    reveal_strlit("refs/heads/");
    reveal_strlit("dev-susfs");
    reveal_strlit("refs/heads/dev-susfs");
    reveal_strlit("dev");
    reveal_strlit("refs/heads/dev");
    assert("refs/heads/"@ + "dev-susfs"@ =~= "refs/heads/dev-susfs"@);
    assert("refs/heads/"@ + "dev"@ =~= "refs/heads/dev"@);
}

/// The commit that a remote named, or that was pinned, is the one that is cloned, from the
/// fork first; what was cloned is used only where both of its files are there.
pub proof fn law_the_named_commit_is_cloned(
    ws: Seq<char>,
    pin: Option<Seq<char>>,
    fallback: bool,
    named: String,
    sha: Seq<char>,
    facts: RootFacts,
    drivers: Seq<char>,
    repo: Seq<char>,
    kconfig: bool,
    makefile: bool,
)
    ensures
        root_next(
            ws,
            pin,
            RootStateModel::Asked { fallback },
            RootEvent::Answered { answer: Ok(named) },
        ) == Ok::<_, Seq<char>>((RootStateModel::Resolved { sha: named@ }, RootActionModel::Look)),
        root_next(
            ws,
            pin,
            RootStateModel::Resolved { sha },
            RootEvent::Seen { facts },
        ) matches Ok((s, a)) ==> {
            &&& s matches RootStateModel::Cloning { sha: c, drivers: d, remote } && c == sha
                && remote == 0 && drivers_dir_of(kernel_dir_of(ws), sha, facts) == Ok::<_, Seq<char>>(d)
            &&& a matches RootActionModel::Clone { steps } && steps.last() == (
            StepModel::CheckHead {
                dir: joined_path(kernel_dir_of(ws), "KernelSU-Next"@),
                name: "https://github.com/pershoot/KernelSU-Next.git"@,
                expected: sha,
            })
        },
        root_next(
            ws,
            pin,
            RootStateModel::Cloned { drivers, repo },
            RootEvent::Checked { kconfig, makefile },
        ) is Ok <==> kconfig && makefile,
{
}

// ---------------------------------------------------------------------------
// SUSFS
// ---------------------------------------------------------------------------

/// A pinned commit of SUSFS is checked out; else the branch of the family is asked for,
/// and what it answers is checked out. A remote that does not answer ends the setup.
pub proof fn law_susfs_is_pinned_or_asked_for(ctx: Ctx, named: String, e: Failure)
    ensures
        ({
            let next = susfs_next(ctx, SusfsStateModel::Cloning, SusfsEvent::Performed);
            match opt_string(ctx.opts.susfs_commit) {
                Some(c) => next matches Ok((s, a)) && s == (SusfsStateModel::CheckingOut {
                    commit: c,
                }) && a is Perform,
                None => next matches Ok((s, a)) && s == SusfsStateModel::Asked && a == (
                SusfsActionModel::Ask {
                    repo: "https://gitlab.com/simonpunk/susfs4ksu.git"@,
                    reference: "refs/heads/gki-"@ + id_of(ctx.family),
                }),
            }
        }),
        susfs_next(
            ctx,
            SusfsStateModel::Asked,
            SusfsEvent::Answered { answer: Ok(named) },
        ) matches Ok((s, a)) && s == (SusfsStateModel::CheckingOut { commit: named@ })
            && a is Perform,
        susfs_next(ctx, SusfsStateModel::Asked, SusfsEvent::Answered { answer: Err(e) }) == Err::<
            (SusfsStateModel, SusfsActionModel),
            _,
        >(e@),
{
    reveal_strlit("refs/heads/");
    reveal_strlit("gki-");
    reveal_strlit("refs/heads/gki-");
    assert("refs/heads/"@ + ("gki-"@ + id_of(ctx.family)) =~= "refs/heads/gki-"@ + id_of(
        ctx.family,
    ));
}

/// Steps that come to no end of their own leave SUSFS where it is: it is set up once its
/// patches were made, and not before.
pub proof fn law_susfs_is_done_after_its_patches(ctx: Ctx, state: SusfsStateModel, event: SusfsEvent)
    requires
        susfs_next(ctx, state, event) matches Ok((s, _)) && s == SusfsStateModel::Done,
    ensures
        state == SusfsStateModel::Done || (state == SusfsStateModel::Patching && event
            == SusfsEvent::Performed),
{
}

// ---------------------------------------------------------------------------
// The cache
// ---------------------------------------------------------------------------

/// A compiler cache that is on the path is used without being fetched. One that is not is
/// fetched, installed and looked for, and used exactly where it is then found.
pub proof fn law_cache_is_used_where_it_is_found(
    ws: Seq<char>,
    on_path: bool,
    installed: bool,
)
    ensures
        ({
            let (s, a) = ccache_next(ws, CcacheState::Start, CcacheEvent::Found { on_path });
            if on_path {
                s == CcacheState::Done && a == (CcacheActionModel::Conclude { usable: true })
            } else {
                s == CcacheState::Fetching && a is Fetch
            }
        }),
        ccache_next(
            ws,
            CcacheState::Fetching,
            CcacheEvent::Ended { succeeded: true },
        ).1 matches CcacheActionModel::Install { staged, commands } && staged == joined_path(
            ws,
            "ccache"@,
        ) && commands.len() == 2 && commands[0].words.last() == "/usr/bin/ccache"@
            && commands[1].words.last() == "/usr/bin/ccache"@,
        ccache_next(
            ws,
            CcacheState::Installing,
            CcacheEvent::Ended { succeeded: true },
        ) == (CcacheState::Installed, CcacheActionModel::Look),
        ccache_next(
            ws,
            CcacheState::Installed,
            CcacheEvent::Seen { on_path, installed },
        ) == (
            CcacheState::Done,
            CcacheActionModel::Conclude { usable: on_path || installed },
        ),
{
}

// ---------------------------------------------------------------------------
// The build
// ---------------------------------------------------------------------------

/// The legacy build runs its script in the kernel directory, with as many jobs as were
/// asked for, behind the directory of its output.
pub proof fn law_legacy_build_runs_its_script(ctx: Ctx, use_ccache: bool, jobs: nat)
    ensures
        ({
            let steps = legacy_steps(ctx, use_ccache, jobs);
            &&& steps.len() == 2
            &&& steps[0] == (StepModel::MakeDir { path: joined_path(ctx.workspace(), "out"@) })
            &&& steps[1] matches StepModel::Run { command } && command.cwd == kernel_dir_of(
                ctx.workspace(),
            ) && command.words == seq!["build/build.sh"@, "-j"@, decimal(jobs)]
        }),
{
}

/// The bazel build asks for the image of the kernel, in the kernel directory, with the
/// cache that was given, and is stamped as the legacy build is.
pub proof fn law_bazel_build_asks_for_the_image(ctx: Ctx)
    ensures
        ({
            let steps = bazel_steps(ctx);
            &&& steps.len() == 3
            &&& steps[0] == (StepModel::MakeDir { path: joined_path(ctx.workspace(), "out"@) })
            &&& steps[1] == (StepModel::MakeDir { path: ctx.opts.bazel_cache@ })
            &&& steps[2] matches StepModel::Run { command } && command.cwd == kernel_dir_of(
                ctx.workspace(),
            ) && command.words.last() == "//common:kernel_aarch64/Image"@
                && command.words.contains("--disk_cache="@ + ctx.opts.bazel_cache@)
                && command.words.contains("--config=fast"@) && command.words[0] == "tools/bazel"@
                && command.words[1] == "build"@ && command.env == (
            legacy_steps(ctx, false, 1)[1]->Run_command).env.take(4)
        }),
{
    let c = bazel_steps(ctx)[2]->Run_command;
    assert(c.words[3] == "--disk_cache="@ + ctx.opts.bazel_cache@);
    assert(c.words[2] == "--config=fast"@);
    let env = (legacy_steps(ctx, false, 1)[1]->Run_command).env;
    assert(c.env =~= env.take(4));
}

} // verus!
