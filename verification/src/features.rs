//! SUSFS, the container runtime and the fixes that come as patches.
use crate::ctx::{common_dir_of, Ctx};
use crate::edits::{Edit, FileEdit};
use crate::failure::{susfs_mismatch_text, susfs_patch_missing_text, Failure};
use crate::family::{id_of, older_than, susfs_branch_of, Family};
use crate::paths::{joined_path, path_join};
use crate::plan::{
    add_steps, command, command_in, owned_words, run_in, run, step_models, OptionSet, Slot, Step,
    StepModel,
};
use crate::root::{pinned_source, Source};
use crate::sources::{opt_string, pin_plan, pin_steps};
use crate::susfs::{fake_patch_list, fake_patches, revert_patch_list, revert_patches};
use crate::text::{same, slices, texts};
use crate::words::cat3;
use vstd::prelude::*;

verus! {

// ---------------------------------------------------------------------------
// SUSFS
// ---------------------------------------------------------------------------

/// The repository of SUSFS.
pub open spec fn susfs_repo() -> Seq<char> {
    "https://gitlab.com/simonpunk/susfs4ksu.git"@
}

/// Where SUSFS is checked out.
pub open spec fn susfs_dir_of(ws: Seq<char>) -> Seq<char> {
    joined_path(ws, "susfs4ksu"@)
}

/// The name of the patch that integrates SUSFS.
pub open spec fn integration_name(f: Family) -> Seq<char> {
    "50_add_susfs_in_gki-"@ + id_of(f) + ".patch"@
}

/// The steps that clone SUSFS.
pub open spec fn susfs_clone_steps(ws: Seq<char>, f: Family) -> Seq<StepModel> {
    let dir = susfs_dir_of(ws);
    seq![
        StepModel::RemoveDir { path: dir },
        StepModel::RunRetried {
            command: command_in(
                ws,
                seq!["git"@, "clone"@, "-b"@, susfs_branch_of(f), susfs_repo(), dir],
            ),
            attempts: 5,
            delay: 5,
        },
    ]
}

/// The steps that check a commit of SUSFS out.
pub open spec fn susfs_checkout_steps(ws: Seq<char>, commit: Seq<char>) -> Seq<StepModel> {
    let dir = susfs_dir_of(ws);
    seq![
        run_in(dir, seq!["git"@, "checkout"@, commit]),
        StepModel::CaptureHead { dir, slot: Slot::Susfs },
    ]
}

/// The steps that patch SUSFS itself, set its options and bring its sources in.
pub open spec fn susfs_source_steps(ws: Seq<char>) -> Seq<StepModel> {
    let dir = susfs_dir_of(ws);
    let common = common_dir_of(ws);
    let patches = joined_path(joined_path(ws, "kernel_patches"@), "pershoot/susfs4ksu"@);
    seq![
        StepModel::OptionalPatch {
            cwd: dir,
            patch: joined_path(
                patches,
                "0001-pershoot-Allow-core-to-be-built-with-no-features.patch"@,
            ),
        },
        StepModel::OptionalPatch {
            cwd: dir,
            patch: joined_path(
                patches,
                "0002-pershoot-Implement-SuSFS-and-Toolkit-coexistence.patch"@,
            ),
        },
        StepModel::SetOptions { set: OptionSet::Susfs },
        StepModel::SetOptions { set: OptionSet::SusfsOpenRedirect },
        StepModel::CopyFiles {
            from: joined_path(dir, "kernel_patches/fs"@),
            to: joined_path(common, "fs"@),
        },
        StepModel::CopyFiles {
            from: joined_path(dir, "kernel_patches/include/linux"@),
            to: joined_path(common, "include/linux"@),
        },
    ]
}

/// The steps that integrate SUSFS, between the edits that let the patch apply and those
/// that take them back.
pub open spec fn susfs_integration_steps(
    ws: Seq<char>,
    f: Family,
    sublevel: Seq<char>,
    level: Seq<char>,
) -> Seq<StepModel> {
    let common = common_dir_of(ws);
    let name = integration_name(f);
    seq![
        StepModel::CopyFile {
            from: joined_path(joined_path(susfs_dir_of(ws), "kernel_patches"@), name),
            to: joined_path(common, name),
        },
        StepModel::MakeEdits { edits: fake_patches(f, sublevel, level) },
        StepModel::Patch { cwd: common, patch: joined_path(common, name), extra: seq![] },
        StepModel::MakeEdits { edits: revert_patches(f, sublevel, level) },
    ]
}

/// How far the setup of SUSFS has come.
#[derive(Debug)]
pub enum SusfsState {
    /// Nothing was done.
    Start,
    /// The clone is under way.
    Cloning,
    /// The remote was asked for the commit.
    Asked,
    /// The commit is being checked out.
    CheckingOut { commit: String },
    /// The tree is being patched.
    Patching,
    /// All is done.
    Done,
}

/// What came back from outside.
#[derive(Debug)]
pub enum SusfsEvent {
    /// The setup begins.
    Begin,
    /// The steps succeeded.
    Performed,
    /// What the remote answered.
    Answered { answer: Result<String, Failure> },
}

/// What is to be done next.
#[derive(Debug)]
pub enum SusfsAction {
    /// Perform steps.
    Perform { steps: Vec<Step> },
    /// Ask a remote for the commit of a reference.
    Ask { repo: String, reference: String },
    /// Nothing more.
    Nothing,
}

/// The model of a state.
#[verifier::ext_equal]
pub enum SusfsStateModel {
    Start,
    Cloning,
    Asked,
    CheckingOut { commit: Seq<char> },
    Patching,
    Done,
}

/// The model of an action.
#[verifier::ext_equal]
pub enum SusfsActionModel {
    Perform { steps: Seq<StepModel> },
    Ask { repo: Seq<char>, reference: Seq<char> },
    Nothing,
}

impl View for SusfsState {
    type V = SusfsStateModel;

    open spec fn view(&self) -> SusfsStateModel {
        match self {
            SusfsState::Start => SusfsStateModel::Start,
            SusfsState::Cloning => SusfsStateModel::Cloning,
            SusfsState::Asked => SusfsStateModel::Asked,
            SusfsState::CheckingOut { commit } => SusfsStateModel::CheckingOut { commit: commit@ },
            SusfsState::Patching => SusfsStateModel::Patching,
            SusfsState::Done => SusfsStateModel::Done,
        }
    }
}

impl View for SusfsAction {
    type V = SusfsActionModel;

    open spec fn view(&self) -> SusfsActionModel {
        match self {
            SusfsAction::Perform { steps } => SusfsActionModel::Perform {
                steps: step_models(steps@),
            },
            SusfsAction::Ask { repo, reference } => SusfsActionModel::Ask {
                repo: repo@,
                reference: reference@,
            },
            SusfsAction::Nothing => SusfsActionModel::Nothing,
        }
    }
}

/// The state and action that check a commit out.
pub open spec fn checking_out(ws: Seq<char>, commit: Seq<char>) -> (
    SusfsStateModel,
    SusfsActionModel,
) {
    (
        SusfsStateModel::CheckingOut { commit },
        SusfsActionModel::Perform { steps: susfs_checkout_steps(ws, commit) },
    )
}

/// The next state and action, or the message of a failure.
pub open spec fn susfs_next(ctx: Ctx, state: SusfsStateModel, event: SusfsEvent) -> Result<
    (SusfsStateModel, SusfsActionModel),
    Seq<char>,
> {
    let ws = ctx.workspace();
    let f = ctx.family;
    match (state, event) {
        (SusfsStateModel::Start, SusfsEvent::Begin) => Ok(
            (
                SusfsStateModel::Cloning,
                SusfsActionModel::Perform { steps: susfs_clone_steps(ws, f) },
            ),
        ),
        (SusfsStateModel::Cloning, SusfsEvent::Performed) => match opt_string(
            ctx.opts.susfs_commit,
        ) {
            Some(commit) => Ok(checking_out(ws, commit)),
            None => Ok(
                (
                    SusfsStateModel::Asked,
                    SusfsActionModel::Ask {
                        repo: susfs_repo(),
                        reference: "refs/heads/"@ + susfs_branch_of(f),
                    },
                ),
            ),
        },
        (SusfsStateModel::Asked, SusfsEvent::Answered { answer }) => match answer {
            Ok(commit) => Ok(checking_out(ws, commit@)),
            Err(e) => Err(e@),
        },
        (SusfsStateModel::CheckingOut { commit }, SusfsEvent::Performed) => if ctx.susfs_sha@
            == commit {
            Ok(
                (
                    SusfsStateModel::Patching,
                    SusfsActionModel::Perform {
                        steps: susfs_source_steps(ws) + susfs_integration_steps(
                            ws,
                            f,
                            ctx.sublevel@,
                            ctx.os_patch_level@,
                        ),
                    },
                ),
            )
        } else {
            Err(susfs_mismatch_text(commit, ctx.susfs_sha@))
        },
        (SusfsStateModel::Patching, SusfsEvent::Performed) => Ok(
            (SusfsStateModel::Done, SusfsActionModel::Nothing),
        ),
        (s, _) => Ok((s, SusfsActionModel::Nothing)),
    }
}

/// The steps that clone SUSFS.
fn susfs_clone(ctx: &Ctx) -> (r: Vec<Step>)
    ensures
        step_models(r@) == susfs_clone_steps(ctx.workspace(), ctx.family),
{
    let dir = ctx.susfs_dir();
    let branch = ctx.family.susfs_branch();
    let clone = vec![
        "git",
        "clone",
        "-b",
        branch.as_str(),
        "https://gitlab.com/simonpunk/susfs4ksu.git",
        dir.as_str(),
    ];
    assert(slices(clone@) =~= seq![
        "git"@,
        "clone"@,
        "-b"@,
        branch@,
        "https://gitlab.com/simonpunk/susfs4ksu.git"@,
        dir@,
    ]);
    let fetch = command(&ctx.opts.workspace, clone);
    let r = vec![
        Step::RemoveDir { path: dir },
        Step::RunRetried { command: fetch, attempts: 5, delay: 5 },
    ];
    assert(step_models(r@) =~= susfs_clone_steps(ctx.workspace(), ctx.family));
    r
}

/// The steps that check a commit of SUSFS out.
fn susfs_checkout(ctx: &Ctx, commit: &str) -> (r: Vec<Step>)
    ensures
        step_models(r@) == susfs_checkout_steps(ctx.workspace(), commit@),
{
    let dir = ctx.susfs_dir();
    let checkout = vec!["git", "checkout", commit];
    assert(slices(checkout@) =~= seq!["git"@, "checkout"@, commit@]);
    let first = run(&dir, checkout);
    let r = vec![first, Step::CaptureHead { dir, slot: Slot::Susfs }];
    assert(step_models(r@) =~= susfs_checkout_steps(ctx.workspace(), commit@));
    r
}

/// The steps that patch SUSFS itself, set its options and bring its sources in.
fn susfs_sources(ctx: &Ctx) -> (r: Vec<Step>)
    ensures
        step_models(r@) == susfs_source_steps(ctx.workspace()),
{
    let dir = ctx.susfs_dir();
    let common = ctx.common_dir();
    let patches = path_join(&ctx.kernel_patches(), "pershoot/susfs4ksu");
    let r = vec![
        Step::OptionalPatch {
            cwd: ctx.susfs_dir(),
            patch: path_join(
                &patches,
                "0001-pershoot-Allow-core-to-be-built-with-no-features.patch",
            ),
        },
        Step::OptionalPatch {
            cwd: ctx.susfs_dir(),
            patch: path_join(
                &patches,
                "0002-pershoot-Implement-SuSFS-and-Toolkit-coexistence.patch",
            ),
        },
        Step::SetOptions { set: OptionSet::Susfs },
        Step::SetOptions { set: OptionSet::SusfsOpenRedirect },
        Step::CopyFiles {
            from: path_join(&dir, "kernel_patches/fs"),
            to: path_join(&common, "fs"),
        },
        Step::CopyFiles {
            from: path_join(&dir, "kernel_patches/include/linux"),
            to: path_join(&common, "include/linux"),
        },
    ];
    assert(step_models(r@) =~= susfs_source_steps(ctx.workspace()));
    r
}

/// The steps that integrate SUSFS.
fn susfs_integration(ctx: &Ctx) -> (r: Vec<Step>)
    ensures
        step_models(r@) == susfs_integration_steps(
            ctx.workspace(),
            ctx.family,
            ctx.sublevel@,
            ctx.os_patch_level@,
        ),
{
    let common = ctx.common_dir();
    let name = cat3("50_add_susfs_in_gki-", ctx.family.id(), ".patch");
    let nothing: Vec<String> = Vec::new();
    assert(texts(nothing@) =~= Seq::<Seq<char>>::empty());
    let r = vec![
        Step::CopyFile {
            from: path_join(&path_join(&ctx.susfs_dir(), "kernel_patches"), &name),
            to: path_join(&common, &name),
        },
        Step::MakeEdits {
            edits: fake_patch_list(ctx.family, &ctx.sublevel, &ctx.os_patch_level),
        },
        Step::Patch {
            cwd: ctx.common_dir(),
            patch: path_join(&common, &name),
            extra: nothing,
        },
        Step::MakeEdits {
            edits: revert_patch_list(ctx.family, &ctx.sublevel, &ctx.os_patch_level),
        },
    ];
    assert(step_models(r@) =~= susfs_integration_steps(
        ctx.workspace(),
        ctx.family,
        ctx.sublevel@,
        ctx.os_patch_level@,
    ));
    r
}

/// Goes one step on in the setup of SUSFS.
pub fn setup_susfs(ctx: &Ctx, state: SusfsState, event: SusfsEvent) -> (r: Result<
    (SusfsState, SusfsAction),
    Failure,
>)
    ensures
        match susfs_next(*ctx, state@, event) {
            Ok(want) => r matches Ok(p) && (p.0@, p.1@) == want,
            Err(text) => r matches Err(e) && e@ == text,
        },
{
    match (state, event) {
        (SusfsState::Start, SusfsEvent::Begin) => Ok(
            (SusfsState::Cloning, SusfsAction::Perform { steps: susfs_clone(ctx) }),
        ),
        (SusfsState::Cloning, SusfsEvent::Performed) => {
            let branch = ctx.family.susfs_branch();
            match pinned_source(
                &ctx.opts.susfs_commit,
                "https://gitlab.com/simonpunk/susfs4ksu.git",
                &branch,
            ) {
                Source::Given { sha } => {
                    let steps = susfs_checkout(ctx, &sha);
                    Ok((SusfsState::CheckingOut { commit: sha }, SusfsAction::Perform { steps }))
                },
                Source::Remote { repo, reference } => Ok(
                    (SusfsState::Asked, SusfsAction::Ask { repo, reference }),
                ),
            }
        },
        (SusfsState::Asked, SusfsEvent::Answered { answer }) => match answer {
            Ok(commit) => {
                let steps = susfs_checkout(ctx, &commit);
                Ok((SusfsState::CheckingOut { commit }, SusfsAction::Perform { steps }))
            },
            Err(e) => Err(e),
        },
        (SusfsState::CheckingOut { commit }, SusfsEvent::Performed) => {
            if !same(&ctx.susfs_sha, &commit) {
                return Err(
                    Failure::SusfsMismatch {
                        expected: commit,
                        actual: ctx.susfs_sha.as_str().to_owned(),
                    },
                );
            }
            let mut steps = susfs_sources(ctx);
            add_steps(&mut steps, susfs_integration(ctx));
            Ok((SusfsState::Patching, SusfsAction::Perform { steps }))
        },
        (SusfsState::Patching, SusfsEvent::Performed) => Ok(
            (SusfsState::Done, SusfsAction::Nothing),
        ),
        (s, _) => Ok((s, SusfsAction::Nothing)),
    }
}

/// Nothing is patched unless SUSFS is at the commit that was pinned or that the remote
/// listed.
pub proof fn law_patches_need_the_commit(ctx: Ctx, commit: Seq<char>)
    ensures
        susfs_next(ctx, SusfsStateModel::CheckingOut { commit }, SusfsEvent::Performed) is Ok
            <==> ctx.susfs_sha@ == commit,
{
}

/// The integration patch is applied once, behind all fake patches and in front of all
/// edits that take them back.
pub proof fn law_integration_is_between_the_edits(
    ws: Seq<char>,
    f: Family,
    sublevel: Seq<char>,
    level: Seq<char>,
    i: int,
)
    requires
        0 <= i < susfs_integration_steps(ws, f, sublevel, level).len(),
    ensures
        ({
            let steps = susfs_integration_steps(ws, f, sublevel, level);
            &&& steps[i] is Patch <==> i == 2
            &&& steps[1] == (StepModel::MakeEdits { edits: fake_patches(f, sublevel, level) })
            &&& steps[3] == (StepModel::MakeEdits { edits: revert_patches(f, sublevel, level) })
        }),
{
}

/// The note about a patch that is not there.
pub open spec fn skipped_patch_note(patch: Seq<char>) -> Seq<char> {
    "warning: "@ + patch + " not present in kernel_patches; skipping"@
}

/// Tells whether an optional patch is to be applied. One that is not there is noted, or
/// a failure where all patches are required.
pub fn optional_patch(ctx: &mut Ctx, patch: &str, exists: bool) -> (r: Result<bool, Failure>)
    ensures
        r is Err <==> !exists && old(ctx).opts.strict_patches,
        r matches Err(e) ==> e@ == susfs_patch_missing_text(patch@),
        r matches Ok(apply) ==> apply == exists,
        texts(final(ctx).notes@) == (if !exists && !old(ctx).opts.strict_patches {
            texts(old(ctx).notes@).push(skipped_patch_note(patch@))
        } else {
            texts(old(ctx).notes@)
        }),
        final(ctx).same_but_notes(old(ctx)),
{
    if exists {
        Ok(true)
    } else if ctx.opts.strict_patches {
        Err(Failure::SusfsPatchMissing { path: patch.to_owned() })
    } else {
        ctx.note(cat3("warning: ", patch, " not present in kernel_patches; skipping"));
        Ok(false)
    }
}

// ---------------------------------------------------------------------------
// The container runtime
// ---------------------------------------------------------------------------

/// Where Droidspaces-OSS is checked out.
pub open spec fn droidspaces_dir_of(ws: Seq<char>) -> Seq<char> {
    joined_path(ws, "Droidspaces-OSS"@)
}

/// The steps that clone Droidspaces-OSS.
pub open spec fn droidspaces_clone_steps(ws: Seq<char>) -> Seq<StepModel> {
    let dir = droidspaces_dir_of(ws);
    seq![
        StepModel::RemoveDir { path: dir },
        StepModel::RunRetried {
            command: command_in(
                ws,
                seq![
                    "git"@,
                    "clone"@,
                    "--depth=1"@,
                    "https://github.com/ravindu644/Droidspaces-OSS.git"@,
                    dir,
                ],
            ),
            attempts: 5,
            delay: 5,
        },
    ]
}

/// A patch of the container runtime for the common kernel tree.
pub open spec fn droidspaces_patch(ws: Seq<char>, name: Seq<char>) -> StepModel {
    StepModel::Patch {
        cwd: common_dir_of(ws),
        patch: joined_path(
            joined_path(
                droidspaces_dir_of(ws),
                "Documentation/resources/kernel-patches/GKI"@,
            ),
            name,
        ),
        extra: seq![],
    }
}

/// The patches of the container runtime for a family.
pub open spec fn droidspaces_patch_steps(ws: Seq<char>, f: Family) -> Seq<StepModel> {
    let below = droidspaces_patch(
        ws,
        "below-kernel-6.12/001.GKI-below-6.12-fix_sysvipc_kabi_6_7_8.patch"@,
    );
    match f {
        Family::Android16_6_12 => seq![
            droidspaces_patch(
                ws,
                "kernel-6.12/001.GKI-6.12-or-above-fix_sysvipc_kabi.patch"@,
            ),
        ],
        Family::Android12_5_10 | Family::Android13_5_10 => seq![
            below,
            droidspaces_patch(
                ws,
                "below-kernel-6.12/002.5.10_or_lower_use_android_abi_padding_for_posix_mqueue.patch"@,
            ),
        ],
        _ => seq![below],
    }
}

/// The edits that export the symbols which the runtime links against.
pub open spec fn ipc_export_edits() -> Seq<FileEdit> {
    seq![
        FileEdit { path: "ipc/namespace.c", edit: Edit::Append { line: "" } },
        FileEdit {
            path: "ipc/namespace.c",
            edit: Edit::Append { line: "EXPORT_SYMBOL_GPL(put_ipc_ns);" },
        },
        FileEdit { path: "ipc/msgutil.c", edit: Edit::Append { line: "" } },
        FileEdit {
            path: "ipc/msgutil.c",
            edit: Edit::Append { line: "EXPORT_SYMBOL_GPL(init_ipc_ns);" },
        },
    ]
}

/// The steps that export the symbols, which 6.12 needs.
pub open spec fn ipc_export_steps(f: Family) -> Seq<StepModel> {
    if f == Family::Android16_6_12 {
        seq![StepModel::MakeEdits { edits: ipc_export_edits() }]
    } else {
        seq![]
    }
}

/// The steps that bring the container runtime in.
pub open spec fn droidspaces_steps(
    ws: Seq<char>,
    f: Family,
    pin: Option<Seq<char>>,
) -> Seq<StepModel> {
    let dir = droidspaces_dir_of(ws);
    droidspaces_clone_steps(ws) + pin_steps(dir, "Droidspaces"@, pin) + seq![
        StepModel::CaptureHead { dir, slot: Slot::Droidspaces },
    ] + droidspaces_patch_steps(ws, f) + ipc_export_steps(f) + seq![
        StepModel::SetOptions { set: OptionSet::Droidspaces },
    ]
}

/// The steps that clone Droidspaces-OSS.
fn droidspaces_clone(ctx: &Ctx) -> (r: Vec<Step>)
    ensures
        step_models(r@) == droidspaces_clone_steps(ctx.workspace()),
{
    let dir = ctx.droidspaces_dir();
    let clone = vec![
        "git",
        "clone",
        "--depth=1",
        "https://github.com/ravindu644/Droidspaces-OSS.git",
        dir.as_str(),
    ];
    assert(slices(clone@) =~= seq![
        "git"@,
        "clone"@,
        "--depth=1"@,
        "https://github.com/ravindu644/Droidspaces-OSS.git"@,
        dir@,
    ]);
    let fetch = command(&ctx.opts.workspace, clone);
    let r = vec![
        Step::RemoveDir { path: dir },
        Step::RunRetried { command: fetch, attempts: 5, delay: 5 },
    ];
    assert(step_models(r@) =~= droidspaces_clone_steps(ctx.workspace()));
    r
}

/// A patch of the container runtime.
fn droidspaces_patch_step(ctx: &Ctx, name: &str) -> (r: Step)
    ensures
        r@ == droidspaces_patch(ctx.workspace(), name@),
{
    let gki = path_join(
        &ctx.droidspaces_dir(),
        "Documentation/resources/kernel-patches/GKI",
    );
    let nothing: Vec<String> = Vec::new();
    assert(texts(nothing@) =~= Seq::<Seq<char>>::empty());
    Step::Patch { cwd: ctx.common_dir(), patch: path_join(&gki, name), extra: nothing }
}

/// The patches of the container runtime.
fn droidspaces_patches(ctx: &Ctx) -> (r: Vec<Step>)
    ensures
        step_models(r@) == droidspaces_patch_steps(ctx.workspace(), ctx.family),
{
    let mut r: Vec<Step> = Vec::new();
    match ctx.family {
        Family::Android16_6_12 => {
            r.push(
                droidspaces_patch_step(
                    ctx,
                    "kernel-6.12/001.GKI-6.12-or-above-fix_sysvipc_kabi.patch",
                ),
            );
        },
        Family::Android12_5_10 | Family::Android13_5_10 => {
            r.push(
                droidspaces_patch_step(
                    ctx,
                    "below-kernel-6.12/001.GKI-below-6.12-fix_sysvipc_kabi_6_7_8.patch",
                ),
            );
            r.push(
                droidspaces_patch_step(
                    ctx,
                    "below-kernel-6.12/002.5.10_or_lower_use_android_abi_padding_for_posix_mqueue.patch",
                ),
            );
        },
        _ => {
            r.push(
                droidspaces_patch_step(
                    ctx,
                    "below-kernel-6.12/001.GKI-below-6.12-fix_sysvipc_kabi_6_7_8.patch",
                ),
            );
        },
    }
    assert(step_models(r@) =~= droidspaces_patch_steps(ctx.workspace(), ctx.family));
    r
}

/// The steps that export the symbols, which 6.12 needs.
fn ipc_exports(f: Family) -> (r: Vec<Step>)
    ensures
        step_models(r@) == ipc_export_steps(f),
{
    let mut r: Vec<Step> = Vec::new();
    if f == Family::Android16_6_12 {
        let edits = vec![
            FileEdit { path: "ipc/namespace.c", edit: Edit::Append { line: "" } },
            FileEdit {
                path: "ipc/namespace.c",
                edit: Edit::Append { line: "EXPORT_SYMBOL_GPL(put_ipc_ns);" },
            },
            FileEdit { path: "ipc/msgutil.c", edit: Edit::Append { line: "" } },
            FileEdit {
                path: "ipc/msgutil.c",
                edit: Edit::Append { line: "EXPORT_SYMBOL_GPL(init_ipc_ns);" },
            },
        ];
        assert(edits@ =~= ipc_export_edits());
        r.push(Step::MakeEdits { edits });
    }
    assert(step_models(r@) =~= ipc_export_steps(f));
    r
}

/// The steps that bring the container runtime in.
pub fn setup_droidspaces(ctx: &Ctx) -> (r: Vec<Step>)
    ensures
        step_models(r@) == droidspaces_steps(
            ctx.workspace(),
            ctx.family,
            opt_string(ctx.opts.droidspaces_commit),
        ),
{
    let dir = ctx.droidspaces_dir();
    let mut plan = droidspaces_clone(ctx);
    add_steps(&mut plan, pin_plan(&dir, "Droidspaces", &ctx.opts.droidspaces_commit));
    let head = vec![Step::CaptureHead { dir, slot: Slot::Droidspaces }];
    assert(step_models(head@) =~= seq![
        StepModel::CaptureHead {
            dir: droidspaces_dir_of(ctx.workspace()),
            slot: Slot::Droidspaces,
        },
    ]);
    add_steps(&mut plan, head);
    add_steps(&mut plan, droidspaces_patches(ctx));
    add_steps(&mut plan, ipc_exports(ctx.family));
    let options = vec![Step::SetOptions { set: OptionSet::Droidspaces }];
    assert(step_models(options@) =~= seq![
        StepModel::SetOptions { set: OptionSet::Droidspaces },
    ]);
    add_steps(&mut plan, options);
    plan
}

// ---------------------------------------------------------------------------
// Fixes that come as patches
// ---------------------------------------------------------------------------

/// The steps of a fix for kernels older than 5.16.
pub open spec fn ptrace_steps(ws: Seq<char>, f: Family) -> Seq<StepModel> {
    if older_than(f, (5, 16)) {
        seq![
            StepModel::Patch {
                cwd: common_dir_of(ws),
                patch: joined_path(joined_path(ws, "kernel_patches"@), "gki_ptrace.patch"@),
                extra: seq!["-F"@, "3"@],
            },
            StepModel::Note { text: "ptrace leak fix: applied"@ },
        ]
    } else {
        seq![]
    }
}

/// The name of the unicode fix for a family.
pub open spec fn unicode_fix_name(f: Family) -> Seq<char> {
    if older_than(f, (5, 16)) {
        "common/unicode_bypass_fix_6.1-.patch"@
    } else {
        "common/unicode_bypass_fix_6.1+.patch"@
    }
}

/// The steps of the unicode fix.
pub open spec fn unicode_steps(ws: Seq<char>, f: Family) -> Seq<StepModel> {
    seq![
        StepModel::Patch {
            cwd: common_dir_of(ws),
            patch: joined_path(joined_path(ws, "kernel_patches"@), unicode_fix_name(f)),
            extra: seq!["--forward"@],
        },
        StepModel::Note { text: "unicode fix: applied ("@ + unicode_fix_name(f) + ")"@ },
    ]
}

/// The steps of the ptrace fix, for kernels older than 5.16.
pub fn apply_ptrace_patch(ctx: &Ctx) -> (r: Vec<Step>)
    ensures
        step_models(r@) == ptrace_steps(ctx.workspace(), ctx.family),
{
    let mut r: Vec<Step> = Vec::new();
    if ctx.family.is_older_than((5, 16)) {
        let flags = vec!["-F", "3"];
        assert(slices(flags@) =~= seq!["-F"@, "3"@]);
        r.push(
            Step::Patch {
                cwd: ctx.common_dir(),
                patch: path_join(&ctx.kernel_patches(), "gki_ptrace.patch"),
                extra: owned_words(flags),
            },
        );
        r.push(Step::Note { text: "ptrace leak fix: applied".to_owned() });
    }
    assert(step_models(r@) =~= ptrace_steps(ctx.workspace(), ctx.family));
    r
}

/// The steps of the unicode fix.
pub fn apply_unicode_fix(ctx: &Ctx) -> (r: Vec<Step>)
    ensures
        step_models(r@) == unicode_steps(ctx.workspace(), ctx.family),
{
    let name = if ctx.family.is_older_than((5, 16)) {
        "common/unicode_bypass_fix_6.1-.patch"
    } else {
        "common/unicode_bypass_fix_6.1+.patch"
    };
    let flags = vec!["--forward"];
    assert(slices(flags@) =~= seq!["--forward"@]);
    let r = vec![
        Step::Patch {
            cwd: ctx.common_dir(),
            patch: path_join(&ctx.kernel_patches(), name),
            extra: owned_words(flags),
        },
        Step::Note { text: cat3("unicode fix: applied (", name, ")") },
    ];
    assert(step_models(r@) =~= unicode_steps(ctx.workspace(), ctx.family));
    r
}

/// The ptrace fix is for the families on 5.10 and 5.15, and for no others. It is one patch
/// of the common kernel tree, and it is noted.
pub proof fn law_ptrace_fix_is_for_old_kernels(ws: Seq<char>, f: Family)
    ensures
        ptrace_steps(ws, f).len() > 0 <==> f == Family::Android12_5_10 || f
            == Family::Android13_5_10 || f == Family::Android13_5_15 || f
            == Family::Android14_5_15,
        ptrace_steps(ws, f).len() > 0 ==> {
            &&& ptrace_steps(ws, f).len() == 2
            &&& ptrace_steps(ws, f)[0] matches StepModel::Patch { cwd, patch, extra } && cwd
                == common_dir_of(ws) && patch == joined_path(
                joined_path(ws, "kernel_patches"@),
                "gki_ptrace.patch"@,
            ) && extra.len() == 2 && extra[0] == "-F"@ && extra[1] == "3"@
            &&& ptrace_steps(ws, f)[1] == (StepModel::Note { text: "ptrace leak fix: applied"@ })
        },
{
}

/// SUSFS is cloned from the branch of the family, and the patch that integrates it is the
/// one of the family: it is copied into the tree and applied there.
pub proof fn law_susfs_is_that_of_the_family(
    ws: Seq<char>,
    f: Family,
    sublevel: Seq<char>,
    level: Seq<char>,
)
    ensures
        ({
            let name = "50_add_susfs_in_gki-"@ + id_of(f) + ".patch"@;
            let to = joined_path(common_dir_of(ws), name);
            let clone = susfs_clone_steps(ws, f);
            let steps = susfs_integration_steps(ws, f, sublevel, level);
            &&& clone.last() matches StepModel::RunRetried { command, attempts, delay }
                && command.words.contains("gki-"@ + id_of(f)) && command.words.contains(
                "https://gitlab.com/simonpunk/susfs4ksu.git"@,
            ) && attempts == 5 && delay == 5
            &&& steps.contains(
                StepModel::CopyFile {
                    from: joined_path(
                        joined_path(joined_path(ws, "susfs4ksu"@), "kernel_patches"@),
                        name,
                    ),
                    to,
                },
            )
            &&& steps.contains(
                StepModel::Patch { cwd: common_dir_of(ws), patch: to, extra: seq![] },
            )
        }),
{
    let words = seq!["git"@, "clone"@, "-b"@, susfs_branch_of(f), susfs_repo(), susfs_dir_of(ws)];
    assert(words[3] == "gki-"@ + id_of(f));
    assert(words[4] == "https://gitlab.com/simonpunk/susfs4ksu.git"@);
    let steps = susfs_integration_steps(ws, f, sublevel, level);
    assert(steps[0] is CopyFile);
    assert(steps[2] is Patch);
}

/// The options of SUSFS are set and its sources copied before it is integrated.
pub proof fn law_susfs_sources_come_first(ws: Seq<char>)
    ensures
        susfs_source_steps(ws).contains(StepModel::SetOptions { set: OptionSet::Susfs }),
        susfs_source_steps(ws).contains(
            StepModel::SetOptions { set: OptionSet::SusfsOpenRedirect },
        ),
        susfs_source_steps(ws).contains(
            StepModel::CopyFiles {
                from: joined_path(joined_path(ws, "susfs4ksu"@), "kernel_patches/fs"@),
                to: joined_path(common_dir_of(ws), "fs"@),
            },
        ),
        susfs_source_steps(ws).contains(
            StepModel::CopyFiles {
                from: joined_path(joined_path(ws, "susfs4ksu"@), "kernel_patches/include/linux"@),
                to: joined_path(common_dir_of(ws), "include/linux"@),
            },
        ),
{
    let s = susfs_source_steps(ws);
    assert(s[2] == (StepModel::SetOptions { set: OptionSet::Susfs }));
    assert(s[3] == (StepModel::SetOptions { set: OptionSet::SusfsOpenRedirect }));
    assert(s[4] is CopyFiles);
    assert(s[5] is CopyFiles);
}

/// The container runtime gets one patch against the layout of its structures, made for
/// the series below 6.12 or for those from there on, and below 5.15 one for its queues
/// behind it.
pub proof fn law_container_patches_go_by_the_series(ws: Seq<char>, f: Family)
    ensures
        ({
            let steps = droidspaces_patch_steps(ws, f);
            let gki = joined_path(
                joined_path(ws, "Droidspaces-OSS"@),
                "Documentation/resources/kernel-patches/GKI"@,
            );
            let common = common_dir_of(ws);
            &&& steps.len() == (if older_than(f, (5, 15)) {
                2int
            } else {
                1int
            })
            &&& steps[0] == (StepModel::Patch {
                cwd: common,
                patch: joined_path(
                    gki,
                    if older_than(f, (6, 12)) {
                        "below-kernel-6.12/001.GKI-below-6.12-fix_sysvipc_kabi_6_7_8.patch"@
                    } else {
                        "kernel-6.12/001.GKI-6.12-or-above-fix_sysvipc_kabi.patch"@
                    },
                ),
                extra: seq![],
            })
            &&& older_than(f, (5, 15)) ==> steps[1] == (StepModel::Patch {
                cwd: common,
                patch: joined_path(
                    gki,
                    "below-kernel-6.12/002.5.10_or_lower_use_android_abi_padding_for_posix_mqueue.patch"@,
                ),
                extra: seq![],
            })
        }),
{
}

/// Kernels get the unicode fix of their side of 6.1, whatever the family.
pub proof fn law_unicode_fix_goes_by_the_series(f: Family)
    ensures
        unicode_fix_name(f) == (if older_than(f, (6, 1)) {
            "common/unicode_bypass_fix_6.1-.patch"@
        } else {
            "common/unicode_bypass_fix_6.1+.patch"@
        }),
{
}

} // verus!
