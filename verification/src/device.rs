//! Patches for single devices.
use crate::ctx::{common_dir_of, Ctx};
use crate::diff::{
    are_min_kdp_paths, is_first_unsafe, is_unsafe_path, min_kdp_paths,
};
use crate::edits::{Edit, FileEdit};
use crate::failure::{
    min_kdp_patch_missing_text, min_kdp_source_missing_text, unsafe_path_text, Failure,
};
use crate::family::Family;
use crate::paths::{joined_path, parent_of, path_join, path_parent};
use crate::plan::{add_step, owned_words, step_models, Step, StepModel};
use crate::text::{slices, texts};
use vstd::prelude::*;

verus! {

// ---------------------------------------------------------------------------
// Saving and restoring files
// ---------------------------------------------------------------------------

/// A file that may change, and whether it was there before.
#[derive(Debug)]
pub struct Backup {
    pub path: String,
    pub existed: bool,
}

/// The models of the files that may change.
pub open spec fn backup_models(v: Seq<Backup>) -> Seq<(Seq<char>, bool)> {
    v.map_values(|b: Backup| (b.path@, b.existed))
}

/// Where files are saved.
pub open spec fn save_dir_of(ws: Seq<char>) -> Seq<char> {
    joined_path(ws, ".samsung-tx"@)
}

/// The steps that save the first `n` files.
pub open spec fn save_steps(
    common: Seq<char>,
    tx: Seq<char>,
    files: Seq<(Seq<char>, bool)>,
    n: int,
) -> Seq<StepModel>
    decreases n,
{
    if n <= 0 {
        seq![StepModel::RemoveDir { path: tx }, StepModel::MakeDir { path: tx }]
    } else {
        let (path, existed) = files[n - 1];
        let before = save_steps(common, tx, files, n - 1);
        if existed {
            before.push(StepModel::MakeDir { path: parent_of(joined_path(tx, path)) }).push(
                StepModel::CopyFile { from: joined_path(common, path), to: joined_path(tx, path) },
            )
        } else {
            before
        }
    }
}

/// The step that puts one file back as it was.
pub open spec fn restore_step(common: Seq<char>, tx: Seq<char>, file: (Seq<char>, bool)) -> StepModel {
    if file.1 {
        StepModel::RestoreFile { from: joined_path(tx, file.0), to: joined_path(common, file.0) }
    } else {
        StepModel::DiscardFile { path: joined_path(common, file.0) }
    }
}

/// The steps that put all files back as they were.
pub open spec fn restore_steps(
    common: Seq<char>,
    tx: Seq<char>,
    files: Seq<(Seq<char>, bool)>,
) -> Seq<StepModel> {
    files.map_values(|f: (Seq<char>, bool)| restore_step(common, tx, f)).push(
        StepModel::DiscardDir { path: tx },
    )
}

/// The steps that save files.
pub fn save_plan(common: &str, tx: &str, files: &Vec<Backup>) -> (r: Vec<Step>)
    ensures
        step_models(r@) == save_steps(
            common@,
            tx@,
            backup_models(files@),
            files@.len() as int,
        ),
{
    let ghost all = backup_models(files@);
    let mut plan = vec![
        Step::RemoveDir { path: tx.to_owned() },
        Step::MakeDir { path: tx.to_owned() },
    ];
    assert(step_models(plan@) =~= save_steps(common@, tx@, all, 0));
    let mut i: usize = 0;
    while i < files.len()
        invariant
            i <= files@.len(),
            all == backup_models(files@),
            step_models(plan@) == save_steps(common@, tx@, all, i as int),
        decreases files@.len() - i,
    {
        let file = &files[i];
        assert(all[i as int] == (file.path@, file.existed));
        if file.existed {
            let to = path_join(tx, &file.path);
            add_step(&mut plan, Step::MakeDir { path: path_parent(&to) });
            add_step(&mut plan, Step::CopyFile { from: path_join(common, &file.path), to });
        }
        i += 1;
    }
    plan
}

/// The steps that put files back as they were.
pub fn restore_plan(common: &str, tx: &str, files: &Vec<Backup>) -> (r: Vec<Step>)
    ensures
        step_models(r@) == restore_steps(common@, tx@, backup_models(files@)),
{
    let ghost all = backup_models(files@);
    let ghost want = all.map_values(|f: (Seq<char>, bool)| restore_step(common@, tx@, f));
    let mut plan: Vec<Step> = Vec::new();
    let mut i: usize = 0;
    assert(step_models(plan@) =~= want.take(0));
    while i < files.len()
        invariant
            i <= files@.len(),
            all == backup_models(files@),
            want == all.map_values(|f: (Seq<char>, bool)| restore_step(common@, tx@, f)),
            step_models(plan@) == want.take(i as int),
        decreases files@.len() - i,
    {
        let file = &files[i];
        assert(all[i as int] == (file.path@, file.existed));
        let target = path_join(common, &file.path);
        if file.existed {
            add_step(
                &mut plan,
                Step::RestoreFile { from: path_join(tx, &file.path), to: target },
            );
        } else {
            add_step(&mut plan, Step::DiscardFile { path: target });
        }
        i += 1;
        assert(want.take(i as int) =~= want.take(i - 1).push(want[i - 1]));
    }
    assert(want.take(want.len() as int) =~= want);
    add_step(&mut plan, Step::DiscardDir { path: tx.to_owned() });
    plan
}

// ---------------------------------------------------------------------------
// min_kdp
// ---------------------------------------------------------------------------

/// The patch that adds the `min_kdp` symbols.
pub open spec fn min_kdp_patch_of(ws: Seq<char>) -> Seq<char> {
    joined_path(
        joined_path(ws, "kernel_patches"@),
        "samsung/min_kdp/add-min_kdp-symbols.patch"@,
    )
}

/// The source of `min_kdp`.
pub open spec fn min_kdp_source_of(ws: Seq<char>) -> Seq<char> {
    joined_path(joined_path(ws, "kernel_patches"@), "samsung/min_kdp/min_kdp.c"@)
}

/// The edit that lists the symbols for the device.
pub open spec fn galaxy_edits() -> Seq<FileEdit> {
    seq![
        FileEdit {
            path: "android/abi_gki_aarch64_galaxy",
            edit: Edit::Append { line: "kdp_set_cred_non_rcu" },
        },
        FileEdit {
            path: "android/abi_gki_aarch64_galaxy",
            edit: Edit::Append { line: "kdp_usecount_dec_and_test" },
        },
        FileEdit {
            path: "android/abi_gki_aarch64_galaxy",
            edit: Edit::Append { line: "kdp_usecount_inc" },
        },
    ]
}

/// The edit that builds `min_kdp`.
pub open spec fn min_kdp_makefile_edits() -> Seq<FileEdit> {
    seq![
        FileEdit {
            path: "drivers/Makefile",
            edit: Edit::AppendMissing { line: "obj-y += min_kdp.o" },
        },
    ]
}

/// The steps that finish the integration of `min_kdp`.
pub open spec fn min_kdp_finish_steps(ws: Seq<char>) -> Seq<StepModel> {
    seq![
        StepModel::DiscardDir { path: save_dir_of(ws) },
        StepModel::MakeEdits { edits: galaxy_edits() },
        StepModel::CopyFile {
            from: min_kdp_source_of(ws),
            to: joined_path(common_dir_of(ws), "drivers/min_kdp.c"@),
        },
        StepModel::MakeEdits { edits: min_kdp_makefile_edits() },
        StepModel::Note { text: "samsung min_kdp integration: applied"@ },
    ]
}

/// How far the integration of `min_kdp` has come.
#[derive(Debug)]
pub enum MinKdpState {
    /// Nothing was done.
    Start,
    /// The files that may change are known; whether they are there is not.
    Listed { paths: Vec<String> },
    /// The files are being saved.
    Saving { files: Vec<Backup> },
    /// The files are saved; whether the patch applies is not known.
    Saved { files: Vec<Backup> },
    /// The tree is being changed.
    Applying { files: Vec<Backup> },
    /// The tree was put back.
    Restored,
    /// The change stands, and the rest is being done.
    Finishing,
    /// All is done.
    Done,
}

/// What came back from outside.
#[derive(Debug)]
pub enum MinKdpEvent {
    /// The integration begins: whether the patch and the source are there, and the text
    /// of the patch.
    Begin { patch_there: bool, source_there: bool, patch: String },
    /// Which of the files are there, in the order of the list.
    Seen { there: Vec<bool> },
    /// The steps succeeded.
    Performed,
    /// Whether the patch applies.
    Probed { applies: bool },
    /// Whether the change succeeded.
    Changed { succeeded: bool },
}

/// What is to be done next.
#[derive(Debug)]
pub enum MinKdpAction {
    /// Look which of the files are there.
    Look,
    /// Perform steps.
    Perform { steps: Vec<Step> },
    /// Try whether a patch applies, without a change.
    Probe { patch: String },
    /// Change the tree by these steps.
    Change { steps: Vec<Step> },
    /// Change the tree by the fallback for the ABI description at this path.
    Fallback { path: String },
    /// Perform steps and fail.
    Abandon { steps: Vec<Step> },
    /// Nothing more.
    Nothing,
}

/// The files of the list, each with whether it is there; one of which nothing came back
/// counts as not there.
pub open spec fn files_seen(paths: Seq<Seq<char>>, there: Seq<bool>) -> Seq<(Seq<char>, bool)> {
    Seq::new(paths.len(), |i: int| (paths[i], i < there.len() && there[i]))
}

/// The step that applies the patch.
pub open spec fn min_kdp_patch_step(ws: Seq<char>) -> StepModel {
    StepModel::Patch {
        cwd: common_dir_of(ws),
        patch: min_kdp_patch_of(ws),
        extra: seq!["--no-backup-if-mismatch"@],
    }
}

/// `r` is the state and action that follow, or the failure.
pub open spec fn is_min_kdp_next(
    ws: Seq<char>,
    state: MinKdpState,
    event: MinKdpEvent,
    r: Result<(MinKdpState, MinKdpAction), Failure>,
) -> bool {
    let common = common_dir_of(ws);
    let tx = save_dir_of(ws);
    match (state, event) {
        (MinKdpState::Start, MinKdpEvent::Begin { patch_there, source_there, patch }) => {
            if !patch_there {
                r matches Err(e) && e@ == min_kdp_patch_missing_text(min_kdp_patch_of(ws))
            } else if !source_there {
                r matches Err(e) && e@ == min_kdp_source_missing_text(min_kdp_source_of(ws))
            } else {
                exists|ps: Seq<Seq<char>>| #[trigger]
                    are_min_kdp_paths(ps, patch@) && match r {
                        Ok((MinKdpState::Listed { paths }, MinKdpAction::Look)) => {
                            texts(paths@) == ps && forall|i: int|
                                0 <= i < ps.len() ==> !is_unsafe_path(#[trigger] ps[i])
                        },
                        Err(e) => exists|p: Seq<char>| #[trigger]
                            is_first_unsafe(ps, p) && e@ == unsafe_path_text(p),
                        _ => false,
                    }
            }
        },
        (MinKdpState::Listed { paths }, MinKdpEvent::Seen { there }) => match r {
            Ok((MinKdpState::Saving { files }, MinKdpAction::Perform { steps })) => {
                &&& backup_models(files@) == files_seen(texts(paths@), there@)
                &&& step_models(steps@) == save_steps(
                    common,
                    tx,
                    backup_models(files@),
                    files@.len() as int,
                )
            },
            _ => false,
        },
        (MinKdpState::Saving { files }, MinKdpEvent::Performed) => match r {
            Ok((MinKdpState::Saved { files: same }, MinKdpAction::Probe { patch })) => {
                same == files && patch@ == min_kdp_patch_of(ws)
            },
            _ => false,
        },
        (MinKdpState::Saved { files }, MinKdpEvent::Probed { applies }) => match r {
            Ok((MinKdpState::Applying { files: same }, MinKdpAction::Change { steps })) => {
                applies && same == files && step_models(steps@) == seq![min_kdp_patch_step(ws)]
            },
            Ok((MinKdpState::Applying { files: same }, MinKdpAction::Fallback { path })) => {
                !applies && same == files && path@ == joined_path(
                    common,
                    "android/abi_gki_aarch64.stg"@,
                )
            },
            _ => false,
        },
        (MinKdpState::Applying { files }, MinKdpEvent::Changed { succeeded }) => match r {
            Ok((MinKdpState::Finishing, MinKdpAction::Perform { steps })) => {
                succeeded && step_models(steps@) == min_kdp_finish_steps(ws)
            },
            Ok((MinKdpState::Restored, MinKdpAction::Abandon { steps })) => {
                !succeeded && step_models(steps@) == restore_steps(
                    common,
                    tx,
                    backup_models(files@),
                )
            },
            _ => false,
        },
        (MinKdpState::Finishing, MinKdpEvent::Performed) => match r {
            Ok((MinKdpState::Done, MinKdpAction::Nothing)) => true,
            _ => false,
        },
        (s, _) => match r {
            Ok((t, MinKdpAction::Nothing)) => t == s,
            _ => false,
        },
    }
}

/// The patch that adds the symbols of `min_kdp`.
pub fn min_kdp_patch(ctx: &Ctx) -> (r: String)
    ensures
        r@ == joined_path(
            joined_path(ctx.workspace(), "kernel_patches"@),
            "samsung/min_kdp/add-min_kdp-symbols.patch"@,
        ),
{
    path_join(&ctx.kernel_patches(), "samsung/min_kdp/add-min_kdp-symbols.patch")
}

/// The source of `min_kdp`.
pub fn min_kdp_source(ctx: &Ctx) -> (r: String)
    ensures
        r@ == joined_path(
            joined_path(ctx.workspace(), "kernel_patches"@),
            "samsung/min_kdp/min_kdp.c"@,
        ),
{
    path_join(&ctx.kernel_patches(), "samsung/min_kdp/min_kdp.c")
}

/// The files of the list, each with whether it is there.
fn see_files(paths: Vec<String>, there: &Vec<bool>) -> (r: Vec<Backup>)
    ensures
        backup_models(r@) == files_seen(texts(paths@), there@),
{
    let ghost want = files_seen(texts(paths@), there@);
    let mut r: Vec<Backup> = Vec::new();
    let mut i: usize = 0;
    assert(backup_models(r@) =~= want.take(0));
    while i < paths.len()
        invariant
            i <= paths@.len(),
            want == files_seen(texts(paths@), there@),
            backup_models(r@) == want.take(i as int),
        decreases paths@.len() - i,
    {
        let ghost before = backup_models(r@);
        let existed = i < there.len() && there[i];
        r.push(Backup { path: paths[i].as_str().to_owned(), existed });
        assert(backup_models(r@) =~= before.push(want[i as int]));
        i += 1;
        assert(backup_models(r@) =~= want.take(i as int));
    }
    assert(want.take(want.len() as int) =~= want);
    r
}

/// The steps that finish the integration of `min_kdp`.
fn min_kdp_finish(ctx: &Ctx) -> (r: Vec<Step>)
    ensures
        step_models(r@) == min_kdp_finish_steps(ctx.workspace()),
{
    let galaxy = vec![
        FileEdit {
            path: "android/abi_gki_aarch64_galaxy",
            edit: Edit::Append { line: "kdp_set_cred_non_rcu" },
        },
        FileEdit {
            path: "android/abi_gki_aarch64_galaxy",
            edit: Edit::Append { line: "kdp_usecount_dec_and_test" },
        },
        FileEdit {
            path: "android/abi_gki_aarch64_galaxy",
            edit: Edit::Append { line: "kdp_usecount_inc" },
        },
    ];
    assert(galaxy@ =~= galaxy_edits());
    let makefile = vec![
        FileEdit {
            path: "drivers/Makefile",
            edit: Edit::AppendMissing { line: "obj-y += min_kdp.o" },
        },
    ];
    assert(makefile@ =~= min_kdp_makefile_edits());
    let r = vec![
        Step::DiscardDir { path: path_join(&ctx.opts.workspace, ".samsung-tx") },
        Step::MakeEdits { edits: galaxy },
        Step::CopyFile {
            from: min_kdp_source(ctx),
            to: path_join(&ctx.common_dir(), "drivers/min_kdp.c"),
        },
        Step::MakeEdits { edits: makefile },
        Step::Note { text: "samsung min_kdp integration: applied".to_owned() },
    ];
    assert(step_models(r@) =~= min_kdp_finish_steps(ctx.workspace()));
    r
}

/// Goes one step on in the integration of `min_kdp`.
pub fn apply_samsung_min_kdp(ctx: &Ctx, state: MinKdpState, event: MinKdpEvent) -> (r: Result<
    (MinKdpState, MinKdpAction),
    Failure,
>)
    ensures
        is_min_kdp_next(ctx.workspace(), state, event, r),
{
    let common = ctx.common_dir();
    let tx = path_join(&ctx.opts.workspace, ".samsung-tx");
    let patch_path = min_kdp_patch(ctx);
    match (state, event) {
        (MinKdpState::Start, MinKdpEvent::Begin { patch_there, source_there, patch }) => {
            if !patch_there {
                return Err(Failure::MinKdpPatchMissing { path: patch_path });
            }
            if !source_there {
                return Err(Failure::MinKdpSourceMissing { path: min_kdp_source(ctx) });
            }
            match min_kdp_paths(&patch) {
                Ok(paths) => Ok((MinKdpState::Listed { paths }, MinKdpAction::Look)),
                Err(e) => Err(e),
            }
        },
        (MinKdpState::Listed { paths }, MinKdpEvent::Seen { there }) => {
            let files = see_files(paths, &there);
            let steps = save_plan(&common, &tx, &files);
            Ok((MinKdpState::Saving { files }, MinKdpAction::Perform { steps }))
        },
        (MinKdpState::Saving { files }, MinKdpEvent::Performed) => Ok(
            (MinKdpState::Saved { files }, MinKdpAction::Probe { patch: patch_path }),
        ),
        (MinKdpState::Saved { files }, MinKdpEvent::Probed { applies }) => {
            if applies {
                let flags = vec!["--no-backup-if-mismatch"];
                assert(slices(flags@) =~= seq!["--no-backup-if-mismatch"@]);
                let steps = vec![
                    Step::Patch { cwd: common, patch: patch_path, extra: owned_words(flags) },
                ];
                assert(step_models(steps@) =~= seq![min_kdp_patch_step(ctx.workspace())]);
                Ok((MinKdpState::Applying { files }, MinKdpAction::Change { steps }))
            } else {
                let path = path_join(&common, "android/abi_gki_aarch64.stg");
                Ok((MinKdpState::Applying { files }, MinKdpAction::Fallback { path }))
            }
        },
        (MinKdpState::Applying { files }, MinKdpEvent::Changed { succeeded }) => {
            if succeeded {
                let steps = min_kdp_finish(ctx);
                Ok((MinKdpState::Finishing, MinKdpAction::Perform { steps }))
            } else {
                let steps = restore_plan(&common, &tx, &files);
                Ok((MinKdpState::Restored, MinKdpAction::Abandon { steps }))
            }
        },
        (MinKdpState::Finishing, MinKdpEvent::Performed) => Ok(
            (MinKdpState::Done, MinKdpAction::Nothing),
        ),
        (s, _) => Ok((s, MinKdpAction::Nothing)),
    }
}

// ---------------------------------------------------------------------------
// All devices
// ---------------------------------------------------------------------------

/// The edit that lists a symbol for the devices of another maker.
pub open spec fn xiaomi_edits() -> Seq<FileEdit> {
    seq![
        FileEdit {
            path: "android/abi_gki_aarch64_xiaomi",
            edit: Edit::Append { line: "device_find_any_child" },
        },
    ]
}

/// The steps behind the integration of `min_kdp`, for the family that has device
/// patches.
pub open spec fn device_steps(f: Family) -> Option<Seq<StepModel>> {
    if f == Family::Android15_6_6 {
        Some(
            seq![
                StepModel::MakeEdits { edits: xiaomi_edits() },
                StepModel::Note { text: "xiaomi symbol list: device_find_any_child"@ },
            ],
        )
    } else {
        None
    }
}

/// The steps behind the integration of `min_kdp`, or nothing where the family has no
/// device patches at all.
pub fn apply_device_patches(ctx: &Ctx) -> (r: Option<Vec<Step>>)
    ensures
        r is Some <==> device_steps(ctx.family) is Some,
        r matches Some(steps) ==> device_steps(ctx.family) == Some(step_models(steps@)),
{
    if ctx.family != Family::Android15_6_6 {
        return None;
    }
    let edits = vec![
        FileEdit {
            path: "android/abi_gki_aarch64_xiaomi",
            edit: Edit::Append { line: "device_find_any_child" },
        },
    ];
    assert(edits@ =~= xiaomi_edits());
    let steps = vec![
        Step::MakeEdits { edits },
        Step::Note { text: "xiaomi symbol list: device_find_any_child".to_owned() },
    ];
    assert(step_models(steps@) =~= device_steps(ctx.family).unwrap());
    Some(steps)
}

} // verus!
