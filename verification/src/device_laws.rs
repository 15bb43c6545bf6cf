//! What saving and restoring files is for: a change that fails leaves nothing behind.
use crate::ctx::{common_dir_of, kernel_dir_of};
use crate::device::{
    backup_models, files_seen, is_min_kdp_next, min_kdp_patch_of, restore_step, restore_steps,
    save_dir_of, save_steps, Backup, MinKdpAction, MinKdpEvent, MinKdpState,
};
use crate::diff::is_unsafe_path;
use crate::failure::Failure;
use crate::paths::{joined_path, parent_of};
use crate::plan::{step_models, StepModel};
use crate::text::{begins, ends_in, texts};
use vstd::prelude::*;

verus! {

// ---------------------------------------------------------------------------
// Files on disk
// ---------------------------------------------------------------------------

/// The file is in the directory, at any depth.
pub open spec fn is_in(dir: Seq<char>, p: Seq<char>) -> bool {
    begins(p, dir + "/"@)
}

/// The files that are not in a directory.
pub open spec fn files_outside<T>(disk: Map<Seq<char>, T>, dir: Seq<char>) -> Map<Seq<char>, T> {
    disk.restrict(Set::new(|p: Seq<char>| !is_in(dir, p)))
}

/// The files on disk, by their paths, after a step that copies or removes files. No other
/// step of saving and restoring changes a file.
pub open spec fn disk_after_step<T>(disk: Map<Seq<char>, T>, step: StepModel) -> Map<
    Seq<char>,
    T,
> {
    match step {
        StepModel::CopyFile { from, to } => if disk.dom().contains(from) {
            disk.insert(to, disk[from])
        } else {
            disk
        },
        StepModel::RestoreFile { from, to } => if disk.dom().contains(from) {
            disk.insert(to, disk[from])
        } else {
            disk
        },
        StepModel::DiscardFile { path } => disk.remove(path),
        StepModel::RemoveDir { path } => files_outside(disk, path),
        StepModel::DiscardDir { path } => files_outside(disk, path),
        _ => disk,
    }
}

/// The files on disk after steps.
pub open spec fn disk_after<T>(disk: Map<Seq<char>, T>, steps: Seq<StepModel>) -> Map<Seq<char>, T>
    decreases steps.len(),
{
    if steps.len() == 0 {
        disk
    } else {
        disk_after_step(disk_after(disk, steps.drop_last()), steps.last())
    }
}

/// Two disks have the same at a path.
pub open spec fn same_at<T>(a: Map<Seq<char>, T>, b: Map<Seq<char>, T>, p: Seq<char>) -> bool {
    &&& a.dom().contains(p) <==> b.dom().contains(p)
    &&& a.dom().contains(p) ==> a[p] == b[p]
}

/// `files` are safe paths below a directory, each with whether the file is there.
pub open spec fn are_listed<T>(
    disk: Map<Seq<char>, T>,
    dir: Seq<char>,
    files: Seq<(Seq<char>, bool)>,
) -> bool {
    forall|i: int|
        0 <= i < files.len() ==> {
            &&& !is_unsafe_path((#[trigger] files[i]).0)
            &&& files[i].1 == disk.dom().contains(joined_path(dir, files[i].0))
        }
}

// ---------------------------------------------------------------------------
// Facts about the places
// ---------------------------------------------------------------------------

/// A path below a directory is the two with a slash between them.
proof fn lemma_below(dir: Seq<char>, p: Seq<char>)
    requires
        dir.len() > 0,
        !ends_in(dir, '/'),
        !is_unsafe_path(p),
    ensures
        joined_path(dir, p) == dir + "/"@ + p,
        is_in(dir, joined_path(dir, p)),
{
    reveal_strlit("/");
    if p.len() > 0 && p[0] == '/' {
        assert(p.subrange(0, 1) =~= "/"@);
        assert(begins(p, "/"@));
    }
    let whole = dir + "/"@ + p;
    assert(whole.subrange(0, (dir + "/"@).len() as int) =~= dir + "/"@);
}

/// Different paths stay different below a directory.
proof fn lemma_below_is_injective(dir: Seq<char>, p: Seq<char>, q: Seq<char>)
    requires
        dir.len() > 0,
        !ends_in(dir, '/'),
        !is_unsafe_path(p),
        !is_unsafe_path(q),
        joined_path(dir, p) == joined_path(dir, q),
    ensures
        p == q,
{
    lemma_below(dir, p);
    lemma_below(dir, q);
    let k = (dir + "/"@).len() as int;
    assert((dir + "/"@ + p).skip(k) =~= p);
    assert((dir + "/"@ + q).skip(k) =~= q);
}

/// The tree and the place where files are saved are directories, and no file is in both.
proof fn lemma_places(ws: Seq<char>)
    ensures
        common_dir_of(ws).len() > 0,
        !ends_in(common_dir_of(ws), '/'),
        save_dir_of(ws).len() > 0,
        !ends_in(save_dir_of(ws), '/'),
        forall|p: Seq<char>| #[trigger]
            is_in(common_dir_of(ws), p) ==> !is_in(save_dir_of(ws), p),
{
    reveal_strlit("/");
    reveal_strlit("kernel");
    reveal_strlit("common");
    reveal_strlit(".samsung-tx");
    let pre = if ws.len() == 0 || ends_in(ws, '/') {
        ws
    } else {
        ws + "/"@
    };
    let common = common_dir_of(ws);
    let tx = save_dir_of(ws);
    assert(kernel_dir_of(ws) =~= pre + "kernel"@);
    assert(common =~= pre + "kernel"@ + "/"@ + "common"@);
    assert(tx =~= pre + ".samsung-tx"@);
    let k = pre.len() as int;
    assert(common[k] == 'k');
    assert(tx[k] == '.');
    assert forall|p: Seq<char>| #[trigger] is_in(common, p) implies !is_in(tx, p) by {
        assert(p[k] == p.subrange(0, (common + "/"@).len() as int)[k]);
        if is_in(tx, p) {
            assert(p[k] == p.subrange(0, (tx + "/"@).len() as int)[k]);
        }
    }
}

// ---------------------------------------------------------------------------
// Saving
// ---------------------------------------------------------------------------

/// Saving changes nothing outside the place where files are saved, and what was there is
/// saved.
proof fn lemma_saved<T>(
    disk: Map<Seq<char>, T>,
    ws: Seq<char>,
    files: Seq<(Seq<char>, bool)>,
    n: int,
)
    requires
        0 <= n <= files.len(),
        are_listed(disk, common_dir_of(ws), files),
    ensures
        ({
            let common = common_dir_of(ws);
            let tx = save_dir_of(ws);
            let after = disk_after(disk, save_steps(common, tx, files, n));
            &&& forall|p: Seq<char>| !is_in(tx, p) ==> #[trigger] same_at(after, disk, p)
            &&& forall|i: int|
                0 <= i < n && (#[trigger] files[i]).1 ==> {
                    &&& after.dom().contains(joined_path(tx, files[i].0))
                    &&& after[joined_path(tx, files[i].0)] == disk[joined_path(
                        common,
                        files[i].0,
                    )]
                }
        }),
    decreases n,
{
    let common = common_dir_of(ws);
    let tx = save_dir_of(ws);
    let steps = save_steps(common, tx, files, n);
    let after = disk_after(disk, steps);
    lemma_places(ws);
    if n == 0 {
        let first = seq![StepModel::RemoveDir { path: tx }];
        assert(steps.drop_last() =~= first);
        assert(first.drop_last() =~= Seq::<StepModel>::empty());
        assert(first.last() == StepModel::RemoveDir { path: tx });
        assert(disk_after(disk, first.drop_last()) == disk);
        assert(disk_after(disk, first) == files_outside(disk, tx));
        assert(after == files_outside(disk, tx));
    } else {
        lemma_saved(disk, ws, files, n - 1);
        let (path, existed) = files[n - 1];
        let before = save_steps(common, tx, files, n - 1);
        if existed {
            let from = joined_path(common, path);
            let to = joined_path(tx, path);
            let middle = before.push(StepModel::MakeDir { path: parent_of(to) });
            assert(steps.drop_last() =~= middle);
            assert(middle.drop_last() =~= before);
            let saved = disk_after(disk, before);
            assert(disk_after(disk, middle) == saved);
            lemma_below(common, path);
            lemma_below(tx, path);
            assert(same_at(saved, disk, from));
            assert(after == saved.insert(to, disk[from]));
            assert forall|p: Seq<char>| !is_in(tx, p) implies #[trigger] same_at(
                after,
                disk,
                p,
            ) by {
                assert(same_at(saved, disk, p));
            }
            assert forall|i: int| 0 <= i < n && (#[trigger] files[i]).1 implies after.dom().contains(
                joined_path(tx, files[i].0),
            ) && after[joined_path(tx, files[i].0)] == disk[joined_path(common, files[i].0)] by {
                if joined_path(tx, files[i].0) == to {
                    lemma_below_is_injective(tx, files[i].0, path);
                }
            }
        }
    }
}

// ---------------------------------------------------------------------------
// Restoring
// ---------------------------------------------------------------------------

/// What became of one path after the first `n` files were put back: what was saved of
/// it where it is one of them, else nothing.
proof fn lemma_put_back<T>(
    disk: Map<Seq<char>, T>,
    now: Map<Seq<char>, T>,
    ws: Seq<char>,
    files: Seq<(Seq<char>, bool)>,
    n: int,
    p: Seq<char>,
)
    requires
        0 <= n <= files.len(),
        are_listed(disk, common_dir_of(ws), files),
        forall|i: int|
            0 <= i < files.len() && (#[trigger] files[i]).1 ==> {
                &&& now.dom().contains(joined_path(save_dir_of(ws), files[i].0))
                &&& now[joined_path(save_dir_of(ws), files[i].0)] == disk[joined_path(
                    common_dir_of(ws),
                    files[i].0,
                )]
            },
    ensures
        ({
            let common = common_dir_of(ws);
            let steps = files.take(n).map_values(
                |f: (Seq<char>, bool)| restore_step(common, save_dir_of(ws), f),
            );
            let after = disk_after(now, steps);
            if exists|i: int| 0 <= i < n && p == joined_path(common, (#[trigger] files[i]).0) {
                same_at(after, disk, p)
            } else {
                same_at(after, now, p)
            }
        }),
    decreases n,
{
    let common = common_dir_of(ws);
    let tx = save_dir_of(ws);
    let f = |f: (Seq<char>, bool)| restore_step(common, tx, f);
    let steps = files.take(n).map_values(f);
    lemma_places(ws);
    if n > 0 {
        let (path, existed) = files[n - 1];
        let from = joined_path(tx, path);
        let to = joined_path(common, path);
        lemma_below(tx, path);
        lemma_below(common, path);
        assert(steps.drop_last() =~= files.take(n - 1).map_values(f));
        assert(steps.last() == restore_step(common, tx, files[n - 1]));
        let before = disk_after(now, steps.drop_last());
        let after = disk_after(now, steps);
        lemma_put_back(disk, now, ws, files, n - 1, p);
        lemma_put_back(disk, now, ws, files, n - 1, from);
        assert(same_at(before, now, from)) by {
            if exists|i: int| 0 <= i < n - 1 && from == joined_path(common, (#[trigger] files[i]).0) {
                let i = choose|i: int|
                    0 <= i < n - 1 && from == joined_path(common, (#[trigger] files[i]).0);
                lemma_below(common, files[i].0);
            }
        }
        assert(existed == disk.dom().contains(to));
        if p == to {
            assert(files[n - 1].0 == path);
            assert(same_at(after, disk, p));
        } else {
            assert(same_at(after, before, p));
            if exists|i: int| 0 <= i < n && p == joined_path(common, (#[trigger] files[i]).0) {
                let i = choose|i: int|
                    0 <= i < n && p == joined_path(common, (#[trigger] files[i]).0);
                assert(i < n - 1);
            }
        }
    }
}

/// Where files were saved and then changed in whatever way, putting them back undoes the
/// change: nothing of it is left, and nothing of what was saved.
pub proof fn law_restoring_undoes_changes<T>(
    disk: Map<Seq<char>, T>,
    now: Map<Seq<char>, T>,
    ws: Seq<char>,
    files: Seq<(Seq<char>, bool)>,
)
    requires
        are_listed(disk, common_dir_of(ws), files),
        forall|p: Seq<char>|
            (forall|i: int|
                0 <= i < files.len() ==> p != joined_path(
                    common_dir_of(ws),
                    (#[trigger] files[i]).0,
                )) ==> #[trigger] same_at(
                now,
                disk_after(
                    disk,
                    save_steps(common_dir_of(ws), save_dir_of(ws), files, files.len() as int),
                ),
                p,
            ),
    ensures
        disk_after(now, restore_steps(common_dir_of(ws), save_dir_of(ws), files)) == files_outside(
            disk,
            save_dir_of(ws),
        ),
{
    let common = common_dir_of(ws);
    let tx = save_dir_of(ws);
    let n = files.len() as int;
    let saved = disk_after(disk, save_steps(common, tx, files, n));
    lemma_places(ws);
    lemma_saved(disk, ws, files, n);
    assert forall|i: int| 0 <= i < n && (#[trigger] files[i]).1 implies now.dom().contains(
        joined_path(tx, files[i].0),
    ) && now[joined_path(tx, files[i].0)] == disk[joined_path(common, files[i].0)] by {
        let p = joined_path(tx, files[i].0);
        lemma_below(tx, files[i].0);
        assert forall|j: int| 0 <= j < n implies p != joined_path(
            common,
            (#[trigger] files[j]).0,
        ) by {
            lemma_below(common, files[j].0);
        }
        assert(same_at(now, saved, p));
    }
    let f = |f: (Seq<char>, bool)| restore_step(common, tx, f);
    let steps = restore_steps(common, tx, files);
    assert(files.take(n) =~= files);
    assert(steps.drop_last() =~= files.map_values(f));
    let back = disk_after(now, files.map_values(f));
    let after = disk_after(now, steps);
    assert(after == files_outside(back, tx));
    assert forall|p: Seq<char>| !is_in(tx, p) implies #[trigger] same_at(back, disk, p) by {
        lemma_put_back(disk, now, ws, files, n, p);
        if !(exists|i: int| 0 <= i < n && p == joined_path(common, (#[trigger] files[i]).0)) {
            assert(same_at(now, saved, p));
            assert(same_at(saved, disk, p));
        }
    }
    assert forall|p: Seq<char>| #[trigger] after.dom().contains(p) <==> files_outside(
        disk,
        tx,
    ).dom().contains(p) by {
        if !is_in(tx, p) {
            assert(same_at(back, disk, p));
        }
    }
    assert forall|p: Seq<char>| after.dom().contains(p) implies #[trigger] after[p]
        == files_outside(disk, tx)[p] by {
        assert(same_at(back, disk, p));
    }
    assert(after =~= files_outside(disk, tx));
}

// ---------------------------------------------------------------------------
// The order of the integration
// ---------------------------------------------------------------------------

/// The integration begins only where the patch and the source are there, and only with
/// paths that stay in the tree: else it fails and nothing is looked at or changed.
pub proof fn law_integration_begins_with_safe_paths(
    ws: Seq<char>,
    patch_there: bool,
    source_there: bool,
    patch: String,
    r: Result<(MinKdpState, MinKdpAction), Failure>,
)
    requires
        is_min_kdp_next(
            ws,
            MinKdpState::Start,
            MinKdpEvent::Begin { patch_there, source_there, patch },
            r,
        ),
    ensures
        r is Ok ==> patch_there && source_there,
        r matches Ok(next) ==> next.1 is Look && (next.0 matches MinKdpState::Listed { paths }
            && forall|i: int| 0 <= i < paths@.len() ==> !is_unsafe_path(#[trigger] texts(paths@)[i])),
        !patch_there || !source_there ==> r is Err,
{
}

/// Every file of the list is saved with whether it was there, in the order of the list.
pub proof fn law_every_listed_file_is_saved(
    ws: Seq<char>,
    paths: Vec<String>,
    there: Vec<bool>,
    r: Result<(MinKdpState, MinKdpAction), Failure>,
)
    requires
        is_min_kdp_next(ws, MinKdpState::Listed { paths }, MinKdpEvent::Seen { there }, r),
        there@.len() == paths@.len(),
    ensures
        r matches Ok((MinKdpState::Saving { files }, MinKdpAction::Perform { steps })) && {
            &&& files@.len() == paths@.len()
            &&& forall|i: int|
                0 <= i < files@.len() ==> (#[trigger] files@[i]).path@ == paths@[i]@
                    && files@[i].existed == there@[i]
            &&& step_models(steps@) == save_steps(
                common_dir_of(ws),
                joined_path(ws, ".samsung-tx"@),
                files_seen(texts(paths@), there@),
                files@.len() as int,
            )
        },
{
    match r {
        Ok((MinKdpState::Saving { files }, MinKdpAction::Perform { steps })) => {
            let seen = files_seen(texts(paths@), there@);
            assert(backup_models(files@).len() == seen.len());
            assert forall|i: int| 0 <= i < files@.len() implies (#[trigger] files@[i]).path@
                == paths@[i]@ && files@[i].existed == there@[i] by {
                assert(backup_models(files@)[i] == seen[i]);
            }
        },
        _ => {},
    }
}

/// The patch is applied to the common kernel tree where it applies, and leaves no copies
/// behind. Where it does not, the description of the ABI is edited.
pub proof fn law_patch_is_applied_where_it_applies(
    ws: Seq<char>,
    files: Vec<Backup>,
    applies: bool,
    r: Result<(MinKdpState, MinKdpAction), Failure>,
)
    requires
        is_min_kdp_next(ws, MinKdpState::Saved { files }, MinKdpEvent::Probed { applies }, r),
    ensures
        applies ==> (r matches Ok((MinKdpState::Applying { files: same }, MinKdpAction::Change {
            steps,
        })) && same == files && step_models(steps@).len() == 1 && (step_models(
            steps@,
        )[0] matches StepModel::Patch { cwd, patch, extra } && cwd == common_dir_of(ws) && patch
            == min_kdp_patch_of(ws) && extra.len() == 1 && extra[0]
            == "--no-backup-if-mismatch"@)),
        !applies ==> (r matches Ok((MinKdpState::Applying { files: same }, MinKdpAction::Fallback {
            path,
        })) && same == files && path@ == joined_path(
            common_dir_of(ws),
            "android/abi_gki_aarch64.stg"@,
        )),
{
}

/// A change that failed is taken back file by file: what was there is put back, what was
/// not there is discarded, and then what was saved is discarded. A change that succeeded
/// is not taken back.
pub proof fn law_failed_changes_are_taken_back(
    ws: Seq<char>,
    files: Vec<Backup>,
    succeeded: bool,
    r: Result<(MinKdpState, MinKdpAction), Failure>,
)
    requires
        is_min_kdp_next(
            ws,
            MinKdpState::Applying { files },
            MinKdpEvent::Changed { succeeded },
            r,
        ),
    ensures
        succeeded ==> (r matches Ok((MinKdpState::Finishing, MinKdpAction::Perform { steps }))),
        !succeeded ==> (r matches Ok((MinKdpState::Restored, MinKdpAction::Abandon { steps })) && {
            let tx = joined_path(ws, ".samsung-tx"@);
            let ms = step_models(steps@);
            &&& ms.len() == files@.len() + 1
            &&& ms.last() == (StepModel::DiscardDir { path: tx })
            &&& forall|i: int|
                0 <= i < files@.len() ==> #[trigger] ms[i] == (if files@[i].existed {
                    StepModel::RestoreFile {
                        from: joined_path(tx, files@[i].path@),
                        to: joined_path(common_dir_of(ws), files@[i].path@),
                    }
                } else {
                    StepModel::DiscardFile { path: joined_path(common_dir_of(ws), files@[i].path@) }
                })
        }),
{
}

} // verus!
