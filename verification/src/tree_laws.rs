//! What plans make of the files of the kernel tree.
use crate::ctx::common_dir_of;
use crate::device::{device_steps, min_kdp_finish_steps};
use crate::edits::has_bare_line;
use crate::family::{kernel_of, older_than, Family};
use crate::features::{
    droidspaces_clone_steps, droidspaces_patch_steps, droidspaces_steps, ipc_export_steps,
};
use crate::kconfig_laws::has_line;
use crate::paths::joined_path;
use crate::plan::{OptionSet, Slot, StepModel};
use crate::sed::{appended, closed_text};
use crate::sed_laws::law_append_adds_one_line;
use crate::sources::pin_steps;
use crate::stg::{law_stg_symbols_are_there, stg_completed};
use crate::susfs_laws::file_after;
use crate::text::{bare_lines, ends_in, lines_of, occurs};
use vstd::prelude::*;

verus! {

/// What the edits of a plan make of the file at `path`.
pub open spec fn file_by_steps(steps: Seq<StepModel>, path: Seq<char>, text: Seq<char>) -> Seq<
    char,
>
    decreases steps.len(),
{
    if steps.len() == 0 {
        text
    } else {
        let before = file_by_steps(steps.drop_last(), path, text);
        match steps.last() {
            StepModel::MakeEdits { edits } => file_after(edits, path, before),
            _ => before,
        }
    }
}

/// `after` has the lines of `before`, with the last one closed, and then the lines `more`.
pub open spec fn is_extended(before: Seq<char>, after: Seq<char>, more: Seq<Seq<char>>) -> bool {
    lines_of(after) == lines_of(closed_text(before)) + more.map_values(
        |l: Seq<char>| l.push('\n'),
    )
}

/// A plan behind another makes its edits on what the other left.
proof fn lemma_steps_sum(a: Seq<StepModel>, b: Seq<StepModel>, path: Seq<char>, text: Seq<char>)
    ensures
        file_by_steps(a + b, path, text) == file_by_steps(b, path, file_by_steps(a, path, text)),
    decreases b.len(),
{
    if b.len() == 0 {
        assert(a + b =~= a);
    } else {
        assert((a + b).drop_last() =~= a + b.drop_last());
        lemma_steps_sum(a, b.drop_last(), path, text);
    }
}

/// A plan without edits leaves every file alone.
proof fn lemma_no_edits(steps: Seq<StepModel>, path: Seq<char>, text: Seq<char>)
    requires
        forall|i: int| 0 <= i < steps.len() ==> !(#[trigger] steps[i] is MakeEdits),
    ensures
        file_by_steps(steps, path, text) == text,
    decreases steps.len(),
{
    if steps.len() > 0 {
        assert(!(steps[steps.len() - 1] is MakeEdits));
        let front = steps.drop_last();
        assert forall|i: int| 0 <= i < front.len() implies !(#[trigger] front[i] is MakeEdits) by {
            assert(front[i] == steps[i]);
        }
        lemma_no_edits(front, path, text);
    }
}

/// Appending a line extends a text by it.
proof fn lemma_one_more(text: Seq<char>, line: Seq<char>)
    requires
        forall|i: int| 0 <= i < line.len() ==> line[i] != '\n',
    ensures
        is_extended(text, appended(text, line), seq![line]),
        has_line(appended(text, line), line),
        closed_text(appended(text, line)) == appended(text, line),
{
    law_append_adds_one_line(text, line);
    let out = appended(text, line);
    let more = seq![line].map_values(|l: Seq<char>| l.push('\n'));
    assert(lines_of(out) =~= lines_of(closed_text(text)) + more);
    assert(lines_of(out)[lines_of(closed_text(text)).len() as int] == line.push('\n'));
}

/// A line that was there is there after one more was appended.
proof fn lemma_still_there(text: Seq<char>, line: Seq<char>, more: Seq<char>)
    requires
        has_line(text, line),
        ends_in(text, '\n'),
        forall|i: int| 0 <= i < more.len() ==> more[i] != '\n',
    ensures
        has_line(appended(text, more), line),
{
    law_append_adds_one_line(text, more);
    let i = choose|i: int|
        0 <= i < lines_of(text).len() && (#[trigger] lines_of(text)[i] == line || lines_of(
            text,
        )[i] == line.push('\n'));
    assert(lines_of(appended(text, more))[i] == lines_of(text)[i]);
}

proof fn lemma_device_paths_differ()
    ensures
        "android/abi_gki_aarch64_galaxy"@ != "drivers/Makefile"@,
        "ipc/namespace.c"@ != "ipc/msgutil.c"@,
{
    reveal_strlit("android/abi_gki_aarch64_galaxy");
    reveal_strlit("drivers/Makefile");
    reveal_strlit("ipc/namespace.c");
    reveal_strlit("ipc/msgutil.c");
    assert("android/abi_gki_aarch64_galaxy"@.len() != "drivers/Makefile"@.len());
    assert("ipc/namespace.c"@.len() != "ipc/msgutil.c"@.len());
}

/// Once the integration of `min_kdp` is finished, each of its three symbols is a line of
/// the list for the devices, behind the lines that were there.
pub proof fn law_min_kdp_symbols_are_listed(ws: Seq<char>, text: Seq<char>)
    ensures
        ({
            let out = file_by_steps(
                min_kdp_finish_steps(ws),
                "android/abi_gki_aarch64_galaxy"@,
                text,
            );
            &&& has_line(out, "kdp_set_cred_non_rcu"@)
            &&& has_line(out, "kdp_usecount_dec_and_test"@)
            &&& has_line(out, "kdp_usecount_inc"@)
            &&& is_extended(
                text,
                out,
                seq!["kdp_set_cred_non_rcu"@, "kdp_usecount_dec_and_test"@, "kdp_usecount_inc"@],
            )
        }),
{
    let path = "android/abi_gki_aarch64_galaxy"@;
    let (x, y, z) = (
        "kdp_set_cred_non_rcu"@,
        "kdp_usecount_dec_and_test"@,
        "kdp_usecount_inc"@,
    );
    let out = file_by_steps(min_kdp_finish_steps(ws), path, text);
    let a = appended(text, x);
    let b = appended(a, y);
    let c = appended(b, z);
    assert(out == c) by {
        lemma_device_paths_differ();
        reveal_with_fuel(file_by_steps, 6);
        reveal_with_fuel(file_after, 4);
        lemma_finish_is_five_steps(ws);
    }
    reveal_strlit("kdp_set_cred_non_rcu");
    reveal_strlit("kdp_usecount_dec_and_test");
    reveal_strlit("kdp_usecount_inc");
    lemma_one_more(text, x);
    lemma_one_more(a, y);
    lemma_one_more(b, z);
    lemma_still_there(a, x, y);
    lemma_still_there(b, x, z);
    lemma_still_there(b, y, z);
    assert(lines_of(c) =~= lines_of(closed_text(text)) + seq![x, y, z].map_values(
        |l: Seq<char>| l.push('\n'),
    ));
}

/// The front of the last steps of `min_kdp`, one after the other.
proof fn lemma_finish_is_five_steps(ws: Seq<char>)
    ensures
        ({
            let s = min_kdp_finish_steps(ws);
            &&& s.len() == 5
            &&& s.drop_last() == s.take(4)
            &&& s.take(4).drop_last() == s.take(3)
            &&& s.take(3).drop_last() == s.take(2)
            &&& s.take(2).drop_last() == s.take(1)
            &&& s.take(1).drop_last() == s.take(0)
        }),
{
    let s = min_kdp_finish_steps(ws);
    assert(s.drop_last() =~= s.take(4));
    assert(s.take(4).drop_last() =~= s.take(3));
    assert(s.take(3).drop_last() =~= s.take(2));
    assert(s.take(2).drop_last() =~= s.take(1));
    assert(s.take(1).drop_last() =~= s.take(0));
}

/// Every symbol that the fallback gives the ABI description is a line of the list for the
/// devices once the integration is finished.
pub proof fn law_described_symbols_are_listed(ws: Seq<char>, src: Seq<char>, text: Seq<char>)
    ensures
        ({
            let out = file_by_steps(
                min_kdp_finish_steps(ws),
                "android/abi_gki_aarch64_galaxy"@,
                text,
            );
            forall|name: Seq<char>|
                name == "kdp_set_cred_non_rcu"@ || name == "kdp_usecount_dec_and_test"@ || name
                    == "kdp_usecount_inc"@ ==> #[trigger] has_line(out, name) && occurs(
                    stg_completed(src),
                    "\""@ + name + "\""@,
                )
        }),
{
    law_min_kdp_symbols_are_listed(ws, text);
    law_stg_symbols_are_there(src);
    reveal_strlit("\"");
    reveal_strlit("kdp_set_cred_non_rcu");
    reveal_strlit("kdp_usecount_dec_and_test");
    reveal_strlit("kdp_usecount_inc");
    reveal_strlit("\"kdp_set_cred_non_rcu\"");
    reveal_strlit("\"kdp_usecount_dec_and_test\"");
    reveal_strlit("\"kdp_usecount_inc\"");
    assert("\""@ + "kdp_set_cred_non_rcu"@ + "\""@ =~= "\"kdp_set_cred_non_rcu\""@);
    assert("\""@ + "kdp_usecount_dec_and_test"@ + "\""@ =~= "\"kdp_usecount_dec_and_test\""@);
    assert("\""@ + "kdp_usecount_inc"@ + "\""@ =~= "\"kdp_usecount_inc\""@);
}

/// Once the integration of `min_kdp` is finished, its source is among the drivers and a
/// line of their Makefile builds it; a Makefile that had that line is as it was.
pub proof fn law_min_kdp_is_built(ws: Seq<char>, text: Seq<char>)
    ensures
        ({
            let out = file_by_steps(min_kdp_finish_steps(ws), "drivers/Makefile"@, text);
            &&& has_bare_line(out, "obj-y += min_kdp.o"@)
            &&& has_bare_line(text, "obj-y += min_kdp.o"@) ==> out == text
            &&& !has_bare_line(text, "obj-y += min_kdp.o"@) ==> is_extended(
                text,
                out,
                seq!["obj-y += min_kdp.o"@],
            )
        }),
        min_kdp_finish_steps(ws).contains(
            StepModel::CopyFile {
                from: joined_path(
                    joined_path(ws, "kernel_patches"@),
                    "samsung/min_kdp/min_kdp.c"@,
                ),
                to: joined_path(common_dir_of(ws), "drivers/min_kdp.c"@),
            },
        ),
{
    let line = "obj-y += min_kdp.o"@;
    let path = "drivers/Makefile"@;
    let out = file_by_steps(min_kdp_finish_steps(ws), path, text);
    assert(min_kdp_finish_steps(ws)[2] is CopyFile);
    assert(out == (if has_bare_line(text, line) {
        text
    } else {
        appended(text, line)
    })) by {
        lemma_device_paths_differ();
        reveal_with_fuel(file_by_steps, 6);
        reveal_with_fuel(file_after, 4);
        lemma_finish_is_five_steps(ws);
    }
    if !has_bare_line(text, line) {
        reveal_strlit("obj-y += min_kdp.o");
        lemma_one_more(text, line);
        let n = lines_of(closed_text(text)).len() as int;
        assert(lines_of(out)[n] == line.push('\n'));
        assert(line.push('\n').drop_last() =~= line);
        assert(bare_lines(out)[n] == line);
    }
}

/// The last steps of `min_kdp` touch no other file.
pub proof fn law_min_kdp_touches_two_files(ws: Seq<char>, path: Seq<char>, text: Seq<char>)
    requires
        path != "android/abi_gki_aarch64_galaxy"@,
        path != "drivers/Makefile"@,
    ensures
        file_by_steps(min_kdp_finish_steps(ws), path, text) == text,
{
    reveal_with_fuel(file_by_steps, 6);
    reveal_with_fuel(file_after, 4);
    lemma_finish_is_five_steps(ws);
}

/// The device patches are for the family on 6.6 alone. There the symbol list of the other
/// maker gets the lookup of child devices, and no other file is touched.
pub proof fn law_other_makers_symbol_is_listed(f: Family, path: Seq<char>, text: Seq<char>)
    ensures
        device_steps(f) is Some <==> kernel_of(f) == "6.6"@,
        device_steps(f) matches Some(steps) ==> {
            let out = file_by_steps(steps, path, text);
            if path == "android/abi_gki_aarch64_xiaomi"@ {
                is_extended(text, out, seq!["device_find_any_child"@])
            } else {
                out == text
            }
        },
{
    reveal_strlit("5.10");
    reveal_strlit("5.15");
    reveal_strlit("6.1");
    reveal_strlit("6.6");
    reveal_strlit("6.12");
    assert("5.10"@.len() == 4 && "5.15"@.len() == 4 && "6.12"@.len() == 4);
    assert("6.1"@[2] != "6.6"@[2]);
    if let Some(steps) = device_steps(f) {
        reveal_with_fuel(file_by_steps, 3);
        reveal_with_fuel(file_after, 2);
        assert(steps.drop_last() =~= steps.take(1));
        assert(steps.take(1).drop_last() =~= steps.take(0));
        reveal_strlit("device_find_any_child");
        lemma_one_more(text, "device_find_any_child"@);
    }
}

/// The container runtime links against two symbols which kernels from 6.12 on do not
/// export: there each gets its export behind an empty line, and on older kernels no file
/// is edited.
pub proof fn law_container_symbols_are_exported(
    ws: Seq<char>,
    f: Family,
    pin: Option<Seq<char>>,
    path: Seq<char>,
    text: Seq<char>,
)
    ensures
        ({
            let out = file_by_steps(droidspaces_steps(ws, f, pin), path, text);
            let new = !older_than(f, (6, 12));
            if path == "ipc/namespace.c"@ && new {
                is_extended(text, out, seq![""@, "EXPORT_SYMBOL_GPL(put_ipc_ns);"@])
            } else if path == "ipc/msgutil.c"@ && new {
                is_extended(text, out, seq![""@, "EXPORT_SYMBOL_GPL(init_ipc_ns);"@])
            } else {
                out == text
            }
        }),
{
    let dir = joined_path(ws, "Droidspaces-OSS"@);
    let a = droidspaces_clone_steps(ws) + pin_steps(dir, "Droidspaces"@, pin) + seq![
        StepModel::CaptureHead { dir, slot: Slot::Droidspaces },
    ] + droidspaces_patch_steps(ws, f);
    let b = ipc_export_steps(f);
    let c = seq![StepModel::SetOptions { set: OptionSet::Droidspaces }];
    lemma_no_edits(a, path, text);
    lemma_steps_sum(a, b, path, text);
    lemma_steps_sum(a + b, c, path, text);
    let mid = file_by_steps(b, path, text);
    lemma_no_edits(c, path, mid);
    assert(droidspaces_steps(ws, f, pin) == a + b + c);
    reveal_with_fuel(file_by_steps, 2);
    if f == Family::Android16_6_12 {
        assert(b.drop_last() =~= Seq::<StepModel>::empty());
        lemma_device_paths_differ();
        reveal_with_fuel(file_after, 5);
        reveal_strlit("");
        reveal_strlit("EXPORT_SYMBOL_GPL(put_ipc_ns);");
        reveal_strlit("EXPORT_SYMBOL_GPL(init_ipc_ns);");
        let (x, y) = ("EXPORT_SYMBOL_GPL(put_ipc_ns);"@, "EXPORT_SYMBOL_GPL(init_ipc_ns);"@);
        let blank = appended(text, ""@);
        lemma_one_more(text, ""@);
        lemma_one_more(blank, x);
        lemma_one_more(blank, y);
        let f = |l: Seq<char>| l.push('\n');
        let ls = lines_of(closed_text(text));
        assert(lines_of(appended(blank, x)) =~= ls + seq![""@, x].map_values(f));
        assert(lines_of(appended(blank, y)) =~= ls + seq![""@, y].map_values(f));
    }
}

} // verus!
