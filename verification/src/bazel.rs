//! References to the lists of protected exports and modules in the bazel files.
use crate::ctx::{common_dir_of, Ctx};
use crate::failure::{
    cannot_read_text, exports_referenced_text, exports_remain_text, exports_unchanged_text,
    modules_not_empty_text, modules_unchanged_text, Failure,
};
use crate::fixes::{noted, work_of, Work};
use crate::paths::{joined_path, path_join};
use crate::regexes::{
    aarch64_exports_pattern, any_module_names_pattern, exports_pattern, is_fixed_pattern,
    module_names_pattern, needed_text, no_dollar, protected_modules_pattern, regex_is_match,
    regex_matches, regex_replace_all_text, same_answer, spliced,
};
use crate::text::{begins, contains, occurs, same, starts_with, texts};
use crate::tree::Tree;
use vstd::prelude::*;

verus! {

// ---------------------------------------------------------------------------
// Models
// ---------------------------------------------------------------------------

/// `pattern` has a match in `s`. It has none where the text that it needs is absent.
pub open spec fn is_matched(s: Seq<char>, pattern: Seq<char>) -> bool {
    if needed_text(pattern) matches Some(n) && !occurs(s, n) {
        false
    } else {
        regex_matches(pattern, s).len() > 0
    }
}

/// `s` with every match of `pattern` replaced by `r`, as it is where the text that the
/// pattern needs is absent.
pub open spec fn matches_replaced(s: Seq<char>, pattern: Seq<char>, r: Seq<char>) -> Seq<char> {
    if needed_text(pattern) matches Some(n) && !occurs(s, n) {
        s
    } else {
        spliced(s, regex_matches(pattern, s), same_answer(regex_matches(pattern, s), r))
    }
}

/// The key of a list of protected exports.
pub open spec fn exports_key() -> Seq<char> {
    "\"protected_exports_list\""@
}

/// The name of the list of protected modules.
pub open spec fn module_names_key() -> Seq<char> {
    "protected_module_names_list"@
}

/// The text without references to lists of protected exports, and the notes about it,
/// or the message where such a reference could not be taken out.
pub open spec fn exports_stripped(s: Seq<char>) -> Result<
    (Seq<char>, Seq<Seq<char>>),
    Seq<char>,
> {
    let out = matches_replaced(s, exports_pattern(), ""@);
    let there = is_matched(s, aarch64_exports_pattern());
    if there && out == s {
        Err(exports_unchanged_text())
    } else if there && is_matched(out, aarch64_exports_pattern()) {
        Err(exports_referenced_text())
    } else {
        let done = if there {
            seq!["protected_exports_list entries removed (bazel)"@]
        } else {
            seq![]
        };
        let left = if occurs(out, exports_key()) {
            seq!["warning: common/BUILD.bazel still references a protected exports list"@]
        } else {
            seq![]
        };
        Ok((out, done + left))
    }
}

/// The text without references to the list of protected modules, and the notes about
/// it.
pub open spec fn module_names_stripped(s: Seq<char>) -> (Seq<char>, Seq<Seq<char>>) {
    if !occurs(s, module_names_key()) {
        (s, seq![])
    } else {
        let a = matches_replaced(s, module_names_pattern(), ""@);
        let done = if a == s {
            seq!["warning: protected_module_names_list not matched in common/BUILD.bazel"@]
        } else {
            seq!["protected_module_names_list entries removed (bazel)"@]
        };
        let b = if occurs(a, module_names_key()) {
            matches_replaced(a, any_module_names_pattern(), ""@)
        } else {
            a
        };
        let left = if occurs(b, module_names_key()) {
            seq!["warning: common/BUILD.bazel still references protected_module_names_list"@]
        } else {
            seq![]
        };
        (b, done + left)
    }
}

/// The text without references to protected exports and modules, and the notes.
pub open spec fn lists_stripped(s: Seq<char>) -> Result<(Seq<char>, Seq<Seq<char>>), Seq<char>> {
    match exports_stripped(s) {
        Ok(a) => {
            let b = module_names_stripped(a.0);
            Ok((b.0, a.1 + b.1))
        },
        Err(e) => Err(e),
    }
}

/// The text with an empty list of protected modules, or nothing where there is no such
/// list.
pub open spec fn modules_cleared(s: Seq<char>) -> Result<Option<Seq<char>>, Seq<char>> {
    if !is_matched(s, protected_modules_pattern()) {
        Ok(None)
    } else {
        let out = matches_replaced(s, protected_modules_pattern(), "protected_modules = []"@);
        if out == s {
            Err(modules_unchanged_text())
        } else if !occurs(out, "protected_modules = []"@) {
            Err(modules_not_empty_text())
        } else {
            Ok(Some(out))
        }
    }
}

/// The list of protected modules in the tree, cleared.
pub open spec fn modules_work(w: Work) -> Work {
    if w.failed is Some || !w.files.dom().contains("modules.bzl"@) {
        w
    } else {
        match modules_cleared(w.files["modules.bzl"@]) {
            Ok(Some(out)) => Work { files: w.files.insert("modules.bzl"@, out), ..w },
            Ok(None) => w,
            Err(e) => Work { failed: Some(e), ..w },
        }
    }
}

/// The references in the tree, taken out.
pub open spec fn lists_work(w: Work, dir: Seq<char>) -> Work {
    if !w.files.dom().contains("BUILD.bazel"@) {
        Work { failed: Some(cannot_read_text(joined_path(dir, "BUILD.bazel"@))), ..w }
    } else {
        match lists_stripped(w.files["BUILD.bazel"@]) {
            Ok(r) => Work {
                files: w.files.insert("BUILD.bazel"@, r.0),
                notes: w.notes + r.1,
                ..w
            },
            Err(e) => Work { failed: Some(e), ..w },
        }
    }
}

/// All references to protected exports and modules, taken out.
pub open spec fn protected_work(w: Work, dir: Seq<char>) -> Work {
    noted(modules_work(lists_work(w, dir)), "protected exports/modules removed (bazel)"@)
}

/// The name of a list of protected exports.
pub open spec fn is_exports_name(name: Seq<char>) -> bool {
    begins(name, "abi_gki_protected_exports_"@)
}

// ---------------------------------------------------------------------------
// Functions
// ---------------------------------------------------------------------------

/// Tells whether a fixed pattern has a match.
fn fixed_matches(s: &str, pattern: &str) -> (r: bool)
    requires
        is_fixed_pattern(pattern@),
    ensures
        r == is_matched(s@, pattern@),
{
    match regex_is_match(pattern, s) {
        Ok(b) => b,
        Err(_) => false,
    }
}

/// Replaces every match of a fixed pattern.
fn fixed_replace(s: &str, pattern: &str, r: &str) -> (out: String)
    requires
        is_fixed_pattern(pattern@),
        no_dollar(r@),
    ensures
        out@ == matches_replaced(s@, pattern@, r@),
{
    match regex_replace_all_text(pattern, s, r) {
        Ok(out) => out,
        Err(_) => s.to_owned(),
    }
}

/// Takes out the references to lists of protected exports.
fn strip_exports(s: &str) -> (r: Result<(String, Vec<String>), Failure>)
    ensures
        match r {
            Ok(a) => exports_stripped(s@) == Ok::<_, Seq<char>>((a.0@, texts(a.1@))),
            Err(e) => exports_stripped(s@) == Err::<(Seq<char>, Seq<Seq<char>>), _>(e@),
        },
{
    proof {
        reveal_strlit("");
    }
    let aarch64 = "\"protected_exports_list\"[ \\t]*:[ \\t]*\"android/abi_gki_protected_exports_aarch64\"";
    let there = fixed_matches(s, aarch64);
    let out = fixed_replace(
        s,
        "(?m)^[ \\t]*\"protected_exports_list\"[ \\t]*:[ \\t]*\"android/abi_gki_protected_exports_[A-Za-z0-9_]+\",[ \\t]*\\n?",
        "",
    );
    let mut notes: Vec<String> = Vec::new();
    if there {
        if same(&out, s) {
            return Err(Failure::ExportsUnchanged);
        }
        if fixed_matches(&out, aarch64) {
            return Err(Failure::ExportsReferenced);
        }
        notes.push("protected_exports_list entries removed (bazel)".to_owned());
    }
    if contains(&out, "\"protected_exports_list\"") {
        notes.push(
            "warning: common/BUILD.bazel still references a protected exports list".to_owned(),
        );
    }
    assert(texts(notes@) =~= exports_stripped(s@)->Ok_0.1);
    Ok((out, notes))
}

/// Takes out the references to the list of protected modules.
fn strip_module_names(s: &str) -> (r: (String, Vec<String>))
    ensures
        (r.0@, texts(r.1@)) == module_names_stripped(s@),
{
    proof {
        reveal_strlit("");
    }
    let mut notes: Vec<String> = Vec::new();
    if !contains(s, "protected_module_names_list") {
        assert(texts(notes@) =~= Seq::<Seq<char>>::empty());
        return (s.to_owned(), notes);
    }
    let a = fixed_replace(
        s,
        "(?m)^[ \\t]*protected_module_names_list[ \\t]*=[ \\t]*\":gki_(?:aarch64|x86_64)_protected_module_names\",[ \\t]*\\n?",
        "",
    );
    if same(&a, s) {
        notes.push(
            "warning: protected_module_names_list not matched in common/BUILD.bazel".to_owned(),
        );
    } else {
        notes.push("protected_module_names_list entries removed (bazel)".to_owned());
    }
    let b = if contains(&a, "protected_module_names_list") {
        fixed_replace(&a, "(?m)^[ \\t]*protected_module_names_list[ \\t]*=[^\\n]*\\n?", "")
    } else {
        a
    };
    if contains(&b, "protected_module_names_list") {
        notes.push(
            "warning: common/BUILD.bazel still references protected_module_names_list".to_owned(),
        );
    }
    assert(texts(notes@) =~= module_names_stripped(s@).1);
    (b, notes)
}

/// Appends `more` to `notes`.
fn extend_notes(notes: &mut Vec<String>, more: Vec<String>)
    ensures
        texts(final(notes)@) == texts(old(notes)@) + texts(more@),
{
    let ghost all = more@;
    let mut more = more;
    notes.append(&mut more);
    assert(texts(notes@) =~= texts(old(notes)@) + texts(all));
}

/// Takes out the references to protected exports and modules.
pub fn strip_protected_lists(bazel: &str) -> (r: Result<(String, Vec<String>), Failure>)
    ensures
        match r {
            Ok(a) => lists_stripped(bazel@) == Ok::<_, Seq<char>>((a.0@, texts(a.1@))),
            Err(e) => lists_stripped(bazel@) == Err::<(Seq<char>, Seq<Seq<char>>), _>(e@),
        },
{
    match strip_exports(bazel) {
        Ok((a, notes)) => {
            let mut notes = notes;
            let (b, more) = strip_module_names(&a);
            extend_notes(&mut notes, more);
            Ok((b, notes))
        },
        Err(e) => Err(e),
    }
}

/// Empties the list of protected modules.
pub fn clear_protected_modules(s: &str) -> (r: Result<Option<String>, Failure>)
    ensures
        match r {
            Ok(Some(out)) => modules_cleared(s@) == Ok::<_, Seq<char>>(Some(out@)),
            Ok(None) => modules_cleared(s@) == Ok::<Option<Seq<char>>, Seq<char>>(None),
            Err(e) => modules_cleared(s@) == Err::<Option<Seq<char>>, _>(e@),
        },
{
    proof {
        reveal_strlit("protected_modules = []");
    }
    let pattern = "(?m)^protected_modules = \\[.*\\]";
    if !fixed_matches(s, pattern) {
        return Ok(None);
    }
    let out = fixed_replace(s, pattern, "protected_modules = []");
    if same(&out, s) {
        return Err(Failure::ModulesUnchanged);
    }
    if !contains(&out, "protected_modules = []") {
        return Err(Failure::ModulesNotEmpty);
    }
    Ok(Some(out))
}

/// Tells whether a file of that name is a list of protected exports.
pub fn is_protected_exports(name: &str) -> (r: bool)
    ensures
        r == is_exports_name(name@),
{
    starts_with(name, "abi_gki_protected_exports_")
}

/// Fails where a list of protected exports is among the names.
pub fn check_exports_gone(names: &Vec<String>) -> (r: Result<(), Failure>)
    ensures
        r is Ok <==> (forall|i: int|
            0 <= i < names@.len() ==> !is_exports_name(#[trigger] texts(names@)[i])),
        r matches Err(e) ==> e@ == exports_remain_text(),
{
    let mut i: usize = 0;
    while i < names.len()
        invariant
            i <= names@.len(),
            forall|j: int| 0 <= j < i ==> !is_exports_name(#[trigger] texts(names@)[j]),
        decreases names@.len() - i,
    {
        assert(texts(names@)[i as int] == names@[i as int]@);
        if is_protected_exports(&names[i]) {
            return Err(Failure::ExportsRemain);
        }
        i += 1;
    }
    Ok(())
}

/// Takes the references to protected exports and modules out of the tree, where the
/// kernel is built with bazel.
pub fn remove_protected_exports(ctx: &mut Ctx, tree: &mut Tree, uses_bazel: bool) -> (r: Result<
    (),
    Failure,
>)
    ensures
        work_of(*final(ctx), *final(tree), r) == (if uses_bazel {
            protected_work(
                work_of(*old(ctx), *old(tree), Ok(())),
                common_dir_of(old(ctx).workspace()),
            )
        } else {
            work_of(*old(ctx), *old(tree), Ok(()))
        }),
        final(ctx).same_but_notes(old(ctx)),
{
    if !uses_bazel {
        return Ok(());
    }
    let stripped = match tree.get("BUILD.bazel") {
        Some(bazel) => strip_protected_lists(bazel),
        None => Err(Failure::CannotRead { path: path_join(&ctx.common_dir(), "BUILD.bazel") }),
    };
    match stripped {
        Ok((out, notes)) => {
            tree.set("BUILD.bazel", out);
            extend_notes(&mut ctx.notes, notes);
        },
        Err(e) => {
            return Err(e);
        },
    }
    let cleared = match tree.get("modules.bzl") {
        Some(modules) => clear_protected_modules(modules),
        None => Ok(None),
    };
    match cleared {
        Ok(Some(out)) => {
            tree.set("modules.bzl", out);
        },
        Ok(None) => {},
        Err(e) => {
            return Err(e);
        },
    }
    ctx.note("protected exports/modules removed (bazel)".to_owned());
    Ok(())
}

// ---------------------------------------------------------------------------
// Laws
// ---------------------------------------------------------------------------

/// A file that speaks of neither list is left alone, without a note.
pub proof fn law_lists_are_left_alone_when_absent(s: Seq<char>)
    requires
        !occurs(s, exports_key()),
        !occurs(s, module_names_key()),
    ensures
        lists_stripped(s) == Ok::<_, Seq<char>>((s, Seq::<Seq<char>>::empty())),
{
    assert(lists_stripped(s)->Ok_0.1 =~= Seq::<Seq<char>>::empty());
}

/// Taking the references out a second time changes nothing, where none was left.
pub proof fn law_second_run_changes_nothing(s: Seq<char>, out: Seq<char>, notes: Seq<Seq<char>>)
    requires
        lists_stripped(s) == Ok::<_, Seq<char>>((out, notes)),
        !occurs(out, exports_key()),
        !occurs(out, module_names_key()),
    ensures
        lists_stripped(out) == Ok::<_, Seq<char>>((out, Seq::<Seq<char>>::empty())),
{
    law_lists_are_left_alone_when_absent(out);
}

/// Where the list for aarch64 is referred to, success means that no such reference is
/// left, and that the removal is noted.
pub proof fn law_no_aarch64_reference_is_left(
    s: Seq<char>,
    out: Seq<char>,
    notes: Seq<Seq<char>>,
)
    requires
        exports_stripped(s) == Ok::<_, Seq<char>>((out, notes)),
        is_matched(s, aarch64_exports_pattern()),
    ensures
        !is_matched(out, aarch64_exports_pattern()),
        out != s,
        notes.contains("protected_exports_list entries removed (bazel)"@),
{
    assert(notes[0] == "protected_exports_list entries removed (bazel)"@);
}

/// A reference to a list of protected exports that is left is noted.
pub proof fn law_exports_that_are_left_are_noted(
    s: Seq<char>,
    out: Seq<char>,
    notes: Seq<Seq<char>>,
)
    requires
        exports_stripped(s) == Ok::<_, Seq<char>>((out, notes)),
        occurs(out, exports_key()),
    ensures
        notes.contains("warning: common/BUILD.bazel still references a protected exports list"@),
{
    assert(notes[notes.len() - 1]
        == "warning: common/BUILD.bazel still references a protected exports list"@);
}

/// A reference to the list of protected modules that is left is noted.
pub proof fn law_modules_that_are_left_are_noted(s: Seq<char>, out: Seq<char>, notes: Seq<Seq<char>>)
    requires
        lists_stripped(s) == Ok::<_, Seq<char>>((out, notes)),
        occurs(out, module_names_key()),
    ensures
        notes.contains(
            "warning: common/BUILD.bazel still references protected_module_names_list"@,
        ),
{
    let a = exports_stripped(s)->Ok_0;
    let b = module_names_stripped(a.0);
    assert(notes[notes.len() - 1]
        == "warning: common/BUILD.bazel still references protected_module_names_list"@);
}

/// Clearing the list of protected modules gives a text that has an empty list and was
/// changed. It gives nothing exactly where there is no list.
pub proof fn law_cleared_list_is_empty(s: Seq<char>)
    ensures
        (modules_cleared(s) matches Ok(None)) <==> !is_matched(
            s,
            "(?m)^protected_modules = \\[.*\\]"@,
        ),
        modules_cleared(s) matches Ok(Some(out)) ==> out != s && occurs(
            out,
            "protected_modules = []"@,
        ),
{
}

/// A file that speaks of the list of protected modules is noted once: as one from which
/// the known entries were removed, or as one that had none.
pub proof fn law_removed_modules_are_noted(s: Seq<char>)
    requires
        occurs(s, "protected_module_names_list"@),
    ensures
        ({
            let (out, notes) = module_names_stripped(s);
            let removed = "protected_module_names_list entries removed (bazel)"@;
            let missed = "warning: protected_module_names_list not matched in common/BUILD.bazel"@;
            &&& notes.len() > 0
            &&& notes[0] == removed || notes[0] == missed
            &&& notes[0] == removed ==> matches_replaced(s, module_names_pattern(), ""@) != s
            &&& notes[0] == missed ==> matches_replaced(s, module_names_pattern(), ""@) == s
            &&& notes.len() > 1 <==> occurs(out, "protected_module_names_list"@)
        }),
{
    reveal_strlit("protected_module_names_list entries removed (bazel)");
    reveal_strlit("warning: protected_module_names_list not matched in common/BUILD.bazel");
    let removed = "protected_module_names_list entries removed (bazel)"@;
    let missed = "warning: protected_module_names_list not matched in common/BUILD.bazel"@;
    assert(removed[0] != missed[0]);
    let (out, notes) = module_names_stripped(s);
    assert(notes[0] == removed || notes[0] == missed);
}

/// Taking the references out touches the two files of bazel and no other, and its success
/// is the last note. It fails where the build file is missing, and needs no list of
/// modules.
pub proof fn law_protection_is_two_files(w: Work, dir: Seq<char>, path: Seq<char>)
    requires
        w.failed is None,
    ensures
        ({
            let out = protected_work(w, dir);
            &&& path != "BUILD.bazel"@ && path != "modules.bzl"@ ==> {
                &&& out.files.dom().contains(path) <==> w.files.dom().contains(path)
                &&& w.files.dom().contains(path) ==> out.files[path] == w.files[path]
            }
            &&& !w.files.dom().contains("BUILD.bazel"@) ==> out.failed == Some(
                cannot_read_text(joined_path(dir, "BUILD.bazel"@)),
            )
            &&& out.failed is None ==> {
                &&& out.notes.last() == "protected exports/modules removed (bazel)"@
                &&& lists_stripped(w.files["BUILD.bazel"@]) matches Ok(r) && out.files["BUILD.bazel"@]
                    == r.0 && out.notes.drop_last() == w.notes + r.1
                &&& !w.files.dom().contains("modules.bzl"@) ==> !out.files.dom().contains(
                    "modules.bzl"@,
                )
                &&& w.files.dom().contains("modules.bzl"@) ==> {
                    let before = w.files["modules.bzl"@];
                    let after = out.files["modules.bzl"@];
                    after == before || occurs(after, "protected_modules = []"@)
                }
            }
        }),
{
    reveal_strlit("BUILD.bazel");
    reveal_strlit("modules.bzl");
    assert("BUILD.bazel"@[0] != "modules.bzl"@[0]);
    let a = lists_work(w, dir);
    let b = modules_work(a);
    let out = protected_work(w, dir);
    if out.failed is None {
        assert(out.notes.drop_last() =~= b.notes);
    }
}

/// The names of lists of protected exports are those with their common front.
pub proof fn law_exports_are_known_by_their_front(rest: Seq<char>, name: Seq<char>)
    ensures
        is_exports_name("abi_gki_protected_exports_"@ + rest),
        is_exports_name(name) ==> name == "abi_gki_protected_exports_"@ + name.skip(26),
{
    reveal_strlit("abi_gki_protected_exports_");
    let front = "abi_gki_protected_exports_"@;
    assert((front + rest).subrange(0, 26) =~= front);
    if is_exports_name(name) {
        assert(name =~= name.subrange(0, 26) + name.skip(26));
    }
}

} // verus!
