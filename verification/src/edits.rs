//! The edits that the build makes in single files, and lists of them.
use crate::ctx::{common_dir_of, Ctx};
use crate::failure::{cannot_read_text, Failure};
use crate::lines::{char_rows, vec_bare_lines};
use crate::paths::joined_path;
use crate::regexes::{
    answers_by, groups_of, ignored_mask_pattern, inode_comment_pattern, inotify_fdinfo_pattern,
    last_vma_end_pattern, mask_arguments_pattern, mask_local_pattern, pad_mask_pattern,
    regex_matches, same_answer, spliced, this_len_pattern,
};
use crate::rewrite::{
    answered, insert_before_regex_once, inserted_before_first, lemma_answers_by, opt_text,
    regex_replace, regex_replace_all, regex_sub_once, substitute_of, substituted_first, Captures,
};
use crate::sed::{
    append_line, appended, deleted_exact, inserted_after, inserted_before, sed_delete_exact,
    sed_insert_after, sed_insert_before,
};
use crate::text::{
    bare_lines, chars_of, contains, find_from, first_at, insert_at, inserted_at, lemma_find_from,
    lemma_first_at, occurs, replace, replaced, same, vec_find, vec_same,
};
use crate::tree::{edit_common, edit_gives, Tree};
use crate::words::{cat2, cat4, cat9};
use vstd::prelude::*;
use vstd::string::*;

verus! {

// ---------------------------------------------------------------------------
// Models
// ---------------------------------------------------------------------------

/// An edit of one file.
#[derive(Clone, Copy, Debug)]
pub enum Edit {
    /// Puts `line` after every line that contains `needle`.
    After { needle: &'static str, line: &'static str },
    /// The same, unless the file contains `unless`.
    AfterUnless { unless: &'static str, needle: &'static str, line: &'static str },
    /// Puts `line` before every line that contains `needle`, unless the file contains
    /// `unless`.
    BeforeUnless { unless: &'static str, needle: &'static str, line: &'static str },
    /// Takes out every line that is exactly `line`.
    Delete { line: &'static str },
    /// Replaces every `from`, which is not empty, by `to`.
    Replace { from: &'static str, to: &'static str },
    /// Adds `line` as a last line.
    Append { line: &'static str },
    /// Adds `line` as a last line, unless it is a line of the file.
    AppendMissing { line: &'static str },
    /// Puts `line` behind the first include, unless the file contains it.
    Restore { line: &'static str },
    /// Makes `this_len` a `size_t`.
    ThisLen,
    /// Prints an inotify mark by way of a helper.
    Fdinfo,
    /// Remembers the end of the last mapping.
    LastVmaEnd,
    /// Clears the padding flags in place.
    PadMask,
}

/// An edit and the file that it is for, as a path in the common kernel tree.
#[derive(Clone, Copy, Debug)]
pub struct FileEdit {
    pub path: &'static str,
    pub edit: Edit,
}

/// `s` with `line` as a line of its own behind its first include, unless `line` occurs in
/// it.
pub open spec fn include_restored(s: Seq<char>, line: Seq<char>) -> Seq<char> {
    if occurs(s, line) {
        s
    } else {
        match first_at(s, "#include "@) {
            Some(i) => match find_from(s, "\n"@, i) {
                Some(e) => inserted_at(s, e + 1, line + "\n"@),
                None => s + "\n"@ + line + "\n"@,
            },
            None => s,
        }
    }
}

/// The text of group `i`, empty where it took no part.
pub open spec fn group_text(groups: Seq<Option<Seq<char>>>, i: int) -> Seq<char> {
    if i < groups.len() && groups[i] is Some {
        groups[i].unwrap()
    } else {
        seq![]
    }
}

/// What becomes of a declaration of `this_len`: nothing unless both types agree.
pub open spec fn this_len_answer(groups: Seq<Option<Seq<char>>>) -> Option<Seq<char>> {
    if groups.len() > 2 && groups[1] is Some && groups[1] == groups[2] {
        Some("size_t this_len = min_t(size_t,"@)
    } else {
        None
    }
}

/// `s` with `this_len` a `size_t`.
pub open spec fn this_len_widened(s: Seq<char>) -> Seq<char> {
    let ms = regex_matches(this_len_pattern(), s);
    spliced(s, ms, answers_by(s, ms, |g: Seq<Option<Seq<char>>>| this_len_answer(g)))
}

/// The first group, where there is one.
pub open spec fn first_group(groups: Seq<Option<Seq<char>>>) -> Option<Seq<char>> {
    if groups.len() > 1 {
        groups[1]
    } else {
        None
    }
}

/// `s` without the comment behind the test of the inode.
pub open spec fn without_inode_comment(s: Seq<char>) -> Seq<char> {
    let ms = regex_matches(inode_comment_pattern(), s);
    spliced(s, ms, answers_by(s, ms, |g: Seq<Option<Seq<char>>>| first_group(g)))
}

/// `s` with every match of `pattern` replaced by `r`.
pub open spec fn all_replaced(s: Seq<char>, pattern: Seq<char>, r: Seq<char>) -> Seq<char> {
    spliced(s, regex_matches(pattern, s), same_answer(regex_matches(pattern, s), r))
}

/// The helper that gives the mask which the user set.
pub open spec fn mask_helper() -> Seq<char> {
    "static inline u32 inotify_mark_user_mask(struct fsnotify_mark *mark)\n{\n\treturn mark->mask & IN_ALL_EVENTS;\n}\n\n"@
}

/// `s` with inotify marks printed by way of the helper.
pub open spec fn fdinfo_shimmed(s: Seq<char>) -> Seq<char> {
    let a = without_inode_comment(s);
    let b = all_replaced(a, mask_local_pattern(), ""@);
    let c = all_replaced(b, mask_arguments_pattern(), "inotify_mark_user_mask(mark)"@);
    let d = all_replaced(c, ignored_mask_pattern(), "ignored_mask:0"@);
    inserted_before_first(d, regex_matches(inotify_fdinfo_pattern(), d), mask_helper())
}

/// The test for the end of the last mapping, with braces and an assignment.
pub open spec fn braced_vma_end(groups: Seq<Option<Seq<char>>>) -> Seq<char> {
    let (a, b, c) = (group_text(groups, 1), group_text(groups, 2), group_text(groups, 3));
    a + " {\n"@ + b + "\n"@ + c + "\t\tlast_vma_end = vma->vm_end;\n"@ + c + "\t}\n"@ + c + "}"@
}

/// `s` with the end of the last mapping remembered, at the first place.
pub open spec fn vma_end_remembered(s: Seq<char>) -> Seq<char> {
    let ms = regex_matches(last_vma_end_pattern(), s);
    if ms.len() == 0 {
        s
    } else {
        substituted_first(s, ms[0], braced_vma_end(groups_of(s, ms[0])))
    }
}

/// `s` with the padding flags cleared in place.
pub open spec fn pad_mask_cleared(s: Seq<char>) -> Seq<char> {
    all_replaced(s, pad_mask_pattern(), "                new_vma->vm_flags &= ~VM_PAD_MASK;"@)
}

/// `line` is a line of `s`.
pub open spec fn has_bare_line(s: Seq<char>, line: Seq<char>) -> bool {
    exists|i: int| 0 <= i < bare_lines(s).len() && #[trigger] bare_lines(s)[i] == line
}

/// What an edit makes of a file.
pub open spec fn edited(e: Edit, s: Seq<char>) -> Seq<char> {
    match e {
        Edit::After { needle, line } => inserted_after(s, needle@, line@),
        Edit::AfterUnless { unless, needle, line } => if occurs(s, unless@) {
            s
        } else {
            inserted_after(s, needle@, line@)
        },
        Edit::BeforeUnless { unless, needle, line } => if occurs(s, unless@) {
            s
        } else {
            inserted_before(s, needle@, line@)
        },
        Edit::Delete { line } => deleted_exact(s, line@),
        Edit::Replace { from, to } => replaced(s, from@, to@),
        Edit::Append { line } => appended(s, line@),
        Edit::AppendMissing { line } => if has_bare_line(s, line@) {
            s
        } else {
            appended(s, line@)
        },
        Edit::Restore { line } => include_restored(s, line@),
        Edit::ThisLen => this_len_widened(s),
        Edit::Fdinfo => fdinfo_shimmed(s),
        Edit::LastVmaEnd => vma_end_remembered(s),
        Edit::PadMask => pad_mask_cleared(s),
    }
}

/// The files after the edits of a list, made in order up to the first file that is
/// not there, and the message about that file. `dir` is where the files stand.
pub open spec fn edits_made(
    dir: Seq<char>,
    list: Seq<FileEdit>,
    files: Map<Seq<char>, Seq<char>>,
) -> (Map<Seq<char>, Seq<char>>, Option<Seq<char>>)
    decreases list.len(),
{
    if list.len() == 0 {
        (files, None)
    } else {
        let path = list[0].path@;
        if files.dom().contains(path) {
            edits_made(
                dir,
                list.skip(1),
                files.insert(path, edited(list[0].edit, files[path])),
            )
        } else {
            (files, Some(cannot_read_text(joined_path(dir, path))))
        }
    }
}

/// One edit where `cond` holds, else none.
pub open spec fn edit_if(cond: bool, path: &'static str, edit: Edit) -> Seq<FileEdit> {
    if cond {
        seq![FileEdit { path, edit }]
    } else {
        seq![]
    }
}

// ---------------------------------------------------------------------------
// Functions
// ---------------------------------------------------------------------------

/// Puts `line` behind the first include, unless it is there already.
pub fn restore_include(s: &str, line: &str) -> (r: String)
    ensures
        r@ == include_restored(s@, line@),
{
    if contains(s, line) {
        return s.to_owned();
    }
    let v = chars_of(s);
    match vec_find(&v, &chars_of("#include "), 0) {
        Some(i) => {
            proof {
                lemma_first_at(s@, "#include "@);
                lemma_find_from(s@, "\n"@, i as int);
                reveal_strlit("\n");
            }
            match vec_find(&v, &chars_of("\n"), i) {
                Some(e) => {
                    assert(e < v.len());
                    insert_at(s, e + 1, &cat2(line, "\n"))
                },
                None => cat4(s, "\n", line, "\n"),
            }
        },
        None => s.to_owned(),
    }
}

/// Makes `this_len` a `size_t` where both types of its declaration agree.
pub fn widen_this_len(s: &str) -> (r: String)
    ensures
        r@ == this_len_widened(s@),
{
    let upgrade = |caps: &Captures| -> (o: Option<String>)
        ensures
            opt_text(o) == this_len_answer(caps@),
        {
            match (caps.get(1), caps.get(2)) {
                (Some(a), Some(b)) => if same(a, b) {
                    Some("size_t this_len = min_t(size_t,".to_owned())
                } else {
                    None
                },
                _ => None,
            }
        };
    let ghost ms = regex_matches(this_len_pattern(), s@);
    match regex_replace(
        s,
        "(int|size_t)\\s+this_len\\s*=\\s*min_t\\s*\\(\\s*(int|size_t)\\s*,",
        upgrade,
    ) {
        Ok(out) => {
            proof {
                let answers = choose|a: Seq<Option<Seq<char>>>| #[trigger]
                    answered(upgrade, s@, ms, a) && out@ == spliced(s@, ms, a);
                lemma_answers_by(
                    upgrade,
                    |g: Seq<Option<Seq<char>>>| this_len_answer(g),
                    s@,
                    ms,
                    answers,
                );
            }
            out
        },
        Err(_) => s.to_owned(),
    }
}

/// Takes out the comment behind the test of the inode.
fn drop_inode_comment(s: &str) -> (r: Result<String, Failure>)
    ensures
        r is Ok,
        r matches Ok(out) ==> out@ == without_inode_comment(s@),
{
    let keep = |caps: &Captures| -> (o: Option<String>)
        ensures
            opt_text(o) == first_group(caps@),
        {
            match caps.get(1) {
                Some(a) => Some(a.to_owned()),
                None => None,
            }
        };
    let ghost ms = regex_matches(inode_comment_pattern(), s@);
    let r = regex_replace(
        s,
        "(?s)(if \\(inode\\) \\{\\n)\\t\\t/\\*\\n(?:\\t\\t \\*[^\\n]*\\n)+\\t\\t \\*/\\n",
        keep,
    );
    proof {
        let out = r->Ok_0;
        let answers = choose|a: Seq<Option<Seq<char>>>| #[trigger]
            answered(keep, s@, ms, a) && out@ == spliced(s@, ms, a);
        lemma_answers_by(keep, |g: Seq<Option<Seq<char>>>| first_group(g), s@, ms, answers);
    }
    r
}

/// Prints an inotify mark by way of a helper, which is put in front of the function
/// that prints it.
pub fn fdinfo_shim(content: &str) -> (r: Result<String, Failure>)
    ensures
        r is Ok,
        r matches Ok(out) ==> out@ == fdinfo_shimmed(content@),
{
    proof {
        reveal_strlit("");
        reveal_strlit("inotify_mark_user_mask(mark)");
        reveal_strlit("ignored_mask:0");
    }
    let a = drop_inode_comment(content)?;
    let b = regex_replace_all(&a, "(?m)^[ \\t]*u32 mask = mark->mask & IN_ALL_EVENTS;\\n", "")?;
    let c = regex_replace_all(
        &b,
        "\\bmask,\\s*mark->ignored_mask",
        "inotify_mark_user_mask(mark)",
    )?;
    let d = regex_replace_all(&c, "ignored_mask:%x", "ignored_mask:0")?;
    insert_before_regex_once(
        &d,
        "(?m)^static void inotify_fdinfo\\(struct seq_file \\*m, struct fsnotify_mark \\*mark\\)$",
        "static inline u32 inotify_mark_user_mask(struct fsnotify_mark *mark)\n{\n\treturn mark->mask & IN_ALL_EVENTS;\n}\n\n",
    )
}

/// The text of group `i`, empty where it took no part.
fn group_or_empty<'a>(caps: &'a Captures, i: usize) -> (r: &'a str)
    ensures
        r@ == group_text(caps@, i as int),
{
    match caps.get(i) {
        Some(s) => s,
        None => {
            proof {
                reveal_strlit("");
                assert(""@ =~= group_text(caps@, i as int));
            }
            ""
        },
    }
}

/// Remembers the end of the last mapping, at the first place where it is tested.
pub fn remember_vma_end(s: &str) -> (r: String)
    ensures
        r@ == vma_end_remembered(s@),
{
    let braces = |caps: &Captures| -> (o: String)
        ensures
            o@ == braced_vma_end(caps@),
        {
            let a = group_or_empty(caps, 1);
            let b = group_or_empty(caps, 2);
            let c = group_or_empty(caps, 3);
            let mut o = cat9(
                a,
                " {\n",
                b,
                "\n",
                c,
                "\t\tlast_vma_end = vma->vm_end;\n",
                c,
                "\t}\n",
                c,
            );
            o.append("}");
            o
        };
    let ghost ms = regex_matches(last_vma_end_pattern(), s@);
    match regex_sub_once(
        s,
        "(\\t+\\t\\tif\\s*\\(\\s*vma->vm_end\\s*>\\s*last_vma_end\\s*\\))\\n(\\t+\\t\\t\\tsmap_gather_stats\\(vma,\\s*&mss,\\s*last_vma_end\\);)\\n(\\t+)\\}",
        braces,
    ) {
        Ok(out) => {
            proof {
                if ms.len() > 0 {
                    let g = groups_of(s@, ms[0]);
                    let a = choose|a: Seq<char>| #[trigger]
                        substitute_of(braces, g, a) && out@ == substituted_first(s@, ms[0], a);
                    assert(a == braced_vma_end(g));
                }
            }
            out
        },
        Err(_) => s.to_owned(),
    }
}

/// Clears the padding flags in place.
pub fn clear_pad_mask(s: &str) -> (r: String)
    ensures
        r@ == pad_mask_cleared(s@),
{
    let answer = |caps: &Captures| -> (o: Option<String>)
        ensures
            opt_text(o) == Some("                new_vma->vm_flags &= ~VM_PAD_MASK;"@),
        { Some("                new_vma->vm_flags &= ~VM_PAD_MASK;".to_owned()) };
    let ghost ms = regex_matches(pad_mask_pattern(), s@);
    match regex_replace(s, "[ \\t]*vm_flags_clear\\(new_vma, VM_PAD_MASK\\);", answer) {
        Ok(out) => {
            proof {
                let fixed = "                new_vma->vm_flags &= ~VM_PAD_MASK;"@;
                let answers = choose|a: Seq<Option<Seq<char>>>| #[trigger]
                    answered(answer, s@, ms, a) && out@ == spliced(s@, ms, a);
                let g = |g: Seq<Option<Seq<char>>>| Some(fixed);
                lemma_answers_by(answer, g, s@, ms, answers);
                assert(answers_by(s@, ms, g) =~= same_answer(ms, fixed));
            }
            out
        },
        Err(_) => s.to_owned(),
    }
}

/// Tells whether `line` is a line of `s`.
fn contains_line(s: &str, line: &str) -> (r: bool)
    ensures
        r == has_bare_line(s@, line@),
{
    let rows = vec_bare_lines(&chars_of(s));
    let l = chars_of(line);
    let mut i: usize = 0;
    while i < rows.len()
        invariant
            i <= rows@.len(),
            l@ == line@,
            char_rows(rows@) == bare_lines(s@),
            forall|j: int| 0 <= j < i ==> #[trigger] bare_lines(s@)[j] != line@,
        decreases rows@.len() - i,
    {
        assert(bare_lines(s@)[i as int] == rows@[i as int]@);
        if vec_same(&rows[i], &l) {
            return true;
        }
        i += 1;
    }
    false
}

/// Makes one edit.
pub fn apply_edit(e: &Edit, s: &str) -> (r: String)
    ensures
        r@ == edited(*e, s@),
{
    match *e {
        Edit::After { needle, line } => sed_insert_after(s, needle, line),
        Edit::AfterUnless { unless, needle, line } => if contains(s, unless) {
            s.to_owned()
        } else {
            sed_insert_after(s, needle, line)
        },
        Edit::BeforeUnless { unless, needle, line } => if contains(s, unless) {
            s.to_owned()
        } else {
            sed_insert_before(s, needle, line)
        },
        Edit::Delete { line } => sed_delete_exact(s, line),
        Edit::Replace { from, to } => if chars_of(from).len() == 0 {
            s.to_owned()
        } else {
            replace(s, from, to)
        },
        Edit::Append { line } => append_line(s, line),
        Edit::AppendMissing { line } => if contains_line(s, line) {
            s.to_owned()
        } else {
            append_line(s, line)
        },
        Edit::Restore { line } => restore_include(s, line),
        Edit::ThisLen => widen_this_len(s),
        Edit::Fdinfo => match fdinfo_shim(s) {
            Ok(out) => out,
            Err(_) => s.to_owned(),
        },
        Edit::LastVmaEnd => remember_vma_end(s),
        Edit::PadMask => clear_pad_mask(s),
    }
}

/// Adds an edit to a list where `cond` holds.
pub fn push_if(list: &mut Vec<FileEdit>, cond: bool, path: &'static str, edit: Edit)
    ensures
        final(list)@ == old(list)@ + edit_if(cond, path, edit),
{
    if cond {
        list.push(FileEdit { path, edit });
    }
    assert(list@ =~= old(list)@ + edit_if(cond, path, edit));
}

/// Makes the edits of a list in order, up to the first file that is not there.
pub fn run_edits(ctx: &Ctx, tree: &mut Tree, list: &Vec<FileEdit>) -> (r: Result<(), Failure>)
    ensures
        edits_made(common_dir_of(ctx.workspace()), list@, old(tree)@) == (
            final(tree)@,
            (match r {
                Ok(_) => None,
                Err(e) => Some(e@),
            }),
        ),
{
    let ghost dir = common_dir_of(ctx.workspace());
    let mut i: usize = 0;
    assert(list@.skip(0) =~= list@);
    while i < list.len()
        invariant
            i <= list@.len(),
            dir == common_dir_of(ctx.workspace()),
            edits_made(dir, list@, old(tree)@) == edits_made(dir, list@.skip(i as int), tree@),
        decreases list@.len() - i,
    {
        let ghost rest = list@.skip(i as int);
        let ghost before = tree@;
        assert(rest.skip(1) =~= list@.skip(i + 1));
        assert(rest[0] == list@[i as int]);
        let step = list[i];
        let edit = step.edit;
        let make = |s: &str| -> (o: String)
            ensures
                o@ == edited(edit, s@),
            { apply_edit(&edit, s) };
        match edit_common(ctx, tree, step.path, make) {
            Ok(_) => {
                proof {
                    let after = choose|after: Seq<char>| #[trigger]
                        edit_gives(make, before[step.path@], after) && tree@ == before.insert(
                            step.path@,
                            after,
                        );
                    assert(after == edited(edit, before[step.path@]));
                }
            },
            Err(e) => {
                return Err(e);
            },
        }
        i += 1;
    }
    Ok(())
}

} // verus!
