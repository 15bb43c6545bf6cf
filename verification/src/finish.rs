//! The last edits before the build: branding, version checks and dirty flags.
use crate::ctx::{common_dir_of, kernel_dir_of, Ctx};
use crate::failure::{cannot_read_text, no_bad_version_text, no_return_zero_text, Failure};
use crate::family::{android_of, kernel_of, Family};
use crate::lines::{char_rows, vec_lines};
use crate::paths::{joined_path, path_join};
use crate::plan::{command, command_in, run_in, run, Command, CommandModel, Step};
use crate::sed::{appended, replace_last_line, without_last_line};
use crate::text::{
    chars_of, contains, extend_range, joined, lines_of, occurs, replace, replace_first, replaced,
    replaced_first, slices, string_of, trimmed, vec_contains,
};
use crate::tree::Tree;
use crate::words::{cat5, cat9, trim};
use vstd::prelude::*;

verus! {

// ---------------------------------------------------------------------------
// Branding
// ---------------------------------------------------------------------------

/// The line that prints the branded end of the release: with the whole release in front
/// of it from 6.6 on.
pub open spec fn branding_line(f: Family, sublevel: Seq<char>, brand: Seq<char>) -> Seq<char> {
    if f == Family::Android15_6_6 || f == Family::Android16_6_12 {
        "echo \""@ + kernel_of(f) + "."@ + sublevel + "-"@ + android_of(f) + "-"@ + brand + "\""@
    } else {
        "echo \"-"@ + android_of(f) + "-"@ + brand + "\""@
    }
}

/// The line that prints the branded end of the release.
pub fn brand_line(ctx: &Ctx) -> (r: String)
    ensures
        r@ == branding_line(ctx.family, ctx.sublevel@, ctx.opts.brand_name@),
{
    let f = ctx.family;
    if f == Family::Android15_6_6 || f == Family::Android16_6_12 {
        cat9(
            "echo \"",
            f.kernel(),
            ".",
            &ctx.sublevel,
            "-",
            f.android(),
            "-",
            &ctx.opts.brand_name,
            "\"",
        )
    } else {
        cat5("echo \"-", f.android(), "-", &ctx.opts.brand_name, "\"")
    }
}

/// Replaces the last line of `scripts/setlocalversion` by the branding.
pub fn apply_kernel_branding(ctx: &Ctx, tree: &mut Tree) -> (r: Result<(), Failure>)
    ensures
        r is Ok <==> old(tree)@.dom().contains("scripts/setlocalversion"@),
        r matches Err(e) ==> e@ == cannot_read_text(
            joined_path(common_dir_of(ctx.workspace()), "scripts/setlocalversion"@),
        ) && *final(tree) == *old(tree),
        r is Ok ==> final(tree)@ == old(tree)@.insert(
            "scripts/setlocalversion"@,
            appended(
                without_last_line(old(tree)@["scripts/setlocalversion"@]),
                branding_line(ctx.family, ctx.sublevel@, ctx.opts.brand_name@),
            ),
        ),
{
    let out = match tree.get("scripts/setlocalversion") {
        Some(content) => replace_last_line(content, &brand_line(ctx)),
        None => {
            return Err(
                Failure::CannotRead {
                    path: path_join(&ctx.common_dir(), "scripts/setlocalversion"),
                },
            );
        },
    };
    tree.set("scripts/setlocalversion", out);
    Ok(())
}

// ---------------------------------------------------------------------------
// The version check of modules
// ---------------------------------------------------------------------------

/// The first line from `i` on that contains `needle`.
pub open spec fn line_with(ls: Seq<Seq<char>>, needle: Seq<char>, i: int) -> Option<int>
    decreases ls.len() - i,
{
    if i >= ls.len() {
        None
    } else if occurs(ls[i], needle) {
        Some(i)
    } else {
        line_with(ls, needle, i + 1)
    }
}

/// `s` with the check passed over: behind the label for a bad version the first failure
/// is a success. Or the message where there is no such label or failure.
pub open spec fn check_bypassed(s: Seq<char>, path: Seq<char>) -> Result<Seq<char>, Seq<char>> {
    let ls = lines_of(s);
    match line_with(ls, "bad_version:"@, 0) {
        None => Err(no_bad_version_text(path)),
        Some(a) => match line_with(ls, "return 0;"@, a + 1) {
            None => Err(no_return_zero_text()),
            Some(b) => Ok(
                joined(ls.update(b, replaced_first(ls[b], "return 0;"@, "return 1;"@))),
            ),
        },
    }
}

/// Where the version check stands in the common kernel tree.
pub open spec fn version_check_path(f: Family) -> Seq<char> {
    if f == Family::Android14_6_1 || f == Family::Android15_6_6 || f == Family::Android16_6_12 {
        "kernel/module/version.c"@
    } else {
        "kernel/module.c"@
    }
}

/// Where the version check stands.
pub fn version_check_file(f: Family) -> (r: &'static str)
    ensures
        r@ == version_check_path(f),
{
    if f == Family::Android14_6_1 || f == Family::Android15_6_6 || f == Family::Android16_6_12 {
        "kernel/module/version.c"
    } else {
        "kernel/module.c"
    }
}

/// The first line from `start` on that contains `needle`.
fn find_line(rows: &Vec<Vec<char>>, needle: &str, start: usize) -> (r: Option<usize>)
    ensures
        r matches Some(i) ==> line_with(char_rows(rows@), needle@, start as int) == Some(i as int)
            && start <= i < rows@.len() && occurs(rows@[i as int]@, needle@),
        r is None ==> line_with(char_rows(rows@), needle@, start as int) is None,
{
    let n = chars_of(needle);
    let ghost ls = char_rows(rows@);
    let mut i: usize = start;
    while i < rows.len()
        invariant
            start <= i,
            n@ == needle@,
            ls == char_rows(rows@),
            line_with(ls, needle@, start as int) == line_with(ls, needle@, i as int),
        decreases rows@.len() - i,
    {
        assert(ls[i as int] == rows@[i as int]@);
        if vec_contains(&rows[i], &n) {
            return Some(i);
        }
        i += 1;
    }
    None
}

/// The rows one after the other, with row `k` replaced.
fn join_rows_but(rows: &Vec<Vec<char>>, k: usize, row: &Vec<char>) -> (r: Vec<char>)
    requires
        k < rows@.len(),
    ensures
        r@ == joined(char_rows(rows@).update(k as int, row@)),
{
    let ghost want = char_rows(rows@).update(k as int, row@);
    let mut out: Vec<char> = Vec::new();
    let mut i: usize = 0;
    assert(want.take(0) =~= Seq::<Seq<char>>::empty());
    while i < rows.len()
        invariant
            i <= rows@.len(),
            k < rows@.len(),
            want == char_rows(rows@).update(k as int, row@),
            out@ == joined(want.take(i as int)),
        decreases rows@.len() - i,
    {
        let ghost before = out@;
        if i == k {
            extend_range(&mut out, row, 0, row.len());
            assert(row@.subrange(0, row@.len() as int) =~= row@);
        } else {
            let n: usize = rows[i].len();
            extend_range(&mut out, &rows[i], 0, n);
            assert(rows@[i as int]@.subrange(0, n as int) =~= rows@[i as int]@);
        }
        assert(out@ =~= before + want[i as int]);
        assert(want.take(i + 1).drop_last() =~= want.take(i as int));
        i += 1;
    }
    assert(want.take(want.len() as int) =~= want);
    out
}

/// Passes the version check over in one text. `path` is where it stands.
pub fn bypass_check(s: &str, path: &str) -> (r: Result<String, Failure>)
    ensures
        match r {
            Ok(out) => check_bypassed(s@, path@) == Ok::<Seq<char>, Seq<char>>(out@),
            Err(e) => check_bypassed(s@, path@) == Err::<Seq<char>, Seq<char>>(e@),
        },
{
    let rows = vec_lines(&chars_of(s));
    let label: usize = match find_line(&rows, "bad_version:", 0) {
        Some(a) => a,
        None => {
            return Err(Failure::NoBadVersion { path: path.to_owned() });
        },
    };
    let n: usize = rows.len();
    match find_line(&rows, "return 0;", label + 1) {
        Some(b) => {
            let line = replace_first(&string_of(&rows[b]), "return 0;", "return 1;");
            Ok(string_of(&join_rows_but(&rows, b, &chars_of(&line))))
        },
        None => Err(Failure::NoReturnZero),
    }
}

/// Passes the version check of modules over.
pub fn apply_bypass_hack(ctx: &Ctx, tree: &mut Tree) -> (r: Result<(), Failure>)
    ensures
        ({
            let rel = version_check_path(ctx.family);
            let path = joined_path(common_dir_of(ctx.workspace()), rel);
            if !old(tree)@.dom().contains(rel) {
                r matches Err(e) && e@ == cannot_read_text(path)
            } else {
                match check_bypassed(old(tree)@[rel], path) {
                    Ok(out) => r is Ok && final(tree)@ == old(tree)@.insert(rel, out),
                    Err(text) => r matches Err(e) && e@ == text,
                }
            }
        }),
        r is Err ==> *final(tree) == *old(tree),
{
    let rel = version_check_file(ctx.family);
    let path = path_join(&ctx.common_dir(), rel);
    let out = match tree.get(rel) {
        Some(content) => bypass_check(content, &path)?,
        None => {
            return Err(Failure::CannotRead { path });
        },
    };
    tree.set(rel, out);
    Ok(())
}

// ---------------------------------------------------------------------------
// Dirty flags
// ---------------------------------------------------------------------------

/// The line `l` without the flag, where it speaks of the version command.
pub open spec fn stamp_line_cleaned(l: Seq<char>) -> Seq<char> {
    if occurs(l, "stable_scmversion_cmd"@) {
        replaced(l, "-maybe-dirty"@, ""@)
    } else {
        l
    }
}

/// The stamping rules without the flag.
pub open spec fn stamp_cleaned(s: Seq<char>) -> Seq<char> {
    joined(lines_of(s).map_values(|l: Seq<char>| stamp_line_cleaned(l)))
}

/// The version script without the flag.
pub open spec fn dirty_dropped(s: Seq<char>) -> Seq<char> {
    replaced(s, "-dirty"@, ""@)
}

/// Takes the flag out of the stamping rules.
pub fn clean_stamp(s: &str) -> (r: String)
    ensures
        r@ == stamp_cleaned(s@),
{
    proof {
        reveal_strlit("-maybe-dirty");
    }
    let rows = vec_lines(&chars_of(s));
    let needle = chars_of("stable_scmversion_cmd");
    let ghost f = |l: Seq<char>| stamp_line_cleaned(l);
    let ghost want = lines_of(s@).map_values(f);
    let mut out: Vec<char> = Vec::new();
    let mut i: usize = 0;
    assert(want.take(0) =~= Seq::<Seq<char>>::empty());
    while i < rows.len()
        invariant
            i <= rows@.len(),
            needle@ == "stable_scmversion_cmd"@,
            "-maybe-dirty"@.len() > 0,
            char_rows(rows@) == lines_of(s@),
            f == (|l: Seq<char>| stamp_line_cleaned(l)),
            want == lines_of(s@).map_values(f),
            out@ == joined(want.take(i as int)),
        decreases rows@.len() - i,
    {
        assert(lines_of(s@)[i as int] == rows@[i as int]@);
        let ghost before = out@;
        let row = &rows[i];
        let n: usize = row.len();
        if vec_contains(row, &needle) {
            let cleaned = chars_of(&replace(&string_of(row), "-maybe-dirty", ""));
            extend_range(&mut out, &cleaned, 0, cleaned.len());
            assert(cleaned@.subrange(0, cleaned@.len() as int) =~= cleaned@);
        } else {
            extend_range(&mut out, row, 0, n);
            assert(row@.subrange(0, n as int) =~= row@);
        }
        assert(out@ =~= before + want[i as int]);
        assert(want.take(i + 1).drop_last() =~= want.take(i as int));
        i += 1;
    }
    assert(want.take(want.len() as int) =~= want);
    string_of(&out)
}

/// Takes the flag out of the version script.
pub fn drop_dirty(s: &str) -> (r: String)
    ensures
        r@ == dirty_dropped(s@),
{
    proof {
        reveal_strlit("-dirty");
    }
    replace(s, "-dirty", "")
}

/// The two files that carry the flag, cleaned; what is not to be written is nothing.
pub struct Cleaned {
    pub setlocalversion: Option<String>,
    pub stamp: Option<String>,
}

/// Where the version script is.
pub open spec fn version_script_of(ws: Seq<char>) -> Seq<char> {
    joined_path(kernel_dir_of(ws), "common/scripts/setlocalversion"@)
}

/// Where the stamping rules of the bazel build are.
pub open spec fn stamp_rules_of(ws: Seq<char>) -> Seq<char> {
    joined_path(kernel_dir_of(ws), "build/kernel/kleaf/impl/stamp.bzl"@)
}

/// The version script.
pub fn version_script(ctx: &Ctx) -> (r: String)
    ensures
        r@ == joined_path(kernel_dir_of(ctx.workspace()), "common/scripts/setlocalversion"@),
        r@ == version_script_of(ctx.workspace()),
{
    path_join(&ctx.kernel_dir(), "common/scripts/setlocalversion")
}

/// The stamping rules of the bazel build.
pub fn stamp_rules(ctx: &Ctx) -> (r: String)
    ensures
        r@ == joined_path(
            kernel_dir_of(ctx.workspace()),
            "build/kernel/kleaf/impl/stamp.bzl"@,
        ),
        r@ == stamp_rules_of(ctx.workspace()),
{
    path_join(&ctx.kernel_dir(), "build/kernel/kleaf/impl/stamp.bzl")
}

/// Takes the dirty flags out. `setlocalversion` and `stamp` are the version script and
/// the stamping rules, where they are there. The legacy build needs the script; the
/// bazel build takes what there is.
pub fn clean_kernel_flags(
    ctx: &Ctx,
    uses_bazel: bool,
    setlocalversion: Option<&str>,
    stamp: Option<&str>,
) -> (r: Result<Cleaned, Failure>)
    ensures
        r is Err <==> !uses_bazel && setlocalversion is None,
        r matches Err(e) ==> e@ == cannot_read_text(
            joined_path(kernel_dir_of(ctx.workspace()), "common/scripts/setlocalversion"@),
        ),
        r matches Ok(c) ==> {
            &&& c.setlocalversion is Some <==> setlocalversion is Some
            &&& c.setlocalversion matches Some(out) ==> out@ == dirty_dropped(
                setlocalversion.unwrap()@,
            )
            &&& c.stamp is Some <==> uses_bazel && stamp is Some
            &&& c.stamp matches Some(out) ==> out@ == stamp_cleaned(stamp.unwrap()@)
        },
{
    let script = match setlocalversion {
        Some(s) => Some(drop_dirty(s)),
        None => {
            if !uses_bazel {
                return Err(Failure::CannotRead { path: version_script(ctx) });
            }
            None
        },
    };
    let rules = if uses_bazel {
        match stamp {
            Some(s) => Some(clean_stamp(s)),
            None => None,
        }
    } else {
        None
    };
    Ok(Cleaned { setlocalversion: script, stamp: rules })
}

/// The step that stages the tree.
pub fn stage_step(ctx: &Ctx) -> (r: Step)
    ensures
        r@ == run_in(common_dir_of(ctx.workspace()), seq!["git"@, "add"@, "."@]),
{
    let words = vec!["git", "add", "."];
    assert(slices(words@) =~= seq!["git"@, "add"@, "."@]);
    run(&ctx.common_dir(), words)
}

/// The command that lists what is staged.
pub fn staged_command(ctx: &Ctx) -> (r: Command)
    ensures
        r@ == command_in(
            common_dir_of(ctx.workspace()),
            seq!["git"@, "diff"@, "--cached"@, "--name-only"@],
        ),
{
    let words = vec!["git", "diff", "--cached", "--name-only"];
    assert(slices(words@) =~= seq!["git"@, "diff"@, "--cached"@, "--name-only"@]);
    command(&ctx.common_dir(), words)
}

/// The command that commits the patched tree under the name of a bot.
pub open spec fn commit_model(common: Seq<char>) -> CommandModel {
    CommandModel {
        cwd: common,
        words: seq!["git"@, "commit"@, "-m"@, "Wild: Clean Dirty Flag"@],
        env: seq![
            ("GIT_AUTHOR_NAME"@, "github-actions[bot]"@),
            ("GIT_AUTHOR_EMAIL"@, "github-actions[bot]@users.noreply.github.com"@),
            ("GIT_COMMITTER_NAME"@, "github-actions[bot]"@),
            ("GIT_COMMITTER_EMAIL"@, "github-actions[bot]@users.noreply.github.com"@),
        ],
    }
}

/// The command that commits the patched tree, unless nothing is staged.
pub fn commit_command(ctx: &Ctx, staged: &str) -> (r: Option<Command>)
    ensures
        r is Some <==> trimmed(staged@).len() > 0,
        r matches Some(c) ==> c@ == commit_model(common_dir_of(ctx.workspace())),
{
    if chars_of(&trim(staged)).len() == 0 {
        return None;
    }
    let words = vec!["git", "commit", "-m", "Wild: Clean Dirty Flag"];
    assert(slices(words@) =~= seq!["git"@, "commit"@, "-m"@, "Wild: Clean Dirty Flag"@]);
    let mut c = command(&ctx.common_dir(), words);
    c.env = vec![
        ("GIT_AUTHOR_NAME".to_owned(), "github-actions[bot]".to_owned()),
        (
            "GIT_AUTHOR_EMAIL".to_owned(),
            "github-actions[bot]@users.noreply.github.com".to_owned(),
        ),
        ("GIT_COMMITTER_NAME".to_owned(), "github-actions[bot]".to_owned()),
        (
            "GIT_COMMITTER_EMAIL".to_owned(),
            "github-actions[bot]@users.noreply.github.com".to_owned(),
        ),
    ];
    assert(c@.env =~= commit_model(common_dir_of(ctx.workspace())).env);
    Some(c)
}

} // verus!
