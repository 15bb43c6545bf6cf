//! The sublevel of a build and the name of its files.
use crate::ctx::{common_dir_of, Ctx};
use crate::failure::{bad_sublevel_text, makefile_missing_text, sublevel_count_text, Failure};
use crate::family::{android_of, kernel_of, Family};
use crate::lines::{char_rows, vec_bare_lines};
use crate::paths::{joined_path, path_join};
use crate::regexes::{regex_is_match, sets_sublevel};
use crate::text::{
    all_digits, ascii_lowered, bare_lines, chars_of, first_at, lemma_first_at, range_of, same,
    string_of, trimmed, vec_find,
};
use crate::words::{cat2, cat7, same_ignoring_ascii_case, vec_all_digits, vec_trim};
use vstd::prelude::*;

verus! {

// ---------------------------------------------------------------------------
// Models
// ---------------------------------------------------------------------------

/// The sublevel is to be read from the Makefile of the tree.
pub open spec fn reads_makefile(level: Seq<char>, sublevel_input: Seq<char>) -> bool {
    ||| ascii_lowered(level) == ascii_lowered("lts"@)
    ||| ascii_lowered(sublevel_input) == ascii_lowered("X"@)
}

/// A line that assigns to `SUBLEVEL`.
pub open spec fn sublevel_line() -> spec_fn(Seq<char>) -> bool {
    |l: Seq<char>| sets_sublevel(l)
}

/// What stands behind the first equals sign of a line.
pub open spec fn assigned_value(l: Seq<char>) -> Seq<char> {
    match first_at(l, "="@) {
        Some(i) => trimmed(l.skip(i + 1)),
        None => seq![],
    }
}

/// The sublevel that a Makefile names in its one assignment, or the message about it.
pub open spec fn makefile_sublevel(content: Seq<char>, path: Seq<char>) -> Result<
    Seq<char>,
    Seq<char>,
> {
    let found = bare_lines(content).filter(sublevel_line());
    if found.len() != 1 {
        Err(sublevel_count_text(path, found.len()))
    } else {
        let value = assigned_value(found[0]);
        if value.len() == 0 || !all_digits(value) {
            Err(bad_sublevel_text(value, path))
        } else {
            Ok(value)
        }
    }
}

/// The sublevel of a build, or the message about it.
pub open spec fn resolved_sublevel(
    level: Seq<char>,
    sublevel_input: Seq<char>,
    makefile: Option<Seq<char>>,
    path: Seq<char>,
) -> Result<Seq<char>, Seq<char>> {
    if reads_makefile(level, sublevel_input) {
        match makefile {
            Some(content) => makefile_sublevel(content, path),
            None => Err(makefile_missing_text(path)),
        }
    } else {
        Ok(sublevel_input)
    }
}

/// The variant is named in the names of files.
pub open spec fn is_label(variant: Seq<char>) -> bool {
    variant.len() > 0 && variant != "Normal"@
}

/// The name of the files of a build.
pub open spec fn file_name_of(
    f: Family,
    sublevel: Seq<char>,
    level: Seq<char>,
    variant: Seq<char>,
) -> Seq<char> {
    let name = kernel_of(f) + "."@ + sublevel + "-"@ + android_of(f) + "-"@ + level;
    if is_label(variant) {
        name + ("-"@ + variant)
    } else {
        name
    }
}

// ---------------------------------------------------------------------------
// Functions
// ---------------------------------------------------------------------------

/// Tells whether a line assigns to `SUBLEVEL`.
fn is_sublevel_line(row: &Vec<char>) -> (r: bool)
    ensures
        r == sets_sublevel(row@),
{
    match regex_is_match("^[[:space:]]*SUBLEVEL[[:space:]]*=", &string_of(row)) {
        Ok(b) => b,
        Err(_) => false,
    }
}

/// The lines that assign to `SUBLEVEL`.
fn sublevel_lines(content: &str) -> (r: Vec<Vec<char>>)
    ensures
        char_rows(r@) == bare_lines(content@).filter(sublevel_line()),
{
    let rows = vec_bare_lines(&chars_of(content));
    let ghost all = bare_lines(content@);
    let mut r: Vec<Vec<char>> = Vec::new();
    let mut i: usize = 0;
    proof {
        reveal(Seq::filter);
        assert(all.take(0) =~= Seq::<Seq<char>>::empty());
        assert(char_rows(r@) =~= Seq::<Seq<char>>::empty());
    }
    while i < rows.len()
        invariant
            i <= rows@.len(),
            all == bare_lines(content@),
            char_rows(rows@) == all,
            char_rows(r@) == all.take(i as int).filter(sublevel_line()),
        decreases rows@.len() - i,
    {
        proof {
            reveal(Seq::filter);
            assert(all.take(i + 1).drop_last() =~= all.take(i as int));
            assert(all.take(i + 1).last() == all[i as int]);
            assert(all[i as int] == rows@[i as int]@);
        }
        let ghost before = char_rows(r@);
        if is_sublevel_line(&rows[i]) {
            let n: usize = rows[i].len();
            let row = range_of(&rows[i], 0, n);
            assert(row@ =~= rows@[i as int]@);
            r.push(row);
            assert(char_rows(r@) =~= before.push(row@));
        }
        i += 1;
    }
    assert(all.take(all.len() as int) =~= all);
    r
}

/// What stands behind the first equals sign of a line.
fn value_of(row: &Vec<char>) -> (r: Vec<char>)
    ensures
        r@ == assigned_value(row@),
{
    proof {
        lemma_first_at(row@, "="@);
        reveal_strlit("=");
    }
    let n: usize = row.len();
    match vec_find(row, &chars_of("="), 0) {
        Some(i) => {
            let value = range_of(row, i + 1, n);
            assert(value@ =~= row@.skip(i + 1));
            vec_trim(&value)
        },
        None => Vec::new(),
    }
}

/// Reads the sublevel that a Makefile names.
pub fn read_sublevel(content: &str, path: &str) -> (r: Result<String, Failure>)
    ensures
        match r {
            Ok(s) => makefile_sublevel(content@, path@) == Ok::<Seq<char>, Seq<char>>(s@),
            Err(e) => makefile_sublevel(content@, path@) == Err::<Seq<char>, Seq<char>>(e@),
        },
{
    let found = sublevel_lines(content);
    let n: usize = found.len();
    if n != 1 {
        return Err(Failure::SublevelCount { path: path.to_owned(), count: n });
    }
    assert(char_rows(found@)[0] == found@[0]@);
    let value = value_of(&found[0]);
    if value.len() == 0 || !vec_all_digits(&value) {
        return Err(Failure::BadSublevel { value: string_of(&value), path: path.to_owned() });
    }
    Ok(string_of(&value))
}

/// The name of the files of a build.
pub fn file_name(f: Family, sublevel: &str, level: &str, variant: &str) -> (r: String)
    ensures
        r@ == file_name_of(f, sublevel@, level@, variant@),
{
    let name = cat7(f.kernel(), ".", sublevel, "-", f.android(), "-", level);
    if chars_of(variant).len() > 0 && !same(variant, "Normal") {
        cat2(&name, &cat2("-", variant))
    } else {
        name
    }
}

/// Tells whether the sublevel is to be read from the Makefile of the tree.
pub fn needs_makefile(level: &str, sublevel_input: &str) -> (r: bool)
    ensures
        r == reads_makefile(level@, sublevel_input@),
{
    same_ignoring_ascii_case(level, "lts") || same_ignoring_ascii_case(sublevel_input, "X")
}

/// Resolves the sublevel of a build and names its files. `makefile` is the Makefile of
/// the common kernel tree, where it is there.
pub fn extract_sublevel_and_file_name(ctx: &mut Ctx, makefile: Option<&str>) -> (r: Result<
    (),
    Failure,
>)
    ensures
        match resolved_sublevel(
            old(ctx).os_patch_level@,
            old(ctx).sublevel_input@,
            (match makefile {
                Some(m) => Some(m@),
                None => None,
            }),
            joined_path(common_dir_of(old(ctx).workspace()), "Makefile"@),
        ) {
            Ok(s) => {
                &&& r is Ok
                &&& final(ctx).sublevel@ == s
                &&& final(ctx).file_name@ == file_name_of(
                    old(ctx).family,
                    s,
                    old(ctx).os_patch_level@,
                    old(ctx).opts.variant@,
                )
                &&& *final(ctx) == (Ctx {
                    sublevel: final(ctx).sublevel,
                    file_name: final(ctx).file_name,
                    ..*old(ctx)
                })
            },
            Err(text) => r matches Err(e) && e@ == text && *final(ctx) == *old(ctx),
        },
{
    let sublevel = if needs_makefile(&ctx.os_patch_level, &ctx.sublevel_input) {
        let path = path_join(&ctx.common_dir(), "Makefile");
        match makefile {
            Some(content) => read_sublevel(content, &path)?,
            None => {
                return Err(Failure::MakefileMissing { path });
            },
        }
    } else {
        ctx.sublevel_input.as_str().to_owned()
    };
    let name = file_name(ctx.family, &sublevel, &ctx.os_patch_level, &ctx.opts.variant);
    ctx.sublevel = sublevel;
    ctx.file_name = name;
    Ok(())
}

/// Builds that differ in a variant that is named have files of different names.
pub proof fn law_variants_have_their_own_names(
    f: Family,
    sublevel: Seq<char>,
    level: Seq<char>,
    v: Seq<char>,
    w: Seq<char>,
)
    requires
        v != w,
        is_label(v) || is_label(w),
    ensures
        file_name_of(f, sublevel, level, v) != file_name_of(f, sublevel, level, w),
{
    reveal_strlit("-");
    let name = kernel_of(f) + "."@ + sublevel + "-"@ + android_of(f) + "-"@ + level;
    let n = name.len() + 1;
    let (a, b) = (name + ("-"@ + v), name + ("-"@ + w));
    assert(a.skip(n as int) =~= v);
    assert(b.skip(n as int) =~= w);
}

/// The files of a build without a label of its own are named after the release that its
/// summary shows; a label comes behind that.
pub proof fn law_files_are_named_after_the_release(
    f: Family,
    sublevel: Seq<char>,
    level: Seq<char>,
    variant: Seq<char>,
)
    ensures
        ({
            let release = kernel_of(f) + "."@ + sublevel + "-"@ + android_of(f) + "-"@ + level;
            &&& file_name_of(f, sublevel, level, "Normal"@) == release
            &&& file_name_of(f, sublevel, level, seq![]) == release
            &&& variant != "Normal"@ && variant.len() > 0 ==> file_name_of(
                f,
                sublevel,
                level,
                variant,
            ) == release + "-"@ + variant
        }),
{
    let release = kernel_of(f) + "."@ + sublevel + "-"@ + android_of(f) + "-"@ + level;
    assert(release + ("-"@ + variant) =~= release + "-"@ + variant);
}

} // verus!
