//! What the last edits before the build promise.
use crate::family::{android_of, kernel_numbers, kernel_of, Family};
use crate::finish::{
    branding_line, check_bypassed, commit_model, dirty_dropped, line_with, stamp_cleaned,
    stamp_line_cleaned, version_check_path,
};
use crate::lines::{
    are_lines, is_line, is_open_line, lemma_joined_lines, lemma_joined_sum, lemma_lines_are_lines,
    lemma_lines_of_sum,
};
use crate::sed::{appended, closed_text, without_last_line};
use crate::sed_laws::law_append_adds_one_line;
use crate::text::{
    first_at, joined, lemma_first_at, lines_of, occurs, replaced_first,
};
use crate::text_laws::{
    clash, law_replace_needs_the_pattern, law_replacement_goes_piece_by_piece,
};
use vstd::prelude::*;

verus! {

/// From the series 6.6 on, by its numbers, the branded line prints the whole release with
/// the sublevel; on every older series it prints the end of it.
pub proof fn law_branding_goes_by_the_series(f: Family, sublevel: Seq<char>, brand: Seq<char>)
    ensures
        ({
            let (major, minor) = kernel_numbers(f);
            let end = "-"@ + android_of(f) + "-"@ + brand + "\""@;
            branding_line(f, sublevel, brand) == (if major > 6 || (major == 6 && minor >= 6) {
                "echo \""@ + kernel_of(f) + "."@ + sublevel + end
            } else {
                "echo \""@ + end
            })
        }),
{
    reveal_strlit("echo \"-");
    reveal_strlit("echo \"");
    reveal_strlit("-");
    let end = "-"@ + android_of(f) + "-"@ + brand + "\""@;
    let line = branding_line(f, sublevel, brand);
    if kernel_numbers(f).0 > 6 || (kernel_numbers(f).0 == 6 && kernel_numbers(f).1 >= 6) {
        assert(line =~= "echo \""@ + kernel_of(f) + "."@ + sublevel + end);
    } else {
        assert(line =~= "echo \""@ + end);
    }
}

/// The branding takes the place of the last line of the version script: the lines before
/// it stay, and it is a line of its own.
pub proof fn law_branding_is_the_last_line(content: Seq<char>, line: Seq<char>)
    requires
        forall|i: int| 0 <= i < line.len() ==> line[i] != '\n',
    ensures
        ({
            let out = lines_of(appended(without_last_line(content), line));
            &&& out.len() > 0
            &&& out.last() == line.push('\n')
            &&& content.len() > 0 ==> out.drop_last() == lines_of(content).drop_last()
            &&& content.len() == 0 ==> out.len() == 1
        }),
{
    let c = without_last_line(content);
    law_append_adds_one_line(c, line);
    let out = lines_of(appended(c, line));
    assert(out.drop_last() =~= lines_of(closed_text(c)));
    if content.len() > 0 {
        let ls = lines_of(content);
        lemma_lines_are_lines(content);
        let front = ls.drop_last();
        assert(are_lines(front)) by {
            assert forall|i: int| 0 <= i < front.len() implies front[i] == #[trigger] ls[i] by {}
        }
        lemma_joined_lines(front);
        if front.len() > 0 {
            let l = front.last();
            assert(l == ls[ls.len() - 2]);
            assert(is_line(l));
            assert(joined(front).last() == l.last());
        }
        assert(closed_text(c) == c);
    }
}

/// The version check of modules stands in a file of its own from the series 6.0 on.
pub proof fn law_version_check_goes_by_the_series(f: Family)
    ensures
        version_check_path(f) == (if kernel_numbers(f).0 >= 6 {
            "kernel/module/version.c"@
        } else {
            "kernel/module.c"@
        }),
{
}

/// The first line from `i` on with a text is the first.
proof fn lemma_line_with(ls: Seq<Seq<char>>, needle: Seq<char>, i: int)
    requires
        0 <= i,
    ensures
        line_with(ls, needle, i) matches Some(k) ==> i <= k < ls.len() && occurs(ls[k], needle) && (
        forall|j: int| i <= j < k ==> !occurs(#[trigger] ls[j], needle)),
        line_with(ls, needle, i) is None ==> (forall|j: int|
            i <= j < ls.len() ==> !occurs(#[trigger] ls[j], needle)),
    decreases ls.len() - i,
{
    if i < ls.len() && !occurs(ls[i], needle) {
        lemma_line_with(ls, needle, i + 1);
    }
}

/// `a` is the first line with the label, and `b` the first one behind it that gives up.
pub open spec fn gives_up_at(ls: Seq<Seq<char>>, a: int, b: int) -> bool {
    &&& 0 <= a < b < ls.len()
    &&& occurs(ls[a], "bad_version:"@)
    &&& forall|j: int| 0 <= j < a ==> !occurs(#[trigger] ls[j], "bad_version:"@)
    &&& occurs(ls[b], "return 0;"@)
    &&& forall|j: int| a < j < b ==> !occurs(#[trigger] ls[j], "return 0;"@)
}

/// Passing the version check over succeeds exactly where some line behind the label gives
/// up. It changes one character: in the first such line the first `return 0;` becomes a
/// `return 1;`.
pub proof fn law_one_return_is_turned(s: Seq<char>, path: Seq<char>)
    ensures
        check_bypassed(s, path) is Ok <==> (exists|a: int, b: int| gives_up_at(lines_of(s), a, b)),
        forall|out: Seq<char>, a: int, b: int|
            check_bypassed(s, path) == Ok::<Seq<char>, Seq<char>>(out) && #[trigger] gives_up_at(
                lines_of(s),
                a,
                b,
            ) && #[trigger] out.len() >= 0 ==> {
                let l = lines_of(s)[b];
                let p = first_at(l, "return 0;"@).unwrap();
                lines_of(out) == lines_of(s).update(b, l.update(p + 7, '1'))
            },
{
    let ls = lines_of(s);
    lemma_line_with(ls, "bad_version:"@, 0);
    reveal_strlit("return 0;");
    reveal_strlit("return 1;");
    match line_with(ls, "bad_version:"@, 0) {
        Some(a) => {
            lemma_line_with(ls, "return 0;"@, a + 1);
            if let Some(b) = line_with(ls, "return 0;"@, a + 1) {
                assert(gives_up_at(ls, a, b));
            }
        },
        None => {},
    }
    assert forall|out: Seq<char>, a: int, b: int|
        check_bypassed(s, path) == Ok::<Seq<char>, Seq<char>>(out) && #[trigger] gives_up_at(
            ls,
            a,
            b,
        ) && #[trigger] out.len() >= 0 implies ({
        let l = ls[b];
        let p = first_at(l, "return 0;"@).unwrap();
        lines_of(out) == ls.update(b, l.update(p + 7, '1'))
    }) by {
        let x = line_with(ls, "bad_version:"@, 0).unwrap();
        let y = line_with(ls, "return 0;"@, x + 1).unwrap();
        assert(gives_up_at(ls, x, y));
        assert(x == a);
        assert(y == b);
        let l = ls[b];
        lemma_first_at(l, "return 0;"@);
        let p = first_at(l, "return 0;"@).unwrap();
        let m = l.update(p + 7, '1');
        assert(l.subrange(p, p + 9)[7] == '0');
        assert forall|k: int| 0 <= k < 9 implies l[p + k] == "return 0;"@[k] by {
            assert(l.subrange(p, p + 9)[k] == l[p + k]);
        }
        let r = replaced_first(l, "return 0;"@, "return 1;"@);
        assert(r.len() == m.len());
        assert forall|k: int| 0 <= k < r.len() implies r[k] == m[k] by {
            if p <= k < p + 9 {
                assert(r[k] == "return 1;"@[k - p]);
                assert(l[p + (k - p)] == "return 0;"@[k - p]);
            }
        }
        assert(r =~= m);
        lemma_lines_are_lines(s);
        let us = ls.update(b, m);
        assert(is_line(l) ==> is_line(m));
        assert(is_open_line(l) ==> is_open_line(m));
        assert(are_lines(us)) by {
            assert forall|i: int| 0 <= i < us.len() implies us[i] == (if i == b {
                m
            } else {
                #[trigger] ls[i]
            }) by {}
        }
        lemma_joined_lines(us);
    }
}

/// The patched tree is committed under the name of the bot, as author and as committer.
pub proof fn law_the_bot_commits(common: Seq<char>)
    ensures
        ({
            let c = commit_model(common);
            let bot = "github-actions[bot]"@;
            &&& c.cwd == common
            &&& c.words.len() == 4
            &&& c.words[0] == "git"@ && c.words[1] == "commit"@ && c.words[2] == "-m"@
            &&& c.env.len() == 4
            &&& c.env.contains(("GIT_AUTHOR_NAME"@, bot))
            &&& c.env.contains(("GIT_COMMITTER_NAME"@, bot))
            &&& c.env.contains(("GIT_AUTHOR_EMAIL"@, bot + "@users.noreply.github.com"@))
            &&& c.env.contains(("GIT_COMMITTER_EMAIL"@, bot + "@users.noreply.github.com"@))
        }),
{
    reveal_strlit("github-actions[bot]");
    reveal_strlit("@users.noreply.github.com");
    reveal_strlit("github-actions[bot]@users.noreply.github.com");
    let c = commit_model(common);
    let bot = "github-actions[bot]"@;
    assert("github-actions[bot]@users.noreply.github.com"@ =~= bot
        + "@users.noreply.github.com"@);
    assert(c.env[0] == ("GIT_AUTHOR_NAME"@, bot));
    assert(c.env[1] == ("GIT_AUTHOR_EMAIL"@, bot + "@users.noreply.github.com"@));
    assert(c.env[2] == ("GIT_COMMITTER_NAME"@, bot));
    assert(c.env[3] == ("GIT_COMMITTER_EMAIL"@, bot + "@users.noreply.github.com"@));
}

/// Neither flag can overlap with itself.
proof fn lemma_flags_do_not_overlap()
    ensures
        "-dirty"@.len() > 0,
        "-maybe-dirty"@.len() > 0,
        forall|d: int| 0 < d < "-dirty"@.len() ==> #[trigger] clash("-dirty"@, "-dirty"@, d),
        forall|d: int|
            0 < d < "-maybe-dirty"@.len() ==> #[trigger] clash(
                "-maybe-dirty"@,
                "-maybe-dirty"@,
                d,
            ),
{
    reveal_strlit("-dirty");
    reveal_strlit("-maybe-dirty");
    let (x, y) = ("-dirty"@, "-maybe-dirty"@);
    assert forall|d: int| 0 < d < x.len() implies #[trigger] clash(x, x, d) by {
        assert(x[d] != x[d - d]);
    }
    assert forall|d: int| 0 < d < y.len() implies #[trigger] clash(y, y, d) by {
        if d == 6 {
            assert(y[7] != y[7 - d]);
        } else {
            assert(y[d] != y[d - d]);
        }
    }
}

/// Every flag is dropped from the version script, and nothing else: a script without a
/// flag stays, and a flag goes from between what stands on its two sides.
pub proof fn law_dirty_flags_are_dropped(a: Seq<char>, b: Seq<char>)
    ensures
        dirty_dropped(a + "-dirty"@ + b) == dirty_dropped(a) + dirty_dropped(b),
        !occurs(a, "-dirty"@) ==> dirty_dropped(a) == a,
{
    reveal_strlit("");
    lemma_flags_do_not_overlap();
    law_replacement_goes_piece_by_piece(a, b, "-dirty"@, ""@);
    assert(dirty_dropped(a) + ""@ + dirty_dropped(b) =~= dirty_dropped(a) + dirty_dropped(b));
    if !occurs(a, "-dirty"@) {
        law_replace_needs_the_pattern(a, "-dirty"@, ""@);
    }
}

/// The rules without the flag, of a line and what is behind it.
proof fn lemma_stamp_of_a_line(l: Seq<char>, rest: Seq<char>)
    requires
        is_line(l),
    ensures
        stamp_cleaned(l + rest) == stamp_line_cleaned(l) + stamp_cleaned(rest),
{
    let f = |l: Seq<char>| stamp_line_cleaned(l);
    lemma_lines_of_sum(l, rest);
    lemma_joined_lines(seq![l]);
    assert(joined(seq![l].drop_last()) =~= Seq::<char>::empty());
    assert(joined(seq![l]) =~= l);
    assert(lines_of(l + rest) == seq![l] + lines_of(rest));
    assert(lines_of(l + rest).map_values(f) =~= seq![stamp_line_cleaned(l)] + lines_of(
        rest,
    ).map_values(f));
    lemma_joined_sum(seq![stamp_line_cleaned(l)], lines_of(rest).map_values(f));
    let one = seq![stamp_line_cleaned(l)];
    assert(joined(one.drop_last()) =~= Seq::<char>::empty());
    assert(joined(one) =~= stamp_line_cleaned(l));
}

/// The stamping rules are cleaned line by line. A line that speaks of the version command
/// loses its flag and nothing else; every other line, and one without the flag, stays.
pub proof fn law_stamp_flags_are_dropped_from_the_command(
    a: Seq<char>,
    b: Seq<char>,
    l: Seq<char>,
    rest: Seq<char>,
)
    requires
        is_line(l),
        !occurs(a, "-maybe-dirty"@),
        !occurs(b, "-maybe-dirty"@),
    ensures
        stamp_cleaned(Seq::<char>::empty()) == Seq::<char>::empty(),
        !occurs(l, "-maybe-dirty"@) || !occurs(l, "stable_scmversion_cmd"@) ==> stamp_cleaned(
            l + rest,
        ) == l + stamp_cleaned(rest),
        l == a + "-maybe-dirty"@ + b && occurs(l, "stable_scmversion_cmd"@) ==> stamp_cleaned(
            l + rest,
        ) == a + b + stamp_cleaned(rest),
{
    reveal_strlit("");
    lemma_flags_do_not_overlap();
    lemma_stamp_of_a_line(l, rest);
    if !occurs(l, "-maybe-dirty"@) {
        law_replace_needs_the_pattern(l, "-maybe-dirty"@, ""@);
    }
    if l == a + "-maybe-dirty"@ + b {
        law_replacement_goes_piece_by_piece(a, b, "-maybe-dirty"@, ""@);
        law_replace_needs_the_pattern(a, "-maybe-dirty"@, ""@);
        law_replace_needs_the_pattern(b, "-maybe-dirty"@, ""@);
        assert(a + ""@ + b =~= a + b);
    }
    let f = |l: Seq<char>| stamp_line_cleaned(l);
    assert(lines_of(Seq::<char>::empty()).map_values(f) =~= Seq::<Seq<char>>::empty());
}

} // verus!
