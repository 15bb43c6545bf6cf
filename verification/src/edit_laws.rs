//! What the edits that go by patterns promise, whatever the patterns match.
use crate::edits::{
    braced_vma_end, fdinfo_shimmed, group_text, pad_mask_cleared, this_len_answer, this_len_widened,
    vma_end_remembered,
};
use crate::regexes::{
    answers_by, groups_of, ignored_mask_pattern, inode_comment_pattern, inotify_fdinfo_pattern,
    last_vma_end_pattern, mask_arguments_pattern, mask_local_pattern, match_end, match_fits,
    match_start, pad_mask_pattern, regex_matches, same_answer, spliced, spliced_upto,
    this_len_pattern, Spans,
};
use crate::rewrite::line_start;
use crate::text::{begins, ends_in, occurs, occurs_at};
use vstd::prelude::*;

verus! {

/// A text without a match stays.
proof fn lemma_nothing_spliced(s: Seq<char>, answers: Seq<Option<Seq<char>>>)
    ensures
        spliced(s, Seq::<Spans>::empty(), answers) == s,
{
    reveal_with_fuel(spliced_upto, 2);
    assert(Seq::<char>::empty() + s.skip(0) =~= s);
}

/// One match takes its answer, and the text on its two sides stays.
proof fn lemma_one_spliced(s: Seq<char>, ms: Seq<Spans>, answers: Seq<Option<Seq<char>>>)
    requires
        ms.len() == 1,
        answers.len() == 1,
        match_fits(ms[0], s.len() as int),
    ensures
        spliced(s, ms, answers) == (match answers[0] {
            Some(a) => s.take(match_start(ms[0])) + a + s.skip(match_end(ms[0])),
            None => s,
        }),
{
    reveal_with_fuel(spliced_upto, 3);
    let (x, y) = (match_start(ms[0]), match_end(ms[0]));
    assert(ms[0][0] is Some);
    match answers[0] {
        Some(a) => {
            assert(spliced(s, ms, answers) =~= s.take(x) + a + s.skip(y));
        },
        None => {
            assert(spliced(s, ms, answers) =~= s);
        },
    }
}

/// The length of a read is widened exactly where its two types agree, whatever they are.
pub proof fn law_agreeing_types_are_widened(groups: Seq<Option<Seq<char>>>)
    requires
        groups.len() == 3,
    ensures
        groups[1] is Some && groups[1] == groups[2] ==> this_len_answer(groups) == Some(
            "size_t this_len = min_t(size_t,"@,
        ),
        groups[1] is None || groups[1] != groups[2] ==> this_len_answer(groups) is None,
{
}

/// One declaration of the length is rewritten in its place where its types agree. A text
/// without one stays, and so does one whose types differ.
pub proof fn law_one_length_is_widened(s: Seq<char>, a: Seq<char>, b: Seq<char>)
    ensures
        ({
            let ms = regex_matches(this_len_pattern(), s);
            let g = groups_of(s, ms[0]);
            &&& ms.len() == 0 ==> this_len_widened(s) == s
            &&& ms.len() == 1 && ms[0].len() == 3 && match_fits(ms[0], s.len() as int) && g[1]
                == Some(a) && g[2] == Some(b) ==> this_len_widened(s) == (if a == b {
                s.take(match_start(ms[0])) + "size_t this_len = min_t(size_t,"@ + s.skip(
                    match_end(ms[0]),
                )
            } else {
                s
            })
        }),
{
    let ms = regex_matches(this_len_pattern(), s);
    let f = |g: Seq<Option<Seq<char>>>| this_len_answer(g);
    if ms.len() == 0 {
        assert(ms =~= Seq::<Spans>::empty());
        lemma_nothing_spliced(s, answers_by(s, ms, f));
    } else if ms.len() == 1 && match_fits(ms[0], s.len() as int) {
        lemma_one_spliced(s, ms, answers_by(s, ms, f));
        assert(answers_by(s, ms, f)[0] == this_len_answer(groups_of(s, ms[0])));
    }
}

/// One call that cleared the padding flags is rewritten in its place, and a text without
/// one stays.
pub proof fn law_one_call_is_rewritten(s: Seq<char>)
    ensures
        ({
            let ms = regex_matches(pad_mask_pattern(), s);
            &&& ms.len() == 0 ==> pad_mask_cleared(s) == s
            &&& ms.len() == 1 && match_fits(ms[0], s.len() as int) ==> pad_mask_cleared(s)
                == s.take(match_start(ms[0])) + "                new_vma->vm_flags &= ~VM_PAD_MASK;"@
                + s.skip(match_end(ms[0]))
        }),
{
    let ms = regex_matches(pad_mask_pattern(), s);
    let r = "                new_vma->vm_flags &= ~VM_PAD_MASK;"@;
    if ms.len() == 0 {
        assert(ms =~= Seq::<Spans>::empty());
        lemma_nothing_spliced(s, same_answer(ms, r));
    } else if ms.len() == 1 && match_fits(ms[0], s.len() as int) {
        lemma_one_spliced(s, ms, same_answer(ms, r));
    }
}

/// Nothing in the text prints a mark in the way that is rewritten.
pub open spec fn prints_no_mask(s: Seq<char>) -> bool {
    &&& regex_matches(inode_comment_pattern(), s).len() == 0
    &&& regex_matches(mask_local_pattern(), s).len() == 0
    &&& regex_matches(mask_arguments_pattern(), s).len() == 0
    &&& regex_matches(ignored_mask_pattern(), s).len() == 0
}

/// Where nothing else is to be rewritten, the helper that gives the mask which the user set
/// is put in front of the line of the function that prints the marks. Without that
/// function the text stays.
pub proof fn law_mask_helper_comes_first(s: Seq<char>)
    ensures
        ({
            let ms = regex_matches(inotify_fdinfo_pattern(), s);
            let at = line_start(s, match_start(ms[0]));
            &&& prints_no_mask(s) && ms.len() == 0 ==> fdinfo_shimmed(s) == s
            &&& prints_no_mask(s) && ms.len() > 0 && match_fits(ms[0], s.len() as int)
                ==> fdinfo_shimmed(s) == s.take(at)
                + "static inline u32 inotify_mark_user_mask(struct fsnotify_mark *mark)\n{\n\treturn mark->mask & IN_ALL_EVENTS;\n}\n\n"@
                + s.skip(at)
        }),
{
    let none = Seq::<Spans>::empty();
    if prints_no_mask(s) {
        assert(regex_matches(inode_comment_pattern(), s) =~= none);
        assert(regex_matches(mask_local_pattern(), s) =~= none);
        assert(regex_matches(mask_arguments_pattern(), s) =~= none);
        assert(regex_matches(ignored_mask_pattern(), s) =~= none);
        assert forall|answers: Seq<Option<Seq<char>>>| #[trigger]
            spliced(s, none, answers) == s by {
            lemma_nothing_spliced(s, answers);
        }
    }
}

/// The end of the last mapping is remembered at the first place, and the text on its two
/// sides stays. A text without such a place stays.
pub proof fn law_end_is_remembered_at_the_first_place(s: Seq<char>)
    ensures
        ({
            let ms = regex_matches(last_vma_end_pattern(), s);
            &&& ms.len() == 0 ==> vma_end_remembered(s) == s
            &&& ms.len() > 0 && match_fits(ms[0], s.len() as int) ==> {
                let (x, y) = (match_start(ms[0]), match_end(ms[0]));
                let n = vma_end_remembered(s).len() - s.skip(y).len();
                &&& vma_end_remembered(s).take(x) == s.take(x)
                &&& vma_end_remembered(s).skip(n) == s.skip(y)
                &&& occurs(vma_end_remembered(s).subrange(x, n), "last_vma_end = vma->vm_end;\n"@)
            }
        }),
{
    let ms = regex_matches(last_vma_end_pattern(), s);
    if ms.len() > 0 && match_fits(ms[0], s.len() as int) {
        let a = braced_vma_end(groups_of(s, ms[0]));
        lemma_end_is_there(groups_of(s, ms[0]));
        let (x, y) = (match_start(ms[0]), match_end(ms[0]));
        let out = vma_end_remembered(s);
        let n = out.len() - s.skip(y).len();
        assert(ms[0][0] is Some);
        assert(out == s.take(x) + a + s.skip(y));
        assert(out.take(x) =~= s.take(x));
        assert(out.skip(n) =~= s.skip(y));
        assert(out.subrange(x, n) =~= a);
    }
}

/// What is put in remembers the end.
proof fn lemma_end_is_there(groups: Seq<Option<Seq<char>>>)
    ensures
        occurs(braced_vma_end(groups), "last_vma_end = vma->vm_end;\n"@),
{
    reveal_strlit(" {\n");
    reveal_strlit("\n");
    reveal_strlit("\t\tlast_vma_end = vma->vm_end;\n");
    reveal_strlit("last_vma_end = vma->vm_end;\n");
    let out = braced_vma_end(groups);
    let n = "last_vma_end = vma->vm_end;\n"@;
    let (a, b, c) = (group_text(groups, 1), group_text(groups, 2), group_text(groups, 3));
    let at = (a + " {\n"@ + b + "\n"@ + c).len() as int + 2;
    assert(out.subrange(at, at + n.len()) =~= n);
    assert(occurs_at(out, n, at));
}

/// The test for the end of the last mapping gets braces: its line and the line behind it
/// stay, the end of the mapping is remembered behind them, and the braces are closed.
pub proof fn law_end_is_remembered_in_braces(
    whole: Option<Seq<char>>,
    test: Seq<char>,
    body: Seq<char>,
    indent: Seq<char>,
)
    ensures
        ({
            let out = braced_vma_end(seq![whole, Some(test), Some(body), Some(indent)]);
            &&& begins(out, test + " {\n"@ + body + "\n"@)
            &&& occurs(out, "last_vma_end = vma->vm_end;\n"@)
            &&& ends_in(out, '}')
        }),
{
    reveal_strlit(" {\n");
    reveal_strlit("\n");
    reveal_strlit("}");
    reveal_strlit("\t}\n");
    reveal_strlit("\t\tlast_vma_end = vma->vm_end;\n");
    reveal_strlit("last_vma_end = vma->vm_end;\n");
    let out = braced_vma_end(seq![whole, Some(test), Some(body), Some(indent)]);
    let front = test + " {\n"@ + body + "\n"@;
    assert(out.subrange(0, front.len() as int) =~= front);
    let n = "last_vma_end = vma->vm_end;\n"@;
    let at = (front + indent).len() as int + 2;
    assert(out.subrange(at, at + n.len()) =~= n);
    assert(occurs_at(out, n, at));
    assert(out.last() == '}');
}

} // verus!
