//! What the fix of `selinux_hide.c` promises.
use crate::selinux::{addresses_tested, pointers_compared, selinux_fixed, unstatic};
use crate::text::{begins, first_at, lemma_find_from, occurs, occurs_at, replaced, replaced_first};
use crate::text_laws::{
    law_replaced_text_is_gone, law_replacement_brings_nothing_else, law_replacement_is_there,
    law_replacement_keeps_the_rest, lemma_apart_by_a_mark, lemma_apart_by_their_fronts,
    lemma_apart_by_two, lemma_apart_is_mutual, lemma_front_is_not_new, lemma_occurs_skip,
};
use vstd::prelude::*;

verus! {

/// No line of `s` begins with a static definition of `name`.
pub open spec fn is_visible(s: Seq<char>, name: Seq<char>) -> bool {
    !occurs(s, "\nstatic "@ + name) && !begins(s, "static "@ + name)
}

/// The name of a helper with its type: no line feed, and it begins with an `i` or a `v`.
spec fn is_helper(name: Seq<char>) -> bool {
    &&& name.len() > 1
    &&& name[0] == 'i' || name[0] == 'v'
    &&& forall|k: int| 0 <= k < name.len() ==> #[trigger] name[k] != '\n'
}

/// What a replacement at the front of a text leaves.
proof fn lemma_front_replaced(a: Seq<char>, name: Seq<char>)
    requires
        begins(a, "static "@ + name),
    ensures
        replaced_first(a, "static "@ + name, name) == a.skip(7),
{
    reveal_strlit("static ");
    let w = "static "@ + name;
    lemma_find_from(a, w, 0);
    assert(first_at(a, w) == Some(0int));
    assert(a.subrange(0, w.len() as int) == w);
    let r = replaced_first(a, w, name);
    assert forall|k: int| 0 <= k < r.len() implies r[k] == a.skip(7)[k] by {
        if k < name.len() {
            assert(a.subrange(0, w.len() as int)[k + 7] == w[k + 7]);
        }
    }
    assert(r =~= a.skip(7));
}

/// A definition that was made visible is visible.
proof fn lemma_made_visible(s: Seq<char>, name: Seq<char>)
    requires
        is_helper(name),
    ensures
        is_visible(unstatic(s, name), name),
{
    reveal_strlit("static ");
    reveal_strlit("\nstatic ");
    reveal_strlit("\n");
    let (from, to) = ("\nstatic "@ + name, "\n"@ + name);
    let a = replaced(s, from, to);
    lemma_apart_by_their_fronts(from, to, 1);
    law_replaced_text_is_gone(s, from, to);
    if begins(a, "static "@ + name) {
        lemma_front_replaced(a, name);
        let r = a.skip(7);
        if occurs(r, from) {
            lemma_occurs_skip(a, 7, from);
        }
        if begins(r, "static "@ + name) {
            assert(a.subrange(0, 7 + name.len() as int)[7] == name[0]);
            assert(r.subrange(0, 7 + name.len() as int)[0] == 's');
        }
    }
}

/// What is visible stays so when another definition is made visible.
proof fn lemma_stays_visible(s: Seq<char>, name: Seq<char>, other: Seq<char>)
    requires
        is_helper(name),
        is_helper(other),
        is_visible(s, name),
    ensures
        is_visible(unstatic(s, other), name),
{
    reveal_strlit("static ");
    reveal_strlit("\nstatic ");
    reveal_strlit("\n");
    let (from, to) = ("\nstatic "@ + other, "\n"@ + other);
    let (n, w) = ("\nstatic "@ + name, "static "@ + name);
    let a = replaced(s, from, to);
    lemma_apart_by_their_fronts(n, to, 1);
    law_replacement_brings_nothing_else(s, from, to, n);
    if begins(a, w) {
        lemma_front_is_not_new(s, from, to, w);
    }
    if begins(a, "static "@ + other) {
        lemma_front_replaced(a, other);
        let r = a.skip(7);
        if occurs(r, n) {
            lemma_occurs_skip(a, 7, n);
        }
        if begins(r, w) {
            assert(a.subrange(0, 7 + other.len() as int)[7] == other[0]);
            assert(r.subrange(0, 7 + name.len() as int)[0] == 's');
        }
    }
}

/// A test that is gone stays so when a definition is made visible.
proof fn lemma_stays_gone(s: Seq<char>, other: Seq<char>, n: Seq<char>)
    requires
        is_helper(other),
        n.len() > 1,
        n[0] == 'i',
        n[1] == 'f',
        forall|k: int| 0 <= k < n.len() ==> #[trigger] n[k] != '\n',
        forall|k: int| 0 <= k < other.len() ==> #[trigger] other[k] != 'f',
        other[other.len() - 1] != 'i',
        !occurs(s, n),
    ensures
        !occurs(unstatic(s, other), n),
{
    reveal_strlit("static ");
    reveal_strlit("\nstatic ");
    reveal_strlit("\n");
    let (from, to) = ("\nstatic "@ + other, "\n"@ + other);
    let a = replaced(s, from, to);
    assert forall|k: int| 0 < k < to.len() - 1 implies #[trigger] to[k] != n[0] || to[k + 1]
        != n[1] by {
        assert(to[k + 1] == other[k]);
    }
    lemma_apart_by_two(n, to);
    law_replacement_brings_nothing_else(s, from, to, n);
    if begins(a, "static "@ + other) {
        lemma_front_replaced(a, other);
        if occurs(a.skip(7), n) {
            lemma_occurs_skip(a, 7, n);
        }
    }
}

proof fn lemma_helpers()
    ensures
        is_helper("int security_context_to_sid_with_policy"@),
        is_helper("int security_sid_to_context_with_policy"@),
        is_helper("void security_compute_av_user_with_policy"@),
        forall|k: int|
            0 <= k < "int security_context_to_sid_with_policy"@.len()
                ==> #[trigger] "int security_context_to_sid_with_policy"@[k] != 'f',
        forall|k: int|
            0 <= k < "int security_sid_to_context_with_policy"@.len()
                ==> #[trigger] "int security_sid_to_context_with_policy"@[k] != 'f',
        forall|k: int|
            0 <= k < "void security_compute_av_user_with_policy"@.len()
                ==> #[trigger] "void security_compute_av_user_with_policy"@[k] != 'f',
        "int security_context_to_sid_with_policy"@.last() == 'y',
        "int security_sid_to_context_with_policy"@.last() == 'y',
        "void security_compute_av_user_with_policy"@.last() == 'y',
{
    reveal_strlit("int security_context_to_sid_with_policy");
    reveal_strlit("int security_sid_to_context_with_policy");
    reveal_strlit("void security_compute_av_user_with_policy");
}

/// After the fix none of the three helpers is static at the front of a line.
pub proof fn law_helpers_are_visible(s: Seq<char>)
    ensures
        is_visible(selinux_fixed(s), "int security_context_to_sid_with_policy"@),
        is_visible(selinux_fixed(s), "int security_sid_to_context_with_policy"@),
        is_visible(selinux_fixed(s), "void security_compute_av_user_with_policy"@),
{
    let (x, y, z) = (
        "int security_context_to_sid_with_policy"@,
        "int security_sid_to_context_with_policy"@,
        "void security_compute_av_user_with_policy"@,
    );
    lemma_helpers();
    let a = if occurs(s, "extern void security_dump_masked_av_fn"@) {
        addresses_tested(s)
    } else if occurs(s, "if (security_dump_masked_av_fn"@) {
        pointers_compared(s)
    } else {
        s
    };
    let b = unstatic(a, x);
    let c = unstatic(b, y);
    lemma_made_visible(a, x);
    lemma_made_visible(b, y);
    lemma_made_visible(c, z);
    lemma_stays_visible(b, x, y);
    lemma_stays_visible(c, x, z);
    lemma_stays_visible(c, y, z);
}

/// Once the definitions were made visible, a test that was gone is still gone.
proof fn lemma_gone_for_good(a: Seq<char>, n: Seq<char>)
    requires
        n.len() > 1,
        n[0] == 'i',
        n[1] == 'f',
        forall|k: int| 0 <= k < n.len() ==> #[trigger] n[k] != '\n',
        !occurs(a, n),
    ensures
        !occurs(
            unstatic(
                unstatic(
                    unstatic(a, "int security_context_to_sid_with_policy"@),
                    "int security_sid_to_context_with_policy"@,
                ),
                "void security_compute_av_user_with_policy"@,
            ),
            n,
        ),
{
    let (x, y, z) = (
        "int security_context_to_sid_with_policy"@,
        "int security_sid_to_context_with_policy"@,
        "void security_compute_av_user_with_policy"@,
    );
    lemma_helpers();
    lemma_stays_gone(a, x, n);
    lemma_stays_gone(unstatic(a, x), y, n);
    lemma_stays_gone(unstatic(unstatic(a, x), y), z, n);
}

/// Where the hooks are functions, none is tested by its name after the fix, neither alone
/// nor against the null pointer.
pub proof fn law_functions_are_tested_by_address(s: Seq<char>)
    requires
        occurs(s, "extern void security_dump_masked_av_fn"@),
    ensures
        !occurs(selinux_fixed(s), "if (security_dump_masked_av_fn)"@),
        !occurs(selinux_fixed(s), "if (security_dump_masked_av_fn != NULL)"@),
        !occurs(selinux_fixed(s), "if (context_struct_compute_av_fn)"@),
        !occurs(selinux_fixed(s), "if (context_struct_compute_av_fn != NULL)"@),
{
    lemma_addresses(s);
    reveal_strlit("if (security_dump_masked_av_fn)");
    reveal_strlit("if (security_dump_masked_av_fn != NULL)");
    reveal_strlit("if (context_struct_compute_av_fn)");
    reveal_strlit("if (context_struct_compute_av_fn != NULL)");
    let a = addresses_tested(s);
    lemma_gone_for_good(a, "if (security_dump_masked_av_fn)"@);
    lemma_gone_for_good(a, "if (security_dump_masked_av_fn != NULL)"@);
    lemma_gone_for_good(a, "if (context_struct_compute_av_fn)"@);
    lemma_gone_for_good(a, "if (context_struct_compute_av_fn != NULL)"@);
}

proof fn lemma_addresses(s: Seq<char>)
    ensures
        !occurs(addresses_tested(s), "if (security_dump_masked_av_fn)"@),
        !occurs(addresses_tested(s), "if (security_dump_masked_av_fn != NULL)"@),
        !occurs(addresses_tested(s), "if (context_struct_compute_av_fn)"@),
        !occurs(addresses_tested(s), "if (context_struct_compute_av_fn != NULL)"@),
{
    let (p, p2) = ("if (security_dump_masked_av_fn)"@, "if (&security_dump_masked_av_fn)"@);
    let (q, q2) = (
        "if (security_dump_masked_av_fn != NULL)"@,
        "if (&security_dump_masked_av_fn != NULL)"@,
    );
    let (u, u2) = ("if (context_struct_compute_av_fn)"@, "if (&context_struct_compute_av_fn)"@);
    let (v, v2) = (
        "if (context_struct_compute_av_fn != NULL)"@,
        "if (&context_struct_compute_av_fn != NULL)"@,
    );
    let a = replaced(s, p, p2);
    let b = replaced(a, q, q2);
    let c = replaced(b, u, u2);
    reveal_strlit("if (security_dump_masked_av_fn)");
    reveal_strlit("if (&security_dump_masked_av_fn)");
    reveal_strlit("if (security_dump_masked_av_fn != NULL)");
    reveal_strlit("if (&security_dump_masked_av_fn != NULL)");
    reveal_strlit("if (context_struct_compute_av_fn)");
    reveal_strlit("if (&context_struct_compute_av_fn)");
    reveal_strlit("if (context_struct_compute_av_fn != NULL)");
    reveal_strlit("if (&context_struct_compute_av_fn != NULL)");
    lemma_apart_by_a_mark(p, p2, 30, 31, 1);
    lemma_apart_by_a_mark(q, q2, 31, 32, 1);
    lemma_apart_by_a_mark(u, u2, 2, 2, 4);
    lemma_apart_by_a_mark(v, v2, 33, 34, 1);
    lemma_apart_by_a_mark(p, q2, 0, 32, 32);
    lemma_apart_by_a_mark(p, u2, 2, 2, 4);
    lemma_apart_by_a_mark(q, u2, 0, 4, 4);
    lemma_apart_by_a_mark(p, v2, 2, 2, 4);
    lemma_apart_by_a_mark(q, v2, 31, 34, 3);
    lemma_apart_by_a_mark(u, v2, 2, 2, 4);
    law_replaced_text_is_gone(s, p, p2);
    law_replaced_text_is_gone(a, q, q2);
    law_replaced_text_is_gone(b, u, u2);
    law_replaced_text_is_gone(c, v, v2);
    law_replacement_brings_nothing_else(a, q, q2, p);
    law_replacement_brings_nothing_else(b, u, u2, p);
    law_replacement_brings_nothing_else(b, u, u2, q);
    law_replacement_brings_nothing_else(c, v, v2, p);
    law_replacement_brings_nothing_else(c, v, v2, q);
    law_replacement_brings_nothing_else(c, v, v2, u);
}

/// Where the hooks are pointers, none is tested by itself after the fix.
pub proof fn law_pointers_are_compared(s: Seq<char>)
    requires
        !occurs(s, "extern void security_dump_masked_av_fn"@),
        occurs(s, "if (security_dump_masked_av_fn"@),
    ensures
        !occurs(selinux_fixed(s), "if (security_dump_masked_av_fn)"@),
        !occurs(selinux_fixed(s), "if (context_struct_compute_av_fn)"@),
{
    let (p, p2) = (
        "if (security_dump_masked_av_fn)"@,
        "if (security_dump_masked_av_fn != NULL)"@,
    );
    let (u, u2) = (
        "if (context_struct_compute_av_fn)"@,
        "if (context_struct_compute_av_fn != NULL)"@,
    );
    reveal_strlit("if (security_dump_masked_av_fn)");
    reveal_strlit("if (security_dump_masked_av_fn != NULL)");
    reveal_strlit("if (context_struct_compute_av_fn)");
    reveal_strlit("if (context_struct_compute_av_fn != NULL)");
    let a = replaced(s, p, p2);
    lemma_apart_by_a_mark(p, p2, 0, 31, 31);
    lemma_apart_by_a_mark(u, u2, 2, 2, 32);
    lemma_apart_by_a_mark(p, u2, 2, 2, 4);
    law_replaced_text_is_gone(s, p, p2);
    law_replaced_text_is_gone(a, u, u2);
    law_replacement_brings_nothing_else(a, u, u2, p);
    lemma_gone_for_good(pointers_compared(s), p);
    lemma_gone_for_good(pointers_compared(s), u);
}

/// A test that is there stays so when a definition is made visible.
proof fn lemma_stays_there(s: Seq<char>, other: Seq<char>, n: Seq<char>)
    requires
        is_helper(other),
        n.len() > 1,
        n[0] == 'i',
        n[1] == 'f',
        forall|k: int| 0 <= k < n.len() ==> #[trigger] n[k] != '\n',
        forall|k: int| 0 <= k < other.len() ==> #[trigger] other[k] != 'f',
        other[other.len() - 1] != 'i',
        occurs(s, n),
    ensures
        occurs(unstatic(s, other), n),
{
    reveal_strlit("static ");
    reveal_strlit("\nstatic ");
    reveal_strlit("\n");
    let (from, to) = ("\nstatic "@ + other, "\n"@ + other);
    let a = replaced(s, from, to);
    assert forall|k: int| 0 < k < from.len() - 1 implies #[trigger] from[k] != n[0] || from[k + 1]
        != n[1] by {
        if k + 1 >= 8 {
            assert(from[k + 1] == other[k + 1 - 8]);
        }
    }
    lemma_apart_by_two(n, from);
    lemma_apart_is_mutual(n, from);
    law_replacement_keeps_the_rest(s, from, to, n);
    let w = "static "@ + other;
    if begins(a, w) {
        lemma_front_replaced(a, other);
        let i = choose|i: int| occurs_at(a, n, i);
        assert(a.subrange(i, i + n.len())[0] == 'i' && a.subrange(i, i + n.len())[1] == 'f');
        assert(a.subrange(0, w.len() as int) == w);
        if i < 7 {
            assert(a.subrange(0, w.len() as int)[i] == w[i]);
            assert(a.subrange(0, w.len() as int)[i + 1] == w[i + 1]);
        }
        let r = a.skip(7);
        assert(r.subrange(i - 7, i - 7 + n.len()) =~= a.subrange(i, i + n.len()));
        assert(occurs_at(r, n, i - 7));
    }
}

/// Once the definitions were made visible, a test that was there is still there.
proof fn lemma_there_for_good(a: Seq<char>, n: Seq<char>)
    requires
        n.len() > 1,
        n[0] == 'i',
        n[1] == 'f',
        forall|k: int| 0 <= k < n.len() ==> #[trigger] n[k] != '\n',
        occurs(a, n),
    ensures
        occurs(
            unstatic(
                unstatic(
                    unstatic(a, "int security_context_to_sid_with_policy"@),
                    "int security_sid_to_context_with_policy"@,
                ),
                "void security_compute_av_user_with_policy"@,
            ),
            n,
        ),
{
    let (x, y, z) = (
        "int security_context_to_sid_with_policy"@,
        "int security_sid_to_context_with_policy"@,
        "void security_compute_av_user_with_policy"@,
    );
    lemma_helpers();
    lemma_stays_there(a, x, n);
    lemma_stays_there(unstatic(a, x), y, n);
    lemma_stays_there(unstatic(unstatic(a, x), y), z, n);
}

/// What becomes of the tests of hooks that are functions: each is a test of the address.
proof fn lemma_addresses_there(s: Seq<char>)
    ensures
        occurs(s, "if (security_dump_masked_av_fn)"@) ==> occurs(
            addresses_tested(s),
            "if (&security_dump_masked_av_fn)"@,
        ),
        occurs(s, "if (security_dump_masked_av_fn != NULL)"@) ==> occurs(
            addresses_tested(s),
            "if (&security_dump_masked_av_fn != NULL)"@,
        ),
        occurs(s, "if (context_struct_compute_av_fn)"@) ==> occurs(
            addresses_tested(s),
            "if (&context_struct_compute_av_fn)"@,
        ),
        occurs(s, "if (context_struct_compute_av_fn != NULL)"@) ==> occurs(
            addresses_tested(s),
            "if (&context_struct_compute_av_fn != NULL)"@,
        ),
{
    let (p, p2) = ("if (security_dump_masked_av_fn)"@, "if (&security_dump_masked_av_fn)"@);
    let (q, q2) = (
        "if (security_dump_masked_av_fn != NULL)"@,
        "if (&security_dump_masked_av_fn != NULL)"@,
    );
    let (u, u2) = ("if (context_struct_compute_av_fn)"@, "if (&context_struct_compute_av_fn)"@);
    let (v, v2) = (
        "if (context_struct_compute_av_fn != NULL)"@,
        "if (&context_struct_compute_av_fn != NULL)"@,
    );
    let a = replaced(s, p, p2);
    let b = replaced(a, q, q2);
    let c = replaced(b, u, u2);
    reveal_strlit("if (security_dump_masked_av_fn)");
    reveal_strlit("if (&security_dump_masked_av_fn)");
    reveal_strlit("if (security_dump_masked_av_fn != NULL)");
    reveal_strlit("if (&security_dump_masked_av_fn != NULL)");
    reveal_strlit("if (context_struct_compute_av_fn)");
    reveal_strlit("if (&context_struct_compute_av_fn)");
    reveal_strlit("if (context_struct_compute_av_fn != NULL)");
    reveal_strlit("if (&context_struct_compute_av_fn != NULL)");
    lemma_apart_by_a_mark(p, q, 2, 30, 28);
    lemma_apart_by_a_mark(p, u, 2, 2, 4);
    lemma_apart_by_a_mark(p, v, 2, 2, 4);
    lemma_apart_by_a_mark(q, u, 3, 3, 4);
    lemma_apart_by_a_mark(q, v, 31, 33, 2);
    lemma_apart_by_a_mark(u, v, 2, 2, 32);
    lemma_apart_by_a_mark(q, p2, 38, 31, 0);
    lemma_apart_by_a_mark(u, p2, 32, 31, 0);
    lemma_apart_by_a_mark(v, p2, 40, 31, 0);
    lemma_apart_by_a_mark(u, q2, 2, 31, 29);
    lemma_apart_by_a_mark(v, q2, 33, 32, 0);
    lemma_apart_by_a_mark(v, u2, 0, 4, 4);
    if occurs(s, p) {
        law_replacement_is_there(s, p, p2);
        law_replacement_keeps_the_rest(a, q, q2, p2);
        law_replacement_keeps_the_rest(b, u, u2, p2);
        law_replacement_keeps_the_rest(c, v, v2, p2);
    }
    if occurs(s, q) {
        law_replacement_keeps_the_rest(s, p, p2, q);
        law_replacement_is_there(a, q, q2);
        law_replacement_keeps_the_rest(b, u, u2, q2);
        law_replacement_keeps_the_rest(c, v, v2, q2);
    }
    if occurs(s, u) {
        law_replacement_keeps_the_rest(s, p, p2, u);
        law_replacement_keeps_the_rest(a, q, q2, u);
        law_replacement_is_there(b, u, u2);
        law_replacement_keeps_the_rest(c, v, v2, u2);
    }
    if occurs(s, v) {
        law_replacement_keeps_the_rest(s, p, p2, v);
        law_replacement_keeps_the_rest(a, q, q2, v);
        law_replacement_keeps_the_rest(b, u, u2, v);
        law_replacement_is_there(c, v, v2);
    }
}

/// Where the hooks are functions, every test of one by its name is a test of its address
/// after the fix.
pub proof fn law_addresses_take_the_place_of_names(s: Seq<char>)
    requires
        occurs(s, "extern void security_dump_masked_av_fn"@),
    ensures
        occurs(s, "if (security_dump_masked_av_fn)"@) ==> occurs(
            selinux_fixed(s),
            "if (&security_dump_masked_av_fn)"@,
        ),
        occurs(s, "if (security_dump_masked_av_fn != NULL)"@) ==> occurs(
            selinux_fixed(s),
            "if (&security_dump_masked_av_fn != NULL)"@,
        ),
        occurs(s, "if (context_struct_compute_av_fn)"@) ==> occurs(
            selinux_fixed(s),
            "if (&context_struct_compute_av_fn)"@,
        ),
        occurs(s, "if (context_struct_compute_av_fn != NULL)"@) ==> occurs(
            selinux_fixed(s),
            "if (&context_struct_compute_av_fn != NULL)"@,
        ),
{
    lemma_addresses_there(s);
    reveal_strlit("if (&security_dump_masked_av_fn)");
    reveal_strlit("if (&security_dump_masked_av_fn != NULL)");
    reveal_strlit("if (&context_struct_compute_av_fn)");
    reveal_strlit("if (&context_struct_compute_av_fn != NULL)");
    let a = addresses_tested(s);
    if occurs(s, "if (security_dump_masked_av_fn)"@) {
        lemma_there_for_good(a, "if (&security_dump_masked_av_fn)"@);
    }
    if occurs(s, "if (security_dump_masked_av_fn != NULL)"@) {
        lemma_there_for_good(a, "if (&security_dump_masked_av_fn != NULL)"@);
    }
    if occurs(s, "if (context_struct_compute_av_fn)"@) {
        lemma_there_for_good(a, "if (&context_struct_compute_av_fn)"@);
    }
    if occurs(s, "if (context_struct_compute_av_fn != NULL)"@) {
        lemma_there_for_good(a, "if (&context_struct_compute_av_fn != NULL)"@);
    }
}

/// Where the hooks are pointers, every test of one by itself is a comparison after the
/// fix.
pub proof fn law_comparisons_take_the_place_of_tests(s: Seq<char>)
    requires
        !occurs(s, "extern void security_dump_masked_av_fn"@),
        occurs(s, "if (security_dump_masked_av_fn"@),
    ensures
        occurs(s, "if (security_dump_masked_av_fn)"@) ==> occurs(
            selinux_fixed(s),
            "if (security_dump_masked_av_fn != NULL)"@,
        ),
        occurs(s, "if (context_struct_compute_av_fn)"@) ==> occurs(
            selinux_fixed(s),
            "if (context_struct_compute_av_fn != NULL)"@,
        ),
{
    let (p, q) = ("if (security_dump_masked_av_fn)"@, "if (security_dump_masked_av_fn != NULL)"@);
    let (u, v) = (
        "if (context_struct_compute_av_fn)"@,
        "if (context_struct_compute_av_fn != NULL)"@,
    );
    reveal_strlit("if (security_dump_masked_av_fn)");
    reveal_strlit("if (security_dump_masked_av_fn != NULL)");
    reveal_strlit("if (context_struct_compute_av_fn)");
    reveal_strlit("if (context_struct_compute_av_fn != NULL)");
    let a = replaced(s, p, q);
    lemma_apart_by_a_mark(p, u, 2, 2, 4);
    lemma_apart_by_a_mark(u, q, 2, 30, 28);
    if occurs(s, p) {
        law_replacement_is_there(s, p, q);
        law_replacement_keeps_the_rest(a, u, v, q);
        lemma_there_for_good(pointers_compared(s), q);
    }
    if occurs(s, u) {
        law_replacement_keeps_the_rest(s, p, q, u);
        law_replacement_is_there(a, u, v);
        lemma_there_for_good(pointers_compared(s), v);
    }
}

/// A definition at the front of a line that is made visible is there without its `static`.
proof fn lemma_visible_there(s: Seq<char>, name: Seq<char>)
    requires
        is_helper(name),
        occurs(s, "\nstatic "@ + name),
    ensures
        occurs(unstatic(s, name), "\n"@ + name),
{
    reveal_strlit("static ");
    reveal_strlit("\nstatic ");
    reveal_strlit("\n");
    let (from, to) = ("\nstatic "@ + name, "\n"@ + name);
    law_replacement_is_there(s, from, to);
    let a = replaced(s, from, to);
    if begins(a, "static "@ + name) {
        lemma_front_replaced(a, name);
        lemma_feed_is_behind(a, "static "@ + name, to);
    }
}

/// What begins with a line feed is behind a front that holds none.
proof fn lemma_feed_is_behind(a: Seq<char>, w: Seq<char>, n: Seq<char>)
    requires
        begins(a, w),
        w.len() >= 7,
        forall|k: int| 0 <= k < w.len() ==> #[trigger] w[k] != '\n',
        n.len() > 0,
        n[0] == '\n',
        occurs(a, n),
    ensures
        occurs(a.skip(7), n),
{
    let i = choose|i: int| occurs_at(a, n, i);
    assert(a.subrange(i, i + n.len())[0] == '\n');
    assert(a.subrange(0, w.len() as int) == w);
    if i < 7 {
        assert(a.subrange(0, w.len() as int)[i] == w[i]);
    }
    let r = a.skip(7);
    assert(r.subrange(i - 7, i - 7 + n.len()) =~= a.subrange(i, i + n.len()));
    assert(occurs_at(r, n, i - 7));
}

/// A text that begins with a line feed and goes on otherwise than the definition stays
/// when another definition is made visible.
proof fn lemma_line_stays(s: Seq<char>, other: Seq<char>, n: Seq<char>, m: int)
    requires
        is_helper(other),
        n.len() > 1,
        n[0] == '\n',
        forall|k: int| 0 < k < n.len() ==> #[trigger] n[k] != '\n',
        0 <= m < n.len(),
        m < 8 + other.len(),
        n[m] != ("\nstatic "@ + other)[m],
        occurs(s, n),
    ensures
        occurs(unstatic(s, other), n),
{
    reveal_strlit("static ");
    reveal_strlit("\nstatic ");
    reveal_strlit("\n");
    let (from, to) = ("\nstatic "@ + other, "\n"@ + other);
    let a = replaced(s, from, to);
    lemma_apart_by_their_fronts(from, n, m);
    law_replacement_keeps_the_rest(s, from, to, n);
    if begins(a, "static "@ + other) {
        lemma_front_replaced(a, other);
        lemma_feed_is_behind(a, "static "@ + other, n);
    }
}

/// A static definition stays where tests of hooks are replaced.
proof fn lemma_definition_stays(s: Seq<char>, from: Seq<char>, to: Seq<char>, name: Seq<char>)
    requires
        is_helper(name),
        from.len() > 1,
        from[0] == 'i',
        from[1] == 'f',
        forall|k: int| 0 <= k < from.len() ==> #[trigger] from[k] != '\n',
        forall|k: int| 0 <= k < name.len() ==> #[trigger] name[k] != 'f',
        name[name.len() - 1] != 'i',
        occurs(s, "\nstatic "@ + name),
    ensures
        occurs(replaced(s, from, to), "\nstatic "@ + name),
{
    reveal_strlit("\nstatic ");
    let n = "\nstatic "@ + name;
    assert forall|k: int| 0 < k < n.len() - 1 implies #[trigger] n[k] != from[0] || n[k + 1]
        != from[1] by {
        if k + 1 >= 8 {
            assert(n[k + 1] == name[k + 1 - 8]);
        }
    }
    lemma_apart_by_two(from, n);
    law_replacement_keeps_the_rest(s, from, to, n);
}

/// A static definition stays where hooks are tested as the compiler wants it.
proof fn lemma_definition_stays_in_tests(s: Seq<char>, name: Seq<char>)
    requires
        is_helper(name),
        forall|k: int| 0 <= k < name.len() ==> #[trigger] name[k] != 'f',
        name[name.len() - 1] != 'i',
        occurs(s, "\nstatic "@ + name),
    ensures
        occurs(addresses_tested(s), "\nstatic "@ + name),
        occurs(pointers_compared(s), "\nstatic "@ + name),
{
    let (p, p2) = ("if (security_dump_masked_av_fn)"@, "if (&security_dump_masked_av_fn)"@);
    let (q, q2) = (
        "if (security_dump_masked_av_fn != NULL)"@,
        "if (&security_dump_masked_av_fn != NULL)"@,
    );
    let (u, u2) = ("if (context_struct_compute_av_fn)"@, "if (&context_struct_compute_av_fn)"@);
    let (v, v2) = (
        "if (context_struct_compute_av_fn != NULL)"@,
        "if (&context_struct_compute_av_fn != NULL)"@,
    );
    reveal_strlit("if (security_dump_masked_av_fn)");
    reveal_strlit("if (security_dump_masked_av_fn != NULL)");
    reveal_strlit("if (context_struct_compute_av_fn)");
    reveal_strlit("if (context_struct_compute_av_fn != NULL)");
    let a = replaced(s, p, p2);
    let b = replaced(a, q, q2);
    let c = replaced(b, u, u2);
    lemma_definition_stays(s, p, p2, name);
    lemma_definition_stays(a, q, q2, name);
    lemma_definition_stays(b, u, u2, name);
    lemma_definition_stays(c, v, v2, name);
    lemma_definition_stays(s, p, q, name);
    lemma_definition_stays(replaced(s, p, q), u, v, name);
}

/// A static definition of a helper at the front of a line is there without its `static`
/// after the fix.
pub proof fn law_definitions_lose_their_static(s: Seq<char>)
    ensures
        occurs(s, "\nstatic int security_context_to_sid_with_policy"@) ==> occurs(
            selinux_fixed(s),
            "\nint security_context_to_sid_with_policy"@,
        ),
        occurs(s, "\nstatic int security_sid_to_context_with_policy"@) ==> occurs(
            selinux_fixed(s),
            "\nint security_sid_to_context_with_policy"@,
        ),
        occurs(s, "\nstatic void security_compute_av_user_with_policy"@) ==> occurs(
            selinux_fixed(s),
            "\nvoid security_compute_av_user_with_policy"@,
        ),
{
    let (x, y, z) = (
        "int security_context_to_sid_with_policy"@,
        "int security_sid_to_context_with_policy"@,
        "void security_compute_av_user_with_policy"@,
    );
    lemma_helpers();
    reveal_strlit("\n");
    reveal_strlit("\nstatic ");
    reveal_strlit("int security_context_to_sid_with_policy");
    reveal_strlit("int security_sid_to_context_with_policy");
    reveal_strlit("void security_compute_av_user_with_policy");
    reveal_strlit("\nstatic int security_context_to_sid_with_policy");
    reveal_strlit("\nstatic int security_sid_to_context_with_policy");
    reveal_strlit("\nstatic void security_compute_av_user_with_policy");
    reveal_strlit("\nint security_context_to_sid_with_policy");
    reveal_strlit("\nint security_sid_to_context_with_policy");
    reveal_strlit("\nvoid security_compute_av_user_with_policy");
    assert("\nstatic "@ + x =~= "\nstatic int security_context_to_sid_with_policy"@);
    assert("\nstatic "@ + y =~= "\nstatic int security_sid_to_context_with_policy"@);
    assert("\nstatic "@ + z =~= "\nstatic void security_compute_av_user_with_policy"@);
    assert("\n"@ + x =~= "\nint security_context_to_sid_with_policy"@);
    assert("\n"@ + y =~= "\nint security_sid_to_context_with_policy"@);
    assert("\n"@ + z =~= "\nvoid security_compute_av_user_with_policy"@);
    let a = if occurs(s, "extern void security_dump_masked_av_fn"@) {
        addresses_tested(s)
    } else if occurs(s, "if (security_dump_masked_av_fn"@) {
        pointers_compared(s)
    } else {
        s
    };
    let b = unstatic(a, x);
    let c = unstatic(b, y);
    if occurs(s, "\nstatic "@ + x) {
        lemma_definition_stays_in_tests(s, x);
        lemma_visible_there(a, x);
        lemma_line_stays(b, y, "\n"@ + x, 1);
        lemma_line_stays(c, z, "\n"@ + x, 1);
    }
    if occurs(s, "\nstatic "@ + y) {
        lemma_definition_stays_in_tests(s, y);
        lemma_line_stays(a, x, "\nstatic "@ + y, 21);
        lemma_visible_there(b, y);
        lemma_line_stays(c, z, "\n"@ + y, 1);
    }
    if occurs(s, "\nstatic "@ + z) {
        lemma_definition_stays_in_tests(s, z);
        lemma_line_stays(a, x, "\nstatic "@ + z, 8);
        lemma_line_stays(b, y, "\nstatic "@ + z, 8);
        lemma_visible_there(c, z);
    }
}

} // verus!
