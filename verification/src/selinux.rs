//! The fix of `selinux_hide.c` for newer compilers.
use crate::ctx::Ctx;
use crate::family::{kernel_of, law_kernel_numbers_are_those_of_the_series, Family};
use crate::text::{
    begins, contains, decimal, occurs, replace, replace_first, replaced, replaced_first,
    starts_with, texts,
};
use crate::version::{exceeds_at, key_at, key_ge, key_of, version_ge};
use crate::words::{cat2, cat3, decimal_text};
use vstd::prelude::*;

verus! {

// ---------------------------------------------------------------------------
// Models
// ---------------------------------------------------------------------------

/// The hooks are functions: their addresses are tested.
pub open spec fn addresses_tested(s: Seq<char>) -> Seq<char> {
    let a = replaced(
        s,
        "if (security_dump_masked_av_fn)"@,
        "if (&security_dump_masked_av_fn)"@,
    );
    let b = replaced(
        a,
        "if (security_dump_masked_av_fn != NULL)"@,
        "if (&security_dump_masked_av_fn != NULL)"@,
    );
    let c = replaced(
        b,
        "if (context_struct_compute_av_fn)"@,
        "if (&context_struct_compute_av_fn)"@,
    );
    replaced(
        c,
        "if (context_struct_compute_av_fn != NULL)"@,
        "if (&context_struct_compute_av_fn != NULL)"@,
    )
}

/// The hooks are pointers: they are compared with the null pointer.
pub open spec fn pointers_compared(s: Seq<char>) -> Seq<char> {
    let a = replaced(
        s,
        "if (security_dump_masked_av_fn)"@,
        "if (security_dump_masked_av_fn != NULL)"@,
    );
    replaced(
        a,
        "if (context_struct_compute_av_fn)"@,
        "if (context_struct_compute_av_fn != NULL)"@,
    )
}

/// `s` with `name` no longer static where its definition begins a line.
pub open spec fn unstatic(s: Seq<char>, name: Seq<char>) -> Seq<char> {
    let a = replaced(s, "\nstatic "@ + name, "\n"@ + name);
    if begins(a, "static "@ + name) {
        replaced_first(a, "static "@ + name, name)
    } else {
        a
    }
}

/// `s` with the hooks tested as the compiler wants it and the helpers visible.
pub open spec fn selinux_fixed(s: Seq<char>) -> Seq<char> {
    let a = if occurs(s, "extern void security_dump_masked_av_fn"@) {
        addresses_tested(s)
    } else if occurs(s, "if (security_dump_masked_av_fn"@) {
        pointers_compared(s)
    } else {
        s
    };
    let b = unstatic(a, "int security_context_to_sid_with_policy"@);
    let c = unstatic(b, "int security_sid_to_context_with_policy"@);
    unstatic(c, "void security_compute_av_user_with_policy"@)
}

/// The family needs the fix.
pub open spec fn needs_selinux_fix(f: Family) -> bool {
    key_ge(key_of(kernel_of(f)), key_of("6.6"@))
}

/// The note about the fix.
pub open spec fn selinux_note(n: nat) -> Seq<char> {
    "selinux_hide fix: patched "@ + decimal(n) + " file(s)"@
}

// ---------------------------------------------------------------------------
// Functions
// ---------------------------------------------------------------------------

/// Tests the addresses of the hooks.
fn test_addresses(s: &str) -> (r: String)
    ensures
        r@ == addresses_tested(s@),
{
    proof {
        reveal_strlit("if (security_dump_masked_av_fn)");
        reveal_strlit("if (security_dump_masked_av_fn != NULL)");
        reveal_strlit("if (context_struct_compute_av_fn)");
        reveal_strlit("if (context_struct_compute_av_fn != NULL)");
    }
    let a = replace(s, "if (security_dump_masked_av_fn)", "if (&security_dump_masked_av_fn)");
    let b = replace(
        &a,
        "if (security_dump_masked_av_fn != NULL)",
        "if (&security_dump_masked_av_fn != NULL)",
    );
    let c = replace(
        &b,
        "if (context_struct_compute_av_fn)",
        "if (&context_struct_compute_av_fn)",
    );
    replace(
        &c,
        "if (context_struct_compute_av_fn != NULL)",
        "if (&context_struct_compute_av_fn != NULL)",
    )
}

/// Compares the hooks with the null pointer.
fn compare_pointers(s: &str) -> (r: String)
    ensures
        r@ == pointers_compared(s@),
{
    proof {
        reveal_strlit("if (security_dump_masked_av_fn)");
        reveal_strlit("if (context_struct_compute_av_fn)");
    }
    let a = replace(
        s,
        "if (security_dump_masked_av_fn)",
        "if (security_dump_masked_av_fn != NULL)",
    );
    replace(
        &a,
        "if (context_struct_compute_av_fn)",
        "if (context_struct_compute_av_fn != NULL)",
    )
}

/// Takes `static` off a definition that begins a line.
fn drop_static(s: &str, name: &str) -> (r: String)
    ensures
        r@ == unstatic(s@, name@),
{
    proof {
        reveal_strlit("\nstatic ");
    }
    let a = replace(s, &cat2("\nstatic ", name), &cat2("\n", name));
    let with_static = cat2("static ", name);
    if starts_with(&a, &with_static) {
        replace_first(&a, &with_static, name)
    } else {
        a
    }
}

/// Fixes the text of one `selinux_hide.c`.
pub fn fix_selinux_text(s: &str) -> (r: String)
    ensures
        r@ == selinux_fixed(s@),
{
    let a = if contains(s, "extern void security_dump_masked_av_fn") {
        test_addresses(s)
    } else if contains(s, "if (security_dump_masked_av_fn") {
        compare_pointers(s)
    } else {
        s.to_owned()
    };
    let b = drop_static(&a, "int security_context_to_sid_with_policy");
    let c = drop_static(&b, "int security_sid_to_context_with_policy");
    drop_static(&c, "void security_compute_av_user_with_policy")
}

/// Tells whether a family needs the fix.
pub fn selinux_fix_applies(f: Family) -> (r: bool)
    ensures
        r == needs_selinux_fix(f),
{
    version_ge(f.kernel(), "6.6")
}

/// Fixes every `selinux_hide.c` and notes how many there were. Gives back nothing
/// where the family does not need the fix.
pub fn fix_selinux_hide(ctx: &mut Ctx, contents: &Vec<String>) -> (r: Option<Vec<String>>)
    ensures
        r is Some <==> needs_selinux_fix(old(ctx).family),
        r matches Some(out) ==> texts(out@) == texts(contents@).map_values(
            |s: Seq<char>| selinux_fixed(s),
        ),
        texts(final(ctx).notes@) == (if r is Some {
            texts(old(ctx).notes@).push(selinux_note(contents@.len()))
        } else {
            texts(old(ctx).notes@)
        }),
        final(ctx).same_but_notes(old(ctx)),
{
    if !selinux_fix_applies(ctx.family) {
        return None;
    }
    let mut out: Vec<String> = Vec::new();
    let ghost want = texts(contents@).map_values(|s: Seq<char>| selinux_fixed(s));
    let mut i: usize = 0;
    while i < contents.len()
        invariant
            i <= contents@.len(),
            want == texts(contents@).map_values(|s: Seq<char>| selinux_fixed(s)),
            texts(out@) == want.take(i as int),
        decreases contents@.len() - i,
    {
        let ghost before = texts(out@);
        let fixed = fix_selinux_text(&contents[i]);
        out.push(fixed);
        assert(texts(out@) =~= before.push(fixed@));
        i += 1;
        assert(texts(out@) =~= want.take(i as int));
    }
    assert(want.take(want.len() as int) =~= want);
    ctx.note(
        cat3("selinux_hide fix: patched ", &decimal_text(contents.len() as u64), " file(s)"),
    );
    Some(out)
}

// ---------------------------------------------------------------------------
// Laws
// ---------------------------------------------------------------------------

/// The fix is for the families on kernel 6.6 and 6.12, and for no others.
pub proof fn law_selinux_fix_is_for_new_kernels(f: Family)
    ensures
        needs_selinux_fix(f) <==> f == Family::Android15_6_6 || f == Family::Android16_6_12,
{
    law_kernel_numbers_are_those_of_the_series(f);
    law_kernel_numbers_are_those_of_the_series(Family::Android15_6_6);
    let a = key_of(kernel_of(f));
    let b = key_of("6.6"@);
    assert(key_at(a, 0) == a[0] && key_at(a, 1) == a[1]);
    assert(key_at(b, 0) == 6 && key_at(b, 1) == 6);
    if f == Family::Android15_6_6 {
        assert(a == b);
    } else if f == Family::Android16_6_12 {
        assert(exceeds_at(a, b, 1));
    } else {
        assert(key_at(a, 0) != key_at(b, 0) || key_at(a, 1) != key_at(b, 1));
        if exists|i: int| exceeds_at(a, b, i) {
            let i = choose|i: int| exceeds_at(a, b, i);
            assert(i == 0 || i == 1 || i >= 2);
        }
    }
}

} // verus!
