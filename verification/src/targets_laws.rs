//! What the expansion of a configuration file promises.
use crate::failure::no_targets_text;
use crate::family::{family_named, id_of, law_families_are_found_by_name, Family};
use crate::targets::{
    config_targets, expanded, filter_of, is_ascii_text, is_lts_level, lowered, narrowed, of_date,
    of_sublevel, requested_of, single_target, target_for, with_target, EntryModel, TargetModel,
};
use crate::text::{
    all_digits, ascii_lower, ascii_lowered, is_digit, trimmed, trimmed_end, trimmed_start,
};
use vstd::prelude::*;

verus! {

/// No two builds of the list are the same.
pub open spec fn all_different(ts: Seq<TargetModel>) -> bool {
    forall|i: int, j: int| 0 <= i < j < ts.len() ==> #[trigger] ts[i] != #[trigger] ts[j]
}

/// Adding a build keeps what is there.
proof fn lemma_with_target(ts: Seq<TargetModel>, t: TargetModel)
    ensures
        with_target(ts, t).contains(t),
        forall|x: TargetModel| #[trigger] ts.contains(x) ==> with_target(ts, t).contains(x),
        forall|x: TargetModel| #[trigger]
            with_target(ts, t).contains(x) ==> ts.contains(x) || x == t,
        all_different(ts) ==> all_different(with_target(ts, t)),
{
    let r = with_target(ts, t);
    if !ts.contains(t) {
        assert(r[ts.len() as int] == t);
        assert forall|x: TargetModel| #[trigger] ts.contains(x) implies r.contains(x) by {
            let i = choose|i: int| 0 <= i < ts.len() && ts[i] == x;
            assert(r[i] == x);
        }
        assert forall|x: TargetModel| #[trigger] r.contains(x) implies ts.contains(x) || x == t by {
            let i = choose|i: int| 0 <= i < r.len() && r[i] == x;
            if i < ts.len() {
                assert(ts[i] == x);
            }
        }
        if all_different(ts) {
            assert forall|i: int, j: int| 0 <= i < j < r.len() implies #[trigger] r[i]
                != #[trigger] r[j] by {
                assert(r[i] == ts[i]);
                if j == ts.len() {
                    assert(ts.contains(r[i]));
                } else {
                    assert(r[j] == ts[j]);
                }
            }
        }
    }
}

/// No build is listed twice.
pub proof fn law_no_build_is_listed_twice(
    f: Family,
    entries: Seq<EntryModel>,
    requested: Seq<char>,
)
    ensures
        all_different(expanded(f, entries, requested)),
    decreases entries.len(),
{
    if entries.len() > 0 {
        let ts = expanded(f, entries.drop_last(), requested);
        let e = entries.last();
        law_no_build_is_listed_twice(f, entries.drop_last(), requested);
        if requested.len() == 0 {
            lemma_with_target(ts, target_for(f, e, "Normal"@));
            let a = with_target(ts, target_for(f, e, "Normal"@));
            if let Some(v) = e.variant {
                lemma_with_target(a, target_for(f, e, v));
            }
        } else {
            lemma_with_target(ts, target_for(f, e, requested));
        }
    }
}

/// Without a requested variant every entry gives a normal build and a build of its own
/// variant; with one it gives a build of that variant.
pub proof fn law_every_entry_is_built(
    f: Family,
    entries: Seq<EntryModel>,
    requested: Seq<char>,
    i: int,
)
    requires
        0 <= i < entries.len(),
    ensures
        requested.len() == 0 ==> expanded(f, entries, requested).contains(
            target_for(f, entries[i], "Normal"@),
        ),
        requested.len() == 0 ==> (entries[i].variant matches Some(v) ==> expanded(
            f,
            entries,
            requested,
        ).contains(target_for(f, entries[i], v))),
        requested.len() > 0 ==> expanded(f, entries, requested).contains(
            target_for(f, entries[i], requested),
        ),
    decreases entries.len(),
{
    let front = entries.drop_last();
    let ts = expanded(f, front, requested);
    let e = entries.last();
    if i < entries.len() - 1 {
        assert(front[i] == entries[i]);
        law_every_entry_is_built(f, front, requested, i);
    }
    if requested.len() == 0 {
        lemma_with_target(ts, target_for(f, e, "Normal"@));
        let a = with_target(ts, target_for(f, e, "Normal"@));
        if let Some(v) = e.variant {
            lemma_with_target(a, target_for(f, e, v));
        }
    } else {
        lemma_with_target(ts, target_for(f, e, requested));
    }
}

/// `t` is a build that the entry `e` asks for.
pub open spec fn is_asked_by(
    t: TargetModel,
    f: Family,
    e: EntryModel,
    requested: Seq<char>,
) -> bool {
    if requested.len() > 0 {
        t == target_for(f, e, requested)
    } else {
        t == target_for(f, e, "Normal"@) || (e.variant matches Some(v) && t == target_for(f, e, v))
    }
}

/// Nothing is built that no entry asks for.
pub proof fn law_builds_come_from_entries(
    f: Family,
    entries: Seq<EntryModel>,
    requested: Seq<char>,
    t: TargetModel,
)
    requires
        expanded(f, entries, requested).contains(t),
    ensures
        exists|i: int|
            0 <= i < entries.len() && is_asked_by(t, f, #[trigger] entries[i], requested),
    decreases entries.len(),
{
    if entries.len() > 0 {
        let front = entries.drop_last();
        let ts = expanded(f, front, requested);
        let e = entries.last();
        if requested.len() == 0 {
            lemma_with_target(ts, target_for(f, e, "Normal"@));
            let a = with_target(ts, target_for(f, e, "Normal"@));
            if let Some(v) = e.variant {
                lemma_with_target(a, target_for(f, e, v));
            }
        } else {
            lemma_with_target(ts, target_for(f, e, requested));
        }
        if ts.contains(t) {
            law_builds_come_from_entries(f, front, requested, t);
            let i = choose|i: int|
                0 <= i < front.len() && is_asked_by(t, f, #[trigger] front[i], requested);
            assert(entries[i] == front[i]);
        } else {
            assert(is_asked_by(t, f, entries[entries.len() - 1], requested));
        }
    }
}

/// A requested variant labels every build.
pub proof fn law_requested_variant_labels_all(
    f: Family,
    entries: Seq<EntryModel>,
    requested: Seq<char>,
    k: int,
)
    requires
        requested.len() > 0,
        0 <= k < expanded(f, entries, requested).len(),
    ensures
        expanded(f, entries, requested)[k].variant == requested,
{
    let t = expanded(f, entries, requested)[k];
    assert(expanded(f, entries, requested).contains(t));
    law_builds_come_from_entries(f, entries, requested, t);
}

/// What a filter leaves was there before.
proof fn lemma_filtered_from(ts: Seq<TargetModel>, keep: spec_fn(TargetModel) -> bool, k: int)
    requires
        0 <= k < ts.filter(keep).len(),
    ensures
        ts.contains(ts.filter(keep)[k]),
    decreases ts.len(),
{
    reveal(Seq::filter);
    let front = ts.drop_last();
    if k < front.filter(keep).len() {
        lemma_filtered_from(front, keep, k);
        let i = choose|i: int| 0 <= i < front.len() && front[i] == front.filter(keep)[k];
        assert(ts[i] == ts.filter(keep)[k]);
    } else {
        assert(ts[ts.len() - 1] == ts.filter(keep)[k]);
    }
}

/// What a filter leaves is all of one patch level, or all of one sublevel where no
/// build is of such a patch level.
pub proof fn law_filter_leaves_what_it_names(ts: Seq<TargetModel>, filter: Seq<char>, k: int)
    requires
        filter.len() > 0,
        0 <= k < narrowed(ts, filter).len(),
    ensures
        (exists|i: int| 0 <= i < ts.len() && lowered(#[trigger] ts[i].os_patch_level) == filter)
            ==> lowered(narrowed(ts, filter)[k].os_patch_level) == filter,
        (forall|i: int| 0 <= i < ts.len() ==> lowered(#[trigger] ts[i].os_patch_level) != filter)
            ==> lowered(narrowed(ts, filter)[k].sublevel) == filter,
        ts.contains(narrowed(ts, filter)[k]),
{
    broadcast use vstd::seq_lib::group_filter_ensures;

    if exists|i: int| 0 <= i < ts.len() && lowered(#[trigger] ts[i].os_patch_level) == filter {
        let i = choose|i: int|
            0 <= i < ts.len() && lowered(#[trigger] ts[i].os_patch_level) == filter;
        assert(of_date(filter)(ts[i]));
        assert(ts.contains(ts[i]));
        assert(ts.filter(of_date(filter)).contains(ts[i]));
    } else {
        if ts.filter(of_date(filter)).len() > 0 {
            let t = ts.filter(of_date(filter))[0];
            assert(ts.filter(of_date(filter)).contains(t));
            assert(of_date(filter)(t));
            lemma_filtered_from(ts, of_date(filter), 0);
            let i = choose|i: int| 0 <= i < ts.len() && ts[i] == t;
            assert(lowered(ts[i].os_patch_level) == filter);
        }
    }
    if ts.filter(of_date(filter)).len() == 0 {
        lemma_filtered_from(ts, of_sublevel(filter), k);
    } else {
        lemma_filtered_from(ts, of_date(filter), k);
    }
    let t = narrowed(ts, filter)[k];
    assert(of_date(filter)(t) || of_sublevel(filter)(t));
}

/// The sublevel is a number or stands for the tip of a series.
pub open spec fn is_usual_sublevel(s: Seq<char>) -> bool {
    all_digits(s) || s == "X"@
}

/// The build is of the sublevel `filter`, as it is written.
pub open spec fn of_written_sublevel(filter: Seq<char>) -> spec_fn(TargetModel) -> bool {
    |t: TargetModel| t.sublevel == filter
}

/// A sublevel that is no `X` in either case is compared as it is written.
proof fn lemma_usual_sublevel(s: Seq<char>, filter: Seq<char>)
    requires
        is_usual_sublevel(s),
        filter != "x"@,
        filter != "X"@,
    ensures
        lowered(s) == filter <==> s == filter,
{
    reveal_strlit("X");
    reveal_strlit("x");
    if all_digits(s) {
        assert forall|i: int| 0 <= i < s.len() implies s[i] < '\u{80}' by {
            assert(is_digit(s[i]));
        }
        assert forall|i: int| 0 <= i < s.len() implies ascii_lower(s[i]) == s[i] by {
            assert(is_digit(s[i]));
        }
        assert(ascii_lowered(s) =~= s);
    } else {
        assert(is_ascii_text(s));
        assert(ascii_lowered(s) =~= "x"@);
    }
}

/// An ASCII text in lower case is no `X`.
proof fn lemma_lowered_is_no_capital(s: Seq<char>)
    requires
        is_ascii_text(s),
    ensures
        lowered(s) != "X"@,
{
    reveal_strlit("X");
    let t = ascii_lowered(s);
    if t == "X"@ {
        assert(t.len() == s.len());
        assert("X"@.len() == 1);
        assert(t[0] == ascii_lower(s[0]));
        assert(t[0] == 'X');
    }
}

/// Two filters that agree on every build leave the same.
proof fn lemma_filters_agree(
    ts: Seq<TargetModel>,
    f: spec_fn(TargetModel) -> bool,
    g: spec_fn(TargetModel) -> bool,
)
    requires
        forall|i: int| 0 <= i < ts.len() ==> f(#[trigger] ts[i]) == g(ts[i]),
    ensures
        ts.filter(f) == ts.filter(g),
    decreases ts.len(),
{
    reveal(Seq::filter);
    if ts.len() > 0 {
        let front = ts.drop_last();
        assert forall|i: int| 0 <= i < front.len() implies f(#[trigger] front[i]) == g(
            front[i],
        ) by {
            assert(front[i] == ts[i]);
        }
        lemma_filters_agree(front, f, g);
        assert(ts.last() == ts[ts.len() - 1]);
    }
}

/// `All` asks for every build.
proof fn lemma_all_asks_for_everything()
    ensures
        filter_of("All"@) == Seq::<char>::empty(),
{
    reveal_strlit("All");
    reveal_strlit("all");
    let a = "All"@;
    assert(trimmed_start(a) == a);
    assert(trimmed_end(a) == a);
    assert(is_ascii_text(a));
    assert(ascii_lowered(a) =~= "all"@);
}

/// Of a file whose sublevels are numbers or `X`, a filter that is none of the special
/// words leaves the builds of the patch level that it names; where there are none, those
/// of the sublevel that it names, as that is written; and where there are none of these
/// either it is a failure. Both come in the order in which all builds come. A filter
/// outside ASCII must not be `X` in lower case, which none is.
pub proof fn law_filter_goes_by_date_then_sublevel(
    version: Seq<char>,
    entries: Seq<EntryModel>,
    filter: Seq<char>,
    variant: Seq<char>,
    all: Seq<TargetModel>,
)
    requires
        config_targets(version, entries, "All"@, variant) == Ok::<Seq<TargetModel>, Seq<char>>(all),
        forall|i: int| 0 <= i < entries.len() ==> is_usual_sublevel(#[trigger] entries[i].sublevel),
        lowered(trimmed(filter)).len() > 0,
        lowered(trimmed(filter)) != "all"@,
        lowered(trimmed(filter)) != "x"@,
        is_ascii_text(trimmed(filter)) || lowered(trimmed(filter)) != "X"@,
    ensures
        ({
            let f = lowered(trimmed(filter));
            let dated = all.filter(of_date(f));
            let levelled = all.filter(of_written_sublevel(f));
            config_targets(version, entries, filter, variant) == (if dated.len() > 0 {
                Ok(dated)
            } else if levelled.len() > 0 {
                Ok(levelled)
            } else {
                Err(no_targets_text(f))
            })
        }),
{
    let f = lowered(trimmed(filter));
    let family = family_named(version).unwrap();
    let requested = requested_of(variant);
    lemma_all_asks_for_everything();
    if is_ascii_text(trimmed(filter)) {
        lemma_lowered_is_no_capital(trimmed(filter));
    }
    assert(all == expanded(family, entries, requested));
    assert forall|i: int| 0 <= i < all.len() implies of_sublevel(f)(#[trigger] all[i])
        == of_written_sublevel(f)(all[i]) by {
        assert(all.contains(all[i]));
        law_builds_come_from_entries(family, entries, requested, all[i]);
        let k = choose|k: int|
            0 <= k < entries.len() && is_asked_by(all[i], family, #[trigger] entries[k], requested);
        assert(is_usual_sublevel(entries[k].sublevel));
        lemma_usual_sublevel(all[i].sublevel, f);
    }
    lemma_filters_agree(all, of_sublevel(f), of_written_sublevel(f));
}

/// A build that is named by its family takes the sublevel and the patch level that it was
/// given. Without a patch level it is the tip of the series, without a sublevel the one
/// of the tree; but a patch level that is not the tip needs its sublevel.
pub proof fn law_one_build_is_what_it_was_given(
    f: Family,
    sublevel: Option<Seq<char>>,
    level: Seq<char>,
    variant: Seq<char>,
)
    ensures
        ({
            let r = single_target(Some(id_of(f)), sublevel, level, variant);
            let blank = trimmed(level).len() == 0;
            let tip = blank || is_lts_level(level);
            &&& r is Err <==> sublevel is None && !tip
            &&& r matches Ok(ts) ==> {
                &&& ts.len() == 1
                &&& ts[0].family == f
                &&& ts[0].variant == variant
                &&& ts[0].os_patch_level == (if blank {
                    "lts"@
                } else {
                    level
                })
                &&& sublevel matches Some(s) ==> ts[0].sublevel == s
                &&& sublevel is None ==> ts[0].sublevel == "X"@
            }
        }),
{
    law_families_are_found_by_name(f);
}

} // verus!
