//! The builds that a configuration file expands to.
use crate::failure::{
    config_or_version_required_text, no_targets_text, sublevel_required_text,
    unknown_family_text, version_required_text, Failure,
};
use crate::family::{config_path, family_named, id_of, law_families_are_found_by_name, Family};
use crate::regexes::is_lts_month;
use crate::text::{ascii_lowered, chars_of, same, starts_with, trimmed};
use crate::words::{cat7, same_ignoring_ascii_case, trim};
use vstd::prelude::*;

verus! {

// ---------------------------------------------------------------------------
// Lower case
// ---------------------------------------------------------------------------

/// Every character of `s` is an ASCII character.
pub open spec fn is_ascii_text(s: Seq<char>) -> bool {
    forall|i: int| 0 <= i < s.len() ==> s[i] < '\u{80}'
}

/// What `str::to_lowercase` gives back.
pub uninterp spec fn unicode_lowered(s: Seq<char>) -> Seq<char>;

/// Calls `str::to_lowercase`. Claimed: the result depends on the text alone, and for an
/// ASCII text it is the text with its capitals in lower case.
#[verifier::external_body]
pub(crate) fn to_lowercase(s: &str) -> (r: String)
    ensures
        r@ == unicode_lowered(s@),
        is_ascii_text(s@) ==> r@ == ascii_lowered(s@),
{
    s.to_lowercase()
}

/// `s` in lower case.
pub open spec fn lowered(s: Seq<char>) -> Seq<char> {
    if is_ascii_text(s) {
        ascii_lowered(s)
    } else {
        unicode_lowered(s)
    }
}

// ---------------------------------------------------------------------------
// Models
// ---------------------------------------------------------------------------

/// One entry of a configuration file.
#[derive(Debug)]
pub struct ConfigEntry {
    pub sublevel: String,
    pub date: String,
    pub variant: Option<String>,
}

/// A configuration file: a family and the builds of it.
#[derive(Debug)]
pub struct ConfigFile {
    pub version: String,
    pub entries: Vec<ConfigEntry>,
}

/// One build.
#[derive(Debug)]
pub struct Target {
    pub family: Family,
    pub sublevel: String,
    pub os_patch_level: String,
    pub variant: String,
}

/// The model of an entry.
#[verifier::ext_equal]
pub struct EntryModel {
    pub sublevel: Seq<char>,
    pub date: Seq<char>,
    pub variant: Option<Seq<char>>,
}

/// The model of a build.
#[verifier::ext_equal]
pub struct TargetModel {
    pub family: Family,
    pub sublevel: Seq<char>,
    pub os_patch_level: Seq<char>,
    pub variant: Seq<char>,
}

impl View for ConfigEntry {
    type V = EntryModel;

    open spec fn view(&self) -> EntryModel {
        EntryModel {
            sublevel: self.sublevel@,
            date: self.date@,
            variant: match self.variant {
                Some(v) => Some(v@),
                None => None,
            },
        }
    }
}

impl View for Target {
    type V = TargetModel;

    open spec fn view(&self) -> TargetModel {
        TargetModel {
            family: self.family,
            sublevel: self.sublevel@,
            os_patch_level: self.os_patch_level@,
            variant: self.variant@,
        }
    }
}

pub open spec fn entry_models(v: Seq<ConfigEntry>) -> Seq<EntryModel> {
    v.map_values(|e: ConfigEntry| e@)
}

pub open spec fn target_models(v: Seq<Target>) -> Seq<TargetModel> {
    v.map_values(|t: Target| t@)
}

/// The build of an entry under a variant.
pub open spec fn target_for(f: Family, e: EntryModel, variant: Seq<char>) -> TargetModel {
    TargetModel { family: f, sublevel: e.sublevel, os_patch_level: e.date, variant }
}

/// `ts` with `t` at its end, unless it is among them.
pub open spec fn with_target(ts: Seq<TargetModel>, t: TargetModel) -> Seq<TargetModel> {
    if ts.contains(t) {
        ts
    } else {
        ts.push(t)
    }
}

/// `ts` with the builds of one entry.
pub open spec fn with_entry(
    ts: Seq<TargetModel>,
    f: Family,
    e: EntryModel,
    requested: Seq<char>,
) -> Seq<TargetModel> {
    if requested.len() == 0 {
        let a = with_target(ts, target_for(f, e, "Normal"@));
        match e.variant {
            Some(v) => with_target(a, target_for(f, e, v)),
            None => a,
        }
    } else {
        with_target(ts, target_for(f, e, requested))
    }
}

/// The builds of the entries. Each entry gives a normal build and one of its own
/// variant, if it has one; where a variant was requested, one build of that variant.
pub open spec fn expanded(
    f: Family,
    entries: Seq<EntryModel>,
    requested: Seq<char>,
) -> Seq<TargetModel>
    decreases entries.len(),
{
    if entries.len() == 0 {
        seq![]
    } else {
        with_entry(expanded(f, entries.drop_last(), requested), f, entries.last(), requested)
    }
}

/// The build is of the patch level `filter`.
pub open spec fn of_date(filter: Seq<char>) -> spec_fn(TargetModel) -> bool {
    |t: TargetModel| lowered(t.os_patch_level) == filter
}

/// The build is of the sublevel `filter`.
pub open spec fn of_sublevel(filter: Seq<char>) -> spec_fn(TargetModel) -> bool {
    |t: TargetModel| lowered(t.sublevel) == filter
}

/// The builds of a patch level, else those of a sublevel; all where nothing is asked.
pub open spec fn narrowed(ts: Seq<TargetModel>, filter: Seq<char>) -> Seq<TargetModel> {
    if filter.len() == 0 {
        ts
    } else if ts.filter(of_date(filter)).len() == 0 {
        ts.filter(of_sublevel(filter))
    } else {
        ts.filter(of_date(filter))
    }
}

/// What a filter asks for: nothing where it says `all`.
pub open spec fn filter_of(filter: Seq<char>) -> Seq<char> {
    let f = lowered(trimmed(filter));
    if f == "all"@ {
        seq![]
    } else {
        f
    }
}

/// The variant that is requested: none where it is the normal one.
pub open spec fn requested_of(variant: Seq<char>) -> Seq<char> {
    if variant == "Normal"@ {
        seq![]
    } else {
        variant
    }
}

/// The builds of a configuration file, or the message about it.
pub open spec fn config_targets(
    version: Seq<char>,
    entries: Seq<EntryModel>,
    filter: Seq<char>,
    variant: Seq<char>,
) -> Result<Seq<TargetModel>, Seq<char>> {
    match family_named(version) {
        None => Err(unknown_family_text(version)),
        Some(f) => {
            let want = narrowed(expanded(f, entries, requested_of(variant)), filter_of(filter));
            if want.len() == 0 {
                Err(no_targets_text(filter_of(filter)))
            } else {
                Ok(want)
            }
        },
    }
}

/// The text of an optional slice.
pub open spec fn opt_view(s: Option<&str>) -> Option<Seq<char>> {
    match s {
        Some(t) => Some(t@),
        None => None,
    }
}

/// The patch level is that of the tip of a series, with or without a month.
pub open spec fn is_lts_level(level: Seq<char>) -> bool {
    ascii_lowered(level) == ascii_lowered("lts"@) || is_lts_month(level)
}

/// The build that a family, a sublevel and a patch level name, or the message about it.
/// Only the tip of a series goes without a sublevel.
pub open spec fn single_target(
    version: Option<Seq<char>>,
    sublevel: Option<Seq<char>>,
    level: Seq<char>,
    variant: Seq<char>,
) -> Result<Seq<TargetModel>, Seq<char>> {
    match version {
        None => Err(version_required_text()),
        Some(v) => match family_named(v) {
            None => Err(unknown_family_text(v)),
            Some(family) => if sublevel is None && trimmed(level).len() > 0 && !is_lts_level(
                level,
            ) {
                Err(sublevel_required_text())
            } else {
                Ok(
                    seq![
                        TargetModel {
                            family,
                            sublevel: match sublevel {
                                Some(s) => s,
                                None => "X"@,
                            },
                            os_patch_level: if trimmed(level).len() == 0 {
                                "lts"@
                            } else {
                                level
                            },
                            variant,
                        },
                    ],
                )
            },
        },
    }
}

/// `r` is what `want` describes.
pub open spec fn is_result(
    r: Result<Vec<Target>, Failure>,
    want: Result<Seq<TargetModel>, Seq<char>>,
) -> bool {
    match want {
        Ok(ts) => r matches Ok(v) && target_models(v@) == ts,
        Err(text) => r matches Err(e) && e@ == text,
    }
}

// ---------------------------------------------------------------------------
// Functions
// ---------------------------------------------------------------------------

/// `s` in lower case.
pub fn lowercase(s: &str) -> (r: String)
    ensures
        r@ == lowered(s@),
{
    to_lowercase(s)
}

/// The build of an entry under a variant.
fn make_target(f: Family, e: &ConfigEntry, variant: &str) -> (r: Target)
    ensures
        r@ == target_for(f, e@, variant@),
{
    Target {
        family: f,
        sublevel: e.sublevel.as_str().to_owned(),
        os_patch_level: e.date.as_str().to_owned(),
        variant: variant.to_owned(),
    }
}

/// Tells whether two builds are the same.
fn same_target(a: &Target, b: &Target) -> (r: bool)
    ensures
        r == (a@ == b@),
{
    a.family == b.family && same(&a.sublevel, &b.sublevel) && same(
        &a.os_patch_level,
        &b.os_patch_level,
    ) && same(&a.variant, &b.variant)
}

/// Adds a build unless it is there already.
fn push_target(ts: &mut Vec<Target>, t: Target)
    ensures
        target_models(final(ts)@) == with_target(target_models(old(ts)@), t@),
{
    let ghost all = target_models(ts@);
    let mut i: usize = 0;
    while i < ts.len()
        invariant
            i <= ts@.len(),
            *ts == *old(ts),
            all == target_models(ts@),
            forall|j: int| 0 <= j < i ==> #[trigger] all[j] != t@,
        decreases ts@.len() - i,
    {
        if same_target(&ts[i], &t) {
            assert(all[i as int] == t@);
            return ;
        }
        assert(all[i as int] == ts@[i as int]@);
        i += 1;
    }
    assert(!all.contains(t@));
    ts.push(t);
    assert(target_models(ts@) =~= all.push(t@));
}

/// Expands the entries of a configuration file.
pub fn expand_entries(f: Family, entries: &Vec<ConfigEntry>, requested: &str) -> (r: Vec<Target>)
    ensures
        target_models(r@) == expanded(f, entry_models(entries@), requested@),
{
    let any = chars_of(requested).len() == 0;
    let ghost all = entry_models(entries@);
    let mut ts: Vec<Target> = Vec::new();
    let mut i: usize = 0;
    assert(all.take(0) =~= Seq::<EntryModel>::empty());
    assert(target_models(ts@) =~= Seq::<TargetModel>::empty());
    while i < entries.len()
        invariant
            i <= entries@.len(),
            any == (requested@.len() == 0),
            all == entry_models(entries@),
            target_models(ts@) == expanded(f, all.take(i as int), requested@),
        decreases entries@.len() - i,
    {
        let e = &entries[i];
        assert(all.take(i + 1).drop_last() =~= all.take(i as int));
        assert(all.take(i + 1).last() == e@);
        if any {
            push_target(&mut ts, make_target(f, e, "Normal"));
            match &e.variant {
                Some(v) => {
                    push_target(&mut ts, make_target(f, e, v));
                },
                None => {},
            }
        } else {
            push_target(&mut ts, make_target(f, e, requested));
        }
        i += 1;
    }
    assert(all.take(all.len() as int) =~= all);
    ts
}

/// A copy of a build.
fn copy_target(t: &Target) -> (r: Target)
    ensures
        r@ == t@,
{
    Target {
        family: t.family,
        sublevel: t.sublevel.as_str().to_owned(),
        os_patch_level: t.os_patch_level.as_str().to_owned(),
        variant: t.variant.as_str().to_owned(),
    }
}

/// The builds of a patch level, or of a sublevel where `by_date` does not hold.
fn filter_targets(ts: &Vec<Target>, filter: &str, by_date: bool) -> (r: Vec<Target>)
    ensures
        target_models(r@) == target_models(ts@).filter(
            if by_date {
                of_date(filter@)
            } else {
                of_sublevel(filter@)
            },
        ),
{
    let ghost keep = if by_date {
        of_date(filter@)
    } else {
        of_sublevel(filter@)
    };
    let ghost all = target_models(ts@);
    let mut r: Vec<Target> = Vec::new();
    let mut i: usize = 0;
    proof {
        reveal(Seq::filter);
        assert(all.take(0) =~= Seq::<TargetModel>::empty());
        assert(target_models(r@) =~= Seq::<TargetModel>::empty());
    }
    while i < ts.len()
        invariant
            i <= ts@.len(),
            all == target_models(ts@),
            keep == (if by_date {
                of_date(filter@)
            } else {
                of_sublevel(filter@)
            }),
            target_models(r@) == all.take(i as int).filter(keep),
        decreases ts@.len() - i,
    {
        proof {
            reveal(Seq::filter);
            assert(all.take(i + 1).drop_last() =~= all.take(i as int));
            assert(all.take(i + 1).last() == ts@[i as int]@);
        }
        let ghost before = target_models(r@);
        let t = &ts[i];
        let kept = if by_date {
            same(&lowercase(&t.os_patch_level), filter)
        } else {
            same(&lowercase(&t.sublevel), filter)
        };
        assert(kept == keep(t@));
        if kept {
            let copy = copy_target(t);
            r.push(copy);
            assert(target_models(r@) =~= before.push(copy@));
        }
        i += 1;
    }
    assert(all.take(all.len() as int) =~= all);
    r
}

/// Expands a configuration file and narrows the builds to a patch level or sublevel,
/// either without regard to case.
pub fn targets_from_config(config: &ConfigFile, filter: &str, requested_variant: &str) -> (r:
    Result<Vec<Target>, Failure>)
    ensures
        is_result(
            r,
            config_targets(
                config.version@,
                entry_models(config.entries@),
                filter@,
                requested_variant@,
            ),
        ),
{
    let family = Family::parse(&config.version)?;
    proof {
        law_families_are_found_by_name(family);
        reveal_strlit("");
        assert(""@ =~= Seq::<char>::empty());
    }
    let lower = lowercase(&trim(filter));
    let filter = if same(&lower, "all") {
        ""
    } else {
        lower.as_str()
    };
    let requested = if same(requested_variant, "Normal") {
        ""
    } else {
        requested_variant
    };
    let all = expand_entries(family, &config.entries, requested);
    let ts = if chars_of(filter).len() == 0 {
        all
    } else {
        let by_date = filter_targets(&all, filter, true);
        if by_date.len() == 0 {
            filter_targets(&all, filter, false)
        } else {
            by_date
        }
    };
    if ts.len() == 0 {
        return Err(Failure::NoTargets { filter: filter.to_owned() });
    }
    Ok(ts)
}

/// Tells whether a patch level is that of the tip of a series.
pub fn lts_level(level: &str) -> (r: bool)
    ensures
        r == is_lts_level(level@),
{
    if same_ignoring_ascii_case(level, "lts") {
        return true;
    }
    let v = chars_of(level);
    v.len() == 6 && starts_with(level, "lts-") && '0' <= v[4] && v[4] <= '9' && '0' <= v[5]
        && v[5] <= '9'
}

/// The builds of a run: those of the configuration file where one is given, else the
/// one that the other arguments name. Without a patch level these are all builds of
/// the file, or the build of the tip of the series. Any other build needs its sublevel.
pub fn build_targets(
    config: Option<&ConfigFile>,
    version: Option<&str>,
    sublevel: Option<&str>,
    os_patch_level: &str,
    variant: &str,
) -> (r: Result<Vec<Target>, Failure>)
    ensures
        match config {
            Some(c) => is_result(
                r,
                config_targets(
                    c.version@,
                    entry_models(c.entries@),
                    if trimmed(os_patch_level@).len() == 0 {
                        "all"@
                    } else {
                        os_patch_level@
                    },
                    variant@,
                ),
            ),
            None => is_result(
                r,
                single_target(opt_view(version), opt_view(sublevel), os_patch_level@, variant@),
            ),
        },
{
    let no_level = chars_of(&trim(os_patch_level)).len() == 0;
    match config {
        Some(c) => targets_from_config(
            c,
            if no_level {
                "all"
            } else {
                os_patch_level
            },
            variant,
        ),
        None => {
            let version = match version {
                Some(v) => v,
                None => {
                    return Err(Failure::VersionRequired);
                },
            };
            let family = Family::parse(version)?;
            proof {
                law_families_are_found_by_name(family);
            }
            if sublevel.is_none() && !no_level && !lts_level(os_patch_level) {
                return Err(Failure::SublevelRequired);
            }
            let mut ts: Vec<Target> = Vec::new();
            ts.push(
                Target {
                    family,
                    sublevel: match sublevel {
                        Some(s) => s.to_owned(),
                        None => "X".to_owned(),
                    },
                    os_patch_level: if no_level {
                        "lts".to_owned()
                    } else {
                        os_patch_level.to_owned()
                    },
                    variant: variant.to_owned(),
                },
            );
            assert(target_models(ts@) =~= single_target(
                opt_view(Some(version)),
                opt_view(sublevel),
                os_patch_level@,
                variant@,
            )->Ok_0);
            Ok(ts)
        },
    }
}

/// The configuration file to list: the one that is given, else that of the family.
pub fn list_config(config: Option<&str>, version: Option<&str>) -> (r: Result<String, Failure>)
    ensures
        match (config, version) {
            (Some(path), _) => r matches Ok(p) && p@ == path@,
            (None, Some(v)) => match family_named(v@) {
                Some(f) => r matches Ok(p) && p@ == config_path(f),
                None => r matches Err(e) && e@ == unknown_family_text(v@),
            },
            (None, None) => r matches Err(e) && e@ == config_or_version_required_text(),
        },
{
    match (config, version) {
        (Some(path), _) => Ok(path.to_owned()),
        (None, Some(v)) => {
            let family = Family::parse(v)?;
            proof {
                law_families_are_found_by_name(family);
            }
            Ok(family.config_file())
        },
        (None, None) => Err(Failure::ConfigOrVersionRequired),
    }
}

/// The line that lists a build.
pub fn target_line(t: &Target) -> (r: String)
    ensures
        r@ == id_of(t.family) + "\tsublevel="@ + t.sublevel@ + "\tpatch-level="@
            + t.os_patch_level@ + "\tvariant="@ + t.variant@,
{
    cat7(
        t.family.id(),
        "\tsublevel=",
        &t.sublevel,
        "\tpatch-level=",
        &t.os_patch_level,
        "\tvariant=",
        &t.variant,
    )
}

} // verus!
