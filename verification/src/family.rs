//! The kernel families: an Android release paired with a kernel series.
use crate::failure::{unknown_family_text, Failure};
use crate::text::{digits_value, is_digit, joined_with, same, texts};
use crate::version::{digit_runs, key_of, run_len, run_value, version_key};
use crate::words::{cat2, cat3, join_with};
use vstd::prelude::*;

verus! {

/// One family: an Android release paired with a kernel LTS series.
#[derive(Clone, Copy, Debug, PartialEq, Eq, Structural)]
pub enum Family {
    Android12_5_10,
    Android13_5_10,
    Android13_5_15,
    Android14_5_15,
    Android14_6_1,
    Android15_6_6,
    Android16_6_12,
}

/// The Android release of a family.
pub open spec fn android_of(f: Family) -> Seq<char> {
    match f {
        Family::Android12_5_10 => "android12"@,
        Family::Android13_5_10 | Family::Android13_5_15 => "android13"@,
        Family::Android14_5_15 | Family::Android14_6_1 => "android14"@,
        Family::Android15_6_6 => "android15"@,
        Family::Android16_6_12 => "android16"@,
    }
}

/// The kernel series of a family.
pub open spec fn kernel_of(f: Family) -> Seq<char> {
    match f {
        Family::Android12_5_10 | Family::Android13_5_10 => "5.10"@,
        Family::Android13_5_15 | Family::Android14_5_15 => "5.15"@,
        Family::Android14_6_1 => "6.1"@,
        Family::Android15_6_6 => "6.6"@,
        Family::Android16_6_12 => "6.12"@,
    }
}

/// The major and minor number of a family's kernel series.
pub open spec fn kernel_numbers(f: Family) -> (u32, u32) {
    match f {
        Family::Android12_5_10 | Family::Android13_5_10 => (5, 10),
        Family::Android13_5_15 | Family::Android14_5_15 => (5, 15),
        Family::Android14_6_1 => (6, 1),
        Family::Android15_6_6 => (6, 6),
        Family::Android16_6_12 => (6, 12),
    }
}

/// The identifier of a family.
pub open spec fn id_of(f: Family) -> Seq<char> {
    match f {
        Family::Android12_5_10 => "android12-5.10"@,
        Family::Android13_5_10 => "android13-5.10"@,
        Family::Android13_5_15 => "android13-5.15"@,
        Family::Android14_5_15 => "android14-5.15"@,
        Family::Android14_6_1 => "android14-6.1"@,
        Family::Android15_6_6 => "android15-6.6"@,
        Family::Android16_6_12 => "android16-6.12"@,
    }
}

/// All families, in the order in which they are listed.
pub open spec fn family_list() -> Seq<Family> {
    seq![
        Family::Android12_5_10,
        Family::Android13_5_10,
        Family::Android13_5_15,
        Family::Android14_5_15,
        Family::Android14_6_1,
        Family::Android15_6_6,
        Family::Android16_6_12,
    ]
}

/// The family with the identifier `value`, if there is one.
pub open spec fn family_named(value: Seq<char>) -> Option<Family> {
    if exists|f: Family| id_of(f) == value {
        Some(choose|f: Family| id_of(f) == value)
    } else {
        None
    }
}

impl Family {
    pub const ALL: [Family; 7] = [
        Family::Android12_5_10,
        Family::Android13_5_10,
        Family::Android13_5_15,
        Family::Android14_5_15,
        Family::Android14_6_1,
        Family::Android15_6_6,
        Family::Android16_6_12,
    ];

    /// The identifier of the family, e.g. `android16-6.12`.
    pub fn id(self) -> (r: &'static str)
        ensures
            r@ == id_of(self),
    {
        match self {
            Family::Android12_5_10 => "android12-5.10",
            Family::Android13_5_10 => "android13-5.10",
            Family::Android13_5_15 => "android13-5.15",
            Family::Android14_5_15 => "android14-5.15",
            Family::Android14_6_1 => "android14-6.1",
            Family::Android15_6_6 => "android15-6.6",
            Family::Android16_6_12 => "android16-6.12",
        }
    }

    /// The Android release of the family.
    pub fn android(self) -> (r: &'static str)
        ensures
            r@ == android_of(self),
    {
        match self {
            Family::Android12_5_10 => "android12",
            Family::Android13_5_10 | Family::Android13_5_15 => "android13",
            Family::Android14_5_15 | Family::Android14_6_1 => "android14",
            Family::Android15_6_6 => "android15",
            Family::Android16_6_12 => "android16",
        }
    }

    /// The kernel series of the family.
    pub fn kernel(self) -> (r: &'static str)
        ensures
            r@ == kernel_of(self),
    {
        match self {
            Family::Android12_5_10 | Family::Android13_5_10 => "5.10",
            Family::Android13_5_15 | Family::Android14_5_15 => "5.15",
            Family::Android14_6_1 => "6.1",
            Family::Android15_6_6 => "6.6",
            Family::Android16_6_12 => "6.12",
        }
    }

    /// `(major, minor)` of the kernel series.
    pub fn kernel_ver(self) -> (r: (u32, u32))
        ensures
            r == kernel_numbers(self),
    {
        let key = version_key(self.kernel());
        proof {
            law_kernel_numbers_are_those_of_the_series(self);
        }
        (key[0] as u32, key[1] as u32)
    }

    /// The family with the given identifier.
    pub fn parse(value: &str) -> (r: Result<Family, Failure>)
        ensures
            r matches Ok(f) ==> id_of(f) == value@,
            r matches Err(e) ==> e@ == unknown_family_text(value@),
            r is Err <==> (forall|f: Family| id_of(f) != value@),
    {
        let all = Family::ALL;
        let mut i: usize = 0;
        while i < 7
            invariant
                i <= 7,
                all@ == family_list(),
                forall|j: int| 0 <= j < i ==> id_of(#[trigger] family_list()[j]) != value@,
            decreases 7 - i,
        {
            if same(all[i].id(), value) {
                return Ok(all[i]);
            }
            i += 1;
        }
        assert forall|f: Family| id_of(f) != value@ by {
            let k = lemma_family_listed(f);
            assert(id_of(family_list()[k]) != value@);
        }
        Err(Failure::UnknownFamily { value: value.to_owned() })
    }

    /// The matching configuration file under `.github/config`.
    pub fn config_file(self) -> (r: String)
        ensures
            r@ == config_path(self),
    {
        cat3(".github/config/", self.id(), ".json")
    }

    /// The SUSFS branch for the family.
    pub fn susfs_branch(self) -> (r: String)
        ensures
            r@ == susfs_branch_of(self),
    {
        cat2("gki-", self.id())
    }

    /// Tells whether the kernel series precedes the given one.
    pub fn is_older_than(self, version: (u32, u32)) -> (r: bool)
        ensures
            r == older_than(self, version),
    {
        let (major, minor) = self.kernel_ver();
        major < version.0 || (major == version.0 && minor < version.1)
    }
}

/// The path of a family's configuration file.
pub open spec fn config_path(f: Family) -> Seq<char> {
    ".github/config/"@ + id_of(f) + ".json"@
}

/// The SUSFS branch for a family.
pub open spec fn susfs_branch_of(f: Family) -> Seq<char> {
    "gki-"@ + id_of(f)
}

/// The kernel series of `f` precedes `version`.
pub open spec fn older_than(f: Family, version: (u32, u32)) -> bool {
    let (major, minor) = kernel_numbers(f);
    major < version.0 || (major == version.0 && minor < version.1)
}

/// Every family is in the list.
pub proof fn lemma_family_listed(f: Family) -> (k: int)
    ensures
        0 <= k < family_list().len(),
        family_list()[k] == f,
{
    match f {
        Family::Android12_5_10 => 0,
        Family::Android13_5_10 => 1,
        Family::Android13_5_15 => 2,
        Family::Android14_5_15 => 3,
        Family::Android14_6_1 => 4,
        Family::Android15_6_6 => 5,
        Family::Android16_6_12 => 6,
    }
}

/// The identifiers of all families, in order.
pub fn family_ids() -> (r: Vec<String>)
    ensures
        texts(r@) == family_list().map_values(|f: Family| id_of(f)),
{
    let all = Family::ALL;
    let mut r: Vec<String> = Vec::new();
    let ghost ids = family_list().map_values(|f: Family| id_of(f));
    let mut i: usize = 0;
    while i < 7
        invariant
            i <= 7,
            all@ == family_list(),
            ids == family_list().map_values(|f: Family| id_of(f)),
            texts(r@) == ids.take(i as int),
        decreases 7 - i,
    {
        let ghost before = texts(r@);
        r.push(all[i].id().to_owned());
        i += 1;
        assert(texts(r@) =~= before.push(id_of(all@[i - 1])));
        assert(texts(r@) =~= ids.take(i as int));
    }
    assert(ids.take(7) =~= ids);
    r
}

/// The identifiers of all families, separated by commas.
pub fn family_names() -> (r: String)
    ensures
        r@ == known_families(),
{
    join_with(&family_ids(), ", ")
}

/// The identifiers of all families, separated by commas.
pub open spec fn known_families() -> Seq<char> {
    joined_with(family_list().map_values(|f: Family| id_of(f)), ", "@)
}

// ---------------------------------------------------------------------------
// Laws
// ---------------------------------------------------------------------------

proof fn lemma_reveal_names()
    ensures
        "android12-5.10"@.len() == 14,
        "android13-5.10"@.len() == 14,
        "android13-5.15"@.len() == 14,
        "android14-5.15"@.len() == 14,
        "android14-6.1"@.len() == 13,
        "android15-6.6"@.len() == 13,
        "android16-6.12"@.len() == 14,
        "android12-5.10"@[8] == '2' && "android12-5.10"@[13] == '0',
        "android13-5.10"@[8] == '3' && "android13-5.10"@[13] == '0',
        "android13-5.15"@[8] == '3' && "android13-5.15"@[13] == '5',
        "android14-5.15"@[8] == '4',
        "android14-6.1"@[8] == '4',
        "android15-6.6"@[8] == '5',
        "android16-6.12"@[8] == '6',
{
    reveal_strlit("android12-5.10");
    reveal_strlit("android13-5.10");
    reveal_strlit("android13-5.15");
    reveal_strlit("android14-5.15");
    reveal_strlit("android14-6.1");
    reveal_strlit("android15-6.6");
    reveal_strlit("android16-6.12");
}

/// Different families have different identifiers.
pub proof fn law_family_ids_are_distinct(f: Family, g: Family)
    requires
        id_of(f) == id_of(g),
    ensures
        f == g,
{
    lemma_reveal_names();
    assert(id_of(f)[8] == id_of(g)[8]);
    assert(id_of(f)[13] == id_of(g)[13]);
}

/// An identifier is the Android release, a hyphen and the kernel series.
pub proof fn law_id_names_release_and_series(f: Family)
    ensures
        id_of(f) == android_of(f) + "-"@ + kernel_of(f),
{
    reveal_strlit("android12-5.10");
    reveal_strlit("android13-5.10");
    reveal_strlit("android13-5.15");
    reveal_strlit("android14-5.15");
    reveal_strlit("android14-6.1");
    reveal_strlit("android15-6.6");
    reveal_strlit("android16-6.12");
    reveal_strlit("android12");
    reveal_strlit("android13");
    reveal_strlit("android14");
    reveal_strlit("android15");
    reveal_strlit("android16");
    reveal_strlit("5.10");
    reveal_strlit("5.15");
    reveal_strlit("6.1");
    reveal_strlit("6.6");
    reveal_strlit("6.12");
    reveal_strlit("-");
    assert(id_of(f) =~= android_of(f) + "-"@ + kernel_of(f));
}

/// A series `a.b` with one digit before the point and one or two behind it.
pub proof fn lemma_series_key(s: Seq<char>)
    requires
        s.len() == 3 || s.len() == 4,
        is_digit(s[0]),
        s[1] == '.',
        is_digit(s[2]),
        s.len() == 4 ==> is_digit(s[3]),
    ensures
        key_of(s) == seq![
            (s[0] as nat - '0' as nat) as u64,
            if s.len() == 3 {
                (s[2] as nat - '0' as nat) as u64
            } else {
                ((s[2] as nat - '0' as nat) * 10 + (s[3] as nat - '0' as nat)) as u64
            },
        ],
{
    reveal_with_fuel(run_len, 4);
    reveal_with_fuel(digits_value, 4);
    reveal_with_fuel(digit_runs, 3);
    let t = s.skip(1);
    let u = t.skip(1);
    assert(s.take(1) =~= seq![s[0]]);
    assert(seq![s[0]].drop_last() =~= Seq::<char>::empty());
    let n = run_len(u) as int;
    if s.len() == 3 {
        assert(u =~= seq![s[2]]);
        assert(u.take(1) =~= u);
        assert(u.drop_last() =~= Seq::<char>::empty());
    } else {
        assert(u =~= seq![s[2], s[3]]);
        assert(u.skip(1) =~= seq![s[3]]);
        assert(u.take(2) =~= u);
        assert(u.drop_last() =~= seq![s[2]]);
        assert(u.drop_last().drop_last() =~= Seq::<char>::empty());
    }
    assert(u.skip(n) =~= Seq::<char>::empty());
    assert(digit_runs(u) =~= seq![u]);
    assert(digit_runs(s) =~= seq![seq![s[0]], u]);
    assert(key_of(s) =~= seq![run_value(seq![s[0]]), run_value(u)]);
}

/// A family is found by its identifier.
pub proof fn law_families_are_found_by_name(f: Family)
    ensures
        family_named(id_of(f)) == Some(f),
{
    let g = choose|g: Family| id_of(g) == id_of(f);
    law_family_ids_are_distinct(f, g);
}

/// The numbers of a family are those that stand in its series.
pub proof fn law_kernel_numbers_are_those_of_the_series(f: Family)
    ensures
        key_of(kernel_of(f)) == seq![kernel_numbers(f).0 as u64, kernel_numbers(f).1 as u64],
{
    reveal_strlit("5.10");
    reveal_strlit("5.15");
    reveal_strlit("6.1");
    reveal_strlit("6.6");
    reveal_strlit("6.12");
    lemma_series_key(kernel_of(f));
}

} // verus!
