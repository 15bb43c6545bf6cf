//! Version and sublevel comparison in the manner of `sort -V`.
use crate::text::{all_digits, chars_of, digits_value, is_digit, range_of, trimmed, unsigned_value};
use crate::words::{vec_digits, vec_trim, vec_unsigned};
use vstd::prelude::*;

verus! {

// ---------------------------------------------------------------------------
// Models
// ---------------------------------------------------------------------------

/// The number of leading digits of `s`.
pub open spec fn run_len(s: Seq<char>) -> nat
    decreases s.len(),
{
    if s.len() > 0 && is_digit(s[0]) {
        1 + run_len(s.skip(1))
    } else {
        0
    }
}

/// The leading digits of a text are digits of it.
pub proof fn lemma_run_len(s: Seq<char>)
    ensures
        run_len(s) <= s.len(),
        all_digits(s.take(run_len(s) as int)),
        s.len() > 0 && is_digit(s[0]) ==> run_len(s) > 0,
    decreases s.len(),
{
    if s.len() > 0 && is_digit(s[0]) {
        lemma_run_len(s.skip(1));
        let t = s.take(run_len(s) as int);
        let u = s.skip(1).take(run_len(s.skip(1)) as int);
        assert forall|i: int| 0 <= i < t.len() implies is_digit(#[trigger] t[i]) by {
            if i > 0 {
                assert(t[i] == u[i - 1]);
            }
        }
    }
}

/// The runs of digits in `s`, from the left.
pub open spec fn digit_runs(s: Seq<char>) -> Seq<Seq<char>>
    decreases s.len(),
{
    if s.len() == 0 {
        seq![]
    } else if !is_digit(s[0]) {
        digit_runs(s.skip(1))
    } else {
        proof {
            lemma_run_len(s);
        }
        seq![s.take(run_len(s) as int)] + digit_runs(s.skip(run_len(s) as int))
    }
}

/// The number that a run of digits writes, zero where it exceeds 64 bits.
pub open spec fn run_value(r: Seq<char>) -> u64 {
    if digits_value(r) <= u64::MAX {
        digits_value(r) as u64
    } else {
        0
    }
}

/// The numbers in a version string.
pub open spec fn key_of(s: Seq<char>) -> Seq<u64> {
    digit_runs(s).map_values(|r: Seq<char>| run_value(r))
}

/// The component `i` of a key, zero behind its end.
pub open spec fn key_at(k: Seq<u64>, i: int) -> u64 {
    if 0 <= i < k.len() {
        k[i]
    } else {
        0
    }
}

/// The keys agree in the components before `i`.
pub open spec fn keys_agree(a: Seq<u64>, b: Seq<u64>, i: int) -> bool {
    forall|j: int| 0 <= j < i ==> #[trigger] key_at(a, j) == key_at(b, j)
}

/// `a` is the greater at the component `i`, the first at which the keys differ.
pub open spec fn exceeds_at(a: Seq<u64>, b: Seq<u64>, i: int) -> bool {
    0 <= i && keys_agree(a, b, i) && key_at(a, i) > key_at(b, i)
}

/// `a` is not below `b` when missing components count as zero.
pub open spec fn key_ge(a: Seq<u64>, b: Seq<u64>) -> bool {
    ||| forall|j: int| 0 <= j ==> #[trigger] key_at(a, j) == key_at(b, j)
    ||| exists|i: int| exceeds_at(a, b, i)
}

/// The number in a sublevel, if it is one.
pub open spec fn sublevel_number(s: Seq<char>) -> Option<nat> {
    unsigned_value(trimmed(s), u64::MAX as nat)
}

pub open spec fn sublevel_at_most(s: Seq<char>, bound: u64) -> bool {
    sublevel_number(s) matches Some(n) && n <= bound
}

pub open spec fn sublevel_at_least(s: Seq<char>, bound: u64) -> bool {
    sublevel_number(s) matches Some(n) && n >= bound
}

// ---------------------------------------------------------------------------
// Functions
// ---------------------------------------------------------------------------

/// The numbers in a version string, in the order in which they stand there.
pub fn version_key(value: &str) -> (key: Vec<u64>)
    ensures
        key@ == key_of(value@),
{
    let v = chars_of(value);
    let mut key: Vec<u64> = Vec::new();
    let mut i: usize = 0;
    assert(v@.skip(0) =~= v@);
    while i < v.len()
        invariant
            i <= v@.len(),
            key_of(v@) == key@ + key_of(v@.skip(i as int)),
        decreases v@.len() - i,
    {
        let ghost rest = v@.skip(i as int);
        if '0' <= v[i] && v[i] <= '9' {
            let start: usize = i;
            assert(rest.skip(0) =~= rest);
            while i < v.len() && '0' <= v[i] && v[i] <= '9'
                invariant
                    start <= i <= v@.len(),
                    rest == v@.skip(start as int),
                    run_len(rest) == (i - start) + run_len(rest.skip(i - start)),
                decreases v@.len() - i,
            {
                assert(rest.skip(i - start).skip(1) =~= rest.skip(i + 1 - start));
                i += 1;
            }
            proof {
                lemma_run_len(rest);
            }
            let run = range_of(&v, start, i);
            assert(run@ =~= rest.take(run_len(rest) as int));
            assert(rest.skip(run_len(rest) as int) =~= v@.skip(i as int));
            let n: u64 = match vec_digits(&run, u64::MAX) {
                Some(n) => n,
                None => 0,
            };
            key.push(n);
            assert(key_of(rest) =~= seq![n] + key_of(v@.skip(i as int)));
        } else {
            assert(rest.skip(1) =~= v@.skip(i + 1));
            i += 1;
        }
        assert(key_of(v@) =~= key@ + key_of(v@.skip(i as int)));
    }
    assert(key_of(v@.skip(i as int)) =~= Seq::<u64>::empty());
    key
}

/// Tells whether version `a` is not below version `b`.
pub fn version_ge(a: &str, b: &str) -> (r: bool)
    ensures
        r == key_ge(key_of(a@), key_of(b@)),
{
    let ka = version_key(a);
    let kb = version_key(b);
    let n: usize = if ka.len() > kb.len() {
        ka.len()
    } else {
        kb.len()
    };
    let mut i: usize = 0;
    while i < n
        invariant
            i <= n,
            ka@ == key_of(a@),
            kb@ == key_of(b@),
            n >= ka@.len(),
            n >= kb@.len(),
            keys_agree(ka@, kb@, i as int),
        decreases n - i,
    {
        let x: u64 = if i < ka.len() {
            ka[i]
        } else {
            0
        };
        let y: u64 = if i < kb.len() {
            kb[i]
        } else {
            0
        };
        assert(x == key_at(ka@, i as int) && y == key_at(kb@, i as int));
        if x != y {
            proof {
                if x > y {
                    assert(exceeds_at(ka@, kb@, i as int));
                } else if key_ge(ka@, kb@) {
                    let k = choose|k: int| exceeds_at(ka@, kb@, k);
                    assert(exceeds_at(ka@, kb@, k));
                    assert(k != i);
                    if k < i {
                        assert(key_at(ka@, k) == key_at(kb@, k));
                    } else {
                        assert(key_at(ka@, i as int) == key_at(kb@, i as int));
                    }
                }
            }
            return x > y;
        }
        i += 1;
    }
    assert forall|j: int| 0 <= j implies #[trigger] key_at(ka@, j) == key_at(kb@, j) by {}
    true
}

/// Tells whether a sublevel is a number of at most `bound`.
pub fn sublevel_le(sublevel: &str, bound: u64) -> (r: bool)
    ensures
        r == sublevel_at_most(sublevel@, bound),
{
    match vec_unsigned(&vec_trim(&chars_of(sublevel)), u64::MAX) {
        Some(n) => n <= bound,
        None => false,
    }
}

/// Tells whether a sublevel is a number of at least `bound`.
pub fn sublevel_ge(sublevel: &str, bound: u64) -> (r: bool)
    ensures
        r == sublevel_at_least(sublevel@, bound),
{
    match vec_unsigned(&vec_trim(&chars_of(sublevel)), u64::MAX) {
        Some(n) => n >= bound,
        None => false,
    }
}

// ---------------------------------------------------------------------------
// Laws
// ---------------------------------------------------------------------------

proof fn lemma_first_difference(a: Seq<u64>, b: Seq<u64>, j: int) -> (i: int)
    requires
        0 <= j,
        key_at(a, j) != key_at(b, j),
    ensures
        exceeds_at(a, b, i) || exceeds_at(b, a, i),
    decreases j,
{
    if keys_agree(a, b, j) {
        assert(keys_agree(b, a, j));
        j
    } else {
        let k = choose|k: int| 0 <= k < j && #[trigger] key_at(a, k) != key_at(b, k);
        lemma_first_difference(a, b, k)
    }
}

/// Every version is at least itself.
pub proof fn law_version_order_is_reflexive(a: Seq<u64>)
    ensures
        key_ge(a, a),
{
}

/// Of two versions one is at least the other.
pub proof fn law_version_order_is_total(a: Seq<u64>, b: Seq<u64>)
    ensures
        key_ge(a, b) || key_ge(b, a),
{
    if exists|j: int| 0 <= j && #[trigger] key_at(a, j) != key_at(b, j) {
        let j = choose|j: int| 0 <= j && #[trigger] key_at(a, j) != key_at(b, j);
        let i = lemma_first_difference(a, b, j);
    }
}

/// Versions that are each at least the other agree in every component.
pub proof fn law_version_order_is_antisymmetric(a: Seq<u64>, b: Seq<u64>)
    requires
        key_ge(a, b),
        key_ge(b, a),
    ensures
        forall|j: int| 0 <= j ==> #[trigger] key_at(a, j) == key_at(b, j),
{
    if exists|i: int| exceeds_at(a, b, i) {
        let i = choose|i: int| exceeds_at(a, b, i);
        assert(key_at(a, i) > key_at(b, i));
        let k = choose|k: int| exceeds_at(b, a, k);
        assert(key_at(b, k) > key_at(a, k));
        assert(exceeds_at(b, a, k));
        if i < k {
            assert(key_at(b, i) == key_at(a, i));
        } else {
            assert(key_at(a, k) == key_at(b, k));
        }
    }
}

/// The order of versions is transitive.
pub proof fn law_version_order_is_transitive(a: Seq<u64>, b: Seq<u64>, c: Seq<u64>)
    requires
        key_ge(a, b),
        key_ge(b, c),
    ensures
        key_ge(a, c),
{
    if exists|i: int| exceeds_at(a, b, i) {
        let i = choose|i: int| exceeds_at(a, b, i);
        if exists|k: int| exceeds_at(b, c, k) {
            let k = choose|k: int| exceeds_at(b, c, k);
            let m = if i < k {
                i
            } else {
                k
            };
            assert forall|j: int| 0 <= j < m implies #[trigger] key_at(a, j) == key_at(c, j) by {
                assert(key_at(a, j) == key_at(b, j));
                assert(key_at(b, j) == key_at(c, j));
            }
            if i < k {
                assert(key_at(b, i) == key_at(c, i));
            } else if k < i {
                assert(key_at(a, k) == key_at(b, k));
            }
            assert(exceeds_at(a, c, m));
        } else {
            assert forall|j: int| 0 <= j < i implies #[trigger] key_at(a, j) == key_at(c, j) by {
                assert(key_at(b, j) == key_at(c, j));
            }
            assert(key_at(b, i) == key_at(c, i));
            assert(exceeds_at(a, c, i));
        }
    } else if exists|k: int| exceeds_at(b, c, k) {
        let k = choose|k: int| exceeds_at(b, c, k);
        assert forall|j: int| 0 <= j < k implies #[trigger] key_at(a, j) == key_at(c, j) by {
            assert(key_at(a, j) == key_at(b, j));
            assert(key_at(b, j) == key_at(c, j));
        }
        assert(key_at(a, k) == key_at(b, k));
        assert(exceeds_at(a, c, k));
    } else {
        assert forall|j: int| 0 <= j implies #[trigger] key_at(a, j) == key_at(c, j) by {
            assert(key_at(a, j) == key_at(b, j));
        }
    }
}

/// A sublevel that is no number meets no bound; one that is a number meets, of a
/// bound and the next greater one, exactly one of the two opposite tests.
pub proof fn law_sublevel_bounds_split_the_numbers(s: Seq<char>, bound: u64)
    requires
        bound < u64::MAX,
    ensures
        sublevel_number(s) is None ==> !sublevel_at_most(s, bound) && !sublevel_at_least(s, bound),
        sublevel_number(s) is Some ==> (sublevel_at_most(s, bound) <==> !sublevel_at_least(
            s,
            (bound + 1) as u64,
        )),
{
}

} // verus!
