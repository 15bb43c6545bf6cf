//! The fallback that adds the `min_kdp` symbols to an ABI description in STG form.
use crate::text::{
    chars_of, contains, ends_in, find_from, first_at, insert_at, inserted_at, lemma_find_from,
    lemma_first_at, occurs, occurs_at, string_of, vec_find,
};
use crate::text_laws::{clash, stand_apart};
use crate::words::{cat2, cat3};
use vstd::prelude::*;
use vstd::string::*;

verus! {

// ---------------------------------------------------------------------------
// Models
// ---------------------------------------------------------------------------

/// `out` with `block` in it: as it is where `label` is there already, else with
/// `block` in front of the first `anchor`, else with `block` at its end.
pub open spec fn ensured_before(
    out: Seq<char>,
    anchor: Seq<char>,
    block: Seq<char>,
    label: Seq<char>,
) -> Seq<char> {
    if occurs(out, label) {
        out
    } else {
        match first_at(out, anchor) {
            Some(i) => inserted_at(out, i, block),
            None => (if ends_in(out, '\n') {
                out
            } else {
                out.push('\n')
            }) + block,
        }
    }
}

pub open spec fn set_cred_type_anchor() -> Seq<char> {
    "function {\n  id: 0x1e571002"@
}

pub open spec fn set_cred_type() -> Seq<char> {
    "function {\n  id: 0x1e5195df\n  return_type_id: 0x48b5725f\n  parameter_id: 0x3d551c03\n  parameter_id: 0x6720d32f\n}\n"@
}

pub open spec fn set_cred_type_label() -> Seq<char> {
    "id: 0x1e5195df"@
}

pub open spec fn dec_test_type_anchor() -> Seq<char> {
    "function {\n  id: 0xc18f1240"@
}

pub open spec fn dec_test_type() -> Seq<char> {
    "function {\n  id: 0xc18e39fb\n  return_type_id: 0x4585663f\n  parameter_id: 0x3d551c03\n}\n"@
}

pub open spec fn dec_test_type_label() -> Seq<char> {
    "id: 0xc18e39fb"@
}

pub open spec fn symbol_anchor() -> Seq<char> {
    "elf_symbol {\n  id: 0x493ce9fc\n  name: \"loops_per_jiffy\""@
}

pub open spec fn set_cred_symbol() -> Seq<char> {
    "elf_symbol {\n  id: 0xb0801f6e\n  name: \"kdp_set_cred_non_rcu\"\n  is_defined: true\n  symbol_type: FUNCTION\n  crc: 0x738bae5e\n  type_id: 0x1e5195df\n  full_name: \"kdp_set_cred_non_rcu\"\n}\n"@
}

pub open spec fn set_cred_symbol_label() -> Seq<char> {
    "\"kdp_set_cred_non_rcu\""@
}

pub open spec fn dec_test_symbol() -> Seq<char> {
    "elf_symbol {\n  id: 0x3037c5bc\n  name: \"kdp_usecount_dec_and_test\"\n  is_defined: true\n  symbol_type: FUNCTION\n  crc: 0xda582aa5\n  type_id: 0xc18e39fb\n  full_name: \"kdp_usecount_dec_and_test\"\n}\n"@
}

pub open spec fn dec_test_symbol_label() -> Seq<char> {
    "\"kdp_usecount_dec_and_test\""@
}

pub open spec fn inc_symbol() -> Seq<char> {
    "elf_symbol {\n  id: 0x8334a496\n  name: \"kdp_usecount_inc\"\n  is_defined: true\n  symbol_type: FUNCTION\n  crc: 0xfb342499\n  type_id: 0x1fcd1693\n  full_name: \"kdp_usecount_inc\"\n}\n"@
}

pub open spec fn inc_symbol_label() -> Seq<char> {
    "\"kdp_usecount_inc\""@
}

/// `src` with the first function type.
pub open spec fn with_set_cred_type(src: Seq<char>) -> Seq<char> {
    ensured_before(src, set_cred_type_anchor(), set_cred_type(), set_cred_type_label())
}

/// `src` with both function types.
pub open spec fn with_types(src: Seq<char>) -> Seq<char> {
    ensured_before(
        with_set_cred_type(src),
        dec_test_type_anchor(),
        dec_test_type(),
        dec_test_type_label(),
    )
}

/// `src` with the three symbols.
pub open spec fn with_symbols(src: Seq<char>) -> Seq<char> {
    let a = ensured_before(src, symbol_anchor(), set_cred_symbol(), set_cred_symbol_label());
    let b = ensured_before(a, symbol_anchor(), dec_test_symbol(), dec_test_symbol_label());
    ensured_before(b, symbol_anchor(), inc_symbol(), inc_symbol_label())
}

/// The reference to the symbol `id` in an interface.
pub open spec fn symbol_ref(id: Seq<char>) -> Seq<char> {
    "symbol_id: "@ + id
}

/// The line that refers to the symbol `id`, where `out` has no such reference.
pub open spec fn missing_line(out: Seq<char>, id: Seq<char>) -> Seq<char> {
    if occurs(out, symbol_ref(id)) {
        seq![]
    } else {
        "  "@ + symbol_ref(id) + "\n"@
    }
}

/// The lines for the references that `out` lacks.
pub open spec fn missing_lines(out: Seq<char>) -> Seq<char> {
    missing_line(out, "0xb0801f6e"@) + missing_line(out, "0x3037c5bc"@) + missing_line(
        out,
        "0x8334a496"@,
    )
}

pub open spec fn interface_anchor() -> Seq<char> {
    "  symbol_id: 0xc750a072\n"@
}

/// Where the block that begins at `i` closes.
pub open spec fn interface_end(out: Seq<char>, i: int) -> int {
    match find_from(out, "\n}\n"@, i) {
        Some(e) => e,
        None => out.len() as int,
    }
}

/// `out` with the missing references behind the known one, else at the end of the
/// interface, else nowhere.
pub open spec fn with_references(out: Seq<char>) -> Seq<char> {
    let block = missing_lines(out);
    if block.len() == 0 {
        out
    } else {
        match first_at(out, interface_anchor()) {
            Some(i) => inserted_at(out, i + interface_anchor().len(), block),
            None => match first_at(out, "interface {"@) {
                Some(i) => inserted_at(out, interface_end(out, i), block.drop_last()),
                None => out,
            },
        }
    }
}

/// What `stg_insert` makes of an ABI description.
pub open spec fn stg_completed(src: Seq<char>) -> Seq<char> {
    with_references(with_symbols(with_types(src)))
}

// ---------------------------------------------------------------------------
// Functions
// ---------------------------------------------------------------------------

/// Puts `block` into `out` unless `label` is there already.
pub fn ensure_before(out: &str, anchor: &str, block: &str, label: &str) -> (r: String)
    ensures
        r@ == ensured_before(out@, anchor@, block@, label@),
{
    if contains(out, label) {
        return out.to_owned();
    }
    let v = chars_of(out);
    match vec_find(&v, &chars_of(anchor), 0) {
        Some(i) => {
            proof {
                lemma_first_at(out@, anchor@);
            }
            insert_at(out, i, block)
        },
        None => {
            let n: usize = v.len();
            if n == 0 || v[n - 1] != '\n' {
                proof {
                    reveal_strlit("\n");
                    assert(out@ + "\n"@ =~= out@.push('\n'));
                }
                cat3(out, "\n", block)
            } else {
                cat2(out, block)
            }
        },
    }
}

/// Appends to `block` the line for `id`, where `out` has no reference to it.
fn push_missing_line(block: &mut String, out: &str, id: &str)
    ensures
        final(block)@ == old(block)@ + missing_line(out@, id@),
{
    let reference = cat2("symbol_id: ", id);
    if !contains(out, &reference) {
        block.append("  ");
        block.append(&reference);
        block.append("\n");
    }
    assert(block@ =~= old(block)@ + missing_line(out@, id@));
}

/// Adds the references to the three symbols that the interface lacks.
pub fn insert_references(out: &str) -> (r: String)
    ensures
        r@ == with_references(out@),
{
    let mut block = String::new();
    push_missing_line(&mut block, out, "0xb0801f6e");
    push_missing_line(&mut block, out, "0x3037c5bc");
    push_missing_line(&mut block, out, "0x8334a496");
    assert(block@ =~= missing_lines(out@));
    let mut rows = chars_of(&block);
    if rows.len() == 0 {
        return out.to_owned();
    }
    let v = chars_of(out);
    let anchor = chars_of("  symbol_id: 0xc750a072\n");
    proof {
        lemma_first_at(out@, interface_anchor());
        lemma_first_at(out@, "interface {"@);
    }
    match vec_find(&v, &anchor, 0) {
        Some(i) => {
            let n: usize = v.len();
            assert(i + anchor@.len() <= n);
            insert_at(out, i + anchor.len(), &block)
        },
        None => match vec_find(&v, &chars_of("interface {"), 0) {
            Some(i) => {
                proof {
                    lemma_find_from(out@, "\n}\n"@, i as int);
                }
                let end: usize = match vec_find(&v, &chars_of("\n}\n"), i) {
                    Some(e) => e,
                    None => v.len(),
                };
                rows.pop();
                assert(rows@ =~= missing_lines(out@).drop_last());
                insert_at(out, end, &string_of(&rows))
            },
            None => out.to_owned(),
        },
    }
}

/// Adds the `min_kdp` types, symbols and references that an ABI description lacks.
pub fn stg_insert(src: &str) -> (r: String)
    ensures
        r@ == stg_completed(src@),
{
    let a = ensure_before(
        src,
        "function {\n  id: 0x1e571002",
        "function {\n  id: 0x1e5195df\n  return_type_id: 0x48b5725f\n  parameter_id: 0x3d551c03\n  parameter_id: 0x6720d32f\n}\n",
        "id: 0x1e5195df",
    );
    let b = ensure_before(
        &a,
        "function {\n  id: 0xc18f1240",
        "function {\n  id: 0xc18e39fb\n  return_type_id: 0x4585663f\n  parameter_id: 0x3d551c03\n}\n",
        "id: 0xc18e39fb",
    );
    let anchor = "elf_symbol {\n  id: 0x493ce9fc\n  name: \"loops_per_jiffy\"";
    let c = ensure_before(
        &b,
        anchor,
        "elf_symbol {\n  id: 0xb0801f6e\n  name: \"kdp_set_cred_non_rcu\"\n  is_defined: true\n  symbol_type: FUNCTION\n  crc: 0x738bae5e\n  type_id: 0x1e5195df\n  full_name: \"kdp_set_cred_non_rcu\"\n}\n",
        "\"kdp_set_cred_non_rcu\"",
    );
    let d = ensure_before(
        &c,
        anchor,
        "elf_symbol {\n  id: 0x3037c5bc\n  name: \"kdp_usecount_dec_and_test\"\n  is_defined: true\n  symbol_type: FUNCTION\n  crc: 0xda582aa5\n  type_id: 0xc18e39fb\n  full_name: \"kdp_usecount_dec_and_test\"\n}\n",
        "\"kdp_usecount_dec_and_test\"",
    );
    let e = ensure_before(
        &d,
        anchor,
        "elf_symbol {\n  id: 0x8334a496\n  name: \"kdp_usecount_inc\"\n  is_defined: true\n  symbol_type: FUNCTION\n  crc: 0xfb342499\n  type_id: 0x1fcd1693\n  full_name: \"kdp_usecount_inc\"\n}\n",
        "\"kdp_usecount_inc\"",
    );
    insert_references(&e)
}

// ---------------------------------------------------------------------------
// Laws
// ---------------------------------------------------------------------------

/// From index `k` on, `l` never shows the characters `a` and `b` in a row, nor `a` as
/// its last character.
spec fn free_of_pair(l: Seq<char>, a: char, b: char, k: int) -> bool
    decreases l.len() - k,
{
    if k >= l.len() {
        true
    } else {
        (l[k] != a || (k + 1 < l.len() && l[k + 1] != b)) && free_of_pair(l, a, b, k + 1)
    }
}

proof fn lemma_free_of_pair(l: Seq<char>, a: char, b: char, k: int, j: int)
    requires
        free_of_pair(l, a, b, k),
        k <= j < l.len(),
    ensures
        l[j] != a || (j + 1 < l.len() && l[j + 1] != b),
    decreases l.len() - k,
{
    if k < j {
        lemma_free_of_pair(l, a, b, k + 1, j);
    }
}

/// Text put in at an index keeps what stands wholly on one side of it.
proof fn lemma_insert_keeps_side(
    s: Seq<char>,
    i: int,
    t: Seq<char>,
    l: Seq<char>,
    p: int,
)
    requires
        0 <= i <= s.len(),
        occurs_at(s, l, p),
        p + l.len() <= i || p >= i,
    ensures
        occurs(inserted_at(s, i, t), l),
{
    let r = inserted_at(s, i, t);
    if p + l.len() <= i {
        assert(r.subrange(p, p + l.len()) =~= s.subrange(p, p + l.len()));
        assert(occurs_at(r, l, p));
    } else {
        let q = p + t.len();
        assert(r.subrange(q, q + l.len()) =~= s.subrange(p, p + l.len()));
        assert(occurs_at(r, l, q));
    }
}

/// A block in front of an anchor splits no label that the anchor cannot continue.
proof fn lemma_ensured_keeps(
    out: Seq<char>,
    anchor: Seq<char>,
    block: Seq<char>,
    label: Seq<char>,
    l: Seq<char>,
)
    requires
        anchor.len() >= 2,
        l.len() > 0,
        free_of_pair(l, anchor[0], anchor[1], 1),
        occurs(out, l),
    ensures
        occurs(ensured_before(out, anchor, block, label), l),
{
    if !occurs(out, label) {
        lemma_first_at(out, anchor);
        let p = choose|p: int| occurs_at(out, l, p);
        match first_at(out, anchor) {
            Some(i) => {
                if p < i < p + l.len() {
                    let k = i - p;
                    lemma_free_of_pair(l, anchor[0], anchor[1], 1, k);
                    assert(out.subrange(i, i + anchor.len())[0] == anchor[0]);
                    assert(out.subrange(i, i + anchor.len())[1] == anchor[1]);
                    assert(out.subrange(p, p + l.len())[k] == l[k]);
                    if k + 1 < l.len() {
                        assert(out.subrange(p, p + l.len())[k + 1] == l[k + 1]);
                    }
                }
                lemma_insert_keeps_side(out, i, block, l, p);
            },
            None => {
                let r = ensured_before(out, anchor, block, label);
                assert(r.subrange(p, p + l.len()) =~= out.subrange(p, p + l.len()));
                assert(occurs_at(r, l, p));
            },
        }
    }
}

/// A block that shows its label brings the label in.
proof fn lemma_ensured_brings(
    out: Seq<char>,
    anchor: Seq<char>,
    block: Seq<char>,
    label: Seq<char>,
    at: int,
)
    requires
        occurs_at(block, label, at),
    ensures
        occurs(ensured_before(out, anchor, block, label), label),
{
    if !occurs(out, label) {
        lemma_first_at(out, anchor);
        let r = ensured_before(out, anchor, block, label);
        let q = match first_at(out, anchor) {
            Some(i) => i,
            None => r.len() - block.len(),
        };
        assert(r.subrange(q + at, q + at + label.len()) =~= block.subrange(at, at + label.len()));
        assert(occurs_at(r, label, q + at));
    }
}

/// `l` holds no line feed.
spec fn one_line(l: Seq<char>) -> bool {
    forall|i: int| 0 <= i < l.len() ==> l[i] != '\n'
}

/// Completing the references keeps every text without a line feed that was there.
proof fn lemma_references_keep(out: Seq<char>, l: Seq<char>)
    requires
        one_line(l),
        occurs(out, l),
    ensures
        occurs(with_references(out), l),
{
    let block = missing_lines(out);
    let anchor = interface_anchor();
    let p = choose|p: int| occurs_at(out, l, p);
    reveal_strlit("  symbol_id: 0xc750a072\n");
    reveal_strlit("\n}\n");
    if block.len() > 0 {
        lemma_first_at(out, anchor);
        lemma_first_at(out, "interface {"@);
        if let Some(i) = first_at(out, anchor) {
            let q = i + anchor.len();
            if p < q < p + l.len() {
                assert(out.subrange(i, q)[anchor.len() - 1] == anchor[anchor.len() - 1]);
                assert(out.subrange(p, p + l.len())[q - 1 - p] == l[q - 1 - p]);
            }
            lemma_insert_keeps_side(out, q, block, l, p);
        } else if let Some(i) = first_at(out, "interface {"@) {
            lemma_find_from(out, "\n}\n"@, i);
            let q = interface_end(out, i);
            if p < q < p + l.len() {
                assert(occurs_at(out, "\n}\n"@, q));
                assert(out.subrange(q, q + 3)[0] == "\n}\n"@[0]);
                assert(out.subrange(p, p + l.len())[q - p] == l[q - p]);
            }
            lemma_insert_keeps_side(out, q, block.drop_last(), l, p);
        }
    }
}

/// A reference that was missing stands in the block that is put in.
proof fn lemma_block_has(out: Seq<char>, id: Seq<char>, at: int)
    requires
        missing_line(out, id).len() > 0,
        0 <= at,
        at + missing_line(out, id).len() <= missing_lines(out).len(),
        missing_lines(out).subrange(at, at + missing_line(out, id).len()) == missing_line(out, id),
    ensures
        occurs(missing_lines(out), symbol_ref(id)),
        occurs(missing_lines(out).drop_last(), symbol_ref(id)),
{
    reveal_strlit("  ");
    reveal_strlit("\n");
    let block = missing_lines(out);
    let line = missing_line(out, id);
    let r = symbol_ref(id);
    assert(line.subrange(2, (2 + r.len()) as int) =~= r);
    assert(block.subrange(at + 2, at + 2 + r.len()) =~= block.subrange(
        at,
        at + line.len(),
    ).subrange(2, (2 + r.len()) as int));
    assert(occurs_at(block, r, at + 2));
    assert(block.drop_last().subrange(at + 2, at + 2 + r.len()) =~= r);
    assert(occurs_at(block.drop_last(), r, at + 2));
}

/// What is put in is there.
proof fn lemma_inserted_has(s: Seq<char>, i: int, t: Seq<char>, n: Seq<char>)
    requires
        0 <= i <= s.len(),
        occurs(t, n),
    ensures
        occurs(inserted_at(s, i, t), n),
{
    let p = choose|p: int| occurs_at(t, n, p);
    let r = inserted_at(s, i, t);
    assert(r.subrange(i + p, i + p + n.len()) =~= t.subrange(p, p + n.len()));
    assert(occurs_at(r, n, i + p));
}

/// One of the references is there once the references were completed in a text with
/// an interface.
proof fn lemma_reference_there(out: Seq<char>, id: Seq<char>, at: int)
    requires
        one_line(id),
        first_at(out, interface_anchor()) is Some || first_at(out, "interface {"@) is Some,
        missing_line(out, id).len() > 0 ==> {
            &&& 0 <= at
            &&& at + missing_line(out, id).len() <= missing_lines(out).len()
            &&& missing_lines(out).subrange(at, at + missing_line(out, id).len()) == missing_line(
                out,
                id,
            )
        },
    ensures
        occurs(with_references(out), symbol_ref(id)),
{
    reveal_strlit("symbol_id: ");
    reveal_strlit("  ");
    assert(one_line(symbol_ref(id)));
    if occurs(out, symbol_ref(id)) {
        lemma_references_keep(out, symbol_ref(id));
    } else {
        assert(missing_line(out, id).len() > 0);
        lemma_block_has(out, id, at);
        lemma_first_at(out, interface_anchor());
        lemma_first_at(out, "interface {"@);
        let block = missing_lines(out);
        if let Some(i) = first_at(out, interface_anchor()) {
            lemma_inserted_has(out, i + interface_anchor().len(), block, symbol_ref(id));
        } else if let Some(i) = first_at(out, "interface {"@) {
            lemma_find_from(out, "\n}\n"@, i);
            lemma_inserted_has(out, interface_end(out, i), block.drop_last(), symbol_ref(id));
        }
    }
}

/// Once the references were completed in a text with an interface, all three are
/// there.
pub proof fn law_references_are_complete(out: Seq<char>)
    requires
        occurs(out, interface_anchor()) || occurs(out, "interface {"@),
    ensures
        occurs(with_references(out), symbol_ref("0xb0801f6e"@)),
        occurs(with_references(out), symbol_ref("0x3037c5bc"@)),
        occurs(with_references(out), symbol_ref("0x8334a496"@)),
{
    lemma_first_at(out, interface_anchor());
    lemma_first_at(out, "interface {"@);
    reveal_strlit("0xb0801f6e");
    reveal_strlit("0x3037c5bc");
    reveal_strlit("0x8334a496");
    let a = missing_line(out, "0xb0801f6e"@);
    let b = missing_line(out, "0x3037c5bc"@);
    let c = missing_line(out, "0x8334a496"@);
    let block = missing_lines(out);
    assert(block.subrange(0, a.len() as int) =~= a);
    assert(block.subrange(a.len() as int, (a.len() + b.len()) as int) =~= b);
    assert(block.subrange((a.len() + b.len()) as int, block.len() as int) =~= c);
    lemma_reference_there(out, "0xb0801f6e"@, 0);
    lemma_reference_there(out, "0x3037c5bc"@, a.len() as int);
    lemma_reference_there(out, "0x8334a496"@, (a.len() + b.len()) as int);
}

/// Completing the references a second time changes nothing.
pub proof fn law_references_are_completed_once(out: Seq<char>)
    ensures
        with_references(with_references(out)) == with_references(out),
{
    lemma_first_at(out, interface_anchor());
    lemma_first_at(out, "interface {"@);
    if occurs(out, interface_anchor()) || occurs(out, "interface {"@) {
        law_references_are_complete(out);
        assert(missing_lines(with_references(out)).len() == 0);
    }
}

proof fn lemma_labels()
    ensures
        occurs_at(set_cred_type(), set_cred_type_label(), 13),
        occurs_at(dec_test_type(), dec_test_type_label(), 13),
        occurs_at(set_cred_symbol(), set_cred_symbol_label(), 38),
        occurs_at(dec_test_symbol(), dec_test_symbol_label(), 38),
        occurs_at(inc_symbol(), inc_symbol_label(), 38),
{
    reveal_strlit(
        "function {\n  id: 0x1e5195df\n  return_type_id: 0x48b5725f\n  parameter_id: 0x3d551c03\n  parameter_id: 0x6720d32f\n}\n",
    );
    reveal_strlit("id: 0x1e5195df");
    reveal_strlit(
        "function {\n  id: 0xc18e39fb\n  return_type_id: 0x4585663f\n  parameter_id: 0x3d551c03\n}\n",
    );
    reveal_strlit("id: 0xc18e39fb");
    reveal_strlit(
        "elf_symbol {\n  id: 0xb0801f6e\n  name: \"kdp_set_cred_non_rcu\"\n  is_defined: true\n  symbol_type: FUNCTION\n  crc: 0x738bae5e\n  type_id: 0x1e5195df\n  full_name: \"kdp_set_cred_non_rcu\"\n}\n",
    );
    reveal_strlit("\"kdp_set_cred_non_rcu\"");
    reveal_strlit(
        "elf_symbol {\n  id: 0x3037c5bc\n  name: \"kdp_usecount_dec_and_test\"\n  is_defined: true\n  symbol_type: FUNCTION\n  crc: 0xda582aa5\n  type_id: 0xc18e39fb\n  full_name: \"kdp_usecount_dec_and_test\"\n}\n",
    );
    reveal_strlit("\"kdp_usecount_dec_and_test\"");
    reveal_strlit(
        "elf_symbol {\n  id: 0x8334a496\n  name: \"kdp_usecount_inc\"\n  is_defined: true\n  symbol_type: FUNCTION\n  crc: 0xfb342499\n  type_id: 0x1fcd1693\n  full_name: \"kdp_usecount_inc\"\n}\n",
    );
    reveal_strlit("\"kdp_usecount_inc\"");
    assert(set_cred_type().subrange(13, 27) =~= set_cred_type_label());
    assert(dec_test_type().subrange(13, 27) =~= dec_test_type_label());
    assert(set_cred_symbol().subrange(38, 60) =~= set_cred_symbol_label());
    assert(dec_test_symbol().subrange(38, 65) =~= dec_test_symbol_label());
    assert(inc_symbol().subrange(38, 56) =~= inc_symbol_label());
}

/// The symbol anchor continues none of the labels.
proof fn lemma_symbol_anchor_apart()
    ensures
        symbol_anchor().len() >= 2,
        free_of_pair(set_cred_type_label(), symbol_anchor()[0], symbol_anchor()[1], 1),
        free_of_pair(dec_test_type_label(), symbol_anchor()[0], symbol_anchor()[1], 1),
        free_of_pair(set_cred_symbol_label(), symbol_anchor()[0], symbol_anchor()[1], 1),
        free_of_pair(dec_test_symbol_label(), symbol_anchor()[0], symbol_anchor()[1], 1),
        one_line(set_cred_type_label()),
        one_line(dec_test_type_label()),
        one_line(set_cred_symbol_label()),
        one_line(dec_test_symbol_label()),
        one_line(inc_symbol_label()),
        set_cred_type_label().len() > 0,
        dec_test_type_label().len() > 0,
        set_cred_symbol_label().len() > 0,
        dec_test_symbol_label().len() > 0,
{
    reveal_strlit("elf_symbol {\n  id: 0x493ce9fc\n  name: \"loops_per_jiffy\"");
    reveal_strlit("id: 0x1e5195df");
    reveal_strlit("id: 0xc18e39fb");
    reveal_strlit("\"kdp_set_cred_non_rcu\"");
    reveal_strlit("\"kdp_usecount_dec_and_test\"");
    reveal_strlit("\"kdp_usecount_inc\"");
    reveal_with_fuel(free_of_pair, 30);
}

/// The first type is there once both types were ensured: where the second goes in
/// between the label of the first and its last letter, it begins with that letter.
proof fn lemma_first_type_stays(src: Seq<char>)
    ensures
        occurs(with_types(src), set_cred_type_label()),
{
    lemma_labels();
    reveal_strlit("id: 0x1e5195df");
    reveal_strlit("function {\n  id: 0xc18f1240");
    reveal_strlit(
        "function {\n  id: 0xc18e39fb\n  return_type_id: 0x4585663f\n  parameter_id: 0x3d551c03\n}\n",
    );
    let l = set_cred_type_label();
    let anchor = dec_test_type_anchor();
    let block = dec_test_type();
    let out = with_set_cred_type(src);
    lemma_ensured_brings(src, set_cred_type_anchor(), set_cred_type(), l, 13);
    if !occurs(out, dec_test_type_label()) {
        lemma_first_at(out, anchor);
        let p = choose|p: int| occurs_at(out, l, p);
        let r = with_types(src);
        if let Some(i) = first_at(out, anchor) {
            if p < i < p + l.len() {
                let k = i - p;
                assert(out.subrange(i, i + anchor.len())[0] == 'f');
                assert(out.subrange(i, i + anchor.len())[1] == 'u');
                assert(out.subrange(p, p + l.len())[k] == l[k]);
                assert(k == 13);
                assert forall|j: int| 0 <= j < l.len() implies r.subrange(p, p + l.len())[j]
                    == l[j] by {
                    assert(out.subrange(p, p + l.len())[j] == l[j]);
                    if j == 13 {
                        assert(r[i] == block[0]);
                    }
                }
                assert(r.subrange(p, p + l.len()) =~= l);
                assert(occurs_at(r, l, p));
            } else {
                lemma_insert_keeps_side(out, i, block, l, p);
            }
        } else {
            assert(r.subrange(p, p + l.len()) =~= out.subrange(p, p + l.len()));
            assert(occurs_at(r, l, p));
        }
    }
}

/// The completed description shows both types and all three symbols.
pub proof fn law_stg_symbols_are_there(src: Seq<char>)
    ensures
        occurs(stg_completed(src), set_cred_type_label()),
        occurs(stg_completed(src), dec_test_type_label()),
        occurs(stg_completed(src), set_cred_symbol_label()),
        occurs(stg_completed(src), dec_test_symbol_label()),
        occurs(stg_completed(src), inc_symbol_label()),
{
    lemma_labels();
    lemma_symbol_anchor_apart();
    lemma_first_type_stays(src);
    let t0 = with_set_cred_type(src);
    let t = with_types(src);
    let an = symbol_anchor();
    let a = ensured_before(t, an, set_cred_symbol(), set_cred_symbol_label());
    let b = ensured_before(a, an, dec_test_symbol(), dec_test_symbol_label());
    let c = ensured_before(b, an, inc_symbol(), inc_symbol_label());
    lemma_ensured_brings(t0, dec_test_type_anchor(), dec_test_type(), dec_test_type_label(), 13);
    lemma_ensured_brings(t, an, set_cred_symbol(), set_cred_symbol_label(), 38);
    lemma_ensured_brings(a, an, dec_test_symbol(), dec_test_symbol_label(), 38);
    lemma_ensured_brings(b, an, inc_symbol(), inc_symbol_label(), 38);
    lemma_kept_by_symbols(t, set_cred_type_label());
    lemma_references_keep(c, set_cred_type_label());
    lemma_kept_by_symbols(t, dec_test_type_label());
    lemma_references_keep(c, dec_test_type_label());
    lemma_ensured_keeps(
        a,
        an,
        dec_test_symbol(),
        dec_test_symbol_label(),
        set_cred_symbol_label(),
    );
    lemma_ensured_keeps(b, an, inc_symbol(), inc_symbol_label(), set_cred_symbol_label());
    lemma_references_keep(c, set_cred_symbol_label());
    lemma_ensured_keeps(b, an, inc_symbol(), inc_symbol_label(), dec_test_symbol_label());
    lemma_references_keep(c, dec_test_symbol_label());
    lemma_references_keep(c, inc_symbol_label());
}

/// The symbols keep a label that their anchor cannot continue.
proof fn lemma_kept_by_symbols(t: Seq<char>, l: Seq<char>)
    requires
        symbol_anchor().len() >= 2,
        l.len() > 0,
        free_of_pair(l, symbol_anchor()[0], symbol_anchor()[1], 1),
        occurs(t, l),
    ensures
        occurs(with_symbols(t), l),
{
    let an = symbol_anchor();
    let a = ensured_before(t, an, set_cred_symbol(), set_cred_symbol_label());
    let b = ensured_before(a, an, dec_test_symbol(), dec_test_symbol_label());
    lemma_ensured_keeps(t, an, set_cred_symbol(), set_cred_symbol_label(), l);
    lemma_ensured_keeps(a, an, dec_test_symbol(), dec_test_symbol_label(), l);
    lemma_ensured_keeps(b, an, inc_symbol(), inc_symbol_label(), l);
}

/// Completing a description a second time changes nothing.
pub proof fn law_stg_insert_is_idempotent(src: Seq<char>)
    ensures
        stg_completed(stg_completed(src)) == stg_completed(src),
{
    law_stg_symbols_are_there(src);
    law_references_are_completed_once(with_symbols(with_types(src)));
}

/// A label does not come about across a block: wherever it would begin in the block, one
/// of its first two characters or the one at `m` differs, and wherever it would end in the
/// block, the first two characters of the block differ from it.
proof fn lemma_label_is_apart(l: Seq<char>, block: Seq<char>, m: int)
    requires
        l.len() > 1,
        block.len() > 1,
        0 <= m < l.len(),
        forall|d: int|
            0 <= d < block.len() ==> #[trigger] block[d] != l[0] || (d + 1 < block.len() && block[d
                + 1] != l[1]) || (d + m < block.len() && block[d + m] != l[m]),
        forall|k: int|
            0 < k < l.len() - 1 ==> #[trigger] l[k] != block[0] || l[k + 1] != block[1],
        l[l.len() - 1] != block[0],
    ensures
        stand_apart(l, block),
{
    assert forall|d: int| -l.len() < d < block.len() implies #[trigger] clash(l, block, d) by {
        if d >= 0 {
            assert(block[d] != l[d - d] || (d + 1 < block.len() && block[d + 1] != l[d + 1 - d])
                || (d + m < block.len() && block[d + m] != l[d + m - d]));
        } else {
            assert(l[-d] != block[0] || (-d < l.len() - 1 && l[-d + 1] != block[1]));
            assert(block[0] != l[0 - d] || (0 < 1 - d < l.len() && block[1] != l[1 - d]));
        }
    }
}

/// A block brings in no label that stands apart from it.
proof fn lemma_ensured_brings_no_other(
    out: Seq<char>,
    anchor: Seq<char>,
    block: Seq<char>,
    label: Seq<char>,
    l: Seq<char>,
)
    requires
        !occurs(out, l),
        one_line(l),
        l.len() > 0,
        stand_apart(l, block),
    ensures
        !occurs(ensured_before(out, anchor, block, label), l),
{
    if !occurs(out, label) {
        lemma_first_at(out, anchor);
        let r = ensured_before(out, anchor, block, label);
        let q = match first_at(out, anchor) {
            Some(i) => i,
            None => r.len() - block.len(),
        };
        if occurs(r, l) {
            let p = choose|p: int| occurs_at(r, l, p);
            assert(r.subrange(p, p + l.len()) == l);
            assert forall|i: int| 0 <= i < l.len() implies #[trigger] l[i] == r[p + i] by {
                assert(r.subrange(p, p + l.len())[i] == l[i]);
            }
            if p + l.len() <= q {
                if first_at(out, anchor) is None && !ends_in(out, '\n') && p + l.len() == q {
                    assert(l[l.len() - 1] == r[p + (l.len() - 1)]);
                    assert(r[q - 1] == '\n');
                }
                assert(out.subrange(p, p + l.len()) =~= l);
                assert(occurs_at(out, l, p));
            } else if p >= q + block.len() {
                let t = p - block.len();
                assert(out.subrange(t, t + l.len()) =~= l);
                assert(occurs_at(out, l, t));
            } else {
                assert(clash(l, block, p - q));
                let j = choose|j: int|
                    0 <= j < block.len() && p - q <= j < p - q + l.len() && #[trigger] block[j]
                        != l[j - (p - q)];
                assert(r[p + (j - (p - q))] == block[j]);
            }
        }
    }
}

/// A block that was missing is there.
proof fn lemma_block_is_there(
    out: Seq<char>,
    anchor: Seq<char>,
    block: Seq<char>,
    label: Seq<char>,
)
    requires
        !occurs(out, label),
    ensures
        occurs(ensured_before(out, anchor, block, label), block),
{
    lemma_first_at(out, anchor);
    let r = ensured_before(out, anchor, block, label);
    let q = match first_at(out, anchor) {
        Some(i) => i,
        None => r.len() - block.len(),
    };
    assert(r.subrange(q, q + block.len()) =~= block);
    assert(occurs_at(r, block, q));
}

/// References behind the known one split no text with a line feed elsewhere than behind
/// a `2`.
proof fn lemma_references_keep_block(out: Seq<char>, l: Seq<char>)
    requires
        occurs(out, interface_anchor()),
        occurs(out, l),
        forall|k: int| 0 <= k < l.len() && #[trigger] l[k] == '\n' ==> k > 0 && l[k - 1] != '2',
    ensures
        occurs(with_references(out), l),
{
    let block = missing_lines(out);
    let anchor = interface_anchor();
    let p = choose|p: int| occurs_at(out, l, p);
    reveal_strlit("  symbol_id: 0xc750a072\n");
    if block.len() > 0 {
        lemma_first_at(out, anchor);
        let i = first_at(out, anchor).unwrap();
        let q = i + anchor.len();
        assert(out.subrange(i, q)[22] == '2' && out.subrange(i, q)[23] == '\n');
        if p < q < p + l.len() {
            assert(out.subrange(p, p + l.len())[q - 1 - p] == l[q - 1 - p]);
            if q - 2 >= p {
                assert(out.subrange(p, p + l.len())[q - 2 - p] == l[q - 2 - p]);
            }
        }
        lemma_insert_keeps_side(out, q, block, l, p);
    }
}

proof fn lemma_blocks_revealed()
    ensures
        stand_apart(dec_test_type_label(), set_cred_type()),
        stand_apart(set_cred_symbol_label(), set_cred_type()),
        stand_apart(set_cred_symbol_label(), dec_test_type()),
        stand_apart(dec_test_symbol_label(), set_cred_type()),
        stand_apart(dec_test_symbol_label(), dec_test_type()),
        stand_apart(dec_test_symbol_label(), set_cred_symbol()),
        stand_apart(inc_symbol_label(), set_cred_type()),
        stand_apart(inc_symbol_label(), dec_test_type()),
        stand_apart(inc_symbol_label(), set_cred_symbol()),
        stand_apart(inc_symbol_label(), dec_test_symbol()),
{
    reveal_strlit(
        "function {\n  id: 0x1e5195df\n  return_type_id: 0x48b5725f\n  parameter_id: 0x3d551c03\n  parameter_id: 0x6720d32f\n}\n",
    );
    reveal_strlit(
        "function {\n  id: 0xc18e39fb\n  return_type_id: 0x4585663f\n  parameter_id: 0x3d551c03\n}\n",
    );
    reveal_strlit(
        "elf_symbol {\n  id: 0xb0801f6e\n  name: \"kdp_set_cred_non_rcu\"\n  is_defined: true\n  symbol_type: FUNCTION\n  crc: 0x738bae5e\n  type_id: 0x1e5195df\n  full_name: \"kdp_set_cred_non_rcu\"\n}\n",
    );
    reveal_strlit(
        "elf_symbol {\n  id: 0x3037c5bc\n  name: \"kdp_usecount_dec_and_test\"\n  is_defined: true\n  symbol_type: FUNCTION\n  crc: 0xda582aa5\n  type_id: 0xc18e39fb\n  full_name: \"kdp_usecount_dec_and_test\"\n}\n",
    );
    reveal_strlit("id: 0xc18e39fb");
    reveal_strlit("\"kdp_set_cred_non_rcu\"");
    reveal_strlit("\"kdp_usecount_dec_and_test\"");
    reveal_strlit("\"kdp_usecount_inc\"");
    lemma_label_is_apart(dec_test_type_label(), set_cred_type(), 6);
    lemma_label_is_apart(set_cred_symbol_label(), set_cred_type(), 0);
    lemma_label_is_apart(set_cred_symbol_label(), dec_test_type(), 0);
    lemma_label_is_apart(dec_test_symbol_label(), set_cred_type(), 0);
    lemma_label_is_apart(dec_test_symbol_label(), dec_test_type(), 0);
    lemma_label_is_apart(dec_test_symbol_label(), set_cred_symbol(), 5);
    lemma_label_is_apart(inc_symbol_label(), set_cred_type(), 0);
    lemma_label_is_apart(inc_symbol_label(), dec_test_type(), 0);
    lemma_label_is_apart(inc_symbol_label(), set_cred_symbol(), 5);
    lemma_label_is_apart(inc_symbol_label(), dec_test_symbol(), 14);
}

/// The blocks hold no anchor from their second character on, and no line of them ends in
/// a `2`.
proof fn lemma_blocks_stay_whole()
    ensures
        free_of_pair(set_cred_type(), 'f', 'u', 1),
        free_of_pair(set_cred_type(), 'e', 'l', 1),
        free_of_pair(dec_test_type(), 'e', 'l', 1),
        free_of_pair(set_cred_symbol(), 'e', 'l', 1),
        free_of_pair(dec_test_symbol(), 'e', 'l', 1),
        free_of_pair(interface_anchor(), 'f', 'u', 1),
        free_of_pair(interface_anchor(), 'e', 'l', 1),
        set_cred_type_anchor().len() >= 2 && set_cred_type_anchor()[0] == 'f'
            && set_cred_type_anchor()[1] == 'u',
        dec_test_type_anchor().len() >= 2 && dec_test_type_anchor()[0] == 'f'
            && dec_test_type_anchor()[1] == 'u',
        symbol_anchor().len() >= 2 && symbol_anchor()[0] == 'e' && symbol_anchor()[1] == 'l',
        no_two_ends(set_cred_type()),
        no_two_ends(dec_test_type()),
        no_two_ends(set_cred_symbol()),
        no_two_ends(dec_test_symbol()),
        no_two_ends(inc_symbol()),
        interface_anchor().len() > 0,
        set_cred_type().len() > 0,
        dec_test_type().len() > 0,
        set_cred_symbol().len() > 0,
        dec_test_symbol().len() > 0,
{
    reveal_strlit(
        "function {\n  id: 0x1e5195df\n  return_type_id: 0x48b5725f\n  parameter_id: 0x3d551c03\n  parameter_id: 0x6720d32f\n}\n",
    );
    reveal_strlit(
        "function {\n  id: 0xc18e39fb\n  return_type_id: 0x4585663f\n  parameter_id: 0x3d551c03\n}\n",
    );
    reveal_strlit(
        "elf_symbol {\n  id: 0xb0801f6e\n  name: \"kdp_set_cred_non_rcu\"\n  is_defined: true\n  symbol_type: FUNCTION\n  crc: 0x738bae5e\n  type_id: 0x1e5195df\n  full_name: \"kdp_set_cred_non_rcu\"\n}\n",
    );
    reveal_strlit(
        "elf_symbol {\n  id: 0x3037c5bc\n  name: \"kdp_usecount_dec_and_test\"\n  is_defined: true\n  symbol_type: FUNCTION\n  crc: 0xda582aa5\n  type_id: 0xc18e39fb\n  full_name: \"kdp_usecount_dec_and_test\"\n}\n",
    );
    reveal_strlit(
        "elf_symbol {\n  id: 0x8334a496\n  name: \"kdp_usecount_inc\"\n  is_defined: true\n  symbol_type: FUNCTION\n  crc: 0xfb342499\n  type_id: 0x1fcd1693\n  full_name: \"kdp_usecount_inc\"\n}\n",
    );
    reveal_strlit("  symbol_id: 0xc750a072\n");
    reveal_strlit("function {\n  id: 0x1e571002");
    reveal_strlit("function {\n  id: 0xc18f1240");
    reveal_strlit("elf_symbol {\n  id: 0x493ce9fc\n  name: \"loops_per_jiffy\"");
    lemma_pairs_are_missing(set_cred_type(), 'f', 'u', 1);
    lemma_pairs_are_missing(set_cred_type(), 'e', 'l', 1);
    lemma_pairs_are_missing(dec_test_type(), 'e', 'l', 1);
    lemma_pairs_are_missing(set_cred_symbol(), 'e', 'l', 1);
    lemma_pairs_are_missing(dec_test_symbol(), 'e', 'l', 1);
    lemma_pairs_are_missing(interface_anchor(), 'f', 'u', 1);
    lemma_pairs_are_missing(interface_anchor(), 'e', 'l', 1);
}

/// No line of the text ends in a `2`, and it does not begin with a line feed.
spec fn no_two_ends(l: Seq<char>) -> bool {
    forall|k: int| 0 <= k < l.len() && #[trigger] l[k] == '\n' ==> k > 0 && l[k - 1] != '2'
}

proof fn lemma_pairs_are_missing(l: Seq<char>, a: char, b: char, k: int)
    requires
        0 <= k,
        forall|j: int|
            k <= j < l.len() ==> #[trigger] l[j] != a || (j + 1 < l.len() && l[j + 1] != b),
    ensures
        free_of_pair(l, a, b, k),
    decreases l.len() - k,
{
    if k < l.len() {
        lemma_pairs_are_missing(l, a, b, k + 1);
    }
}

/// A description with the known reference gets each type and symbol that it lacked whole:
/// with its identifier, its types or its checksum, and its names.
pub proof fn law_symbols_are_described_in_full(src: Seq<char>)
    requires
        occurs(src, "  symbol_id: 0xc750a072\n"@),
    ensures
        !occurs(src, "id: 0x1e5195df"@) ==> occurs(
            stg_completed(src),
            "function {\n  id: 0x1e5195df\n  return_type_id: 0x48b5725f\n  parameter_id: 0x3d551c03\n  parameter_id: 0x6720d32f\n}\n"@,
        ),
        !occurs(src, "id: 0xc18e39fb"@) ==> occurs(
            stg_completed(src),
            "function {\n  id: 0xc18e39fb\n  return_type_id: 0x4585663f\n  parameter_id: 0x3d551c03\n}\n"@,
        ),
        !occurs(src, "\"kdp_set_cred_non_rcu\""@) ==> occurs(
            stg_completed(src),
            "elf_symbol {\n  id: 0xb0801f6e\n  name: \"kdp_set_cred_non_rcu\"\n  is_defined: true\n  symbol_type: FUNCTION\n  crc: 0x738bae5e\n  type_id: 0x1e5195df\n  full_name: \"kdp_set_cred_non_rcu\"\n}\n"@,
        ),
        !occurs(src, "\"kdp_usecount_dec_and_test\""@) ==> occurs(
            stg_completed(src),
            "elf_symbol {\n  id: 0x3037c5bc\n  name: \"kdp_usecount_dec_and_test\"\n  is_defined: true\n  symbol_type: FUNCTION\n  crc: 0xda582aa5\n  type_id: 0xc18e39fb\n  full_name: \"kdp_usecount_dec_and_test\"\n}\n"@,
        ),
        !occurs(src, "\"kdp_usecount_inc\""@) ==> occurs(
            stg_completed(src),
            "elf_symbol {\n  id: 0x8334a496\n  name: \"kdp_usecount_inc\"\n  is_defined: true\n  symbol_type: FUNCTION\n  crc: 0xfb342499\n  type_id: 0x1fcd1693\n  full_name: \"kdp_usecount_inc\"\n}\n"@,
        ),
{
    lemma_blocks_revealed();
    lemma_blocks_stay_whole();
    lemma_labels_are_lines();
    let (ta, tb, an) = (set_cred_type_anchor(), dec_test_type_anchor(), symbol_anchor());
    let (t1, t2) = (set_cred_type(), dec_test_type());
    let (s1, s2, s3) = (set_cred_symbol(), dec_test_symbol(), inc_symbol());
    let (m1, m2) = (set_cred_type_label(), dec_test_type_label());
    let (l1, l2, l3) = (set_cred_symbol_label(), dec_test_symbol_label(), inc_symbol_label());
    let known = interface_anchor();
    let a = ensured_before(src, ta, t1, m1);
    let b = ensured_before(a, tb, t2, m2);
    let c = ensured_before(b, an, s1, l1);
    let d = ensured_before(c, an, s2, l2);
    let e = ensured_before(d, an, s3, l3);
    assert(stg_completed(src) == with_references(e));
    lemma_ensured_keeps(src, ta, t1, m1, known);
    lemma_ensured_keeps(a, tb, t2, m2, known);
    lemma_ensured_keeps(b, an, s1, l1, known);
    lemma_ensured_keeps(c, an, s2, l2, known);
    lemma_ensured_keeps(d, an, s3, l3, known);
    if !occurs(src, m1) {
        lemma_block_is_there(src, ta, t1, m1);
        lemma_ensured_keeps(a, tb, t2, m2, t1);
        lemma_ensured_keeps(b, an, s1, l1, t1);
        lemma_ensured_keeps(c, an, s2, l2, t1);
        lemma_ensured_keeps(d, an, s3, l3, t1);
        lemma_references_keep_block(e, t1);
    }
    if !occurs(src, m2) {
        lemma_ensured_brings_no_other(src, ta, t1, m1, m2);
        lemma_block_is_there(a, tb, t2, m2);
        lemma_ensured_keeps(b, an, s1, l1, t2);
        lemma_ensured_keeps(c, an, s2, l2, t2);
        lemma_ensured_keeps(d, an, s3, l3, t2);
        lemma_references_keep_block(e, t2);
    }
    if !occurs(src, l1) {
        lemma_ensured_brings_no_other(src, ta, t1, m1, l1);
        lemma_ensured_brings_no_other(a, tb, t2, m2, l1);
        lemma_block_is_there(b, an, s1, l1);
        lemma_ensured_keeps(c, an, s2, l2, s1);
        lemma_ensured_keeps(d, an, s3, l3, s1);
        lemma_references_keep_block(e, s1);
    }
    if !occurs(src, l2) {
        lemma_ensured_brings_no_other(src, ta, t1, m1, l2);
        lemma_ensured_brings_no_other(a, tb, t2, m2, l2);
        lemma_ensured_brings_no_other(b, an, s1, l1, l2);
        lemma_block_is_there(c, an, s2, l2);
        lemma_ensured_keeps(d, an, s3, l3, s2);
        lemma_references_keep_block(e, s2);
    }
    if !occurs(src, l3) {
        lemma_ensured_brings_no_other(src, ta, t1, m1, l3);
        lemma_ensured_brings_no_other(a, tb, t2, m2, l3);
        lemma_ensured_brings_no_other(b, an, s1, l1, l3);
        lemma_ensured_brings_no_other(c, an, s2, l2, l3);
        lemma_block_is_there(d, an, s3, l3);
        lemma_references_keep_block(e, s3);
    }
}

proof fn lemma_labels_are_lines()
    ensures
        one_line(dec_test_type_label()) && dec_test_type_label().len() > 0,
        one_line(set_cred_symbol_label()) && set_cred_symbol_label().len() > 0,
        one_line(dec_test_symbol_label()) && dec_test_symbol_label().len() > 0,
        one_line(inc_symbol_label()) && inc_symbol_label().len() > 0,
{
    reveal_strlit("id: 0xc18e39fb");
    reveal_strlit("\"kdp_set_cred_non_rcu\"");
    reveal_strlit("\"kdp_usecount_dec_and_test\"");
    reveal_strlit("\"kdp_usecount_inc\"");
}

} // verus!
