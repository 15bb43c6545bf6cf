//! The fallback for ABI descriptions.
use trustgki::stg::{ensure_before, stg_insert};

#[test]
fn stg_fallback_inserts_symbols_and_is_idempotent() {
    let src = "function {\n  id: 0x1e571002\n}\n\
function {\n  id: 0xc18f1240\n}\n\
elf_symbol {\n  id: 0x493ce9fc\n  name: \"loops_per_jiffy\"\n}\n\
interface {\n  symbol_id: 0xc750a072\n}\n";
    let once = stg_insert(src);
    assert!(once.contains("kdp_set_cred_non_rcu"));
    assert!(once.contains("symbol_id: 0xb0801f6e"));
    assert!(once.contains("symbol_id: 0x3037c5bc"));
    assert!(once.contains("symbol_id: 0x8334a496"));
    assert_eq!(once, stg_insert(&once), "stg fallback must be idempotent");
    assert!(once.ends_with(
        "interface {\n  symbol_id: 0xc750a072\n  symbol_id: 0xb0801f6e\n  symbol_id: 0x3037c5bc\n  symbol_id: 0x8334a496\n}\n"
    ));
}

#[test]
fn references_go_to_the_end_of_an_interface_without_the_known_one() {
    let out = stg_insert("interface {\n  symbol_id: 0x1\n}\nrest\n");
    assert!(out.starts_with(
        "interface {\n  symbol_id: 0x1  symbol_id: 0xb0801f6e\n  symbol_id: 0x3037c5bc\n  symbol_id: 0x8334a496\n}\nrest\n"
    ));
    assert_eq!(stg_insert(&out), out);
}

#[test]
fn a_description_without_anchors_gets_its_blocks_at_the_end() {
    let out = stg_insert("");
    assert!(out.starts_with("\nfunction {\n  id: 0x1e5195df\n"));
    assert!(out.ends_with("full_name: \"kdp_usecount_inc\"\n}\n"));
    assert!(!out.contains("symbol_id"));
    assert_eq!(stg_insert(&out), out);
}

#[test]
fn a_label_that_runs_into_an_anchor_stays_whole() {
    let src = "id: 0x1e5195dfunction {\n  id: 0xc18f1240\n";
    let once = stg_insert(src);
    assert!(once.starts_with("id: 0x1e5195dfunction {\n  id: 0xc18e39fb\n"));
    assert_eq!(stg_insert(&once), once);
}

#[test]
fn a_block_goes_in_front_of_the_first_anchor() {
    assert_eq!(ensure_before("a-b-b", "b", "[x]", "x"), "a-[x]b-b");
    assert_eq!(ensure_before("a-x-b", "b", "[x]", "x"), "a-x-b");
    assert_eq!(ensure_before("a", "b", "[x]", "x"), "a\n[x]");
    assert_eq!(ensure_before("a\n", "b", "[x]", "x"), "a\n[x]");
}
