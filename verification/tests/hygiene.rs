//! Identifier hygiene: reserved-word escaping and decimal numerals.

use bindgen_core::ident::{dec_numeral, rust_id};

#[test]
fn reserved_word_escaped() {
    assert_eq!(rust_id("type"), "_type");
    assert_eq!(rust_id("fn"), "_fn");
    assert_eq!(rust_id("match"), "_match");
    assert_eq!(rust_id("self"), "_self");
    assert_eq!(rust_id("while"), "_while");
}

#[test]
fn non_reserved_unchanged() {
    assert_eq!(rust_id("point"), "point");
    assert_eq!(rust_id("typedef"), "typedef");
    assert_eq!(rust_id(""), "");
    assert_eq!(rust_id("Type"), "Type");
}

#[test]
fn escape_is_idempotent() {
    let once = rust_id("type");
    let twice = rust_id(&once);
    assert_eq!(once, twice);
}

#[test]
fn decimal_numerals() {
    assert_eq!(dec_numeral(0), "0");
    assert_eq!(dec_numeral(1), "1");
    assert_eq!(dec_numeral(9), "9");
    assert_eq!(dec_numeral(10), "10");
    assert_eq!(dec_numeral(42), "42");
    assert_eq!(dec_numeral(1234567890), "1234567890");
}
