#![allow(unused_imports, dead_code)]

use dmux::json::{json_string, json_u64_or_string};


#[test]
fn json_string_escapes_quotes_backslashes_and_controls() {
    assert_eq!(json_string("plain"), "\"plain\"");
    assert_eq!(json_string("a\"b\\c"), "\"a\\\"b\\\\c\"");
    assert_eq!(json_string("line\nbreak\ttab"), "\"line\\nbreak\\ttab\"");
    assert_eq!(json_string("\u{1}"), "\"\\u0001\"");
}

#[test]
fn json_u64_or_string_keeps_integers_unquoted() {
    assert_eq!(json_u64_or_string("0"), "0");
    assert_eq!(json_u64_or_string("42"), "42");
    // Non-integer or signed values fall back to a quoted string.
    assert_eq!(json_u64_or_string("-1"), "\"-1\"");
    assert_eq!(json_u64_or_string("n/a"), "\"n/a\"");
}
