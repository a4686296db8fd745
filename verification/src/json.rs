//! The small JSON emitter behind `--format json` list output: string
//! literals with RFC 8259 escapes, and numbers that stay unquoted.

use vstd::prelude::*;
use vstd::string::*;
use crate::text::{chars_of, hex_char, push_char};
use crate::wire::concat_str;

verus! {

/// The JSON escape of one character inside a string literal.
pub open spec fn json_escape_char(c: char) -> Seq<char> {
    if c == '"' {
        seq!['\\', '"']
    } else if c == '\\' {
        seq!['\\', '\\']
    } else if c == '\n' {
        seq!['\\', 'n']
    } else if c == '\r' {
        seq!['\\', 'r']
    } else if c == '\t' {
        seq!['\\', 't']
    } else if (c as u32) < 0x20 {
        seq!['\\', 'u', '0', '0', hex_char(((c as u32) / 16) as nat), hex_char(((c as u32) % 16) as nat)]
    } else {
        seq![c]
    }
}

/// The JSON escape of a text.
pub open spec fn json_escape(s: Seq<char>) -> Seq<char>
    decreases s.len(),
{
    if s.len() == 0 {
        Seq::empty()
    } else {
        json_escape(s.drop_last()) + json_escape_char(s.last())
    }
}

/// A text as a JSON string literal: quoted, with quotes, backslashes and
/// control characters escaped.
pub open spec fn json_string_spec(s: Seq<char>) -> Seq<char> {
    seq!['"'] + json_escape(s) + seq!['"']
}

fn push_escape(out: &mut String, c: char)
    ensures
        final(out)@ == old(out)@ + json_escape_char(c),
{
    if c == '"' {
        push_char(out, '\\');
        push_char(out, '"');
    } else if c == '\\' {
        push_char(out, '\\');
        push_char(out, '\\');
    } else if c == '\n' {
        push_char(out, '\\');
        push_char(out, 'n');
    } else if c == '\r' {
        push_char(out, '\\');
        push_char(out, 'r');
    } else if c == '\t' {
        push_char(out, '\\');
        push_char(out, 't');
    } else if (c as u32) < 0x20 {
        let u = c as u32;
        push_char(out, '\\');
        push_char(out, 'u');
        push_char(out, '0');
        push_char(out, '0');
        push_char(out, crate::text::hex_char_exec((u / 16) as u8));
        push_char(out, crate::text::hex_char_exec((u % 16) as u8));
    } else {
        push_char(out, c);
    }
    assert(out@ =~= old(out)@ + json_escape_char(c));
}

/// Serializes a text as a JSON string literal.
pub fn json_string(value: &str) -> (r: String)
    ensures
        r@ == json_string_spec(value@),
{
    let chars = chars_of(value);
    let mut out = String::new();
    push_char(&mut out, '"');
    let mut i: usize = 0;
    while i < chars.len()
        invariant
            i <= chars.len(),
            out@ == seq!['"'] + json_escape(chars@.take(i as int)),
        decreases chars.len() - i,
    {
        assert(chars@.take(i + 1).drop_last() =~= chars@.take(i as int));
        assert(chars@.take(i + 1).last() == chars@[i as int]);
        push_escape(&mut out, chars[i]);
        assert(out@ =~= seq!['"'] + json_escape(chars@.take(i + 1)));
        i = i + 1;
    }
    assert(chars@.take(i as int) =~= value@);
    push_char(&mut out, '"');
    assert(out@ =~= json_string_spec(value@));
    out
}

/// A field as a JSON number when it is a non-negative integer that fits in
/// 64 bits (in decimal, as std prints it), else as a JSON string.
pub open spec fn json_u64_or_string_spec(s: Seq<char>) -> Seq<char> {
    match crate::text::parse_unsigned(s, u64::MAX as nat) {
        Some(n) => crate::text::decimal(n),
        None => json_string_spec(s),
    }
}

/// Serializes a field as a JSON number when it is a non-negative integer,
/// else as a JSON string.
pub fn json_u64_or_string(value: &str) -> (r: String)
    ensures
        r@ == json_u64_or_string_spec(value@),
{
    let chars = chars_of(value);
    match crate::text::parse_unsigned_chars(&chars, u64::MAX) {
        Some(n) => crate::text::decimal_string(n),
        None => json_string(value),
    }
}

/// A flag field as a JSON boolean: `1` is true and `0` false; anything
/// else stays a JSON string.
pub open spec fn json_bool_spec(s: Seq<char>) -> Seq<char> {
    if s == "1"@ {
        "true"@
    } else if s == "0"@ {
        "false"@
    } else {
        json_string_spec(s)
    }
}

/// Serializes a flag field as a JSON boolean.
pub fn json_bool(value: &str) -> (r: String)
    ensures
        r@ == json_bool_spec(value@),
{
    if crate::text::str_eq(value, "1") {
        String::from_str("true")
    } else if crate::text::str_eq(value, "0") {
        String::from_str("false")
    } else {
        json_string(value)
    }
}

} // verus!
