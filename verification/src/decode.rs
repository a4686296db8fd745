//! Decoding request lines, field by field. Every decoder is stated against
//! a model that says, for each input, which value or which error message
//! comes out.

use vstd::prelude::*;
use vstd::string::*;
use vstd::utf8::{decode_utf8, encode_utf8, valid_utf8};
use crate::text::{
    all_digits, chars_eq_str, debug_quote, debug_quoted, decode_hex_bytes, decode_hex_spec,
    digits_value, find_char, find_char_index, lemma_find_char_is, parse_isize_chars, parse_isize_spec,
    parse_unsigned, parse_unsigned_chars, parse_usize_chars, split, split_chars,
    string_from_chars, string_from_range, sub_chars, string_from_utf8, utf8_bytes,
};
use crate::protocol::{
    views, BufferSelectionView, CaptureMode, LayoutPreset, PaneDirection, PaneResizeDirection,
    PaneSelectTarget, PaneTarget, Request, RequestView, SplitDirection, Target, TargetView,
    WindowTarget, WindowTargetView, ARG_SEPARATOR, MAX_SAVE_BUFFER_TEXT_BYTES,
};
use crate::wire::concat_str;
use crate::encode::window_or_active;
use crate::protocol::{active_target, BufferSelection};

verus! {

/// A result with its text as characters.
pub open spec fn str_res(r: Result<String, String>) -> Result<Seq<char>, Seq<char>> {
    match r {
        Ok(s) => Ok(s@),
        Err(e) => Err(e@),
    }
}

/// A result with its optional text as characters.
pub open spec fn opt_str_res(r: Result<Option<String>, String>) -> Result<
    Option<Seq<char>>,
    Seq<char>,
> {
    match r {
        Ok(Some(s)) => Ok(Some(s@)),
        Ok(None) => Ok(None),
        Err(e) => Err(e@),
    }
}

/// A result with its error message as characters.
pub open spec fn err_view<T>(r: Result<T, String>) -> Result<T, Seq<char>> {
    match r {
        Ok(v) => Ok(v),
        Err(e) => Err(e@),
    }
}

pub open spec fn bytes_res(r: Result<Vec<u8>, String>) -> Result<Seq<u8>, Seq<char>> {
    match r {
        Ok(v) => Ok(v@),
        Err(e) => Err(e@),
    }
}

pub open spec fn target_res(r: Result<Target, String>) -> Result<TargetView, Seq<char>> {
    match r {
        Ok(v) => Ok(v@),
        Err(e) => Err(e@),
    }
}

pub open spec fn window_res(r: Result<WindowTarget, String>) -> Result<WindowTargetView, Seq<char>> {
    match r {
        Ok(v) => Ok(v@),
        Err(e) => Err(e@),
    }
}

pub open spec fn command_res(r: Result<Vec<String>, String>) -> Result<Seq<Seq<char>>, Seq<char>> {
    match r {
        Ok(v) => Ok(views(v@)),
        Err(e) => Err(e@),
    }
}

pub open spec fn request_res(r: Result<Request, String>) -> Result<RequestView, Seq<char>> {
    match r {
        Ok(v) => Ok(v@),
        Err(e) => Err(e@),
    }
}

/// A `usize` written in decimal, if it is one.
pub open spec fn dec_usize(s: Seq<char>) -> Option<usize> {
    match parse_unsigned(s, usize::MAX as nat) {
        Some(n) => Some(n as usize),
        None => None,
    }
}

/// Hexadecimal UTF-8 text, decoded.
pub open spec fn dec_utf8_hex(s: Seq<char>, command: Seq<char>) -> Result<Seq<char>, Seq<char>> {
    match decode_hex_spec(encode_utf8(s)) {
        Err(m) => Err(m),
        Ok(b) => if valid_utf8(b) {
            Ok(decode_utf8(b))
        } else {
            Err(command + " has non-utf8 format"@)
        },
    }
}

pub fn decode_utf8_hex(s: &[char], command: &str) -> (r: Result<String, String>)
    ensures
        str_res(r) == dec_utf8_hex(s@, command@),
{
    let bytes = utf8_bytes(s);
    match decode_hex_bytes(bytes.as_slice()) {
        Err(e) => Err(e),
        Ok(b) => match string_from_utf8(b) {
            Some(t) => Ok(t),
            None => Err(concat_str(command, " has non-utf8 format")),
        },
    }
}

/// Hexadecimal UTF-8 text whose hexadecimal form is at most twice
/// `max_decoded_bytes` bytes long.
pub open spec fn dec_utf8_hex_limited(
    s: Seq<char>,
    command: Seq<char>,
    max_decoded_bytes: nat,
    too_large: Seq<char>,
) -> Result<Seq<char>, Seq<char>> {
    if encode_utf8(s).len() > 2 * max_decoded_bytes {
        Err(too_large)
    } else {
        dec_utf8_hex(s, command)
    }
}

pub fn decode_utf8_hex_limited(
    s: &[char],
    command: &str,
    max_decoded_bytes: usize,
    too_large: &str,
) -> (r: Result<String, String>)
    requires
        max_decoded_bytes <= MAX_SAVE_BUFFER_TEXT_BYTES,
    ensures
        str_res(r) == dec_utf8_hex_limited(s@, command@, max_decoded_bytes as nat, too_large@),
{
    let bytes = utf8_bytes(s);
    if bytes.len() > max_decoded_bytes * 2 {
        return Err(String::from_str(too_large));
    }
    decode_utf8_hex(s, command)
}

/// Optional text: empty means absent, anything else is hexadecimal UTF-8.
pub open spec fn dec_optional_text(s: Seq<char>, command: Seq<char>) -> Result<
    Option<Seq<char>>,
    Seq<char>,
> {
    if s.len() == 0 {
        Ok(None)
    } else {
        match dec_utf8_hex(s, command) {
            Ok(t) => Ok(Some(t)),
            Err(e) => Err(e),
        }
    }
}

pub fn decode_optional_text(s: &[char], command: &str) -> (r: Result<Option<String>, String>)
    ensures
        opt_str_res(r) == dec_optional_text(s@, command@),
{
    if s.len() == 0 {
        Ok(None)
    } else {
        match decode_utf8_hex(s, command) {
            Ok(t) => Ok(Some(t)),
            Err(e) => Err(e),
        }
    }
}

/// Raw bytes written in hexadecimal.
pub open spec fn dec_hex(s: Seq<char>) -> Result<Seq<u8>, Seq<char>> {
    decode_hex_spec(encode_utf8(s))
}

pub fn decode_hex_field(s: &[char]) -> (r: Result<Vec<u8>, String>)
    ensures
        bytes_res(r) == dec_hex(s@),
{
    let bytes = utf8_bytes(s);
    decode_hex_bytes(bytes.as_slice())
}

/// A decimal `usize`, or the given error.
pub open spec fn dec_usize_or(s: Seq<char>, message: Seq<char>) -> Result<usize, Seq<char>> {
    match dec_usize(s) {
        Some(n) => Ok(n),
        None => Err(message),
    }
}

pub fn decode_usize_or(s: &[char], message: &str) -> (r: Result<usize, String>)
    ensures
        err_view(r) == dec_usize_or(s@, message@),
{
    match parse_usize_chars(s) {
        Some(n) => Ok(n),
        None => Err(String::from_str(message)),
    }
}

/// A decimal `u16`, or the given error.
pub open spec fn dec_u16_or(s: Seq<char>, message: Seq<char>) -> Result<u16, Seq<char>> {
    match parse_unsigned(s, u16::MAX as nat) {
        Some(n) => Ok(n as u16),
        None => Err(message),
    }
}

pub fn decode_u16_or(s: &[char], message: &str) -> (r: Result<u16, String>)
    ensures
        err_view(r) == dec_u16_or(s@, message@),
{
    match parse_unsigned_chars(s, u16::MAX as u64) {
        Some(n) => Ok(n as u16),
        None => Err(String::from_str(message)),
    }
}

/// A positive decimal `usize`, or the given error.
pub open spec fn dec_positive_index(s: Seq<char>, message: Seq<char>) -> Result<usize, Seq<char>> {
    match dec_usize(s) {
        Some(n) => if n > 0 {
            Ok(n)
        } else {
            Err(message)
        },
        None => Err(message),
    }
}

pub fn decode_positive_index(s: &[char], message: &str) -> (r: Result<usize, String>)
    ensures
        err_view(r) == dec_positive_index(s@, message@),
{
    match parse_usize_chars(s) {
        Some(n) => if n > 0 {
            Ok(n)
        } else {
            Err(String::from_str(message))
        },
        None => Err(String::from_str(message)),
    }
}

/// Empty means absent; otherwise a positive decimal `usize`.
pub open spec fn dec_optional_positive_index(s: Seq<char>, message: Seq<char>) -> Result<
    Option<usize>,
    Seq<char>,
> {
    if s.len() == 0 {
        Ok(None)
    } else {
        match dec_positive_index(s, message) {
            Ok(n) => Ok(Some(n)),
            Err(e) => Err(e),
        }
    }
}

pub fn decode_optional_positive_index(s: &[char], message: &str) -> (r: Result<
    Option<usize>,
    String,
>)
    ensures
        err_view(r) == dec_optional_positive_index(s@, message@),
{
    if s.len() == 0 {
        Ok(None)
    } else {
        match decode_positive_index(s, message) {
            Ok(n) => Ok(Some(n)),
            Err(e) => Err(e),
        }
    }
}

/// A nonzero decimal `isize`, or the given error.
pub open spec fn dec_line_offset(s: Seq<char>, message: Seq<char>) -> Result<isize, Seq<char>> {
    match parse_isize_spec(s) {
        Some(n) => if n != 0 {
            Ok(n as isize)
        } else {
            Err(message)
        },
        None => Err(message),
    }
}

pub fn decode_line_offset(s: &[char], message: &str) -> (r: Result<isize, String>)
    ensures
        err_view(r) == dec_line_offset(s@, message@),
{
    match parse_isize_chars(s) {
        Some(n) => if n != 0 {
            Ok(n)
        } else {
            Err(String::from_str(message))
        },
        None => Err(String::from_str(message)),
    }
}

/// `active` means absent; otherwise a decimal `usize`.
pub open spec fn dec_optional_index(s: Seq<char>, message: Seq<char>) -> Result<
    Option<usize>,
    Seq<char>,
> {
    if s == "active"@ {
        Ok(None)
    } else {
        match dec_usize(s) {
            Some(n) => Ok(Some(n)),
            None => Err(message),
        }
    }
}

pub fn decode_optional_index(s: &[char], message: &str) -> (r: Result<Option<usize>, String>)
    ensures
        err_view(r) == dec_optional_index(s@, message@),
{
    if chars_eq_str(s, "active") {
        Ok(None)
    } else {
        match parse_usize_chars(s) {
            Some(n) => Ok(Some(n)),
            None => Err(String::from_str(message)),
        }
    }
}

/// Empty means absent; otherwise a decimal client id.
pub open spec fn dec_optional_client_id(s: Seq<char>) -> Result<Option<usize>, Seq<char>> {
    if s.len() == 0 {
        Ok(None)
    } else {
        match dec_usize(s) {
            Some(n) => Ok(Some(n)),
            None => Err("DETACH_CLIENT has invalid client id"@),
        }
    }
}

pub fn decode_optional_client_id(s: &[char]) -> (r: Result<Option<usize>, String>)
    ensures
        err_view(r) == dec_optional_client_id(s@),
{
    if s.len() == 0 {
        Ok(None)
    } else {
        match parse_usize_chars(s) {
            Some(n) => Ok(Some(n)),
            None => Err(String::from_str("DETACH_CLIENT has invalid client id")),
        }
    }
}

/// `active`, or a window index in decimal.
pub open spec fn dec_window_target(s: Seq<char>, message: Seq<char>) -> Result<
    WindowTargetView,
    Seq<char>,
> {
    if s == "active"@ {
        Ok(WindowTargetView::Active)
    } else {
        match dec_usize(s) {
            Some(n) => Ok(WindowTargetView::Index(n)),
            None => Err(message),
        }
    }
}

pub fn decode_window_target(s: &[char], message: &str) -> (r: Result<WindowTarget, String>)
    ensures
        window_res(r) == dec_window_target(s@, message@),
{
    if chars_eq_str(s, "active") {
        Ok(WindowTarget::Active)
    } else {
        match parse_usize_chars(s) {
            Some(n) => Ok(WindowTarget::Index(n)),
            None => Err(String::from_str(message)),
        }
    }
}

pub open spec fn dec_capture_mode(s: Seq<char>) -> Result<CaptureMode, Seq<char>> {
    if s == "screen"@ {
        Ok(CaptureMode::Screen)
    } else if s == "history"@ {
        Ok(CaptureMode::History)
    } else if s == "all"@ {
        Ok(CaptureMode::All)
    } else {
        Err("CAPTURE has invalid mode"@)
    }
}

pub fn decode_capture_mode(s: &[char]) -> (r: Result<CaptureMode, String>)
    ensures
        err_view(r) == dec_capture_mode(s@),
{
    if chars_eq_str(s, "screen") {
        Ok(CaptureMode::Screen)
    } else if chars_eq_str(s, "history") {
        Ok(CaptureMode::History)
    } else if chars_eq_str(s, "all") {
        Ok(CaptureMode::All)
    } else {
        Err(String::from_str("CAPTURE has invalid mode"))
    }
}

pub open spec fn dec_split_direction(s: Seq<char>) -> Result<SplitDirection, Seq<char>> {
    if s == "h"@ {
        Ok(SplitDirection::Horizontal)
    } else if s == "v"@ {
        Ok(SplitDirection::Vertical)
    } else {
        Err("SPLIT has invalid direction"@)
    }
}

pub fn decode_split_direction(s: &[char]) -> (r: Result<SplitDirection, String>)
    ensures
        err_view(r) == dec_split_direction(s@),
{
    if chars_eq_str(s, "h") {
        Ok(SplitDirection::Horizontal)
    } else if chars_eq_str(s, "v") {
        Ok(SplitDirection::Vertical)
    } else {
        Err(String::from_str("SPLIT has invalid direction"))
    }
}

pub open spec fn dec_resize_direction(s: Seq<char>) -> Result<PaneResizeDirection, Seq<char>> {
    if s == "L"@ {
        Ok(PaneResizeDirection::Left)
    } else if s == "R"@ {
        Ok(PaneResizeDirection::Right)
    } else if s == "U"@ {
        Ok(PaneResizeDirection::Up)
    } else if s == "D"@ {
        Ok(PaneResizeDirection::Down)
    } else {
        Err("RESIZE_PANE has invalid direction"@)
    }
}

pub fn decode_resize_direction(s: &[char]) -> (r: Result<PaneResizeDirection, String>)
    ensures
        err_view(r) == dec_resize_direction(s@),
{
    if chars_eq_str(s, "L") {
        Ok(PaneResizeDirection::Left)
    } else if chars_eq_str(s, "R") {
        Ok(PaneResizeDirection::Right)
    } else if chars_eq_str(s, "U") {
        Ok(PaneResizeDirection::Up)
    } else if chars_eq_str(s, "D") {
        Ok(PaneResizeDirection::Down)
    } else {
        Err(String::from_str("RESIZE_PANE has invalid direction"))
    }
}

pub open spec fn dec_pane_direction(s: Seq<char>, message: Seq<char>) -> Result<
    PaneDirection,
    Seq<char>,
> {
    if s == "L"@ {
        Ok(PaneDirection::Left)
    } else if s == "R"@ {
        Ok(PaneDirection::Right)
    } else if s == "U"@ {
        Ok(PaneDirection::Up)
    } else if s == "D"@ {
        Ok(PaneDirection::Down)
    } else {
        Err(message)
    }
}

pub fn decode_pane_direction(s: &[char], message: &str) -> (r: Result<PaneDirection, String>)
    ensures
        err_view(r) == dec_pane_direction(s@, message@),
{
    if chars_eq_str(s, "L") {
        Ok(PaneDirection::Left)
    } else if chars_eq_str(s, "R") {
        Ok(PaneDirection::Right)
    } else if chars_eq_str(s, "U") {
        Ok(PaneDirection::Up)
    } else if chars_eq_str(s, "D") {
        Ok(PaneDirection::Down)
    } else {
        Err(String::from_str(message))
    }
}

/// The error for an unknown layout preset name.
pub open spec fn unknown_preset_message(value: Seq<char>) -> Seq<char> {
    "unknown layout preset "@ + debug_quoted(value)
        + "; expected even-horizontal, even-vertical, tiled, main-horizontal, or main-vertical"@
}

pub open spec fn layout_preset_named(s: Seq<char>) -> Result<LayoutPreset, Seq<char>> {
    if s == "even-horizontal"@ {
        Ok(LayoutPreset::EvenHorizontal)
    } else if s == "even-vertical"@ {
        Ok(LayoutPreset::EvenVertical)
    } else if s == "tiled"@ {
        Ok(LayoutPreset::Tiled)
    } else if s == "main-horizontal"@ {
        Ok(LayoutPreset::MainHorizontal)
    } else if s == "main-vertical"@ {
        Ok(LayoutPreset::MainVertical)
    } else {
        Err(unknown_preset_message(s))
    }
}

/// The layout preset with the given name.
pub fn parse_layout_preset_name(value: &str) -> (r: Result<LayoutPreset, String>)
    ensures
        err_view(r) == layout_preset_named(value@),
{
    let v = crate::text::chars_of(value);
    parse_layout_preset_chars(v.as_slice())
}

pub fn parse_layout_preset_chars(s: &[char]) -> (r: Result<LayoutPreset, String>)
    ensures
        err_view(r) == layout_preset_named(s@),
{
    if chars_eq_str(s, "even-horizontal") {
        Ok(LayoutPreset::EvenHorizontal)
    } else if chars_eq_str(s, "even-vertical") {
        Ok(LayoutPreset::EvenVertical)
    } else if chars_eq_str(s, "tiled") {
        Ok(LayoutPreset::Tiled)
    } else if chars_eq_str(s, "main-horizontal") {
        Ok(LayoutPreset::MainHorizontal)
    } else if chars_eq_str(s, "main-vertical") {
        Ok(LayoutPreset::MainVertical)
    } else {
        let quoted = debug_quote(string_from_chars(s).as_str());
        let mut m = concat_str("unknown layout preset ", quoted.as_str());
        m.append(
            "; expected even-horizontal, even-vertical, tiled, main-horizontal, or main-vertical",
        );
        Err(m)
    }
}

/// A structured window target: `active`, `index:N`, `id:N` or `name:HEX`.
pub open spec fn dec_structured_window_target(value: Seq<char>, command: Seq<char>) -> Result<
    WindowTargetView,
    Seq<char>,
> {
    if value == "active"@ {
        Ok(WindowTargetView::Active)
    } else {
        match find_char(value, ':') {
            None => Err(command + " has invalid window target"@),
            Some(i) => {
                let kind = value.take(i);
                let rest = value.skip(i + 1);
                if kind == "index"@ {
                    match dec_usize(rest) {
                        Some(n) => Ok(WindowTargetView::Index(n)),
                        None => Err(command + " has invalid window index"@),
                    }
                } else if kind == "id"@ {
                    match dec_usize(rest) {
                        Some(n) => Ok(WindowTargetView::Id(n)),
                        None => Err(command + " has invalid window id"@),
                    }
                } else if kind == "name"@ {
                    match dec_utf8_hex(rest, command) {
                        Ok(n) => Ok(WindowTargetView::Name(n)),
                        Err(e) => Err(e),
                    }
                } else {
                    Err(command + " has invalid window target"@)
                }
            },
        }
    }
}

pub fn decode_structured_window_target(value: &[char], command: &str) -> (r: Result<
    WindowTarget,
    String,
>)
    ensures
        window_res(r) == dec_structured_window_target(value@, command@),
{
    if chars_eq_str(value, "active") {
        return Ok(WindowTarget::Active);
    }
    match find_char_index(value, ':') {
        None => Err(concat_str(command, " has invalid window target")),
        Some(i) => {
            proof {
                lemma_find_char_is(value@, ':', i as int);
            }
            let kind_v = sub_chars(value, 0, i);
            let rest_v = sub_chars(value, i + 1, value.len());
            let kind = kind_v.as_slice();
            let rest = rest_v.as_slice();
            assert(kind@ == value@.take(i as int));
            assert(rest@ == value@.skip(i + 1));
            if chars_eq_str(kind, "index") {
                match parse_usize_chars(rest) {
                    Some(n) => Ok(WindowTarget::Index(n)),
                    None => Err(concat_str(command, " has invalid window index")),
                }
            } else if chars_eq_str(kind, "id") {
                match parse_usize_chars(rest) {
                    Some(n) => Ok(WindowTarget::Id(n)),
                    None => Err(concat_str(command, " has invalid window id")),
                }
            } else if chars_eq_str(kind, "name") {
                match decode_utf8_hex(rest, command) {
                    Ok(n) => Ok(WindowTarget::Name(n)),
                    Err(e) => Err(e),
                }
            } else {
                Err(concat_str(command, " has invalid window target"))
            }
        },
    }
}

/// A structured pane target: `active`, `index:N` or `id:N`.
pub open spec fn dec_structured_pane_target(value: Seq<char>, command: Seq<char>) -> Result<
    PaneTarget,
    Seq<char>,
> {
    if value == "active"@ {
        Ok(PaneTarget::Active)
    } else {
        match find_char(value, ':') {
            None => Err(command + " has invalid pane target"@),
            Some(i) => {
                let kind = value.take(i);
                let rest = value.skip(i + 1);
                if kind == "index"@ {
                    match dec_usize(rest) {
                        Some(n) => Ok(PaneTarget::Index(n)),
                        None => Err(command + " has invalid pane index"@),
                    }
                } else if kind == "id"@ {
                    match dec_usize(rest) {
                        Some(n) => Ok(PaneTarget::Id(n)),
                        None => Err(command + " has invalid pane id"@),
                    }
                } else {
                    Err(command + " has invalid pane target"@)
                }
            },
        }
    }
}

pub fn decode_structured_pane_target(value: &[char], command: &str) -> (r: Result<
    PaneTarget,
    String,
>)
    ensures
        err_view(r) == dec_structured_pane_target(value@, command@),
{
    if chars_eq_str(value, "active") {
        return Ok(PaneTarget::Active);
    }
    match find_char_index(value, ':') {
        None => Err(concat_str(command, " has invalid pane target")),
        Some(i) => {
            proof {
                lemma_find_char_is(value@, ':', i as int);
            }
            let kind_v = sub_chars(value, 0, i);
            let rest_v = sub_chars(value, i + 1, value.len());
            let kind = kind_v.as_slice();
            let rest = rest_v.as_slice();
            assert(kind@ == value@.take(i as int));
            assert(rest@ == value@.skip(i + 1));
            if chars_eq_str(kind, "index") {
                match parse_usize_chars(rest) {
                    Some(n) => Ok(PaneTarget::Index(n)),
                    None => Err(concat_str(command, " has invalid pane index")),
                }
            } else if chars_eq_str(kind, "id") {
                match parse_usize_chars(rest) {
                    Some(n) => Ok(PaneTarget::Id(n)),
                    None => Err(concat_str(command, " has invalid pane id")),
                }
            } else {
                Err(concat_str(command, " has invalid pane target"))
            }
        },
    }
}

/// A target written as `hex(session)|window|pane`.
pub open spec fn dec_target(value: Seq<char>, command: Seq<char>) -> Result<TargetView, Seq<char>> {
    let parts = split(value, '|');
    if parts.len() != 3 {
        Err(command + " has invalid target"@)
    } else {
        match dec_utf8_hex(parts[0], command) {
            Err(e) => Err(e),
            Ok(session) => match dec_structured_window_target(parts[1], command) {
                Err(e) => Err(e),
                Ok(window) => match dec_structured_pane_target(parts[2], command) {
                    Err(e) => Err(e),
                    Ok(pane) => Ok(TargetView { session, window, pane }),
                },
            },
        }
    }
}

pub fn decode_target(value: &[char], command: &str) -> (r: Result<Target, String>)
    ensures
        target_res(r) == dec_target(value@, command@),
{
    let parts = split_chars(value, '|');
    if parts.len() != 3 {
        return Err(concat_str(command, " has invalid target"));
    }
    let session = match decode_utf8_hex(parts[0].as_slice(), command) {
        Ok(s) => s,
        Err(e) => return Err(e),
    };
    let window = match decode_structured_window_target(parts[1].as_slice(), command) {
        Ok(w) => w,
        Err(e) => return Err(e),
    };
    let pane = match decode_structured_pane_target(parts[2].as_slice(), command) {
        Ok(p) => p,
        Err(e) => return Err(e),
    };
    Ok(Target { session, window, pane })
}

/// A command's arguments: `argc` in decimal and the arguments joined by
/// the argument separator; the count must match.
pub open spec fn dec_command(argc: Seq<char>, joined: Seq<char>, name: Seq<char>) -> Result<
    Seq<Seq<char>>,
    Seq<char>,
> {
    match dec_usize(argc) {
        None => Err(name + " has invalid argc"@),
        Some(n) => {
            let command = if joined.len() == 0 {
                Seq::<Seq<char>>::empty()
            } else {
                split(joined, ARG_SEPARATOR)
            };
            if command.len() != n {
                Err(name + " argc does not match command"@)
            } else {
                Ok(command)
            }
        },
    }
}

pub fn decode_command(argc: &[char], joined: &[char], name: &str) -> (r: Result<
    Vec<String>,
    String,
>)
    ensures
        command_res(r) == dec_command(argc@, joined@, name@),
{
    let n = match parse_usize_chars(argc) {
        Some(n) => n,
        None => return Err(concat_str(name, " has invalid argc")),
    };
    let mut command: Vec<String> = Vec::new();
    if joined.len() > 0 {
        let pieces = split_chars(joined, ARG_SEPARATOR);
        let mut i: usize = 0;
        while i < pieces.len()
            invariant
                i <= pieces.len(),
                pieces@.len() == split(joined@, ARG_SEPARATOR).len(),
                forall|k: int|
                    0 <= k < pieces@.len() ==> (#[trigger] pieces@[k])@ == split(
                        joined@,
                        ARG_SEPARATOR,
                    )[k],
                command@.len() == i,
                views(command@) == split(joined@, ARG_SEPARATOR).take(i as int),
            decreases pieces.len() - i,
        {
            let s = string_from_chars(pieces[i].as_slice());
            let ghost prev = command@;
            command.push(s);
            assert(command@ == prev.push(s));
            assert forall|k: int| 0 <= k < i + 1 implies #[trigger] views(command@)[k] == split(
                joined@,
                ARG_SEPARATOR,
            ).take(i + 1)[k] by {
                if k < i {
                    assert(views(command@)[k] == command@[k]@);
                    assert(command@[k] == prev[k]);
                    assert(views(prev)[k] == prev[k]@);
                }
            }
            assert(views(command@) =~= split(joined@, ARG_SEPARATOR).take(i + 1));
            i += 1;
        }
        assert(split(joined@, ARG_SEPARATOR).take(pieces.len() as int) == split(
            joined@,
            ARG_SEPARATOR,
        ));
    } else {
        assert(views(command@) =~= Seq::<Seq<char>>::empty());
    }
    if command.len() != n {
        return Err(concat_str(name, " argc does not match command"));
    }
    Ok(command)
}

/// A force flag: `0` or `1`.
pub open spec fn dec_force(s: Seq<char>, name: Seq<char>) -> Result<bool, Seq<char>> {
    if s == "0"@ {
        Ok(false)
    } else if s == "1"@ {
        Ok(true)
    } else {
        Err(name + " has invalid force flag"@)
    }
}

pub fn decode_force(s: &[char], name: &str) -> (r: Result<bool, String>)
    ensures
        err_view(r) == dec_force(s@, name@),
{
    if chars_eq_str(s, "0") {
        Ok(false)
    } else if chars_eq_str(s, "1") {
        Ok(true)
    } else {
        Err(concat_str(name, " has invalid force flag"))
    }
}


/// The characters of each field.
pub open spec fn views_of_parts(parts: Seq<Vec<char>>) -> Seq<Seq<char>> {
    parts.map_values(|v: Vec<char>| v@)
}

/// `s` without its trailing newlines.
pub open spec fn trim_newlines(s: Seq<char>) -> Seq<char>
    decreases s.len(),
{
    if s.len() > 0 && s.last() == '\n' {
        trim_newlines(s.drop_last())
    } else {
        s
    }
}

pub fn trim_newlines_chars(v: &[char]) -> (r: Vec<char>)
    ensures
        r@ == trim_newlines(v@),
{
    let mut j: usize = v.len();
    assert(v@.take(v.len() as int) == v@);
    while j > 0 && v[j - 1] == '\n'
        invariant
            j <= v.len(),
            trim_newlines(v@) == trim_newlines(v@.take(j as int)),
        decreases j,
    {
        assert(v@.take(j as int).drop_last() == v@.take(j - 1));
        j -= 1;
    }
    assert(v@.take(v.len() as int) == v@);
    sub_chars(v, 0, j)
}

/// The pane with the given index, or the active pane.
pub open spec fn pane_or_active(pane: Option<usize>) -> PaneTarget {
    match pane {
        Some(p) => PaneTarget::Index(p),
        None => PaneTarget::Active,
    }
}

/// The length of a kind field with its third and next-to-last characters.
/// No two request kinds that take the same number of fields share it, so it
/// tells a line's kind from the others without comparing whole words.
pub open spec fn kind_mark(s: Seq<char>) -> (nat, char, char) {
    (s.len(), s[2], s[s.len() - 2])
}

/// The kind field `field` is the word `kind`, whose mark is `mark`.
pub open spec fn is_kind(field: Seq<char>, kind: Seq<char>, mark: (nat, char, char)) -> bool {
    kind_mark(field) == mark && field == kind
}

/// The requests of group 0: `None` when the line is none of them.
#[verifier::opaque]
pub open spec fn decode_group_0_spec(parts: Seq<Seq<char>>) -> Option<Result<RequestView, Seq<char>>> {
    let n = parts.len();
    if n == 4 && is_kind(parts[0], "NEW"@, (3, 'W', 'E')) {
        Some(
            {
                let session = parts[1];
                match dec_command(parts[2], parts[3], "NEW"@) {
                    Err(e) => Err(e),
                    Ok(command) => {
                        Ok(RequestView::New { session, command, cwd: None })
                    },
                }
            }
        )
    } else if n == 5 && is_kind(parts[0], "NEW_CWD"@, (7, 'W', 'W')) {
        Some(
            {
                let session = parts[1];
                match dec_command(parts[3], parts[4], "NEW_CWD"@) {
                    Err(e) => Err(e),
                    Ok(command) => {
                        match dec_hex(parts[2]) {
                            Err(e) => Err(e),
                            Ok(cwd) => {
                                Ok(RequestView::New { session, command, cwd: Some(cwd) })
                            },
                        }
                    },
                }
            }
        )
    } else if n == 2 && is_kind(parts[0], "ATTACH"@, (6, 'T', 'C')) {
        Some(
            {
                let session = parts[1];
                Ok(RequestView::Attach { session })
            }
        )
    } else if n == 2 && is_kind(parts[0], "ATTACH_RAW_STATE"@, (16, 'T', 'T')) {
        Some(
            {
                let session = parts[1];
                Ok(RequestView::AttachRawState { session })
            }
        )
    } else {
        None
    }
}

#[verifier::rlimit(40)]
fn decode_group_0(parts: &Vec<Vec<char>>) -> (r: Option<Result<Request, String>>)
    requires
        parts@.len() >= 1,
    ensures
        match decode_group_0_spec(views_of_parts(parts@)) {
            None => r is None,
            Some(x) => r matches Some(y) && request_res(y) == x,
        },
{
    proof {
        reveal(decode_group_0_spec);
        reveal_strlit("NEW");
        reveal_strlit("NEW_CWD");
        reveal_strlit("ATTACH");
        reveal_strlit("ATTACH_RAW_STATE");
    }
    let ghost pv = views_of_parts(parts@);
    let n = parts.len();
    let tag = parts[0].as_slice();
    if n == 4 && chars_eq_str(tag, "NEW") {
        let session = string_from_chars(parts[1].as_slice());
        let command = match decode_command(parts[2].as_slice(), parts[3].as_slice(), "NEW") {
            Ok(x) => x,
            Err(e) => return Some(Err(e)),
        };
        Some(Ok(Request::New { session, command, cwd: None }))
    } else if n == 5 && chars_eq_str(tag, "NEW_CWD") {
        let session = string_from_chars(parts[1].as_slice());
        let command = match decode_command(parts[3].as_slice(), parts[4].as_slice(), "NEW_CWD") {
            Ok(x) => x,
            Err(e) => return Some(Err(e)),
        };
        let cwd = match decode_hex_field(parts[2].as_slice()) {
            Ok(x) => x,
            Err(e) => return Some(Err(e)),
        };
        Some(Ok(Request::New { session, command, cwd: Some(cwd) }))
    } else if n == 2 && chars_eq_str(tag, "ATTACH") {
        let session = string_from_chars(parts[1].as_slice());
        Some(Ok(Request::Attach { session }))
    } else if n == 2 && chars_eq_str(tag, "ATTACH_RAW_STATE") {
        let session = string_from_chars(parts[1].as_slice());
        Some(Ok(Request::AttachRawState { session }))
    } else {
        None
    }
}

/// The requests of group 1: `None` when the line is none of them.
#[verifier::opaque]
pub open spec fn decode_group_1_spec(parts: Seq<Seq<char>>) -> Option<Result<RequestView, Seq<char>>> {
    let n = parts.len();
    if n == 1 && is_kind(parts[0], "LIST"@, (4, 'S', 'S')) {
        Some(
            Ok(RequestView::List)
        )
    } else if n == 1 && is_kind(parts[0], "LIST_SESSIONS"@, (13, 'S', 'N')) {
        Some(
            Ok(RequestView::ListSessions { format: None })
        )
    } else if n == 2 && is_kind(parts[0], "LIST_SESSIONS_FORMAT"@, (20, 'S', 'A')) {
        Some(
            match dec_utf8_hex(parts[1], "LIST_SESSIONS_FORMAT"@) {
                Err(e) => Err(e),
                Ok(format) => {
                    Ok(RequestView::ListSessions { format: Some(format) })
                },
            }
        )
    } else if n == 3 && is_kind(parts[0], "RENAME_SESSION"@, (14, 'N', 'O')) {
        Some(
            match dec_utf8_hex(parts[1], "RENAME_SESSION"@) {
                Err(e) => Err(e),
                Ok(old_name) => {
                    match dec_utf8_hex(parts[2], "RENAME_SESSION"@) {
                        Err(e) => Err(e),
                        Ok(new_name) => {
                            Ok(RequestView::RenameSession { old_name, new_name })
                        },
                    }
                },
            }
        )
    } else {
        None
    }
}

#[verifier::rlimit(40)]
fn decode_group_1(parts: &Vec<Vec<char>>) -> (r: Option<Result<Request, String>>)
    requires
        parts@.len() >= 1,
    ensures
        match decode_group_1_spec(views_of_parts(parts@)) {
            None => r is None,
            Some(x) => r matches Some(y) && request_res(y) == x,
        },
{
    proof {
        reveal(decode_group_1_spec);
        reveal_strlit("LIST");
        reveal_strlit("LIST_SESSIONS");
        reveal_strlit("LIST_SESSIONS_FORMAT");
        reveal_strlit("RENAME_SESSION");
    }
    let ghost pv = views_of_parts(parts@);
    let n = parts.len();
    let tag = parts[0].as_slice();
    if n == 1 && chars_eq_str(tag, "LIST") {
        Some(Ok(Request::List))
    } else if n == 1 && chars_eq_str(tag, "LIST_SESSIONS") {
        Some(Ok(Request::ListSessions { format: None }))
    } else if n == 2 && chars_eq_str(tag, "LIST_SESSIONS_FORMAT") {
        let format = match decode_utf8_hex(parts[1].as_slice(), "LIST_SESSIONS_FORMAT") {
            Ok(x) => x,
            Err(e) => return Some(Err(e)),
        };
        Some(Ok(Request::ListSessions { format: Some(format) }))
    } else if n == 3 && chars_eq_str(tag, "RENAME_SESSION") {
        let old_name = match decode_utf8_hex(parts[1].as_slice(), "RENAME_SESSION") {
            Ok(x) => x,
            Err(e) => return Some(Err(e)),
        };
        let new_name = match decode_utf8_hex(parts[2].as_slice(), "RENAME_SESSION") {
            Ok(x) => x,
            Err(e) => return Some(Err(e)),
        };
        Some(Ok(Request::RenameSession { old_name, new_name }))
    } else {
        None
    }
}

/// The requests of group 2: `None` when the line is none of them.
#[verifier::opaque]
pub open spec fn decode_group_2_spec(parts: Seq<Seq<char>>) -> Option<Result<RequestView, Seq<char>>> {
    let n = parts.len();
    if n == 3 && is_kind(parts[0], "LIST_CLIENTS"@, (12, 'S', 'T')) {
        Some(
            match dec_optional_text(parts[1], "LIST_CLIENTS"@) {
                Err(e) => Err(e),
                Ok(session) => {
                    match dec_optional_text(parts[2], "LIST_CLIENTS"@) {
                        Err(e) => Err(e),
                        Ok(format) => {
                            Ok(RequestView::ListClients { session, format })
                        },
                    }
                },
            }
        )
    } else if n == 3 && is_kind(parts[0], "DETACH_CLIENT"@, (13, 'T', 'N')) {
        Some(
            match dec_optional_text(parts[1], "DETACH_CLIENT"@) {
                Err(e) => Err(e),
                Ok(session) => {
                    match dec_optional_client_id(parts[2]) {
                        Err(e) => Err(e),
                        Ok(client_id) => {
                            Ok(RequestView::DetachClient { session, client_id })
                        },
                    }
                },
            }
        )
    } else if n == 2 && is_kind(parts[0], "ATTACH_SNAPSHOT"@, (15, 'T', 'O')) {
        Some(
            {
                let session = parts[1];
                Ok(RequestView::AttachSnapshot { session })
            }
        )
    } else if n == 2 && is_kind(parts[0], "ATTACH_LAYOUT_SNAPSHOT"@, (22, 'T', 'O')) {
        Some(
            {
                let session = parts[1];
                Ok(RequestView::AttachLayoutSnapshot { session })
            }
        )
    } else {
        None
    }
}

#[verifier::rlimit(40)]
fn decode_group_2(parts: &Vec<Vec<char>>) -> (r: Option<Result<Request, String>>)
    requires
        parts@.len() >= 1,
    ensures
        match decode_group_2_spec(views_of_parts(parts@)) {
            None => r is None,
            Some(x) => r matches Some(y) && request_res(y) == x,
        },
{
    proof {
        reveal(decode_group_2_spec);
        reveal_strlit("LIST_CLIENTS");
        reveal_strlit("DETACH_CLIENT");
        reveal_strlit("ATTACH_SNAPSHOT");
        reveal_strlit("ATTACH_LAYOUT_SNAPSHOT");
    }
    let ghost pv = views_of_parts(parts@);
    let n = parts.len();
    let tag = parts[0].as_slice();
    if n == 3 && chars_eq_str(tag, "LIST_CLIENTS") {
        let session = match decode_optional_text(parts[1].as_slice(), "LIST_CLIENTS") {
            Ok(x) => x,
            Err(e) => return Some(Err(e)),
        };
        let format = match decode_optional_text(parts[2].as_slice(), "LIST_CLIENTS") {
            Ok(x) => x,
            Err(e) => return Some(Err(e)),
        };
        Some(Ok(Request::ListClients { session, format }))
    } else if n == 3 && chars_eq_str(tag, "DETACH_CLIENT") {
        let session = match decode_optional_text(parts[1].as_slice(), "DETACH_CLIENT") {
            Ok(x) => x,
            Err(e) => return Some(Err(e)),
        };
        let client_id = match decode_optional_client_id(parts[2].as_slice()) {
            Ok(x) => x,
            Err(e) => return Some(Err(e)),
        };
        Some(Ok(Request::DetachClient { session, client_id }))
    } else if n == 2 && chars_eq_str(tag, "ATTACH_SNAPSHOT") {
        let session = string_from_chars(parts[1].as_slice());
        Some(Ok(Request::AttachSnapshot { session }))
    } else if n == 2 && chars_eq_str(tag, "ATTACH_LAYOUT_SNAPSHOT") {
        let session = string_from_chars(parts[1].as_slice());
        Some(Ok(Request::AttachLayoutSnapshot { session }))
    } else {
        None
    }
}

/// The requests of group 3: `None` when the line is none of them.
#[verifier::opaque]
pub open spec fn decode_group_3_spec(parts: Seq<Seq<char>>) -> Option<Result<RequestView, Seq<char>>> {
    let n = parts.len();
    if n == 2 && is_kind(parts[0], "ATTACH_LAYOUT_FRAME"@, (19, 'T', 'M')) {
        Some(
            {
                let session = parts[1];
                Ok(RequestView::AttachLayoutFrame { session })
            }
        )
    } else if n == 2 && is_kind(parts[0], "ATTACH_EVENTS"@, (13, 'T', 'T')) {
        Some(
            {
                let session = parts[1];
                Ok(RequestView::AttachEvents { session })
            }
        )
    } else if n == 2 && is_kind(parts[0], "ATTACH_RENDER"@, (13, 'T', 'E')) {
        Some(
            {
                let session = parts[1];
                Ok(RequestView::AttachRender { session })
            }
        )
    } else if n == 2 && is_kind(parts[0], "CAPTURE"@, (7, 'P', 'R')) {
        Some(
            {
                let session = parts[1];
                Ok(RequestView::Capture { target: active_target(session), mode: CaptureMode::All, selection: BufferSelectionView::All })
            }
        )
    } else {
        None
    }
}

#[verifier::rlimit(40)]
fn decode_group_3(parts: &Vec<Vec<char>>) -> (r: Option<Result<Request, String>>)
    requires
        parts@.len() >= 1,
    ensures
        match decode_group_3_spec(views_of_parts(parts@)) {
            None => r is None,
            Some(x) => r matches Some(y) && request_res(y) == x,
        },
{
    proof {
        reveal(decode_group_3_spec);
        reveal_strlit("ATTACH_LAYOUT_FRAME");
        reveal_strlit("ATTACH_EVENTS");
        reveal_strlit("ATTACH_RENDER");
        reveal_strlit("CAPTURE");
    }
    let ghost pv = views_of_parts(parts@);
    let n = parts.len();
    let tag = parts[0].as_slice();
    if n == 2 && chars_eq_str(tag, "ATTACH_LAYOUT_FRAME") {
        let session = string_from_chars(parts[1].as_slice());
        Some(Ok(Request::AttachLayoutFrame { session }))
    } else if n == 2 && chars_eq_str(tag, "ATTACH_EVENTS") {
        let session = string_from_chars(parts[1].as_slice());
        Some(Ok(Request::AttachEvents { session }))
    } else if n == 2 && chars_eq_str(tag, "ATTACH_RENDER") {
        let session = string_from_chars(parts[1].as_slice());
        Some(Ok(Request::AttachRender { session }))
    } else if n == 2 && chars_eq_str(tag, "CAPTURE") {
        let session = string_from_chars(parts[1].as_slice());
        Some(Ok(Request::Capture { target: Target::active(session), mode: CaptureMode::All, selection: BufferSelection::All }))
    } else {
        None
    }
}

/// The requests of group 4: `None` when the line is none of them.
#[verifier::opaque]
pub open spec fn decode_group_4_spec(parts: Seq<Seq<char>>) -> Option<Result<RequestView, Seq<char>>> {
    let n = parts.len();
    if n == 3 && is_kind(parts[0], "CAPTURE"@, (7, 'P', 'R')) {
        Some(
            {
                let session = parts[1];
                match dec_capture_mode(parts[2]) {
                    Err(e) => Err(e),
                    Ok(mode) => {
                        Ok(RequestView::Capture { target: active_target(session), mode, selection: BufferSelectionView::All })
                    },
                }
            }
        )
    } else if n == 5 && is_kind(parts[0], "CAPTURE_LINES"@, (13, 'P', 'E')) {
        Some(
            {
                let session = parts[1];
                match dec_capture_mode(parts[2]) {
                    Err(e) => Err(e),
                    Ok(mode) => {
                        match dec_line_offset(parts[3], "CAPTURE_LINES has invalid start line"@) {
                            Err(e) => Err(e),
                            Ok(start) => {
                                match dec_line_offset(parts[4], "CAPTURE_LINES has invalid end line"@) {
                                    Err(e) => Err(e),
                                    Ok(end) => {
                                        Ok(RequestView::Capture { target: active_target(session), mode, selection: BufferSelectionView::LineRange { start, end } })
                                    },
                                }
                            },
                        }
                    },
                }
            }
        )
    } else if n == 5 && is_kind(parts[0], "CAPTURE_SEARCH"@, (14, 'P', 'C')) {
        Some(
            {
                let session = parts[1];
                match dec_capture_mode(parts[2]) {
                    Err(e) => Err(e),
                    Ok(mode) => {
                        match dec_utf8_hex(parts[3], "CAPTURE_SEARCH"@) {
                            Err(e) => Err(e),
                            Ok(needle) => {
                                match dec_positive_index(parts[4], "CAPTURE_SEARCH has invalid match index"@) {
                                    Err(e) => Err(e),
                                    Ok(match_index) => {
                                        Ok(RequestView::Capture { target: active_target(session), mode, selection: BufferSelectionView::Search { needle, match_index } })
                                    },
                                }
                            },
                        }
                    },
                }
            }
        )
    } else if n == 3 && is_kind(parts[0], "CAPTURE_TARGET"@, (14, 'P', 'E')) {
        Some(
            match dec_target(parts[1], "CAPTURE_TARGET"@) {
                Err(e) => Err(e),
                Ok(target) => {
                    match dec_capture_mode(parts[2]) {
                        Err(e) => Err(e),
                        Ok(mode) => {
                            Ok(RequestView::Capture { target, mode, selection: BufferSelectionView::All })
                        },
                    }
                },
            }
        )
    } else {
        None
    }
}

#[verifier::rlimit(40)]
fn decode_group_4(parts: &Vec<Vec<char>>) -> (r: Option<Result<Request, String>>)
    requires
        parts@.len() >= 1,
    ensures
        match decode_group_4_spec(views_of_parts(parts@)) {
            None => r is None,
            Some(x) => r matches Some(y) && request_res(y) == x,
        },
{
    proof {
        reveal(decode_group_4_spec);
        reveal_strlit("CAPTURE");
        reveal_strlit("CAPTURE_LINES");
        reveal_strlit("CAPTURE_SEARCH");
        reveal_strlit("CAPTURE_TARGET");
    }
    let ghost pv = views_of_parts(parts@);
    let n = parts.len();
    let tag = parts[0].as_slice();
    if n == 3 && chars_eq_str(tag, "CAPTURE") {
        let session = string_from_chars(parts[1].as_slice());
        let mode = match decode_capture_mode(parts[2].as_slice()) {
            Ok(x) => x,
            Err(e) => return Some(Err(e)),
        };
        Some(Ok(Request::Capture { target: Target::active(session), mode, selection: BufferSelection::All }))
    } else if n == 5 && chars_eq_str(tag, "CAPTURE_LINES") {
        let session = string_from_chars(parts[1].as_slice());
        let mode = match decode_capture_mode(parts[2].as_slice()) {
            Ok(x) => x,
            Err(e) => return Some(Err(e)),
        };
        let start = match decode_line_offset(parts[3].as_slice(), "CAPTURE_LINES has invalid start line") {
            Ok(x) => x,
            Err(e) => return Some(Err(e)),
        };
        let end = match decode_line_offset(parts[4].as_slice(), "CAPTURE_LINES has invalid end line") {
            Ok(x) => x,
            Err(e) => return Some(Err(e)),
        };
        Some(Ok(Request::Capture { target: Target::active(session), mode, selection: BufferSelection::LineRange { start, end } }))
    } else if n == 5 && chars_eq_str(tag, "CAPTURE_SEARCH") {
        let session = string_from_chars(parts[1].as_slice());
        let mode = match decode_capture_mode(parts[2].as_slice()) {
            Ok(x) => x,
            Err(e) => return Some(Err(e)),
        };
        let needle = match decode_utf8_hex(parts[3].as_slice(), "CAPTURE_SEARCH") {
            Ok(x) => x,
            Err(e) => return Some(Err(e)),
        };
        let match_index = match decode_positive_index(parts[4].as_slice(), "CAPTURE_SEARCH has invalid match index") {
            Ok(x) => x,
            Err(e) => return Some(Err(e)),
        };
        Some(Ok(Request::Capture { target: Target::active(session), mode, selection: BufferSelection::Search { needle, match_index } }))
    } else if n == 3 && chars_eq_str(tag, "CAPTURE_TARGET") {
        let target = match decode_target(parts[1].as_slice(), "CAPTURE_TARGET") {
            Ok(x) => x,
            Err(e) => return Some(Err(e)),
        };
        let mode = match decode_capture_mode(parts[2].as_slice()) {
            Ok(x) => x,
            Err(e) => return Some(Err(e)),
        };
        Some(Ok(Request::Capture { target, mode, selection: BufferSelection::All }))
    } else {
        None
    }
}

/// The requests of group 5: `None` when the line is none of them.
#[verifier::opaque]
pub open spec fn decode_group_5_spec(parts: Seq<Seq<char>>) -> Option<Result<RequestView, Seq<char>>> {
    let n = parts.len();
    if n == 5 && is_kind(parts[0], "CAPTURE_TARGET_LINES"@, (20, 'P', 'E')) {
        Some(
            match dec_target(parts[1], "CAPTURE_TARGET_LINES"@) {
                Err(e) => Err(e),
                Ok(target) => {
                    match dec_capture_mode(parts[2]) {
                        Err(e) => Err(e),
                        Ok(mode) => {
                            match dec_line_offset(parts[3], "CAPTURE_TARGET_LINES has invalid start line"@) {
                                Err(e) => Err(e),
                                Ok(start) => {
                                    match dec_line_offset(parts[4], "CAPTURE_TARGET_LINES has invalid end line"@) {
                                        Err(e) => Err(e),
                                        Ok(end) => {
                                            Ok(RequestView::Capture { target, mode, selection: BufferSelectionView::LineRange { start, end } })
                                        },
                                    }
                                },
                            }
                        },
                    }
                },
            }
        )
    } else if n == 5 && is_kind(parts[0], "CAPTURE_TARGET_SEARCH"@, (21, 'P', 'C')) {
        Some(
            match dec_target(parts[1], "CAPTURE_TARGET_SEARCH"@) {
                Err(e) => Err(e),
                Ok(target) => {
                    match dec_capture_mode(parts[2]) {
                        Err(e) => Err(e),
                        Ok(mode) => {
                            match dec_utf8_hex(parts[3], "CAPTURE_TARGET_SEARCH"@) {
                                Err(e) => Err(e),
                                Ok(needle) => {
                                    match dec_positive_index(parts[4], "CAPTURE_TARGET_SEARCH has invalid match index"@) {
                                        Err(e) => Err(e),
                                        Ok(match_index) => {
                                            Ok(RequestView::Capture { target, mode, selection: BufferSelectionView::Search { needle, match_index } })
                                        },
                                    }
                                },
                            }
                        },
                    }
                },
            }
        )
    } else if n == 4 && is_kind(parts[0], "SAVE_BUFFER"@, (11, 'V', 'E')) {
        Some(
            {
                let session = parts[1];
                match dec_optional_text(parts[3], "SAVE_BUFFER"@) {
                    Err(e) => Err(e),
                    Ok(buffer) => {
                        match dec_capture_mode(parts[2]) {
                            Err(e) => Err(e),
                            Ok(mode) => {
                                Ok(RequestView::SaveBuffer { target: active_target(session), buffer, mode, selection: BufferSelectionView::All })
                            },
                        }
                    },
                }
            }
        )
    } else if n == 6 && is_kind(parts[0], "SAVE_BUFFER_LINES"@, (17, 'V', 'E')) {
        Some(
            {
                let session = parts[1];
                match dec_optional_text(parts[3], "SAVE_BUFFER_LINES"@) {
                    Err(e) => Err(e),
                    Ok(buffer) => {
                        match dec_capture_mode(parts[2]) {
                            Err(e) => Err(e),
                            Ok(mode) => {
                                match dec_line_offset(parts[4], "SAVE_BUFFER_LINES has invalid start line"@) {
                                    Err(e) => Err(e),
                                    Ok(start) => {
                                        match dec_line_offset(parts[5], "SAVE_BUFFER_LINES has invalid end line"@) {
                                            Err(e) => Err(e),
                                            Ok(end) => {
                                                Ok(RequestView::SaveBuffer { target: active_target(session), buffer, mode, selection: BufferSelectionView::LineRange { start, end } })
                                            },
                                        }
                                    },
                                }
                            },
                        }
                    },
                }
            }
        )
    } else {
        None
    }
}

#[verifier::rlimit(40)]
fn decode_group_5(parts: &Vec<Vec<char>>) -> (r: Option<Result<Request, String>>)
    requires
        parts@.len() >= 1,
    ensures
        match decode_group_5_spec(views_of_parts(parts@)) {
            None => r is None,
            Some(x) => r matches Some(y) && request_res(y) == x,
        },
{
    proof {
        reveal(decode_group_5_spec);
        reveal_strlit("CAPTURE_TARGET_LINES");
        reveal_strlit("CAPTURE_TARGET_SEARCH");
        reveal_strlit("SAVE_BUFFER");
        reveal_strlit("SAVE_BUFFER_LINES");
    }
    let ghost pv = views_of_parts(parts@);
    let n = parts.len();
    let tag = parts[0].as_slice();
    if n == 5 && chars_eq_str(tag, "CAPTURE_TARGET_LINES") {
        let target = match decode_target(parts[1].as_slice(), "CAPTURE_TARGET_LINES") {
            Ok(x) => x,
            Err(e) => return Some(Err(e)),
        };
        let mode = match decode_capture_mode(parts[2].as_slice()) {
            Ok(x) => x,
            Err(e) => return Some(Err(e)),
        };
        let start = match decode_line_offset(parts[3].as_slice(), "CAPTURE_TARGET_LINES has invalid start line") {
            Ok(x) => x,
            Err(e) => return Some(Err(e)),
        };
        let end = match decode_line_offset(parts[4].as_slice(), "CAPTURE_TARGET_LINES has invalid end line") {
            Ok(x) => x,
            Err(e) => return Some(Err(e)),
        };
        Some(Ok(Request::Capture { target, mode, selection: BufferSelection::LineRange { start, end } }))
    } else if n == 5 && chars_eq_str(tag, "CAPTURE_TARGET_SEARCH") {
        let target = match decode_target(parts[1].as_slice(), "CAPTURE_TARGET_SEARCH") {
            Ok(x) => x,
            Err(e) => return Some(Err(e)),
        };
        let mode = match decode_capture_mode(parts[2].as_slice()) {
            Ok(x) => x,
            Err(e) => return Some(Err(e)),
        };
        let needle = match decode_utf8_hex(parts[3].as_slice(), "CAPTURE_TARGET_SEARCH") {
            Ok(x) => x,
            Err(e) => return Some(Err(e)),
        };
        let match_index = match decode_positive_index(parts[4].as_slice(), "CAPTURE_TARGET_SEARCH has invalid match index") {
            Ok(x) => x,
            Err(e) => return Some(Err(e)),
        };
        Some(Ok(Request::Capture { target, mode, selection: BufferSelection::Search { needle, match_index } }))
    } else if n == 4 && chars_eq_str(tag, "SAVE_BUFFER") {
        let session = string_from_chars(parts[1].as_slice());
        let buffer = match decode_optional_text(parts[3].as_slice(), "SAVE_BUFFER") {
            Ok(x) => x,
            Err(e) => return Some(Err(e)),
        };
        let mode = match decode_capture_mode(parts[2].as_slice()) {
            Ok(x) => x,
            Err(e) => return Some(Err(e)),
        };
        Some(Ok(Request::SaveBuffer { target: Target::active(session), buffer, mode, selection: BufferSelection::All }))
    } else if n == 6 && chars_eq_str(tag, "SAVE_BUFFER_LINES") {
        let session = string_from_chars(parts[1].as_slice());
        let buffer = match decode_optional_text(parts[3].as_slice(), "SAVE_BUFFER_LINES") {
            Ok(x) => x,
            Err(e) => return Some(Err(e)),
        };
        let mode = match decode_capture_mode(parts[2].as_slice()) {
            Ok(x) => x,
            Err(e) => return Some(Err(e)),
        };
        let start = match decode_line_offset(parts[4].as_slice(), "SAVE_BUFFER_LINES has invalid start line") {
            Ok(x) => x,
            Err(e) => return Some(Err(e)),
        };
        let end = match decode_line_offset(parts[5].as_slice(), "SAVE_BUFFER_LINES has invalid end line") {
            Ok(x) => x,
            Err(e) => return Some(Err(e)),
        };
        Some(Ok(Request::SaveBuffer { target: Target::active(session), buffer, mode, selection: BufferSelection::LineRange { start, end } }))
    } else {
        None
    }
}

/// The requests of group 6: `None` when the line is none of them.
#[verifier::opaque]
pub open spec fn decode_group_6_spec(parts: Seq<Seq<char>>) -> Option<Result<RequestView, Seq<char>>> {
    let n = parts.len();
    if n == 5 && is_kind(parts[0], "SAVE_BUFFER_SEARCH"@, (18, 'V', 'C')) {
        Some(
            {
                let session = parts[1];
                match dec_optional_text(parts[3], "SAVE_BUFFER_SEARCH"@) {
                    Err(e) => Err(e),
                    Ok(buffer) => {
                        match dec_capture_mode(parts[2]) {
                            Err(e) => Err(e),
                            Ok(mode) => {
                                match dec_utf8_hex(parts[4], "SAVE_BUFFER_SEARCH"@) {
                                    Err(e) => Err(e),
                                    Ok(needle) => {
                                        Ok(RequestView::SaveBuffer { target: active_target(session), buffer, mode, selection: BufferSelectionView::Search { needle, match_index: 1 } })
                                    },
                                }
                            },
                        }
                    },
                }
            }
        )
    } else if n == 6 && is_kind(parts[0], "SAVE_BUFFER_SEARCH"@, (18, 'V', 'C')) {
        Some(
            {
                let session = parts[1];
                match dec_optional_text(parts[3], "SAVE_BUFFER_SEARCH"@) {
                    Err(e) => Err(e),
                    Ok(buffer) => {
                        match dec_capture_mode(parts[2]) {
                            Err(e) => Err(e),
                            Ok(mode) => {
                                match dec_utf8_hex(parts[4], "SAVE_BUFFER_SEARCH"@) {
                                    Err(e) => Err(e),
                                    Ok(needle) => {
                                        match dec_positive_index(parts[5], "SAVE_BUFFER_SEARCH has invalid match index"@) {
                                            Err(e) => Err(e),
                                            Ok(match_index) => {
                                                Ok(RequestView::SaveBuffer { target: active_target(session), buffer, mode, selection: BufferSelectionView::Search { needle, match_index } })
                                            },
                                        }
                                    },
                                }
                            },
                        }
                    },
                }
            }
        )
    } else if n == 4 && is_kind(parts[0], "SAVE_BUFFER_TARGET"@, (18, 'V', 'E')) {
        Some(
            match dec_target(parts[1], "SAVE_BUFFER_TARGET"@) {
                Err(e) => Err(e),
                Ok(target) => {
                    match dec_optional_text(parts[3], "SAVE_BUFFER_TARGET"@) {
                        Err(e) => Err(e),
                        Ok(buffer) => {
                            match dec_capture_mode(parts[2]) {
                                Err(e) => Err(e),
                                Ok(mode) => {
                                    Ok(RequestView::SaveBuffer { target, buffer, mode, selection: BufferSelectionView::All })
                                },
                            }
                        },
                    }
                },
            }
        )
    } else if n == 6 && is_kind(parts[0], "SAVE_BUFFER_TARGET_LINES"@, (24, 'V', 'E')) {
        Some(
            match dec_target(parts[1], "SAVE_BUFFER_TARGET_LINES"@) {
                Err(e) => Err(e),
                Ok(target) => {
                    match dec_optional_text(parts[3], "SAVE_BUFFER_TARGET_LINES"@) {
                        Err(e) => Err(e),
                        Ok(buffer) => {
                            match dec_capture_mode(parts[2]) {
                                Err(e) => Err(e),
                                Ok(mode) => {
                                    match dec_line_offset(parts[4], "SAVE_BUFFER_TARGET_LINES has invalid start line"@) {
                                        Err(e) => Err(e),
                                        Ok(start) => {
                                            match dec_line_offset(parts[5], "SAVE_BUFFER_TARGET_LINES has invalid end line"@) {
                                                Err(e) => Err(e),
                                                Ok(end) => {
                                                    Ok(RequestView::SaveBuffer { target, buffer, mode, selection: BufferSelectionView::LineRange { start, end } })
                                                },
                                            }
                                        },
                                    }
                                },
                            }
                        },
                    }
                },
            }
        )
    } else {
        None
    }
}

#[verifier::rlimit(40)]
fn decode_group_6(parts: &Vec<Vec<char>>) -> (r: Option<Result<Request, String>>)
    requires
        parts@.len() >= 1,
    ensures
        match decode_group_6_spec(views_of_parts(parts@)) {
            None => r is None,
            Some(x) => r matches Some(y) && request_res(y) == x,
        },
{
    proof {
        reveal(decode_group_6_spec);
        reveal_strlit("SAVE_BUFFER_SEARCH");
        reveal_strlit("SAVE_BUFFER_TARGET");
        reveal_strlit("SAVE_BUFFER_TARGET_LINES");
    }
    let ghost pv = views_of_parts(parts@);
    let n = parts.len();
    let tag = parts[0].as_slice();
    if n == 5 && chars_eq_str(tag, "SAVE_BUFFER_SEARCH") {
        let session = string_from_chars(parts[1].as_slice());
        let buffer = match decode_optional_text(parts[3].as_slice(), "SAVE_BUFFER_SEARCH") {
            Ok(x) => x,
            Err(e) => return Some(Err(e)),
        };
        let mode = match decode_capture_mode(parts[2].as_slice()) {
            Ok(x) => x,
            Err(e) => return Some(Err(e)),
        };
        let needle = match decode_utf8_hex(parts[4].as_slice(), "SAVE_BUFFER_SEARCH") {
            Ok(x) => x,
            Err(e) => return Some(Err(e)),
        };
        Some(Ok(Request::SaveBuffer { target: Target::active(session), buffer, mode, selection: BufferSelection::Search { needle, match_index: 1 } }))
    } else if n == 6 && chars_eq_str(tag, "SAVE_BUFFER_SEARCH") {
        let session = string_from_chars(parts[1].as_slice());
        let buffer = match decode_optional_text(parts[3].as_slice(), "SAVE_BUFFER_SEARCH") {
            Ok(x) => x,
            Err(e) => return Some(Err(e)),
        };
        let mode = match decode_capture_mode(parts[2].as_slice()) {
            Ok(x) => x,
            Err(e) => return Some(Err(e)),
        };
        let needle = match decode_utf8_hex(parts[4].as_slice(), "SAVE_BUFFER_SEARCH") {
            Ok(x) => x,
            Err(e) => return Some(Err(e)),
        };
        let match_index = match decode_positive_index(parts[5].as_slice(), "SAVE_BUFFER_SEARCH has invalid match index") {
            Ok(x) => x,
            Err(e) => return Some(Err(e)),
        };
        Some(Ok(Request::SaveBuffer { target: Target::active(session), buffer, mode, selection: BufferSelection::Search { needle, match_index } }))
    } else if n == 4 && chars_eq_str(tag, "SAVE_BUFFER_TARGET") {
        let target = match decode_target(parts[1].as_slice(), "SAVE_BUFFER_TARGET") {
            Ok(x) => x,
            Err(e) => return Some(Err(e)),
        };
        let buffer = match decode_optional_text(parts[3].as_slice(), "SAVE_BUFFER_TARGET") {
            Ok(x) => x,
            Err(e) => return Some(Err(e)),
        };
        let mode = match decode_capture_mode(parts[2].as_slice()) {
            Ok(x) => x,
            Err(e) => return Some(Err(e)),
        };
        Some(Ok(Request::SaveBuffer { target, buffer, mode, selection: BufferSelection::All }))
    } else if n == 6 && chars_eq_str(tag, "SAVE_BUFFER_TARGET_LINES") {
        let target = match decode_target(parts[1].as_slice(), "SAVE_BUFFER_TARGET_LINES") {
            Ok(x) => x,
            Err(e) => return Some(Err(e)),
        };
        let buffer = match decode_optional_text(parts[3].as_slice(), "SAVE_BUFFER_TARGET_LINES") {
            Ok(x) => x,
            Err(e) => return Some(Err(e)),
        };
        let mode = match decode_capture_mode(parts[2].as_slice()) {
            Ok(x) => x,
            Err(e) => return Some(Err(e)),
        };
        let start = match decode_line_offset(parts[4].as_slice(), "SAVE_BUFFER_TARGET_LINES has invalid start line") {
            Ok(x) => x,
            Err(e) => return Some(Err(e)),
        };
        let end = match decode_line_offset(parts[5].as_slice(), "SAVE_BUFFER_TARGET_LINES has invalid end line") {
            Ok(x) => x,
            Err(e) => return Some(Err(e)),
        };
        Some(Ok(Request::SaveBuffer { target, buffer, mode, selection: BufferSelection::LineRange { start, end } }))
    } else {
        None
    }
}

/// The requests of group 7: `None` when the line is none of them.
#[verifier::opaque]
pub open spec fn decode_group_7_spec(parts: Seq<Seq<char>>) -> Option<Result<RequestView, Seq<char>>> {
    let n = parts.len();
    if n == 5 && is_kind(parts[0], "SAVE_BUFFER_TARGET_SEARCH"@, (25, 'V', 'C')) {
        Some(
            match dec_target(parts[1], "SAVE_BUFFER_TARGET_SEARCH"@) {
                Err(e) => Err(e),
                Ok(target) => {
                    match dec_optional_text(parts[3], "SAVE_BUFFER_TARGET_SEARCH"@) {
                        Err(e) => Err(e),
                        Ok(buffer) => {
                            match dec_capture_mode(parts[2]) {
                                Err(e) => Err(e),
                                Ok(mode) => {
                                    match dec_utf8_hex(parts[4], "SAVE_BUFFER_TARGET_SEARCH"@) {
                                        Err(e) => Err(e),
                                        Ok(needle) => {
                                            Ok(RequestView::SaveBuffer { target, buffer, mode, selection: BufferSelectionView::Search { needle, match_index: 1 } })
                                        },
                                    }
                                },
                            }
                        },
                    }
                },
            }
        )
    } else if n == 6 && is_kind(parts[0], "SAVE_BUFFER_TARGET_SEARCH"@, (25, 'V', 'C')) {
        Some(
            match dec_target(parts[1], "SAVE_BUFFER_TARGET_SEARCH"@) {
                Err(e) => Err(e),
                Ok(target) => {
                    match dec_optional_text(parts[3], "SAVE_BUFFER_TARGET_SEARCH"@) {
                        Err(e) => Err(e),
                        Ok(buffer) => {
                            match dec_capture_mode(parts[2]) {
                                Err(e) => Err(e),
                                Ok(mode) => {
                                    match dec_utf8_hex(parts[4], "SAVE_BUFFER_TARGET_SEARCH"@) {
                                        Err(e) => Err(e),
                                        Ok(needle) => {
                                            match dec_positive_index(parts[5], "SAVE_BUFFER_TARGET_SEARCH has invalid match index"@) {
                                                Err(e) => Err(e),
                                                Ok(match_index) => {
                                                    Ok(RequestView::SaveBuffer { target, buffer, mode, selection: BufferSelectionView::Search { needle, match_index } })
                                                },
                                            }
                                        },
                                    }
                                },
                            }
                        },
                    }
                },
            }
        )
    } else if n == 4 && is_kind(parts[0], "SAVE_BUFFER_TEXT"@, (16, 'V', 'X')) {
        Some(
            {
                let session = parts[1];
                match dec_optional_text(parts[2], "SAVE_BUFFER_TEXT"@) {
                    Err(e) => Err(e),
                    Ok(buffer) => {
                        match dec_utf8_hex_limited(parts[3], "SAVE_BUFFER_TEXT"@, MAX_SAVE_BUFFER_TEXT_BYTES as nat, "SAVE_BUFFER_TEXT exceeds maximum buffer size"@) {
                            Err(e) => Err(e),
                            Ok(text) => {
                                Ok(RequestView::SaveBufferText { session, buffer, text })
                            },
                        }
                    },
                }
            }
        )
    } else if n == 4 && is_kind(parts[0], "COPY_MODE"@, (9, 'P', 'D')) {
        Some(
            {
                let session = parts[1];
                match dec_capture_mode(parts[2]) {
                    Err(e) => Err(e),
                    Ok(mode) => {
                        match dec_optional_text(parts[3], "COPY_MODE"@) {
                            Err(e) => Err(e),
                            Ok(search) => {
                                Ok(RequestView::CopyMode { session, mode, search, match_index: None })
                            },
                        }
                    },
                }
            }
        )
    } else {
        None
    }
}

#[verifier::rlimit(40)]
fn decode_group_7(parts: &Vec<Vec<char>>) -> (r: Option<Result<Request, String>>)
    requires
        parts@.len() >= 1,
    ensures
        match decode_group_7_spec(views_of_parts(parts@)) {
            None => r is None,
            Some(x) => r matches Some(y) && request_res(y) == x,
        },
{
    proof {
        reveal(decode_group_7_spec);
        reveal_strlit("SAVE_BUFFER_TARGET_SEARCH");
        reveal_strlit("SAVE_BUFFER_TEXT");
        reveal_strlit("COPY_MODE");
    }
    let ghost pv = views_of_parts(parts@);
    let n = parts.len();
    let tag = parts[0].as_slice();
    if n == 5 && chars_eq_str(tag, "SAVE_BUFFER_TARGET_SEARCH") {
        let target = match decode_target(parts[1].as_slice(), "SAVE_BUFFER_TARGET_SEARCH") {
            Ok(x) => x,
            Err(e) => return Some(Err(e)),
        };
        let buffer = match decode_optional_text(parts[3].as_slice(), "SAVE_BUFFER_TARGET_SEARCH") {
            Ok(x) => x,
            Err(e) => return Some(Err(e)),
        };
        let mode = match decode_capture_mode(parts[2].as_slice()) {
            Ok(x) => x,
            Err(e) => return Some(Err(e)),
        };
        let needle = match decode_utf8_hex(parts[4].as_slice(), "SAVE_BUFFER_TARGET_SEARCH") {
            Ok(x) => x,
            Err(e) => return Some(Err(e)),
        };
        Some(Ok(Request::SaveBuffer { target, buffer, mode, selection: BufferSelection::Search { needle, match_index: 1 } }))
    } else if n == 6 && chars_eq_str(tag, "SAVE_BUFFER_TARGET_SEARCH") {
        let target = match decode_target(parts[1].as_slice(), "SAVE_BUFFER_TARGET_SEARCH") {
            Ok(x) => x,
            Err(e) => return Some(Err(e)),
        };
        let buffer = match decode_optional_text(parts[3].as_slice(), "SAVE_BUFFER_TARGET_SEARCH") {
            Ok(x) => x,
            Err(e) => return Some(Err(e)),
        };
        let mode = match decode_capture_mode(parts[2].as_slice()) {
            Ok(x) => x,
            Err(e) => return Some(Err(e)),
        };
        let needle = match decode_utf8_hex(parts[4].as_slice(), "SAVE_BUFFER_TARGET_SEARCH") {
            Ok(x) => x,
            Err(e) => return Some(Err(e)),
        };
        let match_index = match decode_positive_index(parts[5].as_slice(), "SAVE_BUFFER_TARGET_SEARCH has invalid match index") {
            Ok(x) => x,
            Err(e) => return Some(Err(e)),
        };
        Some(Ok(Request::SaveBuffer { target, buffer, mode, selection: BufferSelection::Search { needle, match_index } }))
    } else if n == 4 && chars_eq_str(tag, "SAVE_BUFFER_TEXT") {
        let session = string_from_chars(parts[1].as_slice());
        let buffer = match decode_optional_text(parts[2].as_slice(), "SAVE_BUFFER_TEXT") {
            Ok(x) => x,
            Err(e) => return Some(Err(e)),
        };
        let text = match decode_utf8_hex_limited(parts[3].as_slice(), "SAVE_BUFFER_TEXT", MAX_SAVE_BUFFER_TEXT_BYTES, "SAVE_BUFFER_TEXT exceeds maximum buffer size") {
            Ok(x) => x,
            Err(e) => return Some(Err(e)),
        };
        Some(Ok(Request::SaveBufferText { session, buffer, text }))
    } else if n == 4 && chars_eq_str(tag, "COPY_MODE") {
        let session = string_from_chars(parts[1].as_slice());
        let mode = match decode_capture_mode(parts[2].as_slice()) {
            Ok(x) => x,
            Err(e) => return Some(Err(e)),
        };
        let search = match decode_optional_text(parts[3].as_slice(), "COPY_MODE") {
            Ok(x) => x,
            Err(e) => return Some(Err(e)),
        };
        Some(Ok(Request::CopyMode { session, mode, search, match_index: None }))
    } else {
        None
    }
}

/// The requests of group 8: `None` when the line is none of them.
#[verifier::opaque]
pub open spec fn decode_group_8_spec(parts: Seq<Seq<char>>) -> Option<Result<RequestView, Seq<char>>> {
    let n = parts.len();
    if n == 5 && is_kind(parts[0], "COPY_MODE"@, (9, 'P', 'D')) {
        Some(
            {
                let session = parts[1];
                match dec_optional_text(parts[3], "COPY_MODE"@) {
                    Err(e) => Err(e),
                    Ok(search) => {
                        match dec_optional_positive_index(parts[4], "COPY_MODE has invalid match index"@) {
                            Err(e) => Err(e),
                            Ok(match_index) => {
                                if search is None && match_index is Some {
                                    Err("COPY_MODE match index requires search"@)
                                } else {
                                    match dec_capture_mode(parts[2]) {
                                        Err(e) => Err(e),
                                        Ok(mode) => {
                                            Ok(RequestView::CopyMode { session, mode, search, match_index })
                                        },
                                    }
                                }
                            },
                        }
                    },
                }
            }
        )
    } else if n == 1 && is_kind(parts[0], "LIST_BUFFERS"@, (12, 'S', 'R')) {
        Some(
            Ok(RequestView::ListBuffers { format: None })
        )
    } else if n == 2 && is_kind(parts[0], "LIST_BUFFERS_FORMAT"@, (19, 'S', 'A')) {
        Some(
            match dec_utf8_hex(parts[1], "LIST_BUFFERS_FORMAT"@) {
                Err(e) => Err(e),
                Ok(format) => {
                    Ok(RequestView::ListBuffers { format: Some(format) })
                },
            }
        )
    } else if n == 3 && is_kind(parts[0], "PASTE_BUFFER"@, (12, 'S', 'E')) {
        Some(
            {
                let session = parts[1];
                match dec_optional_text(parts[2], "PASTE_BUFFER"@) {
                    Err(e) => Err(e),
                    Ok(buffer) => {
                        Ok(RequestView::PasteBuffer { target: active_target(session), buffer })
                    },
                }
            }
        )
    } else {
        None
    }
}

#[verifier::rlimit(40)]
fn decode_group_8(parts: &Vec<Vec<char>>) -> (r: Option<Result<Request, String>>)
    requires
        parts@.len() >= 1,
    ensures
        match decode_group_8_spec(views_of_parts(parts@)) {
            None => r is None,
            Some(x) => r matches Some(y) && request_res(y) == x,
        },
{
    proof {
        reveal(decode_group_8_spec);
        reveal_strlit("COPY_MODE");
        reveal_strlit("LIST_BUFFERS");
        reveal_strlit("LIST_BUFFERS_FORMAT");
        reveal_strlit("PASTE_BUFFER");
    }
    let ghost pv = views_of_parts(parts@);
    let n = parts.len();
    let tag = parts[0].as_slice();
    if n == 5 && chars_eq_str(tag, "COPY_MODE") {
        let session = string_from_chars(parts[1].as_slice());
        let search = match decode_optional_text(parts[3].as_slice(), "COPY_MODE") {
            Ok(x) => x,
            Err(e) => return Some(Err(e)),
        };
        let match_index = match decode_optional_positive_index(parts[4].as_slice(), "COPY_MODE has invalid match index") {
            Ok(x) => x,
            Err(e) => return Some(Err(e)),
        };
        if search.is_none() && match_index.is_some() {
            return Some(Err(String::from_str("COPY_MODE match index requires search")));
        }
        let mode = match decode_capture_mode(parts[2].as_slice()) {
            Ok(x) => x,
            Err(e) => return Some(Err(e)),
        };
        Some(Ok(Request::CopyMode { session, mode, search, match_index }))
    } else if n == 1 && chars_eq_str(tag, "LIST_BUFFERS") {
        Some(Ok(Request::ListBuffers { format: None }))
    } else if n == 2 && chars_eq_str(tag, "LIST_BUFFERS_FORMAT") {
        let format = match decode_utf8_hex(parts[1].as_slice(), "LIST_BUFFERS_FORMAT") {
            Ok(x) => x,
            Err(e) => return Some(Err(e)),
        };
        Some(Ok(Request::ListBuffers { format: Some(format) }))
    } else if n == 3 && chars_eq_str(tag, "PASTE_BUFFER") {
        let session = string_from_chars(parts[1].as_slice());
        let buffer = match decode_optional_text(parts[2].as_slice(), "PASTE_BUFFER") {
            Ok(x) => x,
            Err(e) => return Some(Err(e)),
        };
        Some(Ok(Request::PasteBuffer { target: Target::active(session), buffer }))
    } else {
        None
    }
}

/// The requests of group 9: `None` when the line is none of them.
#[verifier::opaque]
pub open spec fn decode_group_9_spec(parts: Seq<Seq<char>>) -> Option<Result<RequestView, Seq<char>>> {
    let n = parts.len();
    if n == 3 && is_kind(parts[0], "PASTE_BUFFER_TARGET"@, (19, 'S', 'E')) {
        Some(
            match dec_target(parts[1], "PASTE_BUFFER_TARGET"@) {
                Err(e) => Err(e),
                Ok(target) => {
                    match dec_optional_text(parts[2], "PASTE_BUFFER_TARGET"@) {
                        Err(e) => Err(e),
                        Ok(buffer) => {
                            Ok(RequestView::PasteBuffer { target, buffer })
                        },
                    }
                },
            }
        )
    } else if n == 2 && is_kind(parts[0], "DELETE_BUFFER"@, (13, 'L', 'E')) {
        Some(
            match dec_utf8_hex(parts[1], "DELETE_BUFFER"@) {
                Err(e) => Err(e),
                Ok(buffer) => {
                    Ok(RequestView::DeleteBuffer { buffer })
                },
            }
        )
    } else if n == 4 && is_kind(parts[0], "RESIZE"@, (6, 'S', 'Z')) {
        Some(
            {
                let session = parts[1];
                match dec_u16_or(parts[2], "RESIZE has invalid cols"@) {
                    Err(e) => Err(e),
                    Ok(cols) => {
                        match dec_u16_or(parts[3], "RESIZE has invalid rows"@) {
                            Err(e) => Err(e),
                            Ok(rows) => {
                                Ok(RequestView::Resize { session, cols, rows })
                            },
                        }
                    },
                }
            }
        )
    } else if n == 4 && is_kind(parts[0], "RESIZE_PANE"@, (11, 'S', 'N')) {
        Some(
            {
                let session = parts[1];
                match dec_resize_direction(parts[2]) {
                    Err(e) => Err(e),
                    Ok(direction) => {
                        match dec_positive_index(parts[3], "RESIZE_PANE amount must be a positive integer"@) {
                            Err(e) => Err(e),
                            Ok(amount) => {
                                Ok(RequestView::ResizePane { target: active_target(session), direction, amount })
                            },
                        }
                    },
                }
            }
        )
    } else {
        None
    }
}

#[verifier::rlimit(40)]
fn decode_group_9(parts: &Vec<Vec<char>>) -> (r: Option<Result<Request, String>>)
    requires
        parts@.len() >= 1,
    ensures
        match decode_group_9_spec(views_of_parts(parts@)) {
            None => r is None,
            Some(x) => r matches Some(y) && request_res(y) == x,
        },
{
    proof {
        reveal(decode_group_9_spec);
        reveal_strlit("PASTE_BUFFER_TARGET");
        reveal_strlit("DELETE_BUFFER");
        reveal_strlit("RESIZE");
        reveal_strlit("RESIZE_PANE");
    }
    let ghost pv = views_of_parts(parts@);
    let n = parts.len();
    let tag = parts[0].as_slice();
    if n == 3 && chars_eq_str(tag, "PASTE_BUFFER_TARGET") {
        let target = match decode_target(parts[1].as_slice(), "PASTE_BUFFER_TARGET") {
            Ok(x) => x,
            Err(e) => return Some(Err(e)),
        };
        let buffer = match decode_optional_text(parts[2].as_slice(), "PASTE_BUFFER_TARGET") {
            Ok(x) => x,
            Err(e) => return Some(Err(e)),
        };
        Some(Ok(Request::PasteBuffer { target, buffer }))
    } else if n == 2 && chars_eq_str(tag, "DELETE_BUFFER") {
        let buffer = match decode_utf8_hex(parts[1].as_slice(), "DELETE_BUFFER") {
            Ok(x) => x,
            Err(e) => return Some(Err(e)),
        };
        Some(Ok(Request::DeleteBuffer { buffer }))
    } else if n == 4 && chars_eq_str(tag, "RESIZE") {
        let session = string_from_chars(parts[1].as_slice());
        let cols = match decode_u16_or(parts[2].as_slice(), "RESIZE has invalid cols") {
            Ok(x) => x,
            Err(e) => return Some(Err(e)),
        };
        let rows = match decode_u16_or(parts[3].as_slice(), "RESIZE has invalid rows") {
            Ok(x) => x,
            Err(e) => return Some(Err(e)),
        };
        Some(Ok(Request::Resize { session, cols, rows }))
    } else if n == 4 && chars_eq_str(tag, "RESIZE_PANE") {
        let session = string_from_chars(parts[1].as_slice());
        let direction = match decode_resize_direction(parts[2].as_slice()) {
            Ok(x) => x,
            Err(e) => return Some(Err(e)),
        };
        let amount = match decode_positive_index(parts[3].as_slice(), "RESIZE_PANE amount must be a positive integer") {
            Ok(x) => x,
            Err(e) => return Some(Err(e)),
        };
        Some(Ok(Request::ResizePane { target: Target::active(session), direction, amount }))
    } else {
        None
    }
}

/// The requests of group 10: `None` when the line is none of them.
#[verifier::opaque]
pub open spec fn decode_group_10_spec(parts: Seq<Seq<char>>) -> Option<Result<RequestView, Seq<char>>> {
    let n = parts.len();
    if n == 4 && is_kind(parts[0], "RESIZE_PANE_TARGET"@, (18, 'S', 'E')) {
        Some(
            match dec_target(parts[1], "RESIZE_PANE_TARGET"@) {
                Err(e) => Err(e),
                Ok(target) => {
                    match dec_resize_direction(parts[2]) {
                        Err(e) => Err(e),
                        Ok(direction) => {
                            match dec_positive_index(parts[3], "RESIZE_PANE amount must be a positive integer"@) {
                                Err(e) => Err(e),
                                Ok(amount) => {
                                    Ok(RequestView::ResizePane { target, direction, amount })
                                },
                            }
                        },
                    }
                },
            }
        )
    } else if n == 3 && is_kind(parts[0], "SELECT_LAYOUT"@, (13, 'L', 'U')) {
        Some(
            {
                let session = parts[1];
                match layout_preset_named(parts[2]) {
                    Err(e) => Err(e),
                    Ok(preset) => {
                        Ok(RequestView::SelectLayout { session, window: WindowTargetView::Active, preset })
                    },
                }
            }
        )
    } else if n == 3 && is_kind(parts[0], "SELECT_LAYOUT_TARGET"@, (20, 'L', 'E')) {
        Some(
            match dec_target(parts[1], "SELECT_LAYOUT_TARGET"@) {
                Err(e) => Err(e),
                Ok(target) => {
                    if target.pane != PaneTarget::Active {
                        Err("SELECT_LAYOUT target must not include a pane"@)
                    } else {
                        match layout_preset_named(parts[2]) {
                            Err(e) => Err(e),
                            Ok(preset) => {
                                Ok(RequestView::SelectLayout { session: target.session, window: target.window, preset })
                            },
                        }
                    }
                },
            }
        )
    } else if n == 3 && is_kind(parts[0], "SEND"@, (4, 'N', 'N')) {
        Some(
            {
                let session = parts[1];
                match dec_hex(parts[2]) {
                    Err(e) => Err(e),
                    Ok(bytes) => {
                        Ok(RequestView::Send { target: active_target(session), bytes })
                    },
                }
            }
        )
    } else {
        None
    }
}

#[verifier::rlimit(40)]
fn decode_group_10(parts: &Vec<Vec<char>>) -> (r: Option<Result<Request, String>>)
    requires
        parts@.len() >= 1,
    ensures
        match decode_group_10_spec(views_of_parts(parts@)) {
            None => r is None,
            Some(x) => r matches Some(y) && request_res(y) == x,
        },
{
    proof {
        reveal(decode_group_10_spec);
        reveal_strlit("RESIZE_PANE_TARGET");
        reveal_strlit("SELECT_LAYOUT");
        reveal_strlit("SELECT_LAYOUT_TARGET");
        reveal_strlit("SEND");
    }
    let ghost pv = views_of_parts(parts@);
    let n = parts.len();
    let tag = parts[0].as_slice();
    if n == 4 && chars_eq_str(tag, "RESIZE_PANE_TARGET") {
        let target = match decode_target(parts[1].as_slice(), "RESIZE_PANE_TARGET") {
            Ok(x) => x,
            Err(e) => return Some(Err(e)),
        };
        let direction = match decode_resize_direction(parts[2].as_slice()) {
            Ok(x) => x,
            Err(e) => return Some(Err(e)),
        };
        let amount = match decode_positive_index(parts[3].as_slice(), "RESIZE_PANE amount must be a positive integer") {
            Ok(x) => x,
            Err(e) => return Some(Err(e)),
        };
        Some(Ok(Request::ResizePane { target, direction, amount }))
    } else if n == 3 && chars_eq_str(tag, "SELECT_LAYOUT") {
        let session = string_from_chars(parts[1].as_slice());
        let preset = match parse_layout_preset_chars(parts[2].as_slice()) {
            Ok(x) => x,
            Err(e) => return Some(Err(e)),
        };
        Some(Ok(Request::SelectLayout { session, window: WindowTarget::Active, preset }))
    } else if n == 3 && chars_eq_str(tag, "SELECT_LAYOUT_TARGET") {
        let target = match decode_target(parts[1].as_slice(), "SELECT_LAYOUT_TARGET") {
            Ok(x) => x,
            Err(e) => return Some(Err(e)),
        };
        if target.pane != PaneTarget::Active {
            return Some(Err(String::from_str("SELECT_LAYOUT target must not include a pane")));
        }
        let preset = match parse_layout_preset_chars(parts[2].as_slice()) {
            Ok(x) => x,
            Err(e) => return Some(Err(e)),
        };
        Some(Ok(Request::SelectLayout { session: target.session, window: target.window, preset }))
    } else if n == 3 && chars_eq_str(tag, "SEND") {
        let session = string_from_chars(parts[1].as_slice());
        let bytes = match decode_hex_field(parts[2].as_slice()) {
            Ok(x) => x,
            Err(e) => return Some(Err(e)),
        };
        Some(Ok(Request::Send { target: Target::active(session), bytes }))
    } else {
        None
    }
}

/// The requests of group 11: `None` when the line is none of them.
#[verifier::opaque]
pub open spec fn decode_group_11_spec(parts: Seq<Seq<char>>) -> Option<Result<RequestView, Seq<char>>> {
    let n = parts.len();
    if n == 3 && is_kind(parts[0], "SEND_TARGET"@, (11, 'N', 'E')) {
        Some(
            match dec_target(parts[1], "SEND_TARGET"@) {
                Err(e) => Err(e),
                Ok(target) => {
                    match dec_hex(parts[2]) {
                        Err(e) => Err(e),
                        Ok(bytes) => {
                            Ok(RequestView::Send { target, bytes })
                        },
                    }
                },
            }
        )
    } else if n == 5 && is_kind(parts[0], "SPLIT"@, (5, 'L', 'I')) {
        Some(
            {
                let session = parts[1];
                match dec_command(parts[3], parts[4], "SPLIT"@) {
                    Err(e) => Err(e),
                    Ok(command) => {
                        match dec_split_direction(parts[2]) {
                            Err(e) => Err(e),
                            Ok(direction) => {
                                Ok(RequestView::Split { target: active_target(session), direction, command, cwd: None })
                            },
                        }
                    },
                }
            }
        )
    } else if n == 5 && is_kind(parts[0], "SPLIT_TARGET"@, (12, 'L', 'E')) {
        Some(
            match dec_command(parts[3], parts[4], "SPLIT_TARGET"@) {
                Err(e) => Err(e),
                Ok(command) => {
                    match dec_target(parts[1], "SPLIT_TARGET"@) {
                        Err(e) => Err(e),
                        Ok(target) => {
                            match dec_split_direction(parts[2]) {
                                Err(e) => Err(e),
                                Ok(direction) => {
                                    Ok(RequestView::Split { target, direction, command, cwd: None })
                                },
                            }
                        },
                    }
                },
            }
        )
    } else if n == 6 && is_kind(parts[0], "SPLIT_TARGET_CWD"@, (16, 'L', 'W')) {
        Some(
            match dec_command(parts[4], parts[5], "SPLIT_TARGET_CWD"@) {
                Err(e) => Err(e),
                Ok(command) => {
                    match dec_target(parts[1], "SPLIT_TARGET_CWD"@) {
                        Err(e) => Err(e),
                        Ok(target) => {
                            match dec_split_direction(parts[2]) {
                                Err(e) => Err(e),
                                Ok(direction) => {
                                    match dec_hex(parts[3]) {
                                        Err(e) => Err(e),
                                        Ok(cwd) => {
                                            Ok(RequestView::Split { target, direction, command, cwd: Some(cwd) })
                                        },
                                    }
                                },
                            }
                        },
                    }
                },
            }
        )
    } else {
        None
    }
}

#[verifier::rlimit(40)]
fn decode_group_11(parts: &Vec<Vec<char>>) -> (r: Option<Result<Request, String>>)
    requires
        parts@.len() >= 1,
    ensures
        match decode_group_11_spec(views_of_parts(parts@)) {
            None => r is None,
            Some(x) => r matches Some(y) && request_res(y) == x,
        },
{
    proof {
        reveal(decode_group_11_spec);
        reveal_strlit("SEND_TARGET");
        reveal_strlit("SPLIT");
        reveal_strlit("SPLIT_TARGET");
        reveal_strlit("SPLIT_TARGET_CWD");
    }
    let ghost pv = views_of_parts(parts@);
    let n = parts.len();
    let tag = parts[0].as_slice();
    if n == 3 && chars_eq_str(tag, "SEND_TARGET") {
        let target = match decode_target(parts[1].as_slice(), "SEND_TARGET") {
            Ok(x) => x,
            Err(e) => return Some(Err(e)),
        };
        let bytes = match decode_hex_field(parts[2].as_slice()) {
            Ok(x) => x,
            Err(e) => return Some(Err(e)),
        };
        Some(Ok(Request::Send { target, bytes }))
    } else if n == 5 && chars_eq_str(tag, "SPLIT") {
        let session = string_from_chars(parts[1].as_slice());
        let command = match decode_command(parts[3].as_slice(), parts[4].as_slice(), "SPLIT") {
            Ok(x) => x,
            Err(e) => return Some(Err(e)),
        };
        let direction = match decode_split_direction(parts[2].as_slice()) {
            Ok(x) => x,
            Err(e) => return Some(Err(e)),
        };
        Some(Ok(Request::Split { target: Target::active(session), direction, command, cwd: None }))
    } else if n == 5 && chars_eq_str(tag, "SPLIT_TARGET") {
        let command = match decode_command(parts[3].as_slice(), parts[4].as_slice(), "SPLIT_TARGET") {
            Ok(x) => x,
            Err(e) => return Some(Err(e)),
        };
        let target = match decode_target(parts[1].as_slice(), "SPLIT_TARGET") {
            Ok(x) => x,
            Err(e) => return Some(Err(e)),
        };
        let direction = match decode_split_direction(parts[2].as_slice()) {
            Ok(x) => x,
            Err(e) => return Some(Err(e)),
        };
        Some(Ok(Request::Split { target, direction, command, cwd: None }))
    } else if n == 6 && chars_eq_str(tag, "SPLIT_TARGET_CWD") {
        let command = match decode_command(parts[4].as_slice(), parts[5].as_slice(), "SPLIT_TARGET_CWD") {
            Ok(x) => x,
            Err(e) => return Some(Err(e)),
        };
        let target = match decode_target(parts[1].as_slice(), "SPLIT_TARGET_CWD") {
            Ok(x) => x,
            Err(e) => return Some(Err(e)),
        };
        let direction = match decode_split_direction(parts[2].as_slice()) {
            Ok(x) => x,
            Err(e) => return Some(Err(e)),
        };
        let cwd = match decode_hex_field(parts[3].as_slice()) {
            Ok(x) => x,
            Err(e) => return Some(Err(e)),
        };
        Some(Ok(Request::Split { target, direction, command, cwd: Some(cwd) }))
    } else {
        None
    }
}

/// The requests of group 12: `None` when the line is none of them.
#[verifier::opaque]
pub open spec fn decode_group_12_spec(parts: Seq<Seq<char>>) -> Option<Result<RequestView, Seq<char>>> {
    let n = parts.len();
    if n == 2 && is_kind(parts[0], "LIST_PANES"@, (10, 'S', 'E')) {
        Some(
            {
                let session = parts[1];
                Ok(RequestView::ListPanes { session, window: WindowTargetView::Active, format: None })
            }
        )
    } else if n == 3 && is_kind(parts[0], "LIST_PANES_FORMAT"@, (17, 'S', 'A')) {
        Some(
            {
                let session = parts[1];
                match dec_utf8_hex(parts[2], "LIST_PANES_FORMAT"@) {
                    Err(e) => Err(e),
                    Ok(format) => {
                        Ok(RequestView::ListPanes { session, window: WindowTargetView::Active, format: Some(format) })
                    },
                }
            }
        )
    } else if n == 3 && is_kind(parts[0], "LIST_PANES_TARGET"@, (17, 'S', 'E')) {
        Some(
            {
                let session = parts[1];
                match dec_structured_window_target(parts[2], "LIST_PANES_TARGET"@) {
                    Err(e) => Err(e),
                    Ok(window) => {
                        Ok(RequestView::ListPanes { session, window, format: None })
                    },
                }
            }
        )
    } else if n == 4 && is_kind(parts[0], "LIST_PANES_TARGET_FORMAT"@, (24, 'S', 'A')) {
        Some(
            {
                let session = parts[1];
                match dec_structured_window_target(parts[2], "LIST_PANES_TARGET_FORMAT"@) {
                    Err(e) => Err(e),
                    Ok(window) => {
                        match dec_utf8_hex(parts[3], "LIST_PANES_TARGET_FORMAT"@) {
                            Err(e) => Err(e),
                            Ok(format) => {
                                Ok(RequestView::ListPanes { session, window, format: Some(format) })
                            },
                        }
                    },
                }
            }
        )
    } else {
        None
    }
}

#[verifier::rlimit(40)]
fn decode_group_12(parts: &Vec<Vec<char>>) -> (r: Option<Result<Request, String>>)
    requires
        parts@.len() >= 1,
    ensures
        match decode_group_12_spec(views_of_parts(parts@)) {
            None => r is None,
            Some(x) => r matches Some(y) && request_res(y) == x,
        },
{
    proof {
        reveal(decode_group_12_spec);
        reveal_strlit("LIST_PANES");
        reveal_strlit("LIST_PANES_FORMAT");
        reveal_strlit("LIST_PANES_TARGET");
        reveal_strlit("LIST_PANES_TARGET_FORMAT");
    }
    let ghost pv = views_of_parts(parts@);
    let n = parts.len();
    let tag = parts[0].as_slice();
    if n == 2 && chars_eq_str(tag, "LIST_PANES") {
        let session = string_from_chars(parts[1].as_slice());
        Some(Ok(Request::ListPanes { session, window: WindowTarget::Active, format: None }))
    } else if n == 3 && chars_eq_str(tag, "LIST_PANES_FORMAT") {
        let session = string_from_chars(parts[1].as_slice());
        let format = match decode_utf8_hex(parts[2].as_slice(), "LIST_PANES_FORMAT") {
            Ok(x) => x,
            Err(e) => return Some(Err(e)),
        };
        Some(Ok(Request::ListPanes { session, window: WindowTarget::Active, format: Some(format) }))
    } else if n == 3 && chars_eq_str(tag, "LIST_PANES_TARGET") {
        let session = string_from_chars(parts[1].as_slice());
        let window = match decode_structured_window_target(parts[2].as_slice(), "LIST_PANES_TARGET") {
            Ok(x) => x,
            Err(e) => return Some(Err(e)),
        };
        Some(Ok(Request::ListPanes { session, window, format: None }))
    } else if n == 4 && chars_eq_str(tag, "LIST_PANES_TARGET_FORMAT") {
        let session = string_from_chars(parts[1].as_slice());
        let window = match decode_structured_window_target(parts[2].as_slice(), "LIST_PANES_TARGET_FORMAT") {
            Ok(x) => x,
            Err(e) => return Some(Err(e)),
        };
        let format = match decode_utf8_hex(parts[3].as_slice(), "LIST_PANES_TARGET_FORMAT") {
            Ok(x) => x,
            Err(e) => return Some(Err(e)),
        };
        Some(Ok(Request::ListPanes { session, window, format: Some(format) }))
    } else {
        None
    }
}

/// The requests of group 13: `None` when the line is none of them.
#[verifier::opaque]
pub open spec fn decode_group_13_spec(parts: Seq<Seq<char>>) -> Option<Result<RequestView, Seq<char>>> {
    let n = parts.len();
    if n == 3 && is_kind(parts[0], "SELECT_PANE"@, (11, 'L', 'N')) {
        Some(
            {
                let session = parts[1];
                match dec_usize_or(parts[2], "SELECT_PANE has invalid pane index"@) {
                    Err(e) => Err(e),
                    Ok(pane) => {
                        Ok(RequestView::SelectPane { session, window: WindowTargetView::Active, target: PaneSelectTarget::Index(pane) })
                    },
                }
            }
        )
    } else if n == 3 && is_kind(parts[0], "SELECT_PANE_ID"@, (14, 'L', 'I')) {
        Some(
            {
                let session = parts[1];
                match dec_usize_or(parts[2], "SELECT_PANE_ID has invalid pane id"@) {
                    Err(e) => Err(e),
                    Ok(id) => {
                        Ok(RequestView::SelectPane { session, window: WindowTargetView::Active, target: PaneSelectTarget::Id(id) })
                    },
                }
            }
        )
    } else if n == 3 && is_kind(parts[0], "SELECT_PANE_DIRECTION"@, (21, 'L', 'O')) {
        Some(
            {
                let session = parts[1];
                match dec_pane_direction(parts[2], "SELECT_PANE_DIRECTION has invalid direction"@) {
                    Err(e) => Err(e),
                    Ok(direction) => {
                        Ok(RequestView::SelectPane { session, window: WindowTargetView::Active, target: PaneSelectTarget::Direction(direction) })
                    },
                }
            }
        )
    } else if n == 4 && is_kind(parts[0], "SELECT_PANE_TARGET"@, (18, 'L', 'E')) {
        Some(
            {
                let session = parts[1];
                match dec_structured_window_target(parts[2], "SELECT_PANE_TARGET"@) {
                    Err(e) => Err(e),
                    Ok(window) => {
                        match dec_usize_or(parts[3], "SELECT_PANE_TARGET has invalid pane index"@) {
                            Err(e) => Err(e),
                            Ok(pane) => {
                                Ok(RequestView::SelectPane { session, window, target: PaneSelectTarget::Index(pane) })
                            },
                        }
                    },
                }
            }
        )
    } else {
        None
    }
}

#[verifier::rlimit(40)]
fn decode_group_13(parts: &Vec<Vec<char>>) -> (r: Option<Result<Request, String>>)
    requires
        parts@.len() >= 1,
    ensures
        match decode_group_13_spec(views_of_parts(parts@)) {
            None => r is None,
            Some(x) => r matches Some(y) && request_res(y) == x,
        },
{
    proof {
        reveal(decode_group_13_spec);
        reveal_strlit("SELECT_PANE");
        reveal_strlit("SELECT_PANE_ID");
        reveal_strlit("SELECT_PANE_DIRECTION");
        reveal_strlit("SELECT_PANE_TARGET");
    }
    let ghost pv = views_of_parts(parts@);
    let n = parts.len();
    let tag = parts[0].as_slice();
    if n == 3 && chars_eq_str(tag, "SELECT_PANE") {
        let session = string_from_chars(parts[1].as_slice());
        let pane = match decode_usize_or(parts[2].as_slice(), "SELECT_PANE has invalid pane index") {
            Ok(x) => x,
            Err(e) => return Some(Err(e)),
        };
        Some(Ok(Request::SelectPane { session, window: WindowTarget::Active, target: PaneSelectTarget::Index(pane) }))
    } else if n == 3 && chars_eq_str(tag, "SELECT_PANE_ID") {
        let session = string_from_chars(parts[1].as_slice());
        let id = match decode_usize_or(parts[2].as_slice(), "SELECT_PANE_ID has invalid pane id") {
            Ok(x) => x,
            Err(e) => return Some(Err(e)),
        };
        Some(Ok(Request::SelectPane { session, window: WindowTarget::Active, target: PaneSelectTarget::Id(id) }))
    } else if n == 3 && chars_eq_str(tag, "SELECT_PANE_DIRECTION") {
        let session = string_from_chars(parts[1].as_slice());
        let direction = match decode_pane_direction(parts[2].as_slice(), "SELECT_PANE_DIRECTION has invalid direction") {
            Ok(x) => x,
            Err(e) => return Some(Err(e)),
        };
        Some(Ok(Request::SelectPane { session, window: WindowTarget::Active, target: PaneSelectTarget::Direction(direction) }))
    } else if n == 4 && chars_eq_str(tag, "SELECT_PANE_TARGET") {
        let session = string_from_chars(parts[1].as_slice());
        let window = match decode_structured_window_target(parts[2].as_slice(), "SELECT_PANE_TARGET") {
            Ok(x) => x,
            Err(e) => return Some(Err(e)),
        };
        let pane = match decode_usize_or(parts[3].as_slice(), "SELECT_PANE_TARGET has invalid pane index") {
            Ok(x) => x,
            Err(e) => return Some(Err(e)),
        };
        Some(Ok(Request::SelectPane { session, window, target: PaneSelectTarget::Index(pane) }))
    } else {
        None
    }
}

/// The requests of group 14: `None` when the line is none of them.
#[verifier::opaque]
pub open spec fn decode_group_14_spec(parts: Seq<Seq<char>>) -> Option<Result<RequestView, Seq<char>>> {
    let n = parts.len();
    if n == 4 && is_kind(parts[0], "SELECT_PANE_TARGET_ID"@, (21, 'L', 'I')) {
        Some(
            {
                let session = parts[1];
                match dec_structured_window_target(parts[2], "SELECT_PANE_TARGET_ID"@) {
                    Err(e) => Err(e),
                    Ok(window) => {
                        match dec_usize_or(parts[3], "SELECT_PANE_TARGET_ID has invalid pane id"@) {
                            Err(e) => Err(e),
                            Ok(id) => {
                                Ok(RequestView::SelectPane { session, window, target: PaneSelectTarget::Id(id) })
                            },
                        }
                    },
                }
            }
        )
    } else if n == 4 && is_kind(parts[0], "SELECT_PANE_TARGET_DIRECTION"@, (28, 'L', 'O')) {
        Some(
            {
                let session = parts[1];
                match dec_structured_window_target(parts[2], "SELECT_PANE_TARGET_DIRECTION"@) {
                    Err(e) => Err(e),
                    Ok(window) => {
                        match dec_pane_direction(parts[3], "SELECT_PANE_TARGET_DIRECTION has invalid direction"@) {
                            Err(e) => Err(e),
                            Ok(direction) => {
                                Ok(RequestView::SelectPane { session, window, target: PaneSelectTarget::Direction(direction) })
                            },
                        }
                    },
                }
            }
        )
    } else if n == 3 && is_kind(parts[0], "KILL_PANE"@, (9, 'L', 'N')) {
        Some(
            {
                let session = parts[1];
                match dec_optional_index(parts[2], "KILL_PANE has invalid pane index"@) {
                    Err(e) => Err(e),
                    Ok(pane) => {
                        Ok(RequestView::KillPane { target: TargetView { session, window: WindowTargetView::Active, pane: pane_or_active(pane) } })
                    },
                }
            }
        )
    } else if n == 2 && is_kind(parts[0], "KILL_PANE_TARGET"@, (16, 'L', 'E')) {
        Some(
            match dec_target(parts[1], "KILL_PANE_TARGET"@) {
                Err(e) => Err(e),
                Ok(target) => {
                    Ok(RequestView::KillPane { target })
                },
            }
        )
    } else {
        None
    }
}

#[verifier::rlimit(40)]
fn decode_group_14(parts: &Vec<Vec<char>>) -> (r: Option<Result<Request, String>>)
    requires
        parts@.len() >= 1,
    ensures
        match decode_group_14_spec(views_of_parts(parts@)) {
            None => r is None,
            Some(x) => r matches Some(y) && request_res(y) == x,
        },
{
    proof {
        reveal(decode_group_14_spec);
        reveal_strlit("SELECT_PANE_TARGET_ID");
        reveal_strlit("SELECT_PANE_TARGET_DIRECTION");
        reveal_strlit("KILL_PANE");
        reveal_strlit("KILL_PANE_TARGET");
    }
    let ghost pv = views_of_parts(parts@);
    let n = parts.len();
    let tag = parts[0].as_slice();
    if n == 4 && chars_eq_str(tag, "SELECT_PANE_TARGET_ID") {
        let session = string_from_chars(parts[1].as_slice());
        let window = match decode_structured_window_target(parts[2].as_slice(), "SELECT_PANE_TARGET_ID") {
            Ok(x) => x,
            Err(e) => return Some(Err(e)),
        };
        let id = match decode_usize_or(parts[3].as_slice(), "SELECT_PANE_TARGET_ID has invalid pane id") {
            Ok(x) => x,
            Err(e) => return Some(Err(e)),
        };
        Some(Ok(Request::SelectPane { session, window, target: PaneSelectTarget::Id(id) }))
    } else if n == 4 && chars_eq_str(tag, "SELECT_PANE_TARGET_DIRECTION") {
        let session = string_from_chars(parts[1].as_slice());
        let window = match decode_structured_window_target(parts[2].as_slice(), "SELECT_PANE_TARGET_DIRECTION") {
            Ok(x) => x,
            Err(e) => return Some(Err(e)),
        };
        let direction = match decode_pane_direction(parts[3].as_slice(), "SELECT_PANE_TARGET_DIRECTION has invalid direction") {
            Ok(x) => x,
            Err(e) => return Some(Err(e)),
        };
        Some(Ok(Request::SelectPane { session, window, target: PaneSelectTarget::Direction(direction) }))
    } else if n == 3 && chars_eq_str(tag, "KILL_PANE") {
        let session = string_from_chars(parts[1].as_slice());
        let pane = match decode_optional_index(parts[2].as_slice(), "KILL_PANE has invalid pane index") {
            Ok(x) => x,
            Err(e) => return Some(Err(e)),
        };
        Some(Ok(Request::KillPane { target: Target { session, window: WindowTarget::Active, pane: match pane { Some(p) => PaneTarget::Index(p), None => PaneTarget::Active } } }))
    } else if n == 2 && chars_eq_str(tag, "KILL_PANE_TARGET") {
        let target = match decode_target(parts[1].as_slice(), "KILL_PANE_TARGET") {
            Ok(x) => x,
            Err(e) => return Some(Err(e)),
        };
        Some(Ok(Request::KillPane { target }))
    } else {
        None
    }
}

/// The requests of group 15: `None` when the line is none of them.
#[verifier::opaque]
pub open spec fn decode_group_15_spec(parts: Seq<Seq<char>>) -> Option<Result<RequestView, Seq<char>>> {
    let n = parts.len();
    if n == 3 && is_kind(parts[0], "SWAP_PANE"@, (9, 'A', 'N')) {
        Some(
            match dec_target(parts[1], "SWAP_PANE"@) {
                Err(e) => Err(e),
                Ok(source) => {
                    match dec_target(parts[2], "SWAP_PANE"@) {
                        Err(e) => Err(e),
                        Ok(destination) => {
                            Ok(RequestView::SwapPane { source, destination })
                        },
                    }
                },
            }
        )
    } else if n == 4 && is_kind(parts[0], "MOVE_PANE"@, (9, 'V', 'N')) {
        Some(
            match dec_target(parts[1], "MOVE_PANE"@) {
                Err(e) => Err(e),
                Ok(source) => {
                    match dec_target(parts[2], "MOVE_PANE"@) {
                        Err(e) => Err(e),
                        Ok(destination) => {
                            match dec_split_direction(parts[3]) {
                                Err(e) => Err(e),
                                Ok(direction) => {
                                    Ok(RequestView::MovePane { source, destination, direction })
                                },
                            }
                        },
                    }
                },
            }
        )
    } else if n == 2 && is_kind(parts[0], "BREAK_PANE"@, (10, 'E', 'N')) {
        Some(
            match dec_target(parts[1], "BREAK_PANE"@) {
                Err(e) => Err(e),
                Ok(target) => {
                    Ok(RequestView::BreakPane { target })
                },
            }
        )
    } else if n == 4 && is_kind(parts[0], "JOIN_PANE"@, (9, 'I', 'N')) {
        Some(
            match dec_target(parts[1], "JOIN_PANE"@) {
                Err(e) => Err(e),
                Ok(source) => {
                    match dec_target(parts[2], "JOIN_PANE"@) {
                        Err(e) => Err(e),
                        Ok(destination) => {
                            match dec_split_direction(parts[3]) {
                                Err(e) => Err(e),
                                Ok(direction) => {
                                    Ok(RequestView::JoinPane { source, destination, direction })
                                },
                            }
                        },
                    }
                },
            }
        )
    } else {
        None
    }
}

#[verifier::rlimit(40)]
fn decode_group_15(parts: &Vec<Vec<char>>) -> (r: Option<Result<Request, String>>)
    requires
        parts@.len() >= 1,
    ensures
        match decode_group_15_spec(views_of_parts(parts@)) {
            None => r is None,
            Some(x) => r matches Some(y) && request_res(y) == x,
        },
{
    proof {
        reveal(decode_group_15_spec);
        reveal_strlit("SWAP_PANE");
        reveal_strlit("MOVE_PANE");
        reveal_strlit("BREAK_PANE");
        reveal_strlit("JOIN_PANE");
    }
    let ghost pv = views_of_parts(parts@);
    let n = parts.len();
    let tag = parts[0].as_slice();
    if n == 3 && chars_eq_str(tag, "SWAP_PANE") {
        let source = match decode_target(parts[1].as_slice(), "SWAP_PANE") {
            Ok(x) => x,
            Err(e) => return Some(Err(e)),
        };
        let destination = match decode_target(parts[2].as_slice(), "SWAP_PANE") {
            Ok(x) => x,
            Err(e) => return Some(Err(e)),
        };
        Some(Ok(Request::SwapPane { source, destination }))
    } else if n == 4 && chars_eq_str(tag, "MOVE_PANE") {
        let source = match decode_target(parts[1].as_slice(), "MOVE_PANE") {
            Ok(x) => x,
            Err(e) => return Some(Err(e)),
        };
        let destination = match decode_target(parts[2].as_slice(), "MOVE_PANE") {
            Ok(x) => x,
            Err(e) => return Some(Err(e)),
        };
        let direction = match decode_split_direction(parts[3].as_slice()) {
            Ok(x) => x,
            Err(e) => return Some(Err(e)),
        };
        Some(Ok(Request::MovePane { source, destination, direction }))
    } else if n == 2 && chars_eq_str(tag, "BREAK_PANE") {
        let target = match decode_target(parts[1].as_slice(), "BREAK_PANE") {
            Ok(x) => x,
            Err(e) => return Some(Err(e)),
        };
        Some(Ok(Request::BreakPane { target }))
    } else if n == 4 && chars_eq_str(tag, "JOIN_PANE") {
        let source = match decode_target(parts[1].as_slice(), "JOIN_PANE") {
            Ok(x) => x,
            Err(e) => return Some(Err(e)),
        };
        let destination = match decode_target(parts[2].as_slice(), "JOIN_PANE") {
            Ok(x) => x,
            Err(e) => return Some(Err(e)),
        };
        let direction = match decode_split_direction(parts[3].as_slice()) {
            Ok(x) => x,
            Err(e) => return Some(Err(e)),
        };
        Some(Ok(Request::JoinPane { source, destination, direction }))
    } else {
        None
    }
}

/// The requests of group 16: `None` when the line is none of them.
#[verifier::opaque]
pub open spec fn decode_group_16_spec(parts: Seq<Seq<char>>) -> Option<Result<RequestView, Seq<char>>> {
    let n = parts.len();
    if n == 6 && is_kind(parts[0], "RESPAWN_PANE"@, (12, 'S', 'N')) {
        Some(
            {
                let session = parts[1];
                match dec_command(parts[4], parts[5], "RESPAWN_PANE"@) {
                    Err(e) => Err(e),
                    Ok(command) => {
                        match dec_optional_index(parts[2], "KILL_PANE has invalid pane index"@) {
                            Err(e) => Err(e),
                            Ok(pane) => {
                                match dec_force(parts[3], "RESPAWN_PANE"@) {
                                    Err(e) => Err(e),
                                    Ok(force) => {
                                        Ok(RequestView::RespawnPane { target: TargetView { session, window: WindowTargetView::Active, pane: pane_or_active(pane) }, force, command, cwd: None })
                                    },
                                }
                            },
                        }
                    },
                }
            }
        )
    } else if n == 5 && is_kind(parts[0], "RESPAWN_PANE_TARGET"@, (19, 'S', 'E')) {
        Some(
            match dec_command(parts[3], parts[4], "RESPAWN_PANE_TARGET"@) {
                Err(e) => Err(e),
                Ok(command) => {
                    match dec_target(parts[1], "RESPAWN_PANE_TARGET"@) {
                        Err(e) => Err(e),
                        Ok(target) => {
                            match dec_force(parts[2], "RESPAWN_PANE_TARGET"@) {
                                Err(e) => Err(e),
                                Ok(force) => {
                                    Ok(RequestView::RespawnPane { target, force, command, cwd: None })
                                },
                            }
                        },
                    }
                },
            }
        )
    } else if n == 6 && is_kind(parts[0], "RESPAWN_PANE_TARGET_CWD"@, (23, 'S', 'W')) {
        Some(
            match dec_command(parts[4], parts[5], "RESPAWN_PANE_TARGET_CWD"@) {
                Err(e) => Err(e),
                Ok(command) => {
                    match dec_target(parts[1], "RESPAWN_PANE_TARGET_CWD"@) {
                        Err(e) => Err(e),
                        Ok(target) => {
                            match dec_force(parts[2], "RESPAWN_PANE_TARGET_CWD"@) {
                                Err(e) => Err(e),
                                Ok(force) => {
                                    match dec_hex(parts[3]) {
                                        Err(e) => Err(e),
                                        Ok(cwd) => {
                                            Ok(RequestView::RespawnPane { target, force, command, cwd: Some(cwd) })
                                        },
                                    }
                                },
                            }
                        },
                    }
                },
            }
        )
    } else if n == 4 && is_kind(parts[0], "NEW_WINDOW"@, (10, 'W', 'O')) {
        Some(
            {
                let session = parts[1];
                match dec_command(parts[2], parts[3], "NEW_WINDOW"@) {
                    Err(e) => Err(e),
                    Ok(command) => {
                        Ok(RequestView::NewWindow { session, command, cwd: None })
                    },
                }
            }
        )
    } else {
        None
    }
}

#[verifier::rlimit(40)]
fn decode_group_16(parts: &Vec<Vec<char>>) -> (r: Option<Result<Request, String>>)
    requires
        parts@.len() >= 1,
    ensures
        match decode_group_16_spec(views_of_parts(parts@)) {
            None => r is None,
            Some(x) => r matches Some(y) && request_res(y) == x,
        },
{
    proof {
        reveal(decode_group_16_spec);
        reveal_strlit("RESPAWN_PANE");
        reveal_strlit("RESPAWN_PANE_TARGET");
        reveal_strlit("RESPAWN_PANE_TARGET_CWD");
        reveal_strlit("NEW_WINDOW");
    }
    let ghost pv = views_of_parts(parts@);
    let n = parts.len();
    let tag = parts[0].as_slice();
    if n == 6 && chars_eq_str(tag, "RESPAWN_PANE") {
        let session = string_from_chars(parts[1].as_slice());
        let command = match decode_command(parts[4].as_slice(), parts[5].as_slice(), "RESPAWN_PANE") {
            Ok(x) => x,
            Err(e) => return Some(Err(e)),
        };
        let pane = match decode_optional_index(parts[2].as_slice(), "KILL_PANE has invalid pane index") {
            Ok(x) => x,
            Err(e) => return Some(Err(e)),
        };
        let force = match decode_force(parts[3].as_slice(), "RESPAWN_PANE") {
            Ok(x) => x,
            Err(e) => return Some(Err(e)),
        };
        Some(Ok(Request::RespawnPane { target: Target { session, window: WindowTarget::Active, pane: match pane { Some(p) => PaneTarget::Index(p), None => PaneTarget::Active } }, force, command, cwd: None }))
    } else if n == 5 && chars_eq_str(tag, "RESPAWN_PANE_TARGET") {
        let command = match decode_command(parts[3].as_slice(), parts[4].as_slice(), "RESPAWN_PANE_TARGET") {
            Ok(x) => x,
            Err(e) => return Some(Err(e)),
        };
        let target = match decode_target(parts[1].as_slice(), "RESPAWN_PANE_TARGET") {
            Ok(x) => x,
            Err(e) => return Some(Err(e)),
        };
        let force = match decode_force(parts[2].as_slice(), "RESPAWN_PANE_TARGET") {
            Ok(x) => x,
            Err(e) => return Some(Err(e)),
        };
        Some(Ok(Request::RespawnPane { target, force, command, cwd: None }))
    } else if n == 6 && chars_eq_str(tag, "RESPAWN_PANE_TARGET_CWD") {
        let command = match decode_command(parts[4].as_slice(), parts[5].as_slice(), "RESPAWN_PANE_TARGET_CWD") {
            Ok(x) => x,
            Err(e) => return Some(Err(e)),
        };
        let target = match decode_target(parts[1].as_slice(), "RESPAWN_PANE_TARGET_CWD") {
            Ok(x) => x,
            Err(e) => return Some(Err(e)),
        };
        let force = match decode_force(parts[2].as_slice(), "RESPAWN_PANE_TARGET_CWD") {
            Ok(x) => x,
            Err(e) => return Some(Err(e)),
        };
        let cwd = match decode_hex_field(parts[3].as_slice()) {
            Ok(x) => x,
            Err(e) => return Some(Err(e)),
        };
        Some(Ok(Request::RespawnPane { target, force, command, cwd: Some(cwd) }))
    } else if n == 4 && chars_eq_str(tag, "NEW_WINDOW") {
        let session = string_from_chars(parts[1].as_slice());
        let command = match decode_command(parts[2].as_slice(), parts[3].as_slice(), "NEW_WINDOW") {
            Ok(x) => x,
            Err(e) => return Some(Err(e)),
        };
        Some(Ok(Request::NewWindow { session, command, cwd: None }))
    } else {
        None
    }
}

/// The requests of group 17: `None` when the line is none of them.
#[verifier::opaque]
pub open spec fn decode_group_17_spec(parts: Seq<Seq<char>>) -> Option<Result<RequestView, Seq<char>>> {
    let n = parts.len();
    if n == 5 && is_kind(parts[0], "NEW_WINDOW_CWD"@, (14, 'W', 'W')) {
        Some(
            {
                let session = parts[1];
                match dec_command(parts[3], parts[4], "NEW_WINDOW_CWD"@) {
                    Err(e) => Err(e),
                    Ok(command) => {
                        match dec_hex(parts[2]) {
                            Err(e) => Err(e),
                            Ok(cwd) => {
                                Ok(RequestView::NewWindow { session, command, cwd: Some(cwd) })
                            },
                        }
                    },
                }
            }
        )
    } else if n == 2 && is_kind(parts[0], "LIST_WINDOWS"@, (12, 'S', 'W')) {
        Some(
            {
                let session = parts[1];
                Ok(RequestView::ListWindows { session, format: None })
            }
        )
    } else if n == 3 && is_kind(parts[0], "LIST_WINDOWS_FORMAT"@, (19, 'S', 'A')) {
        Some(
            {
                let session = parts[1];
                match dec_utf8_hex(parts[2], "LIST_WINDOWS_FORMAT"@) {
                    Err(e) => Err(e),
                    Ok(format) => {
                        Ok(RequestView::ListWindows { session, format: Some(format) })
                    },
                }
            }
        )
    } else if n == 3 && is_kind(parts[0], "SELECT_WINDOW"@, (13, 'L', 'O')) {
        Some(
            {
                let session = parts[1];
                match dec_usize_or(parts[2], "SELECT_WINDOW has invalid window index"@) {
                    Err(e) => Err(e),
                    Ok(window) => {
                        Ok(RequestView::SelectWindow { session, target: WindowTargetView::Index(window) })
                    },
                }
            }
        )
    } else {
        None
    }
}

#[verifier::rlimit(40)]
fn decode_group_17(parts: &Vec<Vec<char>>) -> (r: Option<Result<Request, String>>)
    requires
        parts@.len() >= 1,
    ensures
        match decode_group_17_spec(views_of_parts(parts@)) {
            None => r is None,
            Some(x) => r matches Some(y) && request_res(y) == x,
        },
{
    proof {
        reveal(decode_group_17_spec);
        reveal_strlit("NEW_WINDOW_CWD");
        reveal_strlit("LIST_WINDOWS");
        reveal_strlit("LIST_WINDOWS_FORMAT");
        reveal_strlit("SELECT_WINDOW");
    }
    let ghost pv = views_of_parts(parts@);
    let n = parts.len();
    let tag = parts[0].as_slice();
    if n == 5 && chars_eq_str(tag, "NEW_WINDOW_CWD") {
        let session = string_from_chars(parts[1].as_slice());
        let command = match decode_command(parts[3].as_slice(), parts[4].as_slice(), "NEW_WINDOW_CWD") {
            Ok(x) => x,
            Err(e) => return Some(Err(e)),
        };
        let cwd = match decode_hex_field(parts[2].as_slice()) {
            Ok(x) => x,
            Err(e) => return Some(Err(e)),
        };
        Some(Ok(Request::NewWindow { session, command, cwd: Some(cwd) }))
    } else if n == 2 && chars_eq_str(tag, "LIST_WINDOWS") {
        let session = string_from_chars(parts[1].as_slice());
        Some(Ok(Request::ListWindows { session, format: None }))
    } else if n == 3 && chars_eq_str(tag, "LIST_WINDOWS_FORMAT") {
        let session = string_from_chars(parts[1].as_slice());
        let format = match decode_utf8_hex(parts[2].as_slice(), "LIST_WINDOWS_FORMAT") {
            Ok(x) => x,
            Err(e) => return Some(Err(e)),
        };
        Some(Ok(Request::ListWindows { session, format: Some(format) }))
    } else if n == 3 && chars_eq_str(tag, "SELECT_WINDOW") {
        let session = string_from_chars(parts[1].as_slice());
        let window = match decode_usize_or(parts[2].as_slice(), "SELECT_WINDOW has invalid window index") {
            Ok(x) => x,
            Err(e) => return Some(Err(e)),
        };
        Some(Ok(Request::SelectWindow { session, target: WindowTarget::Index(window) }))
    } else {
        None
    }
}

/// The requests of group 18: `None` when the line is none of them.
#[verifier::opaque]
pub open spec fn decode_group_18_spec(parts: Seq<Seq<char>>) -> Option<Result<RequestView, Seq<char>>> {
    let n = parts.len();
    if n == 3 && is_kind(parts[0], "SELECT_WINDOW_ID"@, (16, 'L', 'I')) {
        Some(
            {
                let session = parts[1];
                match dec_usize_or(parts[2], "SELECT_WINDOW_ID has invalid window id"@) {
                    Err(e) => Err(e),
                    Ok(id) => {
                        Ok(RequestView::SelectWindow { session, target: WindowTargetView::Id(id) })
                    },
                }
            }
        )
    } else if n == 3 && is_kind(parts[0], "SELECT_WINDOW_NAME"@, (18, 'L', 'M')) {
        Some(
            {
                let session = parts[1];
                match dec_utf8_hex(parts[2], "SELECT_WINDOW_NAME"@) {
                    Err(e) => Err(e),
                    Ok(name) => {
                        Ok(RequestView::SelectWindow { session, target: WindowTargetView::Name(name) })
                    },
                }
            }
        )
    } else if n == 2 && is_kind(parts[0], "SELECT_WINDOW_ACTIVE"@, (20, 'L', 'V')) {
        Some(
            {
                let session = parts[1];
                Ok(RequestView::SelectWindow { session, target: WindowTargetView::Active })
            }
        )
    } else if n == 4 && is_kind(parts[0], "RENAME_WINDOW"@, (13, 'N', 'O')) {
        Some(
            {
                let session = parts[1];
                match dec_window_target(parts[2], "RENAME_WINDOW has invalid window index"@) {
                    Err(e) => Err(e),
                    Ok(target) => {
                        match dec_utf8_hex(parts[3], "RENAME_WINDOW"@) {
                            Err(e) => Err(e),
                            Ok(name) => {
                                Ok(RequestView::RenameWindow { session, target, name })
                            },
                        }
                    },
                }
            }
        )
    } else {
        None
    }
}

#[verifier::rlimit(40)]
fn decode_group_18(parts: &Vec<Vec<char>>) -> (r: Option<Result<Request, String>>)
    requires
        parts@.len() >= 1,
    ensures
        match decode_group_18_spec(views_of_parts(parts@)) {
            None => r is None,
            Some(x) => r matches Some(y) && request_res(y) == x,
        },
{
    proof {
        reveal(decode_group_18_spec);
        reveal_strlit("SELECT_WINDOW_ID");
        reveal_strlit("SELECT_WINDOW_NAME");
        reveal_strlit("SELECT_WINDOW_ACTIVE");
        reveal_strlit("RENAME_WINDOW");
    }
    let ghost pv = views_of_parts(parts@);
    let n = parts.len();
    let tag = parts[0].as_slice();
    if n == 3 && chars_eq_str(tag, "SELECT_WINDOW_ID") {
        let session = string_from_chars(parts[1].as_slice());
        let id = match decode_usize_or(parts[2].as_slice(), "SELECT_WINDOW_ID has invalid window id") {
            Ok(x) => x,
            Err(e) => return Some(Err(e)),
        };
        Some(Ok(Request::SelectWindow { session, target: WindowTarget::Id(id) }))
    } else if n == 3 && chars_eq_str(tag, "SELECT_WINDOW_NAME") {
        let session = string_from_chars(parts[1].as_slice());
        let name = match decode_utf8_hex(parts[2].as_slice(), "SELECT_WINDOW_NAME") {
            Ok(x) => x,
            Err(e) => return Some(Err(e)),
        };
        Some(Ok(Request::SelectWindow { session, target: WindowTarget::Name(name) }))
    } else if n == 2 && chars_eq_str(tag, "SELECT_WINDOW_ACTIVE") {
        let session = string_from_chars(parts[1].as_slice());
        Some(Ok(Request::SelectWindow { session, target: WindowTarget::Active }))
    } else if n == 4 && chars_eq_str(tag, "RENAME_WINDOW") {
        let session = string_from_chars(parts[1].as_slice());
        let target = match decode_window_target(parts[2].as_slice(), "RENAME_WINDOW has invalid window index") {
            Ok(x) => x,
            Err(e) => return Some(Err(e)),
        };
        let name = match decode_utf8_hex(parts[3].as_slice(), "RENAME_WINDOW") {
            Ok(x) => x,
            Err(e) => return Some(Err(e)),
        };
        Some(Ok(Request::RenameWindow { session, target, name }))
    } else {
        None
    }
}

/// The requests of group 19: `None` when the line is none of them.
#[verifier::opaque]
pub open spec fn decode_group_19_spec(parts: Seq<Seq<char>>) -> Option<Result<RequestView, Seq<char>>> {
    let n = parts.len();
    if n == 4 && is_kind(parts[0], "RENAME_WINDOW_ID"@, (16, 'N', 'I')) {
        Some(
            {
                let session = parts[1];
                match dec_usize_or(parts[2], "RENAME_WINDOW_ID has invalid window id"@) {
                    Err(e) => Err(e),
                    Ok(id) => {
                        match dec_utf8_hex(parts[3], "RENAME_WINDOW_ID"@) {
                            Err(e) => Err(e),
                            Ok(name) => {
                                Ok(RequestView::RenameWindow { session, target: WindowTargetView::Id(id), name })
                            },
                        }
                    },
                }
            }
        )
    } else if n == 4 && is_kind(parts[0], "RENAME_WINDOW_NAME"@, (18, 'N', 'M')) {
        Some(
            {
                let session = parts[1];
                match dec_utf8_hex(parts[2], "RENAME_WINDOW_NAME"@) {
                    Err(e) => Err(e),
                    Ok(old_name) => {
                        match dec_utf8_hex(parts[3], "RENAME_WINDOW_NAME"@) {
                            Err(e) => Err(e),
                            Ok(name) => {
                                Ok(RequestView::RenameWindow { session, target: WindowTargetView::Name(old_name), name })
                            },
                        }
                    },
                }
            }
        )
    } else if n == 2 && is_kind(parts[0], "NEXT_WINDOW"@, (11, 'X', 'O')) {
        Some(
            {
                let session = parts[1];
                Ok(RequestView::NextWindow { session })
            }
        )
    } else if n == 2 && is_kind(parts[0], "PREVIOUS_WINDOW"@, (15, 'E', 'O')) {
        Some(
            {
                let session = parts[1];
                Ok(RequestView::PreviousWindow { session })
            }
        )
    } else {
        None
    }
}

#[verifier::rlimit(40)]
fn decode_group_19(parts: &Vec<Vec<char>>) -> (r: Option<Result<Request, String>>)
    requires
        parts@.len() >= 1,
    ensures
        match decode_group_19_spec(views_of_parts(parts@)) {
            None => r is None,
            Some(x) => r matches Some(y) && request_res(y) == x,
        },
{
    proof {
        reveal(decode_group_19_spec);
        reveal_strlit("RENAME_WINDOW_ID");
        reveal_strlit("RENAME_WINDOW_NAME");
        reveal_strlit("NEXT_WINDOW");
        reveal_strlit("PREVIOUS_WINDOW");
    }
    let ghost pv = views_of_parts(parts@);
    let n = parts.len();
    let tag = parts[0].as_slice();
    if n == 4 && chars_eq_str(tag, "RENAME_WINDOW_ID") {
        let session = string_from_chars(parts[1].as_slice());
        let id = match decode_usize_or(parts[2].as_slice(), "RENAME_WINDOW_ID has invalid window id") {
            Ok(x) => x,
            Err(e) => return Some(Err(e)),
        };
        let name = match decode_utf8_hex(parts[3].as_slice(), "RENAME_WINDOW_ID") {
            Ok(x) => x,
            Err(e) => return Some(Err(e)),
        };
        Some(Ok(Request::RenameWindow { session, target: WindowTarget::Id(id), name }))
    } else if n == 4 && chars_eq_str(tag, "RENAME_WINDOW_NAME") {
        let session = string_from_chars(parts[1].as_slice());
        let old_name = match decode_utf8_hex(parts[2].as_slice(), "RENAME_WINDOW_NAME") {
            Ok(x) => x,
            Err(e) => return Some(Err(e)),
        };
        let name = match decode_utf8_hex(parts[3].as_slice(), "RENAME_WINDOW_NAME") {
            Ok(x) => x,
            Err(e) => return Some(Err(e)),
        };
        Some(Ok(Request::RenameWindow { session, target: WindowTarget::Name(old_name), name }))
    } else if n == 2 && chars_eq_str(tag, "NEXT_WINDOW") {
        let session = string_from_chars(parts[1].as_slice());
        Some(Ok(Request::NextWindow { session }))
    } else if n == 2 && chars_eq_str(tag, "PREVIOUS_WINDOW") {
        let session = string_from_chars(parts[1].as_slice());
        Some(Ok(Request::PreviousWindow { session }))
    } else {
        None
    }
}

/// The requests of group 20: `None` when the line is none of them.
#[verifier::opaque]
pub open spec fn decode_group_20_spec(parts: Seq<Seq<char>>) -> Option<Result<RequestView, Seq<char>>> {
    let n = parts.len();
    if n == 3 && is_kind(parts[0], "KILL_WINDOW"@, (11, 'L', 'O')) {
        Some(
            {
                let session = parts[1];
                match dec_optional_index(parts[2], "KILL_WINDOW has invalid window index"@) {
                    Err(e) => Err(e),
                    Ok(window) => {
                        Ok(RequestView::KillWindow { session, target: window_or_active(window) })
                    },
                }
            }
        )
    } else if n == 3 && is_kind(parts[0], "KILL_WINDOW_TARGET"@, (18, 'L', 'E')) {
        Some(
            {
                let session = parts[1];
                match dec_structured_window_target(parts[2], "KILL_WINDOW_TARGET"@) {
                    Err(e) => Err(e),
                    Ok(target) => {
                        Ok(RequestView::KillWindow { session, target })
                    },
                }
            }
        )
    } else if n == 3 && is_kind(parts[0], "ZOOM_PANE"@, (9, 'O', 'N')) {
        Some(
            {
                let session = parts[1];
                match dec_optional_index(parts[2], "ZOOM_PANE has invalid pane index"@) {
                    Err(e) => Err(e),
                    Ok(pane) => {
                        Ok(RequestView::ZoomPane { target: TargetView { session, window: WindowTargetView::Active, pane: pane_or_active(pane) } })
                    },
                }
            }
        )
    } else if n == 2 && is_kind(parts[0], "ZOOM_PANE_TARGET"@, (16, 'O', 'E')) {
        Some(
            match dec_target(parts[1], "ZOOM_PANE_TARGET"@) {
                Err(e) => Err(e),
                Ok(target) => {
                    Ok(RequestView::ZoomPane { target })
                },
            }
        )
    } else {
        None
    }
}

#[verifier::rlimit(40)]
fn decode_group_20(parts: &Vec<Vec<char>>) -> (r: Option<Result<Request, String>>)
    requires
        parts@.len() >= 1,
    ensures
        match decode_group_20_spec(views_of_parts(parts@)) {
            None => r is None,
            Some(x) => r matches Some(y) && request_res(y) == x,
        },
{
    proof {
        reveal(decode_group_20_spec);
        reveal_strlit("KILL_WINDOW");
        reveal_strlit("KILL_WINDOW_TARGET");
        reveal_strlit("ZOOM_PANE");
        reveal_strlit("ZOOM_PANE_TARGET");
    }
    let ghost pv = views_of_parts(parts@);
    let n = parts.len();
    let tag = parts[0].as_slice();
    if n == 3 && chars_eq_str(tag, "KILL_WINDOW") {
        let session = string_from_chars(parts[1].as_slice());
        let window = match decode_optional_index(parts[2].as_slice(), "KILL_WINDOW has invalid window index") {
            Ok(x) => x,
            Err(e) => return Some(Err(e)),
        };
        Some(Ok(Request::KillWindow { session, target: match window { Some(w) => WindowTarget::Index(w), None => WindowTarget::Active } }))
    } else if n == 3 && chars_eq_str(tag, "KILL_WINDOW_TARGET") {
        let session = string_from_chars(parts[1].as_slice());
        let target = match decode_structured_window_target(parts[2].as_slice(), "KILL_WINDOW_TARGET") {
            Ok(x) => x,
            Err(e) => return Some(Err(e)),
        };
        Some(Ok(Request::KillWindow { session, target }))
    } else if n == 3 && chars_eq_str(tag, "ZOOM_PANE") {
        let session = string_from_chars(parts[1].as_slice());
        let pane = match decode_optional_index(parts[2].as_slice(), "ZOOM_PANE has invalid pane index") {
            Ok(x) => x,
            Err(e) => return Some(Err(e)),
        };
        Some(Ok(Request::ZoomPane { target: Target { session, window: WindowTarget::Active, pane: match pane { Some(p) => PaneTarget::Index(p), None => PaneTarget::Active } } }))
    } else if n == 2 && chars_eq_str(tag, "ZOOM_PANE_TARGET") {
        let target = match decode_target(parts[1].as_slice(), "ZOOM_PANE_TARGET") {
            Ok(x) => x,
            Err(e) => return Some(Err(e)),
        };
        Some(Ok(Request::ZoomPane { target }))
    } else {
        None
    }
}

/// The requests of group 21: `None` when the line is none of them.
#[verifier::opaque]
pub open spec fn decode_group_21_spec(parts: Seq<Seq<char>>) -> Option<Result<RequestView, Seq<char>>> {
    let n = parts.len();
    if n == 2 && is_kind(parts[0], "STATUS_LINE"@, (11, 'A', 'N')) {
        Some(
            {
                let session = parts[1];
                Ok(RequestView::StatusLine { session, format: None })
            }
        )
    } else if n == 3 && is_kind(parts[0], "STATUS_LINE_FORMAT"@, (18, 'A', 'A')) {
        Some(
            {
                let session = parts[1];
                match dec_utf8_hex(parts[2], "STATUS_LINE_FORMAT"@) {
                    Err(e) => Err(e),
                    Ok(format) => {
                        Ok(RequestView::StatusLine { session, format: Some(format) })
                    },
                }
            }
        )
    } else if n == 3 && is_kind(parts[0], "DISPLAY_MESSAGE"@, (15, 'S', 'G')) {
        Some(
            {
                let session = parts[1];
                match dec_utf8_hex(parts[2], "DISPLAY_MESSAGE"@) {
                    Err(e) => Err(e),
                    Ok(format) => {
                        Ok(RequestView::DisplayMessage { session, format })
                    },
                }
            }
        )
    } else if n == 2 && is_kind(parts[0], "LIST_KEYS"@, (9, 'S', 'Y')) {
        Some(
            match dec_optional_text(parts[1], "LIST_KEYS"@) {
                Err(e) => Err(e),
                Ok(format) => {
                    Ok(RequestView::ListKeys { format })
                },
            }
        )
    } else {
        None
    }
}

#[verifier::rlimit(40)]
fn decode_group_21(parts: &Vec<Vec<char>>) -> (r: Option<Result<Request, String>>)
    requires
        parts@.len() >= 1,
    ensures
        match decode_group_21_spec(views_of_parts(parts@)) {
            None => r is None,
            Some(x) => r matches Some(y) && request_res(y) == x,
        },
{
    proof {
        reveal(decode_group_21_spec);
        reveal_strlit("STATUS_LINE");
        reveal_strlit("STATUS_LINE_FORMAT");
        reveal_strlit("DISPLAY_MESSAGE");
        reveal_strlit("LIST_KEYS");
    }
    let ghost pv = views_of_parts(parts@);
    let n = parts.len();
    let tag = parts[0].as_slice();
    if n == 2 && chars_eq_str(tag, "STATUS_LINE") {
        let session = string_from_chars(parts[1].as_slice());
        Some(Ok(Request::StatusLine { session, format: None }))
    } else if n == 3 && chars_eq_str(tag, "STATUS_LINE_FORMAT") {
        let session = string_from_chars(parts[1].as_slice());
        let format = match decode_utf8_hex(parts[2].as_slice(), "STATUS_LINE_FORMAT") {
            Ok(x) => x,
            Err(e) => return Some(Err(e)),
        };
        Some(Ok(Request::StatusLine { session, format: Some(format) }))
    } else if n == 3 && chars_eq_str(tag, "DISPLAY_MESSAGE") {
        let session = string_from_chars(parts[1].as_slice());
        let format = match decode_utf8_hex(parts[2].as_slice(), "DISPLAY_MESSAGE") {
            Ok(x) => x,
            Err(e) => return Some(Err(e)),
        };
        Some(Ok(Request::DisplayMessage { session, format }))
    } else if n == 2 && chars_eq_str(tag, "LIST_KEYS") {
        let format = match decode_optional_text(parts[1].as_slice(), "LIST_KEYS") {
            Ok(x) => x,
            Err(e) => return Some(Err(e)),
        };
        Some(Ok(Request::ListKeys { format }))
    } else {
        None
    }
}

/// The requests of group 22: `None` when the line is none of them.
#[verifier::opaque]
pub open spec fn decode_group_22_spec(parts: Seq<Seq<char>>) -> Option<Result<RequestView, Seq<char>>> {
    let n = parts.len();
    if n == 3 && is_kind(parts[0], "BIND_KEY"@, (8, 'N', 'E')) {
        Some(
            match dec_utf8_hex(parts[1], "BIND_KEY"@) {
                Err(e) => Err(e),
                Ok(key) => {
                    match dec_utf8_hex(parts[2], "BIND_KEY"@) {
                        Err(e) => Err(e),
                        Ok(command) => {
                            Ok(RequestView::BindKey { key, command })
                        },
                    }
                },
            }
        )
    } else if n == 2 && is_kind(parts[0], "UNBIND_KEY"@, (10, 'B', 'E')) {
        Some(
            match dec_utf8_hex(parts[1], "UNBIND_KEY"@) {
                Err(e) => Err(e),
                Ok(key) => {
                    Ok(RequestView::UnbindKey { key })
                },
            }
        )
    } else if n == 2 && is_kind(parts[0], "SHOW_OPTIONS"@, (12, 'O', 'N')) {
        Some(
            match dec_optional_text(parts[1], "SHOW_OPTIONS"@) {
                Err(e) => Err(e),
                Ok(format) => {
                    Ok(RequestView::ShowOptions { format })
                },
            }
        )
    } else if n == 3 && is_kind(parts[0], "SET_OPTION"@, (10, 'T', 'O')) {
        Some(
            match dec_utf8_hex(parts[1], "SET_OPTION"@) {
                Err(e) => Err(e),
                Ok(name) => {
                    match dec_utf8_hex(parts[2], "SET_OPTION"@) {
                        Err(e) => Err(e),
                        Ok(value) => {
                            Ok(RequestView::SetOption { name, value })
                        },
                    }
                },
            }
        )
    } else {
        None
    }
}

#[verifier::rlimit(40)]
fn decode_group_22(parts: &Vec<Vec<char>>) -> (r: Option<Result<Request, String>>)
    requires
        parts@.len() >= 1,
    ensures
        match decode_group_22_spec(views_of_parts(parts@)) {
            None => r is None,
            Some(x) => r matches Some(y) && request_res(y) == x,
        },
{
    proof {
        reveal(decode_group_22_spec);
        reveal_strlit("BIND_KEY");
        reveal_strlit("UNBIND_KEY");
        reveal_strlit("SHOW_OPTIONS");
        reveal_strlit("SET_OPTION");
    }
    let ghost pv = views_of_parts(parts@);
    let n = parts.len();
    let tag = parts[0].as_slice();
    if n == 3 && chars_eq_str(tag, "BIND_KEY") {
        let key = match decode_utf8_hex(parts[1].as_slice(), "BIND_KEY") {
            Ok(x) => x,
            Err(e) => return Some(Err(e)),
        };
        let command = match decode_utf8_hex(parts[2].as_slice(), "BIND_KEY") {
            Ok(x) => x,
            Err(e) => return Some(Err(e)),
        };
        Some(Ok(Request::BindKey { key, command }))
    } else if n == 2 && chars_eq_str(tag, "UNBIND_KEY") {
        let key = match decode_utf8_hex(parts[1].as_slice(), "UNBIND_KEY") {
            Ok(x) => x,
            Err(e) => return Some(Err(e)),
        };
        Some(Ok(Request::UnbindKey { key }))
    } else if n == 2 && chars_eq_str(tag, "SHOW_OPTIONS") {
        let format = match decode_optional_text(parts[1].as_slice(), "SHOW_OPTIONS") {
            Ok(x) => x,
            Err(e) => return Some(Err(e)),
        };
        Some(Ok(Request::ShowOptions { format }))
    } else if n == 3 && chars_eq_str(tag, "SET_OPTION") {
        let name = match decode_utf8_hex(parts[1].as_slice(), "SET_OPTION") {
            Ok(x) => x,
            Err(e) => return Some(Err(e)),
        };
        let value = match decode_utf8_hex(parts[2].as_slice(), "SET_OPTION") {
            Ok(x) => x,
            Err(e) => return Some(Err(e)),
        };
        Some(Ok(Request::SetOption { name, value }))
    } else {
        None
    }
}

/// The requests of group 23: `None` when the line is none of them.
#[verifier::opaque]
pub open spec fn decode_group_23_spec(parts: Seq<Seq<char>>) -> Option<Result<RequestView, Seq<char>>> {
    let n = parts.len();
    if n == 2 && is_kind(parts[0], "KILL"@, (4, 'L', 'L')) {
        Some(
            {
                let session = parts[1];
                Ok(RequestView::Kill { session })
            }
        )
    } else if n == 1 && is_kind(parts[0], "KILL_SERVER"@, (11, 'L', 'E')) {
        Some(
            Ok(RequestView::KillServer)
        )
    } else {
        None
    }
}

#[verifier::rlimit(40)]
fn decode_group_23(parts: &Vec<Vec<char>>) -> (r: Option<Result<Request, String>>)
    requires
        parts@.len() >= 1,
    ensures
        match decode_group_23_spec(views_of_parts(parts@)) {
            None => r is None,
            Some(x) => r matches Some(y) && request_res(y) == x,
        },
{
    proof {
        reveal(decode_group_23_spec);
        reveal_strlit("KILL");
        reveal_strlit("KILL_SERVER");
    }
    let ghost pv = views_of_parts(parts@);
    let n = parts.len();
    let tag = parts[0].as_slice();
    if n == 2 && chars_eq_str(tag, "KILL") {
        let session = string_from_chars(parts[1].as_slice());
        Some(Ok(Request::Kill { session }))
    } else if n == 1 && chars_eq_str(tag, "KILL_SERVER") {
        Some(Ok(Request::KillServer))
    } else {
        None
    }
}

/// The request a line decodes to, or the error message that refuses it.
pub open spec fn decode_request_spec(line: Seq<char>) -> Result<RequestView, Seq<char>> {
    let l = trim_newlines(line);
    let parts = split(l, '\t');
    if decode_group_0_spec(parts) is Some {
        decode_group_0_spec(parts).unwrap()
    } else if decode_group_1_spec(parts) is Some {
        decode_group_1_spec(parts).unwrap()
    } else if decode_group_2_spec(parts) is Some {
        decode_group_2_spec(parts).unwrap()
    } else if decode_group_3_spec(parts) is Some {
        decode_group_3_spec(parts).unwrap()
    } else if decode_group_4_spec(parts) is Some {
        decode_group_4_spec(parts).unwrap()
    } else if decode_group_5_spec(parts) is Some {
        decode_group_5_spec(parts).unwrap()
    } else if decode_group_6_spec(parts) is Some {
        decode_group_6_spec(parts).unwrap()
    } else if decode_group_7_spec(parts) is Some {
        decode_group_7_spec(parts).unwrap()
    } else if decode_group_8_spec(parts) is Some {
        decode_group_8_spec(parts).unwrap()
    } else if decode_group_9_spec(parts) is Some {
        decode_group_9_spec(parts).unwrap()
    } else if decode_group_10_spec(parts) is Some {
        decode_group_10_spec(parts).unwrap()
    } else if decode_group_11_spec(parts) is Some {
        decode_group_11_spec(parts).unwrap()
    } else if decode_group_12_spec(parts) is Some {
        decode_group_12_spec(parts).unwrap()
    } else if decode_group_13_spec(parts) is Some {
        decode_group_13_spec(parts).unwrap()
    } else if decode_group_14_spec(parts) is Some {
        decode_group_14_spec(parts).unwrap()
    } else if decode_group_15_spec(parts) is Some {
        decode_group_15_spec(parts).unwrap()
    } else if decode_group_16_spec(parts) is Some {
        decode_group_16_spec(parts).unwrap()
    } else if decode_group_17_spec(parts) is Some {
        decode_group_17_spec(parts).unwrap()
    } else if decode_group_18_spec(parts) is Some {
        decode_group_18_spec(parts).unwrap()
    } else if decode_group_19_spec(parts) is Some {
        decode_group_19_spec(parts).unwrap()
    } else if decode_group_20_spec(parts) is Some {
        decode_group_20_spec(parts).unwrap()
    } else if decode_group_21_spec(parts) is Some {
        decode_group_21_spec(parts).unwrap()
    } else if decode_group_22_spec(parts) is Some {
        decode_group_22_spec(parts).unwrap()
    } else if decode_group_23_spec(parts) is Some {
        decode_group_23_spec(parts).unwrap()
    } else {
        Err("unknown request line: "@ + debug_quoted(l))
    }
}

/// Decodes one request line (a trailing newline is ignored).
pub fn decode_request(line: &str) -> (r: Result<Request, String>)
    ensures
        request_res(r) == decode_request_spec(line@),
{
    let chars = crate::text::chars_of(line);
    let l = trim_newlines_chars(chars.as_slice());
    let parts = split_chars(l.as_slice(), '\t');
    proof {
        crate::text::lemma_split_nonempty(l@, '\t');
        assert(views_of_parts(parts@) =~= split(l@, '\t'));
    }
    if let Some(x) = decode_group_0(&parts) {
        return x;
    }
    if let Some(x) = decode_group_1(&parts) {
        return x;
    }
    if let Some(x) = decode_group_2(&parts) {
        return x;
    }
    if let Some(x) = decode_group_3(&parts) {
        return x;
    }
    if let Some(x) = decode_group_4(&parts) {
        return x;
    }
    if let Some(x) = decode_group_5(&parts) {
        return x;
    }
    if let Some(x) = decode_group_6(&parts) {
        return x;
    }
    if let Some(x) = decode_group_7(&parts) {
        return x;
    }
    if let Some(x) = decode_group_8(&parts) {
        return x;
    }
    if let Some(x) = decode_group_9(&parts) {
        return x;
    }
    if let Some(x) = decode_group_10(&parts) {
        return x;
    }
    if let Some(x) = decode_group_11(&parts) {
        return x;
    }
    if let Some(x) = decode_group_12(&parts) {
        return x;
    }
    if let Some(x) = decode_group_13(&parts) {
        return x;
    }
    if let Some(x) = decode_group_14(&parts) {
        return x;
    }
    if let Some(x) = decode_group_15(&parts) {
        return x;
    }
    if let Some(x) = decode_group_16(&parts) {
        return x;
    }
    if let Some(x) = decode_group_17(&parts) {
        return x;
    }
    if let Some(x) = decode_group_18(&parts) {
        return x;
    }
    if let Some(x) = decode_group_19(&parts) {
        return x;
    }
    if let Some(x) = decode_group_20(&parts) {
        return x;
    }
    if let Some(x) = decode_group_21(&parts) {
        return x;
    }
    if let Some(x) = decode_group_22(&parts) {
        return x;
    }
    if let Some(x) = decode_group_23(&parts) {
        return x;
    }
    Err(concat_str("unknown request line: ", debug_quote(string_from_chars(l.as_slice()).as_str()).as_str()))
}

/// Group 0 leaves a line alone when its kind and field count are none of
/// the group's.
pub proof fn lemma_group_0_none(parts: Seq<Seq<char>>)
    requires
        !(parts.len() == 4 && is_kind(parts[0], "NEW"@, (3, 'W', 'E'))),
        !(parts.len() == 5 && is_kind(parts[0], "NEW_CWD"@, (7, 'W', 'W'))),
        !(parts.len() == 2 && is_kind(parts[0], "ATTACH"@, (6, 'T', 'C'))),
        !(parts.len() == 2 && is_kind(parts[0], "ATTACH_RAW_STATE"@, (16, 'T', 'T'))),
    ensures
        decode_group_0_spec(parts) is None,
{
    reveal(decode_group_0_spec);
}

/// Group 1 leaves a line alone when its kind and field count are none of
/// the group's.
pub proof fn lemma_group_1_none(parts: Seq<Seq<char>>)
    requires
        !(parts.len() == 1 && is_kind(parts[0], "LIST"@, (4, 'S', 'S'))),
        !(parts.len() == 1 && is_kind(parts[0], "LIST_SESSIONS"@, (13, 'S', 'N'))),
        !(parts.len() == 2 && is_kind(parts[0], "LIST_SESSIONS_FORMAT"@, (20, 'S', 'A'))),
        !(parts.len() == 3 && is_kind(parts[0], "RENAME_SESSION"@, (14, 'N', 'O'))),
    ensures
        decode_group_1_spec(parts) is None,
{
    reveal(decode_group_1_spec);
}

/// Group 2 leaves a line alone when its kind and field count are none of
/// the group's.
pub proof fn lemma_group_2_none(parts: Seq<Seq<char>>)
    requires
        !(parts.len() == 3 && is_kind(parts[0], "LIST_CLIENTS"@, (12, 'S', 'T'))),
        !(parts.len() == 3 && is_kind(parts[0], "DETACH_CLIENT"@, (13, 'T', 'N'))),
        !(parts.len() == 2 && is_kind(parts[0], "ATTACH_SNAPSHOT"@, (15, 'T', 'O'))),
        !(parts.len() == 2 && is_kind(parts[0], "ATTACH_LAYOUT_SNAPSHOT"@, (22, 'T', 'O'))),
    ensures
        decode_group_2_spec(parts) is None,
{
    reveal(decode_group_2_spec);
}

/// Group 3 leaves a line alone when its kind and field count are none of
/// the group's.
pub proof fn lemma_group_3_none(parts: Seq<Seq<char>>)
    requires
        !(parts.len() == 2 && is_kind(parts[0], "ATTACH_LAYOUT_FRAME"@, (19, 'T', 'M'))),
        !(parts.len() == 2 && is_kind(parts[0], "ATTACH_EVENTS"@, (13, 'T', 'T'))),
        !(parts.len() == 2 && is_kind(parts[0], "ATTACH_RENDER"@, (13, 'T', 'E'))),
        !(parts.len() == 2 && is_kind(parts[0], "CAPTURE"@, (7, 'P', 'R'))),
    ensures
        decode_group_3_spec(parts) is None,
{
    reveal(decode_group_3_spec);
}

/// Group 4 leaves a line alone when its kind and field count are none of
/// the group's.
pub proof fn lemma_group_4_none(parts: Seq<Seq<char>>)
    requires
        !(parts.len() == 3 && is_kind(parts[0], "CAPTURE"@, (7, 'P', 'R'))),
        !(parts.len() == 5 && is_kind(parts[0], "CAPTURE_LINES"@, (13, 'P', 'E'))),
        !(parts.len() == 5 && is_kind(parts[0], "CAPTURE_SEARCH"@, (14, 'P', 'C'))),
        !(parts.len() == 3 && is_kind(parts[0], "CAPTURE_TARGET"@, (14, 'P', 'E'))),
    ensures
        decode_group_4_spec(parts) is None,
{
    reveal(decode_group_4_spec);
}

/// Group 5 leaves a line alone when its kind and field count are none of
/// the group's.
pub proof fn lemma_group_5_none(parts: Seq<Seq<char>>)
    requires
        !(parts.len() == 5 && is_kind(parts[0], "CAPTURE_TARGET_LINES"@, (20, 'P', 'E'))),
        !(parts.len() == 5 && is_kind(parts[0], "CAPTURE_TARGET_SEARCH"@, (21, 'P', 'C'))),
        !(parts.len() == 4 && is_kind(parts[0], "SAVE_BUFFER"@, (11, 'V', 'E'))),
        !(parts.len() == 6 && is_kind(parts[0], "SAVE_BUFFER_LINES"@, (17, 'V', 'E'))),
    ensures
        decode_group_5_spec(parts) is None,
{
    reveal(decode_group_5_spec);
}

/// Group 6 leaves a line alone when its kind and field count are none of
/// the group's.
pub proof fn lemma_group_6_none(parts: Seq<Seq<char>>)
    requires
        !(parts.len() == 5 && is_kind(parts[0], "SAVE_BUFFER_SEARCH"@, (18, 'V', 'C'))),
        !(parts.len() == 6 && is_kind(parts[0], "SAVE_BUFFER_SEARCH"@, (18, 'V', 'C'))),
        !(parts.len() == 4 && is_kind(parts[0], "SAVE_BUFFER_TARGET"@, (18, 'V', 'E'))),
        !(parts.len() == 6 && is_kind(parts[0], "SAVE_BUFFER_TARGET_LINES"@, (24, 'V', 'E'))),
    ensures
        decode_group_6_spec(parts) is None,
{
    reveal(decode_group_6_spec);
}

/// Group 7 leaves a line alone when its kind and field count are none of
/// the group's.
pub proof fn lemma_group_7_none(parts: Seq<Seq<char>>)
    requires
        !(parts.len() == 5 && is_kind(parts[0], "SAVE_BUFFER_TARGET_SEARCH"@, (25, 'V', 'C'))),
        !(parts.len() == 6 && is_kind(parts[0], "SAVE_BUFFER_TARGET_SEARCH"@, (25, 'V', 'C'))),
        !(parts.len() == 4 && is_kind(parts[0], "SAVE_BUFFER_TEXT"@, (16, 'V', 'X'))),
        !(parts.len() == 4 && is_kind(parts[0], "COPY_MODE"@, (9, 'P', 'D'))),
    ensures
        decode_group_7_spec(parts) is None,
{
    reveal(decode_group_7_spec);
}

/// Group 8 leaves a line alone when its kind and field count are none of
/// the group's.
pub proof fn lemma_group_8_none(parts: Seq<Seq<char>>)
    requires
        !(parts.len() == 5 && is_kind(parts[0], "COPY_MODE"@, (9, 'P', 'D'))),
        !(parts.len() == 1 && is_kind(parts[0], "LIST_BUFFERS"@, (12, 'S', 'R'))),
        !(parts.len() == 2 && is_kind(parts[0], "LIST_BUFFERS_FORMAT"@, (19, 'S', 'A'))),
        !(parts.len() == 3 && is_kind(parts[0], "PASTE_BUFFER"@, (12, 'S', 'E'))),
    ensures
        decode_group_8_spec(parts) is None,
{
    reveal(decode_group_8_spec);
}

/// Group 9 leaves a line alone when its kind and field count are none of
/// the group's.
pub proof fn lemma_group_9_none(parts: Seq<Seq<char>>)
    requires
        !(parts.len() == 3 && is_kind(parts[0], "PASTE_BUFFER_TARGET"@, (19, 'S', 'E'))),
        !(parts.len() == 2 && is_kind(parts[0], "DELETE_BUFFER"@, (13, 'L', 'E'))),
        !(parts.len() == 4 && is_kind(parts[0], "RESIZE"@, (6, 'S', 'Z'))),
        !(parts.len() == 4 && is_kind(parts[0], "RESIZE_PANE"@, (11, 'S', 'N'))),
    ensures
        decode_group_9_spec(parts) is None,
{
    reveal(decode_group_9_spec);
}

/// Group 10 leaves a line alone when its kind and field count are none of
/// the group's.
pub proof fn lemma_group_10_none(parts: Seq<Seq<char>>)
    requires
        !(parts.len() == 4 && is_kind(parts[0], "RESIZE_PANE_TARGET"@, (18, 'S', 'E'))),
        !(parts.len() == 3 && is_kind(parts[0], "SELECT_LAYOUT"@, (13, 'L', 'U'))),
        !(parts.len() == 3 && is_kind(parts[0], "SELECT_LAYOUT_TARGET"@, (20, 'L', 'E'))),
        !(parts.len() == 3 && is_kind(parts[0], "SEND"@, (4, 'N', 'N'))),
    ensures
        decode_group_10_spec(parts) is None,
{
    reveal(decode_group_10_spec);
}

/// Group 11 leaves a line alone when its kind and field count are none of
/// the group's.
pub proof fn lemma_group_11_none(parts: Seq<Seq<char>>)
    requires
        !(parts.len() == 3 && is_kind(parts[0], "SEND_TARGET"@, (11, 'N', 'E'))),
        !(parts.len() == 5 && is_kind(parts[0], "SPLIT"@, (5, 'L', 'I'))),
        !(parts.len() == 5 && is_kind(parts[0], "SPLIT_TARGET"@, (12, 'L', 'E'))),
        !(parts.len() == 6 && is_kind(parts[0], "SPLIT_TARGET_CWD"@, (16, 'L', 'W'))),
    ensures
        decode_group_11_spec(parts) is None,
{
    reveal(decode_group_11_spec);
}

/// Group 12 leaves a line alone when its kind and field count are none of
/// the group's.
pub proof fn lemma_group_12_none(parts: Seq<Seq<char>>)
    requires
        !(parts.len() == 2 && is_kind(parts[0], "LIST_PANES"@, (10, 'S', 'E'))),
        !(parts.len() == 3 && is_kind(parts[0], "LIST_PANES_FORMAT"@, (17, 'S', 'A'))),
        !(parts.len() == 3 && is_kind(parts[0], "LIST_PANES_TARGET"@, (17, 'S', 'E'))),
        !(parts.len() == 4 && is_kind(parts[0], "LIST_PANES_TARGET_FORMAT"@, (24, 'S', 'A'))),
    ensures
        decode_group_12_spec(parts) is None,
{
    reveal(decode_group_12_spec);
}

/// Group 13 leaves a line alone when its kind and field count are none of
/// the group's.
pub proof fn lemma_group_13_none(parts: Seq<Seq<char>>)
    requires
        !(parts.len() == 3 && is_kind(parts[0], "SELECT_PANE"@, (11, 'L', 'N'))),
        !(parts.len() == 3 && is_kind(parts[0], "SELECT_PANE_ID"@, (14, 'L', 'I'))),
        !(parts.len() == 3 && is_kind(parts[0], "SELECT_PANE_DIRECTION"@, (21, 'L', 'O'))),
        !(parts.len() == 4 && is_kind(parts[0], "SELECT_PANE_TARGET"@, (18, 'L', 'E'))),
    ensures
        decode_group_13_spec(parts) is None,
{
    reveal(decode_group_13_spec);
}

/// Group 14 leaves a line alone when its kind and field count are none of
/// the group's.
pub proof fn lemma_group_14_none(parts: Seq<Seq<char>>)
    requires
        !(parts.len() == 4 && is_kind(parts[0], "SELECT_PANE_TARGET_ID"@, (21, 'L', 'I'))),
        !(parts.len() == 4 && is_kind(parts[0], "SELECT_PANE_TARGET_DIRECTION"@, (28, 'L', 'O'))),
        !(parts.len() == 3 && is_kind(parts[0], "KILL_PANE"@, (9, 'L', 'N'))),
        !(parts.len() == 2 && is_kind(parts[0], "KILL_PANE_TARGET"@, (16, 'L', 'E'))),
    ensures
        decode_group_14_spec(parts) is None,
{
    reveal(decode_group_14_spec);
}

/// Group 15 leaves a line alone when its kind and field count are none of
/// the group's.
pub proof fn lemma_group_15_none(parts: Seq<Seq<char>>)
    requires
        !(parts.len() == 3 && is_kind(parts[0], "SWAP_PANE"@, (9, 'A', 'N'))),
        !(parts.len() == 4 && is_kind(parts[0], "MOVE_PANE"@, (9, 'V', 'N'))),
        !(parts.len() == 2 && is_kind(parts[0], "BREAK_PANE"@, (10, 'E', 'N'))),
        !(parts.len() == 4 && is_kind(parts[0], "JOIN_PANE"@, (9, 'I', 'N'))),
    ensures
        decode_group_15_spec(parts) is None,
{
    reveal(decode_group_15_spec);
}

/// Group 16 leaves a line alone when its kind and field count are none of
/// the group's.
pub proof fn lemma_group_16_none(parts: Seq<Seq<char>>)
    requires
        !(parts.len() == 6 && is_kind(parts[0], "RESPAWN_PANE"@, (12, 'S', 'N'))),
        !(parts.len() == 5 && is_kind(parts[0], "RESPAWN_PANE_TARGET"@, (19, 'S', 'E'))),
        !(parts.len() == 6 && is_kind(parts[0], "RESPAWN_PANE_TARGET_CWD"@, (23, 'S', 'W'))),
        !(parts.len() == 4 && is_kind(parts[0], "NEW_WINDOW"@, (10, 'W', 'O'))),
    ensures
        decode_group_16_spec(parts) is None,
{
    reveal(decode_group_16_spec);
}

/// Group 17 leaves a line alone when its kind and field count are none of
/// the group's.
pub proof fn lemma_group_17_none(parts: Seq<Seq<char>>)
    requires
        !(parts.len() == 5 && is_kind(parts[0], "NEW_WINDOW_CWD"@, (14, 'W', 'W'))),
        !(parts.len() == 2 && is_kind(parts[0], "LIST_WINDOWS"@, (12, 'S', 'W'))),
        !(parts.len() == 3 && is_kind(parts[0], "LIST_WINDOWS_FORMAT"@, (19, 'S', 'A'))),
        !(parts.len() == 3 && is_kind(parts[0], "SELECT_WINDOW"@, (13, 'L', 'O'))),
    ensures
        decode_group_17_spec(parts) is None,
{
    reveal(decode_group_17_spec);
}

/// Group 18 leaves a line alone when its kind and field count are none of
/// the group's.
pub proof fn lemma_group_18_none(parts: Seq<Seq<char>>)
    requires
        !(parts.len() == 3 && is_kind(parts[0], "SELECT_WINDOW_ID"@, (16, 'L', 'I'))),
        !(parts.len() == 3 && is_kind(parts[0], "SELECT_WINDOW_NAME"@, (18, 'L', 'M'))),
        !(parts.len() == 2 && is_kind(parts[0], "SELECT_WINDOW_ACTIVE"@, (20, 'L', 'V'))),
        !(parts.len() == 4 && is_kind(parts[0], "RENAME_WINDOW"@, (13, 'N', 'O'))),
    ensures
        decode_group_18_spec(parts) is None,
{
    reveal(decode_group_18_spec);
}

/// Group 19 leaves a line alone when its kind and field count are none of
/// the group's.
pub proof fn lemma_group_19_none(parts: Seq<Seq<char>>)
    requires
        !(parts.len() == 4 && is_kind(parts[0], "RENAME_WINDOW_ID"@, (16, 'N', 'I'))),
        !(parts.len() == 4 && is_kind(parts[0], "RENAME_WINDOW_NAME"@, (18, 'N', 'M'))),
        !(parts.len() == 2 && is_kind(parts[0], "NEXT_WINDOW"@, (11, 'X', 'O'))),
        !(parts.len() == 2 && is_kind(parts[0], "PREVIOUS_WINDOW"@, (15, 'E', 'O'))),
    ensures
        decode_group_19_spec(parts) is None,
{
    reveal(decode_group_19_spec);
}

/// Group 20 leaves a line alone when its kind and field count are none of
/// the group's.
pub proof fn lemma_group_20_none(parts: Seq<Seq<char>>)
    requires
        !(parts.len() == 3 && is_kind(parts[0], "KILL_WINDOW"@, (11, 'L', 'O'))),
        !(parts.len() == 3 && is_kind(parts[0], "KILL_WINDOW_TARGET"@, (18, 'L', 'E'))),
        !(parts.len() == 3 && is_kind(parts[0], "ZOOM_PANE"@, (9, 'O', 'N'))),
        !(parts.len() == 2 && is_kind(parts[0], "ZOOM_PANE_TARGET"@, (16, 'O', 'E'))),
    ensures
        decode_group_20_spec(parts) is None,
{
    reveal(decode_group_20_spec);
}

/// Group 21 leaves a line alone when its kind and field count are none of
/// the group's.
pub proof fn lemma_group_21_none(parts: Seq<Seq<char>>)
    requires
        !(parts.len() == 2 && is_kind(parts[0], "STATUS_LINE"@, (11, 'A', 'N'))),
        !(parts.len() == 3 && is_kind(parts[0], "STATUS_LINE_FORMAT"@, (18, 'A', 'A'))),
        !(parts.len() == 3 && is_kind(parts[0], "DISPLAY_MESSAGE"@, (15, 'S', 'G'))),
        !(parts.len() == 2 && is_kind(parts[0], "LIST_KEYS"@, (9, 'S', 'Y'))),
    ensures
        decode_group_21_spec(parts) is None,
{
    reveal(decode_group_21_spec);
}

/// Group 22 leaves a line alone when its kind and field count are none of
/// the group's.
pub proof fn lemma_group_22_none(parts: Seq<Seq<char>>)
    requires
        !(parts.len() == 3 && is_kind(parts[0], "BIND_KEY"@, (8, 'N', 'E'))),
        !(parts.len() == 2 && is_kind(parts[0], "UNBIND_KEY"@, (10, 'B', 'E'))),
        !(parts.len() == 2 && is_kind(parts[0], "SHOW_OPTIONS"@, (12, 'O', 'N'))),
        !(parts.len() == 3 && is_kind(parts[0], "SET_OPTION"@, (10, 'T', 'O'))),
    ensures
        decode_group_22_spec(parts) is None,
{
    reveal(decode_group_22_spec);
}

/// Group 23 leaves a line alone when its kind and field count are none of
/// the group's.
pub proof fn lemma_group_23_none(parts: Seq<Seq<char>>)
    requires
        !(parts.len() == 2 && is_kind(parts[0], "KILL"@, (4, 'L', 'L'))),
        !(parts.len() == 1 && is_kind(parts[0], "KILL_SERVER"@, (11, 'L', 'E'))),
    ensures
        decode_group_23_spec(parts) is None,
{
    reveal(decode_group_23_spec);
}

/// A line's kind and field count are none of group 0's.
pub open spec fn group_0_excluded(parts: Seq<Seq<char>>) -> bool {
    !(parts.len() == 4 && is_kind(parts[0], "NEW"@, (3, 'W', 'E')))
    && !(parts.len() == 5 && is_kind(parts[0], "NEW_CWD"@, (7, 'W', 'W')))
    && !(parts.len() == 2 && is_kind(parts[0], "ATTACH"@, (6, 'T', 'C')))
    && !(parts.len() == 2 && is_kind(parts[0], "ATTACH_RAW_STATE"@, (16, 'T', 'T')))
}

/// A line's kind and field count are none of group 1's.
pub open spec fn group_1_excluded(parts: Seq<Seq<char>>) -> bool {
    !(parts.len() == 1 && is_kind(parts[0], "LIST"@, (4, 'S', 'S')))
    && !(parts.len() == 1 && is_kind(parts[0], "LIST_SESSIONS"@, (13, 'S', 'N')))
    && !(parts.len() == 2 && is_kind(parts[0], "LIST_SESSIONS_FORMAT"@, (20, 'S', 'A')))
    && !(parts.len() == 3 && is_kind(parts[0], "RENAME_SESSION"@, (14, 'N', 'O')))
}

/// A line's kind and field count are none of group 2's.
pub open spec fn group_2_excluded(parts: Seq<Seq<char>>) -> bool {
    !(parts.len() == 3 && is_kind(parts[0], "LIST_CLIENTS"@, (12, 'S', 'T')))
    && !(parts.len() == 3 && is_kind(parts[0], "DETACH_CLIENT"@, (13, 'T', 'N')))
    && !(parts.len() == 2 && is_kind(parts[0], "ATTACH_SNAPSHOT"@, (15, 'T', 'O')))
    && !(parts.len() == 2 && is_kind(parts[0], "ATTACH_LAYOUT_SNAPSHOT"@, (22, 'T', 'O')))
}

/// A line's kind and field count are none of group 3's.
pub open spec fn group_3_excluded(parts: Seq<Seq<char>>) -> bool {
    !(parts.len() == 2 && is_kind(parts[0], "ATTACH_LAYOUT_FRAME"@, (19, 'T', 'M')))
    && !(parts.len() == 2 && is_kind(parts[0], "ATTACH_EVENTS"@, (13, 'T', 'T')))
    && !(parts.len() == 2 && is_kind(parts[0], "ATTACH_RENDER"@, (13, 'T', 'E')))
    && !(parts.len() == 2 && is_kind(parts[0], "CAPTURE"@, (7, 'P', 'R')))
}

/// A line's kind and field count are none of group 4's.
pub open spec fn group_4_excluded(parts: Seq<Seq<char>>) -> bool {
    !(parts.len() == 3 && is_kind(parts[0], "CAPTURE"@, (7, 'P', 'R')))
    && !(parts.len() == 5 && is_kind(parts[0], "CAPTURE_LINES"@, (13, 'P', 'E')))
    && !(parts.len() == 5 && is_kind(parts[0], "CAPTURE_SEARCH"@, (14, 'P', 'C')))
    && !(parts.len() == 3 && is_kind(parts[0], "CAPTURE_TARGET"@, (14, 'P', 'E')))
}

/// A line's kind and field count are none of group 5's.
pub open spec fn group_5_excluded(parts: Seq<Seq<char>>) -> bool {
    !(parts.len() == 5 && is_kind(parts[0], "CAPTURE_TARGET_LINES"@, (20, 'P', 'E')))
    && !(parts.len() == 5 && is_kind(parts[0], "CAPTURE_TARGET_SEARCH"@, (21, 'P', 'C')))
    && !(parts.len() == 4 && is_kind(parts[0], "SAVE_BUFFER"@, (11, 'V', 'E')))
    && !(parts.len() == 6 && is_kind(parts[0], "SAVE_BUFFER_LINES"@, (17, 'V', 'E')))
}

/// A line's kind and field count are none of group 6's.
pub open spec fn group_6_excluded(parts: Seq<Seq<char>>) -> bool {
    !(parts.len() == 5 && is_kind(parts[0], "SAVE_BUFFER_SEARCH"@, (18, 'V', 'C')))
    && !(parts.len() == 6 && is_kind(parts[0], "SAVE_BUFFER_SEARCH"@, (18, 'V', 'C')))
    && !(parts.len() == 4 && is_kind(parts[0], "SAVE_BUFFER_TARGET"@, (18, 'V', 'E')))
    && !(parts.len() == 6 && is_kind(parts[0], "SAVE_BUFFER_TARGET_LINES"@, (24, 'V', 'E')))
}

/// A line's kind and field count are none of group 7's.
pub open spec fn group_7_excluded(parts: Seq<Seq<char>>) -> bool {
    !(parts.len() == 5 && is_kind(parts[0], "SAVE_BUFFER_TARGET_SEARCH"@, (25, 'V', 'C')))
    && !(parts.len() == 6 && is_kind(parts[0], "SAVE_BUFFER_TARGET_SEARCH"@, (25, 'V', 'C')))
    && !(parts.len() == 4 && is_kind(parts[0], "SAVE_BUFFER_TEXT"@, (16, 'V', 'X')))
    && !(parts.len() == 4 && is_kind(parts[0], "COPY_MODE"@, (9, 'P', 'D')))
}

/// A line's kind and field count are none of group 8's.
pub open spec fn group_8_excluded(parts: Seq<Seq<char>>) -> bool {
    !(parts.len() == 5 && is_kind(parts[0], "COPY_MODE"@, (9, 'P', 'D')))
    && !(parts.len() == 1 && is_kind(parts[0], "LIST_BUFFERS"@, (12, 'S', 'R')))
    && !(parts.len() == 2 && is_kind(parts[0], "LIST_BUFFERS_FORMAT"@, (19, 'S', 'A')))
    && !(parts.len() == 3 && is_kind(parts[0], "PASTE_BUFFER"@, (12, 'S', 'E')))
}

/// A line's kind and field count are none of group 9's.
pub open spec fn group_9_excluded(parts: Seq<Seq<char>>) -> bool {
    !(parts.len() == 3 && is_kind(parts[0], "PASTE_BUFFER_TARGET"@, (19, 'S', 'E')))
    && !(parts.len() == 2 && is_kind(parts[0], "DELETE_BUFFER"@, (13, 'L', 'E')))
    && !(parts.len() == 4 && is_kind(parts[0], "RESIZE"@, (6, 'S', 'Z')))
    && !(parts.len() == 4 && is_kind(parts[0], "RESIZE_PANE"@, (11, 'S', 'N')))
}

/// A line's kind and field count are none of group 10's.
pub open spec fn group_10_excluded(parts: Seq<Seq<char>>) -> bool {
    !(parts.len() == 4 && is_kind(parts[0], "RESIZE_PANE_TARGET"@, (18, 'S', 'E')))
    && !(parts.len() == 3 && is_kind(parts[0], "SELECT_LAYOUT"@, (13, 'L', 'U')))
    && !(parts.len() == 3 && is_kind(parts[0], "SELECT_LAYOUT_TARGET"@, (20, 'L', 'E')))
    && !(parts.len() == 3 && is_kind(parts[0], "SEND"@, (4, 'N', 'N')))
}

/// A line's kind and field count are none of group 11's.
pub open spec fn group_11_excluded(parts: Seq<Seq<char>>) -> bool {
    !(parts.len() == 3 && is_kind(parts[0], "SEND_TARGET"@, (11, 'N', 'E')))
    && !(parts.len() == 5 && is_kind(parts[0], "SPLIT"@, (5, 'L', 'I')))
    && !(parts.len() == 5 && is_kind(parts[0], "SPLIT_TARGET"@, (12, 'L', 'E')))
    && !(parts.len() == 6 && is_kind(parts[0], "SPLIT_TARGET_CWD"@, (16, 'L', 'W')))
}

/// A line's kind and field count are none of group 12's.
pub open spec fn group_12_excluded(parts: Seq<Seq<char>>) -> bool {
    !(parts.len() == 2 && is_kind(parts[0], "LIST_PANES"@, (10, 'S', 'E')))
    && !(parts.len() == 3 && is_kind(parts[0], "LIST_PANES_FORMAT"@, (17, 'S', 'A')))
    && !(parts.len() == 3 && is_kind(parts[0], "LIST_PANES_TARGET"@, (17, 'S', 'E')))
    && !(parts.len() == 4 && is_kind(parts[0], "LIST_PANES_TARGET_FORMAT"@, (24, 'S', 'A')))
}

/// A line's kind and field count are none of group 13's.
pub open spec fn group_13_excluded(parts: Seq<Seq<char>>) -> bool {
    !(parts.len() == 3 && is_kind(parts[0], "SELECT_PANE"@, (11, 'L', 'N')))
    && !(parts.len() == 3 && is_kind(parts[0], "SELECT_PANE_ID"@, (14, 'L', 'I')))
    && !(parts.len() == 3 && is_kind(parts[0], "SELECT_PANE_DIRECTION"@, (21, 'L', 'O')))
    && !(parts.len() == 4 && is_kind(parts[0], "SELECT_PANE_TARGET"@, (18, 'L', 'E')))
}

/// A line's kind and field count are none of group 14's.
pub open spec fn group_14_excluded(parts: Seq<Seq<char>>) -> bool {
    !(parts.len() == 4 && is_kind(parts[0], "SELECT_PANE_TARGET_ID"@, (21, 'L', 'I')))
    && !(parts.len() == 4 && is_kind(parts[0], "SELECT_PANE_TARGET_DIRECTION"@, (28, 'L', 'O')))
    && !(parts.len() == 3 && is_kind(parts[0], "KILL_PANE"@, (9, 'L', 'N')))
    && !(parts.len() == 2 && is_kind(parts[0], "KILL_PANE_TARGET"@, (16, 'L', 'E')))
}

/// A line's kind and field count are none of group 15's.
pub open spec fn group_15_excluded(parts: Seq<Seq<char>>) -> bool {
    !(parts.len() == 3 && is_kind(parts[0], "SWAP_PANE"@, (9, 'A', 'N')))
    && !(parts.len() == 4 && is_kind(parts[0], "MOVE_PANE"@, (9, 'V', 'N')))
    && !(parts.len() == 2 && is_kind(parts[0], "BREAK_PANE"@, (10, 'E', 'N')))
    && !(parts.len() == 4 && is_kind(parts[0], "JOIN_PANE"@, (9, 'I', 'N')))
}

/// A line's kind and field count are none of group 16's.
pub open spec fn group_16_excluded(parts: Seq<Seq<char>>) -> bool {
    !(parts.len() == 6 && is_kind(parts[0], "RESPAWN_PANE"@, (12, 'S', 'N')))
    && !(parts.len() == 5 && is_kind(parts[0], "RESPAWN_PANE_TARGET"@, (19, 'S', 'E')))
    && !(parts.len() == 6 && is_kind(parts[0], "RESPAWN_PANE_TARGET_CWD"@, (23, 'S', 'W')))
    && !(parts.len() == 4 && is_kind(parts[0], "NEW_WINDOW"@, (10, 'W', 'O')))
}

/// A line's kind and field count are none of group 17's.
pub open spec fn group_17_excluded(parts: Seq<Seq<char>>) -> bool {
    !(parts.len() == 5 && is_kind(parts[0], "NEW_WINDOW_CWD"@, (14, 'W', 'W')))
    && !(parts.len() == 2 && is_kind(parts[0], "LIST_WINDOWS"@, (12, 'S', 'W')))
    && !(parts.len() == 3 && is_kind(parts[0], "LIST_WINDOWS_FORMAT"@, (19, 'S', 'A')))
    && !(parts.len() == 3 && is_kind(parts[0], "SELECT_WINDOW"@, (13, 'L', 'O')))
}

/// A line's kind and field count are none of group 18's.
pub open spec fn group_18_excluded(parts: Seq<Seq<char>>) -> bool {
    !(parts.len() == 3 && is_kind(parts[0], "SELECT_WINDOW_ID"@, (16, 'L', 'I')))
    && !(parts.len() == 3 && is_kind(parts[0], "SELECT_WINDOW_NAME"@, (18, 'L', 'M')))
    && !(parts.len() == 2 && is_kind(parts[0], "SELECT_WINDOW_ACTIVE"@, (20, 'L', 'V')))
    && !(parts.len() == 4 && is_kind(parts[0], "RENAME_WINDOW"@, (13, 'N', 'O')))
}

/// A line's kind and field count are none of group 19's.
pub open spec fn group_19_excluded(parts: Seq<Seq<char>>) -> bool {
    !(parts.len() == 4 && is_kind(parts[0], "RENAME_WINDOW_ID"@, (16, 'N', 'I')))
    && !(parts.len() == 4 && is_kind(parts[0], "RENAME_WINDOW_NAME"@, (18, 'N', 'M')))
    && !(parts.len() == 2 && is_kind(parts[0], "NEXT_WINDOW"@, (11, 'X', 'O')))
    && !(parts.len() == 2 && is_kind(parts[0], "PREVIOUS_WINDOW"@, (15, 'E', 'O')))
}

/// A line's kind and field count are none of group 20's.
pub open spec fn group_20_excluded(parts: Seq<Seq<char>>) -> bool {
    !(parts.len() == 3 && is_kind(parts[0], "KILL_WINDOW"@, (11, 'L', 'O')))
    && !(parts.len() == 3 && is_kind(parts[0], "KILL_WINDOW_TARGET"@, (18, 'L', 'E')))
    && !(parts.len() == 3 && is_kind(parts[0], "ZOOM_PANE"@, (9, 'O', 'N')))
    && !(parts.len() == 2 && is_kind(parts[0], "ZOOM_PANE_TARGET"@, (16, 'O', 'E')))
}

/// A line's kind and field count are none of group 21's.
pub open spec fn group_21_excluded(parts: Seq<Seq<char>>) -> bool {
    !(parts.len() == 2 && is_kind(parts[0], "STATUS_LINE"@, (11, 'A', 'N')))
    && !(parts.len() == 3 && is_kind(parts[0], "STATUS_LINE_FORMAT"@, (18, 'A', 'A')))
    && !(parts.len() == 3 && is_kind(parts[0], "DISPLAY_MESSAGE"@, (15, 'S', 'G')))
    && !(parts.len() == 2 && is_kind(parts[0], "LIST_KEYS"@, (9, 'S', 'Y')))
}

/// A line's kind and field count are none of group 22's.
pub open spec fn group_22_excluded(parts: Seq<Seq<char>>) -> bool {
    !(parts.len() == 3 && is_kind(parts[0], "BIND_KEY"@, (8, 'N', 'E')))
    && !(parts.len() == 2 && is_kind(parts[0], "UNBIND_KEY"@, (10, 'B', 'E')))
    && !(parts.len() == 2 && is_kind(parts[0], "SHOW_OPTIONS"@, (12, 'O', 'N')))
    && !(parts.len() == 3 && is_kind(parts[0], "SET_OPTION"@, (10, 'T', 'O')))
}

/// A line's kind and field count are none of group 23's.
pub open spec fn group_23_excluded(parts: Seq<Seq<char>>) -> bool {
    !(parts.len() == 2 && is_kind(parts[0], "KILL"@, (4, 'L', 'L')))
    && !(parts.len() == 1 && is_kind(parts[0], "KILL_SERVER"@, (11, 'L', 'E')))
}

/// Each group leaves a line alone whose kind and field count are none of
/// its own.
pub proof fn lemma_groups_none(parts: Seq<Seq<char>>)
    ensures
        group_0_excluded(parts) ==> decode_group_0_spec(parts) is None,
        group_1_excluded(parts) ==> decode_group_1_spec(parts) is None,
        group_2_excluded(parts) ==> decode_group_2_spec(parts) is None,
        group_3_excluded(parts) ==> decode_group_3_spec(parts) is None,
        group_4_excluded(parts) ==> decode_group_4_spec(parts) is None,
        group_5_excluded(parts) ==> decode_group_5_spec(parts) is None,
        group_6_excluded(parts) ==> decode_group_6_spec(parts) is None,
        group_7_excluded(parts) ==> decode_group_7_spec(parts) is None,
        group_8_excluded(parts) ==> decode_group_8_spec(parts) is None,
        group_9_excluded(parts) ==> decode_group_9_spec(parts) is None,
        group_10_excluded(parts) ==> decode_group_10_spec(parts) is None,
        group_11_excluded(parts) ==> decode_group_11_spec(parts) is None,
        group_12_excluded(parts) ==> decode_group_12_spec(parts) is None,
        group_13_excluded(parts) ==> decode_group_13_spec(parts) is None,
        group_14_excluded(parts) ==> decode_group_14_spec(parts) is None,
        group_15_excluded(parts) ==> decode_group_15_spec(parts) is None,
        group_16_excluded(parts) ==> decode_group_16_spec(parts) is None,
        group_17_excluded(parts) ==> decode_group_17_spec(parts) is None,
        group_18_excluded(parts) ==> decode_group_18_spec(parts) is None,
        group_19_excluded(parts) ==> decode_group_19_spec(parts) is None,
        group_20_excluded(parts) ==> decode_group_20_spec(parts) is None,
        group_21_excluded(parts) ==> decode_group_21_spec(parts) is None,
        group_22_excluded(parts) ==> decode_group_22_spec(parts) is None,
        group_23_excluded(parts) ==> decode_group_23_spec(parts) is None,
{
    if group_0_excluded(parts) {
        lemma_group_0_none(parts);
    }
    if group_1_excluded(parts) {
        lemma_group_1_none(parts);
    }
    if group_2_excluded(parts) {
        lemma_group_2_none(parts);
    }
    if group_3_excluded(parts) {
        lemma_group_3_none(parts);
    }
    if group_4_excluded(parts) {
        lemma_group_4_none(parts);
    }
    if group_5_excluded(parts) {
        lemma_group_5_none(parts);
    }
    if group_6_excluded(parts) {
        lemma_group_6_none(parts);
    }
    if group_7_excluded(parts) {
        lemma_group_7_none(parts);
    }
    if group_8_excluded(parts) {
        lemma_group_8_none(parts);
    }
    if group_9_excluded(parts) {
        lemma_group_9_none(parts);
    }
    if group_10_excluded(parts) {
        lemma_group_10_none(parts);
    }
    if group_11_excluded(parts) {
        lemma_group_11_none(parts);
    }
    if group_12_excluded(parts) {
        lemma_group_12_none(parts);
    }
    if group_13_excluded(parts) {
        lemma_group_13_none(parts);
    }
    if group_14_excluded(parts) {
        lemma_group_14_none(parts);
    }
    if group_15_excluded(parts) {
        lemma_group_15_none(parts);
    }
    if group_16_excluded(parts) {
        lemma_group_16_none(parts);
    }
    if group_17_excluded(parts) {
        lemma_group_17_none(parts);
    }
    if group_18_excluded(parts) {
        lemma_group_18_none(parts);
    }
    if group_19_excluded(parts) {
        lemma_group_19_none(parts);
    }
    if group_20_excluded(parts) {
        lemma_group_20_none(parts);
    }
    if group_21_excluded(parts) {
        lemma_group_21_none(parts);
    }
    if group_22_excluded(parts) {
        lemma_group_22_none(parts);
    }
    if group_23_excluded(parts) {
        lemma_group_23_none(parts);
    }
}

} // verus!
