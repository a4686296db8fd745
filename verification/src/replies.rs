//! What an attached client reads out of server replies (the raw layout
//! epoch, a render frame's header, the prefix key and the key bindings) and
//! the requests its pane keys send.

use vstd::prelude::*;
use vstd::string::*;
use crate::config::{binding_pairs, default_bindings_spec, default_key_bindings, DEFAULT_PREFIX_KEY, OPTION_PREFIX};
use crate::encode::{
    encode_kill_pane, encode_new_window, encode_next_window, encode_previous_window,
    encode_resize_pane, encode_select_pane_target, encode_split, encode_zoom_pane,
    pane_in_session,
};
use crate::keys::{prefix_byte_spec, usable_bindings, LiveControls, PaneCommand};
use crate::popup::{string_from_utf8_lossy, utf8_lossy};
use crate::protocol::{active_target, views, KeyBinding, PaneDirection, PaneSelectTarget, SplitDirection};
use crate::text::{
    chars_of, chars_eq_str, decimal, find_char, find_char_index, is_prefix, lines_of,
    parse_unsigned, parse_unsigned_chars, starts_with_str, string_from_chars, string_from_utf8,
    sub_chars, text_lines,
};
use crate::wire::{command_text, line_of, pane_direction_text, resize_direction_text, split_direction_text, target_text};

verus! {

/// The layout epoch a raw-state reply names on its first line.
pub open spec fn raw_state_spec(body: Seq<u8>) -> Result<u64, Seq<char>> {
    let lines = text_lines(utf8_lossy(body));
    if lines.len() == 0 {
        Err("missing raw attach state"@)
    } else if !is_prefix("RAW_LAYOUT_EPOCH\t"@, lines[0]) {
        Err("invalid raw attach state"@)
    } else {
        match parse_unsigned(lines[0].skip(17), u64::MAX as nat) {
            Some(n) => Ok(n as u64),
            None => Err("invalid raw attach layout epoch"@),
        }
    }
}

/// Reads the layout epoch out of a raw-state reply.
pub fn parse_raw_attach_state(body: &[u8]) -> (r: Result<u64, String>)
    ensures
        match raw_state_spec(body@) {
            Ok(n) => r == Ok::<u64, String>(n),
            Err(e) => r matches Err(m) && m@ == e,
        },
{
    let text = string_from_utf8_lossy(body);
    let chars = chars_of(text.as_str());
    let lines = lines_of(&chars);
    if lines.len() == 0 {
        return Err(String::from_str("missing raw attach state"));
    }
    let first = &lines[0];
    proof {
        reveal_strlit("RAW_LAYOUT_EPOCH\t");
    }
    if !starts_with_str(first.as_slice(), "RAW_LAYOUT_EPOCH\t") {
        return Err(String::from_str("invalid raw attach state"));
    }
    let rest = sub_chars(first.as_slice(), 17, first.len());
    assert(rest@ =~= first@.skip(17));
    match parse_unsigned_chars(rest.as_slice(), u64::MAX) {
        Some(n) => Ok(n),
        None => Err(String::from_str("invalid raw attach layout epoch")),
    }
}

/// The body length a render frame's header line gives.
pub open spec fn frame_header_spec(line: Seq<char>) -> Result<usize, Seq<char>> {
    let rest = line.skip(6);
    if !is_prefix("FRAME\t"@, line) || rest.len() == 0 || rest.last() != '\n' {
        Err("invalid attach render frame header"@)
    } else {
        match parse_unsigned(rest.drop_last(), usize::MAX as nat) {
            Some(n) => Ok(n as usize),
            None => Err("invalid attach render frame length"@),
        }
    }
}

/// Reads the body length out of a render frame's header line.
pub fn parse_render_frame_header(line: &str) -> (r: Result<usize, String>)
    ensures
        match frame_header_spec(line@) {
            Ok(n) => r == Ok::<usize, String>(n),
            Err(e) => r matches Err(m) && m@ == e,
        },
{
    let v = chars_of(line);
    proof {
        reveal_strlit("FRAME\t");
    }
    if !starts_with_str(v.as_slice(), "FRAME\t") || v.len() == 6 || v[v.len() - 1] != '\n' {
        return Err(String::from_str("invalid attach render frame header"));
    }
    let digits = sub_chars(v.as_slice(), 6, v.len() - 1);
    assert(digits@ =~= v@.skip(6).drop_last());
    match parse_unsigned_chars(digits.as_slice(), usize::MAX as u64) {
        Some(n) => Ok(n as usize),
        None => Err(String::from_str("invalid attach render frame length")),
    }
}

/// A line cut at its first tab, as std's `split_once('\t')` cuts it.
pub open spec fn tab_split(l: Seq<char>) -> Option<(Seq<char>, Seq<char>)> {
    match find_char(l, '\t') {
        Some(i) => Some((l.take(i), l.skip(i + 1))),
        None => None,
    }
}

/// The value of the first `prefix<TAB>value` line.
pub open spec fn prefix_option(lines: Seq<Seq<char>>) -> Option<Seq<char>>
    decreases lines.len(),
{
    if lines.len() == 0 {
        None
    } else {
        match prefix_option(lines.drop_last()) {
            Some(v) => Some(v),
            None => match tab_split(lines.last()) {
                Some((name, value)) => if name == OPTION_PREFIX@ {
                    Some(value)
                } else {
                    None
                },
                None => None,
            },
        }
    }
}

/// The `key<TAB>command` pairs of the lines that hold a tab, in order.
pub open spec fn reply_bindings(lines: Seq<Seq<char>>) -> Seq<(Seq<char>, Seq<char>)>
    decreases lines.len(),
{
    if lines.len() == 0 {
        seq![]
    } else {
        let init = reply_bindings(lines.drop_last());
        match tab_split(lines.last()) {
            Some(pair) => init.push(pair),
            None => init,
        }
    }
}

/// A body's text when it is valid UTF-8.
pub open spec fn strict_text(body: Option<Seq<u8>>) -> Option<Seq<char>> {
    match body {
        Some(b) => if vstd::utf8::valid_utf8(b) {
            Some(vstd::utf8::decode_utf8(b))
        } else {
            None
        },
        None => None,
    }
}

/// The prefix key an options reply sets, else the default.
pub open spec fn prefix_from_reply(options: Option<Seq<u8>>) -> Seq<char> {
    match strict_text(options) {
        Some(t) => match prefix_option(text_lines(t)) {
            Some(v) => v,
            None => DEFAULT_PREFIX_KEY@,
        },
        None => DEFAULT_PREFIX_KEY@,
    }
}

/// The bindings a keys reply lists, else the defaults.
pub open spec fn bindings_from_reply(keys: Option<Seq<u8>>) -> Seq<(Seq<char>, Seq<char>)> {
    match strict_text(keys) {
        Some(t) => reply_bindings(text_lines(t)),
        None => default_bindings_spec(),
    }
}

/// The bytes of an optional reply body.
pub open spec fn opt_body(b: Option<Vec<u8>>) -> Option<Seq<u8>> {
    match b {
        Some(v) => Some(v@),
        None => None,
    }
}

/// A line cut at its first tab.
fn split_tab(l: &Vec<char>) -> (r: Option<(String, String)>)
    ensures
        match tab_split(l@) {
            Some((a, b)) => r matches Some((x, y)) && x@ == a && y@ == b,
            None => r is None,
        },
{
    match find_char_index(l.as_slice(), '\t') {
        Some(i) => {
            proof {
                crate::text::lemma_find_char_is(l@, '\t', i as int);
            }
            let a = sub_chars(l.as_slice(), 0, i);
            let b = sub_chars(l.as_slice(), i + 1, l.len());
            assert(a@ =~= l@.take(i as int));
            assert(b@ =~= l@.skip(i + 1));
            Some((string_from_chars(a.as_slice()), string_from_chars(b.as_slice())))
        },
        None => {
            assert(find_char(l@, '\t') is None);
            None
        },
    }
}

/// The lines of a reply body that is valid UTF-8.
fn strict_lines(body: Option<Vec<u8>>) -> (r: Option<Vec<Vec<char>>>)
    ensures
        match strict_text(opt_body(body)) {
            Some(t) => r matches Some(ls) && ls@.len() == text_lines(t).len() && forall|k: int|
                0 <= k < ls@.len() ==> (#[trigger] ls@[k])@ == text_lines(t)[k],
            None => r is None,
        },
{
    match body {
        Some(b) => match string_from_utf8(b) {
            Some(text) => {
                let chars = chars_of(text.as_str());
                Some(lines_of(&chars))
            },
            None => None,
        },
        None => None,
    }
}

/// The characters of each line.
pub open spec fn line_views(ls: Seq<Vec<char>>) -> Seq<Seq<char>> {
    ls.map_values(|l: Vec<char>| l@)
}

/// The value of the first `prefix<TAB>value` line.
fn first_prefix(lines: &Vec<Vec<char>>) -> (r: Option<String>)
    ensures
        match prefix_option(line_views(lines@)) {
            Some(v) => r matches Some(s) && s@ == v,
            None => r is None,
        },
{
    let ghost tl = line_views(lines@);
    let mut i: usize = 0;
    while i < lines.len()
        invariant
            i <= lines@.len(),
            tl == line_views(lines@),
            prefix_option(tl.take(i as int)) is None,
        decreases lines.len() - i,
    {
        proof {
            lemma_prefix_step(tl, i as int);
        }
        assert(tl[i as int] == lines@[i as int]@);
        match split_tab(&lines[i]) {
            Some((name, value)) => {
                if crate::text::str_eq(name.as_str(), OPTION_PREFIX) {
                    proof {
                        lemma_prefix_option_extends(tl, i as int);
                    }
                    return Some(value);
                }
            },
            None => {},
        }
        i += 1;
    }
    assert(tl.take(tl.len() as int) =~= tl);
    None
}

/// The prefix key an options reply sets, else the default.
fn prefix_key(options: Option<Vec<u8>>) -> (r: String)
    ensures
        r@ == prefix_from_reply(opt_body(options)),
{
    let ghost t = strict_text(opt_body(options));
    match strict_lines(options) {
        Some(lines) => {
            assert(line_views(lines@) =~= text_lines(t.unwrap()));
            match first_prefix(&lines) {
                Some(v) => v,
                None => String::from_str(DEFAULT_PREFIX_KEY),
            }
        },
        None => String::from_str(DEFAULT_PREFIX_KEY),
    }
}

/// A first match found at `i` is the first match of all the lines.
proof fn lemma_prefix_option_extends(tl: Seq<Seq<char>>, i: int)
    requires
        0 <= i < tl.len(),
        prefix_option(tl.take(i)) is None,
        prefix_option(tl.take(i + 1)) is Some,
    ensures
        prefix_option(tl) == prefix_option(tl.take(i + 1)),
    decreases tl.len() - i,
{
    if i + 1 < tl.len() {
        assert(tl.drop_last().take(i + 1) =~= tl.take(i + 1));
        assert(tl.drop_last().take(i) =~= tl.take(i));
        lemma_prefix_option_extends(tl.drop_last(), i);
    } else {
        assert(tl.take(i + 1) =~= tl);
    }
}

/// One more line decides the first match when none came before it.
proof fn lemma_prefix_step(tl: Seq<Seq<char>>, i: int)
    requires
        0 <= i < tl.len(),
        prefix_option(tl.take(i)) is None,
    ensures
        prefix_option(tl.take(i + 1)) == (match tab_split(tl[i]) {
            Some((name, value)) => if name == OPTION_PREFIX@ {
                Some(value)
            } else {
                None::<Seq<char>>
            },
            None => None,
        }),
{
    assert(tl.take(i + 1).drop_last() =~= tl.take(i));
    assert(tl.take(i + 1).last() == tl[i]);
}

/// The bindings a keys reply lists, else the defaults.
fn key_bindings(keys: Option<Vec<u8>>) -> (r: Vec<KeyBinding>)
    ensures
        binding_pairs(r@) == bindings_from_reply(opt_body(keys)),
{
    let ghost t = strict_text(opt_body(keys));
    match strict_lines(keys) {
        Some(lines) => {
            let ghost tl = text_lines(t.unwrap());
            let mut out: Vec<KeyBinding> = Vec::new();
            let mut i: usize = 0;
            while i < lines.len()
                invariant
                    i <= lines@.len(),
                    lines@.len() == tl.len(),
                    forall|k: int| 0 <= k < lines@.len() ==> (#[trigger] lines@[k])@ == tl[k],
                    binding_pairs(out@) == reply_bindings(tl.take(i as int)),
                decreases lines.len() - i,
            {
                assert(tl.take(i + 1).drop_last() =~= tl.take(i as int));
                assert(tl.take(i + 1).last() == tl[i as int]);
                match split_tab(&lines[i]) {
                    Some((key, command)) => {
                        let ghost before = out@;
                        out.push(KeyBinding { key, command });
                        assert(binding_pairs(out@) =~= binding_pairs(before).push((out@.last().key@, out@.last().command@)));
                    },
                    None => {},
                }
                i += 1;
            }
            assert(tl.take(tl.len() as int) =~= tl);
            out
        },
        None => default_key_bindings(),
    }
}

/// The controls of a client from its options and keys replies (either
/// missing when its request failed): the prefix key the options set, else
/// the default; the bindings listed, else the defaults.
pub fn controls_from_replies(options: Option<Vec<u8>>, keys: Option<Vec<u8>>) -> (r: LiveControls)
    ensures
        r.prefix == prefix_byte_spec(prefix_from_reply(opt_body(options))),
        r.bindings@ == usable_bindings(bindings_from_reply(opt_body(keys))),
{
    let prefix = prefix_key(options);
    let bindings = key_bindings(keys);
    LiveControls::from_entries(prefix.as_str(), bindings)
}

/// The request a pane key sends for the session's active pane.
pub open spec fn pane_command_line(session: Seq<char>, c: PaneCommand) -> Seq<char> {
    match c {
        PaneCommand::NewWindow => line_of(seq!["NEW_WINDOW"@, session, decimal(0), command_text(seq![])]),
        PaneCommand::NextWindow => line_of(seq!["NEXT_WINDOW"@, session]),
        PaneCommand::PreviousWindow => line_of(seq!["PREVIOUS_WINDOW"@, session]),
        PaneCommand::SplitRight => line_of(
            seq!["SPLIT"@, session, split_direction_text(SplitDirection::Horizontal), decimal(0), command_text(seq![])],
        ),
        PaneCommand::SplitDown => line_of(
            seq!["SPLIT"@, session, split_direction_text(SplitDirection::Vertical), decimal(0), command_text(seq![])],
        ),
        PaneCommand::FocusLeft => line_of(seq!["SELECT_PANE_DIRECTION"@, session, pane_direction_text(PaneDirection::Left)]),
        PaneCommand::FocusDown => line_of(seq!["SELECT_PANE_DIRECTION"@, session, pane_direction_text(PaneDirection::Down)]),
        PaneCommand::FocusUp => line_of(seq!["SELECT_PANE_DIRECTION"@, session, pane_direction_text(PaneDirection::Up)]),
        PaneCommand::FocusRight => line_of(
            seq!["SELECT_PANE_DIRECTION"@, session, pane_direction_text(PaneDirection::Right)],
        ),
        PaneCommand::Resize { direction, amount } => line_of(
            seq![
                "RESIZE_PANE_TARGET"@,
                target_text(active_target(session)),
                resize_direction_text(direction),
                decimal(amount as nat),
            ],
        ),
        PaneCommand::Close => line_of(seq!["KILL_PANE_TARGET"@, target_text(pane_in_session(session, None))]),
        PaneCommand::ToggleZoom => line_of(seq!["ZOOM_PANE_TARGET"@, target_text(pane_in_session(session, None))]),
    }
}

/// The request a pane key sends for the session's active pane.
pub fn pane_command_request(session: &str, command: PaneCommand) -> (r: String)
    ensures
        r@ == pane_command_line(session@, command),
{
    let none: Vec<String> = Vec::new();
    assert(views(none@) =~= Seq::<Seq<char>>::empty());
    match command {
        PaneCommand::NewWindow => encode_new_window(session, none.as_slice()),
        PaneCommand::NextWindow => encode_next_window(session),
        PaneCommand::PreviousWindow => encode_previous_window(session),
        PaneCommand::SplitRight => encode_split(session, SplitDirection::Horizontal, none.as_slice()),
        PaneCommand::SplitDown => encode_split(session, SplitDirection::Vertical, none.as_slice()),
        PaneCommand::FocusLeft => encode_select_pane_target(session, PaneSelectTarget::Direction(PaneDirection::Left)),
        PaneCommand::FocusDown => encode_select_pane_target(session, PaneSelectTarget::Direction(PaneDirection::Down)),
        PaneCommand::FocusUp => encode_select_pane_target(session, PaneSelectTarget::Direction(PaneDirection::Up)),
        PaneCommand::FocusRight => encode_select_pane_target(
            session,
            PaneSelectTarget::Direction(PaneDirection::Right),
        ),
        PaneCommand::Resize { direction, amount } => encode_resize_pane(session, direction, amount),
        PaneCommand::Close => encode_kill_pane(session, None),
        PaneCommand::ToggleZoom => encode_zoom_pane(session, None),
    }
}

} // verus!
