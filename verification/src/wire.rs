//! The text form of requests: one line of tab-separated fields, with free
//! text carried as hexadecimal UTF-8 and targets written as
//! `session|window|pane`.

use vstd::prelude::*;
use vstd::string::*;
use crate::text::{decimal, encode_hex, hex, join, push_char, usize_string};
use crate::protocol::{
    views, CaptureMode, LayoutPreset, PaneDirection, PaneResizeDirection, PaneTarget,
    SplitDirection, Target, TargetView, WindowTarget, WindowTargetView, ARG_SEPARATOR,
};

verus! {

/// A request line: the fields joined by tabs, ended by a newline.
pub open spec fn line_of(fields: Seq<Seq<char>>) -> Seq<char> {
    join(fields, '\t').push('\n')
}

/// Free text as lowercase hexadecimal of its UTF-8 bytes.
pub open spec fn hex_text(s: Seq<char>) -> Seq<char> {
    hex(vstd::utf8::encode_utf8(s))
}

/// Optional free text: hexadecimal when present, empty when absent.
pub open spec fn opt_text(o: Option<Seq<char>>) -> Seq<char> {
    match o {
        Some(s) => hex_text(s),
        None => Seq::<char>::empty(),
    }
}

/// An optional number: decimal when present, empty when absent.
pub open spec fn opt_number(o: Option<usize>) -> Seq<char> {
    match o {
        Some(n) => decimal(n as nat),
        None => Seq::<char>::empty(),
    }
}

/// A command's arguments joined by the argument separator.
pub open spec fn command_text(command: Seq<Seq<char>>) -> Seq<char> {
    join(command, ARG_SEPARATOR)
}

pub open spec fn capture_mode_text(mode: CaptureMode) -> Seq<char> {
    match mode {
        CaptureMode::Screen => "screen"@,
        CaptureMode::History => "history"@,
        CaptureMode::All => "all"@,
    }
}

pub open spec fn split_direction_text(d: SplitDirection) -> Seq<char> {
    match d {
        SplitDirection::Horizontal => "h"@,
        SplitDirection::Vertical => "v"@,
    }
}

pub open spec fn resize_direction_text(d: PaneResizeDirection) -> Seq<char> {
    match d {
        PaneResizeDirection::Left => "L"@,
        PaneResizeDirection::Right => "R"@,
        PaneResizeDirection::Up => "U"@,
        PaneResizeDirection::Down => "D"@,
    }
}

pub open spec fn pane_direction_text(d: PaneDirection) -> Seq<char> {
    match d {
        PaneDirection::Left => "L"@,
        PaneDirection::Right => "R"@,
        PaneDirection::Up => "U"@,
        PaneDirection::Down => "D"@,
    }
}

pub open spec fn layout_preset_text(p: LayoutPreset) -> Seq<char> {
    match p {
        LayoutPreset::EvenHorizontal => "even-horizontal"@,
        LayoutPreset::EvenVertical => "even-vertical"@,
        LayoutPreset::Tiled => "tiled"@,
        LayoutPreset::MainHorizontal => "main-horizontal"@,
        LayoutPreset::MainVertical => "main-vertical"@,
    }
}

pub open spec fn window_target_text(w: WindowTargetView) -> Seq<char> {
    match w {
        WindowTargetView::Active => "active"@,
        WindowTargetView::Index(i) => "index:"@ + decimal(i as nat),
        WindowTargetView::Id(i) => "id:"@ + decimal(i as nat),
        WindowTargetView::Name(n) => "name:"@ + hex_text(n),
    }
}

pub open spec fn pane_target_text(p: PaneTarget) -> Seq<char> {
    match p {
        PaneTarget::Active => "active"@,
        PaneTarget::Index(i) => "index:"@ + decimal(i as nat),
        PaneTarget::Id(i) => "id:"@ + decimal(i as nat),
    }
}

/// A target as `hex(session)|window|pane`.
pub open spec fn target_text(t: TargetView) -> Seq<char> {
    hex_text(t.session) + "|"@ + window_target_text(t.window) + "|"@ + pane_target_text(t.pane)
}

/// Joins fields with tabs and ends the line.
pub fn wire_line(fields: Vec<String>) -> (r: String)
    requires
        fields@.len() >= 1,
    ensures
        r@ == line_of(views(fields@)),
{
    let ghost v = views(fields@);
    let mut out = fields[0].clone();
    assert(v.take(1) =~= seq![v[0]]);
    let mut i: usize = 1;
    while i < fields.len()
        invariant
            1 <= i <= fields.len(),
            v == views(fields@),
            out@ == join(v.take(i as int), '\t'),
        decreases fields.len() - i,
    {
        assert(v.take(i + 1).drop_last() == v.take(i as int));
        assert(v.take(i + 1).last() == fields@[i as int]@);
        push_char(&mut out, '\t');
        out.append(fields[i].as_str());
        i += 1;
    }
    assert(v.take(fields.len() as int) == v);
    push_char(&mut out, '\n');
    out
}

/// Free text as hexadecimal of its UTF-8 bytes.
pub fn hex_text_of(s: &str) -> (r: String)
    ensures
        r@ == hex_text(s@),
{
    encode_hex(s.as_bytes())
}

pub fn opt_text_of(o: Option<&str>) -> (r: String)
    ensures
        r@ == opt_text(match o {
            Some(s) => Some(s@),
            None => None,
        }),
{
    match o {
        Some(s) => hex_text_of(s),
        None => String::new(),
    }
}

pub fn command_text_of(command: &[String]) -> (r: String)
    ensures
        r@ == command_text(views(command@)),
{
    let ghost v = views(command@);
    if command.len() == 0 {
        return String::new();
    }
    let mut out = command[0].clone();
    assert(v.take(1) =~= seq![v[0]]);
    let mut i: usize = 1;
    while i < command.len()
        invariant
            1 <= i <= command.len(),
            v == views(command@),
            out@ == join(v.take(i as int), ARG_SEPARATOR),
        decreases command.len() - i,
    {
        assert(v.take(i + 1).drop_last() == v.take(i as int));
        assert(v.take(i + 1).last() == command@[i as int]@);
        push_char(&mut out, ARG_SEPARATOR);
        out.append(command[i].as_str());
        i += 1;
    }
    assert(v.take(command.len() as int) == v);
    out
}

pub fn capture_mode_str(mode: CaptureMode) -> (r: &'static str)
    ensures
        r@ == capture_mode_text(mode),
{
    match mode {
        CaptureMode::Screen => "screen",
        CaptureMode::History => "history",
        CaptureMode::All => "all",
    }
}

pub fn split_direction_str(d: SplitDirection) -> (r: &'static str)
    ensures
        r@ == split_direction_text(d),
{
    match d {
        SplitDirection::Horizontal => "h",
        SplitDirection::Vertical => "v",
    }
}

pub fn resize_direction_str(d: PaneResizeDirection) -> (r: &'static str)
    ensures
        r@ == resize_direction_text(d),
{
    match d {
        PaneResizeDirection::Left => "L",
        PaneResizeDirection::Right => "R",
        PaneResizeDirection::Up => "U",
        PaneResizeDirection::Down => "D",
    }
}

pub fn pane_direction_str(d: PaneDirection) -> (r: &'static str)
    ensures
        r@ == pane_direction_text(d),
{
    match d {
        PaneDirection::Left => "L",
        PaneDirection::Right => "R",
        PaneDirection::Up => "U",
        PaneDirection::Down => "D",
    }
}

pub fn layout_preset_str(p: LayoutPreset) -> (r: &'static str)
    ensures
        r@ == layout_preset_text(p),
{
    match p {
        LayoutPreset::EvenHorizontal => "even-horizontal",
        LayoutPreset::EvenVertical => "even-vertical",
        LayoutPreset::Tiled => "tiled",
        LayoutPreset::MainHorizontal => "main-horizontal",
        LayoutPreset::MainVertical => "main-vertical",
    }
}

/// `prefix` followed by `rest`.
pub fn concat_str(prefix: &str, rest: &str) -> (r: String)
    ensures
        r@ == prefix@ + rest@,
{
    let mut out = String::from_str(prefix);
    out.append(rest);
    out
}

pub fn window_target_string(w: &WindowTarget) -> (r: String)
    ensures
        r@ == window_target_text(w@),
{
    match w {
        WindowTarget::Active => String::from_str("active"),
        WindowTarget::Index(i) => concat_str("index:", usize_string(*i).as_str()),
        WindowTarget::Id(i) => concat_str("id:", usize_string(*i).as_str()),
        WindowTarget::Name(n) => concat_str("name:", hex_text_of(n.as_str()).as_str()),
    }
}

pub fn pane_target_string(p: PaneTarget) -> (r: String)
    ensures
        r@ == pane_target_text(p),
{
    match p {
        PaneTarget::Active => String::from_str("active"),
        PaneTarget::Index(i) => concat_str("index:", usize_string(i).as_str()),
        PaneTarget::Id(i) => concat_str("id:", usize_string(i).as_str()),
    }
}

/// Encodes a target as `hex(session)|window|pane`.
pub fn encode_target(target: &Target) -> (r: String)
    ensures
        r@ == target_text(target@),
{
    let mut out = hex_text_of(target.session.as_str());
    out.append("|");
    out.append(window_target_string(&target.window).as_str());
    out.append("|");
    out.append(pane_target_string(target.pane).as_str());
    out
}

} // verus!
