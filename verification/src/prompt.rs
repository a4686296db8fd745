//! The command prompt of an attached client: what a typed command asks of
//! the server. A command becomes one request line to send, a script file to
//! read, or a list of commands to run in turn; the sending and reading are
//! left to the caller.

use vstd::prelude::*;
use vstd::string::*;
use crate::cli::{command_sequence_spec, parse_command_sequence};
use crate::protocol::{
    active_target, views, LayoutPreset, PaneTarget, SplitDirection, Target, TargetView,
    WindowTarget, WindowTargetView,
};
use crate::text::{
    chars_eq_str, chars_of, debug_quote, debug_quoted, find_char, find_char_index, parse_unsigned,
    parse_usize_chars, string_from_chars, sub_chars,
};
use crate::config::{
    binding_command_spec, canonical_key, canonical_key_spec, option_value_spec,
    validate_binding_command, validate_option_value,
};
use crate::decode::{layout_preset_named, parse_layout_preset_name};
use crate::encode::select_window_line;
use crate::wire::{
    command_text, concat_str, hex_text, layout_preset_text, line_of, opt_text, split_direction_text,
    target_text, window_target_text,
};

verus! {

/// A `usize` as std's `FromStr` reads it.
pub open spec fn usize_of(s: Seq<char>) -> Option<nat> {
    parse_unsigned(s, usize::MAX as nat)
}

/// A pane written `<index>` or `%<id>`.
pub open spec fn pane_token_spec(value: Seq<char>, command: Seq<char>) -> Result<PaneTarget, Seq<char>> {
    if value.len() > 0 && value[0] == '%' {
        match usize_of(value.drop_first()) {
            Some(n) => Ok(PaneTarget::Id(n as usize)),
            None => Err(command + " has invalid pane id"@),
        }
    } else {
        match usize_of(value) {
            Some(n) => Ok(PaneTarget::Index(n as usize)),
            None => Err(command + " has invalid pane index"@),
        }
    }
}

/// Reads a pane written `<index>` or `%<id>`.
pub fn parse_attach_pane_token(value: &str, command: &str) -> (r: Result<PaneTarget, String>)
    ensures
        match pane_token_spec(value@, command@) {
            Ok(p) => r == Ok::<PaneTarget, String>(p),
            Err(e) => r matches Err(m) && m@ == e,
        },
{
    let v = chars_of(value);
    if v.len() > 0 && v[0] == '%' {
        let id = sub_chars(v.as_slice(), 1, v.len());
        assert(id@ == value@.drop_first());
        return match parse_usize_chars(id.as_slice()) {
            Some(n) => Ok(PaneTarget::Id(n)),
            None => Err(concat_str(command, " has invalid pane id")),
        };
    }
    match parse_usize_chars(v.as_slice()) {
        Some(n) => Ok(PaneTarget::Index(n)),
        None => Err(concat_str(command, " has invalid pane index")),
    }
}

/// A window written empty (the active one), `@<id>`, `=<name>`, an index,
/// or a name.
pub open spec fn window_token_spec(value: Seq<char>) -> Result<WindowTargetView, Seq<char>> {
    if value.len() == 0 {
        Ok(WindowTargetView::Active)
    } else if value[0] == '@' {
        match usize_of(value.drop_first()) {
            Some(n) => Ok(WindowTargetView::Id(n as usize)),
            None => Err("invalid window id"@),
        }
    } else if value[0] == '=' {
        Ok(WindowTargetView::Name(value.drop_first()))
    } else {
        match usize_of(value) {
            Some(n) => Ok(WindowTargetView::Index(n as usize)),
            None => Ok(WindowTargetView::Name(value)),
        }
    }
}

/// The view of a window result.
pub open spec fn window_res(r: Result<WindowTarget, String>) -> Result<WindowTargetView, Seq<char>> {
    match r {
        Ok(w) => Ok(w@),
        Err(e) => Err(e@),
    }
}

/// Reads a window written empty, `@<id>`, `=<name>`, an index or a name.
pub fn parse_attach_window_token(value: &str) -> (r: Result<WindowTarget, String>)
    ensures
        window_res(r) == window_token_spec(value@),
{
    let v = chars_of(value);
    if v.len() == 0 {
        return Ok(WindowTarget::Active);
    }
    let rest = sub_chars(v.as_slice(), 1, v.len());
    assert(rest@ == value@.drop_first());
    if v[0] == '@' {
        return match parse_usize_chars(rest.as_slice()) {
            Some(n) => Ok(WindowTarget::Id(n)),
            None => Err(String::from_str("invalid window id")),
        };
    }
    if v[0] == '=' {
        return Ok(WindowTarget::Name(string_from_chars(rest.as_slice())));
    }
    match parse_usize_chars(v.as_slice()) {
        Some(n) => Ok(WindowTarget::Index(n)),
        None => Ok(WindowTarget::Name(String::from_str(value))),
    }
}

/// The window an argument list names first.
pub open spec fn window_target_spec(args: Seq<Seq<char>>) -> Result<WindowTargetView, Seq<char>> {
    if args.len() == 0 {
        Err("select-window requires a target"@)
    } else {
        window_token_spec(args[0])
    }
}

/// Reads the window an argument list names first.
pub fn parse_attach_window_target(args: &[String]) -> (r: Result<WindowTarget, String>)
    ensures
        window_res(r) == window_target_spec(views(args@)),
{
    if args.len() == 0 {
        return Err(String::from_str("select-window requires a target"));
    }
    parse_attach_window_token(args[0].as_str())
}

/// The view of a target result.
pub open spec fn target_res(r: Result<Target, String>) -> Result<TargetView, Seq<char>> {
    match r {
        Ok(t) => Ok(t@),
        Err(e) => Err(e@),
    }
}

/// A pane of the session's active window.
pub open spec fn pane_target_spec(session: Seq<char>, value: Seq<char>, command: Seq<char>) -> Result<
    TargetView,
    Seq<char>,
> {
    match pane_token_spec(value, command) {
        Ok(pane) => Ok(TargetView { session, window: WindowTargetView::Active, pane }),
        Err(e) => Err(e),
    }
}

/// Reads a pane of the session's active window.
pub fn parse_attach_pane_target(session: &str, value: &str, command: &str) -> (r: Result<
    Target,
    String,
>)
    ensures
        target_res(r) == pane_target_spec(session@, value@, command@),
{
    let pane = parse_attach_pane_token(value, command)?;
    Ok(Target { session: String::from_str(session), window: WindowTarget::Active, pane })
}

/// A pane written `<window>[.<pane>]`; the active pane when none is given.
pub open spec fn window_pane_spec(session: Seq<char>, value: Seq<char>, command: Seq<char>) -> Result<
    TargetView,
    Seq<char>,
> {
    let (window, pane) = match find_char(value, '.') {
        Some(i) => (value.take(i), Some(value.skip(i + 1))),
        None => (value, None),
    };
    match window_token_spec(window) {
        Err(e) => Err(e),
        Ok(w) => match pane {
            None => Ok(TargetView { session, window: w, pane: PaneTarget::Active }),
            Some(p) => match pane_token_spec(p, command) {
                Err(e) => Err(e),
                Ok(pane) => Ok(TargetView { session, window: w, pane }),
            },
        },
    }
}

/// Reads a pane written `<window>[.<pane>]`.
pub fn parse_attach_window_pane_target(session: &str, value: &str, command: &str) -> (r: Result<
    Target,
    String,
>)
    ensures
        target_res(r) == window_pane_spec(session@, value@, command@),
{
    let v = chars_of(value);
    let (window_chars, pane_chars) = match find_char_index(v.as_slice(), '.') {
        Some(i) => {
            let w = sub_chars(v.as_slice(), 0, i);
            let p = sub_chars(v.as_slice(), i + 1, v.len());
            assert(w@ == value@.take(i as int));
            assert(p@ == value@.skip(i + 1));
            (w, Some(p))
        },
        None => (v, None),
    };
    let window_text = string_from_chars(window_chars.as_slice());
    let window = parse_attach_window_token(window_text.as_str())?;
    let pane = match pane_chars {
        None => PaneTarget::Active,
        Some(p) => {
            let pane_text = string_from_chars(p.as_slice());
            parse_attach_pane_token(pane_text.as_str(), command)?
        },
    };
    Ok(Target { session: String::from_str(session), window, pane })
}

/// The format of `-F <format>` or `--format <format>` arguments: the last
/// given; anything else is refused.
pub open spec fn format_args_spec(args: Seq<Seq<char>>, i: int, command: Seq<char>, format: Option<Seq<char>>) -> Result<
    Option<Seq<char>>,
    Seq<char>,
>
    decreases args.len() - i,
{
    if i < 0 || i >= args.len() {
        Ok(format)
    } else if args[i] == "-F"@ || args[i] == "--format"@ {
        if i + 1 >= args.len() {
            Err(command + " requires a format after "@ + args[i])
        } else {
            format_args_spec(args, i + 2, command, Some(args[i + 1]))
        }
    } else {
        Err(command + " does not support argument "@ + debug_quoted(args[i]))
    }
}

/// The view of an optional-text result.
pub open spec fn opt_res(r: Result<Option<String>, String>) -> Result<Option<Seq<char>>, Seq<char>> {
    match r {
        Ok(Some(s)) => Ok(Some(s@)),
        Ok(None) => Ok(None),
        Err(e) => Err(e@),
    }
}

/// Reads `-F <format>` or `--format <format>` arguments.
pub fn parse_attach_optional_format(args: &[String], command_name: &str) -> (r: Result<
    Option<String>,
    String,
>)
    ensures
        opt_res(r) == format_args_spec(views(args@), 0, command_name@, None),
{
    let ghost av = views(args@);
    let mut format: Option<String> = None;
    let mut i: usize = 0;
    while i < args.len()
        invariant
            i <= args@.len(),
            av == views(args@),
            format_args_spec(av, i as int, command_name@, match format {
                Some(f) => Some(f@),
                None => None,
            }) == format_args_spec(av, 0, command_name@, None),
        decreases args.len() - i,
    {
        assert(av[i as int] == args@[i as int]@);
        let a = args[i].as_str();
        if crate::text::str_eq(a, "-F") || crate::text::str_eq(a, "--format") {
            if i + 1 >= args.len() {
                let mut m = concat_str(command_name, " requires a format after ");
                m.append(a);
                return Err(m);
            }
            assert(av[i + 1] == args@[i + 1]@);
            format = Some(args[i + 1].clone());
            i += 2;
        } else {
            let mut m = concat_str(command_name, " does not support argument ");
            let q = debug_quote(a);
            m.append(q.as_str());
            return Err(m);
        }
    }
    match format {
        Some(f) => Ok(Some(f)),
        None => Ok(None),
    }
}

/// The pane `break-pane` moves out: the active one, or the one named.
pub open spec fn break_target_spec(session: Seq<char>, args: Seq<Seq<char>>) -> Result<TargetView, Seq<char>> {
    if args.len() == 0 {
        Ok(active_target(session))
    } else if args.len() == 1 {
        pane_target_spec(session, args[0], "break-pane"@)
    } else {
        Err("break-pane accepts at most one pane target; try :break-pane or :break-pane 1"@)
    }
}

/// Reads the pane `break-pane` moves out.
pub fn parse_attach_break_pane_target(session: &str, args: &[String]) -> (r: Result<Target, String>)
    ensures
        target_res(r) == break_target_spec(session@, views(args@)),
{
    if args.len() == 0 {
        return Ok(Target::active(String::from_str(session)));
    }
    if args.len() == 1 {
        return parse_attach_pane_target(session, args[0].as_str(), "break-pane");
    }
    Err(String::from_str("break-pane accepts at most one pane target; try :break-pane or :break-pane 1"))
}

/// The source and destination that `-s` and `-t` arguments of `swap-pane`
/// name from an index on.
pub open spec fn swap_args_spec(
    session: Seq<char>,
    args: Seq<Seq<char>>,
    i: int,
    source: Option<TargetView>,
    destination: Option<TargetView>,
) -> Result<(Option<TargetView>, Option<TargetView>), Seq<char>>
    decreases args.len() - i,
{
    if i < 0 || i >= args.len() {
        Ok((source, destination))
    } else if args[i] == "-s"@ {
        if i + 1 >= args.len() {
            Err("swap-pane requires a source after -s"@)
        } else {
            match pane_target_spec(session, args[i + 1], "swap-pane"@) {
                Err(e) => Err(e),
                Ok(t) => swap_args_spec(session, args, i + 2, Some(t), destination),
            }
        }
    } else if args[i] == "-t"@ {
        if i + 1 >= args.len() {
            Err("swap-pane requires a destination after -t"@)
        } else {
            match pane_target_spec(session, args[i + 1], "swap-pane"@) {
                Err(e) => Err(e),
                Ok(t) => swap_args_spec(session, args, i + 2, source, Some(t)),
            }
        }
    } else {
        Err("swap-pane does not support argument "@ + debug_quoted(args[i]) + "; try :swap-pane 1"@)
    }
}

/// The two panes `swap-pane` swaps: the active one and the one named by a
/// single argument, or the ones `-s` and `-t` name.
pub open spec fn swap_targets_spec(session: Seq<char>, args: Seq<Seq<char>>) -> Result<
    (TargetView, TargetView),
    Seq<char>,
> {
    if args.len() == 1 {
        match pane_target_spec(session, args[0], "swap-pane"@) {
            Err(e) => Err(e),
            Ok(t) => Ok((active_target(session), t)),
        }
    } else {
        match swap_args_spec(session, args, 0, None, None) {
            Err(e) => Err(e),
            Ok((s, d)) => match s {
                None => Err("swap-pane requires -s <pane>"@),
                Some(s) => match d {
                    None => Err("swap-pane requires -t <pane>"@),
                    Some(d) => Ok((s, d)),
                },
            },
        }
    }
}

/// The view of an optional target.
pub open spec fn opt_target(o: Option<Target>) -> Option<TargetView> {
    match o {
        Some(t) => Some(t@),
        None => None,
    }
}

/// Reads the two panes `swap-pane` swaps.
pub fn parse_attach_swap_pane_targets(session: &str, args: &[String]) -> (r: Result<
    (Target, Target),
    String,
>)
    ensures
        match swap_targets_spec(session@, views(args@)) {
            Ok((s, d)) => r matches Ok((rs, rd)) && rs@ == s && rd@ == d,
            Err(e) => r matches Err(m) && m@ == e,
        },
{
    let ghost av = views(args@);
    if args.len() == 1 {
        let t = parse_attach_pane_target(session, args[0].as_str(), "swap-pane")?;
        return Ok((Target::active(String::from_str(session)), t));
    }
    let mut source: Option<Target> = None;
    let mut destination: Option<Target> = None;
    let mut i: usize = 0;
    while i < args.len()
        invariant
            i <= args@.len(),
            av == views(args@),
            args@.len() != 1,
            swap_args_spec(session@, av, i as int, opt_target(source), opt_target(destination))
                == swap_args_spec(session@, av, 0, None, None),
        decreases args.len() - i,
    {
        assert(av[i as int] == args@[i as int]@);
        let a = args[i].as_str();
        if crate::text::str_eq(a, "-s") {
            if i + 1 >= args.len() {
                return Err(String::from_str("swap-pane requires a source after -s"));
            }
            assert(av[i + 1] == args@[i + 1]@);
            let t = parse_attach_pane_target(session, args[i + 1].as_str(), "swap-pane")?;
            source = Some(t);
            i += 2;
        } else if crate::text::str_eq(a, "-t") {
            if i + 1 >= args.len() {
                return Err(String::from_str("swap-pane requires a destination after -t"));
            }
            assert(av[i + 1] == args@[i + 1]@);
            let t = parse_attach_pane_target(session, args[i + 1].as_str(), "swap-pane")?;
            destination = Some(t);
            i += 2;
        } else {
            let mut m = String::from_str("swap-pane does not support argument ");
            let q = debug_quote(a);
            m.append(q.as_str());
            m.append("; try :swap-pane 1");
            return Err(m);
        }
    }
    let s = match source {
        Some(s) => s,
        None => return Err(String::from_str("swap-pane requires -s <pane>")),
    };
    let d = match destination {
        Some(d) => d,
        None => return Err(String::from_str("swap-pane requires -t <pane>")),
    };
    Ok((s, d))
}

/// The source, destination and direction that the arguments of
/// `move-pane` or `join-pane` give from an index on.
pub open spec fn transfer_args_spec(
    session: Seq<char>,
    args: Seq<Seq<char>>,
    i: int,
    command: Seq<char>,
    source: Option<TargetView>,
    destination: Option<TargetView>,
    direction: SplitDirection,
) -> Result<(Option<TargetView>, Option<TargetView>, SplitDirection), Seq<char>>
    decreases args.len() - i,
{
    if i < 0 || i >= args.len() {
        Ok((source, destination, direction))
    } else if args[i] == "-s"@ {
        if i + 1 >= args.len() {
            Err(command + " requires a source after -s"@)
        } else {
            match window_pane_spec(session, args[i + 1], command) {
                Err(e) => Err(e),
                Ok(t) => transfer_args_spec(session, args, i + 2, command, Some(t), destination, direction),
            }
        }
    } else if args[i] == "-t"@ {
        if i + 1 >= args.len() {
            Err(command + " requires a destination after -t"@)
        } else {
            match window_pane_spec(session, args[i + 1], command) {
                Err(e) => Err(e),
                Ok(t) => transfer_args_spec(session, args, i + 2, command, source, Some(t), direction),
            }
        }
    } else if args[i] == "-h"@ {
        transfer_args_spec(session, args, i + 1, command, source, destination, SplitDirection::Horizontal)
    } else if args[i] == "-v"@ {
        transfer_args_spec(session, args, i + 1, command, source, destination, SplitDirection::Vertical)
    } else {
        Err(command + " does not support argument "@ + debug_quoted(args[i]))
    }
}

/// The source (the active pane by default), destination (required, or the
/// active pane by default) and direction of `move-pane` or `join-pane`.
pub open spec fn transfer_spec(
    session: Seq<char>,
    args: Seq<Seq<char>>,
    command: Seq<char>,
    destination_required: bool,
) -> Result<(TargetView, TargetView, SplitDirection), Seq<char>> {
    match transfer_args_spec(session, args, 0, command, None, None, SplitDirection::Horizontal) {
        Err(e) => Err(e),
        Ok((s, d, dir)) => {
            let source = match s {
                Some(s) => s,
                None => active_target(session),
            };
            match d {
                Some(d) => Ok((source, d, dir)),
                None => if destination_required {
                    Err(command + " requires -t <window[.pane]>"@)
                } else {
                    Ok((source, active_target(session), dir))
                },
            }
        }
    }
}

/// Reads the arguments of `move-pane` or `join-pane`.
pub fn parse_attach_pane_transfer(
    session: &str,
    args: &[String],
    command: &str,
    destination_required: bool,
) -> (r: Result<(Target, Target, SplitDirection), String>)
    ensures
        match transfer_spec(session@, views(args@), command@, destination_required) {
            Ok((s, d, dir)) => r matches Ok((rs, rd, rdir)) && rs@ == s && rd@ == d && rdir == dir,
            Err(e) => r matches Err(m) && m@ == e,
        },
{
    let ghost av = views(args@);
    let mut source: Option<Target> = None;
    let mut destination: Option<Target> = None;
    let mut direction = SplitDirection::Horizontal;
    let mut i: usize = 0;
    while i < args.len()
        invariant
            i <= args@.len(),
            av == views(args@),
            transfer_args_spec(
                session@,
                av,
                i as int,
                command@,
                opt_target(source),
                opt_target(destination),
                direction,
            ) == transfer_args_spec(session@, av, 0, command@, None, None, SplitDirection::Horizontal),
        decreases args.len() - i,
    {
        assert(av[i as int] == args@[i as int]@);
        let a = args[i].as_str();
        if crate::text::str_eq(a, "-s") {
            if i + 1 >= args.len() {
                return Err(concat_str(command, " requires a source after -s"));
            }
            assert(av[i + 1] == args@[i + 1]@);
            let t = parse_attach_window_pane_target(session, args[i + 1].as_str(), command)?;
            source = Some(t);
            i += 2;
        } else if crate::text::str_eq(a, "-t") {
            if i + 1 >= args.len() {
                return Err(concat_str(command, " requires a destination after -t"));
            }
            assert(av[i + 1] == args@[i + 1]@);
            let t = parse_attach_window_pane_target(session, args[i + 1].as_str(), command)?;
            destination = Some(t);
            i += 2;
        } else if crate::text::str_eq(a, "-h") {
            direction = SplitDirection::Horizontal;
            i += 1;
        } else if crate::text::str_eq(a, "-v") {
            direction = SplitDirection::Vertical;
            i += 1;
        } else {
            let mut m = concat_str(command, " does not support argument ");
            let q = debug_quote(a);
            m.append(q.as_str());
            return Err(m);
        }
    }
    let s = match source {
        Some(s) => s,
        None => Target::active(String::from_str(session)),
    };
    let d = match destination {
        Some(d) => d,
        None => {
            if destination_required {
                return Err(concat_str(command, " requires -t <window[.pane]>"));
            }
            Target::active(String::from_str(session))
        },
    };
    Ok((s, d, direction))
}

/// What a prompt command asks for: nothing; a list of commands to run in
/// turn; a script file to read; or a request line to send, with whether the
/// client must reconnect after it and whether it ends the attachment.
#[derive(Debug, Clone, PartialEq, Eq)]
pub enum AttachCommandPlan {
    Nothing,
    Sequence(Vec<String>),
    SourceFile(String),
    Request { line: String, reconnect: bool, exit_attach: bool },
}

/// A plan as values.
pub enum PlanView {
    Nothing,
    Sequence(Seq<Seq<char>>),
    SourceFile(Seq<char>),
    Request { line: Seq<char>, reconnect: bool, exit_attach: bool },
}

impl View for AttachCommandPlan {
    type V = PlanView;

    open spec fn view(&self) -> PlanView {
        match self {
            AttachCommandPlan::Nothing => PlanView::Nothing,
            AttachCommandPlan::Sequence(v) => PlanView::Sequence(views(v@)),
            AttachCommandPlan::SourceFile(p) => PlanView::SourceFile(p@),
            AttachCommandPlan::Request { line, reconnect, exit_attach } => PlanView::Request {
                line: line@,
                reconnect: *reconnect,
                exit_attach: *exit_attach,
            },
        }
    }
}

/// A request line to send, with its reconnect and exit flags.
pub open spec fn request(line: Seq<char>, reconnect: bool, exit_attach: bool) -> Result<PlanView, Seq<char>> {
    Ok(PlanView::Request { line, reconnect, exit_attach })
}

/// The message for a command the prompt does not know.
pub open spec fn unknown_command_message(name: Seq<char>) -> Seq<char> {
    "unknown attach command "@ + debug_quoted(name)
        + "; press C-b ? for help or try :split -h, :swap-pane 1, :break-pane, :layout tiled, :list-windows; CLI automation is available with dmux run and dmux source-file"@
}

/// The plan of a window-and-pane command (`select-window`, `kill-window`,
/// the pane moves and layouts) of the prompt.
pub open spec fn pane_plan_spec(session: Seq<char>, name: Seq<char>, args: Seq<Seq<char>>) -> Result<
    PlanView,
    Seq<char>,
> {
    if name == "select-window"@ || name == "selectw"@ {
        match window_target_spec(args) {
            Err(e) => Err(e),
            Ok(t) => request(select_window_line(session, t), true, false),
        }
    } else if name == "kill-window"@ || name == "killw"@ {
        let t = if args.len() == 0 {
            Ok(WindowTargetView::Active)
        } else {
            window_target_spec(args)
        };
        match t {
            Err(e) => Err(e),
            Ok(t) => request(line_of(seq!["KILL_WINDOW_TARGET"@, session, window_target_text(t)]), true, false),
        }
    } else if name == "split-window"@ || name == "split"@ {
        let direction = if args.contains("-v"@) {
            SplitDirection::Vertical
        } else {
            SplitDirection::Horizontal
        };
        request(
            line_of(
                seq![
                    "SPLIT"@,
                    session,
                    split_direction_text(direction),
                    crate::text::decimal(0),
                    command_text(Seq::empty()),
                ],
            ),
            true,
            false,
        )
    } else if name == "swap-pane"@ || name == "swapp"@ {
        match swap_targets_spec(session, args) {
            Err(e) => Err(e),
            Ok((s, d)) => request(line_of(seq!["SWAP_PANE"@, target_text(s), target_text(d)]), true, false),
        }
    } else if name == "move-pane"@ || name == "movep"@ {
        match transfer_spec(session, args, "move-pane"@, true) {
            Err(e) => Err(e),
            Ok((s, d, dir)) => request(
                line_of(seq!["MOVE_PANE"@, target_text(s), target_text(d), split_direction_text(dir)]),
                true,
                false,
            ),
        }
    } else if name == "break-pane"@ || name == "breakp"@ {
        match break_target_spec(session, args) {
            Err(e) => Err(e),
            Ok(t) => request(line_of(seq!["BREAK_PANE"@, target_text(t)]), true, false),
        }
    } else if name == "join-pane"@ || name == "joinp"@ {
        match transfer_spec(session, args, "join-pane"@, false) {
            Err(e) => Err(e),
            Ok((s, d, dir)) => request(
                line_of(seq!["JOIN_PANE"@, target_text(s), target_text(d), split_direction_text(dir)]),
                true,
                false,
            ),
        }
    } else if name == "select-layout"@ || name == "layout"@ {
        if args.len() == 1 {
            match layout_preset_named(args[0]) {
                Err(e) => Err(e),
                Ok(p) => request(
                    line_of(
                        seq![
                            "SELECT_LAYOUT_TARGET"@,
                            target_text(active_target(session)),
                            layout_preset_text(p),
                        ],
                    ),
                    true,
                    false,
                ),
            }
        } else if args.len() == 0 {
            Err(
                "select-layout requires a preset: even-horizontal, even-vertical, tiled, main-horizontal, or main-vertical"@,
            )
        } else {
            Err("select-layout accepts exactly one preset"@)
        }
    } else {
        Err(unknown_command_message(name))
    }
}

/// The plan of a prompt command with its name and arguments: script files
/// (not from inside another), renames, the session's kill, buffers, keys
/// and options, then the window-and-pane commands.
pub open spec fn name_plan_spec(session: Seq<char>, name: Seq<char>, args: Seq<Seq<char>>, depth: nat) -> Result<
    PlanView,
    Seq<char>,
> {
    if name == "source-file"@ || name == "source"@ {
        if depth > 0 {
            Err("nested source-file is not allowed in attach scripts"@)
        } else if args.len() != 1 {
            Err("source-file requires exactly one path"@)
        } else {
            Ok(PlanView::SourceFile(args[0]))
        }
    } else if name == "rename-window"@ || name == "renamew"@ {
        let n = crate::text::join(args, ' ');
        if n.len() == 0 {
            Err("rename-window requires a name"@)
        } else {
            request(line_of(seq!["RENAME_WINDOW"@, session, "active"@, hex_text(n)]), false, false)
        }
    } else if name == "rename-session"@ || name == "rename"@ {
        let n = crate::text::join(args, ' ');
        if n.len() == 0 {
            Err("rename-session requires a name"@)
        } else {
            request(line_of(seq!["RENAME_SESSION"@, hex_text(session), hex_text(n)]), false, false)
        }
    } else if name == "kill-session"@ || name == "kill"@ {
        request(line_of(seq!["KILL"@, session]), false, true)
    } else if name == "paste-buffer"@ || name == "pasteb"@ || name == "paste"@ {
        let buffer = if args.len() > 0 {
            Some(args[0])
        } else {
            None
        };
        request(
            line_of(seq!["PASTE_BUFFER_TARGET"@, target_text(active_target(session)), opt_text(buffer)]),
            false,
            false,
        )
    } else if name == "list-windows"@ || name == "lsw"@ {
        request(line_of(seq!["LIST_WINDOWS"@, session]), false, false)
    } else if name == "list-buffers"@ || name == "lsb"@ {
        request(line_of(seq!["LIST_BUFFERS"@]), false, false)
    } else if name == "list-keys"@ {
        match format_args_spec(args, 0, "list-keys"@, None) {
            Err(e) => Err(e),
            Ok(f) => request(line_of(seq!["LIST_KEYS"@, opt_text(f)]), false, false),
        }
    } else if name == "bind-key"@ {
        if args.len() == 0 {
            Err("bind-key requires a key and command"@)
        } else {
            match canonical_key_spec(args[0]) {
                Err(e) => Err(e),
                Ok(key) => match binding_command_spec(crate::text::join(args.drop_first(), ' ')) {
                    Err(e) => Err(e),
                    Ok(command) => request(
                        line_of(seq!["BIND_KEY"@, hex_text(key), hex_text(command)]),
                        false,
                        false,
                    ),
                },
            }
        }
    } else if name == "unbind-key"@ {
        if args.len() != 1 {
            Err("unbind-key accepts exactly one key"@)
        } else {
            match canonical_key_spec(args[0]) {
                Err(e) => Err(e),
                Ok(key) => request(line_of(seq!["UNBIND_KEY"@, hex_text(key)]), false, false),
            }
        }
    } else if name == "show-options"@ {
        match format_args_spec(args, 0, "show-options"@, None) {
            Err(e) => Err(e),
            Ok(f) => request(line_of(seq!["SHOW_OPTIONS"@, opt_text(f)]), false, false),
        }
    } else if name == "set-option"@ || name == "set"@ {
        if args.len() != 2 {
            Err("set-option requires an option name and value"@)
        } else {
            match option_value_spec(args[0], args[1]) {
                Err(e) => Err(e),
                Ok(value) => request(
                    line_of(seq!["SET_OPTION"@, hex_text(args[0]), hex_text(value)]),
                    false,
                    false,
                ),
            }
        }
    } else {
        pane_plan_spec(session, name, args)
    }
}

/// The plan of a prompt command line: nothing for an empty line, the
/// commands in turn for several, else the plan of the one command.
pub open spec fn plan_spec(session: Seq<char>, command: Seq<char>, depth: nat) -> Result<PlanView, Seq<char>> {
    match command_sequence_spec(command) {
        Err(e) => Err(e),
        Ok(cmds) => if cmds.len() > 1 {
            Ok(PlanView::Sequence(cmds.map_values(|c: (Seq<char>, Seq<Seq<char>>)| c.0)))
        } else if cmds.len() == 0 || cmds[0].1.len() == 0 {
            Ok(PlanView::Nothing)
        } else {
            name_plan_spec(session, cmds[0].1[0], cmds[0].1.drop_first(), depth)
        },
    }
}

/// The view of a plan result.
pub open spec fn plan_res(r: Result<AttachCommandPlan, String>) -> Result<PlanView, Seq<char>> {
    match r {
        Ok(p) => Ok(p@),
        Err(e) => Err(e@),
    }
}

fn join_args(args: &[String]) -> (r: String)
    ensures
        r@ == crate::text::join(views(args@), ' '),
{
    let ghost av = views(args@);
    let mut out = String::new();
    let mut k: usize = 0;
    while k < args.len()
        invariant
            k <= args@.len(),
            av == views(args@),
            out@ == crate::text::join(av.take(k as int), ' '),
        decreases args.len() - k,
    {
        proof {
            assert(av.take(k + 1).drop_last() =~= av.take(k as int));
            assert(av.take(k + 1).last() == args@[k as int]@);
            if k == 0 {
                assert(av.take(1) =~= seq![args@[0]@]);
            }
        }
        if k > 0 {
            crate::text::push_char(&mut out, ' ');
        }
        out.append(args[k].as_str());
        k += 1;
    }
    assert(av.take(k as int) =~= av);
    out
}

fn req(line: String, reconnect: bool, exit_attach: bool) -> (r: Result<AttachCommandPlan, String>)
    ensures
        plan_res(r) == request(line@, reconnect, exit_attach),
{
    Ok(AttachCommandPlan::Request { line, reconnect, exit_attach })
}

fn has_arg(args: &[String], value: &str) -> (r: bool)
    ensures
        r == views(args@).contains(value@),
{
    let ghost av = views(args@);
    let mut i: usize = 0;
    while i < args.len()
        invariant
            i <= args@.len(),
            av == views(args@),
            forall|j: int| 0 <= j < i ==> av[j] != value@,
        decreases args.len() - i,
    {
        assert(av[i as int] == args@[i as int]@);
        if crate::text::str_eq(args[i].as_str(), value) {
            return true;
        }
        i += 1;
    }
    false
}

#[verifier::rlimit(40)]
fn plan_pane_command(session: &str, name: &str, args: &[String]) -> (r: Result<AttachCommandPlan, String>)
    ensures
        plan_res(r) == pane_plan_spec(session@, name@, views(args@)),
{
    let n = chars_of(name);
    let n = n.as_slice();
    if chars_eq_str(n, "select-window") || chars_eq_str(n, "selectw") {
        let t = parse_attach_window_target(args)?;
        return req(crate::encode::encode_select_window_target(session, t), true, false);
    }
    if chars_eq_str(n, "kill-window") || chars_eq_str(n, "killw") {
        let t = if args.len() == 0 {
            WindowTarget::Active
        } else {
            parse_attach_window_target(args)?
        };
        return req(crate::encode::encode_kill_window_target(session, t), true, false);
    }
    if chars_eq_str(n, "split-window") || chars_eq_str(n, "split") {
        let direction = if has_arg(args, "-v") {
            SplitDirection::Vertical
        } else {
            SplitDirection::Horizontal
        };
        let none: Vec<String> = Vec::new();
        let line = crate::encode::encode_split(session, direction, none.as_slice());
        assert(views(none@) =~= Seq::<Seq<char>>::empty());
        return req(line, true, false);
    }
    if chars_eq_str(n, "swap-pane") || chars_eq_str(n, "swapp") {
        let (source, destination) = parse_attach_swap_pane_targets(session, args)?;
        return req(crate::encode::encode_swap_pane(&source, &destination), true, false);
    }
    if chars_eq_str(n, "move-pane") || chars_eq_str(n, "movep") {
        let (source, destination, direction) = parse_attach_pane_transfer(session, args, "move-pane", true)?;
        return req(crate::encode::encode_move_pane(&source, &destination, direction), true, false);
    }
    if chars_eq_str(n, "break-pane") || chars_eq_str(n, "breakp") {
        let target = parse_attach_break_pane_target(session, args)?;
        return req(crate::encode::encode_break_pane(&target), true, false);
    }
    if chars_eq_str(n, "join-pane") || chars_eq_str(n, "joinp") {
        let (source, destination, direction) = parse_attach_pane_transfer(session, args, "join-pane", false)?;
        return req(crate::encode::encode_join_pane(&source, &destination, direction), true, false);
    }
    if chars_eq_str(n, "select-layout") || chars_eq_str(n, "layout") {
        if args.len() == 1 {
            let preset = parse_layout_preset_name(args[0].as_str())?;
            return req(crate::encode::encode_select_layout(session, preset), true, false);
        }
        if args.len() == 0 {
            return Err(
                String::from_str(
                    "select-layout requires a preset: even-horizontal, even-vertical, tiled, main-horizontal, or main-vertical",
                ),
            );
        }
        return Err(String::from_str("select-layout accepts exactly one preset"));
    }
    let mut m = String::from_str("unknown attach command ");
    let q = debug_quote(name);
    m.append(q.as_str());
    m.append(
        "; press C-b ? for help or try :split -h, :swap-pane 1, :break-pane, :layout tiled, :list-windows; CLI automation is available with dmux run and dmux source-file",
    );
    Err(m)
}

#[verifier::rlimit(40)]
fn plan_named_command(session: &str, name: &str, args: &[String], source_depth: usize) -> (r: Result<
    AttachCommandPlan,
    String,
>)
    ensures
        plan_res(r) == name_plan_spec(session@, name@, views(args@), source_depth as nat),
{
    let n = chars_of(name);
    let n = n.as_slice();
    if chars_eq_str(n, "source-file") || chars_eq_str(n, "source") {
        if source_depth > 0 {
            return Err(String::from_str("nested source-file is not allowed in attach scripts"));
        }
        if args.len() != 1 {
            return Err(String::from_str("source-file requires exactly one path"));
        }
        return Ok(AttachCommandPlan::SourceFile(args[0].clone()));
    }
    if chars_eq_str(n, "rename-window") || chars_eq_str(n, "renamew") {
        let joined = join_args(args);
        let jv = chars_of(joined.as_str());
        if jv.len() == 0 {
            return Err(String::from_str("rename-window requires a name"));
        }
        return req(
            crate::encode::encode_rename_window(session, WindowTarget::Active, joined.as_str()),
            false,
            false,
        );
    }
    if chars_eq_str(n, "rename-session") || chars_eq_str(n, "rename") {
        let joined = join_args(args);
        let jv = chars_of(joined.as_str());
        if jv.len() == 0 {
            return Err(String::from_str("rename-session requires a name"));
        }
        return req(crate::encode::encode_rename_session(session, joined.as_str()), false, false);
    }
    if chars_eq_str(n, "kill-session") || chars_eq_str(n, "kill") {
        return req(crate::encode::encode_kill(session), false, true);
    }
    if chars_eq_str(n, "paste-buffer") || chars_eq_str(n, "pasteb") || chars_eq_str(n, "paste") {
        let line = if args.len() > 0 {
            crate::encode::encode_paste_buffer(session, Some(args[0].as_str()))
        } else {
            crate::encode::encode_paste_buffer(session, None)
        };
        return req(line, false, false);
    }
    if chars_eq_str(n, "list-windows") || chars_eq_str(n, "lsw") {
        return req(crate::encode::encode_list_windows(session, None), false, false);
    }
    if chars_eq_str(n, "list-buffers") || chars_eq_str(n, "lsb") {
        return req(crate::encode::encode_list_buffers(None), false, false);
    }
    if chars_eq_str(n, "list-keys") {
        let f = parse_attach_optional_format(args, "list-keys")?;
        let line = match &f {
            Some(f) => crate::encode::encode_list_keys(Some(f.as_str())),
            None => crate::encode::encode_list_keys(None),
        };
        return req(line, false, false);
    }
    if chars_eq_str(n, "bind-key") {
        if args.len() == 0 {
            return Err(String::from_str("bind-key requires a key and command"));
        }
        let key = canonical_key(args[0].as_str())?;
        let rest = vstd::slice::slice_subrange(args, 1, args.len());
        assert(views(rest@) =~= views(args@).drop_first());
        let joined = join_args(rest);
        let command = validate_binding_command(joined.as_str())?;
        return req(crate::encode::encode_bind_key(key.as_str(), command.as_str()), false, false);
    }
    if chars_eq_str(n, "unbind-key") {
        if args.len() != 1 {
            return Err(String::from_str("unbind-key accepts exactly one key"));
        }
        let key = canonical_key(args[0].as_str())?;
        return req(crate::encode::encode_unbind_key(key.as_str()), false, false);
    }
    if chars_eq_str(n, "show-options") {
        let f = parse_attach_optional_format(args, "show-options")?;
        let line = match &f {
            Some(f) => crate::encode::encode_show_options(Some(f.as_str())),
            None => crate::encode::encode_show_options(None),
        };
        return req(line, false, false);
    }
    if chars_eq_str(n, "set-option") || chars_eq_str(n, "set") {
        if args.len() != 2 {
            return Err(String::from_str("set-option requires an option name and value"));
        }
        let value = validate_option_value(args[0].as_str(), args[1].as_str())?;
        return req(crate::encode::encode_set_option(args[0].as_str(), value.as_str()), false, false);
    }
    plan_pane_command(session, name, args)
}

/// What a command typed at the prompt of a session asks for; commands read
/// from a script file come with a depth above zero.
pub fn plan_attach_command(session: &str, command: &str, source_depth: usize) -> (r: Result<
    AttachCommandPlan,
    String,
>)
    ensures
        plan_res(r) == plan_spec(session@, command@, source_depth as nat),
{
    let sequence = parse_command_sequence(command)?;
    let ghost sv = crate::cli::script_views(sequence@);
    if sequence.len() > 1 {
        let mut sources: Vec<String> = Vec::new();
        let mut i: usize = 0;
        while i < sequence.len()
            invariant
                i <= sequence@.len(),
                sv == crate::cli::script_views(sequence@),
                views(sources@) == sv.take(i as int).map_values(
                    |c: (Seq<char>, Seq<Seq<char>>)| c.0,
                ),
            decreases sequence.len() - i,
        {
            let ghost before = sources@;
            sources.push(sequence[i].source.clone());
            assert(views(sources@) =~= views(before).push(sequence@[i as int].source@));
            assert(sv.take(i + 1).map_values(|c: (Seq<char>, Seq<Seq<char>>)| c.0) =~= sv.take(
                i as int,
            ).map_values(|c: (Seq<char>, Seq<Seq<char>>)| c.0).push(sv[i as int].0));
            i += 1;
        }
        assert(sv.take(i as int) =~= sv);
        return Ok(AttachCommandPlan::Sequence(sources));
    }
    if sequence.len() == 0 {
        return Ok(AttachCommandPlan::Nothing);
    }
    let argv = &sequence[0].argv;
    if argv.len() == 0 {
        return Ok(AttachCommandPlan::Nothing);
    }
    let rest = vstd::slice::slice_subrange(argv.as_slice(), 1, argv.len());
    assert(views(rest@) =~= views(argv@).drop_first());
    plan_named_command(session, argv[0].as_str(), rest, source_depth)
}

/// The message a reply body gives: its text without trailing whitespace,
/// or none when that is empty.
pub open spec fn reply_message_spec(body: Seq<u8>) -> Option<Seq<char>> {
    let t = crate::text::trim_end(crate::popup::utf8_lossy(body));
    if t.len() > 0 {
        Some(t)
    } else {
        None
    }
}

/// The message a reply body gives.
pub fn reply_message(body: &[u8]) -> (r: Option<String>)
    ensures
        match reply_message_spec(body@) {
            Some(t) => r matches Some(s) && s@ == t,
            None => r is None,
        },
{
    let text = crate::popup::string_from_utf8_lossy(body);
    let v = chars_of(text.as_str());
    let e = crate::text::trim_end_index(v.as_slice(), 0, v.len());
    assert(v@.subrange(0, v@.len() as int) =~= v@);
    if e == 0 {
        return None;
    }
    let t = sub_chars(v.as_slice(), 0, e);
    Some(string_from_chars(t.as_slice()))
}

/// What a prompt command came to: a message to show, whether the client
/// must reconnect, and whether the attachment ends.
#[derive(Debug, Clone, PartialEq, Eq)]
pub struct AttachCommandResult {
    pub message: Option<String>,
    pub reconnect: bool,
    pub exit_attach: bool,
}

impl AttachCommandResult {
    /// The result of a command that did nothing to show.
    pub fn quiet() -> (r: AttachCommandResult)
        ensures
            r.message is None,
            !r.reconnect,
            !r.exit_attach,
    {
        AttachCommandResult { message: None, reconnect: false, exit_attach: false }
    }

    /// Takes in the result of the next command of a sequence or script:
    /// reconnecting if any command asked for it, the latest message, and
    /// the next command's word on ending the attachment.
    pub fn absorb(&mut self, next: AttachCommandResult)
        ensures
            final(self).reconnect == (old(self).reconnect || next.reconnect),
            final(self).message == (match next.message {
                Some(m) => Some(m),
                None => old(self).message,
            }),
            final(self).exit_attach == next.exit_attach,
    {
        self.reconnect = self.reconnect || next.reconnect;
        if next.message.is_some() {
            self.message = next.message;
        }
        self.exit_attach = next.exit_attach;
    }
}

} // verus!
