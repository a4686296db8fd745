//! The command line: the commands `dmux` accepts with their options, the
//! tokenizer for prompt and script text, and semicolon-separated command
//! sequences.

use vstd::prelude::*;
use vstd::string::*;
use crate::protocol::{
    active_target, opt_view, views, BufferSelection, BufferSelectionView, CaptureMode,
    LayoutPreset, PaneDirection, PaneResizeDirection, PaneSelectTarget, PaneTarget,
    SplitDirection, Target, TargetView, WindowTarget, WindowTargetView,
};
use crate::text::{
    chars_eq_str, chars_of, debug_quote, debug_quoted, find_char, find_char_index,
    lemma_find_char_is, parse_unsigned, parse_usize_chars, str_eq, string_from_chars,
    sub_chars,
};
use crate::wire::concat_str;

verus! {

/// A help page other than the general one.
#[derive(Debug, Clone, Copy, PartialEq, Eq, Structural)]
pub enum HelpTopic {
    Attach,
}

/// How `resize-pane` changes a pane: to a size, or by moving a divider.
#[derive(Debug, Clone, Copy, PartialEq, Eq, Structural)]
pub enum PaneResize {
    Absolute { cols: u16, rows: u16 },
    Directional { direction: PaneResizeDirection, amount: usize },
}

/// A command given on the command line, at the prompt or in a script.
#[derive(Debug, Clone, PartialEq, Eq)]
#[allow(inconsistent_fields)]
pub enum Command {
    OpenDefault,
    New { session: String, detach: bool, command: Vec<String> },
    Attach { session: String },
    ListSessions { format: Option<String> },
    RenameSession { old_name: String, new_name: String },
    ListClients { session: Option<String>, format: Option<String> },
    DetachClient { session: Option<String>, client_id: Option<usize> },
    CapturePane { target: Target, mode: CaptureMode, selection: BufferSelection },
    SaveBuffer { target: Target, buffer: Option<String>, mode: CaptureMode, selection: BufferSelection },
    CopyMode { session: String, mode: CaptureMode, search: Option<String>, match_index: Option<usize> },
    ListBuffers { format: Option<String> },
    PasteBuffer { target: Target, buffer: Option<String> },
    DeleteBuffer { buffer: String },
    ResizePane { target: Target, resize: PaneResize },
    SelectLayout { session: String, window: WindowTarget, preset: LayoutPreset },
    SendKeys { target: Target, keys: Vec<String> },
    SplitWindow { target: Target, direction: SplitDirection, command: Vec<String> },
    ListPanes { session: String, window: WindowTarget, format: Option<String> },
    SelectPane { session: String, window: WindowTarget, target: PaneSelectTarget },
    KillPane { target: Target },
    SwapPane { source: Target, destination: Target },
    MovePane { source: Target, destination: Target, direction: SplitDirection },
    BreakPane { target: Target },
    JoinPane { source: Target, destination: Target, direction: SplitDirection },
    RespawnPane { target: Target, force: bool, command: Vec<String> },
    NewWindow { session: String, command: Vec<String> },
    ListWindows { session: String, format: Option<String> },
    SelectWindow { session: String, target: WindowTarget },
    RenameWindow { session: String, target: WindowTarget, name: String },
    NextWindow { session: String },
    PreviousWindow { session: String },
    KillWindow { session: String, target: WindowTarget },
    ZoomPane { target: Target },
    StatusLine { session: String, format: Option<String> },
    DisplayMessage { session: String, format: String },
    ListKeys { format: Option<String> },
    BindKey { key: String, command: String },
    UnbindKey { key: String },
    ShowOptions { format: Option<String> },
    SetOption { name: String, value: String },
    Run { sequence: String },
    SourceFile { path: String },
    RunShell { command: String },
    KillSession { session: String },
    KillServer,
    Help { topic: Option<HelpTopic> },
    Server,
}

/// A command with its text as characters.
#[allow(inconsistent_fields)]
pub enum CommandView {
    OpenDefault,
    New { session: Seq<char>, detach: bool, command: Seq<Seq<char>> },
    Attach { session: Seq<char> },
    ListSessions { format: Option<Seq<char>> },
    RenameSession { old_name: Seq<char>, new_name: Seq<char> },
    ListClients { session: Option<Seq<char>>, format: Option<Seq<char>> },
    DetachClient { session: Option<Seq<char>>, client_id: Option<usize> },
    CapturePane { target: TargetView, mode: CaptureMode, selection: BufferSelectionView },
    SaveBuffer { target: TargetView, buffer: Option<Seq<char>>, mode: CaptureMode, selection: BufferSelectionView },
    CopyMode { session: Seq<char>, mode: CaptureMode, search: Option<Seq<char>>, match_index: Option<usize> },
    ListBuffers { format: Option<Seq<char>> },
    PasteBuffer { target: TargetView, buffer: Option<Seq<char>> },
    DeleteBuffer { buffer: Seq<char> },
    ResizePane { target: TargetView, resize: PaneResize },
    SelectLayout { session: Seq<char>, window: WindowTargetView, preset: LayoutPreset },
    SendKeys { target: TargetView, keys: Seq<Seq<char>> },
    SplitWindow { target: TargetView, direction: SplitDirection, command: Seq<Seq<char>> },
    ListPanes { session: Seq<char>, window: WindowTargetView, format: Option<Seq<char>> },
    SelectPane { session: Seq<char>, window: WindowTargetView, target: PaneSelectTarget },
    KillPane { target: TargetView },
    SwapPane { source: TargetView, destination: TargetView },
    MovePane { source: TargetView, destination: TargetView, direction: SplitDirection },
    BreakPane { target: TargetView },
    JoinPane { source: TargetView, destination: TargetView, direction: SplitDirection },
    RespawnPane { target: TargetView, force: bool, command: Seq<Seq<char>> },
    NewWindow { session: Seq<char>, command: Seq<Seq<char>> },
    ListWindows { session: Seq<char>, format: Option<Seq<char>> },
    SelectWindow { session: Seq<char>, target: WindowTargetView },
    RenameWindow { session: Seq<char>, target: WindowTargetView, name: Seq<char> },
    NextWindow { session: Seq<char> },
    PreviousWindow { session: Seq<char> },
    KillWindow { session: Seq<char>, target: WindowTargetView },
    ZoomPane { target: TargetView },
    StatusLine { session: Seq<char>, format: Option<Seq<char>> },
    DisplayMessage { session: Seq<char>, format: Seq<char> },
    ListKeys { format: Option<Seq<char>> },
    BindKey { key: Seq<char>, command: Seq<char> },
    UnbindKey { key: Seq<char> },
    ShowOptions { format: Option<Seq<char>> },
    SetOption { name: Seq<char>, value: Seq<char> },
    Run { sequence: Seq<char> },
    SourceFile { path: Seq<char> },
    RunShell { command: Seq<char> },
    KillSession { session: Seq<char> },
    KillServer,
    Help { topic: Option<HelpTopic> },
    Server,
}

impl View for Command {
    type V = CommandView;

    open spec fn view(&self) -> CommandView {
        match self {
            Command::OpenDefault => CommandView::OpenDefault,
            Command::New { session, detach, command } => CommandView::New { session: session@, detach: *detach, command: views(command@) },
            Command::Attach { session } => CommandView::Attach { session: session@ },
            Command::ListSessions { format } => CommandView::ListSessions { format: opt_view(*format) },
            Command::RenameSession { old_name, new_name } => CommandView::RenameSession { old_name: old_name@, new_name: new_name@ },
            Command::ListClients { session, format } => CommandView::ListClients { session: opt_view(*session), format: opt_view(*format) },
            Command::DetachClient { session, client_id } => CommandView::DetachClient { session: opt_view(*session), client_id: *client_id },
            Command::CapturePane { target, mode, selection } => CommandView::CapturePane { target: target@, mode: *mode, selection: selection@ },
            Command::SaveBuffer { target, buffer, mode, selection } => CommandView::SaveBuffer { target: target@, buffer: opt_view(*buffer), mode: *mode, selection: selection@ },
            Command::CopyMode { session, mode, search, match_index } => CommandView::CopyMode { session: session@, mode: *mode, search: opt_view(*search), match_index: *match_index },
            Command::ListBuffers { format } => CommandView::ListBuffers { format: opt_view(*format) },
            Command::PasteBuffer { target, buffer } => CommandView::PasteBuffer { target: target@, buffer: opt_view(*buffer) },
            Command::DeleteBuffer { buffer } => CommandView::DeleteBuffer { buffer: buffer@ },
            Command::ResizePane { target, resize } => CommandView::ResizePane { target: target@, resize: *resize },
            Command::SelectLayout { session, window, preset } => CommandView::SelectLayout { session: session@, window: window@, preset: *preset },
            Command::SendKeys { target, keys } => CommandView::SendKeys { target: target@, keys: views(keys@) },
            Command::SplitWindow { target, direction, command } => CommandView::SplitWindow { target: target@, direction: *direction, command: views(command@) },
            Command::ListPanes { session, window, format } => CommandView::ListPanes { session: session@, window: window@, format: opt_view(*format) },
            Command::SelectPane { session, window, target } => CommandView::SelectPane { session: session@, window: window@, target: *target },
            Command::KillPane { target } => CommandView::KillPane { target: target@ },
            Command::SwapPane { source, destination } => CommandView::SwapPane { source: source@, destination: destination@ },
            Command::MovePane { source, destination, direction } => CommandView::MovePane { source: source@, destination: destination@, direction: *direction },
            Command::BreakPane { target } => CommandView::BreakPane { target: target@ },
            Command::JoinPane { source, destination, direction } => CommandView::JoinPane { source: source@, destination: destination@, direction: *direction },
            Command::RespawnPane { target, force, command } => CommandView::RespawnPane { target: target@, force: *force, command: views(command@) },
            Command::NewWindow { session, command } => CommandView::NewWindow { session: session@, command: views(command@) },
            Command::ListWindows { session, format } => CommandView::ListWindows { session: session@, format: opt_view(*format) },
            Command::SelectWindow { session, target } => CommandView::SelectWindow { session: session@, target: target@ },
            Command::RenameWindow { session, target, name } => CommandView::RenameWindow { session: session@, target: target@, name: name@ },
            Command::NextWindow { session } => CommandView::NextWindow { session: session@ },
            Command::PreviousWindow { session } => CommandView::PreviousWindow { session: session@ },
            Command::KillWindow { session, target } => CommandView::KillWindow { session: session@, target: target@ },
            Command::ZoomPane { target } => CommandView::ZoomPane { target: target@ },
            Command::StatusLine { session, format } => CommandView::StatusLine { session: session@, format: opt_view(*format) },
            Command::DisplayMessage { session, format } => CommandView::DisplayMessage { session: session@, format: format@ },
            Command::ListKeys { format } => CommandView::ListKeys { format: opt_view(*format) },
            Command::BindKey { key, command } => CommandView::BindKey { key: key@, command: command@ },
            Command::UnbindKey { key } => CommandView::UnbindKey { key: key@ },
            Command::ShowOptions { format } => CommandView::ShowOptions { format: opt_view(*format) },
            Command::SetOption { name, value } => CommandView::SetOption { name: name@, value: value@ },
            Command::Run { sequence } => CommandView::Run { sequence: sequence@ },
            Command::SourceFile { path } => CommandView::SourceFile { path: path@ },
            Command::RunShell { command } => CommandView::RunShell { command: command@ },
            Command::KillSession { session } => CommandView::KillSession { session: session@ },
            Command::KillServer => CommandView::KillServer,
            Command::Help { topic } => CommandView::Help { topic: *topic },
            Command::Server => CommandView::Server,
        }
    }
}


/// A command of a sequence: its text and its arguments.
#[derive(Debug, Clone, PartialEq, Eq)]
pub struct ScriptCommand {
    pub source: String,
    pub argv: Vec<String>,
}

/// A command of a script file with the line it stands on, counted from 1.
#[derive(Debug, Clone, PartialEq, Eq)]
pub struct CommandFileEntry {
    pub line: usize,
    pub command: ScriptCommand,
}

/// A parse result with its text as characters.
pub open spec fn cmd_res(r: Result<Command, String>) -> Result<CommandView, Seq<char>> {
    match r {
        Ok(c) => Ok(c@),
        Err(e) => Err(e@),
    }
}

/// An optional-text result with its text as characters.
pub open spec fn opt_str_res(r: Result<Option<String>, String>) -> Result<Option<Seq<char>>, Seq<char>> {
    match r {
        Ok(o) => Ok(opt_view(o)),
        Err(e) => Err(e@),
    }
}

/// A target result with its text as characters.
pub open spec fn target_result(r: Result<Target, String>) -> Result<TargetView, Seq<char>> {
    match r {
        Ok(t) => Ok(t@),
        Err(e) => Err(e@),
    }
}

/// Whether an argument looks like an option: it starts with `-`.
pub open spec fn is_opt(s: Seq<char>) -> bool {
    s.len() > 0 && s[0] == '-'
}

/// The message for an argument a command does not take.
pub open spec fn unsupported_argument(name: Seq<char>, value: Seq<char>) -> Seq<char> {
    name + " does not support argument "@ + debug_quoted(value)
}

/// The message for an option a command does not take.
pub open spec fn unsupported_option(name: Seq<char>, value: Seq<char>) -> Seq<char> {
    name + " does not support option "@ + debug_quoted(value)
}

fn arg_is(args: &Vec<String>, i: usize, lit: &str) -> (r: bool)
    requires
        i < args.len(),
    ensures
        r == (views(args@)[i as int] == lit@),
{
    str_eq(args[i].as_str(), lit)
}

fn is_option(s: &String) -> (r: bool)
    ensures
        r == is_opt(s@),
{
    let v = s.as_str();
    v.unicode_len() > 0 && v.get_char(0) == '-'
}

fn unsupported_argument_msg(name: &str, value: &str) -> (r: String)
    ensures
        r@ == unsupported_argument(name@, value@),
{
    let head = concat_str(name, " does not support argument ");
    concat_str(head.as_str(), debug_quote(value).as_str())
}

fn unsupported_option_msg(name: &str, value: &str) -> (r: String)
    ensures
        r@ == unsupported_option(name@, value@),
{
    let head = concat_str(name, " does not support option ");
    concat_str(head.as_str(), debug_quote(value).as_str())
}

fn tail_args(args: &Vec<String>, start: usize) -> (r: Vec<String>)
    requires
        start <= args.len(),
    ensures
        views(r@) == views(args@).skip(start as int),
{
    let mut out: Vec<String> = Vec::new();
    let mut i = start;
    while i < args.len()
        invariant
            start <= i <= args.len(),
            views(out@) =~= views(args@).subrange(start as int, i as int),
        decreases args.len() - i,
    {
        let ghost before = out@;
        out.push(args[i].clone());
        assert(views(out@) =~= views(before).push(args@[i as int]@));
        i = i + 1;
    }
    out
}

/// A window token of a target: `@<id>`, `=<name>`, an index, or a name.
pub open spec fn window_token_spec(value: Seq<char>, command: Seq<char>) -> Result<
    WindowTargetView,
    Seq<char>,
> {
    if value.len() > 0 && value[0] == '@' {
        match parse_unsigned(value.drop_first(), usize::MAX as nat) {
            Some(n) => Ok(WindowTargetView::Id(n as usize)),
            None => Err(command + " target has invalid window id"@),
        }
    } else if value.len() > 0 && value[0] == '=' {
        if value.len() == 1 {
            Err(command + " target has invalid window name"@)
        } else {
            Ok(WindowTargetView::Name(value.drop_first()))
        }
    } else {
        match parse_unsigned(value, usize::MAX as nat) {
            Some(n) => Ok(WindowTargetView::Index(n as usize)),
            None => Ok(WindowTargetView::Name(value)),
        }
    }
}

/// A pane token of a target: `%<id>` or an index.
pub open spec fn pane_token_spec(value: Seq<char>, command: Seq<char>) -> Result<PaneTarget, Seq<char>> {
    if value.len() > 0 && value[0] == '%' {
        match parse_unsigned(value.drop_first(), usize::MAX as nat) {
            Some(n) => Ok(PaneTarget::Id(n as usize)),
            None => Err(command + " target has invalid pane id"@),
        }
    } else {
        match parse_unsigned(value, usize::MAX as nat) {
            Some(n) => Ok(PaneTarget::Index(n as usize)),
            None => Err(command + " target has invalid pane index"@),
        }
    }
}

/// A target written `<session>[:<window>[.<pane>]]`. A text after `:`
/// with no `.` that is neither `@<id>`, `=<name>` nor a number is taken as
/// part of the session name.
pub open spec fn cli_target_spec(value: Seq<char>, command: Seq<char>) -> Result<TargetView, Seq<char>> {
    let session = match find_char(value, ':') {
        Some(k) => value.take(k),
        None => value,
    };
    if session.len() == 0 {
        Err(command + " target requires a session name"@)
    } else {
        match find_char(value, ':') {
            None => Ok(active_target(session)),
            Some(k) => {
                let rest = value.skip(k + 1);
                if rest.len() == 0 {
                    Err(command + " target requires a window or pane after ':'"@)
                } else {
                    let window = match find_char(rest, '.') {
                        Some(j) => rest.take(j),
                        None => rest,
                    };
                    if find_char(rest, '.') is None && !(window[0] == '@') && !(window[0] == '=')
                        && parse_unsigned(window, usize::MAX as nat) is None {
                        Ok(active_target(value))
                    } else {
                        let w = if window.len() == 0 {
                            Ok(WindowTargetView::Active)
                        } else {
                            window_token_spec(window, command)
                        };
                        match w {
                            Err(e) => Err(e),
                            Ok(wt) => match find_char(rest, '.') {
                                None => Ok(TargetView { session, window: wt, pane: PaneTarget::Active }),
                                Some(j) => {
                                    let pane = rest.skip(j + 1);
                                    if pane.len() == 0 {
                                        Err(command + " target requires a pane after '.'"@)
                                    } else {
                                        match pane_token_spec(pane, command) {
                                            Ok(pt) => Ok(TargetView { session, window: wt, pane: pt }),
                                            Err(e) => Err(e),
                                        }
                                    }
                                },
                            },
                        }
                    }
                }
            },
        }
    }
}

fn window_token(value: &[char], command: &str) -> (r: Result<WindowTarget, String>)
    ensures
        crate::decode::window_res(r) == window_token_spec(value@, command@),
{
    if value.len() > 0 && value[0] == '@' {
        let id = sub_chars(value, 1, value.len());
        assert(id@ =~= value@.drop_first());
        match parse_usize_chars(&id) {
            Some(n) => Ok(WindowTarget::Id(n)),
            None => Err(concat_str(command, " target has invalid window id")),
        }
    } else if value.len() > 0 && value[0] == '=' {
        if value.len() == 1 {
            Err(concat_str(command, " target has invalid window name"))
        } else {
            let name = sub_chars(value, 1, value.len());
            assert(name@ =~= value@.drop_first());
            Ok(WindowTarget::Name(string_from_chars(&name)))
        }
    } else {
        match parse_usize_chars(value) {
            Some(n) => Ok(WindowTarget::Index(n)),
            None => Ok(WindowTarget::Name(string_from_chars(value))),
        }
    }
}

fn pane_token(value: &[char], command: &str) -> (r: Result<PaneTarget, String>)
    ensures
        match pane_token_spec(value@, command@) {
            Ok(p) => r == Ok::<PaneTarget, String>(p),
            Err(e) => r matches Err(m) && m@ == e,
        },
{
    if value.len() > 0 && value[0] == '%' {
        let id = sub_chars(value, 1, value.len());
        assert(id@ =~= value@.drop_first());
        match parse_usize_chars(&id) {
            Some(n) => Ok(PaneTarget::Id(n)),
            None => Err(concat_str(command, " target has invalid pane id")),
        }
    } else {
        match parse_usize_chars(value) {
            Some(n) => Ok(PaneTarget::Index(n)),
            None => Err(concat_str(command, " target has invalid pane index")),
        }
    }
}

/// Parses a target written `<session>[:<window>[.<pane>]]`.
pub fn parse_structured_target(value: &str, command: &str) -> (r: Result<Target, String>)
    ensures
        target_result(r) == cli_target_spec(value@, command@),
{
    let v = chars_of(value);
    let colon = find_char_index(&v, ':');
    let (session_end, rest_start) = match colon {
        Some(k) => {
            proof {
                lemma_find_char_is(v@, ':', k as int);
            }
            (k, k + 1)
        },
        None => (v.len(), v.len()),
    };
    let session = sub_chars(&v, 0, session_end);
    proof {
        if colon is None {
            assert(session@ =~= v@);
        } else {
            assert(session@ =~= v@.take(session_end as int));
        }
    }
    if session.len() == 0 {
        return Err(concat_str(command, " target requires a session name"));
    }
    if colon.is_none() {
        return Ok(Target::active(string_from_chars(&session)));
    }
    let rest = sub_chars(&v, rest_start, v.len());
    assert(rest@ =~= v@.skip(rest_start as int));
    if rest.len() == 0 {
        return Err(concat_str(command, " target requires a window or pane after ':'"));
    }
    let dot = find_char_index(&rest, '.');
    let window_end = match dot {
        Some(j) => {
            proof {
                lemma_find_char_is(rest@, '.', j as int);
            }
            j
        },
        None => rest.len(),
    };
    let window = sub_chars(&rest, 0, window_end);
    proof {
        if dot is None {
            assert(window@ =~= rest@);
        } else {
            assert(window@ =~= rest@.take(window_end as int));
        }
    }
    if dot.is_none() && !(window[0] == '@') && !(window[0] == '=') && parse_usize_chars(
        &window,
    ).is_none() {
        return Ok(Target::active(String::from_str(value)));
    }
    let wt = if window.len() == 0 {
        WindowTarget::Active
    } else {
        match window_token(&window, command) {
            Ok(w) => w,
            Err(e) => {
                return Err(e);
            },
        }
    };
    match dot {
        None => Ok(Target { session: string_from_chars(&session), window: wt, pane: PaneTarget::Active }),
        Some(j) => {
            let pane = sub_chars(&rest, j + 1, rest.len());
            assert(pane@ =~= rest@.skip(j + 1));
            if pane.len() == 0 {
                return Err(concat_str(command, " target requires a pane after '.'"));
            }
            match pane_token(&pane, command) {
                Ok(p) => Ok(Target { session: string_from_chars(&session), window: wt, pane: p }),
                Err(e) => Err(e),
            }
        },
    }
}


/// `Some` value, or the default.
pub open spec fn or_default(o: Option<Seq<char>>, d: Seq<char>) -> Seq<char> {
    match o {
        Some(v) => v,
        None => d,
    }
}

/// `help [topic]`.
pub open spec fn help_spec(a: Seq<Seq<char>>) -> Result<CommandView, Seq<char>> {
    if a.len() == 0 {
        Ok(CommandView::Help { topic: None })
    } else if a.len() == 1 && (a[0] == "attach"@ || a[0] == "attach-session"@) {
        Ok(CommandView::Help { topic: Some(HelpTopic::Attach) })
    } else if a.len() == 1 {
        Err("unknown help topic "@ + debug_quoted(a[0]))
    } else {
        Err("help accepts at most one topic"@)
    }
}

fn parse_help(args: Vec<String>) -> (r: Result<Command, String>)
    ensures
        cmd_res(r) == help_spec(views(args@)),
{
    if args.len() == 0 {
        Ok(Command::Help { topic: None })
    } else if args.len() == 1 && (arg_is(&args, 0, "attach") || arg_is(&args, 0, "attach-session")) {
        Ok(Command::Help { topic: Some(HelpTopic::Attach) })
    } else if args.len() == 1 {
        Err(concat_str("unknown help topic ", debug_quote(args[0].as_str()).as_str()))
    } else {
        Err(String::from_str("help accepts at most one topic"))
    }
}

/// `new [-d] [-s <name>] [--] [command...]`, from argument `i` on.
pub open spec fn new_from(
    a: Seq<Seq<char>>,
    i: int,
    detach: bool,
    session: Option<Seq<char>>,
) -> Result<CommandView, Seq<char>>
    decreases a.len() - i,
{
    if i >= a.len() {
        Ok(CommandView::New { session: or_default(session, "default"@), detach, command: Seq::empty() })
    } else if a[i] == "-d"@ {
        new_from(a, i + 1, true, session)
    } else if a[i] == "-s"@ {
        if i + 1 < a.len() {
            new_from(a, i + 2, detach, Some(a[i + 1]))
        } else {
            Err("new requires a session name after -s"@)
        }
    } else if a[i] == "--"@ {
        Ok(CommandView::New { session: or_default(session, "default"@), detach, command: a.skip(i + 1) })
    } else if is_opt(a[i]) {
        Err(unsupported_option("new"@, a[i]))
    } else {
        Ok(CommandView::New { session: or_default(session, "default"@), detach, command: a.skip(i) })
    }
}

fn session_or_default(session: Option<String>) -> (r: String)
    ensures
        r@ == or_default(opt_view(session), "default"@),
{
    match session {
        Some(s) => s,
        None => String::from_str("default"),
    }
}

fn parse_new(args: Vec<String>) -> (r: Result<Command, String>)
    ensures
        cmd_res(r) == new_from(views(args@), 0, false, None),
{
    let ghost a = views(args@);
    let mut detach = false;
    let mut session: Option<String> = None;
    let mut i: usize = 0;
    while i < args.len()
        invariant
            i <= args.len(),
            a == views(args@),
            new_from(a, 0, false, None) == new_from(a, i as int, detach, opt_view(session)),
        decreases args.len() - i,
    {
        if arg_is(&args, i, "-d") {
            detach = true;
            i = i + 1;
        } else if arg_is(&args, i, "-s") {
            if i + 1 >= args.len() {
                return Err(String::from_str("new requires a session name after -s"));
            }
            session = Some(args[i + 1].clone());
            i = i + 2;
        } else if arg_is(&args, i, "--") {
            let command = tail_args(&args, i + 1);
            return Ok(Command::New { session: session_or_default(session), detach, command });
        } else if is_option(&args[i]) {
            return Err(unsupported_option_msg("new", args[i].as_str()));
        } else {
            let command = tail_args(&args, i);
            return Ok(Command::New { session: session_or_default(session), detach, command });
        }
    }
    let command: Vec<String> = Vec::new();
    assert(views(command@) =~= Seq::<Seq<char>>::empty());
    Ok(Command::New { session: session_or_default(session), detach, command })
}

/// The session named by `-t`, for commands that take only that (and, for
/// `capture-pane`, the no-op `-p`), from argument `i` on.
pub open spec fn target_arg_from(
    a: Seq<Seq<char>>,
    command: Seq<char>,
    i: int,
    target: Option<Seq<char>>,
) -> Result<Option<Seq<char>>, Seq<char>>
    decreases a.len() - i,
{
    if i >= a.len() {
        Ok(target)
    } else if a[i] == "-t"@ {
        if i + 1 < a.len() {
            target_arg_from(a, command, i + 2, Some(a[i + 1]))
        } else {
            Err(command + " requires a session name after -t"@)
        }
    } else if a[i] == "-p"@ && command == "capture-pane"@ {
        target_arg_from(a, command, i + 1, target)
    } else {
        Err(unsupported_argument(command, a[i]))
    }
}

fn parse_target(args: &Vec<String>, command: &str) -> (r: Result<Option<String>, String>)
    ensures
        opt_str_res(r) == target_arg_from(views(args@), command@, 0, None),
{
    let ghost a = views(args@);
    let mut target: Option<String> = None;
    let mut i: usize = 0;
    while i < args.len()
        invariant
            i <= args.len(),
            a == views(args@),
            target_arg_from(a, command@, 0, None) == target_arg_from(a, command@, i as int, opt_view(target)),
        decreases args.len() - i,
    {
        if arg_is(args, i, "-t") {
            if i + 1 >= args.len() {
                return Err(concat_str(command, " requires a session name after -t"));
            }
            target = Some(args[i + 1].clone());
            i = i + 2;
        } else if arg_is(args, i, "-p") && str_eq(command, "capture-pane") {
            i = i + 1;
        } else {
            return Err(unsupported_argument_msg(command, args[i].as_str()));
        }
    }
    Ok(target)
}

/// `attach [-t <name>]`, or its help with `-h`/`--help` alone.
pub open spec fn attach_spec(a: Seq<Seq<char>>) -> Result<CommandView, Seq<char>> {
    if a.len() == 1 && (a[0] == "-h"@ || a[0] == "--help"@) {
        Ok(CommandView::Help { topic: Some(HelpTopic::Attach) })
    } else {
        match target_arg_from(a, "attach"@, 0, None) {
            Ok(t) => Ok(CommandView::Attach { session: or_default(t, "default"@) }),
            Err(e) => Err(e),
        }
    }
}

fn parse_attach(args: Vec<String>) -> (r: Result<Command, String>)
    ensures
        cmd_res(r) == attach_spec(views(args@)),
{
    if args.len() == 1 && (arg_is(&args, 0, "-h") || arg_is(&args, 0, "--help")) {
        return Ok(Command::Help { topic: Some(HelpTopic::Attach) });
    }
    match parse_target(&args, "attach") {
        Ok(t) => Ok(Command::Attach { session: session_or_default(t) }),
        Err(e) => Err(e),
    }
}

/// `kill-session -t <name>`.
pub open spec fn kill_session_spec(a: Seq<Seq<char>>) -> Result<CommandView, Seq<char>> {
    match target_arg_from(a, "kill-session"@, 0, None) {
        Ok(Some(session)) => Ok(CommandView::KillSession { session }),
        Ok(None) => Err("kill-session requires -t <session>"@),
        Err(e) => Err(e),
    }
}

fn parse_kill_session(args: Vec<String>) -> (r: Result<Command, String>)
    ensures
        cmd_res(r) == kill_session_spec(views(args@)),
{
    match parse_target(&args, "kill-session") {
        Ok(Some(session)) => Ok(Command::KillSession { session }),
        Ok(None) => Err(String::from_str("kill-session requires -t <session>")),
        Err(e) => Err(e),
    }
}

/// `next-window`/`previous-window` (and the tab aliases) `-t <name>`.
pub open spec fn cycle_window_spec(a: Seq<Seq<char>>, name: Seq<char>, next: bool) -> Result<
    CommandView,
    Seq<char>,
> {
    match target_arg_from(a, name, 0, None) {
        Ok(Some(session)) => if next {
            Ok(CommandView::NextWindow { session })
        } else {
            Ok(CommandView::PreviousWindow { session })
        },
        Ok(None) => Err(name + " requires -t <session>"@),
        Err(e) => Err(e),
    }
}

fn parse_cycle_window(args: Vec<String>, name: &str, next: bool) -> (r: Result<Command, String>)
    ensures
        cmd_res(r) == cycle_window_spec(views(args@), name@, next),
{
    match parse_target(&args, name) {
        Ok(Some(session)) => if next {
            Ok(Command::NextWindow { session })
        } else {
            Ok(Command::PreviousWindow { session })
        },
        Ok(None) => Err(concat_str(name, " requires -t <session>")),
        Err(e) => Err(e),
    }
}

/// `ls`/`list-sessions [-F <format>]`, from argument `i` on.
pub open spec fn list_sessions_from(
    a: Seq<Seq<char>>,
    name: Seq<char>,
    i: int,
    format: Option<Seq<char>>,
) -> Result<CommandView, Seq<char>>
    decreases a.len() - i,
{
    if i >= a.len() {
        Ok(CommandView::ListSessions { format })
    } else if a[i] == "-F"@ {
        if i + 1 < a.len() {
            list_sessions_from(a, name, i + 2, Some(a[i + 1]))
        } else {
            Err(name + " requires a format after -F"@)
        }
    } else {
        Err(unsupported_argument(name, a[i]))
    }
}

fn parse_list_sessions(args: Vec<String>, name: &str) -> (r: Result<Command, String>)
    ensures
        cmd_res(r) == list_sessions_from(views(args@), name@, 0, None),
{
    let ghost a = views(args@);
    let mut format: Option<String> = None;
    let mut i: usize = 0;
    while i < args.len()
        invariant
            i <= args.len(),
            a == views(args@),
            list_sessions_from(a, name@, 0, None) == list_sessions_from(a, name@, i as int, opt_view(format)),
        decreases args.len() - i,
    {
        if arg_is(&args, i, "-F") {
            if i + 1 >= args.len() {
                return Err(concat_str(name, " requires a format after -F"));
            }
            format = Some(args[i + 1].clone());
            i = i + 2;
        } else {
            return Err(unsupported_argument_msg(name, args[i].as_str()));
        }
    }
    Ok(Command::ListSessions { format })
}

/// `rename-session -t <name> <new-name>`, from argument `i` on.
pub open spec fn rename_session_from(
    a: Seq<Seq<char>>,
    i: int,
    old_name: Option<Seq<char>>,
    new_name: Option<Seq<char>>,
) -> Result<CommandView, Seq<char>>
    decreases a.len() - i,
{
    if i >= a.len() {
        match new_name {
            None => Err("rename-session requires <new-name>"@),
            Some(n) => if n.len() == 0 {
                Err("rename-session new name cannot be empty"@)
            } else {
                match old_name {
                    None => Err("rename-session requires -t <session>"@),
                    Some(o) => Ok(CommandView::RenameSession { old_name: o, new_name: n }),
                }
            },
        }
    } else if a[i] == "-t"@ {
        if i + 1 < a.len() {
            rename_session_from(a, i + 2, Some(a[i + 1]), new_name)
        } else {
            Err("rename-session requires a session name after -t"@)
        }
    } else if is_opt(a[i]) {
        Err(unsupported_option("rename-session"@, a[i]))
    } else if new_name is Some {
        Err("rename-session accepts exactly one new name"@)
    } else {
        rename_session_from(a, i + 1, old_name, Some(a[i]))
    }
}

fn parse_rename_session(args: Vec<String>) -> (r: Result<Command, String>)
    ensures
        cmd_res(r) == rename_session_from(views(args@), 0, None, None),
{
    let ghost a = views(args@);
    let mut old_name: Option<String> = None;
    let mut new_name: Option<String> = None;
    let mut i: usize = 0;
    while i < args.len()
        invariant
            i <= args.len(),
            a == views(args@),
            rename_session_from(a, 0, None, None) == rename_session_from(
                a,
                i as int,
                opt_view(old_name),
                opt_view(new_name),
            ),
        decreases args.len() - i,
    {
        if arg_is(&args, i, "-t") {
            if i + 1 >= args.len() {
                return Err(String::from_str("rename-session requires a session name after -t"));
            }
            old_name = Some(args[i + 1].clone());
            i = i + 2;
        } else if is_option(&args[i]) {
            return Err(unsupported_option_msg("rename-session", args[i].as_str()));
        } else if new_name.is_some() {
            return Err(String::from_str("rename-session accepts exactly one new name"));
        } else {
            new_name = Some(args[i].clone());
            i = i + 1;
        }
    }
    match new_name {
        None => Err(String::from_str("rename-session requires <new-name>")),
        Some(n) => {
            if n.as_str().unicode_len() == 0 {
                return Err(String::from_str("rename-session new name cannot be empty"));
            }
            match old_name {
                None => Err(String::from_str("rename-session requires -t <session>")),
                Some(o) => Ok(Command::RenameSession { old_name: o, new_name: n }),
            }
        },
    }
}

/// A command that takes `-t <session>` and a second text option `flag`
/// (such as `-F <format>`), from argument `i` on: the two values found.
pub open spec fn two_values_from(
    a: Seq<Seq<char>>,
    name: Seq<char>,
    flag: Seq<char>,
    flag_missing: Seq<char>,
    i: int,
    session: Option<Seq<char>>,
    value: Option<Seq<char>>,
) -> Result<(Option<Seq<char>>, Option<Seq<char>>), Seq<char>>
    decreases a.len() - i,
{
    if i >= a.len() {
        Ok((session, value))
    } else if a[i] == "-t"@ {
        if i + 1 < a.len() {
            two_values_from(a, name, flag, flag_missing, i + 2, Some(a[i + 1]), value)
        } else {
            Err(name + " requires a session name after -t"@)
        }
    } else if a[i] == flag {
        if i + 1 < a.len() {
            two_values_from(a, name, flag, flag_missing, i + 2, session, Some(a[i + 1]))
        } else {
            Err(flag_missing)
        }
    } else {
        Err(unsupported_argument(name, a[i]))
    }
}

fn parse_two_values(args: &Vec<String>, name: &str, flag: &str, flag_missing: &str) -> (r: Result<
    (Option<String>, Option<String>),
    String,
>)
    ensures
        match two_values_from(views(args@), name@, flag@, flag_missing@, 0, None, None) {
            Ok((s, v)) => r matches Ok((rs, rv)) && opt_view(rs) == s && opt_view(rv) == v,
            Err(e) => r matches Err(m) && m@ == e,
        },
{
    let ghost a = views(args@);
    let mut session: Option<String> = None;
    let mut value: Option<String> = None;
    let mut i: usize = 0;
    while i < args.len()
        invariant
            i <= args.len(),
            a == views(args@),
            two_values_from(a, name@, flag@, flag_missing@, 0, None, None) == two_values_from(
                a,
                name@,
                flag@,
                flag_missing@,
                i as int,
                opt_view(session),
                opt_view(value),
            ),
        decreases args.len() - i,
    {
        if arg_is(args, i, "-t") {
            if i + 1 >= args.len() {
                return Err(concat_str(name, " requires a session name after -t"));
            }
            session = Some(args[i + 1].clone());
            i = i + 2;
        } else if str_eq(args[i].as_str(), flag) {
            if i + 1 >= args.len() {
                return Err(String::from_str(flag_missing));
            }
            value = Some(args[i + 1].clone());
            i = i + 2;
        } else {
            return Err(unsupported_argument_msg(name, args[i].as_str()));
        }
    }
    Ok((session, value))
}

/// `list-clients [-t <session>] [-F <format>]`.
pub open spec fn list_clients_spec(a: Seq<Seq<char>>) -> Result<CommandView, Seq<char>> {
    match two_values_from(a, "list-clients"@, "-F"@, "list-clients requires a format after -F"@, 0, None, None) {
        Ok((session, format)) => Ok(CommandView::ListClients { session, format }),
        Err(e) => Err(e),
    }
}

fn parse_list_clients(args: Vec<String>) -> (r: Result<Command, String>)
    ensures
        cmd_res(r) == list_clients_spec(views(args@)),
{
    match parse_two_values(&args, "list-clients", "-F", "list-clients requires a format after -F") {
        Ok((session, format)) => Ok(Command::ListClients { session, format }),
        Err(e) => Err(e),
    }
}

/// `status-line -t <session> [-F <format>]`.
pub open spec fn status_line_spec(a: Seq<Seq<char>>) -> Result<CommandView, Seq<char>> {
    match two_values_from(a, "status-line"@, "-F"@, "status-line requires a format after -F"@, 0, None, None) {
        Ok((Some(session), format)) => Ok(CommandView::StatusLine { session, format }),
        Ok((None, _)) => Err("status-line requires -t <session>"@),
        Err(e) => Err(e),
    }
}

fn parse_status_line(args: Vec<String>) -> (r: Result<Command, String>)
    ensures
        cmd_res(r) == status_line_spec(views(args@)),
{
    match parse_two_values(&args, "status-line", "-F", "status-line requires a format after -F") {
        Ok((Some(session), format)) => Ok(Command::StatusLine { session, format }),
        Ok((None, _)) => Err(String::from_str("status-line requires -t <session>")),
        Err(e) => Err(e),
    }
}

/// `display-message -t <session> -p <format>`.
pub open spec fn display_message_spec(a: Seq<Seq<char>>) -> Result<CommandView, Seq<char>> {
    match two_values_from(
        a,
        "display-message"@,
        "-p"@,
        "display-message requires a format after -p"@,
        0,
        None,
        None,
    ) {
        Ok((Some(session), Some(format))) => Ok(CommandView::DisplayMessage { session, format }),
        Ok((None, _)) => Err("display-message requires -t <session>"@),
        Ok((Some(_), None)) => Err("display-message requires -p <format>"@),
        Err(e) => Err(e),
    }
}

fn parse_display_message(args: Vec<String>) -> (r: Result<Command, String>)
    ensures
        cmd_res(r) == display_message_spec(views(args@)),
{
    match parse_two_values(&args, "display-message", "-p", "display-message requires a format after -p") {
        Ok((Some(session), Some(format))) => Ok(Command::DisplayMessage { session, format }),
        Ok((None, _)) => Err(String::from_str("display-message requires -t <session>")),
        Ok((Some(_), None)) => Err(String::from_str("display-message requires -p <format>")),
        Err(e) => Err(e),
    }
}

/// `list-windows`/`list-tabs -t <session> [-F <format>]`.
pub open spec fn list_windows_spec(a: Seq<Seq<char>>, name: Seq<char>) -> Result<CommandView, Seq<char>> {
    match two_values_from(a, name, "-F"@, name + " requires a format after -F"@, 0, None, None) {
        Ok((Some(session), format)) => Ok(CommandView::ListWindows { session, format }),
        Ok((None, _)) => Err(name + " requires -t <session>"@),
        Err(e) => Err(e),
    }
}

fn parse_list_windows(args: Vec<String>, name: &str) -> (r: Result<Command, String>)
    ensures
        cmd_res(r) == list_windows_spec(views(args@), name@),
{
    let missing = concat_str(name, " requires a format after -F");
    match parse_two_values(&args, name, "-F", missing.as_str()) {
        Ok((Some(session), format)) => Ok(Command::ListWindows { session, format }),
        Ok((None, _)) => Err(concat_str(name, " requires -t <session>")),
        Err(e) => Err(e),
    }
}

/// `detach-client [-t <session>] [-c <client-id>]`, from argument `i` on.
pub open spec fn detach_client_from(
    a: Seq<Seq<char>>,
    i: int,
    session: Option<Seq<char>>,
    client_id: Option<usize>,
) -> Result<CommandView, Seq<char>>
    decreases a.len() - i,
{
    if i >= a.len() {
        if session is None && client_id is None {
            Err("detach-client requires -t <session> or -c <client-id>"@)
        } else {
            Ok(CommandView::DetachClient { session, client_id })
        }
    } else if a[i] == "-t"@ {
        if i + 1 < a.len() {
            detach_client_from(a, i + 2, Some(a[i + 1]), client_id)
        } else {
            Err("detach-client requires a session name after -t"@)
        }
    } else if a[i] == "-c"@ {
        if i + 1 < a.len() {
            match parse_unsigned(a[i + 1], usize::MAX as nat) {
                Some(n) => detach_client_from(a, i + 2, session, Some(n as usize)),
                None => Err("detach-client -c must be a non-negative integer"@),
            }
        } else {
            Err("detach-client requires a client id after -c"@)
        }
    } else {
        Err(unsupported_argument("detach-client"@, a[i]))
    }
}

fn parse_usize_arg(s: &String) -> (r: Option<usize>)
    ensures
        match parse_unsigned(s@, usize::MAX as nat) {
            Some(n) => r == Some(n as usize),
            None => r is None,
        },
{
    let v = chars_of(s.as_str());
    parse_usize_chars(&v)
}

fn parse_detach_client(args: Vec<String>) -> (r: Result<Command, String>)
    ensures
        cmd_res(r) == detach_client_from(views(args@), 0, None, None),
{
    let ghost a = views(args@);
    let mut session: Option<String> = None;
    let mut client_id: Option<usize> = None;
    let mut i: usize = 0;
    while i < args.len()
        invariant
            i <= args.len(),
            a == views(args@),
            detach_client_from(a, 0, None, None) == detach_client_from(
                a,
                i as int,
                opt_view(session),
                client_id,
            ),
        decreases args.len() - i,
    {
        if arg_is(&args, i, "-t") {
            if i + 1 >= args.len() {
                return Err(String::from_str("detach-client requires a session name after -t"));
            }
            session = Some(args[i + 1].clone());
            i = i + 2;
        } else if arg_is(&args, i, "-c") {
            if i + 1 >= args.len() {
                return Err(String::from_str("detach-client requires a client id after -c"));
            }
            match parse_usize_arg(&args[i + 1]) {
                Some(n) => {
                    client_id = Some(n);
                },
                None => {
                    return Err(String::from_str("detach-client -c must be a non-negative integer"));
                },
            }
            i = i + 2;
        } else {
            return Err(unsupported_argument_msg("detach-client", args[i].as_str()));
        }
    }
    if session.is_none() && client_id.is_none() {
        return Err(String::from_str("detach-client requires -t <session> or -c <client-id>"));
    }
    Ok(Command::DetachClient { session, client_id })
}


/// The arguments joined with single spaces.
fn join_strings(args: &Vec<String>) -> (r: String)
    ensures
        r@ == crate::text::join(views(args@), ' '),
{
    let ghost a = views(args@);
    let mut out = String::new();
    let mut k: usize = 0;
    assert(a.take(0) =~= Seq::<Seq<char>>::empty());
    while k < args.len()
        invariant
            k <= args.len(),
            a == views(args@),
            out@ == crate::text::join(a.take(k as int), ' '),
        decreases args.len() - k,
    {
        proof {
            assert(a.take(k + 1).drop_last() =~= a.take(k as int));
            assert(a.take(k + 1).last() == args@[k as int]@);
        }
        if k > 0 {
            crate::text::push_char(&mut out, ' ');
        } else {
            assert(a.take(1) =~= seq![args@[0]@]);
            assert(out@ =~= Seq::<char>::empty());
        }
        out = concat_str(out.as_str(), args[k].as_str());
        proof {
            if k == 0 {
                assert(out@ =~= args@[0]@);
            }
        }
        k = k + 1;
    }
    assert(a.take(k as int) =~= a);
    out
}

fn is_blank(s: &String) -> (r: bool)
    ensures
        r == (crate::text::trim(s@).len() == 0),
{
    let v = chars_of(s.as_str());
    let t = crate::text::trim_chars(&v);
    t.len() == 0
}

/// `run <command; command...>`: the arguments joined into one sequence.
pub open spec fn run_spec(a: Seq<Seq<char>>) -> Result<CommandView, Seq<char>> {
    let sequence = crate::text::join(a, ' ');
    if crate::text::trim(sequence).len() == 0 {
        Err("run requires a command sequence"@)
    } else {
        Ok(CommandView::Run { sequence })
    }
}

fn parse_run(args: Vec<String>) -> (r: Result<Command, String>)
    ensures
        cmd_res(r) == run_spec(views(args@)),
{
    let sequence = join_strings(&args);
    if is_blank(&sequence) {
        return Err(String::from_str("run requires a command sequence"));
    }
    Ok(Command::Run { sequence })
}

/// `run-shell <shell-command>`: the arguments joined into one command.
pub open spec fn run_shell_spec(a: Seq<Seq<char>>) -> Result<CommandView, Seq<char>> {
    let command = crate::text::join(a, ' ');
    if crate::text::trim(command).len() == 0 {
        Err("run-shell requires a shell command"@)
    } else {
        Ok(CommandView::RunShell { command })
    }
}

fn parse_run_shell(args: Vec<String>) -> (r: Result<Command, String>)
    ensures
        cmd_res(r) == run_shell_spec(views(args@)),
{
    let command = join_strings(&args);
    if is_blank(&command) {
        return Err(String::from_str("run-shell requires a shell command"));
    }
    Ok(Command::RunShell { command })
}

/// `source-file <path>`.
pub open spec fn source_file_spec(a: Seq<Seq<char>>) -> Result<CommandView, Seq<char>> {
    if a.len() == 1 {
        Ok(CommandView::SourceFile { path: a[0] })
    } else if a.len() == 0 {
        Err("source-file requires a path"@)
    } else {
        Err("source-file accepts exactly one path"@)
    }
}

fn parse_source_file(args: Vec<String>) -> (r: Result<Command, String>)
    ensures
        cmd_res(r) == source_file_spec(views(args@)),
{
    if args.len() == 1 {
        Ok(Command::SourceFile { path: args[0].clone() })
    } else if args.len() == 0 {
        Err(String::from_str("source-file requires a path"))
    } else {
        Err(String::from_str("source-file accepts exactly one path"))
    }
}

/// `bind-key <key> <action...>`: the key in canonical spelling and the
/// action checked and normalised.
pub open spec fn bind_key_spec(a: Seq<Seq<char>>) -> Result<CommandView, Seq<char>> {
    if a.len() == 0 {
        Err("bind-key requires a key and command"@)
    } else {
        match crate::config::canonical_key_spec(a[0]) {
            Err(e) => Err(e),
            Ok(key) => match crate::config::binding_command_spec(crate::text::join(a.skip(1), ' ')) {
                Err(e) => Err(e),
                Ok(command) => Ok(CommandView::BindKey { key, command }),
            },
        }
    }
}

fn parse_bind_key(args: Vec<String>) -> (r: Result<Command, String>)
    ensures
        cmd_res(r) == bind_key_spec(views(args@)),
{
    if args.len() == 0 {
        return Err(String::from_str("bind-key requires a key and command"));
    }
    let key = match crate::config::canonical_key(args[0].as_str()) {
        Ok(k) => k,
        Err(e) => {
            return Err(e);
        },
    };
    let rest = tail_args(&args, 1);
    let joined = join_strings(&rest);
    match crate::config::validate_binding_command(joined.as_str()) {
        Ok(command) => Ok(Command::BindKey { key, command }),
        Err(e) => Err(e),
    }
}

/// `unbind-key <key>`.
pub open spec fn unbind_key_spec(a: Seq<Seq<char>>) -> Result<CommandView, Seq<char>> {
    if a.len() == 1 {
        match crate::config::canonical_key_spec(a[0]) {
            Ok(key) => Ok(CommandView::UnbindKey { key }),
            Err(e) => Err(e),
        }
    } else if a.len() == 0 {
        Err("unbind-key requires a key"@)
    } else {
        Err("unbind-key accepts exactly one key"@)
    }
}

fn parse_unbind_key(args: Vec<String>) -> (r: Result<Command, String>)
    ensures
        cmd_res(r) == unbind_key_spec(views(args@)),
{
    if args.len() == 1 {
        match crate::config::canonical_key(args[0].as_str()) {
            Ok(key) => Ok(Command::UnbindKey { key }),
            Err(e) => Err(e),
        }
    } else if args.len() == 0 {
        Err(String::from_str("unbind-key requires a key"))
    } else {
        Err(String::from_str("unbind-key accepts exactly one key"))
    }
}

/// `set-option <name> <value>`.
pub open spec fn set_option_spec(a: Seq<Seq<char>>) -> Result<CommandView, Seq<char>> {
    if a.len() == 2 {
        match crate::config::option_value_spec(a[0], a[1]) {
            Ok(value) => Ok(CommandView::SetOption { name: a[0], value }),
            Err(e) => Err(e),
        }
    } else if a.len() < 2 {
        Err("set-option requires an option name and value"@)
    } else {
        Err("set-option accepts exactly an option name and value"@)
    }
}

fn parse_set_option(args: Vec<String>) -> (r: Result<Command, String>)
    ensures
        cmd_res(r) == set_option_spec(views(args@)),
{
    if args.len() == 2 {
        match crate::config::validate_option_value(args[0].as_str(), args[1].as_str()) {
            Ok(value) => Ok(Command::SetOption { name: args[0].clone(), value }),
            Err(e) => Err(e),
        }
    } else if args.len() < 2 {
        Err(String::from_str("set-option requires an option name and value"))
    } else {
        Err(String::from_str("set-option accepts exactly an option name and value"))
    }
}

/// An optional `-F`/`--format <format>`, from argument `i` on.
pub open spec fn optional_format_from(
    a: Seq<Seq<char>>,
    name: Seq<char>,
    i: int,
    format: Option<Seq<char>>,
) -> Result<Option<Seq<char>>, Seq<char>>
    decreases a.len() - i,
{
    if i >= a.len() {
        Ok(format)
    } else if a[i] == "-F"@ || a[i] == "--format"@ {
        if i + 1 < a.len() {
            optional_format_from(a, name, i + 2, Some(a[i + 1]))
        } else {
            Err(name + " requires a format after "@ + a[i])
        }
    } else {
        Err(unsupported_argument(name, a[i]))
    }
}

fn parse_optional_format(args: &Vec<String>, name: &str) -> (r: Result<Option<String>, String>)
    ensures
        opt_str_res(r) == optional_format_from(views(args@), name@, 0, None),
{
    let ghost a = views(args@);
    let mut format: Option<String> = None;
    let mut i: usize = 0;
    while i < args.len()
        invariant
            i <= args.len(),
            a == views(args@),
            optional_format_from(a, name@, 0, None) == optional_format_from(a, name@, i as int, opt_view(format)),
        decreases args.len() - i,
    {
        if arg_is(args, i, "-F") || arg_is(args, i, "--format") {
            if i + 1 >= args.len() {
                let head = concat_str(name, " requires a format after ");
                return Err(concat_str(head.as_str(), args[i].as_str()));
            }
            format = Some(args[i + 1].clone());
            i = i + 2;
        } else {
            return Err(unsupported_argument_msg(name, args[i].as_str()));
        }
    }
    Ok(format)
}

/// `list-keys [-F <format>]`.
pub open spec fn list_keys_spec(a: Seq<Seq<char>>) -> Result<CommandView, Seq<char>> {
    match optional_format_from(a, "list-keys"@, 0, None) {
        Ok(format) => Ok(CommandView::ListKeys { format }),
        Err(e) => Err(e),
    }
}

fn parse_list_keys(args: Vec<String>) -> (r: Result<Command, String>)
    ensures
        cmd_res(r) == list_keys_spec(views(args@)),
{
    match parse_optional_format(&args, "list-keys") {
        Ok(format) => Ok(Command::ListKeys { format }),
        Err(e) => Err(e),
    }
}

/// `show-options [-F <format>]`.
pub open spec fn show_options_spec(a: Seq<Seq<char>>) -> Result<CommandView, Seq<char>> {
    match optional_format_from(a, "show-options"@, 0, None) {
        Ok(format) => Ok(CommandView::ShowOptions { format }),
        Err(e) => Err(e),
    }
}

fn parse_show_options(args: Vec<String>) -> (r: Result<Command, String>)
    ensures
        cmd_res(r) == show_options_spec(views(args@)),
{
    match parse_optional_format(&args, "show-options") {
        Ok(format) => Ok(Command::ShowOptions { format }),
        Err(e) => Err(e),
    }
}

/// `list-buffers [-F|--format <format>]`, from argument `i` on.
pub open spec fn list_buffers_from(a: Seq<Seq<char>>, i: int, format: Option<Seq<char>>) -> Result<
    CommandView,
    Seq<char>,
>
    decreases a.len() - i,
{
    if i >= a.len() {
        Ok(CommandView::ListBuffers { format })
    } else if a[i] == "-F"@ || a[i] == "--format"@ {
        if i + 1 < a.len() {
            list_buffers_from(a, i + 2, Some(a[i + 1]))
        } else {
            Err("list-buffers requires a format after --format"@)
        }
    } else {
        Err(unsupported_argument("list-buffers"@, a[i]))
    }
}

fn parse_list_buffers(args: Vec<String>) -> (r: Result<Command, String>)
    ensures
        cmd_res(r) == list_buffers_from(views(args@), 0, None),
{
    let ghost a = views(args@);
    let mut format: Option<String> = None;
    let mut i: usize = 0;
    while i < args.len()
        invariant
            i <= args.len(),
            a == views(args@),
            list_buffers_from(a, 0, None) == list_buffers_from(a, i as int, opt_view(format)),
        decreases args.len() - i,
    {
        if arg_is(&args, i, "-F") || arg_is(&args, i, "--format") {
            if i + 1 >= args.len() {
                return Err(String::from_str("list-buffers requires a format after --format"));
            }
            format = Some(args[i + 1].clone());
            i = i + 2;
        } else {
            return Err(unsupported_argument_msg("list-buffers", args[i].as_str()));
        }
    }
    Ok(Command::ListBuffers { format })
}

/// A buffer name given with `-b`: it must not be empty.
pub open spec fn buffer_name_spec(value: Seq<char>, command: Seq<char>) -> Result<Seq<char>, Seq<char>> {
    if value.len() == 0 {
        Err(command + " -b requires a non-empty buffer name"@)
    } else {
        Ok(value)
    }
}

/// `delete-buffer -b <buffer>`, from argument `i` on.
pub open spec fn delete_buffer_from(a: Seq<Seq<char>>, i: int, buffer: Option<Seq<char>>) -> Result<
    CommandView,
    Seq<char>,
>
    decreases a.len() - i,
{
    if i >= a.len() {
        match buffer {
            Some(b) => Ok(CommandView::DeleteBuffer { buffer: b }),
            None => Err("delete-buffer requires -b <buffer>"@),
        }
    } else if a[i] == "-b"@ {
        if i + 1 < a.len() {
            match buffer_name_spec(a[i + 1], "delete-buffer"@) {
                Ok(b) => delete_buffer_from(a, i + 2, Some(b)),
                Err(e) => Err(e),
            }
        } else {
            Err("delete-buffer requires a buffer name after -b"@)
        }
    } else {
        Err(unsupported_argument("delete-buffer"@, a[i]))
    }
}

fn parse_buffer_name(value: &String, command: &str) -> (r: Result<String, String>)
    ensures
        match buffer_name_spec(value@, command@) {
            Ok(b) => r matches Ok(s) && s@ == b,
            Err(e) => r matches Err(m) && m@ == e,
        },
{
    if value.as_str().unicode_len() == 0 {
        Err(concat_str(command, " -b requires a non-empty buffer name"))
    } else {
        Ok(value.clone())
    }
}

fn parse_delete_buffer(args: Vec<String>) -> (r: Result<Command, String>)
    ensures
        cmd_res(r) == delete_buffer_from(views(args@), 0, None),
{
    let ghost a = views(args@);
    let mut buffer: Option<String> = None;
    let mut i: usize = 0;
    while i < args.len()
        invariant
            i <= args.len(),
            a == views(args@),
            delete_buffer_from(a, 0, None) == delete_buffer_from(a, i as int, opt_view(buffer)),
        decreases args.len() - i,
    {
        if arg_is(&args, i, "-b") {
            if i + 1 >= args.len() {
                return Err(String::from_str("delete-buffer requires a buffer name after -b"));
            }
            match parse_buffer_name(&args[i + 1], "delete-buffer") {
                Ok(b) => {
                    buffer = Some(b);
                },
                Err(e) => {
                    return Err(e);
                },
            }
            i = i + 2;
        } else {
            return Err(unsupported_argument_msg("delete-buffer", args[i].as_str()));
        }
    }
    match buffer {
        Some(b) => Ok(Command::DeleteBuffer { buffer: b }),
        None => Err(String::from_str("delete-buffer requires -b <buffer>")),
    }
}

/// `new-window`/`new-tab -t <session> [--] [command...]`, from argument `i`
/// on.
pub open spec fn new_window_from(a: Seq<Seq<char>>, name: Seq<char>, i: int, session: Option<Seq<char>>) -> Result<
    CommandView,
    Seq<char>,
>
    decreases a.len() - i,
{
    if i >= a.len() {
        match session {
            Some(s) => Ok(CommandView::NewWindow { session: s, command: Seq::empty() }),
            None => Err(name + " requires -t <session>"@),
        }
    } else if a[i] == "-t"@ {
        if i + 1 < a.len() {
            new_window_from(a, name, i + 2, Some(a[i + 1]))
        } else {
            Err(name + " requires a session name after -t"@)
        }
    } else if a[i] == "--"@ {
        match session {
            Some(s) => Ok(CommandView::NewWindow { session: s, command: a.skip(i + 1) }),
            None => Err(name + " requires -t <session>"@),
        }
    } else if is_opt(a[i]) {
        Err(unsupported_option(name, a[i]))
    } else {
        match session {
            Some(s) => Ok(CommandView::NewWindow { session: s, command: a.skip(i) }),
            None => Err(name + " requires -t <session>"@),
        }
    }
}

fn finish_new_window(session: Option<String>, command: Vec<String>, name: &str) -> (r: Result<
    Command,
    String,
>)
    ensures
        cmd_res(r) == match opt_view(session) {
            Some(s) => Ok(CommandView::NewWindow { session: s, command: views(command@) }),
            None => Err(name@ + " requires -t <session>"@),
        },
{
    match session {
        Some(s) => Ok(Command::NewWindow { session: s, command }),
        None => Err(concat_str(name, " requires -t <session>")),
    }
}

fn parse_new_window(args: Vec<String>, name: &str) -> (r: Result<Command, String>)
    ensures
        cmd_res(r) == new_window_from(views(args@), name@, 0, None),
{
    let ghost a = views(args@);
    let mut session: Option<String> = None;
    let mut i: usize = 0;
    while i < args.len()
        invariant
            i <= args.len(),
            a == views(args@),
            new_window_from(a, name@, 0, None) == new_window_from(a, name@, i as int, opt_view(session)),
        decreases args.len() - i,
    {
        if arg_is(&args, i, "-t") {
            if i + 1 >= args.len() {
                return Err(concat_str(name, " requires a session name after -t"));
            }
            session = Some(args[i + 1].clone());
            i = i + 2;
        } else if arg_is(&args, i, "--") {
            let command = tail_args(&args, i + 1);
            return finish_new_window(session, command, name);
        } else if is_option(&args[i]) {
            return Err(unsupported_option_msg(name, args[i].as_str()));
        } else {
            let command = tail_args(&args, i);
            return finish_new_window(session, command, name);
        }
    }
    let command: Vec<String> = Vec::new();
    assert(views(command@) =~= Seq::<Seq<char>>::empty());
    finish_new_window(session, command, name)
}


/// An optional target with its text as characters.
pub open spec fn opt_target(o: Option<Target>) -> Option<TargetView> {
    match o {
        Some(t) => Some(t@),
        None => None,
    }
}

/// A line number given to `--start-line`/`--end-line`: a non-zero
/// integer.
pub open spec fn line_offset_spec(value: Seq<char>, label: Seq<char>) -> Result<isize, Seq<char>> {
    match crate::text::parse_isize_spec(value) {
        Some(n) => if n != 0 {
            Ok(n as isize)
        } else {
            Err(label + " must be a non-zero integer"@)
        },
        None => Err(label + " must be a non-zero integer"@),
    }
}

/// A count given to `--match` and the like: a positive integer.
pub open spec fn positive_spec(value: Seq<char>, label: Seq<char>) -> Result<usize, Seq<char>> {
    match parse_unsigned(value, usize::MAX as nat) {
        Some(n) => if n > 0 {
            Ok(n as usize)
        } else {
            Err(label + " must be a positive integer"@)
        },
        None => Err(label + " must be a positive integer"@),
    }
}

fn parse_line_offset(value: &String, label: &str) -> (r: Result<isize, String>)
    ensures
        match line_offset_spec(value@, label@) {
            Ok(n) => r == Ok::<isize, String>(n),
            Err(e) => r matches Err(m) && m@ == e,
        },
{
    let v = chars_of(value.as_str());
    match crate::text::parse_isize_chars(&v) {
        Some(n) => if n != 0 {
            Ok(n)
        } else {
            Err(concat_str(label, " must be a non-zero integer"))
        },
        None => Err(concat_str(label, " must be a non-zero integer")),
    }
}

fn parse_positive_usize(value: &String, label: &str) -> (r: Result<usize, String>)
    ensures
        match positive_spec(value@, label@) {
            Ok(n) => r == Ok::<usize, String>(n),
            Err(e) => r matches Err(m) && m@ == e,
        },
{
    match parse_usize_arg(value) {
        Some(n) => if n > 0 {
            Ok(n)
        } else {
            Err(concat_str(label, " must be a positive integer"))
        },
        None => Err(concat_str(label, " must be a positive integer")),
    }
}

/// The commands that capture pane text.
#[derive(Clone, Copy, PartialEq, Eq, Structural)]
pub enum CaptureKind {
    Capture,
    Save,
    Copy,
}

/// The name of a capturing command.
pub open spec fn capture_name(kind: CaptureKind) -> Seq<char> {
    match kind {
        CaptureKind::Capture => "capture-pane"@,
        CaptureKind::Save => "save-buffer"@,
        CaptureKind::Copy => "copy-mode"@,
    }
}

fn capture_kind_name(kind: CaptureKind) -> (r: &'static str)
    ensures
        r@ == capture_name(kind),
{
    match kind {
        CaptureKind::Capture => "capture-pane",
        CaptureKind::Save => "save-buffer",
        CaptureKind::Copy => "copy-mode",
    }
}

/// The options gathered by a capturing command.
pub struct CaptureOpts {
    pub target: Option<TargetView>,
    pub session: Option<Seq<char>>,
    pub buffer: Option<Seq<char>>,
    pub mode: Option<CaptureMode>,
    pub start: Option<isize>,
    pub end: Option<isize>,
    pub search: Option<Seq<char>>,
    pub match_index: Option<usize>,
}

/// No options gathered yet.
pub open spec fn no_capture_opts() -> CaptureOpts {
    CaptureOpts {
        target: None,
        session: None,
        buffer: None,
        mode: None,
        start: None,
        end: None,
        search: None,
        match_index: None,
    }
}

/// The capture mode an option names.
pub open spec fn mode_option(s: Seq<char>) -> Option<CaptureMode> {
    if s == "--screen"@ {
        Some(CaptureMode::Screen)
    } else if s == "--history"@ {
        Some(CaptureMode::History)
    } else if s == "--all"@ {
        Some(CaptureMode::All)
    } else {
        None
    }
}

/// The options of a capturing command, from argument `i` on: `-t` (a
/// target, or a session for `copy-mode`), `-p` (capture only, ignored),
/// `-b <buffer>` (save only), one capture mode, a line range (not for
/// `copy-mode`), `--search <text>` and `--match <n>`.
pub open spec fn capture_from(a: Seq<Seq<char>>, kind: CaptureKind, i: int, o: CaptureOpts) -> Result<
    CaptureOpts,
    Seq<char>,
>
    decreases a.len() - i,
{
    let name = capture_name(kind);
    if i >= a.len() {
        Ok(o)
    } else if a[i] == "-t"@ {
        if i + 1 >= a.len() {
            Err(name + " requires a session name after -t"@)
        } else if kind == CaptureKind::Copy {
            capture_from(a, kind, i + 2, CaptureOpts { session: Some(a[i + 1]), ..o })
        } else {
            match cli_target_spec(a[i + 1], name) {
                Ok(t) => capture_from(a, kind, i + 2, CaptureOpts { target: Some(t), ..o }),
                Err(e) => Err(e),
            }
        }
    } else if a[i] == "-p"@ && kind == CaptureKind::Capture {
        capture_from(a, kind, i + 1, o)
    } else if a[i] == "-b"@ && kind == CaptureKind::Save {
        if i + 1 >= a.len() {
            Err(name + " requires a buffer name after -b"@)
        } else {
            match buffer_name_spec(a[i + 1], name) {
                Ok(b) => capture_from(a, kind, i + 2, CaptureOpts { buffer: Some(b), ..o }),
                Err(e) => Err(e),
            }
        }
    } else if mode_option(a[i]) is Some {
        if o.mode is Some {
            Err("only one capture mode may be supplied"@)
        } else {
            capture_from(a, kind, i + 1, CaptureOpts { mode: mode_option(a[i]), ..o })
        }
    } else if a[i] == "--start-line"@ && kind != CaptureKind::Copy {
        if i + 1 >= a.len() {
            Err(name + " requires a line number after --start-line"@)
        } else {
            match line_offset_spec(a[i + 1], name + " --start-line"@) {
                Ok(n) => capture_from(a, kind, i + 2, CaptureOpts { start: Some(n), ..o }),
                Err(e) => Err(e),
            }
        }
    } else if a[i] == "--end-line"@ && kind != CaptureKind::Copy {
        if i + 1 >= a.len() {
            Err(name + " requires a line number after --end-line"@)
        } else {
            match line_offset_spec(a[i + 1], name + " --end-line"@) {
                Ok(n) => capture_from(a, kind, i + 2, CaptureOpts { end: Some(n), ..o }),
                Err(e) => Err(e),
            }
        }
    } else if a[i] == "--search"@ {
        if i + 1 >= a.len() {
            Err(name + " requires text after --search"@)
        } else if a[i + 1].len() == 0 {
            Err(name + " --search requires non-empty text"@)
        } else {
            capture_from(a, kind, i + 2, CaptureOpts { search: Some(a[i + 1]), ..o })
        }
    } else if a[i] == "--match"@ {
        if i + 1 >= a.len() {
            Err(name + " requires a match index after --match"@)
        } else {
            match positive_spec(a[i + 1], name + " --match"@) {
                Ok(n) => capture_from(a, kind, i + 2, CaptureOpts { match_index: Some(n), ..o }),
                Err(e) => Err(e),
            }
        }
    } else {
        Err(unsupported_argument(name, a[i]))
    }
}

struct CaptureArgs {
    target: Option<Target>,
    session: Option<String>,
    buffer: Option<String>,
    mode: Option<CaptureMode>,
    start: Option<isize>,
    end: Option<isize>,
    search: Option<String>,
    match_index: Option<usize>,
}

impl View for CaptureArgs {
    type V = CaptureOpts;

    closed spec fn view(&self) -> CaptureOpts {
        CaptureOpts {
            target: opt_target(self.target),
            session: opt_view(self.session),
            buffer: opt_view(self.buffer),
            mode: self.mode,
            start: self.start,
            end: self.end,
            search: opt_view(self.search),
            match_index: self.match_index,
        }
    }
}

fn mode_option_of(s: &String) -> (r: Option<CaptureMode>)
    ensures
        r == mode_option(s@),
{
    if str_eq(s.as_str(), "--screen") {
        Some(CaptureMode::Screen)
    } else if str_eq(s.as_str(), "--history") {
        Some(CaptureMode::History)
    } else if str_eq(s.as_str(), "--all") {
        Some(CaptureMode::All)
    } else {
        None
    }
}

#[verifier::rlimit(40)]
fn scan_capture(args: &Vec<String>, kind: CaptureKind) -> (r: Result<CaptureArgs, String>)
    ensures
        match capture_from(views(args@), kind, 0, no_capture_opts()) {
            Ok(o) => r matches Ok(c) && c@ == o,
            Err(e) => r matches Err(m) && m@ == e,
        },
{
    let ghost a = views(args@);
    let name = capture_kind_name(kind);
    let mut c = CaptureArgs {
        target: None,
        session: None,
        buffer: None,
        mode: None,
        start: None,
        end: None,
        search: None,
        match_index: None,
    };
    let mut i: usize = 0;
    while i < args.len()
        invariant
            i <= args.len(),
            a == views(args@),
            name@ == capture_name(kind),
            capture_from(a, kind, 0, no_capture_opts()) == capture_from(a, kind, i as int, c@),
        decreases args.len() - i,
    {
        let mode = mode_option_of(&args[i]);
        if arg_is(args, i, "-t") {
            if i + 1 >= args.len() {
                return Err(concat_str(name, " requires a session name after -t"));
            }
            match kind {
                CaptureKind::Copy => {
                    c.session = Some(args[i + 1].clone());
                },
                _ => {
                    match parse_structured_target(args[i + 1].as_str(), name) {
                        Ok(t) => {
                            c.target = Some(t);
                        },
                        Err(e) => {
                            return Err(e);
                        },
                    }
                },
            }
            i = i + 2;
        } else if arg_is(args, i, "-p") && kind == CaptureKind::Capture {
            i = i + 1;
        } else if arg_is(args, i, "-b") && kind == CaptureKind::Save {
            if i + 1 >= args.len() {
                return Err(concat_str(name, " requires a buffer name after -b"));
            }
            match parse_buffer_name(&args[i + 1], name) {
                Ok(b) => {
                    c.buffer = Some(b);
                },
                Err(e) => {
                    return Err(e);
                },
            }
            i = i + 2;
        } else if mode.is_some() {
            if c.mode.is_some() {
                return Err(String::from_str("only one capture mode may be supplied"));
            }
            c.mode = mode;
            i = i + 1;
        } else if arg_is(args, i, "--start-line") && kind != CaptureKind::Copy {
            if i + 1 >= args.len() {
                return Err(concat_str(name, " requires a line number after --start-line"));
            }
            let label = concat_str(name, " --start-line");
            match parse_line_offset(&args[i + 1], label.as_str()) {
                Ok(n) => {
                    c.start = Some(n);
                },
                Err(e) => {
                    return Err(e);
                },
            }
            i = i + 2;
        } else if arg_is(args, i, "--end-line") && kind != CaptureKind::Copy {
            if i + 1 >= args.len() {
                return Err(concat_str(name, " requires a line number after --end-line"));
            }
            let label = concat_str(name, " --end-line");
            match parse_line_offset(&args[i + 1], label.as_str()) {
                Ok(n) => {
                    c.end = Some(n);
                },
                Err(e) => {
                    return Err(e);
                },
            }
            i = i + 2;
        } else if arg_is(args, i, "--search") {
            if i + 1 >= args.len() {
                return Err(concat_str(name, " requires text after --search"));
            }
            if args[i + 1].as_str().unicode_len() == 0 {
                return Err(concat_str(name, " --search requires non-empty text"));
            }
            c.search = Some(args[i + 1].clone());
            i = i + 2;
        } else if arg_is(args, i, "--match") {
            if i + 1 >= args.len() {
                return Err(concat_str(name, " requires a match index after --match"));
            }
            let label = concat_str(name, " --match");
            match parse_positive_usize(&args[i + 1], label.as_str()) {
                Ok(n) => {
                    c.match_index = Some(n);
                },
                Err(e) => {
                    return Err(e);
                },
            }
            i = i + 2;
        } else {
            return Err(unsupported_argument_msg(name, args[i].as_str()));
        }
    }
    Ok(c)
}

/// The part of a buffer a command selects: a search match, a line range,
/// or everything.
pub open spec fn selection_spec(
    start: Option<isize>,
    end: Option<isize>,
    search: Option<Seq<char>>,
    match_index: Option<usize>,
    command: Seq<char>,
) -> Result<BufferSelectionView, Seq<char>> {
    if search is Some && (start is Some || end is Some) {
        Err(command + " accepts either a line range or --search"@)
    } else if search is Some {
        Ok(
            BufferSelectionView::Search {
                needle: search->0,
                match_index: match match_index {
                    Some(m) => m,
                    None => 1,
                },
            },
        )
    } else if match_index is Some {
        Err(command + " --match requires --search"@)
    } else {
        match (start, end) {
            (None, None) => Ok(BufferSelectionView::All),
            (Some(s), Some(e)) => Ok(BufferSelectionView::LineRange { start: s, end: e }),
            _ => Err(command + " line range requires --start-line and --end-line"@),
        }
    }
}

fn parse_buffer_selection(
    start: Option<isize>,
    end: Option<isize>,
    search: Option<String>,
    match_index: Option<usize>,
    command: &str,
) -> (r: Result<BufferSelection, String>)
    ensures
        match selection_spec(start, end, opt_view(search), match_index, command@) {
            Ok(sel) => r matches Ok(b) && b@ == sel,
            Err(e) => r matches Err(m) && m@ == e,
        },
{
    if search.is_some() && (start.is_some() || end.is_some()) {
        return Err(concat_str(command, " accepts either a line range or --search"));
    }
    match search {
        Some(needle) => {
            let m = match match_index {
                Some(m) => m,
                None => 1,
            };
            return Ok(BufferSelection::Search { needle, match_index: m });
        },
        None => {},
    }
    if match_index.is_some() {
        return Err(concat_str(command, " --match requires --search"));
    }
    match (start, end) {
        (None, None) => Ok(BufferSelection::All),
        (Some(s), Some(e)) => Ok(BufferSelection::LineRange { start: s, end: e }),
        _ => Err(concat_str(command, " line range requires --start-line and --end-line")),
    }
}

/// The mode given, or `All`.
pub open spec fn mode_or_all(m: Option<CaptureMode>) -> CaptureMode {
    match m {
        Some(m) => m,
        None => CaptureMode::All,
    }
}

/// `capture-pane -t <target> [-p] [mode] [line range | --search ...]`.
pub open spec fn capture_spec(a: Seq<Seq<char>>) -> Result<CommandView, Seq<char>> {
    match capture_from(a, CaptureKind::Capture, 0, no_capture_opts()) {
        Err(e) => Err(e),
        Ok(o) => match selection_spec(o.start, o.end, o.search, o.match_index, "capture-pane"@) {
            Err(e) => Err(e),
            Ok(selection) => match o.target {
                None => Err("capture-pane requires -t <session>"@),
                Some(target) => Ok(
                    CommandView::CapturePane { target, mode: mode_or_all(o.mode), selection },
                ),
            },
        },
    }
}

fn parse_capture(args: Vec<String>) -> (r: Result<Command, String>)
    ensures
        cmd_res(r) == capture_spec(views(args@)),
{
    let c = match scan_capture(&args, CaptureKind::Capture) {
        Ok(c) => c,
        Err(e) => {
            return Err(e);
        },
    };
    let selection = match parse_buffer_selection(c.start, c.end, c.search, c.match_index, "capture-pane") {
        Ok(s) => s,
        Err(e) => {
            return Err(e);
        },
    };
    let mode = match c.mode {
        Some(m) => m,
        None => CaptureMode::All,
    };
    match c.target {
        None => Err(String::from_str("capture-pane requires -t <session>")),
        Some(target) => Ok(Command::CapturePane { target, mode, selection }),
    }
}

/// `save-buffer -t <target> [-b <buffer>] [mode] [line range | --search ...]`.
pub open spec fn save_buffer_spec(a: Seq<Seq<char>>) -> Result<CommandView, Seq<char>> {
    match capture_from(a, CaptureKind::Save, 0, no_capture_opts()) {
        Err(e) => Err(e),
        Ok(o) => match selection_spec(o.start, o.end, o.search, o.match_index, "save-buffer"@) {
            Err(e) => Err(e),
            Ok(selection) => match o.target {
                None => Err("save-buffer requires -t <session>"@),
                Some(target) => Ok(
                    CommandView::SaveBuffer {
                        target,
                        buffer: o.buffer,
                        mode: mode_or_all(o.mode),
                        selection,
                    },
                ),
            },
        },
    }
}

fn parse_save_buffer(args: Vec<String>) -> (r: Result<Command, String>)
    ensures
        cmd_res(r) == save_buffer_spec(views(args@)),
{
    let c = match scan_capture(&args, CaptureKind::Save) {
        Ok(c) => c,
        Err(e) => {
            return Err(e);
        },
    };
    let selection = match parse_buffer_selection(c.start, c.end, c.search, c.match_index, "save-buffer") {
        Ok(s) => s,
        Err(e) => {
            return Err(e);
        },
    };
    let mode = match c.mode {
        Some(m) => m,
        None => CaptureMode::All,
    };
    match c.target {
        None => Err(String::from_str("save-buffer requires -t <session>")),
        Some(target) => Ok(Command::SaveBuffer { target, buffer: c.buffer, mode, selection }),
    }
}

/// `copy-mode -t <session> [mode] [--search <text> [--match <n>]]`.
pub open spec fn copy_mode_spec(a: Seq<Seq<char>>) -> Result<CommandView, Seq<char>> {
    match capture_from(a, CaptureKind::Copy, 0, no_capture_opts()) {
        Err(e) => Err(e),
        Ok(o) => if o.match_index is Some && o.search is None {
            Err("copy-mode --match requires --search"@)
        } else {
            match o.session {
                None => Err("copy-mode requires -t <session>"@),
                Some(session) => Ok(
                    CommandView::CopyMode {
                        session,
                        mode: mode_or_all(o.mode),
                        search: o.search,
                        match_index: o.match_index,
                    },
                ),
            }
        },
    }
}

fn parse_copy_mode(args: Vec<String>) -> (r: Result<Command, String>)
    ensures
        cmd_res(r) == copy_mode_spec(views(args@)),
{
    let c = match scan_capture(&args, CaptureKind::Copy) {
        Ok(c) => c,
        Err(e) => {
            return Err(e);
        },
    };
    if c.match_index.is_some() && c.search.is_none() {
        return Err(String::from_str("copy-mode --match requires --search"));
    }
    let mode = match c.mode {
        Some(m) => m,
        None => CaptureMode::All,
    };
    match c.session {
        None => Err(String::from_str("copy-mode requires -t <session>")),
        Some(session) => Ok(
            Command::CopyMode { session, mode, search: c.search, match_index: c.match_index },
        ),
    }
}


/// An optional window target with its name as characters.
pub open spec fn opt_window(o: Option<WindowTarget>) -> Option<WindowTargetView> {
    match o {
        Some(w) => Some(w@),
        None => None,
    }
}

/// The window commands that name a window by option.
#[derive(Clone, Copy, PartialEq, Eq, Structural)]
pub enum WindowKind {
    Select,
    Rename,
    Kill,
}

/// The name of a window command, in its window or tab spelling.
pub open spec fn window_cmd_name(kind: WindowKind, tab: bool) -> Seq<char> {
    match kind {
        WindowKind::Select => if tab {
            "select-tab"@
        } else {
            "select-window"@
        },
        WindowKind::Rename => if tab {
            "rename-tab"@
        } else {
            "rename-window"@
        },
        WindowKind::Kill => if tab {
            "kill-tab"@
        } else {
            "kill-window"@
        },
    }
}

fn window_cmd_name_of(kind: WindowKind, tab: bool) -> (r: &'static str)
    ensures
        r@ == window_cmd_name(kind, tab),
{
    match kind {
        WindowKind::Select => if tab {
            "select-tab"
        } else {
            "select-window"
        },
        WindowKind::Rename => if tab {
            "rename-tab"
        } else {
            "rename-window"
        },
        WindowKind::Kill => if tab {
            "kill-tab"
        } else {
            "kill-window"
        },
    }
}

/// Whether `s` selects a window by index: `-i`/`--index` for tabs, `-w`
/// for windows.
pub open spec fn is_index_flag(tab: bool, s: Seq<char>) -> bool {
    if tab {
        s == "-i"@ || s == "--index"@
    } else {
        s == "-w"@
    }
}

/// The option that selects a window by id.
pub open spec fn id_flag(tab: bool) -> Seq<char> {
    if tab {
        "--tab-id"@
    } else {
        "--window-id"@
    }
}

/// Whether `s` selects a window by id: `kill-window`/`kill-tab` take both
/// spellings, the others only their own.
pub open spec fn is_id_flag(kind: WindowKind, tab: bool, s: Seq<char>) -> bool {
    if kind == WindowKind::Kill {
        s == "--window-id"@ || s == "--tab-id"@
    } else {
        s == id_flag(tab)
    }
}

/// The window options of a window command, from argument `i` on: the
/// session, the window target (at most one) and, for a rename, the new
/// name.
pub open spec fn window_from(
    a: Seq<Seq<char>>,
    kind: WindowKind,
    tab: bool,
    i: int,
    session: Option<Seq<char>>,
    target: Option<WindowTargetView>,
    new_name: Option<Seq<char>>,
) -> Result<(Option<Seq<char>>, Option<WindowTargetView>, Option<Seq<char>>), Seq<char>>
    decreases a.len() - i,
{
    let name = window_cmd_name(kind, tab);
    if i >= a.len() {
        Ok((session, target, new_name))
    } else if a[i] == "-t"@ {
        if i + 1 >= a.len() {
            Err(name + " requires a session name after -t"@)
        } else if kind == WindowKind::Kill {
            match cli_target_spec(a[i + 1], name) {
                Err(e) => Err(e),
                Ok(t) => if !(t.pane is Active) {
                    Err(name + " target must not include a pane"@)
                } else if t.window is Active {
                    window_from(a, kind, tab, i + 2, Some(t.session), target, new_name)
                } else {
                    window_from(a, kind, tab, i + 2, Some(t.session), Some(t.window), new_name)
                },
            }
        } else {
            window_from(a, kind, tab, i + 2, Some(a[i + 1]), target, new_name)
        }
    } else if is_index_flag(tab, a[i]) {
        if i + 1 >= a.len() {
            Err(name + " requires a tab/window index after "@ + a[i])
        } else {
            match parse_unsigned(a[i + 1], usize::MAX as nat) {
                None => Err(name + " "@ + a[i] + " must be a non-negative integer"@),
                Some(n) => if target is Some {
                    Err(name + " accepts exactly one window target"@)
                } else {
                    window_from(
                        a,
                        kind,
                        tab,
                        i + 2,
                        session,
                        Some(WindowTargetView::Index(n as usize)),
                        new_name,
                    )
                },
            }
        }
    } else if is_id_flag(kind, tab, a[i]) {
        if i + 1 >= a.len() {
            Err(name + " requires a window id after "@ + a[i])
        } else {
            match parse_unsigned(a[i + 1], usize::MAX as nat) {
                None => Err(name + " "@ + a[i] + " must be a non-negative integer"@),
                Some(n) => if target is Some {
                    Err(name + " accepts exactly one window target"@)
                } else {
                    window_from(
                        a,
                        kind,
                        tab,
                        i + 2,
                        session,
                        Some(WindowTargetView::Id(n as usize)),
                        new_name,
                    )
                },
            }
        }
    } else if a[i] == "-n"@ {
        if i + 1 >= a.len() {
            Err(name + " requires a window name after -n"@)
        } else if target is Some {
            Err(name + " accepts exactly one window target"@)
        } else {
            window_from(a, kind, tab, i + 2, session, Some(WindowTargetView::Name(a[i + 1])), new_name)
        }
    } else if kind == WindowKind::Rename && is_opt(a[i]) {
        Err(unsupported_option(name, a[i]))
    } else if kind == WindowKind::Rename {
        if new_name is Some {
            Err(name + " accepts exactly one new name"@)
        } else {
            window_from(a, kind, tab, i + 1, session, target, Some(a[i]))
        }
    } else {
        Err(unsupported_argument(name, a[i]))
    }
}

fn is_index_flag_of(tab: bool, s: &String) -> (r: bool)
    ensures
        r == is_index_flag(tab, s@),
{
    if tab {
        str_eq(s.as_str(), "-i") || str_eq(s.as_str(), "--index")
    } else {
        str_eq(s.as_str(), "-w")
    }
}

fn is_id_flag_of(kind: WindowKind, tab: bool, s: &String) -> (r: bool)
    ensures
        r == is_id_flag(kind, tab, s@),
{
    if kind == WindowKind::Kill {
        str_eq(s.as_str(), "--window-id") || str_eq(s.as_str(), "--tab-id")
    } else if tab {
        str_eq(s.as_str(), "--tab-id")
    } else {
        str_eq(s.as_str(), "--window-id")
    }
}

fn concat3(a: &str, b: &str, c: &str) -> (r: String)
    ensures
        r@ == a@ + b@ + c@,
{
    let head = concat_str(a, b);
    concat_str(head.as_str(), c)
}

#[verifier::rlimit(60)]
fn scan_window(args: &Vec<String>, kind: WindowKind, tab: bool) -> (r: Result<
    (Option<String>, Option<WindowTarget>, Option<String>),
    String,
>)
    ensures
        match window_from(views(args@), kind, tab, 0, None, None, None) {
            Ok((s, t, n)) => r matches Ok((rs, rt, rn)) && opt_view(rs) == s && opt_window(rt) == t
                && opt_view(rn) == n,
            Err(e) => r matches Err(m) && m@ == e,
        },
{
    let ghost a = views(args@);
    let name = window_cmd_name_of(kind, tab);
    let mut session: Option<String> = None;
    let mut target: Option<WindowTarget> = None;
    let mut new_name: Option<String> = None;
    let mut i: usize = 0;
    while i < args.len()
        invariant
            i <= args.len(),
            a == views(args@),
            name@ == window_cmd_name(kind, tab),
            window_from(a, kind, tab, 0, None, None, None) == window_from(
                a,
                kind,
                tab,
                i as int,
                opt_view(session),
                opt_window(target),
                opt_view(new_name),
            ),
        decreases args.len() - i,
    {
        if arg_is(args, i, "-t") {
            if i + 1 >= args.len() {
                return Err(concat_str(name, " requires a session name after -t"));
            }
            if kind == WindowKind::Kill {
                let t = match parse_structured_target(args[i + 1].as_str(), name) {
                    Ok(t) => t,
                    Err(e) => {
                        return Err(e);
                    },
                };
                match t.pane {
                    PaneTarget::Active => {},
                    _ => {
                        return Err(concat_str(name, " target must not include a pane"));
                    },
                }
                match t.window {
                    WindowTarget::Active => {},
                    w => {
                        target = Some(w);
                    },
                }
                session = Some(t.session);
            } else {
                session = Some(args[i + 1].clone());
            }
            i = i + 2;
        } else if is_index_flag_of(tab, &args[i]) || is_id_flag_of(kind, tab, &args[i]) {
            let by_index = is_index_flag_of(tab, &args[i]);
            if i + 1 >= args.len() {
                if by_index {
                    return Err(concat3(name, " requires a tab/window index after ", args[i].as_str()));
                } else {
                    return Err(concat3(name, " requires a window id after ", args[i].as_str()));
                }
            }
            let n = match parse_usize_arg(&args[i + 1]) {
                Some(n) => n,
                None => {
                    let head = concat3(name, " ", args[i].as_str());
                    return Err(concat_str(head.as_str(), " must be a non-negative integer"));
                },
            };
            if target.is_some() {
                return Err(concat_str(name, " accepts exactly one window target"));
            }
            if by_index {
                target = Some(WindowTarget::Index(n));
            } else {
                target = Some(WindowTarget::Id(n));
            }
            i = i + 2;
        } else if arg_is(args, i, "-n") {
            if i + 1 >= args.len() {
                return Err(concat_str(name, " requires a window name after -n"));
            }
            if target.is_some() {
                return Err(concat_str(name, " accepts exactly one window target"));
            }
            target = Some(WindowTarget::Name(args[i + 1].clone()));
            i = i + 2;
        } else if kind == WindowKind::Rename && is_option(&args[i]) {
            return Err(unsupported_option_msg(name, args[i].as_str()));
        } else if kind == WindowKind::Rename {
            if new_name.is_some() {
                return Err(concat_str(name, " accepts exactly one new name"));
            }
            new_name = Some(args[i].clone());
            i = i + 1;
        } else {
            return Err(unsupported_argument_msg(name, args[i].as_str()));
        }
    }
    Ok((session, target, new_name))
}

/// The primary index option of a window command.
pub open spec fn primary_index_flag(tab: bool) -> Seq<char> {
    if tab {
        "-i"@
    } else {
        "-w"@
    }
}

/// `select-window`/`select-tab -t <session>` with one window target.
pub open spec fn select_window_spec(a: Seq<Seq<char>>, tab: bool) -> Result<CommandView, Seq<char>> {
    let name = window_cmd_name(WindowKind::Select, tab);
    match window_from(a, WindowKind::Select, tab, 0, None, None, None) {
        Err(e) => Err(e),
        Ok((None, _, _)) => Err(name + " requires -t <session>"@),
        Ok((Some(_), None, _)) => Err(
            name + " requires "@ + primary_index_flag(tab) + " <index>, "@ + id_flag(tab)
                + " <id>, or -n <name>"@,
        ),
        Ok((Some(session), Some(target), _)) => Ok(CommandView::SelectWindow { session, target }),
    }
}

fn parse_select_window(args: Vec<String>, tab: bool) -> (r: Result<Command, String>)
    ensures
        cmd_res(r) == select_window_spec(views(args@), tab),
{
    let name = window_cmd_name_of(WindowKind::Select, tab);
    match scan_window(&args, WindowKind::Select, tab) {
        Err(e) => Err(e),
        Ok((None, _, _)) => Err(concat_str(name, " requires -t <session>")),
        Ok((Some(_), None, _)) => {
            let (primary, id): (&str, &str) = if tab {
                ("-i", "--tab-id")
            } else {
                ("-w", "--window-id")
            };
            let head = concat3(name, " requires ", primary);
            let mid = concat3(head.as_str(), " <index>, ", id);
            Err(concat_str(mid.as_str(), " <id>, or -n <name>"))
        },
        Ok((Some(session), Some(target), _)) => Ok(Command::SelectWindow { session, target }),
    }
}

/// `rename-window`/`rename-tab -t <session> [window target] <new-name>`.
pub open spec fn rename_window_spec(a: Seq<Seq<char>>, tab: bool) -> Result<CommandView, Seq<char>> {
    let name = window_cmd_name(WindowKind::Rename, tab);
    match window_from(a, WindowKind::Rename, tab, 0, None, None, None) {
        Err(e) => Err(e),
        Ok((session, target, new_name)) => match new_name {
            None => Err(name + " requires <new-name>"@),
            Some(n) => if n.len() == 0 {
                Err(name + " new name cannot be empty"@)
            } else {
                match session {
                    None => Err(name + " requires -t <session>"@),
                    Some(s) => Ok(
                        CommandView::RenameWindow {
                            session: s,
                            target: match target {
                                Some(t) => t,
                                None => WindowTargetView::Active,
                            },
                            name: n,
                        },
                    ),
                }
            },
        },
    }
}

fn parse_rename_window(args: Vec<String>, tab: bool) -> (r: Result<Command, String>)
    ensures
        cmd_res(r) == rename_window_spec(views(args@), tab),
{
    let name = window_cmd_name_of(WindowKind::Rename, tab);
    match scan_window(&args, WindowKind::Rename, tab) {
        Err(e) => Err(e),
        Ok((session, target, new_name)) => match new_name {
            None => Err(concat_str(name, " requires <new-name>")),
            Some(n) => {
                if n.as_str().unicode_len() == 0 {
                    return Err(concat_str(name, " new name cannot be empty"));
                }
                match session {
                    None => Err(concat_str(name, " requires -t <session>")),
                    Some(s) => {
                        let target = match target {
                            Some(t) => t,
                            None => WindowTarget::Active,
                        };
                        Ok(Command::RenameWindow { session: s, target, name: n })
                    },
                }
            },
        },
    }
}

/// `kill-window`/`kill-tab -t <session>[:<window>] [window target]`.
pub open spec fn kill_window_spec(a: Seq<Seq<char>>, tab: bool) -> Result<CommandView, Seq<char>> {
    let name = window_cmd_name(WindowKind::Kill, tab);
    match window_from(a, WindowKind::Kill, tab, 0, None, None, None) {
        Err(e) => Err(e),
        Ok((None, _, _)) => Err(name + " requires -t <session>"@),
        Ok((Some(session), target, _)) => Ok(
            CommandView::KillWindow {
                session,
                target: match target {
                    Some(t) => t,
                    None => WindowTargetView::Active,
                },
            },
        ),
    }
}

fn parse_kill_window(args: Vec<String>, tab: bool) -> (r: Result<Command, String>)
    ensures
        cmd_res(r) == kill_window_spec(views(args@), tab),
{
    let name = window_cmd_name_of(WindowKind::Kill, tab);
    match scan_window(&args, WindowKind::Kill, tab) {
        Err(e) => Err(e),
        Ok((None, _, _)) => Err(concat_str(name, " requires -t <session>")),
        Ok((Some(session), target, _)) => {
            let target = match target {
                Some(t) => t,
                None => WindowTarget::Active,
            };
            Ok(Command::KillWindow { session, target })
        },
    }
}


/// The pane commands that take a target and an optional `-p <index>`.
#[derive(Clone, Copy, PartialEq, Eq, Structural)]
pub enum PaneKind {
    Kill,
    Zoom,
    Respawn,
}

/// The name of a pane command.
pub open spec fn pane_cmd_name(kind: PaneKind) -> Seq<char> {
    match kind {
        PaneKind::Kill => "kill-pane"@,
        PaneKind::Zoom => "zoom-pane"@,
        PaneKind::Respawn => "respawn-pane"@,
    }
}

fn pane_cmd_name_of(kind: PaneKind) -> (r: &'static str)
    ensures
        r@ == pane_cmd_name(kind),
{
    match kind {
        PaneKind::Kill => "kill-pane",
        PaneKind::Zoom => "zoom-pane",
        PaneKind::Respawn => "respawn-pane",
    }
}

/// The options of a pane command, from argument `i` on: the target, the
/// pane index, and for `respawn-pane` the `-k` flag and the command after
/// `--`.
pub open spec fn pane_opts_from(
    a: Seq<Seq<char>>,
    kind: PaneKind,
    i: int,
    target: Option<TargetView>,
    pane: Option<usize>,
    force: bool,
) -> Result<(Option<TargetView>, Option<usize>, bool, Seq<Seq<char>>), Seq<char>>
    decreases a.len() - i,
{
    let name = pane_cmd_name(kind);
    if i >= a.len() {
        Ok((target, pane, force, Seq::empty()))
    } else if a[i] == "-t"@ {
        if i + 1 >= a.len() {
            Err(name + " requires a session name after -t"@)
        } else {
            match cli_target_spec(a[i + 1], name) {
                Ok(t) => pane_opts_from(a, kind, i + 2, Some(t), pane, force),
                Err(e) => Err(e),
            }
        }
    } else if a[i] == "-p"@ {
        if i + 1 >= a.len() {
            Err(name + " requires a pane index after -p"@)
        } else {
            match parse_unsigned(a[i + 1], usize::MAX as nat) {
                Some(n) => pane_opts_from(a, kind, i + 2, target, Some(n as usize), force),
                None => Err(name + " -p must be a non-negative integer"@),
            }
        }
    } else if a[i] == "-k"@ && kind == PaneKind::Respawn {
        pane_opts_from(a, kind, i + 1, target, pane, true)
    } else if a[i] == "--"@ && kind == PaneKind::Respawn {
        Ok((target, pane, force, a.skip(i + 1)))
    } else {
        Err(unsupported_argument(name, a[i]))
    }
}

fn scan_pane_opts(args: &Vec<String>, kind: PaneKind) -> (r: Result<
    (Option<Target>, Option<usize>, bool, Vec<String>),
    String,
>)
    ensures
        match pane_opts_from(views(args@), kind, 0, None, None, false) {
            Ok((t, p, f, c)) => r matches Ok((rt, rp, rf, rc)) && opt_target(rt) == t && rp == p
                && rf == f && views(rc@) == c,
            Err(e) => r matches Err(m) && m@ == e,
        },
{
    let ghost a = views(args@);
    let name = pane_cmd_name_of(kind);
    let mut target: Option<Target> = None;
    let mut pane: Option<usize> = None;
    let mut force = false;
    let mut i: usize = 0;
    while i < args.len()
        invariant
            i <= args.len(),
            a == views(args@),
            name@ == pane_cmd_name(kind),
            pane_opts_from(a, kind, 0, None, None, false) == pane_opts_from(
                a,
                kind,
                i as int,
                opt_target(target),
                pane,
                force,
            ),
        decreases args.len() - i,
    {
        if arg_is(args, i, "-t") {
            if i + 1 >= args.len() {
                return Err(concat_str(name, " requires a session name after -t"));
            }
            match parse_structured_target(args[i + 1].as_str(), name) {
                Ok(t) => {
                    target = Some(t);
                },
                Err(e) => {
                    return Err(e);
                },
            }
            i = i + 2;
        } else if arg_is(args, i, "-p") {
            if i + 1 >= args.len() {
                return Err(concat_str(name, " requires a pane index after -p"));
            }
            match parse_usize_arg(&args[i + 1]) {
                Some(n) => {
                    pane = Some(n);
                },
                None => {
                    return Err(concat_str(name, " -p must be a non-negative integer"));
                },
            }
            i = i + 2;
        } else if arg_is(args, i, "-k") && kind == PaneKind::Respawn {
            force = true;
            i = i + 1;
        } else if arg_is(args, i, "--") && kind == PaneKind::Respawn {
            let command = tail_args(args, i + 1);
            return Ok((target, pane, force, command));
        } else {
            return Err(unsupported_argument_msg(name, args[i].as_str()));
        }
    }
    let command: Vec<String> = Vec::new();
    assert(views(command@) =~= Seq::<Seq<char>>::empty());
    Ok((target, pane, force, command))
}

/// A target with `-p <index>` applied: the pane must not also be named in
/// the target.
pub open spec fn apply_pane_index_spec(t: TargetView, pane: Option<usize>, command: Seq<char>) -> Result<
    TargetView,
    Seq<char>,
> {
    match pane {
        None => Ok(t),
        Some(index) => if !(t.pane is Active) {
            Err(command + " accepts exactly one pane target"@)
        } else {
            Ok(TargetView { pane: PaneTarget::Index(index), ..t })
        },
    }
}

fn apply_pane_index_target(target: Target, pane: Option<usize>, command: &str) -> (r: Result<
    Target,
    String,
>)
    ensures
        target_result(r) == apply_pane_index_spec(target@, pane, command@),
{
    let mut target = target;
    match pane {
        None => Ok(target),
        Some(index) => {
            match target.pane {
                PaneTarget::Active => {},
                _ => {
                    return Err(concat_str(command, " accepts exactly one pane target"));
                },
            }
            target.pane = PaneTarget::Index(index);
            Ok(target)
        },
    }
}

/// `kill-pane`, `zoom-pane` or `respawn-pane`: the target with the pane
/// index applied.
pub open spec fn pane_command_spec(a: Seq<Seq<char>>, kind: PaneKind) -> Result<CommandView, Seq<char>> {
    let name = pane_cmd_name(kind);
    match pane_opts_from(a, kind, 0, None, None, false) {
        Err(e) => Err(e),
        Ok((None, _, _, _)) => Err(name + " requires -t <session>"@),
        Ok((Some(t), pane, force, command)) => match apply_pane_index_spec(t, pane, name) {
            Err(e) => Err(e),
            Ok(target) => match kind {
                PaneKind::Kill => Ok(CommandView::KillPane { target }),
                PaneKind::Zoom => Ok(CommandView::ZoomPane { target }),
                PaneKind::Respawn => Ok(CommandView::RespawnPane { target, force, command }),
            },
        },
    }
}

fn parse_pane_command(args: Vec<String>, kind: PaneKind) -> (r: Result<Command, String>)
    ensures
        cmd_res(r) == pane_command_spec(views(args@), kind),
{
    let name = pane_cmd_name_of(kind);
    match scan_pane_opts(&args, kind) {
        Err(e) => Err(e),
        Ok((None, _, _, _)) => Err(concat_str(name, " requires -t <session>")),
        Ok((Some(t), pane, force, command)) => match apply_pane_index_target(t, pane, name) {
            Err(e) => Err(e),
            Ok(target) => match kind {
                PaneKind::Kill => Ok(Command::KillPane { target }),
                PaneKind::Zoom => Ok(Command::ZoomPane { target }),
                PaneKind::Respawn => Ok(Command::RespawnPane { target, force, command }),
            },
        },
    }
}

/// The commands that take source and destination panes.
#[derive(Clone, Copy, PartialEq, Eq, Structural)]
pub enum TransferKind {
    Swap,
    Move,
    Join,
    Break,
}

/// The name of a transfer command.
pub open spec fn transfer_name(kind: TransferKind) -> Seq<char> {
    match kind {
        TransferKind::Swap => "swap-pane"@,
        TransferKind::Move => "move-pane"@,
        TransferKind::Join => "join-pane"@,
        TransferKind::Break => "break-pane"@,
    }
}

fn transfer_name_of(kind: TransferKind) -> (r: &'static str)
    ensures
        r@ == transfer_name(kind),
{
    match kind {
        TransferKind::Swap => "swap-pane",
        TransferKind::Move => "move-pane",
        TransferKind::Join => "join-pane",
        TransferKind::Break => "break-pane",
    }
}

/// The message for a `-t` with nothing after it.
pub open spec fn transfer_missing_t(kind: TransferKind) -> Seq<char> {
    if kind == TransferKind::Break {
        "break-pane requires a target after -t"@
    } else {
        transfer_name(kind) + " requires a destination target after -t"@
    }
}

/// The split direction an option names.
pub open spec fn direction_option(s: Seq<char>) -> Option<SplitDirection> {
    if s == "-h"@ {
        Some(SplitDirection::Horizontal)
    } else if s == "-v"@ {
        Some(SplitDirection::Vertical)
    } else {
        None
    }
}

/// The options of a transfer command, from argument `i` on: `-s` (not for
/// `break-pane`), `-t`, and one of `-h`/`-v` (for `move-pane` and
/// `join-pane`).
pub open spec fn transfer_from(
    a: Seq<Seq<char>>,
    kind: TransferKind,
    i: int,
    source: Option<TargetView>,
    destination: Option<TargetView>,
    direction: Option<SplitDirection>,
) -> Result<(Option<TargetView>, Option<TargetView>, Option<SplitDirection>), Seq<char>>
    decreases a.len() - i,
{
    let name = transfer_name(kind);
    if i >= a.len() {
        Ok((source, destination, direction))
    } else if a[i] == "-s"@ && kind != TransferKind::Break {
        if i + 1 >= a.len() {
            Err(name + " requires a source target after -s"@)
        } else {
            match cli_target_spec(a[i + 1], name) {
                Ok(t) => transfer_from(a, kind, i + 2, Some(t), destination, direction),
                Err(e) => Err(e),
            }
        }
    } else if a[i] == "-t"@ {
        if i + 1 >= a.len() {
            Err(transfer_missing_t(kind))
        } else {
            match cli_target_spec(a[i + 1], name) {
                Ok(t) => transfer_from(a, kind, i + 2, source, Some(t), direction),
                Err(e) => Err(e),
            }
        }
    } else if direction_option(a[i]) is Some && (kind == TransferKind::Move || kind
        == TransferKind::Join) {
        if direction is Some {
            Err(name + " accepts only one direction"@)
        } else {
            transfer_from(a, kind, i + 1, source, destination, direction_option(a[i]))
        }
    } else {
        Err(unsupported_argument(name, a[i]))
    }
}

fn direction_option_of(s: &String) -> (r: Option<SplitDirection>)
    ensures
        r == direction_option(s@),
{
    if str_eq(s.as_str(), "-h") {
        Some(SplitDirection::Horizontal)
    } else if str_eq(s.as_str(), "-v") {
        Some(SplitDirection::Vertical)
    } else {
        None
    }
}

fn scan_transfer(args: &Vec<String>, kind: TransferKind) -> (r: Result<
    (Option<Target>, Option<Target>, Option<SplitDirection>),
    String,
>)
    ensures
        match transfer_from(views(args@), kind, 0, None, None, None) {
            Ok((s, d, dir)) => r matches Ok((rs, rd, rdir)) && opt_target(rs) == s && opt_target(rd)
                == d && rdir == dir,
            Err(e) => r matches Err(m) && m@ == e,
        },
{
    let ghost a = views(args@);
    let name = transfer_name_of(kind);
    let mut source: Option<Target> = None;
    let mut destination: Option<Target> = None;
    let mut direction: Option<SplitDirection> = None;
    let mut i: usize = 0;
    while i < args.len()
        invariant
            i <= args.len(),
            a == views(args@),
            name@ == transfer_name(kind),
            transfer_from(a, kind, 0, None, None, None) == transfer_from(
                a,
                kind,
                i as int,
                opt_target(source),
                opt_target(destination),
                direction,
            ),
        decreases args.len() - i,
    {
        let dir = direction_option_of(&args[i]);
        if arg_is(args, i, "-s") && kind != TransferKind::Break {
            if i + 1 >= args.len() {
                return Err(concat_str(name, " requires a source target after -s"));
            }
            match parse_structured_target(args[i + 1].as_str(), name) {
                Ok(t) => {
                    source = Some(t);
                },
                Err(e) => {
                    return Err(e);
                },
            }
            i = i + 2;
        } else if arg_is(args, i, "-t") {
            if i + 1 >= args.len() {
                if kind == TransferKind::Break {
                    return Err(String::from_str("break-pane requires a target after -t"));
                }
                return Err(concat_str(name, " requires a destination target after -t"));
            }
            match parse_structured_target(args[i + 1].as_str(), name) {
                Ok(t) => {
                    destination = Some(t);
                },
                Err(e) => {
                    return Err(e);
                },
            }
            i = i + 2;
        } else if dir.is_some() && (kind == TransferKind::Move || kind == TransferKind::Join) {
            if direction.is_some() {
                return Err(concat_str(name, " accepts only one direction"));
            }
            direction = dir;
            i = i + 1;
        } else {
            return Err(unsupported_argument_msg(name, args[i].as_str()));
        }
    }
    Ok((source, destination, direction))
}

/// `swap-pane`, `move-pane`, `join-pane` or `break-pane`.
pub open spec fn transfer_spec(a: Seq<Seq<char>>, kind: TransferKind) -> Result<CommandView, Seq<char>> {
    let name = transfer_name(kind);
    match transfer_from(a, kind, 0, None, None, None) {
        Err(e) => Err(e),
        Ok((source, destination, direction)) => if kind == TransferKind::Break {
            match destination {
                None => Err("break-pane requires -t <target>"@),
                Some(target) => Ok(CommandView::BreakPane { target }),
            }
        } else {
            match (source, destination) {
                (None, _) => Err(name + " requires -s <source-target>"@),
                (Some(_), None) => Err(name + " requires -t <destination-target>"@),
                (Some(source), Some(destination)) => {
                    let direction = match direction {
                        Some(d) => d,
                        None => SplitDirection::Horizontal,
                    };
                    match kind {
                        TransferKind::Swap => Ok(CommandView::SwapPane { source, destination }),
                        TransferKind::Move => Ok(
                            CommandView::MovePane { source, destination, direction },
                        ),
                        _ => Ok(CommandView::JoinPane { source, destination, direction }),
                    }
                },
            }
        },
    }
}

fn parse_transfer(args: Vec<String>, kind: TransferKind) -> (r: Result<Command, String>)
    ensures
        cmd_res(r) == transfer_spec(views(args@), kind),
{
    let name = transfer_name_of(kind);
    match scan_transfer(&args, kind) {
        Err(e) => Err(e),
        Ok((source, destination, direction)) => if kind == TransferKind::Break {
            match destination {
                None => Err(String::from_str("break-pane requires -t <target>")),
                Some(target) => Ok(Command::BreakPane { target }),
            }
        } else {
            match (source, destination) {
                (None, _) => Err(concat_str(name, " requires -s <source-target>")),
                (Some(_), None) => Err(concat_str(name, " requires -t <destination-target>")),
                (Some(source), Some(destination)) => {
                    let direction = match direction {
                        Some(d) => d,
                        None => SplitDirection::Horizontal,
                    };
                    match kind {
                        TransferKind::Swap => Ok(Command::SwapPane { source, destination }),
                        TransferKind::Move => Ok(Command::MovePane { source, destination, direction }),
                        _ => Ok(Command::JoinPane { source, destination, direction }),
                    }
                },
            }
        },
    }
}


/// `split-window -t <target> -h|-v [--] [command...]`, from argument `i`
/// on.
pub open spec fn split_window_from(
    a: Seq<Seq<char>>,
    i: int,
    target: Option<TargetView>,
    direction: Option<SplitDirection>,
) -> Result<CommandView, Seq<char>>
    decreases a.len() - i,
{
    if i >= a.len() {
        split_window_finish(target, direction, Seq::empty())
    } else if a[i] == "-t"@ {
        if i + 1 >= a.len() {
            Err("split-window requires a session name after -t"@)
        } else {
            match cli_target_spec(a[i + 1], "split-window"@) {
                Ok(t) => split_window_from(a, i + 2, Some(t), direction),
                Err(e) => Err(e),
            }
        }
    } else if direction_option(a[i]) is Some {
        if direction is Some {
            Err("split-window accepts only one direction"@)
        } else {
            split_window_from(a, i + 1, target, direction_option(a[i]))
        }
    } else if a[i] == "--"@ {
        split_window_finish(target, direction, a.skip(i + 1))
    } else if is_opt(a[i]) {
        Err(unsupported_option("split-window"@, a[i]))
    } else {
        split_window_finish(target, direction, a.skip(i))
    }
}

/// The split once its options are read.
pub open spec fn split_window_finish(
    target: Option<TargetView>,
    direction: Option<SplitDirection>,
    command: Seq<Seq<char>>,
) -> Result<CommandView, Seq<char>> {
    match (target, direction) {
        (None, _) => Err("split-window requires -t <session>"@),
        (Some(_), None) => Err("split-window requires one of -h or -v"@),
        (Some(target), Some(direction)) => Ok(CommandView::SplitWindow { target, direction, command }),
    }
}

fn finish_split(target: Option<Target>, direction: Option<SplitDirection>, command: Vec<String>) -> (r:
    Result<Command, String>)
    ensures
        cmd_res(r) == split_window_finish(opt_target(target), direction, views(command@)),
{
    match (target, direction) {
        (None, _) => Err(String::from_str("split-window requires -t <session>")),
        (Some(_), None) => Err(String::from_str("split-window requires one of -h or -v")),
        (Some(target), Some(direction)) => Ok(Command::SplitWindow { target, direction, command }),
    }
}

fn parse_split_window(args: Vec<String>) -> (r: Result<Command, String>)
    ensures
        cmd_res(r) == split_window_from(views(args@), 0, None, None),
{
    let ghost a = views(args@);
    let mut target: Option<Target> = None;
    let mut direction: Option<SplitDirection> = None;
    let mut i: usize = 0;
    while i < args.len()
        invariant
            i <= args.len(),
            a == views(args@),
            split_window_from(a, 0, None, None) == split_window_from(
                a,
                i as int,
                opt_target(target),
                direction,
            ),
        decreases args.len() - i,
    {
        let dir = direction_option_of(&args[i]);
        if arg_is(&args, i, "-t") {
            if i + 1 >= args.len() {
                return Err(String::from_str("split-window requires a session name after -t"));
            }
            match parse_structured_target(args[i + 1].as_str(), "split-window") {
                Ok(t) => {
                    target = Some(t);
                },
                Err(e) => {
                    return Err(e);
                },
            }
            i = i + 2;
        } else if dir.is_some() {
            if direction.is_some() {
                return Err(String::from_str("split-window accepts only one direction"));
            }
            direction = dir;
            i = i + 1;
        } else if arg_is(&args, i, "--") {
            let command = tail_args(&args, i + 1);
            return finish_split(target, direction, command);
        } else if is_option(&args[i]) {
            return Err(unsupported_option_msg("split-window", args[i].as_str()));
        } else {
            let command = tail_args(&args, i);
            return finish_split(target, direction, command);
        }
    }
    let command: Vec<String> = Vec::new();
    assert(views(command@) =~= Seq::<Seq<char>>::empty());
    finish_split(target, direction, command)
}

/// `send-keys -t <target> <key...>`, from argument `i` on.
pub open spec fn send_keys_from(a: Seq<Seq<char>>, i: int, target: Option<TargetView>) -> Result<
    CommandView,
    Seq<char>,
>
    decreases a.len() - i,
{
    if i >= a.len() {
        send_keys_finish(target, Seq::empty())
    } else if a[i] == "-t"@ {
        if i + 1 >= a.len() {
            Err("send-keys requires a session name after -t"@)
        } else {
            match cli_target_spec(a[i + 1], "send-keys"@) {
                Ok(t) => send_keys_from(a, i + 2, Some(t)),
                Err(e) => Err(e),
            }
        }
    } else if is_opt(a[i]) {
        Err(unsupported_option("send-keys"@, a[i]))
    } else {
        send_keys_finish(target, a.skip(i))
    }
}

/// The keys to send once the options are read.
pub open spec fn send_keys_finish(target: Option<TargetView>, keys: Seq<Seq<char>>) -> Result<
    CommandView,
    Seq<char>,
> {
    if keys.len() == 0 {
        Err("send-keys requires at least one key"@)
    } else {
        match target {
            None => Err("send-keys requires -t <session>"@),
            Some(target) => Ok(CommandView::SendKeys { target, keys }),
        }
    }
}

fn finish_send_keys(target: Option<Target>, keys: Vec<String>) -> (r: Result<Command, String>)
    ensures
        cmd_res(r) == send_keys_finish(opt_target(target), views(keys@)),
{
    if keys.len() == 0 {
        return Err(String::from_str("send-keys requires at least one key"));
    }
    match target {
        None => Err(String::from_str("send-keys requires -t <session>")),
        Some(target) => Ok(Command::SendKeys { target, keys }),
    }
}

fn parse_send_keys(args: Vec<String>) -> (r: Result<Command, String>)
    ensures
        cmd_res(r) == send_keys_from(views(args@), 0, None),
{
    let ghost a = views(args@);
    let mut target: Option<Target> = None;
    let mut i: usize = 0;
    while i < args.len()
        invariant
            i <= args.len(),
            a == views(args@),
            send_keys_from(a, 0, None) == send_keys_from(a, i as int, opt_target(target)),
        decreases args.len() - i,
    {
        if arg_is(&args, i, "-t") {
            if i + 1 >= args.len() {
                return Err(String::from_str("send-keys requires a session name after -t"));
            }
            match parse_structured_target(args[i + 1].as_str(), "send-keys") {
                Ok(t) => {
                    target = Some(t);
                },
                Err(e) => {
                    return Err(e);
                },
            }
            i = i + 2;
        } else if is_option(&args[i]) {
            return Err(unsupported_option_msg("send-keys", args[i].as_str()));
        } else {
            let keys = tail_args(&args, i);
            return finish_send_keys(target, keys);
        }
    }
    let keys: Vec<String> = Vec::new();
    assert(views(keys@) =~= Seq::<Seq<char>>::empty());
    finish_send_keys(target, keys)
}

/// `select-layout -t <target> <preset>`, from argument `i` on.
pub open spec fn select_layout_from(
    a: Seq<Seq<char>>,
    i: int,
    target: Option<TargetView>,
    preset: Option<LayoutPreset>,
) -> Result<CommandView, Seq<char>>
    decreases a.len() - i,
{
    if i >= a.len() {
        match target {
            None => Err("select-layout requires -t <session>"@),
            Some(t) => if !(t.pane is Active) {
                Err("select-layout target must not include a pane"@)
            } else {
                match preset {
                    None => Err("select-layout requires <preset>"@),
                    Some(p) => Ok(CommandView::SelectLayout { session: t.session, window: t.window, preset: p }),
                }
            },
        }
    } else if a[i] == "-t"@ {
        if i + 1 >= a.len() {
            Err("select-layout requires a session name after -t"@)
        } else {
            match cli_target_spec(a[i + 1], "select-layout"@) {
                Ok(t) => select_layout_from(a, i + 2, Some(t), preset),
                Err(e) => Err(e),
            }
        }
    } else if is_opt(a[i]) {
        Err(unsupported_option("select-layout"@, a[i]))
    } else {
        match crate::decode::layout_preset_named(a[i]) {
            Err(e) => Err(e),
            Ok(p) => if preset is Some {
                Err("select-layout accepts exactly one preset"@)
            } else {
                select_layout_from(a, i + 1, target, Some(p))
            },
        }
    }
}

fn parse_select_layout(args: Vec<String>) -> (r: Result<Command, String>)
    ensures
        cmd_res(r) == select_layout_from(views(args@), 0, None, None),
{
    let ghost a = views(args@);
    let mut target: Option<Target> = None;
    let mut preset: Option<LayoutPreset> = None;
    let mut i: usize = 0;
    while i < args.len()
        invariant
            i <= args.len(),
            a == views(args@),
            select_layout_from(a, 0, None, None) == select_layout_from(
                a,
                i as int,
                opt_target(target),
                preset,
            ),
        decreases args.len() - i,
    {
        if arg_is(&args, i, "-t") {
            if i + 1 >= args.len() {
                return Err(String::from_str("select-layout requires a session name after -t"));
            }
            match parse_structured_target(args[i + 1].as_str(), "select-layout") {
                Ok(t) => {
                    target = Some(t);
                },
                Err(e) => {
                    return Err(e);
                },
            }
            i = i + 2;
        } else if is_option(&args[i]) {
            return Err(unsupported_option_msg("select-layout", args[i].as_str()));
        } else {
            match crate::decode::parse_layout_preset_name(args[i].as_str()) {
                Err(e) => {
                    return Err(e);
                },
                Ok(p) => {
                    if preset.is_some() {
                        return Err(String::from_str("select-layout accepts exactly one preset"));
                    }
                    preset = Some(p);
                },
            }
            i = i + 1;
        }
    }
    match target {
        None => Err(String::from_str("select-layout requires -t <session>")),
        Some(t) => {
            match t.pane {
                PaneTarget::Active => {},
                _ => {
                    return Err(String::from_str("select-layout target must not include a pane"));
                },
            }
            match preset {
                None => Err(String::from_str("select-layout requires <preset>")),
                Some(p) => Ok(Command::SelectLayout { session: t.session, window: t.window, preset: p }),
            }
        },
    }
}

/// `paste-buffer -t <target> [-b <buffer>]`, from argument `i` on.
pub open spec fn paste_buffer_from(
    a: Seq<Seq<char>>,
    i: int,
    target: Option<TargetView>,
    buffer: Option<Seq<char>>,
) -> Result<CommandView, Seq<char>>
    decreases a.len() - i,
{
    if i >= a.len() {
        match target {
            None => Err("paste-buffer requires -t <session>"@),
            Some(target) => Ok(CommandView::PasteBuffer { target, buffer }),
        }
    } else if a[i] == "-t"@ {
        if i + 1 >= a.len() {
            Err("paste-buffer requires a session name after -t"@)
        } else {
            match cli_target_spec(a[i + 1], "paste-buffer"@) {
                Ok(t) => paste_buffer_from(a, i + 2, Some(t), buffer),
                Err(e) => Err(e),
            }
        }
    } else if a[i] == "-b"@ {
        if i + 1 >= a.len() {
            Err("paste-buffer requires a buffer name after -b"@)
        } else {
            match buffer_name_spec(a[i + 1], "paste-buffer"@) {
                Ok(b) => paste_buffer_from(a, i + 2, target, Some(b)),
                Err(e) => Err(e),
            }
        }
    } else {
        Err(unsupported_argument("paste-buffer"@, a[i]))
    }
}

fn parse_paste_buffer(args: Vec<String>) -> (r: Result<Command, String>)
    ensures
        cmd_res(r) == paste_buffer_from(views(args@), 0, None, None),
{
    let ghost a = views(args@);
    let mut target: Option<Target> = None;
    let mut buffer: Option<String> = None;
    let mut i: usize = 0;
    while i < args.len()
        invariant
            i <= args.len(),
            a == views(args@),
            paste_buffer_from(a, 0, None, None) == paste_buffer_from(
                a,
                i as int,
                opt_target(target),
                opt_view(buffer),
            ),
        decreases args.len() - i,
    {
        if arg_is(&args, i, "-t") {
            if i + 1 >= args.len() {
                return Err(String::from_str("paste-buffer requires a session name after -t"));
            }
            match parse_structured_target(args[i + 1].as_str(), "paste-buffer") {
                Ok(t) => {
                    target = Some(t);
                },
                Err(e) => {
                    return Err(e);
                },
            }
            i = i + 2;
        } else if arg_is(&args, i, "-b") {
            if i + 1 >= args.len() {
                return Err(String::from_str("paste-buffer requires a buffer name after -b"));
            }
            match parse_buffer_name(&args[i + 1], "paste-buffer") {
                Ok(b) => {
                    buffer = Some(b);
                },
                Err(e) => {
                    return Err(e);
                },
            }
            i = i + 2;
        } else {
            return Err(unsupported_argument_msg("paste-buffer", args[i].as_str()));
        }
    }
    match target {
        None => Err(String::from_str("paste-buffer requires -t <session>")),
        Some(target) => Ok(Command::PasteBuffer { target, buffer }),
    }
}

/// `list-panes -t <session>[:<window>] [-F <format>]`, from argument `i`
/// on.
pub open spec fn list_panes_from(
    a: Seq<Seq<char>>,
    i: int,
    session: Option<Seq<char>>,
    window: WindowTargetView,
    format: Option<Seq<char>>,
) -> Result<CommandView, Seq<char>>
    decreases a.len() - i,
{
    if i >= a.len() {
        match session {
            None => Err("list-panes requires -t <session>"@),
            Some(session) => Ok(CommandView::ListPanes { session, window, format }),
        }
    } else if a[i] == "-t"@ {
        if i + 1 >= a.len() {
            Err("list-panes requires a session name after -t"@)
        } else {
            match cli_target_spec(a[i + 1], "list-panes"@) {
                Err(e) => Err(e),
                Ok(t) => if !(t.pane is Active) {
                    Err("list-panes target must not include a pane"@)
                } else {
                    list_panes_from(a, i + 2, Some(t.session), t.window, format)
                },
            }
        }
    } else if a[i] == "-F"@ {
        if i + 1 >= a.len() {
            Err("list-panes requires a format after -F"@)
        } else {
            list_panes_from(a, i + 2, session, window, Some(a[i + 1]))
        }
    } else {
        Err(unsupported_argument("list-panes"@, a[i]))
    }
}

fn parse_list_panes(args: Vec<String>) -> (r: Result<Command, String>)
    ensures
        cmd_res(r) == list_panes_from(views(args@), 0, None, WindowTargetView::Active, None),
{
    let ghost a = views(args@);
    let mut session: Option<String> = None;
    let mut window = WindowTarget::Active;
    let mut format: Option<String> = None;
    let mut i: usize = 0;
    while i < args.len()
        invariant
            i <= args.len(),
            a == views(args@),
            list_panes_from(a, 0, None, WindowTargetView::Active, None) == list_panes_from(
                a,
                i as int,
                opt_view(session),
                window@,
                opt_view(format),
            ),
        decreases args.len() - i,
    {
        if arg_is(&args, i, "-t") {
            if i + 1 >= args.len() {
                return Err(String::from_str("list-panes requires a session name after -t"));
            }
            let t = match parse_structured_target(args[i + 1].as_str(), "list-panes") {
                Ok(t) => t,
                Err(e) => {
                    return Err(e);
                },
            };
            match t.pane {
                PaneTarget::Active => {},
                _ => {
                    return Err(String::from_str("list-panes target must not include a pane"));
                },
            }
            session = Some(t.session);
            window = t.window;
            i = i + 2;
        } else if arg_is(&args, i, "-F") {
            if i + 1 >= args.len() {
                return Err(String::from_str("list-panes requires a format after -F"));
            }
            format = Some(args[i + 1].clone());
            i = i + 2;
        } else {
            return Err(unsupported_argument_msg("list-panes", args[i].as_str()));
        }
    }
    match session {
        None => Err(String::from_str("list-panes requires -t <session>")),
        Some(session) => Ok(Command::ListPanes { session, window, format }),
    }
}

/// The pane direction an option names.
pub open spec fn pane_direction_option(s: Seq<char>) -> Option<PaneDirection> {
    if s == "-L"@ {
        Some(PaneDirection::Left)
    } else if s == "-R"@ {
        Some(PaneDirection::Right)
    } else if s == "-U"@ {
        Some(PaneDirection::Up)
    } else if s == "-D"@ {
        Some(PaneDirection::Down)
    } else {
        None
    }
}

fn pane_direction_option_of(s: &String) -> (r: Option<PaneDirection>)
    ensures
        r == pane_direction_option(s@),
{
    if str_eq(s.as_str(), "-L") {
        Some(PaneDirection::Left)
    } else if str_eq(s.as_str(), "-R") {
        Some(PaneDirection::Right)
    } else if str_eq(s.as_str(), "-U") {
        Some(PaneDirection::Up)
    } else if str_eq(s.as_str(), "-D") {
        Some(PaneDirection::Down)
    } else {
        None
    }
}

/// `select-pane -t <target>` with one pane: from the target, `-p`,
/// `--pane-id` or a direction; from argument `i` on.
pub open spec fn select_pane_from(
    a: Seq<Seq<char>>,
    i: int,
    session: Option<Seq<char>>,
    window: WindowTargetView,
    target: Option<PaneSelectTarget>,
) -> Result<CommandView, Seq<char>>
    decreases a.len() - i,
{
    if i >= a.len() {
        match (session, target) {
            (None, _) => Err("select-pane requires -t <session>"@),
            (Some(_), None) => Err(
                "select-pane requires one of -p <index>, --pane-id <id>, or -L/-R/-U/-D"@,
            ),
            (Some(session), Some(target)) => Ok(CommandView::SelectPane { session, window, target }),
        }
    } else if a[i] == "-t"@ {
        if i + 1 >= a.len() {
            Err("select-pane requires a session name after -t"@)
        } else {
            match cli_target_spec(a[i + 1], "select-pane"@) {
                Err(e) => Err(e),
                Ok(t) => match t.pane {
                    PaneTarget::Active => select_pane_from(a, i + 2, Some(t.session), t.window, target),
                    PaneTarget::Index(k) => if target is Some {
                        Err("select-pane accepts only one pane target"@)
                    } else {
                        select_pane_from(a, i + 2, Some(t.session), t.window, Some(PaneSelectTarget::Index(k)))
                    },
                    PaneTarget::Id(k) => if target is Some {
                        Err("select-pane accepts only one pane target"@)
                    } else {
                        select_pane_from(a, i + 2, Some(t.session), t.window, Some(PaneSelectTarget::Id(k)))
                    },
                },
            }
        }
    } else if a[i] == "-p"@ || a[i] == "--pane-id"@ {
        let by_index = a[i] == "-p"@;
        if i + 1 >= a.len() {
            if by_index {
                Err("select-pane requires a pane index after -p"@)
            } else {
                Err("select-pane requires a pane id after --pane-id"@)
            }
        } else {
            match parse_unsigned(a[i + 1], usize::MAX as nat) {
                None => if by_index {
                    Err("select-pane -p must be a non-negative integer"@)
                } else {
                    Err("select-pane --pane-id must be a non-negative integer"@)
                },
                Some(n) => if target is Some {
                    Err("select-pane accepts only one pane target"@)
                } else if by_index {
                    select_pane_from(a, i + 2, session, window, Some(PaneSelectTarget::Index(n as usize)))
                } else {
                    select_pane_from(a, i + 2, session, window, Some(PaneSelectTarget::Id(n as usize)))
                },
            }
        }
    } else if pane_direction_option(a[i]) is Some {
        if target is Some {
            Err("select-pane accepts only one pane target"@)
        } else {
            select_pane_from(
                a,
                i + 1,
                session,
                window,
                Some(PaneSelectTarget::Direction(pane_direction_option(a[i])->0)),
            )
        }
    } else {
        Err(unsupported_argument("select-pane"@, a[i]))
    }
}

#[verifier::rlimit(40)]
fn parse_select_pane(args: Vec<String>) -> (r: Result<Command, String>)
    ensures
        cmd_res(r) == select_pane_from(views(args@), 0, None, WindowTargetView::Active, None),
{
    let ghost a = views(args@);
    let mut session: Option<String> = None;
    let mut window = WindowTarget::Active;
    let mut target: Option<PaneSelectTarget> = None;
    let mut i: usize = 0;
    while i < args.len()
        invariant
            i <= args.len(),
            a == views(args@),
            select_pane_from(a, 0, None, WindowTargetView::Active, None) == select_pane_from(
                a,
                i as int,
                opt_view(session),
                window@,
                target,
            ),
        decreases args.len() - i,
    {
        let dir = pane_direction_option_of(&args[i]);
        if arg_is(&args, i, "-t") {
            if i + 1 >= args.len() {
                return Err(String::from_str("select-pane requires a session name after -t"));
            }
            let t = match parse_structured_target(args[i + 1].as_str(), "select-pane") {
                Ok(t) => t,
                Err(e) => {
                    return Err(e);
                },
            };
            match t.pane {
                PaneTarget::Active => {},
                PaneTarget::Index(k) => {
                    if target.is_some() {
                        return Err(String::from_str("select-pane accepts only one pane target"));
                    }
                    target = Some(PaneSelectTarget::Index(k));
                },
                PaneTarget::Id(k) => {
                    if target.is_some() {
                        return Err(String::from_str("select-pane accepts only one pane target"));
                    }
                    target = Some(PaneSelectTarget::Id(k));
                },
            }
            session = Some(t.session);
            window = t.window;
            i = i + 2;
        } else if arg_is(&args, i, "-p") || arg_is(&args, i, "--pane-id") {
            let by_index = arg_is(&args, i, "-p");
            if i + 1 >= args.len() {
                if by_index {
                    return Err(String::from_str("select-pane requires a pane index after -p"));
                }
                return Err(String::from_str("select-pane requires a pane id after --pane-id"));
            }
            let n = match parse_usize_arg(&args[i + 1]) {
                Some(n) => n,
                None => {
                    if by_index {
                        return Err(String::from_str("select-pane -p must be a non-negative integer"));
                    }
                    return Err(String::from_str("select-pane --pane-id must be a non-negative integer"));
                },
            };
            if target.is_some() {
                return Err(String::from_str("select-pane accepts only one pane target"));
            }
            if by_index {
                target = Some(PaneSelectTarget::Index(n));
            } else {
                target = Some(PaneSelectTarget::Id(n));
            }
            i = i + 2;
        } else if dir.is_some() {
            if target.is_some() {
                return Err(String::from_str("select-pane accepts only one pane target"));
            }
            match dir {
                Some(d) => {
                    target = Some(PaneSelectTarget::Direction(d));
                },
                None => {},
            }
            i = i + 1;
        } else {
            return Err(unsupported_argument_msg("select-pane", args[i].as_str()));
        }
    }
    match (session, target) {
        (None, _) => Err(String::from_str("select-pane requires -t <session>")),
        (Some(_), None) => Err(
            String::from_str("select-pane requires one of -p <index>, --pane-id <id>, or -L/-R/-U/-D"),
        ),
        (Some(session), Some(target)) => Ok(Command::SelectPane { session, window, target }),
    }
}


/// The resize direction an option names.
pub open spec fn resize_direction_option(s: Seq<char>) -> Option<PaneResizeDirection> {
    if s == "-L"@ {
        Some(PaneResizeDirection::Left)
    } else if s == "-R"@ {
        Some(PaneResizeDirection::Right)
    } else if s == "-U"@ {
        Some(PaneResizeDirection::Up)
    } else if s == "-D"@ {
        Some(PaneResizeDirection::Down)
    } else {
        None
    }
}

fn resize_direction_option_of(s: &String) -> (r: Option<PaneResizeDirection>)
    ensures
        r == resize_direction_option(s@),
{
    if str_eq(s.as_str(), "-L") {
        Some(PaneResizeDirection::Left)
    } else if str_eq(s.as_str(), "-R") {
        Some(PaneResizeDirection::Right)
    } else if str_eq(s.as_str(), "-U") {
        Some(PaneResizeDirection::Up)
    } else if str_eq(s.as_str(), "-D") {
        Some(PaneResizeDirection::Down)
    } else {
        None
    }
}

/// `resize-pane -t <target>` with either `-x <cols> -y <rows>` or one
/// direction and an optional amount (1 when the next argument is missing or
/// is an option); from argument `i` on.
pub open spec fn resize_from(
    a: Seq<Seq<char>>,
    i: int,
    target: Option<TargetView>,
    cols: Option<u16>,
    rows: Option<u16>,
    directional: Option<PaneResize>,
) -> Result<CommandView, Seq<char>>
    decreases a.len() - i,
{
    if i >= a.len() {
        resize_finish(target, cols, rows, directional)
    } else if a[i] == "-t"@ {
        if i + 1 >= a.len() {
            Err("resize-pane requires a session name after -t"@)
        } else {
            match cli_target_spec(a[i + 1], "resize-pane"@) {
                Ok(t) => resize_from(a, i + 2, Some(t), cols, rows, directional),
                Err(e) => Err(e),
            }
        }
    } else if a[i] == "-x"@ {
        if i + 1 >= a.len() {
            Err("resize-pane requires columns after -x"@)
        } else {
            match parse_unsigned(a[i + 1], 65535) {
                Some(n) => resize_from(a, i + 2, target, Some(n as u16), rows, directional),
                None => Err("resize-pane -x must be a positive integer"@),
            }
        }
    } else if a[i] == "-y"@ {
        if i + 1 >= a.len() {
            Err("resize-pane requires rows after -y"@)
        } else {
            match parse_unsigned(a[i + 1], 65535) {
                Some(n) => resize_from(a, i + 2, target, cols, Some(n as u16), directional),
                None => Err("resize-pane -y must be a positive integer"@),
            }
        }
    } else if resize_direction_option(a[i]) is Some {
        let direction = resize_direction_option(a[i])->0;
        if directional is Some {
            Err("resize-pane accepts only one direction"@)
        } else if i + 1 < a.len() && !is_opt(a[i + 1]) {
            match positive_spec(a[i + 1], "resize-pane amount"@) {
                Ok(n) => resize_from(
                    a,
                    i + 2,
                    target,
                    cols,
                    rows,
                    Some(PaneResize::Directional { direction, amount: n }),
                ),
                Err(e) => Err(e),
            }
        } else {
            resize_from(a, i + 1, target, cols, rows, Some(PaneResize::Directional { direction, amount: 1 }))
        }
    } else {
        Err(unsupported_argument("resize-pane"@, a[i]))
    }
}

/// The resize once its options are read.
pub open spec fn resize_finish(
    target: Option<TargetView>,
    cols: Option<u16>,
    rows: Option<u16>,
    directional: Option<PaneResize>,
) -> Result<CommandView, Seq<char>> {
    match target {
        None => Err("resize-pane requires -t <session>"@),
        Some(t) => if directional is Some && (cols is Some || rows is Some) {
            Err("resize-pane accepts either -x/-y or one of -L/-R/-U/-D"@)
        } else if directional is Some {
            Ok(CommandView::ResizePane { target: t, resize: directional->0 })
        } else if !(t.window is Active) || !(t.pane is Active) {
            Err("resize-pane -x/-y does not accept an explicit window or pane target"@)
        } else {
            match (cols, rows) {
                (None, _) => Err("resize-pane requires -x <cols>"@),
                (Some(_), None) => Err("resize-pane requires -y <rows>"@),
                (Some(c), Some(r)) => Ok(
                    CommandView::ResizePane { target: t, resize: PaneResize::Absolute { cols: c, rows: r } },
                ),
            }
        }
    }
}

fn parse_u16_arg(s: &String) -> (r: Option<u16>)
    ensures
        match parse_unsigned(s@, 65535) {
            Some(n) => r == Some(n as u16),
            None => r is None,
        },
{
    let v = chars_of(s.as_str());
    match crate::text::parse_unsigned_chars(&v, 65535) {
        Some(n) => Some(n as u16),
        None => None,
    }
}

#[verifier::rlimit(40)]
fn parse_resize_pane(args: Vec<String>) -> (r: Result<Command, String>)
    ensures
        cmd_res(r) == resize_from(views(args@), 0, None, None, None, None),
{
    let ghost a = views(args@);
    let mut target: Option<Target> = None;
    let mut cols: Option<u16> = None;
    let mut rows: Option<u16> = None;
    let mut directional: Option<PaneResize> = None;
    let mut i: usize = 0;
    while i < args.len()
        invariant
            i <= args.len(),
            a == views(args@),
            resize_from(a, 0, None, None, None, None) == resize_from(
                a,
                i as int,
                opt_target(target),
                cols,
                rows,
                directional,
            ),
        decreases args.len() - i,
    {
        let dir = resize_direction_option_of(&args[i]);
        if arg_is(&args, i, "-t") {
            if i + 1 >= args.len() {
                return Err(String::from_str("resize-pane requires a session name after -t"));
            }
            match parse_structured_target(args[i + 1].as_str(), "resize-pane") {
                Ok(t) => {
                    target = Some(t);
                },
                Err(e) => {
                    return Err(e);
                },
            }
            i = i + 2;
        } else if arg_is(&args, i, "-x") {
            if i + 1 >= args.len() {
                return Err(String::from_str("resize-pane requires columns after -x"));
            }
            match parse_u16_arg(&args[i + 1]) {
                Some(n) => {
                    cols = Some(n);
                },
                None => {
                    return Err(String::from_str("resize-pane -x must be a positive integer"));
                },
            }
            i = i + 2;
        } else if arg_is(&args, i, "-y") {
            if i + 1 >= args.len() {
                return Err(String::from_str("resize-pane requires rows after -y"));
            }
            match parse_u16_arg(&args[i + 1]) {
                Some(n) => {
                    rows = Some(n);
                },
                None => {
                    return Err(String::from_str("resize-pane -y must be a positive integer"));
                },
            }
            i = i + 2;
        } else if dir.is_some() {
            let direction = match dir {
                Some(d) => d,
                None => PaneResizeDirection::Left,
            };
            if directional.is_some() {
                return Err(String::from_str("resize-pane accepts only one direction"));
            }
            if i + 1 < args.len() && !is_option(&args[i + 1]) {
                match parse_positive_usize(&args[i + 1], "resize-pane amount") {
                    Ok(n) => {
                        directional = Some(PaneResize::Directional { direction, amount: n });
                    },
                    Err(e) => {
                        return Err(e);
                    },
                }
                i = i + 2;
            } else {
                directional = Some(PaneResize::Directional { direction, amount: 1 });
                i = i + 1;
            }
        } else {
            return Err(unsupported_argument_msg("resize-pane", args[i].as_str()));
        }
    }
    let t = match target {
        None => {
            return Err(String::from_str("resize-pane requires -t <session>"));
        },
        Some(t) => t,
    };
    if directional.is_some() && (cols.is_some() || rows.is_some()) {
        return Err(String::from_str("resize-pane accepts either -x/-y or one of -L/-R/-U/-D"));
    }
    match directional {
        Some(d) => {
            return Ok(Command::ResizePane { target: t, resize: d });
        },
        None => {},
    }
    let explicit = match (&t.window, t.pane) {
        (WindowTarget::Active, PaneTarget::Active) => false,
        _ => true,
    };
    if explicit {
        return Err(String::from_str("resize-pane -x/-y does not accept an explicit window or pane target"));
    }
    match (cols, rows) {
        (None, _) => Err(String::from_str("resize-pane requires -x <cols>")),
        (Some(_), None) => Err(String::from_str("resize-pane requires -y <rows>")),
        (Some(c), Some(r)) => Ok(
            Command::ResizePane { target: t, resize: PaneResize::Absolute { cols: c, rows: r } },
        ),
    }
}

/// The command a subcommand name and its arguments stand for; `program`
/// names the executable in the message for an unknown subcommand.
pub open spec fn dispatch_spec(sub: Seq<char>, rest: Seq<Seq<char>>, program: Seq<char>) -> Result<
    CommandView,
    Seq<char>,
> {
    if sub == "__server"@ {
        Ok(CommandView::Server)
    } else if sub == "-h"@ || sub == "--help"@ {
        Ok(CommandView::Help { topic: None })
    } else if sub == "help"@ {
        help_spec(rest)
    } else if sub == "new"@ || sub == "new-session"@ {
        new_from(rest, 0, false, None)
    } else if sub == "attach"@ || sub == "attach-session"@ {
        attach_spec(rest)
    } else if sub == "ls"@ {
        list_sessions_from(rest, "ls"@, 0, None)
    } else if sub == "list-sessions"@ {
        list_sessions_from(rest, "list-sessions"@, 0, None)
    } else if sub == "rename-session"@ {
        rename_session_from(rest, 0, None, None)
    } else if sub == "list-clients"@ {
        list_clients_spec(rest)
    } else if sub == "detach-client"@ {
        detach_client_from(rest, 0, None, None)
    } else if sub == "capture-pane"@ {
        capture_spec(rest)
    } else if sub == "save-buffer"@ {
        save_buffer_spec(rest)
    } else if sub == "copy-mode"@ {
        copy_mode_spec(rest)
    } else if sub == "list-buffers"@ {
        list_buffers_from(rest, 0, None)
    } else if sub == "paste-buffer"@ {
        paste_buffer_from(rest, 0, None, None)
    } else if sub == "delete-buffer"@ {
        delete_buffer_from(rest, 0, None)
    } else if sub == "resize-pane"@ {
        resize_from(rest, 0, None, None, None, None)
    } else if sub == "select-layout"@ {
        select_layout_from(rest, 0, None, None)
    } else if sub == "send-keys"@ {
        send_keys_from(rest, 0, None)
    } else if sub == "split-window"@ || sub == "split"@ {
        split_window_from(rest, 0, None, None)
    } else if sub == "list-panes"@ {
        list_panes_from(rest, 0, None, WindowTargetView::Active, None)
    } else if sub == "select-pane"@ {
        select_pane_from(rest, 0, None, WindowTargetView::Active, None)
    } else if sub == "kill-pane"@ {
        pane_command_spec(rest, PaneKind::Kill)
    } else if sub == "swap-pane"@ {
        transfer_spec(rest, TransferKind::Swap)
    } else if sub == "move-pane"@ {
        transfer_spec(rest, TransferKind::Move)
    } else if sub == "break-pane"@ {
        transfer_spec(rest, TransferKind::Break)
    } else if sub == "join-pane"@ {
        transfer_spec(rest, TransferKind::Join)
    } else if sub == "respawn-pane"@ {
        pane_command_spec(rest, PaneKind::Respawn)
    } else if sub == "new-window"@ {
        new_window_from(rest, "new-window"@, 0, None)
    } else if sub == "new-tab"@ {
        new_window_from(rest, "new-tab"@, 0, None)
    } else if sub == "list-windows"@ {
        list_windows_spec(rest, "list-windows"@)
    } else if sub == "list-tabs"@ {
        list_windows_spec(rest, "list-tabs"@)
    } else if sub == "select-window"@ {
        select_window_spec(rest, false)
    } else if sub == "select-tab"@ {
        select_window_spec(rest, true)
    } else if sub == "rename-window"@ {
        rename_window_spec(rest, false)
    } else if sub == "rename-tab"@ {
        rename_window_spec(rest, true)
    } else if sub == "next-window"@ {
        cycle_window_spec(rest, "next-window"@, true)
    } else if sub == "next-tab"@ {
        cycle_window_spec(rest, "next-tab"@, true)
    } else if sub == "previous-window"@ {
        cycle_window_spec(rest, "previous-window"@, false)
    } else if sub == "previous-tab"@ {
        cycle_window_spec(rest, "previous-tab"@, false)
    } else if sub == "kill-window"@ {
        kill_window_spec(rest, false)
    } else if sub == "kill-tab"@ {
        kill_window_spec(rest, true)
    } else if sub == "zoom-pane"@ {
        pane_command_spec(rest, PaneKind::Zoom)
    } else if sub == "status-line"@ {
        status_line_spec(rest)
    } else if sub == "display-message"@ {
        display_message_spec(rest)
    } else if sub == "list-keys"@ {
        list_keys_spec(rest)
    } else if sub == "bind-key"@ {
        bind_key_spec(rest)
    } else if sub == "unbind-key"@ {
        unbind_key_spec(rest)
    } else if sub == "show-options"@ {
        show_options_spec(rest)
    } else if sub == "set-option"@ || sub == "set"@ {
        set_option_spec(rest)
    } else if sub == "run"@ || sub == "command"@ {
        run_spec(rest)
    } else if sub == "source-file"@ {
        source_file_spec(rest)
    } else if sub == "run-shell"@ {
        run_shell_spec(rest)
    } else if sub == "kill-session"@ {
        kill_session_spec(rest)
    } else if sub == "kill-server"@ {
        Ok(CommandView::KillServer)
    } else {
        Err(program + ": unknown command "@ + debug_quoted(sub))
    }
}

#[verifier::rlimit(100)]
fn dispatch(sub: &str, rest: Vec<String>, program: &str) -> (r: Result<Command, String>)
    ensures
        cmd_res(r) == dispatch_spec(sub@, views(rest@), program@),
{
    let ghost a = views(rest@);
    if str_eq(sub, "__server") {
        Ok(Command::Server)
    } else if str_eq(sub, "-h") || str_eq(sub, "--help") {
        Ok(Command::Help { topic: None })
    } else if str_eq(sub, "help") {
        parse_help(rest)
    } else if str_eq(sub, "new") || str_eq(sub, "new-session") {
        parse_new(rest)
    } else if str_eq(sub, "attach") || str_eq(sub, "attach-session") {
        parse_attach(rest)
    } else if str_eq(sub, "ls") {
        parse_list_sessions(rest, "ls")
    } else if str_eq(sub, "list-sessions") {
        parse_list_sessions(rest, "list-sessions")
    } else if str_eq(sub, "rename-session") {
        parse_rename_session(rest)
    } else if str_eq(sub, "list-clients") {
        parse_list_clients(rest)
    } else if str_eq(sub, "detach-client") {
        parse_detach_client(rest)
    } else if str_eq(sub, "capture-pane") {
        parse_capture(rest)
    } else if str_eq(sub, "save-buffer") {
        parse_save_buffer(rest)
    } else if str_eq(sub, "copy-mode") {
        parse_copy_mode(rest)
    } else if str_eq(sub, "list-buffers") {
        parse_list_buffers(rest)
    } else if str_eq(sub, "paste-buffer") {
        parse_paste_buffer(rest)
    } else if str_eq(sub, "delete-buffer") {
        parse_delete_buffer(rest)
    } else if str_eq(sub, "resize-pane") {
        parse_resize_pane(rest)
    } else if str_eq(sub, "select-layout") {
        parse_select_layout(rest)
    } else if str_eq(sub, "send-keys") {
        parse_send_keys(rest)
    } else if str_eq(sub, "split-window") || str_eq(sub, "split") {
        parse_split_window(rest)
    } else if str_eq(sub, "list-panes") {
        parse_list_panes(rest)
    } else if str_eq(sub, "select-pane") {
        parse_select_pane(rest)
    } else if str_eq(sub, "kill-pane") {
        parse_pane_command(rest, PaneKind::Kill)
    } else if str_eq(sub, "swap-pane") {
        parse_transfer(rest, TransferKind::Swap)
    } else if str_eq(sub, "move-pane") {
        parse_transfer(rest, TransferKind::Move)
    } else if str_eq(sub, "break-pane") {
        parse_transfer(rest, TransferKind::Break)
    } else if str_eq(sub, "join-pane") {
        parse_transfer(rest, TransferKind::Join)
    } else if str_eq(sub, "respawn-pane") {
        parse_pane_command(rest, PaneKind::Respawn)
    } else if str_eq(sub, "new-window") {
        parse_new_window(rest, "new-window")
    } else if str_eq(sub, "new-tab") {
        parse_new_window(rest, "new-tab")
    } else if str_eq(sub, "list-windows") {
        parse_list_windows(rest, "list-windows")
    } else if str_eq(sub, "list-tabs") {
        parse_list_windows(rest, "list-tabs")
    } else if str_eq(sub, "select-window") {
        parse_select_window(rest, false)
    } else if str_eq(sub, "select-tab") {
        parse_select_window(rest, true)
    } else if str_eq(sub, "rename-window") {
        parse_rename_window(rest, false)
    } else if str_eq(sub, "rename-tab") {
        parse_rename_window(rest, true)
    } else if str_eq(sub, "next-window") {
        parse_cycle_window(rest, "next-window", true)
    } else if str_eq(sub, "next-tab") {
        parse_cycle_window(rest, "next-tab", true)
    } else if str_eq(sub, "previous-window") {
        parse_cycle_window(rest, "previous-window", false)
    } else if str_eq(sub, "previous-tab") {
        parse_cycle_window(rest, "previous-tab", false)
    } else if str_eq(sub, "kill-window") {
        parse_kill_window(rest, false)
    } else if str_eq(sub, "kill-tab") {
        parse_kill_window(rest, true)
    } else if str_eq(sub, "zoom-pane") {
        parse_pane_command(rest, PaneKind::Zoom)
    } else if str_eq(sub, "status-line") {
        parse_status_line(rest)
    } else if str_eq(sub, "display-message") {
        parse_display_message(rest)
    } else if str_eq(sub, "list-keys") {
        parse_list_keys(rest)
    } else if str_eq(sub, "bind-key") {
        parse_bind_key(rest)
    } else if str_eq(sub, "unbind-key") {
        parse_unbind_key(rest)
    } else if str_eq(sub, "show-options") {
        parse_show_options(rest)
    } else if str_eq(sub, "set-option") || str_eq(sub, "set") {
        parse_set_option(rest)
    } else if str_eq(sub, "run") || str_eq(sub, "command") {
        parse_run(rest)
    } else if str_eq(sub, "source-file") {
        parse_source_file(rest)
    } else if str_eq(sub, "run-shell") {
        parse_run_shell(rest)
    } else if str_eq(sub, "kill-session") {
        parse_kill_session(rest)
    } else if str_eq(sub, "kill-server") {
        Ok(Command::KillServer)
    } else {
        let head = concat_str(program, ": unknown command ");
        Err(concat_str(head.as_str(), debug_quote(sub).as_str()))
    }
}


/// What the command line stands for: no subcommand opens the default
/// session; otherwise the first argument names the program and the second
/// the subcommand.
pub open spec fn parse_args_spec(a: Seq<Seq<char>>) -> Result<CommandView, Seq<char>> {
    if a.len() <= 1 {
        Ok(CommandView::OpenDefault)
    } else {
        dispatch_spec(a[1], a.skip(2), a[0])
    }
}

/// Parses a command line, the program name first.
pub fn parse_args(args: Vec<String>) -> (r: Result<Command, String>)
    ensures
        cmd_res(r) == parse_args_spec(views(args@)),
{
    if args.len() <= 1 {
        return Ok(Command::OpenDefault);
    }
    let rest = tail_args(&args, 2);
    dispatch(args[1].as_str(), rest, args[0].as_str())
}


/// Where the tokenizer stands after some characters: the finished
/// arguments, the one being read, the open quote, whether a backslash is
/// pending, and whether an argument has begun (an empty pair of quotes
/// begins one).
pub struct TokState {
    pub args: Seq<Seq<char>>,
    pub current: Seq<char>,
    pub quote: Option<char>,
    pub escape: bool,
    pub started: bool,
}

/// One character of a command: a backslash takes the next character
/// literally (but not inside single quotes); single and double quotes group
/// text and are dropped; whitespace outside quotes ends an argument.
pub open spec fn tok_step(s: TokState, ch: char) -> TokState {
    if s.escape {
        TokState { current: s.current.push(ch), escape: false, started: true, ..s }
    } else {
        match s.quote {
            Some(q) => if q == '\'' {
                if ch == '\'' {
                    TokState { quote: None, started: true, ..s }
                } else {
                    TokState { current: s.current.push(ch), started: true, ..s }
                }
            } else if ch == q {
                TokState { quote: None, started: true, ..s }
            } else if ch == '\\' {
                TokState { escape: true, started: true, ..s }
            } else {
                TokState { current: s.current.push(ch), started: true, ..s }
            },
            None => if ch == '\\' {
                TokState { escape: true, started: true, ..s }
            } else if ch == '\'' || ch == '"' {
                TokState { quote: Some(ch), started: true, ..s }
            } else if crate::text::is_space(ch) {
                if s.started {
                    TokState { args: s.args.push(s.current), current: Seq::empty(), started: false, ..s }
                } else {
                    s
                }
            } else {
                TokState { current: s.current.push(ch), started: true, ..s }
            },
        }
    }
}

/// The tokenizer after reading all of `input`.
pub open spec fn tok_run(input: Seq<char>) -> TokState
    decreases input.len(),
{
    if input.len() == 0 {
        TokState { args: Seq::empty(), current: Seq::empty(), quote: None, escape: false, started: false }
    } else {
        tok_step(tok_run(input.drop_last()), input.last())
    }
}

/// The arguments of a command written as a shell would: an error for a
/// trailing backslash or an unclosed quote.
pub open spec fn tokenize_spec(input: Seq<char>) -> Result<Seq<Seq<char>>, Seq<char>> {
    let s = tok_run(input);
    if s.escape {
        Err("trailing backslash in command"@)
    } else if s.quote is Some {
        Err("unterminated "@ + seq![s.quote->0] + " quote in command"@)
    } else if s.started {
        Ok(s.args.push(s.current))
    } else {
        Ok(s.args)
    }
}

/// Reading an opening double quote and then text with no double quote or
/// backslash leaves that text as the argument under way, inside the quote.
proof fn lemma_tok_run_double_quoted(t: Seq<char>)
    requires
        forall|i: int| 0 <= i < t.len() ==> t[i] != '"' && t[i] != '\\',
    ensures
        tok_run(seq!['"'] + t) == (TokState {
            args: Seq::empty(),
            current: t,
            quote: Some('"'),
            escape: false,
            started: true,
        }),
    decreases t.len(),
{
    let input = seq!['"'] + t;
    if t.len() == 0 {
        assert(input.drop_last() =~= Seq::<char>::empty());
        assert(input.last() == '"');
        let start = tok_run(Seq::<char>::empty());
        assert(start.current =~= Seq::<char>::empty());
        assert(tok_step(start, '"').current =~= t);
        assert(tok_run(input) == tok_step(start, '"'));
    } else {
        let prev = tok_run(input.drop_last());
        lemma_tok_run_double_quoted(t.drop_last());
        assert(input.drop_last() =~= seq!['"'] + t.drop_last());
        assert(prev.current == t.drop_last());
        assert(input.last() == t.last());
        assert(tok_run(input) == tok_step(prev, t.last()));
        assert(t.drop_last().push(t.last()) =~= t);
        assert(tok_step(prev, t.last()).current =~= t);
    }
}

/// Inside double quotes a backslash takes the next character, whatever it
/// is, into the argument: a quoted text with an escaped character before
/// its closing quote is one argument, the text and that character.
pub proof fn law_tokenize_escape_in_double_quotes(t: Seq<char>, c: char)
    requires
        forall|i: int| 0 <= i < t.len() ==> t[i] != '"' && t[i] != '\\',
    ensures
        tokenize_spec(seq!['"'] + t + seq!['\\', c, '"']) == Ok::<Seq<Seq<char>>, Seq<char>>(
            seq![t.push(c)],
        ),
{
    let quoted = seq!['"'] + t;
    lemma_tok_run_double_quoted(t);
    let a = quoted.push('\\');
    let b = a.push(c);
    let input = b.push('"');
    assert(input =~= seq!['"'] + t + seq!['\\', c, '"']);
    assert(input.drop_last() =~= b);
    assert(b.drop_last() =~= a);
    assert(a.drop_last() =~= quoted);
    let s0 = tok_run(quoted);
    assert(tok_run(a) == tok_step(s0, '\\'));
    let s1 = tok_step(s0, '\\');
    assert(s1.escape && s1.current == t && s1.quote == Some('"'));
    assert(tok_run(b) == tok_step(s1, c));
    let s2 = tok_step(s1, c);
    assert(s2.current == t.push(c) && !s2.escape && s2.quote == Some('"'));
    assert(tok_run(input) == tok_step(s2, '"'));
    let done = tok_step(s2, '"');
    assert(done.quote is None && !done.escape && done.started);
    assert(done.args =~= Seq::<Seq<char>>::empty());
    assert(done.args.push(done.current) =~= seq![t.push(c)]);
}

/// Reading an opening single quote and then text with no single quote
/// leaves that text, backslashes included, as the argument under way.
proof fn lemma_tok_run_single_quoted(t: Seq<char>)
    requires
        forall|i: int| 0 <= i < t.len() ==> t[i] != '\'',
    ensures
        tok_run(seq!['\''] + t) == (TokState {
            args: Seq::empty(),
            current: t,
            quote: Some('\''),
            escape: false,
            started: true,
        }),
    decreases t.len(),
{
    let input = seq!['\''] + t;
    if t.len() == 0 {
        assert(input.drop_last() =~= Seq::<char>::empty());
        assert(input.last() == '\'');
        let start = tok_run(Seq::<char>::empty());
        assert(tok_step(start, '\'').current =~= t);
        assert(tok_run(input) == tok_step(start, '\''));
    } else {
        let prev = tok_run(input.drop_last());
        lemma_tok_run_single_quoted(t.drop_last());
        assert(input.drop_last() =~= seq!['\''] + t.drop_last());
        assert(input.last() == t.last());
        assert(tok_run(input) == tok_step(prev, t.last()));
        assert(t.drop_last().push(t.last()) =~= t);
        assert(tok_step(prev, t.last()).current =~= t);
    }
}

/// Reading a word with no quote, backslash or whitespace leaves it as the
/// argument under way.
proof fn lemma_tok_run_word(t: Seq<char>)
    requires
        forall|i: int|
            0 <= i < t.len() ==> t[i] != '"' && t[i] != '\'' && t[i] != '\\' && !crate::text::is_space(
                #[trigger] t[i],
            ),
    ensures
        tok_run(t) == (TokState {
            args: Seq::empty(),
            current: t,
            quote: None,
            escape: false,
            started: t.len() > 0,
        }),
    decreases t.len(),
{
    if t.len() == 0 {
        assert(tok_run(t).current =~= t);
    } else {
        let prev = tok_run(t.drop_last());
        lemma_tok_run_word(t.drop_last());
        assert(t.drop_last().push(t.last()) =~= t);
        assert(tok_step(prev, t.last()).current =~= t);
    }
}

/// Outside quotes a backslash takes the next character, whatever it is
/// (a quote, a space, a backslash), into the argument.
pub proof fn law_tokenize_escape_outside_quotes(t: Seq<char>, c: char)
    requires
        forall|i: int|
            0 <= i < t.len() ==> t[i] != '"' && t[i] != '\'' && t[i] != '\\' && !crate::text::is_space(
                #[trigger] t[i],
            ),
    ensures
        tokenize_spec(t + seq!['\\', c]) == Ok::<Seq<Seq<char>>, Seq<char>>(seq![t.push(c)]),
{
    lemma_tok_run_word(t);
    let a = t.push('\\');
    let input = a.push(c);
    assert(input =~= t + seq!['\\', c]);
    assert(input.drop_last() =~= a);
    assert(a.drop_last() =~= t);
    let s0 = tok_run(t);
    assert(tok_run(a) == tok_step(s0, '\\'));
    let s1 = tok_step(s0, '\\');
    assert(tok_run(input) == tok_step(s1, c));
    let done = tok_step(s1, c);
    assert(done.current == t.push(c) && !done.escape && done.quote is None && done.started);
    assert(done.args =~= Seq::<Seq<char>>::empty());
    assert(done.args.push(done.current) =~= seq![t.push(c)]);
}

/// Inside single quotes a backslash is kept as it is.
pub proof fn law_tokenize_backslash_literal_in_single_quotes(t: Seq<char>)
    requires
        forall|i: int| 0 <= i < t.len() ==> t[i] != '\'',
    ensures
        tokenize_spec(seq!['\''] + t + seq!['\\', '\'']) == Ok::<Seq<Seq<char>>, Seq<char>>(
            seq![t.push('\\')],
        ),
{
    let quoted = seq!['\''] + t;
    lemma_tok_run_single_quoted(t);
    let a = quoted.push('\\');
    let input = a.push('\'');
    assert(input =~= seq!['\''] + t + seq!['\\', '\'']);
    assert(input.drop_last() =~= a);
    assert(a.drop_last() =~= quoted);
    let s0 = tok_run(quoted);
    assert(tok_run(a) == tok_step(s0, '\\'));
    let s1 = tok_step(s0, '\\');
    assert(s1.current == t.push('\\') && !s1.escape && s1.quote == Some('\''));
    assert(tok_run(input) == tok_step(s1, '\''));
    let done = tok_step(s1, '\'');
    assert(done.quote is None && !done.escape && done.started);
    assert(done.args =~= Seq::<Seq<char>>::empty());
    assert(done.args.push(done.current) =~= seq![t.push('\\')]);
}

/// An argument-list result with its text as characters.
pub open spec fn args_res(r: Result<Vec<String>, String>) -> Result<Seq<Seq<char>>, Seq<char>> {
    match r {
        Ok(v) => Ok(views(v@)),
        Err(e) => Err(e@),
    }
}

/// Splits a command into its arguments, with shell-like quoting.
pub fn tokenize_command(input: &str) -> (r: Result<Vec<String>, String>)
    ensures
        args_res(r) == tokenize_spec(input@),
{
    let chars = chars_of(input);
    let mut args: Vec<String> = Vec::new();
    let mut current: Vec<char> = Vec::new();
    let mut quote: Option<char> = None;
    let mut escape = false;
    let mut started = false;
    let mut i: usize = 0;
    while i < chars.len()
        invariant
            i <= chars.len(),
            chars@ == input@,
            ({
                let st = tok_run(chars@.take(i as int));
                &&& views(args@) == st.args
                &&& current@ == st.current
                &&& quote == st.quote
                &&& escape == st.escape
                &&& started == st.started
            }),
        decreases chars.len() - i,
    {
        let ch = chars[i];
        proof {
            assert(chars@.take(i + 1).drop_last() =~= chars@.take(i as int));
            assert(chars@.take(i + 1).last() == ch);
        }
        if escape {
            current.push(ch);
            started = true;
            escape = false;
        } else {
            match quote {
                Some(q) => {
                    if q == '\'' {
                        if ch == '\'' {
                            quote = None;
                        } else {
                            current.push(ch);
                        }
                    } else if ch == q {
                        quote = None;
                    } else if ch == '\\' {
                        escape = true;
                    } else {
                        current.push(ch);
                    }
                    started = true;
                },
                None => {
                    if ch == '\\' {
                        escape = true;
                        started = true;
                    } else if ch == '\'' || ch == '"' {
                        quote = Some(ch);
                        started = true;
                    } else if crate::text::is_space_char(ch) {
                        if started {
                            let ghost before = args@;
                            args.push(string_from_chars(&current));
                            assert(views(args@) =~= views(before).push(current@));
                            current = Vec::new();
                            started = false;
                        }
                    } else {
                        current.push(ch);
                        started = true;
                    }
                },
            }
        }
        i = i + 1;
    }
    assert(chars@.take(i as int) =~= input@);
    if escape {
        return Err(String::from_str("trailing backslash in command"));
    }
    match quote {
        Some(q) => {
            let mut m = String::from_str("unterminated ");
            crate::text::push_char(&mut m, q);
            assert(m@ =~= "unterminated "@ + seq![q]);
            return Err(concat_str(m.as_str(), " quote in command"));
        },
        None => {},
    }
    if started {
        let ghost before = args@;
        args.push(string_from_chars(&current));
        assert(views(args@) =~= views(before).push(current@));
    }
    Ok(args)
}


/// Where the sequence splitter stands after some characters: the commands
/// finished, the one being read (quotes and backslashes kept), the open
/// quote, and whether a backslash is pending.
pub struct SeqState {
    pub commands: Seq<Seq<char>>,
    pub current: Seq<char>,
    pub quote: Option<char>,
    pub escape: bool,
}

/// One character of a command sequence: `;` outside quotes ends a command
/// (kept only when it is not blank, and trimmed); everything else is kept
/// as written for the tokenizer.
pub open spec fn seq_step(s: SeqState, ch: char) -> SeqState {
    if s.escape {
        SeqState { current: s.current.push('\\').push(ch), escape: false, ..s }
    } else {
        match s.quote {
            Some(q) => if q == '\'' {
                if ch == '\'' {
                    SeqState { quote: None, current: s.current.push(ch), ..s }
                } else {
                    SeqState { current: s.current.push(ch), ..s }
                }
            } else if ch == '\\' {
                SeqState { escape: true, ..s }
            } else if ch == q {
                SeqState { quote: None, current: s.current.push(ch), ..s }
            } else {
                SeqState { current: s.current.push(ch), ..s }
            },
            None => if ch == '\\' {
                SeqState { escape: true, ..s }
            } else if ch == '\'' || ch == '"' {
                SeqState { quote: Some(ch), current: s.current.push(ch), ..s }
            } else if ch == ';' {
                let command = crate::text::trim(s.current);
                SeqState {
                    commands: if command.len() > 0 {
                        s.commands.push(command)
                    } else {
                        s.commands
                    },
                    current: Seq::empty(),
                    ..s
                }
            } else {
                SeqState { current: s.current.push(ch), ..s }
            },
        }
    }
}

/// The splitter after reading all of `input`.
pub open spec fn seq_run(input: Seq<char>) -> SeqState
    decreases input.len(),
{
    if input.len() == 0 {
        SeqState { commands: Seq::empty(), current: Seq::empty(), quote: None, escape: false }
    } else {
        seq_step(seq_run(input.drop_last()), input.last())
    }
}

/// The commands of a `;`-separated sequence, each trimmed, blank ones
/// dropped; an error for a trailing backslash or an unclosed quote.
pub open spec fn split_sequence_spec(input: Seq<char>) -> Result<Seq<Seq<char>>, Seq<char>> {
    let s = seq_run(input);
    if s.escape {
        Err("trailing backslash in command sequence"@)
    } else if s.quote is Some {
        Err("unterminated "@ + seq![s.quote->0] + " quote in command sequence"@)
    } else {
        let command = crate::text::trim(s.current);
        Ok(
            if command.len() > 0 {
                s.commands.push(command)
            } else {
                s.commands
            },
        )
    }
}

fn split_command_sequence(input: &[char]) -> (r: Result<Vec<String>, String>)
    ensures
        args_res(r) == split_sequence_spec(input@),
{
    let mut commands: Vec<String> = Vec::new();
    let mut current: Vec<char> = Vec::new();
    let mut quote: Option<char> = None;
    let mut escape = false;
    let mut i: usize = 0;
    while i < input.len()
        invariant
            i <= input.len(),
            ({
                let st = seq_run(input@.take(i as int));
                &&& views(commands@) == st.commands
                &&& current@ == st.current
                &&& quote == st.quote
                &&& escape == st.escape
            }),
        decreases input.len() - i,
    {
        let ch = input[i];
        proof {
            assert(input@.take(i + 1).drop_last() =~= input@.take(i as int));
            assert(input@.take(i + 1).last() == ch);
        }
        if escape {
            current.push('\\');
            current.push(ch);
            escape = false;
        } else {
            match quote {
                Some(q) => {
                    if q == '\'' {
                        if ch == '\'' {
                            quote = None;
                        }
                        current.push(ch);
                    } else if ch == '\\' {
                        escape = true;
                    } else {
                        if ch == q {
                            quote = None;
                        }
                        current.push(ch);
                    }
                },
                None => {
                    if ch == '\\' {
                        escape = true;
                    } else if ch == '\'' || ch == '"' {
                        quote = Some(ch);
                        current.push(ch);
                    } else if ch == ';' {
                        let command = crate::text::trim_chars(&current);
                        if command.len() > 0 {
                            let ghost before = commands@;
                            commands.push(string_from_chars(&command));
                            assert(views(commands@) =~= views(before).push(command@));
                        }
                        current = Vec::new();
                    } else {
                        current.push(ch);
                    }
                },
            }
        }
        i = i + 1;
    }
    assert(input@.take(i as int) =~= input@);
    if escape {
        return Err(String::from_str("trailing backslash in command sequence"));
    }
    match quote {
        Some(q) => {
            let mut m = String::from_str("unterminated ");
            crate::text::push_char(&mut m, q);
            assert(m@ =~= "unterminated "@ + seq![q]);
            return Err(concat_str(m.as_str(), " quote in command sequence"));
        },
        None => {},
    }
    let command = crate::text::trim_chars(&current);
    if command.len() > 0 {
        let ghost before = commands@;
        commands.push(string_from_chars(&command));
        assert(views(commands@) =~= views(before).push(command@));
    }
    Ok(commands)
}

/// Each command of a sequence with its arguments, in order; the first
/// command that does not tokenize gives the error.
pub open spec fn tokenize_all(commands: Seq<Seq<char>>) -> Result<Seq<(Seq<char>, Seq<Seq<char>>)>, Seq<char>>
    decreases commands.len(),
{
    if commands.len() == 0 {
        Ok(Seq::empty())
    } else {
        match tokenize_spec(commands[0]) {
            Err(e) => Err(e),
            Ok(argv) => match tokenize_all(commands.drop_first()) {
                Err(e) => Err(e),
                Ok(rest) => Ok(seq![(commands[0], argv)] + rest),
            },
        }
    }
}

/// The commands of a `;`-separated sequence, each with its arguments.
pub open spec fn command_sequence_spec(input: Seq<char>) -> Result<Seq<(Seq<char>, Seq<Seq<char>>)>, Seq<char>> {
    match split_sequence_spec(input) {
        Err(e) => Err(e),
        Ok(commands) => tokenize_all(commands),
    }
}

/// A script command as its text and its arguments.
pub open spec fn script_view(c: ScriptCommand) -> (Seq<char>, Seq<Seq<char>>) {
    (c.source@, views(c.argv@))
}

/// The text and arguments of each script command, in order.
pub open spec fn script_views(v: Seq<ScriptCommand>) -> Seq<(Seq<char>, Seq<Seq<char>>)> {
    v.map_values(|c: ScriptCommand| script_view(c))
}

/// A sequence result as texts and arguments.
pub open spec fn script_res(r: Result<Vec<ScriptCommand>, String>) -> Result<
    Seq<(Seq<char>, Seq<Seq<char>>)>,
    Seq<char>,
> {
    match r {
        Ok(v) => Ok(script_views(v@)),
        Err(e) => Err(e@),
    }
}

/// A prefix of results put before the rest, or the rest's error.
pub open spec fn after<T>(done: Seq<T>, rest: Result<Seq<T>, Seq<char>>) -> Result<Seq<T>, Seq<char>> {
    match rest {
        Ok(r) => Ok(done + r),
        Err(e) => Err(e),
    }
}

fn parse_command_sequence_chars(input: &[char]) -> (r: Result<Vec<ScriptCommand>, String>)
    ensures
        script_res(r) == command_sequence_spec(input@),
{
    let commands = match split_command_sequence(input) {
        Ok(c) => c,
        Err(e) => {
            return Err(e);
        },
    };
    let ghost cs = views(commands@);
    let mut out: Vec<ScriptCommand> = Vec::new();
    let mut i: usize = 0;
    assert(cs.skip(0) =~= cs);
    assert(Seq::<(Seq<char>, Seq<Seq<char>>)>::empty() + Seq::empty() =~= Seq::<(Seq<char>, Seq<Seq<char>>)>::empty());
    while i < commands.len()
        invariant
            i <= commands.len(),
            cs == views(commands@),
            split_sequence_spec(input@) == Ok::<Seq<Seq<char>>, Seq<char>>(cs),
            tokenize_all(cs) == after(script_views(out@), tokenize_all(cs.skip(i as int))),
        decreases commands.len() - i,
    {
        proof {
            assert(cs.skip(i as int)[0] == commands@[i as int]@);
            assert(cs.skip(i as int).drop_first() =~= cs.skip(i + 1));
        }
        let argv = match tokenize_command(commands[i].as_str()) {
            Ok(a) => a,
            Err(e) => {
                assert(cs.skip(i as int).len() > 0);
                assert(tokenize_all(cs.skip(i as int)) == Err::<Seq<(Seq<char>, Seq<Seq<char>>)>, Seq<char>>(e@));
                return Err(e);
            },
        };
        let ghost before = out@;
        out.push(ScriptCommand { source: commands[i].clone(), argv });
        proof {
            assert(script_views(out@) =~= script_views(before).push((commands@[i as int]@, views(argv@))));
            match tokenize_all(cs.skip(i + 1)) {
                Ok(rest) => {
                    assert(script_views(before) + (seq![(commands@[i as int]@, views(argv@))] + rest)
                        =~= script_views(out@) + rest);
                },
                Err(_) => {},
            }
        }
        i = i + 1;
    }
    proof {
        assert(cs.skip(i as int) =~= Seq::<Seq<char>>::empty());
        assert(script_views(out@) + Seq::<(Seq<char>, Seq<Seq<char>>)>::empty() =~= script_views(out@));
    }
    Ok(out)
}

/// Splits a `;`-separated command sequence and tokenizes each command.
pub fn parse_command_sequence(input: &str) -> (r: Result<Vec<ScriptCommand>, String>)
    ensures
        script_res(r) == command_sequence_spec(input@),
{
    let chars = chars_of(input);
    parse_command_sequence_chars(&chars)
}


/// The commands of a sequence, each tagged with a line number.
pub open spec fn with_line(line: usize, cmds: Seq<(Seq<char>, Seq<Seq<char>>)>) -> Seq<
    (usize, Seq<char>, Seq<Seq<char>>),
> {
    cmds.map_values(|c: (Seq<char>, Seq<Seq<char>>)| (line, c.0, c.1))
}

/// The commands of a script from line `k` (counted from 0) on: blank
/// lines and lines starting with `#` are skipped; an error names its line.
pub open spec fn file_from(lines: Seq<Seq<char>>, k: int) -> Result<
    Seq<(usize, Seq<char>, Seq<Seq<char>>)>,
    Seq<char>,
>
    decreases lines.len() - k,
{
    if k >= lines.len() {
        Ok(Seq::empty())
    } else {
        let t = crate::text::trim(lines[k]);
        if t.len() == 0 || t[0] == '#' {
            file_from(lines, k + 1)
        } else {
            match command_sequence_spec(lines[k]) {
                Err(e) => Err("line "@ + crate::text::decimal((k + 1) as nat) + ": "@ + e),
                Ok(cmds) => after(with_line((k + 1) as usize, cmds), file_from(lines, k + 1)),
            }
        }
    }
}

/// The commands of a script file.
pub open spec fn command_file_spec(contents: Seq<char>) -> Result<
    Seq<(usize, Seq<char>, Seq<Seq<char>>)>,
    Seq<char>,
> {
    file_from(crate::text::text_lines(contents), 0)
}

/// A script entry as its line, text and arguments.
pub open spec fn entry_views(v: Seq<CommandFileEntry>) -> Seq<(usize, Seq<char>, Seq<Seq<char>>)> {
    v.map_values(|e: CommandFileEntry| (e.line, e.command.source@, views(e.command.argv@)))
}

/// A script result as lines, texts and arguments.
pub open spec fn entries_res(r: Result<Vec<CommandFileEntry>, String>) -> Result<
    Seq<(usize, Seq<char>, Seq<Seq<char>>)>,
    Seq<char>,
> {
    match r {
        Ok(v) => Ok(entry_views(v@)),
        Err(e) => Err(e@),
    }
}

fn append_entries(out: &mut Vec<CommandFileEntry>, line: usize, cmds: Vec<ScriptCommand>)
    ensures
        entry_views(final(out)@) == entry_views(old(out)@) + with_line(line, script_views(cmds@)),
{
    let ghost start = entry_views(out@);
    let mut j: usize = 0;
    let mut cmds = cmds;
    let ghost all = script_views(cmds@);
    assert(all.skip(0) =~= all);
    let total = cmds.len();
    assert(all.len() == total);
    assert(start + with_line(line, all.take(0)) =~= start);
    while cmds.len() > 0
        invariant
            j + cmds.len() == all.len(),
            all.len() <= usize::MAX,
            script_views(cmds@) == all.skip(j as int),
            entry_views(out@) == start + with_line(line, all.take(j as int)),
        decreases cmds.len(),
    {
        let ghost old_cmds = cmds@;
        let command = cmds.remove(0);
        proof {
            assert(script_views(old_cmds)[0] == all.skip(j as int)[0]);
            assert(script_view(command) == all[j as int]);
            assert(script_views(cmds@) =~= script_views(old_cmds).drop_first());
            assert(script_views(cmds@) =~= all.skip(j + 1));
            assert(all.take(j + 1) =~= all.take(j as int).push(all[j as int]));
            assert(with_line(line, all.take(j + 1)) =~= with_line(line, all.take(j as int)).push(
                (line, all[j as int].0, all[j as int].1),
            ));
        }
        let ghost before = out@;
        out.push(CommandFileEntry { line, command });
        assert(entry_views(out@) =~= entry_views(before).push((line, all[j as int].0, all[j as int].1)));
        j = j + 1;
    }
    assert(all.take(j as int) =~= all);
}

/// Parses a script file: one `;`-separated command sequence per line,
/// blank lines and `#` comments skipped.
pub fn parse_command_file(contents: &str) -> (r: Result<Vec<CommandFileEntry>, String>)
    ensures
        entries_res(r) == command_file_spec(contents@),
{
    let chars = chars_of(contents);
    let lines = crate::text::lines_of(&chars);
    let ghost ls = crate::text::text_lines(contents@);
    assert(ls.len() == lines@.len());
    let mut out: Vec<CommandFileEntry> = Vec::new();
    let mut k: usize = 0;
    assert(entry_views(out@) + Seq::empty() =~= Seq::<(usize, Seq<char>, Seq<Seq<char>>)>::empty());
    while k < lines.len()
        invariant
            k <= lines.len() == ls.len(),
            ls == crate::text::text_lines(contents@),
            forall|j: int| 0 <= j < lines@.len() ==> (#[trigger] lines@[j])@ == ls[j],
            file_from(ls, 0) == after(entry_views(out@), file_from(ls, k as int)),
        decreases lines.len() - k,
    {
        let t = crate::text::trim_chars(&lines[k]);
        if t.len() == 0 || t[0] == '#' {
            k = k + 1;
        } else {
            match parse_command_sequence_chars(&lines[k]) {
                Err(e) => {
                    let head = concat_str("line ", crate::text::usize_string(k + 1).as_str());
                    let head = concat_str(head.as_str(), ": ");
                    return Err(concat_str(head.as_str(), e.as_str()));
                },
                Ok(cmds) => {
                    let ghost before = entry_views(out@);
                    let ghost cv = script_views(cmds@);
                    append_entries(&mut out, k + 1, cmds);
                    proof {
                        match file_from(ls, k + 1) {
                            Ok(rest) => {
                                assert(before + (with_line((k + 1) as usize, cv) + rest) =~= entry_views(out@)
                                    + rest);
                            },
                            Err(_) => {},
                        }
                    }
                    k = k + 1;
                },
            }
        }
    }
    assert(entry_views(out@) + Seq::empty() =~= entry_views(out@));
    Ok(out)
}


/// The text of the general help page.
pub open spec fn general_help_text() -> Seq<char> {
    "Usage: dmux <command> [options]\n\
\n\
Commands:\n\
  new [-d] -s <name> [-- command...]    create a session; attach unless -d is used\n\
  attach [-t <name>]                    attach to a session; defaults to default\n\
  ls                                    list sessions\n\
  split-window -t <name> -h|-v [-- command...]\n\
  select-layout -t <name> <preset>       apply even-horizontal/even-vertical/tiled/main-*\n\
  list-panes -t <name> [-F <format>]\n\
  select-pane -t <name> -p <index>|--pane-id <id>|-L|-R|-U|-D\n\
  swap-pane -s <target> -t <target>      swap two panes in one window\n\
  move-pane -s <target> -t <target> [-h|-v]\n\
  break-pane -t <target>                 move pane into a new window\n\
  join-pane -s <target> -t <target> [-h|-v]\n\
  respawn-pane -t <name> [-p <index>] [-k] [-- command...]\n\
  new-window -t <name> [-- command...]\n\
  list-windows -t <name> [-F <format>]\n\
  select-window -t <name> -w <index>|--window-id <id>|-n <name>\n\
  rename-window -t <name> [-w <index>|--window-id <id>|-n <old-name>] <new-name>\n\
  next-window -t <name>                  cycle to next window\n\
  previous-window -t <name>              cycle to previous window\n\
  new-tab -t <name> [-- command...]      alias for new-window\n\
  list-tabs -t <name> [-F <format>]      alias for list-windows\n\
  select-tab -t <name> -i <index>|--tab-id <id>|-n <name>\n\
  rename-tab -t <name> [-i <index>|--tab-id <id>|-n <old-name>] <new-name>\n\
  next-tab/previous-tab -t <name>        aliases for window cycling\n\
  kill-tab -t <name> [-i <index>]        alias for kill-window\n\
  run <command; command...>              run dmux commands in order; stops on first error\n\
  source-file <path>                     run newline-separated dmux commands from a file\n\
  run-shell <shell-command>              run a host shell command and report its status\n\
  list-keys [-F <format>]                list runtime prefix key bindings\n\
  bind-key <key> <action>                bind prefix key to a supported live action\n\
  unbind-key <key>                       remove a prefix binding\n\
  show-options [-F <format>]             list runtime server options\n\
  set-option <name> <value>              set runtime server option\n\
  kill-session -t <name>\n\
  kill-server\n\
\n\
Targets:\n\
  <session>[:<window>[.<pane>]] where numeric values are indexes,\n\
  @<id> selects a window id, %<id> selects a pane id, and =<name> selects a window name\n\
  Session names cannot contain ':' because ':' separates structured targets\n\
\n\
Help:\n\
  dmux help attach\n\
  dmux attach --help\n"@
}

/// The general help page.
pub fn general_help() -> (r: &'static str)
    ensures
        r@ == general_help_text(),
{
    "Usage: dmux <command> [options]\n\
\n\
Commands:\n\
  new [-d] -s <name> [-- command...]    create a session; attach unless -d is used\n\
  attach [-t <name>]                    attach to a session; defaults to default\n\
  ls                                    list sessions\n\
  split-window -t <name> -h|-v [-- command...]\n\
  select-layout -t <name> <preset>       apply even-horizontal/even-vertical/tiled/main-*\n\
  list-panes -t <name> [-F <format>]\n\
  select-pane -t <name> -p <index>|--pane-id <id>|-L|-R|-U|-D\n\
  swap-pane -s <target> -t <target>      swap two panes in one window\n\
  move-pane -s <target> -t <target> [-h|-v]\n\
  break-pane -t <target>                 move pane into a new window\n\
  join-pane -s <target> -t <target> [-h|-v]\n\
  respawn-pane -t <name> [-p <index>] [-k] [-- command...]\n\
  new-window -t <name> [-- command...]\n\
  list-windows -t <name> [-F <format>]\n\
  select-window -t <name> -w <index>|--window-id <id>|-n <name>\n\
  rename-window -t <name> [-w <index>|--window-id <id>|-n <old-name>] <new-name>\n\
  next-window -t <name>                  cycle to next window\n\
  previous-window -t <name>              cycle to previous window\n\
  new-tab -t <name> [-- command...]      alias for new-window\n\
  list-tabs -t <name> [-F <format>]      alias for list-windows\n\
  select-tab -t <name> -i <index>|--tab-id <id>|-n <name>\n\
  rename-tab -t <name> [-i <index>|--tab-id <id>|-n <old-name>] <new-name>\n\
  next-tab/previous-tab -t <name>        aliases for window cycling\n\
  kill-tab -t <name> [-i <index>]        alias for kill-window\n\
  run <command; command...>              run dmux commands in order; stops on first error\n\
  source-file <path>                     run newline-separated dmux commands from a file\n\
  run-shell <shell-command>              run a host shell command and report its status\n\
  list-keys [-F <format>]                list runtime prefix key bindings\n\
  bind-key <key> <action>                bind prefix key to a supported live action\n\
  unbind-key <key>                       remove a prefix binding\n\
  show-options [-F <format>]             list runtime server options\n\
  set-option <name> <value>              set runtime server option\n\
  kill-session -t <name>\n\
  kill-server\n\
\n\
Targets:\n\
  <session>[:<window>[.<pane>]] where numeric values are indexes,\n\
  @<id> selects a window id, %<id> selects a pane id, and =<name> selects a window name\n\
  Session names cannot contain ':' because ':' separates structured targets\n\
\n\
Help:\n\
  dmux help attach\n\
  dmux attach --help\n"
}

/// The opening lines of the help page of `attach`, before its key summary.
pub open spec fn attach_help_head() -> Seq<char> {
    "Usage: dmux attach [-t <name>]\n\
\n\
If -t is omitted, attach targets default. The status line shows the active session,\n\
window, pane, and quick hints for prefix, help, command prompt, and copy-mode.\n\
\n\
"@
}

/// The text of the help page of `attach`: its opening lines, then the key
/// summary shown over an attached session.
pub open spec fn attach_help_text() -> Seq<char> {
    attach_help_head() + attach_overlay_text()
}

/// The help page of `attach`.
#[verifier::rlimit(100)]
pub fn attach_help() -> (r: &'static str)
    ensures
        r@ == attach_help_text(),
{
    proof {
        reveal_strlit("Usage: dmux attach [-t <name>]\n\
\n\
If -t is omitted, attach targets default. The status line shows the active session,\n\
window, pane, and quick hints for prefix, help, command prompt, and copy-mode.\n\
\n\
Session:\n\
  C-b d detach / C-b D detach    C-b C-b send literal prefix    C-b ? show this help\n\
Windows:\n\
  C-b c new window        C-b n/p next/previous window\n\
Panes:\n\
  C-b % split right       C-b \" split down       C-b o next pane\n\
  C-b h/j/k/l focus       C-b H/J/K/L resize by 5\n\
  Alt-h/j/k/l or Alt-arrows focus without the prefix\n\
  C-b q pane numbers      C-b x close pane       C-b z zoom pane\n\
Copy:\n\
  C-b [ copy-mode         copy-mode: j/k arrows PgUp/PgDn y/Enter copy q/Esc exit\n\
Prompt:\n\
  C-b : command prompt    Enter run    Esc/C-c cancel    Backspace edit\n\
  Prompt accepts semicolon-separated commands; source-file reads prompt commands.\n\
  Key bindings and options are runtime/server-scoped; use list-keys/show-options to inspect.\n\
Prompt examples:\n\
  :split -h               :split -v               :rename-window api\n\
  :layout tiled           :swap-pane 1            :break-pane\n\
  :join-pane -s 1.0       :select-window 0        :list-windows\n\
CLI equivalents:\n\
  dmux split-window -t <name> -h|-v [-- command...]\n\
  dmux select-layout -t <name> tiled|even-horizontal|even-vertical|main-horizontal|main-vertical\n\
  dmux resize-pane -t <name> -L|-R|-U|-D [amount]\n\
  dmux select-pane -t <name> -p <index>|--pane-id <id>|-L|-R|-U|-D\n");
        reveal_strlit("Usage: dmux attach [-t <name>]\n\
\n\
If -t is omitted, attach targets default. The status line shows the active session,\n\
window, pane, and quick hints for prefix, help, command prompt, and copy-mode.\n\
\n\
");
        reveal_strlit("Session:\n\
  C-b d detach / C-b D detach    C-b C-b send literal prefix    C-b ? show this help\n\
Windows:\n\
  C-b c new window        C-b n/p next/previous window\n\
Panes:\n\
  C-b % split right       C-b \" split down       C-b o next pane\n\
  C-b h/j/k/l focus       C-b H/J/K/L resize by 5\n\
  Alt-h/j/k/l or Alt-arrows focus without the prefix\n\
  C-b q pane numbers      C-b x close pane       C-b z zoom pane\n\
Copy:\n\
  C-b [ copy-mode         copy-mode: j/k arrows PgUp/PgDn y/Enter copy q/Esc exit\n\
Prompt:\n\
  C-b : command prompt    Enter run    Esc/C-c cancel    Backspace edit\n\
  Prompt accepts semicolon-separated commands; source-file reads prompt commands.\n\
  Key bindings and options are runtime/server-scoped; use list-keys/show-options to inspect.\n\
Prompt examples:\n\
  :split -h               :split -v               :rename-window api\n\
  :layout tiled           :swap-pane 1            :break-pane\n\
  :join-pane -s 1.0       :select-window 0        :list-windows\n\
CLI equivalents:\n\
  dmux split-window -t <name> -h|-v [-- command...]\n\
  dmux select-layout -t <name> tiled|even-horizontal|even-vertical|main-horizontal|main-vertical\n\
  dmux resize-pane -t <name> -L|-R|-U|-D [amount]\n\
  dmux select-pane -t <name> -p <index>|--pane-id <id>|-L|-R|-U|-D\n");
        assert("Usage: dmux attach [-t <name>]\n\
\n\
If -t is omitted, attach targets default. The status line shows the active session,\n\
window, pane, and quick hints for prefix, help, command prompt, and copy-mode.\n\
\n\
Session:\n\
  C-b d detach / C-b D detach    C-b C-b send literal prefix    C-b ? show this help\n\
Windows:\n\
  C-b c new window        C-b n/p next/previous window\n\
Panes:\n\
  C-b % split right       C-b \" split down       C-b o next pane\n\
  C-b h/j/k/l focus       C-b H/J/K/L resize by 5\n\
  Alt-h/j/k/l or Alt-arrows focus without the prefix\n\
  C-b q pane numbers      C-b x close pane       C-b z zoom pane\n\
Copy:\n\
  C-b [ copy-mode         copy-mode: j/k arrows PgUp/PgDn y/Enter copy q/Esc exit\n\
Prompt:\n\
  C-b : command prompt    Enter run    Esc/C-c cancel    Backspace edit\n\
  Prompt accepts semicolon-separated commands; source-file reads prompt commands.\n\
  Key bindings and options are runtime/server-scoped; use list-keys/show-options to inspect.\n\
Prompt examples:\n\
  :split -h               :split -v               :rename-window api\n\
  :layout tiled           :swap-pane 1            :break-pane\n\
  :join-pane -s 1.0       :select-window 0        :list-windows\n\
CLI equivalents:\n\
  dmux split-window -t <name> -h|-v [-- command...]\n\
  dmux select-layout -t <name> tiled|even-horizontal|even-vertical|main-horizontal|main-vertical\n\
  dmux resize-pane -t <name> -L|-R|-U|-D [amount]\n\
  dmux select-pane -t <name> -p <index>|--pane-id <id>|-L|-R|-U|-D\n"@ =~= "Usage: dmux attach [-t <name>]\n\
\n\
If -t is omitted, attach targets default. The status line shows the active session,\n\
window, pane, and quick hints for prefix, help, command prompt, and copy-mode.\n\
\n\
"@ + "Session:\n\
  C-b d detach / C-b D detach    C-b C-b send literal prefix    C-b ? show this help\n\
Windows:\n\
  C-b c new window        C-b n/p next/previous window\n\
Panes:\n\
  C-b % split right       C-b \" split down       C-b o next pane\n\
  C-b h/j/k/l focus       C-b H/J/K/L resize by 5\n\
  Alt-h/j/k/l or Alt-arrows focus without the prefix\n\
  C-b q pane numbers      C-b x close pane       C-b z zoom pane\n\
Copy:\n\
  C-b [ copy-mode         copy-mode: j/k arrows PgUp/PgDn y/Enter copy q/Esc exit\n\
Prompt:\n\
  C-b : command prompt    Enter run    Esc/C-c cancel    Backspace edit\n\
  Prompt accepts semicolon-separated commands; source-file reads prompt commands.\n\
  Key bindings and options are runtime/server-scoped; use list-keys/show-options to inspect.\n\
Prompt examples:\n\
  :split -h               :split -v               :rename-window api\n\
  :layout tiled           :swap-pane 1            :break-pane\n\
  :join-pane -s 1.0       :select-window 0        :list-windows\n\
CLI equivalents:\n\
  dmux split-window -t <name> -h|-v [-- command...]\n\
  dmux select-layout -t <name> tiled|even-horizontal|even-vertical|main-horizontal|main-vertical\n\
  dmux resize-pane -t <name> -L|-R|-U|-D [amount]\n\
  dmux select-pane -t <name> -p <index>|--pane-id <id>|-L|-R|-U|-D\n"@);
    }
    "Usage: dmux attach [-t <name>]\n\
\n\
If -t is omitted, attach targets default. The status line shows the active session,\n\
window, pane, and quick hints for prefix, help, command prompt, and copy-mode.\n\
\n\
Session:\n\
  C-b d detach / C-b D detach    C-b C-b send literal prefix    C-b ? show this help\n\
Windows:\n\
  C-b c new window        C-b n/p next/previous window\n\
Panes:\n\
  C-b % split right       C-b \" split down       C-b o next pane\n\
  C-b h/j/k/l focus       C-b H/J/K/L resize by 5\n\
  Alt-h/j/k/l or Alt-arrows focus without the prefix\n\
  C-b q pane numbers      C-b x close pane       C-b z zoom pane\n\
Copy:\n\
  C-b [ copy-mode         copy-mode: j/k arrows PgUp/PgDn y/Enter copy q/Esc exit\n\
Prompt:\n\
  C-b : command prompt    Enter run    Esc/C-c cancel    Backspace edit\n\
  Prompt accepts semicolon-separated commands; source-file reads prompt commands.\n\
  Key bindings and options are runtime/server-scoped; use list-keys/show-options to inspect.\n\
Prompt examples:\n\
  :split -h               :split -v               :rename-window api\n\
  :layout tiled           :swap-pane 1            :break-pane\n\
  :join-pane -s 1.0       :select-window 0        :list-windows\n\
CLI equivalents:\n\
  dmux split-window -t <name> -h|-v [-- command...]\n\
  dmux select-layout -t <name> tiled|even-horizontal|even-vertical|main-horizontal|main-vertical\n\
  dmux resize-pane -t <name> -L|-R|-U|-D [amount]\n\
  dmux select-pane -t <name> -p <index>|--pane-id <id>|-L|-R|-U|-D\n"
}

/// The text of the key summary shown over an attached session.
pub open spec fn attach_overlay_text() -> Seq<char> {
    "Session:\n\
  C-b d detach / C-b D detach    C-b C-b send literal prefix    C-b ? show this help\n\
Windows:\n\
  C-b c new window        C-b n/p next/previous window\n\
Panes:\n\
  C-b % split right       C-b \" split down       C-b o next pane\n\
  C-b h/j/k/l focus       C-b H/J/K/L resize by 5\n\
  Alt-h/j/k/l or Alt-arrows focus without the prefix\n\
  C-b q pane numbers      C-b x close pane       C-b z zoom pane\n\
Copy:\n\
  C-b [ copy-mode         copy-mode: j/k arrows PgUp/PgDn y/Enter copy q/Esc exit\n\
Prompt:\n\
  C-b : command prompt    Enter run    Esc/C-c cancel    Backspace edit\n\
  Prompt accepts semicolon-separated commands; source-file reads prompt commands.\n\
  Key bindings and options are runtime/server-scoped; use list-keys/show-options to inspect.\n\
Prompt examples:\n\
  :split -h               :split -v               :rename-window api\n\
  :layout tiled           :swap-pane 1            :break-pane\n\
  :join-pane -s 1.0       :select-window 0        :list-windows\n\
CLI equivalents:\n\
  dmux split-window -t <name> -h|-v [-- command...]\n\
  dmux select-layout -t <name> tiled|even-horizontal|even-vertical|main-horizontal|main-vertical\n\
  dmux resize-pane -t <name> -L|-R|-U|-D [amount]\n\
  dmux select-pane -t <name> -p <index>|--pane-id <id>|-L|-R|-U|-D\n"@
}

/// The attach help page ends with the key summary shown over a session.
pub proof fn law_attach_help_ends_with_overlay()
    ensures
        attach_help_text().len() >= attach_overlay_text().len(),
        attach_help_text().skip(attach_help_text().len() - attach_overlay_text().len())
            == attach_overlay_text(),
{
    assert(attach_help_text().skip(attach_help_head().len() as int) =~= attach_overlay_text());
}

/// The key summary shown over an attached session.
pub fn attach_help_overlay() -> (r: &'static str)
    ensures
        r@ == attach_overlay_text(),
{
    "Session:\n\
  C-b d detach / C-b D detach    C-b C-b send literal prefix    C-b ? show this help\n\
Windows:\n\
  C-b c new window        C-b n/p next/previous window\n\
Panes:\n\
  C-b % split right       C-b \" split down       C-b o next pane\n\
  C-b h/j/k/l focus       C-b H/J/K/L resize by 5\n\
  Alt-h/j/k/l or Alt-arrows focus without the prefix\n\
  C-b q pane numbers      C-b x close pane       C-b z zoom pane\n\
Copy:\n\
  C-b [ copy-mode         copy-mode: j/k arrows PgUp/PgDn y/Enter copy q/Esc exit\n\
Prompt:\n\
  C-b : command prompt    Enter run    Esc/C-c cancel    Backspace edit\n\
  Prompt accepts semicolon-separated commands; source-file reads prompt commands.\n\
  Key bindings and options are runtime/server-scoped; use list-keys/show-options to inspect.\n\
Prompt examples:\n\
  :split -h               :split -v               :rename-window api\n\
  :layout tiled           :swap-pane 1            :break-pane\n\
  :join-pane -s 1.0       :select-window 0        :list-windows\n\
CLI equivalents:\n\
  dmux split-window -t <name> -h|-v [-- command...]\n\
  dmux select-layout -t <name> tiled|even-horizontal|even-vertical|main-horizontal|main-vertical\n\
  dmux resize-pane -t <name> -L|-R|-U|-D [amount]\n\
  dmux select-pane -t <name> -p <index>|--pane-id <id>|-L|-R|-U|-D\n"
}

} // verus!
