//! What each command-line command does: which request it sends, whether it
//! may start the server for it, and what becomes of the reply; or which
//! local action it stands for.

use vstd::prelude::*;
use vstd::string::*;
use crate::cli::{attach_help, attach_help_text, general_help, general_help_text, Command, CommandView, HelpTopic, PaneResize};
use crate::encode::{
    rename_window_line,
    capture_target_line, encode_bind_key, encode_break_pane, encode_capture_target, encode_copy_mode, encode_delete_buffer, encode_detach_client, encode_display_message, encode_join_pane, encode_kill, encode_kill_pane_target, encode_kill_window_target, encode_list_buffers, encode_list_clients, encode_list_keys, encode_list_panes_target, encode_list_sessions, encode_list_windows, encode_move_pane, encode_new_in_cwd, encode_new_window_in_cwd, encode_next_window, encode_paste_buffer_target, encode_previous_window, encode_rename_session, encode_rename_window, encode_resize, encode_resize_pane_target, encode_respawn_pane_target_in_cwd, encode_save_buffer_target, encode_select_layout_target, encode_select_pane_in_window, encode_select_window_target, encode_send_target, encode_set_option, encode_show_options, encode_split_target_in_cwd, encode_status_line, encode_swap_pane, encode_unbind_key, encode_zoom_pane_target, opt_str_view, save_buffer_target_line, select_window_line,
};
use crate::popup::{string_from_utf8_lossy, utf8_lossy};
use crate::protocol::{opt_view, BufferSelection, views, PaneSelectTarget, PaneTarget, Target, TargetView, WindowTarget, WindowTargetView};
use crate::script::{encode_key_tokens, key_tokens_bytes};
use crate::text::{chars_of, chars_eq_str, decimal, hex, lines_of, str_eq, text_lines};
use crate::wire::{
    capture_mode_text, command_text, hex_text, layout_preset_text, line_of, opt_number, opt_text,
    pane_direction_text, resize_direction_text, split_direction_text, target_text,
    window_target_text,
};

verus! {

/// Whether a request may start the server first, or needs one running.
#[derive(Clone, Copy, Debug, PartialEq, Eq, Structural)]
pub enum ServerNeed {
    StartIfMissing,
    MustBeRunning,
}

/// What becomes of a reply's body: dropped, printed as it is, or printed
/// as a JSON array of sessions, panes or windows.
#[derive(Clone, Copy, Debug, PartialEq, Eq, Structural)]
pub enum ReplyUse {
    Discard,
    Print,
    SessionsJson,
    PanesJson,
    WindowsJson,
}

/// What a command does: send one request line (and attach to a session
/// afterwards, for `new` without `-d`), or act locally.
#[derive(Debug, Clone, PartialEq, Eq)]
pub enum CommandAction {
    Request { line: String, server: ServerNeed, reply: ReplyUse, attach_after: Option<String> },
    OpenDefault,
    Attach { session: String },
    Print { text: String },
    RunSequence { sequence: String },
    SourceFile { path: String },
    RunShell { command: String },
    KillServer,
    Serve,
}

/// An action as values.
pub enum ActionView {
    Request { line: Seq<char>, server: ServerNeed, reply: ReplyUse, attach_after: Option<Seq<char>> },
    OpenDefault,
    Attach { session: Seq<char> },
    Print { text: Seq<char> },
    RunSequence { sequence: Seq<char> },
    SourceFile { path: Seq<char> },
    RunShell { command: Seq<char> },
    KillServer,
    Serve,
}

impl View for CommandAction {
    type V = ActionView;

    open spec fn view(&self) -> ActionView {
        match self {
            CommandAction::Request { line, server, reply, attach_after } => ActionView::Request {
                line: line@,
                server: *server,
                reply: *reply,
                attach_after: opt_view(*attach_after),
            },
            CommandAction::OpenDefault => ActionView::OpenDefault,
            CommandAction::Attach { session } => ActionView::Attach { session: session@ },
            CommandAction::Print { text } => ActionView::Print { text: text@ },
            CommandAction::RunSequence { sequence } => ActionView::RunSequence { sequence: sequence@ },
            CommandAction::SourceFile { path } => ActionView::SourceFile { path: path@ },
            CommandAction::RunShell { command } => ActionView::RunShell { command: command@ },
            CommandAction::KillServer => ActionView::KillServer,
            CommandAction::Serve => ActionView::Serve,
        }
    }
}

/// The `-F` value that asks for JSON in place of a format string.
pub open spec fn json_selector() -> Seq<char> {
    "json"@
}

/// The format `list-windows` asks for when given none.
pub open spec fn default_windows_format() -> Seq<char> {
    "#{window.index}\tid=#{window.id}\tname=#{window.name}\tactive=#{window.active}\tpanes=#{window.panes}"@
}

/// The field-separated format asked for when sessions are wanted as JSON.
pub open spec fn sessions_json_format() -> Seq<char> {
    "#{session.name}\u{1f}#{session.window_count}\u{1f}#{session.attached_count}\u{1f}#{session.created_at}"@
}

/// The field-separated format asked for when panes are wanted as JSON.
pub open spec fn panes_json_format() -> Seq<char> {
    "#{pane.index}\u{1f}#{pane.id}\u{1f}#{pane.active}\u{1f}#{pane.zoomed}\u{1f}#{pane.state}\u{1f}#{pane.pid}\u{1f}#{pane.exit_status}\u{1f}#{pane.exit_signal}\u{1f}#{pane.title}\u{1f}#{pane.cwd}\u{1f}#{pane.bell}\u{1f}#{pane.activity}"@
}

/// The field-separated format asked for when windows are wanted as JSON.
pub open spec fn windows_json_format() -> Seq<char> {
    "#{window.index}\u{1f}#{window.id}\u{1f}#{window.name}\u{1f}#{window.active}\u{1f}#{window.panes}\u{1f}#{window.bell}\u{1f}#{window.activity}"@
}

/// A request that attaches to nothing afterwards.
pub open spec fn send(line: Seq<char>, server: ServerNeed, reply: ReplyUse) -> ActionView {
    ActionView::Request { line, server, reply, attach_after: None }
}

/// What a command does, for a command run from the directory `cwd`.
pub open spec fn command_action(c: CommandView, cwd: Seq<u8>) -> ActionView {
    let start = ServerNeed::StartIfMissing;
    let running = ServerNeed::MustBeRunning;
    match c {
        CommandView::OpenDefault => ActionView::OpenDefault,
        CommandView::Help { topic } => ActionView::Print {
            text: match topic {
                Some(HelpTopic::Attach) => attach_help_text(),
                None => general_help_text(),
            },
        },
        CommandView::New { session, detach, command } => ActionView::Request {
            line: line_of(seq!["NEW_CWD"@, session, hex(cwd), decimal(command.len()), command_text(command)]),
            server: start,
            reply: ReplyUse::Discard,
            attach_after: if detach { None } else { Some(session) },
        },
        CommandView::ListSessions { format } => if format == Some(json_selector()) {
            send(line_of(seq!["LIST_SESSIONS_FORMAT"@, hex_text(sessions_json_format())]), running, ReplyUse::SessionsJson)
        } else {
            send(
                match format {
                    Some(f) => line_of(seq!["LIST_SESSIONS_FORMAT"@, hex_text(f)]),
                    None => line_of(seq!["LIST"@]),
                },
                running,
                ReplyUse::Print,
            )
        },
        CommandView::RenameSession { old_name, new_name } => send(
            line_of(seq!["RENAME_SESSION"@, hex_text(old_name), hex_text(new_name)]),
            running,
            ReplyUse::Discard,
        ),
        CommandView::ListClients { session, format } => send(
            line_of(seq!["LIST_CLIENTS"@, opt_text(session), opt_text(format)]),
            running,
            ReplyUse::Print,
        ),
        CommandView::DetachClient { session, client_id } => send(
            line_of(seq!["DETACH_CLIENT"@, opt_text(session), opt_number(client_id)]),
            running,
            ReplyUse::Discard,
        ),
        CommandView::CapturePane { target, mode, selection } => send(
            capture_target_line(target, mode, selection),
            start,
            ReplyUse::Print,
        ),
        CommandView::SaveBuffer { target, buffer, mode, selection } => send(
            save_buffer_target_line(target, buffer, mode, selection),
            start,
            ReplyUse::Print,
        ),
        CommandView::CopyMode { session, mode, search, match_index } => send(
            match match_index {
                Some(m) => line_of(seq!["COPY_MODE"@, session, capture_mode_text(mode), opt_text(search), decimal(m as nat)]),
                None => line_of(seq!["COPY_MODE"@, session, capture_mode_text(mode), opt_text(search)]),
            },
            start,
            ReplyUse::Print,
        ),
        CommandView::ListBuffers { format } => send(
            match format {
                Some(f) => line_of(seq!["LIST_BUFFERS_FORMAT"@, hex_text(f)]),
                None => line_of(seq!["LIST_BUFFERS"@]),
            },
            start,
            ReplyUse::Print,
        ),
        CommandView::PasteBuffer { target, buffer } => send(
            line_of(seq!["PASTE_BUFFER_TARGET"@, target_text(target), opt_text(buffer)]),
            start,
            ReplyUse::Discard,
        ),
        CommandView::DeleteBuffer { buffer } => send(
            line_of(seq!["DELETE_BUFFER"@, hex_text(buffer)]),
            start,
            ReplyUse::Discard,
        ),
        CommandView::ResizePane { target, resize } => send(
            match resize {
                PaneResize::Absolute { cols, rows } => line_of(
                    seq!["RESIZE"@, target.session, decimal(cols as nat), decimal(rows as nat)],
                ),
                PaneResize::Directional { direction, amount } => line_of(
                    seq!["RESIZE_PANE_TARGET"@, target_text(target), resize_direction_text(direction), decimal(amount as nat)],
                ),
            },
            start,
            ReplyUse::Discard,
        ),
        CommandView::SelectLayout { session, window, preset } => send(
            line_of(seq![
                "SELECT_LAYOUT_TARGET"@,
                target_text(TargetView { session, window, pane: PaneTarget::Active }),
                layout_preset_text(preset),
            ]),
            start,
            ReplyUse::Discard,
        ),
        CommandView::SendKeys { target, keys } => send(
            line_of(seq!["SEND_TARGET"@, target_text(target), hex(key_tokens_bytes(keys))]),
            start,
            ReplyUse::Discard,
        ),
        CommandView::SplitWindow { target, direction, command } => send(
            line_of(seq![
                "SPLIT_TARGET_CWD"@,
                target_text(target),
                split_direction_text(direction),
                hex(cwd),
                decimal(command.len()),
                command_text(command),
            ]),
            start,
            ReplyUse::Discard,
        ),
        CommandView::ListPanes { session, window, format } => if format == Some(json_selector()) {
            send(
                line_of(seq!["LIST_PANES_TARGET_FORMAT"@, session, window_target_text(window), hex_text(panes_json_format())]),
                start,
                ReplyUse::PanesJson,
            )
        } else {
            send(
                match format {
                    Some(f) => line_of(seq!["LIST_PANES_TARGET_FORMAT"@, session, window_target_text(window), hex_text(f)]),
                    None => line_of(seq!["LIST_PANES_TARGET"@, session, window_target_text(window)]),
                },
                start,
                ReplyUse::Print,
            )
        },
        CommandView::SelectPane { session, window, target } => send(
            match target {
                PaneSelectTarget::Index(pane) => line_of(
                    seq!["SELECT_PANE_TARGET"@, session, window_target_text(window), decimal(pane as nat)],
                ),
                PaneSelectTarget::Id(id) => line_of(
                    seq!["SELECT_PANE_TARGET_ID"@, session, window_target_text(window), decimal(id as nat)],
                ),
                PaneSelectTarget::Direction(direction) => line_of(
                    seq!["SELECT_PANE_TARGET_DIRECTION"@, session, window_target_text(window), pane_direction_text(direction)],
                ),
            },
            start,
            ReplyUse::Discard,
        ),
        CommandView::KillPane { target } => send(
            line_of(seq!["KILL_PANE_TARGET"@, target_text(target)]),
            start,
            ReplyUse::Discard,
        ),
        CommandView::SwapPane { source, destination } => send(
            line_of(seq!["SWAP_PANE"@, target_text(source), target_text(destination)]),
            start,
            ReplyUse::Discard,
        ),
        CommandView::MovePane { source, destination, direction } => send(
            line_of(seq!["MOVE_PANE"@, target_text(source), target_text(destination), split_direction_text(direction)]),
            start,
            ReplyUse::Discard,
        ),
        CommandView::BreakPane { target } => send(
            line_of(seq!["BREAK_PANE"@, target_text(target)]),
            start,
            ReplyUse::Discard,
        ),
        CommandView::JoinPane { source, destination, direction } => send(
            line_of(seq!["JOIN_PANE"@, target_text(source), target_text(destination), split_direction_text(direction)]),
            start,
            ReplyUse::Discard,
        ),
        CommandView::RespawnPane { target, force, command } => send(
            line_of(seq![
                "RESPAWN_PANE_TARGET_CWD"@,
                target_text(target),
                (if force { "1"@ } else { "0"@ }),
                hex(cwd),
                decimal(command.len()),
                command_text(command),
            ]),
            start,
            ReplyUse::Discard,
        ),
        CommandView::NewWindow { session, command } => send(
            line_of(seq!["NEW_WINDOW_CWD"@, session, hex(cwd), decimal(command.len()), command_text(command)]),
            start,
            ReplyUse::Discard,
        ),
        CommandView::ListWindows { session, format } => if format == Some(json_selector()) {
            send(
                line_of(seq!["LIST_WINDOWS_FORMAT"@, session, hex_text(windows_json_format())]),
                start,
                ReplyUse::WindowsJson,
            )
        } else {
            let f = match format {
                Some(f) => f,
                None => default_windows_format(),
            };
            send(line_of(seq!["LIST_WINDOWS_FORMAT"@, session, hex_text(f)]), start, ReplyUse::Print)
        },
        CommandView::SelectWindow { session, target } => send(
            select_window_line(session, target),
            start,
            ReplyUse::Discard,
        ),
        CommandView::RenameWindow { session, target, name } => send(
            rename_window_line(session, target, name),
            start,
            ReplyUse::Discard,
        ),
        CommandView::NextWindow { session } => send(line_of(seq!["NEXT_WINDOW"@, session]), start, ReplyUse::Discard),
        CommandView::PreviousWindow { session } => send(
            line_of(seq!["PREVIOUS_WINDOW"@, session]),
            start,
            ReplyUse::Discard,
        ),
        CommandView::KillWindow { session, target } => send(
            line_of(seq!["KILL_WINDOW_TARGET"@, session, window_target_text(target)]),
            start,
            ReplyUse::Discard,
        ),
        CommandView::ZoomPane { target } => send(
            line_of(seq!["ZOOM_PANE_TARGET"@, target_text(target)]),
            start,
            ReplyUse::Discard,
        ),
        CommandView::StatusLine { session, format } => send(
            match format {
                Some(f) => line_of(seq!["STATUS_LINE_FORMAT"@, session, hex_text(f)]),
                None => line_of(seq!["STATUS_LINE"@, session]),
            },
            start,
            ReplyUse::Print,
        ),
        CommandView::DisplayMessage { session, format } => send(
            line_of(seq!["DISPLAY_MESSAGE"@, session, hex_text(format)]),
            start,
            ReplyUse::Print,
        ),
        CommandView::ListKeys { format } => send(
            line_of(seq!["LIST_KEYS"@, opt_text(format)]),
            running,
            ReplyUse::Print,
        ),
        CommandView::BindKey { key, command } => send(
            line_of(seq!["BIND_KEY"@, hex_text(key), hex_text(command)]),
            running,
            ReplyUse::Discard,
        ),
        CommandView::UnbindKey { key } => send(line_of(seq!["UNBIND_KEY"@, hex_text(key)]), running, ReplyUse::Discard),
        CommandView::ShowOptions { format } => send(
            line_of(seq!["SHOW_OPTIONS"@, opt_text(format)]),
            running,
            ReplyUse::Print,
        ),
        CommandView::SetOption { name, value } => send(
            line_of(seq!["SET_OPTION"@, hex_text(name), hex_text(value)]),
            running,
            ReplyUse::Discard,
        ),
        CommandView::Run { sequence } => ActionView::RunSequence { sequence },
        CommandView::SourceFile { path } => ActionView::SourceFile { path },
        CommandView::RunShell { command } => ActionView::RunShell { command },
        CommandView::KillSession { session } => send(line_of(seq!["KILL"@, session]), running, ReplyUse::Discard),
        CommandView::KillServer => ActionView::KillServer,
        CommandView::Attach { session } => ActionView::Attach { session },
        CommandView::Server => ActionView::Serve,
    }
}

/// A command a script may run never attaches a terminal, never starts a
/// nested script or the server, and never prints help: it sends a request
/// (attaching to nothing afterwards), runs a shell command, or stops the
/// server.
pub proof fn law_script_commands_stay_detached(c: CommandView, cwd: Seq<u8>)
    requires
        crate::script::rejection_spec(c) is None,
    ensures
        ({
            let a = command_action(c, cwd);
            ||| (a matches ActionView::Request { attach_after, .. } && attach_after is None)
            ||| a is RunShell
            ||| a is KillServer
        }),
{
}

/// What a command does depends on the directory it runs from only through
/// the requests that create panes, windows and sessions there.
pub proof fn law_cwd_only_reaches_creating_requests(c: CommandView, cwd1: Seq<u8>, cwd2: Seq<u8>)
    requires
        !(c is New || c is SplitWindow || c is RespawnPane || c is NewWindow),
    ensures
        command_action(c, cwd1) == command_action(c, cwd2),
{
}

/// An optional string as an optional slice.
fn opt_str(o: &Option<String>) -> (r: Option<&str>)
    ensures
        opt_str_view(r) == opt_view(*o),
{
    match o {
        Some(s) => Some(s.as_str()),
        None => None,
    }
}

/// Whether a format asks for JSON.
fn wants_json(format: &Option<String>) -> (r: bool)
    ensures
        r == (opt_view(*format) == Some(json_selector())),
{
    match format {
        Some(f) => str_eq(f.as_str(), "json"),
        None => false,
    }
}

/// A copy of a window target.
fn copy_window_target(w: &WindowTarget) -> (r: WindowTarget)
    ensures
        r@ == w@,
{
    match w {
        WindowTarget::Active => WindowTarget::Active,
        WindowTarget::Index(i) => WindowTarget::Index(*i),
        WindowTarget::Id(i) => WindowTarget::Id(*i),
        WindowTarget::Name(n) => WindowTarget::Name(n.clone()),
    }
}

/// A copy of a buffer selection.
fn copy_selection(s: &BufferSelection) -> (r: BufferSelection)
    ensures
        r@ == s@,
{
    match s {
        BufferSelection::All => BufferSelection::All,
        BufferSelection::LineRange { start, end } => BufferSelection::LineRange { start: *start, end: *end },
        BufferSelection::Search { needle, match_index } => BufferSelection::Search {
            needle: needle.clone(),
            match_index: *match_index,
        },
    }
}

fn default_windows_format_str() -> (r: &'static str)
    ensures
        r@ == default_windows_format(),
{
    "#{window.index}\tid=#{window.id}\tname=#{window.name}\tactive=#{window.active}\tpanes=#{window.panes}"
}

fn sessions_json_format_str() -> (r: &'static str)
    ensures
        r@ == sessions_json_format(),
{
    "#{session.name}\u{1f}#{session.window_count}\u{1f}#{session.attached_count}\u{1f}#{session.created_at}"
}

fn panes_json_format_str() -> (r: &'static str)
    ensures
        r@ == panes_json_format(),
{
    "#{pane.index}\u{1f}#{pane.id}\u{1f}#{pane.active}\u{1f}#{pane.zoomed}\u{1f}#{pane.state}\u{1f}#{pane.pid}\u{1f}#{pane.exit_status}\u{1f}#{pane.exit_signal}\u{1f}#{pane.title}\u{1f}#{pane.cwd}\u{1f}#{pane.bell}\u{1f}#{pane.activity}"
}

fn windows_json_format_str() -> (r: &'static str)
    ensures
        r@ == windows_json_format(),
{
    "#{window.index}\u{1f}#{window.id}\u{1f}#{window.name}\u{1f}#{window.active}\u{1f}#{window.panes}\u{1f}#{window.bell}\u{1f}#{window.activity}"
}

/// A request that attaches to nothing afterwards.
fn send_line(line: String, server: ServerNeed, reply: ReplyUse) -> (r: CommandAction)
    ensures
        r@ == send(line@, server, reply),
{
    CommandAction::Request { line, server, reply, attach_after: None }
}

/// Whether a command is one of the commands the client carries out itself, and `new`.
pub open spec fn is_local_command(c: CommandView) -> bool {
    c is OpenDefault || c is Help || c is New || c is Run || c is SourceFile || c is RunShell || c is KillServer || c is Attach || c is Server
}

/// Whether a command is one of the requests that need a running server.
pub open spec fn is_server_command(c: CommandView) -> bool {
    c is ListSessions || c is RenameSession || c is ListClients || c is DetachClient || c is KillSession || c is ListKeys || c is BindKey || c is UnbindKey || c is ShowOptions || c is SetOption
}

/// Whether a command is one of the capture requests.
pub open spec fn is_capture_command(c: CommandView) -> bool {
    c is CapturePane || c is SaveBuffer || c is CopyMode
}

/// Whether a command is one of the buffer and message requests.
pub open spec fn is_buffer_command(c: CommandView) -> bool {
    c is ListBuffers || c is PasteBuffer || c is DeleteBuffer || c is StatusLine || c is DisplayMessage
}

/// Whether a command is one of the pane requests.
pub open spec fn is_pane_command(c: CommandView) -> bool {
    c is ResizePane || c is SelectLayout || c is SendKeys || c is SplitWindow || c is ListPanes || c is SelectPane || c is KillPane || c is SwapPane || c is MovePane || c is BreakPane || c is JoinPane || c is RespawnPane || c is ZoomPane
}

/// Whether a command is one of the window requests.
pub open spec fn is_window_command(c: CommandView) -> bool {
    c is NewWindow || c is ListWindows || c is SelectWindow || c is RenameWindow || c is NextWindow || c is PreviousWindow || c is KillWindow
}

#[verifier::spinoff_prover]
fn plan_local_command(command: &Command, cwd: &[u8]) -> (r: CommandAction)
    requires
        is_local_command(command@),
    ensures
        r@ == command_action(command@, cwd@),
{
    let start = ServerNeed::StartIfMissing;
    match command {
        Command::OpenDefault => CommandAction::OpenDefault,
        Command::Help { topic } => {
            let text = match topic {
                Some(HelpTopic::Attach) => attach_help(),
                None => general_help(),
            };
            CommandAction::Print { text: String::from_str(text) }
        },
        Command::New { session, detach, command } => {
            let line = encode_new_in_cwd(session.as_str(), command.as_slice(), cwd);
            let attach_after = if *detach {
                None
            } else {
                Some(session.clone())
            };
            CommandAction::Request { line, server: start, reply: ReplyUse::Discard, attach_after }
        },
        Command::Run { sequence } => CommandAction::RunSequence { sequence: sequence.clone() },
        Command::SourceFile { path } => CommandAction::SourceFile { path: path.clone() },
        Command::RunShell { command } => CommandAction::RunShell { command: command.clone() },
        Command::KillServer => CommandAction::KillServer,
        Command::Attach { session } => CommandAction::Attach { session: session.clone() },
        Command::Server => CommandAction::Serve,
        _ => {
            assert(false);
            CommandAction::Serve
        },
    }
}

#[verifier::spinoff_prover]
fn plan_server_command(command: &Command, cwd: &[u8]) -> (r: CommandAction)
    requires
        is_server_command(command@),
    ensures
        r@ == command_action(command@, cwd@),
{
    let running = ServerNeed::MustBeRunning;
    match command {
        Command::ListSessions { format } => {
            if wants_json(format) {
                send_line(encode_list_sessions(Some(sessions_json_format_str())), running, ReplyUse::SessionsJson)
            } else {
                send_line(encode_list_sessions(opt_str(format)), running, ReplyUse::Print)
            }
        },
        Command::RenameSession { old_name, new_name } => send_line(
            encode_rename_session(old_name.as_str(), new_name.as_str()),
            running,
            ReplyUse::Discard,
        ),
        Command::ListClients { session, format } => send_line(
            encode_list_clients(opt_str(session), opt_str(format)),
            running,
            ReplyUse::Print,
        ),
        Command::DetachClient { session, client_id } => send_line(
            encode_detach_client(opt_str(session), *client_id),
            running,
            ReplyUse::Discard,
        ),
        Command::KillSession { session } => send_line(encode_kill(session.as_str()), running, ReplyUse::Discard),
        Command::ListKeys { format } => send_line(encode_list_keys(opt_str(format)), running, ReplyUse::Print),
        Command::BindKey { key, command } => send_line(
            encode_bind_key(key.as_str(), command.as_str()),
            running,
            ReplyUse::Discard,
        ),
        Command::UnbindKey { key } => send_line(encode_unbind_key(key.as_str()), running, ReplyUse::Discard),
        Command::ShowOptions { format } => send_line(encode_show_options(opt_str(format)), running, ReplyUse::Print),
        Command::SetOption { name, value } => send_line(
            encode_set_option(name.as_str(), value.as_str()),
            running,
            ReplyUse::Discard,
        ),
        _ => {
            assert(false);
            CommandAction::Serve
        },
    }
}

#[verifier::spinoff_prover]
fn plan_capture_command(command: &Command, cwd: &[u8]) -> (r: CommandAction)
    requires
        is_capture_command(command@),
    ensures
        r@ == command_action(command@, cwd@),
{
    let start = ServerNeed::StartIfMissing;
    match command {
        Command::CapturePane { target, mode, selection } => send_line(
            encode_capture_target(target, *mode, copy_selection(selection)),
            start,
            ReplyUse::Print,
        ),
        Command::SaveBuffer { target, buffer, mode, selection } => send_line(
            encode_save_buffer_target(target, opt_str(buffer), *mode, copy_selection(selection)),
            start,
            ReplyUse::Print,
        ),
        Command::CopyMode { session, mode, search, match_index } => send_line(
            encode_copy_mode(session.as_str(), *mode, opt_str(search), *match_index),
            start,
            ReplyUse::Print,
        ),
        _ => {
            assert(false);
            CommandAction::Serve
        },
    }
}

#[verifier::spinoff_prover]
fn plan_buffer_command(command: &Command, cwd: &[u8]) -> (r: CommandAction)
    requires
        is_buffer_command(command@),
    ensures
        r@ == command_action(command@, cwd@),
{
    let start = ServerNeed::StartIfMissing;
    match command {
        Command::ListBuffers { format } => send_line(encode_list_buffers(opt_str(format)), start, ReplyUse::Print),
        Command::PasteBuffer { target, buffer } => send_line(
            encode_paste_buffer_target(target, opt_str(buffer)),
            start,
            ReplyUse::Discard,
        ),
        Command::DeleteBuffer { buffer } => send_line(encode_delete_buffer(buffer.as_str()), start, ReplyUse::Discard),
        Command::StatusLine { session, format } => send_line(
            encode_status_line(session.as_str(), opt_str(format)),
            start,
            ReplyUse::Print,
        ),
        Command::DisplayMessage { session, format } => send_line(
            encode_display_message(session.as_str(), format.as_str()),
            start,
            ReplyUse::Print,
        ),
        _ => {
            assert(false);
            CommandAction::Serve
        },
    }
}

#[verifier::spinoff_prover]
fn plan_pane_command(command: &Command, cwd: &[u8]) -> (r: CommandAction)
    requires
        is_pane_command(command@),
    ensures
        r@ == command_action(command@, cwd@),
{
    let start = ServerNeed::StartIfMissing;
    match command {
        Command::ResizePane { target, resize } => {
            let line = match resize {
                PaneResize::Absolute { cols, rows } => encode_resize(target.session.as_str(), *cols, *rows),
                PaneResize::Directional { direction, amount } => encode_resize_pane_target(target, *direction, *amount),
            };
            send_line(line, start, ReplyUse::Discard)
        },
        Command::SelectLayout { session, window, preset } => {
            let target = Target { session: session.clone(), window: copy_window_target(window), pane: PaneTarget::Active };
            send_line(encode_select_layout_target(&target, *preset), start, ReplyUse::Discard)
        },
        Command::SendKeys { target, keys } => {
            match encode_key_tokens(keys) {
                Ok(bytes) => send_line(encode_send_target(target, bytes.as_slice()), start, ReplyUse::Discard),
                Err(_) => {
                    assert(false);
                    CommandAction::Serve
                },
            }
        },
        Command::SplitWindow { target, direction, command } => send_line(
            encode_split_target_in_cwd(target, *direction, command.as_slice(), cwd),
            start,
            ReplyUse::Discard,
        ),
        Command::ListPanes { session, window, format } => {
            let w = copy_window_target(window);
            if wants_json(format) {
                send_line(
                    encode_list_panes_target(session.as_str(), w, Some(panes_json_format_str())),
                    start,
                    ReplyUse::PanesJson,
                )
            } else {
                send_line(encode_list_panes_target(session.as_str(), w, opt_str(format)), start, ReplyUse::Print)
            }
        },
        Command::SelectPane { session, window, target } => send_line(
            encode_select_pane_in_window(session.as_str(), copy_window_target(window), *target),
            start,
            ReplyUse::Discard,
        ),
        Command::KillPane { target } => send_line(encode_kill_pane_target(target), start, ReplyUse::Discard),
        Command::SwapPane { source, destination } => send_line(
            encode_swap_pane(source, destination),
            start,
            ReplyUse::Discard,
        ),
        Command::MovePane { source, destination, direction } => send_line(
            encode_move_pane(source, destination, *direction),
            start,
            ReplyUse::Discard,
        ),
        Command::BreakPane { target } => send_line(encode_break_pane(target), start, ReplyUse::Discard),
        Command::JoinPane { source, destination, direction } => send_line(
            encode_join_pane(source, destination, *direction),
            start,
            ReplyUse::Discard,
        ),
        Command::RespawnPane { target, force, command } => send_line(
            encode_respawn_pane_target_in_cwd(target, *force, command.as_slice(), cwd),
            start,
            ReplyUse::Discard,
        ),
        Command::ZoomPane { target } => send_line(encode_zoom_pane_target(target), start, ReplyUse::Discard),
        _ => {
            assert(false);
            CommandAction::Serve
        },
    }
}

#[verifier::spinoff_prover]
fn plan_window_command(command: &Command, cwd: &[u8]) -> (r: CommandAction)
    requires
        is_window_command(command@),
    ensures
        r@ == command_action(command@, cwd@),
{
    let start = ServerNeed::StartIfMissing;
    match command {
        Command::NewWindow { session, command } => send_line(
            encode_new_window_in_cwd(session.as_str(), command.as_slice(), cwd),
            start,
            ReplyUse::Discard,
        ),
        Command::ListWindows { session, format } => {
            if wants_json(format) {
                send_line(
                    encode_list_windows(session.as_str(), Some(windows_json_format_str())),
                    start,
                    ReplyUse::WindowsJson,
                )
            } else {
                let f = match format {
                    Some(f) => f.as_str(),
                    None => default_windows_format_str(),
                };
                send_line(encode_list_windows(session.as_str(), Some(f)), start, ReplyUse::Print)
            }
        },
        Command::SelectWindow { session, target } => send_line(
            encode_select_window_target(session.as_str(), copy_window_target(target)),
            start,
            ReplyUse::Discard,
        ),
        Command::RenameWindow { session, target, name } => send_line(
            encode_rename_window(session.as_str(), copy_window_target(target), name.as_str()),
            start,
            ReplyUse::Discard,
        ),
        Command::NextWindow { session } => send_line(encode_next_window(session.as_str()), start, ReplyUse::Discard),
        Command::PreviousWindow { session } => send_line(
            encode_previous_window(session.as_str()),
            start,
            ReplyUse::Discard,
        ),
        Command::KillWindow { session, target } => send_line(
            encode_kill_window_target(session.as_str(), copy_window_target(target)),
            start,
            ReplyUse::Discard,
        ),
        _ => {
            assert(false);
            CommandAction::Serve
        },
    }
}

/// What a command does, for a command run from the directory `cwd`.
pub fn plan_command(command: &Command, cwd: &[u8]) -> (r: CommandAction)
    ensures
        r@ == command_action(command@, cwd@),
{
    match command {
        Command::OpenDefault | Command::Help { .. } | Command::New { .. } | Command::Run { .. } | Command::SourceFile { .. } | Command::RunShell { .. } | Command::KillServer | Command::Attach { .. } | Command::Server => plan_local_command(command, cwd),
        Command::ListSessions { .. } | Command::RenameSession { .. } | Command::ListClients { .. } | Command::DetachClient { .. } | Command::KillSession { .. } | Command::ListKeys { .. } | Command::BindKey { .. } | Command::UnbindKey { .. } | Command::ShowOptions { .. } | Command::SetOption { .. } => plan_server_command(command, cwd),
        Command::CapturePane { .. } | Command::SaveBuffer { .. } | Command::CopyMode { .. } => plan_capture_command(command, cwd),
        Command::ListBuffers { .. } | Command::PasteBuffer { .. } | Command::DeleteBuffer { .. } | Command::StatusLine { .. } | Command::DisplayMessage { .. } => plan_buffer_command(command, cwd),
        Command::ResizePane { .. } | Command::SelectLayout { .. } | Command::SendKeys { .. } | Command::SplitWindow { .. } | Command::ListPanes { .. } | Command::SelectPane { .. } | Command::KillPane { .. } | Command::SwapPane { .. } | Command::MovePane { .. } | Command::BreakPane { .. } | Command::JoinPane { .. } | Command::RespawnPane { .. } | Command::ZoomPane { .. } => plan_pane_command(command, cwd),
        Command::NewWindow { .. } | Command::ListWindows { .. } | Command::SelectWindow { .. } | Command::RenameWindow { .. } | Command::NextWindow { .. } | Command::PreviousWindow { .. } | Command::KillWindow { .. } => plan_window_command(command, cwd),
    }
}

/// Whether a `list` reply names the session `name` on a line of its own.
pub fn lists_session(body: &[u8], name: &str) -> (r: bool)
    ensures
        r == text_lines(utf8_lossy(body@)).contains(name@),
{
    let text = string_from_utf8_lossy(body);
    let chars = chars_of(text.as_str());
    let lines = lines_of(&chars);
    let ghost tl = text_lines(chars@);
    assert(chars@ == utf8_lossy(body@));
    let mut i: usize = 0;
    while i < lines.len()
        invariant
            i <= lines@.len(),
            lines@.len() == tl.len(),
            tl == text_lines(utf8_lossy(body@)),
            forall|k: int| 0 <= k < lines@.len() ==> (#[trigger] lines@[k])@ == tl[k],
            forall|k: int| 0 <= k < i ==> tl[k] != name@,
        decreases lines.len() - i,
    {
        if chars_eq_str(lines[i].as_slice(), name) {
            assert(tl[i as int] == name@);
            assert(tl.contains(name@));
            return true;
        }
        i += 1;
    }
    false
}

} // verus!
