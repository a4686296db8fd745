//! Encoders for every request: each returns the request's line.

use vstd::prelude::*;
use vstd::string::*;
use crate::text::{decimal, decimal_string, encode_hex, hex, isize_string, signed_decimal, usize_string};
use crate::protocol::{
    active_target, views, BufferSelection, BufferSelectionView, CaptureMode, LayoutPreset,
    PaneResizeDirection, PaneSelectTarget, PaneTarget, SplitDirection, Target, TargetView,
    WindowTarget, WindowTargetView,
};
use crate::wire::{
    capture_mode_str, capture_mode_text, command_text, command_text_of, encode_target, hex_text,
    hex_text_of, layout_preset_str, layout_preset_text, line_of, opt_number, opt_text,
    opt_text_of, pane_direction_str, pane_direction_text, resize_direction_str,
    resize_direction_text, split_direction_str, split_direction_text, target_text,
    window_target_string, window_target_text, wire_line,
};

verus! {

/// The characters of an optional string slice.
pub open spec fn opt_str_view(o: Option<&str>) -> Option<Seq<char>> {
    match o {
        Some(s) => Some(s@),
        None => None,
    }
}

/// An optional number in decimal, or nothing.
pub fn opt_number_string(o: Option<usize>) -> (r: String)
    ensures
        r@ == opt_number(o),
{
    match o {
        Some(n) => usize_string(n),
        None => String::new(),
    }
}

pub fn encode_new(session: &str, command: &[String]) -> (r: String)
    ensures
        r@ == line_of(seq!["NEW"@, session@, decimal(command@.len()), command_text(views(command@))]),
{
    let fields = vec![String::from_str("NEW"), String::from_str(session), usize_string(command.len()), command_text_of(command)];
    proof {
        assert(views(fields@) =~= seq!["NEW"@, session@, decimal(command@.len()), command_text(views(command@))]);
    }
    wire_line(fields)
}

pub fn encode_new_in_cwd(session: &str, command: &[String], cwd: &[u8]) -> (r: String)
    ensures
        r@ == line_of(seq!["NEW_CWD"@, session@, hex(cwd@), decimal(command@.len()), command_text(views(command@))]),
{
    let fields = vec![String::from_str("NEW_CWD"), String::from_str(session), encode_hex(cwd), usize_string(command.len()), command_text_of(command)];
    proof {
        assert(views(fields@) =~= seq!["NEW_CWD"@, session@, hex(cwd@), decimal(command@.len()), command_text(views(command@))]);
    }
    wire_line(fields)
}

pub fn encode_attach(session: &str) -> (r: String)
    ensures
        r@ == line_of(seq!["ATTACH"@, session@]),
{
    let fields = vec![String::from_str("ATTACH"), String::from_str(session)];
    proof {
        assert(views(fields@) =~= seq!["ATTACH"@, session@]);
    }
    wire_line(fields)
}

pub fn encode_attach_raw_state(session: &str) -> (r: String)
    ensures
        r@ == line_of(seq!["ATTACH_RAW_STATE"@, session@]),
{
    let fields = vec![String::from_str("ATTACH_RAW_STATE"), String::from_str(session)];
    proof {
        assert(views(fields@) =~= seq!["ATTACH_RAW_STATE"@, session@]);
    }
    wire_line(fields)
}

pub fn encode_attach_snapshot(session: &str) -> (r: String)
    ensures
        r@ == line_of(seq!["ATTACH_SNAPSHOT"@, session@]),
{
    let fields = vec![String::from_str("ATTACH_SNAPSHOT"), String::from_str(session)];
    proof {
        assert(views(fields@) =~= seq!["ATTACH_SNAPSHOT"@, session@]);
    }
    wire_line(fields)
}

pub fn encode_attach_layout_snapshot(session: &str) -> (r: String)
    ensures
        r@ == line_of(seq!["ATTACH_LAYOUT_SNAPSHOT"@, session@]),
{
    let fields = vec![String::from_str("ATTACH_LAYOUT_SNAPSHOT"), String::from_str(session)];
    proof {
        assert(views(fields@) =~= seq!["ATTACH_LAYOUT_SNAPSHOT"@, session@]);
    }
    wire_line(fields)
}

pub fn encode_attach_layout_frame(session: &str) -> (r: String)
    ensures
        r@ == line_of(seq!["ATTACH_LAYOUT_FRAME"@, session@]),
{
    let fields = vec![String::from_str("ATTACH_LAYOUT_FRAME"), String::from_str(session)];
    proof {
        assert(views(fields@) =~= seq!["ATTACH_LAYOUT_FRAME"@, session@]);
    }
    wire_line(fields)
}

pub fn encode_attach_events(session: &str) -> (r: String)
    ensures
        r@ == line_of(seq!["ATTACH_EVENTS"@, session@]),
{
    let fields = vec![String::from_str("ATTACH_EVENTS"), String::from_str(session)];
    proof {
        assert(views(fields@) =~= seq!["ATTACH_EVENTS"@, session@]);
    }
    wire_line(fields)
}

pub fn encode_attach_render(session: &str) -> (r: String)
    ensures
        r@ == line_of(seq!["ATTACH_RENDER"@, session@]),
{
    let fields = vec![String::from_str("ATTACH_RENDER"), String::from_str(session)];
    proof {
        assert(views(fields@) =~= seq!["ATTACH_RENDER"@, session@]);
    }
    wire_line(fields)
}

pub fn encode_rename_session(old_name: &str, new_name: &str) -> (r: String)
    ensures
        r@ == line_of(seq!["RENAME_SESSION"@, hex_text(old_name@), hex_text(new_name@)]),
{
    let fields = vec![String::from_str("RENAME_SESSION"), hex_text_of(old_name), hex_text_of(new_name)];
    proof {
        assert(views(fields@) =~= seq!["RENAME_SESSION"@, hex_text(old_name@), hex_text(new_name@)]);
    }
    wire_line(fields)
}

pub fn encode_list_clients(session: Option<&str>, format: Option<&str>) -> (r: String)
    ensures
        r@ == line_of(seq!["LIST_CLIENTS"@, opt_text(opt_str_view(session)), opt_text(opt_str_view(format))]),
{
    let fields = vec![String::from_str("LIST_CLIENTS"), opt_text_of(session), opt_text_of(format)];
    proof {
        assert(views(fields@) =~= seq!["LIST_CLIENTS"@, opt_text(opt_str_view(session)), opt_text(opt_str_view(format))]);
    }
    wire_line(fields)
}

pub fn encode_detach_client(session: Option<&str>, client_id: Option<usize>) -> (r: String)
    ensures
        r@ == line_of(seq!["DETACH_CLIENT"@, opt_text(opt_str_view(session)), opt_number(client_id)]),
{
    let fields = vec![String::from_str("DETACH_CLIENT"), opt_text_of(session), opt_number_string(client_id)];
    proof {
        assert(views(fields@) =~= seq!["DETACH_CLIENT"@, opt_text(opt_str_view(session)), opt_number(client_id)]);
    }
    wire_line(fields)
}

pub fn encode_capture(session: &str, mode: CaptureMode) -> (r: String)
    ensures
        r@ == line_of(seq!["CAPTURE"@, session@, capture_mode_text(mode)]),
{
    let fields = vec![String::from_str("CAPTURE"), String::from_str(session), String::from_str(capture_mode_str(mode))];
    proof {
        assert(views(fields@) =~= seq!["CAPTURE"@, session@, capture_mode_text(mode)]);
    }
    wire_line(fields)
}

pub fn encode_save_buffer_text(session: &str, buffer: Option<&str>, text: &str) -> (r: String)
    ensures
        r@ == line_of(seq!["SAVE_BUFFER_TEXT"@, session@, opt_text(opt_str_view(buffer)), hex_text(text@)]),
{
    let fields = vec![String::from_str("SAVE_BUFFER_TEXT"), String::from_str(session), opt_text_of(buffer), hex_text_of(text)];
    proof {
        assert(views(fields@) =~= seq!["SAVE_BUFFER_TEXT"@, session@, opt_text(opt_str_view(buffer)), hex_text(text@)]);
    }
    wire_line(fields)
}

pub fn encode_paste_buffer_target(target: &Target, buffer: Option<&str>) -> (r: String)
    ensures
        r@ == line_of(seq!["PASTE_BUFFER_TARGET"@, target_text(target@), opt_text(opt_str_view(buffer))]),
{
    let fields = vec![String::from_str("PASTE_BUFFER_TARGET"), encode_target(target), opt_text_of(buffer)];
    proof {
        assert(views(fields@) =~= seq!["PASTE_BUFFER_TARGET"@, target_text(target@), opt_text(opt_str_view(buffer))]);
    }
    wire_line(fields)
}

pub fn encode_delete_buffer(buffer: &str) -> (r: String)
    ensures
        r@ == line_of(seq!["DELETE_BUFFER"@, hex_text(buffer@)]),
{
    let fields = vec![String::from_str("DELETE_BUFFER"), hex_text_of(buffer)];
    proof {
        assert(views(fields@) =~= seq!["DELETE_BUFFER"@, hex_text(buffer@)]);
    }
    wire_line(fields)
}

pub fn encode_resize(session: &str, cols: u16, rows: u16) -> (r: String)
    ensures
        r@ == line_of(seq!["RESIZE"@, session@, decimal(cols as nat), decimal(rows as nat)]),
{
    let fields = vec![String::from_str("RESIZE"), String::from_str(session), decimal_string(cols as u64), decimal_string(rows as u64)];
    proof {
        assert(views(fields@) =~= seq!["RESIZE"@, session@, decimal(cols as nat), decimal(rows as nat)]);
    }
    wire_line(fields)
}

pub fn encode_resize_pane_target(target: &Target, direction: PaneResizeDirection, amount: usize) -> (r: String)
    ensures
        r@ == line_of(seq!["RESIZE_PANE_TARGET"@, target_text(target@), resize_direction_text(direction), decimal(amount as nat)]),
{
    let fields = vec![String::from_str("RESIZE_PANE_TARGET"), encode_target(target), String::from_str(resize_direction_str(direction)), usize_string(amount)];
    proof {
        assert(views(fields@) =~= seq!["RESIZE_PANE_TARGET"@, target_text(target@), resize_direction_text(direction), decimal(amount as nat)]);
    }
    wire_line(fields)
}

pub fn encode_select_layout_target(target: &Target, preset: LayoutPreset) -> (r: String)
    ensures
        r@ == line_of(seq!["SELECT_LAYOUT_TARGET"@, target_text(target@), layout_preset_text(preset)]),
{
    let fields = vec![String::from_str("SELECT_LAYOUT_TARGET"), encode_target(target), String::from_str(layout_preset_str(preset))];
    proof {
        assert(views(fields@) =~= seq!["SELECT_LAYOUT_TARGET"@, target_text(target@), layout_preset_text(preset)]);
    }
    wire_line(fields)
}

pub fn encode_send_target(target: &Target, bytes: &[u8]) -> (r: String)
    ensures
        r@ == line_of(seq!["SEND_TARGET"@, target_text(target@), hex(bytes@)]),
{
    let fields = vec![String::from_str("SEND_TARGET"), encode_target(target), encode_hex(bytes)];
    proof {
        assert(views(fields@) =~= seq!["SEND_TARGET"@, target_text(target@), hex(bytes@)]);
    }
    wire_line(fields)
}

pub fn encode_split(session: &str, direction: SplitDirection, command: &[String]) -> (r: String)
    ensures
        r@ == line_of(seq!["SPLIT"@, session@, split_direction_text(direction), decimal(command@.len()), command_text(views(command@))]),
{
    let fields = vec![String::from_str("SPLIT"), String::from_str(session), String::from_str(split_direction_str(direction)), usize_string(command.len()), command_text_of(command)];
    proof {
        assert(views(fields@) =~= seq!["SPLIT"@, session@, split_direction_text(direction), decimal(command@.len()), command_text(views(command@))]);
    }
    wire_line(fields)
}

pub fn encode_split_target(target: &Target, direction: SplitDirection, command: &[String]) -> (r: String)
    ensures
        r@ == line_of(seq!["SPLIT_TARGET"@, target_text(target@), split_direction_text(direction), decimal(command@.len()), command_text(views(command@))]),
{
    let fields = vec![String::from_str("SPLIT_TARGET"), encode_target(target), String::from_str(split_direction_str(direction)), usize_string(command.len()), command_text_of(command)];
    proof {
        assert(views(fields@) =~= seq!["SPLIT_TARGET"@, target_text(target@), split_direction_text(direction), decimal(command@.len()), command_text(views(command@))]);
    }
    wire_line(fields)
}

pub fn encode_split_target_in_cwd(target: &Target, direction: SplitDirection, command: &[String], cwd: &[u8]) -> (r: String)
    ensures
        r@ == line_of(seq!["SPLIT_TARGET_CWD"@, target_text(target@), split_direction_text(direction), hex(cwd@), decimal(command@.len()), command_text(views(command@))]),
{
    let fields = vec![String::from_str("SPLIT_TARGET_CWD"), encode_target(target), String::from_str(split_direction_str(direction)), encode_hex(cwd), usize_string(command.len()), command_text_of(command)];
    proof {
        assert(views(fields@) =~= seq!["SPLIT_TARGET_CWD"@, target_text(target@), split_direction_text(direction), hex(cwd@), decimal(command@.len()), command_text(views(command@))]);
    }
    wire_line(fields)
}

pub fn encode_select_pane(session: &str, pane: usize) -> (r: String)
    ensures
        r@ == line_of(seq!["SELECT_PANE"@, session@, decimal(pane as nat)]),
{
    let fields = vec![String::from_str("SELECT_PANE"), String::from_str(session), usize_string(pane)];
    proof {
        assert(views(fields@) =~= seq!["SELECT_PANE"@, session@, decimal(pane as nat)]);
    }
    wire_line(fields)
}

pub fn encode_kill_pane_target(target: &Target) -> (r: String)
    ensures
        r@ == line_of(seq!["KILL_PANE_TARGET"@, target_text(target@)]),
{
    let fields = vec![String::from_str("KILL_PANE_TARGET"), encode_target(target)];
    proof {
        assert(views(fields@) =~= seq!["KILL_PANE_TARGET"@, target_text(target@)]);
    }
    wire_line(fields)
}

pub fn encode_swap_pane(source: &Target, destination: &Target) -> (r: String)
    ensures
        r@ == line_of(seq!["SWAP_PANE"@, target_text(source@), target_text(destination@)]),
{
    let fields = vec![String::from_str("SWAP_PANE"), encode_target(source), encode_target(destination)];
    proof {
        assert(views(fields@) =~= seq!["SWAP_PANE"@, target_text(source@), target_text(destination@)]);
    }
    wire_line(fields)
}

pub fn encode_move_pane(source: &Target, destination: &Target, direction: SplitDirection) -> (r: String)
    ensures
        r@ == line_of(seq!["MOVE_PANE"@, target_text(source@), target_text(destination@), split_direction_text(direction)]),
{
    let fields = vec![String::from_str("MOVE_PANE"), encode_target(source), encode_target(destination), String::from_str(split_direction_str(direction))];
    proof {
        assert(views(fields@) =~= seq!["MOVE_PANE"@, target_text(source@), target_text(destination@), split_direction_text(direction)]);
    }
    wire_line(fields)
}

pub fn encode_break_pane(target: &Target) -> (r: String)
    ensures
        r@ == line_of(seq!["BREAK_PANE"@, target_text(target@)]),
{
    let fields = vec![String::from_str("BREAK_PANE"), encode_target(target)];
    proof {
        assert(views(fields@) =~= seq!["BREAK_PANE"@, target_text(target@)]);
    }
    wire_line(fields)
}

pub fn encode_join_pane(source: &Target, destination: &Target, direction: SplitDirection) -> (r: String)
    ensures
        r@ == line_of(seq!["JOIN_PANE"@, target_text(source@), target_text(destination@), split_direction_text(direction)]),
{
    let fields = vec![String::from_str("JOIN_PANE"), encode_target(source), encode_target(destination), String::from_str(split_direction_str(direction))];
    proof {
        assert(views(fields@) =~= seq!["JOIN_PANE"@, target_text(source@), target_text(destination@), split_direction_text(direction)]);
    }
    wire_line(fields)
}

pub fn encode_respawn_pane_target(target: &Target, force: bool, command: &[String]) -> (r: String)
    ensures
        r@ == line_of(seq!["RESPAWN_PANE_TARGET"@, target_text(target@), (if force { "1"@ } else { "0"@ }), decimal(command@.len()), command_text(views(command@))]),
{
    let fields = vec![String::from_str("RESPAWN_PANE_TARGET"), encode_target(target), String::from_str(if force { "1" } else { "0" }), usize_string(command.len()), command_text_of(command)];
    proof {
        assert(views(fields@) =~= seq!["RESPAWN_PANE_TARGET"@, target_text(target@), (if force { "1"@ } else { "0"@ }), decimal(command@.len()), command_text(views(command@))]);
    }
    wire_line(fields)
}

pub fn encode_respawn_pane_target_in_cwd(target: &Target, force: bool, command: &[String], cwd: &[u8]) -> (r: String)
    ensures
        r@ == line_of(seq!["RESPAWN_PANE_TARGET_CWD"@, target_text(target@), (if force { "1"@ } else { "0"@ }), hex(cwd@), decimal(command@.len()), command_text(views(command@))]),
{
    let fields = vec![String::from_str("RESPAWN_PANE_TARGET_CWD"), encode_target(target), String::from_str(if force { "1" } else { "0" }), encode_hex(cwd), usize_string(command.len()), command_text_of(command)];
    proof {
        assert(views(fields@) =~= seq!["RESPAWN_PANE_TARGET_CWD"@, target_text(target@), (if force { "1"@ } else { "0"@ }), hex(cwd@), decimal(command@.len()), command_text(views(command@))]);
    }
    wire_line(fields)
}

pub fn encode_new_window(session: &str, command: &[String]) -> (r: String)
    ensures
        r@ == line_of(seq!["NEW_WINDOW"@, session@, decimal(command@.len()), command_text(views(command@))]),
{
    let fields = vec![String::from_str("NEW_WINDOW"), String::from_str(session), usize_string(command.len()), command_text_of(command)];
    proof {
        assert(views(fields@) =~= seq!["NEW_WINDOW"@, session@, decimal(command@.len()), command_text(views(command@))]);
    }
    wire_line(fields)
}

pub fn encode_new_window_in_cwd(session: &str, command: &[String], cwd: &[u8]) -> (r: String)
    ensures
        r@ == line_of(seq!["NEW_WINDOW_CWD"@, session@, hex(cwd@), decimal(command@.len()), command_text(views(command@))]),
{
    let fields = vec![String::from_str("NEW_WINDOW_CWD"), String::from_str(session), encode_hex(cwd), usize_string(command.len()), command_text_of(command)];
    proof {
        assert(views(fields@) =~= seq!["NEW_WINDOW_CWD"@, session@, hex(cwd@), decimal(command@.len()), command_text(views(command@))]);
    }
    wire_line(fields)
}

pub fn encode_select_window(session: &str, window: usize) -> (r: String)
    ensures
        r@ == line_of(seq!["SELECT_WINDOW"@, session@, decimal(window as nat)]),
{
    let fields = vec![String::from_str("SELECT_WINDOW"), String::from_str(session), usize_string(window)];
    proof {
        assert(views(fields@) =~= seq!["SELECT_WINDOW"@, session@, decimal(window as nat)]);
    }
    wire_line(fields)
}

pub fn encode_next_window(session: &str) -> (r: String)
    ensures
        r@ == line_of(seq!["NEXT_WINDOW"@, session@]),
{
    let fields = vec![String::from_str("NEXT_WINDOW"), String::from_str(session)];
    proof {
        assert(views(fields@) =~= seq!["NEXT_WINDOW"@, session@]);
    }
    wire_line(fields)
}

pub fn encode_previous_window(session: &str) -> (r: String)
    ensures
        r@ == line_of(seq!["PREVIOUS_WINDOW"@, session@]),
{
    let fields = vec![String::from_str("PREVIOUS_WINDOW"), String::from_str(session)];
    proof {
        assert(views(fields@) =~= seq!["PREVIOUS_WINDOW"@, session@]);
    }
    wire_line(fields)
}

pub fn encode_kill_window_target(session: &str, target: WindowTarget) -> (r: String)
    ensures
        r@ == line_of(seq!["KILL_WINDOW_TARGET"@, session@, window_target_text(target@)]),
{
    let fields = vec![String::from_str("KILL_WINDOW_TARGET"), String::from_str(session), window_target_string(&target)];
    proof {
        assert(views(fields@) =~= seq!["KILL_WINDOW_TARGET"@, session@, window_target_text(target@)]);
    }
    wire_line(fields)
}

pub fn encode_zoom_pane_target(target: &Target) -> (r: String)
    ensures
        r@ == line_of(seq!["ZOOM_PANE_TARGET"@, target_text(target@)]),
{
    let fields = vec![String::from_str("ZOOM_PANE_TARGET"), encode_target(target)];
    proof {
        assert(views(fields@) =~= seq!["ZOOM_PANE_TARGET"@, target_text(target@)]);
    }
    wire_line(fields)
}

pub fn encode_display_message(session: &str, format: &str) -> (r: String)
    ensures
        r@ == line_of(seq!["DISPLAY_MESSAGE"@, session@, hex_text(format@)]),
{
    let fields = vec![String::from_str("DISPLAY_MESSAGE"), String::from_str(session), hex_text_of(format)];
    proof {
        assert(views(fields@) =~= seq!["DISPLAY_MESSAGE"@, session@, hex_text(format@)]);
    }
    wire_line(fields)
}

pub fn encode_list_keys(format: Option<&str>) -> (r: String)
    ensures
        r@ == line_of(seq!["LIST_KEYS"@, opt_text(opt_str_view(format))]),
{
    let fields = vec![String::from_str("LIST_KEYS"), opt_text_of(format)];
    proof {
        assert(views(fields@) =~= seq!["LIST_KEYS"@, opt_text(opt_str_view(format))]);
    }
    wire_line(fields)
}

pub fn encode_bind_key(key: &str, command: &str) -> (r: String)
    ensures
        r@ == line_of(seq!["BIND_KEY"@, hex_text(key@), hex_text(command@)]),
{
    let fields = vec![String::from_str("BIND_KEY"), hex_text_of(key), hex_text_of(command)];
    proof {
        assert(views(fields@) =~= seq!["BIND_KEY"@, hex_text(key@), hex_text(command@)]);
    }
    wire_line(fields)
}

pub fn encode_unbind_key(key: &str) -> (r: String)
    ensures
        r@ == line_of(seq!["UNBIND_KEY"@, hex_text(key@)]),
{
    let fields = vec![String::from_str("UNBIND_KEY"), hex_text_of(key)];
    proof {
        assert(views(fields@) =~= seq!["UNBIND_KEY"@, hex_text(key@)]);
    }
    wire_line(fields)
}

pub fn encode_show_options(format: Option<&str>) -> (r: String)
    ensures
        r@ == line_of(seq!["SHOW_OPTIONS"@, opt_text(opt_str_view(format))]),
{
    let fields = vec![String::from_str("SHOW_OPTIONS"), opt_text_of(format)];
    proof {
        assert(views(fields@) =~= seq!["SHOW_OPTIONS"@, opt_text(opt_str_view(format))]);
    }
    wire_line(fields)
}

pub fn encode_set_option(name: &str, value: &str) -> (r: String)
    ensures
        r@ == line_of(seq!["SET_OPTION"@, hex_text(name@), hex_text(value@)]),
{
    let fields = vec![String::from_str("SET_OPTION"), hex_text_of(name), hex_text_of(value)];
    proof {
        assert(views(fields@) =~= seq!["SET_OPTION"@, hex_text(name@), hex_text(value@)]);
    }
    wire_line(fields)
}

pub fn encode_kill(session: &str) -> (r: String)
    ensures
        r@ == line_of(seq!["KILL"@, session@]),
{
    let fields = vec![String::from_str("KILL"), String::from_str(session)];
    proof {
        assert(views(fields@) =~= seq!["KILL"@, session@]);
    }
    wire_line(fields)
}

pub fn encode_list_sessions(format: Option<&str>) -> (r: String)
    ensures
        r@ == (match format {
            Some(format) => line_of(seq!["LIST_SESSIONS_FORMAT"@, hex_text(format@)]),
            None => line_of(seq!["LIST"@]),
        }),
{
    match format {
        Some(format) => {
            let fields = vec![String::from_str("LIST_SESSIONS_FORMAT"), hex_text_of(format)];
            proof {
                assert(views(fields@) =~= seq!["LIST_SESSIONS_FORMAT"@, hex_text(format@)]);
            }
            wire_line(fields)
        },
        None => {
            let fields = vec![String::from_str("LIST")];
            proof {
                assert(views(fields@) =~= seq!["LIST"@]);
            }
            wire_line(fields)
        },
    }
}

pub fn encode_list_buffers(format: Option<&str>) -> (r: String)
    ensures
        r@ == (match format {
            Some(format) => line_of(seq!["LIST_BUFFERS_FORMAT"@, hex_text(format@)]),
            None => line_of(seq!["LIST_BUFFERS"@]),
        }),
{
    match format {
        Some(format) => {
            let fields = vec![String::from_str("LIST_BUFFERS_FORMAT"), hex_text_of(format)];
            proof {
                assert(views(fields@) =~= seq!["LIST_BUFFERS_FORMAT"@, hex_text(format@)]);
            }
            wire_line(fields)
        },
        None => {
            let fields = vec![String::from_str("LIST_BUFFERS")];
            proof {
                assert(views(fields@) =~= seq!["LIST_BUFFERS"@]);
            }
            wire_line(fields)
        },
    }
}

pub fn encode_copy_mode(session: &str, mode: CaptureMode, search: Option<&str>, match_index: Option<usize>) -> (r: String)
    ensures
        r@ == (match match_index {
            Some(m) => line_of(seq!["COPY_MODE"@, session@, capture_mode_text(mode), opt_text(opt_str_view(search)), decimal(m as nat)]),
            None => line_of(seq!["COPY_MODE"@, session@, capture_mode_text(mode), opt_text(opt_str_view(search))]),
        }),
{
    match match_index {
        Some(m) => {
            let fields = vec![String::from_str("COPY_MODE"), String::from_str(session), String::from_str(capture_mode_str(mode)), opt_text_of(search), usize_string(m)];
            proof {
                assert(views(fields@) =~= seq!["COPY_MODE"@, session@, capture_mode_text(mode), opt_text(opt_str_view(search)), decimal(m as nat)]);
            }
            wire_line(fields)
        },
        None => {
            let fields = vec![String::from_str("COPY_MODE"), String::from_str(session), String::from_str(capture_mode_str(mode)), opt_text_of(search)];
            proof {
                assert(views(fields@) =~= seq!["COPY_MODE"@, session@, capture_mode_text(mode), opt_text(opt_str_view(search))]);
            }
            wire_line(fields)
        },
    }
}

pub fn encode_list_panes_target(session: &str, window: WindowTarget, format: Option<&str>) -> (r: String)
    ensures
        r@ == (match format {
            Some(format) => line_of(seq!["LIST_PANES_TARGET_FORMAT"@, session@, window_target_text(window@), hex_text(format@)]),
            None => line_of(seq!["LIST_PANES_TARGET"@, session@, window_target_text(window@)]),
        }),
{
    match format {
        Some(format) => {
            let fields = vec![String::from_str("LIST_PANES_TARGET_FORMAT"), String::from_str(session), window_target_string(&window), hex_text_of(format)];
            proof {
                assert(views(fields@) =~= seq!["LIST_PANES_TARGET_FORMAT"@, session@, window_target_text(window@), hex_text(format@)]);
            }
            wire_line(fields)
        },
        None => {
            let fields = vec![String::from_str("LIST_PANES_TARGET"), String::from_str(session), window_target_string(&window)];
            proof {
                assert(views(fields@) =~= seq!["LIST_PANES_TARGET"@, session@, window_target_text(window@)]);
            }
            wire_line(fields)
        },
    }
}

pub fn encode_select_pane_target(session: &str, target: PaneSelectTarget) -> (r: String)
    ensures
        r@ == (match target {
            PaneSelectTarget::Index(pane) => line_of(seq!["SELECT_PANE"@, session@, decimal(pane as nat)]),
            PaneSelectTarget::Id(id) => line_of(seq!["SELECT_PANE_ID"@, session@, decimal(id as nat)]),
            PaneSelectTarget::Direction(direction) => line_of(seq!["SELECT_PANE_DIRECTION"@, session@, pane_direction_text(direction)]),
        }),
{
    match target {
        PaneSelectTarget::Index(pane) => {
            let fields = vec![String::from_str("SELECT_PANE"), String::from_str(session), usize_string(pane)];
            proof {
                assert(views(fields@) =~= seq!["SELECT_PANE"@, session@, decimal(pane as nat)]);
            }
            wire_line(fields)
        },
        PaneSelectTarget::Id(id) => {
            let fields = vec![String::from_str("SELECT_PANE_ID"), String::from_str(session), usize_string(id)];
            proof {
                assert(views(fields@) =~= seq!["SELECT_PANE_ID"@, session@, decimal(id as nat)]);
            }
            wire_line(fields)
        },
        PaneSelectTarget::Direction(direction) => {
            let fields = vec![String::from_str("SELECT_PANE_DIRECTION"), String::from_str(session), String::from_str(pane_direction_str(direction))];
            proof {
                assert(views(fields@) =~= seq!["SELECT_PANE_DIRECTION"@, session@, pane_direction_text(direction)]);
            }
            wire_line(fields)
        },
    }
}

pub fn encode_select_pane_in_window(session: &str, window: WindowTarget, target: PaneSelectTarget) -> (r: String)
    ensures
        r@ == (match target {
            PaneSelectTarget::Index(pane) => line_of(seq!["SELECT_PANE_TARGET"@, session@, window_target_text(window@), decimal(pane as nat)]),
            PaneSelectTarget::Id(id) => line_of(seq!["SELECT_PANE_TARGET_ID"@, session@, window_target_text(window@), decimal(id as nat)]),
            PaneSelectTarget::Direction(direction) => line_of(seq!["SELECT_PANE_TARGET_DIRECTION"@, session@, window_target_text(window@), pane_direction_text(direction)]),
        }),
{
    match target {
        PaneSelectTarget::Index(pane) => {
            let fields = vec![String::from_str("SELECT_PANE_TARGET"), String::from_str(session), window_target_string(&window), usize_string(pane)];
            proof {
                assert(views(fields@) =~= seq!["SELECT_PANE_TARGET"@, session@, window_target_text(window@), decimal(pane as nat)]);
            }
            wire_line(fields)
        },
        PaneSelectTarget::Id(id) => {
            let fields = vec![String::from_str("SELECT_PANE_TARGET_ID"), String::from_str(session), window_target_string(&window), usize_string(id)];
            proof {
                assert(views(fields@) =~= seq!["SELECT_PANE_TARGET_ID"@, session@, window_target_text(window@), decimal(id as nat)]);
            }
            wire_line(fields)
        },
        PaneSelectTarget::Direction(direction) => {
            let fields = vec![String::from_str("SELECT_PANE_TARGET_DIRECTION"), String::from_str(session), window_target_string(&window), String::from_str(pane_direction_str(direction))];
            proof {
                assert(views(fields@) =~= seq!["SELECT_PANE_TARGET_DIRECTION"@, session@, window_target_text(window@), pane_direction_text(direction)]);
            }
            wire_line(fields)
        },
    }
}

pub fn encode_list_windows(session: &str, format: Option<&str>) -> (r: String)
    ensures
        r@ == (match format {
            Some(format) => line_of(seq!["LIST_WINDOWS_FORMAT"@, session@, hex_text(format@)]),
            None => line_of(seq!["LIST_WINDOWS"@, session@]),
        }),
{
    match format {
        Some(format) => {
            let fields = vec![String::from_str("LIST_WINDOWS_FORMAT"), String::from_str(session), hex_text_of(format)];
            proof {
                assert(views(fields@) =~= seq!["LIST_WINDOWS_FORMAT"@, session@, hex_text(format@)]);
            }
            wire_line(fields)
        },
        None => {
            let fields = vec![String::from_str("LIST_WINDOWS"), String::from_str(session)];
            proof {
                assert(views(fields@) =~= seq!["LIST_WINDOWS"@, session@]);
            }
            wire_line(fields)
        },
    }
}

/// The line that selects a window of a session.
pub open spec fn select_window_line(session: Seq<char>, target: WindowTargetView) -> Seq<char> {
    match target {
        WindowTargetView::Active => line_of(seq!["SELECT_WINDOW_ACTIVE"@, session]),
        WindowTargetView::Index(index) => line_of(seq!["SELECT_WINDOW"@, session, decimal(index as nat)]),
        WindowTargetView::Id(id) => line_of(seq!["SELECT_WINDOW_ID"@, session, decimal(id as nat)]),
        WindowTargetView::Name(name) => line_of(seq!["SELECT_WINDOW_NAME"@, session, hex_text(name)]),
    }
}

pub fn encode_select_window_target(session: &str, target: WindowTarget) -> (r: String)
    ensures
        r@ == select_window_line(session@, target@),
{
    match &target {
        WindowTarget::Active => {
            let fields = vec![String::from_str("SELECT_WINDOW_ACTIVE"), String::from_str(session)];
            proof {
                assert(views(fields@) =~= seq!["SELECT_WINDOW_ACTIVE"@, session@]);
            }
            wire_line(fields)
        },
        WindowTarget::Index(index) => {
            let fields = vec![String::from_str("SELECT_WINDOW"), String::from_str(session), usize_string(*index)];
            proof {
                assert(views(fields@) =~= seq!["SELECT_WINDOW"@, session@, decimal(*index as nat)]);
            }
            wire_line(fields)
        },
        WindowTarget::Id(id) => {
            let fields = vec![String::from_str("SELECT_WINDOW_ID"), String::from_str(session), usize_string(*id)];
            proof {
                assert(views(fields@) =~= seq!["SELECT_WINDOW_ID"@, session@, decimal(*id as nat)]);
            }
            wire_line(fields)
        },
        WindowTarget::Name(name) => {
            let fields = vec![String::from_str("SELECT_WINDOW_NAME"), String::from_str(session), hex_text_of(name.as_str())];
            proof {
                assert(views(fields@) =~= seq!["SELECT_WINDOW_NAME"@, session@, hex_text(name@)]);
            }
            wire_line(fields)
        },
    }
}

/// The line that renames the window `target` of `session` to `name`.
pub open spec fn rename_window_line(session: Seq<char>, target: WindowTargetView, name: Seq<char>) -> Seq<char> {
    match target {
        WindowTargetView::Active => line_of(seq!["RENAME_WINDOW"@, session, "active"@, hex_text(name)]),
        WindowTargetView::Index(index) => line_of(seq!["RENAME_WINDOW"@, session, decimal(index as nat), hex_text(name)]),
        WindowTargetView::Id(id) => line_of(seq!["RENAME_WINDOW_ID"@, session, decimal(id as nat), hex_text(name)]),
        WindowTargetView::Name(old_name) => line_of(seq!["RENAME_WINDOW_NAME"@, session, hex_text(old_name), hex_text(name)]),
    }
}

pub fn encode_rename_window(session: &str, target: WindowTarget, name: &str) -> (r: String)
    ensures
        r@ == rename_window_line(session@, target@, name@),
{
    match &target {
        WindowTarget::Active => {
            let fields = vec![String::from_str("RENAME_WINDOW"), String::from_str(session), String::from_str("active"), hex_text_of(name)];
            proof {
                assert(views(fields@) =~= seq!["RENAME_WINDOW"@, session@, "active"@, hex_text(name@)]);
            }
            wire_line(fields)
        },
        WindowTarget::Index(index) => {
            let fields = vec![String::from_str("RENAME_WINDOW"), String::from_str(session), usize_string(*index), hex_text_of(name)];
            proof {
                assert(views(fields@) =~= seq!["RENAME_WINDOW"@, session@, decimal(*index as nat), hex_text(name@)]);
            }
            wire_line(fields)
        },
        WindowTarget::Id(id) => {
            let fields = vec![String::from_str("RENAME_WINDOW_ID"), String::from_str(session), usize_string(*id), hex_text_of(name)];
            proof {
                assert(views(fields@) =~= seq!["RENAME_WINDOW_ID"@, session@, decimal(*id as nat), hex_text(name@)]);
            }
            wire_line(fields)
        },
        WindowTarget::Name(old_name) => {
            let fields = vec![String::from_str("RENAME_WINDOW_NAME"), String::from_str(session), hex_text_of(old_name.as_str()), hex_text_of(name)];
            proof {
                assert(views(fields@) =~= seq!["RENAME_WINDOW_NAME"@, session@, hex_text(old_name@), hex_text(name@)]);
            }
            wire_line(fields)
        },
    }
}

pub fn encode_status_line(session: &str, format: Option<&str>) -> (r: String)
    ensures
        r@ == (match format {
            Some(format) => line_of(seq!["STATUS_LINE_FORMAT"@, session@, hex_text(format@)]),
            None => line_of(seq!["STATUS_LINE"@, session@]),
        }),
{
    match format {
        Some(format) => {
            let fields = vec![String::from_str("STATUS_LINE_FORMAT"), String::from_str(session), hex_text_of(format)];
            proof {
                assert(views(fields@) =~= seq!["STATUS_LINE_FORMAT"@, session@, hex_text(format@)]);
            }
            wire_line(fields)
        },
        None => {
            let fields = vec![String::from_str("STATUS_LINE"), String::from_str(session)];
            proof {
                assert(views(fields@) =~= seq!["STATUS_LINE"@, session@]);
            }
            wire_line(fields)
        },
    }
}

pub fn encode_list() -> (r: &'static str)
    ensures
        r@ == line_of(seq!["LIST"@]),
{
    proof {
        reveal_strlit("LIST\n");
        reveal_strlit("LIST");
        assert(seq!["LIST"@].len() == 1);
        assert("LIST\n"@ =~= "LIST"@.push('\n'));
    }
    "LIST\n"
}

pub fn encode_kill_server() -> (r: &'static str)
    ensures
        r@ == line_of(seq!["KILL_SERVER"@]),
{
    proof {
        reveal_strlit("KILL_SERVER\n");
        reveal_strlit("KILL_SERVER");
        assert("KILL_SERVER\n"@ =~= "KILL_SERVER"@.push('\n'));
    }
    "KILL_SERVER\n"
}

/// The line of a capture request for a target, by selection.
pub open spec fn capture_target_line(target: TargetView, mode: CaptureMode, selection: BufferSelectionView) -> Seq<char> {
    match selection {
        BufferSelectionView::All => line_of(seq!["CAPTURE_TARGET"@, target_text(target), capture_mode_text(mode)]),
        BufferSelectionView::LineRange { start, end } => line_of(seq!["CAPTURE_TARGET_LINES"@, target_text(target), capture_mode_text(mode), signed_decimal(start as int), signed_decimal(end as int)]),
        BufferSelectionView::Search { needle, match_index } => line_of(seq!["CAPTURE_TARGET_SEARCH"@, target_text(target), capture_mode_text(mode), hex_text(needle), decimal(match_index as nat)]),
    }
}

pub fn encode_capture_target(target: &Target, mode: CaptureMode, selection: BufferSelection) -> (r: String)
    ensures
        r@ == capture_target_line(target@, mode, selection@),
{
    match selection {
        BufferSelection::All => {
            let fields = vec![String::from_str("CAPTURE_TARGET"), encode_target(target), String::from_str(capture_mode_str(mode))];
            proof {
                assert(views(fields@) =~= seq!["CAPTURE_TARGET"@, target_text(target@), capture_mode_text(mode)]);
            }
            wire_line(fields)
        },
        BufferSelection::LineRange { start, end } => {
            let fields = vec![String::from_str("CAPTURE_TARGET_LINES"), encode_target(target), String::from_str(capture_mode_str(mode)), isize_string(start), isize_string(end)];
            proof {
                assert(views(fields@) =~= seq!["CAPTURE_TARGET_LINES"@, target_text(target@), capture_mode_text(mode), signed_decimal(start as int), signed_decimal(end as int)]);
            }
            wire_line(fields)
        },
        BufferSelection::Search { needle, match_index } => {
            let fields = vec![String::from_str("CAPTURE_TARGET_SEARCH"), encode_target(target), String::from_str(capture_mode_str(mode)), hex_text_of(needle.as_str()), usize_string(match_index)];
            proof {
                assert(views(fields@) =~= seq!["CAPTURE_TARGET_SEARCH"@, target_text(target@), capture_mode_text(mode), hex_text(needle@), decimal(match_index as nat)]);
            }
            wire_line(fields)
        },
    }
}

pub fn encode_capture_with_selection(session: &str, mode: CaptureMode, selection: BufferSelection) -> (r: String)
    ensures
        r@ == capture_target_line(active_target(session@), mode, selection@),
{
    encode_capture_target(&Target::active(String::from_str(session)), mode, selection)
}

/// The line of a save-buffer request for a target, by selection.
pub open spec fn save_buffer_target_line(target: TargetView, buffer: Option<Seq<char>>, mode: CaptureMode, selection: BufferSelectionView) -> Seq<char> {
    match selection {
        BufferSelectionView::All => line_of(seq!["SAVE_BUFFER_TARGET"@, target_text(target), capture_mode_text(mode), opt_text(buffer)]),
        BufferSelectionView::LineRange { start, end } => line_of(seq!["SAVE_BUFFER_TARGET_LINES"@, target_text(target), capture_mode_text(mode), opt_text(buffer), signed_decimal(start as int), signed_decimal(end as int)]),
        BufferSelectionView::Search { needle, match_index } => if match_index == 1 {
            line_of(seq!["SAVE_BUFFER_TARGET_SEARCH"@, target_text(target), capture_mode_text(mode), opt_text(buffer), hex_text(needle)])
        } else {
            line_of(seq!["SAVE_BUFFER_TARGET_SEARCH"@, target_text(target), capture_mode_text(mode), opt_text(buffer), hex_text(needle), decimal(match_index as nat)])
        },
    }
}

pub fn encode_save_buffer_target(target: &Target, buffer: Option<&str>, mode: CaptureMode, selection: BufferSelection) -> (r: String)
    ensures
        r@ == save_buffer_target_line(target@, opt_str_view(buffer), mode, selection@),
{
    match selection {
        BufferSelection::All => {
            let fields = vec![String::from_str("SAVE_BUFFER_TARGET"), encode_target(target), String::from_str(capture_mode_str(mode)), opt_text_of(buffer)];
            proof {
                assert(views(fields@) =~= seq!["SAVE_BUFFER_TARGET"@, target_text(target@), capture_mode_text(mode), opt_text(opt_str_view(buffer))]);
            }
            wire_line(fields)
        },
        BufferSelection::LineRange { start, end } => {
            let fields = vec![String::from_str("SAVE_BUFFER_TARGET_LINES"), encode_target(target), String::from_str(capture_mode_str(mode)), opt_text_of(buffer), isize_string(start), isize_string(end)];
            proof {
                assert(views(fields@) =~= seq!["SAVE_BUFFER_TARGET_LINES"@, target_text(target@), capture_mode_text(mode), opt_text(opt_str_view(buffer)), signed_decimal(start as int), signed_decimal(end as int)]);
            }
            wire_line(fields)
        },
        BufferSelection::Search { needle, match_index } => {
            if match_index == 1 {
                let fields = vec![String::from_str("SAVE_BUFFER_TARGET_SEARCH"), encode_target(target), String::from_str(capture_mode_str(mode)), opt_text_of(buffer), hex_text_of(needle.as_str())];
                proof {
                    assert(views(fields@) =~= seq!["SAVE_BUFFER_TARGET_SEARCH"@, target_text(target@), capture_mode_text(mode), opt_text(opt_str_view(buffer)), hex_text(needle@)]);
                }
                wire_line(fields)
            } else {
                let fields = vec![String::from_str("SAVE_BUFFER_TARGET_SEARCH"), encode_target(target), String::from_str(capture_mode_str(mode)), opt_text_of(buffer), hex_text_of(needle.as_str()), usize_string(match_index)];
                proof {
                    assert(views(fields@) =~= seq!["SAVE_BUFFER_TARGET_SEARCH"@, target_text(target@), capture_mode_text(mode), opt_text(opt_str_view(buffer)), hex_text(needle@), decimal(match_index as nat)]);
                }
                wire_line(fields)
            }
        },
    }
}

pub fn encode_save_buffer(session: &str, buffer: Option<&str>, mode: CaptureMode, selection: BufferSelection) -> (r: String)
    ensures
        r@ == save_buffer_target_line(active_target(session@), opt_str_view(buffer), mode, selection@),
{
    encode_save_buffer_target(&Target::active(String::from_str(session)), buffer, mode, selection)
}

pub fn encode_paste_buffer(session: &str, buffer: Option<&str>) -> (r: String)
    ensures
        r@ == line_of(seq!["PASTE_BUFFER_TARGET"@, target_text(active_target(session@)), opt_text(opt_str_view(buffer))]),
{
    encode_paste_buffer_target(&Target::active(String::from_str(session)), buffer)
}

pub fn encode_resize_pane(session: &str, direction: PaneResizeDirection, amount: usize) -> (r: String)
    ensures
        r@ == line_of(seq!["RESIZE_PANE_TARGET"@, target_text(active_target(session@)), resize_direction_text(direction), decimal(amount as nat)]),
{
    encode_resize_pane_target(&Target::active(String::from_str(session)), direction, amount)
}

pub fn encode_select_layout(session: &str, preset: LayoutPreset) -> (r: String)
    ensures
        r@ == line_of(seq!["SELECT_LAYOUT_TARGET"@, target_text(active_target(session@)), layout_preset_text(preset)]),
{
    encode_select_layout_target(&Target::active(String::from_str(session)), preset)
}

pub fn encode_send(session: &str, bytes: &[u8]) -> (r: String)
    ensures
        r@ == line_of(seq!["SEND_TARGET"@, target_text(active_target(session@)), hex(bytes@)]),
{
    encode_send_target(&Target::active(String::from_str(session)), bytes)
}

pub fn encode_list_panes(session: &str, format: Option<&str>) -> (r: String)
    ensures
        r@ == (match format {
            Some(format) => line_of(seq!["LIST_PANES_TARGET_FORMAT"@, session@, "active"@, hex_text(format@)]),
            None => line_of(seq!["LIST_PANES_TARGET"@, session@, "active"@]),
        }),
{
    encode_list_panes_target(session, WindowTarget::Active, format)
}

/// The target for a session's active window and the given pane (or its
/// active pane).
pub open spec fn pane_in_session(session: Seq<char>, pane: Option<usize>) -> TargetView {
    TargetView {
        session,
        window: WindowTargetView::Active,
        pane: match pane {
            Some(p) => PaneTarget::Index(p),
            None => PaneTarget::Active,
        },
    }
}

fn target_for_pane(session: &str, pane: Option<usize>) -> (r: Target)
    ensures
        r@ == pane_in_session(session@, pane),
{
    let mut target = Target::active(String::from_str(session));
    target.pane = match pane {
        Some(p) => PaneTarget::Index(p),
        None => PaneTarget::Active,
    };
    target
}

pub fn encode_kill_pane(session: &str, pane: Option<usize>) -> (r: String)
    ensures
        r@ == line_of(seq!["KILL_PANE_TARGET"@, target_text(pane_in_session(session@, pane))]),
{
    encode_kill_pane_target(&target_for_pane(session, pane))
}

pub fn encode_respawn_pane(session: &str, pane: Option<usize>, force: bool, command: &[String]) -> (r: String)
    ensures
        r@ == line_of(seq!["RESPAWN_PANE_TARGET"@, target_text(pane_in_session(session@, pane)), (if force { "1"@ } else { "0"@ }), decimal(command@.len()), command_text(views(command@))]),
{
    encode_respawn_pane_target(&target_for_pane(session, pane), force, command)
}

pub fn encode_zoom_pane(session: &str, pane: Option<usize>) -> (r: String)
    ensures
        r@ == line_of(seq!["ZOOM_PANE_TARGET"@, target_text(pane_in_session(session@, pane))]),
{
    encode_zoom_pane_target(&target_for_pane(session, pane))
}

/// The window with the given index, or the active window.
pub open spec fn window_or_active(window: Option<usize>) -> WindowTargetView {
    match window {
        Some(w) => WindowTargetView::Index(w),
        None => WindowTargetView::Active,
    }
}

pub fn encode_kill_window(session: &str, window: Option<usize>) -> (r: String)
    ensures
        r@ == line_of(seq!["KILL_WINDOW_TARGET"@, session@, window_target_text(window_or_active(window))]),
{
    let target = match window {
        Some(w) => WindowTarget::Index(w),
        None => WindowTarget::Active,
    };
    encode_kill_window_target(session, target)
}

} // verus!
