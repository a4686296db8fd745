use dmux::encode::{encode_kill_pane, encode_new_window, encode_resize_pane, encode_split};
use dmux::keys::PaneCommand;
use dmux::protocol::{PaneResizeDirection, SplitDirection};
use dmux::replies::{controls_from_replies, pane_command_request, parse_raw_attach_state, parse_render_frame_header};

#[test]
fn raw_state_reply_gives_its_epoch() {
    assert_eq!(parse_raw_attach_state(b"RAW_LAYOUT_EPOCH\t7\n"), Ok(7));
    assert_eq!(parse_raw_attach_state(b""), Err("missing raw attach state".to_string()));
    assert_eq!(parse_raw_attach_state(b"EPOCH\t7\n"), Err("invalid raw attach state".to_string()));
    assert_eq!(
        parse_raw_attach_state(b"RAW_LAYOUT_EPOCH\tx\n"),
        Err("invalid raw attach layout epoch".to_string())
    );
}

#[test]
fn render_frame_header_gives_its_length() {
    assert_eq!(parse_render_frame_header("FRAME\t42\n"), Ok(42));
    assert_eq!(
        parse_render_frame_header("FRAME\t42"),
        Err("invalid attach render frame header".to_string())
    );
    assert_eq!(
        parse_render_frame_header("FRAME\t-1\n"),
        Err("invalid attach render frame length".to_string())
    );
}

#[test]
fn controls_come_from_replies_or_defaults() {
    let controls = controls_from_replies(
        Some(b"status-hints\ton\nprefix\tC-a\n".to_vec()),
        Some(b"x\tsplit-window -h\n".to_vec()),
    );
    assert_eq!(controls.prefix, 0x01);
    let defaults = controls_from_replies(None, None);
    assert_eq!(defaults.prefix, 0x02);
    assert!(!defaults.bindings.is_empty());
}

#[test]
fn pane_keys_send_their_requests() {
    assert_eq!(pane_command_request("dev", PaneCommand::NewWindow), encode_new_window("dev", &[]));
    assert_eq!(
        pane_command_request("dev", PaneCommand::SplitDown),
        encode_split("dev", SplitDirection::Vertical, &[])
    );
    assert_eq!(pane_command_request("dev", PaneCommand::Close), encode_kill_pane("dev", None));
    assert_eq!(
        pane_command_request("dev", PaneCommand::Resize { direction: PaneResizeDirection::Left, amount: 5 }),
        encode_resize_pane("dev", PaneResizeDirection::Left, 5)
    );
}
