use dmux::copy_mode::{
    encode_copy_mode_save_request, map_copy_mode_save_text_error, CopyModeAction,
    CopyModeInputState, CopyModeView, COPY_MODE_ESCAPE_DISAMBIGUATION_MS,
};
use dmux::encode::encode_save_buffer_text;
use dmux::keys::{parse_sgr_mouse_event, SgrMouseEvent};

#[test]
fn copy_mode_view_moves_with_vi_and_emacs_keys() {
    let mut view = CopyModeView::from_numbered_output("1\tfirst\n2\tsecond\n").unwrap();

    assert_eq!(view.cursor_line_number(), Some(1));
    assert_eq!(view.apply_key(b'j'), CopyModeAction::Redraw);
    assert_eq!(view.cursor_line_number(), Some(2));
    assert_eq!(view.apply_key(0x10), CopyModeAction::Redraw);
    assert_eq!(view.cursor_line_number(), Some(1));
}

#[test]
fn copy_mode_view_pages_and_clips_to_terminal_height() {
    let mut view = CopyModeView::from_numbered_output(
        "1\tone\n2\ttwo\n3\tthree\n4\tfour\n5\tfive\n6\tsix\n",
    )
    .unwrap();
    view.set_height_for_test(4);

    assert!(!view.render().contains("4\tfour"));
    assert_eq!(view.apply_key(b'\x06'), CopyModeAction::Redraw);
    assert_eq!(view.cursor_line_number(), Some(4));
    assert!(view.render().contains("4\tfour"));
    assert!(!view.render().contains("1\tone"));
}

#[test]
fn copy_mode_view_home_end_jump_viewport() {
    let mut view =
        CopyModeView::from_numbered_output("1\tone\n2\ttwo\n3\tthree\n4\tfour\n").unwrap();
    view.set_height_for_test(3);

    assert_eq!(view.apply_key(b'G'), CopyModeAction::Redraw);
    assert_eq!(view.cursor_line_number(), Some(4));
    assert!(view.render().contains("4\tfour"));
    assert!(!view.render().contains("1\tone"));
    assert_eq!(view.apply_key(b'g'), CopyModeAction::Redraw);
    assert_eq!(view.cursor_line_number(), Some(1));
}

#[test]
fn copy_mode_input_parses_arrow_and_page_keys() {
    let mut view =
        CopyModeView::from_numbered_output("1\tone\n2\ttwo\n3\tthree\n4\tfour\n").unwrap();
    let mut input = CopyModeInputState::default();

    assert_eq!(
        input.apply(&mut view, b"\x1b[B", 0),
        vec![CopyModeAction::Redraw]
    );
    assert_eq!(view.cursor_line_number(), Some(2));
    assert_eq!(
        input.apply(&mut view, b"\x1b[5~", 0),
        vec![CopyModeAction::Redraw]
    );
    assert_eq!(view.cursor_line_number(), Some(1));
}

#[test]
fn copy_mode_input_ignores_left_and_right_arrows() {
    let mut view = CopyModeView::from_numbered_output("1\tone\n2\ttwo\n").unwrap();
    let mut input = CopyModeInputState::default();

    assert_eq!(
        input.apply(&mut view, b"\x1b[D", 0),
        vec![CopyModeAction::Ignore]
    );
    assert_eq!(
        input.apply(&mut view, b"\x1b[C", 0),
        vec![CopyModeAction::Ignore]
    );
    assert_eq!(view.cursor_line_number(), Some(1));
}

#[test]
fn copy_mode_input_buffers_csi_keys_split_after_escape() {
    let mut view =
        CopyModeView::from_numbered_output("1\tone\n2\ttwo\n3\tthree\n4\tfour\n").unwrap();
    let mut input = CopyModeInputState::default();

    assert_eq!(input.apply(&mut view, b"\x1b", 0), Vec::new());
    assert_eq!(input.apply(&mut view, b"[B", 0), vec![CopyModeAction::Redraw]);
    assert_eq!(view.cursor_line_number(), Some(2));

    assert_eq!(input.apply(&mut view, b"\x1b", 0), Vec::new());
    assert_eq!(input.apply(&mut view, b"[5~", 0), vec![CopyModeAction::Redraw]);
    assert_eq!(view.cursor_line_number(), Some(1));
}

#[test]
fn copy_mode_input_ignores_split_left_arrow_after_escape() {
    let mut view = CopyModeView::from_numbered_output("1\tone\n2\ttwo\n").unwrap();
    let mut input = CopyModeInputState::default();

    assert_eq!(input.apply(&mut view, b"\x1b", 0), Vec::new());
    assert_eq!(input.apply(&mut view, b"[D", 0), vec![CopyModeAction::Ignore]);
    assert_eq!(view.cursor_line_number(), Some(1));
}

#[test]
fn copy_mode_input_buffers_split_unsupported_csi_parameters() {
    let mut view = CopyModeView::from_numbered_output("1\tone\n2\ttwo\n").unwrap();
    let mut input = CopyModeInputState::default();

    assert_eq!(input.apply(&mut view, b"\x1b[1", 0), Vec::new());
    assert_eq!(input.apply(&mut view, b";5D", 0), vec![CopyModeAction::Ignore]);
    assert_eq!(view.cursor_line_number(), Some(1));
}

#[test]
fn copy_mode_input_exits_on_lone_escape_after_disambiguation_timeout() {
    let mut view = CopyModeView::from_numbered_output("1\tone\n").unwrap();
    let mut input = CopyModeInputState::default();

    assert_eq!(input.apply(&mut view, b"\x1b", 0), Vec::new());
    let pending_since = input.pending_since.expect("pending escape timestamp");
    assert_eq!(
        input.pending_timeout_action(pending_since + COPY_MODE_ESCAPE_DISAMBIGUATION_MS),
        Some(CopyModeAction::Exit)
    );
}

#[test]
fn copy_mode_view_copies_current_line() {
    let mut view = CopyModeView::from_numbered_output("7\tselected\n").unwrap();

    assert_eq!(view.apply_key(b'y'), CopyModeAction::CopyLine(7));
}

#[test]
fn copy_mode_view_numbers_plain_rendered_lines() {
    let view = CopyModeView::from_plain_text("base | split\r\n-----+------\r\n").unwrap();

    assert_eq!(view.cursor_line_number(), Some(1));
    assert_eq!(
        view.selected_text_for_line_range(1, 2).unwrap(),
        "base | split\n-----+------\n"
    );
}

#[test]
fn copy_mode_view_preserves_blank_plain_lines() {
    let view = CopyModeView::from_plain_text("top\r\n\r\nbottom\r\n").unwrap();

    assert_eq!(view.selected_text_for_line_range(2, 2).unwrap(), "\n");
}

#[test]
fn copy_mode_save_request_uses_selected_view_text() {
    let view = CopyModeView::from_numbered_output("7\tactive\n8\tpane\n").unwrap();

    assert_eq!(
        encode_copy_mode_save_request("dev", &view, 7, 8).unwrap(),
        encode_save_buffer_text("dev", None, "active\npane\n")
    );
}

#[test]
fn composed_copy_mode_save_request_uses_selected_plain_text() {
    let view = CopyModeView::from_plain_text("base | split\r\nsecond\r\n").unwrap();

    assert_eq!(
        encode_copy_mode_save_request("dev", &view, 1, 1).unwrap(),
        encode_save_buffer_text("dev", None, "base | split\n")
    );
}

#[test]
fn copy_mode_text_save_maps_unknown_request_to_unsupported() {
    let err = map_copy_mode_save_text_error(
        "unknown request line: \"SAVE_BUFFER_TEXT\"".to_string(),
    );

    assert_eq!(
        err.to_string(),
        "copy-mode text save requires an updated dmux server"
    );
}

#[test]
fn copy_mode_view_exits_on_q_or_escape() {
    let mut view = CopyModeView::from_numbered_output("1\tfirst\n").unwrap();

    assert_eq!(view.apply_key(b'q'), CopyModeAction::Exit);
    assert_eq!(view.apply_key(0x1b), CopyModeAction::Exit);
}

#[test]
fn copy_mode_mouse_click_copies_clicked_line() {
    let mut view = CopyModeView::from_numbered_output("3\talpha\n4\tbeta\n").unwrap();

    assert_eq!(
        view.apply_mouse_event(SgrMouseEvent {
            code: 0,
            col: 1,
            row: 3,
            release: false,
        }),
        CopyModeAction::Redraw
    );
    assert_eq!(
        view.apply_mouse_event(SgrMouseEvent {
            code: 0,
            col: 1,
            row: 3,
            release: true,
        }),
        CopyModeAction::CopyLineRange { start: 4, end: 4 }
    );
}

#[test]
fn copy_mode_mouse_drag_copies_inclusive_line_range() {
    let mut view = CopyModeView::from_numbered_output("10\tone\n11\ttwo\n12\tthree\n").unwrap();

    assert_eq!(
        view.apply_mouse_event(SgrMouseEvent {
            code: 0,
            col: 1,
            row: 2,
            release: false,
        }),
        CopyModeAction::Redraw
    );
    assert_eq!(
        view.apply_mouse_event(SgrMouseEvent {
            code: 32,
            col: 1,
            row: 4,
            release: false,
        }),
        CopyModeAction::Redraw
    );
    assert_eq!(
        view.apply_mouse_event(SgrMouseEvent {
            code: 0,
            col: 1,
            row: 4,
            release: true,
        }),
        CopyModeAction::CopyLineRange { start: 10, end: 12 }
    );
}

#[test]
fn copy_mode_input_buffers_split_sgr_mouse_event() {
    let mut view = CopyModeView::from_numbered_output("3\talpha\n4\tbeta\n").unwrap();
    let mut input = CopyModeInputState::default();

    assert_eq!(input.apply(&mut view, b"\x1b[<0;1", 0), Vec::new());
    assert_eq!(input.apply(&mut view, b";3M", 0), vec![CopyModeAction::Redraw]);
    assert_eq!(view.cursor_line_number(), Some(4));
}

#[test]
fn copy_mode_mouse_release_without_anchor_does_not_copy() {
    let mut view = CopyModeView::from_numbered_output("3\talpha\n4\tbeta\n").unwrap();

    assert_eq!(
        view.apply_mouse_event(SgrMouseEvent {
            code: 0,
            col: 1,
            row: 2,
            release: true,
        }),
        CopyModeAction::Ignore
    );
}

#[test]
fn copy_mode_mouse_release_outside_lines_clears_anchor() {
    let mut view = CopyModeView::from_numbered_output("3\talpha\n4\tbeta\n").unwrap();

    assert_eq!(
        view.apply_mouse_event(SgrMouseEvent {
            code: 0,
            col: 1,
            row: 2,
            release: false,
        }),
        CopyModeAction::Redraw
    );
    assert_eq!(
        view.apply_mouse_event(SgrMouseEvent {
            code: 0,
            col: 1,
            row: 99,
            release: true,
        }),
        CopyModeAction::Ignore
    );
    assert_eq!(
        view.apply_mouse_event(SgrMouseEvent {
            code: 0,
            col: 1,
            row: 3,
            release: true,
        }),
        CopyModeAction::Ignore
    );
}

#[test]
fn parses_sgr_mouse_press_and_release() {
    assert_eq!(
        parse_sgr_mouse_event(b"\x1b[<0;12;3M"),
        Some((
            SgrMouseEvent {
                code: 0,
                col: 12,
                row: 3,
                release: false,
            },
            10,
        ))
    );
    assert_eq!(
        parse_sgr_mouse_event(b"\x1b[<0;12;3m"),
        Some((
            SgrMouseEvent {
                code: 0,
                col: 12,
                row: 3,
                release: true,
            },
            10,
        ))
    );
}

