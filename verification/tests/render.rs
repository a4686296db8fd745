use dmux::frames::{AttachPaneRegion, AttachRenderFrame};
use dmux::render::{diff_live_render_output, reset_live_render_output_state, LiveRenderOutputState};

const CURSOR_HOME: &[u8] = b"\x1b[H";
const CLEAR_LINE: &[u8] = b"\x1b[2K";

fn render_frame(output: &[u8]) -> AttachRenderFrame {
    AttachRenderFrame {
        output: output.to_vec(),
        regions: vec![AttachPaneRegion {
            pane: 0,
            row_start: 0,
            row_end: 2,
            col_start: 0,
            col_end: 10,
        }],
        header_rows: 1,
    }
}


#[test]
fn diff_live_render_output_writes_full_first_frame() {
    let mut state = LiveRenderOutputState::default();
    let frame = b"\x1b[H\x1b[2Kstatus\r\n\x1b[2Kold\x1b[2;4H";

    let output = diff_live_render_output(&render_frame(frame), &mut state);

    assert_eq!(output, b"\x1b[0m\x1b[H\x1b[2Kstatus\r\n\x1b[2Kold\x1b[2;4H");
}

#[test]
fn diff_live_render_output_writes_only_changed_rows_and_cursor() {
    let mut state = LiveRenderOutputState::default();
    let first = b"\x1b[H\x1b[2Kstatus\r\n\x1b[2Kold-long\x1b[2;4H";
    let second = b"\x1b[H\x1b[2Kstatus\r\n\x1b[2Knew\x1b[2;4H";
    let _ = diff_live_render_output(&render_frame(first), &mut state);

    let output = diff_live_render_output(&render_frame(second), &mut state);

    assert!(!output.starts_with(CURSOR_HOME), "{output:?}");
    assert!(output.starts_with(b"\x1b[2;1H\x1b[0m"), "{output:?}");
    assert!(
        output
            .windows(CLEAR_LINE.len())
            .any(|window| window == CLEAR_LINE)
    );
    assert!(output.windows(b"new".len()).any(|window| window == b"new"));
    assert!(
        !output
            .windows(b"status".len())
            .any(|window| window == b"status")
    );
    assert!(output.ends_with(b"\x1b[2;4H"), "{output:?}");
}

#[test]
fn diff_live_render_output_resets_style_before_clearing_changed_rows() {
    let mut state = LiveRenderOutputState::default();
    let first = b"\x1b[H\x1b[2Kstatus\r\n\x1b[2K\x1b[48;5;24mstyled\x1b[0m\x1b[2;4H";
    let second = b"\x1b[H\x1b[2Kstatus\r\n\x1b[2Kplain\x1b[2;4H";
    let _ = diff_live_render_output(&render_frame(first), &mut state);

    let output = diff_live_render_output(&render_frame(second), &mut state);

    assert!(
        output.starts_with(b"\x1b[2;1H\x1b[0m\x1b[2Kplain"),
        "{output:?}"
    );
}

#[test]
fn diff_live_render_output_writes_full_frame_after_reset() {
    let mut state = LiveRenderOutputState::default();
    let first = b"\x1b[H\x1b[2Kstatus\r\n\x1b[2Kold";
    let second = b"\x1b[H\x1b[2Kstatus\r\n\x1b[2Knew";
    let _ = diff_live_render_output(&render_frame(first), &mut state);

    reset_live_render_output_state(&mut state);
    let output = diff_live_render_output(&render_frame(second), &mut state);

    assert_eq!(output, b"\x1b[0m\x1b[H\x1b[2Kstatus\r\n\x1b[2Knew");
}

#[test]
fn diff_live_render_output_writes_nothing_for_identical_frame() {
    let mut state = LiveRenderOutputState::default();
    let frame = b"\x1b[H\x1b[2Kstatus\r\n\x1b[2Ksame\x1b[2;5H";
    let _ = diff_live_render_output(&render_frame(frame), &mut state);

    let output = diff_live_render_output(&render_frame(frame), &mut state);

    assert!(output.is_empty(), "{output:?}");
}

#[test]
fn diff_live_render_output_writes_only_cursor_when_rows_match() {
    let mut state = LiveRenderOutputState::default();
    let first = b"\x1b[H\x1b[2Kstatus\r\n\x1b[2Ksame\x1b[2;5H";
    let second = b"\x1b[H\x1b[2Kstatus\r\n\x1b[2Ksame\x1b[2;6H";
    let _ = diff_live_render_output(&render_frame(first), &mut state);

    let output = diff_live_render_output(&render_frame(second), &mut state);

    assert_eq!(output, b"\x1b[2;6H");
}

#[test]
fn diff_live_render_output_writes_cursor_visibility_when_rows_match() {
    let mut state = LiveRenderOutputState::default();
    let first = b"\x1b[H\x1b[2Kstatus\r\n\x1b[2Ksame\x1b[?25h\x1b[2;5H";
    let second = b"\x1b[H\x1b[2Kstatus\r\n\x1b[2Ksame\x1b[?25l\x1b[2;5H";
    let _ = diff_live_render_output(&render_frame(first), &mut state);

    let output = diff_live_render_output(&render_frame(second), &mut state);

    assert_eq!(output, b"\x1b[?25l\x1b[2;5H");
}

#[test]
fn diff_live_render_output_writes_full_frame_after_geometry_change() {
    let mut state = LiveRenderOutputState::default();
    let first = render_frame(b"\x1b[H\x1b[2Kstatus\r\n\x1b[2Kold");
    let second = AttachRenderFrame {
        output: b"\x1b[H\x1b[2Kstatus\r\n\x1b[2Knew".to_vec(),
        regions: Vec::new(),
        header_rows: 1,
    };
    let _ = diff_live_render_output(&first, &mut state);

    let output = diff_live_render_output(&second, &mut state);

    assert_eq!(output, b"\x1b[0m\x1b[H\x1b[2Kstatus\r\n\x1b[2Knew");
}

