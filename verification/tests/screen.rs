use dmux::frames::PtySize;
use dmux::prompt::AttachCommandResult;
use dmux::screen::compose_live_frame;

#[test]
fn whole_frame_clears_and_lists_rows() {
    let (bytes, header_rows) = compose_live_frame("", None, None, b"a\r\nb\n", None, true, false);
    assert_eq!(header_rows, 0);
    assert_eq!(bytes, b"\x1b[2J\x1b[Ha\r\nb".to_vec());
}

#[test]
fn repaint_clears_each_line_and_fits_the_height() {
    let size = PtySize { cols: 20, rows: 3 };
    let (bytes, header_rows) =
        compose_live_frame("", Some("hello"), None, b"1\n2\n3\n", Some(size), false, false);
    assert_eq!(header_rows, 1);
    assert_eq!(
        bytes,
        b"\x1b[H\x1b[2Khello\r\n\x1b[2K1\r\n\x1b[2K2".to_vec()
    );
}

#[test]
fn command_results_fold_in_order() {
    let mut result = AttachCommandResult::quiet();
    result.absorb(AttachCommandResult { message: Some("a".to_string()), reconnect: true, exit_attach: false });
    result.absorb(AttachCommandResult { message: None, reconnect: false, exit_attach: false });
    assert_eq!(result.message.as_deref(), Some("a"));
    assert!(result.reconnect);
    assert!(!result.exit_attach);
}
