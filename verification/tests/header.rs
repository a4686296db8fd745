use dmux::frames::PtySize;
use dmux::header::{
    append_centered_popup_overlay, attach_command_prompt_display_text, attach_command_prompt_text,
    attach_help_message, attach_help_popup_message, cap_live_header_lines, display_cell_width,
    live_header_lines,
};

#[test]
fn attach_help_message_reuses_cli_overlay() {
    assert_eq!(attach_help_message(), dmux::cli::attach_help_overlay());
    assert!(attach_help_message().contains("Session:"));
    assert!(attach_help_message().contains("Prompt examples:"));
    assert!(
        attach_help_message()
            .contains("copy-mode: j/k arrows PgUp/PgDn y/Enter copy q/Esc exit")
    );
}

#[test]
fn attach_help_popup_message_is_boxed_and_has_close_hint() {
    let popup = attach_help_popup_message();

    assert!(
        popup.lines().next().unwrap().contains("dmux help"),
        "{popup}"
    );
    assert!(popup.contains("C-b ? close"), "{popup}");
    assert!(popup.contains("Alt-h/j/k/l"), "{popup}");
    assert!(popup.contains("Prompt examples:"), "{popup}");
}

#[test]
fn command_prompt_message_shows_command_and_controls() {
    let message = attach_command_prompt_text("rename-window api");

    assert!(message.contains(":rename-window api"), "{message}");
    assert!(message.contains("Enter run"), "{message}");
    assert!(message.contains("Esc/C-c cancel"), "{message}");
    assert!(message.contains("split -h"), "{message}");
}

#[test]
fn raw_command_prompt_display_truncates_to_terminal_cells() {
    let message = attach_command_prompt_display_text("rename-window 界界界界", Some(24));

    assert!(display_cell_width(&message) <= 24, "{message}");
    assert!(message.ends_with("..."), "{message}");
}

#[test]
fn live_header_lines_truncate_to_terminal_width() {
    let lines = live_header_lines(
        "session-with-a-very-long-status-line",
        Some(&attach_command_prompt_text("rename-window api")),
        Some(20),
    );

    assert_eq!(lines.len(), 2);
    assert!(lines.iter().all(|line| line.chars().count() <= 20));
    assert_eq!(lines[0], "session-with-a-ve...");
    assert!(lines[1].ends_with("..."), "{lines:?}");
}

#[test]
fn live_header_lines_truncate_wide_chars_to_terminal_cells() {
    let lines = live_header_lines("界界界界", None, Some(5));

    assert_eq!(lines, vec!["界..."]);
    assert!(lines.iter().all(|line| display_cell_width(line) <= 5));
}

#[test]
fn live_header_lines_count_multiline_help_rows() {
    let lines = live_header_lines("status", Some("first long line\nsecond"), Some(10));

    assert_eq!(lines, vec!["status", "first l...", "second"]);
}

#[test]
fn cap_live_header_lines_reserves_snapshot_row_when_possible() {
    let lines = live_header_lines("status", Some("one\ntwo\nthree\nfour"), Some(12));

    let capped = cap_live_header_lines(lines, Some(3), Some(12), false);

    assert_eq!(capped, vec!["status", "one", "... 3 mor..."]);
}

#[test]
fn cap_live_header_lines_prioritizes_active_prompt_on_tiny_terminals() {
    let lines = live_header_lines("status", Some(":rename-window api"), Some(20));

    let capped = cap_live_header_lines(lines, Some(1), Some(20), true);

    assert_eq!(capped, vec![":rename-window api"]);
}

#[test]
fn popup_overlay_uses_absolute_position_and_restores_cursor() {
    let mut output = b"\x1b[0m\x1b[H\x1b[2Ktabs\r\n\x1b[2Kpane\x1b[?25h\x1b[2;5H".to_vec();

    append_centered_popup_overlay(
        &mut output,
        "dmux help",
        &["C-b ? close".to_string(), "Prompt examples:".to_string()],
        PtySize { cols: 40, rows: 10 },
        1,
    );

    assert!(
        output
            .windows(b"\x1b7".len())
            .any(|window| window == b"\x1b7")
    );
    assert!(
        output
            .windows(b"\x1b8".len())
            .any(|window| window == b"\x1b8")
    );
    assert!(
        output
            .windows(b"\x1b[5;".len())
            .any(|window| window == b"\x1b[5;")
    );
    assert!(
        output
            .windows("┌ dmux help ".as_bytes().len())
            .any(|window| { window == "┌ dmux help ".as_bytes() })
    );
    assert!(output.ends_with(b"\x1b8"), "{output:?}");
}

