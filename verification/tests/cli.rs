#![allow(unused_imports, dead_code)]

use dmux::cli::{
    attach_help, attach_help_overlay, general_help, parse_args, parse_command_file, parse_command_sequence,
    tokenize_command, Command, CommandFileEntry, HelpTopic, PaneResize, ScriptCommand,
};
use dmux::protocol::{
    BufferSelection, CaptureMode, LayoutPreset, PaneDirection, PaneResizeDirection,
    PaneSelectTarget, PaneTarget, SplitDirection, Target, WindowTarget,
};

fn argv<const N: usize>(args: [&str; N]) -> Vec<String> {
    args.iter().map(|arg| arg.to_string()).collect()
}


fn active_target(session: &str) -> Target {
    Target::active(session.to_string())
}

#[test]
fn parses_detached_new_session_with_command() {
    let command = parse_args(argv([
        "dmux", "new", "-d", "-s", "dev", "--", "sh", "-c", "echo ok",
    ]))
    .unwrap();

    assert_eq!(
        command,
        Command::New {
            session: "dev".to_string(),
            detach: true,
            command: vec!["sh".to_string(), "-c".to_string(), "echo ok".to_string()],
        }
    );
}

#[test]
fn parses_top_level_help() {
    assert_eq!(
        parse_args(argv(["dmux", "--help"])).unwrap(),
        Command::Help { topic: None }
    );
    assert_eq!(
        parse_args(argv(["dmux", "help"])).unwrap(),
        Command::Help { topic: None }
    );
}

#[test]
fn parses_no_subcommand_as_open_default() {
    assert_eq!(parse_args(argv(["dmux"])).unwrap(), Command::OpenDefault);
}

#[test]
fn parses_session_lifecycle_commands() {
    assert_eq!(
        parse_args(argv(["dmux", "list-sessions", "-F", "#{session.name}"])).unwrap(),
        Command::ListSessions {
            format: Some("#{session.name}".to_string()),
        }
    );
    assert_eq!(
        parse_args(argv(["dmux", "rename-session", "-t", "old", "new"])).unwrap(),
        Command::RenameSession {
            old_name: "old".to_string(),
            new_name: "new".to_string(),
        }
    );
    assert_eq!(
        parse_args(argv(["dmux", "list-clients", "-t", "dev", "-F", "#{client.id}"])).unwrap(),
        Command::ListClients {
            session: Some("dev".to_string()),
            format: Some("#{client.id}".to_string()),
        }
    );
    assert_eq!(
        parse_args(argv(["dmux", "detach-client", "-t", "dev", "-c", "3"])).unwrap(),
        Command::DetachClient {
            session: Some("dev".to_string()),
            client_id: Some(3),
        }
    );
}

#[test]
fn rejects_detach_client_without_target() {
    let err = parse_args(argv(["dmux", "detach-client"])).unwrap_err();
    assert!(err.contains("requires -t"), "{err}");
}

#[test]
fn parses_attach_help() {
    assert_eq!(
        parse_args(argv(["dmux", "attach", "--help"])).unwrap(),
        Command::Help {
            topic: Some(HelpTopic::Attach),
        }
    );
    assert_eq!(
        parse_args(argv(["dmux", "help", "attach"])).unwrap(),
        Command::Help {
            topic: Some(HelpTopic::Attach),
        }
    );
}

#[test]
fn parses_attach_target_named_help_literal() {
    assert_eq!(
        parse_args(argv(["dmux", "attach", "-t", "--help"])).unwrap(),
        Command::Attach {
            session: "--help".to_string(),
        }
    );
}

#[test]
fn parses_batch_execution_commands() {
    assert_eq!(
        parse_args(argv(["dmux", "run", "new -d -s dev; split-window -t dev -v"])).unwrap(),
        Command::Run {
            sequence: "new -d -s dev; split-window -t dev -v".to_string(),
        }
    );
    assert_eq!(
        parse_args(argv(["dmux", "command", "ls"])).unwrap(),
        Command::Run {
            sequence: "ls".to_string(),
        }
    );
    assert_eq!(
        parse_args(argv(["dmux", "source-file", "dmux.commands"])).unwrap(),
        Command::SourceFile {
            path: "dmux.commands".to_string(),
        }
    );
    assert_eq!(
        parse_args(argv(["dmux", "run-shell", "printf", "ok"])).unwrap(),
        Command::RunShell {
            command: "printf ok".to_string(),
        }
    );
}

#[test]
fn parses_key_binding_and_option_commands() {
    assert_eq!(
        parse_args(argv(["dmux", "list-keys", "-F", "#{key}=#{command}"])).unwrap(),
        Command::ListKeys {
            format: Some("#{key}=#{command}".to_string()),
        }
    );
    assert_eq!(
        parse_args(argv(["dmux", "bind-key", "C-a", "copy-mode"])).unwrap(),
        Command::BindKey {
            key: "C-a".to_string(),
            command: "copy-mode".to_string(),
        }
    );
    assert_eq!(
        parse_args(argv(["dmux", "unbind-key", "x"])).unwrap(),
        Command::UnbindKey {
            key: "x".to_string(),
        }
    );
    assert_eq!(
        parse_args(argv(["dmux", "show-options"])).unwrap(),
        Command::ShowOptions { format: None }
    );
    assert_eq!(
        parse_args(argv(["dmux", "set-option", "prefix", "C-a"])).unwrap(),
        Command::SetOption {
            name: "prefix".to_string(),
            value: "C-a".to_string(),
        }
    );
}

#[test]
fn rejects_invalid_binding_and_option_values() {
    let err = parse_args(argv(["dmux", "bind-key", "x", "run-shell", "date"])).unwrap_err();
    assert!(err.contains("unsupported binding command"), "{err}");

    let err = parse_args(argv(["dmux", "set-option", "prefix", "bad-key"])).unwrap_err();
    assert!(err.contains("invalid key"), "{err}");
}

#[test]
fn command_sequence_parser_supports_quotes_and_escaping() {
    let commands = parse_command_sequence(
        "display-message -t dev -p 'hello; world'; rename-window -t dev \"api server\"",
    )
    .unwrap();

    assert_eq!(
        commands,
        vec![
            ScriptCommand {
                source: "display-message -t dev -p 'hello; world'".to_string(),
                argv: vec![
                    "display-message".to_string(),
                    "-t".to_string(),
                    "dev".to_string(),
                    "-p".to_string(),
                    "hello; world".to_string(),
                ],
            },
            ScriptCommand {
                source: "rename-window -t dev \"api server\"".to_string(),
                argv: vec![
                    "rename-window".to_string(),
                    "-t".to_string(),
                    "dev".to_string(),
                    "api server".to_string(),
                ],
            },
        ]
    );

    assert_eq!(
        tokenize_command(r#"send-keys -t dev hello\ world"#).unwrap(),
        vec![
            "send-keys".to_string(),
            "-t".to_string(),
            "dev".to_string(),
            "hello world".to_string(),
        ]
    );

    let shell_command =
        parse_command_sequence(r"run-shell printf '%s\n' '\'; display-message -t dev ok")
            .unwrap();
    assert_eq!(shell_command.len(), 2);
    assert_eq!(shell_command[0].source, r"run-shell printf '%s\n' '\'");
    assert_eq!(shell_command[0].argv[3], "\\");
}

#[test]
fn command_file_parser_skips_blank_lines_and_comments() {
    let commands = parse_command_file(
        "\n# setup\nnew -d -s dev\n  \nrename-window -t dev api; list-windows -t dev\n",
    )
    .unwrap();

    assert_eq!(commands.len(), 3);
    assert_eq!(commands[0].line, 3);
    assert_eq!(commands[0].command.argv[0], "new");
    assert_eq!(commands[1].line, 5);
    assert_eq!(commands[1].command.argv[0], "rename-window");
    assert_eq!(commands[2].line, 5);
    assert_eq!(commands[2].command.argv[0], "list-windows");
}

#[test]
fn command_file_parser_reports_line_context_for_parse_errors() {
    let err = parse_command_file("new -d -s dev\nrename-window 'unterminated\n").unwrap_err();

    assert!(err.contains("line 2"), "{err}");
    assert!(err.contains("unterminated"), "{err}");
}

#[test]
fn attach_help_lists_prefix_bindings_and_split_command() {
    let help = attach_help();

    assert!(help.contains("C-b d"), "{help}");
    assert!(help.contains("Usage: dmux attach [-t <name>]"), "{help}");
    assert!(help.contains("omitted"), "{help}");
    assert!(help.contains("C-b %"), "{help}");
    assert!(help.contains("C-b \""), "{help}");
    assert!(help.contains("C-b h/j/k/l"), "{help}");
    assert!(help.contains("C-b x"), "{help}");
    assert!(help.contains("C-b z"), "{help}");
    assert!(help.contains("C-b ?"), "{help}");
    assert!(help.contains("C-b o"), "{help}");
    assert!(help.contains("split-window"), "{help}");
    assert!(help.contains("semicolon-separated"), "{help}");
    assert!(help.contains("Session:"), "{help}");
    assert!(help.contains("Prompt examples:"), "{help}");
    assert!(help.contains("copy-mode:"), "{help}");
}

#[test]
fn attach_help_overlay_groups_common_workflows() {
    let help = attach_help_overlay();

    assert!(help.contains("Session:"), "{help}");
    assert!(help.contains("Windows:"), "{help}");
    assert!(help.contains("Panes:"), "{help}");
    assert!(help.contains("Copy:"), "{help}");
    assert!(help.contains("Prompt examples:"), "{help}");
    assert!(help.contains(":split -h"), "{help}");
}

#[test]
fn parses_capture_pane_print() {
    let command = parse_args(argv(["dmux", "capture-pane", "-t", "dev", "-p"])).unwrap();
    assert_eq!(
        command,
        Command::CapturePane {
            target: active_target("dev"),
            mode: CaptureMode::All,
            selection: BufferSelection::All,
        }
    );
}

#[test]
fn parses_capture_pane_screen_mode() {
    let command = parse_args(argv(["dmux", "capture-pane", "-t", "dev", "-p", "--screen"])).unwrap();
    assert_eq!(
        command,
        Command::CapturePane {
            target: active_target("dev"),
            mode: CaptureMode::Screen,
            selection: BufferSelection::All,
        }
    );
}

#[test]
fn parses_capture_pane_history_mode() {
    let command = parse_args(argv(["dmux", "capture-pane", "-t", "dev", "-p", "--history"])).unwrap();
    assert_eq!(
        command,
        Command::CapturePane {
            target: active_target("dev"),
            mode: CaptureMode::History,
            selection: BufferSelection::All,
        }
    );
}

#[test]
fn parses_capture_pane_all_mode() {
    let command = parse_args(argv(["dmux", "capture-pane", "-t", "dev", "-p", "--all"])).unwrap();
    assert_eq!(
        command,
        Command::CapturePane {
            target: active_target("dev"),
            mode: CaptureMode::All,
            selection: BufferSelection::All,
        }
    );
}

#[test]
fn parses_capture_pane_tail_line_range() {
    let command = parse_args(argv([
        "dmux",
        "capture-pane",
        "-t",
        "dev",
        "-p",
        "--start-line",
        "-2",
        "--end-line",
        "-1",
    ]))
    .unwrap();
    assert_eq!(
        command,
        Command::CapturePane {
            target: active_target("dev"),
            mode: CaptureMode::All,
            selection: BufferSelection::LineRange { start: -2, end: -1 },
        }
    );
}

#[test]
fn parses_capture_pane_mixed_positive_tail_line_range() {
    let command = parse_args(argv([
        "dmux",
        "capture-pane",
        "-t",
        "dev",
        "-p",
        "--start-line",
        "2",
        "--end-line",
        "-1",
    ]))
    .unwrap();
    assert_eq!(
        command,
        Command::CapturePane {
            target: active_target("dev"),
            mode: CaptureMode::All,
            selection: BufferSelection::LineRange { start: 2, end: -1 },
        }
    );
}

#[test]
fn parses_capture_pane_search_match_selection() {
    let command = parse_args(argv([
        "dmux",
        "capture-pane",
        "-t",
        "dev",
        "-p",
        "--screen",
        "--search",
        "needle",
        "--match",
        "2",
    ]))
    .unwrap();
    assert_eq!(
        command,
        Command::CapturePane {
            target: active_target("dev"),
            mode: CaptureMode::Screen,
            selection: BufferSelection::Search {
                needle: "needle".to_string(),
                match_index: 2,
            },
        }
    );
}

#[test]
fn rejects_capture_pane_search_with_line_range() {
    let err = parse_args(argv([
        "dmux",
        "capture-pane",
        "-t",
        "dev",
        "--start-line",
        "1",
        "--end-line",
        "2",
        "--search",
        "needle",
    ]))
    .unwrap_err();
    assert!(err.contains("either a line range or --search"), "{err}");
}

#[test]
fn rejects_capture_pane_match_without_search() {
    let err = parse_args(argv(["dmux", "capture-pane", "-t", "dev", "--match", "2"])).unwrap_err();
    assert!(err.contains("--match requires --search"), "{err}");
}

#[test]
fn rejects_multiple_capture_pane_modes() {
    let err = parse_args(argv([
        "dmux",
        "capture-pane",
        "-t",
        "dev",
        "-p",
        "--screen",
        "--history",
    ]))
    .unwrap_err();
    assert!(err.contains("only one capture mode"), "{err}");
}

#[test]
fn parses_save_buffer_named_screen_capture() {
    let command = parse_args(argv([
        "dmux",
        "save-buffer",
        "-t",
        "dev",
        "-b",
        "saved",
        "--screen",
    ]))
    .unwrap();
    assert_eq!(
        command,
        Command::SaveBuffer {
            target: active_target("dev"),
            buffer: Some("saved".to_string()),
            mode: CaptureMode::Screen,
            selection: BufferSelection::All,
        }
    );
}

#[test]
fn parses_save_buffer_line_range_selection() {
    let command = parse_args(argv([
        "dmux",
        "save-buffer",
        "-t",
        "dev",
        "-b",
        "picked",
        "--screen",
        "--start-line",
        "2",
        "--end-line",
        "3",
    ]))
    .unwrap();
    assert_eq!(
        command,
        Command::SaveBuffer {
            target: active_target("dev"),
            buffer: Some("picked".to_string()),
            mode: CaptureMode::Screen,
            selection: BufferSelection::LineRange { start: 2, end: 3 },
        }
    );
}

#[test]
fn parses_save_buffer_mixed_positive_tail_line_range() {
    let command = parse_args(argv([
        "dmux",
        "save-buffer",
        "-t",
        "dev",
        "-b",
        "picked",
        "--screen",
        "--start-line",
        "2",
        "--end-line",
        "-1",
    ]))
    .unwrap();
    assert_eq!(
        command,
        Command::SaveBuffer {
            target: active_target("dev"),
            buffer: Some("picked".to_string()),
            mode: CaptureMode::Screen,
            selection: BufferSelection::LineRange { start: 2, end: -1 },
        }
    );
}

#[test]
fn parses_save_buffer_search_selection() {
    let command = parse_args(argv([
        "dmux",
        "save-buffer",
        "-t",
        "dev",
        "-b",
        "match",
        "--search",
        "needle",
    ]))
    .unwrap();
    assert_eq!(
        command,
        Command::SaveBuffer {
            target: active_target("dev"),
            buffer: Some("match".to_string()),
            mode: CaptureMode::All,
            selection: BufferSelection::Search {
                needle: "needle".to_string(),
                match_index: 1,
            },
        }
    );
}

#[test]
fn rejects_save_buffer_search_with_line_range() {
    let err = parse_args(argv([
        "dmux",
        "save-buffer",
        "-t",
        "dev",
        "--start-line",
        "1",
        "--end-line",
        "2",
        "--search",
        "needle",
    ]))
    .unwrap_err();
    assert!(err.contains("either a line range or --search"), "{err}");
}

#[test]
fn rejects_save_buffer_partial_line_range() {
    let err =
        parse_args(argv(["dmux", "save-buffer", "-t", "dev", "--start-line", "1"])).unwrap_err();
    assert!(err.contains("--start-line and --end-line"), "{err}");
}

#[test]
fn parses_copy_mode_history_search() {
    let command = parse_args(argv([
        "dmux",
        "copy-mode",
        "-t",
        "dev",
        "--history",
        "--search",
        "needle",
    ]))
    .unwrap();
    assert_eq!(
        command,
        Command::CopyMode {
            session: "dev".to_string(),
            mode: CaptureMode::History,
            search: Some("needle".to_string()),
            match_index: None,
        }
    );
}

#[test]
fn parses_copy_mode_search_match_index() {
    let command = parse_args(argv([
        "dmux",
        "copy-mode",
        "-t",
        "dev",
        "--search",
        "needle",
        "--match",
        "2",
    ]))
    .unwrap();
    assert_eq!(
        command,
        Command::CopyMode {
            session: "dev".to_string(),
            mode: CaptureMode::All,
            search: Some("needle".to_string()),
            match_index: Some(2),
        }
    );
}

#[test]
fn parses_copy_mode_default_all() {
    assert_eq!(
        parse_args(argv(["dmux", "copy-mode", "-t", "dev"])).unwrap(),
        Command::CopyMode {
            session: "dev".to_string(),
            mode: CaptureMode::All,
            search: None,
            match_index: None,
        }
    );
}

#[test]
fn rejects_copy_mode_multiple_capture_modes() {
    let err =
        parse_args(argv(["dmux", "copy-mode", "-t", "dev", "--screen", "--history"])).unwrap_err();
    assert!(err.contains("only one capture mode"), "{err}");
}

#[test]
fn rejects_copy_mode_empty_search() {
    let err = parse_args(argv(["dmux", "copy-mode", "-t", "dev", "--search", ""])).unwrap_err();
    assert!(err.contains("non-empty text"), "{err}");
}

#[test]
fn parses_list_buffers() {
    assert_eq!(
        parse_args(argv(["dmux", "list-buffers"])).unwrap(),
        Command::ListBuffers { format: None }
    );
}

#[test]
fn parses_list_buffers_format() {
    assert_eq!(
        parse_args(argv(["dmux", "list-buffers", "-F", "#{buffer.name}"])).unwrap(),
        Command::ListBuffers {
            format: Some("#{buffer.name}".to_string())
        }
    );
}

#[test]
fn parses_paste_buffer_named_target() {
    let command = parse_args(argv(["dmux", "paste-buffer", "-t", "dev", "-b", "saved"])).unwrap();
    assert_eq!(
        command,
        Command::PasteBuffer {
            target: active_target("dev"),
            buffer: Some("saved".to_string()),
        }
    );
}

#[test]
fn parses_delete_buffer_named() {
    assert_eq!(
        parse_args(argv(["dmux", "delete-buffer", "-b", "saved"])).unwrap(),
        Command::DeleteBuffer {
            buffer: "saved".to_string(),
        }
    );
}

#[test]
fn rejects_empty_buffer_name() {
    let err = parse_args(argv(["dmux", "save-buffer", "-t", "dev", "-b", ""])).unwrap_err();
    assert!(err.contains("non-empty buffer name"), "{err}");
}

#[test]
fn rejects_missing_session_target() {
    let err = parse_args(argv(["dmux", "kill-session"])).unwrap_err();
    assert!(err.contains("-t"));
}

#[test]
fn parses_resize_pane_target_and_size() {
    let command =
        parse_args(argv(["dmux", "resize-pane", "-t", "dev", "-x", "100", "-y", "40"])).unwrap();
    assert_eq!(
        command,
        Command::ResizePane {
            target: active_target("dev"),
            resize: PaneResize::Absolute {
                cols: 100,
                rows: 40
            },
        }
    );
}

#[test]
fn parses_resize_pane_direction_default_amount() {
    let command = parse_args(argv(["dmux", "resize-pane", "-t", "dev", "-L"])).unwrap();
    assert_eq!(
        command,
        Command::ResizePane {
            target: active_target("dev"),
            resize: PaneResize::Directional {
                direction: PaneResizeDirection::Left,
                amount: 1,
            },
        }
    );
}

#[test]
fn parses_resize_pane_direction_amount() {
    let command = parse_args(argv(["dmux", "resize-pane", "-t", "dev", "-D", "5"])).unwrap();
    assert_eq!(
        command,
        Command::ResizePane {
            target: active_target("dev"),
            resize: PaneResize::Directional {
                direction: PaneResizeDirection::Down,
                amount: 5,
            },
        }
    );
}

#[test]
fn parses_select_layout_structured_window_target() {
    let command = parse_args(argv(["dmux", "select-layout", "-t", "dev:@7", "tiled"])).unwrap();
    assert_eq!(
        command,
        Command::SelectLayout {
            session: "dev".to_string(),
            window: WindowTarget::Id(7),
            preset: dmux::protocol::LayoutPreset::Tiled,
        }
    );
}

#[test]
fn rejects_select_layout_pane_target() {
    let err = parse_args(argv(["dmux", "select-layout", "-t", "dev:1.%2", "tiled"])).unwrap_err();
    assert!(err.contains("must not include a pane"), "{err}");
}

#[test]
fn rejects_resize_pane_zero_direction_amount() {
    let err = parse_args(argv(["dmux", "resize-pane", "-t", "dev", "-R", "0"])).unwrap_err();
    assert!(err.contains("positive integer"), "{err}");
}

#[test]
fn rejects_resize_pane_mixed_absolute_and_directional() {
    let err = parse_args(argv([
        "dmux",
        "resize-pane",
        "-t",
        "dev",
        "-x",
        "80",
        "-y",
        "24",
        "-L",
    ]))
    .unwrap_err();
    assert!(err.contains("either"), "{err}");
}

#[test]
fn parses_send_keys_target_and_keys() {
    let command = parse_args(argv(["dmux", "send-keys", "-t", "dev", "echo hi", "Enter"])).unwrap();
    assert_eq!(
        command,
        Command::SendKeys {
            target: active_target("dev"),
            keys: vec!["echo hi".to_string(), "Enter".to_string()],
        }
    );
}

#[test]
fn parses_structured_pane_target() {
    let command = parse_args(argv(["dmux", "send-keys", "-t", "dev:@7.%42", "Enter"])).unwrap();
    assert_eq!(
        command,
        Command::SendKeys {
            target: Target {
                session: "dev".to_string(),
                window: WindowTarget::Id(7),
                pane: PaneTarget::Id(42),
            },
            keys: vec!["Enter".to_string()],
        }
    );
}

#[test]
fn rejects_invalid_structured_pane_target() {
    let err = parse_args(argv(["dmux", "send-keys", "-t", "dev:1.bad", "Enter"])).unwrap_err();
    assert!(err.contains("invalid pane index"), "{err}");
}

#[test]
fn preserves_colon_session_name_without_structured_target() {
    let command = parse_args(argv(["dmux", "send-keys", "-t", "dev:api", "Enter"])).unwrap();
    assert_eq!(
        command,
        Command::SendKeys {
            target: Target::active("dev:api".to_string()),
            keys: vec!["Enter".to_string()],
        }
    );
}

#[test]
fn parses_split_window_target_direction_and_command() {
    let command = parse_args(argv([
        "dmux",
        "split-window",
        "-t",
        "dev",
        "-h",
        "--",
        "sh",
        "-c",
        "echo split",
    ]))
    .unwrap();

    assert_eq!(
        command,
        Command::SplitWindow {
            target: active_target("dev"),
            direction: dmux::protocol::SplitDirection::Horizontal,
            command: vec!["sh".to_string(), "-c".to_string(), "echo split".to_string()],
        }
    );
}

#[test]
fn parses_split_window_structured_target() {
    let command = parse_args(argv(["dmux", "split-window", "-t", "dev:1.%7", "-v"])).unwrap();

    assert_eq!(
        command,
        Command::SplitWindow {
            target: Target {
                session: "dev".to_string(),
                window: WindowTarget::Index(1),
                pane: PaneTarget::Id(7),
            },
            direction: dmux::protocol::SplitDirection::Vertical,
            command: Vec::new(),
        }
    );
}

#[test]
fn parses_list_panes_target() {
    let command = parse_args(argv(["dmux", "list-panes", "-t", "dev"])).unwrap();
    assert_eq!(
        command,
        Command::ListPanes {
            session: "dev".to_string(),
            window: WindowTarget::Active,
            format: None,
        }
    );
}

#[test]
fn parses_list_panes_format() {
    let command = parse_args(argv([
        "dmux",
        "list-panes",
        "-t",
        "dev",
        "-F",
        "#{pane.index}:#{pane.active}:#{pane.zoomed}",
    ]))
    .unwrap();
    assert_eq!(
        command,
        Command::ListPanes {
            session: "dev".to_string(),
            window: WindowTarget::Active,
            format: Some("#{pane.index}:#{pane.active}:#{pane.zoomed}".to_string()),
        }
    );
}

#[test]
fn parses_select_pane_target_and_index() {
    let command = parse_args(argv(["dmux", "select-pane", "-t", "dev", "-p", "1"])).unwrap();
    assert_eq!(
        command,
        Command::SelectPane {
            session: "dev".to_string(),
            window: WindowTarget::Active,
            target: PaneSelectTarget::Index(1),
        }
    );
}

#[test]
fn parses_select_pane_target_and_pane_id() {
    let command = parse_args(argv(["dmux", "select-pane", "-t", "dev", "--pane-id", "42"])).unwrap();
    assert_eq!(
        command,
        Command::SelectPane {
            session: "dev".to_string(),
            window: WindowTarget::Active,
            target: PaneSelectTarget::Id(42),
        }
    );
}

#[test]
fn parses_select_pane_direction() {
    let command = parse_args(argv(["dmux", "select-pane", "-t", "dev", "-L"])).unwrap();
    assert_eq!(
        command,
        Command::SelectPane {
            session: "dev".to_string(),
            window: WindowTarget::Active,
            target: PaneSelectTarget::Direction(PaneDirection::Left),
        }
    );
}

#[test]
fn rejects_select_pane_conflicting_targets() {
    let err = parse_args(argv([
        "dmux",
        "select-pane",
        "-t",
        "dev",
        "-p",
        "1",
        "--pane-id",
        "42",
    ]))
    .unwrap_err();
    assert!(err.contains("only one pane target"), "{err}");

    let err = parse_args(argv(["dmux", "select-pane", "-t", "dev", "-p", "1", "-L"])).unwrap_err();
    assert!(err.contains("only one pane target"), "{err}");
}

#[test]
fn rejects_select_pane_without_target() {
    let err = parse_args(argv(["dmux", "select-pane", "-t", "dev"])).unwrap_err();
    assert!(err.contains("requires one of"), "{err}");
}

#[test]
fn parses_kill_pane_target_and_index() {
    let command = parse_args(argv(["dmux", "kill-pane", "-t", "dev", "-p", "1"])).unwrap();
    assert_eq!(
        command,
        Command::KillPane {
            target: Target {
                session: "dev".to_string(),
                window: WindowTarget::Active,
                pane: PaneTarget::Index(1),
            },
        }
    );
}

#[test]
fn parses_kill_pane_target_without_index() {
    let command = parse_args(argv(["dmux", "kill-pane", "-t", "dev"])).unwrap();
    assert_eq!(
        command,
        Command::KillPane {
            target: active_target("dev"),
        }
    );
}

#[test]
fn parses_swap_pane_source_and_destination_targets() {
    let command =
        parse_args(argv(["dmux", "swap-pane", "-s", "dev:0.%10", "-t", "dev:0.2"])).unwrap();
    assert_eq!(
        command,
        Command::SwapPane {
            source: Target {
                session: "dev".to_string(),
                window: WindowTarget::Index(0),
                pane: PaneTarget::Id(10),
            },
            destination: Target {
                session: "dev".to_string(),
                window: WindowTarget::Index(0),
                pane: PaneTarget::Index(2),
            },
        }
    );
}

#[test]
fn parses_move_break_and_join_pane_targets() {
    let move_command = parse_args(argv([
        "dmux",
        "move-pane",
        "-s",
        "dev:0.%10",
        "-t",
        "dev:1.0",
        "-v",
    ]))
    .unwrap();
    assert_eq!(
        move_command,
        Command::MovePane {
            source: Target {
                session: "dev".to_string(),
                window: WindowTarget::Index(0),
                pane: PaneTarget::Id(10),
            },
            destination: Target {
                session: "dev".to_string(),
                window: WindowTarget::Index(1),
                pane: PaneTarget::Index(0),
            },
            direction: SplitDirection::Vertical,
        }
    );

    let break_command = parse_args(argv(["dmux", "break-pane", "-t", "dev:0.%10"])).unwrap();
    assert_eq!(
        break_command,
        Command::BreakPane {
            target: Target {
                session: "dev".to_string(),
                window: WindowTarget::Index(0),
                pane: PaneTarget::Id(10),
            },
        }
    );

    let join_command =
        parse_args(argv(["dmux", "join-pane", "-s", "dev:1.0", "-t", "dev:0.%10"])).unwrap();
    assert_eq!(
        join_command,
        Command::JoinPane {
            source: Target {
                session: "dev".to_string(),
                window: WindowTarget::Index(1),
                pane: PaneTarget::Index(0),
            },
            destination: Target {
                session: "dev".to_string(),
                window: WindowTarget::Index(0),
                pane: PaneTarget::Id(10),
            },
            direction: SplitDirection::Horizontal,
        }
    );
}

#[test]
fn parses_respawn_pane_target_force_and_command() {
    let command = parse_args(argv([
        "dmux",
        "respawn-pane",
        "-t",
        "dev",
        "-p",
        "1",
        "-k",
        "--",
        "sh",
        "-c",
        "echo ready",
    ]))
    .unwrap();
    assert_eq!(
        command,
        Command::RespawnPane {
            target: Target {
                session: "dev".to_string(),
                window: WindowTarget::Active,
                pane: PaneTarget::Index(1),
            },
            force: true,
            command: vec!["sh".to_string(), "-c".to_string(), "echo ready".to_string()],
        }
    );
}

#[test]
fn parses_new_window_target_and_command() {
    let command = parse_args(argv([
        "dmux",
        "new-window",
        "-t",
        "dev",
        "--",
        "sh",
        "-c",
        "echo window",
    ]))
    .unwrap();
    assert_eq!(
        command,
        Command::NewWindow {
            session: "dev".to_string(),
            command: vec![
                "sh".to_string(),
                "-c".to_string(),
                "echo window".to_string()
            ],
        }
    );
}

#[test]
fn parses_new_tab_alias_target_and_command() {
    let command = parse_args(argv(["dmux", "new-tab", "-t", "dev", "--", "echo", "tab"])).unwrap();
    assert_eq!(
        command,
        Command::NewWindow {
            session: "dev".to_string(),
            command: vec!["echo".to_string(), "tab".to_string()],
        }
    );
}

#[test]
fn parses_list_windows_target() {
    let command = parse_args(argv(["dmux", "list-windows", "-t", "dev"])).unwrap();
    assert_eq!(
        command,
        Command::ListWindows {
            session: "dev".to_string(),
            format: None,
        }
    );
}

#[test]
fn parses_list_tabs_alias_target() {
    let command = parse_args(argv(["dmux", "list-tabs", "-t", "dev"])).unwrap();
    assert_eq!(
        command,
        Command::ListWindows {
            session: "dev".to_string(),
            format: None,
        }
    );
}

#[test]
fn parses_select_window_target_and_index() {
    let command = parse_args(argv(["dmux", "select-window", "-t", "dev", "-w", "1"])).unwrap();
    assert_eq!(
        command,
        Command::SelectWindow {
            session: "dev".to_string(),
            target: WindowTarget::Index(1),
        }
    );
}

#[test]
fn parses_select_tab_alias_target_and_index() {
    let command = parse_args(argv(["dmux", "select-tab", "-t", "dev", "-i", "1"])).unwrap();
    assert_eq!(
        command,
        Command::SelectWindow {
            session: "dev".to_string(),
            target: WindowTarget::Index(1),
        }
    );
}

#[test]
fn parses_select_window_by_id_and_name() {
    assert_eq!(
        parse_args(argv(["dmux", "select-window", "-t", "dev", "--window-id", "42"])).unwrap(),
        Command::SelectWindow {
            session: "dev".to_string(),
            target: WindowTarget::Id(42),
        }
    );
    assert_eq!(
        parse_args(argv(["dmux", "select-tab", "-t", "dev", "-n", "editor"])).unwrap(),
        Command::SelectWindow {
            session: "dev".to_string(),
            target: WindowTarget::Name("editor".to_string()),
        }
    );
}

#[test]
fn rejects_conflicting_window_targets() {
    let err = parse_args(argv([
        "dmux",
        "select-window",
        "-t",
        "dev",
        "-w",
        "1",
        "-n",
        "editor",
    ]))
    .unwrap_err();
    assert_eq!(err, "select-window accepts exactly one window target");
}

#[test]
fn parses_rename_and_cycle_window_commands() {
    assert_eq!(
        parse_args(argv(["dmux", "rename-window", "-t", "dev", "editor"])).unwrap(),
        Command::RenameWindow {
            session: "dev".to_string(),
            target: WindowTarget::Active,
            name: "editor".to_string(),
        }
    );
    assert_eq!(
        parse_args(argv(["dmux", "rename-tab", "-t", "dev", "--tab-id", "7", "logs"])).unwrap(),
        Command::RenameWindow {
            session: "dev".to_string(),
            target: WindowTarget::Id(7),
            name: "logs".to_string(),
        }
    );
    assert_eq!(
        parse_args(argv(["dmux", "next-window", "-t", "dev"])).unwrap(),
        Command::NextWindow {
            session: "dev".to_string(),
        }
    );
    assert_eq!(
        parse_args(argv(["dmux", "previous-tab", "-t", "dev"])).unwrap(),
        Command::PreviousWindow {
            session: "dev".to_string(),
        }
    );
}

#[test]
fn rejects_empty_rename_and_conflicting_rename_targets() {
    assert_eq!(
        parse_args(argv(["dmux", "rename-window", "-t", "dev", ""])).unwrap_err(),
        "rename-window new name cannot be empty"
    );
    assert_eq!(
        parse_args(argv([
            "dmux",
            "rename-tab",
            "-t",
            "dev",
            "-i",
            "0",
            "--tab-id",
            "1",
            "name"
        ]))
        .unwrap_err(),
        "rename-tab accepts exactly one window target"
    );
}

#[test]
fn parses_kill_window_target_and_index() {
    let command = parse_args(argv(["dmux", "kill-window", "-t", "dev", "-w", "1"])).unwrap();
    assert_eq!(
        command,
        Command::KillWindow {
            session: "dev".to_string(),
            target: WindowTarget::Index(1),
        }
    );
}

#[test]
fn parses_kill_tab_alias_target_and_index() {
    let command = parse_args(argv(["dmux", "kill-tab", "-t", "dev", "-i", "1"])).unwrap();
    assert_eq!(
        command,
        Command::KillWindow {
            session: "dev".to_string(),
            target: WindowTarget::Index(1),
        }
    );
}

#[test]
fn parses_kill_window_target_without_index() {
    let command = parse_args(argv(["dmux", "kill-window", "-t", "dev"])).unwrap();
    assert_eq!(
        command,
        Command::KillWindow {
            session: "dev".to_string(),
            target: WindowTarget::Active,
        }
    );
}

#[test]
fn parses_zoom_pane_target_without_index() {
    let command = parse_args(argv(["dmux", "zoom-pane", "-t", "dev"])).unwrap();
    assert_eq!(
        command,
        Command::ZoomPane {
            target: active_target("dev"),
        }
    );
}

#[test]
fn parses_zoom_pane_target_and_index() {
    let command = parse_args(argv(["dmux", "zoom-pane", "-t", "dev", "-p", "0"])).unwrap();
    assert_eq!(
        command,
        Command::ZoomPane {
            target: Target {
                session: "dev".to_string(),
                window: WindowTarget::Active,
                pane: PaneTarget::Index(0),
            },
        }
    );
}

#[test]
fn parses_status_line_target() {
    let command = parse_args(argv(["dmux", "status-line", "-t", "dev"])).unwrap();
    assert_eq!(
        command,
        Command::StatusLine {
            session: "dev".to_string(),
            format: None,
        }
    );
}

#[test]
fn parses_status_line_format() {
    let command = parse_args(argv([
        "dmux",
        "status-line",
        "-t",
        "dev",
        "-F",
        "#{session.name}:#{window.index}:#{pane.index}",
    ]))
    .unwrap();
    assert_eq!(
        command,
        Command::StatusLine {
            session: "dev".to_string(),
            format: Some("#{session.name}:#{window.index}:#{pane.index}".to_string()),
        }
    );
}

#[test]
fn parses_display_message_print_format() {
    let command = parse_args(argv([
        "dmux",
        "display-message",
        "-t",
        "dev",
        "-p",
        "#{session.name}:#{pane.index}",
    ]))
    .unwrap();
    assert_eq!(
        command,
        Command::DisplayMessage {
            session: "dev".to_string(),
            format: "#{session.name}:#{pane.index}".to_string(),
        }
    );
}

#[test]
fn every_command_word_in_general_help_parses() {
    let help = general_help();
    assert!(help.starts_with("Usage: dmux <command> [options]\n"));
    let start = help.find("Commands:\n").unwrap() + "Commands:\n".len();
    let end = help.find("\nTargets:").unwrap();
    let mut words = 0;
    for line in help[start..end].lines() {
        let word = match line.split_whitespace().next() {
            Some(word) => word,
            None => continue,
        };
        if word.contains('/') {
            continue;
        }
        words += 1;
        if let Err(message) = parse_args(argv(["dmux", word])) {
            assert!(!message.contains("unknown command"), "{word}: {message}");
        }
    }
    assert!(words > 30);
}
