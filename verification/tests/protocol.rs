#![allow(unused_imports, dead_code)]

use dmux::decode::decode_request;
use dmux::encode::{
    encode_break_pane, encode_capture, encode_list_windows, encode_next_window,
    encode_previous_window, encode_rename_window, encode_capture_with_selection, encode_detach_client,
    encode_join_pane, encode_list_clients, encode_list_sessions, encode_move_pane, encode_new,
    encode_new_in_cwd, encode_rename_session, encode_resize, encode_resize_pane,
    encode_save_buffer, encode_save_buffer_target, encode_select_layout_target, encode_swap_pane,
};
use dmux::wire::encode_target;
use dmux::protocol::{
    BufferSelection, CaptureMode, LayoutPreset, PaneDirection, PaneResizeDirection,
    PaneSelectTarget, PaneTarget, Request, SplitDirection, Target, WindowTarget,
};


fn active_target(session: &str) -> Target {
    Target::active(session.to_string())
}

#[test]
fn round_trips_new_request_with_spaced_args() {
    let command = vec!["sh".to_string(), "-c".to_string(), "echo ok".to_string()];
    let line = encode_new("dev", &command);

    assert_eq!(
        decode_request(&line).unwrap(),
        Request::New {
            session: "dev".to_string(),
            command,
            cwd: None,
        }
    );
}

#[test]
fn round_trips_new_request_with_cwd() {
    let command = vec!["pwd".to_string()];
    let cwd = b"/tmp/dmux cwd".to_vec();
    let line = encode_new_in_cwd("dev", &command, &cwd);

    assert_eq!(
        decode_request(&line).unwrap(),
        Request::New {
            session: "dev".to_string(),
            command,
            cwd: Some(cwd),
        }
    );
}

#[test]
fn round_trips_session_lifecycle_requests() {
    assert_eq!(
        decode_request("LIST_SESSIONS\n").unwrap(),
        Request::ListSessions { format: None }
    );
    assert_eq!(
        decode_request(&encode_list_sessions(Some("#{session.name}"))).unwrap(),
        Request::ListSessions {
            format: Some("#{session.name}".to_string()),
        }
    );
    assert_eq!(
        decode_request(&encode_rename_session("old", "new")).unwrap(),
        Request::RenameSession {
            old_name: "old".to_string(),
            new_name: "new".to_string(),
        }
    );
    assert_eq!(
        decode_request(&encode_list_clients(Some("dev"), Some("#{client.id}"))).unwrap(),
        Request::ListClients {
            session: Some("dev".to_string()),
            format: Some("#{client.id}".to_string()),
        }
    );
    assert_eq!(
        decode_request(&encode_detach_client(Some("dev"), Some(7))).unwrap(),
        Request::DetachClient {
            session: Some("dev".to_string()),
            client_id: Some(7),
        }
    );
}

#[test]
fn round_trips_resize_request() {
    let line = encode_resize("dev", 100, 40);
    assert_eq!(
        decode_request(&line).unwrap(),
        Request::Resize {
            session: "dev".to_string(),
            cols: 100,
            rows: 40,
        }
    );
}

#[test]
fn round_trips_directional_resize_pane_request() {
    let line = encode_resize_pane("dev", PaneResizeDirection::Left, 5);
    assert_eq!(
        decode_request(&line).unwrap(),
        Request::ResizePane {
            target: active_target("dev"),
            direction: PaneResizeDirection::Left,
            amount: 5,
        }
    );
}

#[test]
fn round_trips_select_layout_request() {
    let target = Target {
        session: "dev".to_string(),
        window: WindowTarget::Id(7),
        pane: PaneTarget::Active,
    };
    let line = encode_select_layout_target(&target, LayoutPreset::Tiled);

    assert_eq!(
        decode_request(&line).unwrap(),
        Request::SelectLayout {
            session: "dev".to_string(),
            window: WindowTarget::Id(7),
            preset: LayoutPreset::Tiled,
        }
    );
}

#[test]
fn round_trips_pane_movement_requests() {
    let source = Target {
        session: "dev".to_string(),
        window: WindowTarget::Index(0),
        pane: PaneTarget::Id(10),
    };
    let destination = Target {
        session: "dev".to_string(),
        window: WindowTarget::Id(7),
        pane: PaneTarget::Index(1),
    };

    assert_eq!(
        decode_request(&encode_swap_pane(&source, &destination)).unwrap(),
        Request::SwapPane {
            source: source.clone(),
            destination: destination.clone(),
        }
    );
    assert_eq!(
        decode_request(&encode_move_pane(
            &source,
            &destination,
            SplitDirection::Vertical
        ))
        .unwrap(),
        Request::MovePane {
            source: source.clone(),
            destination: destination.clone(),
            direction: SplitDirection::Vertical,
        }
    );
    assert_eq!(
        decode_request(&encode_break_pane(&source)).unwrap(),
        Request::BreakPane {
            target: source.clone(),
        }
    );
    assert_eq!(
        decode_request(&encode_join_pane(
            &source,
            &destination,
            SplitDirection::Horizontal
        ))
        .unwrap(),
        Request::JoinPane {
            source,
            destination,
            direction: SplitDirection::Horizontal,
        }
    );
}

#[test]
fn rejects_zero_directional_resize_pane_amount() {
    let err = decode_request("RESIZE_PANE\tdev\tL\t0\n").unwrap_err();
    assert!(err.contains("positive"), "{err}");
}

#[test]
fn round_trips_capture_screen_request() {
    let line = encode_capture("dev", CaptureMode::Screen);
    assert_eq!(
        decode_request(&line).unwrap(),
        Request::Capture {
            target: active_target("dev"),
            mode: CaptureMode::Screen,
            selection: BufferSelection::All,
        }
    );
}

#[test]
fn round_trips_capture_history_request() {
    let line = encode_capture("dev", CaptureMode::History);
    assert_eq!(
        decode_request(&line).unwrap(),
        Request::Capture {
            target: active_target("dev"),
            mode: CaptureMode::History,
            selection: BufferSelection::All,
        }
    );
}

#[test]
fn decodes_legacy_capture_request_as_all() {
    assert_eq!(
        decode_request("CAPTURE\tdev\n").unwrap(),
        Request::Capture {
            target: active_target("dev"),
            mode: CaptureMode::All,
            selection: BufferSelection::All,
        }
    );
}

#[test]
fn round_trips_capture_line_range_request() {
    let line = encode_capture_with_selection(
        "dev",
        CaptureMode::Screen,
        BufferSelection::LineRange { start: -2, end: -1 },
    );
    assert_eq!(
        decode_request(&line).unwrap(),
        Request::Capture {
            target: active_target("dev"),
            mode: CaptureMode::Screen,
            selection: BufferSelection::LineRange { start: -2, end: -1 },
        }
    );
}

#[test]
fn round_trips_save_buffer_request() {
    let line = encode_save_buffer(
        "dev",
        Some("saved"),
        CaptureMode::Screen,
        BufferSelection::All,
    );
    assert_eq!(
        decode_request(&line).unwrap(),
        Request::SaveBuffer {
            target: active_target("dev"),
            buffer: Some("saved".to_string()),
            mode: CaptureMode::Screen,
            selection: BufferSelection::All,
        }
    );
}

#[test]
fn round_trips_rename_and_cycle_window_requests() {
    assert_eq!(
        decode_request(&encode_rename_window("dev", WindowTarget::Active, "editor")).unwrap(),
        Request::RenameWindow {
            session: "dev".to_string(),
            target: WindowTarget::Active,
            name: "editor".to_string(),
        }
    );
    assert_eq!(
        decode_request(&encode_next_window("dev")).unwrap(),
        Request::NextWindow {
            session: "dev".to_string(),
        }
    );
    assert_eq!(
        decode_request(&encode_previous_window("dev")).unwrap(),
        Request::PreviousWindow {
            session: "dev".to_string(),
        }
    );
}

#[test]
fn round_trips_list_windows_format_and_rename_targets() {
    assert_eq!(
        decode_request(&encode_list_windows("dev", None)).unwrap(),
        Request::ListWindows {
            session: "dev".to_string(),
            format: None,
        }
    );
    assert_eq!(
        decode_request(&encode_list_windows(
            "dev",
            Some("#{window.id}:#{window.name}")
        ))
        .unwrap(),
        Request::ListWindows {
            session: "dev".to_string(),
            format: Some("#{window.id}:#{window.name}".to_string()),
        }
    );
    assert_eq!(
        decode_request(&encode_rename_window("dev", WindowTarget::Id(7), "logs")).unwrap(),
        Request::RenameWindow {
            session: "dev".to_string(),
            target: WindowTarget::Id(7),
            name: "logs".to_string(),
        }
    );
    assert_eq!(
        decode_request(&encode_rename_window(
            "dev",
            WindowTarget::Name("old".to_string()),
            "new"
        ))
        .unwrap(),
        Request::RenameWindow {
            session: "dev".to_string(),
            target: WindowTarget::Name("old".to_string()),
            name: "new".to_string(),
        }
    );
}

#[test]
fn rename_window_by_index_round_trips_with_spaces_in_name() {
    assert_eq!(
        decode_request(&encode_rename_window("dev", WindowTarget::Index(3), "my editor")).unwrap(),
        Request::RenameWindow {
            session: "dev".to_string(),
            target: WindowTarget::Index(3),
            name: "my editor".to_string(),
        }
    );
}

#[test]
fn encoded_targets_have_three_pieces_and_differ() {
    let a = Target {
        session: "dev".to_string(),
        window: WindowTarget::Index(2),
        pane: PaneTarget::Id(5),
    };
    let b = Target {
        session: "dev".to_string(),
        window: WindowTarget::Name("2".to_string()),
        pane: PaneTarget::Id(5),
    };
    let text_a = encode_target(&a);
    let text_b = encode_target(&b);
    assert_eq!(text_a, "646576|index:2|id:5");
    assert_eq!(text_a.split('|').count(), 3);
    assert!(!text_a.contains('\t') && !text_a.contains('\n'));
    assert_eq!(text_b.split('|').count(), 3);
    assert_ne!(text_a, text_b);
}

#[test]
fn save_buffer_target_first_match_omits_index_field() {
    let target = Target {
        session: "dev".to_string(),
        window: WindowTarget::Index(1),
        pane: PaneTarget::Active,
    };
    let selection = BufferSelection::Search {
        needle: "needle".to_string(),
        match_index: 1,
    };
    let line = encode_save_buffer_target(&target, Some("hit"), CaptureMode::History, selection.clone());
    assert_eq!(line.matches('\t').count(), 4);
    assert_eq!(
        decode_request(&line).unwrap(),
        Request::SaveBuffer {
            target,
            buffer: Some("hit".to_string()),
            mode: CaptureMode::History,
            selection,
        }
    );
}
