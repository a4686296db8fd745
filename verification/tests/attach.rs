use dmux::attach::{
    active_live_message, handle_render_frame_received, handle_render_stream_ready,
    live_snapshot_redraw_timeout, next_pane_index_from_listing, pane_at_mouse_position,
    pane_index_exists, parse_pane_listing, format_pane_number_message, MousePosition,
    LIVE_SNAPSHOT_EVENT_SAFETY_REDRAW_INTERVAL_MS, LIVE_SNAPSHOT_REDRAW_INTERVAL_MS,
};
use dmux::frames::{
    maybe_emit_resize, parse_attach_layout_snapshot_response, parse_attach_ok, parse_attach_render_frame_body,
    parse_attach_size, parse_live_snapshot_event_line, parse_stty_size, AttachMode,
    AttachPaneRegion, LiveSnapshotServerEvent, PtySize,
};
use dmux::header::live_header_lines;

#[test]
fn parses_attach_size_override() {
    assert_eq!(
        parse_attach_size("120x40").unwrap(),
        PtySize {
            cols: 120,
            rows: 40
        }
    );
    assert!(parse_attach_size("0x40").is_err());
    assert!(parse_attach_size("120").is_err());
}

#[test]
fn parses_stty_size_output_as_rows_then_cols() {
    assert_eq!(
        parse_stty_size("40 120\n").unwrap(),
        PtySize {
            cols: 120,
            rows: 40
        }
    );
}

#[test]
fn maybe_emit_resize_only_emits_changed_sizes() {
    let mut last = Some(PtySize { cols: 80, rows: 24 });
    let mut emitted = Vec::new();

    maybe_emit_resize(
        Some(PtySize { cols: 80, rows: 24 }),
        &mut last,
        |size| {
            emitted.push(size);
            Ok(())
        },
    )
    .unwrap();
    maybe_emit_resize(
        Some(PtySize {
            cols: 100,
            rows: 40,
        }),
        &mut last,
        |size| {
            emitted.push(size);
            Ok(())
        },
    )
    .unwrap();
    maybe_emit_resize(None, &mut last, |size| {
        emitted.push(size);
        Ok(())
    })
    .unwrap();

    assert_eq!(
        emitted,
        vec![PtySize {
            cols: 100,
            rows: 40
        }]
    );
    assert_eq!(
        last,
        Some(PtySize {
            cols: 100,
            rows: 40
        })
    );
}

#[test]
fn parses_snapshot_attach_ok() {
    assert_eq!(
        parse_attach_ok("OK\tSNAPSHOT\n").unwrap(),
        AttachMode::Snapshot
    );
}

#[test]
fn parses_live_attach_ok_with_raw_layout_epoch() {
    assert_eq!(
        parse_attach_ok("OK\tLIVE\t42\n").unwrap(),
        AttachMode::Live {
            raw_layout_epoch: 42
        }
    );
}

#[test]
fn parses_attach_layout_snapshot_response() {
    let parsed = parse_attach_layout_snapshot_response(
        b"REGIONS\t1\nREGION\t2\t3\t4\t5\t6\nSNAPSHOT\t7\nabc\r\nxy",
    )
    .unwrap();

    assert_eq!(parsed.snapshot, b"abc\r\nxy");
    assert_eq!(
        parsed.regions,
        vec![AttachPaneRegion {
            pane: 2,
            row_start: 3,
            row_end: 4,
            col_start: 5,
            col_end: 6,
        }]
    );
}

#[test]
fn rejects_attach_render_frame_with_extra_output_bytes() {
    let body = b"HEADER_ROWS\t0\nREGIONS\t0\nOUTPUT\t3\nabcd";

    let err = parse_attach_render_frame_body(body).unwrap_err();

    assert!(err.to_string().contains("extra render output"));
}

#[test]
fn rejects_attach_render_frame_with_truncated_output_bytes() {
    let body = b"HEADER_ROWS\t0\nREGIONS\t0\nOUTPUT\t4\nabc";

    let err = parse_attach_render_frame_body(body).unwrap_err();

    assert!(err.to_string().contains("truncated render output"));
}

#[test]
fn rejects_extra_bytes_after_attach_layout_snapshot_body() {
    let error =
        parse_attach_layout_snapshot_response(b"REGIONS\t0\nSNAPSHOT\t3\nabcd").unwrap_err();

    assert_eq!(error.to_string(), "extra snapshot body bytes");
}

#[test]
fn pane_at_mouse_position_subtracts_header_rows() {
    let regions = vec![AttachPaneRegion {
        pane: 1,
        row_start: 0,
        row_end: 1,
        col_start: 13,
        col_end: 24,
    }];

    assert_eq!(
        pane_at_mouse_position(&regions, 1, MousePosition { col: 14, row: 2 }),
        Some(1)
    );
    assert_eq!(
        pane_at_mouse_position(&regions, 2, MousePosition { col: 14, row: 2 }),
        None
    );
}

#[test]
fn parses_live_snapshot_redraw_event() {
    assert_eq!(
        parse_live_snapshot_event_line("REDRAW\n").unwrap(),
        LiveSnapshotServerEvent::Redraw
    );
}

#[test]
fn rejects_unknown_live_snapshot_event() {
    assert!(parse_live_snapshot_event_line("OTHER\n").is_err());
}

#[test]
fn live_snapshot_timeout_uses_polling_when_events_are_inactive() {
    assert_eq!(
        live_snapshot_redraw_timeout(false, false, None, None, 1_000),
        LIVE_SNAPSHOT_REDRAW_INTERVAL_MS
    );
}

#[test]
fn live_snapshot_timeout_uses_safety_interval_when_events_are_active() {
    assert_eq!(
        live_snapshot_redraw_timeout(true, false, None, None, 1_000),
        LIVE_SNAPSHOT_EVENT_SAFETY_REDRAW_INTERVAL_MS
    );
}

#[test]
fn live_snapshot_timeout_shortens_for_message_expiry() {
    let now: u64 = 1_000;

    assert_eq!(
        live_snapshot_redraw_timeout(
            true,
            false,
            Some(now + 25),
            None,
            now
        ),
        25
    );
}

#[test]
fn live_snapshot_timeout_redraws_immediately_for_expired_message() {
    let now: u64 = 1_000;

    assert_eq!(
        live_snapshot_redraw_timeout(true, false, Some(now), None, now),
        0
    );
}

#[test]
fn live_snapshot_timeout_ignores_message_expiry_while_paused() {
    let now: u64 = 1_000;

    assert_eq!(
        live_snapshot_redraw_timeout(true, true, Some(now), Some(now), now),
        LIVE_SNAPSHOT_EVENT_SAFETY_REDRAW_INTERVAL_MS
    );
}

#[test]
fn live_snapshot_timeout_shortens_for_pending_input_repaint_deadline() {
    let now: u64 = 1_000;

    assert_eq!(
        live_snapshot_redraw_timeout(
            true,
            false,
            None,
            Some(now + 25),
            now
        ),
        25
    );
}

#[test]
fn live_snapshot_timeout_redraws_immediately_for_expired_input_repaint_deadline() {
    let now: u64 = 1_000;

    assert_eq!(
        live_snapshot_redraw_timeout(true, false, None, Some(now), now),
        0
    );
}

#[test]
fn render_stream_ready_does_not_activate_safety_timeout_before_first_frame() {
    let mut active = false;

    handle_render_stream_ready(&mut active);
    assert!(!active);

    handle_render_frame_received(&mut active);
    assert!(active);
}

#[test]
fn render_stream_ready_does_not_clear_existing_active_fallback_stream() {
    let mut active = true;

    handle_render_stream_ready(&mut active);

    assert!(active);
}

#[test]
fn next_pane_index_wraps_after_active_pane() {
    assert_eq!(
        next_pane_index_from_listing("0\t0\n1\t1\n2\t0\n").unwrap(),
        2
    );
    assert_eq!(
        next_pane_index_from_listing("0\t0\n1\t0\n2\t1\n").unwrap(),
        0
    );
}

#[test]
fn next_pane_index_rejects_missing_active_pane() {
    assert!(next_pane_index_from_listing("0\t0\n1\t0\n").is_err());
}

#[test]
fn pane_number_message_brackets_active_pane() {
    let entries = parse_pane_listing("0\t0\n1\t1\n2\t0\n").unwrap();

    assert_eq!(format_pane_number_message(&entries), "panes: 0 [1] 2");
}

#[test]
fn pane_index_exists_checks_listing() {
    let entries = parse_pane_listing("0\t0\n1\t1\n").unwrap();

    assert!(pane_index_exists(&entries, 1));
    assert!(!pane_index_exists(&entries, 9));
}

#[test]
fn active_live_message_keeps_command_prompt_visible_after_transient_expiry() {
    let now: u64 = 1_000;
    let mut transient = Some(("old".to_string(), now));

    let message = active_live_message(&mut transient, Some(":rename-window api".to_string()), now);

    assert_eq!(message.as_deref(), Some(":rename-window api"));
    assert!(transient.is_none());
}

#[test]
fn help_popup_overlay_does_not_become_a_header_message() {
    let now: u64 = 1_000;
    let mut transient: Option<(String, u64)> = None;

    let message = active_live_message(&mut transient, None, now);
    let header_lines = live_header_lines("tabs: [0:0*]\npane 0", message.as_deref(), Some(80));

    assert_eq!(message, None);
    assert_eq!(header_lines, vec!["tabs: [0:0*]", "pane 0"]);
}

