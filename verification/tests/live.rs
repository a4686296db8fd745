use dmux::live::{LiveEvent, LiveOutput, LiveState, PromptOutcome};

#[test]
fn forwarded_input_redraws_after_the_interval_without_events() {
    let mut state = LiveState::new(1_000);
    let d = state.step(LiveEvent::Forwarded { resized: false, empty: false }, 1_050);
    assert!(matches!(d.output, LiveOutput::Nothing));
    let d = state.step(LiveEvent::Forwarded { resized: false, empty: false }, 1_100);
    assert!(matches!(d.output, LiveOutput::Frame { .. }));
    assert_eq!(state.last_redraw, 1_100);
}

#[test]
fn forwarded_input_under_events_schedules_a_safety_repaint() {
    let mut state = LiveState::new(0);
    state.step(LiveEvent::EventStreamReady, 0);
    let d = state.step(LiveEvent::Forwarded { resized: false, empty: false }, 500);
    assert!(matches!(d.output, LiveOutput::Nothing));
    assert_eq!(state.repaint_deadline, Some(1_500));
    assert_eq!(state.timeout(1_000), 500);
    let d = state.step(LiveEvent::Timeout { resized: false }, 1_500);
    assert!(matches!(d.output, LiveOutput::Frame { .. }));
    assert_eq!(state.repaint_deadline, None);
}

#[test]
fn prompt_line_is_shown_while_open() {
    let mut state = LiveState::new(0);
    let d = state.step(LiveEvent::PromptUpdate("split".to_string()), 10);
    match d.output {
        LiveOutput::Frame { message, prompt_shown, .. } => {
            assert!(prompt_shown);
            assert!(message.unwrap().starts_with(":split"));
        }
        other => panic!("expected a frame, got {:?}", other),
    }
    let d = state.step(LiveEvent::PromptCancel, 20);
    match d.output {
        LiveOutput::Frame { message, prompt_shown, .. } => {
            assert!(!prompt_shown);
            assert_eq!(message.as_deref(), Some("cancelled"));
        }
        other => panic!("expected a frame, got {:?}", other),
    }
}

#[test]
fn dispatched_exit_stops_the_client() {
    let mut state = LiveState::new(0);
    let d = state.step(LiveEvent::PromptDispatched(PromptOutcome::Exit), 5);
    assert!(d.stop);
}

#[test]
fn expired_message_is_not_shown() {
    let mut state = LiveState::new(0);
    state.step(LiveEvent::PaneNumbersShown("0 1".to_string()), 0);
    assert_eq!(state.message, Some(("0 1".to_string(), 1_000)));
    let d = state.step(LiveEvent::RedrawNow, 2_000);
    match d.output {
        LiveOutput::Frame { message, .. } => assert_eq!(message, None),
        other => panic!("expected a frame, got {:?}", other),
    }
    assert_eq!(state.message, None);
}

#[test]
fn paused_redraws_draw_nothing_until_redraw_now() {
    let mut state = LiveState::new(0);
    state.step(LiveEvent::PauseRedraw, 0);
    let d = state.step(LiveEvent::Timeout { resized: true }, 10);
    assert!(matches!(d.output, LiveOutput::Nothing));
    let d = state.step(LiveEvent::RenderFrame { resized: false }, 20);
    assert!(matches!(d.output, LiveOutput::Nothing));
    assert!(!d.adopt_render_frame);
    let d = state.step(LiveEvent::RedrawNow, 30);
    assert!(matches!(d.output, LiveOutput::Frame { .. }));
    assert!(!state.redraw_paused);
}

#[test]
fn render_frames_paint_with_help_overlay() {
    let mut state = LiveState::new(0);
    state.step(LiveEvent::HelpToggled, 0);
    let d = state.step(LiveEvent::RenderFrame { resized: true }, 5);
    assert!(d.reset_render);
    assert!(d.adopt_render_frame);
    assert!(matches!(d.output, LiveOutput::Paint { help: true }));
    assert!(state.event_stream_active);
}

#[test]
fn fallback_stream_starts_once() {
    let mut state = LiveState::new(0);
    assert!(state.step(LiveEvent::RenderStreamUnavailable, 0).start_fallback);
    assert!(!state.step(LiveEvent::RenderStreamClosed, 1).start_fallback);
}
