use dmux::cli::{attach_help, attach_help_overlay};
use dmux::git::dirty_cache_fresh;
use dmux::input::InputAction;
use dmux::keys::LiveControls;
use dmux::raw_client::{raw_after_dispatch, raw_after_pane_request, RawStep};

#[test]
fn pane_request_done_reconnects_with_forwarded_rest() {
    let controls = LiveControls::default();
    let rest = vec![InputAction::Forward(b"ls".to_vec())];
    assert_eq!(
        raw_after_pane_request(true, &rest, false, &controls),
        RawStep::Reconnect(b"ls".to_vec())
    );
    assert_eq!(raw_after_pane_request(false, &rest, false, &controls), RawStep::Next);
}

#[test]
fn dispatch_outcomes_choose_the_next_step() {
    let controls = LiveControls::default();
    let rest = vec![InputAction::Forward(b"x".to_vec())];
    assert_eq!(raw_after_dispatch(true, true, true, b"t", &rest, false, &controls), RawStep::Detach);
    assert_eq!(
        raw_after_dispatch(true, true, false, b"t", &rest, false, &controls),
        RawStep::Reconnect(b"tx".to_vec())
    );
    assert_eq!(
        raw_after_dispatch(false, true, true, b"t", &rest, false, &controls),
        RawStep::Refeed(b"t".to_vec())
    );
    assert_eq!(raw_after_dispatch(true, false, false, b"", &rest, false, &controls), RawStep::Next);
}

#[test]
fn dirty_results_are_reused_for_two_seconds() {
    assert!(dirty_cache_fresh(1_000, 2_999));
    assert!(!dirty_cache_fresh(1_000, 3_000));
    assert!(dirty_cache_fresh(5_000, 1_000));
}

#[test]
fn attach_help_ends_with_the_overlay() {
    assert!(attach_help().ends_with(attach_help_overlay()));
    assert!(attach_help_overlay().contains("Alt-h/j/k/l"));
}
