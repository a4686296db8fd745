use dmux::attach::MousePosition;
use dmux::input::{
    finish_live_snapshot_input, raw_pending_input, translate_attach_input,
    translate_attach_input_with_state, translate_attach_input_with_state_with_controls,
    translate_live_snapshot_input, translate_live_snapshot_input_with_mouse,
    translate_live_snapshot_input_with_mouse_and_controls, AttachInputAction,
    LiveSnapshotInputAction, LiveSnapshotInputState, RawAttachInputState, RawPendingFocus,
    COPY_MODE_ESCAPE_DISAMBIGUATION_MS,
};
use dmux::keys::{LiveControls, PaneCommand};
use dmux::protocol::{KeyBinding, PaneResizeDirection};

#[test]
fn live_snapshot_input_forwards_arbitrary_bytes() {
    let mut state = LiveSnapshotInputState::default();

    let actions = translate_live_snapshot_input(b"hello\n", &mut state, 0);

    assert_eq!(
        actions,
        vec![LiveSnapshotInputAction::Forward(b"hello\n".to_vec())]
    );
    assert!(!state.saw_prefix);
}

#[test]
fn live_snapshot_input_emits_mouse_press_and_trailing_bytes() {
    let mut state = LiveSnapshotInputState::default();

    let actions = translate_live_snapshot_input(b"\x1b[<0;14;2Mtyped", &mut state, 0);

    assert_eq!(
        actions,
        vec![
            LiveSnapshotInputAction::MousePress(MousePosition { col: 14, row: 2 }),
            LiveSnapshotInputAction::Forward(b"typed".to_vec()),
        ]
    );
}

#[test]
fn live_snapshot_input_preserves_order_around_mouse_press() {
    let mut state = LiveSnapshotInputState::default();

    let actions = translate_live_snapshot_input(b"abc\x1b[<0;1;2Mdef", &mut state, 0);

    assert_eq!(
        actions,
        vec![
            LiveSnapshotInputAction::Forward(b"abc".to_vec()),
            LiveSnapshotInputAction::MousePress(MousePosition { col: 1, row: 2 }),
            LiveSnapshotInputAction::Forward(b"def".to_vec()),
        ]
    );
}

#[test]
fn live_snapshot_input_buffers_split_sgr_mouse_event() {
    let mut state = LiveSnapshotInputState::default();

    assert!(translate_live_snapshot_input(b"\x1b[<0;1", &mut state, 0).is_empty());
    assert_eq!(
        translate_live_snapshot_input(b";2M", &mut state, 0),
        vec![LiveSnapshotInputAction::MousePress(MousePosition {
            col: 1,
            row: 2
        })]
    );
}

#[test]
fn live_snapshot_input_forwards_standalone_escape_without_waiting() {
    let mut state = LiveSnapshotInputState::default();

    assert_eq!(
        translate_live_snapshot_input(b"\x1b", &mut state, 0),
        vec![LiveSnapshotInputAction::Forward(b"\x1b".to_vec())]
    );
}

#[test]
fn live_snapshot_input_forwards_mouse_sequence_when_mouse_focus_disabled() {
    let mut state = LiveSnapshotInputState::default();

    assert_eq!(
        translate_live_snapshot_input_with_mouse(b"\x1b[<0;1;2Mtyped", &mut state, false, 0,),
        vec![LiveSnapshotInputAction::Forward(
            b"\x1b[<0;1;2Mtyped".to_vec()
        )]
    );
}

#[test]
fn live_snapshot_input_preserves_prefix_when_partial_mouse_prefix_is_not_mouse() {
    let mut state = LiveSnapshotInputState::default();

    assert!(translate_live_snapshot_input(b"\x02", &mut state, 0).is_empty());
    assert_eq!(
        translate_live_snapshot_input(b"\x1b", &mut state, 0),
        vec![LiveSnapshotInputAction::Forward(b"\x02\x1b".to_vec())]
    );
    assert_eq!(
        translate_live_snapshot_input(b"x", &mut state, 0),
        vec![LiveSnapshotInputAction::Forward(b"x".to_vec())]
    );
    assert!(!state.saw_prefix);
}

#[test]
fn live_snapshot_input_flushes_unresolved_mouse_pending_on_eof() {
    let mut state = LiveSnapshotInputState::default();

    assert!(translate_live_snapshot_input(b"\x02", &mut state, 0).is_empty());
    assert!(translate_live_snapshot_input(b"\x1b[<0;1", &mut state, 0).is_empty());

    assert_eq!(
        finish_live_snapshot_input(&mut state),
        Some(b"\x02\x1b[<0;1".to_vec())
    );
}

#[test]
fn live_snapshot_input_forwards_non_press_mouse_events() {
    let mut state = LiveSnapshotInputState::default();

    assert_eq!(
        translate_live_snapshot_input(b"\x1b[<0;1;2m", &mut state, 0),
        vec![LiveSnapshotInputAction::Forward(b"\x1b[<0;1;2m".to_vec())]
    );
    assert_eq!(
        translate_live_snapshot_input(b"\x1b[<32;1;2M", &mut state, 0),
        vec![LiveSnapshotInputAction::Forward(b"\x1b[<32;1;2M".to_vec())]
    );
    assert_eq!(
        translate_live_snapshot_input(b"\x1b[<64;1;2M", &mut state, 0),
        vec![LiveSnapshotInputAction::Forward(b"\x1b[<64;1;2M".to_vec())]
    );
}

#[test]
fn live_snapshot_input_forwards_modified_left_clicks() {
    let mut state = LiveSnapshotInputState::default();

    assert_eq!(
        translate_live_snapshot_input(b"\x1b[<4;1;2M", &mut state, 0),
        vec![LiveSnapshotInputAction::Forward(b"\x1b[<4;1;2M".to_vec())]
    );
    assert_eq!(
        translate_live_snapshot_input(b"\x1b[<8;1;2M", &mut state, 0),
        vec![LiveSnapshotInputAction::Forward(b"\x1b[<8;1;2M".to_vec())]
    );
    assert_eq!(
        translate_live_snapshot_input(b"\x1b[<16;1;2M", &mut state, 0),
        vec![LiveSnapshotInputAction::Forward(b"\x1b[<16;1;2M".to_vec())]
    );
}

#[test]
fn live_snapshot_input_mouse_press_clears_pending_prefix() {
    let mut state = LiveSnapshotInputState::default();

    assert!(translate_live_snapshot_input(b"\x02", &mut state, 0).is_empty());
    let actions = translate_live_snapshot_input(b"\x1b[<0;1;2Md", &mut state, 0);

    assert_eq!(
        actions,
        vec![
            LiveSnapshotInputAction::MousePress(MousePosition { col: 1, row: 2 }),
            LiveSnapshotInputAction::Forward(b"d".to_vec()),
        ]
    );
    assert!(!state.saw_prefix);
}

#[test]
fn live_snapshot_input_mouse_press_clears_number_selection() {
    let mut state = LiveSnapshotInputState::default();

    assert_eq!(
        translate_live_snapshot_input(b"\x02q", &mut state, 0),
        vec![LiveSnapshotInputAction::ShowPaneNumbers]
    );
    let actions = translate_live_snapshot_input(b"\x1b[<0;1;2M1", &mut state, 0);

    assert_eq!(
        actions,
        vec![
            LiveSnapshotInputAction::MousePress(MousePosition { col: 1, row: 2 }),
            LiveSnapshotInputAction::Forward(b"1".to_vec()),
        ]
    );
    assert!(!state.selecting_pane);
}

#[test]
fn live_snapshot_input_detaches_on_prefix_d_without_forwarding_bytes() {
    let mut state = LiveSnapshotInputState::default();

    let actions = translate_live_snapshot_input(b"\x02d", &mut state, 0);

    assert_eq!(actions, vec![LiveSnapshotInputAction::Detach]);
    assert!(!state.saw_prefix);
}

#[test]
fn live_snapshot_input_detaches_on_prefix_uppercase_d() {
    let mut state = LiveSnapshotInputState::default();

    let actions = translate_live_snapshot_input(b"\x02D", &mut state, 0);

    assert_eq!(actions, vec![LiveSnapshotInputAction::Detach]);
    assert!(!state.saw_prefix);
}

#[test]
fn live_snapshot_input_forwards_literal_prefix_with_regular_key() {
    let mut state = LiveSnapshotInputState::default();

    let actions = translate_live_snapshot_input(b"\x02a", &mut state, 0);

    assert_eq!(
        actions,
        vec![LiveSnapshotInputAction::Forward(b"\x02a".to_vec())]
    );
    assert!(!state.saw_prefix);
}

#[test]
fn live_snapshot_input_forwards_single_literal_prefix_on_double_prefix() {
    let mut state = LiveSnapshotInputState::default();

    let actions = translate_live_snapshot_input(b"\x02\x02", &mut state, 0);

    assert_eq!(actions, vec![LiveSnapshotInputAction::Forward(vec![0x02])]);
    assert!(!state.saw_prefix);
}

#[test]
fn live_snapshot_input_uses_custom_prefix_and_rebound_keys() {
    let mut state = LiveSnapshotInputState::default();
    let controls = LiveControls::from_entries(
        "C-a",
        vec![KeyBinding {
            key: "m".to_string(),
            command: "copy-mode".to_string(),
        }],
    );

    assert_eq!(
        translate_live_snapshot_input_with_mouse_and_controls(
            b"\x02m", &mut state, true, &controls
        , 0),
        vec![LiveSnapshotInputAction::Forward(b"\x02m".to_vec())]
    );
    assert_eq!(
        translate_live_snapshot_input_with_mouse_and_controls(
            b"\x01mrest",
            &mut state,
            true,
            &controls
        , 0),
        vec![LiveSnapshotInputAction::EnterCopyMode {
            initial_input: b"rest".to_vec(),
        }]
    );
}

#[test]
fn live_snapshot_input_uses_bound_send_prefix_action() {
    let mut state = LiveSnapshotInputState::default();
    let controls = LiveControls::from_entries(
        "C-a",
        vec![KeyBinding {
            key: "x".to_string(),
            command: "send-prefix".to_string(),
        }],
    );

    assert_eq!(
        translate_live_snapshot_input_with_mouse_and_controls(
            b"\x01x", &mut state, true, &controls
        , 0),
        vec![LiveSnapshotInputAction::Forward(vec![0x01])]
    );
}

#[test]
fn live_snapshot_input_unbound_key_no_longer_triggers_action() {
    let mut state = LiveSnapshotInputState::default();
    let controls = LiveControls::from_entries("C-b", Vec::new());

    assert_eq!(
        translate_live_snapshot_input_with_mouse_and_controls(
            b"\x02d", &mut state, true, &controls
        , 0),
        vec![LiveSnapshotInputAction::Forward(b"\x02d".to_vec())]
    );
    assert_eq!(
        translate_live_snapshot_input_with_mouse_and_controls(
            b"\x02\x02",
            &mut state,
            true,
            &controls
        , 0),
        vec![LiveSnapshotInputAction::Forward(b"\x02\x02".to_vec())]
    );
}

#[test]
fn live_snapshot_input_selects_next_pane_on_prefix_o() {
    let mut state = LiveSnapshotInputState::default();

    let actions = translate_live_snapshot_input(b"\x02o", &mut state, 0);

    assert_eq!(actions, vec![LiveSnapshotInputAction::SelectNextPane]);
    assert!(!state.saw_prefix);
}

#[test]
fn live_snapshot_input_uses_prefix_arrow_keys_for_pane_focus() {
    let cases = [
        (b"\x02\x1b[D".as_slice(), PaneCommand::FocusLeft),
        (b"\x02\x1b[B".as_slice(), PaneCommand::FocusDown),
        (b"\x02\x1b[A".as_slice(), PaneCommand::FocusUp),
        (b"\x02\x1b[C".as_slice(), PaneCommand::FocusRight),
    ];

    for (input, command) in cases {
        let mut state = LiveSnapshotInputState::default();
        assert_eq!(
            translate_live_snapshot_input(input, &mut state, 0),
            vec![LiveSnapshotInputAction::PaneCommand(command)]
        );
        assert!(!state.saw_prefix);
    }
}

#[test]
fn live_snapshot_input_uses_alt_keys_for_pane_focus_without_prefix() {
    let cases = [
        (b"\x1bh".as_slice(), PaneCommand::FocusLeft),
        (b"\x1bj".as_slice(), PaneCommand::FocusDown),
        (b"\x1bk".as_slice(), PaneCommand::FocusUp),
        (b"\x1bl".as_slice(), PaneCommand::FocusRight),
        (b"\x1b[1;3D".as_slice(), PaneCommand::FocusLeft),
        (b"\x1b[1;3B".as_slice(), PaneCommand::FocusDown),
        (b"\x1b[1;3A".as_slice(), PaneCommand::FocusUp),
        (b"\x1b[1;3C".as_slice(), PaneCommand::FocusRight),
    ];

    for (input, command) in cases {
        let mut state = LiveSnapshotInputState::default();
        assert_eq!(
            translate_live_snapshot_input(input, &mut state, 0),
            vec![LiveSnapshotInputAction::PaneCommand(command)]
        );
        assert!(!state.saw_prefix);
    }
}

#[test]
fn live_snapshot_input_uses_prefix_ctrl_arrow_keys_for_fine_resize() {
    let cases = [
        (
            b"\x02\x1b[1;5D".as_slice(),
            PaneResizeDirection::Left,
        ),
        (
            b"\x02\x1b[1;5B".as_slice(),
            PaneResizeDirection::Down,
        ),
        (
            b"\x02\x1b[1;5A".as_slice(),
            PaneResizeDirection::Up,
        ),
        (
            b"\x02\x1b[1;5C".as_slice(),
            PaneResizeDirection::Right,
        ),
    ];

    for (input, direction) in cases {
        let mut state = LiveSnapshotInputState::default();
        assert_eq!(
            translate_live_snapshot_input(input, &mut state, 0),
            vec![LiveSnapshotInputAction::PaneCommand(PaneCommand::Resize {
                direction,
                amount: 1,
            })]
        );
        assert!(!state.saw_prefix);
    }
}

#[test]
fn live_snapshot_input_shows_pane_numbers_on_prefix_q() {
    let mut state = LiveSnapshotInputState::default();

    let actions = translate_live_snapshot_input(b"\x02q", &mut state, 0);

    assert_eq!(actions, vec![LiveSnapshotInputAction::ShowPaneNumbers]);
    assert!(state.selecting_pane);
}

#[test]
fn live_snapshot_input_selects_numbered_pane_after_prefix_q_across_reads() {
    let mut state = LiveSnapshotInputState::default();

    assert_eq!(
        translate_live_snapshot_input(b"\x02q", &mut state, 0),
        vec![LiveSnapshotInputAction::ShowPaneNumbers]
    );
    let actions = translate_live_snapshot_input(b"0", &mut state, 0);

    assert_eq!(actions, vec![LiveSnapshotInputAction::SelectPane(0)]);
    assert!(!state.selecting_pane);
}

#[test]
fn live_snapshot_input_preserves_order_for_coalesced_number_selection() {
    let mut state = LiveSnapshotInputState::default();

    let actions = translate_live_snapshot_input(b"abc\x02q0def", &mut state, 0);

    assert_eq!(
        actions,
        vec![
            LiveSnapshotInputAction::Forward(b"abc".to_vec()),
            LiveSnapshotInputAction::ShowPaneNumbers,
            LiveSnapshotInputAction::SelectPane(0),
            LiveSnapshotInputAction::Forward(b"def".to_vec()),
        ]
    );
    assert!(!state.selecting_pane);
}

#[test]
fn live_snapshot_input_cancels_number_selection_on_non_digit() {
    let mut state = LiveSnapshotInputState::default();

    assert_eq!(
        translate_live_snapshot_input(b"\x02q", &mut state, 0),
        vec![LiveSnapshotInputAction::ShowPaneNumbers]
    );
    let actions = translate_live_snapshot_input(b"x", &mut state, 0);

    assert_eq!(
        actions,
        vec![LiveSnapshotInputAction::Forward(b"x".to_vec())]
    );
    assert!(!state.selecting_pane);
}

#[test]
fn live_snapshot_input_enters_copy_mode_on_prefix_bracket() {
    let mut state = LiveSnapshotInputState::default();

    let actions = translate_live_snapshot_input(b"\x02[", &mut state, 0);

    assert_eq!(
        actions,
        vec![LiveSnapshotInputAction::EnterCopyMode {
            initial_input: Vec::new(),
        }]
    );
    assert!(!state.saw_prefix);
}

#[test]
fn live_snapshot_input_dispatches_prefix_colon_command_prompt() {
    let mut state = LiveSnapshotInputState::default();

    let actions = translate_live_snapshot_input(b"\x02:rename-window work\r", &mut state, 0);

    assert_eq!(
        actions.first(),
        Some(&LiveSnapshotInputAction::CommandPromptStart)
    );
    assert!(
        actions.contains(&LiveSnapshotInputAction::CommandPromptUpdate(
            "rename-window work".to_string()
        ))
    );
    assert_eq!(
        actions.last(),
        Some(&LiveSnapshotInputAction::CommandPromptDispatch {
            command: "rename-window work".to_string(),
            trailing_input: Vec::new(),
        })
    );
    assert!(state.command_prompt.is_none());
}

#[test]
fn live_snapshot_command_prompt_dispatch_preserves_trailing_input_for_reparse() {
    let mut state = LiveSnapshotInputState::default();
    let controls = LiveControls::from_entries(
        "C-b",
        vec![
            KeyBinding {
                key: ":".to_string(),
                command: "command-prompt".to_string(),
            },
            KeyBinding {
                key: "%".to_string(),
                command: "split-window -h".to_string(),
            },
        ],
    );

    let actions = translate_live_snapshot_input_with_mouse_and_controls(
        b"\x02:set-option prefix C-a\n\x01%",
        &mut state,
        true,
        &controls, 0,
    );

    assert_eq!(
        actions.last(),
        Some(&LiveSnapshotInputAction::CommandPromptDispatch {
            command: "set-option prefix C-a".to_string(),
            trailing_input: b"\x01%".to_vec(),
        })
    );

    let updated_controls = LiveControls::from_entries(
        "C-a",
        vec![KeyBinding {
            key: "%".to_string(),
            command: "split-window -h".to_string(),
        }],
    );
    assert_eq!(
        translate_live_snapshot_input_with_mouse_and_controls(
            b"\x01%",
            &mut state,
            true,
            &updated_controls, 0,
        ),
        vec![LiveSnapshotInputAction::PaneCommand(
            PaneCommand::SplitRight
        )]
    );
}

#[test]
fn live_snapshot_input_forwards_drag_release_and_wheel_mouse_events() {
    let mut state = LiveSnapshotInputState::default();

    assert_eq!(
        translate_live_snapshot_input_with_mouse(
            b"\x1b[<32;2;3M\x1b[<0;2;3m\x1b[<64;2;3M",
            &mut state,
            true, 0,
        ),
        vec![LiveSnapshotInputAction::Forward(
            b"\x1b[<32;2;3M\x1b[<0;2;3m\x1b[<64;2;3M".to_vec()
        )]
    );
}

#[test]
fn live_snapshot_input_passes_coalesced_copy_mode_keys_as_initial_input() {
    let mut state = LiveSnapshotInputState::default();

    let actions = translate_live_snapshot_input(b"\x02[y", &mut state, 0);

    assert_eq!(
        actions,
        vec![LiveSnapshotInputAction::EnterCopyMode {
            initial_input: vec![b'y'],
        }]
    );
    assert!(!state.saw_prefix);
}

#[test]
fn live_snapshot_input_forwards_bytes_before_copy_mode_prefix() {
    let mut state = LiveSnapshotInputState::default();

    let actions = translate_live_snapshot_input(b"abc\x02[y", &mut state, 0);

    assert_eq!(
        actions,
        vec![
            LiveSnapshotInputAction::Forward(b"abc".to_vec()),
            LiveSnapshotInputAction::EnterCopyMode {
                initial_input: vec![b'y'],
            },
        ]
    );
    assert!(!state.saw_prefix);
}

#[test]
fn live_snapshot_input_preserves_order_when_prefix_o_shares_a_read() {
    let mut state = LiveSnapshotInputState::default();

    let actions = translate_live_snapshot_input(b"abc\x02odef", &mut state, 0);

    assert_eq!(
        actions,
        vec![
            LiveSnapshotInputAction::Forward(b"abc".to_vec()),
            LiveSnapshotInputAction::SelectNextPane,
            LiveSnapshotInputAction::Forward(b"def".to_vec()),
        ]
    );
    assert!(!state.saw_prefix);
}

#[test]
fn attach_input_translates_pane_commands() {
    let cases = [
        (b'c', PaneCommand::NewWindow),
        (b'n', PaneCommand::NextWindow),
        (b'p', PaneCommand::PreviousWindow),
        (b'%', PaneCommand::SplitRight),
        (b'"', PaneCommand::SplitDown),
        (b'h', PaneCommand::FocusLeft),
        (b'j', PaneCommand::FocusDown),
        (b'k', PaneCommand::FocusUp),
        (b'l', PaneCommand::FocusRight),
        (b'x', PaneCommand::Close),
        (b'z', PaneCommand::ToggleZoom),
    ];

    for (key, command) in cases {
        assert_eq!(
            translate_attach_input(&[0x02, key], &mut false, 0),
            vec![AttachInputAction::PaneCommand(command)]
        );
    }
}

#[test]
fn attach_input_uses_prefix_arrow_keys_for_pane_focus() {
    let cases = [
        (b"\x02\x1b[D".as_slice(), PaneCommand::FocusLeft),
        (b"\x02\x1b[B".as_slice(), PaneCommand::FocusDown),
        (b"\x02\x1b[A".as_slice(), PaneCommand::FocusUp),
        (b"\x02\x1b[C".as_slice(), PaneCommand::FocusRight),
    ];

    for (input, command) in cases {
        assert_eq!(
            translate_attach_input(input, &mut false, 0),
            vec![AttachInputAction::PaneCommand(command)]
        );
    }
}

#[test]
fn attach_input_uses_alt_keys_for_pane_focus_without_prefix() {
    let cases = [
        (b"\x1bh".as_slice(), PaneCommand::FocusLeft),
        (b"\x1bj".as_slice(), PaneCommand::FocusDown),
        (b"\x1bk".as_slice(), PaneCommand::FocusUp),
        (b"\x1bl".as_slice(), PaneCommand::FocusRight),
        (b"\x1b[1;3D".as_slice(), PaneCommand::FocusLeft),
        (b"\x1b[1;3B".as_slice(), PaneCommand::FocusDown),
        (b"\x1b[1;3A".as_slice(), PaneCommand::FocusUp),
        (b"\x1b[1;3C".as_slice(), PaneCommand::FocusRight),
    ];

    for (input, command) in cases {
        assert_eq!(
            translate_attach_input(input, &mut false, 0),
            vec![AttachInputAction::PaneCommand(command)]
        );
    }
}

#[test]
fn attach_input_dispatches_prefix_colon_command_prompt() {
    let mut state = RawAttachInputState::default();
    let actions = translate_attach_input_with_state(b"\x02:select-window 1\n", &mut state, 0);

    assert_eq!(
        actions.first(),
        Some(&AttachInputAction::CommandPromptStart)
    );
    assert!(actions.contains(&AttachInputAction::CommandPromptUpdate(
        "select-window 1".to_string()
    )));
    assert_eq!(
        actions.last(),
        Some(&AttachInputAction::CommandPromptDispatch {
            command: "select-window 1".to_string(),
            trailing_input: Vec::new(),
        })
    );
    assert!(state.command_prompt.is_none());
}

#[test]
fn attach_command_prompt_dispatch_preserves_trailing_input_for_reparse() {
    let mut state = RawAttachInputState::default();
    let controls = LiveControls::from_entries(
        "C-b",
        vec![
            KeyBinding {
                key: ":".to_string(),
                command: "command-prompt".to_string(),
            },
            KeyBinding {
                key: "%".to_string(),
                command: "split-window -h".to_string(),
            },
        ],
    );

    let actions = translate_attach_input_with_state_with_controls(
        b"\x02:set-option prefix C-a\n\x01%",
        &mut state,
        &controls, 0,
    );

    assert_eq!(
        actions.last(),
        Some(&AttachInputAction::CommandPromptDispatch {
            command: "set-option prefix C-a".to_string(),
            trailing_input: b"\x01%".to_vec(),
        })
    );
}

#[test]
fn attach_command_prompt_drops_mouse_sequence_on_cancel() {
    let mut state = RawAttachInputState::default();

    assert_eq!(
        translate_attach_input_with_state(b"\x02:", &mut state, 0),
        vec![AttachInputAction::CommandPromptStart]
    );
    assert_eq!(
        translate_attach_input_with_state(b"\x1b[<0;12;3M", &mut state, 0),
        vec![AttachInputAction::CommandPromptCancel]
    );
    assert!(state.command_prompt.is_none());
    assert!(state.mouse_pending.is_empty());
}

#[test]
fn attach_command_prompt_buffers_split_mouse_sequence_before_cancel() {
    let mut state = RawAttachInputState::default();

    assert_eq!(
        translate_attach_input_with_state(b"\x02:", &mut state, 0),
        vec![AttachInputAction::CommandPromptStart]
    );
    assert!(translate_attach_input_with_state(b"\x1b[<0;12", &mut state, 0).is_empty());
    assert!(state.command_prompt.is_some());
    assert!(!state.mouse_pending.is_empty());
    assert_eq!(
        translate_attach_input_with_state(b";3M", &mut state, 0),
        vec![AttachInputAction::CommandPromptCancel]
    );
    assert!(state.command_prompt.is_none());
    assert!(state.mouse_pending.is_empty());
}

#[test]
fn attach_command_prompt_buffers_mouse_sequence_split_after_escape() {
    let mut state = RawAttachInputState::default();

    assert_eq!(
        translate_attach_input_with_state(b"\x02:", &mut state, 0),
        vec![AttachInputAction::CommandPromptStart]
    );
    assert!(translate_attach_input_with_state(b"\x1b", &mut state, 0).is_empty());
    assert!(state.command_prompt.is_some());
    assert_eq!(
        translate_attach_input_with_state(b"[<0;12;3M", &mut state, 0),
        vec![AttachInputAction::CommandPromptCancel]
    );
    assert!(state.command_prompt.is_none());
    assert!(state.mouse_pending.is_empty());
}

#[test]
fn attach_command_prompt_drops_csi_sequence_on_cancel() {
    let mut state = RawAttachInputState::default();

    assert_eq!(
        translate_attach_input_with_state(b"\x02:", &mut state, 0),
        vec![AttachInputAction::CommandPromptStart]
    );
    assert_eq!(
        translate_attach_input_with_state(b"\x1b[D", &mut state, 0),
        vec![AttachInputAction::CommandPromptCancel]
    );
    assert!(state.command_prompt.is_none());
    assert!(state.mouse_pending.is_empty());
}

#[test]
fn attach_command_prompt_buffers_split_csi_sequence_before_cancel() {
    let mut state = RawAttachInputState::default();

    assert_eq!(
        translate_attach_input_with_state(b"\x02:", &mut state, 0),
        vec![AttachInputAction::CommandPromptStart]
    );
    assert!(translate_attach_input_with_state(b"\x1b[1", &mut state, 0).is_empty());
    assert!(state.command_prompt.is_some());
    assert!(!state.mouse_pending.is_empty());
    assert_eq!(
        translate_attach_input_with_state(b";5D", &mut state, 0),
        vec![AttachInputAction::CommandPromptCancel]
    );
    assert!(state.command_prompt.is_none());
    assert!(state.mouse_pending.is_empty());
}

#[test]
fn attach_command_prompt_buffers_csi_sequence_split_after_escape() {
    let mut state = RawAttachInputState::default();

    assert_eq!(
        translate_attach_input_with_state(b"\x02:", &mut state, 0),
        vec![AttachInputAction::CommandPromptStart]
    );
    assert!(translate_attach_input_with_state(b"\x1b", &mut state, 0).is_empty());
    assert!(state.command_prompt.is_some());
    assert_eq!(
        translate_attach_input_with_state(b"[D", &mut state, 0),
        vec![AttachInputAction::CommandPromptCancel]
    );
    assert!(state.command_prompt.is_none());
    assert!(state.mouse_pending.is_empty());
}

#[test]
fn attach_command_prompt_cancels_pending_escape_after_timeout() {
    let mut state = RawAttachInputState::default();

    assert_eq!(
        translate_attach_input_with_state(b"\x02:", &mut state, 0),
        vec![AttachInputAction::CommandPromptStart]
    );
    assert!(translate_attach_input_with_state(b"\x1b", &mut state, 0).is_empty());
    let pending_since = state
        .prompt_pending_since
        .expect("pending escape timestamp");
    assert_eq!(
        state.prompt_pending_timeout_action(pending_since + COPY_MODE_ESCAPE_DISAMBIGUATION_MS),
        Some(AttachInputAction::CommandPromptCancel)
    );
    assert!(state.command_prompt.is_none());
    assert!(state.mouse_pending.is_empty());
}

#[test]
fn attach_input_preserves_forwarded_bytes_before_pane_command() {
    let actions = translate_attach_input(b"abc\x02%def", &mut false, 0);

    assert_eq!(
        actions,
        vec![
            AttachInputAction::Forward(b"abc".to_vec()),
            AttachInputAction::PaneCommand(PaneCommand::SplitRight),
            AttachInputAction::Forward(b"def".to_vec()),
        ]
    );
}

#[test]
fn attach_input_sends_literal_prefix_without_retaining_prefix() {
    let actions = translate_attach_input(b"\x02\x02d", &mut false, 0);

    assert_eq!(actions, vec![AttachInputAction::Forward(b"\x02d".to_vec())]);
}

#[test]
fn attach_input_uses_bound_send_prefix_action() {
    let mut state = RawAttachInputState::default();
    let controls = LiveControls::from_entries(
        "C-a",
        vec![KeyBinding {
            key: "x".to_string(),
            command: "send-prefix".to_string(),
        }],
    );

    let actions =
        translate_attach_input_with_state_with_controls(b"\x01x", &mut state, &controls, 0);

    assert_eq!(actions, vec![AttachInputAction::Forward(vec![0x01])]);
}

#[test]
fn attach_input_unbound_prefix_key_forwards_prefix_and_key() {
    let mut state = RawAttachInputState::default();
    let controls = LiveControls::from_entries("C-b", Vec::new());

    let actions =
        translate_attach_input_with_state_with_controls(b"\x02\x02", &mut state, &controls, 0);

    assert_eq!(
        actions,
        vec![AttachInputAction::Forward(b"\x02\x02".to_vec())]
    );
    assert!(!state.saw_prefix);
}

#[test]
fn attach_input_consumes_select_next_prefix_without_forwarding() {
    let actions = translate_attach_input(b"\x02o", &mut false, 0);

    assert_eq!(actions, vec![AttachInputAction::SelectNextPane]);
}

#[test]
fn attach_input_consumes_pane_number_selection_without_forwarding() {
    let actions = translate_attach_input(b"\x02q0", &mut false, 0);

    assert_eq!(
        actions,
        vec![
            AttachInputAction::ShowPaneNumbers,
            AttachInputAction::SelectPane(0)
        ]
    );
}

#[test]
fn attach_input_selects_numbered_pane_after_prefix_q_across_reads() {
    let mut state = RawAttachInputState::default();

    assert_eq!(
        translate_attach_input_with_state(b"\x02q", &mut state, 0),
        vec![AttachInputAction::ShowPaneNumbers]
    );
    assert_eq!(
        translate_attach_input_with_state(b"0", &mut state, 0),
        vec![AttachInputAction::SelectPane(0)]
    );
}

#[test]
fn raw_pending_input_preserves_focus_commands_after_layout_transition() {
    let pending = raw_pending_input(
        &[
            AttachInputAction::PaneCommand(PaneCommand::FocusLeft),
            AttachInputAction::PaneCommand(PaneCommand::FocusRight),
            AttachInputAction::Forward(b"tail".to_vec()),
        ],
        false,
        RawPendingFocus::Preserve,
        &LiveControls::default(),
    );

    assert_eq!(pending, b"\x02h\x02ltail");
}

#[test]
fn raw_pending_input_preserves_focus_commands_after_zoom_transition() {
    let pending = raw_pending_input(
        &[
            AttachInputAction::PaneCommand(PaneCommand::FocusLeft),
            AttachInputAction::Forward(b"tail".to_vec()),
        ],
        false,
        RawPendingFocus::Preserve,
        &LiveControls::default(),
    );

    assert_eq!(pending, b"\x02htail");
}

#[test]
fn raw_pending_input_uses_custom_prefix_and_rebound_keys() {
    let controls = LiveControls::from_entries(
        "C-a",
        vec![
            KeyBinding {
                key: "m".to_string(),
                command: "new-window".to_string(),
            },
            KeyBinding {
                key: "s".to_string(),
                command: "split-window -h".to_string(),
            },
        ],
    );
    let actions = translate_attach_input_with_state_with_controls(
        b"\x01m\x01s",
        &mut RawAttachInputState::default(),
        &controls, 0,
    );
    assert_eq!(
        actions,
        vec![
            AttachInputAction::PaneCommand(PaneCommand::NewWindow),
            AttachInputAction::PaneCommand(PaneCommand::SplitRight),
        ]
    );

    let pending = raw_pending_input(&actions[1..], false, RawPendingFocus::Preserve, &controls);

    assert_eq!(pending, b"\x01s");
}

#[test]
fn raw_pending_input_preserves_trailing_prefix_after_layout_transition() {
    let pending = raw_pending_input(&[], true, RawPendingFocus::Drop, &LiveControls::default());

    assert_eq!(pending, b"\x02");
}

#[test]
fn live_snapshot_input_translates_pane_commands() {
    let cases = [
        (b'%', PaneCommand::SplitRight),
        (b'"', PaneCommand::SplitDown),
        (b'h', PaneCommand::FocusLeft),
        (b'j', PaneCommand::FocusDown),
        (b'k', PaneCommand::FocusUp),
        (b'l', PaneCommand::FocusRight),
        (b'x', PaneCommand::Close),
        (b'z', PaneCommand::ToggleZoom),
    ];

    for (key, command) in cases {
        let mut state = LiveSnapshotInputState::default();
        let actions = translate_live_snapshot_input(&[0x02, key], &mut state, 0);

        assert_eq!(actions, vec![LiveSnapshotInputAction::PaneCommand(command)]);
        assert!(!state.saw_prefix);
    }
}

#[test]
fn live_snapshot_input_preserves_forwarded_bytes_before_pane_command() {
    let mut state = LiveSnapshotInputState::default();

    let actions = translate_live_snapshot_input(b"abc\x02ldef", &mut state, 0);

    assert_eq!(
        actions,
        vec![
            LiveSnapshotInputAction::Forward(b"abc".to_vec()),
            LiveSnapshotInputAction::PaneCommand(PaneCommand::FocusRight),
            LiveSnapshotInputAction::Forward(b"def".to_vec()),
        ]
    );
    assert!(!state.saw_prefix);
}

#[test]
fn live_snapshot_command_prompt_drops_mouse_sequence_on_cancel() {
    let mut state = LiveSnapshotInputState::default();

    assert_eq!(
        translate_live_snapshot_input(b"\x02:", &mut state, 0),
        vec![LiveSnapshotInputAction::CommandPromptStart]
    );
    assert_eq!(
        translate_live_snapshot_input(b"\x1b[<0;12;3M", &mut state, 0),
        vec![LiveSnapshotInputAction::CommandPromptCancel]
    );
    assert!(state.command_prompt.is_none());
    assert!(state.mouse_pending.is_empty());
}

#[test]
fn live_snapshot_command_prompt_buffers_split_mouse_sequence_before_cancel() {
    let mut state = LiveSnapshotInputState::default();

    assert_eq!(
        translate_live_snapshot_input(b"\x02:", &mut state, 0),
        vec![LiveSnapshotInputAction::CommandPromptStart]
    );
    assert!(translate_live_snapshot_input(b"\x1b[<0;12", &mut state, 0).is_empty());
    assert!(state.command_prompt.is_some());
    assert!(!state.mouse_pending.is_empty());
    assert_eq!(
        translate_live_snapshot_input(b";3M", &mut state, 0),
        vec![LiveSnapshotInputAction::CommandPromptCancel]
    );
    assert!(state.command_prompt.is_none());
    assert!(state.mouse_pending.is_empty());
}

#[test]
fn live_snapshot_command_prompt_buffers_mouse_sequence_split_after_escape() {
    let mut state = LiveSnapshotInputState::default();

    assert_eq!(
        translate_live_snapshot_input(b"\x02:", &mut state, 0),
        vec![LiveSnapshotInputAction::CommandPromptStart]
    );
    assert!(translate_live_snapshot_input(b"\x1b", &mut state, 0).is_empty());
    assert!(state.command_prompt.is_some());
    assert_eq!(
        translate_live_snapshot_input(b"[<0;12;3M", &mut state, 0),
        vec![LiveSnapshotInputAction::CommandPromptCancel]
    );
    assert!(state.command_prompt.is_none());
    assert!(state.mouse_pending.is_empty());
}

#[test]
fn live_snapshot_command_prompt_drops_csi_sequence_on_cancel() {
    let mut state = LiveSnapshotInputState::default();

    assert_eq!(
        translate_live_snapshot_input(b"\x02:", &mut state, 0),
        vec![LiveSnapshotInputAction::CommandPromptStart]
    );
    assert_eq!(
        translate_live_snapshot_input(b"\x1b[D", &mut state, 0),
        vec![LiveSnapshotInputAction::CommandPromptCancel]
    );
    assert!(state.command_prompt.is_none());
    assert!(state.mouse_pending.is_empty());
}

#[test]
fn live_snapshot_command_prompt_buffers_split_csi_sequence_before_cancel() {
    let mut state = LiveSnapshotInputState::default();

    assert_eq!(
        translate_live_snapshot_input(b"\x02:", &mut state, 0),
        vec![LiveSnapshotInputAction::CommandPromptStart]
    );
    assert!(translate_live_snapshot_input(b"\x1b[1", &mut state, 0).is_empty());
    assert!(state.command_prompt.is_some());
    assert!(!state.mouse_pending.is_empty());
    assert_eq!(
        translate_live_snapshot_input(b";5D", &mut state, 0),
        vec![LiveSnapshotInputAction::CommandPromptCancel]
    );
    assert!(state.command_prompt.is_none());
    assert!(state.mouse_pending.is_empty());
}

#[test]
fn live_snapshot_command_prompt_buffers_csi_sequence_split_after_escape() {
    let mut state = LiveSnapshotInputState::default();

    assert_eq!(
        translate_live_snapshot_input(b"\x02:", &mut state, 0),
        vec![LiveSnapshotInputAction::CommandPromptStart]
    );
    assert!(translate_live_snapshot_input(b"\x1b", &mut state, 0).is_empty());
    assert!(state.command_prompt.is_some());
    assert_eq!(
        translate_live_snapshot_input(b"[D", &mut state, 0),
        vec![LiveSnapshotInputAction::CommandPromptCancel]
    );
    assert!(state.command_prompt.is_none());
    assert!(state.mouse_pending.is_empty());
}

#[test]
fn live_snapshot_command_prompt_cancels_pending_escape_after_timeout() {
    let mut state = LiveSnapshotInputState::default();

    assert_eq!(
        translate_live_snapshot_input(b"\x02:", &mut state, 0),
        vec![LiveSnapshotInputAction::CommandPromptStart]
    );
    assert!(translate_live_snapshot_input(b"\x1b", &mut state, 0).is_empty());
    let pending_since = state
        .prompt_pending_since
        .expect("pending escape timestamp");
    assert_eq!(
        state.prompt_pending_timeout_action(pending_since + COPY_MODE_ESCAPE_DISAMBIGUATION_MS),
        Some(LiveSnapshotInputAction::CommandPromptCancel)
    );
    assert!(state.command_prompt.is_none());
    assert!(state.mouse_pending.is_empty());
}

#[test]
fn live_snapshot_input_flushes_pending_prefix_on_eof() {
    let mut state = LiveSnapshotInputState {
        saw_prefix: true,
        selecting_pane: false,
        command_prompt: None,
        mouse_pending: Vec::new(),
        prompt_pending_since: None,
    };

    let pending = finish_live_snapshot_input(&mut state);

    assert_eq!(pending, Some(vec![0x02]));
    assert!(!state.saw_prefix);
}

#[test]
fn attach_input_dispatches_copy_mode_prefix_without_forwarding_bytes() {
    let actions = translate_attach_input(b"\x02[", &mut false, 0);

    assert_eq!(
        actions,
        vec![AttachInputAction::EnterCopyMode {
            initial_input: Vec::new(),
        }]
    );
}

#[test]
fn attach_input_shows_help_on_prefix_question() {
    let actions = translate_attach_input(b"\x02?", &mut false, 0);

    assert_eq!(actions, vec![AttachInputAction::ShowHelp]);
}

#[test]
fn attach_input_detaches_on_prefix_d_without_forwarding_bytes() {
    let actions = translate_attach_input(b"\x02d", &mut false, 0);

    assert_eq!(actions, vec![AttachInputAction::Detach]);
}

#[test]
fn attach_input_detaches_on_prefix_uppercase_d() {
    let actions = translate_attach_input(b"\x02D", &mut false, 0);

    assert_eq!(actions, vec![AttachInputAction::Detach]);
}

#[test]
fn attach_input_passes_coalesced_copy_mode_keys_as_initial_input() {
    let actions = translate_attach_input(b"\x02[y", &mut false, 0);

    assert_eq!(
        actions,
        vec![AttachInputAction::EnterCopyMode {
            initial_input: vec![b'y'],
        }]
    );
}

#[test]
fn attach_input_preserves_order_when_prefix_question_shares_a_read() {
    let actions = translate_attach_input(b"abc\x02?def", &mut false, 0);

    assert_eq!(
        actions,
        vec![
            AttachInputAction::Forward(b"abc".to_vec()),
            AttachInputAction::ShowHelp,
            AttachInputAction::Forward(b"def".to_vec()),
        ]
    );
}

#[test]
fn attach_input_reports_command_prompt_updates() {
    let mut state = RawAttachInputState::default();

    let actions = translate_attach_input_with_state(b"\x02:abc\x7fd", &mut state, 0);

    assert_eq!(
        actions,
        vec![
            AttachInputAction::CommandPromptStart,
            AttachInputAction::CommandPromptUpdate("a".to_string()),
            AttachInputAction::CommandPromptUpdate("ab".to_string()),
            AttachInputAction::CommandPromptUpdate("abc".to_string()),
            AttachInputAction::CommandPromptUpdate("ab".to_string()),
            AttachInputAction::CommandPromptUpdate("abd".to_string()),
        ]
    );
    assert_eq!(state.command_prompt, Some(b"abd".to_vec()));
}

#[test]
fn live_snapshot_input_shows_help_on_prefix_question() {
    let mut state = LiveSnapshotInputState::default();

    let actions = translate_live_snapshot_input(b"\x02?", &mut state, 0);

    assert_eq!(actions, vec![LiveSnapshotInputAction::ShowHelp]);
    assert!(!state.saw_prefix);
}

#[test]
fn live_snapshot_input_preserves_order_when_prefix_question_shares_a_read() {
    let mut state = LiveSnapshotInputState::default();

    let actions = translate_live_snapshot_input(b"abc\x02?def", &mut state, 0);

    assert_eq!(
        actions,
        vec![
            LiveSnapshotInputAction::Forward(b"abc".to_vec()),
            LiveSnapshotInputAction::ShowHelp,
            LiveSnapshotInputAction::Forward(b"def".to_vec()),
        ]
    );
    assert!(!state.saw_prefix);
}

