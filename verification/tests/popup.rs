#![allow(unused_imports, dead_code)]

use dmux::popup::{
    filter_rows, group_rows, pad_title, render_peek_text, render_popup_text, render_popup_view,
    PopupCloseResult, PopupGrouping, PopupMode, PopupModel, PopupRow, PopupRowKind,
    PopupRowSource, PopupState, PopupStateKind, PopupTarget,
};


fn row(id: &str, title: &str, kind: PopupRowKind) -> PopupRow {
    PopupRow {
        id: id.to_string(),
        kind,
        repo_path: None,
        target: Some(PopupTarget {
            session: "dev".to_string(),
            window_index: Some(0),
            window_id: Some(0),
            pane_index: Some(0),
            pane_id: Some(0),
        }),
        state: PopupStateKind::Working,
        source: PopupRowSource::Mux,
        title: title.to_string(),
        summary: String::new(),
        last_changed: None,
        attachable: kind == PopupRowKind::Item,
        pinned: false,
    }
}

#[test]
fn selection_skips_headers() {
    let model = PopupModel::new(vec![
        row("h", "Working", PopupRowKind::Header),
        row("a", "alpha", PopupRowKind::Item),
        row("b", "beta", PopupRowKind::Item),
    ]);
    let mut state = PopupState::new(PopupMode::Tree);

    state.ensure_selection(&model);
    assert_eq!(state.selected.as_deref(), Some("a"));

    state.move_selection(&model, 1);
    assert_eq!(state.selected.as_deref(), Some("b"));

    state.move_selection(&model, -1);
    assert_eq!(state.selected.as_deref(), Some("a"));
}

#[test]
fn filtering_keeps_headers_and_matching_items() {
    let rows = vec![
        row("h", "Working", PopupRowKind::Header),
        row("a", "alpha api", PopupRowKind::Item),
        row("b", "beta ui", PopupRowKind::Item),
    ];

    let filtered = filter_rows(&rows, "api");
    assert_eq!(
        filtered
            .iter()
            .map(|row| row.id.as_str())
            .collect::<Vec<_>>(),
        vec!["h", "a"]
    );
}

#[test]
fn filtering_drops_headers_with_no_matching_items() {
    let rows = vec![
        row("h1", "Working", PopupRowKind::Header),
        row("a", "alpha api", PopupRowKind::Item),
        row("h2", "Needs input", PopupRowKind::Header),
        row("b", "beta ui", PopupRowKind::Item),
    ];

    // "api" matches only the item under "Working"; the "Needs input" header
    // must not survive as an orphan with no rows beneath it.
    let filtered = filter_rows(&rows, "api");
    assert_eq!(
        filtered
            .iter()
            .map(|row| row.id.as_str())
            .collect::<Vec<_>>(),
        vec!["h1", "a"]
    );
}

#[test]
fn attention_grouping_orders_rows_by_state_priority() {
    let mut working = row("working", "working row", PopupRowKind::Item);
    working.state = PopupStateKind::Working;
    let mut needs = row("needs", "needs row", PopupRowKind::Item);
    needs.state = PopupStateKind::NeedsInput;

    let grouped = group_rows(vec![working, needs], PopupGrouping::Attention);

    assert_eq!(
        grouped
            .rows
            .iter()
            .map(|row| (row.kind, row.title.as_str()))
            .collect::<Vec<_>>(),
        vec![
            (PopupRowKind::Header, "Needs input"),
            (PopupRowKind::Item, "needs row"),
            (PopupRowKind::Header, "Working"),
            (PopupRowKind::Item, "working row"),
        ]
    );
}

#[test]
fn render_marks_selected_row_and_footer() {
    let model = PopupModel::new(vec![
        row("h", "Working", PopupRowKind::Header),
        row("a", "alpha", PopupRowKind::Item),
    ]);
    let mut state = PopupState::new(PopupMode::Tree);
    state.selected = Some("a".to_string());

    let text = render_popup_text(&state, &model, None);

    assert!(text.contains("Working"));
    assert!(
        text.contains("> *"),
        "selected marker + state glyph: {text}"
    );
    assert!(text.contains("alpha"), "{text}");
    assert!(text.contains("Enter: focus/attach"));
}

#[test]
fn pad_title_aligns_short_titles_and_preserves_long_ones() {
    assert_eq!(pad_title("abc", 6), "abc   ");
    assert_eq!(pad_title("abcdef", 6), "abcdef");
    // Longer than the column: left intact, never truncated.
    assert_eq!(pad_title("abcdefgh", 6), "abcdefgh");
    // CJK glyphs are two cells wide.
    assert_eq!(pad_title("한국", 6), "한국  ");
}

#[test]
fn render_disabled_item_shows_flag_column() {
    let model = PopupModel::new(vec![row("a", "alpha", PopupRowKind::DisabledItem)]);
    let mut state = PopupState::new(PopupMode::Workspace);
    state.selected = Some("a".to_string());

    let text = render_popup_text(&state, &model, None);

    assert!(
        text.contains("> * d"),
        "disabled flag in the flag column: {text}"
    );
    assert!(!text.contains("disabled"), "no English flag words: {text}");
}

#[test]
fn render_popup_view_reports_focus_line_and_pinned_tail() {
    let model = PopupModel::new(vec![
        row("h", "Working", PopupRowKind::Header),
        row("a", "alpha", PopupRowKind::Item),
        row("b", "beta", PopupRowKind::Item),
    ]);
    let mut state = PopupState::new(PopupMode::Attention);
    state.selected = Some("b".to_string());

    let view = render_popup_view(&state, &model, None);

    // lines: [header, alpha, beta, footer]; "beta" is the 3rd line (index 2).
    assert_eq!(view.focus_line, Some(2));
    // Only the footer is pinned when there is no peek or sub-mode prompt.
    assert_eq!(view.pinned_tail, 1);
    assert!(
        view.lines.last().unwrap().contains("Esc: close"),
        "{view:?}"
    );
}

#[test]
fn render_popup_view_pins_peek_and_prompt_chrome() {
    let model = PopupModel::new(vec![row("a", "alpha", PopupRowKind::Item)]);
    let mut state = PopupState::new(PopupMode::Attention);
    state.selected = Some("a".to_string());
    state.reply_mode = true;
    state.reply_text = "hi".to_string();

    let view = render_popup_view(&state, &model, Some("line1\nline2"));

    // pinned tail = "Peek" + 2 capture lines + "Reply: hi" + footer = 5.
    assert_eq!(view.pinned_tail, 5);
    assert_eq!(view.focus_line, Some(0));
}

#[test]
fn render_popup_view_shows_filter_prompt_with_caret() {
    let model = PopupModel::new(vec![row("a", "alpha", PopupRowKind::Item)]);
    let mut state = PopupState::new(PopupMode::Attention);
    state.selected = Some("a".to_string());
    state.filter_mode = true;
    state.filter = "ap".to_string();

    let view = render_popup_view(&state, &model, None);

    assert!(
        view.lines.iter().any(|line| line == "Filter: ap|"),
        "filter prompt with caret: {view:?}"
    );
}

#[test]
fn render_popup_view_text_inputs_show_caret() {
    let model = PopupModel::new(vec![row("a", "alpha", PopupRowKind::Item)]);
    let mut state = PopupState::new(PopupMode::Workspace);
    state.selected = Some("a".to_string());
    state.rename_mode = true;
    state.rename_text = "new-name".to_string();

    let view = render_popup_view(&state, &model, None);

    assert!(
        view.lines.iter().any(|line| line == "Rename: new-name|"),
        "rename field with caret: {view:?}"
    );
}

#[test]
fn render_popup_view_rules_group_headers() {
    let model = PopupModel::new(vec![
        row("h", "Needs input", PopupRowKind::Header),
        row("a", "alpha", PopupRowKind::Item),
    ]);
    let mut state = PopupState::new(PopupMode::Attention);
    state.selected = Some("a".to_string());

    let view = render_popup_view(&state, &model, None);

    assert_eq!(view.lines[0], "── Needs input ──");
    // The item sits on the line after the ruled header.
    assert_eq!(view.focus_line, Some(1));
}

#[test]
fn render_marks_pinned_rows() {
    let mut pinned = row("a", "alpha", PopupRowKind::Item);
    pinned.pinned = true;
    let model = PopupModel::new(vec![pinned]);
    let mut state = PopupState::new(PopupMode::Workspace);
    state.selected = Some("a".to_string());

    let text = render_popup_text(&state, &model, None);

    assert!(text.contains("alpha"), "{text}");
    assert!(
        text.contains("> * p"),
        "pinned flag in the flag column: {text}"
    );
    assert!(!text.contains("pinned"), "no English flag words: {text}");
}

#[test]
fn attention_footer_omits_enter_action() {
    let model = PopupModel::new(vec![row("a", "alpha", PopupRowKind::Item)]);
    let mut state = PopupState::new(PopupMode::Attention);
    state.selected = Some("a".to_string());

    let text = render_popup_text(&state, &model, None);

    assert!(text.contains("Space: peek"));
    assert!(!text.contains("Enter: focus/attach"), "{text}");
}

#[test]
fn workspace_footer_shows_open_action() {
    let model = PopupModel::new(vec![row("a", "alpha", PopupRowKind::Item)]);
    let mut state = PopupState::new(PopupMode::Workspace);
    state.selected = Some("a".to_string());

    let text = render_popup_text(&state, &model, None);

    assert!(text.contains("Enter: focus/attach"), "{text}");
    assert!(text.contains("o: open"), "{text}");
}

#[test]
fn workspace_footer_splits_across_two_lines_without_truncation() {
    let model = PopupModel::new(vec![row("a", "alpha", PopupRowKind::Item)]);
    let mut state = PopupState::new(PopupMode::Workspace);
    state.selected = Some("a".to_string());

    let view = render_popup_view(&state, &model, None);

    // The footer wraps to two lines that each fit a typical popup width, with
    // the always-important Esc hint on the final line (never truncated).
    assert!(view.pinned_tail >= 2, "{view:?}");
    assert!(
        view.lines.last().unwrap().contains("Esc: close"),
        "{view:?}"
    );
    assert!(
        view.lines.iter().all(|line| line.chars().count() <= 78),
        "footer lines must fit a typical popup width: {view:?}"
    );
}

#[test]
fn tree_footer_shows_kill_action() {
    let model = PopupModel::new(vec![row("a", "pane 0", PopupRowKind::Item)]);
    let mut state = PopupState::new(PopupMode::Tree);
    state.selected = Some("a".to_string());

    let text = render_popup_text(&state, &model, None);

    assert!(text.contains("x: kill"), "{text}");
}

#[test]
fn tree_footer_shows_rename_window_action() {
    let model = PopupModel::new(vec![row("a", "pane 0", PopupRowKind::Item)]);
    let mut state = PopupState::new(PopupMode::Tree);
    state.selected = Some("a".to_string());

    let text = render_popup_text(&state, &model, None);

    assert!(text.contains("R: rename window"), "{text}");
}

#[test]
fn escape_closes_peek_before_popup() {
    let mut state = PopupState::new(PopupMode::Attention);
    state.peek = true;

    assert_eq!(state.close_or_clear(), PopupCloseResult::StayOpen);
    assert!(!state.peek);
    assert_eq!(state.close_or_clear(), PopupCloseResult::Close);
}

#[test]
fn escape_cancels_reply_before_closing_peek() {
    let mut state = PopupState::new(PopupMode::Attention);
    state.peek = true;
    state.reply_mode = true;
    state.reply_text = "hello".to_string();

    assert_eq!(state.close_or_clear(), PopupCloseResult::StayOpen);
    assert!(state.peek);
    assert!(!state.reply_mode);
    assert!(state.reply_text.is_empty());

    assert_eq!(state.close_or_clear(), PopupCloseResult::StayOpen);
    assert!(!state.peek);
}

#[test]
fn escape_cancels_confirm_before_closing_popup() {
    let mut state = PopupState::new(PopupMode::Workspace);
    state.confirm_mode = true;
    state.confirm_prompt = "kill session dev?".to_string();
    state.confirm_target = Some(PopupTarget {
        session: "dev".to_string(),
        window_index: None,
        window_id: None,
        pane_index: None,
        pane_id: None,
    });

    assert_eq!(state.close_or_clear(), PopupCloseResult::StayOpen);
    assert!(!state.confirm_mode);
    assert!(state.confirm_prompt.is_empty());
    assert!(state.confirm_target.is_none());

    assert_eq!(state.close_or_clear(), PopupCloseResult::Close);
}

#[test]
fn render_shows_confirm_prompt_when_confirming() {
    let model = PopupModel::new(vec![row("a", "alpha", PopupRowKind::Item)]);
    let mut state = PopupState::new(PopupMode::Workspace);
    state.selected = Some("a".to_string());
    state.confirm_mode = true;
    state.confirm_prompt = "kill session dev?".to_string();

    let text = render_popup_text(&state, &model, None);

    assert!(text.contains("kill session dev? (y/N)"), "{text}");
    assert!(text.contains("x: kill"), "{text}");
}

#[test]
fn escape_cancels_new_session_before_closing_popup() {
    let mut state = PopupState::new(PopupMode::Workspace);
    state.new_mode = true;
    state.new_text = "api".to_string();
    state.new_path = Some("/tmp/repo".to_string());

    assert_eq!(state.close_or_clear(), PopupCloseResult::StayOpen);
    assert!(!state.new_mode);
    assert!(state.new_text.is_empty());
    assert!(state.new_path.is_none());

    assert_eq!(state.close_or_clear(), PopupCloseResult::Close);
}

#[test]
fn render_shows_new_session_prompt_when_naming() {
    let model = PopupModel::new(vec![row("a", "alpha", PopupRowKind::Item)]);
    let mut state = PopupState::new(PopupMode::Workspace);
    state.selected = Some("a".to_string());
    state.new_mode = true;
    state.new_text = "api".to_string();

    let text = render_popup_text(&state, &model, None);

    assert!(text.contains("New session: api"), "{text}");
    assert!(text.contains("n: new"), "{text}");
}

#[test]
fn escape_cancels_rename_before_closing_popup() {
    let mut state = PopupState::new(PopupMode::Workspace);
    state.rename_mode = true;
    state.rename_text = "api".to_string();
    state.rename_target = Some(PopupTarget {
        session: "dev".to_string(),
        window_index: None,
        window_id: None,
        pane_index: None,
        pane_id: None,
    });

    assert_eq!(state.close_or_clear(), PopupCloseResult::StayOpen);
    assert!(!state.rename_mode);
    assert!(state.rename_text.is_empty());
    assert!(state.rename_target.is_none());

    assert_eq!(state.close_or_clear(), PopupCloseResult::Close);
}

#[test]
fn render_shows_rename_prompt_when_renaming() {
    let model = PopupModel::new(vec![row("a", "alpha", PopupRowKind::Item)]);
    let mut state = PopupState::new(PopupMode::Workspace);
    state.selected = Some("a".to_string());
    state.rename_mode = true;
    state.rename_text = "renamed".to_string();

    let text = render_popup_text(&state, &model, None);

    assert!(text.contains("Rename: renamed"), "{text}");
    assert!(text.contains("R: rename"), "{text}");
}

#[test]
fn render_shows_reply_prompt_when_replying_from_peek() {
    let model = PopupModel::new(vec![row("a", "alpha", PopupRowKind::Item)]);
    let mut state = PopupState::new(PopupMode::Attention);
    state.selected = Some("a".to_string());
    state.peek = true;
    state.reply_mode = true;
    state.reply_text = "hello".to_string();

    let text = render_popup_text(&state, &model, Some("session=dev"));

    assert!(text.contains("Peek"), "{text}");
    assert!(text.contains("Reply: hello"), "{text}");
    assert!(text.contains("r: reply"), "{text}");
}

#[test]
fn peek_text_is_bounded() {
    let long_capture = (0..100)
        .map(|index| format!("line {index}"))
        .collect::<Vec<_>>()
        .join("\n");

    let text = render_peek_text(
        "repo=/tmp/repo\nsession=dev\npane=1",
        &long_capture,
        40,
        8 * 1024,
    );

    assert!(text.contains("repo=/tmp/repo"), "{text}");
    assert!(text.contains("session=dev"), "{text}");
    assert!(text.contains("pane=1"), "{text}");
    assert!(text.contains("line 99"), "{text}");
    assert!(text.lines().count() <= 43, "{text}");
}
