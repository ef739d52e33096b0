use codex_providers::picker::{
    check_providers_available, effective_viewport_rows, filter_provider_indices,
    highlight_fuzzy_match, provider_entry_match_score, KeyOutcome, PickError, PickerKey,
    PickerKeyCode, ProviderEntry, ProviderPicker, SegmentStyle,
};

fn entry(id: &str, name: &str) -> ProviderEntry {
    ProviderEntry {
        id: id.to_string(),
        name: name.to_string(),
    }
}

fn press(code: PickerKeyCode) -> PickerKey {
    PickerKey {
        code,
        control: false,
        press: true,
    }
}

#[test]
fn filter_provider_indices_returns_all_when_query_empty() {
    let entries = vec![entry("z-provider", "Zed"), entry("a-provider", "Alpha")];
    assert_eq!(
        filter_provider_indices(&entries, "", &vec![(None, None), (None, None)]),
        vec![0, 1]
    );
}

#[test]
fn filter_provider_indices_fuzzy_matches_id_and_name() {
    let entries = vec![
        entry("anthropic", "Anthropic"),
        entry("openrouter", "OpenRouter"),
        entry("xiaomi-token-plan-sgp", "Xiaomi Token Plan (Singapore)"),
    ];
    let matches = filter_provider_indices(
        &entries,
        "anth",
        &vec![(Some(-96), Some(-96)), (None, None), (None, None)],
    );
    assert_eq!(matches, vec![0]);
    let matches = filter_provider_indices(
        &entries,
        "sing",
        &vec![(None, None), (None, None), (None, Some(23))],
    );
    assert_eq!(matches, vec![2]);
}

#[test]
fn filter_provider_indices_sorts_by_match_quality_then_id() {
    let entries = vec![
        entry("my-anthropic", "Other"),
        entry("anthropic", "Anthropic"),
    ];
    let matches = filter_provider_indices(
        &entries,
        "anthropic",
        &vec![(Some(3), None), (Some(-100), Some(-100))],
    );
    assert_eq!(matches, vec![1, 0]);
}

#[test]
fn provider_entry_match_score_prefers_exact_prefix() {
    let exact = entry("anthropic", "Anthropic");
    let partial = entry("my-anthropic", "Other");
    let score_exact =
        provider_entry_match_score(&exact, "anthropic", Some(-100), Some(-100)).expect("match");
    let score_partial =
        provider_entry_match_score(&partial, "anthropic", Some(3), None).expect("match");
    assert!(score_exact < score_partial);
}

#[test]
fn match_score_takes_the_better_fuzzy_score() {
    let e = entry("openrouter", "OpenRouter");
    assert_eq!(provider_entry_match_score(&e, "or", Some(7), Some(4)), Some(4));
    assert_eq!(provider_entry_match_score(&e, "or", Some(7), None), Some(7));
    assert_eq!(provider_entry_match_score(&e, "or", None, Some(9)), Some(9));
    assert_eq!(provider_entry_match_score(&e, "", None, None), Some(i32::MAX));
}

#[test]
fn match_score_falls_back_to_case_insensitive_substring() {
    let e = entry("open-router", "Open Router");
    assert_eq!(provider_entry_match_score(&e, "ROUTER", None, None), Some(0));
    assert_eq!(provider_entry_match_score(&e, "n r", None, None), Some(0));
    assert_eq!(provider_entry_match_score(&e, "xyz", None, None), None);
}

#[test]
fn equal_scores_are_ordered_by_id() {
    let entries = vec![entry("b", "B"), entry("c", "C"), entry("a", "A")];
    let matches = filter_provider_indices(
        &entries,
        "x",
        &vec![(Some(1), None), (Some(0), None), (Some(1), None)],
    );
    assert_eq!(matches, vec![1, 2, 0]);
}

#[test]
fn viewport_rows_leave_room_for_the_indicator() {
    assert_eq!(effective_viewport_rows(10, 5), 10);
    assert_eq!(effective_viewport_rows(10, 20), 9);
    assert_eq!(effective_viewport_rows(1, 20), 1);
    assert_eq!(effective_viewport_rows(0, 0), 1);
}

fn sample_picker() -> ProviderPicker {
    ProviderPicker::new(&vec![
        entry("zeta", "Zeta"),
        entry("alpha", "Alpha"),
        entry("mid", "Middle"),
    ])
}

#[test]
fn picker_lists_providers_by_id() {
    let picker = sample_picker();
    let ids: Vec<&str> = picker.entries.iter().map(|e| e.id.as_str()).collect();
    assert_eq!(ids, vec!["alpha", "mid", "zeta"]);
    assert_eq!(picker.filtered, vec![0, 1, 2]);
    assert_eq!(picker.selected, 0);
    assert!(picker.outcome().is_none());
}

#[test]
fn picker_moves_and_wraps() {
    let mut picker = sample_picker();
    assert_eq!(picker.handle_key(press(PickerKeyCode::Down), 10), KeyOutcome::Handled);
    assert_eq!(picker.selected, 1);
    picker.handle_key(press(PickerKeyCode::Char('j')), 10);
    picker.handle_key(press(PickerKeyCode::Char('j')), 10);
    assert_eq!(picker.selected, 0);
    picker.handle_key(press(PickerKeyCode::Up), 10);
    assert_eq!(picker.selected, 2);
    picker.handle_key(press(PickerKeyCode::Home), 10);
    assert_eq!(picker.selected, 0);
    picker.handle_key(press(PickerKeyCode::End), 10);
    assert_eq!(picker.selected, 2);
}

#[test]
fn picker_scrolls_to_keep_selection_visible() {
    let mut picker = sample_picker();
    picker.handle_key(press(PickerKeyCode::End), 2);
    assert_eq!(picker.selected, 2);
    assert_eq!(picker.scroll_top, 1);
    picker.handle_key(press(PickerKeyCode::Home), 2);
    assert_eq!(picker.scroll_top, 0);
}

#[test]
fn picker_pages_by_viewport() {
    let mut picker = sample_picker();
    picker.handle_key(press(PickerKeyCode::PageDown), 2);
    assert_eq!(picker.selected, 2);
    picker.handle_key(press(PickerKeyCode::PageUp), 2);
    assert_eq!(picker.selected, 0);
}

#[test]
fn picker_accepts_selected_provider() {
    let mut picker = sample_picker();
    picker.handle_key(press(PickerKeyCode::Down), 10);
    picker.handle_key(press(PickerKeyCode::Enter), 10);
    assert_eq!(picker.outcome(), Some(Ok("mid".to_string())));
}

#[test]
fn picker_cancels_on_escape_q_and_ctrl_c() {
    let mut picker = sample_picker();
    picker.handle_key(press(PickerKeyCode::Esc), 10);
    assert_eq!(picker.outcome(), Some(Err(PickError::Cancelled)));

    let mut picker = sample_picker();
    picker.handle_key(press(PickerKeyCode::Char('q')), 10);
    assert_eq!(picker.outcome(), Some(Err(PickError::Cancelled)));

    let mut picker = sample_picker();
    picker.handle_key(
        PickerKey {
            code: PickerKeyCode::Char('c'),
            control: true,
            press: true,
        },
        10,
    );
    assert_eq!(picker.outcome(), Some(Err(PickError::Cancelled)));
}

#[test]
fn picker_ignores_releases() {
    let mut picker = sample_picker();
    picker.handle_key(
        PickerKey {
            code: PickerKeyCode::Down,
            control: false,
            press: false,
        },
        10,
    );
    assert_eq!(picker.selected, 0);
}

#[test]
fn typing_edits_the_query_and_asks_for_a_new_filter() {
    let mut picker = sample_picker();
    assert_eq!(
        picker.handle_key(press(PickerKeyCode::Char('m')), 10),
        KeyOutcome::QueryChanged
    );
    assert_eq!(picker.query, "m");
    picker.apply_filter(&vec![(None, None), (Some(-90), Some(-90)), (None, None)]);
    assert_eq!(picker.filtered, vec![1]);
    assert_eq!(picker.selected, 0);
    assert_eq!(
        picker.handle_key(press(PickerKeyCode::Backspace), 10),
        KeyOutcome::QueryChanged
    );
    assert_eq!(picker.query, "");
    picker.apply_filter(&vec![(None, None), (None, None), (None, None)]);
    assert_eq!(picker.filtered, vec![0, 1, 2]);
}

#[test]
fn filter_clamps_the_selection() {
    let mut picker = sample_picker();
    picker.handle_key(press(PickerKeyCode::End), 10);
    picker.handle_key(press(PickerKeyCode::Char('z')), 10);
    picker.apply_filter(&vec![(None, None), (None, None), (Some(1), None)]);
    assert_eq!(picker.filtered, vec![2]);
    assert_eq!(picker.selected, 0);
    assert_eq!(picker.scroll_top, 0);
}

#[test]
fn accepting_an_empty_list_does_nothing() {
    let mut picker = sample_picker();
    picker.handle_key(press(PickerKeyCode::Char('x')), 10);
    picker.apply_filter(&vec![(None, None), (None, None), (None, None)]);
    assert!(picker.filtered.is_empty());
    picker.handle_key(press(PickerKeyCode::Enter), 10);
    assert!(picker.outcome().is_none());
}

#[test]
fn render_plan_shows_the_visible_window() {
    let mut picker = sample_picker();
    let item_rows = effective_viewport_rows(3, picker.filtered.len());
    assert_eq!(item_rows, 3);
    picker.handle_key(press(PickerKeyCode::End), effective_viewport_rows(2, 3));
    assert_eq!(picker.scroll_top, 2);
    let plan = picker.render_plan(2);
    let rows: Vec<(usize, usize, bool)> = plan
        .rows
        .iter()
        .map(|r| (r.position, r.entry_index, r.selected))
        .collect();
    assert_eq!(rows, vec![(2, 2, false)]);
    assert_eq!(plan.indicator, Some((3, 3, 3)));
}

#[test]
fn render_plan_has_no_indicator_when_all_rows_fit() {
    let picker = sample_picker();
    let plan = picker.render_plan(10);
    assert_eq!(plan.rows.len(), 3);
    assert!(plan.rows[0].selected);
    assert_eq!(plan.indicator, None);
}

#[test]
fn picking_needs_providers() {
    assert_eq!(check_providers_available(0), Err(PickError::NoProviders));
    assert_eq!(check_providers_available(2), Ok(()));
    assert_eq!(PickError::NoProviders.message(), "no providers available");
    assert_eq!(PickError::Cancelled.message(), "provider selection cancelled");
    assert_eq!(PickError::NoSelection.message(), "no provider selected");
}

fn segments(text: &str, query: &str, matched: Option<Vec<usize>>) -> Vec<(String, SegmentStyle)> {
    highlight_fuzzy_match(text, query, &matched)
        .into_iter()
        .map(|s| (s.text, s.style))
        .collect()
}

#[test]
fn highlight_marks_matched_characters() {
    assert_eq!(
        segments("openrouter", "rout", Some(vec![4, 5, 6, 7])),
        vec![
            ("open".to_string(), SegmentStyle::Base),
            ("rout".to_string(), SegmentStyle::Matched),
            ("er".to_string(), SegmentStyle::Base),
        ]
    );
}

#[test]
fn highlight_keeps_the_first_character_in_base_style() {
    assert_eq!(
        segments("anthropic", "anth", Some(vec![0, 1, 2, 3])),
        vec![
            ("a".to_string(), SegmentStyle::Base),
            ("nth".to_string(), SegmentStyle::Matched),
            ("ropic".to_string(), SegmentStyle::Base),
        ]
    );
}

#[test]
fn highlight_dims_unmatched_text_and_keeps_plain_text_for_empty_query() {
    assert_eq!(
        segments("openrouter", "zz", None),
        vec![("openrouter".to_string(), SegmentStyle::Dimmed)]
    );
    assert_eq!(
        segments("openrouter", "", None),
        vec![("openrouter".to_string(), SegmentStyle::Base)]
    );
}

#[test]
fn highlight_runs_rebuild_the_text() {
    let runs = segments("xiaomi-token-plan-sgp", "tps", Some(vec![7, 14, 18]));
    let text: String = runs.iter().map(|(t, _)| t.as_str()).collect();
    assert_eq!(text, "xiaomi-token-plan-sgp");
    assert!(runs.iter().all(|(t, _)| !t.is_empty()));
    assert!(runs.windows(2).all(|w| w[0].1 != w[1].1));
}
