use commitui::assemble::assemble_message;
use commitui::config::Config;
use commitui::nav::{apply_event, classify_key, is_scope_selectable, next_selectable_scope, step_number};
use commitui::state::{AppState, Event, Flow, Key, Step};
use commitui::config::MergeConfig;

fn type_text(st: &mut AppState, cfg: &Config, text: &str) {
    for ch in text.chars() {
        assert_eq!(apply_event(st, Event::TextChar(ch), cfg), Flow::Continue);
    }
}

/// Confirms the default type, picks "api" from the scope list, and types
/// a valid subject, leaving the wizard at the body step.
fn reach_body(st: &mut AppState, cfg: &Config) {
    assert_eq!(apply_event(st, Event::Confirm, cfg), Flow::Continue);
    assert_eq!(st.step, Step::Scope);
    apply_event(st, Event::Down, cfg);
    apply_event(st, Event::Down, cfg);
    assert_eq!(apply_event(st, Event::Confirm, cfg), Flow::Continue);
    assert_eq!(st.step, Step::Subject);
    type_text(st, cfg, "handle timeout");
    assert_eq!(apply_event(st, Event::Confirm, cfg), Flow::Continue);
    assert_eq!(st.step, Step::Body);
}

#[test]
fn full_run_produces_the_assembled_message() {
    let cfg = Config::default();
    let mut st = AppState::new();
    // Pick the second type, "fix".
    apply_event(&mut st, Event::Down, &cfg);
    assert_eq!(apply_event(&mut st, Event::Confirm, &cfg), Flow::Continue);
    assert_eq!(st.chosen_type, Some("fix".to_string()));
    // Pick "api" (two steps down from the "no scope" sentinel).
    apply_event(&mut st, Event::Down, &cfg);
    apply_event(&mut st, Event::Down, &cfg);
    apply_event(&mut st, Event::Confirm, &cfg);
    assert_eq!(st.chosen_scope, Some("api".to_string()));
    type_text(&mut st, &cfg, "handle timeout");
    apply_event(&mut st, Event::Confirm, &cfg);
    type_text(&mut st, &cfg, "retries added");
    apply_event(&mut st, Event::Confirm, &cfg);
    apply_event(&mut st, Event::Confirm, &cfg);
    assert_eq!(st.step, Step::Breaking);
    apply_event(&mut st, Event::Confirm, &cfg);
    assert_eq!(st.step, Step::Preview);
    assert_eq!(apply_event(&mut st, Event::Confirm, &cfg), Flow::Finished);
    assert_eq!(
        assemble_message(&st),
        "fix(api): handle timeout\n\nretries added\n"
    );
}

#[test]
fn type_cursor_saturates_at_both_ends() {
    let cfg = Config::default();
    let mut st = AppState::new();
    apply_event(&mut st, Event::Up, &cfg);
    assert_eq!(st.selected_type, 0);
    for _ in 0..30 {
        apply_event(&mut st, Event::Down, &cfg);
    }
    assert_eq!(st.selected_type, cfg.types.len() - 1);
    apply_event(&mut st, Event::Down, &cfg);
    assert_eq!(st.selected_type, cfg.types.len() - 1);
}

#[test]
fn confirming_no_scope_chooses_none() {
    let cfg = Config::default();
    let mut st = AppState::new();
    apply_event(&mut st, Event::Confirm, &cfg);
    assert_eq!(st.step, Step::Scope);
    apply_event(&mut st, Event::Confirm, &cfg);
    assert_eq!(st.step, Step::Subject);
    assert_eq!(st.chosen_scope, None);
}

#[test]
fn custom_scope_is_trimmed_on_confirm() {
    let cfg = Config::default();
    let mut st = AppState::new();
    apply_event(&mut st, Event::Confirm, &cfg);
    apply_event(&mut st, Event::ToggleFocus, &cfg);
    assert!(st.focus_input);
    type_text(&mut st, &cfg, "  parser  ");
    apply_event(&mut st, Event::Confirm, &cfg);
    assert_eq!(st.step, Step::Subject);
    assert_eq!(st.chosen_scope, Some("parser".to_string()));
}

#[test]
fn empty_custom_scope_confirm_does_not_advance() {
    let cfg = Config::default();
    let mut st = AppState::new();
    apply_event(&mut st, Event::Confirm, &cfg);
    apply_event(&mut st, Event::ToggleFocus, &cfg);
    type_text(&mut st, &cfg, "   ");
    apply_event(&mut st, Event::Confirm, &cfg);
    assert_eq!(st.step, Step::Scope);
    assert_eq!(st.chosen_scope, None);
}

#[test]
fn back_from_scope_restores_the_type_cursor() {
    let cfg = Config::default();
    let mut st = AppState::new();
    apply_event(&mut st, Event::Down, &cfg);
    apply_event(&mut st, Event::Confirm, &cfg);
    assert_eq!(st.step, Step::Scope);
    // Going back rebuilds the cursor from the chosen type.
    apply_event(&mut st, Event::Back, &cfg);
    assert_eq!(st.step, Step::Type);
    assert_eq!(st.selected_type, 1);
}

#[test]
fn back_then_forward_round_trips_a_listed_scope() {
    let cfg = Config::default();
    let mut st = AppState::new();
    apply_event(&mut st, Event::Confirm, &cfg);
    apply_event(&mut st, Event::Down, &cfg);
    apply_event(&mut st, Event::Down, &cfg);
    apply_event(&mut st, Event::Confirm, &cfg);
    assert_eq!(st.chosen_scope, Some("api".to_string()));
    assert_eq!(st.step, Step::Subject);
    // Leave the edit sub-mode, step back, and confirm again.
    apply_event(&mut st, Event::ToggleFocus, &cfg);
    apply_event(&mut st, Event::Back, &cfg);
    assert_eq!(st.step, Step::Scope);
    assert_eq!(st.selected_scope, 2);
    assert!(!st.focus_input);
    apply_event(&mut st, Event::Confirm, &cfg);
    assert_eq!(st.step, Step::Subject);
    assert_eq!(st.chosen_scope, Some("api".to_string()));
}

#[test]
fn back_then_forward_round_trips_a_custom_scope() {
    let cfg = Config::default();
    let mut st = AppState::new();
    apply_event(&mut st, Event::Confirm, &cfg);
    apply_event(&mut st, Event::ToggleFocus, &cfg);
    type_text(&mut st, &cfg, "parser");
    apply_event(&mut st, Event::Confirm, &cfg);
    assert_eq!(st.chosen_scope, Some("parser".to_string()));
    apply_event(&mut st, Event::ToggleFocus, &cfg);
    apply_event(&mut st, Event::Back, &cfg);
    assert_eq!(st.step, Step::Scope);
    assert!(st.focus_input);
    assert_eq!(st.custom_scope, "parser");
    apply_event(&mut st, Event::Confirm, &cfg);
    assert_eq!(st.step, Step::Subject);
    assert_eq!(st.chosen_scope, Some("parser".to_string()));
}

#[test]
fn back_then_forward_round_trips_no_scope() {
    let cfg = Config::default();
    let mut st = AppState::new();
    apply_event(&mut st, Event::Confirm, &cfg);
    apply_event(&mut st, Event::Confirm, &cfg);
    assert_eq!(st.chosen_scope, None);
    apply_event(&mut st, Event::ToggleFocus, &cfg);
    apply_event(&mut st, Event::Back, &cfg);
    assert_eq!(st.step, Step::Scope);
    assert_eq!(st.selected_scope, 0);
    apply_event(&mut st, Event::Confirm, &cfg);
    assert_eq!(st.step, Step::Subject);
    assert_eq!(st.chosen_scope, None);
}

#[test]
fn over_long_subject_blocks_confirm() {
    let cfg = Config::default();
    let mut st = AppState::new();
    apply_event(&mut st, Event::Confirm, &cfg);
    apply_event(&mut st, Event::Confirm, &cfg);
    assert_eq!(st.step, Step::Subject);
    let long = "x".repeat(73);
    type_text(&mut st, &cfg, &long);
    let before = st.subject.clone();
    apply_event(&mut st, Event::Confirm, &cfg);
    assert_eq!(st.step, Step::Subject);
    assert_eq!(st.subject, before);
    let failure = commitui::validation::validate_subject(&st.subject, &cfg).unwrap();
    assert_eq!(
        failure.message(),
        "Subject should be 72 characters or less (currently 73)."
    );
}

#[test]
fn empty_subject_blocks_confirm() {
    let cfg = Config::default();
    let mut st = AppState::new();
    apply_event(&mut st, Event::Confirm, &cfg);
    apply_event(&mut st, Event::Confirm, &cfg);
    apply_event(&mut st, Event::Confirm, &cfg);
    assert_eq!(st.step, Step::Subject);
}

#[test]
fn body_lines_commit_and_empty_line_finishes() {
    let cfg = Config::default();
    let mut st = AppState::new();
    reach_body(&mut st, &cfg);
    type_text(&mut st, &cfg, "line1");
    apply_event(&mut st, Event::Confirm, &cfg);
    assert_eq!(st.step, Step::Body);
    type_text(&mut st, &cfg, "line2");
    apply_event(&mut st, Event::Confirm, &cfg);
    assert_eq!(st.step, Step::Body);
    apply_event(&mut st, Event::Confirm, &cfg);
    assert_eq!(st.body_lines, vec!["line1".to_string(), "line2".to_string()]);
    assert_eq!(st.step, Step::Breaking);
}

#[test]
fn reentering_body_keeps_committed_lines() {
    let cfg = Config::default();
    let mut st = AppState::new();
    reach_body(&mut st, &cfg);
    type_text(&mut st, &cfg, "kept");
    apply_event(&mut st, Event::Confirm, &cfg);
    apply_event(&mut st, Event::Confirm, &cfg);
    assert_eq!(st.step, Step::Breaking);
    // Back to the body step and forward again: the committed lines are
    // neither lost nor duplicated.
    apply_event(&mut st, Event::ToggleFocus, &cfg);
    apply_event(&mut st, Event::Back, &cfg);
    assert_eq!(st.step, Step::Body);
    assert_eq!(st.body, "");
    apply_event(&mut st, Event::Confirm, &cfg);
    assert_eq!(st.step, Step::Breaking);
    assert_eq!(st.body_lines, vec!["kept".to_string()]);
}

#[test]
fn backspace_edits_the_current_line() {
    let cfg = Config::default();
    let mut st = AppState::new();
    reach_body(&mut st, &cfg);
    type_text(&mut st, &cfg, "ab");
    apply_event(&mut st, Event::TextBackspace, &cfg);
    assert_eq!(st.body, "a");
    apply_event(&mut st, Event::TextBackspace, &cfg);
    apply_event(&mut st, Event::TextBackspace, &cfg);
    assert_eq!(st.body, "");
}

#[test]
fn quit_aborts_without_a_message() {
    let cfg = Config::default();
    let mut st = AppState::new();
    assert_eq!(apply_event(&mut st, Event::Quit, &cfg), Flow::Aborted);
    let mut st2 = AppState::new();
    reach_body(&mut st2, &cfg);
    assert_eq!(apply_event(&mut st2, Event::Quit, &cfg), Flow::Aborted);
}

#[test]
fn preview_issues_are_edited_in_sub_focus() {
    let cfg = Config::default();
    let mut st = AppState::new();
    reach_body(&mut st, &cfg);
    apply_event(&mut st, Event::Confirm, &cfg);
    apply_event(&mut st, Event::Confirm, &cfg);
    assert_eq!(st.step, Step::Preview);
    apply_event(&mut st, Event::ToggleFocus, &cfg);
    assert!(st.focus_issues);
    type_text(&mut st, &cfg, "closes #7");
    assert_eq!(apply_event(&mut st, Event::Confirm, &cfg), Flow::Finished);
    assert_eq!(
        assemble_message(&st),
        "feat(api): handle timeout\n\ncloses #7\n"
    );
}

#[test]
fn separator_entries_are_skipped_by_the_cursor() {
    let cfg = Config::default();
    let scopes = cfg.scopes.as_slice();
    // Entry ten is the separator between the two groups.
    assert!(!is_scope_selectable(scopes, 10));
    assert!(is_scope_selectable(scopes, 0));
    assert!(is_scope_selectable(scopes, 9));
    assert_eq!(next_selectable_scope(scopes, 9, 1), 11);
    assert_eq!(next_selectable_scope(scopes, 11, -1), 9);
    assert_eq!(next_selectable_scope(scopes, 0, -1), 0);
    let last = scopes.len() - 1;
    assert_eq!(next_selectable_scope(scopes, last, 1), last);
}

#[test]
fn step_numbers_count_from_one() {
    assert_eq!(step_number(&Step::Type), 1);
    assert_eq!(step_number(&Step::Scope), 2);
    assert_eq!(step_number(&Step::Subject), 3);
    assert_eq!(step_number(&Step::Body), 4);
    assert_eq!(step_number(&Step::Breaking), 5);
    assert_eq!(step_number(&Step::Preview), 6);
}

#[test]
fn keys_mean_different_things_per_step_and_focus() {
    let cfg = Config::default();
    let mut st = AppState::new();
    // On the type list, q quits and arrows browse.
    assert_eq!(classify_key(&st, Key::Char('q')), Some(Event::Quit));
    assert_eq!(classify_key(&st, Key::Down), Some(Event::Down));
    assert_eq!(classify_key(&st, Key::Esc), Some(Event::Quit));
    assert_eq!(classify_key(&st, Key::CtrlC), Some(Event::Quit));
    assert_eq!(classify_key(&st, Key::Char('z')), None);
    // In the subject's edit sub-mode every character is text.
    apply_event(&mut st, Event::Confirm, &cfg);
    apply_event(&mut st, Event::Confirm, &cfg);
    assert_eq!(st.step, Step::Subject);
    assert!(st.focus_input);
    assert_eq!(classify_key(&st, Key::Char('q')), Some(Event::TextChar('q')));
    assert_eq!(classify_key(&st, Key::Char('b')), Some(Event::TextChar('b')));
    assert_eq!(classify_key(&st, Key::Backspace), Some(Event::TextBackspace));
    // In the navigation sub-mode b and the left arrow go back.
    apply_event(&mut st, Event::ToggleFocus, &cfg);
    assert_eq!(classify_key(&st, Key::Char('b')), Some(Event::Back));
    assert_eq!(classify_key(&st, Key::Left), Some(Event::Back));
    assert_eq!(classify_key(&st, Key::Char('q')), None);
}

#[test]
fn preview_keys() {
    let cfg = Config::default();
    let mut st = AppState::new();
    reach_body(&mut st, &cfg);
    apply_event(&mut st, Event::Confirm, &cfg);
    apply_event(&mut st, Event::Confirm, &cfg);
    assert_eq!(st.step, Step::Preview);
    assert_eq!(classify_key(&st, Key::Char('y')), Some(Event::Confirm));
    assert_eq!(classify_key(&st, Key::Char('b')), Some(Event::Back));
    assert_eq!(classify_key(&st, Key::Enter), Some(Event::Confirm));
    // In the issues sub-focus, b is text and only the left arrow goes back.
    apply_event(&mut st, Event::ToggleFocus, &cfg);
    assert_eq!(classify_key(&st, Key::Char('b')), Some(Event::TextChar('b')));
    assert_eq!(classify_key(&st, Key::Left), Some(Event::Back));
}

#[test]
fn defaults_match_the_built_in_lists() {
    let cfg = Config::default();
    assert_eq!(cfg.types.len(), 11);
    assert_eq!(cfg.types[0], "feat");
    assert_eq!(cfg.types[10], "revert");
    assert_eq!(cfg.scopes.len(), 27);
    assert_eq!(cfg.scopes[0], "no scope");
    assert!(cfg.scopes[10].starts_with('─'));
    assert_eq!(cfg.subject_max_length, 72);
    assert!(cfg.subject_start_lowercase);
    assert!(cfg.subject_no_ending_period);
    assert!(commitui::config::config_ok(&cfg));
}

#[test]
fn merge_overwrites_every_field() {
    let mut base = Config::default();
    let other = Config {
        types: vec!["feat".to_string()],
        scopes: vec![],
        subject_max_length: 50,
        subject_start_lowercase: false,
        subject_no_ending_period: false,
    };
    base.merge(other);
    assert_eq!(base.types, vec!["feat".to_string()]);
    assert!(base.scopes.is_empty());
    assert_eq!(base.subject_max_length, 50);
    assert!(!base.subject_start_lowercase);
    assert!(!base.subject_no_ending_period);
}
