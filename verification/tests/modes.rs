use forge_tui::app::{
    ActionKind, ActionResult, ActionType, Command, ConfirmState, FilterFocus, LoopView, StatusKind, UiMode,
    WizardState,
};
use forge_tui::loop_list::filter_loops;
use forge_tui::wizard::wizard_lines;
use forge_tui::modes::{
    action_result_effect, apply_confirm_outcome, apply_result_effect, confirm_for, confirm_rows, filter_line, confirm_key, filter_key, help_key, outcome_status,
    start_action, wizard_key, wizard_pairs, ConfirmOutcome, FilterOutcome, Key, KeyPress,
    WizardOutcome,
};

fn press(key: Key) -> KeyPress {
    KeyPress { key, shift: false, ctrl: false, alt: false }
}

fn ch(c: char) -> KeyPress {
    press(Key::Char(c))
}

fn ctrl(c: char) -> KeyPress {
    KeyPress { key: Key::Char(c), shift: false, ctrl: true, alt: false }
}

fn sample_loops() -> Vec<LoopView> {
    loops_n(3)
}

fn loops_n(n: usize) -> Vec<LoopView> {
    (0..n)
        .map(|i| LoopView {
            id: format!("loop-{i}"),
            name: format!("test-loop-{i}"),
            state: if i % 2 == 0 { "running".to_owned() } else { "stopped".to_owned() },
            ..LoopView::default()
        })
        .collect()
}

fn confirm(action: ActionType, index: usize) -> ConfirmState {
    let loops = sample_loops();
    confirm_for(action, Some(&loops[index])).expect("confirmation opens")
}

fn status_text(outcome: &ConfirmOutcome) -> String {
    outcome_status(outcome).map(|(_, m)| m).unwrap_or_default()
}

fn fresh_wizard() -> WizardState {
    WizardState::with_defaults("", "", "")
}

// -- confirmation --

/// What the shell does with a dialog outcome: the command, the mode, and
/// whether the dialog closed.
fn settle(o: ConfirmOutcome, c: ConfirmState) -> (Command, UiMode, bool) {
    let mut slot = Some(c);
    let mut mode = UiMode::Confirm;
    let mut help_return = UiMode::Main;
    let cmd = apply_confirm_outcome(o, &mut slot, &mut mode, &mut help_return);
    (cmd, mode, slot.is_none())
}

#[test]
fn s_enters_confirm_for_stop() {
    let c = confirm(ActionType::Stop, 0);
    assert_eq!(c.action, ActionType::Stop);
    assert!(c.prompt.contains("Stop loop"));
    assert_eq!(c.prompt, "Stop loop loop-0 after current iteration? [y/N]");
}

#[test]
fn confirm_n_cancels() {
    let mut c = confirm(ActionType::Stop, 0);
    let out = confirm_key(&mut c, ch('n'));
    assert_eq!(out, ConfirmOutcome::Cancelled);
    assert_eq!(outcome_status(&out), Some((StatusKind::Info, "Action cancelled".to_owned())));
}

#[test]
fn confirm_y_returns_action() {
    let mut c = confirm(ActionType::Stop, 0);
    let out = confirm_key(&mut c, ch('y'));
    assert_eq!(
        out,
        ConfirmOutcome::Submitted(Some(ActionKind::Stop { loop_id: "loop-0".to_owned() }))
    );
    assert_eq!(
        settle(out, c),
        (Command::RunAction(ActionKind::Stop { loop_id: "loop-0".to_owned() }), UiMode::Main, true)
    );
}

#[test]
fn confirm_enter_uses_safe_cancel_by_default() {
    let mut c = confirm(ActionType::Stop, 0);
    let out = confirm_key(&mut c, press(Key::Enter));
    assert_eq!(out, ConfirmOutcome::Cancelled);
    assert!(status_text(&out).contains("cancelled"));
    assert_eq!(settle(out, c), (Command::Noop, UiMode::Main, true));
}

#[test]
fn confirm_action_rail_tab_then_enter_submits() {
    let mut c = confirm(ActionType::Stop, 0);
    assert_eq!(confirm_key(&mut c, press(Key::Tab)), ConfirmOutcome::Open);
    let out = confirm_key(&mut c, press(Key::Enter));
    assert_eq!(
        out,
        ConfirmOutcome::Submitted(Some(ActionKind::Stop { loop_id: "loop-0".to_owned() }))
    );
}

#[test]
fn confirm_kill_requires_typed_reason_before_submit() {
    let mut c = confirm(ActionType::Kill, 0);
    confirm_key(&mut c, press(Key::Tab));
    let out = confirm_key(&mut c, press(Key::Enter));
    assert_eq!(out, ConfirmOutcome::ReasonTooShort);
    assert!(status_text(&out).contains("Reason required"));
    assert_eq!(outcome_status(&out).map(|(k, _)| k), Some(StatusKind::Error));
}

#[test]
fn confirm_kill_submit_after_reason_input() {
    let mut c = confirm(ActionType::Kill, 0);
    confirm_key(&mut c, press(Key::Tab));
    for c2 in "incident risk".chars() {
        assert_eq!(confirm_key(&mut c, ch(c2)), ConfirmOutcome::Open);
    }
    assert_eq!(c.reason, "incident risk");
    let out = confirm_key(&mut c, press(Key::Enter));
    assert_eq!(
        out,
        ConfirmOutcome::Submitted(Some(ActionKind::Kill { loop_id: "loop-0".to_owned() }))
    );
}

#[test]
fn confirm_noop_without_selection() {
    match confirm_for(ActionType::Stop, None) {
        Err((kind, message)) => {
            assert_eq!(kind, StatusKind::Info);
            assert_eq!(message, "No loop selected");
        }
        Ok(_) => panic!("no confirmation without a selected loop"),
    }
    let loops = sample_loops();
    match confirm_for(ActionType::Resume, Some(&loops[0])) {
        Err((kind, message)) => {
            assert_eq!(kind, StatusKind::Error);
            assert_eq!(message, "Unsupported destructive action");
        }
        Ok(_) => panic!("resume is not confirmed"),
    }
}

#[test]
fn delete_running_loop_shows_force() {
    let c = confirm(ActionType::Delete, 0);
    assert!(c.prompt.contains("Force delete"));
    assert!(c.force_delete);
    assert!(c.reason_required);
}

#[test]
fn delete_stopped_loop_normal() {
    let c = confirm(ActionType::Delete, 1);
    assert!(c.prompt.contains("Delete loop record"));
    assert!(!c.prompt.contains("Force"));
    assert!(!c.force_delete);
    assert!(!c.reason_required);
}

#[test]
fn force_delete_requires_typed_reason_before_submit() {
    let mut c = confirm(ActionType::Delete, 0);
    confirm_key(&mut c, press(Key::Tab));
    let out = confirm_key(&mut c, press(Key::Enter));
    assert_eq!(out, ConfirmOutcome::ReasonTooShort);
    assert!(status_text(&out).contains("Reason required"));
}

#[test]
fn reason_editing_keys_and_limits() {
    let mut c = confirm(ActionType::Kill, 0);
    // letters that answer a plain confirmation are typed into the reason
    confirm_key(&mut c, ch('n'));
    confirm_key(&mut c, ch('y'));
    assert_eq!(c.reason, "ny");
    confirm_key(&mut c, press(Key::Backspace));
    assert_eq!(c.reason, "n");
    confirm_key(&mut c, ctrl('u'));
    assert_eq!(c.reason, "");
    for _ in 0..200 {
        confirm_key(&mut c, ch('x'));
    }
    assert_eq!(c.reason.chars().count(), 160);
    // q still cancels, and ? opens help
    assert_eq!(confirm_key(&mut c, ch('?')), ConfirmOutcome::Help);
    assert_eq!(confirm_key(&mut c, ch('q')), ConfirmOutcome::Cancelled);
    // a blank-padded reason counts only its inside
    let mut c = confirm(ActionType::Kill, 0);
    confirm_key(&mut c, press(Key::Left));
    for c2 in "   short    ".chars() {
        confirm_key(&mut c, ch(c2));
    }
    assert_eq!(confirm_key(&mut c, press(Key::Enter)), ConfirmOutcome::ReasonTooShort);
}

#[test]
fn force_delete_submits_with_force() {
    let mut c = confirm(ActionType::Delete, 0);
    confirm_key(&mut c, press(Key::Right));
    for c2 in "cleanup after incident".chars() {
        confirm_key(&mut c, ch(c2));
    }
    assert_eq!(
        confirm_key(&mut c, press(Key::Enter)),
        ConfirmOutcome::Submitted(Some(ActionKind::Delete { loop_id: "loop-0".to_owned(), force: true }))
    );
}

// -- wizard --

#[test]
fn n_enters_wizard() {
    let w = fresh_wizard();
    assert_eq!(w.step, 1);
    assert_eq!(w.field, 0);
    assert_eq!(w.values.count, "1");
}

#[test]
fn wizard_escape_exits() {
    let mut w = fresh_wizard();
    assert_eq!(wizard_key(&mut w, press(Key::Escape)), WizardOutcome::Closed);
}

#[test]
fn wizard_tab_wraps_fields_by_step() {
    let mut w = fresh_wizard();
    assert_eq!(w.field, 0);
    wizard_key(&mut w, press(Key::Tab));
    assert_eq!(w.field, 1);
    wizard_key(&mut w, press(Key::Tab));
    assert_eq!(w.field, 2);
    wizard_key(&mut w, press(Key::Tab));
    assert_eq!(w.field, 0);
}

#[test]
fn wizard_shift_tab_and_up_move_previous_field() {
    let mut w = fresh_wizard();
    wizard_key(&mut w, press(Key::Tab));
    assert_eq!(w.field, 1);
    wizard_key(&mut w, KeyPress { key: Key::Tab, shift: true, ctrl: false, alt: false });
    assert_eq!(w.field, 0);
    wizard_key(&mut w, press(Key::Up));
    assert_eq!(w.field, 2);
}

#[test]
fn wizard_enter_validates_count_and_stays_on_step() {
    let mut w = fresh_wizard();
    w.values.count = "0".to_owned();
    assert_eq!(wizard_key(&mut w, press(Key::Enter)), WizardOutcome::Open);
    assert_eq!(w.step, 1);
    assert!(w.error.contains("count"));
}

#[test]
fn wizard_enter_advances_steps_and_back_goes_previous() {
    let mut w = fresh_wizard();
    assert_eq!(w.step, 1);
    wizard_key(&mut w, press(Key::Enter));
    assert_eq!(w.step, 2);
    wizard_key(&mut w, press(Key::Enter));
    assert_eq!(w.step, 3);
    wizard_key(&mut w, ch('b'));
    assert_eq!(w.step, 2);
    wizard_key(&mut w, press(Key::Left));
    assert_eq!(w.step, 1);
}

#[test]
fn wizard_text_editing_updates_focused_field() {
    let mut w = fresh_wizard();
    wizard_key(&mut w, ch('x'));
    wizard_key(&mut w, ch('y'));
    assert_eq!(w.values.name, "xy");
    wizard_key(&mut w, press(Key::Backspace));
    assert_eq!(w.values.name, "x");
    wizard_key(&mut w, ch(' '));
    assert_eq!(w.values.name, "x ");
}

#[test]
fn wizard_enter_on_review_submits_create_action() {
    let mut w = fresh_wizard();
    w.values.name = "wizard-loop".to_owned();
    w.values.count = "1".to_owned();
    w.values.interval = "30s".to_owned();
    wizard_key(&mut w, press(Key::Enter));
    wizard_key(&mut w, press(Key::Enter));
    wizard_key(&mut w, press(Key::Enter));
    assert_eq!(w.step, 4);
    assert_eq!(wizard_key(&mut w, press(Key::Enter)), WizardOutcome::Create);
    match start_action(false, ActionType::Create, "", &w.values) {
        Ok((message, Some(ActionKind::Create { wizard }))) => {
            assert_eq!(message, "Creating loop(s)...");
            assert!(wizard.iter().any(|(k, v)| k == "name" && v == "wizard-loop"));
            assert!(wizard.iter().any(|(k, v)| k == "count" && v == "1"));
            assert!(wizard.iter().any(|(k, v)| k == "interval" && v == "30s"));
        }
        other => panic!("Expected a create request, got {other:?}"),
    }
}

#[test]
fn wizard_with_defaults_populates_fields() {
    let w = WizardState::with_defaults("30s", "default.md", "run tests");
    assert_eq!(w.values.interval, "30s");
    assert_eq!(w.values.prompt, "default.md");
    assert_eq!(w.values.prompt_msg, "run tests");
    assert_eq!(w.values.count, "1");
    assert!(w.values.name.is_empty());
}

#[test]
fn wizard_q_exits() {
    let mut w = fresh_wizard();
    assert_eq!(wizard_key(&mut w, ch('q')), WizardOutcome::Closed);
}

#[test]
fn wizard_question_mark_opens_help() {
    let mut w = fresh_wizard();
    assert_eq!(wizard_key(&mut w, ch('?')), WizardOutcome::Help);
}

#[test]
fn wizard_j_k_cycle_fields() {
    let mut w = fresh_wizard();
    assert_eq!(w.field, 0);
    wizard_key(&mut w, ch('j'));
    assert_eq!(w.field, 1);
    wizard_key(&mut w, ch('k'));
    assert_eq!(w.field, 0);
    wizard_key(&mut w, ch('k'));
    assert_eq!(w.field, 2);
}

#[test]
fn wizard_down_up_cycle_fields() {
    let mut w = fresh_wizard();
    wizard_key(&mut w, press(Key::Down));
    assert_eq!(w.field, 1);
    wizard_key(&mut w, press(Key::Up));
    assert_eq!(w.field, 0);
}

#[test]
fn wizard_ctrl_h_backspaces() {
    let mut w = fresh_wizard();
    wizard_key(&mut w, ch('a'));
    wizard_key(&mut w, ch('c'));
    assert_eq!(w.values.name, "ac");
    wizard_key(&mut w, ctrl('h'));
    assert_eq!(w.values.name, "a");
}

#[test]
fn wizard_back_noop_on_step_1() {
    let mut w = fresh_wizard();
    wizard_key(&mut w, ch('b'));
    assert_eq!(w.step, 1);
    wizard_key(&mut w, press(Key::Left));
    assert_eq!(w.step, 1);
}

#[test]
fn wizard_step4_ignores_text_input() {
    let mut w = fresh_wizard();
    wizard_key(&mut w, press(Key::Enter));
    wizard_key(&mut w, press(Key::Enter));
    wizard_key(&mut w, press(Key::Enter));
    assert_eq!(w.step, 4);
    wizard_key(&mut w, ch('x'));
    wizard_key(&mut w, ch(' '));
    wizard_key(&mut w, press(Key::Backspace));
    wizard_key(&mut w, ctrl('h'));
    assert!(w.values.name.is_empty());
}

#[test]
fn wizard_enter_clears_error_on_success() {
    let mut w = fresh_wizard();
    w.values.count = "0".to_owned();
    wizard_key(&mut w, press(Key::Enter));
    assert!(!w.error.is_empty());
    w.values.count = "1".to_owned();
    wizard_key(&mut w, press(Key::Enter));
    assert_eq!(w.step, 2);
    assert!(w.error.is_empty());
}

#[test]
fn wizard_escape_clears_error() {
    let mut w = fresh_wizard();
    w.values.count = "bad".to_owned();
    wizard_key(&mut w, press(Key::Enter));
    assert!(!w.error.is_empty());
    assert_eq!(wizard_key(&mut w, press(Key::Escape)), WizardOutcome::Closed);
    assert!(w.error.is_empty());
}

#[test]
fn wizard_pairs_follow_field_order() {
    let mut w = fresh_wizard();
    w.values.pool = "p".to_owned();
    let pairs = wizard_pairs(&w.values);
    let keys: Vec<&str> = pairs.iter().map(|(k, _)| k.as_str()).collect();
    assert_eq!(
        keys,
        vec![
            "name", "name_prefix", "count", "pool", "profile", "prompt", "prompt_msg",
            "interval", "max_runtime", "max_iterations", "tags"
        ]
    );
    assert_eq!(pairs[3].1, "p");
    assert_eq!(pairs[2].1, "1");
}

// -- actions and their results --

#[test]
fn action_busy_blocks_new_action() {
    let w = fresh_wizard();
    let refused = start_action(true, ActionType::Resume, "loop-0", &w.values);
    match refused {
        Err(message) => assert!(message.contains("Another action")),
        Ok(_) => panic!("a busy shell starts no action"),
    }
    assert_eq!(
        start_action(false, ActionType::Resume, "loop-0", &w.values),
        Ok(("Resuming loop...".to_owned(), Some(ActionKind::Resume { loop_id: "loop-0".to_owned() })))
    );
    assert_eq!(
        start_action(false, ActionType::Delete, "loop-1", &w.values),
        Ok((
            "Deleting loop record...".to_owned(),
            Some(ActionKind::Delete { loop_id: "loop-1".to_owned(), force: false })
        ))
    );
    assert_eq!(
        start_action(false, ActionType::NoAction, "", &w.values),
        Ok(("Running action...".to_owned(), None))
    );
}

fn result(kind: ActionType, selected: &str, message: &str, error: Option<&str>) -> ActionResult {
    ActionResult {
        kind,
        loop_id: String::new(),
        selected_loop_id: selected.to_owned(),
        message: message.to_owned(),
        error: error.map(str::to_owned),
    }
}

#[test]
fn action_result_success_clears_busy_and_sets_ok_status() {
    let effect = action_result_effect(&result(ActionType::Stop, "", "Stop requested for loop loop-0", None));
    assert_eq!(
        effect.status,
        Some((StatusKind::Success, "Stop requested for loop loop-0".to_owned()))
    );
    assert!(effect.fetch);
    assert!(!effect.leave_wizard);
    assert_eq!(effect.select, None);
    let (mut w, mut mode, mut busy) = (fresh_wizard(), UiMode::Main, true);
    apply_result_effect(&effect, &mut w, &mut mode, &mut busy);
    assert!(!busy);
    assert_eq!(mode, UiMode::Main);
}

#[test]
fn action_result_error_sets_err_status() {
    let effect = action_result_effect(&result(ActionType::Kill, "", "", Some("loop not found")));
    assert_eq!(effect.status, Some((StatusKind::Error, "loop not found".to_owned())));
    assert!(!effect.fetch);
    assert_eq!(effect.wizard_error, None);
}

#[test]
fn action_result_create_error_returns_to_wizard() {
    let effect = action_result_effect(&result(ActionType::Create, "", "", Some("invalid count")));
    assert_eq!(effect.wizard_error, Some("invalid count".to_owned()));
    assert!(!effect.fetch);
    let (mut w, mut mode, mut busy) = (fresh_wizard(), UiMode::Main, true);
    w.step = 4;
    apply_result_effect(&effect, &mut w, &mut mode, &mut busy);
    assert_eq!(mode, UiMode::Wizard);
    assert_eq!(w.error, "invalid count");
    assert_eq!(w.step, 4);
    assert!(!busy);
}

#[test]
fn action_result_create_success_selects_new_loop() {
    let effect = action_result_effect(&result(ActionType::Create, "new-loop-42", "Created 1 loop", None));
    assert!(effect.leave_wizard);
    assert_eq!(effect.select, Some("new-loop-42".to_owned()));
    assert_eq!(effect.status, Some((StatusKind::Success, "Created 1 loop".to_owned())));
    assert!(effect.fetch);
    let (mut w, mut mode, mut busy) = (fresh_wizard(), UiMode::Wizard, true);
    w.step = 4;
    w.field = 3;
    w.error = "old".to_owned();
    apply_result_effect(&effect, &mut w, &mut mode, &mut busy);
    assert_eq!(mode, UiMode::Main);
    assert_eq!((w.step, w.field, w.error.as_str()), (1, 0, ""));
    assert!(!busy);
}

#[test]
fn action_result_resume_success() {
    let effect = action_result_effect(&result(
        ActionType::Resume,
        "",
        "Loop \"my-loop\" resumed (loop-1)",
        None,
    ));
    assert!(effect.status.map(|(_, m)| m).unwrap_or_default().contains("resumed"));
    assert!(effect.fetch);
}

// -- filter bar and help --

struct Filter {
    focus: FilterFocus,
    text: String,
    status: String,
}

fn open_filter() -> Filter {
    Filter { focus: FilterFocus::Text, text: String::new(), status: "all".to_owned() }
}

fn filter(f: &mut Filter, key: KeyPress) -> FilterOutcome {
    filter_key(&mut f.focus, &mut f.text, &mut f.status, key)
}

#[test]
fn filter_text_narrows_results() {
    let loops = loops_n(5);
    let mut f = open_filter();
    assert_eq!(filter_loops(&loops, &f.text, &f.status).len(), 5);
    for c in "loop-1".chars() {
        assert_eq!(filter(&mut f, ch(c)), FilterOutcome::Refilter { fetch: true });
    }
    let shown = filter_loops(&loops, &f.text, &f.status);
    assert_eq!(shown.len(), 1);
    assert_eq!(shown[0].id, "loop-1");
}

#[test]
fn filter_backspace_removes_char() {
    let mut f = open_filter();
    filter(&mut f, ch('x'));
    assert_eq!(f.text, "x");
    assert_eq!(filter(&mut f, press(Key::Backspace)), FilterOutcome::Refilter { fetch: true });
    assert_eq!(f.text, "");
    assert_eq!(filter(&mut f, press(Key::Backspace)), FilterOutcome::Open);
}

#[test]
fn filter_tab_switches_focus() {
    let mut f = open_filter();
    assert_eq!(f.focus, FilterFocus::Text);
    filter(&mut f, press(Key::Tab));
    assert_eq!(f.focus, FilterFocus::Status);
    filter(&mut f, press(Key::Tab));
    assert_eq!(f.focus, FilterFocus::Text);
}

#[test]
fn filter_status_cycling() {
    let loops = loops_n(5);
    let mut f = open_filter();
    filter(&mut f, press(Key::Tab));
    assert_eq!(filter(&mut f, ch('j')), FilterOutcome::Refilter { fetch: false });
    assert_eq!(f.status, "running");
    let shown = filter_loops(&loops, &f.text, &f.status);
    assert!(!shown.is_empty());
    assert!(shown.iter().all(|l| l.state == "running"));
    filter(&mut f, press(Key::Up));
    assert_eq!(f.status, "all");
    assert_eq!(filter(&mut f, ch('x')), FilterOutcome::Open);
    assert_eq!(f.text, "");
}

#[test]
fn filter_escape_exits() {
    let mut f = open_filter();
    filter(&mut f, press(Key::Tab));
    assert_eq!(filter(&mut f, press(Key::Escape)), FilterOutcome::Closed);
    assert_eq!(f.focus, FilterFocus::Text);
    assert_eq!(filter(&mut f, ch('?')), FilterOutcome::Help);
}

#[test]
fn help_exits_on_q() {
    assert_eq!(help_key(UiMode::Main, ch('q')), Some(UiMode::Main));
    assert_eq!(help_key(UiMode::Help, ch('?')), Some(UiMode::Main));
    assert_eq!(help_key(UiMode::Main, ch('x')), None);
}

#[test]
fn help_returns_to_previous_mode() {
    assert_eq!(help_key(UiMode::Filter, press(Key::Escape)), Some(UiMode::Filter));
    assert_eq!(help_key(UiMode::Wizard, press(Key::Escape)), Some(UiMode::Wizard));
}

#[test]
fn wizard_typing_on_step2_edits_pool() {
    let mut w = fresh_wizard();
    wizard_key(&mut w, press(Key::Enter));
    wizard_key(&mut w, ch('p'));
    wizard_key(&mut w, ch('1'));
    assert_eq!(w.values.pool, "p1");
    wizard_key(&mut w, press(Key::Tab));
    wizard_key(&mut w, ch('x'));
    assert_eq!(w.values.profile, "x");
}

#[test]
fn wizard_render_step1_snapshot() {
    let mut w = fresh_wizard();
    w.values.name = "my-loop".to_owned();
    let lines = wizard_lines(&w, 80);
    assert!(lines[0].contains("step 1/4"));
    assert!(lines[1].contains("1) Identity+Count"));
    let body = lines.join("\n");
    assert!(body.contains("name: my-loop_"));
    assert!(body.contains("name-prefix: <empty>"));
    assert!(body.contains("count: 1"));
    assert!(body.contains("tab/down/up navigate"));
}

#[test]
fn wizard_render_step2_snapshot() {
    let mut w = fresh_wizard();
    wizard_key(&mut w, press(Key::Enter));
    let lines = wizard_lines(&w, 80);
    assert!(lines[0].contains("step 2/4"));
    let body = lines.join("\n");
    assert!(body.contains("pool: <empty>_"));
    assert!(body.contains("profile: <empty>"));
}

#[test]
fn wizard_render_step3_snapshot() {
    let mut w = fresh_wizard();
    wizard_key(&mut w, press(Key::Enter));
    wizard_key(&mut w, press(Key::Enter));
    let lines = wizard_lines(&w, 80);
    assert!(lines[0].contains("step 3/4"));
    let body = lines.join("\n");
    assert!(body.contains("prompt:"));
    assert!(body.contains("interval:"));
    assert!(body.contains("max-runtime:"));
    assert!(body.contains("max-iterations:"));
    assert!(body.contains("tags:"));
}

#[test]
fn wizard_render_step4_review_snapshot() {
    let mut w = fresh_wizard();
    w.values.name = "test".to_owned();
    w.values.interval = "10s".to_owned();
    wizard_key(&mut w, press(Key::Enter));
    wizard_key(&mut w, press(Key::Enter));
    wizard_key(&mut w, press(Key::Enter));
    assert_eq!(w.step, 4);
    let lines = wizard_lines(&w, 80);
    assert!(lines[0].contains("step 4/4"));
    let body = lines.join("\n");
    assert!(body.contains("Review:"));
    assert!(body.contains("name=\"test\""));
    assert!(body.contains("count=\"1\""));
    assert!(body.contains("interval=\"10s\""));
}

#[test]
fn wizard_render_shows_error() {
    let mut w = fresh_wizard();
    w.values.count = "0".to_owned();
    wizard_key(&mut w, press(Key::Enter));
    let lines = wizard_lines(&w, 80);
    let body = lines.join("\n");
    assert!(body.contains("Error:"));
    assert!(body.contains("count"));
}

#[test]
fn wizard_render_truncates_long_lines() {
    let mut w = fresh_wizard();
    w.values.name = "a".repeat(100);
    let lines = wizard_lines(&w, 50);
    for line in &lines {
        assert!(line.len() <= 50, "line too long: {}", line.len());
    }
}

#[test]
fn wizard_screen_layout_is_exact() {
    let mut w = fresh_wizard();
    w.field = 2;
    w.error = "bad".to_owned();
    let lines = wizard_lines(&w, 200);
    assert_eq!(
        lines,
        vec![
            "New loop wizard (step 1/4)".to_owned(),
            "1) Identity+Count  2) Pool/Profile  3) Prompt+Runtime  4) Review+Submit".to_owned(),
            String::new(),
            "name: <empty>".to_owned(),
            "name-prefix: <empty>".to_owned(),
            "count: 1_".to_owned(),
            String::new(),
            "tab/down/up navigate fields, enter next/submit, b back, esc cancel".to_owned(),
            "Error: bad".to_owned(),
        ]
    );
    w.step = 9;
    assert!(wizard_lines(&w, 200)[0].contains("step 4/4"));
    w.values.tags = "a\"b".to_owned();
    assert!(wizard_lines(&w, 200).iter().any(|l| l == "  tags=\"a\\\"b\""));
}

#[test]
fn confirm_help_and_short_reason_keep_the_dialog() {
    let c = confirm(ActionType::Kill, 0);
    let mut slot = Some(c.clone());
    let mut mode = UiMode::Confirm;
    let mut help_return = UiMode::Main;
    assert_eq!(apply_confirm_outcome(ConfirmOutcome::Help, &mut slot, &mut mode, &mut help_return), Command::Noop);
    assert_eq!((mode, help_return), (UiMode::Help, UiMode::Confirm));
    assert!(slot.is_some());
    assert_eq!(settle(ConfirmOutcome::ReasonTooShort, c), (Command::Noop, UiMode::Confirm, false));
    let mut none: Option<ConfirmState> = None;
    let mut mode = UiMode::Confirm;
    assert_eq!(apply_confirm_outcome(ConfirmOutcome::Open, &mut none, &mut mode, &mut help_return), Command::Noop);
    assert_eq!(mode, UiMode::Main);
}

#[test]
fn confirm_dialog_rows_show_rail_and_reason() {
    let mut c = confirm(ActionType::Stop, 0);
    let rows = confirm_rows(&c, 200);
    assert_eq!(rows[0], "Stop loop loop-0 after current iteration? [y/N]");
    assert_eq!(rows[1], "Action rail: [Cancel]   Confirm ");
    assert_eq!(rows[2], "tab/left/right switch  enter select  y confirm  n cancel");
    assert_eq!(rows[3], "");
    confirm_key(&mut c, press(Key::Tab));
    assert_eq!(confirm_rows(&c, 200)[1], "Action rail:  Cancel   [Confirm]");
    let mut k = confirm(ActionType::Kill, 0);
    assert_eq!(confirm_rows(&k, 200)[2], "Reason (0/12+): <type reason>");
    for c2 in " outage ".chars() {
        confirm_key(&mut k, ch(c2));
    }
    assert_eq!(confirm_rows(&k, 200)[2], "Reason (6/12+):  outage ");
    assert!(confirm_rows(&k, 200)[3].starts_with("type reason"));
    assert_eq!(confirm_rows(&k, 9)[0], "Kill loop");
}

#[test]
fn filter_bar_line() {
    assert_eq!(filter_line("agent", "running", 200), "Filter: agent [status: running]");
    assert_eq!(filter_line("agent", "running", 6), "Filter");
}
