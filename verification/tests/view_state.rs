use forge_tui::app::{ActionKind, Command, DensityMode, FocusMode, LogLayer, LogSource, MainTab, UiMode};
use forge_tui::keys::Intent;
use forge_tui::modes::{Key, KeyPress};
use forge_tui::view_state::{apply_intent, expanded_key, main_key, IntentInputs, ViewState};

fn key(k: Key) -> KeyPress {
    KeyPress { key: k, shift: false, ctrl: false, alt: false }
}

fn ch(c: char) -> KeyPress {
    key(Key::Char(c))
}

fn ctrl(c: char) -> KeyPress {
    KeyPress { key: Key::Char(c), shift: false, ctrl: true, alt: false }
}

/// What the shell knows besides the view: 12 log lines configured, two
/// runs, no threads, and whether a loop is selected.
fn inputs(has_selection: bool) -> IntentInputs {
    IntentInputs { log_lines: 12, threads: 0, runs: 2, has_selection, busy: false, found: false }
}

fn press(v: &mut ViewState, k: KeyPress) -> Command {
    main_key(v, k, inputs(true), "loop-0")
}

#[test]
fn number_keys_switch_tabs() {
    let mut v = ViewState::new();
    for (c, tab) in [('2', MainTab::Logs), ('3', MainTab::Runs), ('4', MainTab::MultiLogs), ('5', MainTab::Inbox), ('1', MainTab::Overview)] {
        assert_eq!(press(&mut v, ch(c)), Command::Fetch);
        assert_eq!(v.tab, tab);
        assert_eq!(v.mode, UiMode::Main);
    }
}

#[test]
fn bracket_keys_cycle_tabs() {
    let mut v = ViewState::new();
    press(&mut v, ch(']'));
    assert_eq!(v.tab, MainTab::Logs);
    press(&mut v, ch(']'));
    assert_eq!(v.tab, MainTab::Runs);
    press(&mut v, ch('['));
    assert_eq!(v.tab, MainTab::Logs);
}

#[test]
fn multi_logs_tab_sets_focus_right() {
    let mut v = ViewState::new();
    assert!(!v.focus_right);
    press(&mut v, ch('4'));
    assert!(v.focus_right);
    press(&mut v, ch('1'));
    assert!(!v.focus_right);
}

#[test]
fn tab_and_shift_tab_wrap_focus_graph_in_main_mode() {
    let mut v = ViewState::new();
    press(&mut v, ch('2'));
    assert!(!v.focus_right);
    press(&mut v, key(Key::Tab));
    assert!(v.focus_right);
    press(&mut v, key(Key::Tab));
    assert!(!v.focus_right);
    press(&mut v, KeyPress { key: Key::Tab, shift: true, ctrl: false, alt: false });
    assert!(v.focus_right);
}

#[test]
fn left_right_wrap_focus_graph_without_dead_end() {
    let mut v = ViewState::new();
    press(&mut v, ch('5'));
    assert!(!v.focus_right);
    press(&mut v, key(Key::Left));
    assert!(v.focus_right);
    press(&mut v, key(Key::Right));
    assert!(!v.focus_right);
}

#[test]
fn z_toggles_zen() {
    let mut v = ViewState::new();
    assert!(!v.focus_right);
    press(&mut v, ch('z'));
    assert!(v.focus_right);
    press(&mut v, ch('z'));
    assert!(!v.focus_right);
}

#[test]
fn m_cycles_density_modes() {
    let mut v = ViewState::new();
    assert_eq!(v.density, DensityMode::Comfortable);
    let status = v.cycle_density(1);
    assert_eq!(v.density, DensityMode::Compact);
    assert!(status.contains("Density: compact"));
    press(&mut v, ch('M'));
    assert_eq!(v.density, DensityMode::Comfortable);
}

#[test]
fn shift_z_toggles_deep_focus() {
    let mut v = ViewState::new();
    press(&mut v, ch('Z'));
    assert_eq!(v.focus_mode, FocusMode::DeepDebug);
    assert!(v.focus_right);
    press(&mut v, ch('Z'));
    assert_eq!(v.focus_mode, FocusMode::Standard);
    assert!(!v.focus_right);
}

#[test]
fn v_cycles_log_source_in_logs_tab() {
    let mut v = ViewState::new();
    v.set_tab(MainTab::Logs, 0);
    assert_eq!(v.log_source, LogSource::Live);
    press(&mut v, ch('v'));
    assert_eq!(v.log_source, LogSource::LatestRun);
    press(&mut v, ch('v'));
    assert_eq!(v.log_source, LogSource::RunSelection);
}

#[test]
fn v_noop_in_overview_tab() {
    let mut v = ViewState::new();
    press(&mut v, ch('v'));
    assert_eq!(v.log_source, LogSource::Live);
}

#[test]
fn x_cycles_log_layer() {
    let mut v = ViewState::new();
    v.set_tab(MainTab::Logs, 0);
    assert_eq!(v.log_layer, LogLayer::Raw);
    press(&mut v, ch('x'));
    assert_eq!(v.log_layer, LogLayer::Events);
}

#[test]
fn u_d_scroll_in_logs_tab() {
    let mut v = ViewState::new();
    v.set_tab(MainTab::Logs, 0);
    assert_eq!(v.log_scroll, 0);
    assert_eq!(press(&mut v, ch('u')), Command::Fetch);
    // A page is half the 12 log lines plus a step of 20.
    assert_eq!(v.log_scroll, 26);
    assert!(!v.follow);
    assert_eq!((v.tab, v.mode), (MainTab::Logs, UiMode::Main));
    assert_eq!(press(&mut v, ch('d')), Command::Fetch);
    assert_eq!((v.log_scroll, v.follow), (0, true));
}

#[test]
fn follow_mode_defaults_on() {
    assert!(ViewState::new().follow);
}

#[test]
fn scroll_up_disengages_follow() {
    let mut v = ViewState::new();
    v.set_tab(MainTab::Logs, 0);
    assert!(v.follow);
    press(&mut v, ch('u'));
    assert!(!v.follow);
}

#[test]
fn scroll_to_bottom_reengages_follow() {
    let mut v = ViewState::new();
    v.set_tab(MainTab::Logs, 0);
    press(&mut v, ch('u'));
    assert!(!v.follow);
    v.scroll_to_bottom();
    assert!(v.follow);
    assert_eq!(v.log_scroll, 0);
}

#[test]
fn toggle_follow_flips_state() {
    let mut v = ViewState::new();
    v.set_tab(MainTab::Logs, 0);
    assert!(v.follow);
    v.toggle_follow();
    assert!(!v.follow);
    v.toggle_follow();
    assert!(v.follow);
    assert_eq!(v.log_scroll, 0);
}

#[test]
fn f_key_toggles_follow_in_logs_tab() {
    let mut v = ViewState::new();
    v.set_tab(MainTab::Logs, 0);
    assert!(v.follow);
    press(&mut v, ch('F'));
    assert!(!v.follow);
    press(&mut v, ch('F'));
    assert!(v.follow);
}

#[test]
fn follow_mode_resets_on_tab_change() {
    let mut v = ViewState::new();
    v.set_tab(MainTab::Logs, 0);
    press(&mut v, ch('u'));
    assert!(!v.follow);
    v.set_tab(MainTab::Runs, 0);
    assert!(v.follow);
}

#[test]
fn follow_mode_resets_on_source_change() {
    let mut v = ViewState::new();
    v.set_tab(MainTab::Logs, 0);
    press(&mut v, ch('u'));
    assert!(!v.follow);
    v.cycle_log_source(1);
    assert!(v.follow);
}

#[test]
fn follow_mode_pins_scroll_on_new_data() {
    let mut v = ViewState::new();
    v.set_tab(MainTab::Logs, 0);
    assert!(v.follow);
    v.set_log_line_count(2);
    assert_eq!(v.log_scroll, 0);
    v.set_log_line_count(3);
    assert_eq!(v.log_scroll, 0);
    assert!(v.follow);
}

#[test]
fn expanded_logs_f_toggles_follow() {
    let mut v = ViewState::new();
    assert!(v.follow);
    assert_eq!(press(&mut v, ch('l')), Command::Fetch);
    assert_eq!(v.mode, UiMode::ExpandedLogs);
    expanded_key(&mut v, ch('F'), inputs(true), "loop-0");
    assert!(!v.follow);
    expanded_key(&mut v, ch('F'), inputs(true), "loop-0");
    assert!(v.follow);
}

#[test]
fn comma_dot_move_run_selection() {
    let mut v = ViewState::new();
    v.set_tab(MainTab::Logs, 0);
    v.set_run_count(2);
    assert_eq!(v.selected_run, 0);
    press(&mut v, ch('.'));
    assert_eq!(v.selected_run, 1);
    press(&mut v, ch(','));
    assert_eq!(v.selected_run, 0);
}

#[test]
fn run_selection_clamps_and_an_empty_history_falls_back_to_live() {
    let mut v = ViewState::new();
    v.move_run_selection(3, 10);
    assert_eq!(v.selected_run, 2);
    v.cycle_log_source(2);
    assert_eq!(v.log_source, LogSource::RunSelection);
    v.set_run_count(2);
    assert_eq!(v.selected_run, 1);
    v.set_run_count(0);
    assert_eq!((v.selected_run, v.log_source), (0, LogSource::Live));
}

#[test]
fn inbox_tab_clamps_its_selection() {
    let mut v = ViewState::new();
    v.move_inbox_selection(5, 4);
    assert_eq!(v.inbox_selected_thread, 4);
    v.set_tab(MainTab::Inbox, 2);
    assert_eq!(v.inbox_selected_thread, 1);
    v.move_inbox_selection(2, -3);
    assert_eq!(v.inbox_selected_thread, 0);
}

#[test]
fn compare_mode_resets_the_shared_scroll() {
    let mut v = ViewState::new();
    v.scroll_logs(5);
    assert_eq!(v.toggle_compare(), "Multi compare: on (shared scroll + diff hints)");
    assert_eq!(v.log_scroll, 0);
    assert_eq!(v.toggle_compare(), "Multi compare: off");
    v.scroll_to_top();
    assert_eq!((v.log_scroll, v.follow), (8000, false));
}

#[test]
fn scrolling_back_and_forth_returns_to_the_same_line() {
    let mut v = ViewState::new();
    v.scroll_logs(7);
    v.scroll_logs(3);
    v.scroll_logs(-3);
    assert_eq!((v.log_scroll, v.follow), (7, false));
    v.scroll_logs(-7);
    assert_eq!((v.log_scroll, v.follow), (0, true));
}

#[test]
fn q_quits() {
    let mut v = ViewState::new();
    assert_eq!(press(&mut v, ch('q')), Command::Quit);
    assert!(v.quitting);
}

#[test]
fn question_mark_enters_help() {
    let mut v = ViewState::new();
    assert_eq!(press(&mut v, ch('?')), Command::Noop);
    assert_eq!((v.mode, v.help_return), (UiMode::Help, UiMode::Main));
}

#[test]
fn export_key_dispatches_export_command() {
    let mut v = ViewState::new();
    assert_eq!(press(&mut v, ch('E')), Command::ExportCurrentView);
}

#[test]
fn slash_enters_filter_mode() {
    let mut v = ViewState::new();
    assert_eq!(press(&mut v, ch('/')), Command::Noop);
    assert_eq!(v.mode, UiMode::Filter);
}

#[test]
fn l_enters_expanded_logs() {
    let mut v = ViewState::new();
    assert_eq!(press(&mut v, ch('l')), Command::Fetch);
    assert_eq!(v.mode, UiMode::ExpandedLogs);
}

#[test]
fn l_noop_without_selection() {
    let mut v = ViewState::new();
    assert_eq!(main_key(&mut v, ch('l'), inputs(false), ""), Command::Noop);
    assert_eq!(v.mode, UiMode::Main);
}

#[test]
fn expanded_logs_escape_returns_to_main() {
    let mut v = ViewState::new();
    press(&mut v, ch('l'));
    assert_eq!(v.mode, UiMode::ExpandedLogs);
    let before = v;
    assert_eq!(expanded_key(&mut v, key(Key::Escape), inputs(true), "loop-0"), Command::Fetch);
    assert_eq!(v.mode, UiMode::Main);
    assert_eq!((v.tab, v.log_scroll, v.selected_run), (before.tab, before.log_scroll, before.selected_run));
}

#[test]
fn expanded_logs_help_returns_to_expanded_logs() {
    let mut v = ViewState::new();
    press(&mut v, ch('l'));
    assert_eq!(expanded_key(&mut v, ch('?'), inputs(true), "loop-0"), Command::Noop);
    assert_eq!((v.mode, v.help_return), (UiMode::Help, UiMode::ExpandedLogs));
}

#[test]
fn r_resumes_selected() {
    let mut v = ViewState::new();
    match press(&mut v, ch('r')) {
        Command::RunAction(ActionKind::Resume { loop_id }) => assert_eq!(loop_id, "loop-0"),
        other => panic!("Expected RunAction(Resume), got {other:?}"),
    }
}

#[test]
fn r_noop_without_selection() {
    let mut v = ViewState::new();
    assert_eq!(main_key(&mut v, ch('r'), inputs(false), ""), Command::Noop);
    let busy = IntentInputs { busy: true, ..inputs(true) };
    assert_eq!(main_key(&mut v, ch('r'), busy, "loop-0"), Command::Noop);
}

#[test]
fn destructive_keys_open_the_confirmation_only_with_a_selection() {
    let mut v = ViewState::new();
    assert_eq!(press(&mut v, ch('S')), Command::Noop);
    assert_eq!(v.mode, UiMode::Confirm);
    let mut w = ViewState::new();
    press(&mut w, ch('l'));
    assert_eq!(w.mode, UiMode::ExpandedLogs);
    expanded_key(&mut w, ch('K'), inputs(false), "");
    assert_eq!(w.mode, UiMode::Main);
}

#[test]
fn jumps_fetch_only_when_they_land() {
    let mut v = ViewState::new();
    let found = IntentInputs { found: true, ..inputs(true) };
    assert_eq!(apply_intent(&mut v, Intent::Backtrack, inputs(true), ""), Command::Noop);
    assert_eq!(apply_intent(&mut v, Intent::Backtrack, found, ""), Command::Fetch);
    assert_eq!(main_key(&mut v, ctrl('e'), found, ""), Command::Fetch);
    assert_eq!(v, ViewState::new());
}
