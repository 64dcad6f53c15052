use forge_tui::app::MainTab;
use forge_tui::session::{capture_session, restore_session, PaneSelection, SessionContext};

fn ids(items: &[&str]) -> Vec<String> {
    items.iter().map(|s| (*s).to_owned()).collect()
}

fn pane(id: &str, focused: bool) -> PaneSelection {
    PaneSelection { pane_id: id.to_owned(), focused }
}

#[test]
fn stored_session_comes_back_when_everything_is_still_there() {
    let loops = ids(&["loop-0", "loop-1", "loop-2", "loop-3"]);
    let runs = ids(&["run-1", "run-2"]);
    let ctx = SessionContext {
        selected_loop_id: Some("loop-2".to_owned()),
        selected_run_id: Some("run-2".to_owned()),
        log_scroll: 22,
        tab_id: Some("multi".to_owned()),
        layout_id: Some("2x3".to_owned()),
        filter_state: Some("running".to_owned()),
        filter_query: Some("agent timeout".to_owned()),
        panes: vec![pane("left", false), pane("right", true)],
        pinned_loop_ids: ids(&["loop-0", "loop-3"]),
    };
    let r = restore_session(&ctx, Some(5), &loops, &loops, &runs, "loop-0");
    assert!(r.notices.is_empty());
    assert_eq!(r.tab, Some(MainTab::MultiLogs));
    assert_eq!(r.layout, Some(5));
    assert_eq!(r.filter_state.as_deref(), Some("running"));
    assert_eq!(r.filter_text, "agent timeout");
    assert_eq!(r.selection, Some((Some(2), "loop-2".to_owned())));
    assert_eq!(r.selected_run, Some(1));
    assert_eq!(r.focus_right, Some(true));
    assert_eq!(r.pinned, ids(&["loop-0", "loop-3"]));
    assert_eq!((r.log_scroll, r.follow), (22, false));
}

#[test]
fn unavailable_values_are_reported_and_the_scroll_clamped() {
    let loops = ids(&["loop-0", "loop-1"]);
    let ctx = SessionContext {
        selected_loop_id: Some("missing-loop".to_owned()),
        selected_run_id: Some("missing-run".to_owned()),
        log_scroll: 8000 + 5000,
        tab_id: Some("missing-tab".to_owned()),
        layout_id: Some("9x9".to_owned()),
        filter_state: Some("unknown".to_owned()),
        filter_query: Some("x".to_owned()),
        panes: vec![pane("unknown-pane", true)],
        pinned_loop_ids: ids(&["missing-loop"]),
    };
    let r = restore_session(&ctx, None, &loops, &loops, &ids(&["run-1"]), "loop-0");
    assert_eq!(
        r.notices,
        ids(&[
            "stored tab unavailable: missing-tab",
            "stored layout unavailable: 9x9",
            "stored filter-state unavailable: unknown",
            "stored loop unavailable: missing-loop",
            "stored run unavailable: missing-run",
            "stored pane focus unavailable: unknown-pane",
        ])
    );
    assert_eq!(r.tab, None);
    assert_eq!(r.layout, None);
    assert_eq!(r.selection, None);
    assert_eq!(r.selected_run, None);
    assert!(r.pinned.is_empty());
    assert_eq!((r.log_scroll, r.follow), (8000, false));
}

#[test]
fn loops_outside_the_filter_and_normalized_values() {
    let ctx = SessionContext {
        selected_loop_id: Some("loop-9".to_owned()),
        selected_run_id: Some("  run-1 ".to_owned()),
        log_scroll: 0,
        tab_id: Some(" Logs ".to_owned()),
        layout_id: None,
        filter_state: Some(" ERROR ".to_owned()),
        filter_query: None,
        panes: vec![pane("x", false), pane(" LEFT ", true), pane("right", true)],
        pinned_loop_ids: ids(&[" LOOP-9 ", "", "loop-9"]),
    };
    let r = restore_session(&ctx, Some(1), &ids(&["loop-1"]), &ids(&["loop-1", "loop-9"]), &ids(&["run-0", "run-1"]), "");
    assert!(r.notices.is_empty());
    assert_eq!(r.tab, Some(MainTab::Logs));
    assert_eq!(r.layout, None);
    assert_eq!(r.filter_state.as_deref(), Some("error"));
    assert_eq!(r.filter_text, "");
    assert_eq!(r.selection, Some((None, "loop-9".to_owned())));
    assert_eq!(r.selected_run, Some(1));
    assert_eq!(r.focus_right, Some(false));
    assert_eq!(r.pinned, ids(&["loop-9", "loop-9"]));
    assert!(r.follow);
    // A missing loop that matches the current selection up to case is no loss.
    let same = SessionContext { selected_loop_id: Some("LOOP-1 ".to_owned()), selected_run_id: None, ..ctx };
    let r = restore_session(&same, None, &ids(&[]), &ids(&[]), &ids(&[]), "loop-1");
    assert!(r.notices.is_empty());
    assert_eq!(r.selection, None);
}

#[test]
fn captured_session_is_stored_as_the_shell_holds_it() {
    let runs = ids(&["run-1", "run-2"]);
    let pins = ids(&["loop-3", "loop-0"]);
    let ctx = capture_session(
        MainTab::Logs, "2x3", "loop-2", &runs, 1, 40, "running", "  ", true, &pins,
    );
    assert_eq!(ctx.selected_loop_id.as_deref(), Some("loop-2"));
    assert_eq!(ctx.selected_run_id.as_deref(), Some("run-2"));
    assert_eq!(ctx.log_scroll, 40);
    assert_eq!(ctx.tab_id.as_deref(), Some("logs"));
    assert_eq!(ctx.layout_id.as_deref(), Some("2x3"));
    assert_eq!(ctx.filter_state.as_deref(), Some("running"));
    assert_eq!(ctx.filter_query, None);
    assert_eq!(ctx.panes, vec![pane("left", false), pane("right", true)]);
    assert_eq!(ctx.pinned_loop_ids, ids(&["loop-0", "loop-3"]));

    let empty = capture_session(MainTab::Overview, "1x1", " ", &runs, 5, 0, "", "", false, &Vec::new());
    assert_eq!(empty.selected_loop_id, None);
    assert_eq!(empty.selected_run_id, None);
    assert_eq!(empty.filter_state, None);
    assert_eq!(empty.tab_id.as_deref(), Some("ov"));
}

#[test]
fn restoring_a_captured_session_gives_the_state_back() {
    let loops = ids(&["loop-0", "loop-1", "loop-2", "loop-3"]);
    let runs = ids(&["run-1", "run-2", "run-3"]);
    let pins = ids(&["loop-3", "loop-1"]);
    let ctx = capture_session(
        MainTab::Inbox, "2x3", "loop-2", &runs, 2, 17, "error", "timeout", false, &pins,
    );
    let r = restore_session(&ctx, Some(4), &loops, &loops, &runs, "loop-0");
    assert!(r.notices.is_empty());
    assert_eq!(r.tab, Some(MainTab::Inbox));
    assert_eq!(r.layout, Some(4));
    assert_eq!(r.filter_state.as_deref(), Some("error"));
    assert_eq!(r.filter_text, "timeout");
    assert_eq!(r.selection, Some((Some(2), "loop-2".to_owned())));
    assert_eq!(r.selected_run, Some(2));
    assert_eq!(r.focus_right, Some(false));
    assert_eq!(r.pinned, ids(&["loop-1", "loop-3"]));
    assert_eq!((r.log_scroll, r.follow), (17, false));
}
