use forge_tui::app::LoopView;
use forge_tui::loop_list::{
    cycle_filter_status, filter_loops, log_scroll_page_size, move_selection_index,
    ordered_multi_targets, reselect, scroll_logs, toggle_pinned,
};

fn lv(id: &str, name: &str, state: &str, repo: &str) -> LoopView {
    LoopView {
        id: id.to_owned(),
        name: name.to_owned(),
        state: state.to_owned(),
        repo_path: repo.to_owned(),
        ..LoopView::default()
    }
}

fn sample() -> Vec<LoopView> {
    vec![
        lv("loop-0", "alpha", "running", "/repo/a"),
        lv("loop-1", "beta", "Stopped", "/repo/b"),
        lv("loop-2", "gamma", "running", "/srv/Gamma"),
    ]
}

#[test]
fn filters_match_state_and_text_ignoring_case() {
    let ids = |v: Vec<LoopView>| v.into_iter().map(|l| l.id).collect::<Vec<_>>();
    assert_eq!(ids(filter_loops(&sample(), "", "all")), vec!["loop-0", "loop-1", "loop-2"]);
    assert_eq!(ids(filter_loops(&sample(), "", " RUNNING ")), vec!["loop-0", "loop-2"]);
    assert_eq!(ids(filter_loops(&sample(), "stopped", "")), Vec::<String>::new());
    assert_eq!(ids(filter_loops(&sample(), "", "stopped")), vec!["loop-1"]);
    assert_eq!(ids(filter_loops(&sample(), " gAmMa", "")), vec!["loop-2"]);
    assert_eq!(ids(filter_loops(&sample(), "repo", "running")), vec!["loop-0"]);
}

#[test]
fn reselect_keeps_previous_loop_or_clamps() {
    let list = sample();
    assert_eq!(reselect(&list, "loop-2", 0), (2, "loop-2".to_owned()));
    assert_eq!(reselect(&list, "gone", 7), (2, "loop-2".to_owned()));
    assert_eq!(reselect(&list, "", 1), (1, "loop-1".to_owned()));
    assert_eq!(reselect(&Vec::new(), "loop-2", 3), (0, String::new()));
}

#[test]
fn selection_moves_and_clamps() {
    assert_eq!(move_selection_index(3, 0, 1), 1);
    assert_eq!(move_selection_index(3, 2, 5), 2);
    assert_eq!(move_selection_index(3, 1, -4), 0);
    assert_eq!(move_selection_index(0, 4, 1), 0);
}

#[test]
fn status_filter_cycles_and_wraps() {
    assert_eq!(cycle_filter_status("all", 1), "running");
    assert_eq!(cycle_filter_status("error", 1), "all");
    assert_eq!(cycle_filter_status("all", -1), "error");
    assert_eq!(cycle_filter_status("bogus", 2), "sleeping");
}

#[test]
fn pinned_loops_lead_the_matrix() {
    let list = sample();
    let mut pinned = Vec::new();
    assert_eq!(toggle_pinned(&mut pinned, "loop-2"), Some("Pinned loop-2".to_owned()));
    assert_eq!(toggle_pinned(&mut pinned, "  "), None);
    let ordered: Vec<&str> = ordered_multi_targets(&list, &pinned).iter().map(|l| l.id.as_str()).collect();
    assert_eq!(ordered, vec!["loop-2", "loop-0", "loop-1"]);
    assert_eq!(toggle_pinned(&mut pinned, "loop-2"), Some("Unpinned loop-2".to_owned()));
    assert!(pinned.is_empty());
}

#[test]
fn log_scrolling_follows_only_at_bottom() {
    assert_eq!(scroll_logs(0, true, 5), (5, false));
    assert_eq!(scroll_logs(5, false, -2), (3, false));
    assert_eq!(scroll_logs(3, false, -9), (0, true));
    assert_eq!(scroll_logs(0, true, 0), (0, true));
    assert_eq!(log_scroll_page_size(12), 26);
    assert_eq!(log_scroll_page_size(0), 20);
}

#[test]
fn toggling_a_pin_twice_restores_the_pinned_set() {
    let mut pinned = vec!["loop-1".to_owned(), "loop-3".to_owned()];
    assert_eq!(toggle_pinned(&mut pinned, "loop-3"), Some("Unpinned loop-3".to_owned()));
    assert_eq!(pinned, vec!["loop-1".to_owned()]);
    assert_eq!(toggle_pinned(&mut pinned, "loop-3"), Some("Pinned loop-3".to_owned()));
    let mut sorted = pinned.clone();
    sorted.sort();
    assert_eq!(sorted, vec!["loop-1".to_owned(), "loop-3".to_owned()]);
}
