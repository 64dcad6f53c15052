use forge_tui::app::{LogLayer, LogSource, StatusKind};
use forge_tui::log_search::{
    decorate_log_line, empty_log_text, logs_info_line, selected_match_line, LineEmphasis, LogSearch,
    SearchJump, SearchOutcome,
};
use forge_tui::modes::{Key, KeyPress};

fn press(key: Key) -> KeyPress {
    KeyPress { key, shift: false, ctrl: false, alt: false }
}

fn ch(c: char) -> KeyPress {
    press(Key::Char(c))
}

fn ctrl(c: char) -> KeyPress {
    KeyPress { key: Key::Char(c), shift: false, ctrl: true, alt: false }
}

fn lines(items: &[&str]) -> Vec<String> {
    items.iter().map(|s| (*s).to_owned()).collect()
}

#[test]
fn regex_search_mode_opens_on_logs_tab_and_persists_query() {
    let log = lines(&["alpha event", "error: timeout", "error: retry"]);
    let mut search = LogSearch::new();
    for c in "error".chars() {
        assert_eq!(search.search_key(&log, ch(c)), SearchOutcome::Open { fetch: true });
    }
    assert_eq!(search.query(), "error");
    assert_eq!(search.match_indices(&log), vec![1, 2]);
    assert_eq!(search.search_key(&log, press(Key::Enter)), SearchOutcome::Closed { fetch: true });
    assert_eq!(search.query(), "error");
}

#[test]
fn regex_search_jumps_matches_and_highlights_selected_line() {
    let log = lines(&["first", "error: first", "between", "error: second"]);
    let mut search = LogSearch::new();
    for c in "error".chars() {
        search.search_key(&log, ch(c));
    }
    assert_eq!(
        search.search_key(&log, ch('j')),
        SearchOutcome::Jump(SearchJump::Jumped { scroll: 0, status: "Regex match 2/2".to_owned() })
    );
    assert_eq!(search.selected_match(), 1);
    assert_eq!(
        search.search_key(&log, press(Key::Up)),
        SearchOutcome::Jump(SearchJump::Jumped { scroll: 2, status: "Regex match 1/2".to_owned() })
    );
    assert_eq!(
        search.search_key(&log, press(Key::Up)),
        SearchOutcome::Jump(SearchJump::Jumped { scroll: 0, status: "Regex match 2/2".to_owned() })
    );
    assert_eq!(search.match_indices(&log).len(), 2);
}

#[test]
fn regex_search_invalid_pattern_surfaces_error() {
    let log = lines(&["error: first"]);
    let mut search = LogSearch::new();
    search.search_key(&log, ch('['));
    assert!(search.error().contains("invalid regex"));
    assert!(search.match_indices(&log).is_empty());
    match search.jump(&log, 1) {
        SearchJump::Status(kind, message) => {
            assert_eq!(kind, StatusKind::Error);
            assert!(message.starts_with("invalid regex: "));
        }
        other => panic!("an invalid pattern cannot jump: {other:?}"),
    }
    // fixing the pattern clears the error
    search.search_key(&log, press(Key::Backspace));
    assert_eq!(search.query(), "");
    assert_eq!(search.error(), "");
}

#[test]
fn regex_search_reports_blank_queries_and_missing_matches() {
    let log = lines(&["alpha", "beta"]);
    let mut search = LogSearch::new();
    assert_eq!(
        search.jump(&log, 1),
        SearchJump::Status(StatusKind::Info, "Regex query is empty".to_owned())
    );
    search.set_query("  ".to_owned());
    assert_eq!(search.error(), "");
    assert!(search.match_indices(&log).is_empty());
    search.set_query("gamma".to_owned());
    assert_eq!(
        search.jump(&log, 1),
        SearchJump::Status(StatusKind::Info, "No regex matches".to_owned())
    );
    search.set_query("^b".to_owned());
    assert_eq!(search.match_indices(&log), vec![1]);
    assert_eq!(search.search_key(&log, ctrl('u')), SearchOutcome::Open { fetch: true });
    assert_eq!(search.query(), "");
    assert_eq!(search.search_key(&log, ch('?')), SearchOutcome::Help);
    assert_eq!(search.search_key(&log, press(Key::Escape)), SearchOutcome::Closed { fetch: false });
    assert_eq!(search.search_key(&log, ctrl('x')), SearchOutcome::Open { fetch: false });
}

#[test]
fn info_line_reports_the_view_and_the_search() {
    let log = lines(&["alpha event", "error: timeout", "error: retry"]);
    let mut search = LogSearch::new();
    assert_eq!(search.status_suffix(0), "");
    search.set_query("error".to_owned());
    let matches = search.match_indices(&log);
    let suffix = search.status_suffix(matches.len());
    assert_eq!(suffix, "  regex:/error/ 1/2");
    assert_eq!(
        logs_info_line(LogSource::Live, LogLayer::Raw, true, 0, log.len(), &suffix),
        "source:live  layer:raw  follow:on  scroll:0  lines:3  regex:/error/ 1/2"
    );
    assert_eq!(
        logs_info_line(LogSource::RunSelection, LogLayer::Diff, false, 7, 0, ""),
        "source:selected-run  layer:diff  follow:off  scroll:7  lines:0"
    );
    search.set_query("nomatch".to_owned());
    assert_eq!(search.status_suffix(0), "  regex:/nomatch/ 0/0");
    search.set_query("(".to_owned());
    let broken = search.status_suffix(0);
    assert!(broken.starts_with("  regex:"));
    assert!(!broken.starts_with("  regex:/"));
}

#[test]
fn log_lines_mark_matches_and_the_selection() {
    let matches = vec![1usize, 4];
    assert_eq!(selected_match_line(&matches, 0), Some(1));
    assert_eq!(selected_match_line(&matches, 9), Some(4));
    assert_eq!(selected_match_line(&Vec::new(), 0), None);
    let selected = selected_match_line(&matches, 1);
    assert_eq!(decorate_log_line("x", 4, &matches, selected), ("> x".to_owned(), LineEmphasis::Selected));
    assert_eq!(decorate_log_line("y", 1, &matches, selected), ("* y".to_owned(), LineEmphasis::Match));
    assert_eq!(
        decorate_log_line("! [ANOM: spike]", 2, &matches, selected),
        ("! [ANOM: spike]".to_owned(), LineEmphasis::Anomaly)
    );
    assert_eq!(decorate_log_line("plain", 3, &matches, selected), ("plain".to_owned(), LineEmphasis::Plain));
}

#[test]
fn empty_log_shows_its_message_or_a_placeholder() {
    assert_eq!(empty_log_text("  "), "No log content yet");
    assert_eq!(empty_log_text(" Log file missing: /x \n"), "Log file missing: /x");
}

#[test]
fn regex_overlay_rows() {
    let log = lines(&["alpha event", "error: timeout", "error: retry"]);
    let mut search = LogSearch::new();
    search.set_query("error".to_owned());
    let n = search.match_indices(&log).len();
    let rows = search.overlay_lines(n, log.len(), 200, 10);
    assert_eq!(rows.len(), 3);
    assert!(rows[0].starts_with("Regex Log Search"));
    assert_eq!(rows[1], "query: /error/");
    assert_eq!(rows[2], "matches: 1/2  lines:3");
    assert_eq!(search.overlay_lines(n, log.len(), 5, 2), vec!["Regex".to_owned(), "query".to_owned()]);
    search.set_query("(".to_owned());
    assert!(search.overlay_lines(0, 3, 200, 3)[2].starts_with("error: "));
}
