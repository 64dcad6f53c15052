use forge_tui::app::{DensityMode, FocusMode, MainTab};
use forge_tui::footer::{footer_hint_limit, footer_hints, KeyCommand};

#[test]
fn comfortable_overview_offers_the_full_list() {
    let hints = footer_hints(FocusMode::Standard, DensityMode::Comfortable, MainTab::Overview);
    assert_eq!(hints.len(), 16);
    assert_eq!((hints[0].key.as_str(), hints[0].label.as_str(), hints[0].priority), ("?", "help", 10));
    assert_eq!(hints[0].command, Some(KeyCommand::ToggleHelp));
    assert_eq!(hints[15].key, "F");
    assert_eq!(footer_hint_limit(FocusMode::Standard, DensityMode::Comfortable), 8);
}

#[test]
fn deep_focus_and_compact_lists() {
    let deep = footer_hints(FocusMode::DeepDebug, DensityMode::Compact, MainTab::Overview);
    assert_eq!(deep.len(), 13);
    assert_eq!(deep[2].label, "toggle focus");
    assert_eq!(footer_hint_limit(FocusMode::DeepDebug, DensityMode::Compact), 6);
    let compact = footer_hints(FocusMode::Standard, DensityMode::Compact, MainTab::Overview);
    assert_eq!(compact.len(), 16);
    assert_eq!(compact[2].priority, 8);
    assert_eq!(footer_hint_limit(FocusMode::Standard, DensityMode::Compact), 7);
}

#[test]
fn tabs_add_their_keys() {
    let logs = footer_hints(FocusMode::Standard, DensityMode::Comfortable, MainTab::Logs);
    assert_eq!(logs.len(), 20);
    assert_eq!(logs[16].command, Some(KeyCommand::LogsCycleSource));
    assert_eq!(logs[19].label, "regex");
    let multi = footer_hints(FocusMode::Standard, DensityMode::Comfortable, MainTab::MultiLogs);
    assert_eq!(multi.len(), 21);
    let inbox = footer_hints(FocusMode::DeepDebug, DensityMode::Comfortable, MainTab::Inbox);
    assert_eq!(inbox.last().unwrap().key, "o/O");
}

#[test]
fn footer_hint_limit_is_at_most_eight() {
    for focus in [FocusMode::Standard, FocusMode::DeepDebug] {
        for density in [DensityMode::Comfortable, DensityMode::Compact] {
            assert!(footer_hint_limit(focus, density) <= 8);
        }
    }
}
