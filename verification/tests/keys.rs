use forge_tui::app::{
    current_log_route, ActionType, EvidenceKind, LogContentKind, LogLayer, LogSource,
    LogTransportKind, MainTab,
};
use forge_tui::keys::{expanded_intent, main_intent, Intent};
use forge_tui::loop_list::{move_selection_index, scroll_logs};
use forge_tui::modes::{Key, KeyPress};

fn key(k: Key) -> KeyPress {
    KeyPress { key: k, shift: false, ctrl: false, alt: false }
}

fn ch(c: char) -> KeyPress {
    key(Key::Char(c))
}

fn ctrl(c: char) -> KeyPress {
    KeyPress { key: Key::Char(c), shift: false, ctrl: true, alt: false }
}

#[test]
fn current_log_route_maps_live_raw_to_live_parsed() {
    let route = current_log_route(LogSource::Live, LogLayer::Raw);
    assert_eq!(route.transport, LogTransportKind::LiveLoop);
    assert_eq!(route.content, LogContentKind::Parsed);
}

#[test]
fn current_log_route_maps_selected_diff_to_selected_diff() {
    let route = current_log_route(LogSource::RunSelection, LogLayer::Diff);
    assert_eq!(route.transport, LogTransportKind::SelectedRun);
    assert_eq!(route.content, LogContentKind::Diff);
}

#[test]
fn log_route_parses_every_layer_but_diff() {
    for layer in [LogLayer::Raw, LogLayer::Events, LogLayer::Errors, LogLayer::Tools] {
        assert_eq!(current_log_route(LogSource::LatestRun, layer).content, LogContentKind::Parsed);
    }
    assert_eq!(current_log_route(LogSource::LatestRun, LogLayer::Raw).transport, LogTransportKind::LatestRun);
}

#[test]
fn number_keys_select_tabs() {
    let cases = [
        ('2', MainTab::Logs),
        ('3', MainTab::Runs),
        ('4', MainTab::MultiLogs),
        ('5', MainTab::Inbox),
        ('1', MainTab::Overview),
    ];
    for (c, tab) in cases {
        assert_eq!(main_intent(ch(c), MainTab::Overview, false), Intent::ShowTab(tab));
    }
}

#[test]
fn bracket_keys_walk_the_tab_order() {
    let mut tab = MainTab::Overview;
    for (c, expected) in [(']', MainTab::Logs), (']', MainTab::Runs), ('[', MainTab::Logs)] {
        let Intent::CycleTab(delta) = main_intent(ch(c), tab, false) else { panic!("cycle expected") };
        tab = tab.cycled(delta);
        assert_eq!(tab, expected);
    }
}

#[test]
fn q_and_question_mark_in_main_view() {
    assert_eq!(main_intent(ch('q'), MainTab::Overview, false), Intent::Quit);
    assert_eq!(main_intent(ch('?'), MainTab::Overview, false), Intent::OpenHelp);
    assert_eq!(main_intent(ch('E'), MainTab::Overview, false), Intent::ExportView);
    assert_eq!(main_intent(ch('/'), MainTab::Overview, false), Intent::OpenFilter);
}

#[test]
fn log_source_key_only_on_the_logs_tab() {
    let Intent::CycleLogSource = main_intent(ch('v'), MainTab::Logs, false) else { panic!() };
    assert_eq!(LogSource::Live.cycled(1), LogSource::LatestRun);
    assert_eq!(main_intent(ch('v'), MainTab::Overview, false), Intent::Nothing);
    assert_eq!(main_intent(ch('x'), MainTab::Logs, false), Intent::CycleLogLayer);
    assert_eq!(main_intent(ch('x'), MainTab::Inbox, false), Intent::Nothing);
    assert_eq!(LogLayer::Raw.cycled(1), LogLayer::Events);
}

#[test]
fn selection_keys_move_and_clamp() {
    let mut idx = 0usize;
    let step = |k: KeyPress, idx: usize| match main_intent(k, MainTab::Overview, false) {
        Intent::MoveSelection(d) => move_selection_index(3, idx, d),
        other => panic!("unexpected {other:?}"),
    };
    idx = step(ch('k'), idx);
    assert_eq!(idx, 0);
    for _ in 0..4 {
        idx = step(ch('j'), idx);
    }
    assert_eq!(idx, 2);
    assert_eq!(main_intent(key(Key::Down), MainTab::Inbox, false), Intent::MoveInboxSelection(1));
}

#[test]
fn page_scroll_keys_follow_the_tab() {
    assert_eq!(main_intent(ch('u'), MainTab::Logs, false), Intent::ScrollLogPage { older: true });
    assert_eq!(main_intent(ch('d'), MainTab::Runs, false), Intent::ScrollLogPage { older: false });
    assert_eq!(main_intent(ch('u'), MainTab::MultiLogs, false), Intent::Nothing);
    assert_eq!(main_intent(ch('u'), MainTab::MultiLogs, true), Intent::ScrollLogPage { older: true });
    assert_eq!(main_intent(ctrl('u'), MainTab::Logs, false), Intent::ScrollLogPage { older: true });
    // Scrolling towards older lines leaves follow mode.
    assert_eq!(scroll_logs(0, true, 10), (10, false));
}

#[test]
fn ctrl_keys_reach_evidence_and_copy() {
    assert_eq!(main_intent(ctrl('e'), MainTab::Logs, false), Intent::JumpToEvidence(EvidenceKind::Error));
    assert_eq!(main_intent(ctrl('w'), MainTab::Logs, false), Intent::JumpToEvidence(EvidenceKind::Warning));
    assert_eq!(main_intent(ctrl('a'), MainTab::Logs, false), Intent::JumpToEvidence(EvidenceKind::Ack));
    assert_eq!(main_intent(ctrl('b'), MainTab::Logs, false), Intent::ReturnFromEvidence);
    assert_eq!(main_intent(ch('b'), MainTab::Logs, false), Intent::Backtrack);
    assert_eq!(main_intent(ctrl('y'), MainTab::Logs, false), Intent::CopyContext);
    assert_eq!(main_intent(ch('y'), MainTab::Logs, false), Intent::Nothing);
    assert_eq!(main_intent(ch('e'), MainTab::Logs, false), Intent::Nothing);
}

#[test]
fn inbox_keys_act_only_on_the_inbox() {
    let inbox = MainTab::Inbox;
    assert_eq!(main_intent(ch('f'), inbox, false), Intent::CycleInboxFilter);
    assert_eq!(main_intent(ch('a'), inbox, false), Intent::AcknowledgeMessage);
    assert_eq!(main_intent(ch('h'), inbox, false), Intent::HandoffSnapshot);
    assert_eq!(main_intent(ch('r'), inbox, false), Intent::QuickReply);
    assert_eq!(main_intent(ch('R'), inbox, false), Intent::QuickReply);
    assert_eq!(main_intent(ch('o'), inbox, false), Intent::CycleClaimConflict);
    assert_eq!(main_intent(ch('O'), inbox, false), Intent::ShowClaimHint);
    assert_eq!(main_intent(key(Key::Enter), inbox, false), Intent::MarkThreadRead);
    assert_eq!(main_intent(ch('f'), MainTab::Logs, false), Intent::Nothing);
    assert_eq!(main_intent(ch('r'), MainTab::Overview, false), Intent::ResumeSelected);
    assert_eq!(main_intent(ch('R'), MainTab::Runs, false), Intent::OpenRegexSearch);
    assert_eq!(main_intent(ctrl('o'), MainTab::Overview, false), Intent::OpenPrimaryLink);
}

#[test]
fn matrix_keys_act_only_on_the_matrix() {
    let multi = MainTab::MultiLogs;
    assert_eq!(main_intent(ch('C'), multi, false), Intent::ToggleCompare);
    assert_eq!(main_intent(ch('m'), multi, false), Intent::CycleLayout);
    assert_eq!(main_intent(ch('g'), multi, false), Intent::MatrixPageStart);
    assert_eq!(main_intent(ch('G'), multi, false), Intent::MatrixPageEnd);
    assert_eq!(main_intent(ch(','), multi, false), Intent::MoveMatrixPage(-1));
    assert_eq!(main_intent(ch('.'), MainTab::Runs, false), Intent::MoveRunSelection(1));
    assert_eq!(main_intent(ch('.'), MainTab::Overview, false), Intent::Nothing);
    assert_eq!(main_intent(ch('C'), MainTab::Overview, false), Intent::Nothing);
    assert_eq!(main_intent(ch(' '), MainTab::Overview, false), Intent::TogglePin);
}

#[test]
fn focus_keys_traverse_both_ways() {
    assert_eq!(main_intent(key(Key::Tab), MainTab::Overview, false), Intent::TraverseFocus(1));
    let back_tab = KeyPress { key: Key::Tab, shift: true, ctrl: false, alt: false };
    assert_eq!(main_intent(back_tab, MainTab::Overview, false), Intent::TraverseFocus(-1));
    assert_eq!(main_intent(key(Key::Left), MainTab::Overview, false), Intent::TraverseFocus(-1));
    assert_eq!(main_intent(key(Key::Right), MainTab::Overview, false), Intent::TraverseFocus(1));
}

#[test]
fn destructive_keys_ask_for_confirmation() {
    assert_eq!(main_intent(ch('S'), MainTab::Overview, false), Intent::Confirm(ActionType::Stop));
    assert_eq!(main_intent(ch('K'), MainTab::Overview, false), Intent::Confirm(ActionType::Kill));
    assert_eq!(main_intent(ch('D'), MainTab::Overview, false), Intent::Confirm(ActionType::Delete));
    assert_eq!(main_intent(ch('n'), MainTab::Overview, false), Intent::OpenWizard);
    assert_eq!(main_intent(ch('l'), MainTab::Overview, false), Intent::ExpandLogs);
}

#[test]
fn expanded_logs_keys() {
    assert_eq!(expanded_intent(key(Key::Escape), MainTab::Logs), Intent::CollapseLogs);
    assert_eq!(expanded_intent(ch('q'), MainTab::Logs), Intent::CollapseLogs);
    assert_eq!(expanded_intent(ch('F'), MainTab::Overview), Intent::ToggleFollow);
    assert_eq!(expanded_intent(ch('v'), MainTab::Logs), Intent::CycleLogSource);
    assert_eq!(expanded_intent(ch('v'), MainTab::Runs), Intent::Nothing);
    assert_eq!(expanded_intent(ch('x'), MainTab::Overview), Intent::CycleLogLayer);
    assert_eq!(expanded_intent(ch('r'), MainTab::Logs), Intent::ResumeSelected);
    assert_eq!(expanded_intent(ch('S'), MainTab::Logs), Intent::Confirm(ActionType::Stop));
    assert_eq!(expanded_intent(ch('E'), MainTab::Logs), Intent::Nothing);
    assert_eq!(expanded_intent(key(Key::Up), MainTab::Logs), Intent::MoveSelection(-1));
}
