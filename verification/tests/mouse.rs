use forge_tui::app::MainTab;
use forge_tui::mouse::{
    content_area, inbox_hit, mouse_action, InboxHit, MouseAction, MouseContext, MouseInput, MouseKind,
};

/// The inbox tab of a 140x36 screen with two threads, a status line shown.
fn inbox_screen() -> MouseContext {
    let (content_start, content_height) = content_area(36, false, true);
    MouseContext {
        tab: MainTab::Inbox,
        deep_focus: false,
        compact: false,
        width: 140,
        content_start,
        content_height,
        threads: 2,
        has_claims: false,
    }
}

fn at(kind: MouseKind, column: usize, row: usize) -> MouseInput {
    MouseInput { kind, column, row }
}

#[test]
fn mouse_click_inbox_list_selects_thread_and_focuses_list_pane() {
    // Global row = content_start(2) + list_inner_y(2) + row(1).
    let action = mouse_action(at(MouseKind::LeftDown, 2, 5), inbox_screen());
    assert_eq!(action, MouseAction::Inbox(InboxHit::Thread(1)));
}

#[test]
fn mouse_drag_inbox_list_updates_thread_selection() {
    let action = mouse_action(at(MouseKind::LeftDrag, 2, 5), inbox_screen());
    assert_eq!(action, MouseAction::Inbox(InboxHit::Thread(1)));
}

#[test]
fn mouse_wheel_scrolls_inbox_thread_selection() {
    assert_eq!(mouse_action(at(MouseKind::WheelDown, 10, 6), inbox_screen()), MouseAction::MoveInboxSelection(1));
    assert_eq!(mouse_action(at(MouseKind::WheelUp, 10, 6), inbox_screen()), MouseAction::MoveInboxSelection(-1));
}

#[test]
fn content_area_leaves_room_for_rail_and_footer() {
    assert_eq!(content_area(36, false, true), (2, 32));
    assert_eq!(content_area(36, false, false), (2, 33));
    assert_eq!(content_area(36, true, false), (1, 34));
    assert_eq!(content_area(2, false, true), (2, 1));
    assert_eq!(content_area(0, true, false), (1, 1));
}

#[test]
fn clicks_on_the_tab_rail_switch_tabs() {
    let screen = inbox_screen();
    assert_eq!(mouse_action(at(MouseKind::LeftDown, 15, 1), screen), MouseAction::ShowTab(MainTab::Logs));
    let deep = MouseContext { deep_focus: true, ..screen };
    assert_ne!(mouse_action(at(MouseKind::LeftDown, 15, 1), deep), MouseAction::ShowTab(MainTab::Logs));
}

#[test]
fn wheel_scrolls_logs_and_moves_loops() {
    let logs = MouseContext { tab: MainTab::Runs, ..inbox_screen() };
    assert_eq!(mouse_action(at(MouseKind::WheelUp, 50, 10), logs), MouseAction::ScrollLog(3));
    assert_eq!(mouse_action(at(MouseKind::WheelDown, 50, 10), logs), MouseAction::ScrollLog(-3));
    let overview = MouseContext { tab: MainTab::Overview, ..inbox_screen() };
    assert_eq!(mouse_action(at(MouseKind::WheelDown, 50, 10), overview), MouseAction::MoveSelection(1));
    assert_eq!(mouse_action(at(MouseKind::LeftDown, 50, 10), overview), MouseAction::Ignore);
}

#[test]
fn clicks_split_focus_and_reach_the_matrix() {
    let logs = MouseContext { tab: MainTab::Logs, ..inbox_screen() };
    assert_eq!(mouse_action(at(MouseKind::LeftDown, 70, 10), logs), MouseAction::SplitFocus { right: true });
    assert_eq!(mouse_action(at(MouseKind::LeftDown, 69, 10), logs), MouseAction::SplitFocus { right: false });
    assert_eq!(mouse_action(at(MouseKind::LeftDown, 69, 40), logs), MouseAction::Ignore);
    let multi = MouseContext { tab: MainTab::MultiLogs, ..inbox_screen() };
    assert_eq!(
        mouse_action(at(MouseKind::LeftDown, 65, 5), multi),
        MouseAction::MatrixCell { column: 65, local_row: 3, pane_height: 32 }
    );
    assert_eq!(mouse_action(at(MouseKind::Other, 65, 5), multi), MouseAction::Ignore);
}

#[test]
fn inbox_clicks_by_region() {
    // 140 columns: the list takes 56, the detail starts at 57.
    assert_eq!(inbox_hit(60, 3, 32, 140, 2, false), InboxHit::Detail);
    assert_eq!(inbox_hit(56, 3, 32, 140, 2, false), InboxHit::Outside);
    assert_eq!(inbox_hit(2, 2, 32, 140, 2, false), InboxHit::Thread(0));
    assert_eq!(inbox_hit(2, 1, 32, 140, 2, false), InboxHit::List);
    assert_eq!(inbox_hit(2, 9, 32, 140, 2, false), InboxHit::List);
    assert_eq!(inbox_hit(2, 0, 32, 140, 2, false), InboxHit::Outside);
    assert_eq!(inbox_hit(2, 3, 32, 140, 0, false), InboxHit::Outside);
    assert_eq!(inbox_hit(2, 3, 3, 140, 2, false), InboxHit::Outside);
    // Claims take the bottom five rows.
    assert_eq!(inbox_hit(2, 27, 32, 140, 40, true), InboxHit::Outside);
    assert_eq!(inbox_hit(2, 25, 32, 140, 40, true), InboxHit::Thread(23));
}
