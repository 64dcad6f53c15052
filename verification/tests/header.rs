use forge_tui::app::{DensityMode, FocusMode, InboxFilter, InboxMessageView, MainTab, UiMode};
use forge_tui::header::{header_text, HeaderState};
use forge_tui::inbox::inbox_threads;
use forge_tui::loop_list::{log_scroll_page_size, scroll_logs};

fn state(tab: MainTab, mode: UiMode, follow: bool) -> HeaderState {
    HeaderState {
        tab,
        mode,
        follow,
        density: DensityMode::Comfortable,
        focus: FocusMode::Standard,
        theme: "default".to_owned(),
        shown_loops: 2,
        total_loops: 3,
    }
}

#[test]
fn header_lists_tab_counts_theme_and_modes() {
    let h = state(MainTab::Overview, UiMode::Main, true);
    assert_eq!(
        header_text(&h, &Vec::new(), 200),
        " Forge Loops  [Overview]  2/3 loops  theme:default  density:comfortable  focus:standard"
    );
    assert_eq!(header_text(&h, &Vec::new(), 12), " Forge Loops");
}

#[test]
fn wizard_header_shows_mode() {
    let h = state(MainTab::Overview, UiMode::Wizard, true);
    assert!(header_text(&h, &Vec::new(), 200).contains("New Loop Wizard"));
}

#[test]
fn follow_header_shows_on_in_logs_tab() {
    let h = state(MainTab::Logs, UiMode::Main, true);
    assert!(header_text(&h, &Vec::new(), 160).contains("follow:ON"));
}

#[test]
fn follow_header_shows_off_after_scroll() {
    // `u` scrolls a page towards older lines, which leaves follow mode.
    let (_, follow) = scroll_logs(0, true, log_scroll_page_size(12) as i32);
    let h = state(MainTab::Logs, UiMode::Main, follow);
    assert!(header_text(&h, &Vec::new(), 160).contains("follow:off"));
}

#[test]
fn header_on_the_inbox_counts_threads() {
    let message = |id: i64, thread: &str, read: bool| InboxMessageView {
        id,
        thread_id: Some(thread.to_owned()),
        read_at: if read { Some("t".to_owned()) } else { None },
        ..Default::default()
    };
    let threads = inbox_threads(&vec![message(1, "a", false), message(2, "a", false), message(3, "b", true)], InboxFilter::All);
    let h = HeaderState { focus: FocusMode::DeepDebug, ..state(MainTab::Inbox, UiMode::ExpandedLogs, false) };
    assert_eq!(
        header_text(&h, &threads, 200),
        " Forge Loops  [Inbox]  2 threads, 2 unread  theme:default  density:comfortable  focus:deep  mode:Expanded Logs  follow:off"
    );
}
