use forge_tui::app::{InboxMessageView, MainTab, RunView, StatusKind};
use forge_tui::clipboard::{clipboard_pick, clipboard_status};

fn runs() -> Vec<RunView> {
    vec![
        RunView { id: "run-11".to_owned(), status: "success".to_owned(), ..RunView::default() },
        RunView { id: "run-22".to_owned(), status: "error".to_owned(), ..RunView::default() },
    ]
}

#[test]
fn ctrl_y_copies_selected_run_id_into_clipboard_mirror() {
    let picked = clipboard_pick(MainTab::Runs, &runs(), 1, &Vec::new(), 0, None);
    assert_eq!(picked, Ok(("run id", "run-22".to_owned())));
    let (kind, status) = clipboard_status("run id", true);
    assert_eq!(kind, StatusKind::Success);
    assert!(status.contains("Copied run id"));
    let (kind, status) = clipboard_status("run id", false);
    assert_eq!(kind, StatusKind::Info);
    assert_eq!(status, "Clipboard unavailable; mirrored run id in app state");
    // a stale selection past the end picks the last run
    assert_eq!(
        clipboard_pick(MainTab::Runs, &runs(), 9, &Vec::new(), 0, None),
        Ok(("run id", "run-22".to_owned()))
    );
}

#[test]
fn ctrl_y_copies_log_line_into_clipboard_mirror() {
    let lines = vec!["older line".to_owned(), "newest line".to_owned()];
    assert_eq!(
        clipboard_pick(MainTab::Logs, &Vec::new(), 0, &lines, 0, None),
        Ok(("log line", "newest line".to_owned()))
    );
    assert_eq!(
        clipboard_pick(MainTab::Logs, &Vec::new(), 0, &lines, 7, None),
        Ok(("log line", "older line".to_owned()))
    );
}

#[test]
fn ctrl_y_copies_selected_inbox_thread_content() {
    let message = InboxMessageView {
        id: 3,
        subject: "incident escalated".to_owned(),
        body: "needs ack".to_owned(),
        ..InboxMessageView::default()
    };
    assert_eq!(
        clipboard_pick(MainTab::Inbox, &Vec::new(), 0, &Vec::new(), 0, Some(&message)),
        Ok(("thread content", "needs ack".to_owned()))
    );
    let mut blank_body = message.clone();
    blank_body.body = "   ".to_owned();
    assert_eq!(
        clipboard_pick(MainTab::Inbox, &Vec::new(), 0, &Vec::new(), 0, Some(&blank_body)),
        Ok(("thread content", "incident escalated".to_owned()))
    );
}

#[test]
fn ctrl_y_reports_what_is_missing() {
    assert_eq!(
        clipboard_pick(MainTab::Runs, &Vec::new(), 0, &Vec::new(), 0, None),
        Err("Clipboard: no run selected".to_owned())
    );
    assert_eq!(
        clipboard_pick(MainTab::Logs, &Vec::new(), 0, &Vec::new(), 0, None),
        Err("Clipboard: no log lines".to_owned())
    );
    assert_eq!(
        clipboard_pick(MainTab::Inbox, &Vec::new(), 0, &Vec::new(), 0, None),
        Err("Clipboard: inbox is empty".to_owned())
    );
    assert_eq!(
        clipboard_pick(MainTab::Overview, &runs(), 0, &Vec::new(), 0, None),
        Err("Clipboard: use Ctrl+Y in Runs, Logs, or Inbox".to_owned())
    );
    assert_eq!(
        clipboard_pick(MainTab::Logs, &Vec::new(), 0, &vec!["   ".to_owned()], 0, None),
        Err("Clipboard: selected content is empty".to_owned())
    );
}
