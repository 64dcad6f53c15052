use forge_tui::app::{ClaimEventView, HandoffSnapshotView, InboxFilter, InboxMessageView};
use forge_tui::inbox::{claim_conflicts, inbox_threads, sort_claim_events};
use forge_tui::inbox_pane::{
    claim_timeline_rows, detail_title, inbox_columns, inbox_detail_rows, inbox_header,
    inbox_pane_heights, message_line, thread_list_rows, thread_row, ClaimEmphasis,
};

fn message(
    id: i64,
    thread: &str,
    from: &str,
    subject: &str,
    body: &str,
    at: &str,
    ack_required: bool,
    read_at: Option<&str>,
) -> InboxMessageView {
    InboxMessageView {
        id,
        thread_id: Some(thread.to_owned()),
        from: from.to_owned(),
        subject: subject.to_owned(),
        body: body.to_owned(),
        created_at: at.to_owned(),
        ack_required,
        read_at: read_at.map(str::to_owned),
        acked_at: None,
    }
}

fn sample_inbox_messages() -> Vec<InboxMessageView> {
    vec![
        message(1, "thread-a", "agent-a", "handoff ready", "please review", "2026-02-12T08:10:00Z", true, None),
        message(2, "thread-a", "agent-b", "re: handoff ready", "reviewing now", "2026-02-12T08:11:00Z", false, None),
        message(
            3,
            "thread-b",
            "agent-c",
            "incident escalated",
            "needs ack",
            "2026-02-12T08:12:00Z",
            true,
            Some("2026-02-12T08:12:30Z"),
        ),
    ]
}

fn sample_markdown_inbox_messages() -> Vec<InboxMessageView> {
    vec![message(
        21,
        "thread-markdown",
        "agent-md",
        "markdown status",
        "# Incident Playbook\n- restart daemon\n- verify health\n[notes](https://example.com/notes)",
        "2026-02-12T08:14:00Z",
        false,
        None,
    )]
}

fn sample_claim_events() -> Vec<ClaimEventView> {
    let claim = |task: &str, by: &str, at: &str| ClaimEventView {
        task_id: task.to_owned(),
        claimed_by: by.to_owned(),
        claimed_at: at.to_owned(),
    };
    vec![
        claim("forge-jws", "agent-a", "2026-02-12T08:10:00Z"),
        claim("forge-jws", "agent-b", "2026-02-12T08:12:00Z"),
        claim("forge-73b", "agent-c", "2026-02-12T08:11:00Z"),
    ]
}

/// The detail rows of the selected thread in a pane `width` columns wide
/// and `height` rows high (panel borders take two columns and two rows).
fn detail_rows(messages: &[InboxMessageView], width: usize, height: usize) -> Vec<String> {
    let threads = inbox_threads(&messages.to_vec(), InboxFilter::All);
    let (_, detail) = inbox_columns(width);
    assert!(detail > 0);
    let (_, body) = inbox_pane_heights(height, false);
    inbox_detail_rows(&threads[0], &messages.to_vec(), None, detail - 2, body - 2)
}

#[test]
fn inbox_render_uses_cli_mail_ids_and_threads() {
    let messages = sample_inbox_messages();
    let threads = inbox_threads(&messages, InboxFilter::All);
    let events = sort_claim_events(&sample_claim_events());
    let conflicts = claim_conflicts(&events);
    let header = inbox_header(InboxFilter::All, &threads, events.len(), conflicts.len());
    assert!(header.contains("Inbox filter:all"));
    let rows = thread_list_rows(&threads, 0, 80, 10);
    assert!(rows.iter().any(|r| r.contains("m-3")));
    assert!(detail_title(&threads[0]).contains("thread:thread-b"));
    let timeline = claim_timeline_rows(&events, &conflicts, 0, 80, 3);
    assert!(timeline.iter().any(|(r, _)| r == "! 2026-02-12T08:12:00Z forge-jws <- agent-b"));
}

#[test]
fn inbox_thread_list_is_subject_first_with_badges() {
    let threads = inbox_threads(&sample_inbox_messages(), InboxFilter::All);
    let (list, _) = inbox_columns(200);
    let rows = thread_list_rows(&threads, 0, list - 2, 30);
    assert!(rows.iter().any(|r| r.contains("incident escalated [u:0][a:1] (m-3)")));
    assert!(rows.iter().any(|r| r.contains("re: handoff ready [u:2][a:1] (m-2)")));
}

#[test]
fn inbox_detail_pane_keeps_thread_details_visible() {
    let messages = sample_inbox_messages();
    let threads = inbox_threads(&messages, InboxFilter::All);
    assert!(detail_title(&threads[0]).contains("thread:thread-b"));
    let rows = detail_rows(&messages, 140, 36);
    assert!(rows.iter().any(|r| r.contains("m-3 agent-c incident escalated")));
}

#[test]
fn inbox_detail_pane_renders_markdown_body() {
    let rows = detail_rows(&sample_markdown_inbox_messages(), 140, 36);
    assert!(rows.iter().any(|r| r.contains("markdown detail (latest body)")));
    assert!(rows.iter().any(|r| r.contains("▸ INCIDENT PLAYBOOK")));
    assert!(rows.iter().any(|r| r.contains("• restart daemon")));
    assert!(rows.iter().any(|r| r.contains("notes <https://example.com/notes>")));
}

#[test]
fn header_counts_unread_and_pending() {
    let threads = inbox_threads(&sample_inbox_messages(), InboxFilter::All);
    assert_eq!(
        inbox_header(InboxFilter::Unread, &threads, 3, 1),
        "Inbox filter:unread  threads:2  unread:2  pending-ack:2  claims:3  conflicts:1"
    );
}

#[test]
fn columns_split_wide_panes_only() {
    assert_eq!(inbox_columns(140), (56, 83));
    assert_eq!(inbox_columns(200), (80, 119));
    // 55 columns: two fifths is 22, raised to 24.
    assert_eq!(inbox_columns(55), (24, 30));
    assert_eq!(inbox_columns(54), (54, 0));
    assert_eq!(inbox_columns(10), (10, 0));
}

#[test]
fn pane_heights_make_room_for_claims() {
    assert_eq!(inbox_pane_heights(36, false), (0, 35));
    assert_eq!(inbox_pane_heights(36, true), (5, 30));
    assert_eq!(inbox_pane_heights(5, true), (3, 1));
    assert_eq!(inbox_pane_heights(1, true), (0, 0));
}

#[test]
fn thread_rows_mark_the_selection_and_stop_at_the_height() {
    let threads = inbox_threads(&sample_inbox_messages(), InboxFilter::All);
    assert_eq!(thread_row(&threads[0], true), "\u{25B8} incident escalated [u:0][a:1] (m-3)");
    assert_eq!(thread_row(&threads[0], false), "  incident escalated [u:0][a:1] (m-3)");
    let rows = thread_list_rows(&threads, 1, 12, 1);
    assert_eq!(rows, vec!["  incident e".to_owned()]);
}

#[test]
fn message_lines_mark_unread_and_acknowledgement() {
    let ms = sample_inbox_messages();
    assert_eq!(message_line(&ms[0]), "*! m-1 agent-a handoff ready");
    assert_eq!(message_line(&ms[1]), "*- m-2 agent-b re: handoff ready");
    assert_eq!(message_line(&ms[2]), " ! m-3 agent-c incident escalated");
    let mut acked = ms[0].clone();
    acked.acked_at = Some("now".to_owned());
    acked.read_at = Some("then".to_owned());
    acked.subject = "  ".to_owned();
    assert_eq!(message_line(&acked), " a m-1 agent-a please review");
    acked.body = String::new();
    assert_eq!(message_line(&acked), " a m-1 agent-a (empty)");
}

#[test]
fn detail_rows_show_the_snapshot_and_fit_the_height() {
    let messages = sample_inbox_messages();
    let threads = inbox_threads(&messages, InboxFilter::All);
    let snapshot = HandoffSnapshotView {
        thread_key: "thread-b".to_owned(),
        task_id: "forge-jws".to_owned(),
        loop_id: "loop-2".to_owned(),
        status: "open".to_owned(),
        context: "ctx".to_owned(),
        links: "none".to_owned(),
        pending_risks: "none".to_owned(),
    };
    let rows = inbox_detail_rows(&threads[0], &messages, Some(&snapshot), 60, 40);
    assert_eq!(rows[1], "handoff snapshot (h regenerate)");
    assert_eq!(rows[2], "task=forge-jws loop=loop-2");
    assert_eq!(rows[7], "recent thread messages");
    let short = inbox_detail_rows(&threads[0], &messages, Some(&snapshot), 60, 3);
    assert_eq!(short.len(), 3);
    assert_eq!(short[..], rows[..3]);
    // A snapshot of another thread is not shown.
    let other = inbox_detail_rows(&threads[1], &messages, Some(&snapshot), 60, 40);
    assert!(!other.iter().any(|r| r.starts_with("handoff snapshot")));
    // Newest message first, an empty row after each message.
    let a = inbox_detail_rows(&threads[1], &messages, None, 60, 40);
    let first = a.iter().position(|r| r.contains("m-2 agent-b")).unwrap();
    let second = a.iter().position(|r| r.contains("m-1 agent-a")).unwrap();
    assert!(first < second);
    assert_eq!(a.last().unwrap(), "");
}

#[test]
fn claim_rows_flag_conflicts_and_the_selected_one() {
    let events = sort_claim_events(&sample_claim_events());
    assert_eq!(events[0].claimed_at, "2026-02-12T08:12:00Z");
    assert_eq!(events[2].claimed_at, "2026-02-12T08:10:00Z");
    let conflicts = claim_conflicts(&events);
    let rows = claim_timeline_rows(&events, &conflicts, 0, 80, 5);
    assert_eq!(rows.len(), 3);
    assert_eq!(rows[0].1, ClaimEmphasis::Selected);
    assert_eq!(rows[1], ("  2026-02-12T08:11:00Z forge-73b <- agent-c".to_owned(), ClaimEmphasis::Plain));
    let rows = claim_timeline_rows(&events, &conflicts, 7, 10, 2);
    assert_eq!(rows.len(), 2);
    assert_eq!(rows[0], ("! 2026-02-".to_owned(), ClaimEmphasis::Conflict));
}
