use forge_tui::app::{ClaimEventView, InboxFilter, InboxMessageView, LoopView, StatusKind};
use forge_tui::inbox::{
    ack_status, acknowledge_latest, claim_conflict_step, claim_conflicts, claim_resolution_hint,
    handoff_snapshot, inbox_threads, mark_thread_read, read_status, reply_shortcut_status,
};

fn message(
    id: i64,
    thread: Option<&str>,
    from: &str,
    subject: &str,
    created_at: &str,
    ack_required: bool,
    read: bool,
) -> InboxMessageView {
    InboxMessageView {
        id,
        thread_id: thread.map(str::to_owned),
        from: from.to_owned(),
        subject: subject.to_owned(),
        body: String::new(),
        created_at: created_at.to_owned(),
        ack_required,
        read_at: if read { Some("2026-02-12T08:12:30Z".to_owned()) } else { None },
        acked_at: None,
    }
}

fn sample_inbox_messages() -> Vec<InboxMessageView> {
    vec![
        message(1, Some("thread-a"), "agent-a", "handoff ready", "2026-02-12T08:10:00Z", true, false),
        message(2, Some("thread-a"), "agent-b", "re: handoff ready", "2026-02-12T08:11:00Z", false, false),
        message(3, Some("thread-b"), "agent-c", "incident escalated", "2026-02-12T08:12:00Z", true, true),
    ]
}

#[test]
fn inbox_threads_group_and_order_newest_first() {
    let threads = inbox_threads(&sample_inbox_messages(), InboxFilter::All);
    assert_eq!(threads.len(), 2);
    assert_eq!(threads[0].thread_key, "thread-b");
    assert_eq!(threads[0].subject, "incident escalated");
    assert_eq!(threads[0].unread_count, 0);
    assert_eq!(threads[0].pending_ack_count, 1);
    assert_eq!(threads[0].latest_message_id, 3);
    assert_eq!(threads[1].thread_key, "thread-a");
    assert_eq!(threads[1].subject, "re: handoff ready");
    assert_eq!(threads[1].unread_count, 2);
    assert_eq!(threads[1].pending_ack_count, 1);
    assert_eq!(threads[1].participant_count, 2);
    assert_eq!(threads[1].message_indices, vec![0, 1]);
}

#[test]
fn inbox_filters_keep_unread_or_pending_threads() {
    let unread = inbox_threads(&sample_inbox_messages(), InboxFilter::Unread);
    assert_eq!(unread.len(), 1);
    assert_eq!(unread[0].thread_key, "thread-a");
    let ack = inbox_threads(&sample_inbox_messages(), InboxFilter::AckRequired);
    assert_eq!(ack.len(), 2);
}

#[test]
fn messages_without_thread_use_mail_ids_and_blank_subjects() {
    let ms = vec![
        message(7, None, " x ", "  ", "2026-01-01", false, true),
        message(8, Some("  "), "x", "later", "2026-01-02", false, true),
        message(9, Some("t"), "y", "old", "2026-01-03", false, true),
        message(10, Some("t"), "y", "older", "2025-12-31", false, true),
    ];
    let threads = inbox_threads(&ms, InboxFilter::All);
    let keys: Vec<&str> = threads.iter().map(|t| t.thread_key.as_str()).collect();
    assert_eq!(keys, vec!["t", "m-8", "m-7"]);
    assert_eq!(threads[2].subject, "(no subject)");
    assert_eq!(threads[0].subject, "old");
    assert_eq!(threads[0].message_indices, vec![3, 2]);
    assert_eq!(threads[0].participant_count, 1);
}

fn claim(task: &str, by: &str, at: &str) -> ClaimEventView {
    ClaimEventView { task_id: task.to_owned(), claimed_by: by.to_owned(), claimed_at: at.to_owned() }
}

#[test]
fn claim_conflicts_pair_latest_with_other_claimant() {
    let events = vec![
        claim("forge-jws", "agent-a", "2026-02-12T08:10:00Z"),
        claim("forge-jws", "agent-b", "2026-02-12T08:12:00Z"),
        claim("forge-73b", "agent-c", "2026-02-12T08:11:00Z"),
    ];
    let conflicts = claim_conflicts(&events);
    assert_eq!(conflicts.len(), 1);
    assert_eq!(conflicts[0].task_id, "forge-jws");
    assert_eq!(conflicts[0].latest_by, "agent-a");
    assert_eq!(conflicts[0].previous_by, "agent-b");
    assert_eq!(conflicts[0].latest_at, "2026-02-12T08:10:00Z");
}

#[test]
fn claim_conflicts_skip_same_or_blank_claimants_and_sort() {
    let events = vec![
        claim("t-1", "a", "2026-01-01"),
        claim("t-1", "a", "2026-01-02"),
        claim("t-1", " ", "2026-01-03"),
        claim("t-2", "b", "2026-02-01"),
        claim("t-2", "c", "2026-02-02"),
        claim("  ", "x", "2026-03-01"),
        claim("  ", "y", "2026-03-02"),
        claim("t-0", "d", "2026-02-01"),
        claim("t-0", "e", "2026-02-05"),
    ];
    let conflicts = claim_conflicts(&events);
    let ids: Vec<&str> = conflicts.iter().map(|c| c.task_id.as_str()).collect();
    assert_eq!(ids, vec!["t-0", "t-2"]);
}

#[test]
fn every_message_is_listed_in_exactly_one_thread() {
    let mut messages = sample_inbox_messages();
    messages.push(message(4, None, "agent-d", "", "2026-02-12T08:09:00Z", false, false));
    messages.push(message(5, Some("thread-b"), "agent-a", "follow-up", "2026-02-12T08:13:00Z", false, true));
    let threads = inbox_threads(&messages, InboxFilter::All);
    for idx in 0..messages.len() {
        let holders = threads
            .iter()
            .filter(|t| t.message_indices.contains(&idx))
            .count();
        assert_eq!(holders, 1, "message {idx}");
    }
    let total: usize = threads.iter().map(|t| t.message_indices.len()).sum();
    assert_eq!(total, messages.len());
}

fn shell_inbox_messages() -> Vec<InboxMessageView> {
    vec![
        InboxMessageView {
            id: 1,
            thread_id: Some("thread-a".to_owned()),
            from: "agent-a".to_owned(),
            subject: "handoff ready".to_owned(),
            body: "please review".to_owned(),
            created_at: "2026-02-12T08:10:00Z".to_owned(),
            ack_required: true,
            read_at: None,
            acked_at: None,
        },
        InboxMessageView {
            id: 2,
            thread_id: Some("thread-a".to_owned()),
            from: "agent-b".to_owned(),
            subject: "re: handoff ready".to_owned(),
            body: "reviewing now".to_owned(),
            created_at: "2026-02-12T08:11:00Z".to_owned(),
            ack_required: false,
            read_at: None,
            acked_at: None,
        },
        InboxMessageView {
            id: 3,
            thread_id: Some("thread-b".to_owned()),
            from: "agent-c".to_owned(),
            subject: "incident escalated".to_owned(),
            body: "needs ack".to_owned(),
            created_at: "2026-02-12T08:12:00Z".to_owned(),
            ack_required: true,
            read_at: Some("2026-02-12T08:12:30Z".to_owned()),
            acked_at: None,
        },
    ]
}

fn shell_handoff_messages() -> Vec<InboxMessageView> {
    vec![InboxMessageView {
        id: 11,
        thread_id: Some("thread-handoff".to_owned()),
        from: "agent-h".to_owned(),
        subject: "handoff forge-jws loop-2".to_owned(),
        body: "status update and pending risk summary".to_owned(),
        created_at: "2026-02-12T08:13:00Z".to_owned(),
        ack_required: true,
        read_at: None,
        acked_at: None,
    }]
}

fn shell_claim_events() -> Vec<ClaimEventView> {
    vec![
        claim("forge-jws", "agent-a", "2026-02-12T08:10:00Z"),
        claim("forge-jws", "agent-b", "2026-02-12T08:12:00Z"),
        claim("forge-73b", "agent-c", "2026-02-12T08:11:00Z"),
    ]
}

fn shell_loops(n: usize) -> Vec<LoopView> {
    (0..n)
        .map(|i| LoopView {
            id: format!("loop-{i}"),
            name: format!("test-loop-{i}"),
            state: if i % 2 == 0 { "running".to_owned() } else { "stopped".to_owned() },
            ..LoopView::default()
        })
        .collect()
}

#[test]
fn inbox_filter_cycles_and_clamps_selection() {
    let f = InboxFilter::All;
    assert_eq!(f.cycled(1), InboxFilter::Unread);
    assert_eq!(f.cycled(1).cycled(1), InboxFilter::AckRequired);
    assert_eq!(f.cycled(1).cycled(1).cycled(1), InboxFilter::All);
    assert_eq!(f.cycled(-1), InboxFilter::AckRequired);
}

#[test]
fn inbox_enter_marks_selected_thread_read() {
    let mut messages = shell_inbox_messages();
    let threads = inbox_threads(&messages, InboxFilter::All);
    assert_eq!(threads[1].thread_key, "thread-a");
    let marked = mark_thread_read(&mut messages, &threads[1].message_indices);
    assert_eq!(marked, 2);
    assert_eq!(read_status(marked), (StatusKind::Success, "Marked 2 message(s) read".to_owned()));
    let unread = messages.iter().filter(|m| m.read_at.is_none()).count();
    assert_eq!(unread, 0);
    assert_eq!(messages[0].read_at.as_deref(), Some("now"));
    assert_eq!(messages[2].read_at.as_deref(), Some("2026-02-12T08:12:30Z"));
    assert_eq!(mark_thread_read(&mut messages, &threads[1].message_indices), 0);
    assert_eq!(read_status(0), (StatusKind::Info, "Thread already read".to_owned()));
    assert_eq!(mark_thread_read(&mut messages, &vec![7, 7]), 0);
}

#[test]
fn inbox_acknowledges_latest_pending_message() {
    let mut messages = shell_inbox_messages();
    let threads = inbox_threads(&messages, InboxFilter::All);
    assert_eq!(threads[0].thread_key, "thread-b");
    let acked = acknowledge_latest(&mut messages, &threads[0].message_indices);
    assert_eq!(acked, Some(3));
    let stamp = messages.iter().find(|m| m.id == 3).and_then(|m| m.acked_at.clone());
    assert_eq!(stamp.as_deref(), Some("now"));
    assert_eq!(ack_status(acked), (StatusKind::Success, "Acknowledged m-3".to_owned()));
    assert_eq!(acknowledge_latest(&mut messages, &threads[0].message_indices), None);
    assert_eq!(
        ack_status(None),
        (StatusKind::Info, "No pending ack in selected thread".to_owned())
    );
}

#[test]
fn reply_shortcut_names_sender_thread_and_message() {
    let messages = shell_inbox_messages();
    assert_eq!(
        reply_shortcut_status(&messages[1], "thread-a"),
        "Reply shortcut: to agent-b, thread thread-a, reply-to m-2"
    );
    let mut anonymous = messages[1].clone();
    anonymous.from = "  ".to_owned();
    assert_eq!(
        reply_shortcut_status(&anonymous, "thread-a"),
        "Reply shortcut: to unknown, thread thread-a, reply-to m-2"
    );
}

#[test]
fn inbox_handoff_snapshot_generates_compact_package() {
    let messages = shell_handoff_messages();
    let events = shell_claim_events();
    let loops = shell_loops(3);
    let threads = inbox_threads(&messages, InboxFilter::All);
    let conflicts = claim_conflicts(&events);
    let (view, status) = handoff_snapshot(&messages, &threads[0], &conflicts, 0, &events, &loops, loops.first())
        .expect("a hand-off is built");
    assert!(status.contains("Handoff snapshot ready"));
    assert_eq!(status, "Handoff snapshot ready: task forge-jws, loop loop-2");
    let lines = view.lines();
    assert_eq!(lines[0], "task=forge-jws loop=loop-2");
    assert_eq!(lines[1], "status: loop=running unread=1 pending-ack=1");
    assert!(lines[2].starts_with("context: thread=thread-handoff"));
    assert_eq!(
        lines[2],
        "context: thread=thread-handoff latest=m-11 from=agent-h messages=1 participants=1"
    );
    assert!(lines[3].starts_with("links: task:sv task show forge-jws"));
    assert_eq!(
        lines[4],
        "pending-risks: unread messages=1; ack pending=1; ownership conflict: agent-a vs agent-b"
    );
}

#[test]
fn inbox_handoff_snapshot_uses_claim_fallback_when_task_not_in_thread() {
    let messages = shell_inbox_messages();
    let events = shell_claim_events();
    let loops = shell_loops(2);
    let threads = inbox_threads(&messages, InboxFilter::All);
    let conflicts = claim_conflicts(&events);
    let (view, _) = handoff_snapshot(&messages, &threads[0], &conflicts, 0, &events, &loops, loops.first())
        .expect("a hand-off is built");
    assert!(view.lines()[0].contains("task=forge-jws"));
    assert_eq!(view.loop_id, "loop-0");
    // with no conflict, no claim and no loop, the unknowns are named
    let (bare, _) = handoff_snapshot(&messages, &threads[0], &Vec::new(), 0, &Vec::new(), &Vec::new(), None)
        .expect("a hand-off is built");
    assert_eq!(bare.task_id, "unknown-task");
    assert_eq!(bare.loop_id, "unknown-loop");
    assert!(bare.status.starts_with("loop=unknown "));
    assert!(bare.pending_risks.contains("loop mapping missing"));
    // a thread whose latest message is not in the feed gives none
    let mut stray = threads[0].clone();
    stray.message_indices = vec![9];
    assert!(handoff_snapshot(&messages, &stray, &conflicts, 0, &events, &loops, None).is_none());
}

#[test]
fn inbox_claim_conflict_shortcuts_show_status() {
    let conflicts = claim_conflicts(&shell_claim_events());
    let (selected, kind, status) = claim_conflict_step(&conflicts, 0, 1);
    assert_eq!(selected, 0);
    assert_eq!(kind, StatusKind::Error);
    assert!(status.contains("Claim conflict forge-jws"));
    assert_eq!(status, "Claim conflict forge-jws: agent-a vs agent-b");
    let (kind, hint) = claim_resolution_hint(&conflicts, selected);
    assert_eq!(kind, StatusKind::Info);
    assert!(hint.contains("takeover claim: forge-jws by <agent>"));
    assert_eq!(
        hint,
        "Resolve forge-jws: confirm owner, then post `fmail send task \"takeover claim: forge-jws by <agent>\"`"
    );
    assert_eq!(
        claim_conflict_step(&Vec::new(), 3, -1),
        (0, StatusKind::Info, "No claim ownership conflicts".to_owned())
    );
    assert_eq!(
        claim_resolution_hint(&conflicts, 5),
        (StatusKind::Info, "No claim conflicts to resolve".to_owned())
    );
}
