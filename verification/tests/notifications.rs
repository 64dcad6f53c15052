use forge_tui::app::StatusKind;
use forge_tui::notifications::{NotificationCenter, MAX_NOTIFICATION_QUEUE};

#[test]
fn set_status_enqueues_notification_event() {
    let mut center = NotificationCenter::new();
    assert_eq!(center.queue_len(), 0);
    center.set_status(StatusKind::Info, "hello");
    assert_eq!(center.queue_len(), 1);
    center.set_status(StatusKind::Error, "boom");
    assert_eq!(center.queue_len(), 2);
}

#[test]
fn notification_queue_caps_at_max_entries() {
    let mut center = NotificationCenter::new();
    for i in 0..(MAX_NOTIFICATION_QUEUE + 5) {
        center.set_status(StatusKind::Info, &format!("event-{i}"));
    }
    assert_eq!(center.queue_len(), MAX_NOTIFICATION_QUEUE);
    let entries = center.notification_center_entries();
    assert_eq!(entries[0].text, format!("event-{}", MAX_NOTIFICATION_QUEUE + 4));
    assert_eq!(entries[MAX_NOTIFICATION_QUEUE - 1].text, "event-5");
}

#[test]
fn blank_status_is_not_queued() {
    let mut center = NotificationCenter::new();
    center.set_status(StatusKind::Info, "   ");
    assert_eq!(center.queue_len(), 0);
    assert_eq!(center.status_display_text(), "   ");
}

#[test]
fn status_display_uses_latest_notification_when_current_status_empty() {
    let mut center = NotificationCenter::new();
    center.set_status(StatusKind::Info, "hello");
    center.status_text.clear();

    assert_eq!(center.status_display_text(), "hello");
}

#[test]
fn status_display_appends_queued_count_suffix() {
    let mut center = NotificationCenter::new();
    center.set_status(StatusKind::Info, "first");
    center.set_status(StatusKind::Info, "second");

    assert_eq!(center.status_display_text(), "second (+1 queued)");
}

#[test]
fn status_display_prefixes_error_from_notification_queue() {
    let mut center = NotificationCenter::new();
    center.set_status(StatusKind::Error, "boom");
    center.status_text.clear();
    center.status_kind = StatusKind::Info;

    assert_eq!(center.status_display_text(), "Error: boom");
}

#[test]
fn error_status_is_prefixed_once() {
    let mut center = NotificationCenter::new();
    center.set_status(StatusKind::Error, "  Error: already  ");
    assert_eq!(center.status_display_text(), "Error: already");
}

#[test]
fn notification_center_ack_hides_latest_from_status_fallback() {
    let mut center = NotificationCenter::new();
    center.set_status(StatusKind::Info, "first");
    center.set_status(StatusKind::Info, "second");
    center.status_text.clear();
    center.status_kind = StatusKind::Info;
    assert!(center.notification_center_ack_latest());

    assert_eq!(center.status_display_text(), "first");
}

#[test]
fn ack_with_nothing_pending_reports_false() {
    let mut center = NotificationCenter::new();
    assert!(!center.notification_center_ack_latest());
    center.set_status(StatusKind::Info, "one");
    assert!(center.notification_center_ack_latest());
    assert!(!center.notification_center_ack_latest());
    assert!(!center.notification_center_escalate_latest());
    assert!(!center.notification_center_snooze_latest(1));
}

#[test]
fn notification_center_snooze_hides_until_clock_advances() {
    let mut center = NotificationCenter::new();
    center.set_status(StatusKind::Info, "only");
    center.status_text.clear();
    center.status_kind = StatusKind::Info;
    assert!(center.notification_center_snooze_latest(3));
    assert_eq!(center.status_display_text(), "timers:1 next:3t");

    center.advance_notification_clock(2);
    assert_eq!(center.status_display_text(), "timers:1 next:1t");

    center.advance_notification_clock(1);
    assert_eq!(center.status_display_text(), "only");
}

#[test]
fn status_display_appends_timer_summary_when_status_present() {
    let mut center = NotificationCenter::new();
    center.set_status(StatusKind::Info, "first");
    center.set_status(StatusKind::Info, "second");
    assert!(center.notification_center_snooze_latest(4));

    assert_eq!(center.status_display_text(), "second [timers:1 next:4t]");
}

#[test]
fn notification_center_entries_include_escalation_and_snooze_flags() {
    let mut center = NotificationCenter::new();
    center.set_status(StatusKind::Error, "critical");
    assert!(center.notification_center_escalate_latest());
    assert!(center.notification_center_snooze_latest(2));

    let entries = center.notification_center_entries();
    assert_eq!(entries.len(), 1);
    assert_eq!(entries[0].kind, StatusKind::Error);
    assert_eq!(entries[0].text, "critical");
    assert!(entries[0].escalated);
    assert!(entries[0].snoozed);
    assert!(!entries[0].acknowledged);
}

#[test]
fn clear_status_drops_text_and_queue() {
    let mut center = NotificationCenter::new();
    center.set_status(StatusKind::Info, "x");
    center.clear_status();
    assert_eq!(center.queue_len(), 0);
    assert_eq!(center.status_display_text(), "");
}
