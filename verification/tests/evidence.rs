use forge_tui::app::{EvidenceKind, InboxFilter, InboxMessageView, LoopView, MainTab, RunView};
use forge_tui::evidence::{
    evidence_jump, evidence_source_lines, evidence_status, first_pending_ack_thread,
    latest_evidence_line, latest_loop_with_evidence, latest_run_with_evidence, return_status,
    stash_return_point, take_return_point, EvidenceJump, EvidenceReturnPoint,
};
use forge_tui::inbox::{inbox_threads, InboxThreadView};

fn sample_loops(n: usize) -> Vec<LoopView> {
    (0..n)
        .map(|i| LoopView {
            id: format!("loop-{i}"),
            name: format!("test-loop-{i}"),
            state: if i % 2 == 0 { "running".to_owned() } else { "stopped".to_owned() },
            repo_path: format!("/repo/{i}"),
            ..Default::default()
        })
        .collect()
}

fn loop_ids(loops: &[LoopView]) -> Vec<String> {
    loops.iter().map(|l| l.id.clone()).collect()
}

fn sample_inbox_messages() -> Vec<InboxMessageView> {
    let message = |id: i64, thread: &str, from: &str, subject: &str, body: &str, at: &str, ack: bool, read: Option<&str>| {
        InboxMessageView {
            id,
            thread_id: Some(thread.to_owned()),
            from: from.to_owned(),
            subject: subject.to_owned(),
            body: body.to_owned(),
            created_at: at.to_owned(),
            ack_required: ack,
            read_at: read.map(str::to_owned),
            acked_at: None,
        }
    };
    vec![
        message(1, "thread-a", "agent-a", "handoff ready", "please review", "2026-02-12T08:10:00Z", true, None),
        message(2, "thread-a", "agent-b", "re: handoff ready", "reviewing now", "2026-02-12T08:11:00Z", false, None),
        message(
            3,
            "thread-b",
            "agent-c",
            "incident escalated",
            "needs ack",
            "2026-02-12T08:12:00Z",
            true,
            Some("2026-02-12T08:12:30Z"),
        ),
    ]
}

fn point(tab: MainTab, selected_id: &str, selected_idx: usize, log_scroll: usize) -> EvidenceReturnPoint {
    EvidenceReturnPoint {
        tab,
        selected_id: selected_id.to_owned(),
        selected_idx,
        selected_run: 0,
        log_scroll,
        inbox_selected_thread: 0,
        focus_right: false,
        multi_page: 0,
    }
}

#[test]
fn ctrl_e_jumps_to_latest_error_line_and_ctrl_b_restores_scroll() {
    let loops = sample_loops(2);
    let lines = vec![
        "info startup".to_owned(),
        "warn: latency spike".to_owned(),
        "error: failed to connect".to_owned(),
        "info retry scheduled".to_owned(),
    ];
    let runs: Vec<RunView> = Vec::new();
    let threads: Vec<InboxThreadView> = Vec::new();
    let log_scroll = 0usize;
    assert_eq!(log_scroll, 0);

    let source = evidence_source_lines(false, &runs, 0, &lines);
    let jump = evidence_jump(EvidenceKind::Error, source, &runs, &loops, &threads);
    let mut slot = None;
    stash_return_point(&mut slot, point(MainTab::Logs, "loop-0", 0, log_scroll));
    let EvidenceJump::LogLine { scroll } = jump else { panic!("expected a log line jump") };
    assert_eq!(scroll, 1);
    assert!(scroll != 0, "follow mode is off after the jump");
    assert!(evidence_status(EvidenceKind::Error, jump).contains("ERROR evidence"));

    let ids = loop_ids(&loops);
    let restored = take_return_point(&mut slot, &ids, runs.len(), threads.len()).unwrap();
    assert_eq!(restored.log_scroll, 0);
    assert!(restored.follow_mode);
    assert!(return_status(true).contains("Returned to sticky evidence source"));
    assert!(slot.is_none());
}

#[test]
fn ctrl_w_jumps_to_warning_run_and_ctrl_b_restores_previous_tab() {
    let loops = sample_loops(3);
    let runs = vec![
        RunView {
            id: "run-ok".to_owned(),
            status: "success".to_owned(),
            started_at: "2026-02-13T11:00:00Z".to_owned(),
            ..Default::default()
        },
        RunView {
            id: "run-warn".to_owned(),
            status: "warning".to_owned(),
            started_at: "2026-02-13T11:01:00Z".to_owned(),
            ..Default::default()
        },
    ];
    let threads: Vec<InboxThreadView> = Vec::new();
    let no_log: Vec<String> = Vec::new();

    let source = evidence_source_lines(false, &runs, 0, &no_log);
    assert!(source.is_none());
    let jump = evidence_jump(EvidenceKind::Warning, source, &runs, &loops, &threads);
    let mut slot = None;
    stash_return_point(&mut slot, point(MainTab::Overview, "loop-1", 1, 0));
    assert_eq!(jump, EvidenceJump::Run(1));
    assert!(evidence_status(EvidenceKind::Warning, jump).contains("WARN"));

    let ids = loop_ids(&loops);
    let restored = take_return_point(&mut slot, &ids, runs.len(), threads.len()).unwrap();
    assert_eq!(restored.tab, MainTab::Overview);
    assert_eq!(restored.selected_idx, 1);
    assert_eq!(restored.selected_id, "loop-1");
}

#[test]
fn ctrl_a_jumps_to_latest_ack_thread_and_ctrl_b_restores_tab() {
    let loops = sample_loops(2);
    let runs: Vec<RunView> = Vec::new();
    let threads = inbox_threads(&sample_inbox_messages(), InboxFilter::All);
    let jump = evidence_jump(EvidenceKind::Ack, None, &runs, &loops, &threads);
    let mut slot = None;
    stash_return_point(&mut slot, point(MainTab::Logs, "loop-0", 0, 0));
    assert!(!threads.is_empty());
    let EvidenceJump::Thread(selected) = jump else { panic!("expected a thread jump") };
    assert!(threads[selected].pending_ack_count > 0);
    assert!(evidence_status(EvidenceKind::Ack, jump).contains("ACK evidence"));

    let ids = loop_ids(&loops);
    let restored = take_return_point(&mut slot, &ids, runs.len(), threads.len()).unwrap();
    assert_eq!(restored.tab, MainTab::Logs);
}

#[test]
fn ctrl_b_without_prior_jump_reports_missing_return_point() {
    let mut slot: Option<EvidenceReturnPoint> = None;
    let restored = take_return_point(&mut slot, &Vec::new(), 0, 0);
    assert!(restored.is_none());
    assert!(return_status(false).contains("No sticky evidence return point"));
}

#[test]
fn latest_evidence_line_takes_the_newest_match() {
    let lines = vec![
        "error: first".to_owned(),
        "info".to_owned(),
        "FATAL: second".to_owned(),
        "all good".to_owned(),
    ];
    assert_eq!(latest_evidence_line(EvidenceKind::Error, &lines), Some(2));
    assert_eq!(latest_evidence_line(EvidenceKind::Warning, &lines), None);
    // "errors" is not the token "error"
    assert_eq!(latest_evidence_line(EvidenceKind::Error, &vec!["no errors".to_owned()]), None);
}

#[test]
fn run_evidence_takes_the_first_run_in_history_order() {
    let runs = vec![
        RunView { id: "r0".to_owned(), status: "success".to_owned(), ..Default::default() },
        RunView {
            id: "r1".to_owned(),
            status: "success".to_owned(),
            output_lines: vec!["step".to_owned(), "panic: boom".to_owned()],
            ..Default::default()
        },
        RunView { id: "r2".to_owned(), status: "error".to_owned(), ..Default::default() },
    ];
    assert_eq!(latest_run_with_evidence(EvidenceKind::Error, &runs), Some(1));
    assert_eq!(latest_run_with_evidence(EvidenceKind::Ack, &runs), None);
}

#[test]
fn loop_evidence_prefers_the_most_recent_run_and_the_first_on_ties() {
    let mut loops = sample_loops(4);
    loops[0].last_error = "timeout talking to db".to_owned();
    loops[0].last_run_at = Some("2026-02-13T10:00:00Z".to_owned());
    loops[1].state = "error".to_owned();
    loops[1].last_run_at = Some("2026-02-13T12:00:00Z".to_owned());
    loops[2].state = "failed".to_owned();
    loops[2].last_run_at = Some("2026-02-13T12:00:00Z".to_owned());
    loops[3].state = "error".to_owned();
    assert_eq!(latest_loop_with_evidence(EvidenceKind::Error, &loops), Some(1));
    assert_eq!(latest_loop_with_evidence(EvidenceKind::Warning, &loops), None);

    let runs: Vec<RunView> = Vec::new();
    let threads: Vec<InboxThreadView> = Vec::new();
    let jump = evidence_jump(EvidenceKind::Error, None, &runs, &loops, &threads);
    assert_eq!(jump, EvidenceJump::Loop(1));
    assert_eq!(
        evidence_status(EvidenceKind::Error, jump),
        "Jumped to latest ERROR loop evidence (Ctrl+B to return)"
    );
}

#[test]
fn missing_evidence_reports_by_kind() {
    let loops = sample_loops(2);
    let runs: Vec<RunView> = Vec::new();
    let threads: Vec<InboxThreadView> = Vec::new();
    let jump = evidence_jump(EvidenceKind::Warning, None, &runs, &loops, &threads);
    assert_eq!(jump, EvidenceJump::NotFound);
    assert_eq!(evidence_status(EvidenceKind::Warning, jump), "No WARN evidence found");
    let jump = evidence_jump(EvidenceKind::Ack, None, &runs, &loops, &threads);
    assert_eq!(jump, EvidenceJump::NotFound);
    assert_eq!(evidence_status(EvidenceKind::Ack, jump), "No pending ACK evidence found");
    assert_eq!(first_pending_ack_thread(&threads), None);
}

#[test]
fn selected_run_output_is_searched_before_the_log_on_the_runs_tab() {
    let runs = vec![RunView {
        id: "r0".to_owned(),
        output_lines: vec!["error: in run".to_owned(), "done".to_owned()],
        ..Default::default()
    }];
    let log = vec!["error: in log".to_owned()];
    let source = evidence_source_lines(true, &runs, 0, &log).unwrap();
    assert_eq!(source[0], "error: in run");
    let source = evidence_source_lines(false, &runs, 0, &log).unwrap();
    assert_eq!(source[0], "error: in log");
    let source = evidence_source_lines(true, &runs, 5, &log).unwrap();
    assert_eq!(source[0], "error: in log");
}

#[test]
fn first_jump_keeps_its_return_point() {
    let mut slot = None;
    stash_return_point(&mut slot, point(MainTab::Logs, "loop-0", 0, 3));
    stash_return_point(&mut slot, point(MainTab::Runs, "loop-1", 1, 0));
    let ids = loop_ids(&sample_loops(2));
    let restored = take_return_point(&mut slot, &ids, 0, 0).unwrap();
    assert_eq!(restored.tab, MainTab::Logs);
    assert_eq!(restored.log_scroll, 3);
    assert!(!restored.follow_mode);
}

#[test]
fn return_finds_a_moved_loop_or_clamps() {
    let ids = vec!["loop-9".to_owned(), "loop-1".to_owned()];
    let mut slot = Some(point(MainTab::Overview, "loop-1", 0, 0));
    let restored = take_return_point(&mut slot, &ids, 0, 0).unwrap();
    assert_eq!((restored.selected_idx, restored.selected_id.as_str()), (1, "loop-1"));

    let mut slot = Some(point(MainTab::Overview, "gone", 7, 0));
    let restored = take_return_point(&mut slot, &ids, 0, 0).unwrap();
    assert_eq!((restored.selected_idx, restored.selected_id.as_str()), (1, "loop-1"));

    let mut slot = Some(point(MainTab::Overview, "loop-1", 7, 0));
    let restored = take_return_point(&mut slot, &Vec::new(), 0, 0).unwrap();
    assert_eq!((restored.selected_idx, restored.selected_id.as_str()), (0, ""));
}
