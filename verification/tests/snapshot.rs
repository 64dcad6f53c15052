use forge_tui::app::LoopView;
use forge_tui::json::JsonValue;
use forge_tui::snapshot::{
    add_loop_state, add_team_task_status, assemble_live_snapshot, is_legacy_runtime_value, is_truthy_value,
    payload_title, payload_title_of_text, render_snapshot_text, snapshot_lines, snapshot_report_lines, sort_team_summaries,
    sort_team_tasks, trim, LiveLoopSnapshot, TeamRecord, TeamSummaryView, TeamTaskInboxView,
};

#[test]
fn ci_non_tty_snapshot_mode_is_disabled_without_ci() {
    assert!(!is_truthy_value(None));
}

#[test]
fn ci_non_tty_snapshot_mode_accepts_truthy_ci_values() {
    assert!(is_truthy_value(Some("1")));
    assert!(is_truthy_value(Some("true")));
    assert!(is_truthy_value(Some("YES")));
    assert!(is_truthy_value(Some("  on ")));
}

#[test]
fn ci_non_tty_snapshot_mode_rejects_falsey_ci_values() {
    assert!(!is_truthy_value(Some("0")));
    assert!(!is_truthy_value(Some("no")));
    assert!(!is_truthy_value(Some("")));
}

#[test]
fn runtime_legacy_requested_detects_legacy_values() {
    assert!(is_legacy_runtime_value(Some("legacy")));
    assert!(is_legacy_runtime_value(Some("old")));
    assert!(is_legacy_runtime_value(Some(" OLD ")));
}

#[test]
fn runtime_legacy_requested_rejects_non_legacy_values() {
    assert!(!is_legacy_runtime_value(None));
    assert!(!is_legacy_runtime_value(Some("frankentui")));
    assert!(!is_legacy_runtime_value(Some("bootstrap")));
}

#[test]
fn cells_are_cut_with_a_tilde() {
    assert_eq!(trim("abc", 5), "abc");
    assert_eq!(trim("abcdef", 4), "abc~");
    assert_eq!(trim("abcdef", 1), "a");
    assert_eq!(trim("abcdef", 0), "");
    assert_eq!(trim("résumé", 5), "résu~");
}

fn team(id: &str, name: &str) -> TeamSummaryView {
    TeamSummaryView {
        id: id.to_owned(),
        name: name.to_owned(),
        ..TeamSummaryView::default()
    }
}

fn task(id: &str, team: &str, priority: i64, title: &str, agent: &str) -> TeamTaskInboxView {
    TeamTaskInboxView {
        id: id.to_owned(),
        team_name: team.to_owned(),
        status: if agent.is_empty() { "queued".to_owned() } else { "assigned".to_owned() },
        priority,
        assigned_agent_id: agent.to_owned(),
        title: title.to_owned(),
    }
}

#[test]
fn snapshot_report_renders_team_summary_and_task_inbox_sections() {
    let mut snapshot = LiveLoopSnapshot::default();
    snapshot.loops.push(LoopView {
        id: "loop-alpha-000001".to_owned(),
        name: "alpha-loop".to_owned(),
        state: "running".to_owned(),
        runs: 1,
        queue_depth: 1,
        profile_name: "dev".to_owned(),
        ..LoopView::default()
    });
    snapshot.total_queue_depth = 1;
    snapshot.profile_count = 1;
    add_loop_state(&mut snapshot, "running");
    let mut ops = team("t1", "ops");
    ops.members = 1;
    add_team_task_status(&mut ops, "queued");
    add_team_task_status(&mut ops, "assigned");
    assert_eq!(ops.open, 2);
    snapshot.teams.push(ops);
    snapshot.team_tasks = sort_team_tasks(vec![
        task("task-b", "ops", 8, "auth timeout", "agent-a"),
        task("task-a", "ops", 5, "database outage", ""),
    ]);
    let lines = snapshot_report_lines("/tmp/forge.db", &snapshot);
    let expected = vec![
        String::new(),
        "forge loop snapshot (rust)".to_owned(),
        "db: /tmp/forge.db".to_owned(),
        "loops: 1  queue(pending): 1  profiles: 1".to_owned(),
        "states: running=1 sleeping=0 waiting=0 stopped=0 error=0".to_owned(),
        String::new(),
        format!("{:<10} {:<9} {:>5} {:>6} {:<18} NAME", "ID", "STATE", "RUNS", "QUEUE", "PROFILE"),
        format!("{:<10} {:<9} {:>5} {:>6} {:<18} {}", "loop-alph~", "running", 1, 1, "dev", "alpha-loop"),
        String::new(),
        "teams snapshot (read-only):".to_owned(),
        format!(
            "{:<18} {:>7} {:>7} {:>8} {:>7} {:>7} {:>6}",
            "TEAM", "MEMBER", "OPEN", "QUEUED", "ASSIGN", "RUN", "BLOCK"
        ),
        format!("{:<18} {:>7} {:>7} {:>8} {:>7} {:>7} {:>6}", "ops", 1, 2, 1, 1, 0, 0),
        String::new(),
        "team task inbox (read-only):".to_owned(),
        format!(
            "{:<10} {:<14} {:<9} {:>8} {:<14} TITLE",
            "TASK", "TEAM", "STATUS", "PRIORITY", "ASSIGNEE"
        ),
        format!("{:<10} {:<14} {:<9} {:>8} {:<14} {}", "task-a", "ops", "queued", 5, "-", "database outage"),
        format!("{:<10} {:<14} {:<9} {:>8} {:<14} {}", "task-b", "ops", "assigned", 8, "agent-a", "auth timeout"),
    ];
    assert_eq!(lines, expected);
    let text = render_snapshot_text(&lines);
    assert!(text.ends_with("auth timeout\n"));
    assert!(text.contains("teams snapshot (read-only):"));
    assert_eq!(render_snapshot_text(&Vec::new()), "");
}

#[test]
fn empty_snapshot_sections_say_so() {
    let lines = snapshot_report_lines("db", &LiveLoopSnapshot::default());
    assert!(lines.contains(&"No loops found".to_owned()));
    assert!(lines.contains(&"No teams found".to_owned()));
    assert!(lines.contains(&"No open team tasks".to_owned()));
}

#[test]
fn teams_sort_by_name_ignoring_case_then_id() {
    let sorted = sort_team_summaries(vec![team("2", "Ops"), team("1", "alpha"), team("0", "ops")]);
    let ids: Vec<&str> = sorted.iter().map(|t| t.id.as_str()).collect();
    assert_eq!(ids, vec!["1", "0", "2"]);
}

#[test]
fn tasks_sort_by_priority_then_team_then_id() {
    let sorted = sort_team_tasks(vec![
        task("b", "ops", 2, "", ""),
        task("a", "web", 1, "", ""),
        task("c", "api", 2, "", ""),
        task("a", "ops", 2, "", ""),
    ]);
    let keys: Vec<(String, String)> = sorted.iter().map(|t| (t.team_name.clone(), t.id.clone())).collect();
    assert_eq!(
        keys,
        vec![
            ("web".to_owned(), "a".to_owned()),
            ("api".to_owned(), "c".to_owned()),
            ("ops".to_owned(), "a".to_owned()),
            ("ops".to_owned(), "b".to_owned()),
        ]
    );
}

#[test]
fn loop_states_are_tallied_and_others_ignored() {
    let mut snapshot = LiveLoopSnapshot::default();
    for state in ["running", "sleeping", "waiting", "stopped", "error", "paused", "running"] {
        add_loop_state(&mut snapshot, state);
    }
    assert_eq!(
        (snapshot.running, snapshot.sleeping, snapshot.waiting, snapshot.stopped, snapshot.errored),
        (2, 1, 1, 1, 1)
    );
}

#[test]
fn payload_title_reads_the_title_text() {
    let payload = JsonValue::Object(vec![
        ("type".to_owned(), JsonValue::Str("incident".to_owned())),
        ("title".to_owned(), JsonValue::Str("database outage".to_owned())),
    ]);
    assert_eq!(payload_title(Some(&payload)), "database outage");
    let numeric = JsonValue::Object(vec![("title".to_owned(), JsonValue::UInt(3))]);
    assert_eq!(payload_title(Some(&numeric)), "");
    assert_eq!(payload_title(None), "");
}

#[test]
fn payload_title_reads_the_payload_text() {
    assert_eq!(payload_title_of_text(r#"{"title": "database outage"}"#), "database outage");
    assert_eq!(payload_title_of_text(r#"{"title": 3}"#), "");
    assert_eq!(payload_title_of_text("not json"), "");
}

#[test]
fn assembled_snapshot_orders_and_counts() {
    let lv = |id: &str, name: &str, state: &str, q: usize| LoopView {
        id: id.to_owned(),
        name: name.to_owned(),
        state: state.to_owned(),
        queue_depth: q,
        ..LoopView::default()
    };
    let task = |id: &str, team: &str, status: &str, priority: i64| TeamTaskInboxView {
        id: id.to_owned(),
        team_name: team.to_owned(),
        status: status.to_owned(),
        priority,
        ..TeamTaskInboxView::default()
    };
    let loops = vec![lv("b", "Beta", "running", 2), lv("a", "alpha", "error", 3), lv("c", "gamma", "paused", usize::MAX)];
    let teams = vec![
        TeamRecord {
            id: "t2".to_owned(),
            name: "Zeta".to_owned(),
            members: 2,
            tasks: vec![task("x", "Zeta", "queued", 2), task("y", "Zeta", "blocked", 1)],
        },
        TeamRecord { id: "t1".to_owned(), name: "alpha".to_owned(), members: 1, tasks: vec![task("z", "alpha", "running", 1)] },
    ];
    let s = assemble_live_snapshot(loops, std::collections::HashMap::new(), 4, teams);
    assert_eq!(s.loops.iter().map(|l| l.id.as_str()).collect::<Vec<_>>(), vec!["a", "b", "c"]);
    assert_eq!(s.total_queue_depth, usize::MAX);
    assert_eq!((s.running, s.sleeping, s.waiting, s.stopped, s.errored), (1, 0, 0, 0, 1));
    assert_eq!(s.profile_count, 4);
    assert_eq!(s.teams.iter().map(|t| t.id.as_str()).collect::<Vec<_>>(), vec!["t1", "t2"]);
    assert_eq!((s.teams[1].queued, s.teams[1].blocked, s.teams[1].open), (1, 1, 2));
    assert_eq!(s.team_tasks.iter().map(|t| t.id.as_str()).collect::<Vec<_>>(), vec!["y", "z", "x"]);
}

#[test]
fn snapshot_lines_are_the_error_alone_or_the_frame_then_the_report() {
    let failed: Result<LiveLoopSnapshot, String> = Err("disk I/O error".to_owned());
    assert_eq!(
        snapshot_lines("/tmp/forge.db", &failed, vec!["frame".to_owned()]),
        vec!["error: load live loop snapshot: disk I/O error".to_owned()]
    );
    let loaded: Result<LiveLoopSnapshot, String> = Ok(LiveLoopSnapshot::default());
    let lines = snapshot_lines("/tmp/forge.db", &loaded, vec!["row 0".to_owned(), "row 1".to_owned()]);
    let report = snapshot_report_lines("/tmp/forge.db", &LiveLoopSnapshot::default());
    assert_eq!(lines[0], "row 0");
    assert_eq!(lines[1], "row 1");
    assert_eq!(lines[2], "");
    assert_eq!(lines[3], "forge loop snapshot (rust)");
    assert_eq!(lines[2..].to_vec(), report);
}
