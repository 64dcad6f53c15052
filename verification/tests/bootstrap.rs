use forge_tui::app::{ActionKind, ActionType, LoopView};
use forge_tui::bootstrap::{
    action_args, action_outcome, action_outcome_for_output, build_up_args, create_success_message,
    created_loop_name, created_loop_name_in_output,
    error_from_stderr, is_missing_table_message, load_snapshot, log_window_lines,
    newest_loop_named, parse_resume_success_message, run_output_lines, sort_loop_views,
    wizard_value, fallback_log_lines, log_tail_view, map_run_view, pending_count,
    resolve_pool_name, resolve_profile, run_duration_label, run_history, run_status_label,
    LogRead, RunRow, RunStatus,
};
use forge_tui::json::JsonValue;
use std::collections::HashMap;

#[test]
fn build_up_args_maps_wizard_values() {
    let wizard = vec![
        ("name".to_owned(), "demo-loop".to_owned()),
        ("count".to_owned(), "2".to_owned()),
        ("interval".to_owned(), "45s".to_owned()),
        ("tags".to_owned(), "alpha,beta".to_owned()),
        ("profile".to_owned(), "default".to_owned()),
    ];

    let args = build_up_args(&wizard, "daemon");
    assert_eq!(
        args,
        vec![
            "up".to_owned(),
            "--json".to_owned(),
            "--spawn-owner".to_owned(),
            "daemon".to_owned(),
            "--name".to_owned(),
            "demo-loop".to_owned(),
            "--count".to_owned(),
            "2".to_owned(),
            "--profile".to_owned(),
            "default".to_owned(),
            "--interval".to_owned(),
            "45s".to_owned(),
            "--tags".to_owned(),
            "alpha,beta".to_owned(),
        ]
    );
}

#[test]
fn build_up_args_skips_blank_values_and_auto_owner() {
    let wizard = vec![
        ("name".to_owned(), "  ".to_owned()),
        ("pool".to_owned(), " main ".to_owned()),
        ("pool".to_owned(), "second".to_owned()),
    ];
    assert_eq!(
        build_up_args(&wizard, "auto"),
        vec!["up", "--json", "--pool", "main"]
    );
    assert_eq!(wizard_value(&wizard, "pool").map(String::as_str), Some(" main "));
    assert_eq!(wizard_value(&wizard, "tags"), None);
}

#[test]
fn action_args_per_action() {
    let resume = ActionKind::Resume { loop_id: "l1".to_owned() };
    assert_eq!(action_args(&resume, "auto"), vec!["resume", "l1", "--json"]);
    assert_eq!(
        action_args(&resume, "local"),
        vec!["resume", "l1", "--json", "--spawn-owner", "local"]
    );
    let delete = ActionKind::Delete { loop_id: "l2".to_owned(), force: true };
    assert_eq!(action_args(&delete, "auto"), vec!["rm", "l2", "--json", "--force"]);
    let kill = ActionKind::Kill { loop_id: "l3".to_owned() };
    assert_eq!(action_args(&kill, "x"), vec!["kill", "l3", "--json"]);
}

fn obj(fields: Vec<(&str, JsonValue)>) -> JsonValue {
    JsonValue::Object(fields.into_iter().map(|(k, v)| (k.to_owned(), v)).collect())
}

#[test]
fn action_outcomes_report_success_and_failure() {
    let stop = ActionKind::Stop { loop_id: "l1".to_owned() };
    let ok = action_outcome(&stop, 0, None, "", String::new());
    assert_eq!(ok.kind, ActionType::Stop);
    assert_eq!(ok.message, "Stop queued for loop l1");
    assert_eq!(ok.error, None);
    let failed = action_outcome(&stop, 1, None, "  busy \n", String::new());
    assert_eq!(failed.error.as_deref(), Some("stop loop failed: busy"));
    assert_eq!(failed.message, "");

    let resume = ActionKind::Resume { loop_id: "l9".to_owned() };
    let reported = obj(vec![
        ("resumed", JsonValue::Bool(true)),
        ("name", JsonValue::Str("alpha".to_owned())),
    ]);
    let r = action_outcome(&resume, 0, Some(&reported), "", String::new());
    assert_eq!(r.message, "Loop alpha resumed (l9)");
    let plain = action_outcome(&resume, 0, None, "", String::new());
    assert_eq!(plain.message, "Loop l9 resumed");

    let create = ActionKind::Create { wizard: Vec::new() };
    let created = JsonValue::Array(vec![obj(vec![("name", JsonValue::Str("new".to_owned()))])]);
    let c = action_outcome(&create, 0, Some(&created), "", "loop-7".to_owned());
    assert_eq!(c.kind, ActionType::Create);
    assert_eq!(c.selected_loop_id, "loop-7");
    assert_eq!(c.message, "Loop new created");
    assert_eq!(c.loop_id, "");
    let cf = action_outcome(&create, 2, None, "", "ignored".to_owned());
    assert_eq!(cf.error.as_deref(), Some("create loop failed"));
    assert_eq!(cf.selected_loop_id, "");
}

#[test]
fn messages_from_command_output() {
    assert_eq!(create_success_message(None), "Loop created");
    assert_eq!(create_success_message(Some(&JsonValue::Array(Vec::new()))), "Loop created");
    let two = JsonValue::Array(vec![obj(vec![]), obj(vec![])]);
    assert_eq!(create_success_message(Some(&two)), "Created 2 loops");
    let nameless = JsonValue::Array(vec![obj(vec![])]);
    assert_eq!(create_success_message(Some(&nameless)), "Loop loop created");
    assert_eq!(created_loop_name(Some(&nameless)), None);
    let not_resumed = obj(vec![("resumed", JsonValue::Bool(false))]);
    assert_eq!(parse_resume_success_message(Some(&not_resumed), "x"), None);
    assert_eq!(error_from_stderr("kill loop", "   "), "kill loop failed");
}

#[test]
fn output_and_log_windows_keep_newest_lines() {
    assert_eq!(run_output_lines("a  \n\n  \nb\nc", 2), vec!["b", "c"]);
    assert_eq!(run_output_lines("a\nb", 5), vec!["a", "b"]);
    assert_eq!(log_window_lines("partial\nx\ny\nz", true, 2), vec!["y", "z"]);
    assert_eq!(log_window_lines("x\ny", false, 5), vec!["x", "y"]);
    assert!(is_missing_table_message("sqlite: no such table: loops", "loops"));
    assert!(!is_missing_table_message("sqlite: no such table: pools", "loops"));
}

fn loop_view(id: &str, name: &str) -> LoopView {
    LoopView { id: id.to_owned(), name: name.to_owned(), ..LoopView::default() }
}

#[test]
fn loops_sort_by_name_ignoring_case_then_id() {
    let sorted = sort_loop_views(vec![
        loop_view("2", "beta"),
        loop_view("9", "Alpha"),
        loop_view("1", "beta"),
    ]);
    let ids: Vec<&str> = sorted.iter().map(|l| l.id.as_str()).collect();
    assert_eq!(ids, vec!["9", "1", "2"]);
}

#[test]
fn newest_loop_with_name_wins() {
    let rows = vec![
        ("a".to_owned(), "demo".to_owned(), "2024-01-01".to_owned()),
        ("b".to_owned(), "demo".to_owned(), "2024-03-01".to_owned()),
        ("c".to_owned(), "other".to_owned(), "2025-01-01".to_owned()),
        ("d".to_owned(), "demo".to_owned(), "2024-03-01".to_owned()),
    ];
    assert_eq!(newest_loop_named(&rows, "demo").as_deref(), Some("b"));
    assert_eq!(newest_loop_named(&rows, "none"), None);
}

#[test]
fn snapshots_carry_data_or_error() {
    let ok = load_snapshot(Ok((vec![loop_view("1", "x")], HashMap::new(), HashMap::new())));
    assert_eq!(ok.loops.len(), 1);
    assert!(ok.error.is_none());
    let err = load_snapshot(Err("boom".to_owned()));
    assert!(err.loops.is_empty());
    assert_eq!(err.error.as_deref(), Some("boom"));
}

fn run(id: &str, status: RunStatus, finished: bool, tail: &str) -> RunRow {
    RunRow {
        id: id.to_owned(),
        status,
        exit_code: if finished { Some(0) } else { None },
        finished_at: if finished { Some("2026-02-12T08:00:00Z".to_owned()) } else { None },
        started_at: "2026-02-12T07:59:00Z".to_owned(),
        output_tail: tail.to_owned(),
    }
}

#[test]
fn run_labels_follow_status_and_finish() {
    assert_eq!(run_status_label(RunStatus::Running), "RUNNING");
    assert_eq!(run_status_label(RunStatus::Success), "SUCCESS");
    assert_eq!(run_status_label(RunStatus::Error), "ERROR");
    assert_eq!(run_status_label(RunStatus::Killed), "KILLED");
    assert_eq!(run_duration_label(RunStatus::Running, true), "running");
    assert_eq!(run_duration_label(RunStatus::Success, true), "done");
    assert_eq!(run_duration_label(RunStatus::Killed, false), "-");
}

#[test]
fn run_views_carry_the_row_and_its_output() {
    let view = map_run_view(&run("r1", RunStatus::Error, true, "one  \n\n two\n"), "dev", "p-1");
    assert_eq!(view.id, "r1");
    assert_eq!(view.status, "ERROR");
    assert_eq!(view.exit_code, Some(0));
    assert_eq!(view.duration, "done");
    assert_eq!(view.profile_name, "dev");
    assert_eq!(view.profile_id, "p-1");
    assert!(view.harness.is_empty() && view.auth_kind.is_empty());
    assert_eq!(view.started_at, "2026-02-12T07:59:00Z");
    assert_eq!(view.output_lines, vec!["one".to_owned(), " two".to_owned()]);
}

#[test]
fn run_history_keeps_the_first_hundred_and_twenty_runs() {
    let runs: Vec<RunRow> = (0..130)
        .map(|i| run(&format!("r{i}"), RunStatus::Success, true, ""))
        .collect();
    let history = run_history(&runs, "dev", "p");
    assert_eq!(history.len(), 120);
    assert_eq!(history[0].id, "r0");
    assert_eq!(history[119].id, "r119");
    assert!(run_history(&Vec::new(), "dev", "p").is_empty());
}

#[test]
fn log_tail_falls_back_to_first_run_output() {
    let runs = vec![run("r1", RunStatus::Running, false, "a\nb\n"), run("r2", RunStatus::Success, true, "z")];
    let fallback = fallback_log_lines(&runs);
    assert_eq!(fallback, vec!["a".to_owned(), "b".to_owned()]);
    assert!(fallback_log_lines(&Vec::new()).is_empty());

    let blank = log_tail_view("  ", LogRead::Read { text: "x".to_owned(), windowed: false }, fallback.clone());
    assert_eq!(blank.lines, fallback);
    assert_eq!(blank.message, "No loop log path configured");

    let missing = log_tail_view("/tmp/none.log", LogRead::Missing, fallback.clone());
    assert_eq!(missing.lines, fallback);
    assert_eq!(missing.message, "Log file missing: /tmp/none.log");

    let failed = log_tail_view("/tmp/x.log", LogRead::Failed("read /tmp/x.log: denied".to_owned()), fallback.clone());
    assert_eq!(failed.lines, fallback);
    assert_eq!(failed.message, "read /tmp/x.log: denied");

    let read = log_tail_view(
        "/tmp/x.log",
        LogRead::Read { text: "cut line\nfirst\nsecond".to_owned(), windowed: true },
        fallback,
    );
    assert_eq!(read.lines, vec!["first".to_owned(), "second".to_owned()]);
    assert_eq!(read.message, "tailing /tmp/x.log");
}

#[test]
fn profile_and_pool_names_fall_back_to_ids() {
    let found = ("dev".to_owned(), "codex".to_owned(), "oauth".to_owned());
    assert_eq!(
        resolve_profile("p-1", Some(&found)),
        ("dev".to_owned(), "codex".to_owned(), "oauth".to_owned())
    );
    assert_eq!(resolve_profile("p-1", None), ("p-1".to_owned(), String::new(), String::new()));
    let pool = "default".to_owned();
    assert_eq!(resolve_pool_name("", Some(&pool)), "");
    assert_eq!(resolve_pool_name("pool-1", Some(&pool)), "default");
    assert_eq!(resolve_pool_name("pool-1", None), "pool-1");
}

#[test]
fn only_pending_queue_items_count() {
    let statuses = vec!["pending".to_owned(), "done".to_owned(), "pending".to_owned(), "Pending".to_owned()];
    assert_eq!(pending_count(&statuses), 2);
    assert_eq!(pending_count(&Vec::new()), 0);
}

#[test]
fn outcomes_read_the_command_output_as_json_text() {
    let resume = ActionKind::Resume { loop_id: "loop-1".to_owned() };
    let r = action_outcome_for_output(&resume, 0, r#"{"resumed": true, "name": "my-loop", "loop_id": "loop-1"}"#, "", String::new());
    assert_eq!(r.message, "Loop my-loop resumed (loop-1)");
    let plain = action_outcome_for_output(&resume, 0, "not json", "", String::new());
    assert_eq!(plain.message, "Loop loop-1 resumed");
    assert_eq!(created_loop_name_in_output(r#"[{"name": "alpha"}, {"name": "beta"}]"#), Some("alpha".to_owned()));
    assert_eq!(created_loop_name_in_output("[]"), None);
    assert_eq!(created_loop_name_in_output("{"), None);
}
