use forge_tui::bootstrap::{
    failed_table_read, kept_run_history, log_path_entry, reads_log, run_count, table_or, RunRow,
    RunStatus, TableRead,
};

fn run(id: &str) -> RunRow {
    RunRow {
        id: id.to_owned(),
        status: RunStatus::Success,
        exit_code: Some(0),
        finished_at: Some("2026-02-12T08:00:00Z".to_owned()),
        started_at: "2026-02-12T07:59:00Z".to_owned(),
        output_tail: "done".to_owned(),
    }
}

#[test]
fn missing_table_reads_as_empty_and_other_failures_as_errors() {
    let missing: TableRead<Vec<u32>> = failed_table_read("sqlite: no such table: pools".to_owned(), "pools");
    assert!(matches!(missing, TableRead::MissingTable));
    assert_eq!(table_or(missing, Vec::new()), Ok(Vec::new()));

    let failed: TableRead<Vec<u32>> = failed_table_read("disk I/O error".to_owned(), "pools");
    assert_eq!(table_or(failed, Vec::new()), Err("disk I/O error".to_owned()));

    let other_table: TableRead<u32> = failed_table_read("no such table: loops".to_owned(), "pools");
    assert_eq!(table_or(other_table, 0), Err("no such table: loops".to_owned()));

    assert_eq!(table_or(TableRead::Read(vec![3u32, 4]), Vec::new()), Ok(vec![3, 4]));
}

#[test]
fn stored_run_counts_saturate() {
    assert_eq!(run_count(7), 7);
    assert_eq!(run_count(0), 0);
    assert_eq!(run_count(-1), usize::MAX);
}

#[test]
fn blank_log_paths_are_not_read_or_kept() {
    assert!(!reads_log("   "));
    assert!(!reads_log(""));
    assert!(reads_log(" /tmp/loop.log "));
    assert_eq!(log_path_entry("loop-1", ""), None);
    assert_eq!(
        log_path_entry("loop-1", "/tmp/loop.log"),
        Some(("loop-1".to_owned(), "/tmp/loop.log".to_owned()))
    );
}

#[test]
fn run_history_is_kept_only_for_loops_with_runs() {
    assert!(kept_run_history(&Vec::new(), "prof", "p-1").is_none());
    let history = kept_run_history(&vec![run("r1"), run("r2")], "prof", "p-1").expect("history");
    let ids: Vec<&str> = history.iter().map(|r| r.id.as_str()).collect();
    assert_eq!(ids, vec!["r1", "r2"]);
}
