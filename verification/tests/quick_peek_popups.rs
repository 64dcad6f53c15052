use forge_tui::quick_peek::{
    build_quick_peek_popup, handle_quick_peek_key, CommitPeekRecord, FilePeekRecord,
    FmailPeekRecord, LoopPeekRecord, PeekEntityRef, QuickPeekCatalog, QuickPeekEvent,
    QuickPeekState, TaskPeekRecord,
};

fn sample_catalog() -> QuickPeekCatalog {
    QuickPeekCatalog {
        loops: vec![LoopPeekRecord {
            loop_id: "loop-a".to_owned(),
            health: "healthy".to_owned(),
            current_task: Some("forge-6ad".to_owned()),
            recent_output: vec![
                "render pass ok".to_owned(),
                "task sync done".to_owned(),
                "idle".to_owned(),
            ],
        }],
        tasks: vec![TaskPeekRecord {
            task_id: "forge-6ad".to_owned(),
            status: "in_progress".to_owned(),
            assignee: Some("@canny-glenn".to_owned()),
            description: "Quick Peek Popups - preview any entity".to_owned(),
        }],
        fmail_threads: vec![FmailPeekRecord {
            thread_id: "20260213-203154-0000".to_owned(),
            latest_from: "@tormod".to_owned(),
            latest_message: "proceed".to_owned(),
            latest_timestamp: Some("2026-02-13T20:31:54Z".to_owned()),
        }],
        files: vec![FilePeekRecord {
            path: "src/main.rs".to_owned(),
            contents: (1..=25)
                .map(|index| format!("line-{index}"))
                .collect::<Vec<_>>()
                .join("\n"),
            recent_changes: vec!["added parser".to_owned(), "tightened error path".to_owned()],
        }],
        commits: vec![CommitPeekRecord {
            commit_hash: "ABCDEF1234567890".to_owned(),
            summary: "add quick peek popup model".to_owned(),
            author: "canny-glenn".to_owned(),
            files_changed: vec![
                "crates/forge-tui/src/quick_peek_popups.rs".to_owned(),
                "crates/forge-tui/src/lib.rs".to_owned(),
            ],
        }],
    }
}

#[test]
fn loop_peek_contains_health_task_and_output() {
    let popup = match build_quick_peek_popup(&PeekEntityRef::loop_id("LOOP-A"), &sample_catalog()) {
        Some(popup) => popup,
        None => panic!("loop popup should exist"),
    };
    assert_eq!(popup.title, "Loop loop-a");
    assert!(popup.lines.iter().any(|line| line.contains("health: healthy")));
    assert!(popup
        .lines
        .iter()
        .any(|line| line.contains("current task: forge-6ad")));
    assert!(popup.lines.iter().any(|line| line.contains("render pass ok")));
}

#[test]
fn task_peek_contains_status_assignee_description() {
    let popup = match build_quick_peek_popup(&PeekEntityRef::task_id("forge-6ad"), &sample_catalog())
    {
        Some(popup) => popup,
        None => panic!("task popup should exist"),
    };
    assert_eq!(popup.title, "Task forge-6ad");
    assert!(popup.lines.iter().any(|line| line.contains("status: in_progress")));
    assert!(popup
        .lines
        .iter()
        .any(|line| line.contains("assignee: @canny-glenn")));
    assert!(popup
        .lines
        .iter()
        .any(|line| line.contains("description: Quick Peek Popups")));
}

#[test]
fn file_peek_shows_first_twenty_lines_and_recent_changes() {
    let popup = match build_quick_peek_popup(&PeekEntityRef::file_path("src/main.rs"), &sample_catalog())
    {
        Some(popup) => popup,
        None => panic!("file popup should exist"),
    };
    assert_eq!(popup.title, "File src/main.rs");
    assert!(popup.lines.iter().any(|line| line.contains("line-20")));
    assert!(!popup.lines.iter().any(|line| line.contains("line-21")));
    assert!(popup.lines.iter().any(|line| line.contains("... +5 more lines")));
    assert!(popup.lines.iter().any(|line| line.contains("added parser")));
}

#[test]
fn fmail_peek_shows_latest_message() {
    let popup = match build_quick_peek_popup(
        &PeekEntityRef::fmail_thread("20260213-203154-0000"),
        &sample_catalog(),
    ) {
        Some(popup) => popup,
        None => panic!("fmail popup should exist"),
    };
    assert_eq!(popup.title, "Thread 20260213-203154-0000");
    assert!(popup.lines.iter().any(|line| line.contains("from: @tormod")));
    assert!(popup.lines.iter().any(|line| line.contains("message: proceed")));
}

#[test]
fn commit_peek_uses_short_hash() {
    let popup = match build_quick_peek_popup(&PeekEntityRef::commit("abcdef1234567890"), &sample_catalog())
    {
        Some(popup) => popup,
        None => panic!("commit popup should exist"),
    };
    assert_eq!(popup.title, "Commit abcdef12");
    assert!(popup
        .lines
        .iter()
        .any(|line| line.contains("summary: add quick peek popup model")));
}

#[test]
fn space_opens_popup_any_key_dismisses() {
    let catalog = sample_catalog();
    let focus = PeekEntityRef::task_id("forge-6ad");
    let mut state = QuickPeekState::default();
    let event = handle_quick_peek_key(&mut state, ' ', Some(&focus), &catalog);
    assert_eq!(event, QuickPeekEvent::Opened);
    assert!(state.popup.is_some());

    let dismiss = handle_quick_peek_key(&mut state, 'x', Some(&focus), &catalog);
    assert_eq!(dismiss, QuickPeekEvent::Dismissed);
    assert!(state.popup.is_none());
}

#[test]
fn missing_target_returns_not_found() {
    let mut state = QuickPeekState::default();
    let catalog = QuickPeekCatalog::default();
    let event = handle_quick_peek_key(
        &mut state,
        ' ',
        Some(&PeekEntityRef::loop_id("missing")),
        &catalog,
    );
    assert_eq!(event, QuickPeekEvent::NotFound);
}

#[test]
fn loop_popup_lines_are_exact() {
    let popup = build_quick_peek_popup(&PeekEntityRef::loop_id("  Loop-A "), &sample_catalog())
        .expect("loop popup");
    assert_eq!(
        popup.lines,
        vec![
            "health: healthy",
            "current task: forge-6ad",
            "recent output:",
            "  render pass ok",
            "  task sync done",
            "  idle",
        ]
    );
    assert_eq!(popup.target.value, "loop-a");
    assert!(popup.dismiss_on_any_key);
}

#[test]
fn file_popup_lines_are_exact_for_short_and_empty_files() {
    let mut catalog = sample_catalog();
    catalog.files.push(FilePeekRecord {
        path: "empty.txt".to_owned(),
        contents: String::new(),
        recent_changes: Vec::new(),
    });
    catalog.files.push(FilePeekRecord {
        path: "Short.md".to_owned(),
        contents: "a   b\n\tc\r\n".to_owned(),
        recent_changes: vec!["one".to_owned(), "two".to_owned(), "three".to_owned(), "four".to_owned()],
    });
    let empty = build_quick_peek_popup(&PeekEntityRef::file_path("empty.txt"), &catalog).expect("empty");
    assert_eq!(
        empty.lines,
        vec!["head (20 lines max):", "  <empty file>", "recent changes: none"]
    );
    let short = build_quick_peek_popup(&PeekEntityRef::file_path(" Short.md "), &catalog).expect("short");
    assert_eq!(
        short.lines,
        vec![
            "head (20 lines max):",
            "  a b",
            "  c",
            "recent changes:",
            "  one",
            "  two",
            "  three",
        ]
    );
    assert!(build_quick_peek_popup(&PeekEntityRef::file_path("short.md"), &catalog).is_none());
}

#[test]
fn task_and_thread_popups_fill_missing_fields() {
    let mut catalog = sample_catalog();
    catalog.tasks.push(TaskPeekRecord {
        task_id: "T-2".to_owned(),
        status: " blocked ".to_owned(),
        assignee: None,
        description: "wait  for\nreview".to_owned(),
    });
    catalog.fmail_threads[0].latest_timestamp = None;
    let task = build_quick_peek_popup(&PeekEntityRef::task_id("t-2"), &catalog).expect("task");
    assert_eq!(task.title, "Task T-2");
    assert_eq!(
        task.lines,
        vec!["status: blocked", "assignee: unassigned", "description: wait for review"]
    );
    let thread = build_quick_peek_popup(
        &PeekEntityRef::fmail_thread("20260213-203154-0000"),
        &catalog,
    )
    .expect("thread");
    assert_eq!(thread.lines, vec!["from: @tormod", "message: proceed"]);
}

#[test]
fn commit_popup_lists_at_most_four_files() {
    let mut catalog = sample_catalog();
    catalog.commits[0].files_changed = (1..=6).map(|i| format!("f{i}.rs")).collect();
    let popup = build_quick_peek_popup(&PeekEntityRef::commit("ABCDEF1234567890"), &catalog).expect("commit");
    assert_eq!(
        popup.lines,
        vec![
            "summary: add quick peek popup model",
            "author: canny-glenn",
            "files:",
            "  f1.rs",
            "  f2.rs",
            "  f3.rs",
            "  f4.rs",
        ]
    );
}

#[test]
fn non_space_key_without_popup_is_noop() {
    let catalog = sample_catalog();
    let focus = PeekEntityRef::loop_id("loop-a");
    let mut state = QuickPeekState::default();
    assert_eq!(
        handle_quick_peek_key(&mut state, 'j', Some(&focus), &catalog),
        QuickPeekEvent::Noop
    );
    assert!(state.popup.is_none());
    assert_eq!(
        handle_quick_peek_key(&mut state, ' ', None, &catalog),
        QuickPeekEvent::NotFound
    );
}
