use forge_tui::annotations::{AnnotationTarget, SharedAnnotationStore};

#[test]
fn add_and_list_annotations_for_target() {
    let mut store = SharedAnnotationStore::default();
    let target = AnnotationTarget::Run {
        run_id: "run-1".to_owned(),
    };
    let id = match store.add_annotation(
        target.clone(),
        "agent-a",
        "Investigate timeout in step deploy",
        &["incident".to_owned()],
        100,
    ) {
        Ok(id) => id,
        Err(err) => panic!("add should succeed: {err}"),
    };
    assert!(id.starts_with("ann-"));

    let list = store.list_for_target(&target);
    assert_eq!(list.len(), 1);
    assert_eq!(list[0].body, "Investigate timeout in step deploy");
}

#[test]
fn update_annotation_refreshes_body_tags_and_timestamp() {
    let mut store = SharedAnnotationStore::default();
    let target = AnnotationTarget::LogLine {
        loop_id: "loop-2".to_owned(),
        line_index: 44,
    };
    let id = match store.add_annotation(target, "agent-a", "old body", &[], 100) {
        Ok(id) => id,
        Err(err) => panic!("add should succeed: {err}"),
    };
    if let Err(err) = store.update_annotation(&id, "new body", &["follow-up".to_owned()], 180) {
        panic!("update should succeed: {err}");
    }

    let entry = match store.entries().iter().find(|entry| entry.id == id) {
        Some(entry) => entry,
        None => panic!("entry should exist"),
    };
    assert_eq!(entry.body, "new body");
    assert_eq!(entry.tags, vec!["follow-up".to_owned()]);
    assert_eq!(entry.updated_at_epoch_s, 180);
}

#[test]
fn search_text_matches_body_author_and_tags() {
    let mut store = SharedAnnotationStore::default();
    if let Err(err) = store.add_annotation(
        AnnotationTarget::Run {
            run_id: "run-9".to_owned(),
        },
        "agent-river",
        "deadlock reproduced in replay",
        &["critical".to_owned()],
        50,
    ) {
        panic!("add should succeed: {err}");
    }
    if let Err(err) = store.add_annotation(
        AnnotationTarget::Run {
            run_id: "run-10".to_owned(),
        },
        "agent-sky",
        "safe cleanup complete",
        &["note".to_owned()],
        70,
    ) {
        panic!("add should succeed: {err}");
    }

    let deadlock = store.search_text("deadlock");
    assert_eq!(deadlock.len(), 1);
    assert_eq!(deadlock[0].author, "agent-river");

    let critical = store.search_text("critical");
    assert_eq!(critical.len(), 1);
    assert_eq!(critical[0].body, "deadlock reproduced in replay");
}

#[test]
fn remove_annotation_deletes_entry() {
    let mut store = SharedAnnotationStore::default();
    let id = match store.add_annotation(
        AnnotationTarget::Run {
            run_id: "run-3".to_owned(),
        },
        "agent-a",
        "temporary note",
        &[],
        100,
    ) {
        Ok(id) => id,
        Err(err) => panic!("add should succeed: {err}"),
    };
    assert!(store.remove_annotation(&id));
    assert!(!store.remove_annotation(&id));
    assert!(store.entries().is_empty());
}

#[test]
fn add_rejects_blank_author_and_body() {
    let mut store = SharedAnnotationStore::default();
    let target = AnnotationTarget::Run { run_id: "r".to_owned() };
    assert_eq!(
        store.add_annotation(target.clone(), "   ", "body", &[], 1),
        Err("annotation author is required".to_owned())
    );
    assert_eq!(
        store.add_annotation(target, "Agent", " \n ", &[], 1),
        Err("annotation body is required".to_owned())
    );
    assert!(store.entries().is_empty());
}

#[test]
fn add_normalizes_author_body_tags_and_clamps_time() {
    let mut store = SharedAnnotationStore::default();
    let id = store
        .add_annotation(
            AnnotationTarget::Run { run_id: "r".to_owned() },
            "  Agent-X ",
            "  body text  ",
            &["Zeta".to_owned(), " alpha ".to_owned(), "ALPHA".to_owned(), "  ".to_owned()],
            -5,
        )
        .expect("add");
    assert_eq!(id, "ann-0-1");
    let e = &store.entries()[0];
    assert_eq!(e.author, "agent-x");
    assert_eq!(e.body, "body text");
    assert_eq!(e.tags, vec!["alpha".to_owned(), "zeta".to_owned()]);
    assert_eq!(e.created_at_epoch_s, 0);
    assert_eq!(e.updated_at_epoch_s, 0);
    let second = store
        .add_annotation(AnnotationTarget::Run { run_id: "r".to_owned() }, "a", "b", &[], 42)
        .expect("add");
    assert_eq!(second, "ann-42-2");
}

#[test]
fn update_errors_and_timestamp_never_moves_before_creation() {
    let mut store = SharedAnnotationStore::default();
    let id = store
        .add_annotation(AnnotationTarget::Run { run_id: "r".to_owned() }, "a", "b", &[], 100)
        .expect("add");
    assert_eq!(
        store.update_annotation("nope ", "x", &[], 1),
        Err("annotation not found: nope ".to_owned())
    );
    assert_eq!(
        store.update_annotation(&format!(" {id} "), "  ", &[], 1),
        Err("annotation body is required".to_owned())
    );
    store.update_annotation(&id, "c", &[], 50).expect("update");
    assert_eq!(store.entries()[0].updated_at_epoch_s, 100);
    assert_eq!(store.entries()[0].body, "c");
}

#[test]
fn listing_is_newest_first_then_by_id() {
    let mut store = SharedAnnotationStore::default();
    let t = AnnotationTarget::LogLine { loop_id: "l".to_owned(), line_index: 3 };
    let other = AnnotationTarget::LogLine { loop_id: "l".to_owned(), line_index: 4 };
    let a = store.add_annotation(t.clone(), "a", "first", &[], 10).expect("a");
    let b = store.add_annotation(t.clone(), "a", "second", &[], 30).expect("b");
    let _ = store.add_annotation(other, "a", "elsewhere", &[], 40).expect("c");
    let d = store.add_annotation(t.clone(), "a", "third", &[], 10).expect("d");
    let ids: Vec<String> = store.list_for_target(&t).into_iter().map(|e| e.id).collect();
    assert_eq!(ids, vec![b, a, d]);
    let found: Vec<String> = store.search_text("  THIRD ").into_iter().map(|e| e.body).collect();
    assert_eq!(found, vec!["third".to_owned()]);
    assert!(store.search_text("   ").is_empty());
}

#[test]
fn removing_the_added_annotation_restores_the_store() {
    let mut store = SharedAnnotationStore::default();
    let run = AnnotationTarget::Run {
        run_id: "run-9".to_owned(),
    };
    store
        .add_annotation(run.clone(), "ops", "first note", &[], 5)
        .expect("first add");
    let before = store.clone();
    let id = store
        .add_annotation(run, "ops", "second note", &["x".to_owned()], 7)
        .expect("second add");
    assert_eq!(id, "ann-7-2");
    assert_eq!(store.entries().len(), 2);
    assert!(store.remove_annotation(&id));
    assert_eq!(store, before);
}

#[test]
fn target_listing_skips_other_targets_and_ties_by_id() {
    let mut store = SharedAnnotationStore::default();
    let t = AnnotationTarget::Run { run_id: "run-9".to_owned() };
    let other = AnnotationTarget::Run { run_id: "run-8".to_owned() };
    let a = store.add_annotation(t.clone(), "ann", "old", &[], 10).expect("a");
    let b = store.add_annotation(t.clone(), "ann", "new", &[], 30).expect("b");
    let c = store.add_annotation(other, "ann", "elsewhere", &[], 50).expect("c");
    let d = store.add_annotation(t.clone(), "ann", "also new", &[], 30).expect("d");
    let listed: Vec<String> = store.list_for_target(&t).into_iter().map(|e| e.id).collect();
    assert_eq!(listed, vec![b, d, a]);
    assert!(!store.list_for_target(&t).iter().any(|e| e.id == c));
}
