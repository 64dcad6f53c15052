use std::collections::BTreeMap;

use forge_tui::json::JsonValue;
use forge_tui::status_strip::{
    build_status_strip_plan, default_status_strip_store, move_widget_slot,
    persist_status_strip_store, render_status_strip_line, restore_status_strip_json,
    restore_status_strip_store, set_widget_enabled,
    status_strip_store_json, StatusStripPlan, StatusWidgetDefinition, StatusWidgetRegistry,
    StripPosition,
};

fn plan_ids_top(plan: &StatusStripPlan) -> Vec<String> {
    plan.top_slots.iter().map(|slot| slot.widget_id.clone()).collect()
}

fn plan_ids_bottom(plan: &StatusStripPlan) -> Vec<String> {
    plan.bottom_slots.iter().map(|slot| slot.widget_id.clone()).collect()
}

#[test]
fn default_store_contains_top_and_bottom_slots() {
    let registry = StatusWidgetRegistry::with_builtins();
    let store = default_status_strip_store(&registry);
    let plan = build_status_strip_plan(&store, &registry);

    assert_eq!(plan_ids_top(&plan), vec!["workspace", "view", "filters"]);
    assert_eq!(
        plan_ids_bottom(&plan),
        vec!["selection", "queue_depth", "alerts", "clock"]
    );
}

#[test]
fn register_pluggable_widget_and_persist_round_trip() {
    let mut registry = StatusWidgetRegistry::with_builtins();
    if let Err(err) = registry.register(StatusWidgetDefinition::new(
        "latency",
        "Latency",
        StripPosition::Bottom,
        15,
    )) {
        panic!("register latency widget should succeed: {err}");
    }

    let store = default_status_strip_store(&registry);
    let json = persist_status_strip_store(&store, &registry);
    let restored = restore_status_strip_store(&json, &registry);
    let plan = build_status_strip_plan(&restored.store, &registry);

    assert!(plan_ids_bottom(&plan).contains(&"latency".to_owned()));
    assert!(!restored.migrated);
    assert!(restored.warnings.is_empty());
    assert_eq!(restored.store, store);
    assert_eq!(persist_status_strip_store(&restored.store, &registry), json);
    assert_eq!(build_status_strip_plan(&restored.store, &registry), build_status_strip_plan(&store, &registry));
}

#[test]
fn register_duplicate_widget_id_is_rejected() {
    let mut registry = StatusWidgetRegistry::new();
    if let Err(err) = registry.register(StatusWidgetDefinition::new(
        "queue_depth",
        "Queue",
        StripPosition::Bottom,
        10,
    )) {
        panic!("first register should succeed: {err}");
    }

    let err = match registry.register(StatusWidgetDefinition::new(
        "queue_depth",
        "Queue v2",
        StripPosition::Bottom,
        20,
    )) {
        Ok(_) => panic!("duplicate register should fail"),
        Err(err) => err,
    };
    assert!(err.contains("already registered"));
}

#[test]
fn register_rejects_empty_id_and_title() {
    let mut registry = StatusWidgetRegistry::new();
    let err = registry
        .register(StatusWidgetDefinition::new("  ", "Title", StripPosition::Top, 1))
        .unwrap_err();
    assert_eq!(err, "status widget id cannot be empty");
    let err = registry
        .register(StatusWidgetDefinition::new("Net Speed", "   ", StripPosition::Top, 1))
        .unwrap_err();
    assert_eq!(err, "status widget 'net_speed' title cannot be empty");
    assert!(registry.definitions().is_empty());
}

#[test]
fn restore_v1_migrates_order_and_disabled_widgets() {
    let registry = StatusWidgetRegistry::with_builtins();
    let raw = r#"
        {
            "top": ["view", "workspace"],
            "bottom": ["clock", "queue_depth"],
            "disabled": ["queue_depth"]
        }
        "#;

    let outcome = restore_status_strip_store(raw, &registry);
    let plan = build_status_strip_plan(&outcome.store, &registry);

    assert!(outcome.migrated);
    assert_eq!(plan_ids_top(&plan), vec!["view", "workspace", "filters"]);
    assert_eq!(plan_ids_bottom(&plan), vec!["clock", "selection", "alerts"]);
}

#[test]
fn restore_invalid_json_falls_back_to_defaults_with_warning() {
    let registry = StatusWidgetRegistry::with_builtins();
    let outcome = restore_status_strip_store("{", &registry);

    assert!(!outcome.warnings.is_empty());
    assert!(outcome.warnings[0].starts_with("invalid json; status strip defaults restored ("));
    let plan = build_status_strip_plan(&outcome.store, &registry);
    assert_eq!(plan_ids_top(&plan), vec!["workspace", "view", "filters"]);
}

#[test]
fn restore_v2_ignores_unknown_and_duplicate_widgets() {
    let registry = StatusWidgetRegistry::with_builtins();
    let raw = r#"
        {
            "schema_version": 2,
            "placements": [
                {"widget_id": "workspace", "position": "top", "order": 0, "enabled": true},
                {"widget_id": "workspace", "position": "bottom", "order": 0, "enabled": true},
                {"widget_id": "not_real", "position": "top", "order": 1, "enabled": true}
            ]
        }
        "#;

    let outcome = restore_status_strip_store(raw, &registry);
    assert!(outcome.warnings.iter().any(|warning| warning.contains("duplicate")));
    assert!(outcome.warnings.iter().any(|warning| warning.contains("unknown")));

    let plan = build_status_strip_plan(&outcome.store, &registry);
    let top = plan_ids_top(&plan);
    assert_eq!(top[0], "workspace");
    assert!(!top.contains(&"not_real".to_owned()));
}

#[test]
fn restore_blank_state_is_default_without_warnings() {
    let registry = StatusWidgetRegistry::with_builtins();
    let outcome = restore_status_strip_store("   ", &registry);
    assert!(outcome.warnings.is_empty());
    assert!(!outcome.migrated);
    assert_eq!(outcome.store, default_status_strip_store(&registry));
}

#[test]
fn restore_unknown_schema_and_non_object_states() {
    let registry = StatusWidgetRegistry::with_builtins();
    let outcome = restore_status_strip_store(r#"{"schema_version": 7, "placements": [3, {"widget_id": ""}]}"#,
        &registry,
    );
    assert!(outcome.migrated);
    assert_eq!(
        outcome.warnings,
        vec![
            "unknown schema_version=7; parsed as v2".to_owned(),
            "ignored malformed placement entry (not object)".to_owned(),
            "ignored placement with empty widget_id".to_owned(),
        ]
    );
    let outcome = restore_status_strip_store("[1, 2]", &registry);
    assert!(outcome.migrated);
    assert_eq!(
        outcome.warnings,
        vec!["v1 status strip state was not an object; defaults applied".to_owned()]
    );
    let v1_unknown = restore_status_strip_store(r#"{"top": ["ghost", "view", "view"]}"#,
        &registry,
    );
    assert_eq!(
        v1_unknown.warnings,
        vec![
            "ignored unknown status widget 'ghost'(v1)".to_owned(),
            "ignored duplicate status widget 'view'(v1)".to_owned(),
        ]
    );
}

#[test]
fn move_widget_between_strips_reorders_slots() {
    let registry = StatusWidgetRegistry::with_builtins();
    let mut store = default_status_strip_store(&registry);

    if let Err(err) = move_widget_slot(&mut store, "queue_depth", StripPosition::Top, 1, &registry)
    {
        panic!("move queue widget to top should succeed: {err}");
    }

    let plan = build_status_strip_plan(&store, &registry);
    assert_eq!(
        plan_ids_top(&plan),
        vec!["workspace", "queue_depth", "view", "filters"]
    );
    assert_eq!(plan_ids_bottom(&plan), vec!["selection", "alerts", "clock"]);
}

#[test]
fn move_missing_widget_reports_and_keeps_store() {
    let registry = StatusWidgetRegistry::with_builtins();
    let mut store = default_status_strip_store(&registry);
    let before = store.clone();
    let err = move_widget_slot(&mut store, "  Nope ", StripPosition::Top, 0, &registry).unwrap_err();
    assert_eq!(err, "status widget 'Nope' not found");
    assert_eq!(store, before);
    move_widget_slot(&mut store, "clock", StripPosition::Bottom, 99, &registry).unwrap();
    let plan = build_status_strip_plan(&store, &registry);
    assert_eq!(plan_ids_bottom(&plan).last().map(String::as_str), Some("clock"));
}

#[test]
fn set_widget_enabled_toggles_visibility() {
    let registry = StatusWidgetRegistry::with_builtins();
    let mut store = default_status_strip_store(&registry);

    if let Err(err) = set_widget_enabled(&mut store, "alerts", false, &registry) {
        panic!("disable alerts should succeed: {err}");
    }
    let plan = build_status_strip_plan(&store, &registry);
    assert!(!plan_ids_bottom(&plan).contains(&"alerts".to_owned()));

    let err = match set_widget_enabled(&mut store, "missing", false, &registry) {
        Ok(()) => panic!("missing widget should fail"),
        Err(err) => err,
    };
    assert!(err.contains("not found"));
}

#[test]
fn render_status_strip_line_prefers_runtime_values_and_truncates() {
    let registry = StatusWidgetRegistry::with_builtins();
    let store = default_status_strip_store(&registry);
    let plan = build_status_strip_plan(&store, &registry);

    let mut values = BTreeMap::new();
    values.insert("workspace".to_owned(), "repo=forge".to_owned());
    values.insert("view".to_owned(), "logs".to_owned());
    values.insert("filters".to_owned(), "state=running".to_owned());

    let full = render_status_strip_line(&plan, StripPosition::Top, &values, 80);
    assert_eq!(full.len(), 80);
    assert!(full.starts_with("[repo=forge] [logs] [state=running]"));

    let truncated = render_status_strip_line(&plan, StripPosition::Top, &values, 20);
    assert_eq!(truncated.len(), 20);
    assert!(truncated.ends_with("..."));
    assert!(truncated.starts_with("[repo=forge] [log"));
}

#[test]
fn render_status_strip_line_uses_titles_for_blank_values() {
    let registry = StatusWidgetRegistry::with_builtins();
    let store = default_status_strip_store(&registry);
    let plan = build_status_strip_plan(&store, &registry);
    let mut values = BTreeMap::new();
    values.insert("clock".to_owned(), "   ".to_owned());
    let line = render_status_strip_line(&plan, StripPosition::Bottom, &values, 40);
    assert_eq!(line, "[Selection] [Queue] [Alerts] [Clock]    ");
    assert_eq!(render_status_strip_line(&plan, StripPosition::Bottom, &values, 0), "");
    assert_eq!(render_status_strip_line(&plan, StripPosition::Bottom, &values, 2), "[S");
}

#[test]
fn store_json_lists_sanitized_placements() {
    let registry = StatusWidgetRegistry::with_builtins();
    let store = default_status_strip_store(&registry);
    let json = status_strip_store_json(&store, &registry);
    match json {
        JsonValue::Object(fields) => {
            assert_eq!(fields[0].0, "schema_version");
            assert_eq!(fields[0].1, JsonValue::UInt(2));
            match &fields[1].1 {
                JsonValue::Array(items) => assert_eq!(items.len(), 7),
                other => panic!("unexpected placements {other:?}"),
            }
        }
        other => panic!("unexpected json {other:?}"),
    }
}

#[test]
fn edited_layouts_read_back_unchanged() {
    let registry = StatusWidgetRegistry::with_builtins();
    let mut store = default_status_strip_store(&registry);
    move_widget_slot(&mut store, "clock", StripPosition::Top, 0, &registry).unwrap();
    set_widget_enabled(&mut store, "view", false, &registry).unwrap();
    move_widget_slot(&mut store, "workspace", StripPosition::Bottom, 2, &registry).unwrap();

    let restored = restore_status_strip_json(Some(Ok(status_strip_store_json(&store, &registry))), &registry);
    assert_eq!(restored.store, store);
    assert!(!restored.migrated);
    assert!(restored.warnings.is_empty());

    let plan = build_status_strip_plan(&store, &registry);
    assert_eq!(plan_ids_top(&plan), vec!["clock", "filters"]);
    assert_eq!(
        plan_ids_bottom(&plan),
        vec!["selection", "queue_depth", "workspace", "alerts"]
    );
    let orders: Vec<(StripPosition, u16)> = store.placements.iter().map(|p| (p.position, p.order)).collect();
    assert_eq!(
        orders,
        vec![
            (StripPosition::Top, 0),
            (StripPosition::Top, 1),
            (StripPosition::Top, 2),
            (StripPosition::Bottom, 0),
            (StripPosition::Bottom, 1),
            (StripPosition::Bottom, 2),
            (StripPosition::Bottom, 3),
        ]
    );

    set_widget_enabled(&mut store, "view", true, &registry).unwrap();
    let plan = build_status_strip_plan(&store, &registry);
    assert_eq!(plan_ids_top(&plan), vec!["clock", "view", "filters"]);
}

#[test]
fn persisted_text_is_pretty_json() {
    let registry = StatusWidgetRegistry::with_builtins();
    let store = default_status_strip_store(&registry);
    let text = persist_status_strip_store(&store, &registry);
    assert!(text.starts_with("{\n  \"placements\""));
    let value: serde_json::Value = serde_json::from_str(&text).unwrap();
    assert_eq!(value["schema_version"], 2);
}

#[test]
fn definitions_list_by_strip_then_order_then_id() {
    let mut registry = StatusWidgetRegistry::with_builtins();
    registry
        .register(StatusWidgetDefinition::new("aaa", "A", StripPosition::Top, 20))
        .expect("register aaa");
    let ids: Vec<String> = registry.definitions().into_iter().map(|d| d.id).collect();
    assert_eq!(
        ids,
        vec!["workspace", "aaa", "view", "filters", "selection", "queue_depth", "alerts", "clock"]
    );
}

#[test]
fn default_layout_numbers_each_strip_from_zero() {
    let registry = StatusWidgetRegistry::with_builtins();
    let store = default_status_strip_store(&registry);
    let top: Vec<(String, u16)> = store
        .placements
        .iter()
        .filter(|p| p.position == StripPosition::Top)
        .map(|p| (p.widget_id.clone(), p.order))
        .collect();
    let bottom: Vec<u16> = store
        .placements
        .iter()
        .filter(|p| p.position == StripPosition::Bottom)
        .map(|p| p.order)
        .collect();
    assert_eq!(
        top,
        vec![("workspace".to_owned(), 0), ("view".to_owned(), 1), ("filters".to_owned(), 2)]
    );
    assert_eq!(bottom, vec![0, 1, 2, 3]);
    assert_eq!(store.placements.len(), registry.definitions().len());
}

#[test]
fn moving_past_the_end_puts_the_widget_last() {
    let registry = StatusWidgetRegistry::with_builtins();
    let mut store = default_status_strip_store(&registry);
    move_widget_slot(&mut store, " Clock ", StripPosition::Top, 99, &registry).expect("move clock");
    let plan = build_status_strip_plan(&store, &registry);
    assert_eq!(plan_ids_top(&plan), vec!["workspace", "view", "filters", "clock"]);
    assert_eq!(plan_ids_bottom(&plan), vec!["selection", "queue_depth", "alerts"]);
    move_widget_slot(&mut store, "clock", StripPosition::Top, 1, &registry).expect("move clock again");
    let plan = build_status_strip_plan(&store, &registry);
    assert_eq!(plan_ids_top(&plan), vec!["workspace", "clock", "view", "filters"]);
}

#[test]
fn editing_an_unregistered_widget_fails_and_keeps_the_store() {
    let registry = StatusWidgetRegistry::with_builtins();
    let mut store = default_status_strip_store(&registry);
    let before = store.clone();
    assert!(!registry.contains(" latency "));
    assert_eq!(
        set_widget_enabled(&mut store, " latency ", false, &registry),
        Err("status widget 'latency' not found".to_owned())
    );
    assert_eq!(store, before);
    assert_eq!(
        move_widget_slot(&mut store, "latency", StripPosition::Top, 0, &registry),
        Err("status widget 'latency' not found".to_owned())
    );
    assert_eq!(store, before);
}
