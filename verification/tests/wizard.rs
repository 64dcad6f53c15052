use forge_tui::app::{WizardState, WizardValues};
use forge_tui::wizard::{
    is_float, parse_duration_value, parse_i64, validate_wizard_step, wizard_field_count,
    wizard_field_key, wizard_get, wizard_set,
};

fn fresh() -> WizardValues {
    WizardState::with_defaults("", "", "").values
}

fn error_of(step: usize, values: &WizardValues) -> String {
    match validate_wizard_step(step, values) {
        Ok(()) => String::new(),
        Err(e) => e,
    }
}

#[test]
fn wizard_validates_name_requires_count_1() {
    let mut values = fresh();
    values.name = "my-loop".to_owned();
    values.count = "3".to_owned();
    assert!(error_of(1, &values).contains("name requires count=1"));
}

#[test]
fn wizard_validates_pool_profile_conflict() {
    let mut values = fresh();
    assert!(validate_wizard_step(1, &values).is_ok());
    values.pool = "my-pool".to_owned();
    values.profile = "my-profile".to_owned();
    assert!(error_of(2, &values).contains("use either pool or profile, not both"));
}

#[test]
fn wizard_validates_interval_duration() {
    let mut values = fresh();
    assert!(validate_wizard_step(1, &values).is_ok());
    assert!(validate_wizard_step(2, &values).is_ok());
    values.interval = "not-a-duration".to_owned();
    assert!(error_of(3, &values).contains("interval"));
}

#[test]
fn wizard_validates_max_runtime_duration() {
    let mut values = fresh();
    values.max_runtime = "xyz".to_owned();
    assert!(error_of(3, &values).contains("max runtime"));
}

#[test]
fn wizard_validates_max_iterations_integer() {
    let mut values = fresh();
    values.max_iterations = "abc".to_owned();
    assert!(error_of(3, &values).contains("max-iterations"));
}

#[test]
fn wizard_validates_negative_max_iterations() {
    let mut values = fresh();
    values.max_iterations = "-5".to_owned();
    assert!(error_of(3, &values).contains("max-iterations"));
}

#[test]
fn wizard_empty_limits_are_valid() {
    let mut values = fresh();
    values.interval = String::new();
    values.max_runtime = String::new();
    values.max_iterations = String::new();
    assert!(validate_wizard_step(1, &values).is_ok());
    assert!(validate_wizard_step(2, &values).is_ok());
    assert!(validate_wizard_step(3, &values).is_ok());
}

#[test]
fn wizard_valid_durations_pass() {
    let mut values = fresh();
    values.interval = "30s".to_owned();
    values.max_runtime = "1h".to_owned();
    values.max_iterations = "100".to_owned();
    assert!(validate_wizard_step(3, &values).is_ok());
}

#[test]
fn wizard_step2_has_2_fields() {
    assert_eq!(wizard_field_count(2), 2);
    assert_eq!(wizard_field_key(2, 0), Some("pool"));
    assert_eq!(wizard_field_key(2, 1), Some("profile"));
    assert_eq!(wizard_field_key(2, 2), None);
}

#[test]
fn wizard_step3_has_6_fields() {
    assert_eq!(wizard_field_count(3), 6);
    let keys: Vec<&str> = (0..6).filter_map(|f| wizard_field_key(3, f)).collect();
    assert_eq!(
        keys,
        vec!["prompt", "prompt_msg", "interval", "max_runtime", "max_iterations", "tags"]
    );
    assert_eq!(wizard_field_count(1), 3);
    assert_eq!(wizard_field_count(4), 0);
}

#[test]
fn wizard_defaults_are_trimmed_and_count_is_one() {
    let state = WizardState::with_defaults(" 30s ", " default.md", "run tests ");
    assert_eq!(state.step, 1);
    assert_eq!(state.field, 0);
    assert_eq!(state.values.count, "1");
    assert_eq!(state.values.interval, "30s");
    assert_eq!(state.values.prompt, "default.md");
    assert_eq!(state.values.prompt_msg, "run tests");
}

#[test]
fn wizard_fields_are_read_and_written_by_key() {
    let mut values = fresh();
    wizard_set(&mut values, "pool", "p1".to_owned());
    assert_eq!(wizard_get(&values, "pool"), "p1");
    wizard_set(&mut values, "unknown", "x".to_owned());
    assert_eq!(wizard_get(&values, "unknown"), "");
    assert_eq!(wizard_get(&values, "count"), "1");
}

#[test]
fn count_errors_name_their_input() {
    let mut values = fresh();
    values.count = "0".to_owned();
    assert_eq!(error_of(1, &values), "count must be >= 1");
    values.count = "two".to_owned();
    assert_eq!(error_of(1, &values), "invalid count \"two\"");
    values.count = "  ".to_owned();
    assert!(validate_wizard_step(1, &values).is_ok());
}

#[test]
fn durations_accept_units_and_reject_signs() {
    assert!(parse_duration_value("250ms", "interval").is_ok());
    assert!(parse_duration_value("1.5m", "interval").is_ok());
    assert!(parse_duration_value("12", "interval").is_ok());
    assert_eq!(
        parse_duration_value("-1s", "interval"),
        Err("interval must be >= 0".to_owned())
    );
    assert_eq!(
        parse_duration_value("s", "max runtime"),
        Err("invalid max runtime \"s\"".to_owned())
    );
}

#[test]
fn numbers_parse_like_std() {
    assert_eq!(parse_i64("42"), Some(42));
    assert_eq!(parse_i64("-7"), Some(-7));
    assert_eq!(parse_i64("+3"), Some(3));
    assert_eq!(parse_i64(""), None);
    assert_eq!(parse_i64("9223372036854775808"), None);
    assert_eq!(parse_i64("-9223372036854775808"), Some(i64::MIN));
    assert!(is_float("1.5"));
    assert!(is_float("1e3"));
    assert!(is_float(".5"));
    assert!(!is_float("abc"));
    assert!(!is_float(""));
}
