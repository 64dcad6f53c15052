use forge_tui::app::MainTab;
use forge_tui::guide::{help_reference_lines, help_screen_lines, onboarding_lines, HintRole, OnboardingHints};

#[test]
fn help_lists_evidence_hotkeys() {
    let lines = help_screen_lines(&Vec::new(), 120, 80);
    let all_text = lines.join("\n");
    assert!(all_text.contains("Ctrl+E/W/A jump latest ERROR/WARN/ACK evidence"));
    assert!(all_text.contains("Ctrl+B    return to sticky evidence source"));
}

#[test]
fn help_screen_appends_diagnostics_and_fits_the_screen() {
    let reference = help_reference_lines();
    assert_eq!(reference[0], "=== Forge Loop TUI Help ===");
    assert_eq!(reference.len(), 69);
    let diagnostics = vec!["Keymap diagnostics".to_owned(), "no conflicts detected".to_owned()];
    let lines = help_screen_lines(&diagnostics, 120, 80);
    assert_eq!(lines.len(), 71);
    assert_eq!(lines[70], "no conflicts detected");
    let short = help_screen_lines(&diagnostics, 10, 3);
    assert_eq!(short, vec!["=== Forge ".to_owned(), String::new(), "Navigation".to_owned()]);
}

#[test]
fn first_run_onboarding_overlay_renders_by_default() {
    let hints = OnboardingHints::new();
    assert!(hints.shown(MainTab::Overview, true));
    let lines = onboarding_lines(MainTab::Overview, 120);
    let text: Vec<&str> = lines.iter().map(|(_, l)| l.as_str()).collect();
    assert!(text.iter().any(|l| l.contains("first-run hints: overview")));
    assert!(text.iter().any(|l| l.contains("overview: j/k select loop")));
    assert!(text.iter().any(|l| l.contains("i dismiss hints for this tab")));
    assert_eq!(lines[0].0, HintRole::Accent);
    assert_eq!(lines[3].0, HintRole::Muted);
}

#[test]
fn dismiss_onboarding_hides_overlay_per_tab() {
    let mut hints = OnboardingHints::new();
    let status = hints.dismiss(MainTab::Overview);
    assert!(status.contains("dismissed for Overview"));
    assert!(!hints.shown(MainTab::Overview, true));
    assert!(hints.shown(MainTab::Logs, true));
    assert!(onboarding_lines(MainTab::Logs, 120)[0].1.contains("first-run hints: logs"));
    assert_eq!(
        hints.dismiss(MainTab::Overview),
        "Onboarding hints already dismissed for Overview (press I to recall)"
    );
}

#[test]
fn recall_onboarding_restores_overlay_for_tab() {
    let mut hints = OnboardingHints::new();
    hints.dismiss(MainTab::Overview);
    let status = hints.recall(MainTab::Overview);
    assert!(status.contains("recalled for Overview"));
    assert!(hints.shown(MainTab::Overview, true));
    assert_eq!(hints.recall(MainTab::MultiLogs), "Onboarding hints already visible for Multi Logs");
    assert!(!hints.shown(MainTab::Overview, false));
}

#[test]
fn onboarding_lines_are_cut_to_the_width() {
    let lines = onboarding_lines(MainTab::MultiLogs, 12);
    assert_eq!(lines[0].1, "first-run hi");
    assert!(lines.iter().all(|(_, l)| l.chars().count() <= 12));
    let full = onboarding_lines(MainTab::MultiLogs, 200);
    assert_eq!(full[0].1, "first-run hints: multi logs");
}
