use forge_tui::app::{
    evidence_line_matches, extract_prefixed_token, format_mail_id, multi_page_bounds,
    tab_at_column, DensityMode, EvidenceKind, LogLayer, LogSource, MainTab,
};
use forge_tui::markdown::{
    markdown_to_plain_lines, parse_markdown_heading, parse_markdown_list_item,
    parse_markdown_quote, render_inbox_markdown_detail_lines, replace_markdown_links,
    split_text_chunks, trim_to_width, wrap_words_to_width,
};

#[test]
fn tab_label_snapshot() {
    let labels: Vec<&str> = MainTab::ORDER.iter().map(|t| t.label()).collect();
    assert_eq!(labels.join("|"), "Overview|Logs|Runs|Multi Logs|Inbox");
}

#[test]
fn tab_short_label_snapshot() {
    let labels: Vec<&str> = MainTab::ORDER.iter().map(|t| t.short_label()).collect();
    assert_eq!(labels.join("|"), "ov|logs|runs|multi|inbox");
}

#[test]
fn log_source_labels() {
    let labels: Vec<&str> = LogSource::ORDER.iter().map(|s| s.label()).collect();
    assert_eq!(labels.join("|"), "live|latest-run|selected-run");
}

#[test]
fn log_layer_labels() {
    let labels: Vec<&str> = LogLayer::ORDER.iter().map(|l| l.label()).collect();
    assert_eq!(labels.join("|"), "raw|events|errors|tools|diff");
}

#[test]
fn inbox_markdown_detail_lines_preserve_markdown_structure() {
    let lines = render_inbox_markdown_detail_lines(
        "# Title\n- first item\n1. second item\n> quoted line\n```\nlet x = 1;\n```",
        40,
    );
    assert!(lines.iter().any(|line| line == "# Title"));
    assert!(lines.iter().any(|line| line == "* first item"));
    assert!(lines.iter().any(|line| line == "1. second item"));
    assert!(lines.iter().any(|line| line == "> quoted line"));
    assert!(lines.iter().any(|line| line == "` let x = 1;"));
}

#[test]
fn inbox_markdown_detail_lines_wrap_long_words_and_continuations() {
    let lines = render_inbox_markdown_detail_lines("- supercalifragilisticexpialidocious token", 16);
    assert!(!lines.is_empty());
    assert!(lines[0].starts_with("* "));
    assert!(lines.len() >= 2);
    assert!(lines.iter().all(|line| line.chars().count() <= 16));
}

#[test]
fn multi_page_bounds_basic() {
    let (page, total_pages, start, end) = multi_page_bounds(10, 4, 0);
    assert_eq!(page, 0);
    assert_eq!(total_pages, 3);
    assert_eq!(start, 0);
    assert_eq!(end, 4);
}

#[test]
fn multi_page_bounds_clamps() {
    let (page, total_pages, start, end) = multi_page_bounds(10, 4, 999);
    assert_eq!(page, 2);
    assert_eq!(total_pages, 3);
    assert_eq!(start, 8);
    assert_eq!(end, 10);
}

#[test]
fn multi_page_bounds_empty() {
    let (page, total_pages, start, end) = multi_page_bounds(0, 4, 0);
    assert_eq!(page, 0);
    assert_eq!(total_pages, 1);
    assert_eq!(start, 0);
    assert_eq!(end, 0);
}

#[test]
fn trim_to_width_handles_unicode_without_panicking() {
    let value = "⚠ warning: résumé";
    let trimmed = trim_to_width(value, 5);
    assert_eq!(trimmed.chars().count(), 5);
    assert_eq!(trimmed, "⚠ war");
}

#[test]
fn trim_to_width_zero_and_short_values() {
    assert_eq!(trim_to_width("abc", 0), "");
    assert_eq!(trim_to_width("abc", 3), "abc");
    assert_eq!(trim_to_width("abc", 10), "abc");
}

#[test]
fn split_text_chunks_cuts_by_characters() {
    assert_eq!(split_text_chunks("abcdefg", 3), vec!["abc", "def", "g"]);
    assert_eq!(split_text_chunks("abc", 3), vec!["abc"]);
    assert!(split_text_chunks("", 3).is_empty());
    assert!(split_text_chunks("abc", 0).is_empty());
}

#[test]
fn wrap_words_joins_within_width_and_cuts_long_words() {
    assert_eq!(wrap_words_to_width("aa bb cc", 5), vec!["aa bb", "cc"]);
    assert_eq!(wrap_words_to_width("abcdefgh x", 3), vec!["abc", "def", "gh", "x"]);
    assert!(wrap_words_to_width("   ", 4).is_empty());
    assert!(wrap_words_to_width("word", 0).is_empty());
}

#[test]
fn markdown_block_markers_parse() {
    assert_eq!(parse_markdown_heading("## Plan"), Some((2, "Plan")));
    assert_eq!(parse_markdown_heading("####### too deep"), None);
    assert_eq!(parse_markdown_heading("#"), None);
    assert_eq!(parse_markdown_quote("> > nested"), Some("nested"));
    assert_eq!(parse_markdown_quote("plain"), None);
    assert_eq!(
        parse_markdown_list_item("+ item"),
        Some(("* ".to_owned(), "item"))
    );
    assert_eq!(
        parse_markdown_list_item("12. twelfth"),
        Some(("12. ".to_owned(), "twelfth"))
    );
    assert_eq!(parse_markdown_list_item("12 no dot"), None);
}

#[test]
fn markdown_detail_collapses_blank_runs_and_falls_back() {
    let lines = render_inbox_markdown_detail_lines("first\n\n\n\nsecond\n\n", 20);
    assert_eq!(lines, vec!["first", "", "second"]);
    assert!(render_inbox_markdown_detail_lines("   ", 20).is_empty());
    assert!(render_inbox_markdown_detail_lines("text", 0).is_empty());
    assert_eq!(render_inbox_markdown_detail_lines("```", 10), vec!["```"]);
    assert_eq!(
        render_inbox_markdown_detail_lines("### Deep heading", 40),
        vec!["### Deep heading"]
    );
    assert_eq!(
        render_inbox_markdown_detail_lines("###### Six", 40),
        vec!["### Six"]
    );
}

#[test]
fn markdown_links_become_text_with_urls() {
    assert_eq!(
        replace_markdown_links("see [notes](https://example.com/notes) now"),
        "see notes <https://example.com/notes> now"
    );
    assert_eq!(replace_markdown_links("[blank]( )"), "blank");
    assert_eq!(replace_markdown_links("[open](no close"), "[open](no close");
    assert_eq!(replace_markdown_links("no links"), "no links");
}

#[test]
fn markdown_plain_lines_shape_headings_and_bullets() {
    let lines = markdown_to_plain_lines(
        "# Incident playbook\n- restart **daemon**\n```\ncode\n```\n[notes](https://example.com/notes)",
        80,
        10,
    );
    assert_eq!(
        lines,
        vec![
            "\u{25B8} INCIDENT PLAYBOOK",
            "\u{2022} restart daemon",
            "code",
            "notes <https://example.com/notes>",
        ]
    );
    assert_eq!(markdown_to_plain_lines("a\nb\nc", 80, 2), vec!["a", "b"]);
    assert!(markdown_to_plain_lines("a", 0, 2).is_empty());
    assert_eq!(markdown_to_plain_lines("abcdef", 3, 2), vec!["abc"]);
}

#[test]
fn mail_ids_and_tokens() {
    assert_eq!(format_mail_id(7), "m-7");
    assert_eq!(
        extract_prefixed_token("see task:Forge-12 now", "forge-"),
        Some("forge-12".to_owned())
    );
    assert_eq!(extract_prefixed_token("nothing here", "forge-"), None);
    assert!(evidence_line_matches(EvidenceKind::Error, "ERROR: boom"));
    assert!(!evidence_line_matches(EvidenceKind::Warning, "all good"));
    assert!(evidence_line_matches(EvidenceKind::Ack, "ack received"));
}

#[test]
fn multi_pages_tile_the_items() {
    for (total, page_size) in [(10usize, 4usize), (12, 4), (1, 3), (7, 0), (0, 5)] {
        let (_, pages, first_start, _) = multi_page_bounds(total, page_size, 0);
        assert_eq!(first_start, 0);
        let mut covered = 0;
        for p in 0..pages {
            let (page, _, start, end) = multi_page_bounds(total, page_size, p);
            assert_eq!(page, p);
            assert_eq!(start, covered);
            if total > 0 {
                assert!(start < end);
            }
            covered = end;
        }
        assert_eq!(covered, total);
    }
}

#[test]
fn tabs_sources_layers_and_densities_cycle_around() {
    assert_eq!(MainTab::Overview.cycled(1), MainTab::Logs);
    assert_eq!(MainTab::Inbox.cycled(1), MainTab::Overview);
    assert_eq!(MainTab::Overview.cycled(-1), MainTab::Inbox);
    assert_eq!(MainTab::Runs.cycled(-11), MainTab::Logs);
    assert_eq!(LogSource::Live.cycled(-1), LogSource::RunSelection);
    assert_eq!(LogSource::RunSelection.cycled(1), LogSource::Live);
    assert_eq!(LogLayer::Raw.cycled(7), LogLayer::Errors);
    assert_eq!(LogLayer::Diff.cycled(0), LogLayer::Diff);
    assert_eq!(DensityMode::Comfortable.cycled(1), DensityMode::Compact);
    assert_eq!(DensityMode::Compact.cycled(-3), DensityMode::Comfortable);
}

#[test]
fn mouse_click_tab_rail_switches_tabs() {
    assert_eq!(tab_at_column(15, false), Some(MainTab::Logs));
    assert_eq!(tab_at_column(0, false), Some(MainTab::Overview));
    assert_eq!(tab_at_column(11, false), Some(MainTab::Overview));
    assert_eq!(tab_at_column(12, false), None);
    assert_eq!(tab_at_column(13, false), None);
    assert_eq!(tab_at_column(14, false), Some(MainTab::Logs));
    // " 1:ov " (6) + 2, " 2:logs " (8) + 2, " 3:runs " (8) + 2, " 4:multi " (9) + 2, " 5:inbox "
    assert_eq!(tab_at_column(8, true), Some(MainTab::Logs));
    assert_eq!(tab_at_column(40, true), Some(MainTab::Inbox));
    assert_eq!(tab_at_column(47, true), Some(MainTab::Inbox));
    assert_eq!(tab_at_column(48, true), None);
    assert_eq!(tab_at_column(500, false), None);
}
