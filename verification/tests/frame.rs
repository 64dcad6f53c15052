use forge_tui::app::MainTab;
use forge_tui::app::tab_at_column;
use forge_tui::frame::{
    content_rows, frame_layout, frame_texts, status_line_text, tab_info_line, tab_rail_spans, FrameText,
};

#[test]
fn frame_rows_for_a_normal_terminal() {
    let l = frame_layout(120, 40, false, false);
    assert_eq!((l.width, l.height), (120, 40));
    assert_eq!(l.tab_rail_row, Some(1));
    assert_eq!((l.content_start, l.content_height), (2, 37));
    assert_eq!(l.status_row, None);
    assert_eq!(l.footer_row, 39);
}

#[test]
fn deep_debug_drops_the_tab_rail_and_a_status_line_takes_a_row() {
    let l = frame_layout(80, 24, true, true);
    assert_eq!(l.tab_rail_row, None);
    assert_eq!((l.content_start, l.content_height), (1, 21));
    assert_eq!(l.status_row, Some(22));
    assert_eq!(l.footer_row, 23);
}

#[test]
fn tiny_terminals_keep_one_content_row() {
    let l = frame_layout(0, 0, false, true);
    assert_eq!((l.width, l.height), (1, 1));
    assert_eq!(l.content_height, 1);
    assert_eq!(l.status_row, Some(0));
    assert_eq!(l.footer_row, 0);
}

#[test]
fn tab_info_names_the_tab_count_and_selection() {
    assert_eq!(tab_info_line(MainTab::Runs, 3, ""), "Runs tab  |  3 loops  |  selected: none");
    assert_eq!(tab_info_line(MainTab::Inbox, 12, "loop-7"), "Inbox tab  |  12 loops  |  selected: loop-7");
}

#[test]
fn content_lines_fill_the_content_rows_only() {
    let layout = frame_layout(40, 6, false, false);
    assert_eq!((layout.content_start, layout.content_height), (2, 3));
    let lines: Vec<String> = ["a", "b", "c", "d"].iter().map(|s| (*s).to_owned()).collect();
    assert_eq!(
        content_rows(&layout, &lines),
        vec![(2, "a".to_owned()), (3, "b".to_owned()), (4, "c".to_owned())]
    );
}

#[test]
fn status_line_prefers_the_status_message() {
    assert_eq!(status_line_text(5, "saved", "Saved all", Some("why")), Some("Saved".to_owned()));
    assert_eq!(status_line_text(10, "", "", Some("loop failed: timeout")), Some("loop faile".to_owned()));
    assert_eq!(status_line_text(10, "", "", None), None);
}

#[test]
fn tab_rail_shows_numbered_badges_and_marks_the_active_one() {
    let spans = tab_rail_spans(false, MainTab::Runs);
    let texts: Vec<&str> = spans.iter().map(|(t, _)| t.as_str()).collect();
    assert_eq!(
        texts,
        vec![" 1:Overview ", "  ", " 2:Logs ", "  ", " 3:Runs ", "  ", " 4:Multi Logs ", "  ", " 5:Inbox "]
    );
    let active: Vec<bool> = spans.iter().map(|(_, a)| *a).collect();
    assert_eq!(active, vec![false, false, false, false, true, false, false, false, false]);
    let compact: String = tab_rail_spans(true, MainTab::Overview).into_iter().map(|(t, _)| t).collect();
    assert_eq!(compact, " 1:ov    2:logs    3:runs    4:multi    5:inbox ");
    let start_of_runs: usize =
        tab_rail_spans(true, MainTab::Overview).iter().take(4).map(|(t, _)| t.chars().count()).sum();
    assert_eq!(start_of_runs, 18);
    assert_eq!(tab_at_column(start_of_runs, true), Some(MainTab::Runs));
    assert_eq!(tab_at_column(start_of_runs - 1, true), None);
}

fn text(row: usize, column: usize, t: &str) -> FrameText {
    FrameText { row, column, text: t.to_owned() }
}

#[test]
fn frame_texts_place_every_part_on_its_row() {
    let rail: Vec<String> = vec![" 1:ov ".to_owned(), "  ".to_owned(), " 2:logs ".to_owned()];
    let content: Vec<String> = vec!["first".to_owned(), "second".to_owned()];
    let texts = frame_texts(10, 6, false, false, "HEAD", &rail, &content, Some("oops".to_owned()), "q quit  ? help");
    assert_eq!(
        texts,
        vec![
            text(0, 0, "HEAD"),
            text(1, 0, " 1:ov "),
            text(1, 6, "  "),
            text(1, 8, " 2:logs "),
            text(2, 0, "first"),
            text(3, 0, "second"),
            text(4, 0, "oops"),
            text(5, 0, "q quit  ? "),
        ]
    );
    assert!(frame_texts(10, 6, false, true, "HEAD", &rail, &content, None, "f").is_empty());
    let deep = frame_texts(10, 4, true, false, "H", &rail, &content, None, "f");
    assert_eq!(deep, vec![text(0, 0, "H"), text(1, 0, "first"), text(2, 0, "second"), text(3, 0, "f")]);
}
