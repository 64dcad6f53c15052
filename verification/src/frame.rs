//! The rows of the shell's frame: where the header, tab rail, content,
//! status line and footer go for a terminal of a given size, and the text of
//! the content row shown for a tab without a pane of its own.
use vstd::prelude::*;

use crate::app::{badge_width, tab_start, MainTab};
use crate::markdown::trim_to_width;
use crate::text::{char_count, copy_string, dec, push_str, sv, take_upto, u64_to_string};

verus! {

/// Where the frame puts its parts, as row numbers of a `width` by `height`
/// terminal (both at least 1).
#[derive(Debug, Clone, Copy, PartialEq, Eq)]
pub struct FrameLayout {
    pub width: usize,
    pub height: usize,
    /// The tab rail's row; none in deep-debug focus.
    pub tab_rail_row: Option<usize>,
    /// The first content row and how many rows the content has (at least 1).
    pub content_start: usize,
    pub content_height: usize,
    /// The row of the status line (a status message or the failure
    /// explanation), when one shows.
    pub status_row: Option<usize>,
    pub footer_row: usize,
}

pub open spec fn at_least_one(n: usize) -> usize {
    if n == 0 {
        1
    } else {
        n
    }
}

pub open spec fn minus(a: int, b: int) -> int {
    if a > b {
        a - b
    } else {
        0
    }
}

/// The layout of a frame: the header on row 0, the tab rail on row 1 unless
/// in deep-debug focus, the content below them down to the status line (when
/// one shows) and the footer on the last row.
pub open spec fn layout_spec(width: usize, height: usize, deep_debug: bool, status_line: bool) -> FrameLayout {
    let w = at_least_one(width);
    let h = at_least_one(height);
    let start: int = if deep_debug { 1 } else { 2 };
    let footer_lines: int = if status_line { 2 } else { 1 };
    let ch = minus(h as int, start + footer_lines);
    FrameLayout {
        width: w,
        height: h,
        tab_rail_row: if deep_debug { None } else { Some(1) },
        content_start: start as usize,
        content_height: (if ch == 0 { 1 } else { ch }) as usize,
        status_row: if status_line { Some(minus(h as int, 2) as usize) } else { None },
        footer_row: (h - 1) as usize,
    }
}

pub fn frame_layout(width: usize, height: usize, deep_debug: bool, status_line: bool) -> (r: FrameLayout)
    ensures
        r == layout_spec(width, height, deep_debug, status_line),
{
    let w = if width == 0 { 1 } else { width };
    let h = if height == 0 { 1 } else { height };
    let start: usize = if deep_debug { 1 } else { 2 };
    let footer_lines: usize = if status_line { 2 } else { 1 };
    let ch = h.saturating_sub(start + footer_lines);
    FrameLayout {
        width: w,
        height: h,
        tab_rail_row: if deep_debug { None } else { Some(1) },
        content_start: start,
        content_height: if ch == 0 { 1 } else { ch },
        status_row: if status_line { Some(h.saturating_sub(2)) } else { None },
        footer_row: h - 1,
    }
}

/// The content row of a tab without a pane of its own: the tab, how many
/// loops are listed, and the selected loop (or `none`).
pub open spec fn tab_info_spec(tab: MainTab, listed: nat, selected_id: Seq<char>) -> Seq<char> {
    tab.label_spec() + " tab  |  "@ + dec(listed) + " loops  |  selected: "@ + if selected_id.len() == 0 {
        "none"@
    } else {
        selected_id
    }
}

pub fn tab_info_line(tab: MainTab, listed: usize, selected_id: &str) -> (r: String)
    ensures
        r@ == tab_info_spec(tab, listed as nat, selected_id@),
{
    let mut line = copy_string(tab.label());
    push_str(&mut line, " tab  |  ");
    push_str(&mut line, u64_to_string(listed as u64).as_str());
    push_str(&mut line, " loops  |  selected: ");
    if selected_id.is_empty() {
        push_str(&mut line, "none");
    } else {
        push_str(&mut line, selected_id);
    }
    line
}

/// The content lines of a mode placed on the frame: line `i` on row
/// `content_start + i`, as many as the content rows hold.
pub fn content_rows(layout: &FrameLayout, lines: &Vec<String>) -> (r: Vec<(usize, String)>)
    requires
        layout.content_start + layout.content_height <= usize::MAX,
    ensures
        r@.len() == (if lines@.len() < layout.content_height { lines@.len() } else {
            layout.content_height as nat
        }),
        forall|i: int|
            0 <= i < r@.len() ==> (#[trigger] r@[i]).0 == layout.content_start + i && r@[i].1@
                == lines@[i]@,
{
    let mut out: Vec<(usize, String)> = Vec::new();
    let mut i: usize = 0;
    while i < lines.len() && i < layout.content_height
        invariant
            i <= lines.len(),
            i <= layout.content_height,
            layout.content_start + layout.content_height <= usize::MAX,
            out@.len() == i,
            forall|k: int|
                0 <= k < i ==> (#[trigger] out@[k]).0 == layout.content_start + k && out@[k].1@
                    == lines@[k]@,
        decreases lines.len() - i,
    {
        out.push((layout.content_start + i, copy_string(lines[i].as_str())));
        i += 1;
    }
    out
}

/// The status line's text, cut to the frame's width: when there is a
/// status message, its display form (`display_text`); else the failure
/// explanation when there is one.
pub fn status_line_text(width: usize, status_text: &str, display_text: &str, failure_strip: Option<&str>) -> (r:
    Option<String>)
    ensures
        match r {
            Some(t) => if status_text@.len() > 0 {
                t@ == take_upto(display_text@, width as int)
            } else {
                failure_strip matches Some(f) && t@ == take_upto(f@, width as int)
            },
            None => status_text@.len() == 0 && failure_strip is None,
        },
{
    if !status_text.is_empty() {
        Some(trim_to_width(display_text, width))
    } else {
        match failure_strip {
            Some(f) => Some(trim_to_width(f, width)),
            None => None,
        }
    }
}

// ---------------------------------------------------------------------------
// The tab rail
// ---------------------------------------------------------------------------

pub open spec fn rail_label(t: MainTab, compact: bool) -> Seq<char> {
    if compact {
        t.short_label_spec()
    } else {
        t.label_spec()
    }
}

/// The badge of the `k`th tab: ` N:label ` with `N` counted from 1.
pub open spec fn badge_text(k: int, compact: bool) -> Seq<char> {
    " "@ + dec((k + 1) as nat) + ":"@ + rail_label(MainTab::at_spec(k), compact) + " "@
}

/// The tab rail as spans of text, each marked when it is the active tab's
/// badge: the five badges in tab order, two spaces between neighbours.
pub open spec fn rail_spec(compact: bool, active: MainTab) -> Seq<(Seq<char>, bool)> {
    Seq::new(
        9,
        |i: int|
            if i % 2 == 0 {
                (badge_text(i / 2, compact), MainTab::at_spec(i / 2) == active)
            } else {
                ("  "@, false)
            },
    )
}

/// The number of columns the spans take.
pub open spec fn spans_width(spans: Seq<(Seq<char>, bool)>) -> int
    decreases spans.len(),
{
    if spans.len() == 0 {
        0
    } else {
        spans_width(spans.drop_last()) + spans.last().0.len()
    }
}

pub fn tab_rail_spans(compact: bool, active: MainTab) -> (r: Vec<(String, bool)>)
    ensures
        r@.len() == 9,
        forall|i: int| 0 <= i < 9 ==> (#[trigger] r@[i]).0@ == rail_spec(compact, active)[i].0 && r@[i].1
            == rail_spec(compact, active)[i].1,
{
    let mut out: Vec<(String, bool)> = Vec::new();
    let mut k: usize = 0;
    while k < 5
        invariant
            k <= 5,
            out@.len() == (if k == 0 { 0 } else { 2 * k - 1 }),
            forall|i: int| 0 <= i < out@.len() ==> (#[trigger] out@[i]).0@ == rail_spec(compact, active)[i].0
                && out@[i].1 == rail_spec(compact, active)[i].1,
        decreases 5 - k,
    {
        if k > 0 {
            out.push((copy_string("  "), false));
        }
        let tab = MainTab::ORDER[k];
        assert(tab == MainTab::at_spec(k as int));
        let mut badge = copy_string(" ");
        push_str(&mut badge, u64_to_string((k + 1) as u64).as_str());
        push_str(&mut badge, ":");
        push_str(&mut badge, if compact { tab.short_label() } else { tab.label() });
        push_str(&mut badge, " ");
        assert(badge@ == badge_text(k as int, compact));
        let is_active = tab == active;
        out.push((badge, is_active));
        k += 1;
    }
    out
}

/// Each badge on the rail sits where a click picks its tab: the `k`th badge
/// starts at the column `tab_at_column` starts it at and is as wide.
pub proof fn law_rail_badges_where_clicks_land(compact: bool, active: MainTab, k: int)
    requires
        0 <= k < 5,
    ensures
        spans_width(rail_spec(compact, active).take(2 * k)) == tab_start(k, compact),
        rail_spec(compact, active)[2 * k].0.len() == badge_width(MainTab::at_spec(k), compact),
    decreases k,
{
    let r = rail_spec(compact, active);
    reveal_strlit(" ");
    reveal_strlit(":");
    reveal_strlit("  ");
    assert((2 * k) % 2 == 0 && (2 * k) / 2 == k);
    assert(dec((k + 1) as nat) == seq![crate::text::digit_char((k + 1) as nat)]);
    assert(r[2 * k].0 == badge_text(k, compact));
    if k > 0 {
        law_rail_badges_where_clicks_land(compact, active, k - 1);
        assert((2 * k - 1) % 2 == 1 && (2 * (k - 1)) % 2 == 0 && (2 * (k - 1)) / 2 == k - 1);
        assert(r[2 * k - 1].0 == "  "@);
        assert(dec(k as nat) == seq![crate::text::digit_char(k as nat)]);
        assert(r[2 * (k - 1)].0 == badge_text(k - 1, compact));
        assert(r.take(2 * k).drop_last() =~= r.take(2 * k - 1));
        assert(r.take(2 * k - 1).drop_last() =~= r.take(2 * (k - 1)));
        assert(r.take(2 * k).last() == r[2 * k - 1]);
        assert(r.take(2 * k - 1).last() == r[2 * (k - 1)]);
        let w1 = spans_width(r.take(2 * k - 1));
        assert(spans_width(r.take(2 * k)) == w1 + 2);
        assert(w1 == spans_width(r.take(2 * (k - 1))) + r[2 * (k - 1)].0.len());
        assert(tab_start(k, compact) == tab_start(k - 1, compact) + badge_width(MainTab::at_spec(k - 1), compact) + 2);
    } else {
        assert(r.take(0) =~= Seq::<(Seq<char>, bool)>::empty());
    }
}

// ---------------------------------------------------------------------------
// The texts of a frame
// ---------------------------------------------------------------------------

/// One text drawn on the frame: its row, its first column and the text.
#[derive(Debug, Clone, PartialEq, Eq)]
pub struct FrameText {
    pub row: usize,
    pub column: usize,
    pub text: String,
}

pub open spec fn text_view(t: FrameText) -> (int, int, Seq<char>) {
    (t.row as int, t.column as int, t.text@)
}

/// The columns a run of texts takes, side by side.
pub open spec fn widths(s: Seq<Seq<char>>) -> int
    decreases s.len(),
{
    if s.len() == 0 {
        0
    } else {
        widths(s.drop_last()) + s.last().len()
    }
}

/// The rail's spans drawn side by side on `row`.
pub open spec fn rail_texts(rail: Seq<Seq<char>>, row: int) -> Seq<(int, int, Seq<char>)> {
    Seq::new(rail.len(), |i: int| (row, widths(rail.take(i)), rail[i]))
}

/// The content lines on the content rows, as many as they hold.
pub open spec fn content_texts(l: FrameLayout, content: Seq<Seq<char>>) -> Seq<(int, int, Seq<char>)> {
    Seq::new(
        if content.len() < l.content_height { content.len() } else { l.content_height as nat },
        |i: int| (l.content_start + i, 0, content[i]),
    )
}

/// The texts drawn for a frame, in drawing order (a later text is drawn over
/// an earlier one where they meet): nothing while quitting; else the header
/// on row 0, the tab rail's spans side by side on its row, the content
/// lines on the content rows, the status line on its row when there is one,
/// and the footer cut to the width on the last row.
pub open spec fn frame_texts_spec(
    width: usize,
    height: usize,
    deep_debug: bool,
    quitting: bool,
    header: Seq<char>,
    rail: Seq<Seq<char>>,
    content: Seq<Seq<char>>,
    status: Option<Seq<char>>,
    footer: Seq<char>,
) -> Seq<(int, int, Seq<char>)> {
    let l = layout_spec(width, height, deep_debug, status is Some);
    if quitting {
        Seq::empty()
    } else {
        seq![(0int, 0int, header)] + (match l.tab_rail_row {
            Some(r) => rail_texts(rail, r as int),
            None => Seq::empty(),
        }) + content_texts(l, content) + (match status {
            Some(t) => seq![(l.status_row->Some_0 as int, 0int, t)],
            None => Seq::empty(),
        }) + seq![(l.footer_row as int, 0int, take_upto(footer, l.width as int))]
    }
}

fn push_text(out: &mut Vec<FrameText>, row: usize, column: usize, text: String)
    ensures
        final(out)@.map_values(|t: FrameText| text_view(t)) == old(out)@.map_values(
            |t: FrameText| text_view(t),
        ).push((row as int, column as int, text@)),
{
    let ghost prev = out@;
    out.push(FrameText { row, column, text });
    assert(out@.map_values(|t: FrameText| text_view(t)) =~= prev.map_values(|t: FrameText| text_view(t)).push(
        (row as int, column as int, text@),
    ));
}

/// The texts the shell draws for a frame of `width` by `height`, given the
/// header line, the tab rail's spans, the content lines of the current view,
/// the status line (when one shows) and the footer's hints.
pub fn frame_texts(
    width: usize,
    height: usize,
    deep_debug: bool,
    quitting: bool,
    header: &str,
    rail: &Vec<String>,
    content: &Vec<String>,
    status: Option<String>,
    footer: &str,
) -> (r: Vec<FrameText>)
    requires
        widths(sv(rail@)) <= usize::MAX,
    ensures
        r@.map_values(|t: FrameText| text_view(t)) == frame_texts_spec(
            width,
            height,
            deep_debug,
            quitting,
            header@,
            sv(rail@),
            sv(content@),
            crate::session::opt_view(status),
            footer@,
        ),
{
    let ghost status_view = crate::session::opt_view(status);
    let ghost spec = frame_texts_spec(width, height, deep_debug, quitting, header@, sv(rail@), sv(content@), status_view, footer@);
    let mut out: Vec<FrameText> = Vec::new();
    if quitting {
        assert(out@.map_values(|t: FrameText| text_view(t)) =~= spec);
        return out;
    }
    let l = frame_layout(width, height, deep_debug, status.is_some());
    push_text(&mut out, 0, 0, copy_string(header));
    let ghost after_header = out@.map_values(|t: FrameText| text_view(t));
    assert(after_header =~= seq![(0int, 0int, header@)]);
    let ghost rs = sv(rail@);
    let ghost rail_part = match l.tab_rail_row {
        Some(r) => rail_texts(rs, r as int),
        None => Seq::<(int, int, Seq<char>)>::empty(),
    };
    if let Some(rail_row) = l.tab_rail_row {
        let mut column: usize = 0;
        let mut i: usize = 0;
        while i < rail.len()
            invariant
                i <= rail.len(),
                rs == sv(rail@),
                widths(rs) <= usize::MAX,
                column == widths(rs.take(i as int)),
                out@.map_values(|t: FrameText| text_view(t)) == after_header + rail_texts(rs, rail_row as int).take(i as int),
            decreases rail.len() - i,
        {
            proof {
                lemma_widths_prefix(rs, i as int + 1);
                assert(rs.take(i + 1).drop_last() =~= rs.take(i as int));
            }
            let w = char_count(rail[i].as_str());
            push_text(&mut out, rail_row, column, copy_string(rail[i].as_str()));
            assert(rail_texts(rs, rail_row as int).take(i + 1) =~= rail_texts(rs, rail_row as int).take(i as int).push(
                (rail_row as int, column as int, rs[i as int]),
            ));
            column = column + w;
            i += 1;
        }
        assert(rail_texts(rs, rail_row as int).take(i as int) =~= rail_texts(rs, rail_row as int));
    } else {
        assert(after_header + rail_part =~= after_header);
    }
    let ghost after_rail = out@.map_values(|t: FrameText| text_view(t));
    assert(after_rail == after_header + rail_part);
    let rows = content_rows(&l, content);
    let ghost ct = content_texts(l, sv(content@));
    let mut k: usize = 0;
    while k < rows.len()
        invariant
            k <= rows.len(),
            rows@.len() == ct.len(),
            forall|i: int|
                0 <= i < rows@.len() ==> (#[trigger] rows@[i]).0 == l.content_start + i && rows@[i].1@
                    == content@[i]@,
            ct == content_texts(l, sv(content@)),
            out@.map_values(|t: FrameText| text_view(t)) == after_rail + ct.take(k as int),
        decreases rows.len() - k,
    {
        push_text(&mut out, rows[k].0, 0, copy_string(rows[k].1.as_str()));
        assert(ct.take(k + 1) =~= ct.take(k as int).push(ct[k as int]));
        k += 1;
    }
    assert(ct.take(k as int) =~= ct);
    let ghost after_content = out@.map_values(|t: FrameText| text_view(t));
    match status {
        Some(t) => {
            let row = match l.status_row {
                Some(r) => r,
                None => 0,
            };
            push_text(&mut out, row, 0, t);
        },
        None => {},
    }
    let ghost after_status = out@.map_values(|t: FrameText| text_view(t));
    assert(after_status =~= after_content + match status_view {
        Some(t) => seq![(l.status_row->Some_0 as int, 0int, t)],
        None => Seq::empty(),
    });
    push_text(&mut out, l.footer_row, 0, trim_to_width(footer, l.width));
    assert(out@.map_values(|t: FrameText| text_view(t)) =~= spec);
    out
}

proof fn lemma_widths_prefix(s: Seq<Seq<char>>, n: int)
    requires
        0 <= n <= s.len(),
    ensures
        widths(s.take(n)) <= widths(s),
    decreases s.len(),
{
    if n < s.len() {
        lemma_widths_prefix(s.drop_last(), n);
        assert(s.drop_last().take(n) =~= s.take(n));
    } else {
        assert(s.take(n) =~= s);
    }
}

} // verus!
