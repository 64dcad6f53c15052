//! What a mouse event asks of the shell's main view: the tab rail, the
//! wheel, and clicks in the content area.
use vstd::prelude::*;

use crate::app::{tab_at_column, tab_at_column_spec, MainTab};
use crate::inbox_pane::{inbox_columns, inbox_pane_heights, list_width_spec};

verus! {

/// A mouse event as the shell reads it.
#[derive(Debug, Clone, Copy, PartialEq, Eq, Structural)]
pub enum MouseKind {
    WheelUp,
    WheelDown,
    LeftDown,
    LeftDrag,
    /// Any other button or motion.
    Other,
}

#[derive(Debug, Clone, Copy, PartialEq, Eq, Structural)]
pub struct MouseInput {
    pub kind: MouseKind,
    pub column: usize,
    pub row: usize,
}

/// Where a click in the inbox pane lands.
#[derive(Debug, Clone, Copy, PartialEq, Eq, Structural)]
pub enum InboxHit {
    /// Nowhere that reacts.
    Outside,
    /// The detail panel: it takes the focus.
    Detail,
    /// The thread list, but on no thread: the list takes the focus.
    List,
    /// A thread row: the list takes the focus and the thread is selected.
    Thread(usize),
}

/// What a mouse event asks of the shell.
#[derive(Debug, Clone, Copy, PartialEq, Eq, Structural)]
pub enum MouseAction {
    /// A click on the tab rail: show this tab (nothing changes when it is
    /// already shown).
    ShowTab(MainTab),
    /// Scroll the log by this many lines (positive: towards older lines).
    ScrollLog(i32),
    MoveInboxSelection(i32),
    MoveSelection(i32),
    Inbox(InboxHit),
    /// A click on the log or runs view: the right pane takes the focus
    /// when the click is in the right half.
    SplitFocus { right: bool },
    /// A click in the matrix grid, at this column and row of the content
    /// area of this height.
    MatrixCell { column: usize, local_row: usize, pane_height: usize },
    Ignore,
}

/// The first row of the content area and its height: below the tab rail
/// (none in deep focus), above one footer row, two when a status or a
/// failure strip is shown; at least one row.
pub open spec fn content_area_spec(height: int, deep_focus: bool, two_footer_rows: bool) -> (int, int) {
    let start = if deep_focus { 1int } else { 2int };
    let footer = if two_footer_rows { 2int } else { 1int };
    let h = if height < 1 { 1 } else { height };
    let rest = if h >= start + footer { h - start - footer } else { 0 };
    (start, if rest < 1 { 1 } else { rest })
}

pub fn content_area(height: usize, deep_focus: bool, two_footer_rows: bool) -> (r: (usize, usize))
    ensures
        r.0 == content_area_spec(height as int, deep_focus, two_footer_rows).0,
        r.1 == content_area_spec(height as int, deep_focus, two_footer_rows).1,
{
    let start: usize = if deep_focus { 1 } else { 2 };
    let footer: usize = if two_footer_rows { 2 } else { 1 };
    let h = if height < 1 { 1 } else { height };
    let rest = if h >= start + footer { h - start - footer } else { 0 };
    (start, if rest < 1 { 1 } else { rest })
}

/// Where a click at `column` and row `local_y` of an inbox pane `width`
/// columns wide and `pane_height` rows high lands, with `threads` threads
/// listed.
pub open spec fn inbox_hit_spec(
    column: int,
    local_y: int,
    pane_height: int,
    width: int,
    threads: int,
    has_claims: bool,
) -> InboxHit {
    let w = if width < 1 { 1 } else { width };
    let timeline = if !has_claims {
        0
    } else if pane_height < 2 {
        0
    } else if pane_height - 2 < 5 {
        pane_height - 2
    } else {
        5
    };
    let body = if pane_height >= 1 + timeline { pane_height - 1 - timeline } else { 0 };
    let list = list_width_spec(w);
    let inner = if body >= 2 { body - 2 } else { 0 };
    if threads == 0 || pane_height < 4 || local_y < 1 || local_y >= 1 + body {
        InboxHit::Outside
    } else if list + 2 < w && column >= list + 1 {
        InboxHit::Detail
    } else if column >= list {
        InboxHit::Outside
    } else if local_y < 2 || local_y >= 2 + inner || local_y - 2 >= threads {
        InboxHit::List
    } else {
        InboxHit::Thread((local_y - 2) as usize)
    }
}

pub fn inbox_hit(
    column: usize,
    local_y: usize,
    pane_height: usize,
    width: usize,
    threads: usize,
    has_claims: bool,
) -> (r: InboxHit)
    ensures
        r == inbox_hit_spec(
            column as int,
            local_y as int,
            pane_height as int,
            width as int,
            threads as int,
            has_claims,
        ),
{
    let w = if width < 1 { 1 } else { width };
    let (_, body) = inbox_pane_heights(pane_height, has_claims);
    let (list, _) = inbox_columns(w);
    let inner = if body >= 2 { body - 2 } else { 0 };
    if threads == 0 || pane_height < 4 || local_y < 1 || local_y - 1 >= body {
        InboxHit::Outside
    } else if list + 2 < w && column >= list + 1 {
        InboxHit::Detail
    } else if column >= list {
        InboxHit::Outside
    } else if local_y < 2 || local_y - 2 >= inner || local_y - 2 >= threads {
        InboxHit::List
    } else {
        InboxHit::Thread(local_y - 2)
    }
}

/// The view the main screen shows, as mouse handling reads it.
#[derive(Debug, Clone, Copy, PartialEq, Eq, Structural)]
pub struct MouseContext {
    pub tab: MainTab,
    /// Deep focus hides the tab rail.
    pub deep_focus: bool,
    /// The tab rail uses short labels.
    pub compact: bool,
    /// The screen's width.
    pub width: usize,
    /// The first row of the content area and its height.
    pub content_start: usize,
    pub content_height: usize,
    /// Threads listed in the inbox, and whether there are claims to show.
    pub threads: usize,
    pub has_claims: bool,
}

/// What `m` asks of the main view: a click on the tab rail (row 1) shows
/// that tab; the wheel scrolls the log by three lines on the log, runs and
/// matrix tabs and moves the selection by one elsewhere; a left click or
/// drag in the content area hits the inbox, the split panes or the matrix.
pub open spec fn mouse_action_spec(m: MouseInput, c: MouseContext) -> MouseAction {
    let rail = if !c.deep_focus && m.row == 1 {
        tab_at_column_spec(m.column as int, c.compact)
    } else {
        None
    };
    let logs = c.tab == MainTab::Logs || c.tab == MainTab::Runs || c.tab == MainTab::MultiLogs;
    match rail {
        Some(t) => MouseAction::ShowTab(t),
        None => match m.kind {
            MouseKind::WheelUp => if logs {
                MouseAction::ScrollLog(3)
            } else if c.tab == MainTab::Inbox {
                MouseAction::MoveInboxSelection(-1i32)
            } else {
                MouseAction::MoveSelection(-1i32)
            },
            MouseKind::WheelDown => if logs {
                MouseAction::ScrollLog(-3i32)
            } else if c.tab == MainTab::Inbox {
                MouseAction::MoveInboxSelection(1)
            } else {
                MouseAction::MoveSelection(1)
            },
            MouseKind::LeftDown | MouseKind::LeftDrag => if m.row < c.content_start || m.row
                >= c.content_start + c.content_height {
                MouseAction::Ignore
            } else {
                let y = (m.row - c.content_start) as usize;
                match c.tab {
                    MainTab::Inbox => MouseAction::Inbox(
                        inbox_hit_spec(
                            m.column as int,
                            y as int,
                            c.content_height as int,
                            c.width as int,
                            c.threads as int,
                            c.has_claims,
                        ),
                    ),
                    MainTab::MultiLogs => MouseAction::MatrixCell {
                        column: m.column,
                        local_row: y,
                        pane_height: c.content_height,
                    },
                    MainTab::Logs | MainTab::Runs => MouseAction::SplitFocus {
                        right: m.column >= c.width / 2,
                    },
                    MainTab::Overview => MouseAction::Ignore,
                }
            },
            MouseKind::Other => MouseAction::Ignore,
        },
    }
}

/// Decides what a mouse event asks of the main view.
pub fn mouse_action(m: MouseInput, c: MouseContext) -> (r: MouseAction)
    ensures
        r == mouse_action_spec(m, c),
{
    if !c.deep_focus && m.row == 1 {
        if let Some(t) = tab_at_column(m.column, c.compact) {
            return MouseAction::ShowTab(t);
        }
    }
    let logs = c.tab == MainTab::Logs || c.tab == MainTab::Runs || c.tab == MainTab::MultiLogs;
    match m.kind {
        MouseKind::WheelUp => if logs {
            MouseAction::ScrollLog(3)
        } else if c.tab == MainTab::Inbox {
            MouseAction::MoveInboxSelection(-1i32)
        } else {
            MouseAction::MoveSelection(-1i32)
        },
        MouseKind::WheelDown => if logs {
            MouseAction::ScrollLog(-3i32)
        } else if c.tab == MainTab::Inbox {
            MouseAction::MoveInboxSelection(1)
        } else {
            MouseAction::MoveSelection(1)
        },
        MouseKind::LeftDown | MouseKind::LeftDrag => {
            if m.row < c.content_start || m.row - c.content_start >= c.content_height {
                return MouseAction::Ignore;
            }
            let y = m.row - c.content_start;
            match c.tab {
                MainTab::Inbox => MouseAction::Inbox(
                    inbox_hit(m.column, y, c.content_height, c.width, c.threads, c.has_claims),
                ),
                MainTab::MultiLogs => MouseAction::MatrixCell {
                    column: m.column,
                    local_row: y,
                    pane_height: c.content_height,
                },
                MainTab::Logs | MainTab::Runs => MouseAction::SplitFocus { right: m.column >= c.width / 2 },
                MainTab::Overview => MouseAction::Ignore,
            }
        },
        MouseKind::Other => MouseAction::Ignore,
    }
}

} // verus!
