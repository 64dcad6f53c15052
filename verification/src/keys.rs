//! What a key asks of the shell in its main view and in the expanded log
//! view. The shell carries the intent out; these functions only decide it.
use vstd::prelude::*;

use crate::app::{ActionType, EvidenceKind, MainTab};
use crate::modes::{Key, KeyPress};

verus! {

/// What a key asks of the shell.
#[derive(Debug, Clone, Copy, PartialEq, Eq, Structural)]
pub enum Intent {
    Quit,
    OpenHelp,
    ShowTab(MainTab),
    /// Go back to the last place on the navigation history.
    Backtrack,
    CycleTab(i32),
    CycleTheme,
    CycleAccessibilityTheme,
    CycleAccessibilityQuickMode,
    ToggleZen,
    ToggleDeepFocus,
    CycleDensity,
    DismissOnboarding,
    RecallOnboarding,
    OpenFilter,
    TraverseFocus(i32),
    ExportView,
    MoveSelection(i32),
    MoveInboxSelection(i32),
    MarkThreadRead,
    CycleInboxFilter,
    AcknowledgeMessage,
    HandoffSnapshot,
    QuickReply,
    OpenRegexSearch,
    OpenPrimaryLink,
    CycleClaimConflict,
    ShowClaimHint,
    CopyContext,
    /// Scroll the log by a page: towards older lines when `older`.
    ScrollLogPage { older: bool },
    JumpToEvidence(EvidenceKind),
    ReturnFromEvidence,
    TogglePin,
    ClearPins,
    ToggleCompare,
    CycleLayout,
    MatrixPageStart,
    MatrixPageEnd,
    MoveMatrixPage(i32),
    CycleLogSource,
    CycleLogLayer,
    ToggleFollow,
    MoveRunSelection(i32),
    ExpandLogs,
    /// Leave the expanded log view for the main view.
    CollapseLogs,
    OpenWizard,
    ResumeSelected,
    Confirm(ActionType),
    Nothing,
}

/// The tabs whose log can be scrolled by a page: the log and the runs, and
/// the matrix while it compares.
pub open spec fn log_pages(tab: MainTab, compare: bool) -> bool {
    tab == MainTab::Logs || tab == MainTab::Runs || (tab == MainTab::MultiLogs && compare)
}

/// A tab that shows a log.
pub open spec fn shows_log(tab: MainTab) -> bool {
    tab == MainTab::Logs || tab == MainTab::Runs
}

pub open spec fn main_char_intent(c: char, ctrl: bool, tab: MainTab, compare: bool) -> Intent {
    let inbox = tab == MainTab::Inbox;
    let multi = tab == MainTab::MultiLogs;
    if c == 'q' {
        Intent::Quit
    } else if c == '?' {
        Intent::OpenHelp
    } else if c == '1' {
        Intent::ShowTab(MainTab::Overview)
    } else if c == '2' {
        Intent::ShowTab(MainTab::Logs)
    } else if c == '3' {
        Intent::ShowTab(MainTab::Runs)
    } else if c == '4' {
        Intent::ShowTab(MainTab::MultiLogs)
    } else if c == '5' {
        Intent::ShowTab(MainTab::Inbox)
    } else if c == 'b' {
        if ctrl { Intent::ReturnFromEvidence } else { Intent::Backtrack }
    } else if c == ']' {
        Intent::CycleTab(1)
    } else if c == '[' {
        Intent::CycleTab(-1i32)
    } else if c == 't' {
        Intent::CycleTheme
    } else if c == 'T' {
        Intent::CycleAccessibilityTheme
    } else if c == 'A' {
        Intent::CycleAccessibilityQuickMode
    } else if c == 'z' {
        Intent::ToggleZen
    } else if c == 'Z' {
        Intent::ToggleDeepFocus
    } else if c == 'M' {
        Intent::CycleDensity
    } else if c == 'i' {
        Intent::DismissOnboarding
    } else if c == 'I' {
        Intent::RecallOnboarding
    } else if c == '/' {
        Intent::OpenFilter
    } else if c == 'E' {
        Intent::ExportView
    } else if c == 'j' {
        if inbox { Intent::MoveInboxSelection(1) } else { Intent::MoveSelection(1) }
    } else if c == 'k' {
        if inbox { Intent::MoveInboxSelection(-1i32) } else { Intent::MoveSelection(-1i32) }
    } else if c == 'f' {
        if inbox { Intent::CycleInboxFilter } else { Intent::Nothing }
    } else if c == 'a' {
        if ctrl {
            Intent::JumpToEvidence(EvidenceKind::Ack)
        } else if inbox {
            Intent::AcknowledgeMessage
        } else {
            Intent::Nothing
        }
    } else if c == 'h' {
        if inbox { Intent::HandoffSnapshot } else { Intent::Nothing }
    } else if c == 'R' {
        if inbox {
            Intent::QuickReply
        } else if shows_log(tab) {
            Intent::OpenRegexSearch
        } else {
            Intent::Nothing
        }
    } else if c == 'o' {
        if ctrl {
            Intent::OpenPrimaryLink
        } else if inbox {
            Intent::CycleClaimConflict
        } else {
            Intent::Nothing
        }
    } else if c == 'O' {
        if inbox { Intent::ShowClaimHint } else { Intent::Nothing }
    } else if c == 'y' {
        if ctrl { Intent::CopyContext } else { Intent::Nothing }
    } else if c == 'e' {
        if ctrl { Intent::JumpToEvidence(EvidenceKind::Error) } else { Intent::Nothing }
    } else if c == 'w' {
        if ctrl { Intent::JumpToEvidence(EvidenceKind::Warning) } else { Intent::Nothing }
    } else if c == 'u' {
        if log_pages(tab, compare) { Intent::ScrollLogPage { older: true } } else { Intent::Nothing }
    } else if c == 'd' {
        if log_pages(tab, compare) { Intent::ScrollLogPage { older: false } } else { Intent::Nothing }
    } else if c == ' ' {
        Intent::TogglePin
    } else if c == 'c' {
        Intent::ClearPins
    } else if c == 'C' {
        if multi { Intent::ToggleCompare } else { Intent::Nothing }
    } else if c == 'm' {
        if multi { Intent::CycleLayout } else { Intent::Nothing }
    } else if c == 'g' {
        if multi { Intent::MatrixPageStart } else { Intent::Nothing }
    } else if c == 'G' {
        if multi { Intent::MatrixPageEnd } else { Intent::Nothing }
    } else if c == 'v' {
        if tab == MainTab::Logs { Intent::CycleLogSource } else { Intent::Nothing }
    } else if c == 'x' {
        if shows_log(tab) || multi { Intent::CycleLogLayer } else { Intent::Nothing }
    } else if c == 'F' {
        if shows_log(tab) { Intent::ToggleFollow } else { Intent::Nothing }
    } else if c == ',' {
        if shows_log(tab) {
            Intent::MoveRunSelection(-1i32)
        } else if multi {
            Intent::MoveMatrixPage(-1i32)
        } else {
            Intent::Nothing
        }
    } else if c == '.' {
        if shows_log(tab) {
            Intent::MoveRunSelection(1)
        } else if multi {
            Intent::MoveMatrixPage(1)
        } else {
            Intent::Nothing
        }
    } else if c == 'l' {
        Intent::ExpandLogs
    } else if c == 'n' {
        Intent::OpenWizard
    } else if c == 'r' {
        if inbox { Intent::QuickReply } else { Intent::ResumeSelected }
    } else if c == 'S' {
        Intent::Confirm(ActionType::Stop)
    } else if c == 'K' {
        Intent::Confirm(ActionType::Kill)
    } else if c == 'D' {
        Intent::Confirm(ActionType::Delete)
    } else {
        Intent::Nothing
    }
}

/// What `key` asks of the main view on `tab`; `compare` tells whether the
/// matrix compares logs. Keys bound to the palette and the search overlay
/// are read before this.
pub open spec fn main_intent_spec(key: KeyPress, tab: MainTab, compare: bool) -> Intent {
    match key.key {
        Key::Char(c) => main_char_intent(c, key.ctrl, tab, compare),
        Key::Tab => Intent::TraverseFocus(if key.shift { -1i32 } else { 1 }),
        Key::Left => Intent::TraverseFocus(-1i32),
        Key::Right => Intent::TraverseFocus(1),
        Key::Down => main_char_intent('j', false, tab, compare),
        Key::Up => main_char_intent('k', false, tab, compare),
        Key::Enter => if tab == MainTab::Inbox {
            Intent::MarkThreadRead
        } else {
            Intent::Nothing
        },
        _ => Intent::Nothing,
    }
}

fn main_char(c: char, ctrl: bool, tab: MainTab, compare: bool) -> (r: Intent)
    ensures
        r == main_char_intent(c, ctrl, tab, compare),
{
    let inbox = tab == MainTab::Inbox;
    let multi = tab == MainTab::MultiLogs;
    let logs = tab == MainTab::Logs || tab == MainTab::Runs;
    let pages = logs || (multi && compare);
    match c {
        'q' => Intent::Quit,
        '?' => Intent::OpenHelp,
        '1' => Intent::ShowTab(MainTab::Overview),
        '2' => Intent::ShowTab(MainTab::Logs),
        '3' => Intent::ShowTab(MainTab::Runs),
        '4' => Intent::ShowTab(MainTab::MultiLogs),
        '5' => Intent::ShowTab(MainTab::Inbox),
        'b' => if ctrl { Intent::ReturnFromEvidence } else { Intent::Backtrack },
        ']' => Intent::CycleTab(1),
        '[' => Intent::CycleTab(-1i32),
        't' => Intent::CycleTheme,
        'T' => Intent::CycleAccessibilityTheme,
        'A' => Intent::CycleAccessibilityQuickMode,
        'z' => Intent::ToggleZen,
        'Z' => Intent::ToggleDeepFocus,
        'M' => Intent::CycleDensity,
        'i' => Intent::DismissOnboarding,
        'I' => Intent::RecallOnboarding,
        '/' => Intent::OpenFilter,
        'E' => Intent::ExportView,
        'j' => if inbox { Intent::MoveInboxSelection(1) } else { Intent::MoveSelection(1) },
        'k' => if inbox { Intent::MoveInboxSelection(-1i32) } else { Intent::MoveSelection(-1i32) },
        'f' => if inbox { Intent::CycleInboxFilter } else { Intent::Nothing },
        'a' => if ctrl {
            Intent::JumpToEvidence(EvidenceKind::Ack)
        } else if inbox {
            Intent::AcknowledgeMessage
        } else {
            Intent::Nothing
        },
        'h' => if inbox { Intent::HandoffSnapshot } else { Intent::Nothing },
        'R' => if inbox {
            Intent::QuickReply
        } else if logs {
            Intent::OpenRegexSearch
        } else {
            Intent::Nothing
        },
        'o' => if ctrl {
            Intent::OpenPrimaryLink
        } else if inbox {
            Intent::CycleClaimConflict
        } else {
            Intent::Nothing
        },
        'O' => if inbox { Intent::ShowClaimHint } else { Intent::Nothing },
        'y' => if ctrl { Intent::CopyContext } else { Intent::Nothing },
        'e' => if ctrl { Intent::JumpToEvidence(EvidenceKind::Error) } else { Intent::Nothing },
        'w' => if ctrl { Intent::JumpToEvidence(EvidenceKind::Warning) } else { Intent::Nothing },
        'u' => if pages { Intent::ScrollLogPage { older: true } } else { Intent::Nothing },
        'd' => if pages { Intent::ScrollLogPage { older: false } } else { Intent::Nothing },
        ' ' => Intent::TogglePin,
        'c' => Intent::ClearPins,
        'C' => if multi { Intent::ToggleCompare } else { Intent::Nothing },
        'm' => if multi { Intent::CycleLayout } else { Intent::Nothing },
        'g' => if multi { Intent::MatrixPageStart } else { Intent::Nothing },
        'G' => if multi { Intent::MatrixPageEnd } else { Intent::Nothing },
        'v' => if tab == MainTab::Logs { Intent::CycleLogSource } else { Intent::Nothing },
        'x' => if logs || multi { Intent::CycleLogLayer } else { Intent::Nothing },
        'F' => if logs { Intent::ToggleFollow } else { Intent::Nothing },
        ',' => if logs {
            Intent::MoveRunSelection(-1i32)
        } else if multi {
            Intent::MoveMatrixPage(-1i32)
        } else {
            Intent::Nothing
        },
        '.' => if logs {
            Intent::MoveRunSelection(1)
        } else if multi {
            Intent::MoveMatrixPage(1)
        } else {
            Intent::Nothing
        },
        'l' => Intent::ExpandLogs,
        'n' => Intent::OpenWizard,
        'r' => if inbox { Intent::QuickReply } else { Intent::ResumeSelected },
        'S' => Intent::Confirm(ActionType::Stop),
        'K' => Intent::Confirm(ActionType::Kill),
        'D' => Intent::Confirm(ActionType::Delete),
        _ => Intent::Nothing,
    }
}

/// Decides what `key` asks of the main view.
pub fn main_intent(key: KeyPress, tab: MainTab, compare: bool) -> (r: Intent)
    ensures
        r == main_intent_spec(key, tab, compare),
{
    match key.key {
        Key::Char(c) => main_char(c, key.ctrl, tab, compare),
        Key::Tab => Intent::TraverseFocus(if key.shift { -1i32 } else { 1 }),
        Key::Left => Intent::TraverseFocus(-1i32),
        Key::Right => Intent::TraverseFocus(1),
        Key::Down => main_char('j', false, tab, compare),
        Key::Up => main_char('k', false, tab, compare),
        Key::Enter => if tab == MainTab::Inbox {
            Intent::MarkThreadRead
        } else {
            Intent::Nothing
        },
        _ => Intent::Nothing,
    }
}

pub open spec fn expanded_char_intent(c: char, tab: MainTab) -> Intent {
    if c == 'q' {
        Intent::CollapseLogs
    } else if c == '?' {
        Intent::OpenHelp
    } else if c == ']' {
        Intent::CycleTab(1)
    } else if c == '[' {
        Intent::CycleTab(-1i32)
    } else if c == 't' {
        Intent::CycleTheme
    } else if c == 'T' {
        Intent::CycleAccessibilityTheme
    } else if c == 'z' {
        Intent::ToggleZen
    } else if c == 'Z' {
        Intent::ToggleDeepFocus
    } else if c == 'M' {
        Intent::CycleDensity
    } else if c == 'j' {
        Intent::MoveSelection(1)
    } else if c == 'k' {
        Intent::MoveSelection(-1i32)
    } else if c == 'v' {
        if tab == MainTab::Logs { Intent::CycleLogSource } else { Intent::Nothing }
    } else if c == 'x' {
        Intent::CycleLogLayer
    } else if c == 'F' {
        Intent::ToggleFollow
    } else if c == ',' {
        Intent::MoveRunSelection(-1i32)
    } else if c == '.' {
        Intent::MoveRunSelection(1)
    } else if c == '/' {
        Intent::OpenFilter
    } else if c == 'R' {
        Intent::OpenRegexSearch
    } else if c == 'S' {
        Intent::Confirm(ActionType::Stop)
    } else if c == 'K' {
        Intent::Confirm(ActionType::Kill)
    } else if c == 'D' {
        Intent::Confirm(ActionType::Delete)
    } else if c == 'r' {
        Intent::ResumeSelected
    } else {
        Intent::Nothing
    }
}

/// What `key` asks of the expanded log view on `tab`. Modifiers play no
/// part here; a confirmation or a resume returns to the main view first.
pub open spec fn expanded_intent_spec(key: KeyPress, tab: MainTab) -> Intent {
    match key.key {
        Key::Char(c) => expanded_char_intent(c, tab),
        Key::Escape => Intent::CollapseLogs,
        Key::Down => Intent::MoveSelection(1),
        Key::Up => Intent::MoveSelection(-1i32),
        _ => Intent::Nothing,
    }
}

/// Decides what `key` asks of the expanded log view.
pub fn expanded_intent(key: KeyPress, tab: MainTab) -> (r: Intent)
    ensures
        r == expanded_intent_spec(key, tab),
{
    match key.key {
        Key::Char(c) => match c {
            'q' => Intent::CollapseLogs,
            '?' => Intent::OpenHelp,
            ']' => Intent::CycleTab(1),
            '[' => Intent::CycleTab(-1i32),
            't' => Intent::CycleTheme,
            'T' => Intent::CycleAccessibilityTheme,
            'z' => Intent::ToggleZen,
            'Z' => Intent::ToggleDeepFocus,
            'M' => Intent::CycleDensity,
            'j' => Intent::MoveSelection(1),
            'k' => Intent::MoveSelection(-1i32),
            'v' => if tab == MainTab::Logs { Intent::CycleLogSource } else { Intent::Nothing },
            'x' => Intent::CycleLogLayer,
            'F' => Intent::ToggleFollow,
            ',' => Intent::MoveRunSelection(-1i32),
            '.' => Intent::MoveRunSelection(1),
            '/' => Intent::OpenFilter,
            'R' => Intent::OpenRegexSearch,
            'S' => Intent::Confirm(ActionType::Stop),
            'K' => Intent::Confirm(ActionType::Kill),
            'D' => Intent::Confirm(ActionType::Delete),
            'r' => Intent::ResumeSelected,
            _ => Intent::Nothing,
        },
        Key::Escape => Intent::CollapseLogs,
        Key::Down => Intent::MoveSelection(1),
        Key::Up => Intent::MoveSelection(-1i32),
        _ => Intent::Nothing,
    }
}

} // verus!
