//! The key hints of the footer: which keys it offers in each focus mode,
//! density and tab, and how many it shows.
use vstd::prelude::*;

use crate::app::{DensityMode, FocusMode, MainTab};
use crate::text::copy_string;

verus! {

/// The commands a hint stands for.
#[derive(Debug, Clone, Copy, PartialEq, Eq, Structural)]
pub enum KeyCommand {
    CycleLogLayer,
    CycleTheme,
    ExportCurrentView,
    JumpEvidenceBack,
    JumpEvidenceError,
    LogsCycleSource,
    MoveSelectionNext,
    MultiCycleLayout,
    MultiPageNext,
    OpenFilter,
    OpenPalette,
    OpenSearch,
    Quit,
    RunSelectionNext,
    ScrollLogsDown,
    SwitchTabOverview,
    ToggleFollow,
    ToggleHelp,
    ToggleZen,
}

/// A key hint: the keys, what they do, how important it is, and the
/// command it stands for, if any.
#[derive(Debug, Clone, PartialEq, Eq)]
pub struct HintSpec {
    pub key: String,
    pub label: String,
    pub priority: u8,
    pub command: Option<KeyCommand>,
}

/// A hint as values.
pub type HintModel = (Seq<char>, Seq<char>, u8, Option<KeyCommand>);

pub open spec fn hint_view(h: HintSpec) -> HintModel {
    (h.key@, h.label@, h.priority, h.command)
}

pub open spec fn hints_view(s: Seq<HintSpec>) -> Seq<HintModel> {
    s.map_values(|h: HintSpec| hint_view(h))
}

pub open spec fn hints_deep() -> Seq<HintModel> {
    seq![
        ("?"@, "help"@, 10u8, Some(KeyCommand::ToggleHelp)),
        ("q"@, "quit"@, 9u8, Some(KeyCommand::Quit)),
        ("Z"@, "toggle focus"@, 7u8, None),
        ("M"@, "density"@, 6u8, None),
        ("z"@, "zen"@, 6u8, Some(KeyCommand::ToggleZen)),
        ("A"@, "a11y-mode"@, 6u8, None),
        ("E"@, "export"@, 6u8, Some(KeyCommand::ExportCurrentView)),
        ("ctrl+e"@, "evidence"@, 5u8, Some(KeyCommand::JumpEvidenceError)),
        ("ctrl+b"@, "return"@, 5u8, Some(KeyCommand::JumpEvidenceBack)),
        ("ctrl+y"@, "copy"@, 5u8, None),
        ("i"@, "dismiss-hints"@, 4u8, None),
        ("I"@, "recall-hints"@, 4u8, None),
        ("ctrl+p"@, "palette"@, 5u8, Some(KeyCommand::OpenPalette))
    ]
}

pub open spec fn hints_compact() -> Seq<HintModel> {
    seq![
        ("?"@, "help"@, 10u8, Some(KeyCommand::ToggleHelp)),
        ("q"@, "quit"@, 9u8, Some(KeyCommand::Quit)),
        ("ctrl+p"@, "palette"@, 8u8, Some(KeyCommand::OpenPalette)),
        ("/"@, "filter"@, 8u8, Some(KeyCommand::OpenFilter)),
        ("1-5"@, "tabs"@, 7u8, Some(KeyCommand::SwitchTabOverview)),
        ("j/k"@, "sel"@, 7u8, Some(KeyCommand::MoveSelectionNext)),
        ("ctrl+f"@, "search"@, 6u8, Some(KeyCommand::OpenSearch)),
        ("z"@, "zen"@, 6u8, Some(KeyCommand::ToggleZen)),
        ("A"@, "a11y-mode"@, 6u8, None),
        ("E"@, "export"@, 6u8, Some(KeyCommand::ExportCurrentView)),
        ("ctrl+e"@, "evidence"@, 5u8, Some(KeyCommand::JumpEvidenceError)),
        ("ctrl+b"@, "return"@, 5u8, Some(KeyCommand::JumpEvidenceBack)),
        ("ctrl+y"@, "copy"@, 5u8, None),
        ("F"@, "follow"@, 5u8, Some(KeyCommand::ToggleFollow)),
        ("M"@, "density"@, 5u8, None),
        ("Z"@, "focus"@, 5u8, None)
    ]
}

pub open spec fn hints_comfortable() -> Seq<HintModel> {
    seq![
        ("?"@, "help"@, 10u8, Some(KeyCommand::ToggleHelp)),
        ("q"@, "quit"@, 9u8, Some(KeyCommand::Quit)),
        ("ctrl+p"@, "palette"@, 9u8, Some(KeyCommand::OpenPalette)),
        ("/"@, "filter"@, 8u8, Some(KeyCommand::OpenFilter)),
        ("ctrl+f"@, "search"@, 8u8, Some(KeyCommand::OpenSearch)),
        ("1-5"@, "tabs"@, 8u8, Some(KeyCommand::SwitchTabOverview)),
        ("j/k"@, "sel"@, 7u8, Some(KeyCommand::MoveSelectionNext)),
        ("E"@, "export"@, 7u8, Some(KeyCommand::ExportCurrentView)),
        ("ctrl+e"@, "evidence"@, 6u8, Some(KeyCommand::JumpEvidenceError)),
        ("ctrl+b"@, "return"@, 6u8, Some(KeyCommand::JumpEvidenceBack)),
        ("ctrl+y"@, "copy"@, 6u8, None),
        ("t/T"@, "theme"@, 6u8, Some(KeyCommand::CycleTheme)),
        ("A"@, "a11y-mode"@, 6u8, None),
        ("M"@, "density"@, 6u8, None),
        ("Z"@, "focus"@, 6u8, None),
        ("F"@, "follow"@, 5u8, Some(KeyCommand::ToggleFollow))
    ]
}

pub open spec fn hints_tab_logs() -> Seq<HintModel> {
    seq![
        ("v"@, "source"@, 6u8, Some(KeyCommand::LogsCycleSource)),
        ("x"@, "layer"@, 6u8, Some(KeyCommand::CycleLogLayer)),
        ("u/d"@, "scroll"@, 5u8, Some(KeyCommand::ScrollLogsDown)),
        ("R"@, "regex"@, 6u8, None)
    ]
}

pub open spec fn hints_tab_runs() -> Seq<HintModel> {
    seq![
        ("x"@, "layer"@, 6u8, Some(KeyCommand::CycleLogLayer)),
        (",/."@, "run"@, 6u8, Some(KeyCommand::RunSelectionNext)),
        ("u/d"@, "scroll"@, 5u8, Some(KeyCommand::ScrollLogsDown)),
        ("R"@, "regex"@, 6u8, None)
    ]
}

pub open spec fn hints_tab_multilogs() -> Seq<HintModel> {
    seq![
        ("m"@, "layout"@, 7u8, Some(KeyCommand::MultiCycleLayout)),
        ("g/G"@, "pages"@, 6u8, Some(KeyCommand::MultiPageNext)),
        (",/."@, "page"@, 6u8, Some(KeyCommand::MultiPageNext)),
        ("x"@, "layer"@, 6u8, Some(KeyCommand::CycleLogLayer)),
        ("C"@, "compare"@, 7u8, None)
    ]
}

pub open spec fn hints_tab_inbox() -> Seq<HintModel> {
    seq![
        ("f"@, "inbox-filter"@, 7u8, None),
        ("a"@, "ack"@, 7u8, None),
        ("h"@, "handoff"@, 7u8, None),
        ("o/O"@, "claim"@, 6u8, None)
    ]
}

fn push_hint(r: &mut Vec<HintSpec>, key: &str, label: &str, priority: u8, command: Option<KeyCommand>)
    ensures
        hints_view(final(r)@) == hints_view(old(r)@).push((key@, label@, priority, command)),
{
    r.push(HintSpec { key: copy_string(key), label: copy_string(label), priority, command });
    assert(hints_view(r@) =~= hints_view(old(r)@).push((key@, label@, priority, command)));
}

fn push_deep_hints(r: &mut Vec<HintSpec>)
    ensures
        hints_view(final(r)@) == hints_view(old(r)@) + hints_deep(),
{
    let ghost start = hints_view(r@);
    push_hint(r, "?", "help", 10, Some(KeyCommand::ToggleHelp));
    push_hint(r, "q", "quit", 9, Some(KeyCommand::Quit));
    push_hint(r, "Z", "toggle focus", 7, None);
    push_hint(r, "M", "density", 6, None);
    push_hint(r, "z", "zen", 6, Some(KeyCommand::ToggleZen));
    push_hint(r, "A", "a11y-mode", 6, None);
    push_hint(r, "E", "export", 6, Some(KeyCommand::ExportCurrentView));
    push_hint(r, "ctrl+e", "evidence", 5, Some(KeyCommand::JumpEvidenceError));
    push_hint(r, "ctrl+b", "return", 5, Some(KeyCommand::JumpEvidenceBack));
    push_hint(r, "ctrl+y", "copy", 5, None);
    push_hint(r, "i", "dismiss-hints", 4, None);
    push_hint(r, "I", "recall-hints", 4, None);
    push_hint(r, "ctrl+p", "palette", 5, Some(KeyCommand::OpenPalette));
    assert(hints_view(r@) =~= start + hints_deep());
}

fn push_compact_hints(r: &mut Vec<HintSpec>)
    ensures
        hints_view(final(r)@) == hints_view(old(r)@) + hints_compact(),
{
    let ghost start = hints_view(r@);
    push_hint(r, "?", "help", 10, Some(KeyCommand::ToggleHelp));
    push_hint(r, "q", "quit", 9, Some(KeyCommand::Quit));
    push_hint(r, "ctrl+p", "palette", 8, Some(KeyCommand::OpenPalette));
    push_hint(r, "/", "filter", 8, Some(KeyCommand::OpenFilter));
    push_hint(r, "1-5", "tabs", 7, Some(KeyCommand::SwitchTabOverview));
    push_hint(r, "j/k", "sel", 7, Some(KeyCommand::MoveSelectionNext));
    push_hint(r, "ctrl+f", "search", 6, Some(KeyCommand::OpenSearch));
    push_hint(r, "z", "zen", 6, Some(KeyCommand::ToggleZen));
    push_hint(r, "A", "a11y-mode", 6, None);
    push_hint(r, "E", "export", 6, Some(KeyCommand::ExportCurrentView));
    push_hint(r, "ctrl+e", "evidence", 5, Some(KeyCommand::JumpEvidenceError));
    push_hint(r, "ctrl+b", "return", 5, Some(KeyCommand::JumpEvidenceBack));
    push_hint(r, "ctrl+y", "copy", 5, None);
    push_hint(r, "F", "follow", 5, Some(KeyCommand::ToggleFollow));
    push_hint(r, "M", "density", 5, None);
    push_hint(r, "Z", "focus", 5, None);
    assert(hints_view(r@) =~= start + hints_compact());
}

fn push_comfortable_hints(r: &mut Vec<HintSpec>)
    ensures
        hints_view(final(r)@) == hints_view(old(r)@) + hints_comfortable(),
{
    let ghost start = hints_view(r@);
    push_hint(r, "?", "help", 10, Some(KeyCommand::ToggleHelp));
    push_hint(r, "q", "quit", 9, Some(KeyCommand::Quit));
    push_hint(r, "ctrl+p", "palette", 9, Some(KeyCommand::OpenPalette));
    push_hint(r, "/", "filter", 8, Some(KeyCommand::OpenFilter));
    push_hint(r, "ctrl+f", "search", 8, Some(KeyCommand::OpenSearch));
    push_hint(r, "1-5", "tabs", 8, Some(KeyCommand::SwitchTabOverview));
    push_hint(r, "j/k", "sel", 7, Some(KeyCommand::MoveSelectionNext));
    push_hint(r, "E", "export", 7, Some(KeyCommand::ExportCurrentView));
    push_hint(r, "ctrl+e", "evidence", 6, Some(KeyCommand::JumpEvidenceError));
    push_hint(r, "ctrl+b", "return", 6, Some(KeyCommand::JumpEvidenceBack));
    push_hint(r, "ctrl+y", "copy", 6, None);
    push_hint(r, "t/T", "theme", 6, Some(KeyCommand::CycleTheme));
    push_hint(r, "A", "a11y-mode", 6, None);
    push_hint(r, "M", "density", 6, None);
    push_hint(r, "Z", "focus", 6, None);
    push_hint(r, "F", "follow", 5, Some(KeyCommand::ToggleFollow));
    assert(hints_view(r@) =~= start + hints_comfortable());
}

fn push_tab_logs_hints(r: &mut Vec<HintSpec>)
    ensures
        hints_view(final(r)@) == hints_view(old(r)@) + hints_tab_logs(),
{
    let ghost start = hints_view(r@);
    push_hint(r, "v", "source", 6, Some(KeyCommand::LogsCycleSource));
    push_hint(r, "x", "layer", 6, Some(KeyCommand::CycleLogLayer));
    push_hint(r, "u/d", "scroll", 5, Some(KeyCommand::ScrollLogsDown));
    push_hint(r, "R", "regex", 6, None);
    assert(hints_view(r@) =~= start + hints_tab_logs());
}

fn push_tab_runs_hints(r: &mut Vec<HintSpec>)
    ensures
        hints_view(final(r)@) == hints_view(old(r)@) + hints_tab_runs(),
{
    let ghost start = hints_view(r@);
    push_hint(r, "x", "layer", 6, Some(KeyCommand::CycleLogLayer));
    push_hint(r, ",/.", "run", 6, Some(KeyCommand::RunSelectionNext));
    push_hint(r, "u/d", "scroll", 5, Some(KeyCommand::ScrollLogsDown));
    push_hint(r, "R", "regex", 6, None);
    assert(hints_view(r@) =~= start + hints_tab_runs());
}

fn push_tab_multilogs_hints(r: &mut Vec<HintSpec>)
    ensures
        hints_view(final(r)@) == hints_view(old(r)@) + hints_tab_multilogs(),
{
    let ghost start = hints_view(r@);
    push_hint(r, "m", "layout", 7, Some(KeyCommand::MultiCycleLayout));
    push_hint(r, "g/G", "pages", 6, Some(KeyCommand::MultiPageNext));
    push_hint(r, ",/.", "page", 6, Some(KeyCommand::MultiPageNext));
    push_hint(r, "x", "layer", 6, Some(KeyCommand::CycleLogLayer));
    push_hint(r, "C", "compare", 7, None);
    assert(hints_view(r@) =~= start + hints_tab_multilogs());
}

fn push_tab_inbox_hints(r: &mut Vec<HintSpec>)
    ensures
        hints_view(final(r)@) == hints_view(old(r)@) + hints_tab_inbox(),
{
    let ghost start = hints_view(r@);
    push_hint(r, "f", "inbox-filter", 7, None);
    push_hint(r, "a", "ack", 7, None);
    push_hint(r, "h", "handoff", 7, None);
    push_hint(r, "o/O", "claim", 6, None);
    assert(hints_view(r@) =~= start + hints_tab_inbox());
}

/// The hints offered: deep focus has its own short list, then the compact
/// and the comfortable densities; the log, runs, matrix and inbox tabs add
/// their own keys.
pub open spec fn footer_hints_spec(focus: FocusMode, density: DensityMode, tab: MainTab) -> Seq<HintModel> {
    (if focus == FocusMode::DeepDebug {
        hints_deep()
    } else if density == DensityMode::Compact {
        hints_compact()
    } else {
        hints_comfortable()
    }) + match tab {
        MainTab::Logs => hints_tab_logs(),
        MainTab::Runs => hints_tab_runs(),
        MainTab::MultiLogs => hints_tab_multilogs(),
        MainTab::Inbox => hints_tab_inbox(),
        MainTab::Overview => Seq::empty(),
    }
}

pub fn footer_hints(focus: FocusMode, density: DensityMode, tab: MainTab) -> (r: Vec<HintSpec>)
    ensures
        hints_view(r@) == footer_hints_spec(focus, density, tab),
{
    let mut r: Vec<HintSpec> = Vec::new();
    assert(hints_view(r@) =~= Seq::<HintModel>::empty());
    if focus == FocusMode::DeepDebug {
        push_deep_hints(&mut r);
    } else if density == DensityMode::Compact {
        push_compact_hints(&mut r);
    } else {
        push_comfortable_hints(&mut r);
    }
    let ghost base = hints_view(r@);
    match tab {
        MainTab::Logs => push_tab_logs_hints(&mut r),
        MainTab::Runs => push_tab_runs_hints(&mut r),
        MainTab::MultiLogs => push_tab_multilogs_hints(&mut r),
        MainTab::Inbox => push_tab_inbox_hints(&mut r),
        MainTab::Overview => {
            assert(hints_view(r@) =~= base + Seq::<HintModel>::empty());
        },
    }
    r
}

/// How many hints the footer shows at most: 6 in deep focus, 7 when
/// compact, 8 otherwise.
pub fn footer_hint_limit(focus: FocusMode, density: DensityMode) -> (r: usize)
    ensures
        r == (if focus == FocusMode::DeepDebug {
            6usize
        } else if density == DensityMode::Compact {
            7usize
        } else {
            8usize
        }),
{
    if focus == FocusMode::DeepDebug {
        6
    } else if density == DensityMode::Compact {
        7
    } else {
        8
    }
}

} // verus!
