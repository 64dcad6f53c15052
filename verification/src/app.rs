//! State model of the Forge loop shell: tabs, modes, the view-model records
//! the shell shows, the loop-creation wizard, and the small text rules the
//! shell applies to inbox messages and log lines.
use vstd::prelude::*;

use crate::text::{
    char_count, concat, contains, copy_string, first_from, i64_to_string, int_dec, is_ascii_alnum, is_ascii_digit,
    lemma_first_from, lower, lowercase, push_str, split_tokens, starts_with, str_eq, str_starts_with,
    sv, tokens, trim, trim_str, Sep,
};

verus! {

pub const DEFAULT_LOG_LINES: usize = 12;

pub const LOG_SCROLL_STEP: usize = 20;

pub const MAX_LOG_BACKFILL: usize = 8000;

pub const MULTI_HEADER_ROWS: i32 = 2;

pub const MULTI_CELL_GAP: i32 = 1;

pub const MULTI_MIN_CELL_WIDTH: i32 = 38;

pub const MULTI_MIN_CELL_HEIGHT: i32 = 8;

// ---------------------------------------------------------------------------
// Tabs, modes and labels
// ---------------------------------------------------------------------------

/// Main tabs for the Forge operator shell.
#[derive(Debug, Clone, Copy, PartialEq, Eq, Hash, Structural)]
pub enum MainTab {
    Overview,
    Logs,
    Runs,
    MultiLogs,
    Inbox,
}

impl MainTab {
    pub const ORDER: [MainTab; 5] = [
        MainTab::Overview,
        MainTab::Logs,
        MainTab::Runs,
        MainTab::MultiLogs,
        MainTab::Inbox,
    ];

    pub open spec fn label_spec(self) -> Seq<char> {
        match self {
            MainTab::Overview => "Overview"@,
            MainTab::Logs => "Logs"@,
            MainTab::Runs => "Runs"@,
            MainTab::MultiLogs => "Multi Logs"@,
            MainTab::Inbox => "Inbox"@,
        }
    }

    pub open spec fn short_label_spec(self) -> Seq<char> {
        match self {
            MainTab::Overview => "ov"@,
            MainTab::Logs => "logs"@,
            MainTab::Runs => "runs"@,
            MainTab::MultiLogs => "multi"@,
            MainTab::Inbox => "inbox"@,
        }
    }

    pub fn label(self) -> (r: &'static str)
        ensures
            r@ == self.label_spec(),
    {
        match self {
            Self::Overview => "Overview",
            Self::Logs => "Logs",
            Self::Runs => "Runs",
            Self::MultiLogs => "Multi Logs",
            Self::Inbox => "Inbox",
        }
    }

    pub fn short_label(self) -> (r: &'static str)
        ensures
            r@ == self.short_label_spec(),
    {
        match self {
            Self::Overview => "ov",
            Self::Logs => "logs",
            Self::Runs => "runs",
            Self::MultiLogs => "multi",
            Self::Inbox => "inbox",
        }
    }
}

/// The tab a trimmed, lowercased tab id names.
pub open spec fn main_tab_for(n: Seq<char>) -> Option<MainTab> {
    if n == "1"@ || n == "overview"@ || n == "ov"@ {
        Some(MainTab::Overview)
    } else if n == "2"@ || n == "logs"@ || n == "log"@ {
        Some(MainTab::Logs)
    } else if n == "3"@ || n == "runs"@ || n == "run"@ {
        Some(MainTab::Runs)
    } else if n == "4"@ || n == "multi"@ || n == "multi-logs"@ || n == "multilogs"@ || n
        == "multi logs"@ {
        Some(MainTab::MultiLogs)
    } else if n == "5"@ || n == "inbox"@ {
        Some(MainTab::Inbox)
    } else {
        None
    }
}

pub fn parse_main_tab_id(tab_id: &str) -> (r: Option<MainTab>)
    ensures
        r == main_tab_for(lower(trim(tab_id@))),
{
    let t = trim_str(tab_id);
    let normalized = lowercase(t.as_str());
    let n = normalized.as_str();
    if str_eq(n, "1") || str_eq(n, "overview") || str_eq(n, "ov") {
        Some(MainTab::Overview)
    } else if str_eq(n, "2") || str_eq(n, "logs") || str_eq(n, "log") {
        Some(MainTab::Logs)
    } else if str_eq(n, "3") || str_eq(n, "runs") || str_eq(n, "run") {
        Some(MainTab::Runs)
    } else if str_eq(n, "4") || str_eq(n, "multi") || str_eq(n, "multi-logs") || str_eq(
        n,
        "multilogs",
    ) || str_eq(n, "multi logs") {
        Some(MainTab::MultiLogs)
    } else if str_eq(n, "5") || str_eq(n, "inbox") {
        Some(MainTab::Inbox)
    } else {
        None
    }
}

/// UI mode: which interaction mode is active.
#[derive(Debug, Clone, Copy, PartialEq, Eq, Structural)]
pub enum UiMode {
    Main,
    Palette,
    Filter,
    RegexSearch,
    ExpandedLogs,
    Confirm,
    Wizard,
    Help,
    Search,
}

#[derive(Debug, Clone, Copy, PartialEq, Eq, Structural)]
pub enum StatusKind {
    Info,
    Success,
    Error,
}

#[derive(Debug, Clone, PartialEq, Eq)]
pub struct NotificationCenterEntry {
    pub kind: StatusKind,
    pub text: String,
    pub acknowledged: bool,
    pub escalated: bool,
    pub snoozed: bool,
}

#[derive(Debug, Clone, Copy, PartialEq, Eq, Structural)]
pub enum FilterFocus {
    Text,
    Status,
}

#[derive(Debug, Clone, Copy, PartialEq, Eq, Structural)]
pub enum DensityMode {
    Comfortable,
    Compact,
}

impl DensityMode {
    pub const ORDER: [DensityMode; 2] = [DensityMode::Comfortable, DensityMode::Compact];

    pub fn label(self) -> (r: &'static str)
        ensures
            r@ == (match self {
                DensityMode::Comfortable => "comfortable"@,
                DensityMode::Compact => "compact"@,
            }),
    {
        match self {
            Self::Comfortable => "comfortable",
            Self::Compact => "compact",
        }
    }
}

#[derive(Debug, Clone, Copy, PartialEq, Eq, Structural)]
pub enum FocusMode {
    Standard,
    DeepDebug,
}

impl FocusMode {
    pub fn label(self) -> (r: &'static str)
        ensures
            r@ == (match self {
                FocusMode::Standard => "standard"@,
                FocusMode::DeepDebug => "deep"@,
            }),
    {
        match self {
            Self::Standard => "standard",
            Self::DeepDebug => "deep",
        }
    }
}

#[derive(Debug, Clone, Copy, PartialEq, Eq, Structural)]
pub enum AccessibilityQuickMode {
    Contrast,
    Typography,
    MotionReduced,
}

impl AccessibilityQuickMode {
    pub fn label(self) -> (r: &'static str)
        ensures
            r@ == (match self {
                AccessibilityQuickMode::Contrast => "contrast"@,
                AccessibilityQuickMode::Typography => "typography"@,
                AccessibilityQuickMode::MotionReduced => "motion-reduced"@,
            }),
    {
        match self {
            Self::Contrast => "contrast",
            Self::Typography => "typography",
            Self::MotionReduced => "motion-reduced",
        }
    }
}

#[derive(Debug, Clone, Copy, PartialEq, Eq, Structural)]
pub enum ActionType {
    NoAction,
    Stop,
    Kill,
    Delete,
    Resume,
    Create,
}

#[derive(Debug, Clone, Copy, PartialEq, Eq, Structural)]
pub enum LogSource {
    Live,
    LatestRun,
    RunSelection,
}

impl LogSource {
    pub const ORDER: [LogSource; 3] = [LogSource::Live, LogSource::LatestRun, LogSource::RunSelection];

    pub fn label(self) -> (r: &'static str)
        ensures
            r@ == (match self {
                LogSource::Live => "live"@,
                LogSource::LatestRun => "latest-run"@,
                LogSource::RunSelection => "selected-run"@,
            }),
    {
        match self {
            Self::Live => "live",
            Self::LatestRun => "latest-run",
            Self::RunSelection => "selected-run",
        }
    }
}

#[derive(Debug, Clone, Copy, PartialEq, Eq, Structural)]
pub enum LogLayer {
    Raw,
    Events,
    Errors,
    Tools,
    Diff,
}

impl LogLayer {
    pub const ORDER: [LogLayer; 5] = [
        LogLayer::Raw,
        LogLayer::Events,
        LogLayer::Errors,
        LogLayer::Tools,
        LogLayer::Diff,
    ];

    pub fn label(self) -> (r: &'static str)
        ensures
            r@ == (match self {
                LogLayer::Raw => "raw"@,
                LogLayer::Events => "events"@,
                LogLayer::Errors => "errors"@,
                LogLayer::Tools => "tools"@,
                LogLayer::Diff => "diff"@,
            }),
    {
        match self {
            Self::Raw => "raw",
            Self::Events => "events",
            Self::Errors => "errors",
            Self::Tools => "tools",
            Self::Diff => "diff",
        }
    }
}

/// Where a log is read from.
#[derive(Debug, Clone, Copy, PartialEq, Eq, Structural)]
pub enum LogTransportKind {
    LiveLoop,
    LatestRun,
    SelectedRun,
}

/// How a log's content is shown.
#[derive(Debug, Clone, Copy, PartialEq, Eq, Structural)]
pub enum LogContentKind {
    Parsed,
    Diff,
}

/// The route a log view takes: its source and the form of its content.
#[derive(Debug, Clone, Copy, PartialEq, Eq, Structural)]
pub struct LogSourceRoute {
    pub transport: LogTransportKind,
    pub content: LogContentKind,
}

/// Each source reads from its own transport; the diff layer shows a diff
/// and every other layer shows the parsed log.
pub fn current_log_route(source: LogSource, layer: LogLayer) -> (r: LogSourceRoute)
    ensures
        r.transport == (match source {
            LogSource::Live => LogTransportKind::LiveLoop,
            LogSource::LatestRun => LogTransportKind::LatestRun,
            LogSource::RunSelection => LogTransportKind::SelectedRun,
        }),
        r.content == (if layer == LogLayer::Diff {
            LogContentKind::Diff
        } else {
            LogContentKind::Parsed
        }),
{
    let transport = match source {
        LogSource::Live => LogTransportKind::LiveLoop,
        LogSource::LatestRun => LogTransportKind::LatestRun,
        LogSource::RunSelection => LogTransportKind::SelectedRun,
    };
    let content = match layer {
        LogLayer::Diff => LogContentKind::Diff,
        LogLayer::Raw | LogLayer::Events | LogLayer::Errors | LogLayer::Tools => LogContentKind::Parsed,
    };
    LogSourceRoute { transport, content }
}

// ---------------------------------------------------------------------------
// Cycling through fixed orders
// ---------------------------------------------------------------------------

/// The position `delta` steps from `start` in a ring of `n` positions.
fn cycle_index(start: i32, delta: i32, n: i32) -> (r: usize)
    requires
        0 <= start < n,
        start + delta <= i32::MAX,
    ensures
        r as int == (start + delta) % (n as int),
        r < n,
{
    let mut idx: i32 = start + delta;
    while idx < 0
        invariant
            n > 0,
            (idx as int) % (n as int) == (start + delta) % (n as int),
        decreases (if idx < 0 {
            -idx
        } else {
            0
        }),
    {
        assert((idx + n) % (n as int) == (idx as int) % (n as int)) by (nonlinear_arith)
            requires
                n > 0,
        ;
        idx += n;
    }
    assert(idx >= 0);
    (idx % n) as usize
}

impl MainTab {
    pub open spec fn index_spec(self) -> int {
        match self {
            MainTab::Overview => 0,
            MainTab::Logs => 1,
            MainTab::Runs => 2,
            MainTab::MultiLogs => 3,
            MainTab::Inbox => 4,
        }
    }

    pub open spec fn at_spec(i: int) -> MainTab {
        if i == 0 {
            MainTab::Overview
        } else if i == 1 {
            MainTab::Logs
        } else if i == 2 {
            MainTab::Runs
        } else if i == 3 {
            MainTab::MultiLogs
        } else {
            MainTab::Inbox
        }
    }

    /// The tab `delta` steps along the tab order, wrapping around.
    pub fn cycled(self, delta: i32) -> (r: MainTab)
        requires
            self.index_spec() + delta <= i32::MAX,
        ensures
            r == MainTab::at_spec((self.index_spec() + delta) % 5),
    {
        let start: i32 = match self {
            MainTab::Overview => 0,
            MainTab::Logs => 1,
            MainTab::Runs => 2,
            MainTab::MultiLogs => 3,
            MainTab::Inbox => 4,
        };
        Self::ORDER[cycle_index(start, delta, 5)]
    }
}

impl DensityMode {
    pub open spec fn index_spec(self) -> int {
        match self {
            DensityMode::Comfortable => 0,
            DensityMode::Compact => 1,
        }
    }

    /// The density `delta` steps along the density order, wrapping around.
    pub fn cycled(self, delta: i32) -> (r: DensityMode)
        requires
            self.index_spec() + delta <= i32::MAX,
        ensures
            r == (if (self.index_spec() + delta) % 2 == 0 {
                DensityMode::Comfortable
            } else {
                DensityMode::Compact
            }),
    {
        let start: i32 = match self {
            DensityMode::Comfortable => 0,
            DensityMode::Compact => 1,
        };
        Self::ORDER[cycle_index(start, delta, 2)]
    }
}

impl LogSource {
    pub open spec fn index_spec(self) -> int {
        match self {
            LogSource::Live => 0,
            LogSource::LatestRun => 1,
            LogSource::RunSelection => 2,
        }
    }

    pub open spec fn at_spec(i: int) -> LogSource {
        if i == 0 {
            LogSource::Live
        } else if i == 1 {
            LogSource::LatestRun
        } else {
            LogSource::RunSelection
        }
    }

    /// The log source `delta` steps along the source order, wrapping around.
    pub fn cycled(self, delta: i32) -> (r: LogSource)
        requires
            self.index_spec() + delta <= i32::MAX,
        ensures
            r == LogSource::at_spec((self.index_spec() + delta) % 3),
    {
        let start: i32 = match self {
            LogSource::Live => 0,
            LogSource::LatestRun => 1,
            LogSource::RunSelection => 2,
        };
        Self::ORDER[cycle_index(start, delta, 3)]
    }
}

impl LogLayer {
    pub open spec fn index_spec(self) -> int {
        match self {
            LogLayer::Raw => 0,
            LogLayer::Events => 1,
            LogLayer::Errors => 2,
            LogLayer::Tools => 3,
            LogLayer::Diff => 4,
        }
    }

    pub open spec fn at_spec(i: int) -> LogLayer {
        if i == 0 {
            LogLayer::Raw
        } else if i == 1 {
            LogLayer::Events
        } else if i == 2 {
            LogLayer::Errors
        } else if i == 3 {
            LogLayer::Tools
        } else {
            LogLayer::Diff
        }
    }

    /// The log layer `delta` steps along the layer order, wrapping around.
    pub fn cycled(self, delta: i32) -> (r: LogLayer)
        requires
            self.index_spec() + delta <= i32::MAX,
        ensures
            r == LogLayer::at_spec((self.index_spec() + delta) % 5),
    {
        let start: i32 = match self {
            LogLayer::Raw => 0,
            LogLayer::Events => 1,
            LogLayer::Errors => 2,
            LogLayer::Tools => 3,
            LogLayer::Diff => 4,
        };
        Self::ORDER[cycle_index(start, delta, 5)]
    }
}

// ---------------------------------------------------------------------------
// View-model records
// ---------------------------------------------------------------------------

/// Minimal loop data shown in the loop list.
#[derive(Debug, Clone, Default)]
pub struct LoopView {
    pub id: String,
    /// Preferred short id for display; falls back to `id` truncated to 8.
    pub short_id: String,
    pub name: String,
    pub state: String,
    pub repo_path: String,
    pub runs: usize,
    pub queue_depth: usize,
    /// RFC3339 UTC timestamp (already formatted), or `None`.
    pub last_run_at: Option<String>,
    pub interval_seconds: i64,
    pub max_runtime_seconds: i64,
    pub max_iterations: i64,
    pub last_error: String,
    pub profile_name: String,
    pub profile_harness: String,
    pub profile_auth: String,
    pub profile_id: String,
    pub pool_name: String,
    pub pool_id: String,
}

/// A single run entry.
#[derive(Debug, Clone, Default)]
pub struct RunView {
    pub id: String,
    pub status: String,
    pub exit_code: Option<i32>,
    /// Preformatted duration (e.g. "12s", "1m0s", "running", "-").
    pub duration: String,
    pub profile_name: String,
    pub profile_id: String,
    pub harness: String,
    pub auth_kind: String,
    /// RFC3339 UTC timestamp when run started.
    pub started_at: String,
    /// Parsed output tail lines (newest window).
    pub output_lines: Vec<String>,
}

/// Tail view of log content.
#[derive(Debug, Clone, Default)]
pub struct LogTailView {
    pub lines: Vec<String>,
    pub message: String,
}

#[derive(Debug, Clone, Copy, PartialEq, Eq, Structural)]
pub enum InboxFilter {
    All,
    Unread,
    AckRequired,
}

impl InboxFilter {
    pub fn label(self) -> (r: &'static str)
        ensures
            r@ == (match self {
                InboxFilter::All => "all"@,
                InboxFilter::Unread => "unread"@,
                InboxFilter::AckRequired => "ack-required"@,
            }),
    {
        match self {
            Self::All => "all",
            Self::Unread => "unread",
            Self::AckRequired => "ack-required",
        }
    }

    pub open spec fn index_spec(self) -> int {
        match self {
            InboxFilter::All => 0,
            InboxFilter::Unread => 1,
            InboxFilter::AckRequired => 2,
        }
    }

    pub open spec fn at_spec(i: int) -> InboxFilter {
        if i == 0 {
            InboxFilter::All
        } else if i == 1 {
            InboxFilter::Unread
        } else {
            InboxFilter::AckRequired
        }
    }

    /// The filter `delta` steps along the filter order, wrapping around.
    pub fn cycled(self, delta: i32) -> (r: InboxFilter)
        requires
            self.index_spec() + delta <= i32::MAX,
        ensures
            r == InboxFilter::at_spec((self.index_spec() + delta) % 3),
    {
        let start: i32 = match self {
            InboxFilter::All => 0,
            InboxFilter::Unread => 1,
            InboxFilter::AckRequired => 2,
        };
        let k = cycle_index(start, delta, 3);
        if k == 0 {
            InboxFilter::All
        } else if k == 1 {
            InboxFilter::Unread
        } else {
            InboxFilter::AckRequired
        }
    }
}

#[derive(Debug, Clone, Default)]
pub struct InboxMessageView {
    pub id: i64,
    pub thread_id: Option<String>,
    pub from: String,
    pub subject: String,
    pub body: String,
    pub created_at: String,
    pub ack_required: bool,
    pub read_at: Option<String>,
    pub acked_at: Option<String>,
}

#[derive(Debug, Clone, Default)]
pub struct ClaimEventView {
    pub task_id: String,
    pub claimed_by: String,
    pub claimed_at: String,
}

/// A compact hand-off package for an inbox thread.
#[derive(Debug, Clone, Default)]
pub struct HandoffSnapshotView {
    pub thread_key: String,
    pub task_id: String,
    pub loop_id: String,
    pub status: String,
    pub context: String,
    pub links: String,
    pub pending_risks: String,
}

impl HandoffSnapshotView {
    pub fn lines(&self) -> (r: [String; 5])
        ensures
            r[0]@ == "task="@ + self.task_id@ + " loop="@ + self.loop_id@,
            r[1]@ == "status: "@ + self.status@,
            r[2]@ == "context: "@ + self.context@,
            r[3]@ == "links: "@ + self.links@,
            r[4]@ == "pending-risks: "@ + self.pending_risks@,
    {
        let mut first = concat("task=", self.task_id.as_str());
        push_str(&mut first, " loop=");
        push_str(&mut first, self.loop_id.as_str());
        [
            first,
            concat("status: ", self.status.as_str()),
            concat("context: ", self.context.as_str()),
            concat("links: ", self.links.as_str()),
            concat("pending-risks: ", self.pending_risks.as_str()),
        ]
    }
}

/// Which kind of evidence a log line is searched for.
#[derive(Debug, Clone, Copy, PartialEq, Eq, Structural)]
pub enum EvidenceKind {
    Error,
    Warning,
    Ack,
}

impl EvidenceKind {
    pub fn label(self) -> (r: &'static str)
        ensures
            r@ == (match self {
                EvidenceKind::Error => "ERROR"@,
                EvidenceKind::Warning => "WARN"@,
                EvidenceKind::Ack => "ACK"@,
            }),
    {
        match self {
            Self::Error => "ERROR",
            Self::Warning => "WARN",
            Self::Ack => "ACK",
        }
    }
}

#[derive(Debug, Clone)]
pub struct ConfirmState {
    pub action: ActionType,
    pub loop_id: String,
    pub prompt: String,
    pub force_delete: bool,
    pub selected: ConfirmRailSelection,
    pub reason: String,
    pub reason_required: bool,
}

#[derive(Debug, Clone, Copy, PartialEq, Eq, Structural)]
pub enum ConfirmRailSelection {
    Cancel,
    Confirm,
}

#[derive(Debug, Clone, Default)]
pub struct WizardValues {
    pub name: String,
    pub name_prefix: String,
    pub count: String,
    pub pool: String,
    pub profile: String,
    pub prompt: String,
    pub prompt_msg: String,
    pub interval: String,
    pub max_runtime: String,
    pub max_iterations: String,
    pub tags: String,
}

#[derive(Debug, Clone)]
pub struct WizardState {
    pub step: usize,
    pub field: usize,
    pub values: WizardValues,
    pub error: String,
}

impl WizardValues {
    /// Every field empty.
    pub fn empty() -> (r: Self)
        ensures
            r.name@.len() == 0 && r.name_prefix@.len() == 0 && r.count@.len() == 0
                && r.pool@.len() == 0 && r.profile@.len() == 0 && r.prompt@.len() == 0
                && r.prompt_msg@.len() == 0 && r.interval@.len() == 0 && r.max_runtime@.len() == 0
                && r.max_iterations@.len() == 0 && r.tags@.len() == 0,
    {
        WizardValues {
            name: String::new(),
            name_prefix: String::new(),
            count: String::new(),
            pool: String::new(),
            profile: String::new(),
            prompt: String::new(),
            prompt_msg: String::new(),
            interval: String::new(),
            max_runtime: String::new(),
            max_iterations: String::new(),
            tags: String::new(),
        }
    }
}

impl Default for WizardState {
    fn default() -> (r: Self)
        ensures
            r.step == 1 && r.field == 0 && r.error@.len() == 0 && r.values.count@ == "1"@,
            r.values.name@.len() == 0 && r.values.name_prefix@.len() == 0 && r.values.pool@.len()
                == 0 && r.values.profile@.len() == 0 && r.values.prompt@.len() == 0
                && r.values.prompt_msg@.len() == 0 && r.values.interval@.len() == 0
                && r.values.max_runtime@.len() == 0 && r.values.max_iterations@.len() == 0
                && r.values.tags@.len() == 0,
    {
        let mut values = WizardValues::empty();
        values.count = copy_string("1");
        Self { step: 1, field: 0, values, error: String::new() }
    }
}

impl WizardState {
    /// A wizard state pre-populated with configured defaults.
    pub fn with_defaults(interval: &str, prompt: &str, prompt_msg: &str) -> (r: Self)
        ensures
            r.step == 1 && r.field == 0 && r.error@.len() == 0 && r.values.count@ == "1"@,
            r.values.prompt@ == trim(prompt@),
            r.values.prompt_msg@ == trim(prompt_msg@),
            r.values.interval@ == trim(interval@),
            r.values.name@.len() == 0 && r.values.name_prefix@.len() == 0 && r.values.pool@.len()
                == 0 && r.values.profile@.len() == 0 && r.values.max_runtime@.len() == 0
                && r.values.max_iterations@.len() == 0 && r.values.tags@.len() == 0,
    {
        let mut values = WizardValues::empty();
        values.count = copy_string("1");
        values.prompt = trim_str(prompt);
        values.prompt_msg = trim_str(prompt_msg);
        values.interval = trim_str(interval);
        Self { step: 1, field: 0, values, error: String::new() }
    }
}

/// Commands returned from update handlers.
#[derive(Debug, PartialEq, Eq)]
pub enum Command {
    Noop,
    Quit,
    Fetch,
    ExportCurrentView,
    Batch(Vec<Command>),
    RunAction(ActionKind),
}

impl Command {
    pub fn is_none(&self) -> (r: bool)
        ensures
            r == (*self is Noop),
    {
        match self {
            Command::Noop => true,
            _ => false,
        }
    }
}

#[derive(Debug, Clone, PartialEq, Eq)]
pub enum ActionKind {
    Resume { loop_id: String },
    Stop { loop_id: String },
    Kill { loop_id: String },
    Delete { loop_id: String, force: bool },
    Create { wizard: Vec<(String, String)> },
}

/// Result of an action execution.
#[derive(Debug, Clone, PartialEq, Eq)]
pub struct ActionResult {
    pub kind: ActionType,
    pub loop_id: String,
    /// For create actions, the ID of the newly selected loop.
    pub selected_loop_id: String,
    /// Human-readable success message.
    pub message: String,
    /// Error message, if the action failed.
    pub error: Option<String>,
}

/// A tab pane that has no dedicated view yet.
pub struct PlaceholderView {
    pub tab: MainTab,
    pub last_action: String,
}

impl PlaceholderView {
    pub fn new(tab: MainTab) -> (r: Self)
        ensures
            r.tab == tab,
            r.last_action@.len() == 0,
    {
        Self { tab, last_action: String::new() }
    }
}

// ---------------------------------------------------------------------------
// Inbox keys, tokens and evidence
// ---------------------------------------------------------------------------

pub open spec fn mail_id_spec(id: i64) -> Seq<char> {
    "m-"@ + int_dec(id as int)
}

pub fn format_mail_id(id: i64) -> (r: String)
    ensures
        r@ == mail_id_spec(id),
{
    concat("m-", i64_to_string(id).as_str())
}

/// A message's thread: its trimmed thread id when that is not blank,
/// otherwise its own mail id.
pub open spec fn thread_key_spec(m: InboxMessageView) -> Seq<char> {
    match m.thread_id {
        Some(t) => if trim(t@).len() > 0 {
            trim(t@)
        } else {
            mail_id_spec(m.id)
        },
        None => mail_id_spec(m.id),
    }
}

pub fn inbox_thread_key(message: &InboxMessageView) -> (r: String)
    ensures
        r@ == thread_key_spec(*message),
{
    if let Some(thread_id) = &message.thread_id {
        let trimmed = trim_str(thread_id.as_str());
        if !trimmed.as_str().is_empty() {
            return trimmed;
        }
    }
    format_mail_id(message.id)
}

pub open spec fn token_has_prefix(ts: Seq<Seq<char>>, prefix: Seq<char>) -> spec_fn(int) -> bool {
    |i: int| starts_with(lower(ts[i]), lower(prefix))
}

/// The first word of `text` (runs of ASCII letters, digits, `-` and `_`)
/// that starts with `prefix` ignoring ASCII case, lowercased.
pub open spec fn prefixed_token(text: Seq<char>, prefix: Seq<char>) -> Option<Seq<char>> {
    let ts = tokens(text, Sep::NotWordChar);
    match first_from(0, ts.len() as int, token_has_prefix(ts, prefix)) {
        Some(i) => Some(lower(ts[i])),
        None => None,
    }
}

pub fn extract_prefixed_token(text: &str, prefix: &str) -> (r: Option<String>)
    ensures
        match r {
            Some(t) => prefixed_token(text@, prefix@) == Some(t@),
            None => prefixed_token(text@, prefix@) is None,
        },
{
    let normalized_prefix = lowercase(prefix);
    let ts = split_tokens(text, Sep::NotWordChar);
    let ghost tv = sv(ts@);
    let mut i: usize = 0;
    while i < ts.len()
        invariant
            i <= ts.len(),
            tv == sv(ts@),
            tv == tokens(text@, Sep::NotWordChar),
            normalized_prefix@ == lower(prefix@),
            first_from(0, tv.len() as int, token_has_prefix(tv, prefix@)) == first_from(
                i as int,
                tv.len() as int,
                token_has_prefix(tv, prefix@),
            ),
        decreases ts.len() - i,
    {
        let normalized = lowercase(ts[i].as_str());
        assert(tv[i as int] == ts@[i as int]@);
        if str_starts_with(normalized.as_str(), normalized_prefix.as_str()) {
            return Some(normalized);
        }
        i += 1;
    }
    None
}

pub open spec fn token_matches_ci(ts: Seq<Seq<char>>, needle: Seq<char>) -> spec_fn(int) -> bool {
    |i: int| lower(ts[i]) == lower(needle)
}

/// Some maximal run of ASCII letters and digits of `haystack` equals
/// `needle`, ignoring ASCII case.
pub open spec fn has_token_ci(haystack: Seq<char>, needle: Seq<char>) -> bool {
    let ts = tokens(haystack, Sep::NotAlnum);
    exists|i: int| 0 <= i < ts.len() && #[trigger] token_matches_ci(ts, needle)(i)
}

pub fn contains_ascii_token_ci(haystack: &str, needle: &str) -> (r: bool)
    ensures
        r == has_token_ci(haystack@, needle@),
{
    let ts = split_tokens(haystack, Sep::NotAlnum);
    let n = lowercase(needle);
    let ghost tv = sv(ts@);
    let mut i: usize = 0;
    while i < ts.len()
        invariant
            i <= ts.len(),
            tv == sv(ts@),
            tv == tokens(haystack@, Sep::NotAlnum),
            n@ == lower(needle@),
            forall|k: int| 0 <= k < i ==> !#[trigger] token_matches_ci(tv, needle@)(k),
        decreases ts.len() - i,
    {
        let t = lowercase(ts[i].as_str());
        assert(tv[i as int] == ts@[i as int]@);
        if t == n {
            assert(token_matches_ci(tv, needle@)(i as int));
            return true;
        }
        i += 1;
    }
    false
}

/// The words a log line must hold to count as evidence of each kind.
pub open spec fn evidence_matches(kind: EvidenceKind, line: Seq<char>) -> bool {
    let l = lower(line);
    match kind {
        EvidenceKind::Error => has_token_ci(l, "error"@) || has_token_ci(l, "failed"@)
            || has_token_ci(l, "panic"@) || has_token_ci(l, "fatal"@) || has_token_ci(
            l,
            "exception"@,
        ) || has_token_ci(l, "timeout"@) || has_token_ci(l, "oom"@),
        EvidenceKind::Warning => has_token_ci(l, "warn"@) || has_token_ci(l, "warning"@)
            || has_token_ci(l, "retry"@) || has_token_ci(l, "degraded"@) || has_token_ci(
            l,
            "slow"@,
        ),
        EvidenceKind::Ack => has_token_ci(l, "ack"@) || has_token_ci(l, "acknowledge"@)
            || has_token_ci(l, "acknowledged"@),
    }
}

pub fn evidence_line_matches(kind: EvidenceKind, line: &str) -> (r: bool)
    ensures
        r == evidence_matches(kind, line@),
{
    let lower_line = lowercase(line);
    let l = lower_line.as_str();
    match kind {
        EvidenceKind::Error => {
            contains_ascii_token_ci(l, "error") || contains_ascii_token_ci(l, "failed")
                || contains_ascii_token_ci(l, "panic") || contains_ascii_token_ci(l, "fatal")
                || contains_ascii_token_ci(l, "exception") || contains_ascii_token_ci(
                l,
                "timeout",
            ) || contains_ascii_token_ci(l, "oom")
        },
        EvidenceKind::Warning => {
            contains_ascii_token_ci(l, "warn") || contains_ascii_token_ci(l, "warning")
                || contains_ascii_token_ci(l, "retry") || contains_ascii_token_ci(l, "degraded")
                || contains_ascii_token_ci(l, "slow")
        },
        EvidenceKind::Ack => {
            contains_ascii_token_ci(l, "ack") || contains_ascii_token_ci(l, "acknowledge")
                || contains_ascii_token_ci(l, "acknowledged")
        },
    }
}

pub open spec fn failure_priority(label: Seq<char>) -> usize {
    if label == "root-cause"@ {
        0
    } else if label == "root-frame"@ {
        1
    } else if label == "command"@ {
        2
    } else if label == "failure"@ {
        3
    } else if label == "cause-context"@ {
        4
    } else {
        5
    }
}

pub fn failure_explain_label_priority(label: &str) -> (r: usize)
    ensures
        r == failure_priority(label@),
{
    if str_eq(label, "root-cause") {
        0
    } else if str_eq(label, "root-frame") {
        1
    } else if str_eq(label, "command") {
        2
    } else if str_eq(label, "failure") {
        3
    } else if str_eq(label, "cause-context") {
        4
    } else {
        5
    }
}

pub open spec fn failure_display(label: Seq<char>) -> Seq<char> {
    if label == "root-cause"@ {
        "root cause"@
    } else if label == "root-frame"@ {
        "frame"@
    } else if label == "command"@ {
        "command"@
    } else if label == "failure"@ {
        "failure"@
    } else if label == "cause-context"@ {
        "context"@
    } else {
        "cause"@
    }
}

pub fn failure_explain_label_display(label: &str) -> (r: &'static str)
    ensures
        r@ == failure_display(label@),
{
    if str_eq(label, "root-cause") {
        "root cause"
    } else if str_eq(label, "root-frame") {
        "frame"
    } else if str_eq(label, "command") {
        "command"
    } else if str_eq(label, "failure") {
        "failure"
    } else if str_eq(label, "cause-context") {
        "context"
    } else {
        "cause"
    }
}

// ---------------------------------------------------------------------------
// Multi-page pagination
// ---------------------------------------------------------------------------

pub open spec fn page_count(total: int, page_size: int) -> int {
    let ps = if page_size < 1 {
        1
    } else {
        page_size
    };
    if total == 0 {
        1
    } else {
        (total + ps - 1) / ps
    }
}

/// `(page, total_pages, start, end)`: the page clamped to the last page,
/// the number of pages (at least one), and the slice `[start, end)` of the
/// items on that page.
pub open spec fn page_bounds(total: int, page_size: int, page: int) -> (int, int, int, int) {
    let ps = if page_size < 1 {
        1
    } else {
        page_size
    };
    let pages = page_count(total, page_size);
    let p = if page < pages - 1 {
        page
    } else {
        pages - 1
    };
    let start = if p * ps < total {
        p * ps
    } else {
        total
    };
    let end = if start + ps < total {
        start + ps
    } else {
        total
    };
    (p, pages, start, end)
}

pub fn multi_page_bounds(total: usize, page_size: usize, page: usize) -> (r: (
    usize,
    usize,
    usize,
    usize,
))
    requires
        page_bounds(total as int, page_size as int, page as int).2 + (if page_size < 1 {
            1
        } else {
            page_size as int
        }) <= usize::MAX,
    ensures
        (r.0 as int, r.1 as int, r.2 as int, r.3 as int) == page_bounds(
            total as int,
            page_size as int,
            page as int,
        ),
{
    let page_size = if page_size < 1 {
        1
    } else {
        page_size
    };
    proof {
        assert(total / page_size < usize::MAX || total % page_size == 0) by (nonlinear_arith)
            requires
                page_size >= 1,
                total <= usize::MAX,
        ;
        assert(total == 0 || total / page_size >= 1 || total % page_size != 0) by (nonlinear_arith)
            requires
                page_size >= 1,
        ;
    }
    let total_pages = if total == 0 {
        1
    } else {
        total / page_size + if total % page_size != 0 {
            1
        } else {
            0
        }
    };
    proof {
        if total > 0 {
            assert((total + page_size - 1) / (page_size as int) == total / page_size + if total
                % page_size != 0 {
                1int
            } else {
                0int
            }) by (nonlinear_arith)
                requires
                    page_size >= 1,
                    total >= 1,
            ;
        }
    }
    let page = if page < total_pages - 1 {
        page
    } else {
        total_pages - 1
    };
    proof {
        assert(page * page_size <= total + page_size) by (nonlinear_arith)
            requires
                page <= total_pages - 1,
                total_pages == if total == 0 {
                    1
                } else {
                    total / page_size + if total % page_size != 0 {
                        1int
                    } else {
                        0int
                    }
                },
                page_size >= 1,
        ;
    }
    let product: usize = page * page_size;
    let start = if product < total {
        product
    } else {
        total
    };
    let end = if start + page_size < total {
        start + page_size
    } else {
        total
    };
    (page, total_pages, start, end)
}


/// The pages of the multi-log matrix tile the items: the first page starts
/// at the first item, each page ends where the next one starts, the last
/// page ends at the last item, and no page is empty while there are items.
pub proof fn law_pages_tile_items(total: int, page_size: int, p: int)
    requires
        total >= 0,
        0 <= p < page_count(total, page_size),
    ensures
        page_bounds(total, page_size, 0).2 == 0,
        p + 1 < page_count(total, page_size) ==> page_bounds(total, page_size, p).3 == page_bounds(
            total,
            page_size,
            p + 1,
        ).2,
        page_bounds(total, page_size, page_count(total, page_size) - 1).3 == total,
        total > 0 ==> page_bounds(total, page_size, p).2 < page_bounds(total, page_size, p).3,
        page_bounds(total, page_size, p).0 == p,
{
    let ps = if page_size < 1 { 1 } else { page_size };
    let n = page_count(total, page_size);
    if total > 0 {
        assert(n == (total + ps - 1) / ps);
        assert((n - 1) * ps < total && total <= n * ps) by (nonlinear_arith)
            requires
                ps >= 1,
                total >= 1,
                n == (total + ps - 1) / ps,
        ;
        assert(p * ps < total) by (nonlinear_arith)
            requires
                0 <= p <= n - 1,
                (n - 1) * ps < total,
                ps >= 1,
        ;
        assert((p + 1) * ps == p * ps + ps) by (nonlinear_arith);
        if p + 1 < n {
            assert((p + 1) * ps < total) by (nonlinear_arith)
                requires
                    0 <= p + 1 <= n - 1,
                    (n - 1) * ps < total,
                    ps >= 1,
            ;
        }
        assert(n >= 1);
        assert(0 * ps == 0);
        assert((n - 1) * ps + ps == n * ps) by (nonlinear_arith);
    } else {
        assert(n == 1);
        assert(0 * ps == 0);
    }
}


// ---------------------------------------------------------------------------
// The tab rail
// ---------------------------------------------------------------------------

/// The width of a tab's badge ` N:label ` on the rail.
pub open spec fn badge_width(t: MainTab, compact: bool) -> int {
    let n: int = if compact {
        t.short_label_spec().len() as int
    } else {
        t.label_spec().len() as int
    };
    n + 4
}

/// The column where the `k`th badge starts: the badges before it, each
/// followed by two columns of space.
pub open spec fn tab_start(k: int, compact: bool) -> int
    decreases k,
{
    if k <= 0 {
        0
    } else {
        tab_start(k - 1, compact) + badge_width(MainTab::at_spec(k - 1), compact) + 2
    }
}

pub open spec fn badge_covers(column: int, compact: bool) -> spec_fn(int) -> bool {
    |k: int| tab_start(k, compact) <= column < tab_start(k, compact) + badge_width(MainTab::at_spec(k), compact)
}

/// The tab whose badge covers `column` on the rail, if any.
pub open spec fn tab_at_column_spec(column: int, compact: bool) -> Option<MainTab> {
    match first_from(0, 5, badge_covers(column, compact)) {
        Some(k) => Some(MainTab::at_spec(k)),
        None => None,
    }
}

/// The tab under a click at `column` on the tab rail (short labels when
/// `compact`); nothing between or after the badges.
pub fn tab_at_column(column: usize, compact: bool) -> (r: Option<MainTab>)
    ensures
        r == tab_at_column_spec(column as int, compact),
{
    let mut x: usize = 0;
    let mut k: usize = 0;
    while k < 5
        invariant
            k <= 5,
            x == tab_start(k as int, compact),
            x <= 100 * k,
            first_from(0, 5, badge_covers(column as int, compact)) == first_from(
                k as int,
                5,
                badge_covers(column as int, compact),
            ),
        decreases 5 - k,
    {
        proof {
            reveal_strlit("Overview");
            reveal_strlit("Logs");
            reveal_strlit("Runs");
            reveal_strlit("Multi Logs");
            reveal_strlit("Inbox");
            reveal_strlit("ov");
            reveal_strlit("logs");
            reveal_strlit("runs");
            reveal_strlit("multi");
            reveal_strlit("inbox");
        }
        let tab = MainTab::ORDER[k];
        assert(tab == MainTab::at_spec(k as int));
        let label = if compact {
            tab.short_label()
        } else {
            tab.label()
        };
        assert(label@.len() <= 10);
        let width = char_count(label) + 4;
        assert(width == badge_width(tab, compact));
        if column >= x && column < x + width {
            assert(badge_covers(column as int, compact)(k as int));
            return Some(tab);
        }
        assert(!badge_covers(column as int, compact)(k as int));
        x = x + width + 2;
        k += 1;
    }
    None
}

} // verus!
