//! What the shell shows of the loops: the tab, the focused pane, the log
//! view (source, layer, scroll and follow mode) and the run and thread
//! selections, with how each command changes them.
use vstd::prelude::*;

use crate::app::{
    ActionKind, Command, DensityMode, FocusMode, LogLayer, LogSource, MainTab, UiMode, LOG_SCROLL_STEP, MAX_LOG_BACKFILL,
};
use crate::keys::{expanded_intent, expanded_intent_spec, main_intent, main_intent_spec, Intent};
use crate::modes::KeyPress;
use crate::loop_list::{log_scroll_page_size, move_selection_index, moved_index, scroll_logs, scrolled};
use crate::text::{concat, copy_string};

verus! {

/// The shell's view. Follow mode keeps the log on its newest line, so
/// while it is on the log is not scrolled.
#[derive(Debug, Clone, Copy, PartialEq, Eq, Structural)]
pub struct ViewState {
    pub tab: MainTab,
    /// The right pane has the focus.
    pub focus_right: bool,
    pub focus_mode: FocusMode,
    pub density: DensityMode,
    pub log_source: LogSource,
    pub log_layer: LogLayer,
    /// Lines scrolled back from the newest.
    pub log_scroll: usize,
    pub follow: bool,
    /// Lines the selected log had when it was last set.
    pub log_line_count: usize,
    pub selected_run: usize,
    pub inbox_selected_thread: usize,
    /// The matrix compares the logs side by side with a shared scroll.
    pub compare: bool,
    /// The interaction mode, and the mode help returns to.
    pub mode: UiMode,
    pub help_return: UiMode,
    /// The shell is quitting.
    pub quitting: bool,
}

impl ViewState {
    /// Follow mode means the log is not scrolled.
    pub open spec fn wf(&self) -> bool {
        self.follow ==> self.log_scroll == 0
    }

    /// The overview, the left pane focused, the live raw log followed.
    pub fn new() -> (r: Self)
        ensures
            r.wf(),
            r.tab == MainTab::Overview,
            !r.focus_right,
            r.focus_mode == FocusMode::Standard,
            r.density == DensityMode::Comfortable,
            r.log_source == LogSource::Live,
            r.log_layer == LogLayer::Raw,
            r.log_scroll == 0,
            r.follow,
            r.log_line_count == 0,
            r.selected_run == 0,
            r.inbox_selected_thread == 0,
            !r.compare,
            r.mode == UiMode::Main,
            r.help_return == UiMode::Main,
            !r.quitting,
    {
        ViewState {
            tab: MainTab::Overview,
            focus_right: false,
            focus_mode: FocusMode::Standard,
            density: DensityMode::Comfortable,
            log_source: LogSource::Live,
            log_layer: LogLayer::Raw,
            log_scroll: 0,
            follow: true,
            log_line_count: 0,
            selected_run: 0,
            inbox_selected_thread: 0,
            compare: false,
            mode: UiMode::Main,
            help_return: UiMode::Main,
            quitting: false,
        }
    }

    /// The view after showing `tab` with `threads` inbox threads: nothing
    /// changes when it is shown already; otherwise the log returns to its
    /// newest line, the matrix and deep focus give the right pane the
    /// focus, the inbox keeps its selection within the threads, and the
    /// other tabs focus the left pane.
    pub open spec fn tab_shown(&self, tab: MainTab, threads: usize) -> ViewState {
        if self.tab == tab {
            *self
        } else {
            ViewState {
                tab,
                log_scroll: 0,
                follow: true,
                focus_right: if tab == MainTab::MultiLogs || (tab != MainTab::Inbox
                    && self.focus_mode == FocusMode::DeepDebug) {
                    true
                } else if tab == MainTab::Inbox {
                    self.focus_right
                } else {
                    false
                },
                inbox_selected_thread: if tab == MainTab::Inbox {
                    if threads == 0 {
                        0
                    } else if self.inbox_selected_thread < threads - 1 {
                        self.inbox_selected_thread
                    } else {
                        (threads - 1) as usize
                    }
                } else {
                    self.inbox_selected_thread
                },
                ..*self
            }
        }
    }

    pub fn set_tab(&mut self, tab: MainTab, threads: usize)
        requires
            old(self).wf(),
        ensures
            final(self).wf(),
            *final(self) == old(self).tab_shown(tab, threads),
    {
        if self.tab == tab {
            return;
        }
        self.tab = tab;
        self.log_scroll = 0;
        self.follow = true;
        if tab == MainTab::MultiLogs {
            self.focus_right = true;
        } else if tab == MainTab::Inbox {
            if threads == 0 {
                self.inbox_selected_thread = 0;
            } else if self.inbox_selected_thread >= threads - 1 {
                self.inbox_selected_thread = threads - 1;
            }
        } else if self.focus_mode == FocusMode::DeepDebug {
            self.focus_right = true;
        } else {
            self.focus_right = false;
        }
    }

    /// Shows the tab `delta` steps along the tab order.
    pub fn cycle_tab(&mut self, delta: i32, threads: usize)
        requires
            old(self).wf(),
            old(self).tab.index_spec() + delta <= i32::MAX,
        ensures
            final(self).wf(),
            *final(self) == old(self).tab_shown(
                MainTab::at_spec((old(self).tab.index_spec() + delta) % 5),
                threads,
            ),
    {
        let t = self.tab.cycled(delta);
        self.set_tab(t, threads);
    }

    /// Scrolls the log by `delta` lines (positive: towards older lines).
    pub fn scroll_logs(&mut self, delta: i32)
        requires
            old(self).wf(),
            delta > i32::MIN,
        ensures
            final(self).wf(),
            (final(self).log_scroll, final(self).follow) == scrolled(
                old(self).log_scroll,
                old(self).follow,
                delta,
            ),
            *final(self) == (ViewState {
                log_scroll: final(self).log_scroll,
                follow: final(self).follow,
                ..*old(self)
            }),
    {
        let (s, f) = scroll_logs(self.log_scroll, self.follow, delta);
        self.log_scroll = s;
        self.follow = f;
    }

    /// Moves the focus `delta` steps around the two panes: an odd step
    /// moves it to the other pane.
    pub fn traverse_focus(&mut self, delta: i32) -> (status: &'static str)
        requires
            old(self).wf(),
            delta < i32::MAX,
        ensures
            final(self).wf(),
            *final(self) == (ViewState {
                focus_right: if delta % 2 == 0 { old(self).focus_right } else { !old(self).focus_right },
                ..*old(self)
            }),
            status@ == (if final(self).focus_right { "Focus: right pane"@ } else { "Focus: left pane"@ }),
    {
        let current: i32 = if self.focus_right { 1 } else { 0 };
        let next = (current + delta) % 2;
        self.focus_right = next == 1 || next == -1;
        if self.focus_right {
            "Focus: right pane"
        } else {
            "Focus: left pane"
        }
    }

    /// Scrolls to the oldest line kept (the backfill limit); follow mode
    /// ends.
    pub fn scroll_to_top(&mut self)
        requires
            old(self).wf(),
        ensures
            final(self).wf(),
            *final(self) == (ViewState { log_scroll: MAX_LOG_BACKFILL, follow: false, ..*old(self) }),
    {
        self.log_scroll = MAX_LOG_BACKFILL;
        self.follow = false;
    }

    /// Returns to the newest line; follow mode resumes.
    pub fn scroll_to_bottom(&mut self)
        requires
            old(self).wf(),
        ensures
            final(self).wf(),
            *final(self) == (ViewState { log_scroll: 0, follow: true, ..*old(self) }),
    {
        self.log_scroll = 0;
        self.follow = true;
    }

    /// Turns follow mode over; turning it on returns to the newest line.
    pub fn toggle_follow(&mut self) -> (status: &'static str)
        requires
            old(self).wf(),
        ensures
            final(self).wf(),
            final(self).follow == !old(self).follow,
            final(self).log_scroll == (if final(self).follow { 0 } else { old(self).log_scroll }),
            *final(self) == (ViewState {
                follow: final(self).follow,
                log_scroll: final(self).log_scroll,
                ..*old(self)
            }),
            status@ == (if final(self).follow { "Follow: on"@ } else { "Follow: off"@ }),
    {
        self.follow = !self.follow;
        if self.follow {
            self.log_scroll = 0;
            "Follow: on"
        } else {
            "Follow: off"
        }
    }

    /// Takes the log source `delta` steps along the source order; the log
    /// returns to its newest line.
    pub fn cycle_log_source(&mut self, delta: i32) -> (status: String)
        requires
            old(self).wf(),
            old(self).log_source.index_spec() + delta <= i32::MAX,
        ensures
            final(self).wf(),
            *final(self) == (ViewState {
                log_source: LogSource::at_spec((old(self).log_source.index_spec() + delta) % 3),
                log_scroll: 0,
                follow: true,
                ..*old(self)
            }),
            status@ == "Log source: "@ + source_label(final(self).log_source),
    {
        self.log_source = self.log_source.cycled(delta);
        self.log_scroll = 0;
        self.follow = true;
        concat("Log source: ", self.log_source.label())
    }

    /// Takes the log layer `delta` steps along the layer order.
    pub fn cycle_log_layer(&mut self, delta: i32) -> (status: String)
        requires
            old(self).wf(),
            old(self).log_layer.index_spec() + delta <= i32::MAX,
        ensures
            final(self).wf(),
            *final(self) == (ViewState {
                log_layer: LogLayer::at_spec((old(self).log_layer.index_spec() + delta) % 5),
                ..*old(self)
            }),
            status@ == "Log layer: "@ + layer_label(final(self).log_layer),
    {
        self.log_layer = self.log_layer.cycled(delta);
        concat("Log layer: ", self.log_layer.label())
    }

    /// Takes the density `delta` steps along the density order.
    pub fn cycle_density(&mut self, delta: i32) -> (status: String)
        requires
            old(self).wf(),
            old(self).density.index_spec() + delta <= i32::MAX,
        ensures
            final(self).wf(),
            *final(self) == (ViewState {
                density: if (old(self).density.index_spec() + delta) % 2 == 0 {
                    DensityMode::Comfortable
                } else {
                    DensityMode::Compact
                },
                ..*old(self)
            }),
            status@ == "Density: "@ + (match final(self).density {
                DensityMode::Comfortable => "comfortable"@,
                DensityMode::Compact => "compact"@,
            }),
    {
        self.density = self.density.cycled(delta);
        concat("Density: ", self.density.label())
    }

    /// Moves the focus to the other pane.
    pub fn toggle_zen(&mut self) -> (status: &'static str)
        requires
            old(self).wf(),
        ensures
            final(self).wf(),
            *final(self) == (ViewState { focus_right: !old(self).focus_right, ..*old(self) }),
            status@ == (if final(self).focus_right {
                "Zen mode: right pane focus"@
            } else {
                "Zen mode: split view"@
            }),
    {
        self.focus_right = !self.focus_right;
        if self.focus_right {
            "Zen mode: right pane focus"
        } else {
            "Zen mode: split view"
        }
    }

    /// Switches deep focus on or off: on, the right pane takes the focus;
    /// off, the left pane takes it back except on the matrix.
    pub fn toggle_deep_focus(&mut self) -> (status: String)
        requires
            old(self).wf(),
        ensures
            final(self).wf(),
            final(self).focus_mode == (if old(self).focus_mode == FocusMode::Standard {
                FocusMode::DeepDebug
            } else {
                FocusMode::Standard
            }),
            final(self).focus_right == (if final(self).focus_mode == FocusMode::DeepDebug {
                true
            } else if old(self).tab != MainTab::MultiLogs {
                false
            } else {
                old(self).focus_right
            }),
            *final(self) == (ViewState {
                focus_mode: final(self).focus_mode,
                focus_right: final(self).focus_right,
                ..*old(self)
            }),
            status@ == "Focus mode: "@ + (match final(self).focus_mode {
                FocusMode::Standard => "standard"@,
                FocusMode::DeepDebug => "deep"@,
            }),
    {
        self.focus_mode = if self.focus_mode == FocusMode::Standard {
            FocusMode::DeepDebug
        } else {
            FocusMode::Standard
        };
        if self.focus_mode == FocusMode::DeepDebug {
            self.focus_right = true;
        } else if self.tab != MainTab::MultiLogs {
            self.focus_right = false;
        }
        concat("Focus mode: ", self.focus_mode.label())
    }

    /// Switches the matrix's compare mode; the shared scroll starts over.
    pub fn toggle_compare(&mut self) -> (status: &'static str)
        requires
            old(self).wf(),
        ensures
            final(self).wf(),
            *final(self) == (ViewState { compare: !old(self).compare, log_scroll: 0, ..*old(self) }),
            status@ == (if final(self).compare {
                "Multi compare: on (shared scroll + diff hints)"@
            } else {
                "Multi compare: off"@
            }),
    {
        self.compare = !self.compare;
        self.log_scroll = 0;
        if self.compare {
            "Multi compare: on (shared scroll + diff hints)"
        } else {
            "Multi compare: off"
        }
    }

    /// Moves the run selection by `delta` among `runs` runs, clamped; the
    /// log of the newly selected run starts at its newest line.
    pub fn move_run_selection(&mut self, runs: usize, delta: i32)
        requires
            old(self).wf(),
            i32::MIN <= (old(self).selected_run as i32) + delta <= i32::MAX,
            runs == 0 || (runs as i32) - 1 >= i32::MIN,
        ensures
            final(self).wf(),
            *final(self) == (if runs == 0 {
                ViewState { selected_run: 0, ..*old(self) }
            } else {
                ViewState {
                    selected_run: moved_index(runs, old(self).selected_run, delta),
                    log_scroll: 0,
                    ..*old(self)
                }
            }),
    {
        if runs == 0 {
            self.selected_run = 0;
            return;
        }
        self.selected_run = move_selection_index(runs, self.selected_run, delta);
        self.log_scroll = 0;
    }

    /// Moves the thread selection by `delta` among `threads` threads,
    /// clamped.
    pub fn move_inbox_selection(&mut self, threads: usize, delta: i32)
        requires
            old(self).wf(),
            i32::MIN <= (old(self).inbox_selected_thread as i32) + delta <= i32::MAX,
            threads == 0 || (threads as i32) - 1 >= i32::MIN,
        ensures
            final(self).wf(),
            *final(self) == (ViewState {
                inbox_selected_thread: moved_index(threads, old(self).inbox_selected_thread, delta),
                ..*old(self)
            }),
    {
        self.inbox_selected_thread = move_selection_index(threads, self.inbox_selected_thread, delta);
    }

    /// A new run history of `runs` runs: the selection stays within it,
    /// and without runs the log falls back to the live source.
    pub fn set_run_count(&mut self, runs: usize)
        requires
            old(self).wf(),
        ensures
            final(self).wf(),
            *final(self) == (if runs == 0 {
                ViewState { selected_run: 0, log_source: LogSource::Live, ..*old(self) }
            } else if old(self).selected_run >= runs {
                ViewState { selected_run: (runs - 1) as usize, ..*old(self) }
            } else {
                *old(self)
            }),
    {
        if runs == 0 {
            self.selected_run = 0;
            self.log_source = LogSource::Live;
        } else if self.selected_run >= runs {
            self.selected_run = runs - 1;
        }
    }

    /// A new tail of the selected log with `lines` lines: in follow mode
    /// the view stays on the newest line when the count changed.
    pub fn set_log_line_count(&mut self, lines: usize)
        requires
            old(self).wf(),
        ensures
            final(self).wf(),
            *final(self) == (ViewState {
                log_line_count: lines,
                log_scroll: if old(self).follow && lines != old(self).log_line_count {
                    0
                } else {
                    old(self).log_scroll
                },
                ..*old(self)
            }),
    {
        if self.follow && lines != self.log_line_count {
            self.log_scroll = 0;
        }
        self.log_line_count = lines;
    }
}

/// What a command needs from outside the view.
#[derive(Debug, Clone, Copy, PartialEq, Eq, Structural)]
pub struct IntentInputs {
    /// Log lines configured for the log view; a page is half of them plus
    /// a step.
    pub log_lines: usize,
    /// Inbox threads listed, and runs in the selected loop's history.
    pub threads: usize,
    pub runs: usize,
    /// A loop is selected.
    pub has_selection: bool,
    /// An action is still running.
    pub busy: bool,
    /// A backtrack, an evidence jump, the return from one, or a link found
    /// where to go.
    pub found: bool,
}

/// Lines in a page of the log.
pub open spec fn page_lines(log_lines: usize) -> usize {
    if log_lines / 2 + LOG_SCROLL_STEP > usize::MAX {
        usize::MAX
    } else {
        (log_lines / 2 + LOG_SCROLL_STEP) as usize
    }
}

/// The page as a signed scroll step, as the shell converts it.
pub open spec fn page_delta(log_lines: usize) -> i32 {
    page_lines(log_lines) as i32
}

/// The arithmetic of the steps stays within 32-bit signed integers.
pub open spec fn intent_in_range(v: ViewState, intent: Intent, c: IntentInputs) -> bool {
    match intent {
        Intent::CycleTab(d) => v.tab.index_spec() + d <= i32::MAX,
        Intent::TraverseFocus(d) => d < i32::MAX,
        Intent::MoveInboxSelection(d) => i32::MIN <= (v.inbox_selected_thread as i32) + d <= i32::MAX
            && (c.threads == 0 || (c.threads as i32) - 1 >= i32::MIN),
        Intent::MoveRunSelection(d) => i32::MIN <= (v.selected_run as i32) + d <= i32::MAX && (c.runs
            == 0 || (c.runs as i32) - 1 >= i32::MIN),
        Intent::ScrollLogPage { .. } => page_delta(c.log_lines) > i32::MIN,
        _ => true,
    }
}

/// The view after `intent`, following the main and expanded log views key
/// by key. Intents that act on data outside the view (loop selection,
/// pins, the inbox, themes, hints, the navigation history, evidence and
/// links) leave the view as it is, except that moving the loop selection
/// returns the log to its newest line.
pub open spec fn intent_view(v: ViewState, intent: Intent, c: IntentInputs) -> ViewState {
    match intent {
        Intent::Quit => ViewState { quitting: true, ..v },
        Intent::OpenHelp => ViewState { help_return: v.mode, mode: UiMode::Help, ..v },
        Intent::ShowTab(t) => v.tab_shown(t, c.threads),
        Intent::CycleTab(d) => v.tab_shown(MainTab::at_spec((v.tab.index_spec() + d) % 5), c.threads),
        Intent::ToggleZen => ViewState { focus_right: !v.focus_right, ..v },
        Intent::ToggleDeepFocus => {
            let m = if v.focus_mode == FocusMode::Standard {
                FocusMode::DeepDebug
            } else {
                FocusMode::Standard
            };
            ViewState {
                focus_mode: m,
                focus_right: if m == FocusMode::DeepDebug {
                    true
                } else if v.tab != MainTab::MultiLogs {
                    false
                } else {
                    v.focus_right
                },
                ..v
            }
        },
        Intent::CycleDensity => ViewState {
            density: if (v.density.index_spec() + 1) % 2 == 0 {
                DensityMode::Comfortable
            } else {
                DensityMode::Compact
            },
            ..v
        },
        Intent::OpenFilter => ViewState { mode: UiMode::Filter, ..v },
        Intent::TraverseFocus(d) => ViewState {
            focus_right: if d % 2 == 0 { v.focus_right } else { !v.focus_right },
            ..v
        },
        Intent::MoveSelection(_) => ViewState { log_scroll: 0, ..v },
        Intent::MoveInboxSelection(d) => ViewState {
            inbox_selected_thread: moved_index(c.threads, v.inbox_selected_thread, d),
            ..v
        },
        Intent::OpenRegexSearch => ViewState { mode: UiMode::RegexSearch, ..v },
        Intent::ScrollLogPage { older } => {
            let p = page_delta(c.log_lines);
            let (s, f) = scrolled(v.log_scroll, v.follow, if older { p } else { (-p) as i32 });
            ViewState { log_scroll: s, follow: f, ..v }
        },
        Intent::ToggleCompare => ViewState { compare: !v.compare, log_scroll: 0, ..v },
        Intent::CycleLogSource => ViewState {
            log_source: LogSource::at_spec((v.log_source.index_spec() + 1) % 3),
            log_scroll: 0,
            follow: true,
            ..v
        },
        Intent::CycleLogLayer => ViewState {
            log_layer: LogLayer::at_spec((v.log_layer.index_spec() + 1) % 5),
            ..v
        },
        Intent::ToggleFollow => ViewState {
            follow: !v.follow,
            log_scroll: if !v.follow { 0 } else { v.log_scroll },
            ..v
        },
        Intent::MoveRunSelection(d) => if c.runs == 0 {
            ViewState { selected_run: 0, ..v }
        } else {
            ViewState { selected_run: moved_index(c.runs, v.selected_run, d), log_scroll: 0, ..v }
        },
        Intent::ExpandLogs => if c.has_selection {
            ViewState { mode: UiMode::ExpandedLogs, ..v }
        } else {
            v
        },
        Intent::CollapseLogs => ViewState { mode: UiMode::Main, ..v },
        Intent::OpenWizard => ViewState { mode: UiMode::Wizard, ..v },
        Intent::ResumeSelected => if c.has_selection {
            ViewState { mode: UiMode::Main, ..v }
        } else {
            v
        },
        Intent::Confirm(_) => ViewState {
            mode: if c.has_selection { UiMode::Confirm } else { UiMode::Main },
            ..v
        },
        _ => v,
    }
}

/// The command the shell returns for `intent`: quitting, the export, a
/// resume of the selected loop `selected` (unless no loop is selected or
/// an action still runs), a reload of the data when the view or the data
/// changed, and nothing otherwise.
pub open spec fn intent_command(intent: Intent, c: IntentInputs, selected: Seq<char>, r: Command) -> bool {
    match intent {
        Intent::Quit => r is Quit,
        Intent::ExportView => r is ExportCurrentView,
        Intent::ResumeSelected => if c.has_selection && !c.busy {
            r matches Command::RunAction(ActionKind::Resume { loop_id }) && loop_id@ == selected
        } else {
            r is Noop
        },
        Intent::ExpandLogs => if c.has_selection { r is Fetch } else { r is Noop },
        Intent::Backtrack | Intent::JumpToEvidence(_) | Intent::ReturnFromEvidence
        | Intent::OpenPrimaryLink => if c.found { r is Fetch } else { r is Noop },
        Intent::OpenHelp | Intent::CycleTheme | Intent::CycleAccessibilityTheme | Intent::OpenFilter
        | Intent::QuickReply | Intent::OpenRegexSearch | Intent::CycleClaimConflict
        | Intent::ShowClaimHint | Intent::CycleLogLayer | Intent::OpenWizard | Intent::Confirm(_)
        | Intent::Nothing => r is Noop,
        _ => r is Fetch,
    }
}

fn apply_modes_intent(view: &mut ViewState, intent: Intent, c: IntentInputs, selected: &str) -> (r: Command)
    requires
        old(view).wf(),
        intent_in_range(*old(view), intent, c),
        intent is Quit || intent is OpenHelp || intent is OpenFilter || intent is OpenRegexSearch || intent is ExpandLogs || intent is CollapseLogs || intent is OpenWizard || intent is ResumeSelected || intent is Confirm,
    ensures
        final(view).wf(),
        *final(view) == intent_view(*old(view), intent, c),
        intent_command(intent, c, selected@, r),
{
    match intent {
        Intent::Quit => {
            view.quitting = true;
            Command::Quit
        },
        Intent::OpenHelp => {
            view.help_return = view.mode;
            view.mode = UiMode::Help;
            Command::Noop
        },
        Intent::OpenFilter => {
            view.mode = UiMode::Filter;
            Command::Noop
        },
        Intent::OpenRegexSearch => {
            view.mode = UiMode::RegexSearch;
            Command::Noop
        },
        Intent::ExpandLogs => if c.has_selection {
            view.mode = UiMode::ExpandedLogs;
            Command::Fetch
        } else {
            Command::Noop
        },
        Intent::CollapseLogs => {
            view.mode = UiMode::Main;
            Command::Fetch
        },
        Intent::OpenWizard => {
            view.mode = UiMode::Wizard;
            Command::Noop
        },
        Intent::ResumeSelected => if c.has_selection {
            view.mode = UiMode::Main;
            if c.busy {
                Command::Noop
            } else {
                Command::RunAction(ActionKind::Resume { loop_id: copy_string(selected) })
            }
        } else {
            Command::Noop
        },
        Intent::Confirm(_) => {
            view.mode = if c.has_selection { UiMode::Confirm } else { UiMode::Main };
            Command::Noop
        },
        _ => Command::Noop,
    }
}

fn apply_focus_intent(view: &mut ViewState, intent: Intent, c: IntentInputs, selected: &str) -> (r: Command)
    requires
        old(view).wf(),
        intent_in_range(*old(view), intent, c),
        intent is ShowTab || intent is CycleTab || intent is ToggleZen || intent is ToggleDeepFocus || intent is CycleDensity || intent is TraverseFocus,
    ensures
        final(view).wf(),
        *final(view) == intent_view(*old(view), intent, c),
        intent_command(intent, c, selected@, r),
{
    match intent {
        Intent::ShowTab(t) => {
            view.set_tab(t, c.threads);
            Command::Fetch
        },
        Intent::CycleTab(d) => {
            view.cycle_tab(d, c.threads);
            Command::Fetch
        },
        Intent::ToggleZen => {
            view.toggle_zen();
            Command::Fetch
        },
        Intent::ToggleDeepFocus => {
            view.toggle_deep_focus();
            Command::Fetch
        },
        Intent::CycleDensity => {
            view.cycle_density(1);
            Command::Fetch
        },
        Intent::TraverseFocus(d) => {
            view.traverse_focus(d);
            Command::Fetch
        },
        _ => Command::Noop,
    }
}

fn apply_logs_intent(view: &mut ViewState, intent: Intent, c: IntentInputs, selected: &str) -> (r: Command)
    requires
        old(view).wf(),
        intent_in_range(*old(view), intent, c),
        intent is MoveSelection || intent is MoveInboxSelection || intent is ScrollLogPage || intent is ToggleCompare || intent is CycleLogSource || intent is CycleLogLayer || intent is ToggleFollow || intent is MoveRunSelection,
    ensures
        final(view).wf(),
        *final(view) == intent_view(*old(view), intent, c),
        intent_command(intent, c, selected@, r),
{
    match intent {
        Intent::MoveSelection(_) => {
            view.log_scroll = 0;
            Command::Fetch
        },
        Intent::MoveInboxSelection(d) => {
            view.move_inbox_selection(c.threads, d);
            Command::Fetch
        },
        Intent::ScrollLogPage { older } => {
            let p = log_scroll_page_size(c.log_lines) as i32;
            view.scroll_logs(if older { p } else { -p });
            Command::Fetch
        },
        Intent::ToggleCompare => {
            view.toggle_compare();
            Command::Fetch
        },
        Intent::CycleLogSource => {
            view.cycle_log_source(1);
            Command::Fetch
        },
        Intent::CycleLogLayer => {
            view.cycle_log_layer(1);
            Command::Noop
        },
        Intent::ToggleFollow => {
            view.toggle_follow();
            Command::Fetch
        },
        Intent::MoveRunSelection(d) => {
            view.move_run_selection(c.runs, d);
            Command::Fetch
        },
        _ => Command::Noop,
    }
}

/// Carries `intent` out on the view and gives the command the shell
/// returns. `selected` is the id of the selected loop.
pub fn apply_intent(view: &mut ViewState, intent: Intent, c: IntentInputs, selected: &str) -> (r: Command)
    requires
        old(view).wf(),
        intent_in_range(*old(view), intent, c),
    ensures
        final(view).wf(),
        *final(view) == intent_view(*old(view), intent, c),
        intent_command(intent, c, selected@, r),
{
    match intent {
        Intent::Quit | Intent::OpenHelp | Intent::OpenFilter | Intent::OpenRegexSearch
        | Intent::ExpandLogs | Intent::CollapseLogs | Intent::OpenWizard | Intent::ResumeSelected
        | Intent::Confirm(_) => apply_modes_intent(view, intent, c, selected),
        Intent::ShowTab(_) | Intent::CycleTab(_) | Intent::ToggleZen | Intent::ToggleDeepFocus
        | Intent::CycleDensity | Intent::TraverseFocus(_) => apply_focus_intent(view, intent, c, selected),
        Intent::MoveSelection(_) | Intent::MoveInboxSelection(_) | Intent::ScrollLogPage { .. }
        | Intent::ToggleCompare | Intent::CycleLogSource | Intent::CycleLogLayer
        | Intent::ToggleFollow | Intent::MoveRunSelection(_) => apply_logs_intent(view, intent, c, selected),
        Intent::Backtrack | Intent::JumpToEvidence(_) | Intent::ReturnFromEvidence
        | Intent::OpenPrimaryLink => if c.found {
            Command::Fetch
        } else {
            Command::Noop
        },
        Intent::ExportView => Command::ExportCurrentView,
        Intent::CycleTheme | Intent::CycleAccessibilityTheme | Intent::QuickReply
        | Intent::CycleClaimConflict | Intent::ShowClaimHint | Intent::Nothing => Command::Noop,
        _ => Command::Fetch,
    }
}

/// A key in the main view: what it asks (`main_intent`), carried out.
pub fn main_key(view: &mut ViewState, key: KeyPress, c: IntentInputs, selected: &str) -> (r: Command)
    requires
        old(view).wf(),
        intent_in_range(*old(view), main_intent_spec(key, old(view).tab, old(view).compare), c),
    ensures
        final(view).wf(),
        *final(view) == intent_view(*old(view), main_intent_spec(key, old(view).tab, old(view).compare), c),
        intent_command(main_intent_spec(key, old(view).tab, old(view).compare), c, selected@, r),
{
    let intent = main_intent(key, view.tab, view.compare);
    apply_intent(view, intent, c, selected)
}

/// A key in the expanded log view: what it asks (`expanded_intent`),
/// carried out.
pub fn expanded_key(view: &mut ViewState, key: KeyPress, c: IntentInputs, selected: &str) -> (r: Command)
    requires
        old(view).wf(),
        intent_in_range(*old(view), expanded_intent_spec(key, old(view).tab), c),
    ensures
        final(view).wf(),
        *final(view) == intent_view(*old(view), expanded_intent_spec(key, old(view).tab), c),
        intent_command(expanded_intent_spec(key, old(view).tab), c, selected@, r),
{
    let intent = expanded_intent(key, view.tab);
    apply_intent(view, intent, c, selected)
}

pub open spec fn source_label(s: LogSource) -> Seq<char> {
    match s {
        LogSource::Live => "live"@,
        LogSource::LatestRun => "latest-run"@,
        LogSource::RunSelection => "selected-run"@,
    }
}

pub open spec fn layer_label(l: LogLayer) -> Seq<char> {
    match l {
        LogLayer::Raw => "raw"@,
        LogLayer::Events => "events"@,
        LogLayer::Errors => "errors"@,
        LogLayer::Tools => "tools"@,
        LogLayer::Diff => "diff"@,
    }
}

/// Scrolling the log back by some lines and forward by as many returns to
/// where it was, and follow mode is on again exactly when that is the
/// newest line.
pub proof fn law_scroll_round_trip(v: ViewState, d: i32)
    requires
        v.wf(),
        0 < d,
        v.log_scroll + d <= usize::MAX,
    ensures
        ({
            let (s1, f1) = scrolled(v.log_scroll, v.follow, d);
            let (s2, f2) = scrolled(s1, f1, (-d) as i32);
            s2 == v.log_scroll && f2 == (v.log_scroll == 0)
        }),
{
}

/// Showing another tab always brings the log back to its newest line with
/// follow mode on.
pub proof fn law_tab_change_follows(v: ViewState, tab: MainTab, threads: usize)
    requires
        v.tab != tab,
    ensures
        v.tab_shown(tab, threads).follow,
        v.tab_shown(tab, threads).log_scroll == 0,
        v.tab_shown(tab, threads).tab == tab,
{
}

} // verus!
