//! The help screen and the first-run hints of each tab.
use vstd::prelude::*;

use crate::app::MainTab;
use crate::inbox_pane::first_rows;
use crate::markdown::trim_to_width;
use crate::text::{concat, copy_string, lower, lowercase, sv, take_upto};

verus! {

// ---------------------------------------------------------------------------
// Help
// ---------------------------------------------------------------------------

/// The title part of the key reference.
pub open spec fn help_title() -> Seq<Seq<char>> {
    seq![
        "=== Forge Loop TUI Help ==="@,
        ""@
    ]
}
/// The navigation part of the key reference.
pub open spec fn help_navigation() -> Seq<Seq<char>> {
    seq![
        "Navigation:"@,
        "  1/2/3/4/5 switch tabs (Overview/Logs/Runs/MultiLogs/Inbox)"@,
        "  ]/[       cycle tabs"@,
        "  b         backtrack last deep-link jump"@,
        "  Ctrl+O    activate primary link (run/loop/url fallback)"@,
        "  j/k       move loop selection"@,
        "  ,/.       move run selection / multi page"@,
        ""@
    ]
}
/// The actions part of the key reference.
pub open spec fn help_actions() -> Seq<Seq<char>> {
    seq![
        "Actions:"@,
        "  S         stop selected loop"@,
        "  K         kill selected loop"@,
        "  D         delete selected loop"@,
        "  r         resume selected loop"@,
        "  n         new loop wizard"@,
        "  R         regex log search (logs/runs; j/k jump matches)"@,
        "  confirm rail: tab/left/right choose action, enter selects (safe default=cancel)"@,
        "  high-risk confirm (kill/force-delete): type reason (12+ chars)"@,
        "  E         export current view as text/html/svg"@,
        ""@
    ]
}
/// The palette part of the key reference.
pub open spec fn help_palette() -> Seq<Seq<char>> {
    seq![
        "Command Palette:"@,
        "  Ctrl+P    open command palette"@,
        "  type      fuzzy search action registry"@,
        "  tab/j/k   move result selection"@,
        "  enter     run selected action"@,
        ""@
    ]
}
/// The logs part of the key reference.
pub open spec fn help_logs() -> Seq<Seq<char>> {
    seq![
        "Logs:"@,
        "  v         cycle log source"@,
        "  x         cycle log layer"@,
        "  u/d       scroll logs"@,
        "  l         expand logs fullscreen"@,
        ""@
    ]
}
/// The multi logs part of the key reference.
pub open spec fn help_multi_logs() -> Seq<Seq<char>> {
    seq![
        "Multi Logs:"@,
        "  m         cycle layout"@,
        "  C         toggle side-by-side compare mode"@,
        "  u/d       shared compare scroll (when compare enabled)"@,
        "  space     toggle pin"@,
        "  c         clear pinned"@,
        "  ,/.       page left/right"@,
        "  g/G       first/last page"@,
        ""@
    ]
}
/// The inbox part of the key reference.
pub open spec fn help_inbox() -> Seq<Seq<char>> {
    seq![
        "Inbox:"@,
        "  f         cycle inbox filter (all/unread/ack-required)"@,
        "  enter     mark selected thread read"@,
        "  a         ack latest pending message in thread"@,
        "  h         generate handoff snapshot package"@,
        "  r         quick reply shortcut (thread + reply-to id)"@,
        "  o         next claim conflict"@,
        "  O         show conflict resolution hint"@,
        ""@
    ]
}
/// The global part of the key reference.
pub open spec fn help_global() -> Seq<Seq<char>> {
    seq![
        "Global:"@,
        "  ?         toggle help"@,
        "  q         quit"@,
        "  t         cycle all themes"@,
        "  T         quick cycle accessibility presets"@,
        "  tab/shift+tab focus next/prev pane (wrap)"@,
        "  left/right   directional pane focus traversal"@,
        "  A         cycle accessibility quick modes (contrast/typography/motion)"@,
        "  z         zen mode (focus right pane)"@,
        "  Z         deep focus mode (distraction-minimized)"@,
        "  M         cycle density (comfortable/compact)"@,
        "  i         dismiss first-run contextual hints for current tab"@,
        "  I         recall first-run contextual hints for current tab"@,
        "  /         filter mode"@,
        "  Ctrl+E/W/A jump latest ERROR/WARN/ACK evidence"@,
        "  Ctrl+B    return to sticky evidence source"@,
        "  Ctrl+Y    copy context (run id/log line/thread content)"@,
        ""@
    ]
}
/// The key reference the help screen starts with.
pub open spec fn help_reference() -> Seq<Seq<char>> {
    help_title()
        + help_navigation()
        + help_actions()
        + help_palette()
        + help_logs()
        + help_multi_logs()
        + help_inbox()
        + help_global()
}

fn push_row(rows: &mut Vec<String>, row: String)
    ensures
        sv(final(rows)@) == sv(old(rows)@).push(row@),
{
    rows.push(row);
    assert(sv(rows@) =~= sv(old(rows)@).push(row@));
}

fn help_title_lines(r: &mut Vec<String>)
    ensures
        sv(final(r)@) == sv(old(r)@) + help_title(),
{
    let ghost start = sv(r@);
    push_row(r, copy_string("=== Forge Loop TUI Help ==="));
    push_row(r, copy_string(""));
    assert(sv(r@) =~= start + help_title());
}

fn help_navigation_lines(r: &mut Vec<String>)
    ensures
        sv(final(r)@) == sv(old(r)@) + help_navigation(),
{
    let ghost start = sv(r@);
    push_row(r, copy_string("Navigation:"));
    push_row(r, copy_string("  1/2/3/4/5 switch tabs (Overview/Logs/Runs/MultiLogs/Inbox)"));
    push_row(r, copy_string("  ]/[       cycle tabs"));
    push_row(r, copy_string("  b         backtrack last deep-link jump"));
    push_row(r, copy_string("  Ctrl+O    activate primary link (run/loop/url fallback)"));
    push_row(r, copy_string("  j/k       move loop selection"));
    push_row(r, copy_string("  ,/.       move run selection / multi page"));
    push_row(r, copy_string(""));
    assert(sv(r@) =~= start + help_navigation());
}

fn help_actions_lines(r: &mut Vec<String>)
    ensures
        sv(final(r)@) == sv(old(r)@) + help_actions(),
{
    let ghost start = sv(r@);
    push_row(r, copy_string("Actions:"));
    push_row(r, copy_string("  S         stop selected loop"));
    push_row(r, copy_string("  K         kill selected loop"));
    push_row(r, copy_string("  D         delete selected loop"));
    push_row(r, copy_string("  r         resume selected loop"));
    push_row(r, copy_string("  n         new loop wizard"));
    push_row(r, copy_string("  R         regex log search (logs/runs; j/k jump matches)"));
    push_row(r, copy_string("  confirm rail: tab/left/right choose action, enter selects (safe default=cancel)"));
    push_row(r, copy_string("  high-risk confirm (kill/force-delete): type reason (12+ chars)"));
    push_row(r, copy_string("  E         export current view as text/html/svg"));
    push_row(r, copy_string(""));
    assert(sv(r@) =~= start + help_actions());
}

fn help_palette_lines(r: &mut Vec<String>)
    ensures
        sv(final(r)@) == sv(old(r)@) + help_palette(),
{
    let ghost start = sv(r@);
    push_row(r, copy_string("Command Palette:"));
    push_row(r, copy_string("  Ctrl+P    open command palette"));
    push_row(r, copy_string("  type      fuzzy search action registry"));
    push_row(r, copy_string("  tab/j/k   move result selection"));
    push_row(r, copy_string("  enter     run selected action"));
    push_row(r, copy_string(""));
    assert(sv(r@) =~= start + help_palette());
}

fn help_logs_lines(r: &mut Vec<String>)
    ensures
        sv(final(r)@) == sv(old(r)@) + help_logs(),
{
    let ghost start = sv(r@);
    push_row(r, copy_string("Logs:"));
    push_row(r, copy_string("  v         cycle log source"));
    push_row(r, copy_string("  x         cycle log layer"));
    push_row(r, copy_string("  u/d       scroll logs"));
    push_row(r, copy_string("  l         expand logs fullscreen"));
    push_row(r, copy_string(""));
    assert(sv(r@) =~= start + help_logs());
}

fn help_multi_logs_lines(r: &mut Vec<String>)
    ensures
        sv(final(r)@) == sv(old(r)@) + help_multi_logs(),
{
    let ghost start = sv(r@);
    push_row(r, copy_string("Multi Logs:"));
    push_row(r, copy_string("  m         cycle layout"));
    push_row(r, copy_string("  C         toggle side-by-side compare mode"));
    push_row(r, copy_string("  u/d       shared compare scroll (when compare enabled)"));
    push_row(r, copy_string("  space     toggle pin"));
    push_row(r, copy_string("  c         clear pinned"));
    push_row(r, copy_string("  ,/.       page left/right"));
    push_row(r, copy_string("  g/G       first/last page"));
    push_row(r, copy_string(""));
    assert(sv(r@) =~= start + help_multi_logs());
}

fn help_inbox_lines(r: &mut Vec<String>)
    ensures
        sv(final(r)@) == sv(old(r)@) + help_inbox(),
{
    let ghost start = sv(r@);
    push_row(r, copy_string("Inbox:"));
    push_row(r, copy_string("  f         cycle inbox filter (all/unread/ack-required)"));
    push_row(r, copy_string("  enter     mark selected thread read"));
    push_row(r, copy_string("  a         ack latest pending message in thread"));
    push_row(r, copy_string("  h         generate handoff snapshot package"));
    push_row(r, copy_string("  r         quick reply shortcut (thread + reply-to id)"));
    push_row(r, copy_string("  o         next claim conflict"));
    push_row(r, copy_string("  O         show conflict resolution hint"));
    push_row(r, copy_string(""));
    assert(sv(r@) =~= start + help_inbox());
}

fn help_global_lines(r: &mut Vec<String>)
    ensures
        sv(final(r)@) == sv(old(r)@) + help_global(),
{
    let ghost start = sv(r@);
    push_row(r, copy_string("Global:"));
    push_row(r, copy_string("  ?         toggle help"));
    push_row(r, copy_string("  q         quit"));
    push_row(r, copy_string("  t         cycle all themes"));
    push_row(r, copy_string("  T         quick cycle accessibility presets"));
    push_row(r, copy_string("  tab/shift+tab focus next/prev pane (wrap)"));
    push_row(r, copy_string("  left/right   directional pane focus traversal"));
    push_row(r, copy_string("  A         cycle accessibility quick modes (contrast/typography/motion)"));
    push_row(r, copy_string("  z         zen mode (focus right pane)"));
    push_row(r, copy_string("  Z         deep focus mode (distraction-minimized)"));
    push_row(r, copy_string("  M         cycle density (comfortable/compact)"));
    push_row(r, copy_string("  i         dismiss first-run contextual hints for current tab"));
    push_row(r, copy_string("  I         recall first-run contextual hints for current tab"));
    push_row(r, copy_string("  /         filter mode"));
    push_row(r, copy_string("  Ctrl+E/W/A jump latest ERROR/WARN/ACK evidence"));
    push_row(r, copy_string("  Ctrl+B    return to sticky evidence source"));
    push_row(r, copy_string("  Ctrl+Y    copy context (run id/log line/thread content)"));
    push_row(r, copy_string(""));
    assert(sv(r@) =~= start + help_global());
}

/// The key reference, line by line.
pub fn help_reference_lines() -> (r: Vec<String>)
    ensures
        sv(r@) == help_reference(),
{
    let mut r: Vec<String> = Vec::new();
    assert(sv(r@) =~= Seq::<Seq<char>>::empty());
    help_title_lines(&mut r);
    help_navigation_lines(&mut r);
    help_actions_lines(&mut r);
    help_palette_lines(&mut r);
    help_logs_lines(&mut r);
    help_multi_logs_lines(&mut r);
    help_inbox_lines(&mut r);
    help_global_lines(&mut r);
    assert(sv(r@) =~= help_reference());
    r
}

/// Each line cut to `w` characters.
pub open spec fn cut_rows(ls: Seq<Seq<char>>, w: int) -> Seq<Seq<char>> {
    Seq::new(ls.len(), |i: int| take_upto(ls[i], w))
}

/// The help screen `width` columns wide and `height` rows high: the key
/// reference followed by the keymap's diagnostics, as many lines as fit,
/// each cut to the width.
pub fn help_screen_lines(diagnostics: &Vec<String>, width: usize, height: usize) -> (r: Vec<String>)
    ensures
        sv(r@) == first_rows(cut_rows(help_reference() + sv(diagnostics@), width as int), height as int),
{
    let mut all = help_reference_lines();
    let mut i: usize = 0;
    let ghost base = sv(all@);
    while i < diagnostics.len()
        invariant
            i <= diagnostics.len(),
            sv(all@) == base + sv(diagnostics@).take(i as int),
        decreases diagnostics.len() - i,
    {
        push_row(&mut all, copy_string(diagnostics[i].as_str()));
        assert(sv(diagnostics@).take(i + 1) =~= sv(diagnostics@).take(i as int).push(diagnostics@[i as int]@));
        i += 1;
    }
    assert(sv(diagnostics@).take(i as int) =~= sv(diagnostics@));
    let ghost lines = sv(all@);
    let mut r: Vec<String> = Vec::new();
    let mut k: usize = 0;
    while k < all.len() && k < height
        invariant
            k <= all.len(),
            k <= height,
            lines == sv(all@),
            sv(r@) == cut_rows(lines, width as int).take(k as int),
        decreases all.len() - k,
    {
        push_row(&mut r, trim_to_width(all[k].as_str(), width));
        assert(cut_rows(lines, width as int).take(k + 1) =~= cut_rows(lines, width as int).take(k as int).push(
            cut_rows(lines, width as int)[k as int],
        ));
        k += 1;
    }
    assert(sv(r@) =~= first_rows(cut_rows(lines, width as int), height as int));
    r
}

// ---------------------------------------------------------------------------
// First-run hints
// ---------------------------------------------------------------------------

/// How a hint line is drawn.
#[derive(Debug, Clone, Copy, PartialEq, Eq, Structural)]
pub enum HintRole {
    Accent,
    Primary,
    Muted,
}

/// The two hints of each tab: its keys and its workflow.
pub open spec fn tab_hints(tab: MainTab) -> (Seq<char>, Seq<char>) {
    match tab {
        MainTab::Overview => ("overview: j/k select loop, 2 jump logs, n open wizard, ctrl+p command palette"@, "overview workflow: inspect state here, then pivot to runs/logs for root-cause"@),
        MainTab::Logs => ("logs: v cycle source, x cycle layer, u/d scroll, l expand pane"@, "logs workflow: pick run with ,/. then inspect raw/events/errors/tools/diff"@),
        MainTab::Runs => ("runs: ,/. select run, x layer, u/d scroll output, l expand pane"@, "runs workflow: compare recent exits, then drill into run output window"@),
        MainTab::MultiLogs => ("multi logs: m layout, C compare mode, u/d sync scroll, g/G first-last page"@, "multi workflow: pin loops with space, compare lanes side-by-side, clear with c"@),
        MainTab::Inbox => ("inbox: f filter, enter mark read, a ack, h handoff snapshot, r quick reply"@, "inbox workflow: resolve claim conflicts with o/O, then post closure note"@),
    }
}

fn tab_hint_text(tab: MainTab) -> (r: (&'static str, &'static str))
    ensures
        r.0@ == tab_hints(tab).0,
        r.1@ == tab_hints(tab).1,
{
    match tab {
        MainTab::Overview => ("overview: j/k select loop, 2 jump logs, n open wizard, ctrl+p command palette", "overview workflow: inspect state here, then pivot to runs/logs for root-cause"),
        MainTab::Logs => ("logs: v cycle source, x cycle layer, u/d scroll, l expand pane", "logs workflow: pick run with ,/. then inspect raw/events/errors/tools/diff"),
        MainTab::Runs => ("runs: ,/. select run, x layer, u/d scroll output, l expand pane", "runs workflow: compare recent exits, then drill into run output window"),
        MainTab::MultiLogs => ("multi logs: m layout, C compare mode, u/d sync scroll, g/G first-last page", "multi workflow: pin loops with space, compare lanes side-by-side, clear with c"),
        MainTab::Inbox => ("inbox: f filter, enter mark read, a ack, h handoff snapshot, r quick reply", "inbox workflow: resolve claim conflicts with o/O, then post closure note"),
    }
}

pub open spec fn hints_footer() -> Seq<char> {
    "i dismiss hints for this tab  |  I recall hints  |  ? full help"@
}

/// The hint lines of `tab`, each cut to `w`: a title naming the tab in
/// lower case, its two hints, and how to dismiss or recall them.
pub open spec fn onboarding_spec(tab: MainTab, w: int) -> Seq<(HintRole, Seq<char>)> {
    seq![
        (HintRole::Accent, take_upto("first-run hints: "@ + lower(tab.label_spec()), w)),
        (HintRole::Primary, take_upto(tab_hints(tab).0, w)),
        (HintRole::Primary, take_upto(tab_hints(tab).1, w)),
        (HintRole::Muted, take_upto(hints_footer(), w)),
    ]
}

pub fn onboarding_lines(tab: MainTab, width: usize) -> (r: Vec<(HintRole, String)>)
    ensures
        r@.len() == 4,
        forall|i: int|
            0 <= i < 4 ==> (#[trigger] r@[i]).0 == onboarding_spec(tab, width as int)[i].0 && r@[i].1@
                == onboarding_spec(tab, width as int)[i].1,
{
    let (a, b) = tab_hint_text(tab);
    let title = concat("first-run hints: ", lowercase(tab.label()).as_str());
    let mut r: Vec<(HintRole, String)> = Vec::new();
    r.push((HintRole::Accent, trim_to_width(title.as_str(), width)));
    r.push((HintRole::Primary, trim_to_width(a, width)));
    r.push((HintRole::Primary, trim_to_width(b, width)));
    r.push((HintRole::Muted, trim_to_width(hints_footer_text(), width)));
    r
}

fn hints_footer_text() -> (r: &'static str)
    ensures
        r@ == hints_footer(),
{
    "i dismiss hints for this tab  |  I recall hints  |  ? full help"
}

/// The tabs whose first-run hints were dismissed.
pub struct OnboardingHints {
    overview: bool,
    logs: bool,
    runs: bool,
    multi_logs: bool,
    inbox: bool,
}

impl OnboardingHints {
    pub closed spec fn flag(&self, tab: MainTab) -> bool {
        match tab {
            MainTab::Overview => self.overview,
            MainTab::Logs => self.logs,
            MainTab::Runs => self.runs,
            MainTab::MultiLogs => self.multi_logs,
            MainTab::Inbox => self.inbox,
        }
    }

    pub open spec fn dismissed_set(&self) -> Set<MainTab> {
        Set::new(|t: MainTab| self.flag(t))
    }

    /// No tab dismissed: every tab shows its hints.
    pub fn new() -> (r: Self)
        ensures
            r.dismissed_set() == Set::<MainTab>::empty(),
    {
        let r = OnboardingHints { overview: false, logs: false, runs: false, multi_logs: false, inbox: false };
        assert(r.dismissed_set() =~= Set::<MainTab>::empty());
        r
    }

    pub fn is_dismissed(&self, tab: MainTab) -> (r: bool)
        ensures
            r == self.dismissed_set().contains(tab),
    {
        match tab {
            MainTab::Overview => self.overview,
            MainTab::Logs => self.logs,
            MainTab::Runs => self.runs,
            MainTab::MultiLogs => self.multi_logs,
            MainTab::Inbox => self.inbox,
        }
    }

    fn set_flag(&mut self, tab: MainTab, v: bool)
        ensures
            final(self).flag(tab) == v,
            forall|t: MainTab| t != tab ==> final(self).flag(t) == old(self).flag(t),
    {
        match tab {
            MainTab::Overview => self.overview = v,
            MainTab::Logs => self.logs = v,
            MainTab::Runs => self.runs = v,
            MainTab::MultiLogs => self.multi_logs = v,
            MainTab::Inbox => self.inbox = v,
        }
    }

    /// The hints of `tab` show in the main view unless dismissed.
    pub fn shown(&self, tab: MainTab, main_view: bool) -> (r: bool)
        ensures
            r == (main_view && !self.dismissed_set().contains(tab)),
    {
        main_view && !self.is_dismissed(tab)
    }

    /// Dismisses the hints of `tab` and says so, or that they already were.
    pub fn dismiss(&mut self, tab: MainTab) -> (r: String)
        ensures
            final(self).dismissed_set() == old(self).dismissed_set().insert(tab),
            r@ == (if old(self).dismissed_set().contains(tab) {
                "Onboarding hints already dismissed for "@ + tab.label_spec() + " (press I to recall)"@
            } else {
                "Onboarding hints dismissed for "@ + tab.label_spec() + " (press I to recall)"@
            }),
    {
        let head = if self.is_dismissed(tab) {
            "Onboarding hints already dismissed for "
        } else {
            "Onboarding hints dismissed for "
        };
        self.set_flag(tab, true);
        assert(self.dismissed_set() =~= old(self).dismissed_set().insert(tab));
        let r = concat(head, tab.label());
        concat(r.as_str(), " (press I to recall)")
    }

    /// Shows the hints of `tab` again and says so, or that they were shown.
    pub fn recall(&mut self, tab: MainTab) -> (r: String)
        ensures
            final(self).dismissed_set() == old(self).dismissed_set().remove(tab),
            r@ == (if old(self).dismissed_set().contains(tab) {
                "Onboarding hints recalled for "@ + tab.label_spec()
            } else {
                "Onboarding hints already visible for "@ + tab.label_spec()
            }),
    {
        let head = if self.is_dismissed(tab) {
            "Onboarding hints recalled for "
        } else {
            "Onboarding hints already visible for "
        };
        self.set_flag(tab, false);
        assert(self.dismissed_set() =~= old(self).dismissed_set().remove(tab));
        concat(head, tab.label())
    }
}

/// Recalling the hints of a tab right after dismissing them leaves the
/// dismissed tabs as they were before, when that tab was not among them;
/// dismissing hides the tab's hints and recalling shows them again.
pub proof fn law_recall_undoes_dismiss(
    before: OnboardingHints,
    dismissed: OnboardingHints,
    recalled: OnboardingHints,
    tab: MainTab,
)
    requires
        !before.dismissed_set().contains(tab),
        dismissed.dismissed_set() == before.dismissed_set().insert(tab),
        recalled.dismissed_set() == dismissed.dismissed_set().remove(tab),
    ensures
        recalled.dismissed_set() == before.dismissed_set(),
        dismissed.dismissed_set().contains(tab),
        !recalled.dismissed_set().contains(tab),
{
    assert(recalled.dismissed_set() =~= before.dismissed_set());
}

} // verus!
