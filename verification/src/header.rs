//! The header line at the top of the shell.
use vstd::prelude::*;

use crate::app::{DensityMode, FocusMode, MainTab, UiMode};
use crate::inbox::InboxThreadView;
use crate::inbox_pane::unread_sum;
use crate::markdown::trim_to_width;
use crate::text::{concat, dec, push_str, take_upto, u64_to_string};

verus! {

/// What the header shows besides the counts.
#[derive(Debug, Clone)]
pub struct HeaderState {
    pub tab: MainTab,
    pub mode: UiMode,
    pub follow: bool,
    pub density: DensityMode,
    pub focus: FocusMode,
    /// The name of the colour theme.
    pub theme: String,
    /// Loops shown after filtering, and all loops.
    pub shown_loops: usize,
    pub total_loops: usize,
}

pub open spec fn mode_label(m: UiMode) -> Seq<char> {
    match m {
        UiMode::Wizard => "  mode:New Loop Wizard"@,
        UiMode::Palette => "  mode:Command Palette"@,
        UiMode::Filter => "  mode:Filter"@,
        UiMode::Help => "  mode:Help"@,
        UiMode::Confirm => "  mode:Confirm"@,
        UiMode::ExpandedLogs => "  mode:Expanded Logs"@,
        UiMode::RegexSearch => "  mode:Regex Search"@,
        UiMode::Search => "  mode:Search"@,
        UiMode::Main => Seq::empty(),
    }
}

fn mode_text(m: UiMode) -> (r: &'static str)
    ensures
        r@ == mode_label(m),
{
    match m {
        UiMode::Wizard => "  mode:New Loop Wizard",
        UiMode::Palette => "  mode:Command Palette",
        UiMode::Filter => "  mode:Filter",
        UiMode::Help => "  mode:Help",
        UiMode::Confirm => "  mode:Confirm",
        UiMode::ExpandedLogs => "  mode:Expanded Logs",
        UiMode::RegexSearch => "  mode:Regex Search",
        UiMode::Search => "  mode:Search",
        UiMode::Main => {
            proof {
                reveal_strlit("");
            }
            ""
        },
    }
}

/// The follow state shows on the tabs with a log and in the expanded log
/// view.
pub open spec fn follow_label(h: HeaderState) -> Seq<char> {
    if h.tab == MainTab::Logs || h.tab == MainTab::Runs || h.tab == MainTab::MultiLogs || h.mode
        == UiMode::ExpandedLogs {
        if h.follow {
            "  follow:ON"@
        } else {
            "  follow:off"@
        }
    } else {
        Seq::empty()
    }
}

/// The counts: threads and unread messages on the inbox, loops shown out
/// of all loops elsewhere.
pub open spec fn count_label(h: HeaderState, threads: Seq<InboxThreadView>) -> Seq<char> {
    if h.tab == MainTab::Inbox {
        dec(threads.len()) + " threads, "@ + dec(unread_sum(threads) as nat) + " unread"@
    } else {
        dec(h.shown_loops as nat) + "/"@ + dec(h.total_loops as nat) + " loops"@
    }
}

pub open spec fn density_label(d: DensityMode) -> Seq<char> {
    match d {
        DensityMode::Comfortable => "comfortable"@,
        DensityMode::Compact => "compact"@,
    }
}

pub open spec fn focus_label(f: FocusMode) -> Seq<char> {
    match f {
        FocusMode::Standard => "standard"@,
        FocusMode::DeepDebug => "deep"@,
    }
}

pub open spec fn header_spec(h: HeaderState, threads: Seq<InboxThreadView>) -> Seq<char> {
    " Forge Loops  ["@ + h.tab.label_spec() + "]  "@ + count_label(h, threads) + "  theme:"@
        + h.theme@ + "  density:"@ + density_label(h.density) + "  focus:"@ + focus_label(h.focus)
        + mode_label(h.mode) + follow_label(h)
}

fn unread_total(threads: &Vec<InboxThreadView>) -> (r: u64)
    requires
        unread_sum(threads@) <= u64::MAX,
    ensures
        r == unread_sum(threads@),
{
    let mut total: u64 = 0;
    let mut i: usize = 0;
    while i < threads.len()
        invariant
            i <= threads.len(),
            total == unread_sum(threads@.take(i as int)),
            unread_sum(threads@) <= u64::MAX,
        decreases threads.len() - i,
    {
        proof {
            crate::inbox_pane::lemma_sums_grow(threads@, i + 1);
            assert(threads@.take(i + 1).drop_last() =~= threads@.take(i as int));
        }
        total = total + threads[i].unread_count as u64;
        i += 1;
    }
    assert(threads@.take(i as int) =~= threads@);
    total
}

/// The header `width` columns wide.
pub fn header_text(h: &HeaderState, threads: &Vec<InboxThreadView>, width: usize) -> (r: String)
    requires
        unread_sum(threads@) <= u64::MAX,
    ensures
        r@ == take_upto(header_spec(*h, threads@), width as int),
{
    let count = if h.tab == MainTab::Inbox {
        let mut c = u64_to_string(threads.len() as u64);
        push_str(&mut c, " threads, ");
        push_str(&mut c, u64_to_string(unread_total(threads)).as_str());
        push_str(&mut c, " unread");
        c
    } else {
        let mut c = u64_to_string(h.shown_loops as u64);
        push_str(&mut c, "/");
        push_str(&mut c, u64_to_string(h.total_loops as u64).as_str());
        push_str(&mut c, " loops");
        c
    };
    let follow = if h.tab == MainTab::Logs || h.tab == MainTab::Runs || h.tab == MainTab::MultiLogs
        || h.mode == UiMode::ExpandedLogs {
        if h.follow {
            "  follow:ON"
        } else {
            "  follow:off"
        }
    } else {
        proof {
            reveal_strlit("");
        }
        ""
    };
    let mut r = concat(" Forge Loops  [", h.tab.label());
    push_str(&mut r, "]  ");
    push_str(&mut r, count.as_str());
    push_str(&mut r, "  theme:");
    push_str(&mut r, h.theme.as_str());
    push_str(&mut r, "  density:");
    push_str(&mut r, h.density.label());
    push_str(&mut r, "  focus:");
    push_str(&mut r, h.focus.label());
    push_str(&mut r, mode_text(h.mode));
    push_str(&mut r, follow);
    trim_to_width(r.as_str(), width)
}

} // verus!
