//! Where the shell jumps to show the latest evidence of an error, a
//! warning or a pending acknowledgement.
use vstd::prelude::*;

use crate::app::{evidence_line_matches, evidence_matches, EvidenceKind, LoopView, MainTab, RunView};
use crate::inbox::InboxThreadView;
use crate::text::{
    char_count, concat, copy_string, first_from, lemma_first_from, lex_order, order_strings, str_eq,
};

verus! {

/// The last line of `lines` that shows `kind`.
pub open spec fn last_evidence_line(kind: EvidenceKind, lines: Seq<String>) -> Option<int>
    decreases lines.len(),
{
    if lines.len() == 0 {
        None
    } else if evidence_matches(kind, lines.last()@) {
        Some(lines.len() - 1)
    } else {
        last_evidence_line(kind, lines.drop_last())
    }
}

/// The index of the last line that shows `kind`.
pub fn latest_evidence_line(kind: EvidenceKind, lines: &Vec<String>) -> (r: Option<usize>)
    ensures
        match r {
            Some(i) => last_evidence_line(kind, lines@) == Some(i as int),
            None => last_evidence_line(kind, lines@) is None,
        },
{
    let mut t: usize = lines.len();
    assert(lines@.take(t as int) =~= lines@);
    while t > 0
        invariant
            t <= lines.len(),
            last_evidence_line(kind, lines@) == last_evidence_line(kind, lines@.take(t as int)),
        decreases t,
    {
        assert(lines@.take(t as int).drop_last() =~= lines@.take(t - 1));
        assert(lines@.take(t as int).last() == lines@[t - 1]);
        if evidence_line_matches(kind, lines[t - 1].as_str()) {
            return Some(t - 1);
        }
        t -= 1;
    }
    None
}

/// Some line of `lines` shows `kind`.
pub open spec fn any_evidence(kind: EvidenceKind, lines: Seq<String>) -> bool {
    exists|i: int| 0 <= i < lines.len() && evidence_matches(kind, (#[trigger] lines[i])@)
}

/// A run shows `kind` in its status or in a line of its output.
pub open spec fn run_shows(kind: EvidenceKind, r: RunView) -> bool {
    evidence_matches(kind, r.status@) || any_evidence(kind, r.output_lines@)
}

pub open spec fn run_shows_at(kind: EvidenceKind, runs: Seq<RunView>) -> spec_fn(int) -> bool {
    |i: int| run_shows(kind, runs[i])
}

fn any_line_shows(kind: EvidenceKind, lines: &Vec<String>) -> (r: bool)
    ensures
        r == any_evidence(kind, lines@),
{
    let mut i: usize = 0;
    while i < lines.len()
        invariant
            i <= lines.len(),
            forall|k: int| 0 <= k < i ==> !evidence_matches(kind, (#[trigger] lines@[k])@),
        decreases lines.len() - i,
    {
        if evidence_line_matches(kind, lines[i].as_str()) {
            return true;
        }
        i += 1;
    }
    false
}

/// The first run of the history (the newest) that shows `kind`.
pub fn latest_run_with_evidence(kind: EvidenceKind, runs: &Vec<RunView>) -> (r: Option<usize>)
    ensures
        match r {
            Some(i) => first_from(0, runs@.len() as int, run_shows_at(kind, runs@)) == Some(i as int),
            None => first_from(0, runs@.len() as int, run_shows_at(kind, runs@)) is None,
        },
{
    let mut i: usize = 0;
    while i < runs.len()
        invariant
            i <= runs.len(),
            first_from(0, runs@.len() as int, run_shows_at(kind, runs@)) == first_from(
                i as int,
                runs@.len() as int,
                run_shows_at(kind, runs@),
            ),
        decreases runs.len() - i,
    {
        let r = &runs[i];
        if evidence_line_matches(kind, r.status.as_str()) || any_line_shows(kind, &r.output_lines) {
            assert(run_shows_at(kind, runs@)(i as int));
            return Some(i);
        }
        assert(!run_shows_at(kind, runs@)(i as int));
        i += 1;
    }
    None
}

/// A loop shows `kind` in its state or in its last error.
pub open spec fn loop_shows(kind: EvidenceKind, l: LoopView) -> bool {
    evidence_matches(kind, l.state@) || evidence_matches(kind, l.last_error@)
}

/// When a loop last ran, as text; empty when it never ran.
pub open spec fn recency(l: LoopView) -> Seq<char> {
    match l.last_run_at {
        Some(t) => t@,
        None => Seq::empty(),
    }
}

/// Among the first `n` loops, the first of those that show `kind` and ran
/// most recently.
pub open spec fn most_recent_showing(kind: EvidenceKind, loops: Seq<LoopView>, n: int) -> Option<int>
    decreases n,
{
    if n <= 0 {
        None
    } else {
        let prev = most_recent_showing(kind, loops, n - 1);
        let l = loops[n - 1];
        if !loop_shows(kind, l) {
            prev
        } else {
            match prev {
                None => Some(n - 1),
                Some(b) => if lex_order(recency(l), recency(loops[b])) > 0 {
                    Some(n - 1)
                } else {
                    prev
                },
            }
        }
    }
}

proof fn lemma_most_recent_below(kind: EvidenceKind, loops: Seq<LoopView>, n: int)
    requires
        0 <= n <= loops.len(),
    ensures
        most_recent_showing(kind, loops, n) matches Some(b) ==> 0 <= b < n,
    decreases n,
{
    if n > 0 {
        lemma_most_recent_below(kind, loops, n - 1);
    }
}

fn recency_text(l: &LoopView) -> (r: &str)
    ensures
        r@ == recency(*l),
{
    match &l.last_run_at {
        Some(t) => t.as_str(),
        None => {
            proof {
                reveal_strlit("");
            }
            ""
        },
    }
}

/// The loop to show for `kind`: of those that show it in their state or
/// last error, the one that ran most recently (the first such on ties).
pub fn latest_loop_with_evidence(kind: EvidenceKind, loops: &Vec<LoopView>) -> (r: Option<usize>)
    ensures
        match r {
            Some(i) => most_recent_showing(kind, loops@, loops@.len() as int) == Some(i as int),
            None => most_recent_showing(kind, loops@, loops@.len() as int) is None,
        },
{
    let mut best: Option<usize> = None;
    let mut i: usize = 0;
    while i < loops.len()
        invariant
            i <= loops.len(),
            match best {
                Some(b) => most_recent_showing(kind, loops@, i as int) == Some(b as int),
                None => most_recent_showing(kind, loops@, i as int) is None,
            },
        decreases loops.len() - i,
    {
        proof {
            lemma_most_recent_below(kind, loops@, i as int);
        }
        let l = &loops[i];
        if evidence_line_matches(kind, l.state.as_str()) || evidence_line_matches(
            kind,
            l.last_error.as_str(),
        ) {
            match best {
                None => {
                    best = Some(i);
                },
                Some(b) => {
                    if order_strings(recency_text(l), recency_text(&loops[b])) > 0 {
                        best = Some(i);
                    }
                },
            }
        }
        i += 1;
    }
    best
}

pub open spec fn pending_at(threads: Seq<InboxThreadView>) -> spec_fn(int) -> bool {
    |i: int| threads[i].pending_ack_count > 0
}

/// The first listed thread with a message waiting for acknowledgement.
pub fn first_pending_ack_thread(threads: &Vec<InboxThreadView>) -> (r: Option<usize>)
    ensures
        match r {
            Some(i) => first_from(0, threads@.len() as int, pending_at(threads@)) == Some(i as int),
            None => first_from(0, threads@.len() as int, pending_at(threads@)) is None,
        },
{
    let mut i: usize = 0;
    while i < threads.len()
        invariant
            i <= threads.len(),
            first_from(0, threads@.len() as int, pending_at(threads@)) == first_from(
                i as int,
                threads@.len() as int,
                pending_at(threads@),
            ),
        decreases threads.len() - i,
    {
        if threads[i].pending_ack_count > 0 {
            assert(pending_at(threads@)(i as int));
            return Some(i);
        }
        assert(!pending_at(threads@)(i as int));
        i += 1;
    }
    None
}

/// The lines searched first for evidence: the output of the selected run
/// when the runs tab is shown and that run has output, else the tail of
/// the selected loop's log when it has lines.
pub open spec fn source_lines_spec(
    on_runs_tab: bool,
    runs: Seq<RunView>,
    selected_run: int,
    log_lines: Seq<String>,
) -> Option<Seq<String>> {
    if on_runs_tab && 0 <= selected_run < runs.len() && runs[selected_run].output_lines@.len() > 0 {
        Some(runs[selected_run].output_lines@)
    } else if log_lines.len() > 0 {
        Some(log_lines)
    } else {
        None
    }
}

pub fn evidence_source_lines<'a>(
    on_runs_tab: bool,
    runs: &'a Vec<RunView>,
    selected_run: usize,
    log_lines: &'a Vec<String>,
) -> (r: Option<&'a Vec<String>>)
    ensures
        match r {
            Some(ls) => source_lines_spec(on_runs_tab, runs@, selected_run as int, log_lines@)
                == Some(ls@),
            None => source_lines_spec(on_runs_tab, runs@, selected_run as int, log_lines@) is None,
        },
{
    if on_runs_tab && selected_run < runs.len() && runs[selected_run].output_lines.len() > 0 {
        return Some(&runs[selected_run].output_lines);
    }
    if log_lines.len() > 0 {
        return Some(log_lines);
    }
    None
}

/// Where a jump to the latest evidence lands.
#[derive(Debug, Clone, Copy, PartialEq, Eq, Structural)]
pub enum EvidenceJump {
    /// Stay on the log and scroll it so that this many lines stand below
    /// the evidence line.
    LogLine { scroll: usize },
    /// Show the runs tab with this run selected.
    Run(usize),
    /// Show the overview with this loop selected.
    Loop(usize),
    /// Show the inbox with this thread selected.
    Thread(usize),
    /// Nothing shows the evidence.
    NotFound,
}

/// Acknowledgements are looked for in the inbox alone; errors and warnings
/// first in the source lines (the newest line wins), then in the run
/// history, then among the loops.
pub open spec fn evidence_jump_spec(
    kind: EvidenceKind,
    source: Option<Seq<String>>,
    runs: Seq<RunView>,
    loops: Seq<LoopView>,
    threads: Seq<InboxThreadView>,
) -> EvidenceJump {
    if kind == EvidenceKind::Ack {
        match first_from(0, threads.len() as int, pending_at(threads)) {
            Some(i) => EvidenceJump::Thread(i as usize),
            None => EvidenceJump::NotFound,
        }
    } else {
        let line = match source {
            Some(ls) => last_evidence_line(kind, ls),
            None => None,
        };
        match line {
            Some(i) => EvidenceJump::LogLine { scroll: (source.unwrap().len() - i - 1) as usize },
            None => match first_from(0, runs.len() as int, run_shows_at(kind, runs)) {
                Some(r) => EvidenceJump::Run(r as usize),
                None => match most_recent_showing(kind, loops, loops.len() as int) {
                    Some(l) => EvidenceJump::Loop(l as usize),
                    None => EvidenceJump::NotFound,
                },
            },
        }
    }
}

proof fn lemma_last_evidence_below(kind: EvidenceKind, lines: Seq<String>)
    ensures
        last_evidence_line(kind, lines) matches Some(i) ==> 0 <= i < lines.len(),
    decreases lines.len(),
{
    if lines.len() > 0 {
        lemma_last_evidence_below(kind, lines.drop_last());
    }
}

/// Decides where a jump to the latest evidence of `kind` lands.
pub fn evidence_jump(
    kind: EvidenceKind,
    source: Option<&Vec<String>>,
    runs: &Vec<RunView>,
    loops: &Vec<LoopView>,
    threads: &Vec<InboxThreadView>,
) -> (r: EvidenceJump)
    ensures
        r == evidence_jump_spec(
            kind,
            match source {
                Some(ls) => Some(ls@),
                None => None,
            },
            runs@,
            loops@,
            threads@,
        ),
{
    if kind == EvidenceKind::Ack {
        return match first_pending_ack_thread(threads) {
            Some(i) => EvidenceJump::Thread(i),
            None => EvidenceJump::NotFound,
        };
    }
    if let Some(lines) = source {
        if let Some(i) = latest_evidence_line(kind, lines) {
            proof {
                lemma_last_evidence_below(kind, lines@);
            }
            return EvidenceJump::LogLine { scroll: lines.len() - i - 1 };
        }
    }
    if let Some(r) = latest_run_with_evidence(kind, runs) {
        return EvidenceJump::Run(r);
    }
    match latest_loop_with_evidence(kind, loops) {
        Some(l) => EvidenceJump::Loop(l),
        None => EvidenceJump::NotFound,
    }
}

/// The status line after a jump.
pub open spec fn evidence_status_spec(kind: EvidenceKind, jump: EvidenceJump) -> Seq<char> {
    let label = match kind {
        EvidenceKind::Error => "ERROR"@,
        EvidenceKind::Warning => "WARN"@,
        EvidenceKind::Ack => "ACK"@,
    };
    match jump {
        EvidenceJump::LogLine { .. } => "Jumped to latest "@ + label
            + " evidence line (Ctrl+B to return)"@,
        EvidenceJump::Run(_) => "Jumped to latest "@ + label + " run evidence (Ctrl+B to return)"@,
        EvidenceJump::Loop(_) => "Jumped to latest "@ + label
            + " loop evidence (Ctrl+B to return)"@,
        EvidenceJump::Thread(_) => "Jumped to latest ACK evidence (Ctrl+B to return)"@,
        EvidenceJump::NotFound => if kind == EvidenceKind::Ack {
            "No pending ACK evidence found"@
        } else {
            "No "@ + label + " evidence found"@
        },
    }
}

pub fn evidence_status(kind: EvidenceKind, jump: EvidenceJump) -> (r: String)
    ensures
        r@ == evidence_status_spec(kind, jump),
{
    let label = kind.label();
    match jump {
        EvidenceJump::LogLine { .. } => {
            let head = concat("Jumped to latest ", label);
            concat(head.as_str(), " evidence line (Ctrl+B to return)")
        },
        EvidenceJump::Run(_) => {
            let head = concat("Jumped to latest ", label);
            concat(head.as_str(), " run evidence (Ctrl+B to return)")
        },
        EvidenceJump::Loop(_) => {
            let head = concat("Jumped to latest ", label);
            concat(head.as_str(), " loop evidence (Ctrl+B to return)")
        },
        EvidenceJump::Thread(_) => "Jumped to latest ACK evidence (Ctrl+B to return)".to_owned(),
        EvidenceJump::NotFound => if kind == EvidenceKind::Ack {
            "No pending ACK evidence found".to_owned()
        } else {
            let head = concat("No ", label);
            concat(head.as_str(), " evidence found")
        },
    }
}

/// Where the shell stood before its first jump to evidence.
#[derive(Debug, Clone)]
pub struct EvidenceReturnPoint {
    pub tab: MainTab,
    pub selected_id: String,
    pub selected_idx: usize,
    pub selected_run: usize,
    pub log_scroll: usize,
    pub inbox_selected_thread: usize,
    pub focus_right: bool,
    pub multi_page: usize,
}

/// Remembers `point` unless a point is already remembered: a chain of
/// jumps returns to where the first one started.
pub fn stash_return_point(slot: &mut Option<EvidenceReturnPoint>, point: EvidenceReturnPoint)
    ensures
        (*old(slot)) is Some ==> *final(slot) == *old(slot),
        (*old(slot)) is None ==> *final(slot) == Some(point),
{
    if slot.is_none() {
        *slot = Some(point);
    }
}

/// What the shell shows again after a return.
#[derive(Debug, Clone)]
pub struct RestoredView {
    pub tab: MainTab,
    pub focus_right: bool,
    pub multi_page: usize,
    pub selected_idx: usize,
    pub selected_id: String,
    pub selected_run: usize,
    pub inbox_selected_thread: usize,
    pub log_scroll: usize,
    pub follow_mode: bool,
}

pub open spec fn id_at(ids: Seq<String>, id: Seq<char>) -> spec_fn(int) -> bool {
    |i: int| ids[i]@ == id
}

/// The index clamped to the last of `count` items; 0 when there are none.
pub open spec fn clamp_to(i: int, count: int) -> int {
    if count <= 0 {
        0
    } else if i < count - 1 {
        i
    } else {
        count - 1
    }
}

/// The loop selected after a return: the remembered loop where it is still
/// listed, else the remembered position clamped to the list.
pub open spec fn restored_index(point: EvidenceReturnPoint, ids: Seq<String>) -> int {
    if ids.len() == 0 {
        0
    } else if point.selected_id@.len() > 0 && first_from(0, ids.len() as int, id_at(ids, point.selected_id@)) is Some {
        first_from(0, ids.len() as int, id_at(ids, point.selected_id@)).unwrap()
    } else {
        clamp_to(point.selected_idx as int, ids.len() as int)
    }
}

pub open spec fn restored_spec(
    point: EvidenceReturnPoint,
    ids: Seq<String>,
    run_count: int,
    thread_count: int,
    r: RestoredView,
) -> bool {
    &&& r.tab == point.tab
    &&& r.focus_right == point.focus_right
    &&& r.multi_page == point.multi_page
    &&& r.selected_idx == restored_index(point, ids)
    &&& r.selected_id@ == (if ids.len() == 0 {
        Seq::<char>::empty()
    } else {
        ids[restored_index(point, ids)]@
    })
    &&& r.selected_run == clamp_to(point.selected_run as int, run_count)
    &&& r.inbox_selected_thread == clamp_to(point.inbox_selected_thread as int, thread_count)
    &&& r.log_scroll == point.log_scroll
    &&& r.follow_mode == (point.log_scroll == 0)
}

fn clamp_index(i: usize, count: usize) -> (r: usize)
    ensures
        r == clamp_to(i as int, count as int),
{
    if count == 0 {
        0
    } else if i < count - 1 {
        i
    } else {
        count - 1
    }
}

fn position_of(ids: &Vec<String>, id: &str) -> (r: Option<usize>)
    ensures
        match r {
            Some(i) => first_from(0, ids@.len() as int, id_at(ids@, id@)) == Some(i as int),
            None => first_from(0, ids@.len() as int, id_at(ids@, id@)) is None,
        },
{
    let mut i: usize = 0;
    while i < ids.len()
        invariant
            i <= ids.len(),
            first_from(0, ids@.len() as int, id_at(ids@, id@)) == first_from(
                i as int,
                ids@.len() as int,
                id_at(ids@, id@),
            ),
        decreases ids.len() - i,
    {
        if str_eq(ids[i].as_str(), id) {
            assert(id_at(ids@, id@)(i as int));
            return Some(i);
        }
        assert(!id_at(ids@, id@)(i as int));
        i += 1;
    }
    None
}

/// Takes the remembered point, if any, and says what to show again: the
/// loop list, the run history and the inbox threads may have changed since,
/// so each selection is found again or clamped.
pub fn take_return_point(
    slot: &mut Option<EvidenceReturnPoint>,
    filtered_ids: &Vec<String>,
    run_count: usize,
    thread_count: usize,
) -> (r: Option<RestoredView>)
    ensures
        (*final(slot)) is None,
        (*old(slot)) is None <==> r is None,
        match (*old(slot), r) {
            (Some(p), Some(v)) => restored_spec(p, filtered_ids@, run_count as int, thread_count as int, v),
            _ => true,
        },
{
    let point = match slot.take() {
        Some(p) => p,
        None => return None,
    };
    let (selected_idx, selected_id) = if filtered_ids.len() == 0 {
        (0usize, String::new())
    } else {
        let found = if char_count(point.selected_id.as_str()) > 0 {
            position_of(filtered_ids, point.selected_id.as_str())
        } else {
            None
        };
        match found {
            Some(i) => (i, copy_string(point.selected_id.as_str())),
            None => {
                let i = clamp_index(point.selected_idx, filtered_ids.len());
                (i, copy_string(filtered_ids[i].as_str()))
            },
        }
    };
    proof {
        if filtered_ids.len() > 0 && point.selected_id@.len() > 0 {
            lemma_first_from(0, filtered_ids@.len() as int, id_at(filtered_ids@, point.selected_id@));
        }
    }
    let v = RestoredView {
        tab: point.tab,
        focus_right: point.focus_right,
        multi_page: point.multi_page,
        selected_idx,
        selected_id,
        selected_run: clamp_index(point.selected_run, run_count),
        inbox_selected_thread: clamp_index(point.inbox_selected_thread, thread_count),
        log_scroll: point.log_scroll,
        follow_mode: point.log_scroll == 0,
    };
    Some(v)
}

/// The status line after a request to return.
pub fn return_status(returned: bool) -> (r: &'static str)
    ensures
        r@ == (if returned {
            "Returned to sticky evidence source"@
        } else {
            "No sticky evidence return point"@
        }),
{
    if returned {
        "Returned to sticky evidence source"
    } else {
        "No sticky evidence return point"
    }
}

} // verus!
