//! The text of the inbox pane: its header, the split between the thread
//! list and the detail panel, the thread rows and the rows of the detail
//! panel. Drawing them with colours is the shell's part.
use vstd::prelude::*;

use crate::app::{
    mail_id_spec, format_mail_id, ClaimEventView, HandoffSnapshotView, InboxFilter, InboxMessageView,
};
use crate::inbox::{ClaimConflictView, InboxThreadView};
use crate::markdown::{
    detail_lines_spec, markdown_to_plain_lines, plain_lines_spec, render_inbox_markdown_detail_lines,
    trim_to_width,
};
use crate::text::{
    concat, copy_string, dec, push_str, str_eq, sv, take_upto, trim, trim_str, u64_to_string,
};

verus! {

// ---------------------------------------------------------------------------
// Header
// ---------------------------------------------------------------------------

pub open spec fn unread_sum(ts: Seq<InboxThreadView>) -> int
    decreases ts.len(),
{
    if ts.len() == 0 {
        0
    } else {
        unread_sum(ts.drop_last()) + ts.last().unread_count
    }
}

pub open spec fn pending_sum(ts: Seq<InboxThreadView>) -> int
    decreases ts.len(),
{
    if ts.len() == 0 {
        0
    } else {
        pending_sum(ts.drop_last()) + ts.last().pending_ack_count
    }
}

pub proof fn lemma_sums_grow(ts: Seq<InboxThreadView>, i: int)
    requires
        0 <= i <= ts.len(),
    ensures
        unread_sum(ts.take(i)) <= unread_sum(ts),
        pending_sum(ts.take(i)) <= pending_sum(ts),
        unread_sum(ts.take(i)) >= 0,
        pending_sum(ts.take(i)) >= 0,
    decreases ts.len() - i,
{
    lemma_sums_nonneg(ts.take(i));
    if i < ts.len() {
        lemma_sums_grow(ts, i + 1);
        assert(ts.take(i + 1).drop_last() =~= ts.take(i));
    } else {
        assert(ts.take(i) =~= ts);
        lemma_sums_nonneg(ts);
    }
}

proof fn lemma_sums_nonneg(ts: Seq<InboxThreadView>)
    ensures
        unread_sum(ts) >= 0,
        pending_sum(ts) >= 0,
    decreases ts.len(),
{
    if ts.len() > 0 {
        lemma_sums_nonneg(ts.drop_last());
    }
}

pub open spec fn filter_label(f: InboxFilter) -> Seq<char> {
    match f {
        InboxFilter::All => "all"@,
        InboxFilter::Unread => "unread"@,
        InboxFilter::AckRequired => "ack-required"@,
    }
}

/// The header line: the filter and the counts of threads, unread
/// messages, pending acknowledgements, claims and claim conflicts.
pub open spec fn header_spec(
    filter: InboxFilter,
    threads: Seq<InboxThreadView>,
    claims: nat,
    conflicts: nat,
) -> Seq<char> {
    "Inbox filter:"@ + filter_label(filter) + "  threads:"@ + dec(threads.len()) + "  unread:"@
        + dec(unread_sum(threads) as nat) + "  pending-ack:"@ + dec(pending_sum(threads) as nat)
        + "  claims:"@ + dec(claims) + "  conflicts:"@ + dec(conflicts)
}

pub fn inbox_header(
    filter: InboxFilter,
    threads: &Vec<InboxThreadView>,
    claims: usize,
    conflicts: usize,
) -> (r: String)
    requires
        unread_sum(threads@) <= u64::MAX,
        pending_sum(threads@) <= u64::MAX,
    ensures
        r@ == header_spec(filter, threads@, claims as nat, conflicts as nat),
{
    let mut unread: u64 = 0;
    let mut pending: u64 = 0;
    let mut i: usize = 0;
    while i < threads.len()
        invariant
            i <= threads.len(),
            unread == unread_sum(threads@.take(i as int)),
            pending == pending_sum(threads@.take(i as int)),
            unread_sum(threads@) <= u64::MAX,
            pending_sum(threads@) <= u64::MAX,
        decreases threads.len() - i,
    {
        proof {
            lemma_sums_grow(threads@, i + 1);
            assert(threads@.take(i + 1).drop_last() =~= threads@.take(i as int));
        }
        unread = unread + threads[i].unread_count as u64;
        pending = pending + threads[i].pending_ack_count as u64;
        i += 1;
    }
    assert(threads@.take(i as int) =~= threads@);
    let mut r = concat("Inbox filter:", filter.label());
    push_str(&mut r, "  threads:");
    push_str(&mut r, u64_to_string(threads.len() as u64).as_str());
    push_str(&mut r, "  unread:");
    push_str(&mut r, u64_to_string(unread).as_str());
    push_str(&mut r, "  pending-ack:");
    push_str(&mut r, u64_to_string(pending).as_str());
    push_str(&mut r, "  claims:");
    push_str(&mut r, u64_to_string(claims as u64).as_str());
    push_str(&mut r, "  conflicts:");
    push_str(&mut r, u64_to_string(conflicts as u64).as_str());
    r
}

// ---------------------------------------------------------------------------
// Columns and thread rows
// ---------------------------------------------------------------------------

/// The width of the thread list: two fifths of the pane, at least 24
/// columns and leaving 31 for the detail panel and the gap; the whole pane
/// when it is too narrow for both.
pub open spec fn list_width_spec(width: int) -> int {
    if width > 54 {
        let w = width * 2 / 5;
        if w < 24 {
            24
        } else if w > width - 31 {
            width - 31
        } else {
            w
        }
    } else {
        width
    }
}

/// The widths of the thread list and of the detail panel (0 when there is
/// no room for it); one column between them.
pub fn inbox_columns(width: usize) -> (r: (usize, usize))
    ensures
        r.0 == list_width_spec(width as int),
        r.1 == (if r.0 + 2 < width { width - r.0 - 1 } else { 0 }),
{
    let list = if width > 54 {
        let w = width / 5 * 2 + (width % 5) * 2 / 5;
        assert(w == width * 2 / 5) by (nonlinear_arith)
            requires
                w == width / 5 * 2 + (width % 5) * 2 / 5,
                width > 54,
        ;
        if w < 24 {
            24
        } else if w > width - 31 {
            width - 31
        } else {
            w
        }
    } else {
        width
    };
    let detail = if list + 2 < width { width - list - 1 } else { 0 };
    (list, detail)
}

/// A row of the thread list: a marker for the selected thread, the
/// subject, the unread and pending counts and the latest mail id.
pub open spec fn thread_row_spec(t: InboxThreadView, selected: bool) -> Seq<char> {
    (if selected { "\u{25B8}"@ } else { " "@ }) + " "@ + t.subject@ + " [u:"@ + dec(
        t.unread_count as nat,
    ) + "][a:"@ + dec(t.pending_ack_count as nat) + "] ("@ + mail_id_spec(t.latest_message_id)
        + ")"@
}

pub fn thread_row(t: &InboxThreadView, selected: bool) -> (r: String)
    ensures
        r@ == thread_row_spec(*t, selected),
{
    let mut r = if selected {
        concat("\u{25B8}", " ")
    } else {
        concat(" ", " ")
    };
    push_str(&mut r, t.subject.as_str());
    push_str(&mut r, " [u:");
    push_str(&mut r, u64_to_string(t.unread_count as u64).as_str());
    push_str(&mut r, "][a:");
    push_str(&mut r, u64_to_string(t.pending_ack_count as u64).as_str());
    push_str(&mut r, "] (");
    push_str(&mut r, format_mail_id(t.latest_message_id).as_str());
    push_str(&mut r, ")");
    r
}

/// The title of the detail panel.
pub open spec fn detail_title_spec(t: InboxThreadView) -> Seq<char> {
    "thread:"@ + t.thread_key@ + "  msgs:"@ + dec(t.message_indices@.len()) + "  participants:"@
        + dec(t.participant_count as nat)
}

pub fn detail_title(t: &InboxThreadView) -> (r: String)
    ensures
        r@ == detail_title_spec(*t),
{
    let mut r = concat("thread:", t.thread_key.as_str());
    push_str(&mut r, "  msgs:");
    push_str(&mut r, u64_to_string(t.message_indices.len() as u64).as_str());
    push_str(&mut r, "  participants:");
    push_str(&mut r, u64_to_string(t.participant_count as u64).as_str());
    r
}

// ---------------------------------------------------------------------------
// Message rows of the detail panel
// ---------------------------------------------------------------------------

/// The first row of a message: `*` while unread, then `!` while an asked
/// acknowledgement is missing, `a` once acknowledged and `-` otherwise,
/// the mail id, the sender and a preview (the subject, else the body,
/// else "(empty)").
pub open spec fn message_line_spec(m: InboxMessageView) -> Seq<char> {
    let unread = if m.read_at is None { "*"@ } else { " "@ };
    let ack = if m.ack_required && m.acked_at is None {
        "!"@
    } else if m.acked_at is Some {
        "a"@
    } else {
        "-"@
    };
    let preview = if trim(m.subject@).len() > 0 {
        trim(m.subject@)
    } else if trim(m.body@).len() > 0 {
        trim(m.body@)
    } else {
        "(empty)"@
    };
    unread + ack + " "@ + mail_id_spec(m.id) + " "@ + trim(m.from@) + " "@ + preview
}

pub fn message_line(m: &InboxMessageView) -> (r: String)
    ensures
        r@ == message_line_spec(*m),
{
    let unread = if m.read_at.is_none() { "*" } else { " " };
    let ack = if m.ack_required && m.acked_at.is_none() {
        "!"
    } else if m.acked_at.is_some() {
        "a"
    } else {
        "-"
    };
    let subject = trim_str(m.subject.as_str());
    let body = trim_str(m.body.as_str());
    let preview = if subject.as_str().is_empty() {
        if body.as_str().is_empty() {
            copy_string("(empty)")
        } else {
            body
        }
    } else {
        subject
    };
    let mut r = concat(unread, ack);
    push_str(&mut r, " ");
    push_str(&mut r, format_mail_id(m.id).as_str());
    push_str(&mut r, " ");
    push_str(&mut r, trim_str(m.from.as_str()).as_str());
    push_str(&mut r, " ");
    push_str(&mut r, preview.as_str());
    r
}

// ---------------------------------------------------------------------------
// The detail panel
// ---------------------------------------------------------------------------

pub open spec fn detail_hint() -> Seq<char> {
    "enter=read  a=ack  h=handoff  r=reply  o=next-conflict  O=resolution"@
}

/// The rows of a handoff snapshot of the thread.
pub open spec fn snapshot_rows(s: HandoffSnapshotView, w: int) -> Seq<Seq<char>> {
    seq![
        take_upto("handoff snapshot (h regenerate)"@, w),
        take_upto("task="@ + s.task_id@ + " loop="@ + s.loop_id@, w),
        take_upto("status: "@ + s.status@, w),
        take_upto("context: "@ + s.context@, w),
        take_upto("links: "@ + s.links@, w),
        take_upto("pending-risks: "@ + s.pending_risks@, w),
        "recent thread messages"@,
    ]
}

/// The latest message's body as plain text, at most four rows, under a
/// heading; nothing when it renders to no row.
pub open spec fn latest_body_rows(
    t: InboxThreadView,
    ms: Seq<InboxMessageView>,
    w: int,
) -> Seq<Seq<char>> {
    let idx = t.message_indices@;
    if idx.len() > 0 && idx.last() < ms.len() {
        let md = plain_lines_spec(ms[idx.last() as int].body@, w, 4);
        if md.len() > 0 {
            seq!["markdown detail (latest body)"@] + md
        } else {
            Seq::empty()
        }
    } else {
        Seq::empty()
    }
}

/// Body rows indented by two spaces (blank rows stay empty), cut to `w`.
pub open spec fn indented_rows(ls: Seq<Seq<char>>, w: int) -> Seq<Seq<char>> {
    Seq::new(
        ls.len(),
        |i: int| take_upto(if ls[i].len() == 0 { Seq::empty() } else { "  "@ + ls[i] }, w),
    )
}

/// The rows of one message: its line, its subject when it has one, its
/// body and an empty row after it.
pub open spec fn message_block(m: InboxMessageView, w: int) -> Seq<Seq<char>> {
    seq![take_upto(message_line_spec(m), w)] + (if trim(m.subject@).len() > 0 {
        seq![take_upto("  subject: "@ + trim(m.subject@), w)]
    } else {
        Seq::empty()
    }) + indented_rows(detail_lines_spec(m.body@, if w >= 2 { w - 2 } else { 0 }), w) + seq![
        Seq::<char>::empty(),
    ]
}

/// The messages of `idx`, newest (last listed) first; an index past the
/// messages shows nothing.
pub open spec fn message_blocks(idx: Seq<usize>, ms: Seq<InboxMessageView>, w: int) -> Seq<
    Seq<char>,
>
    decreases idx.len(),
{
    if idx.len() == 0 {
        Seq::empty()
    } else {
        let i = idx.last() as int;
        (if i < ms.len() {
            message_block(ms[i], w)
        } else {
            Seq::empty()
        }) + message_blocks(idx.drop_last(), ms, w)
    }
}

/// Every row the detail panel of thread `t` would show with no limit of
/// height: the key hint, the thread's handoff snapshot when there is one,
/// the latest body and the messages.
pub open spec fn detail_rows_spec(
    t: InboxThreadView,
    ms: Seq<InboxMessageView>,
    snapshot: Option<HandoffSnapshotView>,
    w: int,
) -> Seq<Seq<char>> {
    seq![take_upto(detail_hint(), w)] + (match snapshot {
        Some(s) => if s.thread_key@ == t.thread_key@ {
            snapshot_rows(s, w)
        } else {
            Seq::empty()
        },
        None => Seq::empty(),
    }) + latest_body_rows(t, ms, w) + message_blocks(t.message_indices@, ms, w)
}

proof fn lemma_sv_append(a: Seq<String>, b: Seq<String>)
    ensures
        sv(a + b) == sv(a) + sv(b),
{
    assert(sv(a + b) =~= sv(a) + sv(b));
}

fn append_rows(rows: &mut Vec<String>, more: Vec<String>)
    ensures
        sv(final(rows)@) == sv(old(rows)@) + sv(more@),
{
    let mut more = more;
    proof {
        lemma_sv_append(rows@, more@);
    }
    rows.append(&mut more);
}

fn push_row(rows: &mut Vec<String>, row: String)
    ensures
        sv(final(rows)@) == sv(old(rows)@).push(row@),
{
    rows.push(row);
    assert(sv(rows@) =~= sv(old(rows)@).push(row@));
}

fn indent_rows(ls: &Vec<String>, w: usize) -> (r: Vec<String>)
    ensures
        sv(r@) == indented_rows(sv(ls@), w as int),
{
    let mut r: Vec<String> = Vec::new();
    let mut i: usize = 0;
    while i < ls.len()
        invariant
            i <= ls.len(),
            sv(r@) == indented_rows(sv(ls@), w as int).take(i as int),
        decreases ls.len() - i,
    {
        let line = if ls[i].as_str().is_empty() {
            String::new()
        } else {
            concat("  ", ls[i].as_str())
        };
        push_row(&mut r, trim_to_width(line.as_str(), w));
        assert(indented_rows(sv(ls@), w as int).take(i + 1) =~= indented_rows(sv(ls@), w as int).take(
            i as int,
        ).push(indented_rows(sv(ls@), w as int)[i as int]));
        i += 1;
    }
    assert(indented_rows(sv(ls@), w as int).take(i as int) =~= indented_rows(sv(ls@), w as int));
    r
}

fn message_rows(m: &InboxMessageView, w: usize) -> (r: Vec<String>)
    ensures
        sv(r@) == message_block(*m, w as int),
{
    let mut r: Vec<String> = Vec::new();
    push_row(&mut r, trim_to_width(message_line(m).as_str(), w));
    let subject = trim_str(m.subject.as_str());
    if !subject.as_str().is_empty() {
        push_row(&mut r, trim_to_width(concat("  subject: ", subject.as_str()).as_str(), w));
    }
    let body_width = if w >= 2 { w - 2 } else { 0 };
    let body = render_inbox_markdown_detail_lines(m.body.as_str(), body_width);
    append_rows(&mut r, indent_rows(&body, w));
    push_row(&mut r, String::new());
    assert(sv(r@) =~= message_block(*m, w as int));
    r
}

/// The first `h` rows of `rows`, or all of them when there are fewer.
pub open spec fn first_rows(rows: Seq<Seq<char>>, h: int) -> Seq<Seq<char>> {
    if h < rows.len() {
        rows.take(h)
    } else {
        rows
    }
}

pub open spec fn opt_snapshot(s: Option<&HandoffSnapshotView>) -> Option<HandoffSnapshotView> {
    match s {
        Some(x) => Some(*x),
        None => None,
    }
}

/// The rows of the detail panel of thread `t`, `width` columns wide and at
/// most `height` rows high: the first `height` of `detail_rows_spec`.
pub fn inbox_detail_rows(
    t: &InboxThreadView,
    ms: &Vec<InboxMessageView>,
    snapshot: Option<&HandoffSnapshotView>,
    width: usize,
    height: usize,
) -> (r: Vec<String>)
    ensures
        sv(r@) == first_rows(detail_rows_spec(*t, ms@, opt_snapshot(snapshot), width as int), height as int),
{
    let ghost snap = opt_snapshot(snapshot);
    let mut rows: Vec<String> = Vec::new();
    push_row(&mut rows, trim_to_width(detail_hint_text(), width));
    if let Some(s) = snapshot {
        if str_eq(s.thread_key.as_str(), t.thread_key.as_str()) {
            push_row(&mut rows, trim_to_width("handoff snapshot (h regenerate)", width));
            let lines = s.lines();
            push_row(&mut rows, trim_to_width(lines[0].as_str(), width));
            push_row(&mut rows, trim_to_width(lines[1].as_str(), width));
            push_row(&mut rows, trim_to_width(lines[2].as_str(), width));
            push_row(&mut rows, trim_to_width(lines[3].as_str(), width));
            push_row(&mut rows, trim_to_width(lines[4].as_str(), width));
            push_row(&mut rows, copy_string("recent thread messages"));
        }
    }
    assert(sv(rows@) =~= seq![take_upto(detail_hint(), width as int)] + (match snap {
        Some(s) => if s.thread_key@ == t.thread_key@ {
            snapshot_rows(s, width as int)
        } else {
            Seq::empty()
        },
        None => Seq::empty(),
    }));
    let ghost before_body = sv(rows@);
    let n = t.message_indices.len();
    if n > 0 && t.message_indices[n - 1] < ms.len() {
        let md = markdown_to_plain_lines(ms[t.message_indices[n - 1]].body.as_str(), width, 4);
        if md.len() > 0 {
            push_row(&mut rows, copy_string("markdown detail (latest body)"));
            append_rows(&mut rows, md);
        }
    }
    assert(sv(rows@) =~= before_body + latest_body_rows(*t, ms@, width as int));
    let ghost head = sv(rows@);
    let ghost idx = t.message_indices@;
    let mut k: usize = n;
    assert(idx.take(n as int) =~= idx);
    while k > 0
        invariant
            k <= n,
            n == idx.len(),
            idx == t.message_indices@,
            head + message_blocks(idx, ms@, width as int) == sv(rows@) + message_blocks(
                idx.take(k as int),
                ms@,
                width as int,
            ),
        decreases k,
    {
        let ghost before = sv(rows@);
        assert(idx.take(k as int).drop_last() =~= idx.take(k - 1));
        assert(idx.take(k as int).last() == idx[k - 1]);
        let i = t.message_indices[k - 1];
        if i < ms.len() {
            append_rows(&mut rows, message_rows(&ms[i], width));
        }
        k -= 1;
        assert(before + message_blocks(idx.take(k + 1), ms@, width as int) =~= sv(rows@)
            + message_blocks(idx.take(k as int), ms@, width as int));
    }
    assert(idx.take(0) =~= Seq::<usize>::empty());
    assert(sv(rows@) =~= head + message_blocks(idx, ms@, width as int));
    assert(sv(rows@) == detail_rows_spec(*t, ms@, snap, width as int));
    let ghost all = sv(rows@);
    rows.truncate(height);
    assert(sv(rows@) =~= first_rows(all, height as int));
    rows
}

fn detail_hint_text() -> (r: &'static str)
    ensures
        r@ == detail_hint(),
{
    proof {
        reveal_strlit("enter=read  a=ack  h=handoff  r=reply  o=next-conflict  O=resolution");
    }
    "enter=read  a=ack  h=handoff  r=reply  o=next-conflict  O=resolution"
}

// ---------------------------------------------------------------------------
// Pane heights, the thread list and the claim timeline
// ---------------------------------------------------------------------------

/// The rows of the claim timeline (0 without claims, else up to 5 and at
/// most the pane less 2) and the rows left for the threads below the
/// header.
pub fn inbox_pane_heights(height: usize, has_claims: bool) -> (r: (usize, usize))
    ensures
        r.0 == (if !has_claims {
            0
        } else if height < 2 {
            0
        } else if height - 2 < 5 {
            height - 2
        } else {
            5
        }),
        r.1 == (if height >= 1 + r.0 { height - 1 - r.0 } else { 0 }),
{
    let timeline = if !has_claims {
        0
    } else {
        let room = if height >= 2 { height - 2 } else { 0 };
        if room < 5 { room } else { 5 }
    };
    let body = if height >= 1 + timeline { height - 1 - timeline } else { 0 };
    (timeline, body)
}

/// The rows of the thread list: a row per thread, as many as fit in `h`,
/// each cut to `w`; the selected thread carries the marker.
pub open spec fn thread_rows_spec(ts: Seq<InboxThreadView>, selected: int, w: int) -> Seq<Seq<char>> {
    Seq::new(ts.len(), |i: int| take_upto(thread_row_spec(ts[i], i == selected), w))
}

pub fn thread_list_rows(threads: &Vec<InboxThreadView>, selected: usize, w: usize, h: usize) -> (r: Vec<
    String,
>)
    ensures
        sv(r@) == first_rows(thread_rows_spec(threads@, selected as int, w as int), h as int),
{
    let mut r: Vec<String> = Vec::new();
    let mut i: usize = 0;
    while i < threads.len() && i < h
        invariant
            i <= threads.len(),
            i <= h,
            sv(r@) == thread_rows_spec(threads@, selected as int, w as int).take(i as int),
        decreases threads.len() - i,
    {
        push_row(&mut r, trim_to_width(thread_row(&threads[i], i == selected).as_str(), w));
        assert(thread_rows_spec(threads@, selected as int, w as int).take(i + 1) =~= thread_rows_spec(
            threads@,
            selected as int,
            w as int,
        ).take(i as int).push(thread_rows_spec(threads@, selected as int, w as int)[i as int]));
        i += 1;
    }
    assert(sv(r@) =~= first_rows(thread_rows_spec(threads@, selected as int, w as int), h as int));
    r
}

/// How a claim row stands out.
#[derive(Debug, Clone, Copy, PartialEq, Eq, Structural)]
pub enum ClaimEmphasis {
    /// The task of the selected conflict.
    Selected,
    /// A task in conflict.
    Conflict,
    Plain,
}

pub open spec fn in_conflict(task: Seq<char>, cs: Seq<ClaimConflictView>) -> bool {
    exists|j: int| 0 <= j < cs.len() && (#[trigger] cs[j]).task_id@ == task
}

/// A row of the claim timeline: `!` for a task in conflict, the time, the
/// task and who claimed it.
pub open spec fn claim_row_spec(e: ClaimEventView, cs: Seq<ClaimConflictView>) -> Seq<char> {
    (if in_conflict(e.task_id@, cs) { "!"@ } else { " "@ }) + " "@ + e.claimed_at@ + " "@
        + e.task_id@ + " <- "@ + e.claimed_by@
}

pub open spec fn claim_emphasis_spec(
    e: ClaimEventView,
    cs: Seq<ClaimConflictView>,
    selected: int,
) -> ClaimEmphasis {
    if 0 <= selected < cs.len() && cs[selected].task_id@ == e.task_id@ {
        ClaimEmphasis::Selected
    } else if in_conflict(e.task_id@, cs) {
        ClaimEmphasis::Conflict
    } else {
        ClaimEmphasis::Plain
    }
}

fn task_in_conflict(task: &str, cs: &Vec<ClaimConflictView>) -> (r: bool)
    ensures
        r == in_conflict(task@, cs@),
{
    let mut j: usize = 0;
    while j < cs.len()
        invariant
            j <= cs.len(),
            forall|q: int| 0 <= q < j ==> (#[trigger] cs@[q]).task_id@ != task@,
        decreases cs.len() - j,
    {
        if str_eq(cs[j].task_id.as_str(), task) {
            return true;
        }
        j += 1;
    }
    false
}

/// The rows of the claim timeline, the earliest listed claims first, as
/// many as fit in `h`, each cut to `w` and with its emphasis.
pub fn claim_timeline_rows(
    events: &Vec<ClaimEventView>,
    conflicts: &Vec<ClaimConflictView>,
    selected_conflict: usize,
    w: usize,
    h: usize,
) -> (r: Vec<(String, ClaimEmphasis)>)
    ensures
        r@.len() == (if h < events@.len() { h as int } else { events@.len() as int }),
        forall|i: int|
            0 <= i < r@.len() ==> (#[trigger] r@[i]).0@ == take_upto(
                claim_row_spec(events@[i], conflicts@),
                w as int,
            ) && r@[i].1 == claim_emphasis_spec(events@[i], conflicts@, selected_conflict as int),
{
    let mut r: Vec<(String, ClaimEmphasis)> = Vec::new();
    let mut i: usize = 0;
    while i < events.len() && i < h
        invariant
            i <= events.len(),
            i <= h,
            r@.len() == i,
            forall|k: int|
                0 <= k < i ==> (#[trigger] r@[k]).0@ == take_upto(
                    claim_row_spec(events@[k], conflicts@),
                    w as int,
                ) && r@[k].1 == claim_emphasis_spec(events@[k], conflicts@, selected_conflict as int),
        decreases events.len() - i,
    {
        let e = &events[i];
        let flagged = task_in_conflict(e.task_id.as_str(), conflicts);
        let mut line = concat(if flagged { "!" } else { " " }, " ");
        push_str(&mut line, e.claimed_at.as_str());
        push_str(&mut line, " ");
        push_str(&mut line, e.task_id.as_str());
        push_str(&mut line, " <- ");
        push_str(&mut line, e.claimed_by.as_str());
        let emphasis = if selected_conflict < conflicts.len() && str_eq(
            conflicts[selected_conflict].task_id.as_str(),
            e.task_id.as_str(),
        ) {
            ClaimEmphasis::Selected
        } else if flagged {
            ClaimEmphasis::Conflict
        } else {
            ClaimEmphasis::Plain
        };
        r.push((trim_to_width(line.as_str(), w), emphasis));
        i += 1;
    }
    r
}

} // verus!
