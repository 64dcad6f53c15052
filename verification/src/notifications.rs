//! The status line and its queue of notifications: each status message is
//! kept (up to a limit) and can be acknowledged, escalated or snoozed.
use vstd::prelude::*;

use crate::app::{NotificationCenterEntry, StatusKind};
use crate::text::{concat, copy_string, dec, push_str, starts_with, str_starts_with, trim, trim_str, u64_to_string};

verus! {

pub const MAX_NOTIFICATION_QUEUE: usize = 32;

#[derive(Debug, Clone, PartialEq, Eq)]
pub struct NotificationEvent {
    pub kind: StatusKind,
    pub text: String,
    pub acknowledged: bool,
    pub escalated: bool,
    pub snoozed_until_sequence: Option<u64>,
}

/// A notification as values.
pub struct EventModel {
    pub kind: StatusKind,
    pub text: Seq<char>,
    pub acknowledged: bool,
    pub escalated: bool,
    pub snoozed_until: Option<u64>,
}

impl View for NotificationEvent {
    type V = EventModel;

    open spec fn view(&self) -> EventModel {
        EventModel {
            kind: self.kind,
            text: self.text@,
            acknowledged: self.acknowledged,
            escalated: self.escalated,
            snoozed_until: self.snoozed_until_sequence,
        }
    }
}

pub open spec fn events_view(v: Seq<NotificationEvent>) -> Seq<EventModel> {
    v.map_values(|e: NotificationEvent| e@)
}

/// The current status and the notifications behind it. The clock counts
/// status changes and explicit advances; snoozes are measured on it.
#[derive(Debug, Clone)]
pub struct NotificationCenter {
    pub status_kind: StatusKind,
    pub status_text: String,
    pub sequence: u64,
    pub queue: Vec<NotificationEvent>,
}

pub open spec fn sat_add(a: u64, b: u64) -> u64 {
    if a + b > u64::MAX {
        u64::MAX
    } else {
        (a + b) as u64
    }
}

/// Snoozed: its wake time has not come yet.
pub open spec fn snoozed(e: EventModel, clock: u64) -> bool {
    match e.snoozed_until {
        Some(until) => clock < until,
        None => false,
    }
}

pub open spec fn visible(e: EventModel, clock: u64) -> bool {
    !e.acknowledged && !snoozed(e, clock)
}

/// The index of the newest notification not acknowledged.
pub open spec fn last_unacked(q: Seq<EventModel>) -> Option<int>
    decreases q.len(),
{
    if q.len() == 0 {
        None
    } else if !q.last().acknowledged {
        Some(q.len() - 1)
    } else {
        last_unacked(q.drop_last())
    }
}

/// The newest visible notification.
pub open spec fn last_visible(q: Seq<EventModel>, clock: u64) -> Option<EventModel>
    decreases q.len(),
{
    if q.len() == 0 {
        None
    } else if visible(q.last(), clock) {
        Some(q.last())
    } else {
        last_visible(q.drop_last(), clock)
    }
}

pub open spec fn visible_count(q: Seq<EventModel>, clock: u64) -> nat
    decreases q.len(),
{
    if q.len() == 0 {
        0
    } else {
        visible_count(q.drop_last(), clock) + if visible(q.last(), clock) {
            1nat
        } else {
            0nat
        }
    }
}

/// A snoozed notification not yet acknowledged: a pending timer.
pub open spec fn pending(e: EventModel, clock: u64) -> bool {
    !e.acknowledged && snoozed(e, clock)
}

pub open spec fn pending_count(q: Seq<EventModel>, clock: u64) -> nat
    decreases q.len(),
{
    if q.len() == 0 {
        0
    } else {
        pending_count(q.drop_last(), clock) + if pending(q.last(), clock) {
            1nat
        } else {
            0nat
        }
    }
}

/// Ticks until the earliest pending timer wakes.
pub open spec fn next_due(q: Seq<EventModel>, clock: u64) -> Option<int>
    decreases q.len(),
{
    if q.len() == 0 {
        None
    } else {
        let rest = next_due(q.drop_last(), clock);
        let e = q.last();
        if pending(e, clock) {
            let d = e.snoozed_until->Some_0 - clock;
            match rest {
                Some(r) => Some(if d < r { d } else { r }),
                None => Some(d),
            }
        } else {
            rest
        }
    }
}

/// An error status reads `Error: ...`, once.
pub open spec fn error_text(t: Seq<char>) -> Seq<char> {
    if starts_with(trim(t), "Error:"@) {
        trim(t)
    } else {
        "Error: "@ + trim(t)
    }
}

pub open spec fn shown(kind: StatusKind, t: Seq<char>) -> Seq<char> {
    if kind == StatusKind::Error {
        error_text(t)
    } else {
        t
    }
}

/// The status line: the current status, else the newest visible
/// notification; then how many more are visible, and the pending timers.
pub open spec fn display_spec(kind: StatusKind, text: Seq<char>, clock: u64, q: Seq<EventModel>) -> Seq<char> {
    let base = shown(kind, text);
    let out1 = if trim(base).len() == 0 {
        match last_visible(q, clock) {
            Some(e) => shown(e.kind, e.text),
            None => base,
        }
    } else {
        base
    };
    let n = visible_count(q, clock);
    let queued: int = if n > 0 { n - 1 } else { 0 };
    let out2 = if queued > 0 && trim(out1).len() > 0 {
        out1 + " (+"@ + dec(queued as nat) + " queued)"@
    } else {
        out1
    };
    let timers = pending_count(q, clock);
    if timers > 0 {
        let due = match next_due(q, clock) {
            Some(d) => d,
            None => 0,
        };
        let summary = "timers:"@ + dec(timers) + " next:"@ + dec(due as nat) + "t"@;
        if trim(out2).len() == 0 {
            summary
        } else {
            out2 + " ["@ + summary + "]"@
        }
    } else {
        out2
    }
}

impl NotificationCenter {
    pub open spec fn clock(&self) -> u64 {
        self.sequence
    }

    pub open spec fn events(&self) -> Seq<EventModel> {
        events_view(self.queue@)
    }

    /// No more notifications are kept than the limit.
    pub open spec fn wf(&self) -> bool {
        self.events().len() <= MAX_NOTIFICATION_QUEUE
    }

    pub fn new() -> (r: Self)
        ensures
            r.status_kind == StatusKind::Info,
            r.status_text@ == Seq::<char>::empty(),
            r.clock() == 0,
            r.events() == Seq::<EventModel>::empty(),
            r.wf(),
    {
        let r = NotificationCenter {
            status_kind: StatusKind::Info,
            status_text: String::new(),
            sequence: 0,
            queue: Vec::new(),
        };
        assert(events_view(r.queue@) =~= Seq::<EventModel>::empty());
        r
    }

    pub fn queue_len(&self) -> (r: usize)
        ensures
            r == self.events().len(),
    {
        self.queue.len()
    }

    /// Sets the status; a status that is not blank is also queued as a
    /// notification, the oldest dropped when the queue is full.
    pub fn set_status(&mut self, kind: StatusKind, text: &str)
        ensures
            final(self).status_kind == kind,
            final(self).status_text@ == text@,
            final(self).clock() == sat_add(old(self).clock(), 1),
            old(self).wf() ==> final(self).wf(),
            final(self).events() == (if trim(text@).len() == 0 {
                old(self).events()
            } else {
                let q = if old(self).events().len() >= MAX_NOTIFICATION_QUEUE {
                    old(self).events().drop_first()
                } else {
                    old(self).events()
                };
                q.push(
                    EventModel {
                        kind,
                        text: text@,
                        acknowledged: false,
                        escalated: false,
                        snoozed_until: None,
                    },
                )
            }),
    {
        self.status_kind = kind;
        self.status_text = copy_string(text);
        self.sequence = self.sequence.saturating_add(1);
        if !trim_str(text).as_str().is_empty() {
            if self.queue.len() >= MAX_NOTIFICATION_QUEUE {
                let ghost prev = self.queue@;
                self.queue.remove(0);
                assert(events_view(self.queue@) =~= events_view(prev).drop_first());
            }
            let e = NotificationEvent {
                kind,
                text: copy_string(text),
                acknowledged: false,
                escalated: false,
                snoozed_until_sequence: None,
            };
            let ghost prev = self.queue@;
            self.queue.push(e);
            assert(events_view(self.queue@) =~= events_view(prev).push(e@));
        }
    }

    /// Clears the status and every notification.
    pub fn clear_status(&mut self)
        ensures
            final(self).status_text@ == Seq::<char>::empty(),
            final(self).events() == Seq::<EventModel>::empty(),
            final(self).status_kind == old(self).status_kind,
            final(self).clock() == old(self).clock(),
    {
        self.status_text = String::new();
        self.queue = Vec::new();
        assert(events_view(self.queue@) =~= Seq::<EventModel>::empty());
    }

    pub fn advance_notification_clock(&mut self, ticks: u64)
        ensures
            final(self).clock() == sat_add(old(self).clock(), ticks),
            final(self).events() == old(self).events(),
            final(self).status_kind == old(self).status_kind,
            final(self).status_text == old(self).status_text,
    {
        self.sequence = self.sequence.saturating_add(ticks);
    }

    fn last_unacked_index(&self) -> (r: Option<usize>)
        ensures
            match r {
                Some(i) => last_unacked(self.events()) == Some(i as int) && i < self.queue@.len(),
                None => last_unacked(self.events()) is None,
            },
    {
        let ghost q = self.events();
        let mut i: usize = self.queue.len();
        assert(q.take(i as int) =~= q);
        while i > 0
            invariant
                i <= self.queue.len(),
                q == events_view(self.queue@),
                last_unacked(q) == last_unacked(q.take(i as int)),
            decreases i,
        {
            assert(q.take(i as int).drop_last() =~= q.take(i - 1));
            assert(q.take(i as int).last() == q[i - 1]);
            if !self.queue[i - 1].acknowledged {
                return Some(i - 1);
            }
            i -= 1;
        }
        assert(q.take(0) =~= Seq::<EventModel>::empty());
        None
    }

    /// Acknowledges the newest notification not yet acknowledged; false
    /// when there is none.
    pub fn notification_center_ack_latest(&mut self) -> (r: bool)
        ensures
            r == (last_unacked(old(self).events()) is Some),
            final(self).events() == match last_unacked(old(self).events()) {
                Some(i) => old(self).events().update(
                    i,
                    EventModel { acknowledged: true, ..old(self).events()[i] },
                ),
                None => old(self).events(),
            },
            final(self).clock() == old(self).clock(),
            final(self).status_kind == old(self).status_kind,
            final(self).status_text == old(self).status_text,
    {
        match self.last_unacked_index() {
            Some(i) => {
                let ghost prev = self.queue@;
                let mut e = clone_event(&self.queue[i]);
                e.acknowledged = true;
                let ghost ev = EventModel { acknowledged: true, ..events_view(prev)[i as int] };
                assert(e@ == ev);
                self.queue.set(i, e);
                assert(events_view(self.queue@) =~= events_view(prev).update(i as int, ev));
                true
            },
            None => false,
        }
    }

    /// Escalates the newest notification not yet acknowledged; false when
    /// there is none.
    pub fn notification_center_escalate_latest(&mut self) -> (r: bool)
        ensures
            r == (last_unacked(old(self).events()) is Some),
            final(self).events() == match last_unacked(old(self).events()) {
                Some(i) => old(self).events().update(
                    i,
                    EventModel { escalated: true, ..old(self).events()[i] },
                ),
                None => old(self).events(),
            },
            final(self).clock() == old(self).clock(),
            final(self).status_kind == old(self).status_kind,
            final(self).status_text == old(self).status_text,
    {
        match self.last_unacked_index() {
            Some(i) => {
                let ghost prev = self.queue@;
                let mut e = clone_event(&self.queue[i]);
                e.escalated = true;
                let ghost ev = EventModel { escalated: true, ..events_view(prev)[i as int] };
                assert(e@ == ev);
                self.queue.set(i, e);
                assert(events_view(self.queue@) =~= events_view(prev).update(i as int, ev));
                true
            },
            None => false,
        }
    }

    /// Snoozes the newest notification not yet acknowledged for `ticks` (at
    /// least one) of the clock; false when there is none.
    pub fn notification_center_snooze_latest(&mut self, ticks: u64) -> (r: bool)
        ensures
            r == (last_unacked(old(self).events()) is Some),
            final(self).events() == match last_unacked(old(self).events()) {
                Some(i) => old(self).events().update(
                    i,
                    EventModel {
                        snoozed_until: Some(
                            sat_add(old(self).clock(), if ticks > 0 { ticks } else { 1 }),
                        ),
                        ..old(self).events()[i]
                    },
                ),
                None => old(self).events(),
            },
            final(self).clock() == old(self).clock(),
            final(self).status_kind == old(self).status_kind,
            final(self).status_text == old(self).status_text,
    {
        let ticks = if ticks > 0 {
            ticks
        } else {
            1
        };
        let wake = self.sequence.saturating_add(ticks);
        match self.last_unacked_index() {
            Some(i) => {
                let ghost prev = self.queue@;
                let mut e = clone_event(&self.queue[i]);
                e.snoozed_until_sequence = Some(wake);
                let ghost ev = EventModel { snoozed_until: Some(wake), ..events_view(prev)[i as int] };
                assert(e@ == ev);
                self.queue.set(i, e);
                assert(events_view(self.queue@) =~= events_view(prev).update(i as int, ev));
                true
            },
            None => false,
        }
    }

    /// The notifications, newest first, each with whether it is snoozed now.
    pub fn notification_center_entries(&self) -> (r: Vec<NotificationCenterEntry>)
        ensures
            r@.len() == self.events().len(),
            forall|i: int|
                0 <= i < r@.len() ==> {
                    let e = self.events()[self.events().len() - 1 - i];
                    &&& (#[trigger] r@[i]).kind == e.kind
                    &&& r@[i].text@ == e.text
                    &&& r@[i].acknowledged == e.acknowledged
                    &&& r@[i].escalated == e.escalated
                    &&& r@[i].snoozed == snoozed(e, self.clock())
                },
    {
        let ghost q = self.events();
        let n = self.queue.len();
        let mut r: Vec<NotificationCenterEntry> = Vec::new();
        let mut k: usize = 0;
        while k < n
            invariant
                k <= n,
                n == self.queue.len(),
                q == events_view(self.queue@),
                r@.len() == k,
                forall|i: int|
                    0 <= i < k ==> {
                        let e = q[n - 1 - i];
                        &&& (#[trigger] r@[i]).kind == e.kind
                        &&& r@[i].text@ == e.text
                        &&& r@[i].acknowledged == e.acknowledged
                        &&& r@[i].escalated == e.escalated
                        &&& r@[i].snoozed == snoozed(e, self.sequence)
                    },
            decreases n - k,
        {
            let e = &self.queue[n - 1 - k];
            let is_snoozed = match e.snoozed_until_sequence {
                Some(until) => self.sequence < until,
                None => false,
            };
            r.push(
                NotificationCenterEntry {
                    kind: e.kind,
                    text: e.text.clone(),
                    acknowledged: e.acknowledged,
                    escalated: e.escalated,
                    snoozed: is_snoozed,
                },
            );
            k += 1;
        }
        r
    }

    fn counts(&self) -> (r: (Option<usize>, usize, usize, Option<u64>))
        ensures
            match r.0 {
                Some(i) => i < self.queue@.len() && last_visible(self.events(), self.clock())
                    == Some(self.events()[i as int]),
                None => last_visible(self.events(), self.clock()) is None,
            },
            r.1 == visible_count(self.events(), self.clock()),
            r.2 == pending_count(self.events(), self.clock()),
            match r.3 {
                Some(d) => next_due(self.events(), self.clock()) == Some(d as int),
                None => next_due(self.events(), self.clock()) is None,
            },
    {
        let ghost q = self.events();
        let clock = self.sequence;
        let mut latest: Option<usize> = None;
        let mut nvis: usize = 0;
        let mut npend: usize = 0;
        let mut due: Option<u64> = None;
        let mut i: usize = 0;
        while i < self.queue.len()
            invariant
                i <= self.queue.len(),
                clock == self.sequence,
                q == events_view(self.queue@),
                match latest {
                    Some(j) => j < i && last_visible(q.take(i as int), clock) == Some(q[j as int]),
                    None => last_visible(q.take(i as int), clock) is None,
                },
                nvis == visible_count(q.take(i as int), clock),
                npend == pending_count(q.take(i as int), clock),
                nvis <= i,
                npend <= i,
                match due {
                    Some(d) => next_due(q.take(i as int), clock) == Some(d as int),
                    None => next_due(q.take(i as int), clock) is None,
                },
            decreases self.queue.len() - i,
        {
            assert(q.take(i + 1).drop_last() =~= q.take(i as int));
            assert(q.take(i + 1).last() == q[i as int]);
            let e = &self.queue[i];
            let is_snoozed = match e.snoozed_until_sequence {
                Some(until) => clock < until,
                None => false,
            };
            if !e.acknowledged && !is_snoozed {
                latest = Some(i);
                nvis += 1;
            }
            if !e.acknowledged && is_snoozed {
                npend += 1;
                let until = match e.snoozed_until_sequence {
                    Some(u) => u,
                    None => clock,
                };
                let d = until - clock;
                due = match due {
                    Some(r) => Some(if d < r { d } else { r }),
                    None => Some(d),
                };
            }
            i += 1;
        }
        assert(q.take(self.queue.len() as int) =~= q);
        (latest, nvis, npend, due)
    }

    /// The status line as shown.
    pub fn status_display_text(&self) -> (r: String)
        ensures
            r@ == display_spec(self.status_kind, self.status_text@, self.clock(), self.events()),
    {
        let (latest, nvis, npend, due) = self.counts();
        let mut out = shown_text(self.status_kind, self.status_text.as_str());
        if trim_str(out.as_str()).as_str().is_empty() {
            match latest {
                Some(j) => {
                    out = shown_text(self.queue[j].kind, self.queue[j].text.as_str());
                },
                None => {},
            }
        }
        let queued = if nvis > 0 {
            nvis - 1
        } else {
            0
        };
        if queued > 0 && !trim_str(out.as_str()).as_str().is_empty() {
            push_str(&mut out, " (+");
            push_str(&mut out, u64_to_string(queued as u64).as_str());
            push_str(&mut out, " queued)");
        }
        if npend > 0 {
            let next = match due {
                Some(d) => d,
                None => 0,
            };
            let mut summary = concat("timers:", u64_to_string(npend as u64).as_str());
            push_str(&mut summary, " next:");
            push_str(&mut summary, u64_to_string(next).as_str());
            push_str(&mut summary, "t");
            if trim_str(out.as_str()).as_str().is_empty() {
                out = summary;
            } else {
                push_str(&mut out, " [");
                push_str(&mut out, summary.as_str());
                push_str(&mut out, "]");
            }
        }
        out
    }
}

fn clone_event(e: &NotificationEvent) -> (r: NotificationEvent)
    ensures
        r@ == e@,
{
    NotificationEvent {
        kind: e.kind,
        text: e.text.clone(),
        acknowledged: e.acknowledged,
        escalated: e.escalated,
        snoozed_until_sequence: e.snoozed_until_sequence,
    }
}

fn shown_text(kind: StatusKind, t: &str) -> (r: String)
    ensures
        r@ == shown(kind, t@),
{
    match kind {
        StatusKind::Error => {
            let trimmed = trim_str(t);
            if str_starts_with(trimmed.as_str(), "Error:") {
                trimmed
            } else {
                concat("Error: ", trimmed.as_str())
            }
        },
        _ => copy_string(t),
    }
}


/// A notification snoozed for `ticks` is hidden until the clock has moved
/// on by `ticks`, and shows again from then (while not acknowledged).
pub proof fn law_snooze_hides_until_wake(e: EventModel, clock: u64, ticks: u64, later: u64)
    requires
        !e.acknowledged,
        ticks > 0,
        clock + ticks <= u64::MAX,
    ensures
        ({
            let s = EventModel { snoozed_until: Some(sat_add(clock, ticks)), ..e };
            &&& !visible(s, clock)
            &&& (later < clock + ticks ==> !visible(s, later))
            &&& (later >= clock + ticks ==> visible(s, later))
        }),
{
}

/// An acknowledged notification is never shown and never a pending timer.
pub proof fn law_acknowledged_is_silent(e: EventModel, clock: u64)
    requires
        e.acknowledged,
    ensures
        !visible(e, clock),
        !pending(e, clock),
{
}

/// When nothing is shown and no timer is pending, the status line is the
/// current status as is.
pub proof fn law_plain_status_passes_through(text: Seq<char>, clock: u64, q: Seq<EventModel>)
    requires
        trim(text).len() > 0,
        visible_count(q, clock) <= 1,
        pending_count(q, clock) == 0,
    ensures
        display_spec(StatusKind::Info, text, clock, q) == text,
{
}

} // verus!
