//! Inbox threads and task-claim conflicts derived from the message and
//! claim feeds.
use vstd::prelude::*;

use crate::app::{
    extract_prefixed_token, format_mail_id, inbox_thread_key, mail_id_spec, prefixed_token,
    thread_key_spec, ClaimEventView, HandoffSnapshotView, InboxFilter, InboxMessageView, LoopView,
    StatusKind,
};
use crate::text::{
    concat, copy_string, dec, first_after, first_from, insert_pos, join, join_strings,
    lemma_lex_eq, lex_order, lower, lowercase, order_strings, push_str, sort_by_spec, str_eq, sv,
    trim, trim_str, u64_to_string,
};

verus! {

/// The messages of one conversation, as listed in the inbox.
#[derive(Debug, Clone, Default)]
pub struct InboxThreadView {
    pub thread_key: String,
    pub message_indices: Vec<usize>,
    pub subject: String,
    pub latest_created_at: String,
    pub latest_message_id: i64,
    pub unread_count: usize,
    pub pending_ack_count: usize,
    pub participant_count: usize,
}

/// A task claimed by one agent after another agent had claimed it.
#[derive(Debug, Clone, Default)]
pub struct ClaimConflictView {
    pub task_id: String,
    pub latest_by: String,
    pub previous_by: String,
    pub latest_at: String,
}

// ---------------------------------------------------------------------------
// Threads
// ---------------------------------------------------------------------------

/// A thread while its messages are taken in, in feed order.
pub struct ThreadAcc {
    pub indices: Seq<usize>,
    pub subject: Seq<char>,
    pub latest: Seq<char>,
    pub latest_id: i64,
    pub unread: nat,
    pub pending: nat,
    pub senders: Seq<Seq<char>>,
}

pub open spec fn empty_acc() -> ThreadAcc {
    ThreadAcc {
        indices: Seq::empty(),
        subject: Seq::empty(),
        latest: Seq::empty(),
        latest_id: 0,
        unread: 0,
        pending: 0,
        senders: Seq::empty(),
    }
}

/// The subject a message gives its thread.
pub open spec fn candidate_subject(m: InboxMessageView) -> Seq<char> {
    if trim(m.subject@).len() == 0 {
        "(no subject)"@
    } else {
        trim(m.subject@)
    }
}

/// Message `idx` taken into its thread: the newest message (the later one
/// on equal times) gives the thread its time, id and subject.
pub open spec fn acc_step(t: ThreadAcc, idx: usize, m: InboxMessageView) -> ThreadAcc {
    let cand = candidate_subject(m);
    let subject = if t.subject.len() == 0 {
        cand
    } else {
        t.subject
    };
    let newest = lex_order(m.created_at@, t.latest) >= 0;
    ThreadAcc {
        indices: t.indices.push(idx),
        subject: if newest {
            cand
        } else {
            subject
        },
        latest: if newest {
            m.created_at@
        } else {
            t.latest
        },
        latest_id: if newest {
            m.id
        } else {
            t.latest_id
        },
        unread: t.unread + if m.read_at is None {
            1nat
        } else {
            0nat
        },
        pending: t.pending + if m.ack_required && m.acked_at is None {
            1nat
        } else {
            0nat
        },
        senders: if t.senders.contains(trim(m.from@)) {
            t.senders
        } else {
            t.senders.push(trim(m.from@))
        },
    }
}

/// The thread `key` over the messages of `ms`.
pub open spec fn thread_acc(ms: Seq<InboxMessageView>, key: Seq<char>) -> ThreadAcc
    decreases ms.len(),
{
    if ms.len() == 0 {
        empty_acc()
    } else if thread_key_spec(ms.last()) == key {
        acc_step(thread_acc(ms.drop_last(), key), (ms.len() - 1) as usize, ms.last())
    } else {
        thread_acc(ms.drop_last(), key)
    }
}

/// The thread keys of `ms`, in order of first appearance.
pub open spec fn keys_of(ms: Seq<InboxMessageView>) -> Seq<Seq<char>>
    decreases ms.len(),
{
    if ms.len() == 0 {
        Seq::empty()
    } else if keys_of(ms.drop_last()).contains(thread_key_spec(ms.last())) {
        keys_of(ms.drop_last())
    } else {
        keys_of(ms.drop_last()).push(thread_key_spec(ms.last()))
    }
}

/// Message `a` was created before message `b`.
pub open spec fn created_before(ms: Seq<InboxMessageView>) -> spec_fn(usize, usize) -> bool {
    |a: usize, b: usize| lex_order(ms[a as int].created_at@, ms[b as int].created_at@) < 0
}

/// A thread as listed: its indices ordered by creation time (feed order on
/// equal times) and the number of distinct senders.
pub open spec fn thread_matches(v: InboxThreadView, ms: Seq<InboxMessageView>, key: Seq<char>) -> bool {
    let t = thread_acc(ms, key);
    &&& v.thread_key@ == key
    &&& v.message_indices@ == sort_by_spec(t.indices, created_before(ms))
    &&& v.subject@ == t.subject
    &&& v.latest_created_at@ == t.latest
    &&& v.latest_message_id == t.latest_id
    &&& v.unread_count == t.unread
    &&& v.pending_ack_count == t.pending
    &&& v.participant_count == t.senders.len()
}

pub open spec fn passes_filter(t: ThreadAcc, filter: InboxFilter) -> bool {
    match filter {
        InboxFilter::All => true,
        InboxFilter::Unread => t.unread > 0,
        InboxFilter::AckRequired => t.pending > 0,
    }
}

/// Thread `a` lists before `b`: newer latest message first, then the
/// higher latest message id.
pub open spec fn thread_before(a: (Seq<char>, i64), b: (Seq<char>, i64)) -> bool {
    lex_order(a.0, b.0) > 0 || (a.0 == b.0 && a.1 > b.1)
}

/// The keys of the threads kept by the filter, in first-appearance order.
pub open spec fn kept_keys(ms: Seq<InboxMessageView>, ks: Seq<Seq<char>>, filter: InboxFilter) -> Seq<
    Seq<char>,
>
    decreases ks.len(),
{
    if ks.len() == 0 {
        Seq::empty()
    } else if passes_filter(thread_acc(ms, ks.last()), filter) {
        kept_keys(ms, ks.drop_last(), filter).push(ks.last())
    } else {
        kept_keys(ms, ks.drop_last(), filter)
    }
}

pub open spec fn thread_sort_key(ms: Seq<InboxMessageView>, key: Seq<char>) -> (Seq<char>, i64) {
    (thread_acc(ms, key).latest, thread_acc(ms, key).latest_id)
}

pub open spec fn key_before(ms: Seq<InboxMessageView>) -> spec_fn(Seq<char>, Seq<char>) -> bool {
    |a: Seq<char>, b: Seq<char>| thread_before(thread_sort_key(ms, a), thread_sort_key(ms, b))
}

/// The inbox: one thread per thread key that the filter keeps, newest
/// first (threads that tie keep the order in which they first appear).
pub open spec fn threads_spec(ms: Seq<InboxMessageView>, filter: InboxFilter) -> Seq<Seq<char>> {
    sort_by_spec(kept_keys(ms, keys_of(ms), filter), key_before(ms))
}

struct ThreadBuild {
    key: String,
    indices: Vec<usize>,
    subject: String,
    latest: String,
    latest_id: i64,
    unread: usize,
    pending: usize,
    senders: Vec<String>,
}

spec fn build_matches(b: ThreadBuild, t: ThreadAcc) -> bool {
    &&& b.indices@ == t.indices
    &&& b.subject@ == t.subject
    &&& b.latest@ == t.latest
    &&& b.latest_id == t.latest_id
    &&& b.unread == t.unread
    &&& b.pending == t.pending
    &&& sv(b.senders@) == t.senders
}

proof fn lemma_absent_key_empty(ms: Seq<InboxMessageView>, k: Seq<char>)
    requires
        !keys_of(ms).contains(k),
    ensures
        thread_acc(ms, k) == empty_acc(),
    decreases ms.len(),
{
    if ms.len() > 0 {
        if keys_of(ms.drop_last()).contains(k) {
            let j = choose|j: int| 0 <= j < keys_of(ms.drop_last()).len() && keys_of(ms.drop_last())[j] == k;
            if keys_of(ms.drop_last()).contains(thread_key_spec(ms.last())) {
                assert(keys_of(ms)[j] == k);
            } else {
                assert(keys_of(ms)[j] == k);
            }
        }
        if thread_key_spec(ms.last()) == k {
            if !keys_of(ms.drop_last()).contains(thread_key_spec(ms.last())) {
                assert(keys_of(ms).last() == k);
            }
        }
        lemma_absent_key_empty(ms.drop_last(), k);
    }
}

proof fn lemma_keys_distinct(ms: Seq<InboxMessageView>)
    ensures
        forall|a: int, b: int| 0 <= a < b < keys_of(ms).len() ==> keys_of(ms)[a] != keys_of(ms)[b],
    decreases ms.len(),
{
    if ms.len() > 0 {
        lemma_keys_distinct(ms.drop_last());
        let prev = keys_of(ms.drop_last());
        let k = thread_key_spec(ms.last());
        if !prev.contains(k) {
            let ks = keys_of(ms);
            assert(ks == prev.push(k));
            assert forall|a: int, b: int| 0 <= a < b < ks.len() implies ks[a] != ks[b] by {
                if b == ks.len() - 1 {
                    assert(ks[a] == prev[a]);
                    if ks[a] == k {
                        assert(prev.contains(k));
                    }
                } else {
                    assert(ks[a] == prev[a]);
                    assert(ks[b] == prev[b]);
                }
            }
        }
    }
}

fn clone_messages_key_view(m: &InboxMessageView) -> (r: String)
    ensures
        r@ == thread_key_spec(*m),
{
    inbox_thread_key(m)
}

fn subject_candidate(m: &InboxMessageView) -> (r: String)
    ensures
        r@ == candidate_subject(*m),
{
    let t = trim_str(m.subject.as_str());
    if t.as_str().is_empty() {
        copy_string("(no subject)")
    } else {
        t
    }
}

fn holds(v: &Vec<String>, s: &str) -> (r: bool)
    ensures
        r == sv(v@).contains(s@),
{
    let mut i: usize = 0;
    while i < v.len()
        invariant
            i <= v.len(),
            forall|k: int| 0 <= k < i ==> sv(v@)[k] != s@,
        decreases v.len() - i,
    {
        if str_eq(v[i].as_str(), s) {
            assert(sv(v@)[i as int] == s@);
            return true;
        }
        i += 1;
    }
    proof {
        if sv(v@).contains(s@) {
            let k = choose|k: int| 0 <= k < sv(v@).len() && sv(v@)[k] == s@;
            assert(sv(v@)[k] != s@);
        }
    }
    false
}

fn build_step(b: &mut ThreadBuild, idx: usize, m: &InboxMessageView)
    requires
        old(b).unread < usize::MAX,
        old(b).pending < usize::MAX,
    ensures
        forall|t: ThreadAcc| build_matches(*old(b), t) ==> build_matches(*final(b), acc_step(t, idx, *m)),
        final(b).key == old(b).key,
        final(b).unread <= old(b).unread + 1,
        final(b).pending <= old(b).pending + 1,
{
    let ghost prev_senders = sv(b.senders@);
    b.indices.push(idx);
    let cand = subject_candidate(m);
    if b.subject.as_str().is_empty() {
        b.subject = cand.clone();
    }
    if order_strings(m.created_at.as_str(), b.latest.as_str()) >= 0 {
        b.latest = m.created_at.clone();
        b.latest_id = m.id;
        b.subject = cand;
    }
    if m.read_at.is_none() {
        b.unread += 1;
    }
    if m.ack_required && m.acked_at.is_none() {
        b.pending += 1;
    }
    let sender = trim_str(m.from.as_str());
    if !holds(&b.senders, sender.as_str()) {
        let ghost sw = sender@;
        b.senders.push(sender);
        assert(sv(b.senders@) =~= prev_senders.push(sw));
    }
}

fn index_insert_pos(list: &Vec<usize>, x: usize, ms: &Vec<InboxMessageView>) -> (r: usize)
    requires
        x < ms@.len(),
        forall|k: int| 0 <= k < list@.len() ==> list@[k] < ms@.len(),
    ensures
        r as int == insert_pos(list@, created_before(ms@), x),
        r <= list.len(),
{
    let ghost before = created_before(ms@);
    let mut j: usize = 0;
    while j < list.len()
        invariant
            j <= list.len(),
            x < ms@.len(),
            forall|k: int| 0 <= k < list@.len() ==> list@[k] < ms@.len(),
            before == created_before(ms@),
            first_from(0, list@.len() as int, first_after(list@, before, x)) == first_from(
                j as int,
                list@.len() as int,
                first_after(list@, before, x),
            ),
        decreases list.len() - j,
    {
        let e = list[j];
        if order_strings(ms[x].created_at.as_str(), ms[e].created_at.as_str()) < 0 {
            assert(first_after(list@, before, x)(j as int));
            return j;
        }
        assert(!first_after(list@, before, x)(j as int));
        j += 1;
    }
    j
}

fn sort_indices(indices: &Vec<usize>, ms: &Vec<InboxMessageView>) -> (r: Vec<usize>)
    requires
        forall|k: int| 0 <= k < indices@.len() ==> indices@[k] < ms@.len(),
    ensures
        r@ == sort_by_spec(indices@, created_before(ms@)),
{
    let ghost before = created_before(ms@);
    let mut sorted: Vec<usize> = Vec::new();
    let mut k: usize = 0;
    while k < indices.len()
        invariant
            k <= indices.len(),
            forall|q: int| 0 <= q < indices@.len() ==> indices@[q] < ms@.len(),
            forall|q: int| 0 <= q < sorted@.len() ==> sorted@[q] < ms@.len(),
            before == created_before(ms@),
            sorted@ == sort_by_spec(indices@.take(k as int), before),
        decreases indices.len() - k,
    {
        assert(indices@.take(k + 1).drop_last() =~= indices@.take(k as int));
        assert(indices@.take(k + 1).last() == indices@[k as int]);
        let x = indices[k];
        let j = index_insert_pos(&sorted, x, ms);
        sorted.insert(j, x);
        k += 1;
    }
    assert(indices@.take(indices.len() as int) =~= indices@);
    sorted
}

fn find_build(builds: &Vec<ThreadBuild>, key: &str) -> (r: Option<usize>)
    ensures
        match r {
            Some(j) => j < builds@.len() && builds@[j as int].key@ == key@,
            None => forall|j: int| 0 <= j < builds@.len() ==> builds@[j].key@ != key@,
        },
{
    let mut j: usize = 0;
    while j < builds.len()
        invariant
            j <= builds.len(),
            forall|q: int| 0 <= q < j ==> builds@[q].key@ != key@,
        decreases builds.len() - j,
    {
        if str_eq(builds[j].key.as_str(), key) {
            return Some(j);
        }
        j += 1;
    }
    None
}

spec fn builds_ok(builds: Seq<ThreadBuild>, ms: Seq<InboxMessageView>, n: int) -> bool {
    let ks = keys_of(ms.take(n));
    &&& builds.len() == ks.len()
    &&& forall|j: int|
        0 <= j < builds.len() ==> {
            &&& (#[trigger] builds[j]).key@ == ks[j]
            &&& build_matches(builds[j], thread_acc(ms.take(n), ks[j]))
            &&& builds[j].unread <= n
            &&& builds[j].pending <= n
            &&& forall|q: int| 0 <= q < builds[j].indices@.len() ==> builds[j].indices@[q] < n
        }
}

fn group_threads(messages: &Vec<InboxMessageView>) -> (r: Vec<ThreadBuild>)
    ensures
        builds_ok(r@, messages@, messages@.len() as int),
{
    let ghost ms = messages@;
    let mut builds: Vec<ThreadBuild> = Vec::new();
    let mut i: usize = 0;
    assert(keys_of(ms.take(0)) =~= Seq::<Seq<char>>::empty()) by {
        assert(ms.take(0) =~= Seq::<InboxMessageView>::empty());
    }
    while i < messages.len()
        invariant
            i <= messages.len(),
            ms == messages@,
            builds_ok(builds@, ms, i as int),
        decreases messages.len() - i,
    {
        let ghost s0 = ms.take(i as int);
        let ghost s1 = ms.take(i + 1);
        assert(s1.drop_last() =~= s0);
        assert(s1.last() == ms[i as int]);
        let ghost ks0 = keys_of(s0);
        proof {
            lemma_keys_distinct(s0);
        }
        let key = inbox_thread_key(&messages[i]);
        let ghost k = key@;
        match find_build(&builds, key.as_str()) {
            Some(j) => {
                assert(ks0[j as int] == k);
                assert(ks0.contains(k));
                assert(keys_of(s1) == ks0);
                let ghost old_builds = builds@;
                let mut b = builds.remove(j);
                build_step(&mut b, i, &messages[i]);
                builds.insert(j, b);
                assert forall|q: int| 0 <= q < builds@.len() implies {
                    &&& (#[trigger] builds@[q]).key@ == keys_of(s1)[q]
                    &&& build_matches(builds@[q], thread_acc(s1, keys_of(s1)[q]))
                    &&& builds@[q].unread <= i + 1
                    &&& builds@[q].pending <= i + 1
                    &&& forall|p: int| 0 <= p < builds@[q].indices@.len() ==> builds@[q].indices@[p] < i + 1
                } by {
                    if q == j {
                        assert(thread_acc(s1, k) == acc_step(thread_acc(s0, k), i, ms[i as int]));
                    } else {
                        assert(builds@[q] == old_builds[q]);
                        assert(ks0[q] != ks0[j as int]);
                        assert(thread_acc(s1, ks0[q]) == thread_acc(s0, ks0[q]));
                    }
                }
            },
            None => {
                assert(!ks0.contains(k)) by {
                    if ks0.contains(k) {
                        let q = choose|q: int| 0 <= q < ks0.len() && ks0[q] == k;
                        assert(builds@[q].key@ == ks0[q]);
                    }
                }
                proof {
                    lemma_absent_key_empty(s0, k);
                }
                assert(keys_of(s1) == ks0.push(k));
                let mut b = ThreadBuild {
                    key,
                    indices: Vec::new(),
                    subject: String::new(),
                    latest: String::new(),
                    latest_id: 0,
                    unread: 0,
                    pending: 0,
                    senders: Vec::new(),
                };
                assert(sv(b.senders@) =~= Seq::<Seq<char>>::empty());
                assert(build_matches(b, empty_acc()));
                build_step(&mut b, i, &messages[i]);
                let ghost old_builds = builds@;
                builds.push(b);
                assert forall|q: int| 0 <= q < builds@.len() implies {
                    &&& (#[trigger] builds@[q]).key@ == keys_of(s1)[q]
                    &&& build_matches(builds@[q], thread_acc(s1, keys_of(s1)[q]))
                    &&& builds@[q].unread <= i + 1
                    &&& builds@[q].pending <= i + 1
                    &&& forall|p: int| 0 <= p < builds@[q].indices@.len() ==> builds@[q].indices@[p] < i + 1
                } by {
                    if q == old_builds.len() {
                        assert(thread_acc(s1, k) == acc_step(thread_acc(s0, k), i, ms[i as int]));
                    } else {
                        assert(builds@[q] == old_builds[q]);
                        assert(ks0[q] != k);
                        assert(thread_acc(s1, ks0[q]) == thread_acc(s0, ks0[q]));
                    }
                }
            },
        }
        i += 1;
    }
    assert(ms.take(messages.len() as int) =~= ms);
    builds
}

fn finish_thread(b: &ThreadBuild, ms: &Vec<InboxMessageView>) -> (r: InboxThreadView)
    requires
        forall|q: int| 0 <= q < b.indices@.len() ==> b.indices@[q] < ms@.len(),
    ensures
        forall|t: ThreadAcc| #![auto] build_matches(*b, t) ==> {
            &&& r.thread_key@ == b.key@
            &&& r.message_indices@ == sort_by_spec(t.indices, created_before(ms@))
            &&& r.subject@ == t.subject
            &&& r.latest_created_at@ == t.latest
            &&& r.latest_message_id == t.latest_id
            &&& r.unread_count == t.unread
            &&& r.pending_ack_count == t.pending
            &&& r.participant_count == t.senders.len()
        },
{
    InboxThreadView {
        thread_key: b.key.clone(),
        message_indices: sort_indices(&b.indices, ms),
        subject: b.subject.clone(),
        latest_created_at: b.latest.clone(),
        latest_message_id: b.latest_id,
        unread_count: b.unread,
        pending_ack_count: b.pending,
        participant_count: b.senders.len(),
    }
}

fn thread_insert_index(
    sorted: &Vec<InboxThreadView>,
    x: &InboxThreadView,
    Ghost(ms): Ghost<Seq<InboxMessageView>>,
    Ghost(keys): Ghost<Seq<Seq<char>>>,
    Ghost(xk): Ghost<Seq<char>>,
) -> (r: usize)
    requires
        sorted@.len() == keys.len(),
        forall|q: int| 0 <= q < keys.len() ==> #[trigger] thread_matches(sorted@[q], ms, keys[q]),
        thread_matches(*x, ms, xk),
    ensures
        r as int == insert_pos(keys, key_before(ms), xk),
        r <= sorted.len(),
{
    let ghost before = key_before(ms);
    let mut j: usize = 0;
    while j < sorted.len()
        invariant
            j <= sorted.len(),
            sorted@.len() == keys.len(),
            forall|q: int| 0 <= q < keys.len() ==> #[trigger] thread_matches(sorted@[q], ms, keys[q]),
            thread_matches(*x, ms, xk),
            before == key_before(ms),
            first_from(0, keys.len() as int, first_after(keys, before, xk)) == first_from(
                j as int,
                keys.len() as int,
                first_after(keys, before, xk),
            ),
        decreases sorted.len() - j,
    {
        let e = &sorted[j];
        assert(thread_matches(sorted@[j as int], ms, keys[j as int]));
        let by_time = order_strings(x.latest_created_at.as_str(), e.latest_created_at.as_str());
        proof {
            lemma_lex_eq(x.latest_created_at@, e.latest_created_at@);
        }
        if by_time > 0 || (by_time == 0 && x.latest_message_id > e.latest_message_id) {
            assert(first_after(keys, before, xk)(j as int));
            return j;
        }
        assert(!first_after(keys, before, xk)(j as int));
        j += 1;
    }
    j
}

/// The inbox threads of a message feed under a filter, newest first. Each
/// thread's message indices point into `messages`. (Threads that tie on
/// time and id keep the order in which their keys first appear.)
pub fn inbox_threads(messages: &Vec<InboxMessageView>, filter: InboxFilter) -> (r: Vec<
    InboxThreadView,
>)
    ensures
        r@.len() == threads_spec(messages@, filter).len(),
        forall|i: int|
            0 <= i < r@.len() ==> #[trigger] thread_matches(
                r@[i],
                messages@,
                threads_spec(messages@, filter)[i],
            ),
{
    let ghost ms = messages@;
    let builds = group_threads(messages);
    let ghost ks = keys_of(ms);
    assert(ms.take(ms.len() as int) =~= ms);
    let mut kept: Vec<InboxThreadView> = Vec::new();
    let mut j: usize = 0;
    while j < builds.len()
        invariant
            j <= builds.len(),
            ms == messages@,
            ks == keys_of(ms),
            builds_ok(builds@, ms, ms.len() as int),
            ms.take(ms.len() as int) == ms,
            kept@.len() == kept_keys(ms, ks.take(j as int), filter).len(),
            forall|q: int|
                0 <= q < kept@.len() ==> #[trigger] thread_matches(
                    kept@[q],
                    ms,
                    kept_keys(ms, ks.take(j as int), filter)[q],
                ),
        decreases builds.len() - j,
    {
        assert(ks.take(j + 1).drop_last() =~= ks.take(j as int));
        assert(ks.take(j + 1).last() == ks[j as int]);
        let b = &builds[j];
        assert(build_matches(builds@[j as int], thread_acc(ms, ks[j as int])));
        let keep = match filter {
            InboxFilter::All => true,
            InboxFilter::Unread => b.unread > 0,
            InboxFilter::AckRequired => b.pending > 0,
        };
        if keep {
            let v = finish_thread(b, messages);
            assert(thread_matches(v, ms, ks[j as int]));
            kept.push(v);
        }
        j += 1;
    }
    assert(ks.take(builds.len() as int) =~= ks);
    let ghost kk = kept_keys(ms, ks, filter);
    let ghost before = key_before(ms);
    let mut rest = kept;
    let mut sorted: Vec<InboxThreadView> = Vec::new();
    let ghost mut sorted_keys: Seq<Seq<char>> = Seq::empty();
    let mut k: usize = 0;
    let n = rest.len();
    while rest.len() > 0
        invariant
            k + rest.len() == n,
            n == kk.len(),
            before == key_before(ms),
            forall|q: int| 0 <= q < rest@.len() ==> thread_matches(#[trigger] rest@[q], ms, kk[q + k]),
            sorted_keys == sort_by_spec(kk.take(k as int), before),
            sorted@.len() == sorted_keys.len(),
            forall|q: int| 0 <= q < sorted@.len() ==> #[trigger] thread_matches(sorted@[q], ms, sorted_keys[q]),
        decreases rest.len(),
    {
        assert(kk.take(k + 1).drop_last() =~= kk.take(k as int));
        assert(kk.take(k + 1).last() == kk[k as int]);
        assert(thread_matches(rest@[0], ms, kk[k as int]));
        let ghost old_rest = rest@;
        let x = rest.remove(0);
        assert forall|q: int| 0 <= q < rest@.len() implies thread_matches(#[trigger] rest@[q], ms, kk[q + (k + 1)]) by {
            assert(rest@[q] == old_rest[q + 1]);
            assert(thread_matches(old_rest[q + 1], ms, kk[q + 1 + k]));
        }
        let pos = thread_insert_index(&sorted, &x, Ghost(ms), Ghost(sorted_keys), Ghost(kk[k as int]));
        let ghost old_sorted = sorted@;
        let ghost old_keys = sorted_keys;
        sorted.insert(pos, x);
        proof {
            sorted_keys = old_keys.insert(pos as int, kk[k as int]);
            assert forall|q: int| 0 <= q < sorted@.len() implies #[trigger] thread_matches(sorted@[q], ms, sorted_keys[q]) by {
                if q < pos {
                    assert(sorted@[q] == old_sorted[q]);
                } else if q > pos {
                    assert(sorted@[q] == old_sorted[q - 1]);
                }
            }
        }
        k += 1;
    }
    assert(kk.take(k as int) =~= kk);
    sorted
}

// ---------------------------------------------------------------------------
// Claim conflicts
// ---------------------------------------------------------------------------

/// The task ids claimed in `es` (blank ones left out), in order of first
/// appearance.
pub open spec fn task_keys(es: Seq<ClaimEventView>) -> Seq<Seq<char>>
    decreases es.len(),
{
    if es.len() == 0 {
        Seq::empty()
    } else {
        let prev = task_keys(es.drop_last());
        let t = es.last().task_id@;
        if trim(t).len() == 0 || prev.contains(t) {
            prev
        } else {
            prev.push(t)
        }
    }
}

/// (claimed by, claimed at) of the claims of task `k`, in feed order.
pub open spec fn claims_of(es: Seq<ClaimEventView>, k: Seq<char>) -> Seq<(Seq<char>, Seq<char>)>
    decreases es.len(),
{
    if es.len() == 0 {
        Seq::empty()
    } else if es.last().task_id@ == k {
        claims_of(es.drop_last(), k).push((es.last().claimed_by@, es.last().claimed_at@))
    } else {
        claims_of(es.drop_last(), k)
    }
}

pub open spec fn other_claimant(cs: Seq<(Seq<char>, Seq<char>)>) -> spec_fn(int) -> bool {
    |j: int| j >= 1 && trim(cs[j].0).len() > 0 && cs[j].0 != cs[0].0
}

/// The conflict in a task's claims: the first claim in the feed against
/// the first later claim by someone else; (latest by, previous by, at).
pub open spec fn conflict_of(cs: Seq<(Seq<char>, Seq<char>)>) -> Option<(Seq<char>, Seq<char>, Seq<char>)> {
    if cs.len() < 2 {
        None
    } else {
        match first_from(1, cs.len() as int, other_claimant(cs)) {
            Some(j) => Some((cs[0].0, cs[j].0, cs[0].1)),
            None => None,
        }
    }
}

/// The conflicting tasks among `ks`, in order, as (task, latest by,
/// previous by, at).
pub open spec fn conflicts_in(es: Seq<ClaimEventView>, ks: Seq<Seq<char>>) -> Seq<
    (Seq<char>, Seq<char>, Seq<char>, Seq<char>),
>
    decreases ks.len(),
{
    if ks.len() == 0 {
        Seq::empty()
    } else {
        let rest = conflicts_in(es, ks.drop_last());
        match conflict_of(claims_of(es, ks.last())) {
            Some((latest_by, previous_by, at)) => rest.push((ks.last(), latest_by, previous_by, at)),
            None => rest,
        }
    }
}

/// Newest conflict first, then by task id.
pub open spec fn conflict_before(
    a: (Seq<char>, Seq<char>, Seq<char>, Seq<char>),
    b: (Seq<char>, Seq<char>, Seq<char>, Seq<char>),
) -> bool {
    lex_order(a.3, b.3) > 0 || (a.3 == b.3 && lex_order(a.0, b.0) < 0)
}

pub open spec fn conflicts_spec(es: Seq<ClaimEventView>) -> Seq<(Seq<char>, Seq<char>, Seq<char>, Seq<char>)> {
    sort_by_spec(
        conflicts_in(es, task_keys(es)),
        |a: (Seq<char>, Seq<char>, Seq<char>, Seq<char>), b: (Seq<char>, Seq<char>, Seq<char>, Seq<char>)|
            conflict_before(a, b),
    )
}

pub open spec fn conflict_view(c: ClaimConflictView) -> (Seq<char>, Seq<char>, Seq<char>, Seq<char>) {
    (c.task_id@, c.latest_by@, c.previous_by@, c.latest_at@)
}

fn task_key_list(events: &Vec<ClaimEventView>) -> (r: Vec<String>)
    ensures
        sv(r@) == task_keys(events@),
{
    let mut keys: Vec<String> = Vec::new();
    let mut i: usize = 0;
    while i < events.len()
        invariant
            i <= events.len(),
            sv(keys@) == task_keys(events@.take(i as int)),
        decreases events.len() - i,
    {
        assert(events@.take(i + 1).drop_last() =~= events@.take(i as int));
        assert(events@.take(i + 1).last() == events@[i as int]);
        let t = events[i].task_id.as_str();
        if !trim_str(t).as_str().is_empty() && !holds(&keys, t) {
            let ghost prev = sv(keys@);
            keys.push(copy_string(t));
            assert(sv(keys@) =~= prev.push(t@));
        }
        i += 1;
    }
    assert(events@.take(events.len() as int) =~= events@);
    keys
}

pub open spec fn pairs_view(v: Seq<(String, String)>) -> Seq<(Seq<char>, Seq<char>)> {
    v.map_values(|p: (String, String)| (p.0@, p.1@))
}

fn claims_for(events: &Vec<ClaimEventView>, k: &str) -> (r: Vec<(String, String)>)
    ensures
        pairs_view(r@) == claims_of(events@, k@),
{
    let mut out: Vec<(String, String)> = Vec::new();
    let mut i: usize = 0;
    while i < events.len()
        invariant
            i <= events.len(),
            pairs_view(out@) == claims_of(events@.take(i as int), k@),
        decreases events.len() - i,
    {
        assert(events@.take(i + 1).drop_last() =~= events@.take(i as int));
        assert(events@.take(i + 1).last() == events@[i as int]);
        if str_eq(events[i].task_id.as_str(), k) {
            let ghost prev = out@;
            let p = (events[i].claimed_by.clone(), events[i].claimed_at.clone());
            let ghost pv = (p.0@, p.1@);
            out.push(p);
            assert(pairs_view(out@) =~= pairs_view(prev).push(pv));
        }
        i += 1;
    }
    assert(events@.take(events.len() as int) =~= events@);
    out
}

fn conflict_for(task: &str, cs: &Vec<(String, String)>) -> (r: Option<ClaimConflictView>)
    ensures
        match r {
            Some(c) => conflict_of(pairs_view(cs@)) matches Some((l, p, at)) && conflict_view(c) == (
                task@,
                l,
                p,
                at,
            ),
            None => conflict_of(pairs_view(cs@)) is None,
        },
{
    let ghost v = pairs_view(cs@);
    if cs.len() < 2 {
        return None;
    }
    let mut j: usize = 1;
    while j < cs.len()
        invariant
            1 <= j <= cs.len(),
            v == pairs_view(cs@),
            first_from(1, v.len() as int, other_claimant(v)) == first_from(
                j as int,
                v.len() as int,
                other_claimant(v),
            ),
        decreases cs.len() - j,
    {
        assert(v[j as int] == (cs@[j as int].0@, cs@[j as int].1@));
        assert(v[0] == (cs@[0].0@, cs@[0].1@));
        if !trim_str(cs[j].0.as_str()).as_str().is_empty() && !str_eq(cs[j].0.as_str(), cs[0].0.as_str()) {
            assert(other_claimant(v)(j as int));
            return Some(
                ClaimConflictView {
                    task_id: copy_string(task),
                    latest_by: cs[0].0.clone(),
                    previous_by: cs[j].0.clone(),
                    latest_at: cs[0].1.clone(),
                },
            );
        }
        assert(!other_claimant(v)(j as int));
        j += 1;
    }
    None
}

fn conflict_insert_index(sorted: &Vec<ClaimConflictView>, x: &ClaimConflictView) -> (r: usize)
    ensures
        r as int == insert_pos(
            sorted@.map_values(|c: ClaimConflictView| conflict_view(c)),
            |a: (Seq<char>, Seq<char>, Seq<char>, Seq<char>), b: (Seq<char>, Seq<char>, Seq<char>, Seq<char>)|
                conflict_before(a, b),
            conflict_view(*x),
        ),
        r <= sorted.len(),
{
    let ghost s = sorted@.map_values(|c: ClaimConflictView| conflict_view(c));
    let ghost before = |a: (Seq<char>, Seq<char>, Seq<char>, Seq<char>), b: (Seq<char>, Seq<char>, Seq<char>, Seq<char>)|
        conflict_before(a, b);
    let ghost xv = conflict_view(*x);
    let mut j: usize = 0;
    while j < sorted.len()
        invariant
            j <= sorted.len(),
            s == sorted@.map_values(|c: ClaimConflictView| conflict_view(c)),
            xv == conflict_view(*x),
            before == |a: (Seq<char>, Seq<char>, Seq<char>, Seq<char>), b: (Seq<char>, Seq<char>, Seq<char>, Seq<char>)|
                conflict_before(a, b),
            first_from(0, s.len() as int, first_after(s, before, xv)) == first_from(
                j as int,
                s.len() as int,
                first_after(s, before, xv),
            ),
        decreases sorted.len() - j,
    {
        let e = &sorted[j];
        assert(s[j as int] == conflict_view(*e));
        let by_time = order_strings(x.latest_at.as_str(), e.latest_at.as_str());
        proof {
            lemma_lex_eq(x.latest_at@, e.latest_at@);
        }
        if by_time > 0 || (by_time == 0 && order_strings(x.task_id.as_str(), e.task_id.as_str()) < 0) {
            assert(first_after(s, before, xv)(j as int));
            return j;
        }
        assert(!first_after(s, before, xv)(j as int));
        j += 1;
    }
    j
}

/// Tasks whose claims conflict: one per task, newest first, then by task
/// id.
pub fn claim_conflicts(events: &Vec<ClaimEventView>) -> (r: Vec<ClaimConflictView>)
    ensures
        r@.map_values(|c: ClaimConflictView| conflict_view(c)) == conflicts_spec(events@),
{
    let keys = task_key_list(events);
    let ghost ks = sv(keys@);
    let ghost all = conflicts_in(events@, ks);
    let ghost before = |a: (Seq<char>, Seq<char>, Seq<char>, Seq<char>), b: (Seq<char>, Seq<char>, Seq<char>, Seq<char>)|
        conflict_before(a, b);
    let mut sorted: Vec<ClaimConflictView> = Vec::new();
    let mut i: usize = 0;
    while i < keys.len()
        invariant
            i <= keys.len(),
            ks == sv(keys@),
            ks == task_keys(events@),
            before == |a: (Seq<char>, Seq<char>, Seq<char>, Seq<char>), b: (Seq<char>, Seq<char>, Seq<char>, Seq<char>)|
                conflict_before(a, b),
            sorted@.map_values(|c: ClaimConflictView| conflict_view(c)) == sort_by_spec(
                conflicts_in(events@, ks.take(i as int)),
                before,
            ),
        decreases keys.len() - i,
    {
        assert(ks.take(i + 1).drop_last() =~= ks.take(i as int));
        assert(ks.take(i + 1).last() == ks[i as int]);
        let cs = claims_for(events, keys[i].as_str());
        match conflict_for(keys[i].as_str(), &cs) {
            Some(c) => {
                let j = conflict_insert_index(&sorted, &c);
                let ghost prev = sorted@;
                let ghost cv = conflict_view(c);
                sorted.insert(j, c);
                assert(sorted@.map_values(|c: ClaimConflictView| conflict_view(c)) =~= prev.map_values(
                    |c: ClaimConflictView| conflict_view(c),
                ).insert(j as int, cv));
                let ghost prevc = conflicts_in(events@, ks.take(i as int));
                assert(conflicts_in(events@, ks.take(i + 1)) == prevc.push(cv));
                assert(prevc.push(cv).drop_last() =~= prevc);
                assert(prevc.push(cv).last() == cv);
                assert(sort_by_spec(prevc.push(cv), before) == sort_by_spec(prevc, before).insert(
                    insert_pos(sort_by_spec(prevc, before), before, cv),
                    cv,
                ));
            },
            None => {},
        }
        i += 1;
    }
    assert(ks.take(keys.len() as int) =~= ks);
    sorted
}


proof fn lemma_thread_indices(ms: Seq<InboxMessageView>, k: Seq<char>, idx: usize)
    requires
        ms.len() <= usize::MAX,
    ensures
        thread_acc(ms, k).indices.contains(idx) <==> (idx < ms.len() && thread_key_spec(ms[idx as int]) == k),
    decreases ms.len(),
{
    if ms.len() > 0 {
        let m0 = ms.drop_last();
        lemma_thread_indices(m0, k, idx);
        let last = (ms.len() - 1) as usize;
        if idx < m0.len() {
            assert(m0[idx as int] == ms[idx as int]);
        }
        if thread_key_spec(ms.last()) == k {
            let pre = thread_acc(m0, k).indices;
            assert(thread_acc(ms, k).indices == pre.push(last));
            if idx == last {
                assert(pre.push(last)[pre.len() as int] == idx);
            } else if pre.push(last).contains(idx) {
                let q = choose|q: int| 0 <= q < pre.push(last).len() && pre.push(last)[q] == idx;
                assert(pre[q] == idx);
            } else if pre.contains(idx) {
                let q = choose|q: int| 0 <= q < pre.len() && pre[q] == idx;
                assert(pre.push(last)[q] == idx);
            }
        }
    }
}

proof fn lemma_keys_cover(ms: Seq<InboxMessageView>, idx: int)
    requires
        0 <= idx < ms.len(),
    ensures
        keys_of(ms).contains(thread_key_spec(ms[idx])),
    decreases ms.len(),
{
    let m0 = ms.drop_last();
    let k = thread_key_spec(ms.last());
    if idx < m0.len() {
        lemma_keys_cover(m0, idx);
        assert(m0[idx] == ms[idx]);
        if !keys_of(m0).contains(k) {
            let q = choose|q: int| 0 <= q < keys_of(m0).len() && keys_of(m0)[q] == thread_key_spec(ms[idx]);
            assert(keys_of(ms)[q] == thread_key_spec(ms[idx]));
        }
    } else if !keys_of(m0).contains(k) {
        assert(keys_of(ms)[keys_of(m0).len() as int] == k);
    }
}

proof fn lemma_kept_all(ms: Seq<InboxMessageView>, ks: Seq<Seq<char>>)
    ensures
        kept_keys(ms, ks, InboxFilter::All) == ks,
    decreases ks.len(),
{
    if ks.len() > 0 {
        lemma_kept_all(ms, ks.drop_last());
        assert(ks.drop_last().push(ks.last()) =~= ks);
    }
}

/// With no filter, every message of the feed is listed in exactly one
/// thread.
pub proof fn law_each_message_in_one_thread(ms: Seq<InboxMessageView>, idx: usize)
    requires
        ms.len() <= usize::MAX,
        idx < ms.len(),
    ensures
        ({
            let ks = threads_spec(ms, InboxFilter::All);
            &&& exists|i: int| 0 <= i < ks.len() && #[trigger] sort_by_spec(thread_acc(ms, ks[i]).indices, created_before(ms)).contains(idx)
            &&& forall|i: int, j: int| 0 <= i < ks.len() && 0 <= j < ks.len()
                && sort_by_spec(thread_acc(ms, ks[i]).indices, created_before(ms)).contains(idx)
                && sort_by_spec(thread_acc(ms, ks[j]).indices, created_before(ms)).contains(idx) ==> i == j
        }),
{
    let ks0 = keys_of(ms);
    lemma_kept_all(ms, ks0);
    let ks = threads_spec(ms, InboxFilter::All);
    crate::text::lemma_sort_by_items(ks0, key_before(ms));
    lemma_keys_distinct(ms);
    assert(ks0.no_duplicates());
    let key = thread_key_spec(ms[idx as int]);
    lemma_keys_cover(ms, idx as int);
    assert(ks.contains(key));
    let i0 = choose|i: int| 0 <= i < ks.len() && ks[i] == key;
    lemma_thread_indices(ms, key, idx);
    crate::text::lemma_sort_by_items(thread_acc(ms, key).indices, created_before(ms));
    assert(sort_by_spec(thread_acc(ms, ks[i0]).indices, created_before(ms)).contains(idx));
    assert forall|i: int, j: int| 0 <= i < ks.len() && 0 <= j < ks.len()
        && sort_by_spec(thread_acc(ms, ks[i]).indices, created_before(ms)).contains(idx)
        && sort_by_spec(thread_acc(ms, ks[j]).indices, created_before(ms)).contains(idx) implies i == j by {
        crate::text::lemma_sort_by_items(thread_acc(ms, ks[i]).indices, created_before(ms));
        crate::text::lemma_sort_by_items(thread_acc(ms, ks[j]).indices, created_before(ms));
        lemma_thread_indices(ms, ks[i], idx);
        lemma_thread_indices(ms, ks[j], idx);
    }
}


// ---------------------------------------------------------------------------
// Reading and acknowledging threads
// ---------------------------------------------------------------------------

/// `b` is message `a` marked read `now`, nothing else changed.
pub open spec fn marked_read(a: InboxMessageView, b: InboxMessageView) -> bool {
    &&& b.id == a.id
    &&& b.thread_id == a.thread_id
    &&& b.from == a.from
    &&& b.subject == a.subject
    &&& b.body == a.body
    &&& b.created_at == a.created_at
    &&& b.ack_required == a.ack_required
    &&& b.acked_at == a.acked_at
    &&& b.read_at matches Some(s) && s@ == "now"@
}

/// `b` is message `a` acknowledged `now`, nothing else changed.
pub open spec fn marked_acked(a: InboxMessageView, b: InboxMessageView) -> bool {
    &&& b.id == a.id
    &&& b.thread_id == a.thread_id
    &&& b.from == a.from
    &&& b.subject == a.subject
    &&& b.body == a.body
    &&& b.created_at == a.created_at
    &&& b.ack_required == a.ack_required
    &&& b.read_at == a.read_at
    &&& b.acked_at matches Some(s) && s@ == "now"@
}

/// How many distinct messages of `ms` the indices name that are unread.
pub open spec fn newly_read(ms: Seq<InboxMessageView>, idx: Seq<usize>) -> nat
    decreases idx.len(),
{
    if idx.len() == 0 {
        0
    } else {
        let j = idx.last();
        newly_read(ms, idx.drop_last()) + if j < ms.len() && ms[j as int].read_at is None
            && !idx.drop_last().contains(j) {
            1nat
        } else {
            0nat
        }
    }
}

fn clone_opt(s: &Option<String>) -> (r: Option<String>)
    ensures
        r == *s,
{
    match s {
        Some(v) => Some(v.clone()),
        None => None,
    }
}

fn read_copy(m: &InboxMessageView) -> (r: InboxMessageView)
    ensures
        marked_read(*m, r),
{
    InboxMessageView {
        id: m.id,
        thread_id: clone_opt(&m.thread_id),
        from: m.from.clone(),
        subject: m.subject.clone(),
        body: m.body.clone(),
        created_at: m.created_at.clone(),
        ack_required: m.ack_required,
        read_at: Some(copy_string("now")),
        acked_at: clone_opt(&m.acked_at),
    }
}

fn acked_copy(m: &InboxMessageView) -> (r: InboxMessageView)
    ensures
        marked_acked(*m, r),
{
    InboxMessageView {
        id: m.id,
        thread_id: clone_opt(&m.thread_id),
        from: m.from.clone(),
        subject: m.subject.clone(),
        body: m.body.clone(),
        created_at: m.created_at.clone(),
        ack_required: m.ack_required,
        read_at: clone_opt(&m.read_at),
        acked_at: Some(copy_string("now")),
    }
}

/// Marks read, `now`, the unread messages a thread's indices point to;
/// gives how many it marked. Indices past the feed are skipped.
pub fn mark_thread_read(messages: &mut Vec<InboxMessageView>, indices: &Vec<usize>) -> (marked: usize)
    ensures
        final(messages)@.len() == old(messages)@.len(),
        forall|k: int|
            0 <= k < old(messages)@.len() ==> if indices@.contains(k as usize) && old(messages)@[k].read_at
                is None {
                marked_read(old(messages)@[k], #[trigger] final(messages)@[k])
            } else {
                final(messages)@[k] == old(messages)@[k]
            },
        marked == newly_read(old(messages)@, indices@),
{
    let ghost orig = messages@;
    let mut marked: usize = 0;
    let mut t: usize = 0;
    while t < indices.len()
        invariant
            t <= indices.len(),
            messages@.len() == orig.len(),
            marked == newly_read(orig, indices@.take(t as int)),
            marked <= t,
            forall|k: int|
                0 <= k < orig.len() ==> if indices@.take(t as int).contains(k as usize)
                    && orig[k].read_at is None {
                    marked_read(orig[k], #[trigger] messages@[k])
                } else {
                    messages@[k] == orig[k]
                },
        decreases indices.len() - t,
    {
        let j = indices[t];
        let ghost pre = indices@.take(t as int);
        assert(indices@.take(t + 1) =~= pre.push(j));
        assert(indices@.take(t + 1).drop_last() =~= pre);
        if j < messages.len() {
            if messages[j].read_at.is_none() {
                assert(orig[j as int].read_at is None && !pre.contains(j)) by {
                    if pre.contains(j) && orig[j as int].read_at is None {
                        assert(marked_read(orig[j as int], messages@[j as int]));
                    }
                }
                let m = read_copy(&messages[j]);
                messages.set(j, m);
                marked = marked + 1;
            } else {
                assert(!(orig[j as int].read_at is None && !pre.contains(j)));
            }
        }
        assert forall|k: int| 0 <= k < orig.len() implies if indices@.take(t + 1).contains(k as usize)
            && orig[k].read_at is None {
            marked_read(orig[k], #[trigger] messages@[k])
        } else {
            messages@[k] == orig[k]
        } by {
            let cur = indices@.take(t + 1);
            if cur.contains(k as usize) && k != j {
                let q = choose|q: int| 0 <= q < cur.len() && #[trigger] cur[q] == k as usize;
                assert(q < pre.len());
                assert(pre[q] == k as usize);
            }
            if pre.contains(k as usize) {
                let q = choose|q: int| 0 <= q < pre.len() && pre[q] == k as usize;
                assert(indices@.take(t + 1)[q] == k as usize);
            }
            if k == j {
                assert(indices@.take(t + 1)[t as int] == j);
            }
        }
        t += 1;
    }
    assert(indices@.take(indices.len() as int) =~= indices@);
    marked
}

/// The latest position among the indices whose message waits for an
/// acknowledgement.
pub open spec fn last_pending(ms: Seq<InboxMessageView>, idx: Seq<usize>) -> Option<int>
    decreases idx.len(),
{
    if idx.len() == 0 {
        None
    } else {
        let j = idx.last();
        if j < ms.len() && ms[j as int].ack_required && ms[j as int].acked_at is None {
            Some(idx.len() - 1)
        } else {
            last_pending(ms, idx.drop_last())
        }
    }
}

proof fn lemma_last_pending(ms: Seq<InboxMessageView>, idx: Seq<usize>)
    ensures
        last_pending(ms, idx) matches Some(p) ==> 0 <= p < idx.len() && idx[p] < ms.len()
            && ms[idx[p] as int].ack_required && ms[idx[p] as int].acked_at is None,
    decreases idx.len(),
{
    if idx.len() > 0 {
        lemma_last_pending(ms, idx.drop_last());
    }
}

/// Acknowledges, `now`, the latest message of a thread that waits for an
/// acknowledgement; gives its id, or nothing when none waits.
pub fn acknowledge_latest(messages: &mut Vec<InboxMessageView>, indices: &Vec<usize>) -> (r: Option<i64>)
    ensures
        final(messages)@.len() == old(messages)@.len(),
        match last_pending(old(messages)@, indices@) {
            Some(p) => {
                let j = indices@[p] as int;
                &&& r == Some(old(messages)@[j].id)
                &&& marked_acked(old(messages)@[j], final(messages)@[j])
                &&& forall|k: int| 0 <= k < old(messages)@.len() && k != j ==> final(messages)@[k]
                    == old(messages)@[k]
            },
            None => r is None && final(messages)@ == old(messages)@,
        },
{
    proof {
        lemma_last_pending(messages@, indices@);
    }
    let ghost orig = messages@;
    assert(indices@.take(indices.len() as int) =~= indices@);
    let mut t: usize = indices.len();
    while t > 0
        invariant
            t <= indices.len(),
            messages@ == orig,
            orig == old(messages)@,
            last_pending(orig, indices@) == last_pending(orig, indices@.take(t as int)),
        decreases t,
    {
        let j = indices[t - 1];
        assert(indices@.take(t as int).drop_last() =~= indices@.take(t - 1));
        assert(indices@.take(t as int).last() == j);
        if j < messages.len() && messages[j].ack_required && messages[j].acked_at.is_none() {
            assert(last_pending(messages@, indices@.take(t as int)) == Some(t - 1));
            assert(indices@.take(t as int)[t - 1] == indices@[t - 1]);
            let id = messages[j].id;
            let m = acked_copy(&messages[j]);
            let ghost mv = m;
            messages.set(j, m);
            assert(messages@ == orig.update(j as int, mv));
            assert(indices@[t - 1] == j);
            return Some(id);
        }
        t -= 1;
    }
    assert(indices@.take(0) =~= Seq::<usize>::empty());
    None
}

/// The status after marking a thread read.
pub fn read_status(marked: usize) -> (r: (StatusKind, String))
    ensures
        marked == 0 ==> r.0 == StatusKind::Info && r.1@ == "Thread already read"@,
        marked > 0 ==> r.0 == StatusKind::Success && r.1@ == "Marked "@ + dec(marked as nat)
            + " message(s) read"@,
{
    if marked == 0 {
        (StatusKind::Info, copy_string("Thread already read"))
    } else {
        let mut m = concat("Marked ", u64_to_string(marked as u64).as_str());
        push_str(&mut m, " message(s) read");
        (StatusKind::Success, m)
    }
}

/// The status after acknowledging in a thread.
pub fn ack_status(acked: Option<i64>) -> (r: (StatusKind, String))
    ensures
        match acked {
            Some(id) => r.0 == StatusKind::Success && r.1@ == "Acknowledged "@ + mail_id_spec(id),
            None => r.0 == StatusKind::Info && r.1@ == "No pending ack in selected thread"@,
        },
{
    match acked {
        Some(id) => (StatusKind::Success, concat("Acknowledged ", format_mail_id(id).as_str())),
        None => (StatusKind::Info, copy_string("No pending ack in selected thread")),
    }
}

/// The reply shortcut shown for a thread: to the sender of its latest
/// message (`unknown` when blank), on the thread, in reply to that message.
pub fn reply_shortcut_status(latest: &InboxMessageView, thread_key: &str) -> (r: String)
    ensures
        r@ == "Reply shortcut: to "@ + (if trim(latest.from@).len() == 0 {
            "unknown"@
        } else {
            trim(latest.from@)
        }) + ", thread "@ + thread_key@ + ", reply-to "@ + mail_id_spec(latest.id),
{
    let from = trim_str(latest.from.as_str());
    let target = if from.as_str().is_empty() {
        copy_string("unknown")
    } else {
        from
    };
    let mut r = concat("Reply shortcut: to ", target.as_str());
    push_str(&mut r, ", thread ");
    push_str(&mut r, thread_key);
    push_str(&mut r, ", reply-to ");
    push_str(&mut r, format_mail_id(latest.id).as_str());
    r
}


// ---------------------------------------------------------------------------
// Hand-off snapshots
// ---------------------------------------------------------------------------

/// The token with `prefix` a message carries: in its subject, else in its
/// body.
pub open spec fn message_token(m: InboxMessageView, prefix: Seq<char>) -> Option<Seq<char>> {
    match prefixed_token(m.subject@, prefix) {
        Some(t) => Some(t),
        None => prefixed_token(m.body@, prefix),
    }
}

/// The token with `prefix` of the latest message of a thread that carries
/// one; indices past the feed are skipped.
pub open spec fn thread_token(ms: Seq<InboxMessageView>, idx: Seq<usize>, prefix: Seq<char>) -> Option<
    Seq<char>,
>
    decreases idx.len(),
{
    if idx.len() == 0 {
        None
    } else {
        let j = idx.last();
        if j < ms.len() && message_token(ms[j as int], prefix) is Some {
            message_token(ms[j as int], prefix)
        } else {
            thread_token(ms, idx.drop_last(), prefix)
        }
    }
}

pub open spec fn opt_string_view(o: Option<String>) -> Option<Seq<char>> {
    match o {
        Some(s) => Some(s@),
        None => None,
    }
}

fn message_token_exec(m: &InboxMessageView, prefix: &str) -> (r: Option<String>)
    ensures
        opt_string_view(r) == message_token(*m, prefix@),
{
    match extract_prefixed_token(m.subject.as_str(), prefix) {
        Some(t) => Some(t),
        None => extract_prefixed_token(m.body.as_str(), prefix),
    }
}

fn thread_token_exec(messages: &Vec<InboxMessageView>, indices: &Vec<usize>, prefix: &str) -> (r:
    Option<String>)
    ensures
        opt_string_view(r) == thread_token(messages@, indices@, prefix@),
{
    let ghost ms = messages@;
    assert(indices@.take(indices.len() as int) =~= indices@);
    let mut t: usize = indices.len();
    while t > 0
        invariant
            t <= indices.len(),
            thread_token(ms, indices@, prefix@) == thread_token(ms, indices@.take(t as int), prefix@),
            ms == messages@,
        decreases t,
    {
        let j = indices[t - 1];
        assert(indices@.take(t as int).drop_last() =~= indices@.take(t - 1));
        assert(indices@.take(t as int).last() == j);
        if j < messages.len() {
            let tok = message_token_exec(&messages[j], prefix);
            if tok.is_some() {
                return tok;
            }
        }
        t -= 1;
    }
    assert(indices@.take(0) =~= Seq::<usize>::empty());
    None
}

pub open spec fn loop_id_is(loops: Seq<LoopView>, id: Seq<char>) -> spec_fn(int) -> bool {
    |k: int| loops[k].id@ == id
}

/// The state of loop `id` for a hand-off: the trimmed state of the first
/// loop with that id, when neither is blank.
pub open spec fn handoff_loop_state(loops: Seq<LoopView>, id: Seq<char>) -> Option<Seq<char>> {
    if trim(id).len() == 0 {
        None
    } else {
        match first_from(0, loops.len() as int, loop_id_is(loops, id)) {
            Some(k) => if trim(loops[k].state@).len() > 0 {
                Some(trim(loops[k].state@))
            } else {
                None
            },
            None => None,
        }
    }
}

fn handoff_loop_state_exec(loops: &Vec<LoopView>, id: &str) -> (r: Option<String>)
    ensures
        opt_string_view(r) == handoff_loop_state(loops@, id@),
{
    if trim_str(id).as_str().is_empty() {
        return None;
    }
    let mut k: usize = 0;
    while k < loops.len()
        invariant
            k <= loops.len(),
            trim(id@).len() > 0,
            first_from(0, loops@.len() as int, loop_id_is(loops@, id@)) == first_from(
                k as int,
                loops@.len() as int,
                loop_id_is(loops@, id@),
            ),
        decreases loops.len() - k,
    {
        proof {
            crate::text::lemma_first_from(k as int, loops@.len() as int, loop_id_is(loops@, id@));
        }
        if str_eq(loops[k].id.as_str(), id) {
            assert(loop_id_is(loops@, id@)(k as int));
            assert(first_from(k as int, loops@.len() as int, loop_id_is(loops@, id@)) == Some(k as int));
            let st = trim_str(loops[k].state.as_str());
            if st.as_str().is_empty() {
                return None;
            }
            return Some(st);
        }
        k += 1;
    }
    proof {
        crate::text::lemma_first_from(k as int, loops@.len() as int, loop_id_is(loops@, id@));
    }
    None
}

pub open spec fn conflict_on_task(cs: Seq<ClaimConflictView>, task: Seq<char>) -> spec_fn(int) -> bool {
    |k: int| cs[k].task_id@ == task
}

/// The risks a hand-off lists, in order.
pub open spec fn handoff_risks(
    unread: usize,
    pending: usize,
    loop_id: Seq<char>,
    loop_state: Seq<char>,
    cs: Seq<ClaimConflictView>,
    task: Seq<char>,
) -> Seq<Seq<char>> {
    let r1: Seq<Seq<char>> = if unread > 0 {
        seq!["unread messages="@ + dec(unread as nat)]
    } else {
        Seq::empty()
    };
    let r2 = if pending > 0 {
        r1.push("ack pending="@ + dec(pending as nat))
    } else {
        r1
    };
    let r3 = if loop_id == "unknown-loop"@ {
        r2.push("loop mapping missing"@)
    } else {
        r2
    };
    let r4 = if lower(loop_state) == "error"@ {
        r3.push("loop state=error"@)
    } else {
        r3
    };
    match first_from(0, cs.len() as int, conflict_on_task(cs, task)) {
        Some(k) => r4.push("ownership conflict: "@ + cs[k].latest_by@ + " vs "@ + cs[k].previous_by@),
        None => r4,
    }
}

/// The task a hand-off names: the one the thread names, else the selected
/// claim conflict's task, else the first claim's task, else
/// `unknown-task`.
pub open spec fn handoff_task(
    ms: Seq<InboxMessageView>,
    idx: Seq<usize>,
    cs: Seq<ClaimConflictView>,
    selected_conflict: usize,
    events: Seq<ClaimEventView>,
) -> Seq<char> {
    match thread_token(ms, idx, "forge-"@) {
        Some(t) => t,
        None => if selected_conflict < cs.len() {
            cs[selected_conflict as int].task_id@
        } else if events.len() > 0 {
            events[0].task_id@
        } else {
            "unknown-task"@
        },
    }
}

/// The loop a hand-off names: the one the thread names, else the selected
/// loop, else `unknown-loop`.
pub open spec fn handoff_loop(ms: Seq<InboxMessageView>, idx: Seq<usize>, selected: Option<LoopView>) -> Seq<
    char,
> {
    match thread_token(ms, idx, "loop-"@) {
        Some(l) => l,
        None => match selected {
            Some(v) => v.id@,
            None => "unknown-loop"@,
        },
    }
}

/// The hand-off of a thread, as the parts of its view and the status shown:
/// the task and loop it names, the loop's state, the thread's counts, links,
/// and the risks.
pub open spec fn handoff_matches(
    r: (HandoffSnapshotView, String),
    ms: Seq<InboxMessageView>,
    thread: InboxThreadView,
    cs: Seq<ClaimConflictView>,
    selected_conflict: usize,
    events: Seq<ClaimEventView>,
    loops: Seq<LoopView>,
    selected: Option<LoopView>,
) -> bool {
    let idx = thread.message_indices@;
    let latest = ms[idx.last() as int];
    let task = handoff_task(ms, idx, cs, selected_conflict, events);
    let loop_id = handoff_loop(ms, idx, selected);
    let state = match handoff_loop_state(loops, loop_id) {
        Some(s) => s,
        None => "unknown"@,
    };
    let from = if trim(latest.from@).len() == 0 {
        "unknown"@
    } else {
        trim(latest.from@)
    };
    let risks = handoff_risks(thread.unread_count, thread.pending_ack_count, loop_id, state, cs, task);
    let v = r.0;
    &&& v.thread_key@ == thread.thread_key@
    &&& v.task_id@ == task
    &&& v.loop_id@ == loop_id
    &&& v.status@ == "loop="@ + state + " unread="@ + dec(thread.unread_count as nat)
        + " pending-ack="@ + dec(thread.pending_ack_count as nat)
    &&& v.context@ == "thread="@ + thread.thread_key@ + " latest="@ + mail_id_spec(latest.id)
        + " from="@ + from + " messages="@ + dec(idx.len()) + " participants="@ + dec(
        thread.participant_count as nat,
    )
    &&& v.links@ == "task:sv task show "@ + task + " | loop:forge logs "@ + loop_id
        + " | mail:fmail log task -n 200 | rg "@ + thread.thread_key@
    &&& v.pending_risks@ == (if risks.len() == 0 {
        "none"@
    } else {
        join(risks, "; "@)
    })
    &&& r.1@ == "Handoff snapshot ready: task "@ + task + ", loop "@ + loop_id
}

fn push_num(s: &mut String, n: usize)
    ensures
        final(s)@ == old(s)@ + dec(n as nat),
{
    push_str(s, u64_to_string(n as u64).as_str());
}

fn push_line(v: &mut Vec<String>, s: String)
    ensures
        sv(final(v)@) == sv(old(v)@).push(s@),
{
    let ghost prev = v@;
    v.push(s);
    assert(sv(v@) =~= sv(prev).push(s@));
}

fn handoff_task_exec(
    messages: &Vec<InboxMessageView>,
    indices: &Vec<usize>,
    conflicts: &Vec<ClaimConflictView>,
    selected_conflict: usize,
    claim_events: &Vec<ClaimEventView>,
) -> (r: String)
    ensures
        r@ == handoff_task(messages@, indices@, conflicts@, selected_conflict, claim_events@),
{
    match thread_token_exec(messages, indices, "forge-") {
        Some(t) => t,
        None => if selected_conflict < conflicts.len() {
            conflicts[selected_conflict].task_id.clone()
        } else if claim_events.len() > 0 {
            claim_events[0].task_id.clone()
        } else {
            copy_string("unknown-task")
        },
    }
}

fn handoff_loop_exec(messages: &Vec<InboxMessageView>, indices: &Vec<usize>, selected: Option<&LoopView>) -> (r:
    String)
    ensures
        r@ == handoff_loop(
            messages@,
            indices@,
            match selected {
                Some(v) => Some(*v),
                None => None,
            },
        ),
{
    match thread_token_exec(messages, indices, "loop-") {
        Some(l) => l,
        None => match selected {
            Some(v) => v.id.clone(),
            None => copy_string("unknown-loop"),
        },
    }
}

fn first_conflict_on(conflicts: &Vec<ClaimConflictView>, task: &str) -> (r: Option<usize>)
    ensures
        match r {
            Some(f) => first_from(0, conflicts@.len() as int, conflict_on_task(conflicts@, task@))
                == Some(f as int) && f < conflicts.len(),
            None => first_from(0, conflicts@.len() as int, conflict_on_task(conflicts@, task@)) is None,
        },
{
    let mut k: usize = 0;
    while k < conflicts.len()
        invariant
            k <= conflicts.len(),
            first_from(0, conflicts@.len() as int, conflict_on_task(conflicts@, task@)) == first_from(
                k as int,
                conflicts@.len() as int,
                conflict_on_task(conflicts@, task@),
            ),
        decreases conflicts.len() - k,
    {
        if str_eq(conflicts[k].task_id.as_str(), task) {
            assert(conflict_on_task(conflicts@, task@)(k as int));
            return Some(k);
        }
        k += 1;
    }
    None
}

fn handoff_risks_exec(
    unread: usize,
    pending: usize,
    loop_id: &str,
    loop_state: &str,
    conflicts: &Vec<ClaimConflictView>,
    task: &str,
) -> (r: Vec<String>)
    ensures
        sv(r@) == handoff_risks(unread, pending, loop_id@, loop_state@, conflicts@, task@),
{
    let mut risks: Vec<String> = Vec::new();
    if unread > 0 {
        let mut m = copy_string("unread messages=");
        push_num(&mut m, unread);
        push_line(&mut risks, m);
    }
    if pending > 0 {
        let mut m = copy_string("ack pending=");
        push_num(&mut m, pending);
        push_line(&mut risks, m);
    }
    if str_eq(loop_id, "unknown-loop") {
        push_line(&mut risks, copy_string("loop mapping missing"));
    }
    if str_eq(lowercase(loop_state).as_str(), "error") {
        push_line(&mut risks, copy_string("loop state=error"));
    }
    if let Some(f) = first_conflict_on(conflicts, task) {
        let mut m = concat("ownership conflict: ", conflicts[f].latest_by.as_str());
        push_str(&mut m, " vs ");
        push_str(&mut m, conflicts[f].previous_by.as_str());
        push_line(&mut risks, m);
    }
    risks
}

/// Builds the hand-off of a thread, and the status to show; nothing when
/// the thread's latest message is not in the feed.
pub fn handoff_snapshot(
    messages: &Vec<InboxMessageView>,
    thread: &InboxThreadView,
    conflicts: &Vec<ClaimConflictView>,
    selected_conflict: usize,
    claim_events: &Vec<ClaimEventView>,
    loops: &Vec<LoopView>,
    selected: Option<&LoopView>,
) -> (r: Option<(HandoffSnapshotView, String)>)
    ensures
        match r {
            None => thread.message_indices@.len() == 0 || thread.message_indices@.last()
                >= messages@.len(),
            Some(out) => thread.message_indices@.len() > 0 && thread.message_indices@.last()
                < messages@.len() && handoff_matches(
                out,
                messages@,
                *thread,
                conflicts@,
                selected_conflict,
                claim_events@,
                loops@,
                match selected {
                    Some(v) => Some(*v),
                    None => None,
                },
            ),
        },
{
    let n = thread.message_indices.len();
    if n == 0 {
        return None;
    }
    let latest_index = thread.message_indices[n - 1];
    if latest_index >= messages.len() {
        return None;
    }
    let latest = &messages[latest_index];
    let task_id = handoff_task_exec(messages, &thread.message_indices, conflicts, selected_conflict, claim_events);
    let loop_id = handoff_loop_exec(messages, &thread.message_indices, selected);
    let loop_state = match handoff_loop_state_exec(loops, loop_id.as_str()) {
        Some(s) => s,
        None => copy_string("unknown"),
    };
    let trimmed_from = trim_str(latest.from.as_str());
    let from = if trimmed_from.as_str().is_empty() {
        copy_string("unknown")
    } else {
        trimmed_from
    };
    let mut status = concat("loop=", loop_state.as_str());
    push_str(&mut status, " unread=");
    push_num(&mut status, thread.unread_count);
    push_str(&mut status, " pending-ack=");
    push_num(&mut status, thread.pending_ack_count);
    let mut context = concat("thread=", thread.thread_key.as_str());
    push_str(&mut context, " latest=");
    push_str(&mut context, format_mail_id(latest.id).as_str());
    push_str(&mut context, " from=");
    push_str(&mut context, from.as_str());
    push_str(&mut context, " messages=");
    push_num(&mut context, n);
    push_str(&mut context, " participants=");
    push_num(&mut context, thread.participant_count);
    let mut links = concat("task:sv task show ", task_id.as_str());
    push_str(&mut links, " | loop:forge logs ");
    push_str(&mut links, loop_id.as_str());
    push_str(&mut links, " | mail:fmail log task -n 200 | rg ");
    push_str(&mut links, thread.thread_key.as_str());
    let risks = handoff_risks_exec(
        thread.unread_count,
        thread.pending_ack_count,
        loop_id.as_str(),
        loop_state.as_str(),
        conflicts,
        task_id.as_str(),
    );
    let pending_risks = if risks.len() == 0 {
        copy_string("none")
    } else {
        join_strings(&risks, "; ")
    };
    let mut ready = concat("Handoff snapshot ready: task ", task_id.as_str());
    push_str(&mut ready, ", loop ");
    push_str(&mut ready, loop_id.as_str());
    let view = HandoffSnapshotView {
        thread_key: thread.thread_key.clone(),
        task_id,
        loop_id,
        status,
        context,
        links,
        pending_risks,
    };
    Some((view, ready))
}


// ---------------------------------------------------------------------------
// Stepping through claim conflicts
// ---------------------------------------------------------------------------

/// The position `delta` steps from `start` among `n`, wrapping around.
fn wrap_index(start: usize, delta: i32, n: usize) -> (r: usize)
    requires
        start <= i32::MAX,
        start + delta <= i32::MAX,
        0 < n <= i32::MAX,
    ensures
        r as int == (start + delta) % (n as int),
        r < n,
{
    let m = n as i32;
    let mut idx: i32 = start as i32 + delta;
    while idx < 0
        invariant
            m > 0,
            m == n,
            (idx as int) % (m as int) == (start + delta) % (n as int),
        decreases (if idx < 0 {
            -idx
        } else {
            0
        }),
    {
        assert((idx + m) % (m as int) == (idx as int) % (m as int)) by (nonlinear_arith)
            requires
                m > 0,
        ;
        idx += m;
    }
    (idx as usize) % n
}

/// Steps `delta` conflicts from the selected one, wrapping around: the new
/// selection and the status naming that conflict; without conflicts, the
/// first position and a status that says so.
pub fn claim_conflict_step(conflicts: &Vec<ClaimConflictView>, selected: usize, delta: i32) -> (r: (
    usize,
    StatusKind,
    String,
))
    requires
        selected <= i32::MAX,
        selected + delta <= i32::MAX,
        conflicts.len() <= i32::MAX,
    ensures
        conflicts.len() == 0 ==> r.0 == 0 && r.1 == StatusKind::Info && r.2@
            == "No claim ownership conflicts"@,
        conflicts.len() > 0 ==> {
            let k = (selected + delta) % (conflicts.len() as int);
            let c = conflicts@[k];
            &&& r.0 == k
            &&& r.1 == StatusKind::Error
            &&& r.2@ == "Claim conflict "@ + c.task_id@ + ": "@ + c.latest_by@ + " vs "@
                + c.previous_by@
        },
{
    if conflicts.len() == 0 {
        return (0, StatusKind::Info, copy_string("No claim ownership conflicts"));
    }
    let k = wrap_index(selected, delta, conflicts.len());
    let c = &conflicts[k];
    let mut m = concat("Claim conflict ", c.task_id.as_str());
    push_str(&mut m, ": ");
    push_str(&mut m, c.latest_by.as_str());
    push_str(&mut m, " vs ");
    push_str(&mut m, c.previous_by.as_str());
    (k, StatusKind::Error, m)
}

/// How to resolve the selected conflict, or that there is none.
pub fn claim_resolution_hint(conflicts: &Vec<ClaimConflictView>, selected: usize) -> (r: (StatusKind, String))
    ensures
        r.0 == StatusKind::Info,
        selected >= conflicts.len() ==> r.1@ == "No claim conflicts to resolve"@,
        selected < conflicts.len() ==> r.1@ == "Resolve "@ + conflicts@[selected as int].task_id@
            + ": confirm owner, then post `fmail send task \"takeover claim: "@
            + conflicts@[selected as int].task_id@ + " by <agent>\"`"@,
{
    if selected >= conflicts.len() {
        return (StatusKind::Info, copy_string("No claim conflicts to resolve"));
    }
    let task = conflicts[selected].task_id.as_str();
    let mut m = concat("Resolve ", task);
    push_str(&mut m, ": confirm owner, then post `fmail send task \"takeover claim: ");
    push_str(&mut m, task);
    push_str(&mut m, " by <agent>\"`");
    (StatusKind::Info, m)
}

// ---------------------------------------------------------------------------
// The claim feed in display order
// ---------------------------------------------------------------------------

pub open spec fn event_view(e: ClaimEventView) -> (Seq<char>, Seq<char>, Seq<char>) {
    (e.task_id@, e.claimed_by@, e.claimed_at@)
}

/// Newer claims first; on the same time, by task id.
pub open spec fn event_before(a: (Seq<char>, Seq<char>, Seq<char>), b: (Seq<char>, Seq<char>, Seq<char>)) -> bool {
    lex_order(a.2, b.2) > 0 || (a.2 == b.2 && lex_order(a.0, b.0) < 0)
}

pub open spec fn events_view(es: Seq<ClaimEventView>) -> Seq<(Seq<char>, Seq<char>, Seq<char>)> {
    es.map_values(|e: ClaimEventView| event_view(e))
}

fn event_insert_index(sorted: &Vec<ClaimEventView>, x: &ClaimEventView) -> (r: usize)
    ensures
        r as int == insert_pos(
            events_view(sorted@),
            |a: (Seq<char>, Seq<char>, Seq<char>), b: (Seq<char>, Seq<char>, Seq<char>)| event_before(a, b),
            event_view(*x),
        ),
        r <= sorted.len(),
{
    let ghost s = events_view(sorted@);
    let ghost before = |a: (Seq<char>, Seq<char>, Seq<char>), b: (Seq<char>, Seq<char>, Seq<char>)|
        event_before(a, b);
    let ghost xv = event_view(*x);
    let mut j: usize = 0;
    while j < sorted.len()
        invariant
            j <= sorted.len(),
            s == events_view(sorted@),
            xv == event_view(*x),
            before == |a: (Seq<char>, Seq<char>, Seq<char>), b: (Seq<char>, Seq<char>, Seq<char>)|
                event_before(a, b),
            first_from(0, s.len() as int, first_after(s, before, xv)) == first_from(
                j as int,
                s.len() as int,
                first_after(s, before, xv),
            ),
        decreases sorted.len() - j,
    {
        let e = &sorted[j];
        assert(s[j as int] == event_view(*e));
        let by_time = order_strings(x.claimed_at.as_str(), e.claimed_at.as_str());
        proof {
            lemma_lex_eq(x.claimed_at@, e.claimed_at@);
        }
        if by_time > 0 || (by_time == 0 && order_strings(x.task_id.as_str(), e.task_id.as_str()) < 0) {
            assert(first_after(s, before, xv)(j as int));
            return j;
        }
        assert(!first_after(s, before, xv)(j as int));
        j += 1;
    }
    j
}

/// The claim feed as the timeline lists it: newest claims first, then by
/// task id, claims that compare equal keeping their order.
pub fn sort_claim_events(events: &Vec<ClaimEventView>) -> (r: Vec<ClaimEventView>)
    ensures
        events_view(r@) == sort_by_spec(
            events_view(events@),
            |a: (Seq<char>, Seq<char>, Seq<char>), b: (Seq<char>, Seq<char>, Seq<char>)| event_before(a, b),
        ),
{
    let ghost before = |a: (Seq<char>, Seq<char>, Seq<char>), b: (Seq<char>, Seq<char>, Seq<char>)|
        event_before(a, b);
    let ghost all = events_view(events@);
    let mut sorted: Vec<ClaimEventView> = Vec::new();
    let mut i: usize = 0;
    assert(events_view(sorted@) =~= sort_by_spec(all.take(0), before));
    while i < events.len()
        invariant
            i <= events.len(),
            all == events_view(events@),
            before == |a: (Seq<char>, Seq<char>, Seq<char>), b: (Seq<char>, Seq<char>, Seq<char>)|
                event_before(a, b),
            events_view(sorted@) == sort_by_spec(all.take(i as int), before),
        decreases events.len() - i,
    {
        let e = &events[i];
        let c = ClaimEventView {
            task_id: copy_string(e.task_id.as_str()),
            claimed_by: copy_string(e.claimed_by.as_str()),
            claimed_at: copy_string(e.claimed_at.as_str()),
        };
        let ghost cv = event_view(c);
        assert(cv == all[i as int]);
        let j = event_insert_index(&sorted, &c);
        let ghost prev = sorted@;
        sorted.insert(j, c);
        assert(events_view(sorted@) =~= events_view(prev).insert(j as int, cv));
        assert(all.take(i + 1).drop_last() =~= all.take(i as int));
        assert(all.take(i + 1).last() == cv);
        i += 1;
    }
    assert(all.take(events.len() as int) =~= all);
    sorted
}

proof fn lemma_lex_gt_trans(a: Seq<char>, b: Seq<char>, c: Seq<char>)
    requires
        lex_order(a, b) > 0,
        lex_order(b, c) > 0,
    ensures
        lex_order(a, c) > 0,
{
    crate::text::lemma_lex_antisym(a, b);
    crate::text::lemma_lex_antisym(b, c);
    crate::text::lemma_lex_antisym(a, c);
    crate::text::lemma_lex_trans(c, b, a);
}

proof fn lemma_key_order_strict(ms: Seq<InboxMessageView>)
    ensures
        crate::text::strict_order(key_before(ms)),
{
    let r = key_before(ms);
    assert forall|a: Seq<char>| !#[trigger] r(a, a) by {
        lemma_lex_eq(thread_sort_key(ms, a).0, thread_sort_key(ms, a).0);
    }
    assert forall|a: Seq<char>, b: Seq<char>, c: Seq<char>| #[trigger] r(a, b) && #[trigger] r(b, c) implies r(
        a,
        c,
    ) by {
        let (x, y, z) = (thread_sort_key(ms, a), thread_sort_key(ms, b), thread_sort_key(ms, c));
        if lex_order(x.0, y.0) > 0 && lex_order(y.0, z.0) > 0 {
            lemma_lex_gt_trans(x.0, y.0, z.0);
        }
    }
}

proof fn lemma_conflict_order_strict()
    ensures
        crate::text::strict_order(
            |a: (Seq<char>, Seq<char>, Seq<char>, Seq<char>), b: (Seq<char>, Seq<char>, Seq<char>, Seq<char>)|
                conflict_before(a, b),
        ),
{
    let r = |a: (Seq<char>, Seq<char>, Seq<char>, Seq<char>), b: (Seq<char>, Seq<char>, Seq<char>, Seq<char>)|
        conflict_before(a, b);
    assert forall|a: (Seq<char>, Seq<char>, Seq<char>, Seq<char>)| !#[trigger] r(a, a) by {
        lemma_lex_eq(a.3, a.3);
        lemma_lex_eq(a.0, a.0);
    }
    assert forall|
        a: (Seq<char>, Seq<char>, Seq<char>, Seq<char>),
        b: (Seq<char>, Seq<char>, Seq<char>, Seq<char>),
        c: (Seq<char>, Seq<char>, Seq<char>, Seq<char>),
    | #[trigger] r(a, b) && #[trigger] r(b, c) implies r(a, c) by {
        if lex_order(a.3, b.3) > 0 && lex_order(b.3, c.3) > 0 {
            lemma_lex_gt_trans(a.3, b.3, c.3);
        } else if a.3 == b.3 && b.3 == c.3 {
            crate::text::lemma_lex_trans(a.0, b.0, c.0);
        }
    }
}

proof fn lemma_event_order_strict()
    ensures
        crate::text::strict_order(
            |a: (Seq<char>, Seq<char>, Seq<char>), b: (Seq<char>, Seq<char>, Seq<char>)| event_before(a, b),
        ),
{
    let r = |a: (Seq<char>, Seq<char>, Seq<char>), b: (Seq<char>, Seq<char>, Seq<char>)| event_before(a, b);
    assert forall|a: (Seq<char>, Seq<char>, Seq<char>)| !#[trigger] r(a, a) by {
        lemma_lex_eq(a.2, a.2);
        lemma_lex_eq(a.0, a.0);
    }
    assert forall|a: (Seq<char>, Seq<char>, Seq<char>), b: (Seq<char>, Seq<char>, Seq<char>), c: (Seq<char>, Seq<char>, Seq<char>)|
        #[trigger] r(a, b) && #[trigger] r(b, c) implies r(a, c) by {
        if lex_order(a.2, b.2) > 0 && lex_order(b.2, c.2) > 0 {
            lemma_lex_gt_trans(a.2, b.2, c.2);
        } else if a.2 == b.2 && b.2 == c.2 {
            crate::text::lemma_lex_trans(a.0, b.0, c.0);
        }
    }
}

proof fn lemma_created_order_strict(ms: Seq<InboxMessageView>)
    ensures
        crate::text::strict_order(created_before(ms)),
{
    let r = created_before(ms);
    assert forall|a: usize| !#[trigger] r(a, a) by {
        lemma_lex_eq(ms[a as int].created_at@, ms[a as int].created_at@);
    }
    assert forall|a: usize, b: usize, c: usize| #[trigger] r(a, b) && #[trigger] r(b, c) implies r(a, c) by {
        crate::text::lemma_lex_trans(ms[a as int].created_at@, ms[b as int].created_at@, ms[c as int].created_at@);
    }
}

/// The inbox's orders: threads newest first (by latest time, then latest
/// message id), each thread's messages oldest first, claim conflicts newest
/// first then by task id, and the claim timeline newest first then by task
/// id; each list holds exactly what it is built from, each item as often.
pub proof fn law_inbox_orders(
    ms: Seq<InboxMessageView>,
    filter: InboxFilter,
    indices: Seq<usize>,
    conflicts: Seq<(Seq<char>, Seq<char>, Seq<char>, Seq<char>)>,
    events: Seq<(Seq<char>, Seq<char>, Seq<char>)>,
)
    ensures
        crate::text::sorted_by(threads_spec(ms, filter), key_before(ms)),
        threads_spec(ms, filter).to_multiset() == kept_keys(ms, keys_of(ms), filter).to_multiset(),
        crate::text::sorted_by(sort_by_spec(indices, created_before(ms)), created_before(ms)),
        sort_by_spec(indices, created_before(ms)).to_multiset() == indices.to_multiset(),
        crate::text::sorted_by(
            sort_by_spec(
                conflicts,
                |a: (Seq<char>, Seq<char>, Seq<char>, Seq<char>), b: (Seq<char>, Seq<char>, Seq<char>, Seq<char>)|
                    conflict_before(a, b),
            ),
            |a: (Seq<char>, Seq<char>, Seq<char>, Seq<char>), b: (Seq<char>, Seq<char>, Seq<char>, Seq<char>)|
                conflict_before(a, b),
        ),
        sort_by_spec(
            conflicts,
            |a: (Seq<char>, Seq<char>, Seq<char>, Seq<char>), b: (Seq<char>, Seq<char>, Seq<char>, Seq<char>)|
                conflict_before(a, b),
        ).to_multiset() == conflicts.to_multiset(),
        crate::text::sorted_by(
            sort_by_spec(
                events,
                |a: (Seq<char>, Seq<char>, Seq<char>), b: (Seq<char>, Seq<char>, Seq<char>)| event_before(a, b),
            ),
            |a: (Seq<char>, Seq<char>, Seq<char>), b: (Seq<char>, Seq<char>, Seq<char>)| event_before(a, b),
        ),
        sort_by_spec(
            events,
            |a: (Seq<char>, Seq<char>, Seq<char>), b: (Seq<char>, Seq<char>, Seq<char>)| event_before(a, b),
        ).to_multiset() == events.to_multiset(),
{
    lemma_key_order_strict(ms);
    crate::text::lemma_sort_by_sorted(kept_keys(ms, keys_of(ms), filter), key_before(ms));
    lemma_created_order_strict(ms);
    crate::text::lemma_sort_by_sorted(indices, created_before(ms));
    lemma_conflict_order_strict();
    crate::text::lemma_sort_by_sorted(
        conflicts,
        |a: (Seq<char>, Seq<char>, Seq<char>, Seq<char>), b: (Seq<char>, Seq<char>, Seq<char>, Seq<char>)|
            conflict_before(a, b),
    );
    lemma_event_order_strict();
    crate::text::lemma_sort_by_sorted(
        events,
        |a: (Seq<char>, Seq<char>, Seq<char>), b: (Seq<char>, Seq<char>, Seq<char>)| event_before(a, b),
    );
}

} // verus!
