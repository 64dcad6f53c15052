//! The loop list: which loops a filter shows, which one stays selected, and
//! the order of the multi-log matrix.
use vstd::prelude::*;

use crate::app::{LoopView, LOG_SCROLL_STEP};
use crate::text::{
    concat, contains, contains_str, copy_string, first_from, lowercase, lower, str_eq, sv, trim,
    trim_str,
};

verus! {

/// The status filters, in cycling order.
pub open spec fn filter_options() -> Seq<Seq<char>> {
    seq!["all"@, "running"@, "sleeping"@, "waiting"@, "stopped"@, "error"@]
}

/// A text or state filter as compared: trimmed and ASCII-lowercased.
pub open spec fn normalized(s: Seq<char>) -> Seq<char> {
    lower(trim(s))
}

/// A loop passes the filters: its state matches (any state for a blank or
/// `all` filter) and the query occurs in its id, name or repository path,
/// ignoring ASCII case (any loop for a blank query).
pub open spec fn loop_matches(lv: LoopView, query: Seq<char>, state: Seq<char>) -> bool {
    &&& (state.len() == 0 || state == "all"@ || lower(lv.state@) == state)
    &&& (query.len() == 0 || contains(lower(lv.id@), query) || contains(lower(lv.name@), query)
        || contains(lower(lv.repo_path@), query))
}

pub open spec fn filtered_spec(loops: Seq<LoopView>, query: Seq<char>, state: Seq<char>) -> Seq<LoopView>
    decreases loops.len(),
{
    if loops.len() == 0 {
        Seq::empty()
    } else if loop_matches(loops.last(), query, state) {
        filtered_spec(loops.drop_last(), query, state).push(loops.last())
    } else {
        filtered_spec(loops.drop_last(), query, state)
    }
}

fn clone_loop_view(l: &LoopView) -> (r: LoopView)
    ensures
        r == *l,
{
    LoopView {
        id: l.id.clone(),
        short_id: l.short_id.clone(),
        name: l.name.clone(),
        state: l.state.clone(),
        repo_path: l.repo_path.clone(),
        runs: l.runs,
        queue_depth: l.queue_depth,
        last_run_at: match &l.last_run_at {
            Some(t) => Some(t.clone()),
            None => None,
        },
        interval_seconds: l.interval_seconds,
        max_runtime_seconds: l.max_runtime_seconds,
        max_iterations: l.max_iterations,
        last_error: l.last_error.clone(),
        profile_name: l.profile_name.clone(),
        profile_harness: l.profile_harness.clone(),
        profile_auth: l.profile_auth.clone(),
        profile_id: l.profile_id.clone(),
        pool_name: l.pool_name.clone(),
        pool_id: l.pool_id.clone(),
    }
}

/// The loops the filters show, in list order.
pub fn filter_loops(loops: &Vec<LoopView>, filter_text: &str, filter_state: &str) -> (r: Vec<
    LoopView,
>)
    ensures
        r@ == filtered_spec(loops@, normalized(filter_text@), normalized(filter_state@)),
{
    let query = lowercase(trim_str(filter_text).as_str());
    let state = lowercase(trim_str(filter_state).as_str());
    let mut out: Vec<LoopView> = Vec::new();
    let mut i: usize = 0;
    while i < loops.len()
        invariant
            i <= loops.len(),
            query@ == normalized(filter_text@),
            state@ == normalized(filter_state@),
            out@ == filtered_spec(loops@.take(i as int), query@, state@),
        decreases loops.len() - i,
    {
        assert(loops@.take(i + 1).drop_last() =~= loops@.take(i as int));
        assert(loops@.take(i + 1).last() == loops@[i as int]);
        let lv = &loops[i];
        let state_ok = state.as_str().is_empty() || str_eq(state.as_str(), "all") || str_eq(
            lowercase(lv.state.as_str()).as_str(),
            state.as_str(),
        );
        let query_ok = query.as_str().is_empty() || contains_str(
            lowercase(lv.id.as_str()).as_str(),
            query.as_str(),
        ) || contains_str(lowercase(lv.name.as_str()).as_str(), query.as_str()) || contains_str(
            lowercase(lv.repo_path.as_str()).as_str(),
            query.as_str(),
        );
        if state_ok && query_ok {
            out.push(clone_loop_view(lv));
        }
        i += 1;
    }
    assert(loops@.take(loops.len() as int) =~= loops@);
    out
}

pub open spec fn id_is(filtered: Seq<LoopView>, id: Seq<char>) -> spec_fn(int) -> bool {
    |i: int| filtered[i].id@ == id
}

/// The selection after the list changed: the previously selected loop
/// when it is still shown, else the same position (clamped to the list);
/// (index, id), nothing selected for an empty list.
pub open spec fn reselect_spec(filtered: Seq<LoopView>, previous_id: Seq<char>, previous_idx: int) -> (
    int,
    Seq<char>,
) {
    if filtered.len() == 0 {
        (0, Seq::empty())
    } else if previous_id.len() > 0 && first_from(0, filtered.len() as int, id_is(filtered, previous_id))
        is Some {
        (first_from(0, filtered.len() as int, id_is(filtered, previous_id))->Some_0, previous_id)
    } else {
        let i = if previous_idx < filtered.len() - 1 {
            previous_idx
        } else {
            filtered.len() - 1
        };
        (i, filtered[i].id@)
    }
}

pub fn reselect(filtered: &Vec<LoopView>, previous_id: &str, previous_idx: usize) -> (r: (
    usize,
    String,
))
    ensures
        (r.0 as int, r.1@) == reselect_spec(filtered@, previous_id@, previous_idx as int),
{
    if filtered.len() == 0 {
        return (0, String::new());
    }
    if !previous_id.is_empty() {
        let mut i: usize = 0;
        while i < filtered.len()
            invariant
                i <= filtered.len(),
                previous_id@.len() > 0,
                first_from(0, filtered@.len() as int, id_is(filtered@, previous_id@)) == first_from(
                    i as int,
                    filtered@.len() as int,
                    id_is(filtered@, previous_id@),
                ),
            decreases filtered.len() - i,
        {
            if str_eq(filtered[i].id.as_str(), previous_id) {
                assert(id_is(filtered@, previous_id@)(i as int));
                return (i, copy_string(previous_id));
            }
            i += 1;
        }
    }
    let last = filtered.len() - 1;
    let i = if previous_idx < last {
        previous_idx
    } else {
        last
    };
    (i, filtered[i].id.clone())
}

/// The selection moved by `delta`, clamped to the list (index arithmetic as
/// in 32-bit signed integers).
pub open spec fn moved_index(len: usize, selected: usize, delta: i32) -> usize {
    if len == 0 {
        0
    } else {
        let idx = (selected as i32) + delta;
        if idx < 0 {
            0
        } else if idx >= (len as i32) {
            ((len as i32) - 1) as usize
        } else {
            idx as usize
        }
    }
}

pub fn move_selection_index(len: usize, selected: usize, delta: i32) -> (r: usize)
    requires
        i32::MIN <= (selected as i32) + delta <= i32::MAX,
        len == 0 || (len as i32) - 1 >= i32::MIN,
    ensures
        r == moved_index(len, selected, delta),
{
    if len == 0 {
        return 0;
    }
    let idx = selected as i32 + delta;
    if idx < 0 {
        0
    } else if idx >= len as i32 {
        (len as i32 - 1) as usize
    } else {
        idx as usize
    }
}

/// The status filter after `delta` steps: from the current one (the first
/// when it is not an option), wrapping to the other end past either end.
pub open spec fn option_is(current: Seq<char>) -> spec_fn(int) -> bool {
    |i: int| filter_options()[i] == current
}

pub open spec fn cycled_filter(current: Seq<char>, delta: i32) -> Seq<char> {
    let opts = filter_options();
    let start: int = match first_from(0, 6, option_is(current)) {
        Some(i) => i,
        None => 0,
    };
    let idx = start + delta;
    let idx2 = if idx < 0 {
        5
    } else if idx >= 6 {
        0
    } else {
        idx
    };
    opts[idx2]
}

pub(crate) fn option_at(i: usize) -> (r: &'static str)
    requires
        i < 6,
    ensures
        r@ == filter_options()[i as int],
{
    match i {
        0 => "all",
        1 => "running",
        2 => "sleeping",
        3 => "waiting",
        4 => "stopped",
        _ => "error",
    }
}

fn option_index(current: &str) -> (r: i32)
    ensures
        0 <= r < 6,
        r as int == match first_from(0, 6, option_is(current@)) {
            Some(i) => i,
            None => 0,
        },
{
    let mut i: usize = 0;
    while i < 6
        invariant
            i <= 6,
            first_from(0, 6, option_is(current@)) == first_from(i as int, 6, option_is(current@)),
        decreases 6 - i,
    {
        if str_eq(option_at(i), current) {
            assert(option_is(current@)(i as int));
            return i as i32;
        }
        assert(!option_is(current@)(i as int));
        i += 1;
    }
    0
}

pub fn cycle_filter_status(current: &str, delta: i32) -> (r: &'static str)
    requires
        delta <= i32::MAX - 6,
    ensures
        r@ == cycled_filter(current@, delta),
{
    let mut j = option_index(current) + delta;
    if j < 0 {
        j = 5;
    }
    if j >= 6 {
        j = 0;
    }
    option_at(j as usize)
}

/// The multi-log matrix order: pinned loops first, then the others, each
/// part in list order.
pub open spec fn pinned_part(filtered: Seq<LoopView>, pinned: Seq<Seq<char>>, want: bool) -> Seq<LoopView>
    decreases filtered.len(),
{
    if filtered.len() == 0 {
        Seq::empty()
    } else if pinned.contains(filtered.last().id@) == want {
        pinned_part(filtered.drop_last(), pinned, want).push(filtered.last())
    } else {
        pinned_part(filtered.drop_last(), pinned, want)
    }
}

pub open spec fn pinned_first(filtered: Seq<LoopView>, pinned: Seq<Seq<char>>) -> Seq<LoopView> {
    pinned_part(filtered, pinned, true) + pinned_part(filtered, pinned, false)
}

fn holds_id(v: &Vec<String>, s: &str) -> (r: bool)
    ensures
        r == sv(v@).contains(s@),
{
    let mut i: usize = 0;
    while i < v.len()
        invariant
            i <= v.len(),
            forall|k: int| 0 <= k < i ==> sv(v@)[k] != s@,
        decreases v.len() - i,
    {
        if str_eq(v[i].as_str(), s) {
            assert(sv(v@)[i as int] == s@);
            return true;
        }
        i += 1;
    }
    proof {
        if sv(v@).contains(s@) {
            let k = choose|k: int| 0 <= k < sv(v@).len() && sv(v@)[k] == s@;
            assert(sv(v@)[k] != s@);
        }
    }
    false
}

fn push_part<'a>(out: &mut Vec<&'a LoopView>, filtered: &'a Vec<LoopView>, pinned: &Vec<String>, want: bool)
    ensures
        final(out)@.map_values(|x: &LoopView| *x) == old(out)@.map_values(|x: &LoopView| *x)
            + pinned_part(filtered@, sv(pinned@), want),
{
    let ghost start = old(out)@.map_values(|x: &LoopView| *x);
    let mut i: usize = 0;
    while i < filtered.len()
        invariant
            i <= filtered.len(),
            out@.map_values(|x: &LoopView| *x) == start + pinned_part(filtered@.take(i as int), sv(pinned@), want),
        decreases filtered.len() - i,
    {
        assert(filtered@.take(i + 1).drop_last() =~= filtered@.take(i as int));
        assert(filtered@.take(i + 1).last() == filtered@[i as int]);
        let lv = &filtered[i];
        if holds_id(pinned, lv.id.as_str()) == want {
            let ghost prev = out@;
            out.push(lv);
            assert(out@.map_values(|x: &LoopView| *x) =~= prev.map_values(|x: &LoopView| *x).push(*lv));
        }
        i += 1;
    }
    assert(filtered@.take(filtered.len() as int) =~= filtered@);
}

/// The loops of the multi-log matrix, pinned ones first.
pub fn ordered_multi_targets<'a>(filtered: &'a Vec<LoopView>, pinned: &Vec<String>) -> (r: Vec<&'a LoopView>)
    ensures
        r@.map_values(|x: &LoopView| *x) == pinned_first(filtered@, sv(pinned@)),
{
    let mut out: Vec<&'a LoopView> = Vec::new();
    assert(out@.map_values(|x: &LoopView| *x) =~= Seq::<LoopView>::empty());
    push_part(&mut out, filtered, pinned, true);
    push_part(&mut out, filtered, pinned, false);
    assert(Seq::<LoopView>::empty() + pinned_part(filtered@, sv(pinned@), true) =~= pinned_part(filtered@, sv(pinned@), true));
    out
}

/// The pinned set after toggling `id`: a blank id changes nothing, a pinned
/// one leaves the set, any other joins it.
pub open spec fn toggled(s: Set<Seq<char>>, id: Seq<char>) -> Set<Seq<char>> {
    if trim(id).len() == 0 {
        s
    } else if s.contains(id) {
        s.remove(id)
    } else {
        s.insert(id)
    }
}

/// Pins a loop, or unpins it when pinned; the status message, or nothing
/// for a blank id.
pub fn toggle_pinned(pinned: &mut Vec<String>, loop_id: &str) -> (r: Option<String>)
    ensures
        sv(final(pinned)@).to_set() == toggled(sv(old(pinned)@).to_set(), loop_id@),
        trim(loop_id@).len() == 0 ==> r is None && final(pinned)@ == old(pinned)@,
        trim(loop_id@).len() > 0 && sv(old(pinned)@).contains(loop_id@) ==> (r matches Some(m)
            && m@ == "Unpinned "@ + loop_id@) && !sv(final(pinned)@).contains(loop_id@)
            && (forall|x: Seq<char>| x != loop_id@ ==> (sv(final(pinned)@).contains(x)
            == sv(old(pinned)@).contains(x))),
        trim(loop_id@).len() > 0 && !sv(old(pinned)@).contains(loop_id@) ==> (r matches Some(m)
            && m@ == "Pinned "@ + loop_id@) && sv(final(pinned)@) == sv(old(pinned)@).push(
            loop_id@,
        ),
{
    if trim_str(loop_id).as_str().is_empty() {
        return None;
    }
    if holds_id(pinned, loop_id) {
        let ghost start = sv(pinned@);
        let mut kept: Vec<String> = Vec::new();
        let mut i: usize = 0;
        while i < pinned.len()
            invariant
                i <= pinned.len(),
                start == sv(pinned@),
                forall|x: Seq<char>| #[trigger] sv(kept@).contains(x) == (x != loop_id@ && start.take(i as int).contains(x)),
            decreases pinned.len() - i,
        {
            let ghost before = sv(kept@);
            if !str_eq(pinned[i].as_str(), loop_id) {
                kept.push(pinned[i].clone());
                assert(sv(kept@) =~= before.push(start[i as int]));
            }
            assert forall|x: Seq<char>| #[trigger] sv(kept@).contains(x) == (x != loop_id@ && start.take(i + 1).contains(x)) by {
                assert(start.take(i + 1) =~= start.take(i as int).push(start[i as int]));
                if sv(kept@).contains(x) {
                    if !before.contains(x) {
                        assert(x == start[i as int]);
                        assert(start.take(i + 1)[i as int] == x);
                    }
                }
                if x != loop_id@ && start.take(i + 1).contains(x) {
                    let t = start.take(i + 1);
                    let k = choose|k: int| 0 <= k < t.len() && #[trigger] t[k] == x;
                    if k < i {
                        assert(start.take(i as int)[k] == x);
                        assert(before.contains(x));
                        let m = choose|m: int| 0 <= m < before.len() && before[m] == x;
                        assert(sv(kept@)[m] == x);
                    } else {
                        assert(sv(kept@).last() == x);
                    }
                }
            }
            i += 1;
        }
        assert(start.take(pinned.len() as int) =~= start);
        *pinned = kept;
        assert(sv(pinned@).to_set() =~= start.to_set().remove(loop_id@));
        Some(concat("Unpinned ", loop_id))
    } else {
        let ghost prev = sv(pinned@);
        pinned.push(copy_string(loop_id));
        assert(sv(pinned@) =~= prev.push(loop_id@));
        assert forall|y: Seq<char>| #[trigger] sv(pinned@).contains(y) == (prev.contains(y) || y == loop_id@) by {
            if sv(pinned@).contains(y) && y != loop_id@ {
                let k = choose|k: int| 0 <= k < sv(pinned@).len() && sv(pinned@)[k] == y;
                assert(prev[k] == y);
            }
            if prev.contains(y) {
                let k = choose|k: int| 0 <= k < prev.len() && prev[k] == y;
                assert(sv(pinned@)[k] == y);
            }
            if y == loop_id@ {
                assert(sv(pinned@)[prev.len() as int] == y);
            }
        }
        assert(sv(pinned@).to_set() =~= prev.to_set().insert(loop_id@));
        Some(concat("Pinned ", loop_id))
    }
}


// ---------------------------------------------------------------------------
// Log scrolling
// ---------------------------------------------------------------------------

/// (scroll, follow) after scrolling by `delta` lines back from the newest:
/// moving away from the bottom stops following, reaching it follows again.
pub open spec fn scrolled(scroll: usize, follow: bool, delta: i32) -> (usize, bool) {
    if delta >= 0 {
        let s = if scroll + delta > usize::MAX {
            usize::MAX
        } else {
            (scroll + delta) as usize
        };
        (s, if s > 0 { false } else { follow })
    } else {
        let s = if scroll + delta < 0 {
            0usize
        } else {
            (scroll + delta) as usize
        };
        (s, if s == 0 { true } else { follow })
    }
}

pub fn scroll_logs(scroll: usize, follow: bool, delta: i32) -> (r: (usize, bool))
    requires
        delta > i32::MIN,
    ensures
        r == scrolled(scroll, follow, delta),
{
    if delta >= 0 {
        let s = scroll.saturating_add(delta as usize);
        (s, if s > 0 { false } else { follow })
    } else {
        let s = scroll.saturating_sub((-delta) as usize);
        (s, if s == 0 { true } else { follow })
    }
}

/// Lines per page when scrolling logs: half the configured log lines plus
/// a step, never less than a step.
pub fn log_scroll_page_size(log_lines: usize) -> (r: usize)
    ensures
        r == (if log_lines / 2 + LOG_SCROLL_STEP > usize::MAX {
            usize::MAX
        } else {
            (log_lines / 2 + LOG_SCROLL_STEP) as usize
        }),
        r >= LOG_SCROLL_STEP,
{
    let estimate = (log_lines / 2).saturating_add(LOG_SCROLL_STEP);
    if estimate > LOG_SCROLL_STEP {
        estimate
    } else {
        LOG_SCROLL_STEP
    }
}


/// Toggling the pin of a loop twice leaves the pinned set as it was.
pub proof fn law_toggle_pin_twice_restores(s: Set<Seq<char>>, id: Seq<char>)
    ensures
        toggled(toggled(s, id), id) == s,
{
    if trim(id).len() > 0 {
        if s.contains(id) {
            assert(s.remove(id).insert(id) =~= s);
        } else {
            assert(s.insert(id).remove(id) =~= s);
        }
    }
}

} // verus!
