//! Restoring a stored session: the tab, layout, filters, selections, pane
//! focus, pins and log scroll a previous run left, each taken back when it
//! is still available and reported otherwise.
use vstd::prelude::*;

use crate::app::{main_tab_for, parse_main_tab_id, MainTab, MAX_LOG_BACKFILL};
use crate::loop_list::{filter_options, option_at};
use crate::text::{
    lemma_first_from, lemma_sort_by_items, trim_end, trim_start,
    concat, copy_string, first_after, first_from, insert_pos, lex_order, lower, lowercase, order_strings,
    sort_by_spec, str_eq, sv, trim, trim_str,
};

verus! {

/// A pane of the stored session and whether it had the focus.
#[derive(Debug, Clone, PartialEq, Eq)]
pub struct PaneSelection {
    pub pane_id: String,
    pub focused: bool,
}

/// What a previous run stored of the shell.
#[derive(Debug, Clone, PartialEq, Eq)]
pub struct SessionContext {
    pub selected_loop_id: Option<String>,
    pub selected_run_id: Option<String>,
    pub log_scroll: usize,
    pub tab_id: Option<String>,
    pub layout_id: Option<String>,
    pub filter_state: Option<String>,
    pub filter_query: Option<String>,
    pub panes: Vec<PaneSelection>,
    pub pinned_loop_ids: Vec<String>,
}

/// What the shell takes back from a stored session. A `None` leaves the
/// shell's own value.
#[derive(Debug, Clone, PartialEq, Eq)]
pub struct SessionRestore {
    pub tab: Option<MainTab>,
    pub layout: Option<usize>,
    pub filter_state: Option<String>,
    pub filter_text: String,
    /// The loop selected: its index in the filtered list when it is listed
    /// there, and its id.
    pub selection: Option<(Option<usize>, String)>,
    pub selected_run: Option<usize>,
    pub focus_right: Option<bool>,
    /// The pinned loops (a set: repeats carry no meaning).
    pub pinned: Vec<String>,
    pub log_scroll: usize,
    pub follow: bool,
    /// What could not be taken back, in the order the fields are read.
    pub notices: Vec<String>,
}

pub open spec fn opt_view(s: Option<String>) -> Option<Seq<char>> {
    match s {
        Some(t) => Some(t@),
        None => None,
    }
}

pub open spec fn tab_notice(ctx: SessionContext) -> Seq<Seq<char>> {
    match ctx.tab_id {
        Some(t) => if main_tab_for(lower(trim(t@))) is None {
            seq!["stored tab unavailable: "@ + t@]
        } else {
            Seq::empty()
        },
        None => Seq::empty(),
    }
}

pub open spec fn layout_notice(ctx: SessionContext, layout: Option<usize>) -> Seq<Seq<char>> {
    match ctx.layout_id {
        Some(l) => if layout is None {
            seq!["stored layout unavailable: "@ + l@]
        } else {
            Seq::empty()
        },
        None => Seq::empty(),
    }
}

pub open spec fn filter_notice(ctx: SessionContext) -> Seq<Seq<char>> {
    match ctx.filter_state {
        Some(f) => if !filter_options().contains(lower(trim(f@))) {
            seq!["stored filter-state unavailable: "@ + f@]
        } else {
            Seq::empty()
        },
        None => Seq::empty(),
    }
}

pub open spec fn id_is(ids: Seq<String>, id: Seq<char>) -> spec_fn(int) -> bool {
    |i: int| ids[i]@ == id
}

pub open spec fn listed(ids: Seq<String>, id: Seq<char>) -> bool {
    exists|i: int| 0 <= i < ids.len() && #[trigger] ids[i]@ == id
}

/// The stored loop is found again in the filtered list or among all
/// loops (by its exact id; an empty id is never looked for).
pub open spec fn loop_found(ctx: SessionContext, filtered: Seq<String>, loops: Seq<String>) -> bool {
    match ctx.selected_loop_id {
        Some(id) => id@.len() > 0 && (listed(filtered, id@) || listed(loops, id@)),
        None => false,
    }
}

pub open spec fn loop_notice(ctx: SessionContext, filtered: Seq<String>, loops: Seq<String>, previous: Seq<char>) -> Seq<Seq<char>> {
    match ctx.selected_loop_id {
        Some(id) => if !loop_found(ctx, filtered, loops) && lower(trim(previous)) != lower(trim(id@)) {
            seq!["stored loop unavailable: "@ + trim(id@)]
        } else {
            Seq::empty()
        },
        None => Seq::empty(),
    }
}

pub open spec fn run_is(runs: Seq<String>, id: Seq<char>) -> spec_fn(int) -> bool {
    |i: int| trim(runs[i]@) == trim(id)
}

pub open spec fn run_notice(ctx: SessionContext, runs: Seq<String>) -> Seq<Seq<char>> {
    match ctx.selected_run_id {
        Some(r) => if first_from(0, runs.len() as int, run_is(runs, r@)) is None {
            seq!["stored run unavailable: "@ + trim(r@)]
        } else {
            Seq::empty()
        },
        None => Seq::empty(),
    }
}

pub open spec fn pane_focused(panes: Seq<PaneSelection>) -> spec_fn(int) -> bool {
    |i: int| panes[i].focused
}

/// The first focused pane of the stored session, if any.
pub open spec fn focused_pane(panes: Seq<PaneSelection>) -> Option<Seq<char>> {
    match first_from(0, panes.len() as int, pane_focused(panes)) {
        Some(i) => Some(trim(panes[i].pane_id@)),
        None => None,
    }
}

pub open spec fn focus_spec(ctx: SessionContext) -> Option<bool> {
    match focused_pane(ctx.panes@) {
        Some(p) => if lower(p) == "right"@ {
            Some(true)
        } else if lower(p) == "left"@ {
            Some(false)
        } else {
            None
        },
        None => None,
    }
}

pub open spec fn pane_notice(ctx: SessionContext) -> Seq<Seq<char>> {
    match focused_pane(ctx.panes@) {
        Some(p) => if focus_spec(ctx) is None {
            seq!["stored pane focus unavailable: "@ + p]
        } else {
            Seq::empty()
        },
        None => Seq::empty(),
    }
}

/// A loop id as pins compare it.
pub open spec fn pin_key(id: Seq<char>) -> Seq<char> {
    lower(trim(id))
}

pub open spec fn available(loops: Seq<String>, key: Seq<char>) -> bool {
    exists|i: int| 0 <= i < loops.len() && pin_key(#[trigger] loops[i]@) == key
}

/// The stored pins that name a loop still there, as pin keys, in order.
pub open spec fn pins_spec(pins: Seq<String>, loops: Seq<String>) -> Seq<Seq<char>>
    decreases pins.len(),
{
    if pins.len() == 0 {
        Seq::empty()
    } else {
        let k = pin_key(pins.last()@);
        pins_spec(pins.drop_last(), loops) + (if k.len() > 0 && available(loops, k) {
            seq![k]
        } else {
            Seq::empty()
        })
    }
}

pub open spec fn notices_spec(
    ctx: SessionContext,
    layout: Option<usize>,
    filtered: Seq<String>,
    loops: Seq<String>,
    runs: Seq<String>,
    previous: Seq<char>,
) -> Seq<Seq<char>> {
    tab_notice(ctx) + layout_notice(ctx, layout) + filter_notice(ctx) + loop_notice(ctx, filtered, loops, previous)
        + run_notice(ctx, runs) + pane_notice(ctx)
}

fn is_filter_option(s: &str) -> (r: bool)
    ensures
        r == filter_options().contains(s@),
{
    let mut i: usize = 0;
    while i < 6
        invariant
            i <= 6,
            forall|k: int| 0 <= k < i ==> filter_options()[k] != s@,
        decreases 6 - i,
    {
        if str_eq(option_at(i), s) {
            assert(filter_options()[i as int] == s@);
            return true;
        }
        i += 1;
    }
    proof {
        assert forall|k: int| 0 <= k < filter_options().len() implies filter_options()[k] != s@ by {}
    }
    false
}

fn index_of(ids: &Vec<String>, id: &str) -> (r: Option<usize>)
    ensures
        match r {
            Some(i) => i < ids@.len() && ids@[i as int]@ == id@ && listed(ids@, id@),
            None => !listed(ids@, id@),
        },
{
    let mut i: usize = 0;
    while i < ids.len()
        invariant
            i <= ids.len(),
            forall|k: int| 0 <= k < i ==> ids@[k]@ != id@,
        decreases ids.len() - i,
    {
        if str_eq(ids[i].as_str(), id) {
            return Some(i);
        }
        i += 1;
    }
    None
}

fn run_index(runs: &Vec<String>, id: &str) -> (r: Option<usize>)
    ensures
        match r {
            Some(i) => first_from(0, runs@.len() as int, run_is(runs@, id@)) == Some(i as int),
            None => first_from(0, runs@.len() as int, run_is(runs@, id@)) is None,
        },
{
    let target = trim_str(id);
    let mut i: usize = 0;
    while i < runs.len()
        invariant
            i <= runs.len(),
            target@ == trim(id@),
            first_from(0, runs@.len() as int, run_is(runs@, id@)) == first_from(
                i as int,
                runs@.len() as int,
                run_is(runs@, id@),
            ),
        decreases runs.len() - i,
    {
        if str_eq(trim_str(runs[i].as_str()).as_str(), target.as_str()) {
            assert(run_is(runs@, id@)(i as int));
            return Some(i);
        }
        assert(!run_is(runs@, id@)(i as int));
        i += 1;
    }
    None
}

fn focused_pane_id(panes: &Vec<PaneSelection>) -> (r: Option<String>)
    ensures
        opt_view(r) == focused_pane(panes@),
{
    let mut i: usize = 0;
    while i < panes.len()
        invariant
            i <= panes.len(),
            first_from(0, panes@.len() as int, pane_focused(panes@)) == first_from(
                i as int,
                panes@.len() as int,
                pane_focused(panes@),
            ),
        decreases panes.len() - i,
    {
        if panes[i].focused {
            assert(pane_focused(panes@)(i as int));
            return Some(trim_str(panes[i].pane_id.as_str()));
        }
        assert(!pane_focused(panes@)(i as int));
        i += 1;
    }
    None
}

fn pin_keys(pins: &Vec<String>, loops: &Vec<String>) -> (r: Vec<String>)
    ensures
        sv(r@) == pins_spec(pins@, loops@),
{
    let mut keys: Vec<String> = Vec::new();
    let mut k: usize = 0;
    while k < loops.len()
        invariant
            k <= loops.len(),
            keys@.len() == k,
            forall|j: int| 0 <= j < k ==> (#[trigger] keys@[j])@ == pin_key(loops@[j]@),
        decreases loops.len() - k,
    {
        keys.push(lowercase(trim_str(loops[k].as_str()).as_str()));
        k += 1;
    }
    let mut r: Vec<String> = Vec::new();
    let mut i: usize = 0;
    while i < pins.len()
        invariant
            i <= pins.len(),
            keys@.len() == loops@.len(),
            forall|j: int| 0 <= j < loops@.len() ==> (#[trigger] keys@[j])@ == pin_key(loops@[j]@),
            sv(r@) == pins_spec(pins@.take(i as int), loops@),
        decreases pins.len() - i,
    {
        let key = lowercase(trim_str(pins[i].as_str()).as_str());
        assert(pins@.take(i + 1).drop_last() =~= pins@.take(i as int));
        assert(pins@.take(i + 1).last() == pins@[i as int]);
        let mut found = false;
        let mut j: usize = 0;
        while j < keys.len()
            invariant
                j <= keys.len(),
                keys@.len() == loops@.len(),
                forall|q: int| 0 <= q < loops@.len() ==> (#[trigger] keys@[q])@ == pin_key(loops@[q]@),
                found <==> exists|q: int| 0 <= q < j && pin_key(#[trigger] loops@[q]@) == key@,
            decreases keys.len() - j,
        {
            if str_eq(keys[j].as_str(), key.as_str()) {
                found = true;
            }
            j += 1;
        }
        let ghost before = sv(r@);
        let ghost kv = key@;
        let keep = !key.as_str().is_empty() && found;
        if keep {
            r.push(key);
        }
        assert(sv(r@) =~= before + (if keep { seq![kv] } else { Seq::<Seq<char>>::empty() }));
        assert(sv(r@) =~= pins_spec(pins@.take(i + 1), loops@));
        i += 1;
    }
    assert(pins@.take(i as int) =~= pins@);
    r
}

fn push_notice(notices: &mut Vec<String>, head: &str, value: &str)
    ensures
        sv(final(notices)@) == sv(old(notices)@).push(head@ + value@),
{
    notices.push(concat(head, value));
    assert(sv(notices@) =~= sv(old(notices)@).push(head@ + value@));
}

fn restore_tab(ctx: &SessionContext, notices: &mut Vec<String>) -> (r: Option<MainTab>)
    ensures
        r == match ctx.tab_id {
            Some(t) => main_tab_for(lower(trim(t@))),
            None => None,
        },
        sv(final(notices)@) == sv(old(notices)@) + tab_notice(*ctx),
{
    let ghost start = sv(notices@);
    let r = match &ctx.tab_id {
        Some(t) => {
            let found = parse_main_tab_id(t.as_str());
            if found.is_none() {
                push_notice(notices, "stored tab unavailable: ", t.as_str());
            }
            found
        },
        None => None,
    };
    assert(sv(notices@) =~= start + tab_notice(*ctx));
    r
}

fn restore_layout(ctx: &SessionContext, layout: Option<usize>, notices: &mut Vec<String>) -> (r: Option<usize>)
    ensures
        r == (if ctx.layout_id is Some { layout } else { None }),
        sv(final(notices)@) == sv(old(notices)@) + layout_notice(*ctx, layout),
{
    let ghost start = sv(notices@);
    let r = match &ctx.layout_id {
        Some(l) => {
            if layout.is_none() {
                push_notice(notices, "stored layout unavailable: ", l.as_str());
            }
            layout
        },
        None => None,
    };
    assert(sv(notices@) =~= start + layout_notice(*ctx, layout));
    r
}

fn restore_filter(ctx: &SessionContext, notices: &mut Vec<String>) -> (r: Option<String>)
    ensures
        opt_view(r) == match ctx.filter_state {
            Some(f) => if filter_options().contains(lower(trim(f@))) {
                Some(lower(trim(f@)))
            } else {
                None
            },
            None => None,
        },
        sv(final(notices)@) == sv(old(notices)@) + filter_notice(*ctx),
{
    let ghost start = sv(notices@);
    let r = match &ctx.filter_state {
        Some(f) => {
            let normalized = lowercase(trim_str(f.as_str()).as_str());
            if is_filter_option(normalized.as_str()) {
                Some(normalized)
            } else {
                push_notice(notices, "stored filter-state unavailable: ", f.as_str());
                None
            }
        },
        None => None,
    };
    assert(sv(notices@) =~= start + filter_notice(*ctx));
    r
}

fn restore_selection(
    ctx: &SessionContext,
    filtered: &Vec<String>,
    loops: &Vec<String>,
    previous: &str,
    notices: &mut Vec<String>,
) -> (r: Option<(Option<usize>, String)>)
    ensures
        match r {
            Some((idx, id)) => loop_found(*ctx, filtered@, loops@) && (ctx.selected_loop_id matches Some(s)
                && id@ == s@ && match idx {
                Some(i) => i < filtered@.len() && filtered@[i as int]@ == s@,
                None => !listed(filtered@, s@),
            }),
            None => !loop_found(*ctx, filtered@, loops@),
        },
        sv(final(notices)@) == sv(old(notices)@) + loop_notice(*ctx, filtered@, loops@, previous@),
{
    let ghost start = sv(notices@);
    let r = match &ctx.selected_loop_id {
        Some(id) => {
            let sel = if id.as_str().is_empty() {
                None
            } else {
                match index_of(filtered, id.as_str()) {
                    Some(i) => Some((Some(i), copy_string(id.as_str()))),
                    None => match index_of(loops, id.as_str()) {
                        Some(_) => Some((None, copy_string(id.as_str()))),
                        None => None,
                    },
                }
            };
            if sel.is_none() {
                let p = lowercase(trim_str(previous).as_str());
                let q = lowercase(trim_str(id.as_str()).as_str());
                if !str_eq(p.as_str(), q.as_str()) {
                    push_notice(notices, "stored loop unavailable: ", trim_str(id.as_str()).as_str());
                }
            }
            sel
        },
        None => None,
    };
    assert(sv(notices@) =~= start + loop_notice(*ctx, filtered@, loops@, previous@));
    r
}

fn restore_run(ctx: &SessionContext, runs: &Vec<String>, notices: &mut Vec<String>) -> (r: Option<usize>)
    ensures
        r == match ctx.selected_run_id {
            Some(id) => match first_from(0, runs@.len() as int, run_is(runs@, id@)) {
                Some(i) => Some(i as usize),
                None => None,
            },
            None => None,
        },
        sv(final(notices)@) == sv(old(notices)@) + run_notice(*ctx, runs@),
{
    let ghost start = sv(notices@);
    let r = match &ctx.selected_run_id {
        Some(id) => {
            let found = run_index(runs, id.as_str());
            if found.is_none() {
                push_notice(notices, "stored run unavailable: ", trim_str(id.as_str()).as_str());
            }
            found
        },
        None => None,
    };
    assert(sv(notices@) =~= start + run_notice(*ctx, runs@));
    r
}

fn restore_focus(ctx: &SessionContext, notices: &mut Vec<String>) -> (r: Option<bool>)
    ensures
        r == focus_spec(*ctx),
        sv(final(notices)@) == sv(old(notices)@) + pane_notice(*ctx),
{
    let ghost start = sv(notices@);
    let r = match focused_pane_id(&ctx.panes) {
        Some(p) => {
            let k = lowercase(p.as_str());
            if str_eq(k.as_str(), "right") {
                Some(true)
            } else if str_eq(k.as_str(), "left") {
                Some(false)
            } else {
                push_notice(notices, "stored pane focus unavailable: ", p.as_str());
                None
            }
        },
        None => None,
    };
    assert(sv(notices@) =~= start + pane_notice(*ctx));
    r
}

/// Takes a stored session back. `layout` is the stored layout id resolved
/// against the known layouts (nothing when it names none); `filtered` and
/// `loops` are the ids of the listed and of all loops, `runs` those of the
/// selected loop's runs, and `previous` the id selected before.
pub fn restore_session(
    ctx: &SessionContext,
    layout: Option<usize>,
    filtered: &Vec<String>,
    loops: &Vec<String>,
    runs: &Vec<String>,
    previous: &str,
) -> (r: SessionRestore)
    ensures
        r.tab == match ctx.tab_id {
            Some(t) => main_tab_for(lower(trim(t@))),
            None => None,
        },
        r.layout == (if ctx.layout_id is Some { layout } else { None }),
        opt_view(r.filter_state) == match ctx.filter_state {
            Some(f) => if filter_options().contains(lower(trim(f@))) {
                Some(lower(trim(f@)))
            } else {
                None
            },
            None => None,
        },
        r.filter_text@ == match ctx.filter_query {
            Some(q) => q@,
            None => Seq::empty(),
        },
        match r.selection {
            Some((idx, id)) => loop_found(*ctx, filtered@, loops@) && (ctx.selected_loop_id matches Some(s)
                && id@ == s@ && match idx {
                Some(i) => i < filtered@.len() && filtered@[i as int]@ == s@,
                None => !listed(filtered@, s@),
            }),
            None => !loop_found(*ctx, filtered@, loops@),
        },
        r.selected_run == match ctx.selected_run_id {
            Some(id) => match first_from(0, runs@.len() as int, run_is(runs@, id@)) {
                Some(i) => Some(i as usize),
                None => None,
            },
            None => None,
        },
        r.focus_right == focus_spec(*ctx),
        sv(r.pinned@) == pins_spec(ctx.pinned_loop_ids@, loops@),
        r.log_scroll == (if ctx.log_scroll < MAX_LOG_BACKFILL { ctx.log_scroll } else { MAX_LOG_BACKFILL }),
        r.follow == (r.log_scroll == 0),
        sv(r.notices@) == notices_spec(*ctx, layout, filtered@, loops@, runs@, previous@),
{
    let mut notices: Vec<String> = Vec::new();
    assert(sv(notices@) =~= Seq::<Seq<char>>::empty());
    let tab = restore_tab(ctx, &mut notices);
    let chosen_layout = restore_layout(ctx, layout, &mut notices);
    let filter_state = restore_filter(ctx, &mut notices);
    let filter_text = match &ctx.filter_query {
        Some(q) => copy_string(q.as_str()),
        None => String::new(),
    };
    let selection = restore_selection(ctx, filtered, loops, previous, &mut notices);
    let selected_run = restore_run(ctx, runs, &mut notices);
    let focus_right = restore_focus(ctx, &mut notices);
    assert(sv(notices@) =~= notices_spec(*ctx, layout, filtered@, loops@, runs@, previous@));
    let log_scroll = if ctx.log_scroll < MAX_LOG_BACKFILL { ctx.log_scroll } else { MAX_LOG_BACKFILL };
    SessionRestore {
        tab,
        layout: chosen_layout,
        filter_state,
        filter_text,
        selection,
        selected_run,
        focus_right,
        pinned: pin_keys(&ctx.pinned_loop_ids, loops),
        log_scroll,
        follow: log_scroll == 0,
        notices,
    }
}

// ---------------------------------------------------------------------------
// Capturing a session
// ---------------------------------------------------------------------------

/// Strings in ascending order, as `Ord` for `String` orders them.
pub open spec fn string_order() -> spec_fn(Seq<char>, Seq<char>) -> bool {
    |a: Seq<char>, b: Seq<char>| lex_order(a, b) < 0
}

/// `s` when it is not blank.
pub open spec fn unless_blank(s: Seq<char>) -> Option<Seq<char>> {
    if trim(s).len() == 0 {
        None
    } else {
        Some(s)
    }
}

/// `ctx` is what the shell stores of its state: the selected loop and the
/// filters unless blank, the id of the selected run when there is one, the
/// log scroll, the tab's short label, the active layout's label, the two
/// panes with the focus on one, and the pinned loops in ascending order.
pub open spec fn captured(
    ctx: SessionContext,
    tab: MainTab,
    layout_label: Seq<char>,
    selected_id: Seq<char>,
    runs: Seq<String>,
    selected_run: int,
    log_scroll: usize,
    filter_state: Seq<char>,
    filter_text: Seq<char>,
    focus_right: bool,
    pins: Seq<Seq<char>>,
) -> bool {
    &&& opt_view(ctx.selected_loop_id) == unless_blank(selected_id)
    &&& opt_view(ctx.selected_run_id) == if 0 <= selected_run < runs.len() {
        Some(runs[selected_run]@)
    } else {
        None::<Seq<char>>
    }
    &&& ctx.log_scroll == log_scroll
    &&& opt_view(ctx.tab_id) == Some(tab.short_label_spec())
    &&& opt_view(ctx.layout_id) == Some(layout_label)
    &&& opt_view(ctx.filter_state) == unless_blank(filter_state)
    &&& opt_view(ctx.filter_query) == unless_blank(filter_text)
    &&& ctx.panes@.len() == 2
    &&& ctx.panes@[0].pane_id@ == "left"@ && ctx.panes@[0].focused == !focus_right
    &&& ctx.panes@[1].pane_id@ == "right"@ && ctx.panes@[1].focused == focus_right
    &&& sv(ctx.pinned_loop_ids@) == sort_by_spec(pins, string_order())
}

fn keep_unless_blank(s: &str) -> (r: Option<String>)
    ensures
        opt_view(r) == unless_blank(s@),
{
    if trim_str(s).as_str().is_empty() {
        None
    } else {
        Some(copy_string(s))
    }
}

fn string_insert_index(list: &Vec<String>, x: &str) -> (r: usize)
    ensures
        r as int == insert_pos(sv(list@), string_order(), x@),
        r <= list.len(),
{
    let ghost s = sv(list@);
    let mut j: usize = 0;
    while j < list.len()
        invariant
            j <= list.len(),
            s == sv(list@),
            first_from(0, s.len() as int, first_after(s, string_order(), x@)) == first_from(
                j as int,
                s.len() as int,
                first_after(s, string_order(), x@),
            ),
        decreases list.len() - j,
    {
        if order_strings(x, list[j].as_str()) < 0 {
            assert(first_after(s, string_order(), x@)(j as int));
            return j;
        }
        assert(!first_after(s, string_order(), x@)(j as int));
        j += 1;
    }
    j
}

fn sorted_strings(items: &Vec<String>) -> (r: Vec<String>)
    ensures
        sv(r@) == sort_by_spec(sv(items@), string_order()),
{
    let ghost orig = sv(items@);
    let mut sorted: Vec<String> = Vec::new();
    let mut k: usize = 0;
    while k < items.len()
        invariant
            k <= items.len(),
            orig == sv(items@),
            sv(sorted@) == sort_by_spec(orig.take(k as int), string_order()),
        decreases items.len() - k,
    {
        assert(orig.take(k + 1).drop_last() =~= orig.take(k as int));
        assert(orig.take(k + 1).last() == orig[k as int]);
        let j = string_insert_index(&sorted, items[k].as_str());
        let ghost prev = sv(sorted@);
        sorted.insert(j, copy_string(items[k].as_str()));
        assert(sv(sorted@) =~= prev.insert(j as int, orig[k as int]));
        k += 1;
    }
    assert(orig.take(k as int) =~= orig);
    sorted
}

fn pane(id: &str, focused: bool) -> (r: PaneSelection)
    ensures
        r.pane_id@ == id@,
        r.focused == focused,
{
    PaneSelection { pane_id: copy_string(id), focused }
}

/// What the shell stores of its state for the next run. `layout_label` is
/// the active layout's label, `runs` the ids of the selected loop's runs and
/// `selected_run` the index of the selected one, `pinned` the pinned loops
/// (a set: in any order).
pub fn capture_session(
    tab: MainTab,
    layout_label: &str,
    selected_id: &str,
    runs: &Vec<String>,
    selected_run: usize,
    log_scroll: usize,
    filter_state: &str,
    filter_text: &str,
    focus_right: bool,
    pinned: &Vec<String>,
) -> (r: SessionContext)
    ensures
        captured(
            r,
            tab,
            layout_label@,
            selected_id@,
            runs@,
            selected_run as int,
            log_scroll,
            filter_state@,
            filter_text@,
            focus_right,
            sv(pinned@),
        ),
{
    let selected_run_id = if selected_run < runs.len() {
        Some(copy_string(runs[selected_run].as_str()))
    } else {
        None
    };
    let mut panes: Vec<PaneSelection> = Vec::new();
    panes.push(pane("left", !focus_right));
    panes.push(pane("right", focus_right));
    SessionContext {
        selected_loop_id: keep_unless_blank(selected_id),
        selected_run_id,
        log_scroll,
        tab_id: Some(copy_string(tab.short_label())),
        layout_id: Some(copy_string(layout_label)),
        filter_state: keep_unless_blank(filter_state),
        filter_query: keep_unless_blank(filter_text),
        panes,
        pinned_loop_ids: sorted_strings(pinned),
    }
}

proof fn lemma_plain_word(s: Seq<char>)
    requires
        s.len() > 0,
        forall|i: int| 0 <= i < s.len() ==> 'a' <= #[trigger] s[i] <= 'z' || s[i] == '-',
    ensures
        trim(s) == s,
        lower(s) == s,
{
    assert(trim_start(s) == s);
    assert(trim_end(s) == s);
    assert(lower(s) =~= s);
}

proof fn lemma_tab_label_round_trip(tab: MainTab)
    ensures
        main_tab_for(lower(trim(tab.short_label_spec()))) == Some(tab),
{
    reveal_strlit("1");
    reveal_strlit("2");
    reveal_strlit("3");
    reveal_strlit("4");
    reveal_strlit("overview");
    reveal_strlit("ov");
    reveal_strlit("logs");
    reveal_strlit("log");
    reveal_strlit("runs");
    reveal_strlit("run");
    reveal_strlit("multi");
    reveal_strlit("multi-logs");
    reveal_strlit("multilogs");
    reveal_strlit("multi logs");
    reveal_strlit("5");
    reveal_strlit("inbox");
    match tab {
        MainTab::Overview => lemma_plain_word("ov"@),
        MainTab::Logs => lemma_plain_word("logs"@),
        MainTab::Runs => lemma_plain_word("runs"@),
        MainTab::MultiLogs => lemma_plain_word("multi"@),
        MainTab::Inbox => lemma_plain_word("inbox"@),
    }
}

proof fn lemma_pins_spec_contains(ps: Seq<String>, loops: Seq<String>, x: Seq<char>)
    ensures
        pins_spec(ps, loops).contains(x) <==> (x.len() > 0 && available(loops, x) && exists|i: int|
            0 <= i < ps.len() && pin_key(#[trigger] ps[i]@) == x),
    decreases ps.len(),
{
    if ps.len() > 0 {
        let p0 = ps.drop_last();
        lemma_pins_spec_contains(p0, loops, x);
        let k = pin_key(ps.last()@);
        let tail = if k.len() > 0 && available(loops, k) { seq![k] } else { Seq::<Seq<char>>::empty() };
        assert(pins_spec(ps, loops) == pins_spec(p0, loops) + tail);
        if pins_spec(ps, loops).contains(x) {
            let j = choose|j: int| 0 <= j < pins_spec(ps, loops).len() && pins_spec(ps, loops)[j] == x;
            if j < pins_spec(p0, loops).len() {
                assert(pins_spec(p0, loops)[j] == x);
                assert(pins_spec(p0, loops).contains(x));
                let i = choose|i: int| 0 <= i < p0.len() && pin_key(#[trigger] p0[i]@) == x;
                assert(ps[i] == p0[i]);
            } else {
                assert(tail[j - pins_spec(p0, loops).len()] == x);
                assert(pin_key(ps[ps.len() - 1]@) == x);
            }
        }
        if x.len() > 0 && available(loops, x) && exists|i: int| 0 <= i < ps.len() && pin_key(#[trigger] ps[i]@) == x {
            let i = choose|i: int| 0 <= i < ps.len() && pin_key(#[trigger] ps[i]@) == x;
            if i < p0.len() {
                assert(p0[i] == ps[i]);
                assert(pins_spec(p0, loops).contains(x));
                let j = choose|j: int| 0 <= j < pins_spec(p0, loops).len() && pins_spec(p0, loops)[j] == x;
                assert(pins_spec(ps, loops)[j] == x);
            } else {
                assert(pins_spec(ps, loops)[pins_spec(p0, loops).len() as int] == x);
            }
        }
    }
}

/// Restoring a captured session gives the state back: the same tab,
/// layout, state filter, text filter, selected loop (found in the listed
/// loops), selected run, pane focus, pins and log scroll (following the
/// log's end exactly when the scroll is 0), with nothing reported. This
/// holds when the stored values are ones the shell can hold: a state
/// filter among the options, a text filter that is empty or not blank, a
/// listed loop selected, run ids that differ once trimmed, pins that name
/// loops by their trimmed lowercase ids, and a scroll within the backfill.
pub proof fn law_session_round_trip(
    ctx: SessionContext,
    tab: MainTab,
    layout_label: Seq<char>,
    layout: Option<usize>,
    selected_id: Seq<char>,
    runs: Seq<String>,
    selected_run: int,
    log_scroll: usize,
    filter_state: Seq<char>,
    filter_text: Seq<char>,
    focus_right: bool,
    pins: Seq<Seq<char>>,
    filtered: Seq<String>,
    loops: Seq<String>,
    previous: Seq<char>,
)
    requires
        captured(
            ctx,
            tab,
            layout_label,
            selected_id,
            runs,
            selected_run,
            log_scroll,
            filter_state,
            filter_text,
            focus_right,
            pins,
        ),
        layout is Some,
        filter_options().contains(filter_state),
        filter_text.len() == 0 || trim(filter_text).len() > 0,
        trim(selected_id).len() > 0,
        listed(filtered, selected_id),
        0 <= selected_run < runs.len(),
        forall|i: int, j: int| 0 <= i < j < runs.len() ==> trim(#[trigger] runs[i]@) != trim(#[trigger] runs[j]@),
        forall|i: int|
            0 <= i < pins.len() ==> pin_key(#[trigger] pins[i]) == pins[i] && pins[i].len() > 0 && available(
                loops,
                pins[i],
            ),
        log_scroll <= MAX_LOG_BACKFILL,
    ensures
        match ctx.tab_id {
            Some(t) => main_tab_for(lower(trim(t@))),
            None => None,
        } == Some(tab),
        (if ctx.layout_id is Some { layout } else { None }) == layout,
        match ctx.filter_state {
            Some(f) => if filter_options().contains(lower(trim(f@))) {
                Some(lower(trim(f@)))
            } else {
                None
            },
            None => None,
        } == Some(filter_state),
        match ctx.filter_query {
            Some(q) => q@,
            None => Seq::empty(),
        } == filter_text,
        loop_found(ctx, filtered, loops),
        ctx.selected_loop_id matches Some(s) && s@ == selected_id && listed(filtered, s@),
        match ctx.selected_run_id {
            Some(id) => match first_from(0, runs.len() as int, run_is(runs, id@)) {
                Some(i) => Some(i as usize),
                None => None,
            },
            None => None,
        } == Some(selected_run as usize),
        focus_spec(ctx) == Some(focus_right),
        forall|x: Seq<char>| pins_spec(ctx.pinned_loop_ids@, loops).contains(x) <==> pins.contains(x),
        (if ctx.log_scroll < MAX_LOG_BACKFILL { ctx.log_scroll } else { MAX_LOG_BACKFILL }) == log_scroll,
        notices_spec(ctx, layout, filtered, loops, runs, previous) == Seq::<Seq<char>>::empty(),
{
    lemma_tab_label_round_trip(tab);
    // The state filter is one of the options, each a plain lowercase word.
    reveal_strlit("all");
    reveal_strlit("running");
    reveal_strlit("sleeping");
    reveal_strlit("waiting");
    reveal_strlit("stopped");
    reveal_strlit("error");
    let k = choose|k: int| 0 <= k < filter_options().len() && filter_options()[k] == filter_state;
    lemma_plain_word(filter_options()[k]);
    // The selected run is the first whose trimmed id matches.
    let rid = runs[selected_run]@;
    lemma_first_from(0, runs.len() as int, run_is(runs, rid));
    assert(run_is(runs, rid)(selected_run));
    if let Some(i) = first_from(0, runs.len() as int, run_is(runs, rid)) {
        if i < selected_run {
            assert(trim(runs[i]@) != trim(runs[selected_run]@));
        }
    }
    // The focused pane is the first with the focus.
    reveal_strlit("left");
    reveal_strlit("right");
    let panes = ctx.panes@;
    lemma_first_from(0, 2, pane_focused(panes));
    if focus_right {
        assert(!pane_focused(panes)(0) && pane_focused(panes)(1));
        lemma_plain_word("right"@);
    } else {
        assert(pane_focused(panes)(0));
        lemma_plain_word("left"@);
    }
    // The pins are a set of available loop keys.
    lemma_sort_by_items(pins, string_order());
    assert forall|x: Seq<char>| pins_spec(ctx.pinned_loop_ids@, loops).contains(x) <==> pins.contains(x) by {
        let ps = ctx.pinned_loop_ids@;
        lemma_pins_spec_contains(ps, loops, x);
        let srt = sort_by_spec(pins, string_order());
        if pins.contains(x) {
            let i = choose|i: int| 0 <= i < pins.len() && pins[i] == x;
            assert(srt.contains(x));
            let j = choose|j: int| 0 <= j < srt.len() && srt[j] == x;
            assert(sv(ps)[j] == ps[j]@);
            assert(pin_key(ps[j]@) == x);
        }
        if pins_spec(ps, loops).contains(x) {
            let i = choose|i: int| 0 <= i < ps.len() && pin_key(#[trigger] ps[i]@) == x;
            assert(sv(ps)[i] == ps[i]@);
            assert(srt.contains(ps[i]@));
            assert(pins.contains(ps[i]@));
            let j = choose|j: int| 0 <= j < pins.len() && pins[j] == ps[i]@;
            assert(pin_key(pins[j]) == pins[j]);
        }
    }
    assert(tab_notice(ctx) =~= Seq::<Seq<char>>::empty());
    assert(notices_spec(ctx, layout, filtered, loops, runs, previous) =~= Seq::<Seq<char>>::empty());
}

} // verus!
