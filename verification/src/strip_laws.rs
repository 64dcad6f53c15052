//! Laws of the status strip: the registry's listing and the default layout,
//! what edits do and when they fail, and that a stored layout read back is
//! the layout that was stored.
use vstd::prelude::*;

use crate::status_strip::{
    apply_update, by_id, def_goes_before, def_insert_pos, def_to_pl, default_placements, id_at,
    normalized_orders, pl_find, pl_id_after, pl_id_insert_pos, pl_id_is, put_by_id, reg_find,
    registry_ok, sanitize_fold, sanitize_step, sanitized, sort_defs, widget_id_spec, DefModel,
    parse_placement, parse_placements_spec, parse_v2_spec, placement_json_is, restore_spec, schema_of,
    store_json_is, STATUS_STRIP_SCHEMA_VERSION,
    pl_before, pl_goes_before, pl_insert_pos, rank, renumber, sat_inc, sort_pl, PlacementModel,
    StripPosition, set_enabled_spec, plan_fold, plan_spec, SlotModel, ids_in, insert_clamped,
    move_spec, positioned, remove_first, str_is, def_order, def_before, last_enabled,
};
use crate::json::{json_field, json_get, key_is, JsonValue};
use crate::text::{first_from, lemma_first_from, lemma_lex_antisym, lemma_lex_eq, lex_order};

verus! {

// ---------------------------------------------------------------------------
// Order of placements
// ---------------------------------------------------------------------------

proof fn lemma_first_from_at(i: int, len: int, p: spec_fn(int) -> bool, k: int)
    requires
        i <= k < len,
        p(k),
        forall|q: int| i <= q < k ==> !#[trigger] p(q),
    ensures
        first_from(i, len, p) == Some(k),
    decreases k - i,
{
    if i < k {
        lemma_first_from_at(i + 1, len, p, k);
    }
}

proof fn lemma_first_from_none(i: int, len: int, p: spec_fn(int) -> bool)
    requires
        forall|q: int| i <= q < len ==> !#[trigger] p(q),
    ensures
        first_from(i, len, p) is None,
    decreases len - i,
{
    if i < len {
        lemma_first_from_none(i + 1, len, p);
    }
}

proof fn lemma_pl_before_asym(a: PlacementModel, b: PlacementModel)
    requires
        pl_before(a, b),
    ensures
        !pl_before(b, a),
{
    lemma_lex_antisym(a.widget_id, b.widget_id);
}

/// No two placements share a widget id.
pub open spec fn distinct_ids(s: Seq<PlacementModel>) -> bool {
    forall|i: int, j: int| 0 <= i < j < s.len() ==> s[i].widget_id != s[j].widget_id
}

/// Each placement sorts strictly before the ones after it.
pub open spec fn strictly_ordered(s: Seq<PlacementModel>) -> bool {
    forall|i: int, j: int| 0 <= i < j < s.len() ==> pl_before(s[i], s[j])
}

pub open spec fn same_elements(a: Seq<PlacementModel>, b: Seq<PlacementModel>) -> bool {
    forall|x: PlacementModel| a.contains(x) <==> b.contains(x)
}

proof fn lemma_sort_pl_elements(s: Seq<PlacementModel>)
    ensures
        same_elements(sort_pl(s), s),
        sort_pl(s).len() == s.len(),
    decreases s.len(),
{
    if s.len() > 0 {
        lemma_sort_pl_elements(s.drop_last());
        let t = sort_pl(s.drop_last());
        let x = s.last();
        let j = pl_insert_pos(t, x);
        lemma_first_from(0, t.len() as int, pl_goes_before(x, t));
        let u = t.insert(j, x);
        assert forall|y: PlacementModel| u.contains(y) <==> s.contains(y) by {
            if u.contains(y) {
                let k = choose|k: int| 0 <= k < u.len() && u[k] == y;
                if k == j {
                    assert(s[s.len() - 1] == y);
                } else {
                    let k2 = if k < j { k } else { k - 1 };
                    assert(t[k2] == y);
                    assert(t.contains(y));
                    assert(s.drop_last().contains(y));
                    let m = choose|m: int| 0 <= m < s.drop_last().len() && s.drop_last()[m] == y;
                    assert(s[m] == y);
                }
            }
            if s.contains(y) {
                let k = choose|k: int| 0 <= k < s.len() && s[k] == y;
                if k == s.len() - 1 {
                    assert(u[j] == y);
                } else {
                    assert(s.drop_last()[k] == y);
                    assert(t.contains(y));
                    let m = choose|m: int| 0 <= m < t.len() && t[m] == y;
                    if m < j {
                        assert(u[m] == y);
                    } else {
                        assert(u[m + 1] == y);
                    }
                }
            }
        }
    }
}

proof fn lemma_distinct_elements(s: Seq<PlacementModel>, i: int, j: int)
    requires
        distinct_ids(s),
        0 <= i < s.len(),
        0 <= j < s.len(),
        s[i] == s[j],
    ensures
        i == j,
{
    if i < j {
        assert(s[i].widget_id != s[j].widget_id);
    } else if j < i {
        assert(s[j].widget_id != s[i].widget_id);
    }
}

/// Two sequences with the same elements, each without repeated widget ids:
/// one of them strictly ordered is what sorting the other gives.
pub proof fn lemma_sort_pl_of_same(t: Seq<PlacementModel>, n: Seq<PlacementModel>)
    requires
        distinct_ids(t),
        distinct_ids(n),
        strictly_ordered(n),
        same_elements(t, n),
    ensures
        sort_pl(t) == n,
    decreases t.len(),
{
    if t.len() == 0 {
        if n.len() > 0 {
            assert(n.contains(n[0]));
        }
        assert(n =~= t);
    } else {
        let x = t.last();
        let t1 = t.drop_last();
        assert(t.contains(x)) by {
            assert(t[t.len() - 1] == x);
        }
        let k = choose|k: int| 0 <= k < n.len() && n[k] == x;
        let n1 = n.remove(k);
        assert(distinct_ids(t1)) by {
            assert forall|i: int, j: int| 0 <= i < j < t1.len() implies t1[i].widget_id != t1[j].widget_id by {
                assert(t1[i] == t[i] && t1[j] == t[j]);
            }
        }
        assert(distinct_ids(n1)) by {
            assert forall|i: int, j: int| 0 <= i < j < n1.len() implies n1[i].widget_id != n1[j].widget_id by {
                let i0 = if i < k { i } else { i + 1 };
                let j0 = if j < k { j } else { j + 1 };
                assert(n1[i] == n[i0] && n1[j] == n[j0]);
            }
        }
        assert(strictly_ordered(n1)) by {
            assert forall|i: int, j: int| 0 <= i < j < n1.len() implies pl_before(n1[i], n1[j]) by {
                let i0 = if i < k { i } else { i + 1 };
                let j0 = if j < k { j } else { j + 1 };
                assert(n1[i] == n[i0] && n1[j] == n[j0]);
            }
        }
        assert(same_elements(t1, n1)) by {
            assert forall|y: PlacementModel| t1.contains(y) <==> n1.contains(y) by {
                if t1.contains(y) {
                    let i = choose|i: int| 0 <= i < t1.len() && t1[i] == y;
                    assert(t[i] == y);
                    assert(t.contains(y));
                    assert(n.contains(y));
                    let m = choose|m: int| 0 <= m < n.len() && n[m] == y;
                    if m == k {
                        lemma_distinct_elements(t, i, t.len() - 1);
                    }
                    if m < k {
                        assert(n1[m] == y);
                    } else {
                        assert(n1[m - 1] == y);
                    }
                }
                if n1.contains(y) {
                    let i = choose|i: int| 0 <= i < n1.len() && n1[i] == y;
                    let i0 = if i < k { i } else { i + 1 };
                    assert(n[i0] == y);
                    assert(n.contains(y));
                    assert(t.contains(y));
                    let m = choose|m: int| 0 <= m < t.len() && t[m] == y;
                    if m == t.len() - 1 {
                        lemma_distinct_elements(n, i0, k);
                    }
                    assert(t1[m] == y);
                }
            }
        }
        lemma_sort_pl_of_same(t1, n1);
        let p = pl_goes_before(x, n1);
        assert forall|q: int| 0 <= q < k implies !#[trigger] p(q) by {
            assert(n1[q] == n[q]);
            assert(pl_before(n[q], n[k]));
            lemma_pl_before_asym(n[q], n[k]);
        }
        if k < n1.len() {
            assert(n1[k] == n[k + 1]);
            assert(p(k));
            lemma_first_from_at(0, n1.len() as int, p, k);
        } else {
            lemma_first_from_none(0, n1.len() as int, p);
        }
        assert(pl_insert_pos(n1, x) == k);
        assert(n1.insert(k, x) =~= n);
    }
}


// ---------------------------------------------------------------------------
// Renumbering
// ---------------------------------------------------------------------------

/// How many of `s` sit in strip `p`.
pub open spec fn count_in(s: Seq<PlacementModel>, p: StripPosition) -> nat
    decreases s.len(),
{
    if s.len() == 0 {
        0
    } else {
        count_in(s.drop_last(), p) + if s.last().position == p {
            1nat
        } else {
            0nat
        }
    }
}

proof fn lemma_count_bound(s: Seq<PlacementModel>, p: StripPosition)
    ensures
        count_in(s, p) <= s.len(),
    decreases s.len(),
{
    if s.len() > 0 {
        lemma_count_bound(s.drop_last(), p);
    }
}

/// Renumbering keeps each placement but its order, and gives each the
/// number of placements of its strip before it.
proof fn lemma_renumber(s: Seq<PlacementModel>)
    requires
        s.len() < 65536,
    ensures
        renumber(s).0.len() == s.len(),
        renumber(s).1 == count_in(s, StripPosition::Top),
        renumber(s).2 == count_in(s, StripPosition::Bottom),
        forall|i: int|
            0 <= i < s.len() ==> #[trigger] renumber(s).0[i] == (PlacementModel {
                order: count_in(s.take(i), s[i].position) as u16,
                ..s[i]
            }),
    decreases s.len(),
{
    if s.len() > 0 {
        let s1 = s.drop_last();
        lemma_renumber(s1);
        lemma_count_bound(s1, StripPosition::Top);
        lemma_count_bound(s1, StripPosition::Bottom);
        let out = renumber(s).0;
        assert forall|i: int| 0 <= i < s.len() implies #[trigger] out[i] == PlacementModel {
            order: count_in(s.take(i), s[i].position) as u16,
            ..s[i]
        } by {
            if i < s1.len() {
                assert(out[i] == renumber(s1).0[i]);
                assert(s1.take(i) =~= s.take(i));
                assert(s1[i] == s[i]);
            } else {
                assert(s.take(i) =~= s1);
            }
        }
    }
}

proof fn lemma_count_step(s: Seq<PlacementModel>, p: StripPosition, j: int)
    requires
        0 <= j < s.len(),
    ensures
        count_in(s.take(j + 1), p) == count_in(s.take(j), p) + (if s[j].position == p {
            1nat
        } else {
            0nat
        }),
{
    assert(s.take(j + 1).drop_last() =~= s.take(j));
    assert(s.take(j + 1).last() == s[j]);
}

proof fn lemma_count_grows(s: Seq<PlacementModel>, p: StripPosition, i: int, j: int)
    requires
        0 <= i < j <= s.len(),
        s[i].position == p,
    ensures
        count_in(s.take(j), p) >= count_in(s.take(i), p) + 1,
    decreases j - i,
{
    if j == i + 1 {
        lemma_count_step(s, p, i);
    } else {
        lemma_count_grows(s, p, i, j - 1);
        lemma_count_step(s, p, j - 1);
    }
}

/// Renumbering what is already numbered changes nothing.
proof fn lemma_renumber_idempotent(s: Seq<PlacementModel>)
    ensures
        renumber(renumber(s).0) == renumber(s),
    decreases s.len(),
{
    if s.len() > 0 {
        lemma_renumber_idempotent(s.drop_last());
        let (out, top, bottom) = renumber(s.drop_last());
        let r = renumber(s).0;
        assert(r.drop_last() =~= out);
    }
}

/// Placements sorted by strip (top first) and renumbered are in strict
/// order.
proof fn lemma_renumbered_ordered(s: Seq<PlacementModel>)
    requires
        s.len() < 65536,
        forall|i: int, j: int| 0 <= i < j < s.len() ==> rank(s[i].position) <= rank(s[j].position),
    ensures
        strictly_ordered(renumber(s).0),
{
    lemma_renumber(s);
    let n = renumber(s).0;
    assert forall|i: int, j: int| 0 <= i < j < n.len() implies pl_before(n[i], n[j]) by {
        assert(n[i] == PlacementModel { order: count_in(s.take(i), s[i].position) as u16, ..s[i] });
        assert(n[j] == PlacementModel { order: count_in(s.take(j), s[j].position) as u16, ..s[j] });
        if s[i].position == s[j].position {
            lemma_count_grows(s, s[i].position, i, j);
            lemma_count_bound(s.take(j), s[i].position);
        }
    }
}

/// Insertion sort puts the top strip first.
proof fn lemma_sort_pl_ranks(s: Seq<PlacementModel>)
    ensures
        forall|i: int, j: int|
            0 <= i < j < sort_pl(s).len() ==> rank(sort_pl(s)[i].position) <= rank(
                sort_pl(s)[j].position,
            ),
    decreases s.len(),
{
    if s.len() > 0 {
        lemma_sort_pl_ranks(s.drop_last());
        let t = sort_pl(s.drop_last());
        let x = s.last();
        let k = pl_insert_pos(t, x);
        lemma_first_from(0, t.len() as int, pl_goes_before(x, t));
        let u = t.insert(k, x);
        assert forall|i: int, j: int| 0 <= i < j < u.len() implies rank(u[i].position) <= rank(
            u[j].position,
        ) by {
            if i == k {
                assert(pl_before(x, t[k]));
                assert(u[j] == t[j - 1]);
            } else if j == k {
                assert(!pl_goes_before(x, t)(i));
                assert(u[i] == t[i]);
            } else {
                let i0 = if i < k { i } else { i - 1 };
                let j0 = if j < k { j } else { j - 1 };
                assert(u[i] == t[i0] && u[j] == t[j0]);
                if i < k && k < j {
                    assert(!pl_goes_before(x, t)(i));
                    if k < t.len() {
                        assert(pl_before(x, t[k]));
                    }
                }
            }
        }
    }
}


// ---------------------------------------------------------------------------
// Placements by widget id
// ---------------------------------------------------------------------------

pub open spec fn pl_ids(s: Seq<PlacementModel>) -> Seq<Seq<char>> {
    s.map_values(|p: PlacementModel| p.widget_id)
}

proof fn lemma_put_by_id(m: Seq<PlacementModel>, p: PlacementModel)
    requires
        distinct_ids(m),
    ensures
        distinct_ids(put_by_id(m, p)),
        put_by_id(m, p).len() <= m.len() + 1,
        forall|y: PlacementModel| #[trigger] put_by_id(m, p).contains(y) ==> y == p || m.contains(y),
{
    lemma_first_from(0, m.len() as int, pl_id_is(m, p.widget_id));
    let r = put_by_id(m, p);
    match pl_find(m, p.widget_id) {
        Some(i) => {
            assert forall|a: int, b: int| 0 <= a < b < r.len() implies r[a].widget_id != r[b].widget_id by {
                assert(pl_id_is(m, p.widget_id)(i));
                if a == i {
                    assert(m[b].widget_id != m[i].widget_id);
                } else if b == i {
                    assert(m[a].widget_id != m[i].widget_id);
                }
            }
            assert forall|y: PlacementModel| #[trigger] r.contains(y) implies y == p || m.contains(y) by {
                let k = choose|k: int| 0 <= k < r.len() && r[k] == y;
                if k != i {
                    assert(m[k] == y);
                }
            }
        },
        None => {
            let j = pl_id_insert_pos(m, p.widget_id);
            lemma_first_from(0, m.len() as int, pl_id_after(m, p.widget_id));
            assert forall|a: int, b: int| 0 <= a < b < r.len() implies r[a].widget_id != r[b].widget_id by {
                let a0 = if a < j { a } else { a - 1 };
                let b0 = if b < j { b } else { b - 1 };
                if a == j {
                    assert(!pl_id_is(m, p.widget_id)(b0));
                } else if b == j {
                    assert(!pl_id_is(m, p.widget_id)(a0));
                } else {
                    assert(r[a] == m[a0] && r[b] == m[b0]);
                }
            }
            assert forall|y: PlacementModel| #[trigger] r.contains(y) implies y == p || m.contains(y) by {
                let k = choose|k: int| 0 <= k < r.len() && r[k] == y;
                if k < j {
                    assert(m[k] == y);
                } else if k > j {
                    assert(m[k - 1] == y);
                }
            }
        },
    }
}

/// Collecting by widget id leaves no id twice, takes nothing but the given
/// placements, and makes the list no longer.
proof fn lemma_by_id(s: Seq<PlacementModel>)
    ensures
        distinct_ids(by_id(s)),
        by_id(s).len() <= s.len(),
        forall|y: PlacementModel| #[trigger] by_id(s).contains(y) ==> s.contains(y),
    decreases s.len(),
{
    if s.len() > 0 {
        lemma_by_id(s.drop_last());
        lemma_put_by_id(by_id(s.drop_last()), s.last());
        assert forall|y: PlacementModel| #[trigger] by_id(s).contains(y) implies s.contains(y) by {
            if y == s.last() {
                assert(s[s.len() - 1] == y);
            } else {
                assert(by_id(s.drop_last()).contains(y));
                assert(s.drop_last().contains(y));
                let k = choose|k: int| 0 <= k < s.drop_last().len() && s.drop_last()[k] == y;
                assert(s[k] == y);
            }
        }
    }
}

/// An update keeps every widget id in its place.
proof fn lemma_apply_update_ids(m: Seq<PlacementModel>, id: Seq<char>, p: PlacementModel)
    ensures
        pl_ids(apply_update(m, id, p)) == pl_ids(m),
{
    lemma_first_from(0, m.len() as int, pl_id_is(m, id));
    let r = apply_update(m, id, p);
    assert(r.len() == m.len());
    assert forall|j: int| 0 <= j < m.len() implies r[j].widget_id == m[j].widget_id by {
        match pl_find(m, id) {
            Some(i) => {
                if j == i {
                } else {
                    assert(r[j] == m[j]);
                }
            },
            None => {},
        }
    }
    assert(pl_ids(r) =~= pl_ids(m));
}


proof fn lemma_fold_ids(
    reg: Seq<DefModel>,
    st: (Seq<PlacementModel>, Seq<Seq<char>>, Seq<Seq<char>>),
    ps: Seq<PlacementModel>,
)
    ensures
        pl_ids(sanitize_fold(reg, st, ps).0) == pl_ids(st.0),
    decreases ps.len(),
{
    if ps.len() > 0 {
        lemma_fold_ids(reg, st, ps.drop_last());
        let prev = sanitize_fold(reg, st, ps.drop_last());
        let p = ps.last();
        let id = widget_id_spec(p.widget_id);
        lemma_apply_update_ids(prev.0, id, p);
    }
}

proof fn lemma_renumber_ids(s: Seq<PlacementModel>)
    ensures
        pl_ids(renumber(s).0) == pl_ids(s),
    decreases s.len(),
{
    if s.len() > 0 {
        lemma_renumber_ids(s.drop_last());
        assert(pl_ids(renumber(s).0) =~= pl_ids(renumber(s.drop_last()).0).push(s.last().widget_id));
        assert(pl_ids(s) =~= pl_ids(s.drop_last()).push(s.last().widget_id));
    }
}

proof fn lemma_sort_defs_elements(s: Seq<DefModel>)
    ensures
        sort_defs(s).len() == s.len(),
        forall|y: DefModel| #[trigger] sort_defs(s).contains(y) ==> s.contains(y),
    decreases s.len(),
{
    if s.len() > 0 {
        lemma_sort_defs_elements(s.drop_last());
        let t = sort_defs(s.drop_last());
        let x = s.last();
        let j = def_insert_pos(t, x);
        crate::text::lemma_first_from(0, t.len() as int, def_goes_before(x, t));
        let u = t.insert(j, x);
        assert forall|y: DefModel| #[trigger] u.contains(y) implies s.contains(y) by {
            let k = choose|k: int| 0 <= k < u.len() && u[k] == y;
            if k == j {
                assert(s[s.len() - 1] == y);
            } else {
                let k2 = if k < j { k } else { k - 1 };
                assert(t[k2] == y);
                assert(t.contains(y));
                let m = choose|m: int| 0 <= m < s.drop_last().len() && s.drop_last()[m] == y;
                assert(s[m] == y);
            }
        }
    }
}

/// A registered id: normalized, not empty, and found in the registry.
pub open spec fn registered(reg: Seq<DefModel>, id: Seq<char>) -> bool {
    &&& widget_id_spec(id) == id
    &&& id.len() > 0
    &&& reg_find(reg, id) is Some
}

proof fn lemma_registered(reg: Seq<DefModel>, i: int)
    requires
        registry_ok(reg),
        0 <= i < reg.len(),
    ensures
        registered(reg, reg[i].id),
{
    crate::text::lemma_first_from(0, reg.len() as int, id_at(reg, reg[i].id));
    assert(id_at(reg, reg[i].id)(i));
}

/// The default layout places registered widgets only, at most one per
/// definition.
proof fn lemma_default_registered(reg: Seq<DefModel>)
    requires
        registry_ok(reg),
    ensures
        default_placements(reg).len() == reg.len(),
        forall|k: int| 0 <= k < default_placements(reg).len() ==> registered(reg, #[trigger] default_placements(reg)[k].widget_id),
{
    let sd = sort_defs(reg);
    lemma_sort_defs_elements(reg);
    let x = sd.map_values(|d: DefModel| def_to_pl(d));
    lemma_sort_pl_elements(x);
    let st = sort_pl(x);
    lemma_renumber_ids(st);
    let n = renumber(st).0;
    assert(n.len() == pl_ids(n).len());
    assert forall|k: int| 0 <= k < n.len() implies registered(reg, #[trigger] n[k].widget_id) by {
        assert(pl_ids(n)[k] == pl_ids(st)[k]);
        assert(st.contains(st[k]));
        assert(x.contains(st[k]));
        let a = choose|a: int| 0 <= a < x.len() && x[a] == st[k];
        assert(sd.contains(sd[a]));
        assert(reg.contains(sd[a]));
        let b = choose|b: int| 0 <= b < reg.len() && reg[b] == sd[a];
        lemma_registered(reg, b);
    }
}


proof fn lemma_sort_pl_distinct(s: Seq<PlacementModel>)
    requires
        distinct_ids(s),
    ensures
        distinct_ids(sort_pl(s)),
    decreases s.len(),
{
    if s.len() > 0 {
        let s1 = s.drop_last();
        assert(distinct_ids(s1)) by {
            assert forall|i: int, j: int| 0 <= i < j < s1.len() implies s1[i].widget_id != s1[j].widget_id by {
                assert(s1[i] == s[i] && s1[j] == s[j]);
            }
        }
        lemma_sort_pl_distinct(s1);
        lemma_sort_pl_elements(s1);
        let t = sort_pl(s1);
        let x = s.last();
        let j = pl_insert_pos(t, x);
        lemma_first_from(0, t.len() as int, pl_goes_before(x, t));
        let u = t.insert(j, x);
        assert forall|a: int| 0 <= a < t.len() implies t[a].widget_id != x.widget_id by {
            assert(t.contains(t[a]));
            assert(s1.contains(t[a]));
            let m = choose|m: int| 0 <= m < s1.len() && s1[m] == t[a];
            assert(s[m].widget_id != s[s.len() - 1].widget_id);
        }
        assert forall|a: int, b: int| 0 <= a < b < u.len() implies u[a].widget_id != u[b].widget_id by {
            let a0 = if a < j { a } else { a - 1 };
            let b0 = if b < j { b } else { b - 1 };
            if a == j {
                assert(u[b] == t[b0]);
            } else if b == j {
                assert(u[a] == t[a0]);
            } else {
                assert(u[a] == t[a0] && u[b] == t[b0]);
            }
        }
    }
}

/// Slot `j` of `m` holds the placement of `n` for that slot's widget.
pub open spec fn from_n(m: Seq<PlacementModel>, d: Seq<PlacementModel>, n: Seq<PlacementModel>, j: int) -> bool {
    exists|q: int| 0 <= q < n.len() && n[q].widget_id == d[j].widget_id && m[j] == n[q]
}

/// Some placement of `n` is for widget `id`.
pub open spec fn placed(n: Seq<PlacementModel>, id: Seq<char>) -> bool {
    exists|i: int| 0 <= i < n.len() && #[trigger] n[i].widget_id == id
}

/// Slot `j` of `m` holds the placement of `n` for that widget when one of
/// the first `k` placements of `n` is for it, else the default one.
pub open spec fn covered(
    m: Seq<PlacementModel>,
    d: Seq<PlacementModel>,
    n: Seq<PlacementModel>,
    k: int,
    j: int,
) -> bool {
    ||| exists|q: int| 0 <= q < k && n[q].widget_id == d[j].widget_id && m[j] == n[q]
    ||| (m[j] == d[j] && forall|q: int| 0 <= q < k ==> n[q].widget_id != d[j].widget_id)
}

proof fn lemma_second_fold(
    reg: Seq<DefModel>,
    d: Seq<PlacementModel>,
    n: Seq<PlacementModel>,
    k: int,
)
    requires
        distinct_ids(d),
        distinct_ids(n),
        forall|i: int| 0 <= i < n.len() ==> registered(reg, #[trigger] n[i].widget_id),
        forall|i: int| 0 <= i < n.len() ==> placed(d, #[trigger] n[i].widget_id),
        0 <= k <= n.len(),
    ensures
        ({
            let f = sanitize_fold(reg, (d, Seq::empty(), Seq::empty()), n.take(k));
            &&& f.1 == pl_ids(n.take(k))
            &&& f.2 == Seq::<Seq<char>>::empty()
            &&& pl_ids(f.0) == pl_ids(d)
            &&& forall|j: int| 0 <= j < d.len() ==> #[trigger] covered(f.0, d, n, k, j)
        }),
    decreases k,
{
    let st0 = (d, Seq::<Seq<char>>::empty(), Seq::<Seq<char>>::empty());
    if k == 0 {
        assert(n.take(0) =~= Seq::<PlacementModel>::empty());
        assert(pl_ids(n.take(0)) =~= Seq::<Seq<char>>::empty());
    } else {
        lemma_second_fold(reg, d, n, k - 1);
        let t = n.take(k);
        assert(t.drop_last() =~= n.take(k - 1));
        assert(t.last() == n[k - 1]);
        let f0 = sanitize_fold(reg, st0, n.take(k - 1));
        let (m, seen, w) = f0;
        let x = n[k - 1];
        let id = x.widget_id;
        assert(registered(reg, n[k - 1].widget_id));
        assert(widget_id_spec(x.widget_id) == id);
        assert(!seen.contains(id)) by {
            if seen.contains(id) {
                let q = choose|q: int| 0 <= q < seen.len() && seen[q] == id;
                assert(seen[q] == pl_ids(n.take(k - 1))[q]);
                assert(n[q].widget_id == n[k - 1].widget_id);
            }
        }
        assert(sanitize_fold(reg, st0, t) == sanitize_step(reg, f0, x));
        assert(sanitize_step(reg, f0, x) == (apply_update(m, id, x), seen.push(id), w));
        assert(placed(d, n[k - 1].widget_id));
        let jx = choose|j: int| 0 <= j < d.len() && #[trigger] d[j].widget_id == n[k - 1].widget_id;
        assert(m.len() == d.len()) by {
            assert(pl_ids(m).len() == pl_ids(d).len());
        }
        assert(m[jx].widget_id == id) by {
            assert(pl_ids(m)[jx] == pl_ids(d)[jx]);
        }
        lemma_first_from(0, m.len() as int, pl_id_is(m, id));
        assert(pl_id_is(m, id)(jx));
        let found = pl_find(m, id);
        assert(found == Some(jx)) by {
            let i = found->Some_0;
            assert(pl_ids(m)[i] == pl_ids(d)[i]);
            if i != jx {
                if i < jx {
                    assert(d[i].widget_id != d[jx].widget_id);
                } else {
                    assert(d[jx].widget_id != d[i].widget_id);
                }
            }
        }
        let m2 = apply_update(m, id, x);
        lemma_apply_update_ids(m, id, x);
        assert(m2[jx] == x);
        assert(pl_ids(t) =~= pl_ids(n.take(k - 1)).push(id));
        assert forall|j: int| 0 <= j < d.len() implies #[trigger] covered(m2, d, n, k, j) by {
            assert(covered(m, d, n, k - 1, j));
            if j == jx {
                assert(n[k - 1].widget_id == d[j].widget_id && m2[j] == n[k - 1]);
            } else {
                assert(m2[j] == m[j]);
                if j < jx {
                    assert(d[j].widget_id != d[jx].widget_id);
                } else {
                    assert(d[jx].widget_id != d[j].widget_id);
                }
                if exists|q: int| 0 <= q < k - 1 && n[q].widget_id == d[j].widget_id && m[j] == n[q] {
                    let q = choose|q: int| 0 <= q < k - 1 && n[q].widget_id == d[j].widget_id && m[j] == n[q];
                    assert(0 <= q < k && n[q].widget_id == d[j].widget_id && m2[j] == n[q]);
                } else {
                    assert forall|q: int| 0 <= q < k implies n[q].widget_id != d[j].widget_id by {
                        if q == k - 1 {
                        }
                    }
                }
            }
        }
    }
}

/// A whole layout: one placement per widget of the default layout, each
/// for a registered widget, in strict order and numbered within its strip.
pub open spec fn whole(reg: Seq<DefModel>, n: Seq<PlacementModel>) -> bool {
    let d = by_id(default_placements(reg));
    &&& n.len() == d.len()
    &&& distinct_ids(n)
    &&& forall|i: int| 0 <= i < n.len() ==> placed(d, #[trigger] n[i].widget_id)
    &&& forall|i: int| 0 <= i < n.len() ==> registered(reg, #[trigger] n[i].widget_id)
    &&& forall|j: int| 0 <= j < d.len() ==> #[trigger] placed(n, d[j].widget_id)
    &&& strictly_ordered(n)
    &&& renumber(n).0 == n
}

/// A layout made whole is whole.
proof fn lemma_sanitized_whole(reg: Seq<DefModel>, ps: Seq<PlacementModel>)
    requires
        registry_ok(reg),
        reg.len() < 65536,
    ensures
        whole(reg, sanitized(reg, ps).0),
{
    let dp = default_placements(reg);
    lemma_default_registered(reg);
    let d = by_id(dp);
    lemma_by_id(dp);
    let st0 = (d, Seq::<Seq<char>>::empty(), Seq::<Seq<char>>::empty());
    let m = sanitize_fold(reg, st0, ps).0;
    lemma_fold_ids(reg, st0, ps);
    assert(m.len() == d.len()) by {
        assert(pl_ids(m).len() == pl_ids(d).len());
    }
    assert(distinct_ids(m)) by {
        assert forall|i: int, j: int| 0 <= i < j < m.len() implies m[i].widget_id != m[j].widget_id by {
            assert(pl_ids(m)[i] == pl_ids(d)[i]);
            assert(pl_ids(m)[j] == pl_ids(d)[j]);
        }
    }
    let srt = sort_pl(m);
    lemma_sort_pl_elements(m);
    lemma_sort_pl_distinct(m);
    lemma_sort_pl_ranks(m);
    lemma_renumber_ids(srt);
    let n = renumber(srt).0;
    assert(n == sanitized(reg, ps).0);
    assert(n.len() == srt.len()) by {
        assert(pl_ids(n).len() == pl_ids(srt).len());
    }
    lemma_renumbered_ordered(srt);
    lemma_renumber_idempotent(srt);
    assert(distinct_ids(n)) by {
        assert forall|i: int, j: int| 0 <= i < j < n.len() implies n[i].widget_id != n[j].widget_id by {
            assert(pl_ids(n)[i] == pl_ids(srt)[i]);
            assert(pl_ids(n)[j] == pl_ids(srt)[j]);
        }
    }
    assert forall|i: int| 0 <= i < n.len() implies placed(d, #[trigger] n[i].widget_id) by {
        assert(pl_ids(n)[i] == pl_ids(srt)[i]);
        assert(srt.contains(srt[i]));
        assert(m.contains(srt[i]));
        let j = choose|j: int| 0 <= j < m.len() && m[j] == srt[i];
        assert(pl_ids(m)[j] == pl_ids(d)[j]);
        assert(d[j].widget_id == n[i].widget_id);
    }
    assert forall|i: int| 0 <= i < n.len() implies registered(reg, #[trigger] n[i].widget_id) by {
        assert(placed(d, n[i].widget_id));
        let j = choose|j: int| 0 <= j < d.len() && #[trigger] d[j].widget_id == n[i].widget_id;
        assert(d.contains(d[j]));
        assert(dp.contains(d[j]));
        let a = choose|a: int| 0 <= a < dp.len() && dp[a] == d[j];
        assert(registered(reg, dp[a].widget_id));
    }
    assert forall|j: int| 0 <= j < d.len() implies #[trigger] placed(n, d[j].widget_id) by {
        assert(pl_ids(m)[j] == pl_ids(d)[j]);
        assert(m.contains(m[j]));
        assert(srt.contains(m[j]));
        let i = choose|i: int| 0 <= i < srt.len() && srt[i] == m[j];
        assert(pl_ids(n)[i] == pl_ids(srt)[i]);
    }
}

/// A whole layout is made whole unchanged and without warnings.
proof fn lemma_whole_fixed(reg: Seq<DefModel>, n: Seq<PlacementModel>)
    requires
        registry_ok(reg),
        whole(reg, n),
    ensures
        sanitized(reg, n) == (n, Seq::<Seq<char>>::empty()),
{
    let dp = default_placements(reg);
    lemma_default_registered(reg);
    let d = by_id(dp);
    lemma_by_id(dp);
    let st0 = (d, Seq::<Seq<char>>::empty(), Seq::<Seq<char>>::empty());
    lemma_second_fold(reg, d, n, n.len() as int);
    assert(n.take(n.len() as int) =~= n);
    let f = sanitize_fold(reg, st0, n);
    let m2 = f.0;
    assert(m2.len() == d.len()) by {
        assert(pl_ids(m2).len() == pl_ids(d).len());
    }
    assert forall|j: int| 0 <= j < d.len() implies #[trigger] from_n(m2, d, n, j) by {
        assert(covered(m2, d, n, n.len() as int, j));
        assert(placed(n, d[j].widget_id));
        let i = choose|i: int| 0 <= i < n.len() && #[trigger] n[i].widget_id == d[j].widget_id;
    }
    assert(distinct_ids(m2)) by {
        assert forall|i: int, j: int| 0 <= i < j < m2.len() implies m2[i].widget_id != m2[j].widget_id by {
            assert(pl_ids(m2)[i] == pl_ids(d)[i]);
            assert(pl_ids(m2)[j] == pl_ids(d)[j]);
        }
    }
    assert(same_elements(m2, n)) by {
        assert forall|y: PlacementModel| m2.contains(y) <==> n.contains(y) by {
            if m2.contains(y) {
                let j = choose|j: int| 0 <= j < m2.len() && m2[j] == y;
                assert(from_n(m2, d, n, j));
                let q = choose|q: int| 0 <= q < n.len() && n[q].widget_id == d[j].widget_id && m2[j] == n[q];
                assert(n[q] == y);
            }
            if n.contains(y) {
                let i = choose|i: int| 0 <= i < n.len() && n[i] == y;
                assert(placed(d, n[i].widget_id));
                let j = choose|j: int| 0 <= j < d.len() && #[trigger] d[j].widget_id == n[i].widget_id;
                assert(from_n(m2, d, n, j));
                let q = choose|q: int| 0 <= q < n.len() && n[q].widget_id == d[j].widget_id && m2[j] == n[q];
                if q != i {
                    if q < i {
                        assert(n[q].widget_id != n[i].widget_id);
                    } else {
                        assert(n[i].widget_id != n[q].widget_id);
                    }
                }
                assert(m2[j] == y);
            }
        }
    }
    lemma_sort_pl_of_same(m2, n);
    assert(normalized_orders(m2) == n);
}

/// Making a layout whole is idempotent: a layout made whole is made whole
/// again unchanged and without warnings.
pub proof fn law_sanitize_idempotent(reg: Seq<DefModel>, ps: Seq<PlacementModel>)
    requires
        registry_ok(reg),
        reg.len() < 65536,
    ensures
        sanitized(reg, sanitized(reg, ps).0) == (sanitized(reg, ps).0, Seq::<Seq<char>>::empty()),
{
    lemma_sanitized_whole(reg, ps);
    lemma_whole_fixed(reg, sanitized(reg, ps).0);
}


// ---------------------------------------------------------------------------
// Showing and hiding widgets
// ---------------------------------------------------------------------------

pub open spec fn with_enabled(p: PlacementModel, b: bool) -> PlacementModel {
    PlacementModel { enabled: b, ..p }
}

/// Renumbering does not look at the enabled flags.
proof fn lemma_renumber_enabled(s: Seq<PlacementModel>, i: int, b: bool)
    requires
        0 <= i < s.len(),
    ensures
        renumber(s.update(i, with_enabled(s[i], b))) == (
            renumber(s).0.update(i, with_enabled(renumber(s).0[i], b)),
            renumber(s).1,
            renumber(s).2,
        ),
    decreases s.len(),
{
    let s2 = s.update(i, with_enabled(s[i], b));
    let s0 = s.drop_last();
    lemma_renumber_len(s0);
    if i == s.len() - 1 {
        assert(s2.drop_last() =~= s0);
        assert(renumber(s).0.drop_last() =~= renumber(s0).0);
        assert(renumber(s2).0 =~= renumber(s).0.update(i, with_enabled(renumber(s).0[i], b)));
    } else {
        lemma_renumber_enabled(s0, i, b);
        assert(s2.drop_last() =~= s0.update(i, with_enabled(s0[i], b)));
        assert(s2.last() == s.last());
        assert(renumber(s2).0 =~= renumber(s).0.update(i, with_enabled(renumber(s).0[i], b)));
    }
}

proof fn lemma_renumber_len(s: Seq<PlacementModel>)
    ensures
        renumber(s).0.len() == s.len(),
    decreases s.len(),
{
    if s.len() > 0 {
        lemma_renumber_len(s.drop_last());
    }
}

/// Showing or hiding one placement of a whole layout leaves it whole.
proof fn lemma_whole_enabled(reg: Seq<DefModel>, n: Seq<PlacementModel>, i: int, b: bool)
    requires
        whole(reg, n),
        0 <= i < n.len(),
    ensures
        whole(reg, n.update(i, with_enabled(n[i], b))),
{
    let d = by_id(default_placements(reg));
    let q = n.update(i, with_enabled(n[i], b));
    assert forall|k: int| 0 <= k < n.len() implies #[trigger] q[k].widget_id == n[k].widget_id
        && q[k].position == n[k].position && q[k].order == n[k].order by {}
    assert forall|j: int| 0 <= j < d.len() implies #[trigger] placed(q, d[j].widget_id) by {
        assert(placed(n, d[j].widget_id));
        let k = choose|k: int| 0 <= k < n.len() && #[trigger] n[k].widget_id == d[j].widget_id;
        assert(q[k].widget_id == d[j].widget_id);
    }
    assert forall|a: int, c: int| 0 <= a < c < q.len() implies pl_before(q[a], q[c]) by {
        assert(pl_before(n[a], n[c]));
    }
    lemma_renumber_enabled(n, i, b);
}

/// Showing or hiding a widget leaves a whole layout: made whole again it
/// is unchanged and without warnings.
pub proof fn law_set_enabled_keeps_layout_whole(
    reg: Seq<DefModel>,
    ps: Seq<PlacementModel>,
    widget_id: Seq<char>,
    enabled: bool,
)
    requires
        registry_ok(reg),
        reg.len() < 65536,
    ensures
        set_enabled_spec(reg, ps, widget_id, enabled) matches Some(q) ==> whole(reg, q) && sanitized(
            reg,
            q,
        ) == (q, Seq::<Seq<char>>::empty()),
{
    let n = sanitized(reg, ps).0;
    lemma_sanitized_whole(reg, ps);
    let t = widget_id_spec(widget_id);
    lemma_first_from(0, n.len() as int, pl_id_is(n, t));
    if let Some(i) = pl_find(n, t) {
        lemma_whole_enabled(reg, n, i, enabled);
        lemma_whole_fixed(reg, n.update(i, with_enabled(n[i], enabled)));
        assert(n.update(i, PlacementModel { enabled, ..n[i] }) == n.update(i, with_enabled(n[i], enabled)));
    }
}

/// Some slot of `sl` shows widget `x`.
pub open spec fn shows(sl: Seq<SlotModel>, x: Seq<char>) -> bool {
    exists|k: int| 0 <= k < sl.len() && (#[trigger] sl[k]).widget_id == x
}

/// Some visible placement of `s` puts widget `x` in strip `p`.
pub open spec fn visible_in(s: Seq<PlacementModel>, x: Seq<char>, p: StripPosition) -> bool {
    exists|k: int| 0 <= k < s.len() && (#[trigger] s[k]).widget_id == x && s[k].enabled && s[k].position == p
}

proof fn lemma_plan_fold_shows(reg: Seq<DefModel>, s: Seq<PlacementModel>, x: Seq<char>)
    ensures
        shows(plan_fold(reg, s).0, x) <==> visible_in(s, x, StripPosition::Top),
        shows(plan_fold(reg, s).1, x) <==> visible_in(s, x, StripPosition::Bottom),
    decreases s.len(),
{
    if s.len() > 0 {
        let s0 = s.drop_last();
        lemma_plan_fold_shows(reg, s0, x);
        let (top, bottom) = plan_fold(reg, s0);
        let last = s.last();
        assert forall|p: StripPosition| visible_in(s, x, p) <==> (visible_in(s0, x, p) || (last.widget_id == x
            && last.enabled && last.position == p)) by {
            if visible_in(s, x, p) {
                let k = choose|k: int| 0 <= k < s.len() && (#[trigger] s[k]).widget_id == x && s[k].enabled && s[k].position == p;
                if k < s0.len() {
                    assert(s0[k] == s[k]);
                }
            }
            if visible_in(s0, x, p) {
                let k = choose|k: int| 0 <= k < s0.len() && (#[trigger] s0[k]).widget_id == x && s0[k].enabled && s0[k].position == p;
                assert(s[k] == s0[k]);
            }
            if last.widget_id == x && last.enabled && last.position == p {
                assert(s[s.len() - 1] == last);
            }
        }
        let r = plan_fold(reg, s);
        assert forall|sl: Seq<SlotModel>, y: SlotModel| shows(sl.push(y), x) <==> (shows(sl, x) || y.widget_id == x) by {
            if shows(sl.push(y), x) {
                let k = choose|k: int| 0 <= k < sl.push(y).len() && (#[trigger] sl.push(y)[k]).widget_id == x;
                if k < sl.len() {
                    assert(sl.push(y)[k] == sl[k]);
                }
            }
            if shows(sl, x) {
                let k = choose|k: int| 0 <= k < sl.len() && (#[trigger] sl[k]).widget_id == x;
                assert(sl.push(y)[k] == sl[k]);
            }
            if y.widget_id == x {
                assert(sl.push(y)[sl.len() as int] == y);
            }
        }
        assert(visible_in(s, x, StripPosition::Top) <==> (visible_in(s0, x, StripPosition::Top) || (last.widget_id == x
            && last.enabled && last.position == StripPosition::Top)));
        assert(visible_in(s, x, StripPosition::Bottom) <==> (visible_in(s0, x, StripPosition::Bottom) || (last.widget_id == x
            && last.enabled && last.position == StripPosition::Bottom)));
    }
}

/// After a widget is shown it is in the plan, in its own strip only; after
/// it is hidden it is in neither strip.
pub proof fn law_set_enabled_shows_or_hides(
    reg: Seq<DefModel>,
    ps: Seq<PlacementModel>,
    widget_id: Seq<char>,
    enabled: bool,
)
    requires
        registry_ok(reg),
        reg.len() < 65536,
    ensures
        set_enabled_spec(reg, ps, widget_id, enabled) matches Some(q) ==> {
            let t = widget_id_spec(widget_id);
            let pos = sanitized(reg, ps).0[pl_find(sanitized(reg, ps).0, t)->Some_0].position;
            &&& shows(plan_spec(reg, q).0, t) == (enabled && pos == StripPosition::Top)
            &&& shows(plan_spec(reg, q).1, t) == (enabled && pos == StripPosition::Bottom)
        },
{
    let n = sanitized(reg, ps).0;
    let t = widget_id_spec(widget_id);
    law_set_enabled_keeps_layout_whole(reg, ps, widget_id, enabled);
    lemma_sanitized_whole(reg, ps);
    lemma_first_from(0, n.len() as int, pl_id_is(n, t));
    if let Some(i) = pl_find(n, t) {
        let q = n.update(i, PlacementModel { enabled, ..n[i] });
        assert(plan_spec(reg, q) == plan_fold(reg, q));
        lemma_plan_fold_shows(reg, q, t);
        assert(pl_id_is(n, t)(i));
        assert forall|p: StripPosition| visible_in(q, t, p) == (enabled && n[i].position == p) by {
            if visible_in(q, t, p) {
                let k = choose|k: int| 0 <= k < q.len() && (#[trigger] q[k]).widget_id == t && q[k].enabled && q[k].position == p;
                if k != i {
                    assert(q[k] == n[k]);
                    if k < i {
                        assert(n[k].widget_id != n[i].widget_id);
                    } else {
                        assert(n[i].widget_id != n[k].widget_id);
                    }
                }
            }
            if enabled && n[i].position == p {
                assert(q[i].widget_id == t && q[i].enabled && q[i].position == p);
            }
        }
    }
}

// ---------------------------------------------------------------------------
// Moving widgets
// ---------------------------------------------------------------------------

proof fn lemma_count_total(s: Seq<PlacementModel>)
    ensures
        count_in(s, StripPosition::Top) + count_in(s, StripPosition::Bottom) == s.len(),
    decreases s.len(),
{
    if s.len() > 0 {
        lemma_count_total(s.drop_last());
    }
}

/// The ids of one strip are those of the placements in it, without
/// repeats when the layout has none.
proof fn lemma_ids_in(s: Seq<PlacementModel>, p: StripPosition)
    ensures
        ids_in(s, p).len() == count_in(s, p),
        forall|x: Seq<char>| ids_in(s, p).contains(x) <==> exists|k: int|
            0 <= k < s.len() && (#[trigger] s[k]).widget_id == x && s[k].position == p,
        distinct_ids(s) ==> ids_in(s, p).no_duplicates(),
    decreases s.len(),
{
    if s.len() > 0 {
        let s0 = s.drop_last();
        lemma_ids_in(s0, p);
        let r0 = ids_in(s0, p);
        let last = s.last();
        assert forall|x: Seq<char>| ids_in(s, p).contains(x) <==> exists|k: int|
            0 <= k < s.len() && (#[trigger] s[k]).widget_id == x && s[k].position == p by {
            if ids_in(s, p).contains(x) {
                if r0.contains(x) {
                    let k = choose|k: int| 0 <= k < s0.len() && (#[trigger] s0[k]).widget_id == x && s0[k].position == p;
                    assert(s[k] == s0[k]);
                } else {
                    assert(last.position == p);
                    let k = choose|k: int| 0 <= k < ids_in(s, p).len() && ids_in(s, p)[k] == x;
                    assert(ids_in(s, p) == r0.push(last.widget_id));
                    if k < r0.len() {
                        assert(r0[k] == x);
                        assert(r0.contains(x));
                    }
                    assert(s[s.len() - 1].widget_id == x);
                }
            }
            if exists|k: int| 0 <= k < s.len() && (#[trigger] s[k]).widget_id == x && s[k].position == p {
                let k = choose|k: int| 0 <= k < s.len() && (#[trigger] s[k]).widget_id == x && s[k].position == p;
                if k < s0.len() {
                    assert(s0[k] == s[k]);
                    assert(r0.contains(x));
                    let m = choose|m: int| 0 <= m < r0.len() && r0[m] == x;
                    if last.position == p {
                        assert(r0.push(last.widget_id)[m] == x);
                    }
                } else {
                    assert(ids_in(s, p) == r0.push(last.widget_id));
                    assert(ids_in(s, p)[r0.len() as int] == x);
                }
            }
        }
        if distinct_ids(s) && last.position == p {
            assert(distinct_ids(s0)) by {
                assert forall|a: int, b: int| 0 <= a < b < s0.len() implies s0[a].widget_id != s0[b].widget_id by {
                    assert(s0[a] == s[a] && s0[b] == s[b]);
                }
            }
            assert(!r0.contains(last.widget_id)) by {
                if r0.contains(last.widget_id) {
                    let k = choose|k: int| 0 <= k < s0.len() && (#[trigger] s0[k]).widget_id == last.widget_id && s0[k].position == p;
                    assert(s[k].widget_id == s[s.len() - 1].widget_id);
                }
            }
            let r = r0.push(last.widget_id);
            assert forall|a: int, b: int| 0 <= a < r.len() && 0 <= b < r.len() && a != b implies r[a] != r[b] by {
                if a == r0.len() {
                    assert(r0.contains(r[b]));
                } else if b == r0.len() {
                    assert(r0.contains(r[a]));
                }
            }
        }
        if distinct_ids(s) && last.position != p {
            assert(distinct_ids(s0)) by {
                assert forall|a: int, b: int| 0 <= a < b < s0.len() implies s0[a].widget_id != s0[b].widget_id by {
                    assert(s0[a] == s[a] && s0[b] == s[b]);
                }
            }
        }
    }
}

proof fn lemma_remove_first(ids: Seq<Seq<char>>, t: Seq<char>)
    requires
        ids.no_duplicates(),
    ensures
        remove_first(ids, t).1 == ids.contains(t),
        remove_first(ids, t).0.no_duplicates(),
        remove_first(ids, t).0.len() == ids.len() - (if ids.contains(t) { 1int } else { 0int }),
        forall|x: Seq<char>| remove_first(ids, t).0.contains(x) <==> (ids.contains(x) && x != t),
{
    lemma_first_from(0, ids.len() as int, str_is(ids, t));
    match first_from(0, ids.len() as int, str_is(ids, t)) {
        Some(i) => {
            assert(str_is(ids, t)(i));
            assert(ids.contains(t));
            let r = ids.remove(i);
            assert forall|x: Seq<char>| r.contains(x) <==> (ids.contains(x) && x != t) by {
                if r.contains(x) {
                    let k = choose|k: int| 0 <= k < r.len() && r[k] == x;
                    let k0 = if k < i { k } else { k + 1 };
                    assert(ids[k0] == x);
                    assert(k0 != i);
                }
                if ids.contains(x) && x != t {
                    let k = choose|k: int| 0 <= k < ids.len() && ids[k] == x;
                    assert(k != i);
                    if k < i {
                        assert(r[k] == x);
                    } else {
                        assert(r[k - 1] == x);
                    }
                }
            }
            assert forall|a: int, b: int| 0 <= a < r.len() && 0 <= b < r.len() && a != b implies r[a] != r[b] by {
                let a0 = if a < i { a } else { a + 1 };
                let b0 = if b < i { b } else { b + 1 };
                assert(r[a] == ids[a0] && r[b] == ids[b0]);
            }
        },
        None => {
            assert forall|k: int| 0 <= k < ids.len() implies ids[k] != t by {
                assert(!str_is(ids, t)(k));
            }
        },
    }
}

proof fn lemma_insert_clamped(ids: Seq<Seq<char>>, index: int, t: Seq<char>)
    requires
        ids.no_duplicates(),
        !ids.contains(t),
        index >= 0,
    ensures
        insert_clamped(ids, index, t).no_duplicates(),
        insert_clamped(ids, index, t).len() == ids.len() + 1,
        forall|x: Seq<char>| insert_clamped(ids, index, t).contains(x) <==> (ids.contains(x) || x == t),
{
    let j = if index < ids.len() { index } else { ids.len() as int };
    let r = ids.insert(j, t);
    assert forall|x: Seq<char>| r.contains(x) <==> (ids.contains(x) || x == t) by {
        if r.contains(x) && x != t {
            let k = choose|k: int| 0 <= k < r.len() && r[k] == x;
            if k < j {
                assert(ids[k] == x);
            } else {
                assert(ids[k - 1] == x);
            }
        }
        if ids.contains(x) {
            let k = choose|k: int| 0 <= k < ids.len() && ids[k] == x;
            if k < j {
                assert(r[k] == x);
            } else {
                assert(r[k + 1] == x);
            }
        }
        if x == t {
            assert(r[j] == t);
        }
    }
    assert forall|a: int, b: int| 0 <= a < r.len() && 0 <= b < r.len() && a != b implies r[a] != r[b] by {
        let a0 = if a < j { a } else { a - 1 };
        let b0 = if b < j { b } else { b - 1 };
        if a == j {
            assert(ids.contains(r[b]));
        } else if b == j {
            assert(ids.contains(r[a]));
        } else {
            assert(r[a] == ids[a0] && r[b] == ids[b0]);
        }
    }
}

/// Counts along a layout whose top strip comes first and whose placements
/// each sit in the strip the layout puts them in.
proof fn lemma_count_two_strips(s: Seq<PlacementModel>, a: int, i: int)
    requires
        0 <= a <= s.len(),
        0 <= i <= s.len(),
        forall|k: int| 0 <= k < a ==> (#[trigger] s[k]).position == StripPosition::Top,
        forall|k: int| a <= k < s.len() ==> (#[trigger] s[k]).position == StripPosition::Bottom,
    ensures
        i <= a ==> count_in(s.take(i), StripPosition::Top) == i,
        i >= a ==> count_in(s.take(i), StripPosition::Bottom) == i - a,
    decreases i,
{
    if i == 0 {
        assert(s.take(0) =~= Seq::<PlacementModel>::empty());
    } else {
        lemma_count_two_strips(s, a, i - 1);
        lemma_count_step(s, StripPosition::Top, i - 1);
        lemma_count_step(s, StripPosition::Bottom, i - 1);
        if i == a {
            // the bottom count of the first `a` placements is zero
            lemma_count_zero_bottom(s, a, a);
        }
    }
}

proof fn lemma_count_zero_bottom(s: Seq<PlacementModel>, a: int, i: int)
    requires
        0 <= i <= a <= s.len(),
        forall|k: int| 0 <= k < a ==> (#[trigger] s[k]).position == StripPosition::Top,
    ensures
        count_in(s.take(i), StripPosition::Bottom) == 0,
    decreases i,
{
    if i == 0 {
        assert(s.take(0) =~= Seq::<PlacementModel>::empty());
    } else {
        lemma_count_zero_bottom(s, a, i - 1);
        lemma_count_step(s, StripPosition::Bottom, i - 1);
    }
}

/// Two strips laid out in order, each numbered from 0, are in strict order
/// and renumber to themselves.
proof fn lemma_positioned_whole_order(
    n: Seq<PlacementModel>,
    top: Seq<Seq<char>>,
    bottom: Seq<Seq<char>>,
)
    requires
        top.len() + bottom.len() < 65536,
        top.no_duplicates(),
        bottom.no_duplicates(),
        forall|x: Seq<char>| top.contains(x) ==> !bottom.contains(x),
    ensures
        ({
            let q = positioned(n, top, StripPosition::Top) + positioned(n, bottom, StripPosition::Bottom);
            &&& strictly_ordered(q)
            &&& renumber(q).0 == q
            &&& distinct_ids(q)
            &&& q.len() == top.len() + bottom.len()
            &&& forall|x: Seq<char>| placed(q, x) <==> (top.contains(x) || bottom.contains(x))
        }),
{
    let a = top.len() as int;
    let pa = positioned(n, top, StripPosition::Top);
    let pb = positioned(n, bottom, StripPosition::Bottom);
    let q = pa + pb;
    assert forall|k: int| 0 <= k < a implies #[trigger] q[k] == pa[k] && q[k].position == StripPosition::Top
        && q[k].order == k as u16 && q[k].widget_id == top[k] by {}
    assert forall|k: int| a <= k < q.len() implies #[trigger] q[k] == pb[k - a] && q[k].position
        == StripPosition::Bottom && q[k].order == (k - a) as u16 && q[k].widget_id == bottom[k - a] by {}
    assert forall|i: int, j: int| 0 <= i < j < q.len() implies pl_before(q[i], q[j]) by {
        if j < a {
            assert(q[i].order == i as u16 && q[j].order == j as u16);
        } else if i >= a {
            assert(q[i].order == (i - a) as u16 && q[j].order == (j - a) as u16);
        } else {
            assert(q[i].position == StripPosition::Top && q[j].position == StripPosition::Bottom);
        }
    }
    lemma_renumber(q);
    assert forall|i: int| 0 <= i < q.len() implies #[trigger] renumber(q).0[i] == q[i] by {
        if i < a {
            lemma_count_two_strips(q, a, i);
            assert(q.take(i).len() == i);
        } else {
            lemma_count_two_strips(q, a, i);
        }
    }
    assert(renumber(q).0 =~= q);
    assert forall|i: int, j: int| 0 <= i < j < q.len() implies q[i].widget_id != q[j].widget_id by {
        if j < a {
            assert(top[i] != top[j]);
        } else if i >= a {
            assert(bottom[i - a] != bottom[j - a]);
        } else {
            assert(top.contains(top[i]));
            assert(bottom.contains(bottom[j - a]));
        }
    }
    assert forall|x: Seq<char>| placed(q, x) <==> (top.contains(x) || bottom.contains(x)) by {
        if placed(q, x) {
            let k = choose|k: int| 0 <= k < q.len() && #[trigger] q[k].widget_id == x;
            if k < a {
                assert(top[k] == x);
            } else {
                assert(bottom[k - a] == x);
            }
        }
        if top.contains(x) {
            let k = choose|k: int| 0 <= k < top.len() && top[k] == x;
            assert(q[k].widget_id == x);
        }
        if bottom.contains(x) {
            let k = choose|k: int| 0 <= k < bottom.len() && bottom[k] == x;
            assert(q[k + a].widget_id == x);
        }
    }
}

/// Moving a widget of a whole layout leaves it whole.
proof fn lemma_move_whole(
    reg: Seq<DefModel>,
    n: Seq<PlacementModel>,
    t: Seq<char>,
    pos: StripPosition,
    index: int,
)
    requires
        registry_ok(reg),
        reg.len() < 65536,
        whole(reg, n),
        index >= 0,
        placed(n, t),
    ensures
        ({
            let (top, from_top) = remove_first(ids_in(n, StripPosition::Top), t);
            let (bottom, from_bottom) = if from_top {
                (ids_in(n, StripPosition::Bottom), false)
            } else {
                remove_first(ids_in(n, StripPosition::Bottom), t)
            };
            let top2 = if pos == StripPosition::Top { insert_clamped(top, index, t) } else { top };
            let bottom2 = if pos == StripPosition::Bottom { insert_clamped(bottom, index, t) } else { bottom };
            (from_top || from_bottom) && whole(
                reg,
                positioned(n, top2, StripPosition::Top) + positioned(n, bottom2, StripPosition::Bottom),
            )
        }),
{
    let dp = default_placements(reg);
    let d = by_id(dp);
    lemma_default_registered(reg);
    lemma_by_id(dp);
    let it = ids_in(n, StripPosition::Top);
    let ib = ids_in(n, StripPosition::Bottom);
    lemma_ids_in(n, StripPosition::Top);
    lemma_ids_in(n, StripPosition::Bottom);
    lemma_count_total(n);
    // every id of the layout sits in exactly one strip
    assert forall|x: Seq<char>| placed(n, x) <==> (it.contains(x) || ib.contains(x)) by {
        if placed(n, x) {
            let k = choose|k: int| 0 <= k < n.len() && #[trigger] n[k].widget_id == x;
            match n[k].position {
                StripPosition::Top => {
                    assert(n[k].widget_id == x && n[k].position == StripPosition::Top);
                },
                StripPosition::Bottom => {
                    assert(n[k].widget_id == x && n[k].position == StripPosition::Bottom);
                },
            }
        }
        if it.contains(x) {
            let k = choose|k: int| 0 <= k < n.len() && (#[trigger] n[k]).widget_id == x && n[k].position == StripPosition::Top;
            assert(n[k].widget_id == x);
        }
        if ib.contains(x) {
            let k = choose|k: int| 0 <= k < n.len() && (#[trigger] n[k]).widget_id == x && n[k].position == StripPosition::Bottom;
            assert(n[k].widget_id == x);
        }
    }
    assert forall|x: Seq<char>| it.contains(x) implies !ib.contains(x) by {
        let k = choose|k: int| 0 <= k < n.len() && (#[trigger] n[k]).widget_id == x && n[k].position == StripPosition::Top;
        if ib.contains(x) {
            let m = choose|m: int| 0 <= m < n.len() && (#[trigger] n[m]).widget_id == x && n[m].position == StripPosition::Bottom;
            if k < m {
                assert(n[k].widget_id != n[m].widget_id);
            } else if m < k {
                assert(n[m].widget_id != n[k].widget_id);
            }
        }
    }
    lemma_remove_first(it, t);
    let (top, from_top) = remove_first(it, t);
    let (bottom, from_bottom) = if from_top { (ib, false) } else { remove_first(ib, t) };
    if !from_top {
        lemma_remove_first(ib, t);
    }
    assert(from_top || from_bottom);
    assert(!top.contains(t) && !bottom.contains(t));
    assert(top.no_duplicates() && bottom.no_duplicates());
    assert(top.len() + bottom.len() + 1 == n.len());
    let top2 = if pos == StripPosition::Top { insert_clamped(top, index, t) } else { top };
    let bottom2 = if pos == StripPosition::Bottom { insert_clamped(bottom, index, t) } else { bottom };
    if pos == StripPosition::Top {
        lemma_insert_clamped(top, index, t);
    } else {
        lemma_insert_clamped(bottom, index, t);
    }
    // the moved layout holds the same ids
    assert forall|x: Seq<char>| (top2.contains(x) || bottom2.contains(x)) <==> placed(n, x) by {}
    assert forall|x: Seq<char>| top2.contains(x) implies !bottom2.contains(x) by {}
    assert(d.len() <= reg.len());
    lemma_positioned_whole_order(n, top2, bottom2);
    let q = positioned(n, top2, StripPosition::Top) + positioned(n, bottom2, StripPosition::Bottom);
    assert forall|i: int| 0 <= i < q.len() implies placed(d, #[trigger] q[i].widget_id) && registered(
        reg,
        q[i].widget_id,
    ) by {
        assert(placed(q, q[i].widget_id));
        assert(placed(n, q[i].widget_id));
        let k = choose|k: int| 0 <= k < n.len() && #[trigger] n[k].widget_id == q[i].widget_id;
        assert(placed(d, n[k].widget_id));
        assert(registered(reg, n[k].widget_id));
    }
    assert forall|j: int| 0 <= j < d.len() implies #[trigger] placed(q, d[j].widget_id) by {
        assert(placed(n, d[j].widget_id));
    }
}

/// Moving a widget leaves a whole layout: made whole again it is unchanged
/// and without warnings.
pub proof fn law_move_keeps_layout_whole(
    reg: Seq<DefModel>,
    ps: Seq<PlacementModel>,
    widget_id: Seq<char>,
    pos: StripPosition,
    index: int,
)
    requires
        registry_ok(reg),
        reg.len() < 65536,
        index >= 0,
    ensures
        move_spec(reg, ps, widget_id, pos, index) matches Some(q) ==> whole(reg, q) && sanitized(
            reg,
            q,
        ) == (q, Seq::<Seq<char>>::empty()),
{
    let n = sanitized(reg, ps).0;
    let t = widget_id_spec(widget_id);
    lemma_sanitized_whole(reg, ps);
    lemma_ids_in(n, StripPosition::Top);
    lemma_ids_in(n, StripPosition::Bottom);
    let it = ids_in(n, StripPosition::Top);
    let ib = ids_in(n, StripPosition::Bottom);
    lemma_remove_first(it, t);
    lemma_remove_first(ib, t);
    if move_spec(reg, ps, widget_id, pos, index) is Some {
        assert(it.contains(t) || ib.contains(t));
        assert(placed(n, t)) by {
            if it.contains(t) {
                let k = choose|k: int| 0 <= k < n.len() && (#[trigger] n[k]).widget_id == t && n[k].position == StripPosition::Top;
                assert(n[k].widget_id == t);
            } else {
                let k = choose|k: int| 0 <= k < n.len() && (#[trigger] n[k]).widget_id == t && n[k].position == StripPosition::Bottom;
                assert(n[k].widget_id == t);
            }
        }
        lemma_move_whole(reg, n, t, pos, index);
        let q = move_spec(reg, ps, widget_id, pos, index)->Some_0;
        lemma_whole_fixed(reg, q);
    }
}

// ---------------------------------------------------------------------------
// Reading a stored layout back
// ---------------------------------------------------------------------------

proof fn lemma_field_at(f: Seq<(String, JsonValue)>, key: Seq<char>, i: int)
    requires
        0 <= i < f.len(),
        f[i].0@ == key,
        forall|q: int| 0 <= q < i ==> f[q].0@ != key,
    ensures
        json_field(f, key) == Some(f[i].1),
{
    assert forall|q: int| 0 <= q < i implies !#[trigger] key_is(f, key)(q) by {}
    lemma_first_from_at(0, f.len() as int, key_is(f, key), i);
}

proof fn lemma_slug_round_trip(p: StripPosition)
    ensures
        StripPosition::from_slug_spec(p.slug_spec()) == Some(p),
{
    reveal_strlit("top");
    reveal_strlit("bottom");
    let s = p.slug_spec();
    assert(crate::text::trim_start(s) == s) by {
        assert(!crate::text::is_ws(s[0]));
    }
    assert(crate::text::trim_end(s) == s) by {
        assert(!crate::text::is_ws(s.last()));
    }
    assert(crate::text::lower(s) =~= s);
}

proof fn lemma_parse_placement(v: JsonValue, p: PlacementModel)
    requires
        placement_json_is(v, p),
        widget_id_spec(p.widget_id) == p.widget_id,
        p.widget_id.len() > 0,
    ensures
        parse_placement(v) == Ok::<PlacementModel, Seq<char>>(p),
{
    reveal_strlit("widget_id");
    reveal_strlit("position");
    reveal_strlit("order");
    reveal_strlit("enabled");
    let f = v->Object_0@;
    lemma_field_at(f, "widget_id"@, 0);
    assert(f[0].0@.len() != "position"@.len());
    lemma_field_at(f, "position"@, 1);
    assert(f[0].0@.len() != "order"@.len() && f[1].0@.len() != "order"@.len());
    lemma_field_at(f, "order"@, 2);
    assert(f[0].0@.len() != "enabled"@.len() && f[1].0@.len() != "enabled"@.len());
    assert(f[2].0@.len() != "enabled"@.len());
    lemma_field_at(f, "enabled"@, 3);
    lemma_slug_round_trip(p.position);
}

proof fn lemma_parse_placements(a: Seq<JsonValue>, n: Seq<PlacementModel>, k: int)
    requires
        a.len() == n.len(),
        0 <= k <= n.len(),
        forall|i: int| 0 <= i < n.len() ==> placement_json_is(#[trigger] a[i], n[i]),
        forall|i: int| 0 <= i < n.len() ==> widget_id_spec(#[trigger] n[i].widget_id) == n[i].widget_id,
        forall|i: int| 0 <= i < n.len() ==> (#[trigger] n[i].widget_id).len() > 0,
    ensures
        parse_placements_spec(a.take(k)) == (n.take(k), Seq::<Seq<char>>::empty()),
    decreases k,
{
    if k == 0 {
        assert(a.take(0) =~= Seq::<JsonValue>::empty());
        assert(n.take(0) =~= Seq::<PlacementModel>::empty());
    } else {
        lemma_parse_placements(a, n, k - 1);
        assert(a.take(k).drop_last() =~= a.take(k - 1));
        assert(a.take(k).last() == a[k - 1]);
        lemma_parse_placement(a[k - 1], n[k - 1]);
        assert(n.take(k) =~= n.take(k - 1).push(n[k - 1]));
    }
}

/// The JSON a layout is kept as reads back as that layout, in the current
/// schema and without warnings.
proof fn lemma_parse_store_json(reg: Seq<DefModel>, v: JsonValue, n: Seq<PlacementModel>)
    requires
        store_json_is(v, n),
        forall|i: int| 0 <= i < n.len() ==> widget_id_spec(#[trigger] n[i].widget_id) == n[i].widget_id,
        forall|i: int| 0 <= i < n.len() ==> (#[trigger] n[i].widget_id).len() > 0,
    ensures
        schema_of(v) == STATUS_STRIP_SCHEMA_VERSION,
        parse_v2_spec(reg, v) == (n, Seq::<Seq<char>>::empty()),
{
    reveal_strlit("schema_version");
    reveal_strlit("placements");
    let f = v->Object_0@;
    lemma_field_at(f, "schema_version"@, 0);
    assert(f[0].0@.len() != "placements"@.len());
    lemma_field_at(f, "placements"@, 1);
    let a = f[1].1->Array_0@;
    lemma_parse_placements(a, n, n.len() as int);
    assert(a.take(n.len() as int) =~= a);
    assert(n.take(n.len() as int) =~= n);
}

/// Reading back a layout as it is kept gives the same layout, not marked as
/// migrated and without warnings.
pub proof fn law_restore_reads_back_persisted(
    reg: Seq<DefModel>,
    ps: Seq<PlacementModel>,
    v: JsonValue,
)
    requires
        registry_ok(reg),
        reg.len() < 65536,
        store_json_is(v, sanitized(reg, ps).0),
    ensures
        restore_spec(reg, Some(Ok::<JsonValue, String>(v))) == (
            sanitized(reg, ps).0,
            false,
            Seq::<Seq<char>>::empty(),
        ),
{
    let n = sanitized(reg, ps).0;
    lemma_sanitized_whole(reg, ps);
    lemma_parse_store_json(reg, v, n);
    law_sanitize_idempotent(reg, ps);
    assert(Seq::<Seq<char>>::empty() + Seq::<Seq<char>>::empty() =~= Seq::<Seq<char>>::empty());
}

// ---------------------------------------------------------------------------
// The registry's listing and the default layout
// ---------------------------------------------------------------------------

proof fn lemma_def_order_strict()
    ensures
        crate::text::strict_order(def_order()),
{
    let r = def_order();
    assert forall|a: DefModel| !#[trigger] r(a, a) by {
        lemma_lex_eq(a.id, a.id);
    }
    assert forall|a: DefModel, b: DefModel, c: DefModel| #[trigger] r(a, b) && #[trigger] r(b, c) implies r(
        a,
        c,
    ) by {
        if rank(a.position) == rank(b.position) && rank(b.position) == rank(c.position) && a.order
            == b.order && b.order == c.order {
            crate::text::lemma_lex_trans(a.id, b.id, c.id);
        }
    }
}

proof fn lemma_sort_defs_is_sort(s: Seq<DefModel>)
    ensures
        sort_defs(s) == crate::text::sort_by_spec(s, def_order()),
    decreases s.len(),
{
    if s.len() > 0 {
        lemma_sort_defs_is_sort(s.drop_last());
        let t = sort_defs(s.drop_last());
        assert(def_goes_before(s.last(), t) =~= crate::text::first_after(t, def_order(), s.last()));
    }
}

/// The registry lists its definitions ascending by strip (top first),
/// default order and id; each registered definition appears exactly once.
pub proof fn law_definitions_sorted_once(reg: Seq<DefModel>)
    requires
        registry_ok(reg),
    ensures
        crate::text::sorted_by(sort_defs(reg), def_order()),
        sort_defs(reg).to_multiset() == reg.to_multiset(),
        sort_defs(reg).len() == reg.len(),
        forall|y: DefModel| sort_defs(reg).contains(y) <==> reg.contains(y),
        forall|i: int, j: int|
            0 <= i < j < sort_defs(reg).len() ==> (#[trigger] sort_defs(reg)[i]).id != (
            #[trigger] sort_defs(reg)[j]).id,
{
    lemma_def_order_strict();
    lemma_sort_defs_is_sort(reg);
    crate::text::lemma_sort_by_sorted(reg, def_order());
    crate::text::lemma_sort_by_items(reg, def_order());
    let sd = sort_defs(reg);
    assert(reg.no_duplicates()) by {
        assert forall|a: int, b: int| 0 <= a < reg.len() && 0 <= b < reg.len() && a != b implies reg[a]
            != reg[b] by {
            if a < b {
                assert(lex_order(crate::status_strip::def_ids(reg)[a], crate::status_strip::def_ids(reg)[b]) < 0);
                lemma_lex_eq(reg[a].id, reg[b].id);
            } else {
                assert(lex_order(crate::status_strip::def_ids(reg)[b], crate::status_strip::def_ids(reg)[a]) < 0);
                lemma_lex_eq(reg[a].id, reg[b].id);
            }
        }
    }
    assert forall|i: int, j: int| 0 <= i < j < sd.len() implies (#[trigger] sd[i]).id != (#[trigger] sd[j]).id by {
        assert(sd.contains(sd[i]) && sd.contains(sd[j]));
        assert(reg.contains(sd[i]) && reg.contains(sd[j]));
        let a = choose|a: int| 0 <= a < reg.len() && reg[a] == sd[i];
        let b = choose|b: int| 0 <= b < reg.len() && reg[b] == sd[j];
        if a != b {
            if a < b {
                assert(lex_order(crate::status_strip::def_ids(reg)[a], crate::status_strip::def_ids(reg)[b]) < 0);
            } else {
                assert(lex_order(crate::status_strip::def_ids(reg)[b], crate::status_strip::def_ids(reg)[a]) < 0);
            }
            lemma_lex_eq(reg[a].id, reg[b].id);
        } else {
            assert(sd[i] == sd[j]);
        }
    }
}

proof fn lemma_count_same_positions(a: Seq<PlacementModel>, b: Seq<PlacementModel>, p: StripPosition)
    requires
        a.len() == b.len(),
        forall|i: int| 0 <= i < a.len() ==> (#[trigger] a[i]).position == b[i].position,
    ensures
        count_in(a, p) == count_in(b, p),
    decreases a.len(),
{
    if a.len() > 0 {
        lemma_count_same_positions(a.drop_last(), b.drop_last(), p);
        assert(a.last().position == b.last().position);
    }
}

/// The default layout: every definition of the registry in its listing
/// order (by strip, default order and id), at its default strip and
/// visibility, numbered 0, 1, 2, ... within each strip without gaps.
pub proof fn law_default_layout(reg: Seq<DefModel>)
    requires
        registry_ok(reg),
        reg.len() < 65536,
    ensures
        ({
            let n = default_placements(reg);
            let sd = sort_defs(reg);
            &&& n.len() == reg.len()
            &&& forall|i: int|
                0 <= i < n.len() ==> (#[trigger] n[i]).widget_id == sd[i].id && n[i].position
                    == sd[i].position && n[i].enabled == sd[i].enabled
            &&& forall|i: int| 0 <= i < n.len() ==> (#[trigger] n[i]).order == count_in(n.take(i), n[i].position)
            &&& strictly_ordered(n)
            &&& distinct_ids(n)
        }),
{
    law_definitions_sorted_once(reg);
    let sd = sort_defs(reg);
    let x = sd.map_values(|d: DefModel| def_to_pl(d));
    assert(distinct_ids(x)) by {
        assert forall|i: int, j: int| 0 <= i < j < x.len() implies x[i].widget_id != x[j].widget_id by {
            assert(sd[i].id != sd[j].id);
        }
    }
    assert(strictly_ordered(x)) by {
        assert forall|i: int, j: int| 0 <= i < j < x.len() implies pl_before(x[i], x[j]) by {
            let (a, b) = (sd[i], sd[j]);
            assert(!def_order()(sd[j], sd[i]));
            assert(a.id != b.id);
            lemma_lex_antisym(a.id, b.id);
            lemma_lex_eq(a.id, b.id);
            assert(def_before(a, b));
        }
    }
    lemma_sort_pl_of_same(x, x);
    assert(sort_pl(x) == x);
    assert(normalized_orders(x) == renumber(x).0);
    let n = renumber(x).0;
    lemma_renumber(x);
    assert(n == default_placements(reg));
    assert forall|i: int| 0 <= i < n.len() implies (#[trigger] n[i]).order == count_in(
        n.take(i),
        n[i].position,
    ) by {
        assert forall|k: int| 0 <= k < i implies (#[trigger] n.take(i)[k]).position == x.take(i)[k].position by {
            assert(n[k] == PlacementModel { order: count_in(x.take(k), x[k].position) as u16, ..x[k] });
        }
        lemma_count_same_positions(n.take(i), x.take(i), n[i].position);
        lemma_count_bound(x.take(i), x[i].position);
        assert(n[i] == PlacementModel { order: count_in(x.take(i), x[i].position) as u16, ..x[i] });
    }
    lemma_renumbered_ordered(x);
    assert(distinct_ids(n)) by {
        assert forall|i: int, j: int| 0 <= i < j < n.len() implies n[i].widget_id != n[j].widget_id by {
            assert(n[i].widget_id == x[i].widget_id && n[j].widget_id == x[j].widget_id);
        }
    }
}

// ---------------------------------------------------------------------------
// Editing: which widgets can be edited, and where a moved widget lands
// ---------------------------------------------------------------------------

proof fn lemma_put_by_id_placed(m: Seq<PlacementModel>, p: PlacementModel)
    ensures
        placed(put_by_id(m, p), p.widget_id),
        forall|x: Seq<char>| placed(m, x) ==> placed(put_by_id(m, p), x),
{
    lemma_first_from(0, m.len() as int, pl_id_is(m, p.widget_id));
    let r = put_by_id(m, p);
    match pl_find(m, p.widget_id) {
        Some(i) => {
            assert(pl_id_is(m, p.widget_id)(i));
            assert(r[i].widget_id == p.widget_id);
            assert forall|x: Seq<char>| placed(m, x) implies placed(r, x) by {
                let k = choose|k: int| 0 <= k < m.len() && #[trigger] m[k].widget_id == x;
                assert(r[k].widget_id == x);
            }
        },
        None => {
            let j = pl_id_insert_pos(m, p.widget_id);
            lemma_first_from(0, m.len() as int, pl_id_after(m, p.widget_id));
            assert(r[j].widget_id == p.widget_id);
            assert forall|x: Seq<char>| placed(m, x) implies placed(r, x) by {
                let k = choose|k: int| 0 <= k < m.len() && #[trigger] m[k].widget_id == x;
                if k < j {
                    assert(r[k] == m[k]);
                } else {
                    assert(r[k + 1] == m[k]);
                }
            }
        },
    }
}

proof fn lemma_by_id_placed(s: Seq<PlacementModel>)
    ensures
        forall|x: Seq<char>| placed(s, x) ==> placed(by_id(s), x),
    decreases s.len(),
{
    if s.len() > 0 {
        let s0 = s.drop_last();
        lemma_by_id_placed(s0);
        lemma_put_by_id_placed(by_id(s0), s.last());
        assert forall|x: Seq<char>| placed(s, x) implies placed(by_id(s), x) by {
            let k = choose|k: int| 0 <= k < s.len() && #[trigger] s[k].widget_id == x;
            if k < s.len() - 1 {
                assert(s0[k].widget_id == x);
                assert(placed(s0, x));
            }
        }
    }
}

/// A layout made whole places exactly the registered widgets.
proof fn lemma_placed_iff_registered(reg: Seq<DefModel>, ps: Seq<PlacementModel>, x: Seq<char>)
    requires
        registry_ok(reg),
        reg.len() < 65536,
    ensures
        placed(sanitized(reg, ps).0, x) <==> reg_find(reg, x) is Some,
{
    let n = sanitized(reg, ps).0;
    lemma_sanitized_whole(reg, ps);
    if placed(n, x) {
        let k = choose|k: int| 0 <= k < n.len() && #[trigger] n[k].widget_id == x;
        assert(registered(reg, n[k].widget_id));
    }
    if reg_find(reg, x) is Some {
        lemma_first_from(0, reg.len() as int, id_at(reg, x));
        let k = reg_find(reg, x)->Some_0;
        assert(id_at(reg, x)(k));
        law_definitions_sorted_once(reg);
        let sd = sort_defs(reg);
        assert(reg.contains(reg[k]));
        assert(sd.contains(reg[k]));
        let a = choose|a: int| 0 <= a < sd.len() && sd[a] == reg[k];
        law_default_layout(reg);
        let dp = default_placements(reg);
        assert(dp[a].widget_id == x);
        assert(placed(dp, x));
        lemma_by_id_placed(dp);
        let d = by_id(dp);
        let j = choose|j: int| 0 <= j < d.len() && #[trigger] d[j].widget_id == x;
        assert(placed(n, d[j].widget_id));
    }
}

/// Showing, hiding or moving a widget fails exactly when the registry has
/// no widget under its normalized id (and then the store is left as it
/// was, with the error "status widget '<id>' not found").
pub proof fn law_edits_fail_exactly_when_unregistered(
    reg: Seq<DefModel>,
    ps: Seq<PlacementModel>,
    widget_id: Seq<char>,
    enabled: bool,
    pos: StripPosition,
    index: int,
)
    requires
        registry_ok(reg),
        reg.len() < 65536,
        index >= 0,
    ensures
        (set_enabled_spec(reg, ps, widget_id, enabled) is None) == (reg_find(reg, widget_id_spec(widget_id)) is None),
        (move_spec(reg, ps, widget_id, pos, index) is None) == (reg_find(reg, widget_id_spec(widget_id)) is None),
{
    let n = sanitized(reg, ps).0;
    let t = widget_id_spec(widget_id);
    lemma_sanitized_whole(reg, ps);
    lemma_placed_iff_registered(reg, ps, t);
    lemma_first_from(0, n.len() as int, pl_id_is(n, t));
    if placed(n, t) {
        let k = choose|k: int| 0 <= k < n.len() && #[trigger] n[k].widget_id == t;
        assert(pl_id_is(n, t)(k));
    }
    lemma_ids_in(n, StripPosition::Top);
    lemma_ids_in(n, StripPosition::Bottom);
    let it = ids_in(n, StripPosition::Top);
    let ib = ids_in(n, StripPosition::Bottom);
    lemma_remove_first(it, t);
    lemma_remove_first(ib, t);
    if placed(n, t) {
        let k = choose|k: int| 0 <= k < n.len() && #[trigger] n[k].widget_id == t;
        match n[k].position {
            StripPosition::Top => {
                assert(it.contains(t));
            },
            StripPosition::Bottom => {
                assert(ib.contains(t));
            },
        }
    }
    if it.contains(t) {
        let k = choose|k: int| 0 <= k < n.len() && (#[trigger] n[k]).widget_id == t && n[k].position == StripPosition::Top;
        assert(n[k].widget_id == t);
    }
    if ib.contains(t) {
        let k = choose|k: int| 0 <= k < n.len() && (#[trigger] n[k]).widget_id == t && n[k].position == StripPosition::Bottom;
        assert(n[k].widget_id == t);
    }
}

proof fn lemma_ids_in_concat(a: Seq<PlacementModel>, b: Seq<PlacementModel>, p: StripPosition)
    ensures
        ids_in(a + b, p) == ids_in(a, p) + ids_in(b, p),
    decreases b.len(),
{
    if b.len() == 0 {
        assert(a + b =~= a);
        assert(ids_in(a, p) + ids_in(b, p) =~= ids_in(a, p));
    } else {
        lemma_ids_in_concat(a, b.drop_last(), p);
        assert((a + b).drop_last() =~= a + b.drop_last());
        assert((a + b).last() == b.last());
        if b.last().position == p {
            assert(ids_in(a, p) + ids_in(b, p) =~= (ids_in(a, p) + ids_in(b.drop_last(), p)).push(b.last().widget_id));
        }
    }
}

proof fn lemma_ids_in_positioned(n: Seq<PlacementModel>, ids: Seq<Seq<char>>, pos: StripPosition, p: StripPosition)
    ensures
        ids_in(positioned(n, ids, pos), p) == if pos == p { ids } else { Seq::<Seq<char>>::empty() },
    decreases ids.len(),
{
    if ids.len() > 0 {
        lemma_ids_in_positioned(n, ids.drop_last(), pos, p);
        assert(positioned(n, ids, pos).drop_last() =~= positioned(n, ids.drop_last(), pos));
        if pos == p {
            assert(ids =~= ids.drop_last().push(ids.last()));
        }
    } else {
        assert(positioned(n, ids, pos).len() == 0);
    }
}

/// A moved widget lands in the strip it was moved to, at the requested
/// index or, past the end, last: at the smaller of the index and the
/// number of the other widgets in that strip. It is then in no other strip.
pub proof fn law_moved_widget_lands_at_clamped_index(
    reg: Seq<DefModel>,
    ps: Seq<PlacementModel>,
    widget_id: Seq<char>,
    pos: StripPosition,
    index: int,
)
    requires
        registry_ok(reg),
        reg.len() < 65536,
        index >= 0,
    ensures
        move_spec(reg, ps, widget_id, pos, index) matches Some(q) ==> {
            let ids = ids_in(q, pos);
            let others = (ids.len() - 1) as int;
            let other_pos = if pos == StripPosition::Top { StripPosition::Bottom } else { StripPosition::Top };
            &&& ids.len() >= 1
            &&& ids[if index < others { index } else { others }] == widget_id_spec(widget_id)
            &&& !ids_in(q, other_pos).contains(widget_id_spec(widget_id))
        },
{
    let n = sanitized(reg, ps).0;
    let t = widget_id_spec(widget_id);
    lemma_sanitized_whole(reg, ps);
    lemma_ids_in(n, StripPosition::Top);
    lemma_ids_in(n, StripPosition::Bottom);
    let it = ids_in(n, StripPosition::Top);
    let ib = ids_in(n, StripPosition::Bottom);
    lemma_remove_first(it, t);
    lemma_remove_first(ib, t);
    if let Some(q) = move_spec(reg, ps, widget_id, pos, index) {
        let (top, from_top) = remove_first(it, t);
        let (bottom, from_bottom) = if from_top {
            (ib, false)
        } else {
            remove_first(ib, t)
        };
        // t sits in one strip of a whole layout only.
        if from_top {
            assert(!ib.contains(t)) by {
                if ib.contains(t) {
                    let k1 = choose|k: int| 0 <= k < n.len() && (#[trigger] n[k]).widget_id == t && n[k].position == StripPosition::Top;
                    let k2 = choose|k: int| 0 <= k < n.len() && (#[trigger] n[k]).widget_id == t && n[k].position == StripPosition::Bottom;
                    assert(n[k1].widget_id == n[k2].widget_id);
                }
            }
        }
        let top2 = if pos == StripPosition::Top { insert_clamped(top, index, t) } else { top };
        let bottom2 = if pos == StripPosition::Bottom { insert_clamped(bottom, index, t) } else { bottom };
        assert(q == positioned(n, top2, StripPosition::Top) + positioned(n, bottom2, StripPosition::Bottom));
        lemma_ids_in_concat(positioned(n, top2, StripPosition::Top), positioned(n, bottom2, StripPosition::Bottom), pos);
        lemma_ids_in_positioned(n, top2, StripPosition::Top, pos);
        lemma_ids_in_positioned(n, bottom2, StripPosition::Bottom, pos);
        let other_pos = if pos == StripPosition::Top { StripPosition::Bottom } else { StripPosition::Top };
        lemma_ids_in_concat(positioned(n, top2, StripPosition::Top), positioned(n, bottom2, StripPosition::Bottom), other_pos);
        lemma_ids_in_positioned(n, top2, StripPosition::Top, other_pos);
        lemma_ids_in_positioned(n, bottom2, StripPosition::Bottom, other_pos);
        if pos == StripPosition::Top {
            assert(ids_in(q, pos) =~= top2);
            assert(ids_in(q, other_pos) =~= bottom2);
        } else {
            assert(ids_in(q, pos) =~= bottom2);
            assert(ids_in(q, other_pos) =~= top2);
        }
    }
}

/// A layout read back from what was kept is kept again as the same layout
/// (so the same JSON value is written), and plans the same strips as the
/// layout that was kept.
pub proof fn law_restored_layout_persists_and_plans_alike(
    reg: Seq<DefModel>,
    ps: Seq<PlacementModel>,
    v: JsonValue,
)
    requires
        registry_ok(reg),
        reg.len() < 65536,
        store_json_is(v, sanitized(reg, ps).0),
    ensures
        ({
            let n = restore_spec(reg, Some(Ok::<JsonValue, String>(v))).0;
            &&& sanitized(reg, n).0 == sanitized(reg, ps).0
            &&& plan_spec(reg, n) == plan_spec(reg, ps)
        }),
{
    law_restore_reads_back_persisted(reg, ps, v);
    law_sanitize_idempotent(reg, ps);
}

proof fn lemma_last_enabled(n: Seq<PlacementModel>, k: int)
    requires
        distinct_ids(n),
        0 <= k < n.len(),
    ensures
        last_enabled(n, n[k].widget_id) == Some(n[k].enabled),
    decreases n.len(),
{
    let n0 = n.drop_last();
    if k < n.len() - 1 {
        assert(n.last().widget_id != n[k].widget_id);
        assert(distinct_ids(n0)) by {
            assert forall|a: int, b: int| 0 <= a < b < n0.len() implies n0[a].widget_id != n0[b].widget_id by {
                assert(n0[a] == n[a] && n0[b] == n[b]);
            }
        }
        assert(n0[k] == n[k]);
        lemma_last_enabled(n0, k);
    }
}

/// A move keeps every widget's visibility as the layout (made whole) had it.
pub proof fn law_move_keeps_visibility(
    reg: Seq<DefModel>,
    ps: Seq<PlacementModel>,
    widget_id: Seq<char>,
    pos: StripPosition,
    index: int,
)
    requires
        registry_ok(reg),
        reg.len() < 65536,
        index >= 0,
    ensures
        move_spec(reg, ps, widget_id, pos, index) matches Some(q) ==> forall|i: int|
            #![trigger q[i]]
            0 <= i < q.len() ==> exists|k: int|
                0 <= k < sanitized(reg, ps).0.len() && (#[trigger] sanitized(reg, ps).0[k]).widget_id
                    == q[i].widget_id && sanitized(reg, ps).0[k].enabled == q[i].enabled,
{
    let n = sanitized(reg, ps).0;
    let t = widget_id_spec(widget_id);
    lemma_sanitized_whole(reg, ps);
    law_move_keeps_layout_whole(reg, ps, widget_id, pos, index);
    if let Some(q) = move_spec(reg, ps, widget_id, pos, index) {
        assert forall|i: int| #![trigger q[i]] 0 <= i < q.len() implies exists|k: int|
            0 <= k < n.len() && (#[trigger] n[k]).widget_id == q[i].widget_id && n[k].enabled == q[i].enabled by {
            // q is whole, so its widget is placed in the default layout and
            // hence in n.
            let d = by_id(default_placements(reg));
            assert(placed(d, q[i].widget_id));
            let j = choose|j: int| 0 <= j < d.len() && #[trigger] d[j].widget_id == q[i].widget_id;
            assert(placed(n, d[j].widget_id));
            let k = choose|k: int| 0 <= k < n.len() && #[trigger] n[k].widget_id == d[j].widget_id;
            lemma_last_enabled(n, k);
            let (top, from_top) = remove_first(ids_in(n, StripPosition::Top), t);
            let (bottom, from_bottom) = if from_top {
                (ids_in(n, StripPosition::Bottom), false)
            } else {
                remove_first(ids_in(n, StripPosition::Bottom), t)
            };
            let top2 = if pos == StripPosition::Top { insert_clamped(top, index, t) } else { top };
            let bottom2 = if pos == StripPosition::Bottom { insert_clamped(bottom, index, t) } else { bottom };
            let pa = positioned(n, top2, StripPosition::Top);
            let pb = positioned(n, bottom2, StripPosition::Bottom);
            assert(q == pa + pb);
            if i < pa.len() {
                assert(q[i] == pa[i]);
            } else {
                assert(q[i] == pb[i - pa.len()]);
            }
        }
    }
}

} // verus!
