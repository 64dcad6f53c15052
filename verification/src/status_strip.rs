//! Configurable top/bottom status strips with pluggable widget slots.
use vstd::prelude::*;

use std::collections::BTreeMap;

use crate::annotations::{lemma_sorted_insert, strictly_sorted};
use crate::json::{get, json_get, json_pretty_text, json_text_value, parse_json_result, pretty_json_or, JsonValue};
use crate::text::{
    chars_of, concat, copy_string, first_from, join, lemma_first_from, lemma_lex_antisym,
    lemma_lex_eq, lemma_lex_range, lex_order, lower, order_strings, push_char, push_str, str_eq,
    string_of, sv, take_upto, trim, trim_str, u64_to_string, dec, take_chars, join_strings,
};

verus! {

pub const STATUS_STRIP_SCHEMA_VERSION: u32 = 2;

#[derive(Debug, Clone, Copy, PartialEq, Eq, PartialOrd, Ord, Structural)]
pub enum StripPosition {
    Top,
    Bottom,
}

/// `Top` sorts before `Bottom`.
pub open spec fn rank(p: StripPosition) -> int {
    match p {
        StripPosition::Top => 0,
        StripPosition::Bottom => 1,
    }
}

impl StripPosition {
    pub open spec fn slug_spec(self) -> Seq<char> {
        match self {
            StripPosition::Top => "top"@,
            StripPosition::Bottom => "bottom"@,
        }
    }

    pub fn slug(self) -> (r: &'static str)
        ensures
            r@ == self.slug_spec(),
    {
        match self {
            Self::Top => "top",
            Self::Bottom => "bottom",
        }
    }

    pub open spec fn from_slug_spec(value: Seq<char>) -> Option<StripPosition> {
        let n = lower(trim(value));
        if n == "top"@ {
            Some(StripPosition::Top)
        } else if n == "bottom"@ {
            Some(StripPosition::Bottom)
        } else {
            None
        }
    }

    pub fn from_slug(value: &str) -> (r: Option<Self>)
        ensures
            r == Self::from_slug_spec(value@),
    {
        let t = trim_str(value);
        let n = crate::text::lowercase(t.as_str());
        if str_eq(n.as_str(), "top") {
            Some(Self::Top)
        } else if str_eq(n.as_str(), "bottom") {
            Some(Self::Bottom)
        } else {
            None
        }
    }
}

// ---------------------------------------------------------------------------
// Widget ids
// ---------------------------------------------------------------------------

pub open spec fn id_char_allowed(c: char) -> bool {
    crate::text::is_ascii_alnum(c) || c == '_' || c == '-'
}

/// The characters of `s` that may stand in a widget id, in order.
pub open spec fn keep_id_chars(s: Seq<char>) -> Seq<char>
    decreases s.len(),
{
    if s.len() == 0 {
        s
    } else if id_char_allowed(s.last()) {
        keep_id_chars(s.drop_last()).push(s.last())
    } else {
        keep_id_chars(s.drop_last())
    }
}

/// A widget id: trimmed, lowercased, spaces turned into `_`, and then only
/// ASCII letters, digits, `_` and `-` kept.
pub open spec fn widget_id_spec(s: Seq<char>) -> Seq<char> {
    keep_id_chars(lower(trim(s)).map_values(|c: char| if c == ' ' { '_' } else { c }))
}

fn normalize_widget_id(value: &str) -> (r: String)
    ensures
        r@ == widget_id_spec(value@),
{
    let t = trim_str(value);
    let l = crate::text::lowercase(t.as_str());
    let v = chars_of(l.as_str());
    let ghost m = lower(trim(value@)).map_values(|c: char| if c == ' ' { '_' } else { c });
    let mut out = String::new();
    let mut i: usize = 0;
    while i < v.len()
        invariant
            i <= v.len(),
            v@ == lower(trim(value@)),
            m == lower(trim(value@)).map_values(|c: char| if c == ' ' { '_' } else { c }),
            out@ == keep_id_chars(m.take(i as int)),
        decreases v.len() - i,
    {
        let c = if v[i] == ' ' {
            '_'
        } else {
            v[i]
        };
        assert(m[i as int] == c);
        assert(m.take(i + 1).drop_last() =~= m.take(i as int));
        if crate::text::is_alnum(c) || c == '_' || c == '-' {
            push_char(&mut out, c);
        }
        i += 1;
    }
    assert(m.take(v.len() as int) =~= m);
    out
}

/// A character a normalized widget id can hold: a lowercase ASCII letter, a
/// digit, `_` or `-`.
pub open spec fn id_char_normal(c: char) -> bool {
    id_char_allowed(c) && !('A' <= c && c <= 'Z')
}

proof fn lemma_keep_normal(s: Seq<char>)
    requires
        forall|i: int| 0 <= i < s.len() ==> !('A' <= #[trigger] s[i] && s[i] <= 'Z'),
    ensures
        forall|i: int| 0 <= i < keep_id_chars(s).len() ==> id_char_normal(#[trigger] keep_id_chars(s)[i]),
    decreases s.len(),
{
    if s.len() > 0 {
        assert forall|i: int| 0 <= i < s.drop_last().len() implies !('A' <= #[trigger] s.drop_last()[i]
            && s.drop_last()[i] <= 'Z') by {
            assert(s.drop_last()[i] == s[i]);
        }
        lemma_keep_normal(s.drop_last());
        assert(s.last() == s[s.len() - 1]);
        let k = keep_id_chars(s);
        let k0 = keep_id_chars(s.drop_last());
        if id_char_allowed(s.last()) {
            assert(k == k0.push(s.last()));
            assert forall|i: int| 0 <= i < k.len() implies id_char_normal(#[trigger] k[i]) by {
                if i < k0.len() {
                    assert(k[i] == k0[i]);
                }
            }
        }
    }
}

proof fn lemma_keep_identity(s: Seq<char>)
    requires
        forall|i: int| 0 <= i < s.len() ==> id_char_allowed(#[trigger] s[i]),
    ensures
        keep_id_chars(s) == s,
    decreases s.len(),
{
    if s.len() > 0 {
        assert forall|i: int| 0 <= i < s.drop_last().len() implies id_char_allowed(#[trigger] s.drop_last()[i]) by {
            assert(s.drop_last()[i] == s[i]);
        }
        lemma_keep_identity(s.drop_last());
        assert(s.last() == s[s.len() - 1]);
        assert(s.drop_last().push(s.last()) =~= s);
    }
}

proof fn lemma_trim_start_no_ws(s: Seq<char>)
    requires
        forall|i: int| 0 <= i < s.len() ==> !crate::text::is_ws(#[trigger] s[i]),
    ensures
        crate::text::trim_start(s) == s,
{
    assert(s.len() == 0 || !crate::text::is_ws(s[0]));
}

proof fn lemma_trim_end_no_ws(s: Seq<char>)
    requires
        forall|i: int| 0 <= i < s.len() ==> !crate::text::is_ws(#[trigger] s[i]),
    ensures
        crate::text::trim_end(s) == s,
{
    assert(s.len() == 0 || !crate::text::is_ws(s.last()));
}

/// A widget id is made of lowercase letters, digits, `_` and `-`.
pub proof fn lemma_widget_id_normal(x: Seq<char>)
    ensures
        forall|i: int| 0 <= i < widget_id_spec(x).len() ==> id_char_normal(#[trigger] widget_id_spec(x)[i]),
{
    let m = lower(trim(x)).map_values(|c: char| if c == ' ' { '_' } else { c });
    assert forall|i: int| 0 <= i < m.len() implies !('A' <= #[trigger] m[i] && m[i] <= 'Z') by {
        let c = trim(x)[i];
        assert(lower(trim(x))[i] == crate::text::lower_char(c));
    }
    lemma_keep_normal(m);
}

/// Normalizing a widget id twice changes nothing.
pub proof fn lemma_widget_id_idempotent(x: Seq<char>)
    ensures
        widget_id_spec(widget_id_spec(x)) == widget_id_spec(x),
{
    let y = widget_id_spec(x);
    lemma_widget_id_normal(x);
    assert forall|i: int| 0 <= i < y.len() implies !crate::text::is_ws(#[trigger] y[i]) by {
        assert(id_char_normal(y[i]));
    }
    lemma_trim_start_no_ws(y);
    lemma_trim_end_no_ws(y);
    assert(trim(y) == y);
    assert(lower(y) =~= y) by {
        assert forall|i: int| 0 <= i < y.len() implies lower(y)[i] == y[i] by {
            assert(id_char_normal(y[i]));
        }
    }
    let m = lower(trim(y)).map_values(|c: char| if c == ' ' { '_' } else { c });
    assert(m =~= y) by {
        assert forall|i: int| 0 <= i < y.len() implies m[i] == y[i] by {
            assert(id_char_normal(y[i]));
        }
    }
    assert forall|i: int| 0 <= i < y.len() implies id_char_allowed(#[trigger] y[i]) by {
        assert(id_char_normal(y[i]));
    }
    lemma_keep_identity(y);
}

// ---------------------------------------------------------------------------
// Widget definitions and the registry
// ---------------------------------------------------------------------------

#[derive(Debug, Clone, PartialEq, Eq)]
pub struct StatusWidgetDefinition {
    pub id: String,
    pub title: String,
    pub default_position: StripPosition,
    pub default_order: u16,
    pub default_enabled: bool,
}

/// A widget definition as values.
pub struct DefModel {
    pub id: Seq<char>,
    pub title: Seq<char>,
    pub position: StripPosition,
    pub order: u16,
    pub enabled: bool,
}

impl View for StatusWidgetDefinition {
    type V = DefModel;

    open spec fn view(&self) -> DefModel {
        DefModel {
            id: self.id@,
            title: self.title@,
            position: self.default_position,
            order: self.default_order,
            enabled: self.default_enabled,
        }
    }
}

pub open spec fn defs_view(v: Seq<StatusWidgetDefinition>) -> Seq<DefModel> {
    v.map_values(|d: StatusWidgetDefinition| d@)
}

pub open spec fn def_new_spec(id: Seq<char>, title: Seq<char>, p: StripPosition, order: u16) -> DefModel {
    DefModel { id: widget_id_spec(id), title: trim(title), position: p, order, enabled: true }
}

impl StatusWidgetDefinition {
    pub fn new(id: &str, title: &str, default_position: StripPosition, default_order: u16) -> (r:
        Self)
        ensures
            r@ == def_new_spec(id@, title@, default_position, default_order),
    {
        Self {
            id: normalize_widget_id(id),
            title: trim_str(title),
            default_position,
            default_order,
            default_enabled: true,
        }
    }
}

fn clone_def(d: &StatusWidgetDefinition) -> (r: StatusWidgetDefinition)
    ensures
        r@ == d@,
{
    StatusWidgetDefinition {
        id: d.id.clone(),
        title: d.title.clone(),
        default_position: d.default_position,
        default_order: d.default_order,
        default_enabled: d.default_enabled,
    }
}

pub open spec fn def_ids(s: Seq<DefModel>) -> Seq<Seq<char>> {
    s.map_values(|d: DefModel| d.id)
}

pub open spec fn id_at(defs: Seq<DefModel>, key: Seq<char>) -> spec_fn(int) -> bool {
    |i: int| defs[i].id == key
}

/// The definition registered under an already normalized id.
pub open spec fn reg_find(defs: Seq<DefModel>, key: Seq<char>) -> Option<int> {
    first_from(0, defs.len() as int, id_at(defs, key))
}

pub open spec fn id_after(defs: Seq<DefModel>, key: Seq<char>) -> spec_fn(int) -> bool {
    |i: int| lex_order(defs[i].id, key) > 0
}

/// Where a new id goes so that ids stay ascending.
pub open spec fn reg_insert_pos(defs: Seq<DefModel>, key: Seq<char>) -> int {
    match first_from(0, defs.len() as int, id_after(defs, key)) {
        Some(j) => j,
        None => defs.len() as int,
    }
}

/// What registering a definition returns and leaves in the registry, which
/// holds its definitions ascending by id.
pub open spec fn register_spec(defs: Seq<DefModel>, d: DefModel) -> (Result<(), Seq<char>>, Seq<DefModel>) {
    let id = widget_id_spec(d.id);
    let title = trim(d.title);
    if id.len() == 0 {
        (Err("status widget id cannot be empty"@), defs)
    } else if title.len() == 0 {
        (Err("status widget '"@ + id + "' title cannot be empty"@), defs)
    } else if reg_find(defs, id) is Some {
        (Err("status widget '"@ + id + "' already registered"@), defs)
    } else {
        (Ok(()), defs.insert(reg_insert_pos(defs, id), DefModel { id, title, ..d }))
    }
}

/// The built-in widgets.
pub open spec fn builtin_defs() -> Seq<DefModel> {
    seq![
        def_new_spec("workspace"@, "Workspace"@, StripPosition::Top, 10),
        def_new_spec("view"@, "View"@, StripPosition::Top, 20),
        def_new_spec("filters"@, "Filters"@, StripPosition::Top, 30),
        def_new_spec("selection"@, "Selection"@, StripPosition::Bottom, 10),
        def_new_spec("queue_depth"@, "Queue"@, StripPosition::Bottom, 20),
        def_new_spec("alerts"@, "Alerts"@, StripPosition::Bottom, 30),
        def_new_spec("clock"@, "Clock"@, StripPosition::Bottom, 40),
    ]
}

/// The registry after registering each of `ds` in turn.
pub open spec fn register_all(defs: Seq<DefModel>, ds: Seq<DefModel>) -> Seq<DefModel>
    decreases ds.len(),
{
    if ds.len() == 0 {
        defs
    } else {
        register_spec(register_all(defs, ds.drop_last()), ds.last()).1
    }
}

pub fn builtin_status_widgets() -> (r: Vec<StatusWidgetDefinition>)
    ensures
        defs_view(r@) == builtin_defs(),
{
    let r = vec![
        StatusWidgetDefinition::new("workspace", "Workspace", StripPosition::Top, 10),
        StatusWidgetDefinition::new("view", "View", StripPosition::Top, 20),
        StatusWidgetDefinition::new("filters", "Filters", StripPosition::Top, 30),
        StatusWidgetDefinition::new("selection", "Selection", StripPosition::Bottom, 10),
        StatusWidgetDefinition::new("queue_depth", "Queue", StripPosition::Bottom, 20),
        StatusWidgetDefinition::new("alerts", "Alerts", StripPosition::Bottom, 30),
        StatusWidgetDefinition::new("clock", "Clock", StripPosition::Bottom, 40),
    ];
    assert(defs_view(r@) =~= builtin_defs());
    r
}

#[derive(Debug, PartialEq, Eq)]
pub struct StatusWidgetRegistry {
    widgets: Vec<StatusWidgetDefinition>,
}

impl View for StatusWidgetRegistry {
    type V = Seq<DefModel>;

    closed spec fn view(&self) -> Seq<DefModel> {
        defs_view(self.widgets@)
    }
}

impl Default for StatusWidgetRegistry {
    fn default() -> (r: Self)
        ensures
            r@ == register_all(Seq::empty(), builtin_defs()),
    {
        Self::with_builtins()
    }
}

/// A registry's definitions: ascending by id (so no id occurs twice), each
/// id normalized and not empty.
pub open spec fn registry_ok(reg: Seq<DefModel>) -> bool {
    &&& strictly_sorted(def_ids(reg))
    &&& forall|i: int| 0 <= i < reg.len() ==> widget_id_spec(#[trigger] reg[i].id) == reg[i].id
    &&& forall|i: int| 0 <= i < reg.len() ==> (#[trigger] reg[i].id).len() > 0
}

impl StatusWidgetRegistry {
    #[verifier::type_invariant]
    closed spec fn ids_ascending(self) -> bool {
        registry_ok(defs_view(self.widgets@))
    }

    pub fn new() -> (r: Self)
        ensures
            r@ == Seq::<DefModel>::empty(),
            registry_ok(r@),
    {
        let r = Self { widgets: Vec::new() };
        assert(def_ids(defs_view(r.widgets@)) =~= Seq::<Seq<char>>::empty());
        r
    }

    pub fn with_builtins() -> (r: Self)
        ensures
            r@ == register_all(Seq::empty(), builtin_defs()),
            registry_ok(r@),
    {
        let mut registry = Self::new();
        let builtins = builtin_status_widgets();
        let mut i: usize = 0;
        while i < builtins.len()
            invariant
                i <= builtins.len(),
                defs_view(builtins@) == builtin_defs(),
                registry@ == register_all(Seq::empty(), builtin_defs().take(i as int)),
            decreases builtins.len() - i,
        {
            assert(builtin_defs().take(i + 1).drop_last() =~= builtin_defs().take(i as int));
            let _ = registry.register(clone_def(&builtins[i]));
            i += 1;
        }
        assert(builtin_defs().take(builtins.len() as int) =~= builtin_defs());
        proof {
            use_type_invariant(&registry);
        }
        registry
    }

    pub fn register(&mut self, definition: StatusWidgetDefinition) -> (r: Result<(), String>)
        ensures
            (crate::annotations::result_view(r), final(self)@) == register_spec(
                old(self)@,
                definition@,
            ),
            registry_ok(final(self)@),
    {
        proof {
            use_type_invariant(&*self);
        }
        let id = normalize_widget_id(definition.id.as_str());
        let title = trim_str(definition.title.as_str());
        if id.as_str().is_empty() {
            return Err(copy_string("status widget id cannot be empty"));
        }
        if title.as_str().is_empty() {
            let mut msg = concat("status widget '", id.as_str());
            push_str(&mut msg, "' title cannot be empty");
            return Err(msg);
        }
        if self.find(&id).is_some() {
            let mut msg = concat("status widget '", id.as_str());
            push_str(&mut msg, "' already registered");
            return Err(msg);
        }
        let ghost defs = self@;
        let j = self.insert_index(&id);
        let ghost d = DefModel { id: id@, title: title@, ..definition@ };
        proof {
            let ids = def_ids(defs);
            lemma_widget_id_idempotent(definition.id@);
            assert(reg_find(defs, id@) is None);
            lemma_first_from(0, defs.len() as int, id_at(defs, id@));
            lemma_first_from(0, defs.len() as int, id_after(defs, id@));
            assert forall|k: int| 0 <= k < j implies lex_order(#[trigger] ids[k], id@) < 0 by {
                assert(!id_after(defs, id@)(k));
                assert(!id_at(defs, id@)(k));
                lemma_lex_eq(ids[k], id@);
                lemma_lex_range(ids[k], id@);
            }
            if j < defs.len() {
                assert(id_after(defs, id@)(j as int));
            }
            lemma_sorted_insert(ids, j as int, id@);
            assert(def_ids(defs.insert(j as int, d)) =~= ids.insert(j as int, id@));
            let nd = defs.insert(j as int, d);
            assert forall|i: int| 0 <= i < nd.len() implies widget_id_spec(#[trigger] nd[i].id) == nd[i].id
                && nd[i].id.len() > 0 by {
                if i < j {
                    assert(nd[i] == defs[i]);
                } else if i > j {
                    assert(nd[i] == defs[i - 1]);
                }
            }
        }
        let def = StatusWidgetDefinition {
            id,
            title,
            default_position: definition.default_position,
            default_order: definition.default_order,
            default_enabled: definition.default_enabled,
        };
        let mut widgets: Vec<StatusWidgetDefinition> = Vec::new();
        std::mem::swap(&mut widgets, &mut self.widgets);
        widgets.insert(j, def);
        assert(defs_view(widgets@) =~= defs.insert(j as int, d));
        self.widgets = widgets;
        Ok(())
    }

    /// Where a new normalized id goes so that ids stay ascending.
    fn insert_index(&self, key: &String) -> (r: usize)
        ensures
            r as int == reg_insert_pos(self@, key@),
            r <= self@.len(),
    {
        let ghost defs = self@;
        let mut j: usize = 0;
        while j < self.widgets.len()
            invariant
                j <= self.widgets.len(),
                defs == self@,
                defs == defs_view(self.widgets@),
                first_from(0, defs.len() as int, id_after(defs, key@)) == first_from(
                    j as int,
                    defs.len() as int,
                    id_after(defs, key@),
                ),
            decreases self.widgets.len() - j,
        {
            if order_strings(self.widgets[j].id.as_str(), key.as_str()) > 0 {
                return j;
            }
            j += 1;
        }
        j
    }

    /// The index of the definition registered under a normalized id.
    fn find(&self, key: &String) -> (r: Option<usize>)
        ensures
            match r {
                Some(i) => i < self@.len() && reg_find(self@, key@) == Some(i as int),
                None => reg_find(self@, key@) is None,
            },
    {
        let ghost defs = self@;
        let mut i: usize = 0;
        while i < self.widgets.len()
            invariant
                i <= self.widgets.len(),
                defs == self@,
                defs == defs_view(self.widgets@),
                reg_find(defs, key@) == first_from(i as int, defs.len() as int, id_at(defs, key@)),
            decreases self.widgets.len() - i,
        {
            if self.widgets[i].id == *key {
                return Some(i);
            }
            i += 1;
        }
        None
    }
}


impl StatusWidgetRegistry {
    pub fn contains(&self, widget_id: &str) -> (r: bool)
        ensures
            r == reg_find(self@, widget_id_spec(widget_id@)) is Some,
    {
        let key = normalize_widget_id(widget_id);
        self.find(&key).is_some()
    }

    pub fn definition(&self, widget_id: &str) -> (r: Option<&StatusWidgetDefinition>)
        ensures
            match r {
                Some(d) => reg_find(self@, widget_id_spec(widget_id@)) matches Some(i) && d@
                    == self@[i],
                None => reg_find(self@, widget_id_spec(widget_id@)) is None,
            },
    {
        let key = normalize_widget_id(widget_id);
        match self.find(&key) {
            Some(i) => Some(&self.widgets[i]),
            None => None,
        }
    }

    pub fn definitions(&self) -> (r: Vec<StatusWidgetDefinition>)
        ensures
            defs_view(r@) == sort_defs(self@),
    {
        let ghost defs = self@;
        let mut out: Vec<StatusWidgetDefinition> = Vec::new();
        let mut i: usize = 0;
        while i < self.widgets.len()
            invariant
                i <= self.widgets.len(),
                defs == self@,
                defs == defs_view(self.widgets@),
                defs_view(out@) == sort_defs(defs.take(i as int)),
            decreases self.widgets.len() - i,
        {
            assert(defs.take(i + 1).drop_last() =~= defs.take(i as int));
            assert(defs.take(i + 1).last() == defs[i as int]);
            let d = clone_def(&self.widgets[i]);
            let j = def_insert_index(&out, &d);
            let ghost prev = out@;
            out.insert(j, d);
            assert(defs_view(out@) =~= defs_view(prev).insert(j as int, d@));
            i += 1;
        }
        assert(defs.take(self.widgets.len() as int) =~= defs);
        out
    }
}

/// `a` sorts before `b`: by position, then default order, then id.
pub open spec fn def_before(a: DefModel, b: DefModel) -> bool {
    rank(a.position) < rank(b.position) || (rank(a.position) == rank(b.position) && (a.order
        < b.order || (a.order == b.order && lex_order(a.id, b.id) < 0)))
}

/// The registry's listing order as a relation.
pub open spec fn def_order() -> spec_fn(DefModel, DefModel) -> bool {
    |a: DefModel, b: DefModel| def_before(a, b)
}

pub open spec fn def_goes_before(x: DefModel, s: Seq<DefModel>) -> spec_fn(int) -> bool {
    |j: int| def_before(x, s[j])
}

pub open spec fn def_insert_pos(s: Seq<DefModel>, x: DefModel) -> int {
    match first_from(0, s.len() as int, def_goes_before(x, s)) {
        Some(j) => j,
        None => s.len() as int,
    }
}

/// `s` stably sorted by position, default order and id.
pub open spec fn sort_defs(s: Seq<DefModel>) -> Seq<DefModel>
    decreases s.len(),
{
    if s.len() == 0 {
        s
    } else {
        let t = sort_defs(s.drop_last());
        t.insert(def_insert_pos(t, s.last()), s.last())
    }
}

fn pos_rank(p: StripPosition) -> (r: u8)
    ensures
        r as int == rank(p),
{
    match p {
        StripPosition::Top => 0,
        StripPosition::Bottom => 1,
    }
}

fn def_insert_index(list: &Vec<StatusWidgetDefinition>, x: &StatusWidgetDefinition) -> (r: usize)
    ensures
        r as int == def_insert_pos(defs_view(list@), x@),
        r <= list.len(),
{
    let ghost s = defs_view(list@);
    let mut j: usize = 0;
    while j < list.len()
        invariant
            j <= list.len(),
            s == defs_view(list@),
            first_from(0, s.len() as int, def_goes_before(x@, s)) == first_from(
                j as int,
                s.len() as int,
                def_goes_before(x@, s),
            ),
        decreases list.len() - j,
    {
        let e = &list[j];
        let rx = pos_rank(x.default_position);
        let re = pos_rank(e.default_position);
        let ord = order_strings(x.id.as_str(), e.id.as_str());
        if rx < re || (rx == re && (x.default_order < e.default_order || (x.default_order
            == e.default_order && ord < 0))) {
            return j;
        }
        j += 1;
    }
    j
}

// ---------------------------------------------------------------------------
// Placements, stores and plans
// ---------------------------------------------------------------------------

#[derive(Debug, Clone, PartialEq, Eq)]
pub struct StatusStripPlacement {
    pub widget_id: String,
    pub position: StripPosition,
    pub order: u16,
    pub enabled: bool,
}

/// A placement as values.
pub struct PlacementModel {
    pub widget_id: Seq<char>,
    pub position: StripPosition,
    pub order: u16,
    pub enabled: bool,
}

impl View for StatusStripPlacement {
    type V = PlacementModel;

    open spec fn view(&self) -> PlacementModel {
        PlacementModel {
            widget_id: self.widget_id@,
            position: self.position,
            order: self.order,
            enabled: self.enabled,
        }
    }
}

pub open spec fn pls(v: Seq<StatusStripPlacement>) -> Seq<PlacementModel> {
    v.map_values(|p: StatusStripPlacement| p@)
}

#[derive(Debug, Clone, PartialEq, Eq)]
pub struct StatusStripStore {
    pub schema_version: u32,
    pub placements: Vec<StatusStripPlacement>,
}

#[derive(Debug, Clone, PartialEq, Eq)]
pub struct StatusStripLoadOutcome {
    pub store: StatusStripStore,
    pub migrated: bool,
    pub warnings: Vec<String>,
}

#[derive(Debug, Clone, PartialEq, Eq)]
pub struct StatusStripSlot {
    pub slot: usize,
    pub widget_id: String,
    pub title: String,
}

/// A slot as values.
pub struct SlotModel {
    pub slot: usize,
    pub widget_id: Seq<char>,
    pub title: Seq<char>,
}

impl View for StatusStripSlot {
    type V = SlotModel;

    open spec fn view(&self) -> SlotModel {
        SlotModel { slot: self.slot, widget_id: self.widget_id@, title: self.title@ }
    }
}

pub open spec fn slots_view(v: Seq<StatusStripSlot>) -> Seq<SlotModel> {
    v.map_values(|s: StatusStripSlot| s@)
}

#[derive(Debug, Clone, PartialEq, Eq)]
pub struct StatusStripPlan {
    pub top_slots: Vec<StatusStripSlot>,
    pub bottom_slots: Vec<StatusStripSlot>,
}

fn clone_placement(p: &StatusStripPlacement) -> (r: StatusStripPlacement)
    ensures
        r@ == p@,
{
    StatusStripPlacement {
        widget_id: p.widget_id.clone(),
        position: p.position,
        order: p.order,
        enabled: p.enabled,
    }
}

/// `a` sorts before `b`: by position, then order, then widget id.
pub open spec fn pl_before(a: PlacementModel, b: PlacementModel) -> bool {
    rank(a.position) < rank(b.position) || (rank(a.position) == rank(b.position) && (a.order
        < b.order || (a.order == b.order && lex_order(a.widget_id, b.widget_id) < 0)))
}

pub open spec fn pl_goes_before(x: PlacementModel, s: Seq<PlacementModel>) -> spec_fn(int) -> bool {
    |j: int| pl_before(x, s[j])
}

pub open spec fn pl_insert_pos(s: Seq<PlacementModel>, x: PlacementModel) -> int {
    match first_from(0, s.len() as int, pl_goes_before(x, s)) {
        Some(j) => j,
        None => s.len() as int,
    }
}

/// `s` stably sorted by position, order and widget id.
pub open spec fn sort_pl(s: Seq<PlacementModel>) -> Seq<PlacementModel>
    decreases s.len(),
{
    if s.len() == 0 {
        s
    } else {
        let t = sort_pl(s.drop_last());
        t.insert(pl_insert_pos(t, s.last()), s.last())
    }
}

pub open spec fn sat_inc(n: u16) -> u16 {
    if n == u16::MAX {
        n
    } else {
        (n + 1) as u16
    }
}

/// Each placement given the next order of its strip, counting from 0.
pub open spec fn renumber(s: Seq<PlacementModel>) -> (Seq<PlacementModel>, u16, u16)
    decreases s.len(),
{
    if s.len() == 0 {
        (s, 0, 0)
    } else {
        let (out, top, bottom) = renumber(s.drop_last());
        let x = s.last();
        match x.position {
            StripPosition::Top => (out.push(PlacementModel { order: top, ..x }), sat_inc(top), bottom),
            StripPosition::Bottom => (
                out.push(PlacementModel { order: bottom, ..x }),
                top,
                sat_inc(bottom),
            ),
        }
    }
}

/// Placements sorted, then numbered from 0 within each strip.
pub open spec fn normalized_orders(s: Seq<PlacementModel>) -> Seq<PlacementModel> {
    renumber(sort_pl(s)).0
}

pub open spec fn def_to_pl(d: DefModel) -> PlacementModel {
    PlacementModel { widget_id: d.id, position: d.position, order: d.order, enabled: d.enabled }
}

/// The store a registry starts with: every widget at its default place.
pub open spec fn default_placements(defs: Seq<DefModel>) -> Seq<PlacementModel> {
    normalized_orders(sort_defs(defs).map_values(|d: DefModel| def_to_pl(d)))
}

fn pl_insert_index(list: &Vec<StatusStripPlacement>, x: &StatusStripPlacement) -> (r: usize)
    ensures
        r as int == pl_insert_pos(pls(list@), x@),
        r <= list.len(),
{
    let ghost s = pls(list@);
    let mut j: usize = 0;
    while j < list.len()
        invariant
            j <= list.len(),
            s == pls(list@),
            first_from(0, s.len() as int, pl_goes_before(x@, s)) == first_from(
                j as int,
                s.len() as int,
                pl_goes_before(x@, s),
            ),
        decreases list.len() - j,
    {
        let e = &list[j];
        let rx = pos_rank(x.position);
        let re = pos_rank(e.position);
        let ord = order_strings(x.widget_id.as_str(), e.widget_id.as_str());
        if rx < re || (rx == re && (x.order < e.order || (x.order == e.order && ord < 0))) {
            return j;
        }
        j += 1;
    }
    j
}

fn normalize_orders(placements: &mut Vec<StatusStripPlacement>)
    ensures
        pls(final(placements)@) == normalized_orders(pls(old(placements)@)),
{
    let ghost src = pls(placements@);
    let mut sorted: Vec<StatusStripPlacement> = Vec::new();
    let mut i: usize = 0;
    while i < placements.len()
        invariant
            i <= placements.len(),
            src == pls(placements@),
            pls(sorted@) == sort_pl(src.take(i as int)),
        decreases placements.len() - i,
    {
        assert(src.take(i + 1).drop_last() =~= src.take(i as int));
        assert(src.take(i + 1).last() == src[i as int]);
        let p = clone_placement(&placements[i]);
        let j = pl_insert_index(&sorted, &p);
        let ghost prev = sorted@;
        sorted.insert(j, p);
        assert(pls(sorted@) =~= pls(prev).insert(j as int, p@));
        i += 1;
    }
    assert(src.take(placements.len() as int) =~= src);
    let ghost srt = pls(sorted@);
    let mut out: Vec<StatusStripPlacement> = Vec::new();
    let mut top_order: u16 = 0;
    let mut bottom_order: u16 = 0;
    let mut k: usize = 0;
    while k < sorted.len()
        invariant
            k <= sorted.len(),
            srt == pls(sorted@),
            srt == sort_pl(src),
            (pls(out@), top_order, bottom_order) == renumber(srt.take(k as int)),
        decreases sorted.len() - k,
    {
        assert(srt.take(k + 1).drop_last() =~= srt.take(k as int));
        assert(srt.take(k + 1).last() == srt[k as int]);
        let mut p = clone_placement(&sorted[k]);
        let ghost prev = out@;
        match p.position {
            StripPosition::Top => {
                p.order = top_order;
                top_order = top_order.saturating_add(1);
            },
            StripPosition::Bottom => {
                p.order = bottom_order;
                bottom_order = bottom_order.saturating_add(1);
            },
        }
        out.push(p);
        assert(pls(out@) =~= pls(prev).push(p@));
        k += 1;
    }
    assert(srt.take(sorted.len() as int) =~= srt);
    *placements = out;
}

fn def_to_placement(d: &StatusWidgetDefinition) -> (r: StatusStripPlacement)
    ensures
        r@ == def_to_pl(d@),
{
    StatusStripPlacement {
        widget_id: d.id.clone(),
        position: d.default_position,
        order: d.default_order,
        enabled: d.default_enabled,
    }
}

pub fn default_status_strip_store(registry: &StatusWidgetRegistry) -> (r: StatusStripStore)
    ensures
        r.schema_version == STATUS_STRIP_SCHEMA_VERSION,
        pls(r.placements@) == default_placements(registry@),
{
    let defs = registry.definitions();
    let ghost dv = defs_view(defs@);
    let mut placements: Vec<StatusStripPlacement> = Vec::new();
    let mut i: usize = 0;
    while i < defs.len()
        invariant
            i <= defs.len(),
            dv == defs_view(defs@),
            pls(placements@) == dv.take(i as int).map_values(|d: DefModel| def_to_pl(d)),
        decreases defs.len() - i,
    {
        let p = def_to_placement(&defs[i]);
        let ghost prev = placements@;
        placements.push(p);
        assert(pls(placements@) =~= pls(prev).push(p@));
        assert(dv.take(i + 1).map_values(|d: DefModel| def_to_pl(d)) =~= dv.take(
            i as int,
        ).map_values(|d: DefModel| def_to_pl(d)).push(def_to_pl(dv[i as int])));
        i += 1;
    }
    assert(dv.take(defs.len() as int) =~= dv);
    normalize_orders(&mut placements);
    StatusStripStore { schema_version: STATUS_STRIP_SCHEMA_VERSION, placements }
}

// ---------------------------------------------------------------------------
// Sanitizing a store against the registry
// ---------------------------------------------------------------------------

pub open spec fn pl_id_is(m: Seq<PlacementModel>, id: Seq<char>) -> spec_fn(int) -> bool {
    |i: int| m[i].widget_id == id
}

/// The first placement with widget id `id`.
pub open spec fn pl_find(m: Seq<PlacementModel>, id: Seq<char>) -> Option<int> {
    first_from(0, m.len() as int, pl_id_is(m, id))
}

pub open spec fn pl_id_after(m: Seq<PlacementModel>, id: Seq<char>) -> spec_fn(int) -> bool {
    |i: int| lex_order(m[i].widget_id, id) > 0
}

pub open spec fn pl_id_insert_pos(m: Seq<PlacementModel>, id: Seq<char>) -> int {
    match first_from(0, m.len() as int, pl_id_after(m, id)) {
        Some(j) => j,
        None => m.len() as int,
    }
}

/// Keyed by widget id: a placement with the same id is replaced, any other
/// goes before the first greater id.
pub open spec fn put_by_id(m: Seq<PlacementModel>, p: PlacementModel) -> Seq<PlacementModel> {
    match pl_find(m, p.widget_id) {
        Some(i) => m.update(i, p),
        None => m.insert(pl_id_insert_pos(m, p.widget_id), p),
    }
}

/// Placements collected by widget id, ascending, the last of equal ids kept.
pub open spec fn by_id(s: Seq<PlacementModel>) -> Seq<PlacementModel>
    decreases s.len(),
{
    if s.len() == 0 {
        s
    } else {
        put_by_id(by_id(s.drop_last()), s.last())
    }
}

/// The placement under `id` takes the position, order and visibility of `p`.
pub open spec fn apply_update(m: Seq<PlacementModel>, id: Seq<char>, p: PlacementModel) -> Seq<
    PlacementModel,
> {
    match pl_find(m, id) {
        Some(i) => m.update(
            i,
            PlacementModel { position: p.position, order: p.order, enabled: p.enabled, ..m[i] },
        ),
        None => m,
    }
}

pub open spec fn unknown_widget_msg(id: Seq<char>, tag: Seq<char>) -> Seq<char> {
    "ignored unknown status widget '"@ + id + "'("@ + tag + ")"@
}

pub open spec fn duplicate_widget_msg(id: Seq<char>, tag: Seq<char>) -> Seq<char> {
    "ignored duplicate status widget '"@ + id + "'("@ + tag + ")"@
}

/// One stored placement taken into (placements by id, ids seen, warnings).
pub open spec fn sanitize_step(
    reg: Seq<DefModel>,
    st: (Seq<PlacementModel>, Seq<Seq<char>>, Seq<Seq<char>>),
    p: PlacementModel,
) -> (Seq<PlacementModel>, Seq<Seq<char>>, Seq<Seq<char>>) {
    let (m, seen, w) = st;
    let id = widget_id_spec(p.widget_id);
    if id.len() == 0 {
        (m, seen, w.push("ignored placement with empty widget_id"@))
    } else if reg_find(reg, widget_id_spec(id)) is None {
        (m, seen, w.push(unknown_widget_msg(id, "v2"@)))
    } else if seen.contains(id) {
        (m, seen, w.push(duplicate_widget_msg(id, "v2"@)))
    } else {
        (apply_update(m, id, p), seen.push(id), w)
    }
}

pub open spec fn sanitize_fold(
    reg: Seq<DefModel>,
    st: (Seq<PlacementModel>, Seq<Seq<char>>, Seq<Seq<char>>),
    ps: Seq<PlacementModel>,
) -> (Seq<PlacementModel>, Seq<Seq<char>>, Seq<Seq<char>>)
    decreases ps.len(),
{
    if ps.len() == 0 {
        st
    } else {
        sanitize_step(reg, sanitize_fold(reg, st, ps.drop_last()), ps.last())
    }
}

/// A stored layout made whole against the registry: every registered widget
/// once, at its default place unless the first valid stored placement for
/// it says otherwise; unknown, empty and repeated ids are dropped with a
/// warning; orders renumbered per strip. Returns the placements and the
/// warnings.
pub open spec fn sanitized(reg: Seq<DefModel>, ps: Seq<PlacementModel>) -> (
    Seq<PlacementModel>,
    Seq<Seq<char>>,
) {
    let st = sanitize_fold(
        reg,
        (by_id(default_placements(reg)), Seq::empty(), Seq::empty()),
        ps,
    );
    (normalized_orders(st.0), st.2)
}

/// The index of the first placement with the given widget id.
fn find_placement(v: &Vec<StatusStripPlacement>, id: &str) -> (r: Option<usize>)
    ensures
        match r {
            Some(i) => i < v.len() && pl_find(pls(v@), id@) == Some(i as int),
            None => pl_find(pls(v@), id@) is None,
        },
{
    let ghost m = pls(v@);
    let mut i: usize = 0;
    while i < v.len()
        invariant
            i <= v.len(),
            m == pls(v@),
            pl_find(m, id@) == first_from(i as int, m.len() as int, pl_id_is(m, id@)),
        decreases v.len() - i,
    {
        if str_eq(v[i].widget_id.as_str(), id) {
            return Some(i);
        }
        i += 1;
    }
    None
}

fn id_insert_index(v: &Vec<StatusStripPlacement>, id: &str) -> (r: usize)
    ensures
        r as int == pl_id_insert_pos(pls(v@), id@),
        r <= v.len(),
{
    let ghost m = pls(v@);
    let mut j: usize = 0;
    while j < v.len()
        invariant
            j <= v.len(),
            m == pls(v@),
            first_from(0, m.len() as int, pl_id_after(m, id@)) == first_from(
                j as int,
                m.len() as int,
                pl_id_after(m, id@),
            ),
        decreases v.len() - j,
    {
        if order_strings(v[j].widget_id.as_str(), id) > 0 {
            return j;
        }
        j += 1;
    }
    j
}

fn put_placement(m: &mut Vec<StatusStripPlacement>, p: StatusStripPlacement)
    ensures
        pls(final(m)@) == put_by_id(pls(old(m)@), p@),
{
    let ghost prev = pls(m@);
    let ghost pv = p@;
    match find_placement(m, p.widget_id.as_str()) {
        Some(i) => {
            m.set(i, p);
            assert(pls(m@) =~= prev.update(i as int, pv));
        },
        None => {
            let j = id_insert_index(m, p.widget_id.as_str());
            m.insert(j, p);
            assert(pls(m@) =~= prev.insert(j as int, pv));
        },
    }
}

fn update_placement(m: &mut Vec<StatusStripPlacement>, id: &str, p: &StatusStripPlacement)
    ensures
        pls(final(m)@) == apply_update(pls(old(m)@), id@, p@),
{
    let ghost prev = pls(m@);
    match find_placement(m, id) {
        Some(i) => {
            let mut q = clone_placement(&m[i]);
            q.position = p.position;
            q.order = p.order;
            q.enabled = p.enabled;
            let ghost qv = q@;
            m.set(i, q);
            assert(pls(m@) =~= prev.update(i as int, qv));
        },
        None => {},
    }
}

/// Whether `id` is one of `v`.
fn holds_string(v: &Vec<String>, id: &str) -> (r: bool)
    ensures
        r == sv(v@).contains(id@),
{
    let mut i: usize = 0;
    while i < v.len()
        invariant
            i <= v.len(),
            forall|k: int| 0 <= k < i ==> sv(v@)[k] != id@,
        decreases v.len() - i,
    {
        if str_eq(v[i].as_str(), id) {
            assert(sv(v@)[i as int] == id@);
            return true;
        }
        i += 1;
    }
    proof {
        if sv(v@).contains(id@) {
            let k = choose|k: int| 0 <= k < sv(v@).len() && sv(v@)[k] == id@;
            assert(sv(v@)[k] != id@);
        }
    }
    false
}

fn widget_msg(head: &str, id: &str, tag: &str) -> (r: String)
    ensures
        r@ == head@ + id@ + "'("@ + tag@ + ")"@,
{
    let mut r = concat(head, id);
    push_str(&mut r, "'(");
    push_str(&mut r, tag);
    push_str(&mut r, ")");
    r
}

fn push_string(v: &mut Vec<String>, s: String)
    ensures
        sv(final(v)@) == sv(old(v)@).push(s@),
{
    let ghost prev = v@;
    v.push(s);
    assert(sv(v@) =~= sv(prev).push(s@));
}

fn sanitize_store(
    store: &StatusStripStore,
    registry: &StatusWidgetRegistry,
    warnings: &mut Vec<String>,
) -> (r: StatusStripStore)
    ensures
        r.schema_version == STATUS_STRIP_SCHEMA_VERSION,
        pls(r.placements@) == sanitized(registry@, pls(store.placements@)).0,
        sv(final(warnings)@) == sv(old(warnings)@) + sanitized(
            registry@,
            pls(store.placements@),
        ).1,
{
    let ghost reg = registry@;
    let defaults = default_status_strip_store(registry);
    let ghost dp = pls(defaults.placements@);
    let mut m: Vec<StatusStripPlacement> = Vec::new();
    let mut i: usize = 0;
    while i < defaults.placements.len()
        invariant
            i <= defaults.placements.len(),
            dp == pls(defaults.placements@),
            pls(m@) == by_id(dp.take(i as int)),
        decreases defaults.placements.len() - i,
    {
        assert(dp.take(i + 1).drop_last() =~= dp.take(i as int));
        assert(dp.take(i + 1).last() == dp[i as int]);
        put_placement(&mut m, clone_placement(&defaults.placements[i]));
        i += 1;
    }
    assert(dp.take(defaults.placements.len() as int) =~= dp);
    let ghost base = pls(m@);
    let ghost sp = pls(store.placements@);
    let mut seen: Vec<String> = Vec::new();
    let mut w: Vec<String> = Vec::new();
    let mut k: usize = 0;
    assert(sv(seen@) =~= Seq::<Seq<char>>::empty());
    assert(sv(w@) =~= Seq::<Seq<char>>::empty());
    while k < store.placements.len()
        invariant
            k <= store.placements.len(),
            sp == pls(store.placements@),
            reg == registry@,
            (pls(m@), sv(seen@), sv(w@)) == sanitize_fold(
                reg,
                (base, Seq::empty(), Seq::empty()),
                sp.take(k as int),
            ),
        decreases store.placements.len() - k,
    {
        assert(sp.take(k + 1).drop_last() =~= sp.take(k as int));
        assert(sp.take(k + 1).last() == sp[k as int]);
        let p = &store.placements[k];
        let id = normalize_widget_id(p.widget_id.as_str());
        if id.as_str().is_empty() {
            push_string(&mut w, copy_string("ignored placement with empty widget_id"));
        } else if !registry.contains(id.as_str()) {
            push_string(&mut w, widget_msg("ignored unknown status widget '", id.as_str(), "v2"));
        } else if holds_string(&seen, id.as_str()) {
            push_string(
                &mut w,
                widget_msg("ignored duplicate status widget '", id.as_str(), "v2"),
            );
        } else {
            update_placement(&mut m, id.as_str(), p);
            push_string(&mut seen, id);
        }
        k += 1;
    }
    assert(sp.take(store.placements.len() as int) =~= sp);
    normalize_orders(&mut m);
    let ghost before = sv(warnings@);
    let mut j: usize = 0;
    while j < w.len()
        invariant
            j <= w.len(),
            sv(warnings@) == before + sv(w@).take(j as int),
        decreases w.len() - j,
    {
        assert(sv(w@).take(j + 1) =~= sv(w@).take(j as int).push(w@[j as int]@));
        push_string(warnings, copy_string(w[j].as_str()));
        j += 1;
    }
    assert(sv(w@).take(w.len() as int) =~= sv(w@));
    StatusStripStore { schema_version: STATUS_STRIP_SCHEMA_VERSION, placements: m }
}

// ---------------------------------------------------------------------------
// Editing a store
// ---------------------------------------------------------------------------

pub open spec fn not_found_msg(widget_id: Seq<char>) -> Seq<char> {
    "status widget '"@ + trim(widget_id) + "' not found"@
}

/// What `set_widget_enabled` leaves: `None` when the widget is not placed.
pub open spec fn set_enabled_spec(
    reg: Seq<DefModel>,
    ps: Seq<PlacementModel>,
    widget_id: Seq<char>,
    enabled: bool,
) -> Option<Seq<PlacementModel>> {
    let n = sanitized(reg, ps).0;
    match pl_find(n, widget_id_spec(widget_id)) {
        Some(i) => Some(n.update(i, PlacementModel { enabled, ..n[i] })),
        None => None,
    }
}

/// Shows or hides a widget. The store is left sanitized on success and
/// unchanged when the widget is not placed.
pub fn set_widget_enabled(
    store: &mut StatusStripStore,
    widget_id: &str,
    enabled: bool,
    registry: &StatusWidgetRegistry,
) -> (r: Result<(), String>)
    ensures
        match set_enabled_spec(registry@, pls(old(store).placements@), widget_id@, enabled) {
            Some(ps) => r is Ok && final(store).schema_version == STATUS_STRIP_SCHEMA_VERSION
                && pls(final(store).placements@) == ps,
            None => crate::annotations::result_view(r) == Err::<(), Seq<char>>(
                not_found_msg(widget_id@),
            ) && *final(store) == *old(store),
        },
{
    let target_id = normalize_widget_id(widget_id);
    let mut warnings: Vec<String> = Vec::new();
    let mut normalized = sanitize_store(store, registry, &mut warnings);
    let ghost n = pls(normalized.placements@);
    match find_placement(&normalized.placements, target_id.as_str()) {
        Some(i) => {
            let mut q = clone_placement(&normalized.placements[i]);
            q.enabled = enabled;
            let ghost qv = q@;
            normalized.placements.set(i, q);
            assert(pls(normalized.placements@) =~= n.update(i as int, qv));
            *store = normalized;
            Ok(())
        },
        None => {
            let t = trim_str(widget_id);
            let mut msg = concat("status widget '", t.as_str());
            push_str(&mut msg, "' not found");
            Err(msg)
        },
    }
}

/// The ids placed in one strip, in order.
pub open spec fn ids_in(ps: Seq<PlacementModel>, pos: StripPosition) -> Seq<Seq<char>>
    decreases ps.len(),
{
    if ps.len() == 0 {
        Seq::empty()
    } else if ps.last().position == pos {
        ids_in(ps.drop_last(), pos).push(ps.last().widget_id)
    } else {
        ids_in(ps.drop_last(), pos)
    }
}

pub open spec fn str_is(ids: Seq<Seq<char>>, t: Seq<char>) -> spec_fn(int) -> bool {
    |i: int| ids[i] == t
}

/// `ids` without its first `t`, and whether there was one.
pub open spec fn remove_first(ids: Seq<Seq<char>>, t: Seq<char>) -> (Seq<Seq<char>>, bool) {
    match first_from(0, ids.len() as int, str_is(ids, t)) {
        Some(i) => (ids.remove(i), true),
        None => (ids, false),
    }
}

/// The visibility of the last placement under `id`.
pub open spec fn last_enabled(ps: Seq<PlacementModel>, id: Seq<char>) -> Option<bool>
    decreases ps.len(),
{
    if ps.len() == 0 {
        None
    } else if ps.last().widget_id == id {
        Some(ps.last().enabled)
    } else {
        last_enabled(ps.drop_last(), id)
    }
}

/// The ids of one strip placed in order, each keeping its visibility in `n`.
pub open spec fn positioned(n: Seq<PlacementModel>, ids: Seq<Seq<char>>, pos: StripPosition) -> Seq<
    PlacementModel,
> {
    Seq::new(
        ids.len(),
        |i: int|
            PlacementModel {
                widget_id: ids[i],
                position: pos,
                order: i as u16,
                enabled: match last_enabled(n, ids[i]) {
                    Some(b) => b,
                    None => true,
                },
            },
    )
}

pub open spec fn insert_clamped(ids: Seq<Seq<char>>, index: int, t: Seq<char>) -> Seq<Seq<char>> {
    ids.insert(if index < ids.len() { index } else { ids.len() as int }, t)
}

/// What `move_widget_slot` leaves: `None` when the widget is not placed.
pub open spec fn move_spec(
    reg: Seq<DefModel>,
    ps: Seq<PlacementModel>,
    widget_id: Seq<char>,
    pos: StripPosition,
    index: int,
) -> Option<Seq<PlacementModel>> {
    let n = sanitized(reg, ps).0;
    let t = widget_id_spec(widget_id);
    let (top, from_top) = remove_first(ids_in(n, StripPosition::Top), t);
    let (bottom, from_bottom) = if from_top {
        (ids_in(n, StripPosition::Bottom), false)
    } else {
        remove_first(ids_in(n, StripPosition::Bottom), t)
    };
    if !from_top && !from_bottom {
        None
    } else {
        let top2 = if pos == StripPosition::Top {
            insert_clamped(top, index, t)
        } else {
            top
        };
        let bottom2 = if pos == StripPosition::Bottom {
            insert_clamped(bottom, index, t)
        } else {
            bottom
        };
        Some(positioned(n, top2, StripPosition::Top) + positioned(n, bottom2, StripPosition::Bottom))
    }
}

fn strip_ids(v: &Vec<StatusStripPlacement>, pos: StripPosition) -> (r: Vec<String>)
    ensures
        sv(r@) == ids_in(pls(v@), pos),
{
    let ghost m = pls(v@);
    let mut r: Vec<String> = Vec::new();
    let mut i: usize = 0;
    while i < v.len()
        invariant
            i <= v.len(),
            m == pls(v@),
            sv(r@) == ids_in(m.take(i as int), pos),
        decreases v.len() - i,
    {
        assert(m.take(i + 1).drop_last() =~= m.take(i as int));
        assert(m.take(i + 1).last() == m[i as int]);
        if v[i].position == pos {
            push_string(&mut r, v[i].widget_id.clone());
        }
        i += 1;
    }
    assert(m.take(v.len() as int) =~= m);
    r
}

fn remove_widget(ids: &mut Vec<String>, target_id: &str) -> (r: bool)
    ensures
        (sv(final(ids)@), r) == remove_first(sv(old(ids)@), target_id@),
{
    let ghost s = sv(ids@);
    let mut i: usize = 0;
    while i < ids.len()
        invariant
            i <= ids.len(),
            s == sv(ids@),
            ids@ == old(ids)@,
            first_from(0, s.len() as int, str_is(s, target_id@)) == first_from(
                i as int,
                s.len() as int,
                str_is(s, target_id@),
            ),
        decreases ids.len() - i,
    {
        if str_eq(ids[i].as_str(), target_id) {
            assert(str_is(s, target_id@)(i as int));
            let ghost prev = ids@;
            ids.remove(i);
            assert(sv(ids@) =~= sv(prev).remove(i as int));
            return true;
        }
        i += 1;
    }
    false
}

fn enabled_of(v: &Vec<StatusStripPlacement>, id: &str) -> (r: bool)
    ensures
        r == match last_enabled(pls(v@), id@) {
            Some(b) => b,
            None => true,
        },
{
    let ghost m = pls(v@);
    let mut found: Option<bool> = None;
    let mut i: usize = 0;
    while i < v.len()
        invariant
            i <= v.len(),
            m == pls(v@),
            found == last_enabled(m.take(i as int), id@),
        decreases v.len() - i,
    {
        assert(m.take(i + 1).drop_last() =~= m.take(i as int));
        assert(m.take(i + 1).last() == m[i as int]);
        if str_eq(v[i].widget_id.as_str(), id) {
            found = Some(v[i].enabled);
        }
        i += 1;
    }
    assert(m.take(v.len() as int) =~= m);
    match found {
        Some(b) => b,
        None => true,
    }
}

fn append_positions(
    placements: &mut Vec<StatusStripPlacement>,
    ids: &Vec<String>,
    position: StripPosition,
    normalized: &Vec<StatusStripPlacement>,
)
    ensures
        pls(final(placements)@) == pls(old(placements)@) + positioned(
            pls(normalized@),
            sv(ids@),
            position,
        ),
{
    let ghost start = pls(placements@);
    let ghost full = positioned(pls(normalized@), sv(ids@), position);
    let mut index: usize = 0;
    while index < ids.len()
        invariant
            index <= ids.len(),
            full == positioned(pls(normalized@), sv(ids@), position),
            pls(placements@) == start + full.take(index as int),
        decreases ids.len() - index,
    {
        let p = StatusStripPlacement {
            widget_id: ids[index].clone(),
            position,
            order: index as u16,
            enabled: enabled_of(normalized, ids[index].as_str()),
        };
        let ghost prev = placements@;
        placements.push(p);
        assert(full.take(index + 1) =~= full.take(index as int).push(full[index as int]));
        assert(pls(placements@) =~= pls(prev).push(p@));
        index += 1;
    }
    assert(full.take(ids.len() as int) =~= full);
}

/// Moves a widget to `new_index` of a strip (clamped to its end). The store
/// is left sanitized and renumbered on success and unchanged when the widget
/// is not placed.
pub fn move_widget_slot(
    store: &mut StatusStripStore,
    widget_id: &str,
    new_position: StripPosition,
    new_index: usize,
    registry: &StatusWidgetRegistry,
) -> (r: Result<(), String>)
    ensures
        match move_spec(
            registry@,
            pls(old(store).placements@),
            widget_id@,
            new_position,
            new_index as int,
        ) {
            Some(ps) => r is Ok && final(store).schema_version == STATUS_STRIP_SCHEMA_VERSION
                && pls(final(store).placements@) == ps,
            None => crate::annotations::result_view(r) == Err::<(), Seq<char>>(
                not_found_msg(widget_id@),
            ) && *final(store) == *old(store),
        },
{
    let mut warnings: Vec<String> = Vec::new();
    let normalized = sanitize_store(store, registry, &mut warnings);
    let target_id = normalize_widget_id(widget_id);
    let mut top_ids = strip_ids(&normalized.placements, StripPosition::Top);
    let mut bottom_ids = strip_ids(&normalized.placements, StripPosition::Bottom);
    let removed = remove_widget(&mut top_ids, target_id.as_str()) || remove_widget(
        &mut bottom_ids,
        target_id.as_str(),
    );
    if !removed {
        let t = trim_str(widget_id);
        let mut msg = concat("status widget '", t.as_str());
        push_str(&mut msg, "' not found");
        return Err(msg);
    }
    match new_position {
        StripPosition::Top => {
            let clamped = if new_index < top_ids.len() {
                new_index
            } else {
                top_ids.len()
            };
            let ghost prev = top_ids@;
            top_ids.insert(clamped, target_id);
            assert(sv(top_ids@) =~= sv(prev).insert(clamped as int, target_id@));
        },
        StripPosition::Bottom => {
            let clamped = if new_index < bottom_ids.len() {
                new_index
            } else {
                bottom_ids.len()
            };
            let ghost prev = bottom_ids@;
            bottom_ids.insert(clamped, target_id);
            assert(sv(bottom_ids@) =~= sv(prev).insert(clamped as int, target_id@));
        },
    }
    let mut placements: Vec<StatusStripPlacement> = Vec::new();
    assert(pls(placements@) =~= Seq::<PlacementModel>::empty());
    append_positions(&mut placements, &top_ids, StripPosition::Top, &normalized.placements);
    append_positions(&mut placements, &bottom_ids, StripPosition::Bottom, &normalized.placements);
    store.schema_version = STATUS_STRIP_SCHEMA_VERSION;
    store.placements = placements;
    Ok(())
}

// ---------------------------------------------------------------------------
// Plans and rendering
// ---------------------------------------------------------------------------

/// The title a slot shows: the registered title, else the widget id.
pub open spec fn slot_title(reg: Seq<DefModel>, id: Seq<char>) -> Seq<char> {
    match reg_find(reg, widget_id_spec(id)) {
        Some(i) => reg[i].title,
        None => id,
    }
}

/// The visible placements, in order, as (top slots, bottom slots).
pub open spec fn plan_fold(reg: Seq<DefModel>, ps: Seq<PlacementModel>) -> (Seq<SlotModel>, Seq<
    SlotModel,
>)
    decreases ps.len(),
{
    if ps.len() == 0 {
        (Seq::empty(), Seq::empty())
    } else {
        let (top, bottom) = plan_fold(reg, ps.drop_last());
        let p = ps.last();
        if !p.enabled {
            (top, bottom)
        } else {
            let title = slot_title(reg, p.widget_id);
            match p.position {
                StripPosition::Top => (
                    top.push(SlotModel { slot: top.len() as usize, widget_id: p.widget_id, title }),
                    bottom,
                ),
                StripPosition::Bottom => (
                    top,
                    bottom.push(
                        SlotModel { slot: bottom.len() as usize, widget_id: p.widget_id, title },
                    ),
                ),
            }
        }
    }
}

/// The plan of a store: its sanitized visible placements in slots.
pub open spec fn plan_spec(reg: Seq<DefModel>, ps: Seq<PlacementModel>) -> (Seq<SlotModel>, Seq<
    SlotModel,
>) {
    plan_fold(reg, sanitized(reg, ps).0)
}

fn push_slot(v: &mut Vec<StatusStripSlot>, s: StatusStripSlot)
    ensures
        slots_view(final(v)@) == slots_view(old(v)@).push(s@),
{
    let ghost prev = v@;
    v.push(s);
    assert(slots_view(v@) =~= slots_view(prev).push(s@));
}

pub fn build_status_strip_plan(store: &StatusStripStore, registry: &StatusWidgetRegistry) -> (r:
    StatusStripPlan)
    ensures
        (slots_view(r.top_slots@), slots_view(r.bottom_slots@)) == plan_spec(
            registry@,
            pls(store.placements@),
        ),
{
    let mut warnings: Vec<String> = Vec::new();
    let normalized = sanitize_store(store, registry, &mut warnings);
    let ghost n = pls(normalized.placements@);
    let mut top_slots: Vec<StatusStripSlot> = Vec::new();
    let mut bottom_slots: Vec<StatusStripSlot> = Vec::new();
    let mut i: usize = 0;
    while i < normalized.placements.len()
        invariant
            i <= normalized.placements.len(),
            n == pls(normalized.placements@),
            (slots_view(top_slots@), slots_view(bottom_slots@)) == plan_fold(
                registry@,
                n.take(i as int),
            ),
        decreases normalized.placements.len() - i,
    {
        assert(n.take(i + 1).drop_last() =~= n.take(i as int));
        assert(n.take(i + 1).last() == n[i as int]);
        let placement = &normalized.placements[i];
        if placement.enabled {
            let title = match registry.definition(placement.widget_id.as_str()) {
                Some(definition) => definition.title.clone(),
                None => placement.widget_id.clone(),
            };
            match placement.position {
                StripPosition::Top => {
                    let slot = top_slots.len();
                    push_slot(
                        &mut top_slots,
                        StatusStripSlot { slot, widget_id: placement.widget_id.clone(), title },
                    );
                },
                StripPosition::Bottom => {
                    let slot = bottom_slots.len();
                    push_slot(
                        &mut bottom_slots,
                        StatusStripSlot { slot, widget_id: placement.widget_id.clone(), title },
                    );
                },
            }
        }
        i += 1;
    }
    assert(n.take(normalized.placements.len() as int) =~= n);
    StatusStripPlan { top_slots, bottom_slots }
}

/// The text of a map of runtime widget values, by widget id.
pub uninterp spec fn widget_values_view(m: BTreeMap<String, String>) -> Map<Seq<char>, Seq<char>>;

/// `BTreeMap::get` on the runtime widget values: the value stored under
/// exactly `key`, or nothing when no entry has that key. (vstd states `get`
/// only for keys whose ordering it knows, which does not include `String`.)
#[verifier::external_body]
fn lookup_value<'a>(values: &'a BTreeMap<String, String>, key: &str) -> (r: Option<&'a String>)
    ensures
        match r {
            Some(v) => widget_values_view(*values).contains_key(key@) && widget_values_view(
                *values,
            )[key@] == v@,
            None => !widget_values_view(*values).contains_key(key@),
        },
{
    values.get(key)
}

/// What a slot shows: its runtime value trimmed, else its title.
pub open spec fn slot_label(values: Map<Seq<char>, Seq<char>>, s: SlotModel) -> Seq<char> {
    if values.contains_key(s.widget_id) && trim(values[s.widget_id]).len() > 0 {
        trim(values[s.widget_id])
    } else {
        s.title
    }
}

pub open spec fn segments(values: Map<Seq<char>, Seq<char>>, slots: Seq<SlotModel>) -> Seq<
    Seq<char>,
> {
    slots.map_values(|s: SlotModel| "["@ + slot_label(values, s) + "]"@)
}

/// The length in UTF-8 bytes, as `str::len` reports it.
pub open spec fn byte_len(s: Seq<char>) -> usize {
    vstd::utf8::encode_utf8(s).len() as usize
}

pub open spec fn truncate_spec(line: Seq<char>, width: int) -> Seq<char> {
    if width <= 0 {
        Seq::empty()
    } else if width <= 3 {
        take_upto(line, width)
    } else {
        take_upto(line, width - 3) + "..."@
    }
}

pub open spec fn pad_spec(line: Seq<char>, width: int) -> Seq<char> {
    if byte_len(line) >= width {
        line
    } else {
        line + Seq::new((width - byte_len(line)) as nat, |i: int| ' ')
    }
}

/// One strip as text of `width`: `[label]` segments joined by spaces, cut
/// with `...` when longer than `width` bytes, else padded with spaces.
pub open spec fn render_spec(
    slots: Seq<SlotModel>,
    values: Map<Seq<char>, Seq<char>>,
    width: int,
) -> Seq<char> {
    if width == 0 {
        Seq::empty()
    } else {
        let line = join(segments(values, slots), " "@);
        if byte_len(line) > width {
            truncate_spec(line, width)
        } else {
            pad_spec(line, width)
        }
    }
}

fn truncate_with_ellipsis(line: &str, width: usize) -> (r: String)
    ensures
        r@ == truncate_spec(line@, width as int),
{
    if width == 0 {
        return String::new();
    }
    if width <= 3 {
        return take_chars(line, width);
    }
    let mut out = take_chars(line, width - 3);
    push_str(&mut out, "...");
    out
}

fn pad_to_width(line: String, width: usize) -> (r: String)
    ensures
        r@ == pad_spec(line@, width as int),
{
    let n = line.as_str().len();
    if n >= width {
        return line;
    }
    let mut out = line;
    let ghost start = out@;
    let mut k: usize = 0;
    while k < width - n
        invariant
            k <= width - n,
            out@ == start + Seq::new(k as nat, |i: int| ' '),
        decreases width - n - k,
    {
        push_char(&mut out, ' ');
        k += 1;
        assert(out@ =~= start + Seq::new(k as nat, |i: int| ' '));
    }
    out
}

pub fn render_status_strip_line(
    plan: &StatusStripPlan,
    position: StripPosition,
    widget_values: &BTreeMap<String, String>,
    width: usize,
) -> (r: String)
    ensures
        r@ == render_spec(
            match position {
                StripPosition::Top => slots_view(plan.top_slots@),
                StripPosition::Bottom => slots_view(plan.bottom_slots@),
            },
            widget_values_view(*widget_values),
            width as int,
        ),
{
    if width == 0 {
        return String::new();
    }
    let slots = match position {
        StripPosition::Top => &plan.top_slots,
        StripPosition::Bottom => &plan.bottom_slots,
    };
    let ghost values = widget_values_view(*widget_values);
    let ghost all = segments(values, slots_view(slots@));
    let mut segs: Vec<String> = Vec::new();
    let mut i: usize = 0;
    while i < slots.len()
        invariant
            i <= slots.len(),
            values == widget_values_view(*widget_values),
            all == segments(values, slots_view(slots@)),
            sv(segs@) == all.take(i as int),
        decreases slots.len() - i,
    {
        let slot = &slots[i];
        let mut label = copy_string(slot.title.as_str());
        match lookup_value(widget_values, slot.widget_id.as_str()) {
            Some(v) => {
                let t = trim_str(v.as_str());
                if !t.as_str().is_empty() {
                    label = t;
                }
            },
            None => {},
        }
        let mut seg = concat("[", label.as_str());
        push_str(&mut seg, "]");
        assert(all.take(i + 1) =~= all.take(i as int).push(all[i as int]));
        push_string(&mut segs, seg);
        i += 1;
    }
    assert(all.take(slots.len() as int) =~= all);
    let line = join_strings(&segs, " ");
    if line.as_str().len() > width {
        truncate_with_ellipsis(line.as_str(), width)
    } else {
        pad_to_width(line, width)
    }
}

// ---------------------------------------------------------------------------
// Stored state as JSON
// ---------------------------------------------------------------------------

/// The normalized, non-empty widget ids among the strings of a JSON array.
pub open spec fn listed_ids(values: Seq<JsonValue>) -> Seq<Seq<char>>
    decreases values.len(),
{
    if values.len() == 0 {
        Seq::empty()
    } else {
        let rest = listed_ids(values.drop_last());
        match values.last() {
            JsonValue::Str(s) => if widget_id_spec(s@).len() > 0 {
                rest.push(widget_id_spec(s@))
            } else {
                rest
            },
            _ => rest,
        }
    }
}

/// The first placement under `id` moves to `pos` at `order`.
pub open spec fn set_place(m: Seq<PlacementModel>, id: Seq<char>, pos: StripPosition, order: u16) -> Seq<
    PlacementModel,
> {
    match pl_find(m, id) {
        Some(i) => m.update(i, PlacementModel { position: pos, order, ..m[i] }),
        None => m,
    }
}

/// The listed ids of one strip of a first-version state taken in turn into
/// (placements, ids seen, warnings); each known id gets its index in the list.
pub open spec fn listed_fold(
    reg: Seq<DefModel>,
    st: (Seq<PlacementModel>, Seq<Seq<char>>, Seq<Seq<char>>),
    ids: Seq<Seq<char>>,
    pos: StripPosition,
) -> (Seq<PlacementModel>, Seq<Seq<char>>, Seq<Seq<char>>)
    decreases ids.len(),
{
    if ids.len() == 0 {
        st
    } else {
        let (m, seen, w) = listed_fold(reg, st, ids.drop_last(), pos);
        let id = ids.last();
        let idx = ids.len() - 1;
        if reg_find(reg, widget_id_spec(id)) is None {
            (m, seen, w.push(unknown_widget_msg(id, "v1"@)))
        } else if seen.contains(id) {
            (m, seen, w.push(duplicate_widget_msg(id, "v1"@)))
        } else {
            (set_place(m, id, pos, idx as u16), seen.push(id), w)
        }
    }
}

pub open spec fn apply_listed(
    reg: Seq<DefModel>,
    m: Seq<PlacementModel>,
    w: Seq<Seq<char>>,
    v: Option<JsonValue>,
    pos: StripPosition,
) -> (Seq<PlacementModel>, Seq<Seq<char>>) {
    match v {
        Some(JsonValue::Array(a)) => {
            let st = listed_fold(reg, (m, Seq::empty(), w), listed_ids(a@), pos);
            (st.0, st.2)
        },
        _ => (m, w),
    }
}

/// Placements whose id is listed are hidden.
pub open spec fn disable_listed(m: Seq<PlacementModel>, ids: Seq<Seq<char>>) -> Seq<PlacementModel> {
    m.map_values(
        |p: PlacementModel|
            if ids.contains(p.widget_id) {
                PlacementModel { enabled: false, ..p }
            } else {
                p
            },
    )
}

/// A first-version state (`top`, `bottom` and `disabled` id lists) laid over
/// the default store, with its warnings.
pub open spec fn parse_v1_spec(reg: Seq<DefModel>, v: JsonValue) -> (Seq<PlacementModel>, Seq<
    Seq<char>,
>) {
    match v {
        JsonValue::Object(_) => {
            let (m1, w1) = apply_listed(
                reg,
                default_placements(reg),
                Seq::empty(),
                json_get(v, "top"@),
                StripPosition::Top,
            );
            let (m2, w2) = apply_listed(reg, m1, w1, json_get(v, "bottom"@), StripPosition::Bottom);
            let m3 = match json_get(v, "disabled"@) {
                Some(JsonValue::Array(a)) => disable_listed(m2, listed_ids(a@)),
                _ => m2,
            };
            (m3, w2)
        },
        _ => (default_placements(reg), seq!["v1 status strip state was not an object; defaults applied"@]),
    }
}

/// One stored placement object, or the warning it gives.
pub open spec fn parse_placement(v: JsonValue) -> Result<PlacementModel, Seq<char>> {
    match v {
        JsonValue::Object(_) => {
            let id = match json_get(v, "widget_id"@) {
                Some(JsonValue::Str(s)) => widget_id_spec(s@),
                _ => Seq::empty(),
            };
            if id.len() == 0 {
                Err("ignored placement with empty widget_id"@)
            } else {
                let position = match json_get(v, "position"@) {
                    Some(JsonValue::Str(s)) => match StripPosition::from_slug_spec(s@) {
                        Some(p) => p,
                        None => StripPosition::Bottom,
                    },
                    _ => StripPosition::Bottom,
                };
                let order = match json_get(v, "order"@) {
                    Some(JsonValue::UInt(n)) => n as u16,
                    _ => 0u16,
                };
                let enabled = match json_get(v, "enabled"@) {
                    Some(JsonValue::Bool(b)) => b,
                    _ => true,
                };
                Ok(PlacementModel { widget_id: id, position, order, enabled })
            }
        },
        _ => Err("ignored malformed placement entry (not object)"@),
    }
}

pub open spec fn parse_placements_spec(values: Seq<JsonValue>) -> (Seq<PlacementModel>, Seq<
    Seq<char>,
>)
    decreases values.len(),
{
    if values.len() == 0 {
        (Seq::empty(), Seq::empty())
    } else {
        let (ps, w) = parse_placements_spec(values.drop_last());
        match parse_placement(values.last()) {
            Ok(p) => (ps.push(p), w),
            Err(msg) => (ps, w.push(msg)),
        }
    }
}

/// A current-version state (a `placements` list) with its warnings.
pub open spec fn parse_v2_spec(reg: Seq<DefModel>, v: JsonValue) -> (Seq<PlacementModel>, Seq<
    Seq<char>,
>) {
    match v {
        JsonValue::Object(_) => match json_get(v, "placements"@) {
            Some(JsonValue::Array(a)) => parse_placements_spec(a@),
            _ => (Seq::empty(), Seq::empty()),
        },
        _ => (default_placements(reg), seq!["status strip state was not an object; defaults applied"@]),
    }
}

/// The schema version a state declares; 1 when it declares none.
pub open spec fn schema_of(v: JsonValue) -> u32 {
    match json_get(v, "schema_version"@) {
        Some(JsonValue::UInt(n)) => n as u32,
        _ => 1u32,
    }
}

pub open spec fn invalid_json_msg(err: Seq<char>) -> Seq<char> {
    "invalid json; status strip defaults restored ("@ + err + ")"@
}

pub open spec fn unknown_schema_msg(schema: u32) -> Seq<char> {
    "unknown schema_version="@ + dec(schema as nat) + "; parsed as v2"@
}

/// What restoring a stored state gives: (placements, migrated, warnings).
/// `None` stands for a blank state, `Some(Err(..))` for text that is not JSON.
pub open spec fn restore_spec(reg: Seq<DefModel>, parsed: Option<Result<JsonValue, String>>) -> (
    Seq<PlacementModel>,
    bool,
    Seq<Seq<char>>,
) {
    match parsed {
        None => (default_placements(reg), false, Seq::empty()),
        Some(Err(e)) => (default_placements(reg), false, seq![invalid_json_msg(e@)]),
        Some(Ok(v)) => {
            let schema = schema_of(v);
            let (ps, migrated, w) = if schema <= 1 {
                let (ps, w) = parse_v1_spec(reg, v);
                (ps, schema != STATUS_STRIP_SCHEMA_VERSION, w)
            } else if schema == STATUS_STRIP_SCHEMA_VERSION {
                let (ps, w) = parse_v2_spec(reg, v);
                (ps, false, w)
            } else {
                let (ps, w) = parse_v2_spec(reg, v);
                (ps, true, seq![unknown_schema_msg(schema)] + w)
            };
            let (n, w2) = sanitized(reg, ps);
            (n, migrated, w + w2)
        },
    }
}

fn listed_id_strings(values: &Vec<JsonValue>) -> (r: Vec<String>)
    ensures
        sv(r@) == listed_ids(values@),
{
    let mut r: Vec<String> = Vec::new();
    let mut i: usize = 0;
    while i < values.len()
        invariant
            i <= values.len(),
            sv(r@) == listed_ids(values@.take(i as int)),
        decreases values.len() - i,
    {
        assert(values@.take(i + 1).drop_last() =~= values@.take(i as int));
        assert(values@.take(i + 1).last() == values@[i as int]);
        match &values[i] {
            JsonValue::Str(s) => {
                let id = normalize_widget_id(s.as_str());
                if !id.as_str().is_empty() {
                    push_string(&mut r, id);
                }
            },
            _ => {},
        }
        i += 1;
    }
    assert(values@.take(values.len() as int) =~= values@);
    r
}

fn place_widget(m: &mut Vec<StatusStripPlacement>, id: &str, pos: StripPosition, order: u16)
    ensures
        pls(final(m)@) == set_place(pls(old(m)@), id@, pos, order),
{
    let ghost prev = pls(m@);
    match find_placement(m, id) {
        Some(i) => {
            let mut q = clone_placement(&m[i]);
            q.position = pos;
            q.order = order;
            let ghost qv = q@;
            m.set(i, q);
            assert(pls(m@) =~= prev.update(i as int, qv));
        },
        None => {},
    }
}

fn apply_position_array(
    m: &mut Vec<StatusStripPlacement>,
    values: &Vec<JsonValue>,
    position: StripPosition,
    registry: &StatusWidgetRegistry,
    warnings: &mut Vec<String>,
)
    ensures
        ({
            let st = listed_fold(
                registry@,
                (pls(old(m)@), Seq::empty(), sv(old(warnings)@)),
                listed_ids(values@),
                position,
            );
            pls(final(m)@) == st.0 && sv(final(warnings)@) == st.2
        }),
{
    let ids = listed_id_strings(values);
    let ghost idv = sv(ids@);
    let ghost start = (pls(m@), Seq::<Seq<char>>::empty(), sv(warnings@));
    let mut seen: Vec<String> = Vec::new();
    assert(sv(seen@) =~= Seq::<Seq<char>>::empty());
    let mut idx: usize = 0;
    while idx < ids.len()
        invariant
            idx <= ids.len(),
            idv == sv(ids@),
            (pls(m@), sv(seen@), sv(warnings@)) == listed_fold(
                registry@,
                start,
                idv.take(idx as int),
                position,
            ),
        decreases ids.len() - idx,
    {
        assert(idv.take(idx + 1).drop_last() =~= idv.take(idx as int));
        assert(idv.take(idx + 1).last() == idv[idx as int]);
        let widget_id = ids[idx].as_str();
        if !registry.contains(widget_id) {
            push_string(warnings, widget_msg("ignored unknown status widget '", widget_id, "v1"));
        } else if holds_string(&seen, widget_id) {
            push_string(
                warnings,
                widget_msg("ignored duplicate status widget '", widget_id, "v1"),
            );
        } else {
            place_widget(m, widget_id, position, idx as u16);
            push_string(&mut seen, copy_string(widget_id));
        }
        idx += 1;
    }
    assert(idv.take(ids.len() as int) =~= idv);
}

fn disable_widgets(m: &mut Vec<StatusStripPlacement>, ids: &Vec<String>)
    ensures
        pls(final(m)@) == disable_listed(pls(old(m)@), sv(ids@)),
{
    let ghost src = pls(m@);
    let ghost target = disable_listed(src, sv(ids@));
    let mut i: usize = 0;
    while i < m.len()
        invariant
            i <= m.len(),
            src.len() == m.len(),
            target == disable_listed(src, sv(ids@)),
            forall|k: int| 0 <= k < i ==> pls(m@)[k] == target[k],
            forall|k: int| i <= k < m.len() ==> pls(m@)[k] == src[k],
        decreases m.len() - i,
    {
        if holds_string(ids, m[i].widget_id.as_str()) {
            let mut q = clone_placement(&m[i]);
            q.enabled = false;
            m.set(i, q);
        }
        i += 1;
    }
    assert(pls(m@) =~= target);
}

fn parse_v1_store(
    value: &JsonValue,
    registry: &StatusWidgetRegistry,
    warnings: &mut Vec<String>,
) -> (r: Vec<StatusStripPlacement>)
    ensures
        pls(r@) == parse_v1_spec(registry@, *value).0,
        sv(final(warnings)@) == sv(old(warnings)@) + parse_v1_spec(registry@, *value).1,
{
    let ghost w0 = sv(warnings@);
    match value {
        JsonValue::Object(_) => {},
        _ => {
            push_string(
                warnings,
                copy_string("v1 status strip state was not an object; defaults applied"),
            );
            assert(sv(warnings@) =~= w0 + seq![
                "v1 status strip state was not an object; defaults applied"@,
            ]);
            return default_status_strip_store(registry).placements;
        },
    }
    let mut m = default_status_strip_store(registry).placements;
    let mut local: Vec<String> = Vec::new();
    assert(sv(local@) =~= Seq::<Seq<char>>::empty());
    match get(value, "top") {
        Some(JsonValue::Array(a)) => {
            apply_position_array(&mut m, a, StripPosition::Top, registry, &mut local);
        },
        _ => {},
    }
    match get(value, "bottom") {
        Some(JsonValue::Array(a)) => {
            apply_position_array(&mut m, a, StripPosition::Bottom, registry, &mut local);
        },
        _ => {},
    }
    match get(value, "disabled") {
        Some(JsonValue::Array(a)) => {
            let ids = listed_id_strings(a);
            disable_widgets(&mut m, &ids);
        },
        _ => {},
    }
    let ghost before = sv(warnings@);
    let mut j: usize = 0;
    while j < local.len()
        invariant
            j <= local.len(),
            sv(warnings@) == before + sv(local@).take(j as int),
        decreases local.len() - j,
    {
        assert(sv(local@).take(j + 1) =~= sv(local@).take(j as int).push(local@[j as int]@));
        push_string(warnings, copy_string(local[j].as_str()));
        j += 1;
    }
    assert(sv(local@).take(local.len() as int) =~= sv(local@));
    m
}

fn parse_one_placement(v: &JsonValue) -> (r: Result<StatusStripPlacement, String>)
    ensures
        match r {
            Ok(p) => parse_placement(*v) == Ok::<PlacementModel, Seq<char>>(p@),
            Err(e) => parse_placement(*v) == Err::<PlacementModel, Seq<char>>(e@),
        },
{
    match v {
        JsonValue::Object(_) => {},
        _ => {
            return Err(copy_string("ignored malformed placement entry (not object)"));
        },
    }
    let widget_id = match get(v, "widget_id") {
        Some(JsonValue::Str(s)) => normalize_widget_id(s.as_str()),
        _ => String::new(),
    };
    if widget_id.as_str().is_empty() {
        return Err(copy_string("ignored placement with empty widget_id"));
    }
    let position = match get(v, "position") {
        Some(JsonValue::Str(s)) => match StripPosition::from_slug(s.as_str()) {
            Some(p) => p,
            None => StripPosition::Bottom,
        },
        _ => StripPosition::Bottom,
    };
    let order: u16 = match get(v, "order") {
        Some(JsonValue::UInt(n)) => *n as u16,
        _ => 0,
    };
    let enabled = match get(v, "enabled") {
        Some(JsonValue::Bool(b)) => *b,
        _ => true,
    };
    Ok(StatusStripPlacement { widget_id, position, order, enabled })
}

fn parse_placements(values: &Vec<JsonValue>, warnings: &mut Vec<String>) -> (r: Vec<
    StatusStripPlacement,
>)
    ensures
        pls(r@) == parse_placements_spec(values@).0,
        sv(final(warnings)@) == sv(old(warnings)@) + parse_placements_spec(values@).1,
{
    let ghost w0 = sv(warnings@);
    let mut placements: Vec<StatusStripPlacement> = Vec::new();
    let mut i: usize = 0;
    while i < values.len()
        invariant
            i <= values.len(),
            pls(placements@) == parse_placements_spec(values@.take(i as int)).0,
            sv(warnings@) == w0 + parse_placements_spec(values@.take(i as int)).1,
        decreases values.len() - i,
    {
        assert(values@.take(i + 1).drop_last() =~= values@.take(i as int));
        assert(values@.take(i + 1).last() == values@[i as int]);
        let ghost wp = parse_placements_spec(values@.take(i as int)).1;
        match parse_one_placement(&values[i]) {
            Ok(p) => {
                let ghost prev = placements@;
                placements.push(p);
                assert(pls(placements@) =~= pls(prev).push(p@));
            },
            Err(msg) => {
                let ghost mv = msg@;
                push_string(warnings, msg);
                assert(w0 + wp.push(mv) =~= (w0 + wp).push(mv));
            },
        }
        i += 1;
    }
    assert(values@.take(values.len() as int) =~= values@);
    placements
}

fn parse_v2_store(
    value: &JsonValue,
    registry: &StatusWidgetRegistry,
    warnings: &mut Vec<String>,
) -> (r: Vec<StatusStripPlacement>)
    ensures
        pls(r@) == parse_v2_spec(registry@, *value).0,
        sv(final(warnings)@) == sv(old(warnings)@) + parse_v2_spec(registry@, *value).1,
{
    let ghost w0 = sv(warnings@);
    match value {
        JsonValue::Object(_) => {},
        _ => {
            push_string(
                warnings,
                copy_string("status strip state was not an object; defaults applied"),
            );
            assert(sv(warnings@) =~= w0 + seq![
                "status strip state was not an object; defaults applied"@,
            ]);
            return default_status_strip_store(registry).placements;
        },
    }
    match get(value, "placements") {
        Some(JsonValue::Array(a)) => parse_placements(a, warnings),
        _ => {
            assert(sv(warnings@) =~= w0 + Seq::<Seq<char>>::empty());
            let r: Vec<StatusStripPlacement> = Vec::new();
            assert(pls(r@) =~= Seq::<PlacementModel>::empty());
            r
        },
    }
}

fn schema_version_of(value: &JsonValue) -> (r: u32)
    ensures
        r == schema_of(*value),
{
    match get(value, "schema_version") {
        Some(JsonValue::UInt(n)) => *n as u32,
        _ => 1,
    }
}

/// Restores a stored layout. `parsed` is `None` for a blank state, else the
/// state read as JSON or the parser's error.
pub fn restore_status_strip_json(
    parsed: Option<Result<JsonValue, String>>,
    registry: &StatusWidgetRegistry,
) -> (r: StatusStripLoadOutcome)
    ensures
        r.store.schema_version == STATUS_STRIP_SCHEMA_VERSION,
        (pls(r.store.placements@), r.migrated, sv(r.warnings@)) == restore_spec(
            registry@,
            parsed,
        ),
{
    let value = match parsed {
        None => {
            let r = StatusStripLoadOutcome {
                store: default_status_strip_store(registry),
                migrated: false,
                warnings: Vec::new(),
            };
            assert(sv(r.warnings@) =~= Seq::<Seq<char>>::empty());
            return r;
        },
        Some(Err(err)) => {
            let mut msg = concat("invalid json; status strip defaults restored (", err.as_str());
            push_str(&mut msg, ")");
            let mut warnings: Vec<String> = Vec::new();
            push_string(&mut warnings, msg);
            assert(sv(warnings@) =~= seq![invalid_json_msg(err@)]);
            return StatusStripLoadOutcome {
                store: default_status_strip_store(registry),
                migrated: false,
                warnings,
            };
        },
        Some(Ok(value)) => value,
    };
    let mut warnings: Vec<String> = Vec::new();
    let ghost w0 = sv(warnings@);
    assert(w0 =~= Seq::<Seq<char>>::empty());
    let schema_version = schema_version_of(&value);
    let parsed_placements;
    let migrated;
    if schema_version <= 1 {
        parsed_placements = parse_v1_store(&value, registry, &mut warnings);
        migrated = schema_version != STATUS_STRIP_SCHEMA_VERSION;
        assert(sv(warnings@) =~= parse_v1_spec(registry@, value).1);
    } else if schema_version == STATUS_STRIP_SCHEMA_VERSION {
        parsed_placements = parse_v2_store(&value, registry, &mut warnings);
        migrated = false;
        assert(sv(warnings@) =~= parse_v2_spec(registry@, value).1);
    } else {
        let mut msg = copy_string("unknown schema_version=");
        let digits = u64_to_string(schema_version as u64);
        push_str(&mut msg, digits.as_str());
        push_str(&mut msg, "; parsed as v2");
        push_string(&mut warnings, msg);
        parsed_placements = parse_v2_store(&value, registry, &mut warnings);
        migrated = true;
        assert(sv(warnings@) =~= seq![unknown_schema_msg(schema_version)] + parse_v2_spec(
            registry@,
            value,
        ).1);
    }
    let parsed_store = StatusStripStore {
        schema_version: STATUS_STRIP_SCHEMA_VERSION,
        placements: parsed_placements,
    };
    let store = sanitize_store(&parsed_store, registry, &mut warnings);
    StatusStripLoadOutcome { store, migrated, warnings }
}

/// A placement as a JSON object with its four members.
pub open spec fn placement_json_is(v: JsonValue, p: PlacementModel) -> bool {
    &&& v matches JsonValue::Object(f)
    &&& f@.len() == 4
    &&& f@[0].0@ == "widget_id"@
    &&& (f@[0].1 matches JsonValue::Str(s) && s@ == p.widget_id)
    &&& f@[1].0@ == "position"@
    &&& (f@[1].1 matches JsonValue::Str(s) && s@ == p.position.slug_spec())
    &&& f@[2].0@ == "order"@ && f@[2].1 == JsonValue::UInt(p.order as u64)
    &&& f@[3].0@ == "enabled"@ && f@[3].1 == JsonValue::Bool(p.enabled)
}

/// A store as JSON: its schema version and its placements.
pub open spec fn store_json_is(v: JsonValue, ps: Seq<PlacementModel>) -> bool {
    &&& v matches JsonValue::Object(f)
    &&& f@.len() == 2
    &&& f@[0].0@ == "schema_version"@
    &&& f@[0].1 == JsonValue::UInt(STATUS_STRIP_SCHEMA_VERSION as u64)
    &&& f@[1].0@ == "placements"@
    &&& f@[1].1 matches JsonValue::Array(a)
    &&& a@.len() == ps.len()
    &&& forall|i: int| 0 <= i < ps.len() ==> placement_json_is(#[trigger] a@[i], ps[i])
}

fn placement_json(p: &StatusStripPlacement) -> (r: JsonValue)
    ensures
        placement_json_is(r, p@),
{
    let mut f: Vec<(String, JsonValue)> = Vec::new();
    f.push((copy_string("widget_id"), JsonValue::Str(p.widget_id.clone())));
    f.push((copy_string("position"), JsonValue::Str(copy_string(p.position.slug()))));
    f.push((copy_string("order"), JsonValue::UInt(p.order as u64)));
    f.push((copy_string("enabled"), JsonValue::Bool(p.enabled)));
    JsonValue::Object(f)
}

/// The JSON a store is kept as: sanitized against the registry first.
pub fn status_strip_store_json(store: &StatusStripStore, registry: &StatusWidgetRegistry) -> (r:
    JsonValue)
    ensures
        store_json_is(r, sanitized(registry@, pls(store.placements@)).0),
{
    let mut warnings: Vec<String> = Vec::new();
    let normalized = sanitize_store(store, registry, &mut warnings);
    let ghost n = pls(normalized.placements@);
    let mut items: Vec<JsonValue> = Vec::new();
    let mut i: usize = 0;
    while i < normalized.placements.len()
        invariant
            i <= normalized.placements.len(),
            n == pls(normalized.placements@),
            items@.len() == i,
            forall|k: int| 0 <= k < i ==> placement_json_is(#[trigger] items@[k], n[k]),
        decreases normalized.placements.len() - i,
    {
        items.push(placement_json(&normalized.placements[i]));
        i += 1;
    }
    let mut f: Vec<(String, JsonValue)> = Vec::new();
    f.push((copy_string("schema_version"), JsonValue::UInt(STATUS_STRIP_SCHEMA_VERSION as u64)));
    f.push((copy_string("placements"), JsonValue::Array(items)));
    JsonValue::Object(f)
}

// ---------------------------------------------------------------------------
// Laws
// ---------------------------------------------------------------------------

pub open spec fn numbered(slots: Seq<SlotModel>) -> bool {
    forall|i: int| 0 <= i < slots.len() ==> (#[trigger] slots[i]).slot == i
}

proof fn lemma_plan_fold_numbered(reg: Seq<DefModel>, ps: Seq<PlacementModel>)
    requires
        ps.len() <= usize::MAX,
    ensures
        numbered(plan_fold(reg, ps).0),
        numbered(plan_fold(reg, ps).1),
        plan_fold(reg, ps).0.len() <= ps.len(),
        plan_fold(reg, ps).1.len() <= ps.len(),
    decreases ps.len(),
{
    if ps.len() > 0 {
        lemma_plan_fold_numbered(reg, ps.drop_last());
    }
}

/// The slots of each strip of a plan are numbered 0, 1, 2, ... in order.
pub proof fn law_plan_slots_numbered(reg: Seq<DefModel>, ps: Seq<PlacementModel>)
    requires
        sanitized(reg, ps).0.len() <= usize::MAX,
    ensures
        numbered(plan_spec(reg, ps).0),
        numbered(plan_spec(reg, ps).1),
{
    lemma_plan_fold_numbered(reg, sanitized(reg, ps).0);
}

// ---------------------------------------------------------------------------
// Stored layouts as JSON text
// ---------------------------------------------------------------------------

/// What restoring gives for a stored state read as text: `None` for a
/// blank state, the parse error, or the parsed value.
pub open spec fn restore_text_spec(reg: Seq<DefModel>, parsed: Option<Result<JsonValue, Seq<char>>>) -> (
    Seq<PlacementModel>,
    bool,
    Seq<Seq<char>>,
) {
    match parsed {
        None => restore_spec(reg, None),
        Some(Err(e)) => (default_placements(reg), false, seq![invalid_json_msg(e)]),
        Some(Ok(v)) => restore_spec(reg, Some(Ok(v))),
    }
}

/// Restores a layout stored as JSON text: blank text gives the default
/// layout, text that is not JSON gives the default layout and a warning
/// with the parser's error, JSON is read as `restore_status_strip_json`
/// reads it.
pub fn restore_status_strip_store(raw: &str, registry: &StatusWidgetRegistry) -> (r: StatusStripLoadOutcome)
    ensures
        r.store.schema_version == STATUS_STRIP_SCHEMA_VERSION,
        (pls(r.store.placements@), r.migrated, sv(r.warnings@)) == restore_text_spec(
            registry@,
            if trim(raw@).len() == 0 {
                None
            } else {
                Some(json_text_value(trim(raw@)))
            },
        ),
{
    let trimmed = trim_str(raw);
    let parsed = if trimmed.as_str().is_empty() {
        None
    } else {
        Some(parse_json_result(trimmed.as_str()))
    };
    restore_status_strip_json(parsed, registry)
}

/// A layout as pretty-printed JSON text (`{}` when it cannot be written):
/// the text of the JSON value `status_strip_store_json` gives.
pub fn persist_status_strip_store(store: &StatusStripStore, registry: &StatusWidgetRegistry) -> (r: String)
    ensures
        exists|j: JsonValue|
            store_json_is(j, sanitized(registry@, pls(store.placements@)).0) && r@ == (match json_pretty_text(j) {
                Some(t) => t,
                None => "{}"@,
            }),
{
    let value = status_strip_store_json(store, registry);
    let r = pretty_json_or(&value, "{}");
    assert(store_json_is(value, sanitized(registry@, pls(store.placements@)).0));
    r
}

/// Every slot of a strip, whatever its place, is shown as `[label]`: the
/// runtime value of its widget, trimmed, when that value is not blank, and
/// the widget's title otherwise; one segment per slot, in slot order. A
/// line wide enough shows the segments, joined by spaces, from its start.
pub proof fn law_strip_segments_show_runtime_values(
    values: Map<Seq<char>, Seq<char>>,
    slots: Seq<SlotModel>,
    width: int,
)
    ensures
        width > 0 && byte_len(join(segments(values, slots), " "@)) <= width ==> render_spec(
            slots,
            values,
            width,
        ).take(join(segments(values, slots), " "@).len() as int) == join(segments(values, slots), " "@),
        segments(values, slots).len() == slots.len(),
        forall|k: int|
            0 <= k < slots.len() ==> #[trigger] segments(values, slots)[k] == "["@ + (if values.contains_key(
                slots[k].widget_id,
            ) && trim(values[slots[k].widget_id]).len() > 0 {
                trim(values[slots[k].widget_id])
            } else {
                slots[k].title
            }) + "]"@,
{
    let line = join(segments(values, slots), " "@);
    if width > 0 && byte_len(line) <= width {
        assert(render_spec(slots, values, width).take(line.len() as int) =~= line);
    }
}

} // verus!
