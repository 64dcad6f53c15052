//! Shared annotations for runs and log lines.
use vstd::prelude::*;

use crate::text::{
    contains, contains_str, copy_string, dec, first_from, lemma_first_from, lemma_lex_antisym,
    lemma_lex_eq, lemma_lex_range, lemma_lex_trans, lex_order, lower, lowercase, order_strings,
    push_str, sort_by_spec, sorted_by, strict_order, sv, trim, trim_str, u64_to_string,
    lemma_sort_by_sorted, first_after, insert_pos as insert_pos_by,
};

verus! {

#[derive(Debug, Clone, PartialEq, Eq, Hash)]
pub enum AnnotationTarget {
    Run { run_id: String },
    LogLine { loop_id: String, line_index: usize },
}

/// An annotation target as values.
pub enum TargetModel {
    Run(Seq<char>),
    LogLine(Seq<char>, usize),
}

impl View for AnnotationTarget {
    type V = TargetModel;

    open spec fn view(&self) -> TargetModel {
        match self {
            AnnotationTarget::Run { run_id } => TargetModel::Run(run_id@),
            AnnotationTarget::LogLine { loop_id, line_index } => TargetModel::LogLine(
                loop_id@,
                *line_index,
            ),
        }
    }
}

#[derive(Debug, Clone, PartialEq, Eq)]
pub struct SharedAnnotation {
    pub id: String,
    pub target: AnnotationTarget,
    pub author: String,
    pub body: String,
    pub tags: Vec<String>,
    pub created_at_epoch_s: i64,
    pub updated_at_epoch_s: i64,
}

/// An annotation as values.
pub struct AnnotationModel {
    pub id: Seq<char>,
    pub target: TargetModel,
    pub author: Seq<char>,
    pub body: Seq<char>,
    pub tags: Seq<Seq<char>>,
    pub created_at_epoch_s: i64,
    pub updated_at_epoch_s: i64,
}

impl View for SharedAnnotation {
    type V = AnnotationModel;

    open spec fn view(&self) -> AnnotationModel {
        AnnotationModel {
            id: self.id@,
            target: self.target@,
            author: self.author@,
            body: self.body@,
            tags: sv(self.tags@),
            created_at_epoch_s: self.created_at_epoch_s,
            updated_at_epoch_s: self.updated_at_epoch_s,
        }
    }
}

pub open spec fn models(v: Seq<SharedAnnotation>) -> Seq<AnnotationModel> {
    v.map_values(|a: SharedAnnotation| a@)
}

#[derive(Debug, Clone, PartialEq, Eq, Default)]
pub struct SharedAnnotationStore {
    entries: Vec<SharedAnnotation>,
}

impl View for SharedAnnotationStore {
    type V = Seq<AnnotationModel>;

    closed spec fn view(&self) -> Seq<AnnotationModel> {
        models(self.entries@)
    }
}

// ---------------------------------------------------------------------------
// Model
// ---------------------------------------------------------------------------

/// Authors, queries and tags are compared trimmed and lowercased.
pub open spec fn normalize_required_spec(s: Seq<char>) -> Seq<char> {
    lower(trim(s))
}

pub open spec fn strictly_sorted(s: Seq<Seq<char>>) -> bool {
    forall|i: int, j: int| 0 <= i < j < s.len() ==> lex_order(#[trigger] s[i], #[trigger] s[j]) < 0
}

/// `x` is the normalized form of one of `tags`, and not empty.
pub open spec fn is_tag_of(tags: Seq<Seq<char>>, x: Seq<char>) -> bool {
    x.len() > 0 && exists|i: int| 0 <= i < tags.len() && normalize_required_spec(#[trigger] tags[i]) == x
}

/// The normalized tags: ascending, without repeats, exactly the non-empty
/// normalized forms of the given tags.
pub open spec fn normalized_tags(tags: Seq<Seq<char>>) -> Seq<Seq<char>> {
    choose|r: Seq<Seq<char>>|
        strictly_sorted(r) && (forall|x: Seq<char>| r.contains(x) <==> is_tag_of(tags, x))
}

/// The id given to the annotation added at `now` to a store of `len` entries.
pub open spec fn annotation_id(now: i64, len: nat) -> Seq<char> {
    let stamp: nat = if now < 0 {
        0
    } else {
        now as nat
    };
    let seq_no: nat = if len + 1 > usize::MAX {
        usize::MAX as nat
    } else {
        len + 1
    };
    "ann-"@ + dec(stamp) + "-"@ + dec(seq_no)
}

pub open spec fn clamp_epoch(now: i64) -> i64 {
    if now < 0 {
        0
    } else {
        now
    }
}

/// What `add_annotation` gives back and leaves in the store.
pub open spec fn add_spec(
    entries: Seq<AnnotationModel>,
    target: TargetModel,
    author: Seq<char>,
    body: Seq<char>,
    tags: Seq<Seq<char>>,
    now: i64,
) -> (Result<Seq<char>, Seq<char>>, Seq<AnnotationModel>) {
    let author = normalize_required_spec(author);
    let body = trim(body);
    if author.len() == 0 {
        (Err("annotation author is required"@), entries)
    } else if body.len() == 0 {
        (Err("annotation body is required"@), entries)
    } else {
        let id = annotation_id(now, entries.len());
        (
            Ok(id),
            entries.push(
                AnnotationModel {
                    id,
                    target,
                    author,
                    body,
                    tags: normalized_tags(tags),
                    created_at_epoch_s: clamp_epoch(now),
                    updated_at_epoch_s: clamp_epoch(now),
                },
            ),
        )
    }
}

pub open spec fn id_is(key: Seq<char>, entries: Seq<AnnotationModel>) -> spec_fn(int) -> bool {
    |i: int| entries[i].id == key
}

/// The first entry whose id is the trimmed `id`.
pub open spec fn find_entry(entries: Seq<AnnotationModel>, id: Seq<char>) -> Option<int> {
    first_from(0, entries.len() as int, id_is(trim(id), entries))
}

/// What `update_annotation` gives back and leaves in the store.
pub open spec fn update_spec(
    entries: Seq<AnnotationModel>,
    id: Seq<char>,
    body: Seq<char>,
    tags: Seq<Seq<char>>,
    now: i64,
) -> (Result<(), Seq<char>>, Seq<AnnotationModel>) {
    match find_entry(entries, id) {
        None => (Err("annotation not found: "@ + id), entries),
        Some(i) => if trim(body).len() == 0 {
            (Err("annotation body is required"@), entries)
        } else {
            let e = entries[i];
            (
                Ok(()),
                entries.update(
                    i,
                    AnnotationModel {
                        body: trim(body),
                        tags: normalized_tags(tags),
                        updated_at_epoch_s: if now > e.created_at_epoch_s {
                            now
                        } else {
                            e.created_at_epoch_s
                        },
                        ..e
                    },
                ),
            )
        },
    }
}

/// The items of `s` for which `p` holds, in order.
pub open spec fn keep(s: Seq<AnnotationModel>, p: spec_fn(AnnotationModel) -> bool) -> Seq<
    AnnotationModel,
>
    decreases s.len(),
{
    if s.len() == 0 {
        s
    } else {
        let t = keep(s.drop_last(), p);
        if p(s.last()) {
            t.push(s.last())
        } else {
            t
        }
    }
}

/// `a` is listed before `b`: more recently updated, or as recent with a
/// smaller id.
pub open spec fn listed_before(a: AnnotationModel, b: AnnotationModel) -> bool {
    a.updated_at_epoch_s > b.updated_at_epoch_s || (a.updated_at_epoch_s == b.updated_at_epoch_s
        && lex_order(a.id, b.id) < 0)
}

pub open spec fn goes_before(x: AnnotationModel, s: Seq<AnnotationModel>) -> spec_fn(int) -> bool {
    |j: int| listed_before(x, s[j])
}

/// Where a stable insertion puts `x` into `s`: before the first item that
/// `x` strictly precedes.
pub open spec fn insert_pos(s: Seq<AnnotationModel>, x: AnnotationModel) -> int {
    match first_from(0, s.len() as int, goes_before(x, s)) {
        Some(j) => j,
        None => s.len() as int,
    }
}

/// `s` stably sorted, newest first and then by id.
pub open spec fn newest_first(s: Seq<AnnotationModel>) -> Seq<AnnotationModel>
    decreases s.len(),
{
    if s.len() == 0 {
        s
    } else {
        let t = newest_first(s.drop_last());
        t.insert(insert_pos(t, s.last()), s.last())
    }
}

pub open spec fn for_target(target: TargetModel) -> spec_fn(AnnotationModel) -> bool {
    |e: AnnotationModel| e.target == target
}

/// An annotation matches a normalized query through its body, its author or
/// one of its tags.
pub open spec fn matches_query(q: Seq<char>) -> spec_fn(AnnotationModel) -> bool {
    |e: AnnotationModel|
        contains(lower(e.body), q) || contains(lower(e.author), q) || exists|t: int|
            0 <= t < e.tags.len() && contains(#[trigger] e.tags[t], q)
}

pub open spec fn search_spec(entries: Seq<AnnotationModel>, query: Seq<char>) -> Seq<
    AnnotationModel,
> {
    let q = normalize_required_spec(query);
    if q.len() == 0 {
        Seq::empty()
    } else {
        newest_first(keep(entries, matches_query(q)))
    }
}

pub open spec fn result_view<T>(r: Result<T, String>) -> Result<T, Seq<char>> {
    match r {
        Ok(v) => Ok(v),
        Err(e) => Err(e@),
    }
}

pub open spec fn id_result_view(r: Result<String, String>) -> Result<Seq<char>, Seq<char>> {
    match r {
        Ok(v) => Ok(v@),
        Err(e) => Err(e@),
    }
}

// ---------------------------------------------------------------------------
// Store
// ---------------------------------------------------------------------------

impl SharedAnnotationStore {
    pub fn entries(&self) -> (r: &[SharedAnnotation])
        ensures
            models(r@) == self@,
    {
        self.entries.as_slice()
    }

    pub fn add_annotation(
        &mut self,
        target: AnnotationTarget,
        author: &str,
        body: &str,
        tags: &[String],
        now_epoch_s: i64,
    ) -> (r: Result<String, String>)
        ensures
            (id_result_view(r), final(self)@) == add_spec(
                old(self)@,
                target@,
                author@,
                body@,
                sv(tags@),
                now_epoch_s,
            ),
    {
        let author = normalize_required(author);
        if author.as_str().is_empty() {
            return Err(copy_string("annotation author is required"));
        }
        let body = trim_str(body);
        if body.as_str().is_empty() {
            return Err(copy_string("annotation body is required"));
        }
        let stamp: i64 = if now_epoch_s < 0 {
            0
        } else {
            now_epoch_s
        };
        let seq_no: usize = self.entries.len().saturating_add(1);
        let mut id = copy_string("ann-");
        push_str(&mut id, u64_to_string(stamp as u64).as_str());
        push_str(&mut id, "-");
        push_str(&mut id, u64_to_string(seq_no as u64).as_str());
        let ghost old_entries = self.entries@;
        let entry = SharedAnnotation {
            id: id.clone(),
            target,
            author,
            body,
            tags: normalize_tags(tags),
            created_at_epoch_s: stamp,
            updated_at_epoch_s: stamp,
        };
        self.entries.push(entry);
        proof {
            assert(models(self.entries@) =~= models(old_entries).push(entry@));
        }
        Ok(id)
    }

    pub fn update_annotation(
        &mut self,
        id: &str,
        body: &str,
        tags: &[String],
        now_epoch_s: i64,
    ) -> (r: Result<(), String>)
        ensures
            (result_view(r), final(self)@) == update_spec(
                old(self)@,
                id@,
                body@,
                sv(tags@),
                now_epoch_s,
            ),
    {
        let key = trim_str(id);
        let i = match find_index(&self.entries, &key) {
            Some(i) => i,
            None => {
                let mut msg = copy_string("annotation not found: ");
                push_str(&mut msg, id);
                return Err(msg);
            },
        };
        let body = trim_str(body);
        if body.as_str().is_empty() {
            return Err(copy_string("annotation body is required"));
        }
        let created = self.entries[i].created_at_epoch_s;
        let updated = if now_epoch_s > created {
            now_epoch_s
        } else {
            created
        };
        let new_tags = normalize_tags(tags);
        let mut entry = clone_annotation(&self.entries[i]);
        entry.body = body;
        entry.tags = new_tags;
        entry.updated_at_epoch_s = updated;
        let ghost old_entries = self.entries@;
        self.entries.set(i, entry);
        proof {
            assert(models(self.entries@) =~= models(old_entries).update(i as int, entry@));
        }
        Ok(())
    }

    pub fn remove_annotation(&mut self, id: &str) -> (r: bool)
        ensures
            final(self)@ == keep(old(self)@, |e: AnnotationModel| e.id != trim(id@)),
            r == (final(self)@.len() != old(self)@.len()),
    {
        let key = trim_str(id);
        let ghost p = |e: AnnotationModel| e.id != trim(id@);
        let ghost entries = models(self.entries@);
        let mut kept: Vec<SharedAnnotation> = Vec::new();
        let mut i: usize = 0;
        while i < self.entries.len()
            invariant
                i <= self.entries.len(),
                entries == models(self.entries@),
                key@ == trim(id@),
                p == (|e: AnnotationModel| e.id != trim(id@)),
                models(kept@) == keep(entries.take(i as int), p),
            decreases self.entries.len() - i,
        {
            assert(entries.take(i + 1).drop_last() =~= entries.take(i as int));
            assert(entries.take(i + 1).last() == self.entries@[i as int]@);
            let ghost step = keep(entries.take(i + 1), p);
            assert(step == if p(entries[i as int]) {
                keep(entries.take(i as int), p).push(entries[i as int])
            } else {
                keep(entries.take(i as int), p)
            });
            if !(self.entries[i].id == key) {
                let e = clone_annotation(&self.entries[i]);
                let ghost prev = kept@;
                kept.push(e);
                assert(models(kept@) =~= models(prev).push(e@));
                assert(p(entries[i as int]));
            } else {
                assert(!p(entries[i as int]));
            }
            i += 1;
        }
        assert(entries.take(self.entries.len() as int) =~= entries);
        let before = self.entries.len();
        self.entries = kept;
        before != self.entries.len()
    }

    pub fn list_for_target(&self, target: &AnnotationTarget) -> (r: Vec<SharedAnnotation>)
        ensures
            models(r@) == newest_first(keep(self@, for_target(target@))),
    {
        let ghost entries = models(self.entries@);
        let ghost p = for_target(target@);
        let mut list: Vec<SharedAnnotation> = Vec::new();
        let mut i: usize = 0;
        while i < self.entries.len()
            invariant
                i <= self.entries.len(),
                entries == models(self.entries@),
                p == for_target(target@),
                models(list@) == newest_first(keep(entries.take(i as int), p)),
            decreases self.entries.len() - i,
        {
            assert(entries.take(i + 1).drop_last() =~= entries.take(i as int));
            assert(entries.take(i + 1).last() == self.entries@[i as int]@);
            assert(entries[i as int] == self.entries@[i as int]@);
            if target_eq(&self.entries[i].target, target) {
                assert(p(entries[i as int]));
                let ghost k = keep(entries.take(i as int), p);
                assert(k.push(entries[i as int]).drop_last() =~= k);
                insert_newest_first(&mut list, clone_annotation(&self.entries[i]));
            } else {
                assert(!p(entries[i as int]));
            }
            i += 1;
        }
        assert(entries.take(self.entries.len() as int) =~= entries);
        list
    }

    pub fn search_text(&self, query: &str) -> (r: Vec<SharedAnnotation>)
        ensures
            models(r@) == search_spec(self@, query@),
    {
        let query = normalize_required(query);
        if query.as_str().is_empty() {
            return Vec::new();
        }
        let ghost entries = models(self.entries@);
        let ghost p = matches_query(query@);
        let mut list: Vec<SharedAnnotation> = Vec::new();
        let mut i: usize = 0;
        while i < self.entries.len()
            invariant
                i <= self.entries.len(),
                entries == models(self.entries@),
                p == matches_query(query@),
                models(list@) == newest_first(keep(entries.take(i as int), p)),
            decreases self.entries.len() - i,
        {
            assert(entries.take(i + 1).drop_last() =~= entries.take(i as int));
            assert(entries.take(i + 1).last() == self.entries@[i as int]@);
            let e = &self.entries[i];
            let hit = contains_str(lowercase(e.body.as_str()).as_str(), query.as_str())
                || contains_str(lowercase(e.author.as_str()).as_str(), query.as_str())
                || any_tag_contains(&e.tags, query.as_str());
            assert(entries[i as int] == self.entries@[i as int]@);
            assert(sv(e.tags@) == entries[i as int].tags);
            if hit {
                assert(p(entries[i as int]));
                let ghost k = keep(entries.take(i as int), p);
                assert(k.push(entries[i as int]).drop_last() =~= k);
                insert_newest_first(&mut list, clone_annotation(e));
            } else {
                assert(!p(entries[i as int]));
            }
            i += 1;
        }
        assert(entries.take(self.entries.len() as int) =~= entries);
        list
    }
}

fn find_index(entries: &Vec<SharedAnnotation>, key: &String) -> (r: Option<usize>)
    ensures
        r matches Some(i) ==> i < entries.len() && first_from(
            0,
            entries.len() as int,
            id_is(key@, models(entries@)),
        ) == Some(i as int),
        r is None ==> first_from(0, entries.len() as int, id_is(key@, models(entries@))) is None,
{
    let ghost m = models(entries@);
    let mut i: usize = 0;
    while i < entries.len()
        invariant
            i <= entries.len(),
            m == models(entries@),
            first_from(0, entries.len() as int, id_is(key@, m)) == first_from(
                i as int,
                entries.len() as int,
                id_is(key@, m),
            ),
        decreases entries.len() - i,
    {
        if entries[i].id == *key {
            return Some(i);
        }
        i += 1;
    }
    None
}

/// The first position in `list` whose entry `x` is listed before.
fn insert_index(list: &Vec<SharedAnnotation>, x: &SharedAnnotation) -> (r: usize)
    ensures
        r as int == insert_pos(models(list@), x@),
        r <= list.len(),
{
    let ghost s = models(list@);
    let mut j: usize = 0;
    while j < list.len()
        invariant
            j <= list.len(),
            s == models(list@),
            first_from(0, s.len() as int, goes_before(x@, s)) == first_from(
                j as int,
                s.len() as int,
                goes_before(x@, s),
            ),
        decreases list.len() - j,
    {
        let e = &list[j];
        let ord = order_strings(x.id.as_str(), e.id.as_str());
        if x.updated_at_epoch_s > e.updated_at_epoch_s || (x.updated_at_epoch_s
            == e.updated_at_epoch_s && ord < 0) {
            return j;
        }
        j += 1;
    }
    j
}

fn any_tag_contains(tags: &Vec<String>, q: &str) -> (r: bool)
    ensures
        r == exists|t: int| 0 <= t < sv(tags@).len() && contains(#[trigger] sv(tags@)[t], q@),
{
    let mut k: usize = 0;
    while k < tags.len()
        invariant
            k <= tags.len(),
            forall|t: int| 0 <= t < k ==> !contains(#[trigger] sv(tags@)[t], q@),
        decreases tags.len() - k,
    {
        if contains_str(tags[k].as_str(), q) {
            assert(sv(tags@)[k as int] == tags@[k as int]@);
            return true;
        }
        assert(sv(tags@)[k as int] == tags@[k as int]@);
        k += 1;
    }
    false
}

/// Stable insertion of `x` into `list`, newest first.
fn insert_newest_first(list: &mut Vec<SharedAnnotation>, x: SharedAnnotation)
    ensures
        models(final(list)@) == models(old(list)@).insert(
            insert_pos(models(old(list)@), x@),
            x@,
        ),
{
    let j = insert_index(list, &x);
    let ghost old_list = list@;
    list.insert(j, x);
    assert(models(list@) =~= models(old_list).insert(j as int, x@));
}

fn target_eq(a: &AnnotationTarget, b: &AnnotationTarget) -> (r: bool)
    ensures
        r == (a@ == b@),
{
    match (a, b) {
        (AnnotationTarget::Run { run_id: x }, AnnotationTarget::Run { run_id: y }) => *x == *y,
        (
            AnnotationTarget::LogLine { loop_id: x, line_index: i },
            AnnotationTarget::LogLine { loop_id: y, line_index: j },
        ) => *x == *y && *i == *j,
        _ => false,
    }
}

fn clone_strings(v: &Vec<String>) -> (r: Vec<String>)
    ensures
        sv(r@) == sv(v@),
{
    let mut r: Vec<String> = Vec::new();
    let mut i: usize = 0;
    while i < v.len()
        invariant
            i <= v.len(),
            sv(r@) == sv(v@).take(i as int),
        decreases v.len() - i,
    {
        let s = v[i].clone();
        let ghost prev = r@;
        r.push(s);
        assert(sv(r@) =~= sv(prev).push(s@));
        assert(sv(v@).take(i + 1) =~= sv(v@).take(i as int).push(v@[i as int]@));
        i += 1;
    }
    assert(sv(v@).take(v.len() as int) =~= sv(v@));
    r
}

fn clone_target(t: &AnnotationTarget) -> (r: AnnotationTarget)
    ensures
        r@ == t@,
{
    match t {
        AnnotationTarget::Run { run_id } => AnnotationTarget::Run { run_id: run_id.clone() },
        AnnotationTarget::LogLine { loop_id, line_index } => AnnotationTarget::LogLine {
            loop_id: loop_id.clone(),
            line_index: *line_index,
        },
    }
}

fn clone_annotation(a: &SharedAnnotation) -> (r: SharedAnnotation)
    ensures
        r@ == a@,
{
    SharedAnnotation {
        id: a.id.clone(),
        target: clone_target(&a.target),
        author: a.author.clone(),
        body: a.body.clone(),
        tags: clone_strings(&a.tags),
        created_at_epoch_s: a.created_at_epoch_s,
        updated_at_epoch_s: a.updated_at_epoch_s,
    }
}

fn normalize_required(value: &str) -> (r: String)
    ensures
        r@ == normalize_required_spec(value@),
{
    let t = trim_str(value);
    lowercase(t.as_str())
}

fn normalize_tags(tags: &[String]) -> (r: Vec<String>)
    ensures
        sv(r@) == normalized_tags(sv(tags@)),
{
    let ghost all = sv(tags@);
    let mut out: Vec<String> = Vec::new();
    let mut i: usize = 0;
    while i < tags.len()
        invariant
            i <= tags.len(),
            all == sv(tags@),
            strictly_sorted(sv(out@)),
            forall|x: Seq<char>| sv(out@).contains(x) <==> is_tag_of(all.take(i as int), x),
        decreases tags.len() - i,
    {
        let t = normalize_required(tags[i].as_str());
        let ghost before = sv(out@);
        proof {
            assert(all[i as int] == tags@[i as int]@);
            assert(all.take(i + 1).drop_last() =~= all.take(i as int));
            assert(all.take(i + 1).last() == all[i as int]);
            lemma_is_tag_of_push(all.take(i + 1));
        }
        if t.as_str().is_empty() {
            assert forall|x: Seq<char>| sv(out@).contains(x) <==> is_tag_of(all.take(i + 1), x) by {}
        } else {
            let mut j: usize = 0;
            while j < out.len() && order_strings(out[j].as_str(), t.as_str()) < 0
                invariant
                    j <= out.len(),
                    forall|k: int| 0 <= k < j ==> lex_order(#[trigger] sv(out@)[k], t@) < 0,
                decreases out.len() - j,
            {
                assert(sv(out@)[j as int] == out@[j as int]@);
                j += 1;
            }
            let dup = j < out.len() && order_strings(out[j].as_str(), t.as_str()) == 0;
            let ghost prev = sv(out@);
            if j < out.len() {
                assert(prev[j as int] == out@[j as int]@);
                proof {
                    lemma_lex_range(prev[j as int], t@);
                    lemma_lex_eq(prev[j as int], t@);
                }
            }
            if dup {
                assert(prev.contains(t@)) by {
                    assert(prev[j as int] == t@);
                }
                assert forall|x: Seq<char>| sv(out@).contains(x) <==> is_tag_of(
                    all.take(i + 1),
                    x,
                ) by {}
            } else {
                out.insert(j, t);
                proof {
                    assert(sv(out@) =~= prev.insert(j as int, t@));
                    lemma_sorted_insert(prev, j as int, t@);
                    assert forall|x: Seq<char>| sv(out@).contains(x) <==> is_tag_of(
                        all.take(i + 1),
                        x,
                    ) by {
                        assert(prev.insert(j as int, t@).contains(x) <==> (prev.contains(x) || x
                            == t@));
                        assert(prev.contains(x) <==> is_tag_of(all.take(i as int), x));
                    }
                }
            }
        }
        i += 1;
    }
    assert(all.take(tags.len() as int) =~= all);
    proof {
        lemma_tags_exist(all);
        lemma_sorted_same_elements(sv(out@), normalized_tags(all));
    }
    out
}

// ---------------------------------------------------------------------------
// Laws
// ---------------------------------------------------------------------------

proof fn lemma_sorted_distinct(s: Seq<Seq<char>>, i: int, j: int)
    requires
        strictly_sorted(s),
        0 <= i < s.len(),
        0 <= j < s.len(),
        i != j,
    ensures
        s[i] != s[j],
{
    if i < j {
        lemma_lex_eq(s[i], s[j]);
    } else {
        lemma_lex_eq(s[j], s[i]);
    }
}


/// Inserting `t` where it belongs keeps a sequence ascending without repeats.
pub proof fn lemma_sorted_insert(prev: Seq<Seq<char>>, j: int, t: Seq<char>)
    requires
        strictly_sorted(prev),
        0 <= j <= prev.len(),
        forall|k: int| 0 <= k < j ==> lex_order(#[trigger] prev[k], t) < 0,
        j == prev.len() || lex_order(prev[j], t) > 0,
    ensures
        strictly_sorted(prev.insert(j, t)),
        forall|x: Seq<char>| prev.insert(j, t).contains(x) <==> (prev.contains(x) || x == t),
{
    let now = prev.insert(j, t);
    if j < prev.len() {
        lemma_lex_antisym(prev[j], t);
    }
    assert forall|a: int, b: int| 0 <= a < b < now.len() implies lex_order(
        #[trigger] now[a],
        #[trigger] now[b],
    ) < 0 by {
        if b < j {
            assert(now[a] == prev[a] && now[b] == prev[b]);
        } else if a < j && b == j {
            assert(now[a] == prev[a]);
        } else if a < j && b > j {
            assert(now[a] == prev[a]);
            assert(now[b] == prev[b - 1]);
            if b - 1 == j {
                lemma_lex_trans(now[a], t, now[b]);
            } else {
                lemma_lex_trans(t, prev[j], prev[b - 1]);
                lemma_lex_trans(now[a], t, prev[b - 1]);
            }
        } else if a == j {
            assert(now[b] == prev[b - 1]);
            if b - 1 > j {
                lemma_lex_trans(t, prev[j], prev[b - 1]);
            }
        } else {
            assert(now[a] == prev[a - 1]);
            assert(now[b] == prev[b - 1]);
        }
    }
    assert forall|x: Seq<char>| now.contains(x) <==> (prev.contains(x) || x == t) by {
        if now.contains(x) {
            let k = choose|k: int| 0 <= k < now.len() && now[k] == x;
            if k < j {
                assert(prev[k] == x);
            } else if k > j {
                assert(prev[k - 1] == x);
            }
        }
        if prev.contains(x) {
            let k = choose|k: int| 0 <= k < prev.len() && prev[k] == x;
            if k < j {
                assert(now[k] == x);
            } else {
                assert(now[k + 1] == x);
            }
        }
        if x == t {
            assert(now[j] == x);
        }
    }
}

proof fn lemma_is_tag_of_push(tags: Seq<Seq<char>>)
    requires
        tags.len() > 0,
    ensures
        forall|x: Seq<char>| is_tag_of(tags, x) <==> (is_tag_of(tags.drop_last(), x) || (x.len()
            > 0 && x == normalize_required_spec(tags.last()))),
{
    let init = tags.drop_last();
    assert forall|x: Seq<char>| is_tag_of(tags, x) <==> (is_tag_of(init, x) || (x.len() > 0 && x
        == normalize_required_spec(tags.last()))) by {
        if is_tag_of(tags, x) {
            let k = choose|k: int|
                0 <= k < tags.len() && normalize_required_spec(#[trigger] tags[k]) == x;
            if k < init.len() {
                assert(init[k] == tags[k]);
            }
        }
        if is_tag_of(init, x) {
            let k = choose|k: int|
                0 <= k < init.len() && normalize_required_spec(#[trigger] init[k]) == x;
            assert(tags[k] == init[k]);
        }
        if x.len() > 0 && x == normalize_required_spec(tags.last()) {
            assert(tags[tags.len() - 1] == tags.last());
        }
    }
}

/// Some ascending sequence without repeats holds exactly the normalized tags.
proof fn lemma_tags_exist(tags: Seq<Seq<char>>)
    ensures
        strictly_sorted(normalized_tags(tags)),
        forall|x: Seq<char>| normalized_tags(tags).contains(x) <==> is_tag_of(tags, x),
    decreases tags.len(),
{
    if tags.len() == 0 {
        let r = Seq::<Seq<char>>::empty();
        assert forall|x: Seq<char>| r.contains(x) <==> is_tag_of(tags, x) by {}
        assert(strictly_sorted(r));
    } else {
        let init = tags.drop_last();
        lemma_tags_exist(init);
        lemma_is_tag_of_push(tags);
        let prev = normalized_tags(init);
        let t = normalize_required_spec(tags.last());
        if t.len() == 0 || prev.contains(t) {
            assert forall|x: Seq<char>| prev.contains(x) <==> is_tag_of(tags, x) by {}
            assert(strictly_sorted(prev));
        } else {
            let p = |k: int| lex_order(prev[k], t) >= 0;
            lemma_first_from(0, prev.len() as int, p);
            let j = match first_from(0, prev.len() as int, p) {
                Some(j) => j,
                None => prev.len() as int,
            };
            assert forall|k: int| 0 <= k < j implies lex_order(#[trigger] prev[k], t) < 0 by {
                assert(!p(k));
            }
            if j < prev.len() {
                lemma_lex_eq(prev[j], t);
                assert(p(j));
                assert(prev[j] != t);
            }
            lemma_sorted_insert(prev, j, t);
            let r = prev.insert(j, t);
            assert forall|x: Seq<char>| r.contains(x) <==> is_tag_of(tags, x) by {}
        }
    }
}

/// Two ascending sequences without repeats that hold the same strings are
/// the same sequence.
pub proof fn lemma_sorted_same_elements(a: Seq<Seq<char>>, b: Seq<Seq<char>>)
    requires
        strictly_sorted(a),
        strictly_sorted(b),
        forall|x: Seq<char>| a.contains(x) <==> b.contains(x),
    ensures
        a == b,
    decreases a.len(),
{
    if a.len() == 0 {
        if b.len() > 0 {
            assert(b.contains(b[0]));
        }
        assert(a =~= b);
    } else {
        assert(a.contains(a[0]));
        assert(b.len() > 0);
        assert(b.contains(b[0]));
        let ka = choose|k: int| 0 <= k < b.len() && b[k] == a[0];
        let kb = choose|k: int| 0 <= k < a.len() && a[k] == b[0];
        if ka != 0 {
            if kb == 0 {
                lemma_sorted_distinct(b, 0, ka);
            }
            assert(lex_order(b[0], b[ka]) < 0);
            assert(lex_order(a[0], a[kb]) < 0);
            lemma_lex_antisym(a[0], b[0]);
        }
        assert(a[0] == b[0]);
        let ta = a.drop_first();
        let tb = b.drop_first();
        assert forall|x: Seq<char>| ta.contains(x) <==> tb.contains(x) by {
            if ta.contains(x) {
                let k = choose|k: int| 0 <= k < ta.len() && ta[k] == x;
                assert(a[k + 1] == x);
                lemma_sorted_distinct(a, 0, k + 1);
                assert(a.contains(x));
                let m = choose|m: int| 0 <= m < b.len() && b[m] == x;
                assert(m != 0);
                assert(tb[m - 1] == x);
            }
            if tb.contains(x) {
                let k = choose|k: int| 0 <= k < tb.len() && tb[k] == x;
                assert(b[k + 1] == x);
                lemma_sorted_distinct(b, 0, k + 1);
                assert(b.contains(x));
                let m = choose|m: int| 0 <= m < a.len() && a[m] == x;
                assert(m != 0);
                assert(ta[m - 1] == x);
            }
        }
        lemma_sorted_same_elements(ta, tb);
        assert(a =~= seq![a[0]] + ta);
        assert(b =~= seq![b[0]] + tb);
    }
}

/// The stored tags of an annotation are ascending and without repeats, and
/// they do not depend on the order, the case, the surrounding blanks or the
/// repeats of the tags it was given: two tag lists with the same normal
/// forms give the same stored tags.
pub proof fn law_tags_depend_only_on_their_normal_forms(
    tags1: Seq<Seq<char>>,
    tags2: Seq<Seq<char>>,
)
    requires
        forall|x: Seq<char>| is_tag_of(tags1, x) <==> is_tag_of(tags2, x),
    ensures
        normalized_tags(tags1) == normalized_tags(tags2),
        strictly_sorted(normalized_tags(tags1)),
{
    lemma_tags_exist(tags1);
    lemma_tags_exist(tags2);
    lemma_sorted_same_elements(normalized_tags(tags1), normalized_tags(tags2));
}


proof fn lemma_keep_all(s: Seq<AnnotationModel>, p: spec_fn(AnnotationModel) -> bool)
    requires
        forall|i: int| 0 <= i < s.len() ==> p(#[trigger] s[i]),
    ensures
        keep(s, p) == s,
    decreases s.len(),
{
    if s.len() > 0 {
        lemma_keep_all(s.drop_last(), p);
        assert(p(s[s.len() - 1]));
        assert(s.drop_last().push(s.last()) =~= s);
    }
}

proof fn lemma_dec_last_digit(n: nat)
    ensures
        dec(n).len() > 0,
        '0' <= dec(n).last() <= '9',
{
    if n >= 10 {
        assert(dec(n) == dec(n / 10).push(crate::text::digit_char(n % 10)));
    }
}

/// Removing the annotation just added, by the id it was given, leaves the
/// store as it was, when no entry had that id before.
pub proof fn law_remove_undoes_add(
    entries: Seq<AnnotationModel>,
    target: TargetModel,
    author: Seq<char>,
    body: Seq<char>,
    tags: Seq<Seq<char>>,
    now: i64,
)
    requires
        add_spec(entries, target, author, body, tags, now).0 is Ok,
        forall|i: int| 0 <= i < entries.len() ==> (#[trigger] entries[i].id) != annotation_id(now, entries.len()),
    ensures
        ({
            let (r, after) = add_spec(entries, target, author, body, tags, now);
            keep(after, |e: AnnotationModel| e.id != trim(r->Ok_0)) == entries
        }),
{
    reveal_strlit("ann-");
    reveal_strlit("-");
    let id = annotation_id(now, entries.len());
    let stamp: nat = if now < 0 { 0 } else { now as nat };
    let seq_no: nat = if entries.len() + 1 > usize::MAX { usize::MAX as nat } else { entries.len() + 1 };
    lemma_dec_last_digit(seq_no);
    assert(id == "ann-"@ + dec(stamp) + "-"@ + dec(seq_no));
    assert(id[0] == 'a');
    assert(id.last() == dec(seq_no).last());
    assert(crate::text::trim_start(id) == id);
    assert(crate::text::trim_end(id) == id);
    let after = add_spec(entries, target, author, body, tags, now).1;
    let p = |e: AnnotationModel| e.id != id;
    assert(after.drop_last() =~= entries);
    lemma_keep_all(entries, p);
}

/// The listing order as a relation: newest first, then by id.
pub open spec fn listing_order() -> spec_fn(AnnotationModel, AnnotationModel) -> bool {
    |a: AnnotationModel, b: AnnotationModel| listed_before(a, b)
}

proof fn lemma_listing_order_strict()
    ensures
        strict_order(listing_order()),
{
    let r = listing_order();
    assert forall|a: AnnotationModel| !#[trigger] r(a, a) by {
        lemma_lex_eq(a.id, a.id);
    }
    assert forall|a: AnnotationModel, b: AnnotationModel, c: AnnotationModel|
        #[trigger] r(a, b) && #[trigger] r(b, c) implies r(a, c) by {
        if a.updated_at_epoch_s == b.updated_at_epoch_s && b.updated_at_epoch_s
            == c.updated_at_epoch_s {
            lemma_lex_trans(a.id, b.id, c.id);
        }
    }
}

proof fn lemma_newest_first_is_sort(s: Seq<AnnotationModel>)
    ensures
        newest_first(s) == sort_by_spec(s, listing_order()),
    decreases s.len(),
{
    if s.len() > 0 {
        lemma_newest_first_is_sort(s.drop_last());
        let t = newest_first(s.drop_last());
        assert(goes_before(s.last(), t) =~= first_after(t, listing_order(), s.last()));
        assert(insert_pos(t, s.last()) == insert_pos_by(t, listing_order(), s.last()));
    }
}

proof fn lemma_keep_is_filter(s: Seq<AnnotationModel>, p: spec_fn(AnnotationModel) -> bool)
    ensures
        keep(s, p) == s.filter(p),
    decreases s.len(),
{
    reveal_with_fuel(Seq::filter, 1);
    if s.len() > 0 {
        lemma_keep_is_filter(s.drop_last(), p);
    }
}

/// The annotations listed for a target (and those found by a search) come
/// newest first, ties by ascending id, and are exactly the store's entries
/// for that target (matching that query), each as often as it is stored.
pub proof fn law_listing_sorted_and_complete(
    entries: Seq<AnnotationModel>,
    p: spec_fn(AnnotationModel) -> bool,
)
    ensures
        sorted_by(newest_first(keep(entries, p)), listing_order()),
        newest_first(keep(entries, p)).to_multiset() == entries.filter(p).to_multiset(),
        forall|i: int|
            0 <= i < newest_first(keep(entries, p)).len() ==> p(
                #[trigger] newest_first(keep(entries, p))[i],
            ),
{
    lemma_listing_order_strict();
    lemma_newest_first_is_sort(keep(entries, p));
    lemma_sort_by_sorted(keep(entries, p), listing_order());
    lemma_keep_is_filter(entries, p);
    crate::text::lemma_sort_by_items(keep(entries, p), listing_order());
    let l = newest_first(keep(entries, p));
    assert forall|i: int| 0 <= i < l.len() implies p(#[trigger] l[i]) by {
        assert(l.contains(l[i]));
        assert(entries.filter(p).contains(l[i]));
        let k = choose|k: int| 0 <= k < entries.filter(p).len() && entries.filter(p)[k] == l[i];
    }
}

/// A text search finds exactly the stored annotations that the trimmed,
/// lowercased query occurs in, through the lowercased body, the lowercased
/// author or one of the tags; a blank query finds nothing.
pub proof fn law_search_finds_exactly_the_matches(
    entries: Seq<AnnotationModel>,
    query: Seq<char>,
    e: AnnotationModel,
)
    ensures
        lower(trim(query)).len() == 0 ==> search_spec(entries, query).len() == 0,
        lower(trim(query)).len() > 0 ==> (search_spec(entries, query).contains(e) <==> (entries.contains(e)
            && (contains(lower(e.body), lower(trim(query))) || contains(lower(e.author), lower(trim(query)))
            || exists|t: int| 0 <= t < e.tags.len() && contains(#[trigger] e.tags[t], lower(trim(query)))))),
{
    let q = lower(trim(query));
    if q.len() > 0 {
        let p = matches_query(q);
        let k = keep(entries, p);
        lemma_newest_first_is_sort(k);
        crate::text::lemma_sort_by_items(k, listing_order());
        lemma_keep_is_filter(entries, p);
        if entries.contains(e) && p(e) {
            let i = choose|i: int| 0 <= i < entries.len() && entries[i] == e;
            entries.lemma_filter_contains(p, i);
        }
        if k.contains(e) {
            entries.lemma_filter_contains_rev(p, e);
            let j = choose|j: int| 0 <= j < k.len() && k[j] == e;
            entries.lemma_filter_pred(p, j);
        }
    }
}

} // verus!
