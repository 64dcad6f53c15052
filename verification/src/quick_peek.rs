//! Quick peek popups: inline entity summaries without leaving the active view.
use vstd::prelude::*;

use crate::text::{
    concat, copy_string, first_from, first_n, lemma_first_from, lower, lowercase, sanitize,
    sanitize_inline, split_lines, sv, take_chars, take_upto, trim, trim_str, u64_to_string, dec,
    lines,
};

verus! {

#[derive(Debug, Clone, Copy, PartialEq, Eq, Structural)]
pub enum PeekEntityKind {
    Loop,
    Task,
    FmailThread,
    FilePath,
    Commit,
}

#[derive(Debug, Clone, PartialEq, Eq)]
pub struct PeekEntityRef {
    pub kind: PeekEntityKind,
    pub value: String,
}

/// A peek target as values: its kind and its key.
pub struct PeekTargetModel {
    pub kind: PeekEntityKind,
    pub value: Seq<char>,
}

impl View for PeekEntityRef {
    type V = PeekTargetModel;

    open spec fn view(&self) -> PeekTargetModel {
        PeekTargetModel { kind: self.kind, value: self.value@ }
    }
}

/// File paths keep their case; every other key is trimmed and lowercased.
pub open spec fn normalize_key_spec(kind: PeekEntityKind, raw: Seq<char>) -> Seq<char> {
    match kind {
        PeekEntityKind::FilePath => trim(raw),
        _ => lower(trim(raw)),
    }
}

impl PeekEntityRef {
    pub fn loop_id(value: &str) -> (r: Self)
        ensures
            r.kind == PeekEntityKind::Loop,
            r.value@ == normalize_key_spec(PeekEntityKind::Loop, value@),
    {
        Self { kind: PeekEntityKind::Loop, value: normalize_key(PeekEntityKind::Loop, value) }
    }

    pub fn task_id(value: &str) -> (r: Self)
        ensures
            r.kind == PeekEntityKind::Task,
            r.value@ == normalize_key_spec(PeekEntityKind::Task, value@),
    {
        Self { kind: PeekEntityKind::Task, value: normalize_key(PeekEntityKind::Task, value) }
    }

    pub fn fmail_thread(value: &str) -> (r: Self)
        ensures
            r.kind == PeekEntityKind::FmailThread,
            r.value@ == normalize_key_spec(PeekEntityKind::FmailThread, value@),
    {
        Self {
            kind: PeekEntityKind::FmailThread,
            value: normalize_key(PeekEntityKind::FmailThread, value),
        }
    }

    pub fn file_path(value: &str) -> (r: Self)
        ensures
            r.kind == PeekEntityKind::FilePath,
            r.value@ == normalize_key_spec(PeekEntityKind::FilePath, value@),
    {
        Self {
            kind: PeekEntityKind::FilePath,
            value: normalize_key(PeekEntityKind::FilePath, value),
        }
    }

    pub fn commit(value: &str) -> (r: Self)
        ensures
            r.kind == PeekEntityKind::Commit,
            r.value@ == normalize_key_spec(PeekEntityKind::Commit, value@),
    {
        Self { kind: PeekEntityKind::Commit, value: normalize_key(PeekEntityKind::Commit, value) }
    }
}

#[derive(Debug, Clone, PartialEq, Eq)]
pub struct LoopPeekRecord {
    pub loop_id: String,
    pub health: String,
    pub current_task: Option<String>,
    pub recent_output: Vec<String>,
}

#[derive(Debug, Clone, PartialEq, Eq)]
pub struct TaskPeekRecord {
    pub task_id: String,
    pub status: String,
    pub assignee: Option<String>,
    pub description: String,
}

#[derive(Debug, Clone, PartialEq, Eq)]
pub struct FmailPeekRecord {
    pub thread_id: String,
    pub latest_from: String,
    pub latest_message: String,
    pub latest_timestamp: Option<String>,
}

#[derive(Debug, Clone, PartialEq, Eq)]
pub struct FilePeekRecord {
    pub path: String,
    pub contents: String,
    pub recent_changes: Vec<String>,
}

#[derive(Debug, Clone, PartialEq, Eq)]
pub struct CommitPeekRecord {
    pub commit_hash: String,
    pub summary: String,
    pub author: String,
    pub files_changed: Vec<String>,
}

#[derive(Debug, Clone, PartialEq, Eq, Default)]
pub struct QuickPeekCatalog {
    pub loops: Vec<LoopPeekRecord>,
    pub tasks: Vec<TaskPeekRecord>,
    pub fmail_threads: Vec<FmailPeekRecord>,
    pub files: Vec<FilePeekRecord>,
    pub commits: Vec<CommitPeekRecord>,
}

#[derive(Debug, Clone, PartialEq, Eq)]
pub struct QuickPeekPopup {
    pub target: PeekEntityRef,
    pub title: String,
    pub lines: Vec<String>,
    pub dismiss_on_any_key: bool,
}

/// A popup as values.
pub struct PopupModel {
    pub target: PeekTargetModel,
    pub title: Seq<char>,
    pub lines: Seq<Seq<char>>,
    pub dismiss_on_any_key: bool,
}

impl View for QuickPeekPopup {
    type V = PopupModel;

    open spec fn view(&self) -> PopupModel {
        PopupModel {
            target: self.target@,
            title: self.title@,
            lines: sv(self.lines@),
            dismiss_on_any_key: self.dismiss_on_any_key,
        }
    }
}

#[derive(Debug, Clone, PartialEq, Eq, Default)]
pub struct QuickPeekState {
    pub popup: Option<QuickPeekPopup>,
}

#[derive(Debug, Clone, Copy, PartialEq, Eq, Structural)]
pub enum QuickPeekEvent {
    Opened,
    Dismissed,
    NotFound,
    Noop,
}

pub open spec fn opt_popup_view(p: Option<QuickPeekPopup>) -> Option<PopupModel> {
    match p {
        Some(p) => Some(p@),
        None => None,
    }
}

// ---------------------------------------------------------------------------
// What each popup shows
// ---------------------------------------------------------------------------

/// `prefix` followed by each item, at most `n` items.
pub open spec fn indented(items: Seq<Seq<char>>, n: int) -> Seq<Seq<char>> {
    first_n(items, n).map_values(|item: Seq<char>| "  "@ + sanitize_inline(item))
}

pub open spec fn loop_lines(r: LoopPeekRecord) -> Seq<Seq<char>> {
    let head = seq![
        "health: "@ + sanitize_inline(r.health@),
        "current task: "@ + match r.current_task {
            Some(t) => sanitize_inline(t@),
            None => "-"@,
        },
    ];
    if r.recent_output@.len() == 0 {
        head.push("recent output: none"@)
    } else {
        head.push("recent output:"@) + indented(sv(r.recent_output@), 3)
    }
}

pub open spec fn task_lines(r: TaskPeekRecord) -> Seq<Seq<char>> {
    seq![
        "status: "@ + sanitize_inline(r.status@),
        "assignee: "@ + match r.assignee {
            Some(a) => sanitize_inline(a@),
            None => "unassigned"@,
        },
        "description: "@ + sanitize_inline(r.description@),
    ]
}

pub open spec fn fmail_lines(r: FmailPeekRecord) -> Seq<Seq<char>> {
    let head = seq![
        "from: "@ + sanitize_inline(r.latest_from@),
        "message: "@ + sanitize_inline(r.latest_message@),
    ];
    match r.latest_timestamp {
        Some(t) => head.push("at: "@ + sanitize_inline(t@)),
        None => head,
    }
}

/// The sanitized lines of a file and how many of them the preview leaves out.
pub open spec fn file_head(contents: Seq<char>, max_lines: int) -> (Seq<Seq<char>>, int) {
    let all = lines(contents).map_values(|l: Seq<char>| sanitize_inline(l));
    let preview = first_n(all, max_lines);
    (preview, all.len() - preview.len())
}

pub open spec fn file_lines(r: FilePeekRecord) -> Seq<Seq<char>> {
    let (preview, hidden) = file_head(r.contents@, 20);
    let head = seq!["head (20 lines max):"@];
    let body = if preview.len() == 0 {
        head.push("  <empty file>"@)
    } else {
        let shown = head + preview.map_values(|l: Seq<char>| "  "@ + l);
        if hidden > 0 {
            shown.push("  ... +"@ + dec(hidden as nat) + " more lines"@)
        } else {
            shown
        }
    };
    if r.recent_changes@.len() == 0 {
        body.push("recent changes: none"@)
    } else {
        body.push("recent changes:"@) + indented(sv(r.recent_changes@), 3)
    }
}

pub open spec fn commit_lines(r: CommitPeekRecord) -> Seq<Seq<char>> {
    let head = seq![
        "summary: "@ + sanitize_inline(r.summary@),
        "author: "@ + sanitize_inline(r.author@),
    ];
    if r.files_changed@.len() == 0 {
        head.push("files: none"@)
    } else {
        head.push("files:"@) + indented(sv(r.files_changed@), 4)
    }
}

/// The first eight characters of a normalized commit hash.
pub open spec fn short_hash_spec(hash: Seq<char>) -> Seq<char> {
    take_upto(normalize_key_spec(PeekEntityKind::Commit, hash), 8)
}

/// Whether record `i` of `c.loops` has `key` as its normalized key.
pub open spec fn loop_key_is(c: QuickPeekCatalog, key: Seq<char>) -> spec_fn(int) -> bool {
    |i: int| normalize_key_spec(PeekEntityKind::Loop, c.loops@[i].loop_id@) == key
}

pub open spec fn find_loop(c: QuickPeekCatalog, key: Seq<char>) -> Option<int> {
    first_from(0, c.loops@.len() as int, loop_key_is(c, key))
}

fn find_loop_index(catalog: &QuickPeekCatalog, key: &String) -> (r: Option<usize>)
    ensures
        r matches Some(i) ==> i < catalog.loops.len() && find_loop(*catalog, key@) == Some(i as int),
        r is None ==> find_loop(*catalog, key@) is None,
{
    let mut i: usize = 0;
    while i < catalog.loops.len()
        invariant
            i <= catalog.loops.len(),
            find_loop(*catalog, key@) == first_from(
                i as int,
                catalog.loops@.len() as int,
                loop_key_is(*catalog, key@),
            ),
        decreases catalog.loops.len() - i,
    {
        let k = normalize_key(PeekEntityKind::Loop, catalog.loops[i].loop_id.as_str());
        if k == *key {
            return Some(i);
        }
        i += 1;
    }
    None
}

/// Whether record `i` of `c.tasks` has `key` as its normalized key.
pub open spec fn task_key_is(c: QuickPeekCatalog, key: Seq<char>) -> spec_fn(int) -> bool {
    |i: int| normalize_key_spec(PeekEntityKind::Task, c.tasks@[i].task_id@) == key
}

pub open spec fn find_task(c: QuickPeekCatalog, key: Seq<char>) -> Option<int> {
    first_from(0, c.tasks@.len() as int, task_key_is(c, key))
}

fn find_task_index(catalog: &QuickPeekCatalog, key: &String) -> (r: Option<usize>)
    ensures
        r matches Some(i) ==> i < catalog.tasks.len() && find_task(*catalog, key@) == Some(i as int),
        r is None ==> find_task(*catalog, key@) is None,
{
    let mut i: usize = 0;
    while i < catalog.tasks.len()
        invariant
            i <= catalog.tasks.len(),
            find_task(*catalog, key@) == first_from(
                i as int,
                catalog.tasks@.len() as int,
                task_key_is(*catalog, key@),
            ),
        decreases catalog.tasks.len() - i,
    {
        let k = normalize_key(PeekEntityKind::Task, catalog.tasks[i].task_id.as_str());
        if k == *key {
            return Some(i);
        }
        i += 1;
    }
    None
}

/// Whether record `i` of `c.fmail_threads` has `key` as its normalized key.
pub open spec fn thread_key_is(c: QuickPeekCatalog, key: Seq<char>) -> spec_fn(int) -> bool {
    |i: int| normalize_key_spec(PeekEntityKind::FmailThread, c.fmail_threads@[i].thread_id@) == key
}

pub open spec fn find_thread(c: QuickPeekCatalog, key: Seq<char>) -> Option<int> {
    first_from(0, c.fmail_threads@.len() as int, thread_key_is(c, key))
}

fn find_thread_index(catalog: &QuickPeekCatalog, key: &String) -> (r: Option<usize>)
    ensures
        r matches Some(i) ==> i < catalog.fmail_threads.len() && find_thread(*catalog, key@) == Some(i as int),
        r is None ==> find_thread(*catalog, key@) is None,
{
    let mut i: usize = 0;
    while i < catalog.fmail_threads.len()
        invariant
            i <= catalog.fmail_threads.len(),
            find_thread(*catalog, key@) == first_from(
                i as int,
                catalog.fmail_threads@.len() as int,
                thread_key_is(*catalog, key@),
            ),
        decreases catalog.fmail_threads.len() - i,
    {
        let k = normalize_key(PeekEntityKind::FmailThread, catalog.fmail_threads[i].thread_id.as_str());
        if k == *key {
            return Some(i);
        }
        i += 1;
    }
    None
}

/// Whether record `i` of `c.files` has `key` as its normalized key.
pub open spec fn file_key_is(c: QuickPeekCatalog, key: Seq<char>) -> spec_fn(int) -> bool {
    |i: int| normalize_key_spec(PeekEntityKind::FilePath, c.files@[i].path@) == key
}

pub open spec fn find_file(c: QuickPeekCatalog, key: Seq<char>) -> Option<int> {
    first_from(0, c.files@.len() as int, file_key_is(c, key))
}

fn find_file_index(catalog: &QuickPeekCatalog, key: &String) -> (r: Option<usize>)
    ensures
        r matches Some(i) ==> i < catalog.files.len() && find_file(*catalog, key@) == Some(i as int),
        r is None ==> find_file(*catalog, key@) is None,
{
    let mut i: usize = 0;
    while i < catalog.files.len()
        invariant
            i <= catalog.files.len(),
            find_file(*catalog, key@) == first_from(
                i as int,
                catalog.files@.len() as int,
                file_key_is(*catalog, key@),
            ),
        decreases catalog.files.len() - i,
    {
        let k = normalize_key(PeekEntityKind::FilePath, catalog.files[i].path.as_str());
        if k == *key {
            return Some(i);
        }
        i += 1;
    }
    None
}

/// Whether record `i` of `c.commits` has `key` as its normalized key.
pub open spec fn commit_key_is(c: QuickPeekCatalog, key: Seq<char>) -> spec_fn(int) -> bool {
    |i: int| normalize_key_spec(PeekEntityKind::Commit, c.commits@[i].commit_hash@) == key
}

pub open spec fn find_commit(c: QuickPeekCatalog, key: Seq<char>) -> Option<int> {
    first_from(0, c.commits@.len() as int, commit_key_is(c, key))
}

fn find_commit_index(catalog: &QuickPeekCatalog, key: &String) -> (r: Option<usize>)
    ensures
        r matches Some(i) ==> i < catalog.commits.len() && find_commit(*catalog, key@) == Some(i as int),
        r is None ==> find_commit(*catalog, key@) is None,
{
    let mut i: usize = 0;
    while i < catalog.commits.len()
        invariant
            i <= catalog.commits.len(),
            find_commit(*catalog, key@) == first_from(
                i as int,
                catalog.commits@.len() as int,
                commit_key_is(*catalog, key@),
            ),
        decreases catalog.commits.len() - i,
    {
        let k = normalize_key(PeekEntityKind::Commit, catalog.commits[i].commit_hash.as_str());
        if k == *key {
            return Some(i);
        }
        i += 1;
    }
    None
}

pub open spec fn popup_model(
    kind: PeekEntityKind,
    key: Seq<char>,
    title: Seq<char>,
    lines: Seq<Seq<char>>,
) -> PopupModel {
    PopupModel {
        target: PeekTargetModel { kind, value: key },
        title,
        lines,
        dismiss_on_any_key: true,
    }
}

/// The popup for a target: the first catalog record of its kind whose
/// normalized key equals the target's normalized key, if there is one.
pub open spec fn peek_popup(target: PeekTargetModel, c: QuickPeekCatalog) -> Option<PopupModel> {
    let kind = target.kind;
    let key = normalize_key_spec(kind, target.value);
    match kind {
        PeekEntityKind::Loop => match find_loop(c, key) {
            Some(i) => Some(
                popup_model(kind, key, "Loop "@ + c.loops@[i].loop_id@, loop_lines(c.loops@[i])),
            ),
            None => None,
        },
        PeekEntityKind::Task => match find_task(c, key) {
            Some(i) => Some(
                popup_model(kind, key, "Task "@ + c.tasks@[i].task_id@, task_lines(c.tasks@[i])),
            ),
            None => None,
        },
        PeekEntityKind::FmailThread => match find_thread(c, key) {
            Some(i) => Some(
                popup_model(
                    kind,
                    key,
                    "Thread "@ + c.fmail_threads@[i].thread_id@,
                    fmail_lines(c.fmail_threads@[i]),
                ),
            ),
            None => None,
        },
        PeekEntityKind::FilePath => match find_file(c, key) {
            Some(i) => Some(
                popup_model(kind, key, "File "@ + c.files@[i].path@, file_lines(c.files@[i])),
            ),
            None => None,
        },
        PeekEntityKind::Commit => match find_commit(c, key) {
            Some(i) => Some(
                popup_model(
                    kind,
                    key,
                    "Commit "@ + short_hash_spec(c.commits@[i].commit_hash@),
                    commit_lines(c.commits@[i]),
                ),
            ),
            None => None,
        },
    }
}

// ---------------------------------------------------------------------------
// Building popups
// ---------------------------------------------------------------------------

pub fn build_quick_peek_popup(target: &PeekEntityRef, catalog: &QuickPeekCatalog) -> (r: Option<
    QuickPeekPopup,
>)
    ensures
        opt_popup_view(r) == peek_popup(target@, *catalog),
{
    let target = normalize_entity_ref(target);
    match target.kind {
        PeekEntityKind::Loop => build_loop_popup(&target, catalog),
        PeekEntityKind::Task => build_task_popup(&target, catalog),
        PeekEntityKind::FmailThread => build_fmail_popup(&target, catalog),
        PeekEntityKind::FilePath => build_file_popup(&target, catalog),
        PeekEntityKind::Commit => build_commit_popup(&target, catalog),
    }
}

/// The state's reaction to one key: an open popup is dismissed by any key;
/// otherwise a space opens the popup of the focused target, if it has one.
pub open spec fn quick_peek_step(
    popup_open: bool,
    key: char,
    focused: Option<PeekTargetModel>,
    c: QuickPeekCatalog,
) -> (QuickPeekEvent, Option<PopupModel>) {
    if popup_open {
        (QuickPeekEvent::Dismissed, None)
    } else if key != ' ' {
        (QuickPeekEvent::Noop, None)
    } else {
        match focused {
            None => (QuickPeekEvent::NotFound, None),
            Some(t) => match peek_popup(t, c) {
                None => (QuickPeekEvent::NotFound, None),
                Some(p) => (QuickPeekEvent::Opened, Some(p)),
            },
        }
    }
}

pub open spec fn opt_target_view(t: Option<&PeekEntityRef>) -> Option<PeekTargetModel> {
    match t {
        Some(t) => Some(t@),
        None => None,
    }
}

pub fn handle_quick_peek_key(
    state: &mut QuickPeekState,
    key: char,
    focused_target: Option<&PeekEntityRef>,
    catalog: &QuickPeekCatalog,
) -> (r: QuickPeekEvent)
    ensures
        (r, opt_popup_view(final(state).popup)) == quick_peek_step(
            old(state).popup is Some,
            key,
            opt_target_view(focused_target),
            *catalog,
        ),
{
    if state.popup.is_some() {
        state.popup = None;
        return QuickPeekEvent::Dismissed;
    }
    if key != ' ' {
        return QuickPeekEvent::Noop;
    }
    let target = match focused_target {
        Some(t) => t,
        None => {
            return QuickPeekEvent::NotFound;
        },
    };
    let popup = match build_quick_peek_popup(target, catalog) {
        Some(p) => p,
        None => {
            return QuickPeekEvent::NotFound;
        },
    };
    state.popup = Some(popup);
    QuickPeekEvent::Opened
}

fn sanitized_with_prefix(prefix: &str, raw: &str) -> (r: String)
    ensures
        r@ == prefix@ + sanitize_inline(raw@),
{
    let s = sanitize(raw);
    concat(prefix, s.as_str())
}

/// Pushes `"  " + sanitize(item)` for at most `n` items.
fn push_indented(lines: &mut Vec<String>, items: &Vec<String>, n: usize)
    ensures
        sv(final(lines)@) == sv(old(lines)@) + indented(sv(items@), n as int),
{
    let mut i: usize = 0;
    let limit = if n < items.len() {
        n
    } else {
        items.len()
    };
    let ghost base = sv(lines@);
    assert(first_n(sv(items@), n as int).len() == limit);
    while i < limit
        invariant
            i <= limit,
            limit == first_n(sv(items@), n as int).len(),
            limit <= items.len(),
            sv(lines@) == base + indented(sv(items@), n as int).take(i as int),
        decreases limit - i,
    {
        let line = sanitized_with_prefix("  ", items[i].as_str());
        let ghost prev = lines@;
        lines.push(line);
        proof {
            assert(sv(lines@) =~= sv(prev).push(line@));
            assert(first_n(sv(items@), n as int)[i as int] == items@[i as int]@);
            assert(indented(sv(items@), n as int)[i as int] == "  "@ + sanitize_inline(
                items@[i as int]@,
            ));
            assert(indented(sv(items@), n as int).take(i + 1) =~= indented(sv(items@), n as int).take(
                i as int,
            ).push("  "@ + sanitize_inline(items@[i as int]@)));
            assert(sv(lines@) =~= sv(lines@.drop_last()).push(lines@.last()@));
        }
        i += 1;
    }
    assert(indented(sv(items@), n as int).take(limit as int) =~= indented(sv(items@), n as int));
}

fn build_loop_popup(target: &PeekEntityRef, catalog: &QuickPeekCatalog) -> (r: Option<
    QuickPeekPopup,
>)
    requires
        target.kind == PeekEntityKind::Loop,
        target.value@ == normalize_key_spec(PeekEntityKind::Loop, target.value@),
    ensures
        opt_popup_view(r) == peek_popup(target@, *catalog),
{
    let i = match find_loop_index(catalog, &target.value) {
        Some(i) => i,
        None => {
            return None;
        },
    };
    let r = &catalog.loops[i];
    let mut lines: Vec<String> = Vec::new();
    lines.push(sanitized_with_prefix("health: ", r.health.as_str()));
    let task = match &r.current_task {
        Some(t) => sanitize(t.as_str()),
        None => copy_string("-"),
    };
    lines.push(concat("current task: ", task.as_str()));
    if r.recent_output.len() == 0 {
        lines.push(copy_string("recent output: none"));
    } else {
        lines.push(copy_string("recent output:"));
        push_indented(&mut lines, &r.recent_output, 3);
    }
    proof {
        assert(sv(lines@) =~= loop_lines(*r));
    }
    Some(
        QuickPeekPopup {
            target: PeekEntityRef { kind: target.kind, value: target.value.clone() },
            title: concat("Loop ", r.loop_id.as_str()),
            lines,
            dismiss_on_any_key: true,
        },
    )
}

fn build_task_popup(target: &PeekEntityRef, catalog: &QuickPeekCatalog) -> (r: Option<
    QuickPeekPopup,
>)
    requires
        target.kind == PeekEntityKind::Task,
        target.value@ == normalize_key_spec(PeekEntityKind::Task, target.value@),
    ensures
        opt_popup_view(r) == peek_popup(target@, *catalog),
{
    let i = match find_task_index(catalog, &target.value) {
        Some(i) => i,
        None => {
            return None;
        },
    };
    let r = &catalog.tasks[i];
    let mut lines: Vec<String> = Vec::new();
    lines.push(sanitized_with_prefix("status: ", r.status.as_str()));
    let assignee = match &r.assignee {
        Some(a) => sanitize(a.as_str()),
        None => copy_string("unassigned"),
    };
    lines.push(concat("assignee: ", assignee.as_str()));
    lines.push(sanitized_with_prefix("description: ", r.description.as_str()));
    proof {
        assert(sv(lines@) =~= task_lines(*r));
    }
    Some(
        QuickPeekPopup {
            target: PeekEntityRef { kind: target.kind, value: target.value.clone() },
            title: concat("Task ", r.task_id.as_str()),
            lines,
            dismiss_on_any_key: true,
        },
    )
}

fn build_fmail_popup(target: &PeekEntityRef, catalog: &QuickPeekCatalog) -> (r: Option<
    QuickPeekPopup,
>)
    requires
        target.kind == PeekEntityKind::FmailThread,
        target.value@ == normalize_key_spec(PeekEntityKind::FmailThread, target.value@),
    ensures
        opt_popup_view(r) == peek_popup(target@, *catalog),
{
    let i = match find_thread_index(catalog, &target.value) {
        Some(i) => i,
        None => {
            return None;
        },
    };
    let r = &catalog.fmail_threads[i];
    let mut lines: Vec<String> = Vec::new();
    lines.push(sanitized_with_prefix("from: ", r.latest_from.as_str()));
    lines.push(sanitized_with_prefix("message: ", r.latest_message.as_str()));
    match &r.latest_timestamp {
        Some(t) => {
            lines.push(sanitized_with_prefix("at: ", t.as_str()));
        },
        None => {},
    }
    proof {
        assert(sv(lines@) =~= fmail_lines(*r));
    }
    Some(
        QuickPeekPopup {
            target: PeekEntityRef { kind: target.kind, value: target.value.clone() },
            title: concat("Thread ", r.thread_id.as_str()),
            lines,
            dismiss_on_any_key: true,
        },
    )
}

fn build_file_popup(target: &PeekEntityRef, catalog: &QuickPeekCatalog) -> (r: Option<
    QuickPeekPopup,
>)
    requires
        target.kind == PeekEntityKind::FilePath,
        target.value@ == normalize_key_spec(PeekEntityKind::FilePath, target.value@),
    ensures
        opt_popup_view(r) == peek_popup(target@, *catalog),
{
    let i = match find_file_index(catalog, &target.value) {
        Some(i) => i,
        None => {
            return None;
        },
    };
    let r = &catalog.files[i];
    let (preview, hidden) = head_lines(r.contents.as_str(), 20);
    let ghost spec_head = file_head(r.contents@, 20);
    assert(sv(preview@) == spec_head.0);
    assert(hidden as int == spec_head.1);
    let mut lines: Vec<String> = Vec::new();
    lines.push(copy_string("head (20 lines max):"));
    let ghost head = sv(lines@);
    assert(head =~= seq!["head (20 lines max):"@]);
    if preview.len() == 0 {
        let l = copy_string("  <empty file>");
        lines.push(l);
        assert(sv(lines@) =~= head.push(l@));
    } else {
        let mut k: usize = 0;
        while k < preview.len()
            invariant
                k <= preview.len(),
                sv(lines@) == head + sv(preview@).take(k as int).map_values(
                    |l: Seq<char>| "  "@ + l,
                ),
            decreases preview.len() - k,
        {
            let ghost prev = lines@;
            let l = concat("  ", preview[k].as_str());
            lines.push(l);
            proof {
                assert(sv(lines@) =~= sv(prev).push(l@));
                assert(sv(preview@).take(k + 1).map_values(|l: Seq<char>| "  "@ + l)
                    =~= sv(preview@).take(k as int).map_values(|l: Seq<char>| "  "@ + l).push(
                    "  "@ + preview@[k as int]@,
                ));
                assert(sv(lines@) =~= sv(lines@.drop_last()).push(lines@.last()@));
            }
            k += 1;
        }
        assert(sv(preview@).take(preview.len() as int) =~= sv(preview@));
        if hidden > 0 {
            let mut line = copy_string("  ... +");
            let count = u64_to_string(hidden as u64);
            crate::text::push_str(&mut line, count.as_str());
            crate::text::push_str(&mut line, " more lines");
            let ghost prev = lines@;
            lines.push(line);
            assert(sv(lines@) =~= sv(prev).push(line@));
        }
    }
    let ghost body = sv(lines@);
    assert(body == {
        let head = seq!["head (20 lines max):"@];
        if spec_head.0.len() == 0 {
            head.push("  <empty file>"@)
        } else {
            let shown = head + spec_head.0.map_values(|l: Seq<char>| "  "@ + l);
            if spec_head.1 > 0 {
                shown.push("  ... +"@ + dec(spec_head.1 as nat) + " more lines"@)
            } else {
                shown
            }
        }
    });
    if r.recent_changes.len() == 0 {
        lines.push(copy_string("recent changes: none"));
    } else {
        lines.push(copy_string("recent changes:"));
        push_indented(&mut lines, &r.recent_changes, 3);
    }
    proof {
        assert(sv(lines@) =~= file_lines(*r));
    }
    Some(
        QuickPeekPopup {
            target: PeekEntityRef { kind: target.kind, value: target.value.clone() },
            title: concat("File ", r.path.as_str()),
            lines,
            dismiss_on_any_key: true,
        },
    )
}

fn build_commit_popup(target: &PeekEntityRef, catalog: &QuickPeekCatalog) -> (r: Option<
    QuickPeekPopup,
>)
    requires
        target.kind == PeekEntityKind::Commit,
        target.value@ == normalize_key_spec(PeekEntityKind::Commit, target.value@),
    ensures
        opt_popup_view(r) == peek_popup(target@, *catalog),
{
    let i = match find_commit_index(catalog, &target.value) {
        Some(i) => i,
        None => {
            return None;
        },
    };
    let r = &catalog.commits[i];
    let mut lines: Vec<String> = Vec::new();
    lines.push(sanitized_with_prefix("summary: ", r.summary.as_str()));
    lines.push(sanitized_with_prefix("author: ", r.author.as_str()));
    if r.files_changed.len() == 0 {
        lines.push(copy_string("files: none"));
    } else {
        lines.push(copy_string("files:"));
        push_indented(&mut lines, &r.files_changed, 4);
    }
    proof {
        assert(sv(lines@) =~= commit_lines(*r));
    }
    let short = short_hash(r.commit_hash.as_str());
    Some(
        QuickPeekPopup {
            target: PeekEntityRef { kind: target.kind, value: target.value.clone() },
            title: concat("Commit ", short.as_str()),
            lines,
            dismiss_on_any_key: true,
        },
    )
}

fn normalize_entity_ref(target: &PeekEntityRef) -> (r: PeekEntityRef)
    ensures
        r.kind == target.kind,
        r.value@ == normalize_key_spec(target.kind, target.value@),
        r.value@ == normalize_key_spec(r.kind, r.value@),
{
    let value = normalize_key(target.kind, target.value.as_str());
    proof {
        lemma_normalize_key_idempotent(target.kind, target.value@);
    }
    PeekEntityRef { kind: target.kind, value }
}

fn normalize_key(kind: PeekEntityKind, raw: &str) -> (r: String)
    ensures
        r@ == normalize_key_spec(kind, raw@),
{
    let trimmed = trim_str(raw);
    match kind {
        PeekEntityKind::FilePath => trimmed,
        _ => lowercase(trimmed.as_str()),
    }
}

fn head_lines(contents: &str, max_lines: usize) -> (r: (Vec<String>, usize))
    ensures
        (sv(r.0@), r.1 as int) == file_head(contents@, max_lines as int),
{
    let raw = split_lines(contents);
    let ghost all = lines(contents@).map_values(|l: Seq<char>| sanitize_inline(l));
    let mut preview: Vec<String> = Vec::new();
    let mut i: usize = 0;
    let limit = if max_lines < raw.len() {
        max_lines
    } else {
        raw.len()
    };
    while i < limit
        invariant
            i <= limit <= raw.len(),
            sv(raw@) == lines(contents@),
            all == lines(contents@).map_values(|l: Seq<char>| sanitize_inline(l)),
            all.len() == raw.len(),
            sv(preview@) == all.take(i as int),
        decreases limit - i,
    {
        let ghost prev = preview@;
        let l = sanitize(raw[i].as_str());
        preview.push(l);
        proof {
            assert(sv(preview@) =~= sv(prev).push(l@));
            assert(sv(raw@)[i as int] == raw@[i as int]@);
            assert(all[i as int] == sanitize_inline(raw@[i as int]@));
            assert(all.take(i + 1) =~= all.take(i as int).push(all[i as int]));
            assert(sv(preview@) =~= sv(preview@.drop_last()).push(preview@.last()@));
        }
        i += 1;
    }
    assert(all.take(limit as int) =~= first_n(all, max_lines as int));
    (preview, raw.len() - limit)
}

fn short_hash(hash: &str) -> (r: String)
    ensures
        r@ == short_hash_spec(hash@),
{
    let normalized = normalize_key(PeekEntityKind::Commit, hash);
    take_chars(normalized.as_str(), 8)
}

// ---------------------------------------------------------------------------
// Laws
// ---------------------------------------------------------------------------

proof fn lemma_lower_idempotent(s: Seq<char>)
    ensures
        lower(lower(s)) == lower(s),
{
    assert(lower(lower(s)) =~= lower(s));
}

proof fn lemma_trim_idempotent(s: Seq<char>)
    ensures
        trim(trim(s)) == trim(s),
{
    let t = trim(s);
    crate::text::lemma_trim_len(s);
    if t.len() == 0 {
        assert(trim(t) == t) by {
            assert(crate::text::trim_start(t) == t);
            assert(crate::text::trim_end(t) == t);
        }
    } else {
        lemma_trim_ends(s);
        crate::text::lemma_trim_subrange(t, 0, t.len() as int);
        assert(t.subrange(0, t.len() as int) =~= t);
    }
}

/// A non-empty trimmed sequence begins and ends with non-whitespace.
proof fn lemma_trim_ends(s: Seq<char>)
    ensures
        trim(s).len() > 0 ==> !crate::text::is_ws(trim(s)[0]) && !crate::text::is_ws(
            trim(s).last(),
        ),
    decreases s.len(),
{
    lemma_trim_start_first(s);
    lemma_trim_end_prefix(crate::text::trim_start(s));
}

proof fn lemma_trim_start_first(s: Seq<char>)
    ensures
        crate::text::trim_start(s).len() > 0 ==> !crate::text::is_ws(crate::text::trim_start(s)[0]),
    decreases s.len(),
{
    if s.len() > 0 && crate::text::is_ws(s[0]) {
        lemma_trim_start_first(s.drop_first());
    }
}

proof fn lemma_trim_end_prefix(s: Seq<char>)
    ensures
        crate::text::trim_end(s).len() <= s.len(),
        forall|i: int| 0 <= i < crate::text::trim_end(s).len() ==> crate::text::trim_end(s)[i] == s[i],
        crate::text::trim_end(s).len() > 0 ==> !crate::text::is_ws(crate::text::trim_end(s).last()),
    decreases s.len(),
{
    if s.len() > 0 && crate::text::is_ws(s.last()) {
        lemma_trim_end_prefix(s.drop_last());
        assert forall|i: int| 0 <= i < crate::text::trim_end(s).len() implies crate::text::trim_end(
            s,
        )[i] == s[i] by {
            assert(s.drop_last()[i] == s[i]);
        }
    }
}

proof fn lemma_trim_lower_commute(s: Seq<char>)
    ensures
        trim(lower(s)) == lower(trim(s)),
{
    lemma_trim_start_lower(s);
    lemma_trim_end_lower(crate::text::trim_start(s));
}

proof fn lemma_trim_start_lower(s: Seq<char>)
    ensures
        crate::text::trim_start(lower(s)) == lower(crate::text::trim_start(s)),
    decreases s.len(),
{
    if s.len() > 0 {
        assert(lower(s)[0] == crate::text::lower_char(s[0]));
        assert(lower(s).drop_first() =~= lower(s.drop_first()));
        lemma_trim_start_lower(s.drop_first());
    }
}

proof fn lemma_trim_end_lower(s: Seq<char>)
    ensures
        crate::text::trim_end(lower(s)) == lower(crate::text::trim_end(s)),
    decreases s.len(),
{
    if s.len() > 0 {
        assert(lower(s).last() == crate::text::lower_char(s.last()));
        assert(lower(s).drop_last() =~= lower(s.drop_last()));
        lemma_trim_end_lower(s.drop_last());
    }
}

/// Normalizing a key twice gives what normalizing it once gives, so a
/// reference built from an already normalized key finds the same record.
pub proof fn lemma_normalize_key_idempotent(kind: PeekEntityKind, raw: Seq<char>)
    ensures
        normalize_key_spec(kind, normalize_key_spec(kind, raw)) == normalize_key_spec(kind, raw),
{
    lemma_trim_idempotent(raw);
    lemma_trim_lower_commute(trim(raw));
    lemma_lower_idempotent(trim(raw));
}

/// A popup, once open, is dismissed by the next key, whatever it is, and
/// the state is left without a popup.
pub proof fn law_open_popup_dismissed_by_any_key(
    key: char,
    focused: Option<PeekTargetModel>,
    c: QuickPeekCatalog,
)
    ensures
        quick_peek_step(true, key, focused, c) == (QuickPeekEvent::Dismissed, None::<PopupModel>),
{
}

/// Whenever a space opens a popup, the popup targets the focused entity by
/// its normalized key and can be dismissed by any key.
pub proof fn law_opened_popup_targets_focus(t: PeekTargetModel, c: QuickPeekCatalog)
    ensures
        quick_peek_step(false, ' ', Some(t), c).0 == QuickPeekEvent::Opened ==> {
            let p = quick_peek_step(false, ' ', Some(t), c).1->0;
            &&& p.target.kind == t.kind
            &&& p.target.value == normalize_key_spec(t.kind, t.value)
            &&& p.dismiss_on_any_key
        },
{
}

/// Some record of the target's kind has `key` as its normalized key.
pub open spec fn has_record(kind: PeekEntityKind, c: QuickPeekCatalog, key: Seq<char>) -> bool {
    match kind {
        PeekEntityKind::Loop => exists|i: int| 0 <= i < c.loops@.len() && #[trigger] loop_key_is(c, key)(i),
        PeekEntityKind::Task => exists|i: int| 0 <= i < c.tasks@.len() && #[trigger] task_key_is(c, key)(i),
        PeekEntityKind::FmailThread => exists|i: int|
            0 <= i < c.fmail_threads@.len() && #[trigger] thread_key_is(c, key)(i),
        PeekEntityKind::FilePath => exists|i: int| 0 <= i < c.files@.len() && #[trigger] file_key_is(c, key)(i),
        PeekEntityKind::Commit => exists|i: int| 0 <= i < c.commits@.len() && #[trigger] commit_key_is(c, key)(i),
    }
}

/// A target has a popup exactly when some record of its kind has the
/// target's normalized key; the popup then targets that kind and key and
/// is dismissed by any key.
pub proof fn law_popup_exactly_when_a_record_matches(t: PeekTargetModel, c: QuickPeekCatalog)
    ensures
        peek_popup(t, c) is Some <==> has_record(t.kind, c, normalize_key_spec(t.kind, t.value)),
        peek_popup(t, c) matches Some(p) ==> p.target == (PeekTargetModel {
            kind: t.kind,
            value: normalize_key_spec(t.kind, t.value),
        }) && p.dismiss_on_any_key,
{
    let key = normalize_key_spec(t.kind, t.value);
    match t.kind {
        PeekEntityKind::Loop => lemma_first_from(0, c.loops@.len() as int, loop_key_is(c, key)),
        PeekEntityKind::Task => lemma_first_from(0, c.tasks@.len() as int, task_key_is(c, key)),
        PeekEntityKind::FmailThread => lemma_first_from(
            0,
            c.fmail_threads@.len() as int,
            thread_key_is(c, key),
        ),
        PeekEntityKind::FilePath => lemma_first_from(0, c.files@.len() as int, file_key_is(c, key)),
        PeekEntityKind::Commit => lemma_first_from(0, c.commits@.len() as int, commit_key_is(c, key)),
    }
}

/// The popup of a mail thread, for the first thread whose id matches the
/// target, shows who sent the latest message, the message and, when the
/// thread records one, its time; each with its runs of whitespace collapsed
/// to single spaces.
pub proof fn law_thread_popup_shows_sender_message_and_time(t: PeekTargetModel, c: QuickPeekCatalog, i: int)
    requires
        t.kind == PeekEntityKind::FmailThread,
        0 <= i < c.fmail_threads@.len(),
        normalize_key_spec(t.kind, c.fmail_threads@[i].thread_id@) == normalize_key_spec(t.kind, t.value),
        forall|j: int|
            0 <= j < i ==> normalize_key_spec(t.kind, (#[trigger] c.fmail_threads@[j]).thread_id@)
                != normalize_key_spec(t.kind, t.value),
    ensures
        peek_popup(t, c) is Some,
        ({
            let p = peek_popup(t, c)->Some_0;
            let r = c.fmail_threads@[i];
            &&& p.lines.len() >= 2
            &&& p.lines[0] == "from: "@ + sanitize_inline(r.latest_from@)
            &&& p.lines[1] == "message: "@ + sanitize_inline(r.latest_message@)
            &&& match r.latest_timestamp {
                Some(ts) => p.lines.len() == 3 && p.lines.last() == "at: "@ + sanitize_inline(ts@),
                None => p.lines.len() == 2,
            }
        }),
{
    let key = normalize_key_spec(t.kind, t.value);
    lemma_first_from(0, c.fmail_threads@.len() as int, thread_key_is(c, key));
    assert(thread_key_is(c, key)(i));
    if let Some(k) = find_thread(c, key) {
        if k < i {
            assert(thread_key_is(c, key)(k));
        }
    }
}

/// The popup of a task, for the first task whose id matches the target,
/// shows its status, its assignee (or `unassigned`) and its description.
pub proof fn law_task_popup_shows_status_assignee_and_description(t: PeekTargetModel, c: QuickPeekCatalog, i: int)
    requires
        t.kind == PeekEntityKind::Task,
        0 <= i < c.tasks@.len(),
        normalize_key_spec(t.kind, c.tasks@[i].task_id@) == normalize_key_spec(t.kind, t.value),
        forall|j: int|
            0 <= j < i ==> normalize_key_spec(t.kind, (#[trigger] c.tasks@[j]).task_id@) != normalize_key_spec(
                t.kind,
                t.value,
            ),
    ensures
        peek_popup(t, c) is Some,
        ({
            let p = peek_popup(t, c)->Some_0;
            let r = c.tasks@[i];
            &&& p.lines.len() == 3
            &&& p.lines[0] == "status: "@ + sanitize_inline(r.status@)
            &&& p.lines[1] == "assignee: "@ + match r.assignee {
                Some(a) => sanitize_inline(a@),
                None => "unassigned"@,
            }
            &&& p.lines[2] == "description: "@ + sanitize_inline(r.description@)
        }),
{
    let key = normalize_key_spec(t.kind, t.value);
    lemma_first_from(0, c.tasks@.len() as int, task_key_is(c, key));
    assert(task_key_is(c, key)(i));
    if let Some(k) = find_task(c, key) {
        if k < i {
            assert(task_key_is(c, key)(k));
        }
    }
}

} // verus!
