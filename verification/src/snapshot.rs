//! The plain-text loop snapshot printed when no terminal is attached.
use vstd::prelude::*;

use std::collections::HashMap;

use crate::app::LoopView;
use crate::bootstrap::{sort_loop_views, sort_loops};
use crate::json::{as_str, get, json_get, json_str, opt_val, parse_json, text_json, JsonValue};
use crate::text::{
    first_after, insert_pos, sort_by_spec,
    char_count, concat, copy_string, dec, first_n, i64_to_string, int_dec, join, lex_order,
    lower, lowercase, order_strings, push_char, push_str, str_eq, sv, take_chars, take_upto,
    trim_str, u64_to_string,
};

verus! {

/// Loop counts and team work read from the database for the snapshot.
#[derive(Debug, Clone, Default)]
pub struct LiveLoopSnapshot {
    pub loops: Vec<LoopView>,
    pub total_queue_depth: usize,
    pub profile_count: usize,
    pub running: usize,
    pub sleeping: usize,
    pub waiting: usize,
    pub stopped: usize,
    pub errored: usize,
    pub teams: Vec<TeamSummaryView>,
    pub team_tasks: Vec<TeamTaskInboxView>,
    pub log_paths: HashMap<String, String>,
}

#[derive(Debug, Clone, Default)]
pub struct TeamSummaryView {
    pub id: String,
    pub name: String,
    pub members: usize,
    pub queued: usize,
    pub assigned: usize,
    pub running: usize,
    pub blocked: usize,
    pub open: usize,
}

#[derive(Debug, Clone, Default)]
pub struct TeamTaskInboxView {
    pub id: String,
    pub team_name: String,
    pub status: String,
    pub priority: i64,
    pub assigned_agent_id: String,
    pub title: String,
}

// ---------------------------------------------------------------------------
// Environment switches
// ---------------------------------------------------------------------------

/// A switch that is set: `1`, `true`, `yes` or `on`, in any ASCII case,
/// around whitespace.
pub open spec fn truthy_spec(raw: Option<Seq<char>>) -> bool {
    match raw {
        Some(v) => {
            let n = lower(crate::text::trim(v));
            n == "1"@ || n == "true"@ || n == "yes"@ || n == "on"@
        },
        None => false,
    }
}

pub fn is_truthy_value(raw: Option<&str>) -> (r: bool)
    ensures
        r == truthy_spec(
            match raw {
                Some(v) => Some(v@),
                None => None,
            },
        ),
{
    match raw {
        Some(v) => {
            let n = lowercase(trim_str(v).as_str());
            str_eq(n.as_str(), "1") || str_eq(n.as_str(), "true") || str_eq(n.as_str(), "yes")
                || str_eq(n.as_str(), "on")
        },
        None => false,
    }
}

/// The runtime switch asks for the retired legacy runtime: `legacy` or
/// `old`, in any ASCII case, around whitespace.
pub open spec fn legacy_spec(raw: Option<Seq<char>>) -> bool {
    match raw {
        Some(v) => {
            let n = lower(crate::text::trim(v));
            n == "legacy"@ || n == "old"@
        },
        None => false,
    }
}

pub fn is_legacy_runtime_value(raw: Option<&str>) -> (r: bool)
    ensures
        r == legacy_spec(
            match raw {
                Some(v) => Some(v@),
                None => None,
            },
        ),
{
    match raw {
        Some(v) => {
            let n = lowercase(trim_str(v).as_str());
            str_eq(n.as_str(), "legacy") || str_eq(n.as_str(), "old")
        },
        None => false,
    }
}

// ---------------------------------------------------------------------------
// Cells
// ---------------------------------------------------------------------------

/// `value` cut to `max` characters, a cut value ending in `~`.
pub open spec fn clip(value: Seq<char>, max: int) -> Seq<char> {
    if value.len() <= max {
        value
    } else if max <= 1 {
        take_upto(value, max)
    } else {
        value.take(max - 1).push('~')
    }
}

pub fn trim(value: &str, max: usize) -> (r: String)
    ensures
        r@ == clip(value@, max as int),
{
    let n = char_count(value);
    if n <= max {
        return copy_string(value);
    }
    if max <= 1 {
        return take_chars(value, max);
    }
    let mut out = take_chars(value, max - 1);
    push_char(&mut out, '~');
    out
}

pub open spec fn spaces(n: int) -> Seq<char> {
    Seq::new(if n > 0 { n as nat } else { 0 }, |i: int| ' ')
}

/// Left-aligned in a field of `w` characters.
pub open spec fn pad_right(s: Seq<char>, w: int) -> Seq<char> {
    s + spaces(w - s.len())
}

/// Right-aligned in a field of `w` characters.
pub open spec fn pad_left(s: Seq<char>, w: int) -> Seq<char> {
    spaces(w - s.len()) + s
}

fn push_spaces(out: &mut String, n: usize)
    ensures
        final(out)@ == old(out)@ + spaces(n as int),
{
    let ghost start = old(out)@;
    let mut k: usize = 0;
    while k < n
        invariant
            k <= n,
            out@ == start + spaces(k as int),
        decreases n - k,
    {
        push_char(out, ' ');
        k += 1;
        assert(out@ =~= start + spaces(k as int));
    }
}

fn push_right(out: &mut String, s: &str, w: usize)
    ensures
        final(out)@ == old(out)@ + pad_right(s@, w as int),
{
    let n = char_count(s);
    push_str(out, s);
    let fill = if n < w {
        w - n
    } else {
        0
    };
    let ghost mid = out@;
    push_spaces(out, fill);
    assert(spaces(fill as int) =~= spaces(w - s@.len()));
}

fn push_left(out: &mut String, s: &str, w: usize)
    ensures
        final(out)@ == old(out)@ + pad_left(s@, w as int),
{
    let n = char_count(s);
    let fill = if n < w {
        w - n
    } else {
        0
    };
    push_spaces(out, fill);
    assert(spaces(fill as int) =~= spaces(w - s@.len()));
    push_str(out, s);
}

// ---------------------------------------------------------------------------
// Report
// ---------------------------------------------------------------------------

pub open spec fn display_id(l: LoopView) -> Seq<char> {
    if crate::text::trim(l.short_id@).len() == 0 {
        clip(l.id@, 10)
    } else {
        clip(l.short_id@, 10)
    }
}

pub open spec fn display_profile(l: LoopView) -> Seq<char> {
    if crate::text::trim(l.profile_name@).len() == 0 {
        "-"@
    } else {
        clip(l.profile_name@, 18)
    }
}

pub open spec fn loop_header() -> Seq<char> {
    pad_right("ID"@, 10) + " "@ + pad_right("STATE"@, 9) + " "@ + pad_left("RUNS"@, 5) + " "@
        + pad_left("QUEUE"@, 6) + " "@ + pad_right("PROFILE"@, 18) + " NAME"@
}

pub open spec fn loop_row(l: LoopView) -> Seq<char> {
    pad_right(display_id(l), 10) + " "@ + pad_right(clip(l.state@, 9), 9) + " "@ + pad_left(
        dec(l.runs as nat),
        5,
    ) + " "@ + pad_left(dec(l.queue_depth as nat), 6) + " "@ + pad_right(display_profile(l), 18)
        + " "@ + clip(l.name@, 60)
}

pub open spec fn team_header() -> Seq<char> {
    pad_right("TEAM"@, 18) + " "@ + pad_left("MEMBER"@, 7) + " "@ + pad_left("OPEN"@, 7) + " "@
        + pad_left("QUEUED"@, 8) + " "@ + pad_left("ASSIGN"@, 7) + " "@ + pad_left("RUN"@, 7)
        + " "@ + pad_left("BLOCK"@, 6)
}

pub open spec fn team_row(t: TeamSummaryView) -> Seq<char> {
    pad_right(clip(t.name@, 18), 18) + " "@ + pad_left(dec(t.members as nat), 7) + " "@ + pad_left(
        dec(t.open as nat),
        7,
    ) + " "@ + pad_left(dec(t.queued as nat), 8) + " "@ + pad_left(dec(t.assigned as nat), 7)
        + " "@ + pad_left(dec(t.running as nat), 7) + " "@ + pad_left(dec(t.blocked as nat), 6)
}

pub open spec fn task_header() -> Seq<char> {
    pad_right("TASK"@, 10) + " "@ + pad_right("TEAM"@, 14) + " "@ + pad_right("STATUS"@, 9) + " "@
        + pad_left("PRIORITY"@, 8) + " "@ + pad_right("ASSIGNEE"@, 14) + " TITLE"@
}

pub open spec fn display_assignee(t: TeamTaskInboxView) -> Seq<char> {
    if crate::text::trim(t.assigned_agent_id@).len() == 0 {
        "-"@
    } else {
        clip(t.assigned_agent_id@, 14)
    }
}

pub open spec fn task_row(t: TeamTaskInboxView) -> Seq<char> {
    pad_right(clip(t.id@, 10), 10) + " "@ + pad_right(clip(t.team_name@, 14), 14) + " "@
        + pad_right(clip(t.status@, 9), 9) + " "@ + pad_left(int_dec(t.priority as int), 8) + " "@
        + pad_right(display_assignee(t), 14) + " "@ + clip(t.title@, 48)
}

/// A section: its empty note, or its header and one row per item among the
/// first 40.
pub open spec fn section<T>(items: Seq<T>, empty: Seq<char>, header: Seq<char>, row: spec_fn(T) -> Seq<char>) -> Seq<
    Seq<char>,
> {
    if items.len() == 0 {
        seq![empty]
    } else {
        seq![header] + first_n(items, 40).map_values(row)
    }
}

/// The snapshot report under the rendered dashboard: totals, then the
/// loops, teams and open team tasks as tables.
pub open spec fn report_spec(db: Seq<char>, s: LiveLoopSnapshot) -> Seq<Seq<char>> {
    seq![
        Seq::empty(),
        "forge loop snapshot (rust)"@,
        "db: "@ + db,
        "loops: "@ + dec(s.loops@.len()) + "  queue(pending): "@ + dec(s.total_queue_depth as nat)
            + "  profiles: "@ + dec(s.profile_count as nat),
        "states: running="@ + dec(s.running as nat) + " sleeping="@ + dec(s.sleeping as nat)
            + " waiting="@ + dec(s.waiting as nat) + " stopped="@ + dec(s.stopped as nat)
            + " error="@ + dec(s.errored as nat),
        Seq::empty(),
    ] + section(s.loops@, "No loops found"@, loop_header(), |l: LoopView| loop_row(l)) + seq![
        Seq::empty(),
        "teams snapshot (read-only):"@,
    ] + section(s.teams@, "No teams found"@, team_header(), |t: TeamSummaryView| team_row(t))
        + seq![Seq::empty(), "team task inbox (read-only):"@] + section(
        s.team_tasks@,
        "No open team tasks"@,
        task_header(),
        |t: TeamTaskInboxView| task_row(t),
    )
}

fn loop_header_text() -> (r: String)
    ensures
        r@ == loop_header(),
{
    let mut r = String::new();
    push_right(&mut r, "ID", 10);
    push_str(&mut r, " ");
    push_right(&mut r, "STATE", 9);
    push_str(&mut r, " ");
    push_left(&mut r, "RUNS", 5);
    push_str(&mut r, " ");
    push_left(&mut r, "QUEUE", 6);
    push_str(&mut r, " ");
    push_right(&mut r, "PROFILE", 18);
    push_str(&mut r, " NAME");
    r
}

fn loop_row_text(l: &LoopView) -> (r: String)
    ensures
        r@ == loop_row(*l),
{
    let id = if trim_str(l.short_id.as_str()).as_str().is_empty() {
        trim(l.id.as_str(), 10)
    } else {
        trim(l.short_id.as_str(), 10)
    };
    let profile = if trim_str(l.profile_name.as_str()).as_str().is_empty() {
        copy_string("-")
    } else {
        trim(l.profile_name.as_str(), 18)
    };
    let mut r = String::new();
    push_right(&mut r, id.as_str(), 10);
    push_str(&mut r, " ");
    push_right(&mut r, trim(l.state.as_str(), 9).as_str(), 9);
    push_str(&mut r, " ");
    push_left(&mut r, u64_to_string(l.runs as u64).as_str(), 5);
    push_str(&mut r, " ");
    push_left(&mut r, u64_to_string(l.queue_depth as u64).as_str(), 6);
    push_str(&mut r, " ");
    push_right(&mut r, profile.as_str(), 18);
    push_str(&mut r, " ");
    push_str(&mut r, trim(l.name.as_str(), 60).as_str());
    r
}

fn team_header_text() -> (r: String)
    ensures
        r@ == team_header(),
{
    let mut r = String::new();
    push_right(&mut r, "TEAM", 18);
    push_str(&mut r, " ");
    push_left(&mut r, "MEMBER", 7);
    push_str(&mut r, " ");
    push_left(&mut r, "OPEN", 7);
    push_str(&mut r, " ");
    push_left(&mut r, "QUEUED", 8);
    push_str(&mut r, " ");
    push_left(&mut r, "ASSIGN", 7);
    push_str(&mut r, " ");
    push_left(&mut r, "RUN", 7);
    push_str(&mut r, " ");
    push_left(&mut r, "BLOCK", 6);
    r
}

fn team_row_text(t: &TeamSummaryView) -> (r: String)
    ensures
        r@ == team_row(*t),
{
    let mut r = String::new();
    push_right(&mut r, trim(t.name.as_str(), 18).as_str(), 18);
    push_str(&mut r, " ");
    push_left(&mut r, u64_to_string(t.members as u64).as_str(), 7);
    push_str(&mut r, " ");
    push_left(&mut r, u64_to_string(t.open as u64).as_str(), 7);
    push_str(&mut r, " ");
    push_left(&mut r, u64_to_string(t.queued as u64).as_str(), 8);
    push_str(&mut r, " ");
    push_left(&mut r, u64_to_string(t.assigned as u64).as_str(), 7);
    push_str(&mut r, " ");
    push_left(&mut r, u64_to_string(t.running as u64).as_str(), 7);
    push_str(&mut r, " ");
    push_left(&mut r, u64_to_string(t.blocked as u64).as_str(), 6);
    r
}

fn task_header_text() -> (r: String)
    ensures
        r@ == task_header(),
{
    let mut r = String::new();
    push_right(&mut r, "TASK", 10);
    push_str(&mut r, " ");
    push_right(&mut r, "TEAM", 14);
    push_str(&mut r, " ");
    push_right(&mut r, "STATUS", 9);
    push_str(&mut r, " ");
    push_left(&mut r, "PRIORITY", 8);
    push_str(&mut r, " ");
    push_right(&mut r, "ASSIGNEE", 14);
    push_str(&mut r, " TITLE");
    r
}

fn task_row_text(t: &TeamTaskInboxView) -> (r: String)
    ensures
        r@ == task_row(*t),
{
    let assignee = if trim_str(t.assigned_agent_id.as_str()).as_str().is_empty() {
        copy_string("-")
    } else {
        trim(t.assigned_agent_id.as_str(), 14)
    };
    let mut r = String::new();
    push_right(&mut r, trim(t.id.as_str(), 10).as_str(), 10);
    push_str(&mut r, " ");
    push_right(&mut r, trim(t.team_name.as_str(), 14).as_str(), 14);
    push_str(&mut r, " ");
    push_right(&mut r, trim(t.status.as_str(), 9).as_str(), 9);
    push_str(&mut r, " ");
    push_left(&mut r, i64_to_string(t.priority).as_str(), 8);
    push_str(&mut r, " ");
    push_right(&mut r, assignee.as_str(), 14);
    push_str(&mut r, " ");
    push_str(&mut r, trim(t.title.as_str(), 48).as_str());
    r
}

fn push_line(lines: &mut Vec<String>, s: String)
    ensures
        sv(final(lines)@) == sv(old(lines)@).push(s@),
{
    let ghost prev = lines@;
    lines.push(s);
    assert(sv(lines@) =~= sv(prev).push(s@));
}

fn push_loop_section(lines: &mut Vec<String>, loops: &Vec<LoopView>)
    ensures
        sv(final(lines)@) == sv(old(lines)@) + section(
            loops@,
            "No loops found"@,
            loop_header(),
            |l: LoopView| loop_row(l),
        ),
{
    let ghost start = sv(lines@);
    if loops.len() == 0 {
        push_line(lines, copy_string("No loops found"));
        assert(sv(lines@) =~= start + seq!["No loops found"@]);
        return;
    }
    push_line(lines, loop_header_text());
    let n = if loops.len() < 40 {
        loops.len()
    } else {
        40
    };
    let ghost rows = first_n(loops@, 40).map_values(|l: LoopView| loop_row(l));
    assert(rows.len() == n);
    let mut i: usize = 0;
    while i < n
        invariant
            i <= n,
            n <= loops.len(),
            rows.len() == n,
            rows == first_n(loops@, 40).map_values(|l: LoopView| loop_row(l)),
            forall|k: int| 0 <= k < n ==> rows[k] == loop_row(loops@[k]),
            sv(lines@) == start + seq![loop_header()] + rows.take(i as int),
        decreases n - i,
    {
        let row = loop_row_text(&loops[i]);
        assert(rows.take(i + 1) =~= rows.take(i as int).push(rows[i as int]));
        push_line(lines, row);
        i += 1;
    }
    assert(rows.take(n as int) =~= rows);
    assert(seq![loop_header()] + rows =~= section(
        loops@,
        "No loops found"@,
        loop_header(),
        |l: LoopView| loop_row(l),
    ));
    assert(start + seq![loop_header()] + rows =~= start + (seq![loop_header()] + rows));
}

fn push_team_section(lines: &mut Vec<String>, teams: &Vec<TeamSummaryView>)
    ensures
        sv(final(lines)@) == sv(old(lines)@) + section(
            teams@,
            "No teams found"@,
            team_header(),
            |t: TeamSummaryView| team_row(t),
        ),
{
    let ghost start = sv(lines@);
    if teams.len() == 0 {
        push_line(lines, copy_string("No teams found"));
        assert(sv(lines@) =~= start + seq!["No teams found"@]);
        return;
    }
    push_line(lines, team_header_text());
    let n = if teams.len() < 40 {
        teams.len()
    } else {
        40
    };
    let ghost rows = first_n(teams@, 40).map_values(|t: TeamSummaryView| team_row(t));
    assert(rows.len() == n);
    let mut i: usize = 0;
    while i < n
        invariant
            i <= n,
            n <= teams.len(),
            rows.len() == n,
            rows == first_n(teams@, 40).map_values(|t: TeamSummaryView| team_row(t)),
            forall|k: int| 0 <= k < n ==> rows[k] == team_row(teams@[k]),
            sv(lines@) == start + seq![team_header()] + rows.take(i as int),
        decreases n - i,
    {
        let row = team_row_text(&teams[i]);
        assert(rows.take(i + 1) =~= rows.take(i as int).push(rows[i as int]));
        push_line(lines, row);
        i += 1;
    }
    assert(rows.take(n as int) =~= rows);
    assert(seq![team_header()] + rows =~= section(
        teams@,
        "No teams found"@,
        team_header(),
        |t: TeamSummaryView| team_row(t),
    ));
    assert(start + seq![team_header()] + rows =~= start + (seq![team_header()] + rows));
}

fn push_task_section(lines: &mut Vec<String>, tasks: &Vec<TeamTaskInboxView>)
    ensures
        sv(final(lines)@) == sv(old(lines)@) + section(
            tasks@,
            "No open team tasks"@,
            task_header(),
            |t: TeamTaskInboxView| task_row(t),
        ),
{
    let ghost start = sv(lines@);
    if tasks.len() == 0 {
        push_line(lines, copy_string("No open team tasks"));
        assert(sv(lines@) =~= start + seq!["No open team tasks"@]);
        return;
    }
    push_line(lines, task_header_text());
    let n = if tasks.len() < 40 {
        tasks.len()
    } else {
        40
    };
    let ghost rows = first_n(tasks@, 40).map_values(|t: TeamTaskInboxView| task_row(t));
    assert(rows.len() == n);
    let mut i: usize = 0;
    while i < n
        invariant
            i <= n,
            n <= tasks.len(),
            rows.len() == n,
            rows == first_n(tasks@, 40).map_values(|t: TeamTaskInboxView| task_row(t)),
            forall|k: int| 0 <= k < n ==> rows[k] == task_row(tasks@[k]),
            sv(lines@) == start + seq![task_header()] + rows.take(i as int),
        decreases n - i,
    {
        let row = task_row_text(&tasks[i]);
        assert(rows.take(i + 1) =~= rows.take(i as int).push(rows[i as int]));
        push_line(lines, row);
        i += 1;
    }
    assert(rows.take(n as int) =~= rows);
    assert(seq![task_header()] + rows =~= section(
        tasks@,
        "No open team tasks"@,
        task_header(),
        |t: TeamTaskInboxView| task_row(t),
    ));
    assert(start + seq![task_header()] + rows =~= start + (seq![task_header()] + rows));
}

/// The report lines of a snapshot read from the database shown as `db`.
pub fn snapshot_report_lines(db: &str, snapshot: &LiveLoopSnapshot) -> (r: Vec<String>)
    ensures
        sv(r@) == report_spec(db@, *snapshot),
{
    let mut lines: Vec<String> = Vec::new();
    push_line(&mut lines, String::new());
    push_line(&mut lines, copy_string("forge loop snapshot (rust)"));
    push_line(&mut lines, concat("db: ", db));
    let mut totals = concat("loops: ", u64_to_string(snapshot.loops.len() as u64).as_str());
    push_str(&mut totals, "  queue(pending): ");
    push_str(&mut totals, u64_to_string(snapshot.total_queue_depth as u64).as_str());
    push_str(&mut totals, "  profiles: ");
    push_str(&mut totals, u64_to_string(snapshot.profile_count as u64).as_str());
    push_line(&mut lines, totals);
    let mut states = concat("states: running=", u64_to_string(snapshot.running as u64).as_str());
    push_str(&mut states, " sleeping=");
    push_str(&mut states, u64_to_string(snapshot.sleeping as u64).as_str());
    push_str(&mut states, " waiting=");
    push_str(&mut states, u64_to_string(snapshot.waiting as u64).as_str());
    push_str(&mut states, " stopped=");
    push_str(&mut states, u64_to_string(snapshot.stopped as u64).as_str());
    push_str(&mut states, " error=");
    push_str(&mut states, u64_to_string(snapshot.errored as u64).as_str());
    push_line(&mut lines, states);
    push_line(&mut lines, String::new());
    let ghost head = sv(lines@);
    push_loop_section(&mut lines, &snapshot.loops);
    let ghost after_loops = sv(lines@);
    push_line(&mut lines, String::new());
    push_line(&mut lines, copy_string("teams snapshot (read-only):"));
    push_team_section(&mut lines, &snapshot.teams);
    let ghost after_teams = sv(lines@);
    push_line(&mut lines, String::new());
    push_line(&mut lines, copy_string("team task inbox (read-only):"));
    push_task_section(&mut lines, &snapshot.team_tasks);
    assert(sv(lines@) =~= report_spec(db@, *snapshot));
    lines
}

/// The lines of the snapshot: on a failed load, the error alone; else the
/// rendered dashboard's rows followed by the report.
pub open spec fn snapshot_lines_spec(
    db: Seq<char>,
    loaded: Result<LiveLoopSnapshot, Seq<char>>,
    frame: Seq<Seq<char>>,
) -> Seq<Seq<char>> {
    match loaded {
        Ok(s) => frame + report_spec(db, s),
        Err(e) => seq!["error: load live loop snapshot: "@ + e],
    }
}

pub fn snapshot_lines(db: &str, loaded: &Result<LiveLoopSnapshot, String>, frame: Vec<String>) -> (r: Vec<
    String,
>)
    ensures
        sv(r@) == snapshot_lines_spec(
            db@,
            match loaded {
                Ok(s) => Ok(*s),
                Err(e) => Err(e@),
            },
            sv(frame@),
        ),
{
    match loaded {
        Ok(snapshot) => {
            let mut lines = frame;
            let report = snapshot_report_lines(db, snapshot);
            let ghost head = sv(lines@);
            let mut i: usize = 0;
            while i < report.len()
                invariant
                    i <= report.len(),
                    sv(lines@) == head + sv(report@).take(i as int),
                decreases report.len() - i,
            {
                let ghost prev = sv(lines@);
                lines.push(copy_string(report[i].as_str()));
                assert(sv(lines@) =~= prev.push(report[i as int]@));
                assert(sv(report@).take(i + 1) =~= sv(report@).take(i as int).push(report[i as int]@));
                assert(sv(lines@) =~= head + sv(report@).take(i + 1));
                i += 1;
            }
            assert(sv(report@).take(i as int) =~= sv(report@));
            lines
        },
        Err(e) => {
            let mut lines: Vec<String> = Vec::new();
            lines.push(concat("error: load live loop snapshot: ", e.as_str()));
            assert(sv(lines@) =~= seq!["error: load live loop snapshot: "@ + e@]);
            lines
        },
    }
}

/// The lines as printed: joined by newlines, with a final newline when
/// there are any.
pub fn render_snapshot_text(lines: &Vec<String>) -> (r: String)
    ensures
        r@ == (if lines@.len() == 0 {
            Seq::empty()
        } else {
            join(sv(lines@), seq!['\n']).push('\n')
        }),
{
    if lines.len() == 0 {
        return String::new();
    }
    let mut out = crate::text::join_strings(lines, "\n");
    proof {
        reveal_strlit("\n");
        assert("\n"@ =~= seq!['\n']);
    }
    push_char(&mut out, '\n');
    out
}

/// The title of a team task: the `title` text of its payload, read as
/// JSON, or nothing.
pub fn payload_title(payload: Option<&JsonValue>) -> (r: String)
    ensures
        r@ == match opt_val(payload) {
            Some(v) => match json_str(json_get(v, "title"@)) {
                Some(t) => t,
                None => Seq::empty(),
            },
            None => Seq::empty(),
        },
{
    match payload {
        Some(v) => match as_str(get(v, "title")) {
            Some(t) => copy_string(t),
            None => String::new(),
        },
        None => String::new(),
    }
}

// ---------------------------------------------------------------------------
// Tallies and ordering
// ---------------------------------------------------------------------------

/// Counts one loop in its state's counter; other states are not counted.
pub fn add_loop_state(snapshot: &mut LiveLoopSnapshot, state: &str)
    requires
        old(snapshot).running < usize::MAX,
        old(snapshot).sleeping < usize::MAX,
        old(snapshot).waiting < usize::MAX,
        old(snapshot).stopped < usize::MAX,
        old(snapshot).errored < usize::MAX,
    ensures
        final(snapshot).running == old(snapshot).running + (if state@ == "running"@ { 1int } else { 0 }),
        final(snapshot).sleeping == old(snapshot).sleeping + (if state@ == "sleeping"@ { 1int } else { 0 }),
        final(snapshot).waiting == old(snapshot).waiting + (if state@ == "waiting"@ { 1int } else { 0 }),
        final(snapshot).stopped == old(snapshot).stopped + (if state@ == "stopped"@ { 1int } else { 0 }),
        final(snapshot).errored == old(snapshot).errored + (if state@ == "error"@ { 1int } else { 0 }),
        final(snapshot).loops == old(snapshot).loops,
        final(snapshot).total_queue_depth == old(snapshot).total_queue_depth,
        final(snapshot).profile_count == old(snapshot).profile_count,
        final(snapshot).teams == old(snapshot).teams,
        final(snapshot).team_tasks == old(snapshot).team_tasks,
        final(snapshot).log_paths == old(snapshot).log_paths,
{
    proof {
        reveal_strlit("running");
        reveal_strlit("sleeping");
        reveal_strlit("waiting");
        reveal_strlit("stopped");
        reveal_strlit("error");
        assert("running"@[0] == 'r' && "sleeping"@[0] == 's' && "waiting"@[0] == 'w');
        assert("stopped"@[0] == 's' && "stopped"@[1] == 't' && "sleeping"@[1] == 'l');
        assert("error"@[0] == 'e');
    }
    if str_eq(state, "running") {
        snapshot.running += 1;
    } else if str_eq(state, "sleeping") {
        snapshot.sleeping += 1;
    } else if str_eq(state, "waiting") {
        snapshot.waiting += 1;
    } else if str_eq(state, "stopped") {
        snapshot.stopped += 1;
    } else if str_eq(state, "error") {
        snapshot.errored += 1;
    }
}

/// Counts one open task of a team by its status; `open` is then the sum of
/// the four counts.
pub fn add_team_task_status(summary: &mut TeamSummaryView, status: &str)
    requires
        old(summary).queued + old(summary).assigned + old(summary).running + old(summary).blocked
            < usize::MAX,
    ensures
        final(summary).queued == old(summary).queued + (if status@ == "queued"@ { 1int } else { 0 }),
        final(summary).assigned == old(summary).assigned + (if status@ == "assigned"@ { 1int } else { 0 }),
        final(summary).running == old(summary).running + (if status@ == "running"@ { 1int } else { 0 }),
        final(summary).blocked == old(summary).blocked + (if status@ == "blocked"@ { 1int } else { 0 }),
        final(summary).open == final(summary).queued + final(summary).assigned
            + final(summary).running + final(summary).blocked,
        final(summary).id == old(summary).id,
        final(summary).name == old(summary).name,
        final(summary).members == old(summary).members,
{
    proof {
        reveal_strlit("queued");
        reveal_strlit("assigned");
        reveal_strlit("running");
        reveal_strlit("blocked");
        assert("queued"@[0] == 'q' && "assigned"@[0] == 'a' && "running"@[0] == 'r');
        assert("blocked"@[0] == 'b');
    }
    if str_eq(status, "queued") {
        summary.queued += 1;
    } else if str_eq(status, "assigned") {
        summary.assigned += 1;
    } else if str_eq(status, "running") {
        summary.running += 1;
    } else if str_eq(status, "blocked") {
        summary.blocked += 1;
    }
    summary.open = summary.queued + summary.assigned + summary.running + summary.blocked;
}

/// `a` lists before `b`: by name ignoring ASCII case, then by id.
pub open spec fn team_before(a: TeamSummaryView, b: TeamSummaryView) -> bool {
    lex_order(lower(a.name@), lower(b.name@)) < 0 || (lower(a.name@) == lower(b.name@) && lex_order(
        a.id@,
        b.id@,
    ) < 0)
}

/// `a` lists before `b`: by priority, then team name, then id.
pub open spec fn task_before(a: TeamTaskInboxView, b: TeamTaskInboxView) -> bool {
    a.priority < b.priority || (a.priority == b.priority && (lex_order(a.team_name@, b.team_name@)
        < 0 || (a.team_name@ == b.team_name@ && lex_order(a.id@, b.id@) < 0)))
}

fn team_insert_index(list: &Vec<TeamSummaryView>, x: &TeamSummaryView) -> (r: usize)
    ensures
        r as int == insert_pos(list@, |a: TeamSummaryView, b: TeamSummaryView| team_before(a, b), *x),
        r <= list.len(),
{
    let ghost before = |a: TeamSummaryView, b: TeamSummaryView| team_before(a, b);
    let xn = lowercase(x.name.as_str());
    let mut j: usize = 0;
    while j < list.len()
        invariant
            j <= list.len(),
            xn@ == lower(x.name@),
            before == |a: TeamSummaryView, b: TeamSummaryView| team_before(a, b),
            crate::text::first_from(0, list@.len() as int, first_after(list@, before, *x))
                == crate::text::first_from(
                j as int,
                list@.len() as int,
                first_after(list@, before, *x),
            ),
        decreases list.len() - j,
    {
        let en = lowercase(list[j].name.as_str());
        let by_name = order_strings(xn.as_str(), en.as_str());
        proof {
            crate::text::lemma_lex_eq(xn@, en@);
        }
        if by_name < 0 || (by_name == 0 && order_strings(x.id.as_str(), list[j].id.as_str()) < 0) {
            assert(first_after(list@, before, *x)(j as int));
            return j;
        }
        assert(!first_after(list@, before, *x)(j as int));
        j += 1;
    }
    j
}

pub fn sort_team_summaries(teams: Vec<TeamSummaryView>) -> (r: Vec<TeamSummaryView>)
    ensures
        r@ == sort_by_spec(teams@, |a: TeamSummaryView, b: TeamSummaryView| team_before(a, b)),
{
    let ghost before = |a: TeamSummaryView, b: TeamSummaryView| team_before(a, b);
    let ghost orig = teams@;
    let mut rest = teams;
    let mut sorted: Vec<TeamSummaryView> = Vec::new();
    let mut k: usize = 0;
    let n = rest.len();
    assert(orig.skip(0) =~= orig);
    while rest.len() > 0
        invariant
            k + rest.len() == n,
            n == orig.len(),
            rest@ == orig.skip(k as int),
            before == |a: TeamSummaryView, b: TeamSummaryView| team_before(a, b),
            sorted@ == sort_by_spec(orig.take(k as int), before),
        decreases rest.len(),
    {
        assert(orig.take(k + 1).drop_last() =~= orig.take(k as int));
        assert(orig.take(k + 1).last() == orig[k as int]);
        let x = rest.remove(0);
        assert(rest@ =~= orig.skip(k + 1));
        let j = team_insert_index(&sorted, &x);
        sorted.insert(j, x);
        k += 1;
    }
    assert(orig.take(k as int) =~= orig);
    sorted
}

fn task_insert_index(list: &Vec<TeamTaskInboxView>, x: &TeamTaskInboxView) -> (r: usize)
    ensures
        r as int == insert_pos(list@, |a: TeamTaskInboxView, b: TeamTaskInboxView| task_before(a, b), *x),
        r <= list.len(),
{
    let ghost before = |a: TeamTaskInboxView, b: TeamTaskInboxView| task_before(a, b);
    let mut j: usize = 0;
    while j < list.len()
        invariant
            j <= list.len(),
            before == |a: TeamTaskInboxView, b: TeamTaskInboxView| task_before(a, b),
            crate::text::first_from(0, list@.len() as int, first_after(list@, before, *x))
                == crate::text::first_from(
                j as int,
                list@.len() as int,
                first_after(list@, before, *x),
            ),
        decreases list.len() - j,
    {
        let e = &list[j];
        let by_team = order_strings(x.team_name.as_str(), e.team_name.as_str());
        proof {
            crate::text::lemma_lex_eq(x.team_name@, e.team_name@);
        }
        if x.priority < e.priority || (x.priority == e.priority && (by_team < 0 || (by_team == 0
            && order_strings(x.id.as_str(), e.id.as_str()) < 0))) {
            assert(first_after(list@, before, *x)(j as int));
            return j;
        }
        assert(!first_after(list@, before, *x)(j as int));
        j += 1;
    }
    j
}

pub fn sort_team_tasks(tasks: Vec<TeamTaskInboxView>) -> (r: Vec<TeamTaskInboxView>)
    ensures
        r@ == sort_by_spec(tasks@, |a: TeamTaskInboxView, b: TeamTaskInboxView| task_before(a, b)),
{
    let ghost before = |a: TeamTaskInboxView, b: TeamTaskInboxView| task_before(a, b);
    let ghost orig = tasks@;
    let mut rest = tasks;
    let mut sorted: Vec<TeamTaskInboxView> = Vec::new();
    let mut k: usize = 0;
    let n = rest.len();
    assert(orig.skip(0) =~= orig);
    while rest.len() > 0
        invariant
            k + rest.len() == n,
            n == orig.len(),
            rest@ == orig.skip(k as int),
            before == |a: TeamTaskInboxView, b: TeamTaskInboxView| task_before(a, b),
            sorted@ == sort_by_spec(orig.take(k as int), before),
        decreases rest.len(),
    {
        assert(orig.take(k + 1).drop_last() =~= orig.take(k as int));
        assert(orig.take(k + 1).last() == orig[k as int]);
        let x = rest.remove(0);
        assert(rest@ =~= orig.skip(k + 1));
        let j = task_insert_index(&sorted, &x);
        sorted.insert(j, x);
        k += 1;
    }
    assert(orig.take(k as int) =~= orig);
    sorted
}

/// The title of a team task from its payload text, read as JSON.
pub fn payload_title_of_text(payload_json: &str) -> (r: String)
    ensures
        r@ == match text_json(payload_json@) {
            Some(v) => match json_str(json_get(v, "title"@)) {
                Some(t) => t,
                None => Seq::empty(),
            },
            None => Seq::empty(),
        },
{
    let parsed = parse_json(payload_json);
    payload_title(parsed.as_ref())
}

// ---------------------------------------------------------------------------
// Putting a snapshot together
// ---------------------------------------------------------------------------

/// A team as read: its id, name, member count and open tasks (each task
/// already naming the team).
#[derive(Debug, Clone, Default)]
pub struct TeamRecord {
    pub id: String,
    pub name: String,
    pub members: usize,
    pub tasks: Vec<TeamTaskInboxView>,
}

/// Loops in `ls` whose state is `s`.
pub open spec fn state_count(ls: Seq<LoopView>, s: Seq<char>) -> int
    decreases ls.len(),
{
    if ls.len() == 0 {
        0
    } else {
        state_count(ls.drop_last(), s) + (if ls.last().state@ == s { 1int } else { 0 })
    }
}

/// The queued work of `ls`, added up and held at the largest `usize`.
pub open spec fn queue_total(ls: Seq<LoopView>) -> int
    decreases ls.len(),
{
    if ls.len() == 0 {
        0
    } else {
        let t = queue_total(ls.drop_last()) + ls.last().queue_depth;
        if t > usize::MAX { usize::MAX as int } else { t }
    }
}

/// Tasks in `ts` whose status is `s`.
pub open spec fn status_count(ts: Seq<TeamTaskInboxView>, s: Seq<char>) -> int
    decreases ts.len(),
{
    if ts.len() == 0 {
        0
    } else {
        status_count(ts.drop_last(), s) + (if ts.last().status@ == s { 1int } else { 0 })
    }
}

/// The summary of a team: its tasks counted by status; `open` is their sum.
pub open spec fn summary_of(t: TeamRecord, v: TeamSummaryView) -> bool {
    &&& v.id == t.id
    &&& v.name == t.name
    &&& v.members == t.members
    &&& v.queued == status_count(t.tasks@, "queued"@)
    &&& v.assigned == status_count(t.tasks@, "assigned"@)
    &&& v.running == status_count(t.tasks@, "running"@)
    &&& v.blocked == status_count(t.tasks@, "blocked"@)
    &&& v.open == v.queued + v.assigned + v.running + v.blocked
}

/// `built` holds the summary of each team, in the teams' order.
pub open spec fn summaries_of(ts: Seq<TeamRecord>, built: Seq<TeamSummaryView>) -> bool {
    built.len() == ts.len() && forall|i: int| 0 <= i < ts.len() ==> #[trigger] summary_of(ts[i], built[i])
}

/// All tasks of the teams, team after team.
pub open spec fn all_tasks(ts: Seq<TeamRecord>) -> Seq<TeamTaskInboxView>
    decreases ts.len(),
{
    if ts.len() == 0 {
        Seq::empty()
    } else {
        all_tasks(ts.drop_last()) + ts.last().tasks@
    }
}

proof fn lemma_state_count_le(ls: Seq<LoopView>)
    ensures
        0 <= state_count(ls, "running"@),
        0 <= state_count(ls, "sleeping"@),
        0 <= state_count(ls, "waiting"@),
        0 <= state_count(ls, "stopped"@),
        0 <= state_count(ls, "error"@),
        state_count(ls, "running"@) + state_count(ls, "sleeping"@) + state_count(ls, "waiting"@)
            + state_count(ls, "stopped"@) + state_count(ls, "error"@) <= ls.len(),
    decreases ls.len(),
{
    if ls.len() > 0 {
        lemma_state_count_le(ls.drop_last());
        reveal_strlit("running");
        reveal_strlit("sleeping");
        reveal_strlit("waiting");
        reveal_strlit("stopped");
        reveal_strlit("error");
        assert("running"@[0] == 'r' && "sleeping"@[0] == 's' && "waiting"@[0] == 'w');
        assert("stopped"@[0] == 's' && "stopped"@[1] == 't' && "sleeping"@[1] == 'l');
        assert("error"@[0] == 'e');
    }
}

proof fn lemma_status_count_le(ts: Seq<TeamTaskInboxView>)
    ensures
        0 <= status_count(ts, "queued"@),
        0 <= status_count(ts, "assigned"@),
        0 <= status_count(ts, "running"@),
        0 <= status_count(ts, "blocked"@),
        status_count(ts, "queued"@) + status_count(ts, "assigned"@) + status_count(ts, "running"@)
            + status_count(ts, "blocked"@) <= ts.len(),
    decreases ts.len(),
{
    if ts.len() > 0 {
        lemma_status_count_le(ts.drop_last());
        reveal_strlit("queued");
        reveal_strlit("assigned");
        reveal_strlit("running");
        reveal_strlit("blocked");
        assert("queued"@[0] == 'q' && "assigned"@[0] == 'a' && "running"@[0] == 'r' && "blocked"@[0] == 'b');
    }
}

fn team_summary(t: TeamRecord) -> (r: (TeamSummaryView, Vec<TeamTaskInboxView>))
    ensures
        summary_of(t, r.0),
        r.1@ == t.tasks@,
{
    let ghost orig = t;
    let mut summary = TeamSummaryView {
        id: t.id,
        name: t.name,
        members: t.members,
        queued: 0,
        assigned: 0,
        running: 0,
        blocked: 0,
        open: 0,
    };
    let tasks = t.tasks;
    let mut i: usize = 0;
    while i < tasks.len()
        invariant
            i <= tasks.len(),
            tasks@ == orig.tasks@,
            summary.id == orig.id,
            summary.name == orig.name,
            summary.members == orig.members,
            summary.queued == status_count(tasks@.take(i as int), "queued"@),
            summary.assigned == status_count(tasks@.take(i as int), "assigned"@),
            summary.running == status_count(tasks@.take(i as int), "running"@),
            summary.blocked == status_count(tasks@.take(i as int), "blocked"@),
            summary.open == summary.queued + summary.assigned + summary.running + summary.blocked,
        decreases tasks.len() - i,
    {
        proof {
            assert(tasks@.take(i + 1).drop_last() =~= tasks@.take(i as int));
            lemma_status_count_le(tasks@.take(i as int));
        }
        add_team_task_status(&mut summary, tasks[i].status.as_str());
        i += 1;
    }
    assert(tasks@.take(i as int) =~= tasks@);
    (summary, tasks)
}

/// The snapshot of live data: the loops in display order with their queued
/// work added up (held at the largest `usize`) and counted by state, the
/// teams in display order with their open tasks counted by status, and all
/// open tasks in inbox order.
pub fn assemble_live_snapshot(
    loops: Vec<LoopView>,
    log_paths: HashMap<String, String>,
    profile_count: usize,
    teams: Vec<TeamRecord>,
) -> (r: LiveLoopSnapshot)
    ensures
        r.loops@ == sort_loops(loops@),
        r.total_queue_depth == queue_total(loops@),
        r.running == state_count(loops@, "running"@),
        r.sleeping == state_count(loops@, "sleeping"@),
        r.waiting == state_count(loops@, "waiting"@),
        r.stopped == state_count(loops@, "stopped"@),
        r.errored == state_count(loops@, "error"@),
        r.running + r.sleeping + r.waiting + r.stopped + r.errored <= loops@.len(),
        r.profile_count == profile_count,
        r.log_paths == log_paths,
        r.teams@.len() == teams@.len(),
        exists|built: Seq<TeamSummaryView>|
            #[trigger] summaries_of(teams@, built) && r.teams@ == sort_by_spec(
                built,
                |a: TeamSummaryView, b: TeamSummaryView| team_before(a, b),
            ),
        forall|i: int| 0 <= i < r.teams@.len() ==> (#[trigger] r.teams@[i]).open == r.teams@[i].queued
            + r.teams@[i].assigned + r.teams@[i].running + r.teams@[i].blocked,
        r.team_tasks@ == sort_by_spec(all_tasks(teams@), |a: TeamTaskInboxView, b: TeamTaskInboxView| task_before(a, b)),
{
    let mut snapshot = LiveLoopSnapshot {
        loops: Vec::new(),
        total_queue_depth: 0,
        profile_count,
        running: 0,
        sleeping: 0,
        waiting: 0,
        stopped: 0,
        errored: 0,
        teams: Vec::new(),
        team_tasks: Vec::new(),
        log_paths,
    };
    let mut i: usize = 0;
    while i < loops.len()
        invariant
            i <= loops.len(),
            snapshot.profile_count == profile_count,
            snapshot.log_paths == log_paths,
            snapshot.total_queue_depth == queue_total(loops@.take(i as int)),
            snapshot.running == state_count(loops@.take(i as int), "running"@),
            snapshot.sleeping == state_count(loops@.take(i as int), "sleeping"@),
            snapshot.waiting == state_count(loops@.take(i as int), "waiting"@),
            snapshot.stopped == state_count(loops@.take(i as int), "stopped"@),
            snapshot.errored == state_count(loops@.take(i as int), "error"@),
        decreases loops.len() - i,
    {
        proof {
            assert(loops@.take(i + 1).drop_last() =~= loops@.take(i as int));
            lemma_state_count_le(loops@.take(i as int));
        }
        snapshot.total_queue_depth = snapshot.total_queue_depth.saturating_add(loops[i].queue_depth);
        add_loop_state(&mut snapshot, loops[i].state.as_str());
        i += 1;
    }
    assert(loops@.take(i as int) =~= loops@);
    proof {
        lemma_state_count_le(loops@);
    }
    snapshot.loops = sort_loop_views(loops);
    let ghost trecs = teams@;
    let mut rest = teams;
    let mut built: Vec<TeamSummaryView> = Vec::new();
    let mut tasks: Vec<TeamTaskInboxView> = Vec::new();
    let mut k: usize = 0;
    let n = rest.len();
    assert(trecs.skip(0) =~= trecs);
    assert(all_tasks(trecs.take(0)) =~= Seq::<TeamTaskInboxView>::empty());
    while rest.len() > 0
        invariant
            k + rest.len() == n,
            n == trecs.len(),
            rest@ == trecs.skip(k as int),
            built@.len() == k,
            forall|j: int| 0 <= j < k ==> #[trigger] summary_of(trecs[j], built@[j]),
            tasks@ == all_tasks(trecs.take(k as int)),
        decreases rest.len(),
    {
        let t = rest.remove(0);
        assert(t == trecs[k as int]);
        assert(rest@ =~= trecs.skip(k + 1));
        let (summary, mut ts) = team_summary(t);
        built.push(summary);
        let ghost before = tasks@;
        tasks.append(&mut ts);
        assert(trecs.take(k + 1).drop_last() =~= trecs.take(k as int));
        assert(trecs.take(k + 1).last() == trecs[k as int]);
        k += 1;
    }
    assert(trecs.take(k as int) =~= trecs);
    let ghost bv = built@;
    assert(summaries_of(trecs, bv));
    snapshot.teams = sort_team_summaries(built);
    proof {
        crate::text::lemma_sort_by_items(bv, |a: TeamSummaryView, b: TeamSummaryView| team_before(a, b));
        assert forall|i: int| 0 <= i < snapshot.teams@.len() implies (#[trigger] snapshot.teams@[i]).open
            == snapshot.teams@[i].queued + snapshot.teams@[i].assigned + snapshot.teams@[i].running
            + snapshot.teams@[i].blocked by {
            assert(bv.contains(snapshot.teams@[i]));
            let j = choose|j: int| 0 <= j < bv.len() && bv[j] == snapshot.teams@[i];
            assert(summary_of(trecs[j], bv[j]));
        }
    }
    snapshot.team_tasks = sort_team_tasks(tasks);
    snapshot
}

proof fn lemma_team_order_strict()
    ensures
        crate::text::strict_order(|a: TeamSummaryView, b: TeamSummaryView| team_before(a, b)),
{
    let r = |a: TeamSummaryView, b: TeamSummaryView| team_before(a, b);
    assert forall|a: TeamSummaryView| !#[trigger] r(a, a) by {
        crate::text::lemma_lex_eq(lower(a.name@), lower(a.name@));
        crate::text::lemma_lex_eq(a.id@, a.id@);
    }
    assert forall|a: TeamSummaryView, b: TeamSummaryView, c: TeamSummaryView|
        #[trigger] r(a, b) && #[trigger] r(b, c) implies r(a, c) by {
        let (la, lb, lc) = (lower(a.name@), lower(b.name@), lower(c.name@));
        if lex_order(la, lb) < 0 && lex_order(lb, lc) < 0 {
            crate::text::lemma_lex_trans(la, lb, lc);
        } else if la == lb && lb == lc {
            crate::text::lemma_lex_trans(a.id@, b.id@, c.id@);
        }
    }
}

proof fn lemma_task_order_strict()
    ensures
        crate::text::strict_order(|a: TeamTaskInboxView, b: TeamTaskInboxView| task_before(a, b)),
{
    let r = |a: TeamTaskInboxView, b: TeamTaskInboxView| task_before(a, b);
    assert forall|a: TeamTaskInboxView| !#[trigger] r(a, a) by {
        crate::text::lemma_lex_eq(a.team_name@, a.team_name@);
        crate::text::lemma_lex_eq(a.id@, a.id@);
    }
    assert forall|a: TeamTaskInboxView, b: TeamTaskInboxView, c: TeamTaskInboxView|
        #[trigger] r(a, b) && #[trigger] r(b, c) implies r(a, c) by {
        if a.priority == b.priority && b.priority == c.priority {
            let (na, nb, nc) = (a.team_name@, b.team_name@, c.team_name@);
            if lex_order(na, nb) < 0 && lex_order(nb, nc) < 0 {
                crate::text::lemma_lex_trans(na, nb, nc);
            } else if na == nb && nb == nc {
                crate::text::lemma_lex_trans(a.id@, b.id@, c.id@);
            }
        }
    }
}

/// The live snapshot lists its loops ascending by lowercased name then id,
/// its teams ascending the same way, and its open tasks ascending by
/// priority, team name and id; each list holds exactly what it was built
/// from, each item as often.
pub proof fn law_live_snapshot_orders(
    loops: Seq<LoopView>,
    built: Seq<TeamSummaryView>,
    teams: Seq<TeamRecord>,
)
    ensures
        crate::text::sorted_by(sort_loops(loops), crate::bootstrap::loop_order()),
        sort_loops(loops).to_multiset() == loops.to_multiset(),
        crate::text::sorted_by(
            sort_by_spec(built, |a: TeamSummaryView, b: TeamSummaryView| team_before(a, b)),
            |a: TeamSummaryView, b: TeamSummaryView| team_before(a, b),
        ),
        sort_by_spec(built, |a: TeamSummaryView, b: TeamSummaryView| team_before(a, b)).to_multiset()
            == built.to_multiset(),
        crate::text::sorted_by(
            sort_by_spec(all_tasks(teams), |a: TeamTaskInboxView, b: TeamTaskInboxView| task_before(a, b)),
            |a: TeamTaskInboxView, b: TeamTaskInboxView| task_before(a, b),
        ),
        sort_by_spec(all_tasks(teams), |a: TeamTaskInboxView, b: TeamTaskInboxView| task_before(a, b)).to_multiset()
            == all_tasks(teams).to_multiset(),
{
    crate::bootstrap::lemma_sort_loops_sorted(loops);
    lemma_team_order_strict();
    lemma_task_order_strict();
    crate::text::lemma_sort_by_sorted(built, |a: TeamSummaryView, b: TeamSummaryView| team_before(a, b));
    crate::text::lemma_sort_by_sorted(
        all_tasks(teams),
        |a: TeamTaskInboxView, b: TeamTaskInboxView| task_before(a, b),
    );
}

} // verus!
