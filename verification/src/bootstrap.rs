//! Decisions of the terminal shell: command lines for loop actions, what an
//! action's outcome reads as, and how loop data is trimmed for display.
use vstd::prelude::*;

use std::collections::HashMap;
use std::time::{SystemTime, UNIX_EPOCH};

use crate::app::{ActionKind, ActionResult, ActionType, LogTailView, LoopView, RunView};
use crate::json::{as_bool, as_str, get, json_bool, json_get, json_str, opt_val, parse_json, text_json, JsonValue};
use crate::text::{
    concat, contains, contains_str, copy_string, dec, first_from, lemma_first_from, lex_order,
    lines, lower, lowercase, order_strings, push_str, split_lines, str_eq, sv, trim, trim_end,
    trim_end_str, trim_str, u64_to_string,
};

verus! {

// ---------------------------------------------------------------------------
// Command lines
// ---------------------------------------------------------------------------

pub open spec fn entry_key_is(w: Seq<(String, String)>, key: Seq<char>) -> spec_fn(int) -> bool {
    |i: int| w[i].0@ == key
}

/// The value of the first wizard entry under `key`.
pub open spec fn wizard_lookup(w: Seq<(String, String)>, key: Seq<char>) -> Option<Seq<char>> {
    match first_from(0, w.len() as int, entry_key_is(w, key)) {
        Some(i) => Some(w[i].1@),
        None => None,
    }
}

pub fn wizard_value<'a>(wizard: &'a [(String, String)], key: &str) -> (r: Option<&'a String>)
    ensures
        match r {
            Some(v) => wizard_lookup(wizard@, key@) == Some(v@),
            None => wizard_lookup(wizard@, key@) is None,
        },
{
    let mut i: usize = 0;
    while i < wizard.len()
        invariant
            i <= wizard.len(),
            first_from(0, wizard@.len() as int, entry_key_is(wizard@, key@)) == first_from(
                i as int,
                wizard@.len() as int,
                entry_key_is(wizard@, key@),
            ),
        decreases wizard.len() - i,
    {
        if str_eq(wizard[i].0.as_str(), key) {
            return Some(&wizard[i].1);
        }
        i += 1;
    }
    None
}

/// `flag value` for a present value that is not blank (the value trimmed).
pub open spec fn pair_args(flag: Seq<char>, value: Option<Seq<char>>) -> Seq<Seq<char>> {
    match value {
        Some(raw) => if trim(raw).len() > 0 {
            seq![flag, trim(raw)]
        } else {
            Seq::empty()
        },
        None => Seq::empty(),
    }
}

pub fn push_non_empty_pair(args: &mut Vec<String>, flag: &str, value: Option<&String>)
    ensures
        sv(final(args)@) == sv(old(args)@) + pair_args(
            flag@,
            match value {
                Some(v) => Some(v@),
                None => None,
            },
        ),
{
    let ghost start = sv(args@);
    let raw = match value {
        Some(raw) => raw,
        None => {
            assert(start + Seq::<Seq<char>>::empty() =~= start);
            return;
        },
    };
    let trimmed = trim_str(raw.as_str());
    if trimmed.as_str().is_empty() {
        assert(start + Seq::<Seq<char>>::empty() =~= start);
        return;
    }
    let f = copy_string(flag);
    let ghost fv = f@;
    let ghost tv = trimmed@;
    args.push(f);
    args.push(trimmed);
    assert(sv(args@) =~= start + seq![fv, tv]);
}

pub open spec fn owner_args(spawn_owner: Seq<char>) -> Seq<Seq<char>> {
    if spawn_owner != "auto"@ {
        seq!["--spawn-owner"@, spawn_owner]
    } else {
        Seq::empty()
    }
}

/// The arguments of `up` for a creation wizard: each field that is filled
/// in, in a fixed order.
pub open spec fn up_args_spec(w: Seq<(String, String)>, spawn_owner: Seq<char>) -> Seq<Seq<char>> {
    seq!["up"@, "--json"@] + owner_args(spawn_owner) + pair_args(
        "--name"@,
        wizard_lookup(w, "name"@),
    ) + pair_args("--name-prefix"@, wizard_lookup(w, "name_prefix"@)) + pair_args(
        "--count"@,
        wizard_lookup(w, "count"@),
    ) + pair_args("--pool"@, wizard_lookup(w, "pool"@)) + pair_args(
        "--profile"@,
        wizard_lookup(w, "profile"@),
    ) + pair_args("--prompt"@, wizard_lookup(w, "prompt"@)) + pair_args(
        "--prompt-msg"@,
        wizard_lookup(w, "prompt_msg"@),
    ) + pair_args("--interval"@, wizard_lookup(w, "interval"@)) + pair_args(
        "--max-runtime"@,
        wizard_lookup(w, "max_runtime"@),
    ) + pair_args("--max-iterations"@, wizard_lookup(w, "max_iterations"@)) + pair_args(
        "--tags"@,
        wizard_lookup(w, "tags"@),
    )
}

fn push_owner(args: &mut Vec<String>, spawn_owner: &str)
    ensures
        sv(final(args)@) == sv(old(args)@) + owner_args(spawn_owner@),
{
    let ghost start = sv(args@);
    if !str_eq(spawn_owner, "auto") {
        args.push(copy_string("--spawn-owner"));
        args.push(copy_string(spawn_owner));
        assert(sv(args@) =~= start + seq!["--spawn-owner"@, spawn_owner@]);
    } else {
        assert(start + Seq::<Seq<char>>::empty() =~= start);
    }
}

fn push_wizard_pair(args: &mut Vec<String>, flag: &str, wizard: &[(String, String)], key: &str)
    ensures
        sv(final(args)@) == sv(old(args)@) + pair_args(flag@, wizard_lookup(wizard@, key@)),
{
    push_non_empty_pair(args, flag, wizard_value(wizard, key));
}

pub fn build_up_args(wizard: &[(String, String)], spawn_owner: &str) -> (r: Vec<String>)
    ensures
        sv(r@) == up_args_spec(wizard@, spawn_owner@),
{
    let mut args: Vec<String> = Vec::new();
    args.push(copy_string("up"));
    args.push(copy_string("--json"));
    assert(sv(args@) =~= seq!["up"@, "--json"@]);
    push_owner(&mut args, spawn_owner);
    push_wizard_pair(&mut args, "--name", wizard, "name");
    push_wizard_pair(&mut args, "--name-prefix", wizard, "name_prefix");
    push_wizard_pair(&mut args, "--count", wizard, "count");
    push_wizard_pair(&mut args, "--pool", wizard, "pool");
    push_wizard_pair(&mut args, "--profile", wizard, "profile");
    push_wizard_pair(&mut args, "--prompt", wizard, "prompt");
    push_wizard_pair(&mut args, "--prompt-msg", wizard, "prompt_msg");
    push_wizard_pair(&mut args, "--interval", wizard, "interval");
    push_wizard_pair(&mut args, "--max-runtime", wizard, "max_runtime");
    push_wizard_pair(&mut args, "--max-iterations", wizard, "max_iterations");
    push_wizard_pair(&mut args, "--tags", wizard, "tags");
    args
}

/// The command line that carries out an action.
pub open spec fn action_args_spec(action: ActionKind, spawn_owner: Seq<char>) -> Seq<Seq<char>> {
    match action {
        ActionKind::Resume { loop_id } => seq!["resume"@, loop_id@, "--json"@] + owner_args(
            spawn_owner,
        ),
        ActionKind::Stop { loop_id } => seq!["stop"@, loop_id@, "--json"@],
        ActionKind::Kill { loop_id } => seq!["kill"@, loop_id@, "--json"@],
        ActionKind::Delete { loop_id, force } => seq!["rm"@, loop_id@, "--json"@] + (if force {
            seq!["--force"@]
        } else {
            Seq::empty()
        }),
        ActionKind::Create { wizard } => up_args_spec(wizard@, spawn_owner),
    }
}

fn three(a: &str, b: &str, c: &str) -> (r: Vec<String>)
    ensures
        sv(r@) == seq![a@, b@, c@],
{
    let mut r: Vec<String> = Vec::new();
    r.push(copy_string(a));
    r.push(copy_string(b));
    r.push(copy_string(c));
    assert(sv(r@) =~= seq![a@, b@, c@]);
    r
}

pub fn action_args(action: &ActionKind, spawn_owner: &str) -> (r: Vec<String>)
    ensures
        sv(r@) == action_args_spec(*action, spawn_owner@),
{
    match action {
        ActionKind::Resume { loop_id } => {
            let mut args = three("resume", loop_id.as_str(), "--json");
            push_owner(&mut args, spawn_owner);
            args
        },
        ActionKind::Stop { loop_id } => three("stop", loop_id.as_str(), "--json"),
        ActionKind::Kill { loop_id } => three("kill", loop_id.as_str(), "--json"),
        ActionKind::Delete { loop_id, force } => {
            let mut args = three("rm", loop_id.as_str(), "--json");
            let ghost start = sv(args@);
            if *force {
                args.push(copy_string("--force"));
                assert(sv(args@) =~= start + seq!["--force"@]);
            } else {
                assert(start + Seq::<Seq<char>>::empty() =~= start);
            }
            args
        },
        ActionKind::Create { wizard } => build_up_args(wizard.as_slice(), spawn_owner),
    }
}

// ---------------------------------------------------------------------------
// Outcomes
// ---------------------------------------------------------------------------

pub open spec fn failure_msg(action: Seq<char>, stderr: Seq<char>) -> Seq<char> {
    if trim(stderr).len() == 0 {
        action + " failed"@
    } else {
        action + " failed: "@ + trim(stderr)
    }
}

pub fn error_from_stderr(action: &str, stderr: &str) -> (r: String)
    ensures
        r@ == failure_msg(action@, stderr@),
{
    let message = trim_str(stderr);
    if message.as_str().is_empty() {
        return concat(action, " failed");
    }
    let mut r = concat(action, " failed: ");
    push_str(&mut r, message.as_str());
    r
}

/// What `up --json` printed, as the status line after a creation.
pub open spec fn created_msg(value: Option<JsonValue>) -> Seq<char> {
    match value {
        Some(JsonValue::Array(entries)) => if entries@.len() == 0 {
            "Loop created"@
        } else if entries@.len() == 1 {
            let name = match json_str(json_get(entries@[0], "name"@)) {
                Some(n) => n,
                None => "loop"@,
            };
            "Loop "@ + name + " created"@
        } else {
            "Created "@ + dec(entries@.len()) + " loops"@
        },
        _ => "Loop created"@,
    }
}

/// The status line after a creation; `value` is what the command printed,
/// read as JSON, or nothing when it was not JSON.
pub fn create_success_message(value: Option<&JsonValue>) -> (r: String)
    ensures
        r@ == created_msg(opt_val(value)),
{
    let entries = match value {
        Some(JsonValue::Array(entries)) => entries,
        _ => {
            return copy_string("Loop created");
        },
    };
    if entries.len() == 0 {
        return copy_string("Loop created");
    }
    if entries.len() == 1 {
        let name = match as_str(get(&entries[0], "name")) {
            Some(n) => n,
            None => "loop",
        };
        let mut r = concat("Loop ", name);
        push_str(&mut r, " created");
        return r;
    }
    let mut r = copy_string("Created ");
    push_str(&mut r, u64_to_string(entries.len() as u64).as_str());
    push_str(&mut r, " loops");
    r
}

/// The status line after a resume, when the command reported one.
pub open spec fn resumed_msg(value: Option<JsonValue>, loop_id: Seq<char>) -> Option<Seq<char>> {
    match value {
        Some(v) => match json_bool(json_get(v, "resumed"@)) {
            Some(true) => {
                let name = match json_str(json_get(v, "name"@)) {
                    Some(n) => n,
                    None => loop_id,
                };
                let id = match json_str(json_get(v, "loop_id"@)) {
                    Some(i) => i,
                    None => loop_id,
                };
                Some("Loop "@ + name + " resumed ("@ + id + ")"@)
            },
            _ => None,
        },
        None => None,
    }
}

pub fn parse_resume_success_message(value: Option<&JsonValue>, loop_id: &str) -> (r: Option<
    String,
>)
    ensures
        match r {
            Some(m) => resumed_msg(opt_val(value), loop_id@) == Some(m@),
            None => resumed_msg(opt_val(value), loop_id@) is None,
        },
{
    let v = match value {
        Some(v) => v,
        None => {
            return None;
        },
    };
    match as_bool(get(v, "resumed")) {
        Some(true) => {},
        _ => {
            return None;
        },
    }
    let name = match as_str(get(v, "name")) {
        Some(n) => n,
        None => loop_id,
    };
    let id = match as_str(get(v, "loop_id")) {
        Some(i) => i,
        None => loop_id,
    };
    let mut r = concat("Loop ", name);
    push_str(&mut r, " resumed (");
    push_str(&mut r, id);
    push_str(&mut r, ")");
    Some(r)
}

/// The name of the first loop `up --json` reports.
pub open spec fn created_name(value: Option<JsonValue>) -> Option<Seq<char>> {
    match value {
        Some(JsonValue::Array(entries)) => if entries@.len() > 0 {
            json_str(json_get(entries@[0], "name"@))
        } else {
            None
        },
        _ => None,
    }
}

pub fn created_loop_name(value: Option<&JsonValue>) -> (r: Option<String>)
    ensures
        match r {
            Some(n) => created_name(opt_val(value)) == Some(n@),
            None => created_name(opt_val(value)) is None,
        },
{
    match value {
        Some(JsonValue::Array(entries)) => {
            if entries.len() == 0 {
                return None;
            }
            match as_str(get(&entries[0], "name")) {
                Some(n) => Some(copy_string(n)),
                None => None,
            }
        },
        _ => None,
    }
}

/// An action's result with these field values.
pub open spec fn result_is(
    r: ActionResult,
    kind: ActionType,
    loop_id: Seq<char>,
    selected_loop_id: Seq<char>,
    message: Seq<char>,
    error: Option<Seq<char>>,
) -> bool {
    &&& r.kind == kind
    &&& r.loop_id@ == loop_id
    &&& r.selected_loop_id@ == selected_loop_id
    &&& r.message@ == message
    &&& match r.error {
        Some(e) => error == Some(e@),
        None => error is None,
    }
}

/// What an action's run reads as: on exit code 0 its success message, else
/// its failure with the command's error output.
pub open spec fn outcome_ok(
    r: ActionResult,
    action: ActionKind,
    exit_code: i32,
    stdout: Option<JsonValue>,
    stderr: Seq<char>,
    created_loop_id: Seq<char>,
) -> bool {
    match action {
        ActionKind::Resume { loop_id } => if exit_code == 0 {
            result_is(
                r,
                ActionType::Resume,
                loop_id@,
                Seq::empty(),
                match resumed_msg(stdout, loop_id@) {
                    Some(m) => m,
                    None => "Loop "@ + loop_id@ + " resumed"@,
                },
                None,
            )
        } else {
            result_is(
                r,
                ActionType::Resume,
                loop_id@,
                Seq::empty(),
                Seq::empty(),
                Some(failure_msg("resume loop"@, stderr)),
            )
        },
        ActionKind::Stop { loop_id } => if exit_code == 0 {
            result_is(r, ActionType::Stop, loop_id@, Seq::empty(), "Stop queued for loop "@ + loop_id@, None)
        } else {
            result_is(
                r,
                ActionType::Stop,
                loop_id@,
                Seq::empty(),
                Seq::empty(),
                Some(failure_msg("stop loop"@, stderr)),
            )
        },
        ActionKind::Kill { loop_id } => if exit_code == 0 {
            result_is(r, ActionType::Kill, loop_id@, Seq::empty(), "Kill queued for loop "@ + loop_id@, None)
        } else {
            result_is(
                r,
                ActionType::Kill,
                loop_id@,
                Seq::empty(),
                Seq::empty(),
                Some(failure_msg("kill loop"@, stderr)),
            )
        },
        ActionKind::Delete { loop_id, force } => if exit_code == 0 {
            result_is(r, ActionType::Delete, loop_id@, Seq::empty(), "Removed loop "@ + loop_id@, None)
        } else {
            result_is(
                r,
                ActionType::Delete,
                loop_id@,
                Seq::empty(),
                Seq::empty(),
                Some(failure_msg("remove loop"@, stderr)),
            )
        },
        ActionKind::Create { wizard } => if exit_code == 0 {
            result_is(r, ActionType::Create, Seq::empty(), created_loop_id, created_msg(stdout), None)
        } else {
            result_is(
                r,
                ActionType::Create,
                Seq::empty(),
                Seq::empty(),
                Seq::empty(),
                Some(failure_msg("create loop"@, stderr)),
            )
        },
    }
}

/// The name of the first loop `up` reports in its output text, read as
/// JSON.
pub fn created_loop_name_in_output(stdout: &str) -> (r: Option<String>)
    ensures
        match r {
            Some(n) => created_name(text_json(stdout@)) == Some(n@),
            None => created_name(text_json(stdout@)) is None,
        },
{
    let parsed = parse_json(stdout);
    created_loop_name(parsed.as_ref())
}

fn outcome(
    kind: ActionType,
    loop_id: &str,
    selected_loop_id: String,
    message: String,
    error: Option<String>,
) -> (r: ActionResult)
    ensures
        result_is(
            r,
            kind,
            loop_id@,
            selected_loop_id@,
            message@,
            match error {
                Some(e) => Some(e@),
                None => None,
            },
        ),
{
    ActionResult { kind, loop_id: copy_string(loop_id), selected_loop_id, message, error }
}

/// The result of running an action. `stdout` is what the command printed,
/// read as JSON (nothing when it was not JSON); `created_loop_id` is the id
/// found for a newly created loop.
pub fn action_outcome(
    action: &ActionKind,
    exit_code: i32,
    stdout: Option<&JsonValue>,
    stderr: &str,
    created_loop_id: String,
) -> (r: ActionResult)
    ensures
        outcome_ok(r, *action, exit_code, opt_val(stdout), stderr@, created_loop_id@),
{
    proof {
        reveal_strlit("");
    }
    match action {
        ActionKind::Resume { loop_id } => {
            if exit_code == 0 {
                let message = match parse_resume_success_message(stdout, loop_id.as_str()) {
                    Some(m) => m,
                    None => {
                        let mut m = concat("Loop ", loop_id.as_str());
                        push_str(&mut m, " resumed");
                        m
                    },
                };
                outcome(ActionType::Resume, loop_id.as_str(), String::new(), message, None)
            } else {
                let e = error_from_stderr("resume loop", stderr);
                outcome(ActionType::Resume, loop_id.as_str(), String::new(), String::new(), Some(e))
            }
        },
        ActionKind::Stop { loop_id } => {
            if exit_code == 0 {
                let m = concat("Stop queued for loop ", loop_id.as_str());
                outcome(ActionType::Stop, loop_id.as_str(), String::new(), m, None)
            } else {
                let e = error_from_stderr("stop loop", stderr);
                outcome(ActionType::Stop, loop_id.as_str(), String::new(), String::new(), Some(e))
            }
        },
        ActionKind::Kill { loop_id } => {
            if exit_code == 0 {
                let m = concat("Kill queued for loop ", loop_id.as_str());
                outcome(ActionType::Kill, loop_id.as_str(), String::new(), m, None)
            } else {
                let e = error_from_stderr("kill loop", stderr);
                outcome(ActionType::Kill, loop_id.as_str(), String::new(), String::new(), Some(e))
            }
        },
        ActionKind::Delete { loop_id, force: _ } => {
            if exit_code == 0 {
                let m = concat("Removed loop ", loop_id.as_str());
                outcome(ActionType::Delete, loop_id.as_str(), String::new(), m, None)
            } else {
                let e = error_from_stderr("remove loop", stderr);
                outcome(ActionType::Delete, loop_id.as_str(), String::new(), String::new(), Some(e))
            }
        },
        ActionKind::Create { wizard: _ } => {
            if exit_code == 0 {
                let m = create_success_message(stdout);
                let r = outcome(ActionType::Create, "", created_loop_id, m, None);
                assert(r.loop_id@ =~= Seq::<char>::empty());
                r
            } else {
                let e = error_from_stderr("create loop", stderr);
                let r = outcome(ActionType::Create, "", String::new(), String::new(), Some(e));
                assert(r.loop_id@ =~= Seq::<char>::empty());
                r
            }
        },
    }
}

// ---------------------------------------------------------------------------
// Loop data for display
// ---------------------------------------------------------------------------

/// The lines of `s` with trailing whitespace removed, blank ones dropped.
pub open spec fn nonblank_lines(ls: Seq<Seq<char>>) -> Seq<Seq<char>>
    decreases ls.len(),
{
    if ls.len() == 0 {
        Seq::empty()
    } else {
        let rest = nonblank_lines(ls.drop_last());
        if trim_end(ls.last()).len() > 0 {
            rest.push(trim_end(ls.last()))
        } else {
            rest
        }
    }
}

/// The last `n` items of `s` (all of them when there are fewer).
pub open spec fn last_n<T>(s: Seq<T>, n: int) -> Seq<T> {
    if s.len() > n {
        s.skip(s.len() - n)
    } else {
        s
    }
}

fn keep_last(v: Vec<String>, n: usize) -> (r: Vec<String>)
    ensures
        sv(r@) == last_n(sv(v@), n as int),
{
    if v.len() <= n {
        return v;
    }
    let start = v.len() - n;
    let mut r: Vec<String> = Vec::new();
    let mut i: usize = start;
    while i < v.len()
        invariant
            start <= i <= v.len(),
            start == v.len() - n,
            sv(r@) == sv(v@).subrange(start as int, i as int),
        decreases v.len() - i,
    {
        let ghost prev = sv(r@);
        r.push(v[i].clone());
        assert(sv(r@) =~= prev.push(v@[i as int]@));
        i += 1;
        assert(sv(v@).subrange(start as int, i as int) =~= sv(v@).subrange(
            start as int,
            i - 1,
        ).push(v@[i - 1]@));
    }
    assert(sv(v@).subrange(start as int, v.len() as int) =~= sv(v@).skip(start as int));
    r
}

/// The newest `max_lines` non-blank lines of a run's output, trailing
/// whitespace removed.
pub fn run_output_lines(output_tail: &str, max_lines: usize) -> (r: Vec<String>)
    ensures
        sv(r@) == last_n(nonblank_lines(lines(output_tail@)), max_lines as int),
{
    let ls = split_lines(output_tail);
    let ghost lv = sv(ls@);
    let mut kept: Vec<String> = Vec::new();
    let mut i: usize = 0;
    while i < ls.len()
        invariant
            i <= ls.len(),
            lv == sv(ls@),
            sv(kept@) == nonblank_lines(lv.take(i as int)),
        decreases ls.len() - i,
    {
        assert(lv.take(i + 1).drop_last() =~= lv.take(i as int));
        assert(lv.take(i + 1).last() == lv[i as int]);
        let t = trim_end_str(ls[i].as_str());
        if !t.as_str().is_empty() {
            let ghost prev = sv(kept@);
            let ghost tv = t@;
            kept.push(t);
            assert(sv(kept@) =~= prev.push(tv));
        }
        i += 1;
    }
    assert(lv.take(ls.len() as int) =~= lv);
    keep_last(kept, max_lines)
}

/// The lines of a log window: its first line dropped when the window does
/// not start at the beginning of the file (it may be cut), then the newest
/// `max_lines` kept.
pub open spec fn window_lines_spec(text: Seq<char>, windowed: bool, max_lines: int) -> Seq<Seq<char>> {
    let ls = lines(text);
    let ls2 = if windowed && ls.len() > 0 {
        ls.drop_first()
    } else {
        ls
    };
    last_n(ls2, max_lines)
}

pub fn log_window_lines(text: &str, windowed: bool, max_lines: usize) -> (r: Vec<String>)
    ensures
        sv(r@) == window_lines_spec(text@, windowed, max_lines as int),
{
    let mut ls = split_lines(text);
    if windowed && ls.len() > 0 {
        let ghost prev = sv(ls@);
        ls.remove(0);
        assert(sv(ls@) =~= prev.drop_first());
    }
    keep_last(ls, max_lines)
}

/// Whether a database error says that `table` does not exist.
pub fn is_missing_table_message(message: &str, table: &str) -> (r: bool)
    ensures
        r == contains(message@, "no such table: "@ + table@),
{
    let pat = concat("no such table: ", table);
    contains_str(message, pat.as_str())
}

/// Among the first `n` listed loops named `name`, the index of the first
/// one with the latest creation time.
pub open spec fn newest_in(loops: Seq<(String, String, String)>, name: Seq<char>, n: int) -> Option<int>
    decreases n,
{
    if n <= 0 {
        None
    } else {
        let best = newest_in(loops, name, n - 1);
        if loops[n - 1].1@ == name && (match best {
            Some(b) => lex_order(loops[n - 1].2@, loops[b].2@) > 0,
            None => true,
        }) {
            Some(n - 1)
        } else {
            best
        }
    }
}

/// Picks the id of the most recently created loop with this name from
/// (id, name, creation time) rows, the earlier listed on equal times.
pub fn newest_loop_named(loops: &Vec<(String, String, String)>, name: &str) -> (r: Option<String>)
    ensures
        match newest_in(loops@, name@, loops@.len() as int) {
            Some(k) => r matches Some(id) && id@ == loops@[k].0@,
            None => r is None,
        },
{
    let mut best: Option<usize> = None;
    let mut i: usize = 0;
    while i < loops.len()
        invariant
            i <= loops.len(),
            match best {
                Some(b) => newest_in(loops@, name@, i as int) == Some(b as int) && b < i,
                None => newest_in(loops@, name@, i as int) is None,
            },
        decreases loops.len() - i,
    {
        if str_eq(loops[i].1.as_str(), name) {
            match best {
                Some(b) => {
                    if order_strings(loops[i].2.as_str(), loops[b].2.as_str()) > 0 {
                        best = Some(i);
                    }
                },
                None => {
                    best = Some(i);
                },
            }
        }
        i += 1;
    }
    match best {
        Some(b) => Some(loops[b].0.clone()),
        None => None,
    }
}

/// `a` lists before `b`: by name ignoring ASCII case, then by id.
pub open spec fn loop_before(a: LoopView, b: LoopView) -> bool {
    lex_order(lower(a.name@), lower(b.name@)) < 0 || (lower(a.name@) == lower(b.name@) && lex_order(
        a.id@,
        b.id@,
    ) < 0)
}

pub open spec fn loop_goes_before(x: LoopView, s: Seq<LoopView>) -> spec_fn(int) -> bool {
    |j: int| loop_before(x, s[j])
}

pub open spec fn loop_insert_pos(s: Seq<LoopView>, x: LoopView) -> int {
    match first_from(0, s.len() as int, loop_goes_before(x, s)) {
        Some(j) => j,
        None => s.len() as int,
    }
}

/// `s` stably sorted by name ignoring ASCII case, then by id.
pub open spec fn sort_loops(s: Seq<LoopView>) -> Seq<LoopView>
    decreases s.len(),
{
    if s.len() == 0 {
        s
    } else {
        let t = sort_loops(s.drop_last());
        t.insert(loop_insert_pos(t, s.last()), s.last())
    }
}

/// The display order of loops as a relation.
pub open spec fn loop_order() -> spec_fn(LoopView, LoopView) -> bool {
    |a: LoopView, b: LoopView| loop_before(a, b)
}

pub proof fn lemma_loop_order_strict()
    ensures
        crate::text::strict_order(loop_order()),
{
    let r = loop_order();
    assert forall|a: LoopView| !#[trigger] r(a, a) by {
        crate::text::lemma_lex_eq(lower(a.name@), lower(a.name@));
        crate::text::lemma_lex_eq(a.id@, a.id@);
    }
    assert forall|a: LoopView, b: LoopView, c: LoopView| #[trigger] r(a, b) && #[trigger] r(b, c) implies r(
        a,
        c,
    ) by {
        let (la, lb, lc) = (lower(a.name@), lower(b.name@), lower(c.name@));
        if lex_order(la, lb) < 0 && lex_order(lb, lc) < 0 {
            crate::text::lemma_lex_trans(la, lb, lc);
        } else if la == lb && lb == lc {
            crate::text::lemma_lex_trans(a.id@, b.id@, c.id@);
        }
    }
}

/// The loops' display sort is the stable sort by `loop_order`; so it is
/// ascending and holds the same loops, each as often.
pub proof fn lemma_sort_loops_sorted(s: Seq<LoopView>)
    ensures
        sort_loops(s) == crate::text::sort_by_spec(s, loop_order()),
        crate::text::sorted_by(sort_loops(s), loop_order()),
        sort_loops(s).to_multiset() == s.to_multiset(),
    decreases s.len(),
{
    if s.len() > 0 {
        lemma_sort_loops_sorted(s.drop_last());
        let t = sort_loops(s.drop_last());
        assert(loop_goes_before(s.last(), t) =~= crate::text::first_after(t, loop_order(), s.last()));
    }
    lemma_loop_order_strict();
    crate::text::lemma_sort_by_sorted(s, loop_order());
}

fn loop_insert_index(list: &Vec<LoopView>, x: &LoopView) -> (r: usize)
    ensures
        r as int == loop_insert_pos(list@, *x),
        r <= list.len(),
{
    let xn = lowercase(x.name.as_str());
    let mut j: usize = 0;
    while j < list.len()
        invariant
            j <= list.len(),
            xn@ == lower(x.name@),
            first_from(0, list@.len() as int, loop_goes_before(*x, list@)) == first_from(
                j as int,
                list@.len() as int,
                loop_goes_before(*x, list@),
            ),
        decreases list.len() - j,
    {
        let en = lowercase(list[j].name.as_str());
        let by_name = order_strings(xn.as_str(), en.as_str());
        proof {
            crate::text::lemma_lex_eq(xn@, en@);
        }
        if by_name < 0 || (by_name == 0 && order_strings(x.id.as_str(), list[j].id.as_str()) < 0) {
            return j;
        }
        j += 1;
    }
    j
}

/// Loops in display order: by name ignoring ASCII case, then by id.
pub fn sort_loop_views(loops: Vec<LoopView>) -> (r: Vec<LoopView>)
    ensures
        r@ == sort_loops(loops@),
{
    let ghost orig = loops@;
    let mut rest = loops;
    let mut sorted: Vec<LoopView> = Vec::new();
    let mut k: usize = 0;
    let n = rest.len();
    assert(orig.skip(0) =~= orig);
    while rest.len() > 0
        invariant
            k + rest.len() == n,
            n == orig.len(),
            rest@ == orig.skip(k as int),
            sorted@ == sort_loops(orig.take(k as int)),
        decreases rest.len(),
    {
        assert(orig.take(k + 1).drop_last() =~= orig.take(k as int));
        assert(orig.take(k + 1).last() == orig[k as int]);
        let x = rest.remove(0);
        assert(rest@ =~= orig.skip(k + 1));
        let j = loop_insert_index(&sorted, &x);
        sorted.insert(j, x);
        k += 1;
    }
    assert(orig.take(k as int) =~= orig);
    sorted
}

// ---------------------------------------------------------------------------
// Rows of live data
// ---------------------------------------------------------------------------

/// Lines kept of a log tail or of a run's output.
pub const LOG_TAIL_MAX_LINES: usize = 240;

/// Runs kept in the history of a loop.
pub const RUN_HISTORY_LIMIT: usize = 120;

/// The state of a loop run as stored.
#[derive(Debug, Clone, Copy, PartialEq, Eq)]
pub enum RunStatus {
    Running,
    Success,
    Error,
    Killed,
}

pub open spec fn run_status_label_spec(s: RunStatus) -> Seq<char> {
    match s {
        RunStatus::Running => "RUNNING"@,
        RunStatus::Success => "SUCCESS"@,
        RunStatus::Error => "ERROR"@,
        RunStatus::Killed => "KILLED"@,
    }
}

pub fn run_status_label(status: RunStatus) -> (r: &'static str)
    ensures
        r@ == run_status_label_spec(status),
{
    match status {
        RunStatus::Running => "RUNNING",
        RunStatus::Success => "SUCCESS",
        RunStatus::Error => "ERROR",
        RunStatus::Killed => "KILLED",
    }
}

/// The duration shown for a run: `running` while it runs, `done` once it
/// has finished, `-` otherwise.
pub open spec fn run_duration_spec(s: RunStatus, finished: bool) -> Seq<char> {
    if s == RunStatus::Running {
        "running"@
    } else if finished {
        "done"@
    } else {
        "-"@
    }
}

pub fn run_duration_label(status: RunStatus, finished: bool) -> (r: String)
    ensures
        r@ == run_duration_spec(status, finished),
{
    if matches!(status, RunStatus::Running) {
        copy_string("running")
    } else if finished {
        copy_string("done")
    } else {
        copy_string("-")
    }
}

/// A loop run as read from the database.
#[derive(Debug, Clone)]
pub struct RunRow {
    pub id: String,
    pub status: RunStatus,
    pub exit_code: Option<i32>,
    pub finished_at: Option<String>,
    pub started_at: String,
    pub output_tail: String,
}

/// The newest output lines of a run, as listed.
pub open spec fn output_lines_spec(tail: Seq<char>) -> Seq<Seq<char>> {
    last_n(nonblank_lines(lines(tail)), LOG_TAIL_MAX_LINES as int)
}

/// `v` is the listed form of `run` under the loop's profile.
pub open spec fn run_view_of(v: RunView, run: RunRow, profile_name: Seq<char>, profile_id: Seq<char>) -> bool {
    &&& v.id@ == run.id@
    &&& v.status@ == run_status_label_spec(run.status)
    &&& v.exit_code == run.exit_code
    &&& v.duration@ == run_duration_spec(run.status, run.finished_at is Some)
    &&& v.profile_name@ == profile_name
    &&& v.profile_id@ == profile_id
    &&& v.harness@.len() == 0
    &&& v.auth_kind@.len() == 0
    &&& v.started_at@ == run.started_at@
    &&& sv(v.output_lines@) == output_lines_spec(run.output_tail@)
}

pub fn map_run_view(run: &RunRow, profile_name: &str, profile_id: &str) -> (r: RunView)
    ensures
        run_view_of(r, *run, profile_name@, profile_id@),
{
    RunView {
        id: run.id.clone(),
        status: copy_string(run_status_label(run.status)),
        exit_code: run.exit_code,
        duration: run_duration_label(run.status, run.finished_at.is_some()),
        profile_name: copy_string(profile_name),
        profile_id: copy_string(profile_id),
        harness: String::new(),
        auth_kind: String::new(),
        started_at: run.started_at.clone(),
        output_lines: run_output_lines(run.output_tail.as_str(), LOG_TAIL_MAX_LINES),
    }
}

/// The run history of a loop: its first `RUN_HISTORY_LIMIT` runs, listed.
pub fn run_history(runs: &Vec<RunRow>, profile_name: &str, profile_id: &str) -> (r: Vec<RunView>)
    ensures
        r.len() == (if runs.len() < RUN_HISTORY_LIMIT {
            runs.len()
        } else {
            RUN_HISTORY_LIMIT
        }),
        forall|i: int| 0 <= i < r.len() ==> #[trigger] run_view_of(r@[i], runs@[i], profile_name@, profile_id@),
{
    let n = if runs.len() < RUN_HISTORY_LIMIT {
        runs.len()
    } else {
        RUN_HISTORY_LIMIT
    };
    let mut out: Vec<RunView> = Vec::new();
    let mut i: usize = 0;
    while i < n
        invariant
            i <= n,
            n <= runs.len(),
            out.len() == i,
            forall|k: int| 0 <= k < i ==> #[trigger] run_view_of(out@[k], runs@[k], profile_name@, profile_id@),
        decreases n - i,
    {
        out.push(map_run_view(&runs[i], profile_name, profile_id));
        i += 1;
    }
    out
}

/// The lines shown for a loop whose log cannot be read: the output of its
/// first run, or nothing.
pub fn fallback_log_lines(runs: &Vec<RunRow>) -> (r: Vec<String>)
    ensures
        sv(r@) == (if runs.len() == 0 {
            Seq::empty()
        } else {
            output_lines_spec(runs@[0].output_tail@)
        }),
{
    if runs.len() == 0 {
        let r: Vec<String> = Vec::new();
        assert(sv(r@) =~= Seq::<Seq<char>>::empty());
        r
    } else {
        run_output_lines(runs[0].output_tail.as_str(), LOG_TAIL_MAX_LINES)
    }
}

/// What reading a loop's log file gave.
#[derive(Debug, Clone)]
pub enum LogRead {
    /// No file at the path.
    Missing,
    /// The text read, and whether it is a window that starts past the
    /// beginning of the file.
    Read { text: String, windowed: bool },
    /// Opening, seeking or reading failed with this message.
    Failed(String),
}

/// The log tail shown for a loop, from its log path and what reading it
/// gave: the fallback lines when the path is blank, the file is missing or
/// reading failed; otherwise the newest lines of the file.
pub fn log_tail_view(log_path: &str, read: LogRead, fallback: Vec<String>) -> (r: LogTailView)
    ensures
        trim(log_path@).len() == 0 ==> r.lines@ == fallback@ && r.message@
            == "No loop log path configured"@,
        trim(log_path@).len() > 0 ==> match read {
            LogRead::Missing => r.lines@ == fallback@ && r.message@ == "Log file missing: "@
                + log_path@,
            LogRead::Read { text, windowed } => sv(r.lines@) == window_lines_spec(
                text@,
                windowed,
                LOG_TAIL_MAX_LINES as int,
            ) && r.message@ == "tailing "@ + log_path@,
            LogRead::Failed(e) => r.lines@ == fallback@ && r.message@ == e@,
        },
{
    if trim_str(log_path).as_str().is_empty() {
        return LogTailView { lines: fallback, message: copy_string("No loop log path configured") };
    }
    match read {
        LogRead::Missing => LogTailView {
            lines: fallback,
            message: concat("Log file missing: ", log_path),
        },
        LogRead::Read { text, windowed } => LogTailView {
            lines: log_window_lines(text.as_str(), windowed, LOG_TAIL_MAX_LINES),
            message: concat("tailing ", log_path),
        },
        LogRead::Failed(e) => LogTailView { lines: fallback, message: e },
    }
}

/// The profile shown for a loop: the found profile's name, harness and
/// auth kind, or the profile id with no harness or auth when none is found.
pub fn resolve_profile(profile_id: &str, found: Option<&(String, String, String)>) -> (r: (
    String,
    String,
    String,
))
    ensures
        match found {
            Some(p) => r.0@ == p.0@ && r.1@ == p.1@ && r.2@ == p.2@,
            None => r.0@ == profile_id@ && r.1@.len() == 0 && r.2@.len() == 0,
        },
{
    match found {
        Some(p) => (p.0.clone(), p.1.clone(), p.2.clone()),
        None => (copy_string(profile_id), String::new(), String::new()),
    }
}

/// The pool shown for a loop: nothing without a pool id, else the found
/// pool's name, or the pool id when none is found.
pub fn resolve_pool_name(pool_id: &str, found: Option<&String>) -> (r: String)
    ensures
        r@ == (if pool_id@.len() == 0 {
            Seq::empty()
        } else {
            match found {
                Some(n) => n@,
                None => pool_id@,
            }
        }),
{
    if pool_id.is_empty() {
        String::new()
    } else {
        match found {
            Some(n) => n.clone(),
            None => copy_string(pool_id),
        }
    }
}

/// The queue items of a loop still waiting: those whose status is
/// `pending`.
pub open spec fn pending_in(statuses: Seq<String>) -> nat
    decreases statuses.len(),
{
    if statuses.len() == 0 {
        0
    } else {
        pending_in(statuses.drop_last()) + if statuses.last()@ == "pending"@ {
            1nat
        } else {
            0nat
        }
    }
}

pub fn pending_count(statuses: &Vec<String>) -> (r: usize)
    ensures
        r == pending_in(statuses@),
{
    let mut n: usize = 0;
    let mut i: usize = 0;
    while i < statuses.len()
        invariant
            i <= statuses.len(),
            n == pending_in(statuses@.take(i as int)),
            n <= i,
        decreases statuses.len() - i,
    {
        assert(statuses@.take(i + 1).drop_last() =~= statuses@.take(i as int));
        if str_eq(statuses[i].as_str(), "pending") {
            n += 1;
        }
        i += 1;
    }
    assert(statuses@.take(i as int) =~= statuses@);
    n
}

// ---------------------------------------------------------------------------
// Assembling one loop's live data
// ---------------------------------------------------------------------------

/// What reading one table of the database gave.
pub enum TableRead<T> {
    Read(T),
    /// The table does not exist: a database from before it was added.
    MissingTable,
    /// The read failed with this message.
    Failed(String),
}

/// The read of `table` that failed with `message`: a missing table when the
/// message says there is no such table, else a failure with that message.
pub fn failed_table_read<T>(message: String, table: &str) -> (r: TableRead<T>)
    ensures
        contains(message@, "no such table: "@ + table@) ==> r is MissingTable,
        !contains(message@, "no such table: "@ + table@) ==> r == TableRead::<T>::Failed(message),
{
    if is_missing_table_message(message.as_str(), table) {
        TableRead::MissingTable
    } else {
        TableRead::Failed(message)
    }
}

/// A table's value: `missing` for a table that does not exist, or the
/// error of a failed read.
pub fn table_or<T>(read: TableRead<T>, missing: T) -> (r: Result<T, String>)
    ensures
        match read {
            TableRead::Read(v) => r == Ok::<T, String>(v),
            TableRead::MissingTable => r == Ok::<T, String>(missing),
            TableRead::Failed(e) => r == Err::<T, String>(e),
        },
{
    match read {
        TableRead::Read(v) => Ok(v),
        TableRead::MissingTable => Ok(missing),
        TableRead::Failed(e) => Err(e),
    }
}

/// A stored run count as a count of runs: a negative or too large count
/// reads as the largest `usize`.
pub fn run_count(count: i64) -> (r: usize)
    ensures
        r == (if count < 0 || count > usize::MAX {
            usize::MAX
        } else {
            count as usize
        }),
{
    if count < 0 {
        usize::MAX
    } else if (count as u64) > (usize::MAX as u64) {
        usize::MAX
    } else {
        count as usize
    }
}

/// A loop's log file is read only when its path is not blank.
pub fn reads_log(log_path: &str) -> (r: bool)
    ensures
        r == (trim(log_path@).len() > 0),
{
    !trim_str(log_path).as_str().is_empty()
}

/// The log path kept for a loop: only a path that is not empty.
pub fn log_path_entry(loop_id: &str, log_path: &str) -> (r: Option<(String, String)>)
    ensures
        match r {
            Some((id, path)) => log_path@.len() > 0 && id@ == loop_id@ && path@ == log_path@,
            None => log_path@.len() == 0,
        },
{
    if log_path.is_empty() {
        None
    } else {
        Some((copy_string(loop_id), copy_string(log_path)))
    }
}

/// The run history kept for a loop: none for a loop without runs, else its
/// first `RUN_HISTORY_LIMIT` runs, listed.
pub fn kept_run_history(runs: &Vec<RunRow>, profile_name: &str, profile_id: &str) -> (r: Option<
    Vec<RunView>,
>)
    ensures
        match r {
            Some(h) => runs.len() > 0 && h.len() == (if runs.len() < RUN_HISTORY_LIMIT {
                runs.len()
            } else {
                RUN_HISTORY_LIMIT
            }) && forall|i: int| 0 <= i < h.len() ==> #[trigger] run_view_of(h@[i], runs@[i], profile_name@, profile_id@),
            None => runs.len() == 0,
        },
{
    let history = run_history(runs, profile_name, profile_id);
    if history.len() == 0 {
        None
    } else {
        Some(history)
    }
}

// ---------------------------------------------------------------------------
// Snapshots of live data
// ---------------------------------------------------------------------------

/// One refresh of the loop data shown by the shell.
#[derive(Debug, Clone)]
pub struct BootstrapSnapshot {
    pub loops: Vec<LoopView>,
    pub run_history_by_loop: HashMap<String, Vec<RunView>>,
    pub log_tails_by_loop: HashMap<String, LogTailView>,
    pub refreshed_at_epoch_secs: u64,
    pub error: Option<String>,
}

/// `SystemTime::now().duration_since(UNIX_EPOCH)` in whole seconds, or
/// nothing when the clock is before the epoch. Depends on the clock, so
/// nothing is stated of it.
#[verifier::external_body]
fn seconds_since_epoch() -> Option<u64> {
    SystemTime::now().duration_since(UNIX_EPOCH).ok().map(|d| d.as_secs())
}

/// Seconds since the Unix epoch by the system clock, 0 when the clock is
/// before the epoch.
pub fn unix_timestamp_secs() -> u64 {
    match seconds_since_epoch() {
        Some(s) => s,
        None => 0,
    }
}

impl BootstrapSnapshot {
    /// A successful refresh, stamped with the current time.
    pub fn ok(
        loops: Vec<LoopView>,
        run_history_by_loop: HashMap<String, Vec<RunView>>,
        log_tails_by_loop: HashMap<String, LogTailView>,
    ) -> (r: Self)
        ensures
            r.loops == loops,
            r.run_history_by_loop == run_history_by_loop,
            r.log_tails_by_loop == log_tails_by_loop,
            r.error is None,
    {
        Self {
            loops,
            run_history_by_loop,
            log_tails_by_loop,
            refreshed_at_epoch_secs: unix_timestamp_secs(),
            error: None,
        }
    }

    /// A failed refresh: no data, the error, the current time.
    pub fn err(message: String) -> (r: Self)
        ensures
            r.loops@.len() == 0,
            r.run_history_by_loop@.len() == 0,
            r.log_tails_by_loop@.len() == 0,
            r.error == Some(message),
    {
        Self {
            loops: Vec::new(),
            run_history_by_loop: HashMap::new(),
            log_tails_by_loop: HashMap::new(),
            refreshed_at_epoch_secs: unix_timestamp_secs(),
            error: Some(message),
        }
    }
}

/// A snapshot of what loading the live data gave: the data, or the error.
pub fn load_snapshot(
    loaded: Result<
        (Vec<LoopView>, HashMap<String, Vec<RunView>>, HashMap<String, LogTailView>),
        String,
    >,
) -> (r: BootstrapSnapshot)
    ensures
        match loaded {
            Ok((loops, runs, tails)) => r.loops == loops && r.run_history_by_loop == runs
                && r.log_tails_by_loop == tails && r.error is None,
            Err(e) => r.loops@.len() == 0 && r.run_history_by_loop@.len() == 0
                && r.log_tails_by_loop@.len() == 0 && r.error == Some(e),
        },
{
    match loaded {
        Ok((loops, runs_by_loop, log_tails_by_loop)) => BootstrapSnapshot::ok(
            loops,
            runs_by_loop,
            log_tails_by_loop,
        ),
        Err(err) => BootstrapSnapshot::err(err),
    }
}

/// The result of running an action, from the text the command printed:
/// `action_outcome` with that text read as JSON.
pub fn action_outcome_for_output(
    action: &ActionKind,
    exit_code: i32,
    stdout: &str,
    stderr: &str,
    created_loop_id: String,
) -> (r: ActionResult)
    ensures
        outcome_ok(r, *action, exit_code, text_json(stdout@), stderr@, created_loop_id@),
{
    let parsed = parse_json(stdout);
    action_outcome(action, exit_code, parsed.as_ref(), stderr, created_loop_id)
}

/// The flag of the `field`th wizard field of `up`, in the order the
/// fields are passed.
pub open spec fn up_field_flag(field: int) -> Seq<char> {
    if field == 0 {
        "--name"@
    } else if field == 1 {
        "--name-prefix"@
    } else if field == 2 {
        "--count"@
    } else if field == 3 {
        "--pool"@
    } else if field == 4 {
        "--profile"@
    } else if field == 5 {
        "--prompt"@
    } else if field == 6 {
        "--prompt-msg"@
    } else if field == 7 {
        "--interval"@
    } else if field == 8 {
        "--max-runtime"@
    } else if field == 9 {
        "--max-iterations"@
    } else {
        "--tags"@
    }
}

/// The wizard key of the `field`th field of `up`.
pub open spec fn up_field_key(field: int) -> Seq<char> {
    if field == 0 {
        "name"@
    } else if field == 1 {
        "name_prefix"@
    } else if field == 2 {
        "count"@
    } else if field == 3 {
        "pool"@
    } else if field == 4 {
        "profile"@
    } else if field == 5 {
        "prompt"@
    } else if field == 6 {
        "prompt_msg"@
    } else if field == 7 {
        "interval"@
    } else if field == 8 {
        "max_runtime"@
    } else if field == 9 {
        "max_iterations"@
    } else {
        "tags"@
    }
}

proof fn lemma_up_field_0(w: Seq<(String, String)>, spawn_owner: Seq<char>) -> (p: int)
    ensures
        0 <= p,
        pair_args("--name"@, wizard_lookup(w, "name"@)).len() == 2 ==> p + 1 < up_args_spec(w, spawn_owner).len() && up_args_spec(w, spawn_owner)[p]
            == pair_args("--name"@, wizard_lookup(w, "name"@))[0] && up_args_spec(w, spawn_owner)[p + 1] == pair_args("--name"@, wizard_lookup(w, "name"@))[1],
{
    let pre = seq!["up"@, "--json"@] + owner_args(spawn_owner);
    let x = pre + pair_args("--name"@, wizard_lookup(w, "name"@));
    assert(x.len() == pre.len() + pair_args("--name"@, wizard_lookup(w, "name"@)).len());
    pre.len() as int
}

proof fn lemma_up_field_1(w: Seq<(String, String)>, spawn_owner: Seq<char>) -> (p: int)
    ensures
        0 <= p,
        pair_args("--name-prefix"@, wizard_lookup(w, "name_prefix"@)).len() == 2 ==> p + 1 < up_args_spec(w, spawn_owner).len() && up_args_spec(w, spawn_owner)[p]
            == pair_args("--name-prefix"@, wizard_lookup(w, "name_prefix"@))[0] && up_args_spec(w, spawn_owner)[p + 1] == pair_args("--name-prefix"@, wizard_lookup(w, "name_prefix"@))[1],
{
    let pre = seq!["up"@, "--json"@] + owner_args(spawn_owner) + pair_args("--name"@, wizard_lookup(w, "name"@));
    let x = pre + pair_args("--name-prefix"@, wizard_lookup(w, "name_prefix"@));
    assert(x.len() == pre.len() + pair_args("--name-prefix"@, wizard_lookup(w, "name_prefix"@)).len());
    pre.len() as int
}

proof fn lemma_up_field_2(w: Seq<(String, String)>, spawn_owner: Seq<char>) -> (p: int)
    ensures
        0 <= p,
        pair_args("--count"@, wizard_lookup(w, "count"@)).len() == 2 ==> p + 1 < up_args_spec(w, spawn_owner).len() && up_args_spec(w, spawn_owner)[p]
            == pair_args("--count"@, wizard_lookup(w, "count"@))[0] && up_args_spec(w, spawn_owner)[p + 1] == pair_args("--count"@, wizard_lookup(w, "count"@))[1],
{
    let pre = seq!["up"@, "--json"@] + owner_args(spawn_owner) + pair_args("--name"@, wizard_lookup(w, "name"@)) + pair_args("--name-prefix"@, wizard_lookup(w, "name_prefix"@));
    let x = pre + pair_args("--count"@, wizard_lookup(w, "count"@));
    assert(x.len() == pre.len() + pair_args("--count"@, wizard_lookup(w, "count"@)).len());
    pre.len() as int
}

proof fn lemma_up_field_3(w: Seq<(String, String)>, spawn_owner: Seq<char>) -> (p: int)
    ensures
        0 <= p,
        pair_args("--pool"@, wizard_lookup(w, "pool"@)).len() == 2 ==> p + 1 < up_args_spec(w, spawn_owner).len() && up_args_spec(w, spawn_owner)[p]
            == pair_args("--pool"@, wizard_lookup(w, "pool"@))[0] && up_args_spec(w, spawn_owner)[p + 1] == pair_args("--pool"@, wizard_lookup(w, "pool"@))[1],
{
    let pre = seq!["up"@, "--json"@] + owner_args(spawn_owner) + pair_args("--name"@, wizard_lookup(w, "name"@)) + pair_args("--name-prefix"@, wizard_lookup(w, "name_prefix"@)) + pair_args("--count"@, wizard_lookup(w, "count"@));
    let x = pre + pair_args("--pool"@, wizard_lookup(w, "pool"@));
    assert(x.len() == pre.len() + pair_args("--pool"@, wizard_lookup(w, "pool"@)).len());
    pre.len() as int
}

proof fn lemma_up_field_4(w: Seq<(String, String)>, spawn_owner: Seq<char>) -> (p: int)
    ensures
        0 <= p,
        pair_args("--profile"@, wizard_lookup(w, "profile"@)).len() == 2 ==> p + 1 < up_args_spec(w, spawn_owner).len() && up_args_spec(w, spawn_owner)[p]
            == pair_args("--profile"@, wizard_lookup(w, "profile"@))[0] && up_args_spec(w, spawn_owner)[p + 1] == pair_args("--profile"@, wizard_lookup(w, "profile"@))[1],
{
    let pre = seq!["up"@, "--json"@] + owner_args(spawn_owner) + pair_args("--name"@, wizard_lookup(w, "name"@)) + pair_args("--name-prefix"@, wizard_lookup(w, "name_prefix"@)) + pair_args("--count"@, wizard_lookup(w, "count"@)) + pair_args("--pool"@, wizard_lookup(w, "pool"@));
    let x = pre + pair_args("--profile"@, wizard_lookup(w, "profile"@));
    assert(x.len() == pre.len() + pair_args("--profile"@, wizard_lookup(w, "profile"@)).len());
    pre.len() as int
}

proof fn lemma_up_field_5(w: Seq<(String, String)>, spawn_owner: Seq<char>) -> (p: int)
    ensures
        0 <= p,
        pair_args("--prompt"@, wizard_lookup(w, "prompt"@)).len() == 2 ==> p + 1 < up_args_spec(w, spawn_owner).len() && up_args_spec(w, spawn_owner)[p]
            == pair_args("--prompt"@, wizard_lookup(w, "prompt"@))[0] && up_args_spec(w, spawn_owner)[p + 1] == pair_args("--prompt"@, wizard_lookup(w, "prompt"@))[1],
{
    let pre = seq!["up"@, "--json"@] + owner_args(spawn_owner) + pair_args("--name"@, wizard_lookup(w, "name"@)) + pair_args("--name-prefix"@, wizard_lookup(w, "name_prefix"@)) + pair_args("--count"@, wizard_lookup(w, "count"@)) + pair_args("--pool"@, wizard_lookup(w, "pool"@)) + pair_args("--profile"@, wizard_lookup(w, "profile"@));
    let x = pre + pair_args("--prompt"@, wizard_lookup(w, "prompt"@));
    assert(x.len() == pre.len() + pair_args("--prompt"@, wizard_lookup(w, "prompt"@)).len());
    pre.len() as int
}

proof fn lemma_up_field_6(w: Seq<(String, String)>, spawn_owner: Seq<char>) -> (p: int)
    ensures
        0 <= p,
        pair_args("--prompt-msg"@, wizard_lookup(w, "prompt_msg"@)).len() == 2 ==> p + 1 < up_args_spec(w, spawn_owner).len() && up_args_spec(w, spawn_owner)[p]
            == pair_args("--prompt-msg"@, wizard_lookup(w, "prompt_msg"@))[0] && up_args_spec(w, spawn_owner)[p + 1] == pair_args("--prompt-msg"@, wizard_lookup(w, "prompt_msg"@))[1],
{
    let pre = seq!["up"@, "--json"@] + owner_args(spawn_owner) + pair_args("--name"@, wizard_lookup(w, "name"@)) + pair_args("--name-prefix"@, wizard_lookup(w, "name_prefix"@)) + pair_args("--count"@, wizard_lookup(w, "count"@)) + pair_args("--pool"@, wizard_lookup(w, "pool"@)) + pair_args("--profile"@, wizard_lookup(w, "profile"@)) + pair_args("--prompt"@, wizard_lookup(w, "prompt"@));
    let x = pre + pair_args("--prompt-msg"@, wizard_lookup(w, "prompt_msg"@));
    assert(x.len() == pre.len() + pair_args("--prompt-msg"@, wizard_lookup(w, "prompt_msg"@)).len());
    pre.len() as int
}

proof fn lemma_up_field_7(w: Seq<(String, String)>, spawn_owner: Seq<char>) -> (p: int)
    ensures
        0 <= p,
        pair_args("--interval"@, wizard_lookup(w, "interval"@)).len() == 2 ==> p + 1 < up_args_spec(w, spawn_owner).len() && up_args_spec(w, spawn_owner)[p]
            == pair_args("--interval"@, wizard_lookup(w, "interval"@))[0] && up_args_spec(w, spawn_owner)[p + 1] == pair_args("--interval"@, wizard_lookup(w, "interval"@))[1],
{
    let pre = seq!["up"@, "--json"@] + owner_args(spawn_owner) + pair_args("--name"@, wizard_lookup(w, "name"@)) + pair_args("--name-prefix"@, wizard_lookup(w, "name_prefix"@)) + pair_args("--count"@, wizard_lookup(w, "count"@)) + pair_args("--pool"@, wizard_lookup(w, "pool"@)) + pair_args("--profile"@, wizard_lookup(w, "profile"@)) + pair_args("--prompt"@, wizard_lookup(w, "prompt"@)) + pair_args("--prompt-msg"@, wizard_lookup(w, "prompt_msg"@));
    let x = pre + pair_args("--interval"@, wizard_lookup(w, "interval"@));
    assert(x.len() == pre.len() + pair_args("--interval"@, wizard_lookup(w, "interval"@)).len());
    pre.len() as int
}

proof fn lemma_up_field_8(w: Seq<(String, String)>, spawn_owner: Seq<char>) -> (p: int)
    ensures
        0 <= p,
        pair_args("--max-runtime"@, wizard_lookup(w, "max_runtime"@)).len() == 2 ==> p + 1 < up_args_spec(w, spawn_owner).len() && up_args_spec(w, spawn_owner)[p]
            == pair_args("--max-runtime"@, wizard_lookup(w, "max_runtime"@))[0] && up_args_spec(w, spawn_owner)[p + 1] == pair_args("--max-runtime"@, wizard_lookup(w, "max_runtime"@))[1],
{
    let pre = seq!["up"@, "--json"@] + owner_args(spawn_owner) + pair_args("--name"@, wizard_lookup(w, "name"@)) + pair_args("--name-prefix"@, wizard_lookup(w, "name_prefix"@)) + pair_args("--count"@, wizard_lookup(w, "count"@)) + pair_args("--pool"@, wizard_lookup(w, "pool"@)) + pair_args("--profile"@, wizard_lookup(w, "profile"@)) + pair_args("--prompt"@, wizard_lookup(w, "prompt"@)) + pair_args("--prompt-msg"@, wizard_lookup(w, "prompt_msg"@)) + pair_args("--interval"@, wizard_lookup(w, "interval"@));
    let x = pre + pair_args("--max-runtime"@, wizard_lookup(w, "max_runtime"@));
    assert(x.len() == pre.len() + pair_args("--max-runtime"@, wizard_lookup(w, "max_runtime"@)).len());
    pre.len() as int
}

proof fn lemma_up_field_9(w: Seq<(String, String)>, spawn_owner: Seq<char>) -> (p: int)
    ensures
        0 <= p,
        pair_args("--max-iterations"@, wizard_lookup(w, "max_iterations"@)).len() == 2 ==> p + 1 < up_args_spec(w, spawn_owner).len() && up_args_spec(w, spawn_owner)[p]
            == pair_args("--max-iterations"@, wizard_lookup(w, "max_iterations"@))[0] && up_args_spec(w, spawn_owner)[p + 1] == pair_args("--max-iterations"@, wizard_lookup(w, "max_iterations"@))[1],
{
    let pre = seq!["up"@, "--json"@] + owner_args(spawn_owner) + pair_args("--name"@, wizard_lookup(w, "name"@)) + pair_args("--name-prefix"@, wizard_lookup(w, "name_prefix"@)) + pair_args("--count"@, wizard_lookup(w, "count"@)) + pair_args("--pool"@, wizard_lookup(w, "pool"@)) + pair_args("--profile"@, wizard_lookup(w, "profile"@)) + pair_args("--prompt"@, wizard_lookup(w, "prompt"@)) + pair_args("--prompt-msg"@, wizard_lookup(w, "prompt_msg"@)) + pair_args("--interval"@, wizard_lookup(w, "interval"@)) + pair_args("--max-runtime"@, wizard_lookup(w, "max_runtime"@));
    let x = pre + pair_args("--max-iterations"@, wizard_lookup(w, "max_iterations"@));
    assert(x.len() == pre.len() + pair_args("--max-iterations"@, wizard_lookup(w, "max_iterations"@)).len());
    pre.len() as int
}

proof fn lemma_up_field_10(w: Seq<(String, String)>, spawn_owner: Seq<char>) -> (p: int)
    ensures
        0 <= p,
        pair_args("--tags"@, wizard_lookup(w, "tags"@)).len() == 2 ==> p + 1 < up_args_spec(w, spawn_owner).len() && up_args_spec(w, spawn_owner)[p]
            == pair_args("--tags"@, wizard_lookup(w, "tags"@))[0] && up_args_spec(w, spawn_owner)[p + 1] == pair_args("--tags"@, wizard_lookup(w, "tags"@))[1],
{
    let pre = seq!["up"@, "--json"@] + owner_args(spawn_owner) + pair_args("--name"@, wizard_lookup(w, "name"@)) + pair_args("--name-prefix"@, wizard_lookup(w, "name_prefix"@)) + pair_args("--count"@, wizard_lookup(w, "count"@)) + pair_args("--pool"@, wizard_lookup(w, "pool"@)) + pair_args("--profile"@, wizard_lookup(w, "profile"@)) + pair_args("--prompt"@, wizard_lookup(w, "prompt"@)) + pair_args("--prompt-msg"@, wizard_lookup(w, "prompt_msg"@)) + pair_args("--interval"@, wizard_lookup(w, "interval"@)) + pair_args("--max-runtime"@, wizard_lookup(w, "max_runtime"@)) + pair_args("--max-iterations"@, wizard_lookup(w, "max_iterations"@));
    let x = pre + pair_args("--tags"@, wizard_lookup(w, "tags"@));
    assert(x.len() == pre.len() + pair_args("--tags"@, wizard_lookup(w, "tags"@)).len());
    pre.len() as int
}

/// The `up` arguments carry every wizard field that is filled in: when the
/// first wizard entry under a field's key holds a value that is not blank,
/// the field's flag stands in the arguments immediately followed by the
/// trimmed value.
pub proof fn law_up_args_carry_each_field(
    w: Seq<(String, String)>,
    spawn_owner: Seq<char>,
    field: int,
    i: int,
)
    requires
        0 <= field < 11,
        0 <= i < w.len(),
        w[i].0@ == up_field_key(field),
        forall|j: int| 0 <= j < i ==> (#[trigger] w[j]).0@ != up_field_key(field),
        trim(w[i].1@).len() > 0,
    ensures
        exists|p: int|
            0 <= p && p + 1 < up_args_spec(w, spawn_owner).len() && #[trigger] up_args_spec(w, spawn_owner)[p]
                == up_field_flag(field) && up_args_spec(w, spawn_owner)[p + 1] == trim(w[i].1@),
{
    let key = up_field_key(field);
    lemma_first_from(0, w.len() as int, entry_key_is(w, key));
    assert(entry_key_is(w, key)(i));
    assert(wizard_lookup(w, key) == Some(w[i].1@));
    let p =     if field == 0 {
        lemma_up_field_0(w, spawn_owner)
    } else if field == 1 {
        lemma_up_field_1(w, spawn_owner)
    } else if field == 2 {
        lemma_up_field_2(w, spawn_owner)
    } else if field == 3 {
        lemma_up_field_3(w, spawn_owner)
    } else if field == 4 {
        lemma_up_field_4(w, spawn_owner)
    } else if field == 5 {
        lemma_up_field_5(w, spawn_owner)
    } else if field == 6 {
        lemma_up_field_6(w, spawn_owner)
    } else if field == 7 {
        lemma_up_field_7(w, spawn_owner)
    } else if field == 8 {
        lemma_up_field_8(w, spawn_owner)
    } else if field == 9 {
        lemma_up_field_9(w, spawn_owner)
    } else {
        lemma_up_field_10(w, spawn_owner)
    };
    assert(up_args_spec(w, spawn_owner)[p] == up_field_flag(field));
}

} // verus!
