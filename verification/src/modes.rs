//! Keys in the modal dialogs of the shell: the confirmation of a
//! destructive loop action and the loop-creation wizard.
use vstd::prelude::*;

use crate::app::{
    ActionKind, ActionResult, ActionType, Command, ConfirmRailSelection, ConfirmState, FilterFocus, LoopView,
    StatusKind, UiMode, WizardState, WizardValues,
};
use crate::text::{
    char_count, concat, copy_string, dec, push_char, push_str, str_eq, take_chars, take_upto, trim, trim_str,
    u64_to_string,
};
use crate::loop_list::{cycle_filter_status, cycled_filter};
use crate::wizard::{
    field_count_spec, field_key_spec, same_except, step_check, validate_wizard_step,
    wizard_field_count, wizard_field_key, wizard_get, wizard_get_spec, wizard_set,
};

verus! {

/// Characters a reason for a high-risk action needs, not counting the
/// blanks around it.
pub const DESTRUCTIVE_CONFIRM_REASON_MIN_CHARS: usize = 12;

/// Characters a reason can hold.
pub const MAX_DESTRUCTIVE_CONFIRM_REASON_CHARS: usize = 160;

/// A key as the dialogs read it.
#[derive(Debug, Clone, Copy, PartialEq, Eq)]
pub enum Key {
    Char(char),
    Enter,
    Escape,
    Tab,
    Backspace,
    Up,
    Down,
    Left,
    Right,
    /// Any other key.
    Other,
}

/// A key with its modifiers.
#[derive(Debug, Clone, Copy, PartialEq, Eq)]
pub struct KeyPress {
    pub key: Key,
    pub shift: bool,
    pub ctrl: bool,
    pub alt: bool,
}

// ---------------------------------------------------------------------------
// Opening the confirmation
// ---------------------------------------------------------------------------

pub open spec fn stop_prompt(id: Seq<char>) -> Seq<char> {
    "Stop loop "@ + id + " after current iteration? [y/N]"@
}

pub open spec fn kill_prompt(id: Seq<char>) -> Seq<char> {
    "Kill loop "@ + id + " immediately? [y/N]"@
}

pub open spec fn delete_prompt(id: Seq<char>) -> Seq<char> {
    "Delete loop record "@ + id + "? [y/N]"@
}

pub open spec fn force_delete_prompt(id: Seq<char>) -> Seq<char> {
    "Loop is still running. Force delete record "@ + id + "? [y/N]"@
}

/// The confirmation `c` asks before `action` on loop `v`.
pub open spec fn confirm_opened(c: ConfirmState, action: ActionType, v: LoopView) -> bool {
    let stopped = v.state@ == "stopped"@;
    let force = action == ActionType::Delete && !stopped;
    &&& c.action == action
    &&& c.loop_id@ == v.id@
    &&& c.prompt@ == (match action {
        ActionType::Stop => stop_prompt(v.id@),
        ActionType::Kill => kill_prompt(v.id@),
        _ => if stopped {
            delete_prompt(v.id@)
        } else {
            force_delete_prompt(v.id@)
        },
    })
    &&& c.force_delete == force
    &&& c.selected == ConfirmRailSelection::Cancel
    &&& c.reason@.len() == 0
    &&& c.reason_required == (action == ActionType::Kill || force)
}

/// The confirmation to show before a stop, kill or delete of the selected
/// loop; the status to show instead when no loop is selected or the action
/// is not one of those.
pub fn confirm_for(action: ActionType, selected: Option<&LoopView>) -> (r: Result<
    ConfirmState,
    (StatusKind, String),
>)
    ensures
        match selected {
            None => r matches Err((k, m)) && k == StatusKind::Info && m@ == "No loop selected"@,
            Some(v) => if action == ActionType::Stop || action == ActionType::Kill || action
                == ActionType::Delete {
                r matches Ok(c) && confirm_opened(c, action, *v)
            } else {
                r matches Err((k, m)) && k == StatusKind::Error && m@
                    == "Unsupported destructive action"@
            },
        },
{
    let view = match selected {
        Some(v) => v,
        None => {
            return Err((StatusKind::Info, copy_string("No loop selected")));
        },
    };
    let loop_id = view.id.as_str();
    let stopped = str_eq(view.state.as_str(), "stopped");
    let prompt = match action {
        ActionType::Stop => {
            let mut p = concat("Stop loop ", loop_id);
            push_str(&mut p, " after current iteration? [y/N]");
            p
        },
        ActionType::Kill => {
            let mut p = concat("Kill loop ", loop_id);
            push_str(&mut p, " immediately? [y/N]");
            p
        },
        ActionType::Delete => {
            if stopped {
                let mut p = concat("Delete loop record ", loop_id);
                push_str(&mut p, "? [y/N]");
                p
            } else {
                let mut p = concat("Loop is still running. Force delete record ", loop_id);
                push_str(&mut p, "? [y/N]");
                p
            }
        },
        _ => {
            return Err((StatusKind::Error, copy_string("Unsupported destructive action")));
        },
    };
    let force_delete = matches!(action, ActionType::Delete) && !stopped;
    let reason_required = matches!(action, ActionType::Kill) || force_delete;
    Ok(
        ConfirmState {
            action,
            loop_id: copy_string(loop_id),
            prompt,
            force_delete,
            selected: ConfirmRailSelection::Cancel,
            reason: String::new(),
            reason_required,
        },
    )
}

// ---------------------------------------------------------------------------
// Keys in the confirmation
// ---------------------------------------------------------------------------

/// What a key does in the confirmation, in the order the dialog tries.
pub enum ConfirmKeyAction {
    Cancel,
    Help,
    /// Move the rail selection by the step.
    Select(int),
    DropChar,
    ClearReason,
    TypeChar(char),
    Enter,
    Accept,
    Ignore,
}

pub open spec fn confirm_key_action(c: ConfirmState, k: KeyPress) -> ConfirmKeyAction {
    let rr = c.reason_required;
    match k.key {
        Key::Char(ch) => if ch == 'q' {
            ConfirmKeyAction::Cancel
        } else if (ch == 'n' || ch == 'N') && !rr {
            ConfirmKeyAction::Cancel
        } else if ch == '?' {
            ConfirmKeyAction::Help
        } else if ch == 'u' && rr && k.ctrl {
            ConfirmKeyAction::ClearReason
        } else if rr && !k.ctrl && !k.alt {
            ConfirmKeyAction::TypeChar(ch)
        } else if (ch == 'y' || ch == 'Y') && !rr {
            ConfirmKeyAction::Accept
        } else {
            ConfirmKeyAction::Ignore
        },
        Key::Escape => ConfirmKeyAction::Cancel,
        Key::Tab => if k.shift {
            ConfirmKeyAction::Select(-1)
        } else {
            ConfirmKeyAction::Select(1)
        },
        Key::Right => ConfirmKeyAction::Select(1),
        Key::Left => ConfirmKeyAction::Select(-1),
        Key::Backspace => if rr {
            ConfirmKeyAction::DropChar
        } else {
            ConfirmKeyAction::Ignore
        },
        Key::Enter => ConfirmKeyAction::Enter,
        _ => ConfirmKeyAction::Ignore,
    }
}

/// A reason is good enough when none is required or it has enough
/// characters inside its blanks.
pub open spec fn reason_ok(c: ConfirmState) -> bool {
    !c.reason_required || trim(c.reason@).len() >= DESTRUCTIVE_CONFIRM_REASON_MIN_CHARS
}

/// The action a confirmed dialog runs: none for an action it cannot run.
pub open spec fn submits(a: Option<ActionKind>, c: ConfirmState) -> bool {
    match c.action {
        ActionType::Stop => a matches Some(ActionKind::Stop { loop_id }) && loop_id@ == c.loop_id@,
        ActionType::Kill => a matches Some(ActionKind::Kill { loop_id }) && loop_id@ == c.loop_id@,
        ActionType::Delete => a matches Some(ActionKind::Delete { loop_id, force }) && loop_id@
            == c.loop_id@ && force == c.force_delete,
        _ => a is None,
    }
}

/// `a` and `b` are the same confirmation but for the rail selection and the
/// reason.
pub open spec fn same_dialog(a: ConfirmState, b: ConfirmState) -> bool {
    &&& a.action == b.action
    &&& a.loop_id@ == b.loop_id@
    &&& a.prompt@ == b.prompt@
    &&& a.force_delete == b.force_delete
    &&& a.reason_required == b.reason_required
}

pub open spec fn moved_selection(s: ConfirmRailSelection, step: int) -> ConfirmRailSelection {
    let cur: int = match s {
        ConfirmRailSelection::Cancel => 0,
        ConfirmRailSelection::Confirm => 1,
    };
    if (cur + step) % 2 == 0 {
        ConfirmRailSelection::Cancel
    } else {
        ConfirmRailSelection::Confirm
    }
}

/// What became of the confirmation after a key.
#[derive(Debug, PartialEq, Eq)]
pub enum ConfirmOutcome {
    /// The dialog stays open.
    Open,
    /// The dialog closed without running anything.
    Cancelled,
    /// Help opened over the dialog.
    Help,
    /// The reason is too short for a high-risk action; the dialog stays open.
    ReasonTooShort,
    /// The dialog closed and runs this action (nothing for an action it
    /// cannot run).
    Submitted(Option<ActionKind>),
}

fn submit_action(c: &ConfirmState) -> (r: Option<ActionKind>)
    ensures
        submits(r, *c),
{
    match c.action {
        ActionType::Stop => Some(ActionKind::Stop { loop_id: c.loop_id.clone() }),
        ActionType::Kill => Some(ActionKind::Kill { loop_id: c.loop_id.clone() }),
        ActionType::Delete => Some(
            ActionKind::Delete { loop_id: c.loop_id.clone(), force: c.force_delete },
        ),
        _ => None,
    }
}

fn other_selection(s: ConfirmRailSelection) -> (r: ConfirmRailSelection)
    ensures
        r == moved_selection(s, 1),
        r == moved_selection(s, -1),
{
    match s {
        ConfirmRailSelection::Cancel => ConfirmRailSelection::Confirm,
        ConfirmRailSelection::Confirm => ConfirmRailSelection::Cancel,
    }
}

/// Handles a key in the confirmation of a destructive action. `q` and
/// Escape cancel; `n` cancels and `y` confirms when no reason is needed;
/// Tab, Left and Right move along the rail; typing edits the reason when
/// one is needed; Enter runs the action when the rail is on Confirm and the
/// reason is long enough, and cancels when it is on Cancel.
pub fn confirm_key(confirm: &mut ConfirmState, key: KeyPress) -> (r: ConfirmOutcome)
    ensures
        r is Submitted && old(confirm).reason_required ==> trim(old(confirm).reason@).len()
            >= DESTRUCTIVE_CONFIRM_REASON_MIN_CHARS,
        match confirm_key_action(*old(confirm), key) {
            ConfirmKeyAction::Cancel => r == ConfirmOutcome::Cancelled && *final(confirm)
                == *old(confirm),
            ConfirmKeyAction::Help => r == ConfirmOutcome::Help && *final(confirm) == *old(confirm),
            ConfirmKeyAction::Select(step) => r == ConfirmOutcome::Open && same_dialog(
                *final(confirm),
                *old(confirm),
            ) && final(confirm).reason@ == old(confirm).reason@ && final(confirm).selected
                == moved_selection(old(confirm).selected, step),
            ConfirmKeyAction::DropChar => r == ConfirmOutcome::Open && same_dialog(
                *final(confirm),
                *old(confirm),
            ) && final(confirm).selected == old(confirm).selected && final(confirm).reason@ == (
            if old(confirm).reason@.len() == 0 {
                old(confirm).reason@
            } else {
                old(confirm).reason@.drop_last()
            }),
            ConfirmKeyAction::ClearReason => r == ConfirmOutcome::Open && same_dialog(
                *final(confirm),
                *old(confirm),
            ) && final(confirm).selected == old(confirm).selected && final(confirm).reason@.len()
                == 0,
            ConfirmKeyAction::TypeChar(ch) => r == ConfirmOutcome::Open && same_dialog(
                *final(confirm),
                *old(confirm),
            ) && final(confirm).selected == old(confirm).selected && final(confirm).reason@ == (
            if old(confirm).reason@.len() < MAX_DESTRUCTIVE_CONFIRM_REASON_CHARS {
                old(confirm).reason@.push(ch)
            } else {
                old(confirm).reason@
            }),
            ConfirmKeyAction::Enter => *final(confirm) == *old(confirm) && if old(confirm).selected
                != ConfirmRailSelection::Confirm {
                r == ConfirmOutcome::Cancelled
            } else if !reason_ok(*old(confirm)) {
                r == ConfirmOutcome::ReasonTooShort
            } else {
                (r matches ConfirmOutcome::Submitted(a) && submits(a, *old(confirm)))
            },
            ConfirmKeyAction::Accept => *final(confirm) == *old(confirm) && (r matches ConfirmOutcome::Submitted(
                a,
            ) && submits(a, *old(confirm))),
            ConfirmKeyAction::Ignore => r == ConfirmOutcome::Open && *final(confirm) == *old(confirm),
        },
{
    let rr = confirm.reason_required;
    match key.key {
        Key::Char(ch) => {
            if ch == 'q' || ((ch == 'n' || ch == 'N') && !rr) {
                ConfirmOutcome::Cancelled
            } else if ch == '?' {
                ConfirmOutcome::Help
            } else if ch == 'u' && rr && key.ctrl {
                confirm.reason = String::new();
                ConfirmOutcome::Open
            } else if rr && !key.ctrl && !key.alt {
                if char_count(confirm.reason.as_str()) < MAX_DESTRUCTIVE_CONFIRM_REASON_CHARS {
                    push_char(&mut confirm.reason, ch);
                }
                ConfirmOutcome::Open
            } else if (ch == 'y' || ch == 'Y') && !rr {
                ConfirmOutcome::Submitted(submit_action(confirm))
            } else {
                ConfirmOutcome::Open
            }
        },
        Key::Escape => ConfirmOutcome::Cancelled,
        Key::Tab | Key::Right | Key::Left => {
            confirm.selected = other_selection(confirm.selected);
            ConfirmOutcome::Open
        },
        Key::Backspace => {
            if rr {
                let n = char_count(confirm.reason.as_str());
                if n > 0 {
                    confirm.reason = take_chars(confirm.reason.as_str(), n - 1);
                }
            }
            ConfirmOutcome::Open
        },
        Key::Enter => {
            if !matches!(confirm.selected, ConfirmRailSelection::Confirm) {
                ConfirmOutcome::Cancelled
            } else if rr && char_count(trim_str(confirm.reason.as_str()).as_str())
                < DESTRUCTIVE_CONFIRM_REASON_MIN_CHARS {
                ConfirmOutcome::ReasonTooShort
            } else {
                ConfirmOutcome::Submitted(submit_action(confirm))
            }
        },
        _ => ConfirmOutcome::Open,
    }
}

/// The status a confirmation outcome shows: a cancellation, or a reason
/// that is too short; nothing otherwise.
pub open spec fn outcome_status_spec(o: ConfirmOutcome) -> Option<(StatusKind, Seq<char>)> {
    match o {
        ConfirmOutcome::Cancelled => Some((StatusKind::Info, "Action cancelled"@)),
        ConfirmOutcome::ReasonTooShort => Some(
            (StatusKind::Error, "Reason required for high-risk action (min 12 chars)"@),
        ),
        _ => None,
    }
}

/// What the shell does after a key in the confirmation dialog: a dialog
/// that stays open (or asks for a longer reason) changes nothing; a cancel
/// closes it and returns to the main view; help opens over it and returns
/// to it; a submit closes it, returns to the main view and runs the action.
/// With no dialog open the shell is back in the main view. The command is
/// the action to run, or nothing.
pub fn apply_confirm_outcome(
    o: ConfirmOutcome,
    confirm: &mut Option<ConfirmState>,
    mode: &mut UiMode,
    help_return: &mut UiMode,
) -> (r: Command)
    ensures
        (*old(confirm)) is None ==> (*final(mode) == UiMode::Main && (*final(confirm)) is None
            && *final(help_return) == *old(help_return) && r is Noop),
        (*old(confirm)) is Some ==> match o {
            ConfirmOutcome::Cancelled => *final(mode) == UiMode::Main && (*final(confirm)) is None
                && *final(help_return) == *old(help_return) && r is Noop,
            ConfirmOutcome::Help => *final(mode) == UiMode::Help && *final(help_return)
                == UiMode::Confirm && *final(confirm) == *old(confirm) && r is Noop,
            ConfirmOutcome::Submitted(a) => *final(mode) == UiMode::Main && (*final(confirm)) is None
                && *final(help_return) == *old(help_return) && match a {
                Some(k) => r == Command::RunAction(k),
                None => r is Noop,
            },
            _ => *final(mode) == *old(mode) && *final(confirm) == *old(confirm) && *final(help_return)
                == *old(help_return) && r is Noop,
        },
{
    if confirm.is_none() {
        *mode = UiMode::Main;
        return Command::Noop;
    }
    match o {
        ConfirmOutcome::Cancelled => {
            *mode = UiMode::Main;
            *confirm = None;
            Command::Noop
        },
        ConfirmOutcome::Help => {
            *help_return = UiMode::Confirm;
            *mode = UiMode::Help;
            Command::Noop
        },
        ConfirmOutcome::Submitted(a) => {
            *mode = UiMode::Main;
            *confirm = None;
            match a {
                Some(k) => Command::RunAction(k),
                None => Command::Noop,
            }
        },
        _ => Command::Noop,
    }
}

/// The rows of the confirmation dialog: the prompt cut to `width`, the
/// action rail with the selected choice in brackets, the reason with its
/// length against the minimum (or the keys, for an action that needs no
/// reason), and the keys for typing a reason (empty without one).
pub open spec fn confirm_rows_spec(c: ConfirmState, width: int) -> Seq<Seq<char>> {
    let cancel = if c.selected == ConfirmRailSelection::Cancel { "[Cancel]"@ } else { " Cancel "@ };
    let confirm = if c.selected == ConfirmRailSelection::Confirm { "[Confirm]"@ } else { " Confirm "@ };
    seq![
        take_upto(c.prompt@, width),
        "Action rail: "@ + cancel + "  "@ + confirm,
        if c.reason_required {
            take_upto(
                "Reason ("@ + dec(trim(c.reason@).len()) + "/12+): "@ + (if c.reason@.len() == 0 {
                    "<type reason>"@
                } else {
                    c.reason@
                }),
                width,
            )
        } else {
            "tab/left/right switch  enter select  y confirm  n cancel"@
        },
        if c.reason_required {
            "type reason  backspace edit  Ctrl+U clear  tab/left/right switch  enter select  esc/q cancel"@
        } else {
            Seq::empty()
        },
    ]
}

pub fn confirm_rows(c: &ConfirmState, width: usize) -> (r: Vec<String>)
    ensures
        r@.len() == 4,
        forall|i: int| 0 <= i < 4 ==> (#[trigger] r@[i])@ == confirm_rows_spec(*c, width as int)[i],
{
    let mut rail = concat("Action rail: ", if c.selected == ConfirmRailSelection::Cancel { "[Cancel]" } else { " Cancel " });
    push_str(&mut rail, "  ");
    push_str(&mut rail, if c.selected == ConfirmRailSelection::Confirm { "[Confirm]" } else { " Confirm " });
    let reason = if c.reason_required {
        let mut t = concat("Reason (", u64_to_string(char_count(trim_str(c.reason.as_str()).as_str()) as u64).as_str());
        push_str(&mut t, "/12+): ");
        if c.reason.as_str().is_empty() {
            push_str(&mut t, "<type reason>");
        } else {
            push_str(&mut t, c.reason.as_str());
        }
        take_chars(t.as_str(), width)
    } else {
        copy_string("tab/left/right switch  enter select  y confirm  n cancel")
    };
    let keys = if c.reason_required {
        copy_string("type reason  backspace edit  Ctrl+U clear  tab/left/right switch  enter select  esc/q cancel")
    } else {
        String::new()
    };
    let mut r: Vec<String> = Vec::new();
    r.push(take_chars(c.prompt.as_str(), width));
    r.push(rail);
    r.push(reason);
    r.push(keys);
    r
}

/// The filter bar: the text filter and the status filter, cut to `width`.
pub fn filter_line(text: &str, state: &str, width: usize) -> (r: String)
    ensures
        r@ == take_upto("Filter: "@ + text@ + " [status: "@ + state@ + "]"@, width as int),
{
    let mut t = concat("Filter: ", text);
    push_str(&mut t, " [status: ");
    push_str(&mut t, state);
    push_str(&mut t, "]");
    take_chars(t.as_str(), width)
}

pub fn outcome_status(o: &ConfirmOutcome) -> (r: Option<(StatusKind, String)>)
    ensures
        match r {
            Some((k, m)) => outcome_status_spec(*o) == Some((k, m@)),
            None => outcome_status_spec(*o) is None,
        },
{
    match o {
        ConfirmOutcome::Cancelled => Some((StatusKind::Info, copy_string("Action cancelled"))),
        ConfirmOutcome::ReasonTooShort => Some(
            (
                StatusKind::Error,
                copy_string("Reason required for high-risk action (min 12 chars)"),
            ),
        ),
        _ => None,
    }
}


// ---------------------------------------------------------------------------
// Keys in the wizard
// ---------------------------------------------------------------------------

/// What a key does in the wizard, in the order the wizard tries.
pub enum WizardKeyAction {
    Close,
    Help,
    Prev,
    Next,
    Enter,
    Back,
    DropChar,
    TypeChar(char),
    Ignore,
}

pub open spec fn wizard_key_action(k: KeyPress) -> WizardKeyAction {
    match k.key {
        Key::Char(ch) => if ch == 'q' {
            WizardKeyAction::Close
        } else if ch == '?' {
            WizardKeyAction::Help
        } else if ch == 'j' {
            WizardKeyAction::Next
        } else if ch == 'k' {
            WizardKeyAction::Prev
        } else if ch == 'b' {
            WizardKeyAction::Back
        } else if ch == 'h' && k.ctrl {
            WizardKeyAction::DropChar
        } else {
            WizardKeyAction::TypeChar(ch)
        },
        Key::Escape => WizardKeyAction::Close,
        Key::Tab => if k.shift {
            WizardKeyAction::Prev
        } else {
            WizardKeyAction::Next
        },
        Key::Down => WizardKeyAction::Next,
        Key::Up => WizardKeyAction::Prev,
        Key::Enter => WizardKeyAction::Enter,
        Key::Left => WizardKeyAction::Back,
        Key::Backspace => WizardKeyAction::DropChar,
        _ => WizardKeyAction::Ignore,
    }
}

/// The field after `field` in its step, wrapping around.
pub open spec fn next_field_spec(step: usize, field: usize) -> usize {
    let n = field_count_spec(step);
    if n == 0 {
        field
    } else {
        ((field + 1) % (n as int)) as usize
    }
}

/// The field before `field` in its step, wrapping around.
pub open spec fn prev_field_spec(step: usize, field: usize) -> usize {
    let n = field_count_spec(step);
    if n == 0 {
        field
    } else if field == 0 {
        (n - 1) as usize
    } else {
        (field - 1) as usize
    }
}

/// The wizard but for its field.
pub open spec fn same_but_field(a: WizardState, b: WizardState) -> bool {
    a.step == b.step && a.error@ == b.error@ && same_except(a.values, b.values, Seq::empty())
}

/// What became of the wizard after a key.
#[derive(Debug, PartialEq, Eq)]
pub enum WizardOutcome {
    /// The wizard stays open.
    Open,
    /// The wizard closed.
    Closed,
    /// Help opened over the wizard.
    Help,
    /// The review was accepted: the loops are to be created.
    Create,
}

/// The wizard after an edit of its focused field by `edit`; unchanged on
/// the review step or without a field under focus.
pub open spec fn edited(
    a: WizardState,
    b: WizardState,
    edit: spec_fn(Seq<char>) -> Seq<char>,
) -> bool {
    &&& b.step == a.step
    &&& b.field == a.field
    &&& b.error@ == a.error@
    &&& match field_key_spec(a.step, a.field) {
        Some(k) => if a.step <= 3 {
            same_except(a.values, b.values, k) && wizard_get_spec(b.values, k) == edit(
                wizard_get_spec(a.values, k),
            )
        } else {
            same_except(a.values, b.values, Seq::empty())
        },
        None => same_except(a.values, b.values, Seq::empty()),
    }
}

pub open spec fn drop_last_char(s: Seq<char>) -> Seq<char> {
    if s.len() == 0 {
        s
    } else {
        s.drop_last()
    }
}

pub fn wizard_next_field(wizard: &mut WizardState)
    requires
        field_count_spec(old(wizard).step) != 0 ==> old(wizard).field < usize::MAX,
    ensures
        final(wizard).field == next_field_spec(old(wizard).step, old(wizard).field),
        final(wizard).step == old(wizard).step,
        final(wizard).error == old(wizard).error,
        final(wizard).values == old(wizard).values,
{
    let n = wizard_field_count(wizard.step);
    if n == 0 {
        return;
    }
    wizard.field = (wizard.field + 1) % n;
}

pub fn wizard_prev_field(wizard: &mut WizardState)
    ensures
        final(wizard).field == prev_field_spec(old(wizard).step, old(wizard).field),
        final(wizard).step == old(wizard).step,
        final(wizard).error == old(wizard).error,
        final(wizard).values == old(wizard).values,
{
    let n = wizard_field_count(wizard.step);
    if n == 0 {
        return;
    }
    if wizard.field == 0 {
        wizard.field = n - 1;
    } else {
        wizard.field = wizard.field - 1;
    }
}

fn edit_focused(wizard: &mut WizardState, ch: Option<char>)
    ensures
        edited(
            *old(wizard),
            *final(wizard),
            |s: Seq<char>|
                match ch {
                    Some(c) => s.push(c),
                    None => drop_last_char(s),
                },
        ),
{
    if wizard.step > 3 {
        return;
    }
    let key = match wizard_field_key(wizard.step, wizard.field) {
        Some(k) => k,
        None => {
            return;
        },
    };
    let mut value = copy_string(wizard_get(&wizard.values, key));
    match ch {
        Some(c) => push_char(&mut value, c),
        None => {
            let n = char_count(value.as_str());
            if n > 0 {
                value = take_chars(value.as_str(), n - 1);
            }
        },
    }
    let ghost v = value@;
    wizard_set(&mut wizard.values, key, value);
    proof {
        assert(crate::wizard::is_field_key(key@));
    }
}

/// Handles a key in the wizard. `q` and Escape close it; Tab, the arrows,
/// `j` and `k` move between the fields of the step; Enter checks the step
/// and moves on, or asks for the loops to be created on the review step;
/// `b` and Left go back a step; other characters, Backspace and Ctrl-H edit
/// the focused field.
pub fn wizard_key(wizard: &mut WizardState, key: KeyPress) -> (r: WizardOutcome)
    requires
        wizard_key_action(key) is Next && field_count_spec(old(wizard).step) != 0 ==> old(
            wizard,
        ).field < usize::MAX,
    ensures
        match wizard_key_action(key) {
            WizardKeyAction::Close => r == WizardOutcome::Closed && final(wizard).error@.len() == 0
                && final(wizard).step == old(wizard).step && final(wizard).field == old(wizard).field && same_except(old(wizard).values, final(wizard).values, Seq::empty()),
            WizardKeyAction::Help => r == WizardOutcome::Help && *final(wizard) == *old(wizard),
            WizardKeyAction::Next => r == WizardOutcome::Open && same_but_field(
                *old(wizard),
                *final(wizard),
            ) && final(wizard).field == next_field_spec(old(wizard).step, old(wizard).field),
            WizardKeyAction::Prev => r == WizardOutcome::Open && same_but_field(
                *old(wizard),
                *final(wizard),
            ) && final(wizard).field == prev_field_spec(old(wizard).step, old(wizard).field),
            WizardKeyAction::Enter => if old(wizard).step < 4 {
                r == WizardOutcome::Open && same_except(
                    old(wizard).values,
                    final(wizard).values,
                    Seq::empty(),
                ) && match step_check(old(wizard).step, old(wizard).values) {
                    Err(e) => final(wizard).error@ == e && final(wizard).step == old(wizard).step
                        && final(wizard).field == old(wizard).field,
                    Ok(()) => final(wizard).error@.len() == 0 && final(wizard).step == old(wizard).step + 1 && final(wizard).field == 0,
                }
            } else {
                r == WizardOutcome::Create && *final(wizard) == *old(wizard)
            },
            WizardKeyAction::Back => r == WizardOutcome::Open && if old(wizard).step > 1 {
                final(wizard).step == old(wizard).step - 1 && final(wizard).field == 0 && final(wizard).error@.len() == 0 && same_except(
                    old(wizard).values,
                    final(wizard).values,
                    Seq::empty(),
                )
            } else {
                *final(wizard) == *old(wizard)
            },
            WizardKeyAction::DropChar => r == WizardOutcome::Open && edited(
                *old(wizard),
                *final(wizard),
                |s: Seq<char>| drop_last_char(s),
            ),
            WizardKeyAction::TypeChar(c) => r == WizardOutcome::Open && edited(
                *old(wizard),
                *final(wizard),
                |s: Seq<char>| s.push(c),
            ),
            WizardKeyAction::Ignore => r == WizardOutcome::Open && *final(wizard) == *old(wizard),
        },
{
    match key.key {
        Key::Char(ch) => {
            if ch == 'q' {
                wizard.error = String::new();
                WizardOutcome::Closed
            } else if ch == '?' {
                WizardOutcome::Help
            } else if ch == 'j' {
                wizard_next_field(wizard);
                WizardOutcome::Open
            } else if ch == 'k' {
                wizard_prev_field(wizard);
                WizardOutcome::Open
            } else if ch == 'b' {
                wizard_back(wizard);
                WizardOutcome::Open
            } else if ch == 'h' && key.ctrl {
                edit_focused(wizard, None);
                WizardOutcome::Open
            } else {
                edit_focused(wizard, Some(ch));
                WizardOutcome::Open
            }
        },
        Key::Escape => {
            wizard.error = String::new();
            WizardOutcome::Closed
        },
        Key::Tab => {
            if key.shift {
                wizard_prev_field(wizard);
            } else {
                wizard_next_field(wizard);
            }
            WizardOutcome::Open
        },
        Key::Down => {
            wizard_next_field(wizard);
            WizardOutcome::Open
        },
        Key::Up => {
            wizard_prev_field(wizard);
            WizardOutcome::Open
        },
        Key::Enter => {
            if wizard.step < 4 {
                match validate_wizard_step(wizard.step, &wizard.values) {
                    Err(err) => {
                        wizard.error = err;
                    },
                    Ok(()) => {
                        wizard.step = wizard.step + 1;
                        wizard.field = 0;
                        wizard.error = String::new();
                    },
                }
                WizardOutcome::Open
            } else {
                WizardOutcome::Create
            }
        },
        Key::Left => {
            wizard_back(wizard);
            WizardOutcome::Open
        },
        Key::Backspace => {
            edit_focused(wizard, None);
            WizardOutcome::Open
        },
        _ => WizardOutcome::Open,
    }
}

fn wizard_back(wizard: &mut WizardState)
    ensures
        if old(wizard).step > 1 {
            final(wizard).step == old(wizard).step - 1 && final(wizard).field == 0 && final(wizard).error@.len() == 0 && final(wizard).values == old(wizard).values
        } else {
            *final(wizard) == *old(wizard)
        },
{
    if wizard.step > 1 {
        wizard.step = wizard.step - 1;
        wizard.field = 0;
        wizard.error = String::new();
    }
}


// ---------------------------------------------------------------------------
// Starting actions and taking their results
// ---------------------------------------------------------------------------

/// The keys of the wizard's fields, in order.
pub open spec fn wizard_keys() -> Seq<Seq<char>> {
    seq![
        "name"@,
        "name_prefix"@,
        "count"@,
        "pool"@,
        "profile"@,
        "prompt"@,
        "prompt_msg"@,
        "interval"@,
        "max_runtime"@,
        "max_iterations"@,
        "tags"@,
    ]
}

/// The wizard's values as (key, value) pairs, in field order.
pub fn wizard_pairs(values: &WizardValues) -> (r: Vec<(String, String)>)
    ensures
        r.len() == wizard_keys().len(),
        forall|i: int| 0 <= i < r.len() ==> (#[trigger] r@[i]).0@ == wizard_keys()[i] && r@[i].1@
            == wizard_get_spec(*values, wizard_keys()[i]),
{
    let mut r: Vec<(String, String)> = Vec::new();
    r.push((copy_string("name"), copy_string(values.name.as_str())));
    r.push((copy_string("name_prefix"), copy_string(values.name_prefix.as_str())));
    r.push((copy_string("count"), copy_string(values.count.as_str())));
    r.push((copy_string("pool"), copy_string(values.pool.as_str())));
    r.push((copy_string("profile"), copy_string(values.profile.as_str())));
    r.push((copy_string("prompt"), copy_string(values.prompt.as_str())));
    r.push((copy_string("prompt_msg"), copy_string(values.prompt_msg.as_str())));
    r.push((copy_string("interval"), copy_string(values.interval.as_str())));
    r.push((copy_string("max_runtime"), copy_string(values.max_runtime.as_str())));
    r.push((copy_string("max_iterations"), copy_string(values.max_iterations.as_str())));
    r.push((copy_string("tags"), copy_string(values.tags.as_str())));
    proof {
        reveal_strlit("name");
        reveal_strlit("name_prefix");
        reveal_strlit("count");
        reveal_strlit("pool");
        reveal_strlit("profile");
        reveal_strlit("prompt");
        reveal_strlit("prompt_msg");
        reveal_strlit("interval");
        reveal_strlit("max_runtime");
        reveal_strlit("max_iterations");
        reveal_strlit("tags");
        assert forall|i: int| 0 <= i < r.len() implies (#[trigger] r@[i]).0@ == wizard_keys()[i] && r@[i].1@
            == wizard_get_spec(*values, wizard_keys()[i]) by {
            if i == 0 {
                assert(wizard_keys()[0] == "name"@);
                assert(wizard_get_spec(*values, "name"@) == values.name@);
            } else if i == 1 {
                assert(wizard_keys()[1] == "name_prefix"@);
                assert(wizard_get_spec(*values, "name_prefix"@) == values.name_prefix@);
            } else if i == 2 {
                assert(wizard_keys()[2] == "count"@);
                assert(wizard_get_spec(*values, "count"@) == values.count@);
            } else if i == 3 {
                assert(wizard_keys()[3] == "pool"@);
                assert("pool"@[0] != "name"@[0]);
                assert(wizard_get_spec(*values, "pool"@) == values.pool@);
            } else if i == 4 {
                assert(wizard_keys()[4] == "profile"@);
                assert(wizard_get_spec(*values, "profile"@) == values.profile@);
            } else if i == 5 {
                assert(wizard_keys()[5] == "prompt"@);
                assert(wizard_get_spec(*values, "prompt"@) == values.prompt@);
            } else if i == 6 {
                assert(wizard_keys()[6] == "prompt_msg"@);
                assert(wizard_get_spec(*values, "prompt_msg"@) == values.prompt_msg@);
            } else if i == 7 {
                assert(wizard_keys()[7] == "interval"@);
                assert(wizard_get_spec(*values, "interval"@) == values.interval@);
            } else if i == 8 {
                assert(wizard_keys()[8] == "max_runtime"@);
                assert("max_runtime"@[0] != "name_prefix"@[0]);
                assert(wizard_get_spec(*values, "max_runtime"@) == values.max_runtime@);
            } else if i == 9 {
                assert(wizard_keys()[9] == "max_iterations"@);
                assert(wizard_get_spec(*values, "max_iterations"@) == values.max_iterations@);
            } else if i == 10 {
                assert(wizard_keys()[10] == "tags"@);
                assert("tags"@[0] != "name"@[0] && "tags"@[0] != "pool"@[0]);
                assert(wizard_get_spec(*values, "tags"@) == values.tags@);
            }
        }
    }
    r
}

/// The status shown while an action runs.
pub open spec fn start_message_spec(a: ActionType) -> Seq<char> {
    match a {
        ActionType::Create => "Creating loop(s)..."@,
        ActionType::Resume => "Resuming loop..."@,
        ActionType::Stop => "Requesting graceful stop..."@,
        ActionType::Kill => "Killing loop..."@,
        ActionType::Delete => "Deleting loop record..."@,
        _ => "Running action..."@,
    }
}

/// The request an action makes: the wizard's values for a create, the loop
/// for the others (a delete without force); nothing for no action.
pub open spec fn requests(r: Option<ActionKind>, a: ActionType, loop_id: Seq<char>, values: WizardValues) -> bool {
    match a {
        ActionType::Create => r matches Some(ActionKind::Create { wizard }) && wizard@.len()
            == wizard_keys().len() && forall|i: int|
            0 <= i < wizard@.len() ==> (#[trigger] wizard@[i]).0@ == wizard_keys()[i] && wizard@[i].1@
                == wizard_get_spec(values, wizard_keys()[i]),
        ActionType::Resume => r matches Some(ActionKind::Resume { loop_id: id }) && id@ == loop_id,
        ActionType::Stop => r matches Some(ActionKind::Stop { loop_id: id }) && id@ == loop_id,
        ActionType::Kill => r matches Some(ActionKind::Kill { loop_id: id }) && id@ == loop_id,
        ActionType::Delete => r matches Some(ActionKind::Delete { loop_id: id, force }) && id@
            == loop_id && !force,
        ActionType::NoAction => r is None,
    }
}

/// Starts an action: refused while another one runs; else the status to
/// show while it runs and the request to make.
pub fn start_action(busy: bool, action: ActionType, loop_id: &str, values: &WizardValues) -> (r: Result<
    (String, Option<ActionKind>),
    String,
>)
    ensures
        busy ==> (r matches Err(m) && m@ == "Another action is still running"@),
        !busy ==> (r matches Ok((m, req)) && m@ == start_message_spec(action) && requests(
            req,
            action,
            loop_id@,
            *values,
        )),
{
    if busy {
        return Err(copy_string("Another action is still running"));
    }
    let msg = match action {
        ActionType::Create => "Creating loop(s)...",
        ActionType::Resume => "Resuming loop...",
        ActionType::Stop => "Requesting graceful stop...",
        ActionType::Kill => "Killing loop...",
        ActionType::Delete => "Deleting loop record...",
        _ => "Running action...",
    };
    let req = match action {
        ActionType::Create => Some(ActionKind::Create { wizard: wizard_pairs(values) }),
        ActionType::Resume => Some(ActionKind::Resume { loop_id: copy_string(loop_id) }),
        ActionType::Stop => Some(ActionKind::Stop { loop_id: copy_string(loop_id) }),
        ActionType::Kill => Some(ActionKind::Kill { loop_id: copy_string(loop_id) }),
        ActionType::Delete => Some(ActionKind::Delete { loop_id: copy_string(loop_id), force: false }),
        ActionType::NoAction => None,
    };
    Ok((copy_string(msg), req))
}

/// What the shell does with the result of an action.
#[derive(Debug, PartialEq, Eq)]
pub struct ResultEffect {
    /// The status to show, if any.
    pub status: Option<(StatusKind, String)>,
    /// A failed create goes back to the wizard with this error.
    pub wizard_error: Option<String>,
    /// A successful create leaves the wizard and resets it: no error, back
    /// to the first field of the first step.
    pub leave_wizard: bool,
    /// The loop to select after a successful create.
    pub select: Option<String>,
    /// Whether the loop data is read again.
    pub fetch: bool,
}

/// The effect of an action's result: an error is shown (and a failed create
/// reopens the wizard with it); a success shows its message, if any, and
/// reloads the data; a successful create leaves the wizard and selects the
/// new loop when there is one.
pub fn action_result_effect(result: &ActionResult) -> (r: ResultEffect)
    ensures
        match result.error {
            Some(e) => (r.status matches Some((k, m)) && k == StatusKind::Error && m@ == e@) && (
            if result.kind == ActionType::Create {
                r.wizard_error matches Some(w) && w@ == e@
            } else {
                r.wizard_error is None
            }) && !r.leave_wizard && r.select is None && !r.fetch,
            None => r.wizard_error is None && r.fetch && r.leave_wizard == (result.kind
                == ActionType::Create) && (if result.kind == ActionType::Create
                && result.selected_loop_id@.len() > 0 {
                r.select matches Some(id) && id@ == result.selected_loop_id@
            } else {
                r.select is None
            }) && (if result.message@.len() > 0 {
                r.status matches Some((k, m)) && k == StatusKind::Success && m@ == result.message@
            } else {
                r.status is None
            }),
        },
{
    let is_create = matches!(result.kind, ActionType::Create);
    match &result.error {
        Some(err) => ResultEffect {
            status: Some((StatusKind::Error, err.clone())),
            wizard_error: if is_create {
                Some(err.clone())
            } else {
                None
            },
            leave_wizard: false,
            select: None,
            fetch: false,
        },
        None => ResultEffect {
            status: if result.message.as_str().is_empty() {
                None
            } else {
                Some((StatusKind::Success, result.message.clone()))
            },
            wizard_error: None,
            leave_wizard: is_create,
            select: if is_create && !result.selected_loop_id.as_str().is_empty() {
                Some(result.selected_loop_id.clone())
            } else {
                None
            },
            fetch: true,
        },
    }
}


/// Applies an action's effect to the wizard and the mode: a failed create
/// reopens the wizard with the error, its step, field and values kept; a
/// successful create returns to the main view with the wizard reset (no
/// error, first field of the first step, the values kept); any other
/// result leaves both. No action runs any more afterwards.
pub fn apply_result_effect(effect: &ResultEffect, wizard: &mut WizardState, mode: &mut UiMode, busy: &mut bool)
    ensures
        !*final(busy),
        match effect.wizard_error {
            Some(e) => *final(mode) == UiMode::Wizard && final(wizard).error@ == e@
                && final(wizard).step == old(wizard).step && final(wizard).field == old(wizard).field
                && final(wizard).values == old(wizard).values,
            None => if effect.leave_wizard {
                *final(mode) == UiMode::Main && final(wizard).error@.len() == 0
                    && final(wizard).step == 1 && final(wizard).field == 0
                    && final(wizard).values == old(wizard).values
            } else {
                *final(mode) == *old(mode) && *final(wizard) == *old(wizard)
            },
        },
{
    *busy = false;
    match &effect.wizard_error {
        Some(e) => {
            *mode = UiMode::Wizard;
            wizard.error = copy_string(e.as_str());
        },
        None => {
            if effect.leave_wizard {
                *mode = UiMode::Main;
                wizard.error = String::new();
                wizard.step = 1;
                wizard.field = 0;
            }
        },
    }
}

// ---------------------------------------------------------------------------
// Keys in the filter bar and in help
// ---------------------------------------------------------------------------

/// What became of the filter bar after a key.
#[derive(Debug, PartialEq, Eq)]
pub enum FilterOutcome {
    /// The bar stays open, nothing to do.
    Open,
    /// The bar closed.
    Closed,
    /// Help opened over the bar.
    Help,
    /// The filters changed: the loop list is to be filtered again, and the
    /// data fetched when the text changed.
    Refilter { fetch: bool },
}

/// What a key does in the filter bar.
pub enum FilterKeyAction {
    Close,
    Help,
    SwitchFocus,
    StatusStep(i32),
    DropChar,
    TypeChar(char),
    Ignore,
}

pub open spec fn filter_key_action(focus: FilterFocus, k: KeyPress) -> FilterKeyAction {
    match k.key {
        Key::Char(ch) => if ch == 'q' {
            FilterKeyAction::Close
        } else if ch == '?' {
            FilterKeyAction::Help
        } else if focus == FilterFocus::Status {
            if ch == 'k' {
                FilterKeyAction::StatusStep(-1i32)
            } else if ch == 'j' {
                FilterKeyAction::StatusStep(1i32)
            } else {
                FilterKeyAction::Ignore
            }
        } else {
            FilterKeyAction::TypeChar(ch)
        },
        Key::Escape => FilterKeyAction::Close,
        Key::Tab => FilterKeyAction::SwitchFocus,
        Key::Left | Key::Up => if focus == FilterFocus::Status {
            FilterKeyAction::StatusStep(-1i32)
        } else {
            FilterKeyAction::Ignore
        },
        Key::Right | Key::Down | Key::Enter => if focus == FilterFocus::Status {
            FilterKeyAction::StatusStep(1i32)
        } else {
            FilterKeyAction::Ignore
        },
        Key::Backspace => if focus == FilterFocus::Text {
            FilterKeyAction::DropChar
        } else {
            FilterKeyAction::Ignore
        },
        _ => FilterKeyAction::Ignore,
    }
}

/// Handles a key in the filter bar: `q` and Escape close it (focus back on
/// the text), Tab switches between the text and the status, the arrows,
/// `j`, `k` and Enter step through the statuses when the status has focus,
/// and typing edits the text when the text has focus.
pub fn filter_key(focus: &mut FilterFocus, text: &mut String, status: &mut String, key: KeyPress) -> (r:
    FilterOutcome)
    ensures
        match filter_key_action(*old(focus), key) {
            FilterKeyAction::Close => r == FilterOutcome::Closed && *final(focus) == FilterFocus::Text
                && final(text)@ == old(text)@ && final(status)@ == old(status)@,
            FilterKeyAction::Help => r == FilterOutcome::Help && *final(focus) == *old(focus)
                && final(text)@ == old(text)@ && final(status)@ == old(status)@,
            FilterKeyAction::SwitchFocus => r == FilterOutcome::Open && *final(focus) == (if *old(focus)
                == FilterFocus::Text {
                FilterFocus::Status
            } else {
                FilterFocus::Text
            }) && final(text)@ == old(text)@ && final(status)@ == old(status)@,
            FilterKeyAction::StatusStep(d) => r == (FilterOutcome::Refilter { fetch: false })
                && *final(focus) == *old(focus) && final(text)@ == old(text)@ && final(status)@
                == cycled_filter(old(status)@, d),
            FilterKeyAction::DropChar => *final(focus) == *old(focus) && final(status)@ == old(
                status)@ && if old(text)@.len() == 0 {
                r == FilterOutcome::Open && final(text)@ == old(text)@
            } else {
                r == (FilterOutcome::Refilter { fetch: true }) && final(text)@ == old(text)@.drop_last()
            },
            FilterKeyAction::TypeChar(c) => r == (FilterOutcome::Refilter { fetch: true })
                && *final(focus) == *old(focus) && final(text)@ == old(text)@.push(c) && final(
                status)@ == old(status)@,
            FilterKeyAction::Ignore => r == FilterOutcome::Open && *final(focus) == *old(focus)
                && final(text)@ == old(text)@ && final(status)@ == old(status)@,
        },
{
    let on_status = matches!(*focus, FilterFocus::Status);
    match key.key {
        Key::Char(ch) => {
            if ch == 'q' {
                *focus = FilterFocus::Text;
                FilterOutcome::Closed
            } else if ch == '?' {
                FilterOutcome::Help
            } else if on_status {
                if ch == 'k' {
                    *status = copy_string(cycle_filter_status(status.as_str(), -1));
                    FilterOutcome::Refilter { fetch: false }
                } else if ch == 'j' {
                    *status = copy_string(cycle_filter_status(status.as_str(), 1));
                    FilterOutcome::Refilter { fetch: false }
                } else {
                    FilterOutcome::Open
                }
            } else {
                push_char(text, ch);
                FilterOutcome::Refilter { fetch: true }
            }
        },
        Key::Escape => {
            *focus = FilterFocus::Text;
            FilterOutcome::Closed
        },
        Key::Tab => {
            *focus = if on_status {
                FilterFocus::Text
            } else {
                FilterFocus::Status
            };
            FilterOutcome::Open
        },
        Key::Left | Key::Up => {
            if on_status {
                *status = copy_string(cycle_filter_status(status.as_str(), -1));
                FilterOutcome::Refilter { fetch: false }
            } else {
                FilterOutcome::Open
            }
        },
        Key::Right | Key::Down | Key::Enter => {
            if on_status {
                *status = copy_string(cycle_filter_status(status.as_str(), 1));
                FilterOutcome::Refilter { fetch: false }
            } else {
                FilterOutcome::Open
            }
        },
        Key::Backspace => {
            if on_status {
                FilterOutcome::Open
            } else {
                let n = char_count(text.as_str());
                if n == 0 {
                    FilterOutcome::Open
                } else {
                    *text = take_chars(text.as_str(), n - 1);
                    FilterOutcome::Refilter { fetch: true }
                }
            }
        },
        _ => FilterOutcome::Open,
    }
}

/// The mode help returns to on `q`, Escape or `?`: the mode it was opened
/// from, or the main mode when that was help itself; nothing for other keys.
pub fn help_key(help_return: UiMode, key: KeyPress) -> (r: Option<UiMode>)
    ensures
        (key.key == Key::Escape || key.key == Key::Char('q') || key.key == Key::Char('?')) ==> r
            == Some(if help_return == UiMode::Help {
            UiMode::Main
        } else {
            help_return
        }),
        !(key.key == Key::Escape || key.key == Key::Char('q') || key.key == Key::Char('?')) ==> r
            is None,
{
    let closes = match key.key {
        Key::Escape => true,
        Key::Char(c) => c == 'q' || c == '?',
        _ => false,
    };
    if closes {
        Some(if matches!(help_return, UiMode::Help) {
            UiMode::Main
        } else {
            help_return
        })
    } else {
        None
    }
}

} // verus!
