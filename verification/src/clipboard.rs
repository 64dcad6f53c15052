//! What Ctrl+Y copies from the shell, and the status it leaves.
use vstd::prelude::*;

use crate::app::{InboxMessageView, MainTab, RunView, StatusKind};
use crate::text::{concat, copy_string, push_str, trim, trim_str};

verus! {

/// The content picked for the clipboard before it is trimmed: a label and a
/// value, or the status that says there is nothing to copy.
pub open spec fn clip_candidate(
    tab: MainTab,
    runs: Seq<RunView>,
    selected_run: usize,
    lines: Seq<String>,
    scroll: usize,
    latest: Option<InboxMessageView>,
) -> Result<(Seq<char>, Seq<char>), Seq<char>> {
    match tab {
        MainTab::Runs => if runs.len() == 0 {
            Err("Clipboard: no run selected"@)
        } else {
            let k = if selected_run < runs.len() - 1 {
                selected_run as int
            } else {
                runs.len() - 1
            };
            Ok(("run id"@, trim(runs[k].id@)))
        },
        MainTab::Logs => if lines.len() == 0 {
            Err("Clipboard: no log lines"@)
        } else {
            let last = lines.len() - 1;
            let back = if scroll < last {
                scroll as int
            } else {
                last
            };
            Ok(("log line"@, lines[last - back]@))
        },
        MainTab::Inbox => match latest {
            None => Err("Clipboard: inbox is empty"@),
            Some(m) => Ok(
                (
                    "thread content"@,
                    if trim(m.body@).len() == 0 {
                        trim(m.subject@)
                    } else {
                        trim(m.body@)
                    },
                ),
            ),
        },
        _ => Err("Clipboard: use Ctrl+Y in Runs, Logs, or Inbox"@),
    }
}

/// What Ctrl+Y copies: the selected run's id on the Runs tab, the log line
/// at the scroll position on the Logs tab, the latest message of the
/// selected thread (its body, else its subject) on the Inbox tab; trimmed.
/// Otherwise the status that says why nothing is copied.
pub open spec fn clip_pick_spec(
    tab: MainTab,
    runs: Seq<RunView>,
    selected_run: usize,
    lines: Seq<String>,
    scroll: usize,
    latest: Option<InboxMessageView>,
) -> Result<(Seq<char>, Seq<char>), Seq<char>> {
    match clip_candidate(tab, runs, selected_run, lines, scroll, latest) {
        Err(e) => Err(e),
        Ok((label, value)) => if trim(value).len() == 0 {
            Err("Clipboard: selected content is empty"@)
        } else {
            Ok((label, trim(value)))
        },
    }
}

pub fn clipboard_pick(
    tab: MainTab,
    runs: &Vec<RunView>,
    selected_run: usize,
    lines: &Vec<String>,
    scroll: usize,
    latest: Option<&InboxMessageView>,
) -> (r: Result<(&'static str, String), String>)
    ensures
        match r {
            Ok((label, value)) => clip_pick_spec(
                tab,
                runs@,
                selected_run,
                lines@,
                scroll,
                match latest {
                    Some(m) => Some(*m),
                    None => None,
                },
            ) == Ok::<(Seq<char>, Seq<char>), Seq<char>>((label@, value@)),
            Err(e) => clip_pick_spec(
                tab,
                runs@,
                selected_run,
                lines@,
                scroll,
                match latest {
                    Some(m) => Some(*m),
                    None => None,
                },
            ) == Err::<(Seq<char>, Seq<char>), Seq<char>>(e@),
        },
{
    let (label, value): (&'static str, String) = match tab {
        MainTab::Runs => {
            if runs.len() == 0 {
                return Err(copy_string("Clipboard: no run selected"));
            }
            let k = if selected_run < runs.len() - 1 {
                selected_run
            } else {
                runs.len() - 1
            };
            ("run id", trim_str(runs[k].id.as_str()))
        },
        MainTab::Logs => {
            if lines.len() == 0 {
                return Err(copy_string("Clipboard: no log lines"));
            }
            let last = lines.len() - 1;
            let back = if scroll < last {
                scroll
            } else {
                last
            };
            ("log line", lines[last - back].clone())
        },
        MainTab::Inbox => match latest {
            None => {
                return Err(copy_string("Clipboard: inbox is empty"));
            },
            Some(m) => {
                let body = trim_str(m.body.as_str());
                if body.as_str().is_empty() {
                    ("thread content", trim_str(m.subject.as_str()))
                } else {
                    ("thread content", body)
                }
            },
        },
        _ => {
            return Err(copy_string("Clipboard: use Ctrl+Y in Runs, Logs, or Inbox"));
        },
    };
    let trimmed = trim_str(value.as_str());
    if trimmed.as_str().is_empty() {
        return Err(copy_string("Clipboard: selected content is empty"));
    }
    Ok((label, trimmed))
}

/// The status after copying `label`: copied to the system clipboard, or
/// only kept in the shell when no clipboard program took it.
pub fn clipboard_status(label: &str, copied: bool) -> (r: (StatusKind, String))
    ensures
        copied ==> r.0 == StatusKind::Success && r.1@ == "Copied "@ + label@ + " to clipboard"@,
        !copied ==> r.0 == StatusKind::Info && r.1@ == "Clipboard unavailable; mirrored "@ + label@
            + " in app state"@,
{
    if copied {
        let mut m = concat("Copied ", label);
        push_str(&mut m, " to clipboard");
        (StatusKind::Success, m)
    } else {
        let mut m = concat("Clipboard unavailable; mirrored ", label);
        push_str(&mut m, " in app state");
        (StatusKind::Info, m)
    }
}

} // verus!
