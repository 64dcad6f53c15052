//! Regex search over the rendered lines of a loop log.
use vstd::prelude::*;

use crate::app::{LogLayer, LogSource, StatusKind};
use crate::modes::{Key, KeyPress};
use crate::text::{
    char_count, concat, copy_string, dec, push_char, push_str, starts_with, str_starts_with, take_chars, take_upto,
    trim, trim_str, u64_to_string,
};

verus! {

/// `regex::Regex`, carried as an opaque value.
#[verifier::external_type_specification]
#[verifier::external_body]
pub struct ExRegex(regex::Regex);

/// The text of the error `regex::Regex::new` gives for `pattern`, or
/// nothing when the pattern compiles.
pub uninterp spec fn regex_new_error(pattern: Seq<char>) -> Option<Seq<char>>;

/// Whether the regex compiled from `pattern` matches somewhere in
/// `haystack`, as `regex::Regex::is_match` answers.
pub uninterp spec fn regex_is_match(pattern: Seq<char>, haystack: Seq<char>) -> bool;

/// A compiled regex together with the pattern it was compiled from.
/// `compile_regex` is the only place one is made.
pub struct LogRegex {
    pattern: String,
    compiled: regex::Regex,
}

/// Compiles `pattern` with `regex::Regex::new`. Claims that whether the
/// pattern compiles, and the text of the error when it does not, depend on
/// the pattern alone; the regex made keeps the pattern beside it.
#[verifier::external_body]
fn compile_regex(pattern: &str) -> (r: Result<LogRegex, String>)
    ensures
        match r {
            Ok(re) => re.pattern@ == pattern@ && regex_new_error(pattern@) is None,
            Err(e) => regex_new_error(pattern@) == Some(e@),
        },
{
    match regex::Regex::new(pattern) {
        Ok(compiled) => Ok(LogRegex { pattern: pattern.to_owned(), compiled }),
        Err(err) => Err(err.to_string()),
    }
}

/// `regex::Regex::is_match` of the compiled regex on `line`. Claims the
/// answer depends only on the pattern the regex was compiled from and on
/// the line.
#[verifier::external_body]
fn regex_line_matches(re: &LogRegex, line: &str) -> (r: bool)
    ensures
        r == regex_is_match(re.pattern@, line@),
{
    re.compiled.is_match(line)
}

/// The indices of the lines the regex compiled from `pattern` matches, in
/// order.
pub open spec fn matching_indices(pattern: Seq<char>, lines: Seq<String>) -> Seq<usize>
    decreases lines.len(),
{
    if lines.len() == 0 {
        Seq::empty()
    } else {
        let rest = matching_indices(pattern, lines.drop_last());
        if regex_is_match(pattern, lines.last()@) {
            rest.push((lines.len() - 1) as usize)
        } else {
            rest
        }
    }
}

proof fn lemma_matching_below(p: Seq<char>, lines: Seq<String>)
    ensures
        forall|k: int| 0 <= k < matching_indices(p, lines).len() ==> (#[trigger] matching_indices(p, lines)[k]) < lines.len(),
        matching_indices(p, lines).len() <= lines.len(),
    decreases lines.len(),
{
    if lines.len() > 0 {
        lemma_matching_below(p, lines.drop_last());
    }
}

/// The regex search of the log pane: the query typed, the error it gave,
/// the match last jumped to, and the compiled regex.
pub struct LogSearch {
    query: String,
    error: String,
    selected_match: usize,
    compiled: Option<LogRegex>,
}

/// What jumping to a match did.
#[derive(Debug, PartialEq, Eq)]
pub enum SearchJump {
    /// No jump: the status to show.
    Status(StatusKind, String),
    /// Jumped: the log scroll that shows the match, and the status to show.
    Jumped { scroll: usize, status: String },
}

/// What became of the search after a key.
#[derive(Debug, PartialEq, Eq)]
pub enum SearchOutcome {
    /// The search stays open; the data is fetched again when `fetch`.
    Open { fetch: bool },
    /// The search closed; the data is fetched again when `fetch`.
    Closed { fetch: bool },
    /// Help opened over the search.
    Help,
    /// A jump to a match was asked for.
    Jump(SearchJump),
}

pub open spec fn match_status(k: int, n: int) -> Seq<char> {
    "Regex match "@ + dec(k as nat) + "/"@ + dec(n as nat)
}

/// What jumping `delta` matches does: the query stays; without a query,
/// with a query that did not compile or without a match, the selection
/// stays and a status says why; otherwise the selection moves, wrapping
/// around, and the scroll shows the match.
pub open spec fn jumped(a: LogSearch, b: LogSearch, lines: Seq<String>, delta: int, r: SearchJump) -> bool {
    let ms = a.matches_in(lines);
    &&& b.same_query(a)
    &&& if trim(a.query_spec()).len() == 0 {
        (r matches SearchJump::Status(k, m) && k == StatusKind::Info && m@ == "Regex query is empty"@)
            && b.selected_spec() == a.selected_spec()
    } else if a.error_spec().len() > 0 {
        (r matches SearchJump::Status(k, m) && k == StatusKind::Error && m@ == a.error_spec())
            && b.selected_spec() == a.selected_spec()
    } else if ms.len() == 0 {
        (r matches SearchJump::Status(k, m) && k == StatusKind::Info && m@ == "No regex matches"@)
            && b.selected_spec() == a.selected_spec()
    } else {
        let sel = (a.selected_spec() + delta) % (ms.len() as int);
        &&& b.selected_spec() == sel
        &&& r matches SearchJump::Jumped { scroll, status } && scroll == lines.len() - ms[sel] - 1
            && status@ == match_status(sel + 1, ms.len() as int)
    }
}

/// What a key does in the search.
pub enum SearchKeyAction {
    Close,
    Help,
    Accept,
    Step(i32),
    DropChar,
    Clear,
    TypeChar(char),
    Ignore,
}

pub open spec fn search_key_action(k: KeyPress) -> SearchKeyAction {
    match k.key {
        Key::Char(ch) => if ch == 'q' {
            SearchKeyAction::Close
        } else if ch == '?' {
            SearchKeyAction::Help
        } else if ch == 'j' {
            SearchKeyAction::Step(1i32)
        } else if ch == 'k' {
            SearchKeyAction::Step(-1i32)
        } else if ch == 'n' && k.ctrl {
            SearchKeyAction::Step(1i32)
        } else if ch == 'p' && k.ctrl {
            SearchKeyAction::Step(-1i32)
        } else if ch == 'u' && k.ctrl {
            SearchKeyAction::Clear
        } else if !k.ctrl && !k.alt {
            SearchKeyAction::TypeChar(ch)
        } else {
            SearchKeyAction::Ignore
        },
        Key::Escape => SearchKeyAction::Close,
        Key::Enter => SearchKeyAction::Accept,
        Key::Down => SearchKeyAction::Step(1i32),
        Key::Up => SearchKeyAction::Step(-1i32),
        Key::Backspace => SearchKeyAction::DropChar,
        _ => SearchKeyAction::Ignore,
    }
}

impl LogSearch {
    pub closed spec fn query_spec(&self) -> Seq<char> {
        self.query@
    }

    pub closed spec fn error_spec(&self) -> Seq<char> {
        self.error@
    }

    pub closed spec fn selected_spec(&self) -> usize {
        self.selected_match
    }

    /// The pattern of the compiled regex, if there is one.
    pub closed spec fn compiled_spec(&self) -> Option<Seq<char>> {
        match self.compiled {
            Some(re) => Some(re.pattern@),
            None => None,
        }
    }

    /// The search after `query` is set: the first match selected, and the
    /// query compiled unless it is blank.
    pub open spec fn after_query(&self, query: Seq<char>) -> bool {
        &&& self.query_spec() == query
        &&& self.selected_spec() == 0
        &&& if trim(query).len() == 0 {
            self.error_spec().len() == 0 && self.compiled_spec() is None
        } else {
            match regex_new_error(query) {
                None => self.error_spec().len() == 0 && self.compiled_spec() == Some(query),
                Some(e) => self.error_spec() == "invalid regex: "@ + e && self.compiled_spec() is None,
            }
        }
    }

    pub fn new() -> (r: Self)
        ensures
            r.after_query(Seq::empty()),
    {
        proof {
            crate::text::lemma_trim_len(Seq::<char>::empty());
        }
        LogSearch { query: String::new(), error: String::new(), selected_match: 0, compiled: None }
    }

    pub fn query(&self) -> (r: &str)
        ensures
            r@ == self.query_spec(),
    {
        self.query.as_str()
    }

    pub fn error(&self) -> (r: &str)
        ensures
            r@ == self.error_spec(),
    {
        self.error.as_str()
    }

    pub fn selected_match(&self) -> (r: usize)
        ensures
            r == self.selected_spec(),
    {
        self.selected_match
    }

    /// `self` and `other` hold the same query, error and compiled regex.
    pub open spec fn same_query(&self, other: LogSearch) -> bool {
        &&& self.query_spec() == other.query_spec()
        &&& self.error_spec() == other.error_spec()
        &&& self.compiled_spec() == other.compiled_spec()
    }

    /// The matches of the compiled regex among `lines`.
    pub open spec fn matches_in(&self, lines: Seq<String>) -> Seq<usize> {
        match self.compiled_spec() {
            Some(p) => matching_indices(p, lines),
            None => Seq::empty(),
        }
    }

    /// Jumps `delta` matches from the selected one, wrapping around, and
    /// gives the log scroll that shows it (the lines after it); or gives the
    /// status that says why it cannot: a blank query, a query that did not
    /// compile, or no match.
    pub fn jump(&mut self, lines: &Vec<String>, delta: i32) -> (r: SearchJump)
        requires
            old(self).selected_spec() + delta <= i32::MAX,
            old(self).selected_spec() <= i32::MAX,
            lines.len() <= i32::MAX,
        ensures
            jumped(*old(self), *final(self), lines@, delta as int, r),
    {
        if trim_str(self.query.as_str()).as_str().is_empty() {
            return SearchJump::Status(StatusKind::Info, copy_string("Regex query is empty"));
        }
        if !self.error.as_str().is_empty() {
            return SearchJump::Status(StatusKind::Error, self.error.clone());
        }
        let matches = self.match_indices(lines);
        if matches.len() == 0 {
            return SearchJump::Status(StatusKind::Info, copy_string("No regex matches"));
        }
        proof {
            if let Some(p) = self.compiled_spec() {
                lemma_matching_below(p, lines@);
            }
        }
        assert(matches.len() <= lines.len());
        let n = matches.len() as i32;
        let mut index: i32 = self.selected_match as i32 + delta;
        while index < 0
            invariant
                n > 0,
                (index as int) % (n as int) == (old(self).selected_spec() + delta) % (n as int),
            decreases (if index < 0 {
                -index
            } else {
                0
            }),
        {
            assert((index + n) % (n as int) == (index as int) % (n as int)) by (nonlinear_arith)
                requires
                    n > 0,
            ;
            index += n;
        }
        let sel = (index as usize) % matches.len();
        assert(sel as int == (old(self).selected_spec() + delta) % (n as int));
        self.selected_match = sel;
        let line_index = matches[sel];
        let scroll = lines.len() - (line_index + 1);
        let mut status = concat("Regex match ", u64_to_string((sel + 1) as u64).as_str());
        push_str(&mut status, "/");
        push_str(&mut status, u64_to_string(matches.len() as u64).as_str());
        SearchJump::Jumped { scroll, status }
    }

    /// Sets the query and compiles it; a blank query compiles to nothing.
    pub fn set_query(&mut self, query: String)
        ensures
            final(self).after_query(query@),
    {
        self.selected_match = 0;
        self.error = String::new();
        self.compiled = None;
        if trim_str(query.as_str()).as_str().is_empty() {
            self.query = query;
            return;
        }
        match compile_regex(query.as_str()) {
            Ok(re) => {
                self.compiled = Some(re);
            },
            Err(err) => {
                self.error = concat("invalid regex: ", err.as_str());
            },
        }
        self.query = query;
    }

    /// The indices of the lines the compiled regex matches, in order; none
    /// without a compiled regex.
    pub fn match_indices(&self, lines: &Vec<String>) -> (r: Vec<usize>)
        ensures
            r@ == match self.compiled_spec() {
                Some(p) => matching_indices(p, lines@),
                None => Seq::empty(),
            },
    {
        let re = match &self.compiled {
            Some(re) => re,
            None => {
                return Vec::new();
            },
        };
        let ghost p = re.pattern@;
        let mut out: Vec<usize> = Vec::new();
        let mut i: usize = 0;
        while i < lines.len()
            invariant
                i <= lines.len(),
                p == re.pattern@,
                out@ == matching_indices(p, lines@.take(i as int)),
            decreases lines.len() - i,
        {
            assert(lines@.take(i + 1).drop_last() =~= lines@.take(i as int));
            assert(lines@.take(i + 1).last() == lines@[i as int]);
            if regex_line_matches(re, lines[i].as_str()) {
                out.push(i);
            }
            i += 1;
        }
        assert(lines@.take(lines.len() as int) =~= lines@);
        out
    }
    /// Handles a key in the regex search: `q` and Escape close it, Enter
    /// closes it and fetches, `j`/`k`, the arrows and Ctrl-N/Ctrl-P jump
    /// between matches, Backspace and Ctrl-U edit the query, and other
    /// characters extend it.
    pub fn search_key(&mut self, lines: &Vec<String>, key: KeyPress) -> (r: SearchOutcome)
        requires
            old(self).selected_spec() < i32::MAX,
            lines.len() <= i32::MAX,
        ensures
            match search_key_action(key) {
                SearchKeyAction::Close => r == (SearchOutcome::Closed { fetch: false }) && final(
                    self).same_query(*old(self)) && final(self).selected_spec() == old(self).selected_spec(),
                SearchKeyAction::Help => r == SearchOutcome::Help && final(self).same_query(*old(self))
                    && final(self).selected_spec() == old(self).selected_spec(),
                SearchKeyAction::Accept => r == (SearchOutcome::Closed { fetch: true }) && final(
                    self).same_query(*old(self)) && final(self).selected_spec() == old(self).selected_spec(),
                SearchKeyAction::Step(d) => r matches SearchOutcome::Jump(j) && jumped(
                    *old(self),
                    *final(self),
                    lines@,
                    d as int,
                    j,
                ),
                SearchKeyAction::DropChar => if old(self).query_spec().len() == 0 {
                    r == (SearchOutcome::Open { fetch: false }) && final(self).same_query(*old(self))
                        && final(self).selected_spec() == old(self).selected_spec()
                } else {
                    r == (SearchOutcome::Open { fetch: true }) && final(self).after_query(
                        old(self).query_spec().drop_last(),
                    )
                },
                SearchKeyAction::Clear => r == (SearchOutcome::Open { fetch: true }) && final(
                    self).after_query(Seq::empty()),
                SearchKeyAction::TypeChar(c) => r == (SearchOutcome::Open { fetch: true }) && final(
                    self).after_query(old(self).query_spec().push(c)),
                SearchKeyAction::Ignore => r == (SearchOutcome::Open { fetch: false }) && final(
                    self).same_query(*old(self)) && final(self).selected_spec() == old(self).selected_spec(),
            },
    {
        match key.key {
            Key::Char(ch) => {
                if ch == 'q' {
                    SearchOutcome::Closed { fetch: false }
                } else if ch == '?' {
                    SearchOutcome::Help
                } else if ch == 'j' || (ch == 'n' && key.ctrl) {
                    SearchOutcome::Jump(self.jump(lines, 1))
                } else if ch == 'k' || (ch == 'p' && key.ctrl) {
                    SearchOutcome::Jump(self.jump(lines, -1))
                } else if ch == 'u' && key.ctrl {
                    self.set_query(String::new());
                    SearchOutcome::Open { fetch: true }
                } else if !key.ctrl && !key.alt {
                    let mut q = copy_string(self.query.as_str());
                    push_char(&mut q, ch);
                    self.set_query(q);
                    SearchOutcome::Open { fetch: true }
                } else {
                    SearchOutcome::Open { fetch: false }
                }
            },
            Key::Escape => SearchOutcome::Closed { fetch: false },
            Key::Enter => SearchOutcome::Closed { fetch: true },
            Key::Down => SearchOutcome::Jump(self.jump(lines, 1)),
            Key::Up => SearchOutcome::Jump(self.jump(lines, -1)),
            Key::Backspace => {
                let n = char_count(self.query.as_str());
                if n == 0 {
                    SearchOutcome::Open { fetch: false }
                } else {
                    let q = take_chars(self.query.as_str(), n - 1);
                    self.set_query(q);
                    SearchOutcome::Open { fetch: true }
                }
            },
            _ => SearchOutcome::Open { fetch: false },
        }
    }
}

// ---------------------------------------------------------------------------
// The text of the log pane
// ---------------------------------------------------------------------------

/// The place of the selected match among `n` matches, counting from 1;
/// 0 when there is none.
pub open spec fn shown_match(selected: int, n: int) -> int {
    if n == 0 {
        0
    } else if selected < n - 1 {
        selected + 1
    } else {
        n
    }
}

impl LogSearch {
    /// What the log pane's info line says of the search: nothing without a
    /// query, the error when the query did not compile, else the query and
    /// which of the `n` matches is selected.
    pub open spec fn suffix_spec(&self, n: int) -> Seq<char> {
        if trim(self.query_spec()).len() == 0 {
            Seq::empty()
        } else if self.error_spec().len() > 0 {
            "  regex:"@ + self.error_spec()
        } else {
            "  regex:/"@ + self.query_spec() + "/ "@ + dec(shown_match(self.selected_spec() as int, n) as nat)
                + "/"@ + dec(n as nat)
        }
    }

    pub fn status_suffix(&self, n: usize) -> (r: String)
        ensures
            r@ == self.suffix_spec(n as int),
    {
        if trim_str(self.query.as_str()).as_str().is_empty() {
            return String::new();
        }
        if !self.error.as_str().is_empty() {
            return concat("  regex:", self.error.as_str());
        }
        let k: usize = if n == 0 {
            0
        } else if self.selected_match < n - 1 {
            self.selected_match + 1
        } else {
            n
        };
        let mut r = concat("  regex:/", self.query.as_str());
        push_str(&mut r, "/ ");
        push_str(&mut r, u64_to_string(k as u64).as_str());
        push_str(&mut r, "/");
        push_str(&mut r, u64_to_string(n as u64).as_str());
        r
    }
}

pub open spec fn source_label(s: LogSource) -> Seq<char> {
    match s {
        LogSource::Live => "live"@,
        LogSource::LatestRun => "latest-run"@,
        LogSource::RunSelection => "selected-run"@,
    }
}

pub open spec fn layer_label(l: LogLayer) -> Seq<char> {
    match l {
        LogLayer::Raw => "raw"@,
        LogLayer::Events => "events"@,
        LogLayer::Errors => "errors"@,
        LogLayer::Tools => "tools"@,
        LogLayer::Diff => "diff"@,
    }
}

/// The first line of the log pane: source, layer, follow mode, scroll,
/// the number of rendered lines and the search suffix.
pub open spec fn info_line_spec(
    source: LogSource,
    layer: LogLayer,
    follow: bool,
    scroll: nat,
    lines: nat,
    suffix: Seq<char>,
) -> Seq<char> {
    "source:"@ + source_label(source) + "  layer:"@ + layer_label(layer) + "  follow:"@ + (if follow {
        "on"@
    } else {
        "off"@
    }) + "  scroll:"@ + dec(scroll) + "  lines:"@ + dec(lines) + suffix
}

pub fn logs_info_line(
    source: LogSource,
    layer: LogLayer,
    follow: bool,
    scroll: usize,
    lines: usize,
    suffix: &str,
) -> (r: String)
    ensures
        r@ == info_line_spec(source, layer, follow, scroll as nat, lines as nat, suffix@),
{
    let mut r = concat("source:", source.label());
    push_str(&mut r, "  layer:");
    push_str(&mut r, layer.label());
    push_str(&mut r, "  follow:");
    push_str(&mut r, if follow { "on" } else { "off" });
    push_str(&mut r, "  scroll:");
    push_str(&mut r, u64_to_string(scroll as u64).as_str());
    push_str(&mut r, "  lines:");
    push_str(&mut r, u64_to_string(lines as u64).as_str());
    push_str(&mut r, suffix);
    r
}

/// What the log pane shows when no line renders: the log's message, or a
/// placeholder when it is blank.
pub fn empty_log_text(message: &str) -> (r: String)
    ensures
        r@ == (if trim(message@).len() == 0 { "No log content yet"@ } else { trim(message@) }),
{
    let t = trim_str(message);
    if t.as_str().is_empty() {
        copy_string("No log content yet")
    } else {
        t
    }
}

/// How a log line stands out.
#[derive(Debug, Clone, Copy, PartialEq, Eq, Structural)]
pub enum LineEmphasis {
    /// The selected match, marked `> `.
    Selected,
    /// Another match, marked `* `.
    Match,
    /// An anomaly line (`! [ANOM:`).
    Anomaly,
    Plain,
}

/// The line the selection stands on among increasing `matches`: the
/// selected one, clamped to the last.
pub fn selected_match_line(matches: &Vec<usize>, selected: usize) -> (r: Option<usize>)
    ensures
        matches@.len() == 0 ==> r is None,
        matches@.len() > 0 ==> r == Some(
            matches@[if selected < matches@.len() - 1 { selected as int } else { matches@.len() - 1 }],
        ),
{
    if matches.len() == 0 {
        None
    } else if selected < matches.len() - 1 {
        Some(matches[selected])
    } else {
        Some(matches[matches.len() - 1])
    }
}

pub open spec fn emphasis_spec(
    line: Seq<char>,
    index: int,
    matches: Seq<usize>,
    selected: Option<usize>,
) -> LineEmphasis {
    if selected == Some(index as usize) && 0 <= index <= usize::MAX {
        LineEmphasis::Selected
    } else if matches.contains(index as usize) && 0 <= index <= usize::MAX {
        LineEmphasis::Match
    } else if starts_with(line, "! [ANOM:"@) {
        LineEmphasis::Anomaly
    } else {
        LineEmphasis::Plain
    }
}

/// Line `index` of the log as the pane shows it, with its emphasis.
pub fn decorate_log_line(
    line: &str,
    index: usize,
    matches: &Vec<usize>,
    selected: Option<usize>,
) -> (r: (String, LineEmphasis))
    ensures
        r.1 == emphasis_spec(line@, index as int, matches@, selected),
        r.0@ == (match r.1 {
            LineEmphasis::Selected => "> "@ + line@,
            LineEmphasis::Match => "* "@ + line@,
            _ => line@,
        }),
{
    let mut found = false;
    let mut j: usize = 0;
    while j < matches.len()
        invariant
            j <= matches.len(),
            found <==> (exists|q: int| 0 <= q < j && #[trigger] matches@[q] == index),
        decreases matches.len() - j,
    {
        if matches[j] == index {
            found = true;
        }
        j += 1;
    }
    let is_selected = match selected {
        Some(s) => s == index,
        None => false,
    };
    if is_selected {
        (concat("> ", line), LineEmphasis::Selected)
    } else if found {
        (concat("* ", line), LineEmphasis::Match)
    } else if str_starts_with(line, "! [ANOM:") {
        (copy_string(line), LineEmphasis::Anomaly)
    } else {
        (copy_string(line), LineEmphasis::Plain)
    }
}

impl LogSearch {
    /// The rows of the regex search overlay before cutting: a title, the
    /// query, and the match count over `n` matches and `lines` lines, or
    /// the error.
    pub open spec fn overlay_spec(&self, n: int, lines: int) -> Seq<Seq<char>> {
        seq![
            "Regex Log Search  (type query, j/k next-prev match, enter apply, esc close)"@,
            "query: /"@ + self.query_spec() + "/"@,
            if self.error_spec().len() == 0 {
                "matches: "@ + dec(shown_match(self.selected_spec() as int, n) as nat) + "/"@ + dec(n as nat)
                    + "  lines:"@ + dec(lines as nat)
            } else {
                "error: "@ + self.error_spec()
            },
        ]
    }

    /// The overlay `width` columns wide and at most `height` rows high.
    pub fn overlay_lines(&self, n: usize, lines: usize, width: usize, height: usize) -> (r: Vec<String>)
        ensures
            r@.len() == (if height < 3 { height as int } else { 3 }),
            forall|i: int| 0 <= i < r@.len() ==> (#[trigger] r@[i])@ == take_upto(
                self.overlay_spec(n as int, lines as int)[i],
                width as int,
            ),
    {
        let third = if self.error.as_str().is_empty() {
            let k: usize = if n == 0 {
                0
            } else if self.selected_match < n - 1 {
                self.selected_match + 1
            } else {
                n
            };
            let mut t = concat("matches: ", u64_to_string(k as u64).as_str());
            push_str(&mut t, "/");
            push_str(&mut t, u64_to_string(n as u64).as_str());
            push_str(&mut t, "  lines:");
            push_str(&mut t, u64_to_string(lines as u64).as_str());
            t
        } else {
            concat("error: ", self.error.as_str())
        };
        let mut second = concat("query: /", self.query.as_str());
        push_str(&mut second, "/");
        let mut r: Vec<String> = Vec::new();
        if height > 0 {
            r.push(take_chars("Regex Log Search  (type query, j/k next-prev match, enter apply, esc close)", width));
        }
        if height > 1 {
            r.push(take_chars(second.as_str(), width));
        }
        if height > 2 {
            r.push(take_chars(third.as_str(), width));
        }
        r
    }
}

} // verus!
