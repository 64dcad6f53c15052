//! Markdown message bodies rendered as plain lines of bounded width.
use vstd::prelude::*;

use crate::text::{
    chars_of, char_count, concat, copy_string, find, find_at, first_from, lemma_find_from_occurs,
    lemma_first_from, lines, push_char, push_str, replace_all, replace_str, split_lines,
    split_whitespace, starts_with, str_starts_with, string_of, substring, sv, take_chars,
    take_upto, trim, trim_end, trim_end_str, trim_start, trim_str, upper, uppercase, words,
    is_ascii_digit, is_ws, is_whitespace, is_digit, lemma_trim_start_len, lemma_trim_start_skip,
};

verus! {

// ---------------------------------------------------------------------------
// Cutting and wrapping
// ---------------------------------------------------------------------------

/// At most the first `width` characters of `value`.
pub fn trim_to_width(value: &str, width: usize) -> (r: String)
    ensures
        r@ == take_upto(value@, width as int),
{
    take_chars(value, width)
}

/// `s` cut into consecutive pieces of `w` characters, the last possibly
/// shorter; nothing when `s` is empty or `w` is not positive.
pub open spec fn chunks(s: Seq<char>, w: int) -> Seq<Seq<char>>
    decreases s.len(),
{
    if s.len() == 0 || w <= 0 {
        Seq::empty()
    } else if s.len() <= w {
        seq![s]
    } else {
        seq![s.take(w)] + chunks(s.skip(w), w)
    }
}

pub fn split_text_chunks(text: &str, width: usize) -> (r: Vec<String>)
    ensures
        sv(r@) == chunks(text@, width as int),
{
    let v = chars_of(text);
    let mut out: Vec<String> = Vec::new();
    if width == 0 {
        assert(sv(out@) =~= Seq::<Seq<char>>::empty());
        return out;
    }
    let mut start: usize = 0;
    assert(v@.skip(0) =~= v@);
    assert(sv(out@) =~= Seq::<Seq<char>>::empty());
    while start < v.len()
        invariant
            start <= v.len(),
            width > 0,
            v@ == text@,
            sv(out@) + chunks(v@.skip(start as int), width as int) == chunks(v@, width as int),
        decreases v.len() - start,
    {
        let rest = v.len() - start;
        let end = if rest <= width {
            v.len()
        } else {
            start + width
        };
        let piece = substring(&v, start, end);
        let ghost s = v@.skip(start as int);
        let ghost prev = out@;
        out.push(piece);
        assert(sv(out@) =~= sv(prev).push(piece@));
        if rest <= width {
            assert(piece@ =~= s);
            assert(v@.skip(end as int) =~= Seq::<char>::empty());
        } else {
            assert(piece@ =~= s.take(width as int));
            assert(s.skip(width as int) =~= v@.skip(end as int));
        }
        assert(sv(out@) + chunks(v@.skip(end as int), width as int) =~= sv(prev) + chunks(
            s,
            width as int,
        ));
        start = end;
    }
    assert(v@.skip(start as int) =~= Seq::<char>::empty());
    assert(sv(out@) + Seq::<Seq<char>>::empty() =~= sv(out@));
    out
}

/// One chunk of a word taken into (finished lines, line in progress).
pub open spec fn wrap_step(st: (Seq<Seq<char>>, Seq<char>), chunk: Seq<char>, first: bool, w: int) -> (
    Seq<Seq<char>>,
    Seq<char>,
) {
    let (done0, cur0) = st;
    let (done, cur) = if !first && cur0.len() > 0 {
        (done0.push(cur0), Seq::empty())
    } else {
        (done0, cur0)
    };
    if cur.len() == 0 {
        (done, chunk)
    } else if cur.len() + 1 + chunk.len() <= w {
        (done, cur + seq![' '] + chunk)
    } else {
        (done.push(cur), chunk)
    }
}

pub open spec fn wrap_chunks(st: (Seq<Seq<char>>, Seq<char>), cs: Seq<Seq<char>>, w: int) -> (
    Seq<Seq<char>>,
    Seq<char>,
)
    decreases cs.len(),
{
    if cs.len() == 0 {
        st
    } else {
        wrap_step(wrap_chunks(st, cs.drop_last(), w), cs.last(), cs.len() == 1, w)
    }
}

pub open spec fn wrap_fold(ws: Seq<Seq<char>>, w: int) -> (Seq<Seq<char>>, Seq<char>)
    decreases ws.len(),
{
    if ws.len() == 0 {
        (Seq::empty(), Seq::empty())
    } else {
        wrap_chunks(wrap_fold(ws.drop_last(), w), chunks(ws.last(), w), w)
    }
}

/// Greedy word wrap: words joined by single spaces while a line stays within
/// `w` characters; a word longer than `w` is cut into pieces, each starting a
/// line of its own.
pub open spec fn wrap_words(text: Seq<char>, w: int) -> Seq<Seq<char>> {
    if w <= 0 {
        Seq::empty()
    } else {
        let (done, cur) = wrap_fold(words(text), w);
        let wrapped = if cur.len() > 0 {
            done.push(cur)
        } else {
            done
        };
        if wrapped.len() == 0 && trim(text).len() > 0 {
            chunks(trim(text), w)
        } else {
            wrapped
        }
    }
}

pub fn wrap_words_to_width(text: &str, width: usize) -> (r: Vec<String>)
    ensures
        sv(r@) == wrap_words(text@, width as int),
{
    let mut wrapped: Vec<String> = Vec::new();
    if width == 0 {
        assert(sv(wrapped@) =~= Seq::<Seq<char>>::empty());
        return wrapped;
    }
    let ws = split_whitespace(text);
    let ghost wv = sv(ws@);
    let mut current = String::new();
    let mut i: usize = 0;
    assert(sv(wrapped@) =~= Seq::<Seq<char>>::empty());
    while i < ws.len()
        invariant
            i <= ws.len(),
            width > 0,
            wv == sv(ws@),
            wv == words(text@),
            (sv(wrapped@), current@) == wrap_fold(wv.take(i as int), width as int),
        decreases ws.len() - i,
    {
        assert(wv.take(i + 1).drop_last() =~= wv.take(i as int));
        assert(wv.take(i + 1).last() == wv[i as int]);
        let cs = split_text_chunks(ws[i].as_str(), width);
        let ghost cv = sv(cs@);
        let ghost st0 = wrap_fold(wv.take(i as int), width as int);
        let mut j: usize = 0;
        while j < cs.len()
            invariant
                j <= cs.len(),
                width > 0,
                cv == sv(cs@),
                (sv(wrapped@), current@) == wrap_chunks(st0, cv.take(j as int), width as int),
            decreases cs.len() - j,
        {
            assert(cv.take(j + 1).drop_last() =~= cv.take(j as int));
            assert(cv.take(j + 1).last() == cv[j as int]);
            let chunk = &cs[j];
            if j > 0 && !current.as_str().is_empty() {
                let done = current;
                current = String::new();
                let ghost prev = wrapped@;
                wrapped.push(done);
                assert(sv(wrapped@) =~= sv(prev).push(done@));
            }
            if current.as_str().is_empty() {
                current = chunk.clone();
            } else {
                let cur_len = char_count(current.as_str());
                let chunk_len = char_count(chunk.as_str());
                if cur_len < width && chunk_len <= width - cur_len - 1 {
                    push_char(&mut current, ' ');
                    push_str(&mut current, chunk.as_str());
                } else {
                    let done = current;
                    current = chunk.clone();
                    let ghost prev = wrapped@;
                    wrapped.push(done);
                    assert(sv(wrapped@) =~= sv(prev).push(done@));
                }
            }
            j += 1;
        }
        assert(cv.take(cs.len() as int) =~= cv);
        i += 1;
    }
    assert(wv.take(ws.len() as int) =~= wv);
    if !current.as_str().is_empty() {
        let ghost prev = wrapped@;
        let ghost cur = current@;
        wrapped.push(current);
        assert(sv(wrapped@) =~= sv(prev).push(cur));
    }
    if wrapped.len() == 0 {
        let t = trim_str(text);
        if !t.as_str().is_empty() {
            return split_text_chunks(t.as_str(), width);
        }
    }
    wrapped
}

/// The lines a block of text takes under `prefix` (first line) and
/// `continuation` (later lines), each cut to `width` characters.
pub open spec fn prefixed_lines(text: Seq<char>, prefix: Seq<char>, continuation: Seq<char>, width: int) -> Seq<
    Seq<char>,
> {
    if width == 0 {
        Seq::empty()
    } else {
        let body = if width - prefix.len() >= 1 {
            width - prefix.len()
        } else {
            1
        };
        let wrapped = wrap_words(text, body);
        if wrapped.len() == 0 {
            seq![take_upto(prefix, width)]
        } else {
            Seq::new(
                wrapped.len(),
                |i: int|
                    {
                        let active = if i == 0 {
                            prefix
                        } else {
                            continuation
                        };
                        take_upto(active + wrapped[i], width)
                    },
            )
        }
    }
}

pub fn push_wrapped_prefixed_lines(
    out: &mut Vec<String>,
    text: &str,
    prefix: &str,
    continuation_prefix: &str,
    width: usize,
)
    ensures
        sv(final(out)@) == sv(old(out)@) + prefixed_lines(
            text@,
            prefix@,
            continuation_prefix@,
            width as int,
        ),
{
    if width == 0 {
        assert(sv(out@) =~= sv(out@) + Seq::<Seq<char>>::empty());
        return;
    }
    let plen = char_count(prefix);
    let body_width = if width > plen && width - plen >= 1 {
        width - plen
    } else {
        1
    };
    let wrapped = wrap_words_to_width(text, body_width);
    let ghost start = sv(out@);
    if wrapped.len() == 0 {
        let line = trim_to_width(prefix, width);
        let ghost lv = line@;
        out.push(line);
        assert(sv(out@) =~= start + seq![lv]);
        return;
    }
    let ghost full = prefixed_lines(text@, prefix@, continuation_prefix@, width as int);
    let mut index: usize = 0;
    while index < wrapped.len()
        invariant
            index <= wrapped.len(),
            width > 0,
            sv(wrapped@) == wrap_words(text@, body_width as int),
            body_width as int == (if width - prefix@.len() >= 1 {
                width - prefix@.len()
            } else {
                1
            }),
            full == prefixed_lines(text@, prefix@, continuation_prefix@, width as int),
            full.len() == wrapped.len(),
            sv(out@) == start + full.take(index as int),
        decreases wrapped.len() - index,
    {
        let active = if index == 0 {
            prefix
        } else {
            continuation_prefix
        };
        let combined = concat(active, wrapped[index].as_str());
        let line = trim_to_width(combined.as_str(), width);
        let ghost lv = line@;
        let ghost prev = sv(out@);
        out.push(line);
        assert(full[index as int] == lv);
        assert(full.take(index + 1) =~= full.take(index as int).push(lv));
        assert(sv(out@) =~= prev.push(lv));
        index += 1;
    }
    assert(full.take(wrapped.len() as int) =~= full);
}

// ---------------------------------------------------------------------------
// Block markers
// ---------------------------------------------------------------------------

pub open spec fn not_char_at(s: Seq<char>, c: char) -> spec_fn(int) -> bool {
    |i: int| s[i] != c
}

/// How many times `c` repeats at the start of `s`.
pub open spec fn leading_count(s: Seq<char>, c: char) -> int {
    match first_from(0, s.len() as int, not_char_at(s, c)) {
        Some(k) => k,
        None => s.len() as int,
    }
}

/// A heading: 1 to 6 `#` and a non-blank title.
pub open spec fn heading_spec(line: Seq<char>) -> Option<(int, Seq<char>)> {
    let level = leading_count(line, '#');
    if !(1 <= level && level <= 6) {
        None
    } else {
        let heading = trim_start(line.skip(level));
        if heading.len() == 0 {
            None
        } else {
            Some((level, heading))
        }
    }
}

/// `s` with leading `>` markers, each followed by optional whitespace, removed.
pub open spec fn strip_quotes(s: Seq<char>) -> Seq<char>
    decreases s.len(),
{
    if s.len() > 0 && s[0] == '>' {
        proof {
            lemma_trim_start_len(s.drop_first());
        }
        strip_quotes(trim_start(s.drop_first()))
    } else {
        s
    }
}

/// A quote: the text after its `>` markers.
pub open spec fn quote_spec(line: Seq<char>) -> Option<Seq<char>> {
    if line.len() > 0 && line[0] == '>' {
        Some(strip_quotes(line))
    } else {
        None
    }
}

pub open spec fn not_digit_at(s: Seq<char>) -> spec_fn(int) -> bool {
    |i: int| !is_ascii_digit(s[i])
}

/// How many ASCII digits start `s`.
pub open spec fn leading_digits(s: Seq<char>) -> int {
    match first_from(0, s.len() as int, not_digit_at(s)) {
        Some(k) => k,
        None => s.len() as int,
    }
}

/// A list item: its marker as shown (`* ` for bullets, `N. ` for numbers)
/// and its text.
pub open spec fn list_item_spec(line: Seq<char>) -> Option<(Seq<char>, Seq<char>)> {
    if starts_with(line, "- "@) || starts_with(line, "* "@) || starts_with(line, "+ "@) {
        Some(("* "@, trim_start(line.skip(2))))
    } else {
        let d = leading_digits(line);
        if d == 0 {
            None
        } else if starts_with(line.skip(d), ". "@) {
            Some((line.take(d) + ". "@, trim_start(line.skip(d + 2))))
        } else {
            None
        }
    }
}

/// The number of leading characters of `v` for which `p` holds.
fn skip_ws(v: &Vec<char>, from: usize) -> (r: usize)
    requires
        from <= v.len(),
    ensures
        from <= r <= v.len(),
        trim_start(v@.skip(from as int)) == v@.skip(r as int),
{
    let mut k: usize = from;
    while k < v.len() && is_whitespace(v[k])
        invariant
            from <= k <= v.len(),
            forall|q: int| from <= q < k ==> is_ws(#[trigger] v@[q]),
        decreases v.len() - k,
    {
        k += 1;
    }
    proof {
        let s = v@.skip(from as int);
        assert forall|q: int| 0 <= q < k - from implies is_ws(#[trigger] s[q]) by {
            assert(s[q] == v@[q + from]);
        }
        if k < v.len() {
            assert(s[k - from] == v@[k as int]);
        }
        lemma_trim_start_skip(s, k - from);
        assert(s.skip(k - from) =~= v@.skip(k as int));
    }
    k
}

pub fn parse_markdown_heading(line: &str) -> (r: Option<(usize, &str)>)
    ensures
        match r {
            Some((level, h)) => heading_spec(line@) == Some((level as int, h@)),
            None => heading_spec(line@) is None,
        },
{
    let v = chars_of(line);
    let mut level: usize = 0;
    while level < v.len() && v[level] == '#'
        invariant
            level <= v.len(),
            v@ == line@,
            forall|q: int| 0 <= q < level ==> v@[q] == '#',
        decreases v.len() - level,
    {
        level += 1;
    }
    proof {
        lemma_first_from(0, v@.len() as int, not_char_at(v@, '#'));
        if level < v.len() {
            assert(not_char_at(v@, '#')(level as int));
        }
        assert(leading_count(line@, '#') == level);
    }
    if level < 1 || level > 6 {
        return None;
    }
    let k = skip_ws(&v, level);
    if k == v.len() {
        assert(v@.skip(k as int) =~= Seq::<char>::empty());
        return None;
    }
    let heading = line.substring_char(k, v.len());
    assert(heading@ =~= v@.skip(k as int));
    Some((level, heading))
}

pub fn parse_markdown_quote(line: &str) -> (r: Option<&str>)
    ensures
        match r {
            Some(q) => quote_spec(line@) == Some(q@),
            None => quote_spec(line@) is None,
        },
{
    let v = chars_of(line);
    if v.len() == 0 || v[0] != '>' {
        return None;
    }
    let mut pos: usize = 0;
    assert(v@.skip(0) =~= v@);
    while pos < v.len() && v[pos] == '>'
        invariant
            pos <= v.len(),
            v@ == line@,
            strip_quotes(v@) == strip_quotes(v@.skip(pos as int)),
        decreases v.len() - pos,
    {
        let ghost s = v@.skip(pos as int);
        assert(s[0] == v@[pos as int]);
        assert(s.drop_first() =~= v@.skip(pos + 1));
        pos = skip_ws(&v, pos + 1);
    }
    proof {
        let s = v@.skip(pos as int);
        if pos < v.len() {
            assert(s[0] == v@[pos as int]);
        }
    }
    let rest = line.substring_char(pos, v.len());
    assert(rest@ =~= v@.skip(pos as int));
    Some(rest)
}

pub fn parse_markdown_list_item(line: &str) -> (r: Option<(String, &str)>)
    ensures
        match r {
            Some((marker, rest)) => list_item_spec(line@) == Some((marker@, rest@)),
            None => list_item_spec(line@) is None,
        },
{
    let v = chars_of(line);
    if str_starts_with(line, "- ") || str_starts_with(line, "* ") || str_starts_with(line, "+ ") {
        proof {
            reveal_strlit("- ");
            reveal_strlit("* ");
            reveal_strlit("+ ");
        }
        let k = skip_ws(&v, 2);
        let rest = line.substring_char(k, v.len());
        assert(rest@ =~= v@.skip(k as int));
        return Some((copy_string("* "), rest));
    }
    let mut d: usize = 0;
    while d < v.len() && is_digit(v[d])
        invariant
            d <= v.len(),
            v@ == line@,
            forall|q: int| 0 <= q < d ==> is_ascii_digit(#[trigger] v@[q]),
        decreases v.len() - d,
    {
        d += 1;
    }
    proof {
        lemma_first_from(0, v@.len() as int, not_digit_at(v@));
        if d < v.len() {
            assert(not_digit_at(v@)(d as int));
        }
        assert(leading_digits(line@) == d);
    }
    if d == 0 {
        return None;
    }
    if v.len() - d >= 2 && v[d] == '.' && v[d + 1] == ' ' {
        assert(v@.skip(d as int).take(2) =~= ". "@) by {
            reveal_strlit(". ");
        }
        let k = skip_ws(&v, d + 2);
        let rest = line.substring_char(k, v.len());
        assert(rest@ =~= v@.skip(k as int));
        assert(v@.skip(d as int).skip(2) =~= v@.skip(d + 2));
        let mut marker = string_of(&v.as_slice()[0..d]);
        push_str(&mut marker, ". ");
        return Some((marker, rest));
    }
    proof {
        reveal_strlit(". ");
        let x = v@.skip(d as int);
        if starts_with(x, ". "@) {
            assert(x.take(2)[0] == x[0]);
            assert(x.take(2)[1] == x[1]);
            assert(x[0] == v@[d as int]);
            assert(x[1] == v@[d + 1]);
        }
    }
    None
}

// ---------------------------------------------------------------------------
// Detail view of a message body
// ---------------------------------------------------------------------------

pub open spec fn spaces(n: nat) -> Seq<char> {
    Seq::new(n, |i: int| ' ')
}

pub open spec fn hash_prefix(level: int) -> Seq<char> {
    Seq::new((if level < 3 { level } else { 3 }) as nat, |i: int| '#') + " "@
}

/// One source line taken into (rendered lines, inside a code fence).
pub open spec fn detail_step(st: (Seq<Seq<char>>, bool), raw: Seq<char>, width: int) -> (
    Seq<Seq<char>>,
    bool,
) {
    let (out, in_code) = st;
    let line = trim_end(raw);
    let t = trim(line);
    if starts_with(t, "```"@) {
        (out, !in_code)
    } else if in_code {
        (out + prefixed_lines(line, "` "@, "` "@, width), in_code)
    } else if t.len() == 0 {
        if out.len() > 0 && out.last().len() > 0 {
            (out.push(Seq::empty()), in_code)
        } else {
            (out, in_code)
        }
    } else if heading_spec(t) is Some {
        let (level, heading) = heading_spec(t)->Some_0;
        (out + prefixed_lines(heading, hash_prefix(level), "  "@, width), in_code)
    } else if list_item_spec(t) is Some {
        let (prefix, text) = list_item_spec(t)->Some_0;
        (out + prefixed_lines(text, prefix, spaces(prefix.len()), width), in_code)
    } else if quote_spec(t) is Some {
        (out + prefixed_lines(quote_spec(t)->Some_0, "> "@, "> "@, width), in_code)
    } else {
        (out + prefixed_lines(t, ""@, ""@, width), in_code)
    }
}

pub open spec fn detail_fold(ls: Seq<Seq<char>>, width: int) -> (Seq<Seq<char>>, bool)
    decreases ls.len(),
{
    if ls.len() == 0 {
        (Seq::empty(), false)
    } else {
        detail_step(detail_fold(ls.drop_last(), width), ls.last(), width)
    }
}

/// `out` without its trailing empty lines.
pub open spec fn drop_trailing_empty(out: Seq<Seq<char>>) -> Seq<Seq<char>>
    decreases out.len(),
{
    if out.len() > 0 && out.last().len() == 0 {
        drop_trailing_empty(out.drop_last())
    } else {
        out
    }
}

/// A message body as wrapped lines: headings, list items and quotes keep a
/// marker, fenced code lines are shown behind "` ", and runs of blank lines
/// collapse to one. A body that renders to nothing shows its first `width`
/// characters instead.
pub open spec fn detail_lines_spec(markdown: Seq<char>, width: int) -> Seq<Seq<char>> {
    let m = trim(markdown);
    if width == 0 || m.len() == 0 {
        Seq::empty()
    } else {
        let out = drop_trailing_empty(detail_fold(lines(m), width).0);
        if out.len() == 0 {
            seq![take_upto(m, width)]
        } else {
            out
        }
    }
}

fn repeat_char(c: char, n: usize) -> (r: String)
    ensures
        r@ == Seq::new(n as nat, |i: int| c),
{
    let mut r = String::new();
    let mut k: usize = 0;
    while k < n
        invariant
            k <= n,
            r@ == Seq::new(k as nat, |i: int| c),
        decreases n - k,
    {
        push_char(&mut r, c);
        k += 1;
        assert(r@ =~= Seq::new(k as nat, |i: int| c));
    }
    r
}

pub fn render_inbox_markdown_detail_lines(markdown: &str, width: usize) -> (r: Vec<String>)
    ensures
        sv(r@) == detail_lines_spec(markdown@, width as int),
{
    let mut rendered: Vec<String> = Vec::new();
    assert(sv(rendered@) =~= Seq::<Seq<char>>::empty());
    if width == 0 {
        return rendered;
    }
    let m = trim_str(markdown);
    if m.as_str().is_empty() {
        return rendered;
    }
    let ls = split_lines(m.as_str());
    let ghost lv = sv(ls@);
    let mut in_code_block = false;
    let mut i: usize = 0;
    while i < ls.len()
        invariant
            i <= ls.len(),
            width > 0,
            lv == sv(ls@),
            (sv(rendered@), in_code_block) == detail_fold(lv.take(i as int), width as int),
        decreases ls.len() - i,
    {
        assert(lv.take(i + 1).drop_last() =~= lv.take(i as int));
        assert(lv.take(i + 1).last() == lv[i as int]);
        let line = trim_end_str(ls[i].as_str());
        let trimmed = trim_str(line.as_str());
        proof {
            reveal_strlit("```");
        }
        if str_starts_with(trimmed.as_str(), "```") {
            in_code_block = !in_code_block;
        } else if in_code_block {
            push_wrapped_prefixed_lines(&mut rendered, line.as_str(), "` ", "` ", width);
        } else if trimmed.as_str().is_empty() {
            let n = rendered.len();
            if n > 0 && !rendered[n - 1].as_str().is_empty() {
                let ghost prev = rendered@;
                rendered.push(String::new());
                assert(sv(rendered@) =~= sv(prev).push(Seq::empty()));
            }
        } else {
            match parse_markdown_heading(trimmed.as_str()) {
                Some((level, heading)) => {
                    let count = if level < 3 {
                        level
                    } else {
                        3
                    };
                    let mut prefix = repeat_char('#', count);
                    push_char(&mut prefix, ' ');
                    assert(prefix@ =~= hash_prefix(level as int)) by {
                        reveal_strlit(" ");
                    }
                    push_wrapped_prefixed_lines(&mut rendered, heading, prefix.as_str(), "  ", width);
                },
                None => match parse_markdown_list_item(trimmed.as_str()) {
                    Some((prefix, text)) => {
                        let continuation = repeat_char(' ', char_count(prefix.as_str()));
                        push_wrapped_prefixed_lines(
                            &mut rendered,
                            text,
                            prefix.as_str(),
                            continuation.as_str(),
                            width,
                        );
                    },
                    None => match parse_markdown_quote(trimmed.as_str()) {
                        Some(quoted) => {
                            push_wrapped_prefixed_lines(&mut rendered, quoted, "> ", "> ", width);
                        },
                        None => {
                            push_wrapped_prefixed_lines(
                                &mut rendered,
                                trimmed.as_str(),
                                "",
                                "",
                                width,
                            );
                        },
                    },
                },
            }
        }
        i += 1;
    }
    assert(lv.take(ls.len() as int) =~= lv);
    let ghost folded = sv(rendered@);
    while rendered.len() > 0 && rendered[rendered.len() - 1].as_str().is_empty()
        invariant
            drop_trailing_empty(folded) == drop_trailing_empty(sv(rendered@)),
        decreases rendered.len(),
    {
        let ghost prev = sv(rendered@);
        rendered.pop();
        assert(sv(rendered@) =~= prev.drop_last());
    }
    if rendered.len() == 0 {
        let line = trim_to_width(m.as_str(), width);
        let ghost l = line@;
        rendered.push(line);
        assert(sv(rendered@) =~= seq![l]);
    }
    rendered
}

// ---------------------------------------------------------------------------
// Compact plain-text preview
// ---------------------------------------------------------------------------

/// Inline links `[text](url)` written as `text <url>` (just `text` when the
/// url is blank); text after an unclosed link stays as it is.
pub open spec fn links_plain(s: Seq<char>) -> Seq<char>
    decreases s.len(),
{
    match find(s, seq!['[']) {
        None => s,
        Some(open) => {
            let after_open = s.skip(open + 1);
            match find(after_open, seq![']', '(']) {
                None => s,
                Some(close) => {
                    let after_close = after_open.skip(close + 2);
                    match find(after_close, seq![')']) {
                        None => s,
                        Some(url_end) => {
                            proof {
                                lemma_find_from_occurs(s, seq!['['], 0);
                                lemma_find_from_occurs(after_open, seq![']', '('], 0);
                                lemma_find_from_occurs(after_close, seq![')'], 0);
                            }
                            let url = trim(after_close.take(url_end));
                            s.take(open) + after_open.take(close) + (if url.len() > 0 {
                                seq![' ', '<'] + url + seq!['>']
                            } else {
                                Seq::empty()
                            }) + links_plain(after_close.skip(url_end + 1))
                        },
                    }
                },
            }
        },
    }
}

fn tail_of(v: &Vec<char>, from: usize) -> (r: Vec<char>)
    requires
        from <= v.len(),
    ensures
        r@ == v@.skip(from as int),
{
    let mut r: Vec<char> = Vec::new();
    let mut i: usize = from;
    while i < v.len()
        invariant
            from <= i <= v.len(),
            r@ == v@.subrange(from as int, i as int),
        decreases v.len() - i,
    {
        r.push(v[i]);
        i += 1;
        assert(r@ =~= v@.subrange(from as int, i as int));
    }
    assert(v@.subrange(from as int, v.len() as int) =~= v@.skip(from as int));
    r
}

pub fn replace_markdown_links(input: &str) -> (r: String)
    ensures
        r@ == links_plain(input@),
{
    let mut out = String::new();
    let mut rest = chars_of(input);
    let open_pat = vec!['['];
    let close_pat = vec![']', '('];
    let end_pat = vec![')'];
    while rest.len() > 0
        invariant
            open_pat@ == seq!['['],
            close_pat@ == seq![']', '('],
            end_pat@ == seq![')'],
            out@ + links_plain(rest@) == links_plain(input@),
        ensures
            out@ == links_plain(input@),
        decreases rest.len(),
    {
        let ghost s = rest@;
        let open = match find_at(&rest, &open_pat, 0) {
            Some(k) => k,
            None => {
                push_str(&mut out, string_of(&rest).as_str());
                rest = Vec::new();
                assert(links_plain(rest@) =~= Seq::<char>::empty());
                assert(out@ + Seq::<char>::empty() =~= out@);
                break;
            },
        };
        proof {
            lemma_find_from_occurs(s, seq!['['], 0);
        }
        let after_open = tail_of(&rest, open + 1);
        let close = match find_at(&after_open, &close_pat, 0) {
            Some(k) => k,
            None => {
                push_str(&mut out, string_of(&rest).as_str());
                rest = Vec::new();
                assert(links_plain(rest@) =~= Seq::<char>::empty());
                assert(out@ + Seq::<char>::empty() =~= out@);
                break;
            },
        };
        proof {
            lemma_find_from_occurs(after_open@, seq![']', '('], 0);
        }
        let after_close = tail_of(&after_open, close + 2);
        let url_end = match find_at(&after_close, &end_pat, 0) {
            Some(k) => k,
            None => {
                push_str(&mut out, string_of(&rest).as_str());
                rest = Vec::new();
                assert(links_plain(rest@) =~= Seq::<char>::empty());
                assert(out@ + Seq::<char>::empty() =~= out@);
                break;
            },
        };
        proof {
            lemma_find_from_occurs(after_close@, seq![')'], 0);
        }
        let ghost before = out@;
        push_str(&mut out, substring(&rest, 0, open).as_str());
        push_str(&mut out, substring(&after_open, 0, close).as_str());
        let url = trim_str(substring(&after_close, 0, url_end).as_str());
        if !url.as_str().is_empty() {
            push_char(&mut out, ' ');
            push_char(&mut out, '<');
            push_str(&mut out, url.as_str());
            push_char(&mut out, '>');
        }
        let next = tail_of(&after_close, url_end + 1);
        assert(s.subrange(0, open as int) =~= s.take(open as int));
        assert(after_open@.subrange(0, close as int) =~= after_open@.take(close as int));
        assert(after_close@.subrange(0, url_end as int) =~= after_close@.take(url_end as int));
        assert(out@ + links_plain(next@) =~= before + links_plain(s));
        rest = next;
    }
    out
}

pub open spec fn bullet() -> Seq<char> {
    seq!['\u{2022}', ' ']
}

pub open spec fn heading_mark() -> Seq<char> {
    seq!['\u{25B8}', ' ']
}

/// One trimmed source line in its compact form, before links and emphasis
/// are flattened.
pub open spec fn plain_line(t: Seq<char>, in_code: bool) -> Seq<char> {
    if in_code {
        seq!['`'] + t + seq!['`']
    } else if starts_with(t, "### "@) {
        heading_mark() + trim(t.skip(4))
    } else if starts_with(t, "## "@) {
        heading_mark() + upper(trim(t.skip(3)))
    } else if starts_with(t, "# "@) {
        heading_mark() + upper(trim(t.skip(2)))
    } else if starts_with(t, "- "@) || starts_with(t, "* "@) {
        bullet() + trim(t.skip(2))
    } else {
        t
    }
}

/// A line with links flattened and `**`, `__` and backticks removed.
pub open spec fn flatten_inline(line: Seq<char>) -> Seq<char> {
    replace_all(
        replace_all(replace_all(links_plain(line), "**"@, Seq::empty()), "__"@, Seq::empty()),
        seq!['`'],
        Seq::empty(),
    )
}

/// One source line taken into (lines, inside a code fence); nothing is
/// added once `max_lines` lines are there.
pub open spec fn plain_step(st: (Seq<Seq<char>>, bool), raw: Seq<char>, width: int, max_lines: int) -> (
    Seq<Seq<char>>,
    bool,
) {
    let (out, in_code) = st;
    let t = trim(raw);
    if out.len() >= max_lines {
        st
    } else if starts_with(t, "```"@) {
        (out, !in_code)
    } else {
        let line = flatten_inline(plain_line(t, in_code));
        if trim(line).len() == 0 {
            (out, in_code)
        } else {
            (out.push(take_upto(line, width)), in_code)
        }
    }
}

pub open spec fn plain_fold(ls: Seq<Seq<char>>, width: int, max_lines: int) -> (Seq<Seq<char>>, bool)
    decreases ls.len(),
{
    if ls.len() == 0 {
        (Seq::empty(), false)
    } else {
        plain_step(plain_fold(ls.drop_last(), width, max_lines), ls.last(), width, max_lines)
    }
}

/// A markdown body as at most `max_lines` compact lines of at most `width`
/// characters.
pub open spec fn plain_lines_spec(markdown: Seq<char>, width: int, max_lines: int) -> Seq<Seq<char>> {
    if max_lines == 0 || width == 0 {
        Seq::empty()
    } else {
        plain_fold(lines(markdown), width, max_lines).0
    }
}

fn plain_line_of(t: &str, in_code: bool) -> (r: String)
    ensures
        r@ == plain_line(t@, in_code),
{
    proof {
        reveal_strlit("### ");
        reveal_strlit("## ");
        reveal_strlit("# ");
        reveal_strlit("- ");
        reveal_strlit("* ");
    }
    let v = chars_of(t);
    if in_code {
        let mut r = String::new();
        push_char(&mut r, '`');
        push_str(&mut r, t);
        push_char(&mut r, '`');
        return r;
    }
    let mut r = String::new();
    if str_starts_with(t, "### ") {
        push_char(&mut r, '\u{25B8}');
        push_char(&mut r, ' ');
        push_str(&mut r, trim_str(tail_str(&v, 4).as_str()).as_str());
    } else if str_starts_with(t, "## ") {
        push_char(&mut r, '\u{25B8}');
        push_char(&mut r, ' ');
        push_str(&mut r, uppercase(trim_str(tail_str(&v, 3).as_str()).as_str()).as_str());
    } else if str_starts_with(t, "# ") {
        push_char(&mut r, '\u{25B8}');
        push_char(&mut r, ' ');
        push_str(&mut r, uppercase(trim_str(tail_str(&v, 2).as_str()).as_str()).as_str());
    } else if str_starts_with(t, "- ") || str_starts_with(t, "* ") {
        push_char(&mut r, '\u{2022}');
        push_char(&mut r, ' ');
        push_str(&mut r, trim_str(tail_str(&v, 2).as_str()).as_str());
    } else {
        push_str(&mut r, t);
    }
    r
}

fn tail_str(v: &Vec<char>, from: usize) -> (r: String)
    requires
        from <= v.len(),
    ensures
        r@ == v@.skip(from as int),
{
    let r = substring(v, from, v.len());
    assert(v@.subrange(from as int, v.len() as int) =~= v@.skip(from as int));
    r
}

pub fn markdown_to_plain_lines(markdown: &str, width: usize, max_lines: usize) -> (r: Vec<String>)
    ensures
        sv(r@) == plain_lines_spec(markdown@, width as int, max_lines as int),
{
    let mut out: Vec<String> = Vec::new();
    assert(sv(out@) =~= Seq::<Seq<char>>::empty());
    if max_lines == 0 || width == 0 {
        return out;
    }
    let ls = split_lines(markdown);
    let ghost lv = sv(ls@);
    let mut in_code = false;
    let mut i: usize = 0;
    while i < ls.len()
        invariant
            i <= ls.len(),
            lv == sv(ls@),
            (sv(out@), in_code) == plain_fold(lv.take(i as int), width as int, max_lines as int),
        decreases ls.len() - i,
    {
        assert(lv.take(i + 1).drop_last() =~= lv.take(i as int));
        assert(lv.take(i + 1).last() == lv[i as int]);
        if out.len() < max_lines {
            let trimmed = trim_str(ls[i].as_str());
            proof {
                reveal_strlit("```");
            }
            if str_starts_with(trimmed.as_str(), "```") {
                in_code = !in_code;
            } else {
                let shaped = plain_line_of(trimmed.as_str(), in_code);
                proof {
                    reveal_strlit("**");
                    reveal_strlit("__");
                }
                proof {
                    reveal_strlit("`");
                    reveal_strlit("");
                    assert("`"@ =~= seq!['`']);
                    assert(""@ =~= Seq::<char>::empty());
                }
                let linked = replace_markdown_links(shaped.as_str());
                let a = replace_str(linked.as_str(), "**", "");
                let b = replace_str(a.as_str(), "__", "");
                let c = replace_str(b.as_str(), "`", "");
                if !trim_str(c.as_str()).as_str().is_empty() {
                    let line = trim_to_width(c.as_str(), width);
                    let ghost l = line@;
                    let ghost prev = sv(out@);
                    out.push(line);
                    assert(sv(out@) =~= prev.push(l));
                }
            }
        }
        i += 1;
    }
    assert(lv.take(ls.len() as int) =~= lv);
    out
}

// ---------------------------------------------------------------------------
// Laws
// ---------------------------------------------------------------------------

pub open spec fn all_within(ls: Seq<Seq<char>>, width: int) -> bool {
    forall|i: int| 0 <= i < ls.len() ==> (#[trigger] ls[i]).len() <= width
}

proof fn lemma_prefixed_within(text: Seq<char>, prefix: Seq<char>, continuation: Seq<char>, width: int)
    requires
        width > 0,
    ensures
        all_within(prefixed_lines(text, prefix, continuation, width), width),
{
}

proof fn lemma_detail_fold_within(ls: Seq<Seq<char>>, width: int)
    requires
        width > 0,
    ensures
        all_within(detail_fold(ls, width).0, width),
    decreases ls.len(),
{
    if ls.len() > 0 {
        lemma_detail_fold_within(ls.drop_last(), width);
        let (out, in_code) = detail_fold(ls.drop_last(), width);
        let raw = ls.last();
        let line = trim_end(raw);
        let t = trim(line);
        let next = detail_fold(ls, width).0;
        if starts_with(t, "```"@) {
        } else if in_code {
            lemma_prefixed_within(line, "` "@, "` "@, width);
            let add = prefixed_lines(line, "` "@, "` "@, width);
            assert forall|i: int| 0 <= i < next.len() implies (#[trigger] next[i]).len() <= width by {
                if i >= out.len() {
                    assert(next[i] == add[i - out.len()]);
                }
            }
        } else if t.len() == 0 {
        } else {
            let add = if heading_spec(t) is Some {
                let (level, heading) = heading_spec(t)->Some_0;
                prefixed_lines(heading, hash_prefix(level), "  "@, width)
            } else if list_item_spec(t) is Some {
                let (prefix, text) = list_item_spec(t)->Some_0;
                prefixed_lines(text, prefix, spaces(prefix.len()), width)
            } else if quote_spec(t) is Some {
                prefixed_lines(quote_spec(t)->Some_0, "> "@, "> "@, width)
            } else {
                prefixed_lines(t, ""@, ""@, width)
            };
            assert(next == out + add);
            assert forall|i: int| 0 <= i < next.len() implies (#[trigger] next[i]).len() <= width by {
                if i >= out.len() {
                    assert(next[i] == add[i - out.len()]);
                }
            }
        }
    }
}

proof fn lemma_drop_trailing_within(out: Seq<Seq<char>>, width: int)
    requires
        all_within(out, width),
    ensures
        all_within(drop_trailing_empty(out), width),
    decreases out.len(),
{
    if out.len() > 0 && out.last().len() == 0 {
        assert(all_within(out.drop_last(), width)) by {
            assert forall|i: int| 0 <= i < out.drop_last().len() implies (
            #[trigger] out.drop_last()[i]).len() <= width by {
                assert(out.drop_last()[i] == out[i]);
            }
        }
        lemma_drop_trailing_within(out.drop_last(), width);
    }
}

/// Every line of a rendered message body fits in the width asked for.
pub proof fn law_detail_lines_fit_width(markdown: Seq<char>, width: int)
    requires
        width > 0,
    ensures
        all_within(detail_lines_spec(markdown, width), width),
{
    let m = trim(markdown);
    if m.len() > 0 {
        lemma_detail_fold_within(lines(m), width);
        lemma_drop_trailing_within(detail_fold(lines(m), width).0, width);
    }
}

/// Cut into chunks, a text loses nothing: the chunks put back together are
/// the text, and each holds at most `w` characters.
pub proof fn law_chunks_cover_text(s: Seq<char>, w: int)
    requires
        w > 0,
    ensures
        chunks(s, w).fold_left(Seq::<char>::empty(), |acc: Seq<char>, c: Seq<char>| acc + c) == s,
        forall|i: int| 0 <= i < chunks(s, w).len() ==> 0 < (#[trigger] chunks(s, w)[i]).len() <= w,
    decreases s.len(),
{
    let f = |acc: Seq<char>, c: Seq<char>| acc + c;
    if s.len() == 0 {
    } else if s.len() <= w {
        assert(chunks(s, w) =~= seq![s]);
        reveal_with_fuel(Seq::fold_left, 2);
        assert(seq![s].drop_last() =~= Seq::<Seq<char>>::empty());
        assert(Seq::<char>::empty() + s =~= s);
    } else {
        let rest = chunks(s.skip(w), w);
        law_chunks_cover_text(s.skip(w), w);
        assert(chunks(s, w) == seq![s.take(w)] + rest);
        lemma_fold_concat_prefix(s.take(w), rest);
        assert(s.take(w) + s.skip(w) =~= s);
        assert forall|i: int| 0 <= i < chunks(s, w).len() implies 0 < (#[trigger] chunks(
            s,
            w,
        )[i]).len() <= w by {
            if i > 0 {
                assert(chunks(s, w)[i] == rest[i - 1]);
            }
        }
    }
}

proof fn lemma_fold_concat_prefix(first: Seq<char>, rest: Seq<Seq<char>>)
    ensures
        (seq![first] + rest).fold_left(
            Seq::<char>::empty(),
            |acc: Seq<char>, c: Seq<char>| acc + c,
        ) == first + rest.fold_left(Seq::<char>::empty(), |acc: Seq<char>, c: Seq<char>| acc + c),
    decreases rest.len(),
{
    let f = |acc: Seq<char>, c: Seq<char>| acc + c;
    let all = seq![first] + rest;
    if rest.len() == 0 {
        assert(all =~= seq![first]);
        reveal_with_fuel(Seq::fold_left, 2);
        assert(seq![first].drop_last() =~= Seq::<Seq<char>>::empty());
        assert(Seq::<char>::empty() + first =~= first);
        assert(first + Seq::<char>::empty() =~= first);
    } else {
        lemma_fold_concat_prefix(first, rest.drop_last());
        assert(all.drop_last() =~= seq![first] + rest.drop_last());
        assert(all.last() == rest.last());
        assert(first + rest.drop_last().fold_left(Seq::<char>::empty(), f) + rest.last() =~= first
            + (rest.drop_last().fold_left(Seq::<char>::empty(), f) + rest.last()));
    }
}

proof fn lemma_wrap_chunks_within(st: (Seq<Seq<char>>, Seq<char>), cs: Seq<Seq<char>>, w: int)
    requires
        w > 0,
        all_within(st.0, w),
        st.1.len() <= w,
        all_within(cs, w),
    ensures
        all_within(wrap_chunks(st, cs, w).0, w),
        wrap_chunks(st, cs, w).1.len() <= w,
    decreases cs.len(),
{
    if cs.len() > 0 {
        assert(all_within(cs.drop_last(), w)) by {
            assert forall|i: int| 0 <= i < cs.drop_last().len() implies (
            #[trigger] cs.drop_last()[i]).len() <= w by {
                assert(cs.drop_last()[i] == cs[i]);
            }
        }
        lemma_wrap_chunks_within(st, cs.drop_last(), w);
        let prev = wrap_chunks(st, cs.drop_last(), w);
        assert(cs.last() == cs[cs.len() - 1]);
        let next = wrap_chunks(st, cs, w);
        assert forall|i: int| 0 <= i < next.0.len() implies (#[trigger] next.0[i]).len() <= w by {
            if i < prev.0.len() {
                assert(next.0[i] == prev.0[i] || next.0[i] == prev.1);
            }
        }
    }
}

proof fn lemma_wrap_fold_within(ws: Seq<Seq<char>>, w: int)
    requires
        w > 0,
    ensures
        all_within(wrap_fold(ws, w).0, w),
        wrap_fold(ws, w).1.len() <= w,
    decreases ws.len(),
{
    if ws.len() > 0 {
        lemma_wrap_fold_within(ws.drop_last(), w);
        law_chunks_cover_text(ws.last(), w);
        lemma_wrap_chunks_within(wrap_fold(ws.drop_last(), w), chunks(ws.last(), w), w);
    }
}

/// Word wrap keeps every line within the width.
pub proof fn law_wrapped_lines_fit_width(text: Seq<char>, w: int)
    requires
        w > 0,
    ensures
        all_within(wrap_words(text, w), w),
{
    lemma_wrap_fold_within(words(text), w);
    let (done, cur) = wrap_fold(words(text), w);
    let wrapped = if cur.len() > 0 {
        done.push(cur)
    } else {
        done
    };
    assert(all_within(wrapped, w)) by {
        assert forall|i: int| 0 <= i < wrapped.len() implies (#[trigger] wrapped[i]).len() <= w by {
            if i < done.len() {
                assert(wrapped[i] == done[i]);
            }
        }
    }
    law_chunks_cover_text(trim(text), w);
}

} // verus!
