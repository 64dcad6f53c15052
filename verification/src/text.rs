//! Character and string primitives shared by the rest of the library.
//!
//! Strings are modelled by their view, a `Seq<char>`; every exec function
//! here states its result over that model.
use vstd::prelude::*;

verus! {

// ---------------------------------------------------------------------------
// Characters
// ---------------------------------------------------------------------------

/// The Unicode `White_Space` property (the set `char::is_whitespace` tests).
pub open spec fn is_ws(c: char) -> bool {
    let u = c as u32;
    (9 <= u && u <= 13) || u == 32 || u == 0x85 || u == 0xA0 || u == 0x1680 || (0x2000 <= u
        && u <= 0x200A) || u == 0x2028 || u == 0x2029 || u == 0x202F || u == 0x205F || u == 0x3000
}

pub open spec fn is_ascii_digit(c: char) -> bool {
    '0' <= c && c <= '9'
}

pub open spec fn is_ascii_alnum(c: char) -> bool {
    ('a' <= c && c <= 'z') || ('A' <= c && c <= 'Z') || ('0' <= c && c <= '9')
}

/// ASCII lowercasing of one character; other characters are unchanged.
pub open spec fn lower_char(c: char) -> char {
    if 'A' <= c && c <= 'Z' {
        ((c as u32) + 32) as char
    } else {
        c
    }
}

/// ASCII uppercasing of one character; other characters are unchanged.
pub open spec fn upper_char(c: char) -> char {
    if 'a' <= c && c <= 'z' {
        ((c as u32) - 32) as char
    } else {
        c
    }
}

pub fn is_whitespace(c: char) -> (b: bool)
    ensures
        b == is_ws(c),
{
    let u: u32 = c as u32;
    (9 <= u && u <= 13) || u == 32 || u == 0x85 || u == 0xA0 || u == 0x1680 || (0x2000 <= u && u
        <= 0x200A) || u == 0x2028 || u == 0x2029 || u == 0x202F || u == 0x205F || u == 0x3000
}

pub fn is_digit(c: char) -> (b: bool)
    ensures
        b == is_ascii_digit(c),
{
    '0' <= c && c <= '9'
}

pub fn is_alnum(c: char) -> (b: bool)
    ensures
        b == is_ascii_alnum(c),
{
    ('a' <= c && c <= 'z') || ('A' <= c && c <= 'Z') || ('0' <= c && c <= '9')
}

pub fn ascii_lower(c: char) -> (r: char)
    ensures
        r == lower_char(c),
{
    if 'A' <= c && c <= 'Z' {
        let u: u32 = c as u32;
        let cb: u8 = c as u8;
        proof {
            assert(cb == u as u8);
            assert(u as u8 == u) by (bit_vector)
                requires
                    65 <= u <= 90,
            ;
        }
        let b: u8 = cb + 32;
        b as char
    } else {
        c
    }
}

pub fn ascii_upper(c: char) -> (r: char)
    ensures
        r == upper_char(c),
{
    if 'a' <= c && c <= 'z' {
        let u: u32 = c as u32;
        let cb: u8 = c as u8;
        proof {
            assert(cb == u as u8);
            assert(u as u8 == u) by (bit_vector)
                requires
                    97 <= u <= 122,
            ;
        }
        let b: u8 = cb - 32;
        b as char
    } else {
        c
    }
}

// ---------------------------------------------------------------------------
// Sequence-level model
// ---------------------------------------------------------------------------

/// The views of a sequence of strings.
pub open spec fn sv(v: Seq<String>) -> Seq<Seq<char>> {
    v.map_values(|x: String| x@)
}

pub open spec fn lower(s: Seq<char>) -> Seq<char> {
    s.map_values(|c: char| lower_char(c))
}

pub open spec fn upper(s: Seq<char>) -> Seq<char> {
    s.map_values(|c: char| upper_char(c))
}

/// `s` without its leading whitespace.
pub open spec fn trim_start(s: Seq<char>) -> Seq<char>
    decreases s.len(),
{
    if s.len() > 0 && is_ws(s[0]) {
        trim_start(s.drop_first())
    } else {
        s
    }
}

/// `s` without its trailing whitespace.
pub open spec fn trim_end(s: Seq<char>) -> Seq<char>
    decreases s.len(),
{
    if s.len() > 0 && is_ws(s.last()) {
        trim_end(s.drop_last())
    } else {
        s
    }
}

/// `s` without leading and trailing whitespace.
pub open spec fn trim(s: Seq<char>) -> Seq<char> {
    trim_end(trim_start(s))
}

/// At most the first `n` characters of `s`.
pub open spec fn take_upto(s: Seq<char>, n: int) -> Seq<char> {
    if n < s.len() {
        s.take(n)
    } else {
        s
    }
}

pub open spec fn starts_with(s: Seq<char>, p: Seq<char>) -> bool {
    p.len() <= s.len() && s.take(p.len() as int) == p
}

pub open spec fn ends_with(s: Seq<char>, p: Seq<char>) -> bool {
    p.len() <= s.len() && s.skip(s.len() - p.len()) == p
}

/// `p` occurs in `s` at position `i`.
pub open spec fn occurs_at(s: Seq<char>, p: Seq<char>, i: int) -> bool {
    0 <= i && i + p.len() <= s.len() && s.subrange(i, i + p.len()) == p
}

pub open spec fn contains(s: Seq<char>, p: Seq<char>) -> bool {
    exists|i: int| occurs_at(s, p, i)
}

/// The first position at which `p` occurs in `s`, if any.
pub open spec fn find_from(s: Seq<char>, p: Seq<char>, i: int) -> Option<int>
    decreases s.len() + 1 - i,
{
    if i < 0 || i + p.len() > s.len() {
        None
    } else if occurs_at(s, p, i) {
        Some(i)
    } else {
        find_from(s, p, i + 1)
    }
}

pub open spec fn find(s: Seq<char>, p: Seq<char>) -> Option<int> {
    find_from(s, p, 0)
}

/// Every non-overlapping occurrence of the non-empty `pat`, from the left,
/// replaced by `rep`.
pub open spec fn replace_all(s: Seq<char>, pat: Seq<char>, rep: Seq<char>) -> Seq<char>
    decreases s.len(),
{
    if s.len() == 0 || pat.len() == 0 {
        s
    } else if starts_with(s, pat) {
        rep + replace_all(s.skip(pat.len() as int), pat, rep)
    } else {
        seq![s[0]] + replace_all(s.drop_first(), pat, rep)
    }
}

/// `parts` joined with `sep` between neighbours.
pub open spec fn join(parts: Seq<Seq<char>>, sep: Seq<char>) -> Seq<char>
    decreases parts.len(),
{
    if parts.len() == 0 {
        Seq::empty()
    } else if parts.len() == 1 {
        parts[0]
    } else {
        join(parts.drop_last(), sep) + sep + parts.last()
    }
}

/// Which characters separate tokens.
#[derive(Clone, Copy, Debug, PartialEq, Eq)]
pub enum Sep {
    /// Unicode whitespace (`split_whitespace`).
    Whitespace,
    /// Anything but an ASCII letter or digit.
    NotAlnum,
    /// Anything but an ASCII letter, digit, `-` or `_`.
    NotWordChar,
}

pub open spec fn is_sep(k: Sep, c: char) -> bool {
    match k {
        Sep::Whitespace => is_ws(c),
        Sep::NotAlnum => !is_ascii_alnum(c),
        Sep::NotWordChar => !(is_ascii_alnum(c) || c == '-' || c == '_'),
    }
}

/// Left-to-right scan behind `tokens`: finished tokens and the one in progress.
pub open spec fn tokens_fold(s: Seq<char>, k: Sep) -> (Seq<Seq<char>>, Seq<char>)
    decreases s.len(),
{
    if s.len() == 0 {
        (Seq::empty(), Seq::empty())
    } else {
        let (done, cur) = tokens_fold(s.drop_last(), k);
        let c = s.last();
        if is_sep(k, c) {
            if cur.len() > 0 {
                (done.push(cur), Seq::empty())
            } else {
                (done, cur)
            }
        } else {
            (done, cur.push(c))
        }
    }
}

/// The maximal non-empty runs of non-separator characters of `s`, in order.
pub open spec fn tokens(s: Seq<char>, k: Sep) -> Seq<Seq<char>> {
    let (done, cur) = tokens_fold(s, k);
    if cur.len() > 0 {
        done.push(cur)
    } else {
        done
    }
}

/// `split_whitespace`.
pub open spec fn words(s: Seq<char>) -> Seq<Seq<char>> {
    tokens(s, Sep::Whitespace)
}

/// Runs of whitespace collapsed to one space, and none at either end.
pub open spec fn sanitize_inline(s: Seq<char>) -> Seq<char> {
    join(words(s), seq![' '])
}

pub open spec fn strip_cr(l: Seq<char>) -> Seq<char> {
    if l.len() > 0 && l.last() == '\r' {
        l.drop_last()
    } else {
        l
    }
}

/// Left-to-right scan behind `lines`.
pub open spec fn lines_fold(s: Seq<char>) -> (Seq<Seq<char>>, Seq<char>)
    decreases s.len(),
{
    if s.len() == 0 {
        (Seq::empty(), Seq::empty())
    } else {
        let (done, cur) = lines_fold(s.drop_last());
        let c = s.last();
        if c == '\n' {
            (done.push(strip_cr(cur)), Seq::empty())
        } else {
            (done, cur.push(c))
        }
    }
}

/// `str::lines`: pieces ended by `\n` (a `\r` before it dropped); a last
/// piece without `\n` counts only when it is not empty.
pub open spec fn lines(s: Seq<char>) -> Seq<Seq<char>> {
    let (done, cur) = lines_fold(s);
    if cur.len() > 0 {
        done.push(cur)
    } else {
        done
    }
}

pub open spec fn digit_char(d: nat) -> char {
    (48 + d) as char
}

/// Decimal notation of a natural number.
pub open spec fn dec(n: nat) -> Seq<char>
    decreases n,
{
    if n < 10 {
        seq![digit_char(n)]
    } else {
        dec(n / 10).push(digit_char(n % 10))
    }
}

/// Decimal notation of an integer, with a leading `-` when negative.
pub open spec fn int_dec(n: int) -> Seq<char> {
    if n < 0 {
        seq!['-'] + dec((-n) as nat)
    } else {
        dec(n as nat)
    }
}

/// Lexicographic comparison by code point, as `Ord` for `String` orders:
/// negative, zero or positive.
pub open spec fn lex_order(a: Seq<char>, b: Seq<char>) -> int
    decreases a.len(),
{
    if a.len() == 0 {
        if b.len() == 0 {
            0
        } else {
            -1
        }
    } else if b.len() == 0 {
        1
    } else if a[0] < b[0] {
        -1
    } else if a[0] > b[0] {
        1
    } else {
        lex_order(a.drop_first(), b.drop_first())
    }
}


/// The least index in `[i, len)` at which `p` holds.
pub open spec fn first_from(i: int, len: int, p: spec_fn(int) -> bool) -> Option<int>
    decreases len - i,
{
    if i >= len {
        None
    } else if p(i) {
        Some(i)
    } else {
        first_from(i + 1, len, p)
    }
}

pub proof fn lemma_first_from(i: int, len: int, p: spec_fn(int) -> bool)
    ensures
        first_from(i, len, p) matches Some(k) ==> i <= k < len && p(k) && (forall|q: int|
            i <= q < k ==> !#[trigger] p(q)),
        first_from(i, len, p) is None ==> (forall|q: int| i <= q < len ==> !#[trigger] p(q)),
    decreases len - i,
{
    if i < len && !p(i) {
        lemma_first_from(i + 1, len, p);
    }
}

pub open spec fn first_after<T>(s: Seq<T>, before: spec_fn(T, T) -> bool, x: T) -> spec_fn(int) -> bool {
    |j: int| before(x, s[j])
}

/// Where `x` goes in `s`: before the first item it sorts before.
pub open spec fn insert_pos<T>(s: Seq<T>, before: spec_fn(T, T) -> bool, x: T) -> int {
    match first_from(0, s.len() as int, first_after(s, before, x)) {
        Some(j) => j,
        None => s.len() as int,
    }
}

/// `s` stably sorted by `before`.
pub open spec fn sort_by_spec<T>(s: Seq<T>, before: spec_fn(T, T) -> bool) -> Seq<T>
    decreases s.len(),
{
    if s.len() == 0 {
        s
    } else {
        let t = sort_by_spec(s.drop_last(), before);
        t.insert(insert_pos(t, before, s.last()), s.last())
    }
}

/// Sorting keeps the items: the same length, the same items, and no item
/// twice when there was none twice before.
pub proof fn lemma_sort_by_items<T>(s: Seq<T>, before: spec_fn(T, T) -> bool)
    ensures
        sort_by_spec(s, before).len() == s.len(),
        forall|x: T| sort_by_spec(s, before).contains(x) <==> s.contains(x),
        s.no_duplicates() ==> sort_by_spec(s, before).no_duplicates(),
    decreases s.len(),
{
    if s.len() > 0 {
        let s0 = s.drop_last();
        lemma_sort_by_items(s0, before);
        let t = sort_by_spec(s0, before);
        let x = s.last();
        let j = insert_pos(t, before, x);
        lemma_first_from(0, t.len() as int, first_after(t, before, x));
        assert(0 <= j <= t.len());
        let u = t.insert(j, x);
        assert(s =~= s0.push(x));
        assert forall|y: T| u.contains(y) <==> s.contains(y) by {
            if u.contains(y) {
                let k = choose|k: int| 0 <= k < u.len() && u[k] == y;
                if k < j {
                    assert(t[k] == y);
                    assert(t.contains(y));
                    assert(s0.contains(y));
                    let m = choose|m: int| 0 <= m < s0.len() && s0[m] == y;
                    assert(s0[m] == s[m]);
                } else if k > j {
                    assert(t[k - 1] == y);
                    assert(t.contains(y));
                    assert(s0.contains(y));
                    let m = choose|m: int| 0 <= m < s0.len() && s0[m] == y;
                    assert(s0[m] == s[m]);
                } else {
                    assert(s[s.len() - 1] == y);
                }
            }
            if s.contains(y) {
                let m = choose|m: int| 0 <= m < s.len() && s[m] == y;
                if m < s.len() - 1 {
                    assert(s0[m] == y);
                    assert(s0.contains(y));
                    assert(t.contains(y));
                    let k = choose|k: int| 0 <= k < t.len() && t[k] == y;
                    if k < j {
                        assert(u[k] == y);
                    } else {
                        assert(u[k + 1] == y);
                    }
                } else {
                    assert(u[j] == y);
                }
            }
        }
        if s.no_duplicates() {
            assert(s0.no_duplicates()) by {
                assert forall|a: int, b: int| 0 <= a < s0.len() && 0 <= b < s0.len() && a != b implies s0[a] != s0[b] by {
                    assert(s0[a] == s[a] && s0[b] == s[b]);
                }
            }
            assert(!t.contains(x)) by {
                if t.contains(x) {
                    assert(s0.contains(x));
                    let m = choose|m: int| 0 <= m < s0.len() && s0[m] == x;
                    assert(s[m] == s[s.len() - 1]);
                }
            }
            assert forall|a: int, b: int| 0 <= a < u.len() && 0 <= b < u.len() && a != b implies u[a] != u[b] by {
                let a0 = if a < j { a } else { a - 1 };
                let b0 = if b < j { b } else { b - 1 };
                if a == j {
                    assert(u[b] == t[b0]);
                    assert(t.contains(t[b0]));
                } else if b == j {
                    assert(u[a] == t[a0]);
                    assert(t.contains(t[a0]));
                } else {
                    assert(u[a] == t[a0] && u[b] == t[b0]);
                }
            }
        }
    }
}

/// No item of `s` sorts strictly before an item that comes earlier: `s` is
/// in ascending order of `before`.
pub open spec fn sorted_by<T>(s: Seq<T>, before: spec_fn(T, T) -> bool) -> bool {
    forall|i: int, j: int| 0 <= i < j < s.len() ==> !before(#[trigger] s[j], #[trigger] s[i])
}

/// `before` is a strict order: irreflexive and transitive.
pub open spec fn strict_order<T>(before: spec_fn(T, T) -> bool) -> bool {
    &&& forall|a: T| !#[trigger] before(a, a)
    &&& forall|a: T, b: T, c: T| #[trigger] before(a, b) && #[trigger] before(b, c) ==> before(a, c)
}

/// A stable insertion sort by a strict order gives a sorted sequence that
/// holds the same items, each as often as before.
pub proof fn lemma_sort_by_sorted<T>(s: Seq<T>, before: spec_fn(T, T) -> bool)
    requires
        strict_order(before),
    ensures
        sorted_by(sort_by_spec(s, before), before),
        sort_by_spec(s, before).to_multiset() == s.to_multiset(),
    decreases s.len(),
{
    if s.len() > 0 {
        let s0 = s.drop_last();
        lemma_sort_by_sorted(s0, before);
        lemma_sort_by_items(s0, before);
        let t = sort_by_spec(s0, before);
        let x = s.last();
        let p = first_after(t, before, x);
        let j = insert_pos(t, before, x);
        lemma_first_from(0, t.len() as int, p);
        assert(0 <= j <= t.len());
        let u = t.insert(j, x);
        assert forall|a: int, b: int| 0 <= a < b < u.len() implies !before(
            #[trigger] u[b],
            #[trigger] u[a],
        ) by {
            if a == j {
                // u[b] == t[b - 1], which x does not come after: t[b-1] before x
                // with x before t[j] would put t[b-1] before t[j].
                assert(u[b] == t[b - 1]);
                if before(t[b - 1], x) {
                    if j < t.len() {
                        assert(p(j));
                        assert(before(x, t[j]));
                        if b - 1 == j {
                        } else {
                            assert(before(t[b - 1], t[j]));
                        }
                    } else {
                        assert(b - 1 < j);
                    }
                }
            } else if b == j {
                assert(u[a] == t[a]);
                assert(!p(a));
            } else {
                let a0 = if a < j { a } else { a - 1 };
                let b0 = if b < j { b } else { b - 1 };
                assert(u[a] == t[a0] && u[b] == t[b0]);
                assert(a0 < b0);
            }
        }
        assert(s =~= s0.push(x));
        assert(t =~= t.take(j) + t.skip(j));
        assert(u =~= t.take(j) + (seq![x] + t.skip(j)));
        vstd::seq_lib::lemma_multiset_commutative(t.take(j), seq![x] + t.skip(j));
        vstd::seq_lib::lemma_multiset_commutative(seq![x], t.skip(j));
        vstd::seq_lib::lemma_multiset_commutative(t.take(j), t.skip(j));
        vstd::seq_lib::lemma_multiset_commutative(s0, seq![x]);
        assert(seq![x].to_multiset() =~= vstd::multiset::Multiset::singleton(x)) by {
            assert(seq![x] =~= Seq::<T>::empty().push(x));
            Seq::<T>::empty().to_multiset_ensures();
        }
        assert(s0 + seq![x] =~= s);
        assert(u.to_multiset() =~= s.to_multiset());
    }
}

/// At most the first `n` items of `s`.
pub open spec fn first_n<T>(s: Seq<T>, n: int) -> Seq<T> {
    if n < s.len() {
        s.take(n)
    } else {
        s
    }
}

// ---------------------------------------------------------------------------
// Lemmas
// ---------------------------------------------------------------------------

pub proof fn lemma_trim_start_skip(s: Seq<char>, k: int)
    requires
        0 <= k <= s.len(),
        forall|q: int| 0 <= q < k ==> is_ws(#[trigger] s[q]),
        k == s.len() || !is_ws(s[k]),
    ensures
        trim_start(s) == s.skip(k),
    decreases k,
{
    if k == 0 {
        assert(s.skip(0) =~= s);
    } else {
        let t = s.drop_first();
        assert forall|q: int| 0 <= q < k - 1 implies is_ws(#[trigger] t[q]) by {
            assert(t[q] == s[q + 1]);
        }
        lemma_trim_start_skip(t, k - 1);
        assert(t.skip(k - 1) =~= s.skip(k));
    }
}

pub proof fn lemma_trim_end_take(s: Seq<char>, m: int)
    requires
        0 <= m <= s.len(),
        forall|q: int| m <= q < s.len() ==> is_ws(#[trigger] s[q]),
        m == 0 || !is_ws(s[m - 1]),
    ensures
        trim_end(s) == s.take(m),
    decreases s.len(),
{
    if m == s.len() {
        assert(s.take(m) =~= s);
    } else {
        let t = s.drop_last();
        assert forall|q: int| m <= q < t.len() implies is_ws(#[trigger] t[q]) by {
            assert(t[q] == s[q]);
        }
        lemma_trim_end_take(t, m);
        assert(t.take(m) =~= s.take(m));
    }
}

pub proof fn lemma_trim_subrange(s: Seq<char>, i: int, j: int)
    requires
        0 <= i <= j <= s.len(),
        forall|q: int| 0 <= q < i ==> is_ws(#[trigger] s[q]),
        forall|q: int| j <= q < s.len() ==> is_ws(#[trigger] s[q]),
        i == s.len() || !is_ws(s[i]),
        j == i || !is_ws(s[j - 1]),
    ensures
        trim(s) == s.subrange(i, j),
{
    lemma_trim_start_skip(s, i);
    let t = s.skip(i);
    assert forall|q: int| j - i <= q < t.len() implies is_ws(#[trigger] t[q]) by {
        assert(t[q] == s[q + i]);
    }
    if j > i {
        assert(t[j - i - 1] == s[j - 1]);
    }
    lemma_trim_end_take(t, j - i);
    assert(t.take(j - i) =~= s.subrange(i, j));
}

pub proof fn lemma_trim_start_len(s: Seq<char>)
    ensures
        trim_start(s).len() <= s.len(),
    decreases s.len(),
{
    if s.len() > 0 {
        lemma_trim_start_len(s.drop_first());
    }
}

pub proof fn lemma_trim_end_len(s: Seq<char>)
    ensures
        trim_end(s).len() <= s.len(),
    decreases s.len(),
{
    if s.len() > 0 {
        lemma_trim_end_len(s.drop_last());
    }
}

pub proof fn lemma_trim_len(s: Seq<char>)
    ensures
        trim(s).len() <= s.len(),
{
    lemma_trim_start_len(s);
    lemma_trim_end_len(trim_start(s));
}

pub proof fn lemma_join_push(parts: Seq<Seq<char>>, sep: Seq<char>, p: Seq<char>)
    ensures
        join(parts.push(p), sep) == if parts.len() == 0 {
            p
        } else {
            join(parts, sep) + sep + p
        },
{
    assert(parts.push(p).drop_last() =~= parts);
}


pub proof fn lemma_lex_range(a: Seq<char>, b: Seq<char>)
    ensures
        -1 <= lex_order(a, b) <= 1,
    decreases a.len(),
{
    if a.len() > 0 && b.len() > 0 && a[0] == b[0] {
        lemma_lex_range(a.drop_first(), b.drop_first());
    }
}

pub proof fn lemma_lex_eq(a: Seq<char>, b: Seq<char>)
    ensures
        (lex_order(a, b) == 0) == (a == b),
    decreases a.len(),
{
    if a.len() > 0 && b.len() > 0 && a[0] == b[0] {
        lemma_lex_eq(a.drop_first(), b.drop_first());
        if a.drop_first() == b.drop_first() {
            assert(a =~= seq![a[0]] + a.drop_first());
            assert(b =~= seq![b[0]] + b.drop_first());
        }
        if a == b {
            assert(a.drop_first() =~= b.drop_first());
        }
    } else if a.len() == 0 && b.len() == 0 {
        assert(a =~= b);
    } else if a.len() > 0 && b.len() > 0 {
        assert(a[0] != b[0]);
        if a == b {
            assert(a[0] == b[0]);
        }
    }
}

pub proof fn lemma_lex_antisym(a: Seq<char>, b: Seq<char>)
    ensures
        lex_order(a, b) == -lex_order(b, a),
    decreases a.len(),
{
    if a.len() > 0 && b.len() > 0 && a[0] == b[0] {
        lemma_lex_antisym(a.drop_first(), b.drop_first());
    }
}

pub proof fn lemma_lex_trans(a: Seq<char>, b: Seq<char>, c: Seq<char>)
    requires
        lex_order(a, b) < 0,
        lex_order(b, c) < 0,
    ensures
        lex_order(a, c) < 0,
    decreases a.len(),
{
    if a.len() > 0 && b.len() > 0 && c.len() > 0 && a[0] == b[0] && b[0] == c[0] {
        lemma_lex_trans(a.drop_first(), b.drop_first(), c.drop_first());
    }
}

// ---------------------------------------------------------------------------
// Exec helpers
// ---------------------------------------------------------------------------

/// `String::push`.
#[verifier::external_body]
pub fn push_char(s: &mut String, c: char)
    ensures
        final(s)@ == old(s)@.push(c),
{
    s.push(c);
}

pub fn push_str(s: &mut String, t: &str)
    ensures
        final(s)@ == old(s)@ + t@,
{
    s.append(t);
}

pub fn chars_of(s: &str) -> (r: Vec<char>)
    ensures
        r@ == s@,
{
    let mut r: Vec<char> = Vec::new();
    for c in it: s.chars()
        invariant
            r@ == it.seq().take(it.index()),
    {
        r.push(c);
    }
    proof {
        broadcast use vstd::string::group_string_axioms;
    }
    r
}

pub fn string_of(v: &[char]) -> (r: String)
    ensures
        r@ == v@,
{
    let mut r = String::new();
    let mut i: usize = 0;
    while i < v.len()
        invariant
            i <= v.len(),
            r@ == v@.take(i as int),
        decreases v.len() - i,
    {
        push_char(&mut r, v[i]);
        i += 1;
        assert(v@.take(i as int) =~= v@.take(i - 1).push(v@[i - 1]));
    }
    assert(v@.take(v.len() as int) =~= v@);
    r
}

pub fn substring(v: &[char], from: usize, to: usize) -> (r: String)
    requires
        from <= to <= v.len(),
    ensures
        r@ == v@.subrange(from as int, to as int),
{
    let mut r = String::new();
    let mut i: usize = from;
    while i < to
        invariant
            from <= i <= to <= v.len(),
            r@ == v@.subrange(from as int, i as int),
        decreases to - i,
    {
        push_char(&mut r, v[i]);
        i += 1;
        assert(v@.subrange(from as int, i as int) =~= v@.subrange(from as int, i - 1).push(
            v@[i - 1],
        ));
    }
    r
}

pub fn concat(a: &str, b: &str) -> (r: String)
    ensures
        r@ == a@ + b@,
{
    let mut r = a.to_owned();
    push_str(&mut r, b);
    r
}

pub fn copy_string(s: &str) -> (r: String)
    ensures
        r@ == s@,
{
    s.to_owned()
}

pub fn str_eq(a: &str, b: &str) -> (r: bool)
    ensures
        r == (a@ == b@),
{
    let x = a.to_owned();
    let y = b.to_owned();
    x == y
}

pub fn is_blank_view(s: &str) -> (r: bool)
    ensures
        r == (s@.len() == 0),
{
    s.is_empty()
}

pub fn lowercase(s: &str) -> (r: String)
    ensures
        r@ == lower(s@),
{
    let v = chars_of(s);
    let mut r = String::new();
    let mut i: usize = 0;
    while i < v.len()
        invariant
            i <= v.len(),
            v@ == s@,
            r@ == lower(v@.take(i as int)),
        decreases v.len() - i,
    {
        let c = ascii_lower(v[i]);
        push_char(&mut r, c);
        i += 1;
        assert(lower(v@.take(i as int)) =~= lower(v@.take(i - 1)).push(lower_char(v@[i - 1])));
    }
    assert(v@.take(v.len() as int) =~= v@);
    r
}

pub fn uppercase(s: &str) -> (r: String)
    ensures
        r@ == upper(s@),
{
    let v = chars_of(s);
    let mut r = String::new();
    let mut i: usize = 0;
    while i < v.len()
        invariant
            i <= v.len(),
            v@ == s@,
            r@ == upper(v@.take(i as int)),
        decreases v.len() - i,
    {
        let c = ascii_upper(v[i]);
        push_char(&mut r, c);
        i += 1;
        assert(upper(v@.take(i as int)) =~= upper(v@.take(i - 1)).push(upper_char(v@[i - 1])));
    }
    assert(v@.take(v.len() as int) =~= v@);
    r
}

/// Bounds of the trimmed part of `v`.
pub fn trim_bounds(v: &[char]) -> (r: (usize, usize))
    ensures
        r.0 <= r.1 <= v.len(),
        trim(v@) == v@.subrange(r.0 as int, r.1 as int),
        trim_start(v@) == v@.skip(r.0 as int),
{
    let mut i: usize = 0;
    while i < v.len() && is_whitespace(v[i])
        invariant
            i <= v.len(),
            forall|q: int| 0 <= q < i ==> is_ws(#[trigger] v@[q]),
        decreases v.len() - i,
    {
        i += 1;
    }
    let mut j: usize = v.len();
    while j > i && is_whitespace(v[j - 1])
        invariant
            i <= j <= v.len(),
            forall|q: int| j <= q < v.len() ==> is_ws(#[trigger] v@[q]),
        decreases j,
    {
        j -= 1;
    }
    proof {
        lemma_trim_subrange(v@, i as int, j as int);
        lemma_trim_start_skip(v@, i as int);
    }
    (i, j)
}

pub fn trim_str(s: &str) -> (r: String)
    ensures
        r@ == trim(s@),
{
    let v = chars_of(s);
    let (i, j) = trim_bounds(&v);
    substring(&v, i, j)
}

pub fn trim_start_str(s: &str) -> (r: String)
    ensures
        r@ == trim_start(s@),
{
    let v = chars_of(s);
    let (i, j) = trim_bounds(&v);
    substring(&v, i, v.len())
}

pub fn trim_end_str(s: &str) -> (r: String)
    ensures
        r@ == trim_end(s@),
{
    let v = chars_of(s);
    let mut j: usize = v.len();
    while j > 0 && is_whitespace(v[j - 1])
        invariant
            j <= v.len(),
            forall|q: int| j <= q < v.len() ==> is_ws(#[trigger] v@[q]),
        decreases j,
    {
        j -= 1;
    }
    proof {
        lemma_trim_end_take(v@, j as int);
        assert(v@.take(j as int) =~= v@.subrange(0, j as int));
    }
    substring(&v, 0, j)
}

pub fn take_chars(s: &str, n: usize) -> (r: String)
    ensures
        r@ == take_upto(s@, n as int),
{
    let v = chars_of(s);
    if n < v.len() {
        assert(v@.subrange(0, n as int) =~= v@.take(n as int));
        substring(&v, 0, n)
    } else {
        assert(v@.subrange(0, v.len() as int) =~= v@);
        substring(&v, 0, v.len())
    }
}

pub fn char_count(s: &str) -> (n: usize)
    ensures
        n == s@.len(),
{
    let v = chars_of(s);
    v.len()
}

pub fn starts_with_at(v: &[char], i: usize, p: &[char]) -> (r: bool)
    requires
        i <= v.len(),
    ensures
        r == starts_with(v@.skip(i as int), p@),
{
    if p.len() > v.len() - i {
        return false;
    }
    let mut k: usize = 0;
    while k < p.len()
        invariant
            k <= p.len(),
            i + p.len() <= v.len(),
            forall|q: int| 0 <= q < k ==> v@[i + q] == p@[q],
        decreases p.len() - k,
    {
        if v[i + k] != p[k] {
            assert(v@.skip(i as int).take(p.len() as int)[k as int] != p@[k as int]);
            return false;
        }
        k += 1;
    }
    assert(v@.skip(i as int).take(p.len() as int) =~= p@);
    true
}

pub fn str_starts_with(s: &str, p: &str) -> (r: bool)
    ensures
        r == starts_with(s@, p@),
{
    let v = chars_of(s);
    let pv = chars_of(p);
    assert(v@.skip(0) =~= v@);
    starts_with_at(&v, 0, &pv)
}

pub fn str_ends_with(s: &str, p: &str) -> (r: bool)
    ensures
        r == ends_with(s@, p@),
{
    let v = chars_of(s);
    let pv = chars_of(p);
    if pv.len() > v.len() {
        return false;
    }
    let r = starts_with_at(&v, v.len() - pv.len(), &pv);
    assert(v@.skip(v.len() - pv.len()).take(pv.len() as int) =~= v@.skip(v.len() - pv.len()));
    r
}

/// First position of `p` in `v` at or after `from`.
pub fn find_at(v: &[char], p: &[char], from: usize) -> (r: Option<usize>)
    requires
        from <= v.len(),
    ensures
        r matches Some(i) ==> find_from(v@, p@, from as int) == Some(i as int),
        r is None ==> find_from(v@, p@, from as int) is None,
{
    let mut i: usize = from;
    while p.len() <= v.len() - i
        invariant
            from <= i <= v.len(),
            find_from(v@, p@, from as int) == find_from(v@, p@, i as int),
        decreases v.len() - i,
    {
        let hit = starts_with_at(v, i, p);
        if hit {
            assert(v@.skip(i as int).take(p.len() as int) =~= v@.subrange(
                i as int,
                i + p.len(),
            ));
            return Some(i);
        }
        assert(v@.skip(i as int).take(p.len() as int) =~= v@.subrange(i as int, i + p.len()));
        assert(p@.len() > 0) by {
            if p@.len() == 0 {
                assert(v@.skip(i as int).take(0) =~= p@);
            }
        }
        i += 1;
    }
    None
}

pub proof fn lemma_find_from_occurs(s: Seq<char>, p: Seq<char>, i: int)
    requires
        0 <= i,
    ensures
        find_from(s, p, i) matches Some(k) ==> occurs_at(s, p, k) && i <= k && (forall|q: int|
            i <= q < k ==> !occurs_at(s, p, q)),
        find_from(s, p, i) is None ==> (forall|q: int| i <= q ==> !occurs_at(s, p, q)),
    decreases s.len() + 1 - i,
{
    if i < 0 || i + p.len() > s.len() {
        assert forall|q: int| i <= q implies !occurs_at(s, p, q) by {}
    } else if occurs_at(s, p, i) {
    } else {
        lemma_find_from_occurs(s, p, i + 1);
    }
}

pub fn contains_str(s: &str, p: &str) -> (r: bool)
    ensures
        r == contains(s@, p@),
{
    let v = chars_of(s);
    let pv = chars_of(p);
    let f = find_at(&v, &pv, 0);
    proof {
        lemma_find_from_occurs(v@, pv@, 0);
    }
    f.is_some()
}

/// `s` with every occurrence of the non-empty `pat` replaced by `rep`.
pub fn replace_str(s: &str, pat: &str, rep: &str) -> (r: String)
    requires
        pat@.len() > 0,
    ensures
        r@ == replace_all(s@, pat@, rep@),
{
    let v = chars_of(s);
    let pv = chars_of(pat);
    let mut out = String::new();
    let mut i: usize = 0;
    assert(v@.skip(0) =~= v@);
    while i < v.len()
        invariant
            i <= v.len(),
            v@ == s@,
            pv@ == pat@,
            pv@.len() > 0,
            out@ + replace_all(v@.skip(i as int), pat@, rep@) == replace_all(s@, pat@, rep@),
        decreases v.len() - i,
    {
        let ghost t = v@.skip(i as int);
        if starts_with_at(&v, i, &pv) {
            push_str(&mut out, rep);
            assert(t.skip(pv@.len() as int) =~= v@.skip(i + pv@.len()));
            assert(out@ + replace_all(v@.skip(i + pv@.len()), pat@, rep@) =~= (out@.subrange(
                0,
                out@.len() - rep@.len(),
            )) + replace_all(t, pat@, rep@));
            i = i + pv.len();
        } else {
            push_char(&mut out, v[i]);
            assert(t.drop_first() =~= v@.skip(i + 1));
            assert(out@ + replace_all(v@.skip(i + 1), pat@, rep@) =~= (out@.drop_last())
                + replace_all(t, pat@, rep@));
            i = i + 1;
        }
    }
    assert(v@.skip(i as int) =~= Seq::<char>::empty());
    assert(out@ + Seq::<char>::empty() =~= out@);
    out
}

pub fn join_strings(parts: &Vec<String>, sep: &str) -> (r: String)
    ensures
        r@ == join(sv(parts@), sep@),
{
    let mut out = String::new();
    let mut i: usize = 0;
    while i < parts.len()
        invariant
            i <= parts.len(),
            out@ == join(sv(parts@).take(i as int), sep@),
        decreases parts.len() - i,
    {
        proof {
            lemma_join_push(sv(parts@).take(i as int), sep@, parts@[i as int]@);
            assert(sv(parts@).take(i + 1) =~= sv(parts@).take(i as int).push(parts@[i as int]@));
        }
        if i > 0 {
            push_str(&mut out, sep);
        }
        push_str(&mut out, parts[i].as_str());
        i += 1;
    }
    assert(sv(parts@).take(parts.len() as int) =~= sv(parts@));
    out
}

/// The runs of non-separator characters of `s`.
pub fn split_tokens(s: &str, k: Sep) -> (r: Vec<String>)
    ensures
        sv(r@) == tokens(s@, k),
{
    let v = chars_of(s);
    let mut done: Vec<String> = Vec::new();
    let mut cur = String::new();
    let mut i: usize = 0;
    while i < v.len()
        invariant
            i <= v.len(),
            v@ == s@,
            (sv(done@), cur@) == tokens_fold(v@.take(i as int), k),
        decreases v.len() - i,
    {
        let c = v[i];
        assert(v@.take(i + 1).drop_last() =~= v@.take(i as int));
        let sep = match k {
            Sep::Whitespace => is_whitespace(c),
            Sep::NotAlnum => !is_alnum(c),
            Sep::NotWordChar => !(is_alnum(c) || c == '-' || c == '_'),
        };
        if sep {
            if !cur.as_str().is_empty() {
                let finished = cur;
                done.push(finished);
                cur = String::new();
                assert(sv(done@) =~= sv(done@.drop_last()).push(done@.last()@));
            }
        } else {
            push_char(&mut cur, c);
        }
        i += 1;
    }
    assert(v@.take(v.len() as int) =~= v@);
    if !cur.as_str().is_empty() {
        done.push(cur);
        assert(sv(done@) =~= sv(done@.drop_last()).push(done@.last()@));
    }
    done
}

pub fn split_whitespace(s: &str) -> (r: Vec<String>)
    ensures
        sv(r@) == words(s@),
{
    split_tokens(s, Sep::Whitespace)
}

/// Whitespace runs collapsed to single spaces, with none at either end.
pub fn sanitize(s: &str) -> (r: String)
    ensures
        r@ == sanitize_inline(s@),
{
    let ws = split_whitespace(s);
    let mut out = String::new();
    let mut i: usize = 0;
    while i < ws.len()
        invariant
            i <= ws.len(),
            out@ == join(sv(ws@).take(i as int), seq![' ']),
        decreases ws.len() - i,
    {
        proof {
            lemma_join_push(sv(ws@).take(i as int), seq![' '], ws@[i as int]@);
            assert(sv(ws@).take(i + 1) =~= sv(ws@).take(i as int).push(ws@[i as int]@));
        }
        if i > 0 {
            push_char(&mut out, ' ');
        }
        push_str(&mut out, ws[i].as_str());
        i += 1;
    }
    assert(sv(ws@).take(ws.len() as int) =~= sv(ws@));
    out
}

/// `str::lines`.
pub fn split_lines(s: &str) -> (r: Vec<String>)
    ensures
        sv(r@) == lines(s@),
{
    let v = chars_of(s);
    let mut done: Vec<String> = Vec::new();
    let mut cur: Vec<char> = Vec::new();
    let mut i: usize = 0;
    while i < v.len()
        invariant
            i <= v.len(),
            v@ == s@,
            (sv(done@), cur@) == lines_fold(v@.take(i as int)),
        decreases v.len() - i,
    {
        let c = v[i];
        assert(v@.take(i + 1).drop_last() =~= v@.take(i as int));
        if c == '\n' {
            let n = cur.len();
            let line = if n > 0 && cur[n - 1] == '\r' {
                substring(&cur, 0, n - 1)
            } else {
                substring(&cur, 0, n)
            };
            assert(cur@.subrange(0, n as int) =~= cur@);
            assert(cur@.subrange(0, n - 1) =~= cur@.drop_last());
            done.push(line);
            cur = Vec::new();
            assert(sv(done@) =~= sv(done@.drop_last()).push(done@.last()@));
        } else {
            cur.push(c);
        }
        i += 1;
    }
    assert(v@.take(v.len() as int) =~= v@);
    if cur.len() > 0 {
        let line = string_of(&cur);
        done.push(line);
        assert(sv(done@) =~= sv(done@.drop_last()).push(done@.last()@));
    }
    done
}

pub fn digit(d: u64) -> (c: char)
    requires
        d < 10,
    ensures
        c == digit_char(d as nat),
{
    let b: u8 = 48 + d as u8;
    b as char
}

pub fn u64_to_string(n: u64) -> (r: String)
    ensures
        r@ == dec(n as nat),
    decreases n,
{
    if n < 10 {
        let mut r = String::new();
        push_char(&mut r, digit(n));
        r
    } else {
        let mut r = u64_to_string(n / 10);
        push_char(&mut r, digit(n % 10));
        r
    }
}

pub fn i64_to_string(n: i64) -> (r: String)
    ensures
        r@ == int_dec(n as int),
{
    if n < 0 {
        let m: u64 = if n == i64::MIN {
            9223372036854775808u64
        } else {
            (-n) as u64
        };
        let digits = u64_to_string(m);
        let mut r = String::new();
        push_char(&mut r, '-');
        push_str(&mut r, digits.as_str());
        r
    } else {
        u64_to_string(n as u64)
    }
}

/// Compares two strings as `Ord` for `String` does.
pub fn order_strings(a: &str, b: &str) -> (r: i8)
    ensures
        r as int == lex_order(a@, b@),
        -1 <= r <= 1,
{
    let x = chars_of(a);
    let y = chars_of(b);
    let mut i: usize = 0;
    assert(x@.skip(0) =~= x@);
    assert(y@.skip(0) =~= y@);
    while i < x.len() && i < y.len() && x[i] == y[i]
        invariant
            i <= x.len(),
            i <= y.len(),
            lex_order(a@, b@) == lex_order(x@.skip(i as int), y@.skip(i as int)),
            x@ == a@,
            y@ == b@,
        decreases x.len() - i,
    {
        assert(x@.skip(i as int).drop_first() =~= x@.skip(i + 1));
        assert(y@.skip(i as int).drop_first() =~= y@.skip(i + 1));
        i += 1;
    }
    proof {
        let xs = x@.skip(i as int);
        let ys = y@.skip(i as int);
        assert(xs.len() == x.len() - i);
        assert(ys.len() == y.len() - i);
        if i < x.len() && i < y.len() {
            assert(xs[0] == x@[i as int]);
            assert(ys[0] == y@[i as int]);
            assert(x@[i as int] != y@[i as int]);
        }
    }
    if i == x.len() {
        if i == y.len() {
            0
        } else {
            -1
        }
    } else if i == y.len() {
        1
    } else if x[i] < y[i] {
        -1
    } else {
        1
    }
}

} // verus!
