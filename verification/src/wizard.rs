//! The loop-creation wizard: its steps and fields, and the checks each step
//! makes before the wizard moves on.
use vstd::prelude::*;

use crate::app::{WizardState, WizardValues};
use crate::guide::cut_rows;
use crate::markdown::trim_to_width;
use crate::text::{
    chars_of, concat, copy_string, dec, ends_with, is_ascii_digit, lower, push_str, str_eq, sv, trim,
    trim_str, u64_to_string,
};

verus! {

pub open spec fn field_count_spec(step: usize) -> usize {
    if step == 1 {
        3
    } else if step == 2 {
        2
    } else if step == 3 {
        6
    } else {
        0
    }
}

/// How many fields a wizard step has.
pub fn wizard_field_count(step: usize) -> (r: usize)
    ensures
        r == field_count_spec(step),
{
    match step {
        1 => 3,
        2 => 2,
        3 => 6,
        _ => 0,
    }
}

/// The key of a field of a step.
pub open spec fn field_key_spec(step: usize, field: usize) -> Option<Seq<char>> {
    if step == 1 {
        if field == 0 {
            Some("name"@)
        } else if field == 1 {
            Some("name_prefix"@)
        } else if field == 2 {
            Some("count"@)
        } else {
            None
        }
    } else if step == 2 {
        if field == 0 {
            Some("pool"@)
        } else if field == 1 {
            Some("profile"@)
        } else {
            None
        }
    } else if step == 3 {
        if field == 0 {
            Some("prompt"@)
        } else if field == 1 {
            Some("prompt_msg"@)
        } else if field == 2 {
            Some("interval"@)
        } else if field == 3 {
            Some("max_runtime"@)
        } else if field == 4 {
            Some("max_iterations"@)
        } else if field == 5 {
            Some("tags"@)
        } else {
            None
        }
    } else {
        None
    }
}

pub open spec fn opt_str_view(r: Option<&str>) -> Option<Seq<char>> {
    match r {
        Some(s) => Some(s@),
        None => None,
    }
}

pub fn wizard_field_key(step: usize, field: usize) -> (r: Option<&'static str>)
    ensures
        opt_str_view(r) == field_key_spec(step, field),
{
    match step {
        1 => match field {
            0 => Some("name"),
            1 => Some("name_prefix"),
            2 => Some("count"),
            _ => None,
        },
        2 => match field {
            0 => Some("pool"),
            1 => Some("profile"),
            _ => None,
        },
        3 => match field {
            0 => Some("prompt"),
            1 => Some("prompt_msg"),
            2 => Some("interval"),
            3 => Some("max_runtime"),
            4 => Some("max_iterations"),
            5 => Some("tags"),
            _ => None,
        },
        _ => None,
    }
}

/// The value of the field a key names; empty for an unknown key.
pub open spec fn wizard_get_spec(v: WizardValues, key: Seq<char>) -> Seq<char> {
    if key == "name"@ {
        v.name@
    } else if key == "name_prefix"@ {
        v.name_prefix@
    } else if key == "count"@ {
        v.count@
    } else if key == "pool"@ {
        v.pool@
    } else if key == "profile"@ {
        v.profile@
    } else if key == "prompt"@ {
        v.prompt@
    } else if key == "prompt_msg"@ {
        v.prompt_msg@
    } else if key == "interval"@ {
        v.interval@
    } else if key == "max_runtime"@ {
        v.max_runtime@
    } else if key == "max_iterations"@ {
        v.max_iterations@
    } else if key == "tags"@ {
        v.tags@
    } else {
        Seq::empty()
    }
}

pub fn wizard_get<'a>(values: &'a WizardValues, key: &str) -> (r: &'a str)
    ensures
        r@ == wizard_get_spec(*values, key@),
{
    if str_eq(key, "name") {
        values.name.as_str()
    } else if str_eq(key, "name_prefix") {
        values.name_prefix.as_str()
    } else if str_eq(key, "count") {
        values.count.as_str()
    } else if str_eq(key, "pool") {
        values.pool.as_str()
    } else if str_eq(key, "profile") {
        values.profile.as_str()
    } else if str_eq(key, "prompt") {
        values.prompt.as_str()
    } else if str_eq(key, "prompt_msg") {
        values.prompt_msg.as_str()
    } else if str_eq(key, "interval") {
        values.interval.as_str()
    } else if str_eq(key, "max_runtime") {
        values.max_runtime.as_str()
    } else if str_eq(key, "max_iterations") {
        values.max_iterations.as_str()
    } else if str_eq(key, "tags") {
        values.tags.as_str()
    } else {
        proof {
            reveal_strlit("");
        }
        ""
    }
}

/// Every field of `a` and `b` has the same value, except perhaps the one
/// `key` names.
pub open spec fn same_except(a: WizardValues, b: WizardValues, key: Seq<char>) -> bool {
    &&& (key != "name"@ ==> a.name@ == b.name@)
    &&& (key != "name_prefix"@ ==> a.name_prefix@ == b.name_prefix@)
    &&& (key != "count"@ ==> a.count@ == b.count@)
    &&& (key != "pool"@ ==> a.pool@ == b.pool@)
    &&& (key != "profile"@ ==> a.profile@ == b.profile@)
    &&& (key != "prompt"@ ==> a.prompt@ == b.prompt@)
    &&& (key != "prompt_msg"@ ==> a.prompt_msg@ == b.prompt_msg@)
    &&& (key != "interval"@ ==> a.interval@ == b.interval@)
    &&& (key != "max_runtime"@ ==> a.max_runtime@ == b.max_runtime@)
    &&& (key != "max_iterations"@ ==> a.max_iterations@ == b.max_iterations@)
    &&& (key != "tags"@ ==> a.tags@ == b.tags@)
}

pub open spec fn is_field_key(key: Seq<char>) -> bool {
    key == "name"@ || key == "name_prefix"@ || key == "count"@ || key == "pool"@ || key
        == "profile"@ || key == "prompt"@ || key == "prompt_msg"@ || key == "interval"@ || key
        == "max_runtime"@ || key == "max_iterations"@ || key == "tags"@
}

/// Sets the field a key names; an unknown key changes nothing.
pub fn wizard_set(values: &mut WizardValues, key: &str, value: String)
    ensures
        same_except(*old(values), *final(values), key@),
        is_field_key(key@) ==> wizard_get_spec(*final(values), key@) == value@,
        !is_field_key(key@) ==> same_except(*old(values), *final(values), Seq::empty()),
{
    if str_eq(key, "name") {
        values.name = value;
    } else if str_eq(key, "name_prefix") {
        values.name_prefix = value;
    } else if str_eq(key, "count") {
        values.count = value;
    } else if str_eq(key, "pool") {
        values.pool = value;
    } else if str_eq(key, "profile") {
        values.profile = value;
    } else if str_eq(key, "prompt") {
        values.prompt = value;
    } else if str_eq(key, "prompt_msg") {
        values.prompt_msg = value;
    } else if str_eq(key, "interval") {
        values.interval = value;
    } else if str_eq(key, "max_runtime") {
        values.max_runtime = value;
    } else if str_eq(key, "max_iterations") {
        values.max_iterations = value;
    } else if str_eq(key, "tags") {
        values.tags = value;
    }
}

// ---------------------------------------------------------------------------
// Number syntax
// ---------------------------------------------------------------------------

pub open spec fn all_digits(s: Seq<char>) -> bool {
    forall|i: int| 0 <= i < s.len() ==> is_ascii_digit(#[trigger] s[i])
}

/// The value of a string of decimal digits.
pub open spec fn digits_value(s: Seq<char>) -> int
    decreases s.len(),
{
    if s.len() == 0 {
        0
    } else {
        10 * digits_value(s.drop_last()) + (s.last() as int - 48)
    }
}

pub open spec fn is_sign(c: char) -> bool {
    c == '+' || c == '-'
}

/// The `i64` a string denotes as `str::parse::<i64>` reads it: an optional
/// sign, then one or more ASCII digits, within the range of `i64`.
pub open spec fn parse_i64_spec(s: Seq<char>) -> Option<int> {
    let signed = s.len() > 0 && is_sign(s[0]);
    let digits = if signed {
        s.drop_first()
    } else {
        s
    };
    let negative = signed && s[0] == '-';
    if digits.len() == 0 || !all_digits(digits) {
        None
    } else {
        let v = if negative {
            -digits_value(digits)
        } else {
            digits_value(digits)
        };
        if i64::MIN <= v <= i64::MAX {
            Some(v)
        } else {
            None
        }
    }
}

/// Digits of a mantissa: at most one `.`, everything else ASCII digits, and
/// at least one digit.
pub open spec fn is_mantissa(m: Seq<char>) -> bool {
    &&& forall|i: int| 0 <= i < m.len() ==> is_ascii_digit(#[trigger] m[i]) || m[i] == '.'
    &&& forall|i: int, j: int| 0 <= i < j < m.len() && #[trigger] m[i] == '.' ==> #[trigger] m[j] != '.'
    &&& exists|i: int| 0 <= i < m.len() && is_ascii_digit(#[trigger] m[i])
}

/// An exponent body: an optional sign and one or more ASCII digits.
pub open spec fn is_exponent(e: Seq<char>) -> bool {
    let d = if e.len() > 0 && is_sign(e[0]) {
        e.drop_first()
    } else {
        e
    };
    d.len() > 0 && all_digits(d)
}

pub open spec fn is_exp_mark(c: char) -> bool {
    c == 'e' || c == 'E'
}

/// A number: a mantissa, then optionally `e` or `E` and an exponent.
pub open spec fn is_decimal_number(t: Seq<char>) -> bool {
    if exists|i: int| 0 <= i < t.len() && is_exp_mark(#[trigger] t[i]) {
        let k = choose|i: int|
            0 <= i < t.len() && is_exp_mark(#[trigger] t[i]) && forall|j: int|
                0 <= j < i ==> !is_exp_mark(#[trigger] t[j]);
        is_mantissa(t.take(k)) && is_exponent(t.skip(k + 1))
    } else {
        is_mantissa(t)
    }
}

/// The syntax `f64::from_str` accepts, as std documents it: an optional
/// sign, then `inf`, `infinity` or `nan` in any case, or a number.
pub open spec fn is_float_syntax(s: Seq<char>) -> bool {
    let t = if s.len() > 0 && is_sign(s[0]) {
        s.drop_first()
    } else {
        s
    };
    lower(t) == "inf"@ || lower(t) == "infinity"@ || lower(t) == "nan"@ || is_decimal_number(t)
}

proof fn lemma_digits_value_push(s: Seq<char>, c: char)
    ensures
        digits_value(s.push(c)) == 10 * digits_value(s) + (c as int - 48),
{
    assert(s.push(c).drop_last() =~= s);
}

proof fn lemma_digits_value_nonneg(s: Seq<char>)
    requires
        all_digits(s),
    ensures
        digits_value(s) >= 0,
    decreases s.len(),
{
    if s.len() > 0 {
        assert(all_digits(s.drop_last())) by {
            assert forall|i: int| 0 <= i < s.drop_last().len() implies is_ascii_digit(
                #[trigger] s.drop_last()[i],
            ) by {
                assert(s.drop_last()[i] == s[i]);
            }
        }
        lemma_digits_value_nonneg(s.drop_last());
        assert(is_ascii_digit(s[s.len() - 1]));
    }
}

/// The value of `digits`, or `None` once it exceeds `limit`.
fn digits_upto(v: &Vec<char>, from: usize, limit: u64) -> (r: Option<u64>)
    requires
        from <= v.len(),
        all_digits(v@.skip(from as int)),
    ensures
        match r {
            Some(x) => x as int == digits_value(v@.skip(from as int)) && x <= limit,
            None => digits_value(v@.skip(from as int)) > limit,
        },
{
    let ghost d = v@.skip(from as int);
    let mut acc: u128 = 0;
    let mut i: usize = from;
    assert(d.take(0) =~= Seq::<char>::empty());
    while i < v.len()
        invariant
            from <= i <= v.len(),
            d == v@.skip(from as int),
            all_digits(d),
            acc <= limit,
            acc as int == digits_value(d.take(i - from)),
        decreases v.len() - i,
    {
        assert(is_ascii_digit(d[i - from]));
        assert(d[i - from] == v@[i as int]);
        let dig: u128 = (v[i] as u32 - 48) as u128;
        proof {
            lemma_digits_value_push(d.take(i - from), d[i - from]);
            assert(d.take(i - from + 1) =~= d.take(i - from).push(d[i - from]));
        }
        acc = acc * 10 + dig;
        i += 1;
        if acc > limit as u128 {
            proof {
                lemma_digits_grow(d, (i - from) as int);
            }
            return None;
        }
    }
    assert(d.take(i - from) =~= d);
    Some(acc as u64)
}

/// Appending digits never makes a decimal value smaller.
proof fn lemma_digits_grow(d: Seq<char>, k: int)
    requires
        0 <= k <= d.len(),
        all_digits(d),
    ensures
        digits_value(d) >= digits_value(d.take(k)),
    decreases d.len() - k,
{
    if k < d.len() {
        lemma_digits_grow(d, k + 1);
        lemma_digits_value_push(d.take(k), d[k]);
        assert(d.take(k + 1) =~= d.take(k).push(d[k]));
        assert(all_digits(d.take(k))) by {
            assert forall|i: int| 0 <= i < d.take(k).len() implies is_ascii_digit(
                #[trigger] d.take(k)[i],
            ) by {
                assert(d.take(k)[i] == d[i]);
            }
        }
        lemma_digits_value_nonneg(d.take(k));
        assert(is_ascii_digit(d[k]));
    } else {
        assert(d.take(k) =~= d);
    }
}

fn all_digits_from(v: &Vec<char>, from: usize) -> (r: bool)
    requires
        from <= v.len(),
    ensures
        r == all_digits(v@.skip(from as int)),
{
    let mut i: usize = from;
    while i < v.len()
        invariant
            from <= i <= v.len(),
            forall|k: int| from <= k < i ==> is_ascii_digit(#[trigger] v@[k]),
        decreases v.len() - i,
    {
        if !('0' <= v[i] && v[i] <= '9') {
            assert(v@.skip(from as int)[i - from] == v@[i as int]);
            return false;
        }
        i += 1;
    }
    assert forall|k: int| 0 <= k < v@.skip(from as int).len() implies is_ascii_digit(
        #[trigger] v@.skip(from as int)[k],
    ) by {
        assert(v@.skip(from as int)[k] == v@[k + from]);
    }
    true
}

/// `str::parse::<i64>`.
pub fn parse_i64(s: &str) -> (r: Option<i64>)
    ensures
        match r {
            Some(v) => parse_i64_spec(s@) == Some(v as int),
            None => parse_i64_spec(s@) is None,
        },
{
    let v = chars_of(s);
    let signed = v.len() > 0 && (v[0] == '+' || v[0] == '-');
    let negative = signed && v[0] == '-';
    let from: usize = if signed {
        1
    } else {
        0
    };
    assert(v@.skip(1) =~= v@.drop_first());
    assert(v@.skip(0) =~= v@);
    if from == v.len() || !all_digits_from(&v, from) {
        return None;
    }
    let limit: u64 = if negative {
        9223372036854775808
    } else {
        9223372036854775807
    };
    match digits_upto(&v, from, limit) {
        None => None,
        Some(x) => {
            if negative {
                if x == 9223372036854775808 {
                    Some(i64::MIN)
                } else {
                    Some(-(x as i64))
                }
            } else {
                Some(x as i64)
            }
        },
    }
}

fn is_mantissa_exec(v: &Vec<char>, from: usize, to: usize) -> (r: bool)
    requires
        from <= to <= v.len(),
    ensures
        r == is_mantissa(v@.subrange(from as int, to as int)),
{
    let ghost m = v@.subrange(from as int, to as int);
    let mut dots: usize = 0;
    let mut digits: usize = 0;
    let mut i: usize = from;
    let mut dot_at: usize = 0;
    while i < to
        invariant
            from <= i <= to <= v.len(),
            m == v@.subrange(from as int, to as int),
            dots <= 1,
            forall|k: int| 0 <= k < i - from ==> is_ascii_digit(#[trigger] m[k]) || m[k] == '.',
            dots == 0 ==> forall|k: int| 0 <= k < i - from ==> #[trigger] m[k] != '.',
            dots == 1 ==> from <= dot_at < i && m[dot_at - from] == '.' && forall|k: int|
                0 <= k < i - from && k != dot_at - from ==> #[trigger] m[k] != '.',
            digits == 0 ==> forall|k: int| 0 <= k < i - from ==> !is_ascii_digit(#[trigger] m[k]),
            digits > 0 ==> exists|k: int| 0 <= k < i - from && is_ascii_digit(#[trigger] m[k]),
            digits <= i - from,
        decreases to - i,
    {
        let c = v[i];
        assert(m[i - from] == c);
        if c == '.' {
            if dots == 1 {
                assert(m[dot_at - from] == '.' && m[i - from] == '.');
                return false;
            }
            dots = 1;
            dot_at = i;
        } else if '0' <= c && c <= '9' {
            digits = digits + 1;
        } else {
            return false;
        }
        i += 1;
    }
    digits > 0
}

fn is_exponent_exec(v: &Vec<char>, from: usize) -> (r: bool)
    requires
        from <= v.len(),
    ensures
        r == is_exponent(v@.skip(from as int)),
{
    let ghost e = v@.skip(from as int);
    let start = if from < v.len() && (v[from] == '+' || v[from] == '-') {
        from + 1
    } else {
        from
    };
    if from < v.len() {
        assert(e[0] == v@[from as int]);
        assert(e.drop_first() =~= v@.skip(from + 1));
    }
    start < v.len() && all_digits_from(v, start)
}

/// Whether `f64::from_str` accepts `s` (its documented grammar).
pub fn is_float(s: &str) -> (r: bool)
    ensures
        r == is_float_syntax(s@),
{
    let v = chars_of(s);
    let from: usize = if v.len() > 0 && (v[0] == '+' || v[0] == '-') {
        1
    } else {
        0
    };
    assert(v@.skip(1) =~= v@.drop_first());
    assert(v@.skip(0) =~= v@);
    let ghost t = v@.skip(from as int);
    let rest = crate::text::substring(&v, from, v.len());
    let low = crate::text::lowercase(rest.as_str());
    if str_eq(low.as_str(), "inf") || str_eq(low.as_str(), "infinity") || str_eq(
        low.as_str(),
        "nan",
    ) {
        return true;
    }
    let mut k: usize = from;
    while k < v.len() && !(v[k] == 'e' || v[k] == 'E')
        invariant
            from <= k <= v.len(),
            t == v@.skip(from as int),
            forall|j: int| 0 <= j < k - from ==> !is_exp_mark(#[trigger] t[j]),
        decreases v.len() - k,
    {
        assert(t[k - from] == v@[k as int]);
        k += 1;
    }
    if k < v.len() {
        assert(t[k - from] == v@[k as int]);
        assert(is_exp_mark(t[k - from]));
        let ghost kk = choose|i: int|
            0 <= i < t.len() && is_exp_mark(#[trigger] t[i]) && forall|j: int|
                0 <= j < i ==> !is_exp_mark(#[trigger] t[j]);
        assert(kk == k - from) by {
            if kk < k - from {
                assert(!is_exp_mark(t[kk]));
            } else if kk > k - from {
                assert(!is_exp_mark(t[k - from]));
            }
        }
        assert(t.take(k - from) =~= v@.subrange(from as int, k as int));
        assert(t.skip(k - from + 1) =~= v@.skip(k + 1));
        is_mantissa_exec(&v, from, k) && is_exponent_exec(&v, k + 1)
    } else {
        assert(t =~= v@.subrange(from as int, v.len() as int));
        is_mantissa_exec(&v, from, v.len())
    }
}

// ---------------------------------------------------------------------------
// Step validation
// ---------------------------------------------------------------------------

/// What `format!("{:?}", s)` renders for a string: `s` quoted, with the
/// characters `str`'s `Debug` escapes escaped.
pub uninterp spec fn debug_quoted_spec(s: Seq<char>) -> Seq<char>;

/// `format!("{:?}", s)` for a string slice.
#[verifier::external_body]
fn debug_quoted(s: &str) -> (r: String)
    ensures
        r@ == debug_quoted_spec(s@),
{
    format!("{s:?}")
}

/// The error for an invalid duration field.
pub open spec fn invalid_field(field: Seq<char>, raw: Seq<char>) -> Seq<char> {
    "invalid "@ + field + " "@ + debug_quoted_spec(raw)
}

/// The number and the unit of a duration value: an `ms`, `s`, `m` or `h`
/// suffix, or seconds when it has none.
pub open spec fn duration_number(v: Seq<char>) -> Seq<char> {
    if ends_with(v, "ms"@) {
        v.take(v.len() - 2)
    } else if ends_with(v, "s"@) || ends_with(v, "m"@) || ends_with(v, "h"@) {
        v.take(v.len() - 1)
    } else {
        v
    }
}

/// A duration field is blank or a non-negative number with an optional unit.
pub open spec fn duration_check(raw: Seq<char>, field: Seq<char>) -> Result<(), Seq<char>> {
    let v = trim(raw);
    if v.len() == 0 {
        Ok(())
    } else if v[0] == '-' {
        Err(field + " must be >= 0"@)
    } else {
        let n = trim(duration_number(v));
        if n.len() == 0 || !is_float_syntax(n) {
            Err(invalid_field(field, raw))
        } else {
            Ok(())
        }
    }
}

pub open spec fn unit_view(r: Result<(), String>) -> Result<(), Seq<char>> {
    match r {
        Ok(()) => Ok(()),
        Err(e) => Err(e@),
    }
}

pub fn parse_duration_value(raw: &str, field: &str) -> (r: Result<(), String>)
    ensures
        unit_view(r) == duration_check(raw@, field@),
{
    proof {
        reveal_strlit("ms");
        reveal_strlit("s");
        reveal_strlit("m");
        reveal_strlit("h");
    }
    let value = trim_str(raw);
    let v = chars_of(value.as_str());
    if v.len() == 0 {
        return Ok(());
    }
    if v[0] == '-' {
        return Err(concat(field, " must be >= 0"));
    }
    let number = if crate::text::str_ends_with(value.as_str(), "ms") {
        crate::text::substring(&v, 0, v.len() - 2)
    } else if crate::text::str_ends_with(value.as_str(), "s") || crate::text::str_ends_with(
        value.as_str(),
        "m",
    ) || crate::text::str_ends_with(value.as_str(), "h") {
        crate::text::substring(&v, 0, v.len() - 1)
    } else {
        crate::text::substring(&v, 0, v.len())
    };
    proof {
        if v.len() >= 2 {
            assert(v@.subrange(0, v.len() - 2) =~= v@.take(v.len() - 2));
        }
        assert(v@.subrange(0, v.len() - 1) =~= v@.take(v.len() - 1));
        assert(v@.subrange(0, v.len() as int) =~= v@);
    }
    let n = trim_str(number.as_str());
    if n.as_str().is_empty() || !is_float(n.as_str()) {
        let mut msg = concat("invalid ", field);
        push_str(&mut msg, " ");
        push_str(&mut msg, debug_quoted(raw).as_str());
        return Err(msg);
    }
    Ok(())
}

/// The check a wizard step makes before the wizard moves past it.
pub open spec fn step_check(step: usize, v: WizardValues) -> Result<(), Seq<char>> {
    if step == 1 {
        let count_raw = if trim(v.count@).len() == 0 {
            "1"@
        } else {
            trim(v.count@)
        };
        match parse_i64_spec(count_raw) {
            None => Err("invalid count "@ + debug_quoted_spec(v.count@)),
            Some(count) => if count < 1 {
                Err("count must be >= 1"@)
            } else if trim(v.name@).len() > 0 && trim(v.count@).len() > 0 && count > 1 {
                Err("name requires count=1"@)
            } else {
                Ok(())
            },
        }
    } else if step == 2 {
        if trim(v.pool@).len() > 0 && trim(v.profile@).len() > 0 {
            Err("use either pool or profile, not both"@)
        } else {
            Ok(())
        }
    } else if step == 3 {
        match duration_check(v.interval@, "interval"@) {
            Err(e) => Err(e),
            Ok(()) => match duration_check(v.max_runtime@, "max runtime"@) {
                Err(e) => Err(e),
                Ok(()) => if trim(v.max_iterations@).len() > 0 {
                    match parse_i64_spec(trim(v.max_iterations@)) {
                        None => Err("invalid max-iterations "@ + debug_quoted_spec(v.max_iterations@)),
                        Some(n) => if n < 0 {
                            Err("max-iterations must be >= 0"@)
                        } else {
                            Ok(())
                        },
                    }
                } else {
                    Ok(())
                },
            },
        }
    } else {
        Ok(())
    }
}

pub fn validate_wizard_step(step: usize, values: &WizardValues) -> (r: Result<(), String>)
    ensures
        unit_view(r) == step_check(step, *values),
{
    match step {
        1 => {
            let trimmed_count = trim_str(values.count.as_str());
            let count_raw = if trimmed_count.as_str().is_empty() {
                copy_string("1")
            } else {
                trimmed_count
            };
            let count = match parse_i64(count_raw.as_str()) {
                Some(c) => c,
                None => {
                    return Err(concat("invalid count ", debug_quoted(values.count.as_str()).as_str()));
                },
            };
            if count < 1 {
                return Err(copy_string("count must be >= 1"));
            }
            let name = trim_str(values.name.as_str());
            let count_trimmed = trim_str(values.count.as_str());
            if !name.as_str().is_empty() && !count_trimmed.as_str().is_empty() && count > 1 {
                return Err(copy_string("name requires count=1"));
            }
        },
        2 => {
            let pool = trim_str(values.pool.as_str());
            let profile = trim_str(values.profile.as_str());
            if !pool.as_str().is_empty() && !profile.as_str().is_empty() {
                return Err(copy_string("use either pool or profile, not both"));
            }
        },
        3 => {
            match parse_duration_value(values.interval.as_str(), "interval") {
                Err(e) => {
                    return Err(e);
                },
                Ok(()) => {},
            }
            match parse_duration_value(values.max_runtime.as_str(), "max runtime") {
                Err(e) => {
                    return Err(e);
                },
                Ok(()) => {},
            }
            let iterations = trim_str(values.max_iterations.as_str());
            if !iterations.as_str().is_empty() {
                let parsed = match parse_i64(iterations.as_str()) {
                    Some(p) => p,
                    None => {
                        return Err(
                            concat(
                                "invalid max-iterations ",
                                debug_quoted(values.max_iterations.as_str()).as_str(),
                            ),
                        );
                    },
                };
                if parsed < 0 {
                    return Err(copy_string("max-iterations must be >= 0"));
                }
            }
        },
        _ => {},
    }
    Ok(())
}

// ---------------------------------------------------------------------------
// The wizard screen
// ---------------------------------------------------------------------------

/// A field as the wizard shows it: its label, its value (`<empty>` when
/// blank) and a cursor after the focused one.
pub open spec fn field_row(label: Seq<char>, value: Seq<char>, focused: bool) -> Seq<char> {
    label + ": "@ + (if trim(value).len() == 0 { "<empty>"@ } else { value }) + (if focused {
        "_"@
    } else {
        Seq::empty()
    })
}

fn field_line(label: &str, value: &str, focused: bool) -> (r: String)
    ensures
        r@ == field_row(label@, value@, focused),
{
    let mut r = concat(label, ": ");
    if trim_str(value).as_str().is_empty() {
        push_str(&mut r, "<empty>");
    } else {
        push_str(&mut r, value);
    }
    if focused {
        push_str(&mut r, "_");
    }
    r
}

/// The step shown: the wizard's step kept within 1 to 4.
pub open spec fn shown_step(step: usize) -> usize {
    if step < 1 {
        1
    } else if step > 4 {
        4
    } else {
        step
    }
}

pub open spec fn review_row(label: Seq<char>, value: Seq<char>) -> Seq<char> {
    "  "@ + label + "="@ + debug_quoted_spec(value)
}

/// The rows of the current step: its fields, or on the last step the
/// review of every value.
pub open spec fn step_rows(w: WizardState) -> Seq<Seq<char>> {
    let v = w.values;
    let f = w.field;
    let step = shown_step(w.step);
    if step == 1 {
        seq![
            field_row("name"@, v.name@, f == 0),
            field_row("name-prefix"@, v.name_prefix@, f == 1),
            field_row("count"@, v.count@, f == 2),
        ]
    } else if step == 2 {
        seq![field_row("pool"@, v.pool@, f == 0), field_row("profile"@, v.profile@, f == 1)]
    } else if step == 3 {
        seq![
            field_row("prompt"@, v.prompt@, f == 0),
            field_row("prompt-msg"@, v.prompt_msg@, f == 1),
            field_row("interval"@, v.interval@, f == 2),
            field_row("max-runtime"@, v.max_runtime@, f == 3),
            field_row("max-iterations"@, v.max_iterations@, f == 4),
            field_row("tags"@, v.tags@, f == 5),
        ]
    } else {
        seq![
            "Review:"@,
            review_row("name"@, v.name@),
            review_row("name-prefix"@, v.name_prefix@),
            review_row("count"@, v.count@),
            review_row("pool"@, v.pool@),
            review_row("profile"@, v.profile@),
            review_row("prompt"@, v.prompt@),
            review_row("prompt-msg"@, v.prompt_msg@),
            review_row("interval"@, v.interval@),
            review_row("max-runtime"@, v.max_runtime@),
            review_row("max-iterations"@, v.max_iterations@),
            review_row("tags"@, v.tags@),
        ]
    }
}

/// The wizard screen before cutting: a title with the step, the step
/// list, the current step's rows, the keys, and the error when there is
/// one.
pub open spec fn wizard_screen_spec(w: WizardState) -> Seq<Seq<char>> {
    seq![
        "New loop wizard (step "@ + dec(shown_step(w.step) as nat) + "/4)"@,
        "1) Identity+Count  2) Pool/Profile  3) Prompt+Runtime  4) Review+Submit"@,
        Seq::<char>::empty(),
    ] + step_rows(w) + seq![
        Seq::<char>::empty(),
        "tab/down/up navigate fields, enter next/submit, b back, esc cancel"@,
    ] + (if w.error@.len() == 0 {
        Seq::empty()
    } else {
        seq!["Error: "@ + w.error@]
    })
}

fn push_line(rows: &mut Vec<String>, row: String)
    ensures
        sv(final(rows)@) == sv(old(rows)@).push(row@),
{
    rows.push(row);
    assert(sv(rows@) =~= sv(old(rows)@).push(row@));
}

fn review_line(label: &str, value: &str) -> (r: String)
    ensures
        r@ == review_row(label@, value@),
{
    let mut r = concat("  ", label);
    push_str(&mut r, "=");
    push_str(&mut r, debug_quoted(value).as_str());
    r
}

fn step_lines(w: &WizardState, rows: &mut Vec<String>)
    ensures
        sv(final(rows)@) == sv(old(rows)@) + step_rows(*w),
{
    let ghost start = sv(rows@);
    let v = &w.values;
    let f = w.field;
    let step = if w.step < 1 { 1 } else if w.step > 4 { 4 } else { w.step };
    if step == 1 {
        push_line(rows, field_line("name", v.name.as_str(), f == 0));
        push_line(rows, field_line("name-prefix", v.name_prefix.as_str(), f == 1));
        push_line(rows, field_line("count", v.count.as_str(), f == 2));
    } else if step == 2 {
        push_line(rows, field_line("pool", v.pool.as_str(), f == 0));
        push_line(rows, field_line("profile", v.profile.as_str(), f == 1));
    } else if step == 3 {
        push_line(rows, field_line("prompt", v.prompt.as_str(), f == 0));
        push_line(rows, field_line("prompt-msg", v.prompt_msg.as_str(), f == 1));
        push_line(rows, field_line("interval", v.interval.as_str(), f == 2));
        push_line(rows, field_line("max-runtime", v.max_runtime.as_str(), f == 3));
        push_line(rows, field_line("max-iterations", v.max_iterations.as_str(), f == 4));
        push_line(rows, field_line("tags", v.tags.as_str(), f == 5));
    } else {
        push_line(rows, copy_string("Review:"));
        push_line(rows, review_line("name", v.name.as_str()));
        push_line(rows, review_line("name-prefix", v.name_prefix.as_str()));
        push_line(rows, review_line("count", v.count.as_str()));
        push_line(rows, review_line("pool", v.pool.as_str()));
        push_line(rows, review_line("profile", v.profile.as_str()));
        push_line(rows, review_line("prompt", v.prompt.as_str()));
        push_line(rows, review_line("prompt-msg", v.prompt_msg.as_str()));
        push_line(rows, review_line("interval", v.interval.as_str()));
        push_line(rows, review_line("max-runtime", v.max_runtime.as_str()));
        push_line(rows, review_line("max-iterations", v.max_iterations.as_str()));
        push_line(rows, review_line("tags", v.tags.as_str()));
    }
    assert(sv(rows@) =~= start + step_rows(*w));
}

/// The wizard screen `width` columns wide: every row cut to the width.
pub fn wizard_lines(w: &WizardState, width: usize) -> (r: Vec<String>)
    ensures
        sv(r@) == cut_rows(wizard_screen_spec(*w), width as int),
{
    let step = if w.step < 1 { 1 } else if w.step > 4 { 4 } else { w.step };
    let mut rows: Vec<String> = Vec::new();
    let mut title = concat("New loop wizard (step ", u64_to_string(step as u64).as_str());
    push_str(&mut title, "/4)");
    push_line(&mut rows, title);
    push_line(&mut rows, copy_string("1) Identity+Count  2) Pool/Profile  3) Prompt+Runtime  4) Review+Submit"));
    push_line(&mut rows, String::new());
    step_lines(w, &mut rows);
    push_line(&mut rows, String::new());
    push_line(&mut rows, copy_string("tab/down/up navigate fields, enter next/submit, b back, esc cancel"));
    if !w.error.as_str().is_empty() {
        push_line(&mut rows, concat("Error: ", w.error.as_str()));
    }
    assert(sv(rows@) =~= wizard_screen_spec(*w));
    let ghost all = sv(rows@);
    let mut r: Vec<String> = Vec::new();
    let mut k: usize = 0;
    while k < rows.len()
        invariant
            k <= rows.len(),
            all == sv(rows@),
            sv(r@) == cut_rows(all, width as int).take(k as int),
        decreases rows.len() - k,
    {
        push_line(&mut r, trim_to_width(rows[k].as_str(), width));
        assert(cut_rows(all, width as int).take(k + 1) =~= cut_rows(all, width as int).take(k as int).push(
            cut_rows(all, width as int)[k as int],
        ));
        k += 1;
    }
    assert(sv(r@) =~= cut_rows(all, width as int));
    r
}

/// The first step (count and name): a blank count stands for one loop; a
/// count that parses to an integer of at least 1 is accepted when no name
/// is given; a name is refused only together with a count above 1, and the
/// error "name requires count=1" comes for nothing else.
pub proof fn law_first_step_counts_and_names(v: WizardValues)
    ensures
        trim(v.count@).len() == 0 ==> step_check(1, v) == Ok::<(), Seq<char>>(()),
        (trim(v.name@).len() == 0 && parse_i64_spec(trim(v.count@)) is Some && parse_i64_spec(trim(v.count@))->Some_0 >= 1) ==> step_check(
            1,
            v,
        ) == Ok::<(), Seq<char>>(()),
        (trim(v.name@).len() > 0 && parse_i64_spec(trim(v.count@)) is Some && parse_i64_spec(trim(v.count@))->Some_0 > 1) ==> step_check(
            1,
            v,
        ) == Err::<(), Seq<char>>("name requires count=1"@),
        step_check(1, v) == Err::<(), Seq<char>>("name requires count=1"@) ==> trim(v.name@).len() > 0 && parse_i64_spec(
            trim(v.count@),
        ) is Some && parse_i64_spec(trim(v.count@))->Some_0 > 1,
{
    reveal_strlit("1");
    reveal_strlit("name requires count=1");
    reveal_strlit("count must be >= 1");
    reveal_strlit("invalid count ");
    let one = "1"@;
    assert(one.len() == 1 && one[0] == '1');
    assert(!is_sign(one[0]));
    assert(all_digits(one));
    assert(one.drop_last().len() == 0);
    assert(digits_value(one.drop_last()) == 0);
    assert(one.last() == '1');
    assert(('1' as int) == 49);
    assert(digits_value(one) == 1);
    assert(parse_i64_spec(one) == Some(1int));
    let e = "name requires count=1"@;
    assert(e[0] == 'n');
    assert(("invalid count "@ + debug_quoted_spec(v.count@))[0] == 'i');
    assert("count must be >= 1"@.len() != e.len());
}

} // verus!
