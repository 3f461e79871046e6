//! Run times, written as numbers with units.
use crate::text::{
    all_digits, chars_of, concat3, decimal, decimal_string, is_ascii_digit, is_digit, is_space,
    lemma_decimal_digits, lemma_trim_fixed, number_of, parse_digits, trim, trim_of,
};
use vstd::prelude::*;
use vstd::string::*;

verus! {

/// How many seconds a unit stands for.
pub open spec fn unit_secs(unit: char) -> Option<nat> {
    if unit == 's' || unit == 'S' {
        Some(1)
    } else if unit == 'm' || unit == 'M' {
        Some(60)
    } else if unit == 'h' || unit == 'H' {
        Some(3_600)
    } else if unit == 'd' || unit == 'D' {
        Some(86_400)
    } else {
        None
    }
}

/// How many characters at the start of `s` are digits.
pub open spec fn digits_len(s: Seq<char>) -> nat
    decreases s.len(),
{
    if s.len() == 0 || !is_digit(s[0]) {
        0
    } else {
        1 + digits_len(s.drop_first())
    }
}

pub open spec fn invalid_message(raw: Seq<char>) -> Seq<char> {
    "invalid duration `"@ + raw + "`"@
}

pub open spec fn too_many_digits_message(raw: Seq<char>) -> Seq<char> {
    "invalid duration `"@ + raw + "`: number too large to fit in target type"@
}

pub open spec fn too_large_message(raw: Seq<char>) -> Seq<char> {
    "duration `"@ + raw + "` is too large"@
}

pub open spec fn trailing_message(raw: Seq<char>) -> Seq<char> {
    "invalid duration `"@ + raw + "`; trailing number needs a unit"@
}

pub open spec fn unit_message(raw: Seq<char>, unit: char) -> Seq<char> {
    "invalid duration unit `"@ + seq![unit] + "` in `"@ + raw + "`; use s, m, h, or d"@
}

/// The sum of `total` and of the numbers with units that `rest` is made of. `raw` is the text
/// that messages quote.
pub open spec fn segments_of(raw: Seq<char>, rest: Seq<char>, total: nat) -> Result<nat, Seq<char>>
    decreases rest.len(),
{
    let n = digits_len(rest);
    let value = number_of(rest.take(n as int));
    if rest.len() == 0 {
        Ok(total)
    } else if n >= rest.len() {
        Err(trailing_message(raw))
    } else if n == 0 {
        Err(invalid_message(raw))
    } else if value > u64::MAX {
        Err(too_many_digits_message(raw))
    } else {
        match unit_secs(rest[n as int]) {
            None => Err(unit_message(raw, rest[n as int])),
            Some(secs) => if value * secs > u64::MAX || total + value * secs > u64::MAX {
                Err(too_large_message(raw))
            } else {
                segments_of(raw, rest.skip(n as int + 1), total + value * secs)
            },
        }
    }
}

/// The number of seconds that a text stands for: a plain number of seconds, or numbers with units
/// that add up to more than nothing.
pub open spec fn duration_of(raw: Seq<char>) -> Result<nat, Seq<char>> {
    let text = trim_of(raw);
    if text.len() == 0 {
        Err("duration must not be empty"@)
    } else if all_digits(text) {
        if number_of(text) > u64::MAX {
            Err(too_many_digits_message(raw))
        } else {
            Ok(number_of(text))
        }
    } else {
        match segments_of(raw, text, 0) {
            Ok(total) => if total == 0 {
                Err(invalid_message(raw))
            } else {
                Ok(total)
            },
            Err(message) => Err(message),
        }
    }
}

/// A number of seconds in the largest unit that divides it.
pub open spec fn duration_text(secs: nat) -> Seq<char> {
    if secs % 86_400 == 0 {
        decimal(secs / 86_400) + "d"@
    } else if secs % 3_600 == 0 {
        decimal(secs / 3_600) + "h"@
    } else if secs % 60 == 0 {
        decimal(secs / 60) + "m"@
    } else {
        decimal(secs) + "s"@
    }
}

pub proof fn lemma_digits_len_is(s: Seq<char>, n: int)
    requires
        0 <= n <= s.len(),
        forall|k: int| 0 <= k < n ==> is_digit(#[trigger] s[k]),
        n < s.len() ==> !is_digit(s[n]),
    ensures
        digits_len(s) == n,
    decreases n,
{
    if n > 0 {
        let t = s.drop_first();
        assert forall|k: int| 0 <= k < n - 1 implies is_digit(#[trigger] t[k]) by {
            assert(t[k] == s[k + 1]);
        }
        lemma_digits_len_is(t, n - 1);
        assert(is_digit(s[0]));
    }
}

/// What a run time is written as is read as that run time.
pub proof fn law_duration_round_trip(secs: nat)
    requires
        0 < secs <= u64::MAX,
    ensures
        duration_of(duration_text(secs)) == Ok::<nat, Seq<char>>(secs),
{
    reveal_strlit("d");
    reveal_strlit("h");
    reveal_strlit("m");
    reveal_strlit("s");
    let text = duration_text(secs);
    let unit = text.last();
    let size = unit_secs(unit)->0;
    let value = if secs % 86_400 == 0 {
        secs / 86_400
    } else if secs % 3_600 == 0 {
        secs / 3_600
    } else if secs % 60 == 0 {
        secs / 60
    } else {
        secs
    };
    assert(value * size == secs);
    lemma_decimal_digits(value);
    let digits = decimal(value);
    let n = digits.len() as int;
    assert(text =~= digits.push(unit));
    assert forall|k: int| 0 <= k < n implies is_digit(#[trigger] text[k]) by {
        assert(text[k] == digits[k]);
    }
    assert(is_digit(text[0]));
    assert(!is_space(text[0]));
    lemma_trim_fixed(text);
    assert(!is_digit(text[n]));
    assert(!all_digits(text));
    lemma_digits_len_is(text, n);
    assert(text.take(n) =~= digits);
    assert(text.skip(n + 1) =~= seq![]);
    assert(segments_of(text, text.skip(n + 1), secs) == Ok::<nat, Seq<char>>(secs));
}

/// A text with units is never read as no time at all.
pub proof fn law_zero_only_as_plain_number(raw: Seq<char>)
    requires
        duration_of(raw) == Ok::<nat, Seq<char>>(0),
    ensures
        all_digits(trim_of(raw)),
{
}

/// Returns how many seconds a unit stands for.
fn unit_seconds(unit: char) -> (r: Option<u64>)
    ensures
        unit_secs(unit) == (match r {
            Some(secs) => Some(secs as nat),
            None => None,
        }),
        r matches Some(secs) ==> 0 < secs <= 86_400,
{
    if unit == 's' || unit == 'S' {
        Some(1)
    } else if unit == 'm' || unit == 'M' {
        Some(60)
    } else if unit == 'h' || unit == 'H' {
        Some(3_600)
    } else if unit == 'd' || unit == 'D' {
        Some(86_400)
    } else {
        None
    }
}

/// Returns the number of seconds that a text stands for, for example 30m, 2h, or 1h30m.
pub fn parse_duration(raw: &str) -> (r: Result<u64, String>)
    ensures
        (match r {
            Ok(secs) => duration_of(raw@) == Ok::<nat, Seq<char>>(secs as nat),
            Err(message) => duration_of(raw@) == Err::<nat, Seq<char>>(message@),
        }),
{
    let chars = chars_of(trim(raw));
    let ghost text = trim_of(raw@);
    if chars.len() == 0 {
        return Err("duration must not be empty".to_owned());
    }
    let mut only_digits = true;
    let mut i: usize = 0;
    while i < chars.len()
        invariant
            i <= chars.len(),
            chars@ == text,
            only_digits == all_digits(text.take(i as int)),
        decreases chars.len() - i,
    {
        let ghost next = text.take(i + 1);
        assert(forall|k: int| 0 <= k < i ==> next[k] == text.take(i as int)[k]);
        assert(next[i as int] == chars@[i as int]);
        if !is_ascii_digit(chars[i]) {
            only_digits = false;
        }
        assert(only_digits == all_digits(next)) by {
            if all_digits(next) {
                assert(is_digit(next[i as int]));
                assert forall|k: int| 0 <= k < i implies is_digit(
                    #[trigger] text.take(i as int)[k],
                ) by {
                    assert(is_digit(next[k]));
                }
            }
        }
        i += 1;
    }
    assert(text.take(text.len() as int) =~= text);
    if only_digits {
        return match parse_digits(chars.as_slice()) {
            Some(secs) => Ok(secs),
            None => Err(
                concat3("invalid duration `", raw, "`: number too large to fit in target type"),
            ),
        };
    }
    let mut total: u64 = 0;
    let mut start: usize = 0;
    assert(text.skip(0) =~= text);
    while start < chars.len()
        invariant
            start <= chars.len(),
            chars@ == text,
            text == trim_of(raw@),
            text.len() > 0,
            !all_digits(text),
            segments_of(raw@, text.skip(start as int), total as nat) == segments_of(raw@, text, 0),
        decreases chars.len() - start,
    {
        let ghost rest = text.skip(start as int);
        let mut end: usize = start;
        while end < chars.len() && is_ascii_digit(chars[end])
            invariant
                start <= end <= chars.len(),
                chars@ == text,
                rest == text.skip(start as int),
                forall|k: int| 0 <= k < end - start ==> is_digit(#[trigger] rest[k]),
            decreases chars.len() - end,
        {
            assert(rest[end - start] == chars@[end as int]);
            end += 1;
        }
        proof {
            if end < chars.len() {
                assert(rest[end - start] == chars@[end as int]);
            }
            lemma_digits_len_is(rest, end - start);
        }
        if end == chars.len() {
            return Err(concat3("invalid duration `", raw, "`; trailing number needs a unit"));
        }
        if end == start {
            return Err(concat3("invalid duration `", raw, "`"));
        }
        let digits = vstd::slice::slice_subrange(chars.as_slice(), start, end);
        assert(digits@ =~= rest.take(end - start));
        assert forall|k: int| 0 <= k < digits@.len() implies is_digit(#[trigger] digits@[k]) by {
            assert(digits@[k] == rest[k]);
        }
        let value = match parse_digits(digits) {
            Some(value) => value,
            None => return Err(
                concat3("invalid duration `", raw, "`: number too large to fit in target type"),
            ),
        };
        let unit = chars[end];
        let secs = match unit_seconds(unit) {
            Some(secs) => secs,
            None => {
                let mut message = String::new();
                message.append("invalid duration unit `");
                message.push(unit);
                message.append("` in `");
                message.append(raw);
                message.append("`; use s, m, h, or d");
                assert(message@ =~= unit_message(raw@, unit));
                return Err(message);
            },
        };
        let product = match value.checked_mul(secs) {
            Some(product) => product,
            None => return Err(concat3("duration `", raw, "` is too large")),
        };
        total = match total.checked_add(product) {
            Some(sum) => sum,
            None => return Err(concat3("duration `", raw, "` is too large")),
        };
        assert(rest.skip(end - start + 1) =~= text.skip(end + 1));
        start = end + 1;
    }
    if total == 0 {
        return Err(concat3("invalid duration `", raw, "`"));
    }
    Ok(total)
}

/// Returns a number of seconds in the largest unit that divides it.
pub fn format_duration(secs: u64) -> (r: String)
    ensures
        r@ == duration_text(secs as nat),
{
    let mut r: String;
    if secs % 86_400 == 0 {
        r = decimal_string(secs / 86_400);
        r.append("d");
    } else if secs % 3_600 == 0 {
        r = decimal_string(secs / 3_600);
        r.append("h");
    } else if secs % 60 == 0 {
        r = decimal_string(secs / 60);
        r.append("m");
    } else {
        r = decimal_string(secs);
        r.append("s");
    }
    r
}

} // verus!
