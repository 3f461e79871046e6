//! What run times add up to.
use crate::duration::{
    digits_len, duration_of, duration_text, format_duration, law_duration_round_trip,
    lemma_digits_len_is, parse_duration, segments_of, unit_secs,
};
use crate::patch::batch_laws::{is_blank, lemma_trim_padded};
use crate::text::{
    all_digits, decimal, holds, is_digit, is_space, lemma_decimal_digits, lemma_holds_end,
    lemma_holds_further, lemma_trim_fixed, number_of, trim_of,
};
use vstd::prelude::*;

verus! {

/// A number of some unit.
pub struct Amount {
    pub value: nat,
    pub unit: char,
}

/// How many seconds there are in a second, a minute, an hour and a day, whichever way the letter
/// is written, and none in anything else.
pub open spec fn seconds_in(unit: char) -> nat {
    match unit {
        's' => 1,
        'S' => 1,
        'm' => 60,
        'M' => 60,
        'h' => 60 * 60,
        'H' => 60 * 60,
        'd' => 24 * 60 * 60,
        'D' => 24 * 60 * 60,
        _ => 0,
    }
}

/// Amounts as they are written, each with its unit behind it.
pub open spec fn written(amounts: Seq<Amount>) -> Seq<char>
    decreases amounts.len(),
{
    if amounts.len() == 0 {
        seq![]
    } else {
        decimal(amounts[0].value).push(amounts[0].unit) + written(amounts.drop_first())
    }
}

/// How many seconds amounts come to.
pub open spec fn seconds(amounts: Seq<Amount>) -> nat
    decreases amounts.len(),
{
    if amounts.len() == 0 {
        0
    } else {
        amounts[0].value * seconds_in(amounts[0].unit) + seconds(amounts.drop_first())
    }
}

/// Whether amounts can be written: their units are known, and their numbers are not too large.
pub open spec fn can_be_written(amounts: Seq<Amount>) -> bool {
    forall|i: int|
        0 <= i < amounts.len() ==> seconds_in((#[trigger] amounts[i]).unit) > 0
            && amounts[i].value <= u64::MAX
}

/// The units are these eight letters, and what they stand for is what they always stand for.
pub proof fn law_units(unit: char)
    ensures
        unit_secs(unit) == (if seconds_in(unit) > 0 {
            Some(seconds_in(unit))
        } else {
            None
        }),
{
}

proof fn lemma_one_amount(amount: Amount, rest: Seq<char>)
    requires
        seconds_in(amount.unit) > 0,
    ensures
        ({
            let text = decimal(amount.value).push(amount.unit) + rest;
            let n = decimal(amount.value).len();
            &&& digits_len(text) == n
            &&& 0 < n < text.len()
            &&& text[n as int] == amount.unit
            &&& number_of(text.take(n as int)) == amount.value
            &&& text.skip(n as int + 1) == rest
            &&& is_digit(text[0])
        }),
{
    lemma_decimal_digits(amount.value);
    let digits = decimal(amount.value);
    let text = digits.push(amount.unit) + rest;
    let n = digits.len() as int;
    assert forall|k: int| 0 <= k < n implies is_digit(#[trigger] text[k]) by {
        assert(text[k] == digits[k]);
    }
    assert(text[n] == amount.unit);
    lemma_digits_len_is(text, n);
    assert(text.take(n) =~= digits);
    assert(text.skip(n + 1) =~= rest);
    assert(text[0] == digits[0]);
}

/// Amounts are read one after the other and added up, and what follows them is read with their
/// sum; a sum that is too large is refused.
proof fn lemma_amounts_read(raw: Seq<char>, amounts: Seq<Amount>, rest: Seq<char>, total: nat)
    requires
        can_be_written(amounts),
        total <= u64::MAX,
    ensures
        total + seconds(amounts) <= u64::MAX ==> segments_of(raw, written(amounts) + rest, total)
            == segments_of(raw, rest, total + seconds(amounts)),
        total + seconds(amounts) > u64::MAX ==> segments_of(raw, written(amounts) + rest, total)
            is Err,
    decreases amounts.len(),
{
    if amounts.len() == 0 {
        assert(written(amounts) + rest =~= rest);
    } else {
        let more = amounts.drop_first();
        assert(seconds_in(amounts[0].unit) > 0);
        assert forall|i: int| 0 <= i < more.len() implies seconds_in((#[trigger] more[i]).unit) > 0
            && more[i].value <= u64::MAX by {
            assert(more[i] == amounts[i + 1]);
        }
        let tail = written(more) + rest;
        let head = decimal(amounts[0].value).push(amounts[0].unit);
        assert(written(amounts) + rest =~= head + tail);
        lemma_one_amount(amounts[0], tail);
        let now = amounts[0].value * seconds_in(amounts[0].unit);
        if total + now <= u64::MAX {
            lemma_amounts_read(raw, more, rest, total + now);
        }
    }
}

proof fn lemma_written(amounts: Seq<Amount>)
    requires
        can_be_written(amounts),
        amounts.len() > 0,
    ensures
        written(amounts).len() > 0,
        is_digit(written(amounts)[0]),
        written(amounts).last() == amounts.last().unit,
    decreases amounts.len(),
{
    let more = amounts.drop_first();
    lemma_one_amount(amounts[0], written(more));
    if more.len() > 0 {
        assert forall|i: int| 0 <= i < more.len() implies seconds_in((#[trigger] more[i]).unit) > 0
            && more[i].value <= u64::MAX by {
            assert(more[i] == amounts[i + 1]);
        }
        lemma_written(more);
    } else {
        assert(written(more) =~= seq![]);
    }
}

/// Amounts with units are read as the sum of what they stand for. A sum that is too large is
/// refused, and so is one that comes to nothing.
pub proof fn law_amounts_add_up(amounts: Seq<Amount>)
    requires
        can_be_written(amounts),
        amounts.len() > 0,
    ensures
        0 < seconds(amounts) <= u64::MAX ==> duration_of(written(amounts)) == Ok::<nat, Seq<char>>(
            seconds(amounts),
        ),
        seconds(amounts) == 0 || seconds(amounts) > u64::MAX ==> duration_of(written(amounts))
            is Err,
{
    let text = written(amounts);
    lemma_written(amounts);
    assert(seconds_in(amounts[amounts.len() - 1].unit) > 0);
    lemma_trim_fixed(text);
    assert(!is_digit(text[text.len() - 1]));
    assert(!all_digits(text));
    lemma_amounts_read(text, amounts, seq![], 0);
    assert(text + seq![] =~= text);
}

/// A number without a unit counts seconds, if it stands alone. Behind amounts it is refused, and so
/// is everything else that is no amount: a unit that is none, or anything that is not a number.
pub proof fn law_what_is_no_run_time(amounts: Seq<Amount>, number: nat, other: Seq<char>)
    requires
        can_be_written(amounts),
    ensures
        number <= u64::MAX ==> duration_of(decimal(number)) == Ok::<nat, Seq<char>>(number),
        number > u64::MAX ==> duration_of(decimal(number)) is Err,
        amounts.len() > 0 ==> duration_of(written(amounts) + decimal(number)) is Err,
        trim_of(other).len() == 0 ==> duration_of(other) is Err,
        other.len() > 0 && !is_digit(other[0]) && !is_space(other[0]) && !is_space(other.last())
            ==> duration_of(written(amounts) + other) is Err,
{
    lemma_decimal_digits(number);
    let digits = decimal(number);
    lemma_trim_fixed(digits);
    assert(all_digits(digits));
    if amounts.len() > 0 {
        let text = written(amounts) + digits;
        lemma_written(amounts);
        let n = written(amounts).len() - 1;
        assert(text[n] == written(amounts).last());
        assert(seconds_in(amounts[amounts.len() - 1].unit) > 0);
        assert(!is_digit(text[n]));
        assert(!all_digits(text));
        assert(text.last() == digits.last());
        assert(is_digit(digits[digits.len() - 1]));
        lemma_trim_fixed(text);
        lemma_amounts_read(text, amounts, digits, 0);
        lemma_digits_len_is(digits, digits.len() as int);
    }
    if other.len() > 0 && !is_digit(other[0]) && !is_space(other[0]) && !is_space(other.last()) {
        let text = written(amounts) + other;
        assert(text.last() == other.last());
        if amounts.len() > 0 {
            lemma_written(amounts);
            assert(text[0] == written(amounts)[0]);
        } else {
            assert(text =~= other);
        }
        assert(text[written(amounts).len() as int] == other[0]);
        assert(!all_digits(text));
        lemma_trim_fixed(text);
        lemma_amounts_read(text, amounts, other, 0);
        lemma_digits_len_is(other, 0);
    }
}

/// What is read of a run time does not depend on what is quoted where it is refused.
proof fn lemma_same_value(raw: Seq<char>, other: Seq<char>, rest: Seq<char>, total: nat)
    ensures
        segments_of(raw, rest, total) is Ok <==> segments_of(other, rest, total) is Ok,
        segments_of(raw, rest, total) is Ok ==> segments_of(raw, rest, total) == segments_of(
            other,
            rest,
            total,
        ),
    decreases rest.len(),
{
    let n = digits_len(rest);
    let value = number_of(rest.take(n as int));
    if 0 < n < rest.len() && value <= u64::MAX {
        match unit_secs(rest[n as int]) {
            Some(secs) => {
                if value * secs <= u64::MAX && total + value * secs <= u64::MAX {
                    lemma_same_value(raw, other, rest.skip(n as int + 1), total + value * secs);
                }
            },
            None => {},
        }
    }
}

/// White space around a run time makes no difference.
pub proof fn law_run_times_are_trimmed(before: Seq<char>, raw: Seq<char>, after: Seq<char>)
    requires
        is_blank(before),
        is_blank(after),
    ensures
        duration_of(before + raw + after) is Ok <==> duration_of(raw) is Ok,
        duration_of(raw) is Ok ==> duration_of(before + raw + after) == duration_of(raw),
{
    lemma_trim_padded(before, raw, after);
    lemma_same_value(before + raw + after, raw, trim_of(raw), 0);
}

/// A run time is shown in the largest unit that it is a whole number of.
pub proof fn law_run_times_are_shown_in_the_largest_unit(secs: nat)
    ensures
        duration_text(secs * 86_400) == decimal(secs) + "d"@,
        secs % 24 != 0 ==> duration_text(secs * 3_600) == decimal(secs) + "h"@,
        secs % 60 != 0 ==> duration_text(secs * 60) == decimal(secs) + "m"@,
        secs % 60 != 0 ==> duration_text(secs) == decimal(secs) + "s"@,
{
}

proof fn lemma_messages_quote(raw: Seq<char>, rest: Seq<char>, total: nat)
    ensures
        segments_of(raw, rest, total) matches Err(message) ==> holds(message, raw),
    decreases rest.len(),
{
    lemma_quoted("invalid duration `"@, raw, "`"@);
    lemma_quoted("invalid duration `"@, raw, "`: number too large to fit in target type"@);
    lemma_quoted("duration `"@, raw, "` is too large"@);
    lemma_quoted("invalid duration `"@, raw, "`; trailing number needs a unit"@);
    let n = digits_len(rest);
    let value = number_of(rest.take(n as int));
    if 0 < n < rest.len() && value <= u64::MAX {
        match unit_secs(rest[n as int]) {
            Some(secs) => {
                if value * secs <= u64::MAX && total + value * secs <= u64::MAX {
                    lemma_messages_quote(raw, rest.skip(n as int + 1), total + value * secs);
                }
            },
            None => {
                lemma_quoted(
                    "invalid duration unit `"@ + seq![rest[n as int]] + "` in `"@,
                    raw,
                    "`; use s, m, h, or d"@,
                );
            },
        }
    }
}

proof fn lemma_quoted(before: Seq<char>, raw: Seq<char>, after: Seq<char>)
    ensures
        holds(before + raw + after, raw),
{
    lemma_holds_end(before, raw);
    lemma_holds_further(before + raw, raw, after);
}

/// A run time that is refused, and is more than white space, is quoted.
pub proof fn law_refused_run_times_are_quoted(raw: Seq<char>)
    requires
        trim_of(raw).len() > 0,
    ensures
        duration_of(raw) matches Err(message) ==> holds(message, raw),
{
    lemma_messages_quote(raw, trim_of(raw), 0);
    lemma_quoted("invalid duration `"@, raw, "`"@);
    lemma_quoted("invalid duration `"@, raw, "`: number too large to fit in target type"@);
}

/// What is shown of a run time is read as that run time.
pub proof fn law_showing_and_reading(
    secs: u64,
    shown: String,
    raw: &str,
    read: Result<u64, String>,
)
    requires
        call_ensures(format_duration, (secs,), shown),
        call_ensures(parse_duration, (raw,), read),
        raw@ == shown@,
        secs > 0,
    ensures
        read == Ok::<u64, String>(secs),
{
    law_duration_round_trip(secs as nat);
}

/// Amounts with units are read as their sum.
pub proof fn law_reading_amounts(raw: &str, amounts: Seq<Amount>, read: Result<u64, String>)
    requires
        call_ensures(parse_duration, (raw,), read),
        can_be_written(amounts),
        amounts.len() > 0,
        raw@ == written(amounts),
    ensures
        read is Ok <==> 0 < seconds(amounts) <= u64::MAX,
        read matches Ok(secs) ==> secs == seconds(amounts),
{
    law_amounts_add_up(amounts);
}

} // verus!
