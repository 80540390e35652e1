//! Writing numbers as text.

use vstd::prelude::*;

verus! {

/// The digit as a character.
pub open spec fn digit(value: nat) -> char {
    ('0' as nat + value) as char
}

/// The digits of the number.
pub open spec fn digits(value: nat) -> Seq<char>
    decreases value,
{
    if value < 10 {
        seq![digit(value)]
    } else {
        digits(value / 10).push(digit(value % 10))
    }
}

/// The number as text.
pub open spec fn decimal(value: int) -> Seq<char> {
    if value < 0 {
        seq!['-'] + digits((-value) as nat)
    } else {
        digits(value as nat)
    }
}

/// The number as text, with a leading zero if it would be a single digit
/// otherwise.
pub open spec fn two_digits(value: int) -> Seq<char> {
    if 0 <= value < 10 {
        seq!['0'] + decimal(value)
    } else {
        decimal(value)
    }
}

/// Appends a digit to the text.
fn push_digit(text: &mut String, value: u64)
    requires
        value < 10,
    ensures
        final(text)@ == old(text)@.push(digit(value as nat)),
{
    proof {
        reveal_strlit("0");
        reveal_strlit("1");
        reveal_strlit("2");
        reveal_strlit("3");
        reveal_strlit("4");
        reveal_strlit("5");
        reveal_strlit("6");
        reveal_strlit("7");
        reveal_strlit("8");
        reveal_strlit("9");
    }
    let digit_text = match value {
        0 => "0",
        1 => "1",
        2 => "2",
        3 => "3",
        4 => "4",
        5 => "5",
        6 => "6",
        7 => "7",
        8 => "8",
        _ => "9",
    };
    let ghost before = text@;
    text.append(digit_text);
    assert(text@ =~= before.push(digit(value as nat)));
}

/// Appends the digits of the number to the text.
pub fn push_digits(text: &mut String, value: u64)
    ensures
        final(text)@ == old(text)@ + digits(value as nat),
    decreases value,
{
    let ghost before = text@;
    if value < 10 {
        push_digit(text, value);
        assert(text@ =~= before + digits(value as nat));
    } else {
        push_digits(text, value / 10);
        push_digit(text, value % 10);
        assert(text@ =~= before + digits(value as nat));
    }
}

/// Appends the number to the text.
pub fn push_decimal(text: &mut String, value: i64)
    ensures
        final(text)@ == old(text)@ + decimal(value as int),
{
    let ghost before = text@;
    if value < 0 {
        proof {
            reveal_strlit("-");
        }
        text.append("-");
        let magnitude: u64 = (-(value as i128)) as u64;
        push_digits(text, magnitude);
        assert(text@ =~= before + decimal(value as int));
    } else {
        push_digits(text, value as u64);
    }
}

/// Appends the number to the text, with a leading zero if it would be a single
/// digit otherwise.
pub fn push_two_digits(text: &mut String, value: i64)
    ensures
        final(text)@ == old(text)@ + two_digits(value as int),
{
    let ghost before = text@;
    if value >= 0 && value < 10 {
        proof {
            reveal_strlit("0");
        }
        text.append("0");
    }
    push_decimal(text, value);
    assert(text@ =~= before + two_digits(value as int));
}

/// Division that rounds towards zero.
pub open spec fn quotient(value: int, divisor: int) -> int {
    if value >= 0 {
        value / divisor
    } else {
        -((-value) / divisor)
    }
}

/// What is left by the division that rounds towards zero.
pub open spec fn remainder(value: int, divisor: int) -> int {
    value - quotient(value, divisor) * divisor
}

/// A duration as `h:mm:ss`, or as `m:ss` if it is shorter than an hour.
pub open spec fn duration_text(time: int) -> Seq<char> {
    let seconds = remainder(time, 60);
    let minutes = quotient(remainder(time, 3600), 60);
    let hours = quotient(time, 3600);
    if hours > 0 {
        decimal(hours) + seq![':'] + two_digits(minutes) + seq![':'] + two_digits(seconds)
    } else {
        decimal(minutes) + seq![':'] + two_digits(seconds)
    }
}

/// A duration as `mm:ss`.
pub open spec fn minutes_text(time: int) -> Seq<char> {
    two_digits(quotient(time, 60)) + seq![':'] + two_digits(remainder(time, 60))
}

/// The quotient and the remainder, rounding towards zero.
fn divide(value: i64, divisor: i64) -> (result: (i64, i64))
    requires
        1 < divisor < 0x1_0000_0000,
    ensures
        result.0 == quotient(value as int, divisor as int),
        result.1 == remainder(value as int, divisor as int),
{
    let wide: i128 = value as i128;
    let by: i128 = divisor as i128;
    let magnitude: u64 = (if wide < 0 {
        -wide
    } else {
        wide
    }) as u64;
    let whole: u64 = magnitude / (divisor as u64);
    proof {
        let m = magnitude as int;
        let d = divisor as int;
        assert(m / d <= m / 2) by (nonlinear_arith)
            requires
                m >= 0,
                d >= 2,
        ;
        assert(0 <= m - (m / d) * d < d) by (nonlinear_arith)
            requires
                m >= 0,
                d > 0,
        ;
        assert((-(m / d)) * d == -((m / d) * d)) by (nonlinear_arith);
    }
    let quotient: i128 = if wide < 0 {
        -(whole as i128)
    } else {
        whole as i128
    };
    proof {
        let m = magnitude as int;
        let d = divisor as int;
        assert(0 <= (m / d) * d <= m) by (nonlinear_arith)
            requires
                m >= 0,
                d > 0,
        ;
    }
    let remainder: i128 = wide - quotient * by;
    (quotient as i64, remainder as i64)
}

/// Formats a duration in seconds as `h:mm:ss`, or as `m:ss` if it is shorter
/// than an hour.
pub fn format_duration(time: i64) -> (text: String)
    ensures
        text@ == duration_text(time as int),
{
    proof {
        reveal_strlit(":");
    }
    let (_, seconds) = divide(time, 60);
    let (hours, rest) = divide(time, 3600);
    let (minutes, _) = divide(rest, 60);
    let mut text = String::new();
    if hours > 0 {
        push_decimal(&mut text, hours);
        text.append(":");
        push_two_digits(&mut text, minutes);
    } else {
        push_decimal(&mut text, minutes);
    }
    text.append(":");
    push_two_digits(&mut text, seconds);
    assert(text@ =~= duration_text(time as int));
    text
}

/// Formats a duration in seconds as `mm:ss`.
pub fn format_minutes(time: i32) -> (text: String)
    ensures
        text@ == minutes_text(time as int),
{
    proof {
        reveal_strlit(":");
    }
    let (minutes, seconds) = divide(time as i64, 60);
    let mut text = String::new();
    push_two_digits(&mut text, minutes);
    text.append(":");
    push_two_digits(&mut text, seconds);
    assert(text@ =~= minutes_text(time as int));
    text
}

/// The number that the digits stand for.
pub open spec fn number_of(text: Seq<char>) -> nat
    decreases text.len(),
{
    if text.len() == 0 {
        0
    } else {
        number_of(text.drop_last()) * 10 + (text.last() as nat - '0' as nat) as nat
    }
}

/// The digits of a number stand for the number. They are digits, and only the
/// number zero begins with a zero.
pub proof fn law_digits_stand_for_number(value: nat)
    ensures
        number_of(digits(value)) == value,
        digits(value).len() > 0,
        forall|i: int|
            0 <= i < digits(value).len() ==> '0' <= #[trigger] digits(value)[i] <= '9',
        value > 0 ==> digits(value)[0] != '0',
        value == 0 ==> digits(value) == seq!['0'],
        value < 10 <==> digits(value).len() == 1,
    decreases value,
{
    let text = digits(value);
    if value >= 10 {
        law_digits_stand_for_number(value / 10);
        assert(text.drop_last() =~= digits(value / 10));
        assert(text[0] == digits(value / 10)[0]);
        assert forall|i: int| 0 <= i < text.len() implies '0' <= #[trigger] text[i] <= '9' by {
            if i < text.len() - 1 {
                assert(text[i] == digits(value / 10)[i]);
            }
        }
    } else {
        assert(text.drop_last() =~= Seq::empty());
        assert(number_of(text.drop_last()) == 0);
    }
}

/// A number that is not negative is written with its digits, and a negative one
/// with a sign in front of those of the opposite number.
pub proof fn law_negative_numbers_have_signs(value: nat)
    ensures
        decimal(value as int) == digits(value),
        value > 0 ==> decimal(-(value as int)) == seq!['-'] + digits(value),
{
}

/// A single digit gets a zero in front, and other numbers are written as they
/// are.
pub proof fn law_single_digits_are_padded(value: int)
    ensures
        0 <= value < 10 ==> two_digits(value).len() == 2 && two_digits(value)[0] == '0'
            && two_digits(value).skip(1) == digits(value as nat),
        value < 0 || value >= 10 ==> two_digits(value) == decimal(value),
        two_digits(value).len() >= 2,
{
    if 0 <= value {
        law_digits_stand_for_number(value as nat);
        assert(two_digits(value).skip(1) =~= digits(value as nat) || value >= 10);
    } else {
        law_digits_stand_for_number((-value) as nat);
    }
}

/// The quotient and the remainder make up the number. The remainder is smaller
/// than the divisor and not of the other sign.
pub proof fn law_division_rounds_towards_zero(value: int, divisor: int)
    requires
        divisor > 0,
    ensures
        value == quotient(value, divisor) * divisor + remainder(value, divisor),
        value >= 0 ==> 0 <= remainder(value, divisor) < divisor && quotient(value, divisor) >= 0,
        value <= 0 ==> -divisor < remainder(value, divisor) <= 0 && quotient(value, divisor) <= 0,
{
    let m = if value >= 0 {
        value
    } else {
        -value
    };
    assert(0 <= m - (m / divisor) * divisor < divisor) by (nonlinear_arith)
        requires
            m >= 0,
            divisor > 0,
    ;
    assert(m / divisor >= 0) by (nonlinear_arith)
        requires
            m >= 0,
            divisor > 0,
    ;
    assert((-(m / divisor)) * divisor == -((m / divisor) * divisor)) by (nonlinear_arith);
}

/// A duration is written with its hours, minutes and seconds, and without the
/// hours if there are none. A negative one is written without the hours, and
/// with signs.
pub proof fn law_durations_are_written(hours: int, minutes: int, seconds: int)
    requires
        0 <= hours,
        0 <= minutes < 60,
        0 <= seconds < 60,
    ensures
        hours > 0 ==> duration_text(hours * 3600 + minutes * 60 + seconds) == decimal(hours)
            + seq![':'] + two_digits(minutes) + seq![':'] + two_digits(seconds),
        duration_text(minutes * 60 + seconds) == decimal(minutes) + seq![':'] + two_digits(seconds),
        hours * 3600 + minutes * 60 + seconds > 0 ==> duration_text(
            -(hours * 3600 + minutes * 60 + seconds),
        ) == decimal(-minutes) + seq![':'] + two_digits(-seconds),
{
    let time = hours * 3600 + minutes * 60 + seconds;
    assert(time / 3600 == hours && time / 60 == hours * 60 + minutes);
    assert(quotient(time, 3600) == hours);
    assert(remainder(time, 3600) == minutes * 60 + seconds);
    assert(remainder(time, 60) == seconds);
    let short = minutes * 60 + seconds;
    assert(quotient(short, 3600) == 0 && remainder(short, 3600) == short);
    assert(quotient(short, 60) == minutes && remainder(short, 60) == seconds);
    if time > 0 {
        assert(quotient(-time, 3600) == -hours);
        assert(remainder(-time, 3600) == -short);
        assert(quotient(-short, 60) == -minutes);
        assert(remainder(-time, 60) == -seconds);
    }
}

/// A number of seconds is written with its minutes and seconds, both with two
/// digits at least.
pub proof fn law_minutes_are_written(minutes: int, seconds: int)
    requires
        0 <= minutes,
        0 <= seconds < 60,
    ensures
        minutes_text(minutes * 60 + seconds) == two_digits(minutes) + seq![':'] + two_digits(
            seconds,
        ),
        minutes * 60 + seconds > 0 ==> minutes_text(-(minutes * 60 + seconds)) == two_digits(
            -minutes,
        ) + seq![':'] + two_digits(-seconds),
{
    let time = minutes * 60 + seconds;
    assert(time / 60 == minutes);
    assert(quotient(time, 60) == minutes && remainder(time, 60) == seconds);
    if time > 0 {
        assert(quotient(-time, 60) == -minutes && remainder(-time, 60) == -seconds);
    }
}

} // verus!
