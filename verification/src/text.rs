//! Text: decimal notation, and strings as sequences of characters.
//!
//! A decimal is written as an optional sign, digits with at most one point
//! among them, and optionally an exponent: `e` or `E`, an optional sign and
//! digits. At least one digit must be present before or after the point.
//! What a text denotes is read in hundred-millionths; digits that stand for
//! less are dropped, and the reading says whether any of them was not zero.

use crate::decimal::{Decimal, DECIMAL_MAX_UNITS};
use vstd::prelude::*;
use vstd::string::StringSliceAdditionalSpecFns;

verus! {

/// Why a text was not read as a `Decimal`.
#[derive(Clone, Copy, Debug, PartialEq, Eq, Structural)]
pub enum ReadError {
    /// The text is not written as a decimal.
    Malformed,
    /// The text is a decimal whose magnitude exceeds the largest `Decimal`.
    TooLarge,
}

/// Whether `c` is one of the ten decimal digits.
pub open spec fn is_digit(c: char) -> bool {
    '0' <= c && c <= '9'
}

/// The number a decimal digit stands for.
pub open spec fn digit_value(c: char) -> int {
    c as int - '0' as int
}

/// Whether `s` consists of decimal digits only.
pub open spec fn all_digits(s: Seq<char>) -> bool {
    forall|i: int| 0 <= i < s.len() ==> is_digit(#[trigger] s[i])
}

/// The number that a string of decimal digits denotes; zero for the empty
/// string.
pub open spec fn digits_value(s: Seq<char>) -> int
    decreases s.len(),
{
    if s.len() == 0 {
        0
    } else {
        10 * digits_value(s.drop_last()) + digit_value(s.last())
    }
}

/// Whether `text` begins with a sign.
pub open spec fn has_sign(text: Seq<char>) -> bool {
    text.len() > 0 && (text[0] == '-' || text[0] == '+')
}

/// Where the mantissa of `body` ends: at the first `e` or `E`, or at the
/// end of `body` if it holds neither.
pub open spec fn mantissa_len(body: Seq<char>) -> int {
    match (body.index_of_first('e'), body.index_of_first('E')) {
        (Some(lower), Some(upper)) => if lower < upper {
            lower
        } else {
            upper
        },
        (Some(lower), None) => lower,
        (None, Some(upper)) => upper,
        (None, None) => body.len() as int,
    }
}

/// Where the whole part of `mantissa` ends: at the first point, or at the
/// end of `mantissa` if it holds none.
pub open spec fn point_position(mantissa: Seq<char>) -> int {
    match mantissa.index_of_first('.') {
        Some(i) => i,
        None => mantissa.len() as int,
    }
}

/// What stands before the point of `mantissa`.
pub open spec fn whole_part(mantissa: Seq<char>) -> Seq<char> {
    mantissa.take(point_position(mantissa))
}

/// What stands after the point of `mantissa`; empty if there is no point.
pub open spec fn fraction_part(mantissa: Seq<char>) -> Seq<char> {
    if point_position(mantissa) < mantissa.len() {
        mantissa.skip(point_position(mantissa) + 1)
    } else {
        Seq::<char>::empty()
    }
}

/// Whether `mantissa` holds digits only, but for at most one point.
pub open spec fn digits_around_point(mantissa: Seq<char>) -> bool {
    all_digits(whole_part(mantissa)) && all_digits(fraction_part(mantissa))
}

/// The number that the text of an exponent denotes: an optional sign and at
/// least one digit. `None` if `text` is not so written.
pub open spec fn exponent_value(text: Seq<char>) -> Option<int> {
    let digits = if has_sign(text) {
        text.skip(1)
    } else {
        text
    };
    if digits.len() > 0 && all_digits(digits) {
        Some(
            if has_sign(text) && text[0] == '-' {
                -digits_value(digits)
            } else {
                digits_value(digits)
            },
        )
    } else {
        None
    }
}

/// The first `count` of `digits`, with zeros standing in for any that are
/// missing.
pub open spec fn padded_digits(digits: Seq<char>, count: int) -> Seq<char> {
    Seq::new(
        count as nat,
        |i: int|
            if i < digits.len() {
                digits[i]
            } else {
                '0'
            },
    )
}

/// The number that the first `count` of `digits` denote, zeros standing in
/// for missing digits; zero if `count` is not positive.
pub open spec fn leading_value(digits: Seq<char>, count: int) -> int {
    if count <= 0 {
        0
    } else {
        digits_value(padded_digits(digits, count))
    }
}

/// Whether every one of `digits` from position `count` on is a zero.
pub open spec fn rest_is_zero(digits: Seq<char>, count: int) -> bool {
    forall|i: int| count <= i && 0 <= i < digits.len() ==> #[trigger] digits[i] == '0'
}

/// What an unsigned decimal denotes: its hundred-millionths, rounded down, and
/// whether they are the number exactly. With the digits of the mantissa
/// written in a row, the hundred-millionths end eight digits past the point,
/// moved right by the exponent.
pub open spec fn unsigned_reading(body: Seq<char>) -> Result<(int, bool), ReadError> {
    let mantissa = body.take(mantissa_len(body));
    let exponent = if mantissa_len(body) < body.len() {
        exponent_value(body.skip(mantissa_len(body) + 1))
    } else {
        Some(0int)
    };
    let whole = whole_part(mantissa);
    let fraction = fraction_part(mantissa);
    if digits_around_point(mantissa) && whole.len() + fraction.len() > 0 && exponent is Some {
        let digits = whole + fraction;
        let count = whole.len() + exponent.unwrap() + 8;
        if leading_value(digits, count) <= DECIMAL_MAX_UNITS {
            Ok((leading_value(digits, count), rest_is_zero(digits, count)))
        } else {
            Err(ReadError::TooLarge)
        }
    } else {
        Err(ReadError::Malformed)
    }
}

/// What `text` denotes: its hundred-millionths, rounded toward zero, and
/// whether they are the number exactly.
pub open spec fn decimal_reading(text: Seq<char>) -> Result<(int, bool), ReadError> {
    let body = if has_sign(text) {
        text.skip(1)
    } else {
        text
    };
    match unsigned_reading(body) {
        Ok((units, exact)) => Ok(
            (
                if has_sign(text) && text[0] == '-' {
                    -units
                } else {
                    units
                },
                exact,
            ),
        ),
        Err(error) => Err(error),
    }
}

/// The hundred-millionths denoted by `text`, or `None` if `text` is not a
/// decimal or denotes one whose magnitude exceeds the largest `Decimal`.
pub open spec fn decimal_units(text: Seq<char>) -> Option<int> {
    match decimal_reading(text) {
        Ok((units, _)) => Some(units),
        Err(_) => None,
    }
}

/// Extending a digit string by one digit multiplies its value by ten and
/// adds the digit.
proof fn lemma_digits_value_step(s: Seq<char>, n: int)
    requires
        0 <= n < s.len(),
    ensures
        digits_value(s.take(n + 1)) == 10 * digits_value(s.take(n)) + digit_value(s[n]),
{
    assert(s.take(n + 1).drop_last() =~= s.take(n));
}

/// Taking one digit more multiplies the leading value by ten and adds the
/// digit taken, which is zero past the end of the digits.
proof fn lemma_leading_value_step(digits: Seq<char>, count: int)
    requires
        0 <= count,
    ensures
        leading_value(digits, count + 1) == 10 * leading_value(digits, count) + (if count
            < digits.len() {
            digit_value(digits[count])
        } else {
            0
        }),
{
    let longer = padded_digits(digits, count + 1);
    assert(longer.len() == count + 1);
    assert(longer.drop_last() =~= padded_digits(digits, count));
    assert(longer.last() == longer[count]);
    assert(digits_value(longer) == 10 * digits_value(longer.drop_last()) + digit_value(
        longer.last(),
    ));
    if count == 0 {
        assert(digits_value(padded_digits(digits, 0)) == 0);
    }
}

/// The leading value of digits is not negative and does not shrink when
/// more digits are taken.
proof fn lemma_leading_value_grows(digits: Seq<char>, count: int, more: int)
    requires
        all_digits(digits),
        0 <= count <= more,
    ensures
        0 <= leading_value(digits, count) <= leading_value(digits, more),
    decreases more,
{
    if more > 0 {
        lemma_leading_value_step(digits, more - 1);
        if count < more {
            lemma_leading_value_grows(digits, count, more - 1);
        } else {
            lemma_leading_value_grows(digits, 0, more - 1);
        }
    }
}

/// Past the end of the digits, a leading value of zero stays zero.
proof fn lemma_leading_value_stays_zero(digits: Seq<char>, count: int, more: int)
    requires
        digits.len() <= count <= more,
        leading_value(digits, count) == 0,
    ensures
        leading_value(digits, more) == 0,
    decreases more,
{
    if count < more {
        lemma_leading_value_stays_zero(digits, count, more - 1);
        lemma_leading_value_step(digits, more - 1);
    }
}

/// Past the end of the digits, nineteen digits more take a leading value
/// that is not zero beyond the largest `Decimal`.
proof fn lemma_leading_value_exceeds(digits: Seq<char>, count: int, more: int)
    requires
        all_digits(digits),
        digits.len() <= count,
        count + 19 <= more,
        leading_value(digits, count) >= 1,
    ensures
        leading_value(digits, more) > DECIMAL_MAX_UNITS,
{
    lemma_leading_value_step(digits, count);
    lemma_leading_value_step(digits, count + 1);
    lemma_leading_value_step(digits, count + 2);
    lemma_leading_value_step(digits, count + 3);
    lemma_leading_value_step(digits, count + 4);
    lemma_leading_value_step(digits, count + 5);
    lemma_leading_value_step(digits, count + 6);
    lemma_leading_value_step(digits, count + 7);
    lemma_leading_value_step(digits, count + 8);
    lemma_leading_value_step(digits, count + 9);
    lemma_leading_value_step(digits, count + 10);
    lemma_leading_value_step(digits, count + 11);
    lemma_leading_value_step(digits, count + 12);
    lemma_leading_value_step(digits, count + 13);
    lemma_leading_value_step(digits, count + 14);
    lemma_leading_value_step(digits, count + 15);
    lemma_leading_value_step(digits, count + 16);
    lemma_leading_value_step(digits, count + 17);
    lemma_leading_value_step(digits, count + 18);
    lemma_leading_value_grows(digits, count + 19, more);
}

/// The views of the strings of `strings`, in order.
pub open spec fn texts(strings: Seq<String>) -> Seq<Seq<char>> {
    strings.map_values(|s: String| s@)
}

/// The characters of `text`, in order.
pub fn characters(text: &str) -> (result: Vec<char>)
    ensures
        result@ == text@,
{
    let mut result: Vec<char> = Vec::new();
    for c in it: text.chars()
        invariant
            it.seq() == text@,
            result@ == it.seq().take(it.index() as int),
    {
        result.push(c);
        assert(it.seq().take(it.index() + 1) =~= it.seq().take(it.index() as int).push(c));
    }
    assert(result@ =~= text@);
    result
}

/// Whether `c` is a decimal digit.
fn char_is_digit(c: char) -> (result: bool)
    ensures
        result == is_digit(c),
{
    '0' <= c && c <= '9'
}

/// The number the decimal digit `c` stands for.
fn char_digit_value(c: char) -> (result: i64)
    requires
        is_digit(c),
    ensures
        result == digit_value(c),
        0 <= result <= 9,
{
    (c as u32 - '0' as u32) as i64
}

/// The position of the first point in `chars` at or after `start`, or the
/// length of `chars` if there is none; `None` if any other character there
/// is not a digit.
fn scan_body(chars: &[char], start: usize) -> (result: Option<usize>)
    requires
        start <= chars.len(),
    ensures
        match result {
            Some(point) => {
                let body = chars@.skip(start as int);
                &&& start <= point <= chars.len()
                &&& body.index_of_first('.') == (if point < chars.len() {
                    Some(point - start)
                } else {
                    None
                })
                &&& all_digits(body.take(point - start))
                &&& point < chars.len() ==> all_digits(body.skip(point - start + 1))
            },
            None => !digits_around_point(chars@.skip(start as int)),
        },
{
    let ghost body = chars@.skip(start as int);
    proof {
        body.index_of_first_ensures('.');
    }
    let n = chars.len();
    let mut i = start;
    while i < n && char_is_digit(chars[i])
        invariant
            start <= i <= n,
            n == chars.len(),
            body == chars@.skip(start as int),
            all_digits(body.take(i - start)),
        decreases n - i,
    {
        i += 1;
    }
    let point = i;
    if i < n {
        assert(body[point - start] == chars[point as int]);
        assert forall|j: int| 0 <= j < point - start implies body[j] != '.' by {
            assert(body.take(point - start)[j] == body[j]);
        }
        if chars[i] != '.' {
            proof {
                let p = match body.index_of_first('.') {
                    Some(k) => k,
                    None => body.len() as int,
                };
                assert(p > point - start);
                assert(body.take(p)[point - start] == body[point - start]);
                assert(!all_digits(body.take(p)));
            }
            return None;
        }
        assert(body.index_of_first('.') == Some(point - start));
        i += 1;
        while i < n
            invariant
                start <= point < i <= n,
                n == chars.len(),
                body == chars@.skip(start as int),
                body.index_of_first('.') == Some(point - start),
                forall|j: int| point < j < i ==> is_digit(#[trigger] chars[j]),
            decreases n - i,
        {
            if !char_is_digit(chars[i]) {
                proof {
                    let fraction = body.skip(point - start + 1);
                    assert(fraction[i - point - 1] == chars[i as int]);
                    assert(!all_digits(fraction));
                }
                return None;
            }
            i += 1;
        }
        assert forall|j: int| 0 <= j < body.skip(point - start + 1).len() implies is_digit(
            #[trigger] body.skip(point - start + 1)[j],
        ) by {
            assert(body.skip(point - start + 1)[j] == chars[point + 1 + j]);
        }
    } else {
        assert(body.take(point - start) =~= body);
        assert(!body.contains('.'));
    }
    Some(point)
}

/// How large an exponent is read exactly; a larger one is only known to be
/// larger. It exceeds the length of any text by more than nineteen.
const EXPONENT_CAP: i128 = 1_000_000_000_000_000_000_000;

/// Where the mantissa of `body` ends.
fn find_mark(body: &[char]) -> (result: usize)
    ensures
        result == mantissa_len(body@),
        result <= body.len(),
{
    proof {
        body@.index_of_first_ensures('e');
        body@.index_of_first_ensures('E');
    }
    let mut i: usize = 0;
    while i < body.len() && body[i] != 'e' && body[i] != 'E'
        invariant
            i <= body.len(),
            forall|j: int| 0 <= j < i ==> body[j] != 'e' && body[j] != 'E',
        decreases body.len() - i,
    {
        i += 1;
    }
    proof {
        if i < body.len() {
            assert(body@[i as int] == 'e' || body@[i as int] == 'E');
        } else {
            assert(!body@.contains('e'));
            assert(!body@.contains('E'));
        }
    }
    i
}

/// The characters `chars[from..to]`.
fn sub_vector(chars: &[char], from: usize, to: usize) -> (result: Vec<char>)
    requires
        from <= to <= chars.len(),
    ensures
        result@ == chars@.subrange(from as int, to as int),
{
    let mut result: Vec<char> = Vec::new();
    let mut i = from;
    while i < to
        invariant
            from <= i <= to <= chars.len(),
            result@ == chars@.subrange(from as int, i as int),
        decreases to - i,
    {
        result.push(chars[i]);
        assert(chars@.subrange(from as int, i + 1) =~= chars@.subrange(from as int, i as int).push(
            chars[i as int],
        ));
        i += 1;
    }
    result
}

/// The exponent that `text` denotes, and whether it is beyond the cap: then
/// only its sign is given.
fn read_exponent(text: &[char]) -> (result: Option<(i128, bool)>)
    ensures
        match exponent_value(text@) {
            None => result is None,
            Some(exponent) => {
                &&& result matches Some((value, beyond))
                &&& !beyond ==> value == exponent && -EXPONENT_CAP <= value <= EXPONENT_CAP
                &&& beyond ==> (value > 0 && exponent > EXPONENT_CAP) || (value < 0 && exponent
                    < -EXPONENT_CAP)
            },
        },
{
    let n = text.len();
    let signed = n > 0 && (text[0] == '-' || text[0] == '+');
    let negative = signed && text[0] == '-';
    let start: usize = if signed {
        1
    } else {
        0
    };
    let ghost digits = text@.skip(start as int);
    assert(!signed ==> digits =~= text@);
    if start == n {
        return None;
    }
    let mut value: i128 = 0;
    let mut beyond = false;
    let mut i = start;
    while i < n
        invariant
            start <= i <= n,
            n == text.len(),
            digits == (if has_sign(text@) {
                text@.skip(1)
            } else {
                text@
            }),
            digits.len() == n - start,
            forall|j: int| 0 <= j < n - start ==> digits[j] == text[j + start],
            forall|j: int| 0 <= j < i - start ==> is_digit(#[trigger] digits[j]),
            0 <= value <= EXPONENT_CAP,
            !beyond ==> value == digits_value(digits.take(i - start)),
            beyond ==> digits_value(digits.take(i - start)) > EXPONENT_CAP,
        decreases n - i,
    {
        assert(digits[i - start] == text[i as int]);
        if !char_is_digit(text[i]) {
            assert(!is_digit(digits[i - start]));
            assert(!all_digits(digits));
            return None;
        }
        proof {
            lemma_digits_value_step(digits, i - start);
        }
        if !beyond {
            let next = value * 10 + char_digit_value(text[i]) as i128;
            if next > EXPONENT_CAP {
                beyond = true;
            } else {
                value = next;
            }
        }
        i += 1;
    }
    assert(digits.take(n - start) =~= digits);
    if beyond {
        Some(
            (
                if negative {
                    -EXPONENT_CAP - 1
                } else {
                    EXPONENT_CAP + 1
                },
                true,
            ),
        )
    } else {
        Some(
            (
                if negative {
                    -value
                } else {
                    value
                },
                false,
            ),
        )
    }
}

/// The number that the first `limit` of `digits` denote, or `None` if it
/// exceeds the largest `Decimal`.
fn leading_digits_value(digits: &Vec<char>, limit: usize) -> (result: Option<i64>)
    requires
        all_digits(digits@),
        limit <= digits.len(),
    ensures
        match result {
            Some(v) => v == leading_value(digits@, limit as int) && 0 <= v <= DECIMAL_MAX_UNITS,
            None => leading_value(digits@, limit as int) > DECIMAL_MAX_UNITS,
        },
{
    let mut value: i128 = 0;
    let mut exceeded = false;
    let mut i: usize = 0;
    while i < limit
        invariant
            i <= limit <= digits.len(),
            all_digits(digits@),
            0 <= value <= DECIMAL_MAX_UNITS,
            !exceeded ==> value == leading_value(digits@, i as int),
            exceeded ==> leading_value(digits@, i as int) > DECIMAL_MAX_UNITS,
        decreases limit - i,
    {
        proof {
            lemma_leading_value_step(digits@, i as int);
        }
        if !exceeded {
            let next = value * 10 + char_digit_value(digits[i]) as i128;
            if next > DECIMAL_MAX_UNITS as i128 {
                exceeded = true;
            } else {
                value = next;
            }
        }
        i += 1;
    }
    if exceeded {
        None
    } else {
        Some(value as i64)
    }
}

/// Whether every one of `digits` from position `from` on is a zero.
fn zeros_from(digits: &Vec<char>, from: usize) -> (result: bool)
    requires
        from <= digits.len(),
    ensures
        result == rest_is_zero(digits@, from as int),
{
    let mut i = from;
    while i < digits.len()
        invariant
            from <= i <= digits.len(),
            forall|j: int| from <= j < i ==> digits[j] == '0',
        decreases digits.len() - i,
    {
        if digits[i] != '0' {
            return false;
        }
        i += 1;
    }
    true
}

/// The digits of a mantissa whose point stands at `point`, in a row.
fn digits_in_a_row(mantissa: &Vec<char>, point: usize) -> (result: Vec<char>)
    requires
        point == point_position(mantissa@),
        point <= mantissa.len(),
    ensures
        result@ == whole_part(mantissa@) + fraction_part(mantissa@),
{
    let mut digits = sub_vector(mantissa.as_slice(), 0, point);
    assert(mantissa@.subrange(0, point as int) =~= mantissa@.take(point as int));
    if point < mantissa.len() {
        let mut rest = sub_vector(mantissa.as_slice(), point + 1, mantissa.len());
        assert(mantissa@.subrange(point + 1, mantissa.len() as int) =~= mantissa@.skip(point + 1));
        digits.append(&mut rest);
    } else {
        assert(digits@ + Seq::<char>::empty() =~= digits@);
    }
    digits
}

/// What the unsigned decimal `body` denotes.
fn read_unsigned(body: &[char]) -> (result: Result<(i64, bool), ReadError>)
    ensures
        match (result, unsigned_reading(body@)) {
            (Ok((units, exact)), Ok((expected, exactly))) => units == expected && exact == exactly
                && 0 <= units <= DECIMAL_MAX_UNITS,
            (Err(error), Err(expected)) => error == expected,
            _ => false,
        },
{
    let mark = find_mark(body);
    let mantissa = sub_vector(body, 0, mark);
    assert(body@.subrange(0, mark as int) =~= body@.take(mark as int));
    let exponent = if mark < body.len() {
        let text = sub_vector(body, mark + 1, body.len());
        assert(body@.subrange(mark + 1, body.len() as int) =~= body@.skip(mark + 1));
        read_exponent(text.as_slice())
    } else {
        Some((0, false))
    };
    assert(mantissa@.skip(0) =~= mantissa@);
    let point = match scan_body(mantissa.as_slice(), 0) {
        Some(point) => point,
        None => {
            return Err(ReadError::Malformed);
        },
    };
    assert(mantissa@.take(point as int) =~= whole_part(mantissa@));
    let (exponent, beyond) = match exponent {
        Some(read) => read,
        None => {
            return Err(ReadError::Malformed);
        },
    };
    let digits = digits_in_a_row(&mantissa, point);
    let n = digits.len();
    if n == 0 {
        return Err(ReadError::Malformed);
    }
    let ghost whole = whole_part(mantissa@);
    let ghost fraction = fraction_part(mantissa@);
    assert(all_digits(digits@)) by {
        assert forall|i: int| 0 <= i < digits@.len() implies is_digit(#[trigger] digits@[i]) by {
            if i < whole.len() {
                assert(digits@[i] == whole[i]);
            } else {
                assert(digits@[i] == fraction[i - whole.len()]);
            }
        }
    }
    let ghost true_exponent = if mark < body.len() {
        exponent_value(body@.skip(mark + 1)).unwrap()
    } else {
        0
    };
    let ghost count = whole.len() + true_exponent + 8;
    assert(whole.len() == point);
    if beyond && exponent < 0 {
        assert(count < 0);
        return Ok((0, zeros_from(&digits, 0)));
    }
    if !beyond {
        let reach: i128 = point as i128 + exponent + 8;
        assert(reach == count);
        if reach <= 0 {
            return Ok((0, zeros_from(&digits, 0)));
        }
        if reach < n as i128 {
            let limit = reach as usize;
            return match leading_digits_value(&digits, limit) {
                Some(units) => Ok((units, zeros_from(&digits, limit))),
                None => Err(ReadError::TooLarge),
            };
        }
    }
    // From here on every digit counts, and zeros follow them.
    assert(count >= n);
    proof {
        lemma_leading_value_grows(digits@, n as int, count);
    }
    let units = match leading_digits_value(&digits, n) {
        Some(units) => units,
        None => {
            return Err(ReadError::TooLarge);
        },
    };
    if units == 0 {
        proof {
            lemma_leading_value_stays_zero(digits@, n as int, count);
        }
        return Ok((0, true));
    }
    if beyond || point as i128 + exponent + 8 - n as i128 >= 19 {
        proof {
            lemma_leading_value_exceeds(digits@, n as int, count);
        }
        return Err(ReadError::TooLarge);
    }
    let reach: i128 = point as i128 + exponent + 8;
    let mut units: i128 = units as i128;
    let mut exceeded = false;
    let mut taken: i128 = n as i128;
    while taken < reach
        invariant
            n <= taken <= reach,
            n == digits.len(),
            reach < n + 19,
            0 <= units <= DECIMAL_MAX_UNITS,
            !exceeded ==> units == leading_value(digits@, taken as int),
            exceeded ==> leading_value(digits@, taken as int) > DECIMAL_MAX_UNITS,
        decreases reach - taken,
    {
        proof {
            lemma_leading_value_step(digits@, taken as int);
        }
        if !exceeded {
            let next = units * 10;
            if next > DECIMAL_MAX_UNITS as i128 {
                exceeded = true;
            } else {
                units = next;
            }
        }
        taken += 1;
    }
    if exceeded {
        Err(ReadError::TooLarge)
    } else {
        Ok((units as i64, true))
    }
}

/// A decimal as read from text.
#[derive(Clone, Copy, Debug)]
pub struct Reading {
    /// The decimal read, rounded toward zero to hundred-millionths.
    pub value: Decimal,
    /// Whether the text denotes `value` exactly: no digit that was dropped
    /// is other than zero.
    pub exact: bool,
}

/// What the characters `chars` denote as a decimal.
pub fn read_decimal(chars: &[char]) -> (result: Result<Reading, ReadError>)
    ensures
        match (result, decimal_reading(chars@)) {
            (Ok(reading), Ok((units, exact))) => reading.value@ == units && reading.exact == exact,
            (Err(error), Err(expected)) => error == expected,
            _ => false,
        },
{
    let n = chars.len();
    let signed = n > 0 && (chars[0] == '-' || chars[0] == '+');
    let negative = signed && chars[0] == '-';
    let body = if signed {
        sub_vector(chars, 1, n)
    } else {
        sub_vector(chars, 0, n)
    };
    assert(signed ==> chars@.subrange(1, n as int) =~= chars@.skip(1));
    assert(!signed ==> chars@.subrange(0, n as int) =~= chars@);
    match read_unsigned(body.as_slice()) {
        Ok((units, exact)) => Ok(
            Reading {
                value: Decimal::from_units(
                    if negative {
                        -units
                    } else {
                        units
                    },
                ),
                exact,
            },
        ),
        Err(error) => Err(error),
    }
}

/// The decimal that the characters `chars` denote, if they denote one.
pub fn parse_decimal(chars: &[char]) -> (result: Option<Decimal>)
    ensures
        result is Some <==> decimal_units(chars@) is Some,
        result is Some ==> result.unwrap()@ == decimal_units(chars@).unwrap(),
{
    match read_decimal(chars) {
        Ok(reading) => Some(reading.value),
        Err(_) => None,
    }
}

impl Decimal {
    /// What `text` denotes as a decimal: its hundred-millionths, rounded
    /// toward zero, and whether they are the number exactly; or why `text`
    /// is not read.
    pub fn read(text: &str) -> (result: Result<Reading, ReadError>)
        ensures
            match (result, decimal_reading(text@)) {
                (Ok(reading), Ok((units, exact))) => reading.value@ == units && reading.exact
                    == exact,
                (Err(error), Err(expected)) => error == expected,
                _ => false,
            },
    {
        let chars = characters(text);
        read_decimal(chars.as_slice())
    }

    /// The decimal that `text` denotes, rounded toward zero to
    /// hundred-millionths, if it denotes one within range.
    pub fn parse(text: &str) -> (result: Option<Decimal>)
        ensures
            result is Some <==> decimal_units(text@) is Some,
            result is Some ==> result.unwrap()@ == decimal_units(text@).unwrap(),
    {
        let chars = characters(text);
        parse_decimal(chars.as_slice())
    }
}

/// Whether two strings hold the same characters.
pub fn same_text(a: &str, b: &str) -> (result: bool)
    ensures
        result == (a@ == b@),
{
    let x = a.as_bytes();
    let y = b.as_bytes();
    proof {
        vstd::utf8::encode_utf8_decode_utf8(a@);
        vstd::utf8::encode_utf8_decode_utf8(b@);
    }
    if x.len() != y.len() {
        return false;
    }
    let mut i: usize = 0;
    while i < x.len()
        invariant
            i <= x.len(),
            x.len() == y.len(),
            x@ == a.spec_bytes(),
            y@ == b.spec_bytes(),
            a@ == vstd::utf8::decode_utf8(a.spec_bytes()),
            b@ == vstd::utf8::decode_utf8(b.spec_bytes()),
            forall|j: int| 0 <= j < i ==> x[j] == y[j],
        decreases x.len() - i,
    {
        if x[i] != y[i] {
            return false;
        }
        i += 1;
    }
    assert(x@ =~= y@);
    true
}

} // verus!
