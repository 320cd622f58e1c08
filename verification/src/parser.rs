//! Reading a roll from its notation.
//!
//! ```text
//! int      ::= '1'..'9' { '0'..'9' }
//! modifier ::= ('+' | '-') int
//! roll     ::= int 'd' int [ modifier ]
//! ```
//!
//! The whole text must be a `roll`. It is read from left to right, and the
//! first thing that is out of place decides the error.

use vstd::prelude::*;

use crate::decimal::{
    all_digits, decimal_value, is_digit, lemma_decimal_value_bounds, lemma_decimal_value_push,
    lemma_pow10_increases, pow10,
};
use crate::error::EvError;
use crate::laws::law_parse_accepts_only_to_string;
use crate::roll::Roll;
use crate::text::{ascii_at, ascii_prefix, is_ascii_char, skip_ascii};

verus! {

/// The most digits that a number of a roll can have.
pub const MAX_DIGITS: usize = 5;

/// The greatest number of dice, and of faces.
pub const MAX_COUNT: u32 = 65535;

/// The greatest bonus.
pub const MAX_BONUS: u32 = 32767;

/// The size of the greatest malus.
pub const MAX_MALUS: u32 = 32768;

/// How many digits open `s`.
pub open spec fn digit_run(s: Seq<char>) -> nat
    decreases s.len(),
{
    if s.len() > 0 && is_digit(s[0]) {
        1 + digit_run(s.drop_first())
    } else {
        0
    }
}

/// What [`read_digits`] counts: the digits that open `s`, but no further
/// than one past `MAX_DIGITS`, which is enough to know that there are too many.
pub open spec fn spec_read_digits(s: Seq<char>) -> nat {
    if digit_run(s) <= MAX_DIGITS {
        digit_run(s)
    } else {
        (MAX_DIGITS + 1) as nat
    }
}

/// The number that opens `s`, for a field that holds at most `max`.
///
/// The number is the longest run of digits at the start of `s`. Where there
/// is no digit the result is `missing`; a first digit `0` is not
/// the notation; a number above `max` is `too_large`.
pub open spec fn spec_number(
    s: Seq<char>,
    max: nat,
    missing: EvError,
    too_large: EvError,
) -> Result<nat, EvError> {
    let digits = s.take(digit_run(s) as int);
    if digits.len() == 0 {
        Err(missing)
    } else if digits[0] == '0' {
        Err(EvError::InvalidFormat)
    } else if decimal_value(digits) > max {
        Err(too_large)
    } else {
        Ok(decimal_value(digits))
    }
}

/// What follows the number that opens `s`.
pub open spec fn after_number(s: Seq<char>) -> Seq<char> {
    s.skip(digit_run(s) as int)
}

/// The greatest size of a malus, or of a bonus.
pub open spec fn max_extra_size(negative: bool) -> nat {
    if negative {
        MAX_MALUS as nat
    } else {
        MAX_BONUS as nat
    }
}

/// The bonus that `s` writes, where `s` is all that follows the number of
/// faces: nothing for zero, or a sign and a number.
pub open spec fn spec_extra(s: Seq<char>) -> Result<int, EvError> {
    if s.len() == 0 {
        Ok(0)
    } else if s[0] == '+' || s[0] == '-' {
        let negative = s[0] == '-';
        let t = s.skip(1);
        match spec_number(
            t,
            max_extra_size(negative),
            EvError::MissingExtra,
            EvError::ExtraTooLarge,
        ) {
            Err(e) => Err(e),
            Ok(size) => if after_number(t).len() > 0 {
                Err(EvError::InvalidFormat)
            } else if negative {
                Ok(-(size as int))
            } else {
                Ok(size as int)
            },
        }
    } else {
        Err(EvError::InvalidFormat)
    }
}

/// The roll of `dice` dice that `s` completes, where `s` is all that follows
/// the number of dice: `d`, the number of faces, and the bonus if there is one.
pub open spec fn spec_parse_faces(dice: nat, s: Seq<char>) -> Result<Roll, EvError> {
    if s.len() == 0 || s[0] != 'd' {
        Err(EvError::InvalidFormat)
    } else {
        let t = s.skip(1);
        match spec_number(
            t,
            MAX_COUNT as nat,
            EvError::MissingNumberOfSides,
            EvError::TooManySides,
        ) {
            Err(e) => Err(e),
            Ok(faces) => match spec_extra(after_number(t)) {
                Err(e) => Err(e),
                Ok(extra) => Ok(
                    Roll { num_dice: dice as u16, num_faces: faces as u16, extra: extra as i16 },
                ),
            },
        }
    }
}

/// The roll that `s` writes, or the reason for which it writes none.
pub open spec fn spec_parse(s: Seq<char>) -> Result<Roll, EvError> {
    match spec_number(
        s,
        MAX_COUNT as nat,
        EvError::MissingNumberOfDice,
        EvError::TooManyDice,
    ) {
        Err(e) => Err(e),
        Ok(dice) => spec_parse_faces(dice, after_number(s)),
    }
}

/// A text that opens with `n` digits opens with at least `n` digits, and
/// with exactly `n` if it ends there or goes on with something else.
pub proof fn lemma_digit_run_from_prefix(s: Seq<char>, n: int)
    requires
        0 <= n <= s.len(),
        all_digits(s.take(n)),
    ensures
        digit_run(s) >= n,
        n == s.len() || !is_digit(s[n]) ==> digit_run(s) == n,
    decreases n,
{
    if n > 0 {
        let tail = s.drop_first();
        assert(s.take(n)[0] == s[0]);
        assert(all_digits(tail.take(n - 1))) by {
            assert forall|i: int| 0 <= i < n - 1 implies is_digit(
                #[trigger] tail.take(n - 1)[i],
            ) by {
                assert(tail.take(n - 1)[i] == s.take(n)[i + 1]);
            }
        }
        lemma_digit_run_from_prefix(tail, n - 1);
        if n < s.len() {
            assert(tail[n - 1] == s[n]);
        }
    }
}

/// The digits that open a text are digits, and what follows them is none.
pub proof fn lemma_digit_run(s: Seq<char>)
    ensures
        digit_run(s) <= s.len(),
        all_digits(s.take(digit_run(s) as int)),
        digit_run(s) < s.len() ==> !is_digit(s[digit_run(s) as int]),
    decreases s.len(),
{
    if s.len() > 0 && is_digit(s[0]) {
        let tail = s.drop_first();
        lemma_digit_run(tail);
        let n = digit_run(s) as int;
        assert forall|i: int| 0 <= i < n implies is_digit(#[trigger] s.take(n)[i]) by {
            if i > 0 {
                assert(s.take(n)[i] == tail.take(n - 1)[i - 1]);
            }
        }
        if n < s.len() {
            assert(s[n] == tail[n - 1]);
        }
    }
}

/// A number that is read is at least one and at most the greatest that its
/// field holds.
pub proof fn lemma_number_range(s: Seq<char>, max: nat, missing: EvError, too_large: EvError)
    ensures
        spec_number(s, max, missing, too_large) matches Ok(value) ==> 1 <= value <= max,
{
    let digits = s.take(digit_run(s) as int);
    lemma_digit_run(s);
    if digits.len() > 0 && digits[0] != '0' {
        lemma_decimal_value_bounds(digits);
        lemma_pow10_increases(0, (digits.len() - 1) as nat);
    }
}

/// Digits are ASCII.
pub proof fn lemma_digits_are_ascii(s: Seq<char>, n: int)
    requires
        0 <= n <= s.len(),
        all_digits(s.take(n)),
    ensures
        ascii_prefix(s, n),
{
    assert forall|i: int| 0 <= i < n implies is_ascii_char(#[trigger] s[i]) by {
        assert(is_digit(s.take(n)[i]));
    }
}

/// Counts the digits that open `s`, up to one past `MAX_DIGITS`.
pub fn read_digits(s: &str) -> (n: usize)
    ensures
        n == spec_read_digits(s@),
{
    let mut i: usize = 0;
    loop
        invariant
            i <= MAX_DIGITS + 1,
            i <= s@.len(),
            all_digits(s@.take(i as int)),
        ensures
            i <= s@.len(),
            all_digits(s@.take(i as int)),
            i == MAX_DIGITS + 1 || i == s@.len() || !is_digit(s@[i as int]),
        decreases MAX_DIGITS + 1 - i,
    {
        if i > MAX_DIGITS {
            break;
        }
        proof {
            lemma_digits_are_ascii(s@, i as int);
        }
        match ascii_at(s, i) {
            Some(code) => {
                if code < '0' as u8 || code > '9' as u8 {
                    break;
                }
            },
            None => {
                break;
            },
        }
        proof {
            assert(is_digit(s@[i as int]));
            assert forall|j: int| 0 <= j < i + 1 implies is_digit(
                #[trigger] s@.take(i + 1)[j],
            ) by {
                if j < i {
                    assert(s@.take(i + 1)[j] == s@.take(i as int)[j]);
                }
            }
        }
        i += 1;
    }
    proof {
        lemma_digit_run_from_prefix(s@, i as int);
    }
    i
}

/// The number that the first `n` characters of `s` write, which must be digits.
fn digits_value(s: &str, n: usize) -> (value: u32)
    requires
        n <= MAX_DIGITS,
        n <= s@.len(),
        all_digits(s@.take(n as int)),
    ensures
        value == decimal_value(s@.take(n as int)),
{
    let mut value: u32 = 0;
    let mut i: usize = 0;
    while i < n
        invariant
            i <= n <= MAX_DIGITS,
            n <= s@.len(),
            all_digits(s@.take(n as int)),
            value == decimal_value(s@.take(i as int)),
            value < pow10(i as nat),
        decreases n - i,
    {
        proof {
            lemma_digits_are_ascii(s@, n as int);
            assert(is_digit(s@.take(n as int)[i as int]));
            lemma_pow10_increases(i as nat, 4);
            reveal_with_fuel(pow10, 6);
            lemma_decimal_value_push(s@.take(i as int), s@[i as int]);
            assert(s@.take(i as int).push(s@[i as int]) =~= s@.take(i + 1));
        }
        let code = ascii_at(s, i).unwrap();
        value = value * 10 + (code - '0' as u8) as u32;
        i += 1;
    }
    value
}

/// Reads the number that opens `s`, for a field that holds at most `max`,
/// and gives it with the text that follows it.
fn read_number<'a>(
    s: &'a str,
    max: u32,
    missing: EvError,
    too_large: EvError,
) -> (res: Result<(u32, &'a str), EvError>)
    requires
        max < pow10(MAX_DIGITS as nat),
    ensures
        match res {
            Ok((value, rest)) => {
                &&& spec_number(s@, max as nat, missing, too_large) == Ok::<nat, EvError>(
                    value as nat,
                )
                &&& rest@ == after_number(s@)
                &&& 1 <= value <= max
            },
            Err(e) => spec_number(s@, max as nat, missing, too_large) == Err::<nat, EvError>(e),
        },
{
    let n = read_digits(s);
    let ghost digits = s@.take(digit_run(s@) as int);
    proof {
        lemma_digit_run(s@);
        lemma_digits_are_ascii(s@, digit_run(s@) as int);
    }
    if n == 0 {
        return Err(missing);
    }
    assert(digits[0] == s@[0]);
    if starts_with(s, '0') {
        return Err(EvError::InvalidFormat);
    }
    if n > MAX_DIGITS {
        proof {
            lemma_decimal_value_bounds(digits);
            lemma_pow10_increases(MAX_DIGITS as nat, (digits.len() - 1) as nat);
        }
        return Err(too_large);
    }
    let value = digits_value(s, n);
    if value > max {
        return Err(too_large);
    }
    proof {
        lemma_number_range(s@, max as nat, missing, too_large);
    }
    Ok((value, skip_ascii(s, n)))
}

/// Whether `s` opens with the ASCII character `c`.
fn starts_with(s: &str, c: char) -> (yes: bool)
    requires
        is_ascii_char(c),
    ensures
        yes <==> s@.len() > 0 && s@[0] == c,
{
    match ascii_at(s, 0) {
        Some(code) => code == c as u8,
        None => false,
    }
}

/// Reads the bonus from `s`, which is all that follows the number of faces.
fn read_extra(s: &str) -> (res: Result<i16, EvError>)
    ensures
        match res {
            Ok(extra) => spec_extra(s@) == Ok::<int, EvError>(extra as int),
            Err(e) => spec_extra(s@) == Err::<int, EvError>(e),
        },
{
    if s.is_empty() {
        return Ok(0);
    }
    let negative = starts_with(s, '-');
    if !negative && !starts_with(s, '+') {
        return Err(EvError::InvalidFormat);
    }
    let max = if negative {
        MAX_MALUS
    } else {
        MAX_BONUS
    };
    proof {
        reveal_with_fuel(pow10, 6);
    }
    match read_number(skip_ascii(s, 1), max, EvError::MissingExtra, EvError::ExtraTooLarge) {
        Err(e) => Err(e),
        Ok((size, rest)) => {
            if !rest.is_empty() {
                Err(EvError::InvalidFormat)
            } else if negative {
                Ok((-(size as i32)) as i16)
            } else {
                Ok(size as i16)
            }
        },
    }
}

/// Reads a roll from its notation, `XdY`, `XdY+Z` or `XdY-Z`.
///
/// The text must be the notation and nothing else: the caller takes off
/// whatever surrounds it.
pub fn parse(roll_desc: &str) -> (res: Result<Roll, EvError>)
    ensures
        res == spec_parse(roll_desc@),
        res matches Ok(roll) ==> roll.wf() && roll_desc@ == roll.spec_to_string(),
{
    proof {
        reveal_with_fuel(pow10, 6);
        if let Ok(roll) = spec_parse(roll_desc@) {
            law_parse_accepts_only_to_string(roll_desc@, roll);
        }
    }
    let (dice, rest) = match read_number(
        roll_desc,
        MAX_COUNT,
        EvError::MissingNumberOfDice,
        EvError::TooManyDice,
    ) {
        Ok(found) => found,
        Err(e) => {
            return Err(e);
        },
    };
    if !starts_with(rest, 'd') {
        return Err(EvError::InvalidFormat);
    }
    let (faces, rest) = match read_number(
        skip_ascii(rest, 1),
        MAX_COUNT,
        EvError::MissingNumberOfSides,
        EvError::TooManySides,
    ) {
        Ok(found) => found,
        Err(e) => {
            return Err(e);
        },
    };
    match read_extra(rest) {
        Ok(extra) => Ok(Roll::new(dice as u16, faces as u16, extra)),
        Err(e) => Err(e),
    }
}

} // verus!
