//! What holds of reading, writing and the statistics, whatever the roll.

use vstd::prelude::*;

use crate::decimal::{decimal, is_digit, lemma_decimal_is_numeral, lemma_numeral_is_decimal};
use crate::error::EvError;
use crate::parser::{
    after_number, digit_run, lemma_digit_run, lemma_digit_run_from_prefix, lemma_number_range,
    max_extra_size, spec_extra, spec_number, spec_parse, spec_parse_faces, MAX_COUNT,
};
use crate::roll::Roll;

verus! {

/// Whether `s` is empty or starts with something that is no digit.
pub open spec fn no_digit_ahead(s: Seq<char>) -> bool {
    s.len() == 0 || !is_digit(s[0])
}

/// The sign of a malus, or of a bonus.
pub open spec fn sign_char(negative: bool) -> char {
    if negative {
        '-'
    } else {
        '+'
    }
}

/// Reading a numeral that nothing prolongs gives its number, or
/// `too_large` where the field cannot hold it, and leaves what follows.
pub proof fn lemma_read_numeral(
    n: nat,
    rest: Seq<char>,
    max: nat,
    missing: EvError,
    too_large: EvError,
)
    requires
        n >= 1,
        no_digit_ahead(rest),
    ensures
        after_number(decimal(n) + rest) == rest,
        spec_number(decimal(n) + rest, max, missing, too_large) == if n <= max {
            Ok::<nat, EvError>(n)
        } else {
            Err::<nat, EvError>(too_large)
        },
{
    let numeral = decimal(n);
    let s = numeral + rest;
    lemma_decimal_is_numeral(n);
    assert(s.take(numeral.len() as int) =~= numeral);
    lemma_digit_run_from_prefix(s, numeral.len() as int);
    assert(s.skip(numeral.len() as int) =~= rest);
}

/// A number that starts with `0` is not the notation, whichever field it is read for.
pub proof fn lemma_read_leading_zero(
    s: Seq<char>,
    max: nat,
    missing: EvError,
    too_large: EvError,
)
    requires
        s.len() > 0,
        s[0] == '0',
    ensures
        spec_number(s, max, missing, too_large) == Err::<nat, EvError>(EvError::InvalidFormat),
{
    lemma_digit_run(s);
    assert(s.take(digit_run(s) as int)[0] == s[0]);
}

/// Reading a numeral at the start of a text: a number of dice within range
/// leaves the rest to be read, and one above it is too many dice.
pub proof fn lemma_parse_dice(dice: nat, rest: Seq<char>)
    requires
        dice >= 1,
        no_digit_ahead(rest),
    ensures
        spec_parse(decimal(dice) + rest) == if dice <= MAX_COUNT {
            spec_parse_faces(dice, rest)
        } else {
            Err::<Roll, EvError>(EvError::TooManyDice)
        },
{
    lemma_read_numeral(
        dice,
        rest,
        MAX_COUNT as nat,
        EvError::MissingNumberOfDice,
        EvError::TooManyDice,
    );
}

/// Reading `d` and a numeral after the number of dice: a number of faces
/// within range leaves the bonus to be read, and one above it is too many faces.
pub proof fn lemma_parse_faces(dice: nat, faces: nat, rest: Seq<char>)
    requires
        faces >= 1,
        no_digit_ahead(rest),
    ensures
        spec_parse_faces(dice, seq!['d'] + decimal(faces) + rest) == if faces > MAX_COUNT {
            Err::<Roll, EvError>(EvError::TooManySides)
        } else {
            match spec_extra(rest) {
                Err(e) => Err::<Roll, EvError>(e),
                Ok(extra) => Ok::<Roll, EvError>(
                    Roll { num_dice: dice as u16, num_faces: faces as u16, extra: extra as i16 },
                ),
            }
        },
{
    let s = seq!['d'] + decimal(faces) + rest;
    assert(s.skip(1) =~= decimal(faces) + rest);
    lemma_read_numeral(
        faces,
        rest,
        MAX_COUNT as nat,
        EvError::MissingNumberOfSides,
        EvError::TooManySides,
    );
}

/// Reading a sign and a numeral after the number of faces: a size within
/// range is the bonus if the text ends there, and one above it is too large.
pub proof fn lemma_read_extra(negative: bool, size: nat, rest: Seq<char>)
    requires
        size >= 1,
        no_digit_ahead(rest),
    ensures
        spec_extra(seq![sign_char(negative)] + decimal(size) + rest) == if size > max_extra_size(
            negative,
        ) {
            Err::<int, EvError>(EvError::ExtraTooLarge)
        } else if rest.len() > 0 {
            Err::<int, EvError>(EvError::InvalidFormat)
        } else if negative {
            Ok::<int, EvError>(-(size as int))
        } else {
            Ok::<int, EvError>(size as int)
        },
{
    let s = seq![sign_char(negative)] + decimal(size) + rest;
    assert(s[0] == sign_char(negative));
    assert(s.skip(1) =~= decimal(size) + rest);
    lemma_read_numeral(
        size,
        rest,
        max_extra_size(negative),
        EvError::MissingExtra,
        EvError::ExtraTooLarge,
    );
}

/// Reading the bonus from its notation gives the bonus.
proof fn lemma_read_extra_notation(roll: Roll)
    ensures
        spec_extra(roll.spec_extra_notation()) == Ok::<int, EvError>(roll.extra as int),
{
    if roll.extra != 0 {
        let negative = roll.extra < 0;
        let size = if negative {
            (-roll.extra) as nat
        } else {
            roll.extra as nat
        };
        let empty = Seq::<char>::empty();
        assert(roll.spec_extra_notation() =~= seq![sign_char(negative)] + decimal(size) + empty);
        lemma_read_extra(negative, size, empty);
    }
}

/// Reading what a roll is written as gives the roll back.
///
/// The notation leaves a bonus of zero out, and reading a text without a
/// bonus gives a bonus of zero, so this holds of every roll.
pub proof fn law_parse_inverts_to_string(roll: Roll)
    requires
        roll.wf(),
    ensures
        spec_parse(roll.spec_to_string()) == Ok::<Roll, EvError>(roll),
{
    let dice = roll.num_dice as nat;
    let faces = roll.num_faces as nat;
    let extra = roll.spec_extra_notation();
    let tail = seq!['d'] + decimal(faces) + extra;
    assert(roll.spec_to_string() =~= decimal(dice) + tail);
    lemma_parse_dice(dice, tail);
    lemma_parse_faces(dice, faces, extra);
    lemma_read_extra_notation(roll);
}

/// A number that was read stands in the text as its numeral.
proof fn lemma_number_is_numeral(s: Seq<char>, max: nat, missing: EvError, too_large: EvError)
    ensures
        spec_number(s, max, missing, too_large) matches Ok(n) ==> s == decimal(n) + after_number(s),
{
    let digits = s.take(digit_run(s) as int);
    lemma_digit_run(s);
    if spec_number(s, max, missing, too_large) is Ok {
        lemma_numeral_is_decimal(digits);
        assert(s =~= digits + after_number(s));
    }
}

/// A bonus that was read stands in the text as its notation.
proof fn lemma_extra_is_notation(s: Seq<char>, roll: Roll)
    requires
        spec_extra(s) == Ok::<int, EvError>(roll.extra as int),
    ensures
        s == roll.spec_extra_notation(),
{
    if s.len() > 0 {
        let t = s.skip(1);
        let max = max_extra_size(s[0] == '-');
        lemma_number_is_numeral(t, max, EvError::MissingExtra, EvError::ExtraTooLarge);
        lemma_number_range(t, max, EvError::MissingExtra, EvError::ExtraTooLarge);
        assert(after_number(t) =~= Seq::<char>::empty());
        assert(s =~= seq![s[0]] + t);
    }
    assert(s =~= roll.spec_extra_notation());
}

/// Only the notation of a roll reads as that roll: a text that reads as
/// a roll is what that roll is written as, and the roll is a valid one.
pub proof fn law_parse_accepts_only_to_string(s: Seq<char>, roll: Roll)
    requires
        spec_parse(s) == Ok::<Roll, EvError>(roll),
    ensures
        roll.wf(),
        s == roll.spec_to_string(),
{
    let count = MAX_COUNT as nat;
    lemma_number_is_numeral(s, count, EvError::MissingNumberOfDice, EvError::TooManyDice);
    lemma_number_range(s, count, EvError::MissingNumberOfDice, EvError::TooManyDice);
    let s1 = after_number(s);
    let s2 = s1.skip(1);
    assert(s1 =~= seq!['d'] + s2);
    lemma_number_is_numeral(s2, count, EvError::MissingNumberOfSides, EvError::TooManySides);
    lemma_number_range(s2, count, EvError::MissingNumberOfSides, EvError::TooManySides);
    let s3 = after_number(s2);
    assert(spec_extra(s3) == Ok::<int, EvError>(roll.extra as int)) by {
        if s3.len() > 0 {
            lemma_number_range(
                s3.skip(1),
                max_extra_size(s3[0] == '-'),
                EvError::MissingExtra,
                EvError::ExtraTooLarge,
            );
        }
    }
    lemma_extra_is_notation(s3, roll);
    assert(s =~= roll.spec_to_string());
}

/// A number of dice above 65535 is too many dice, whatever follows the number.
pub proof fn law_dice_above_range(dice: nat, rest: Seq<char>)
    requires
        dice > MAX_COUNT,
        no_digit_ahead(rest),
    ensures
        spec_parse(decimal(dice) + rest) == Err::<Roll, EvError>(EvError::TooManyDice),
{
    lemma_parse_dice(dice, rest);
}

/// After a good number of dice, a number of faces above 65535 is too many
/// faces, whatever follows the number.
pub proof fn law_faces_above_range(dice: nat, faces: nat, rest: Seq<char>)
    requires
        1 <= dice <= MAX_COUNT,
        faces > MAX_COUNT,
        no_digit_ahead(rest),
    ensures
        spec_parse(decimal(dice) + seq!['d'] + decimal(faces) + rest) == Err::<Roll, EvError>(
            EvError::TooManySides,
        ),
{
    let tail = seq!['d'] + decimal(faces) + rest;
    assert(decimal(dice) + seq!['d'] + decimal(faces) + rest =~= decimal(dice) + tail);
    lemma_parse_dice(dice, tail);
    lemma_parse_faces(dice, faces, rest);
}

/// After good numbers of dice and of faces, a bonus above 32767 and a malus
/// above 32768 are too large, whatever follows the number.
pub proof fn law_extra_above_range(
    dice: nat,
    faces: nat,
    negative: bool,
    size: nat,
    rest: Seq<char>,
)
    requires
        1 <= dice <= MAX_COUNT,
        1 <= faces <= MAX_COUNT,
        size > max_extra_size(negative),
        no_digit_ahead(rest),
    ensures
        spec_parse(
            decimal(dice) + seq!['d'] + decimal(faces) + seq![sign_char(negative)] + decimal(size)
                + rest,
        ) == Err::<Roll, EvError>(EvError::ExtraTooLarge),
{
    let extra = seq![sign_char(negative)] + decimal(size) + rest;
    let tail = seq!['d'] + decimal(faces) + extra;
    assert(decimal(dice) + seq!['d'] + decimal(faces) + seq![sign_char(negative)] + decimal(size)
        + rest =~= decimal(dice) + tail);
    lemma_parse_dice(dice, tail);
    lemma_parse_faces(dice, faces, extra);
    lemma_read_extra(negative, size, rest);
}

/// A number of dice that starts with `0` is not the notation.
pub proof fn law_dice_leading_zero(s: Seq<char>)
    requires
        s.len() > 0,
        s[0] == '0',
    ensures
        spec_parse(s) == Err::<Roll, EvError>(EvError::InvalidFormat),
{
    lemma_read_leading_zero(
        s,
        MAX_COUNT as nat,
        EvError::MissingNumberOfDice,
        EvError::TooManyDice,
    );
}

/// After a good number of dice, a number of faces that starts with `0` is
/// not the notation.
pub proof fn law_faces_leading_zero(dice: nat, s: Seq<char>)
    requires
        1 <= dice <= MAX_COUNT,
        s.len() > 0,
        s[0] == '0',
    ensures
        spec_parse(decimal(dice) + seq!['d'] + s) == Err::<Roll, EvError>(
            EvError::InvalidFormat,
        ),
{
    let tail = seq!['d'] + s;
    assert(decimal(dice) + seq!['d'] + s =~= decimal(dice) + tail);
    lemma_parse_dice(dice, tail);
    assert(tail.skip(1) =~= s);
    lemma_read_leading_zero(
        s,
        MAX_COUNT as nat,
        EvError::MissingNumberOfSides,
        EvError::TooManySides,
    );
}

/// After good numbers of dice and of faces and a sign, a number that starts
/// with `0` is not the notation.
pub proof fn law_extra_leading_zero(dice: nat, faces: nat, negative: bool, s: Seq<char>)
    requires
        1 <= dice <= MAX_COUNT,
        1 <= faces <= MAX_COUNT,
        s.len() > 0,
        s[0] == '0',
    ensures
        spec_parse(decimal(dice) + seq!['d'] + decimal(faces) + seq![sign_char(negative)] + s)
            == Err::<Roll, EvError>(EvError::InvalidFormat),
{
    let extra = seq![sign_char(negative)] + s;
    let tail = seq!['d'] + decimal(faces) + extra;
    assert(decimal(dice) + seq!['d'] + decimal(faces) + seq![sign_char(negative)] + s
        =~= decimal(dice) + tail);
    lemma_parse_dice(dice, tail);
    lemma_parse_faces(dice, faces, extra);
    assert(extra.skip(1) =~= s);
    lemma_read_leading_zero(
        s,
        max_extra_size(negative),
        EvError::MissingExtra,
        EvError::ExtraTooLarge,
    );
}

/// The expected outcome lies between the smallest and the largest.
pub proof fn law_ev_between_min_and_max(roll: Roll)
    requires
        roll.wf(),
    ensures
        2 * roll.spec_min() <= roll.spec_ev_doubled() <= 2 * roll.spec_max(),
{
    let dice = roll.num_dice as int;
    let faces = roll.num_faces as int;
    assert(2 * dice <= dice * (faces + 1) <= 2 * (dice * faces)) by (nonlinear_arith)
        requires
            dice >= 1,
            faces >= 1,
    ;
}

/// The expected outcome of one die of `n` faces, without a bonus, is
/// `(n + 1) / 2` exactly: twice as much is `n + 1`.
pub proof fn law_ev_of_one_die(n: u16)
    ensures
        (Roll { num_dice: 1, num_faces: n, extra: 0 }).spec_ev_doubled() == n + 1,
{
}

} // verus!
