//! A roll of dice, its statistics and how they are written.
//!
//! The statistics are exact. The smallest and the largest outcome are whole
//! numbers. The expected outcome of a die of `n` faces is `(n + 1) / 2`, so
//! that of a roll is a whole number of halves: it is kept as twice its value.

use vstd::prelude::*;
use vstd::string::*;

use crate::decimal::{
    decimal, halves_decimal, push_decimal, push_halves_decimal, push_signed_decimal,
    signed_decimal,
};

verus! {

/// How the statistics of a roll are laid out.
#[derive(Debug, Clone, Copy, PartialEq, Eq, Structural)]
pub enum OutputStyle {
    /// All on one line, for other programs to read.
    SingleLine,
    /// One line for each statistic, for people to read.
    MultiLine,
}

/// An expected outcome: a whole number of halves, held as twice its value.
#[derive(Debug, Clone, Copy, PartialEq, Eq, Structural)]
pub struct ExpectedValue {
    /// Twice the expected outcome.
    pub doubled: i64,
}

impl ExpectedValue {
    /// The expected outcome as it is written: `7`, `3.5`, `-0.5`.
    pub open spec fn spec_to_string(&self) -> Seq<char> {
        halves_decimal(self.doubled as int)
    }

    /// Writes the expected outcome in base ten, with `.5` after the whole
    /// part where there is a half.
    pub fn to_string(&self) -> (text: String)
        ensures
            text@ == self.spec_to_string(),
    {
        let mut text = String::new();
        push_halves_decimal(&mut text, self.doubled);
        text
    }
}

/// A roll of dice: `num_dice` dice of `num_faces` faces each, numbered from
/// one, and a bonus `extra` that is added once to their sum.
#[derive(Debug, Clone, Copy, PartialEq, Eq, Structural)]
pub struct Roll {
    /// How many dice are thrown.
    pub num_dice: u16,
    /// How many faces each die has.
    pub num_faces: u16,
    /// What is added to the sum of the dice.
    pub extra: i16,
}

impl Roll {
    /// A roll has at least one die, and its dice have at least one face.
    pub open spec fn wf(&self) -> bool {
        self.num_dice >= 1 && self.num_faces >= 1
    }

    /// The smallest outcome: every die shows one.
    pub open spec fn spec_min(&self) -> int {
        self.num_dice + self.extra
    }

    /// The largest outcome: every die shows its last face.
    pub open spec fn spec_max(&self) -> int {
        self.num_dice * self.num_faces + self.extra
    }

    /// Twice the expected outcome, which is
    /// `num_dice * (num_faces + 1) / 2 + extra`.
    pub open spec fn spec_ev_doubled(&self) -> int {
        self.num_dice * (self.num_faces + 1) + 2 * self.extra
    }

    /// The bonus as the notation has it: nothing for zero, else its sign and its size.
    pub open spec fn spec_extra_notation(&self) -> Seq<char> {
        if self.extra == 0 {
            Seq::<char>::empty()
        } else if self.extra > 0 {
            seq!['+'] + decimal(self.extra as nat)
        } else {
            seq!['-'] + decimal((-self.extra) as nat)
        }
    }

    /// The notation of the roll: `XdY`, `XdY+Z` or `XdY-Z`.
    pub open spec fn spec_to_string(&self) -> Seq<char> {
        decimal(self.num_dice as nat) + seq!['d'] + decimal(self.num_faces as nat)
            + self.spec_extra_notation()
    }

    /// The statistics on one line: the notation, the smallest, the largest
    /// and the expected outcome, with one space between them.
    pub open spec fn spec_print(&self) -> Seq<char> {
        self.spec_to_string() + " "@ + signed_decimal(self.spec_min()) + " "@ + signed_decimal(
            self.spec_max(),
        ) + " "@ + halves_decimal(self.spec_ev_doubled())
    }

    /// The statistics on four lines: the notation, then each statistic under its name.
    pub open spec fn spec_pretty_print(&self) -> Seq<char> {
        self.spec_to_string() + ":\n\tmin: "@ + signed_decimal(self.spec_min()) + "\n\tmax: "@
            + signed_decimal(self.spec_max()) + "\n\tev : "@ + halves_decimal(
            self.spec_ev_doubled(),
        )
    }

    /// The statistics laid out in the given style.
    pub open spec fn spec_render(&self, style: OutputStyle) -> Seq<char> {
        match style {
            OutputStyle::SingleLine => self.spec_print(),
            OutputStyle::MultiLine => self.spec_pretty_print(),
        }
    }

    /// The roll of `num_dice` dice of `num_faces` faces with the bonus `extra`.
    pub fn new(num_dice: u16, num_faces: u16, extra: i16) -> (roll: Self)
        requires
            num_dice >= 1,
            num_faces >= 1,
        ensures
            roll == (Roll { num_dice, num_faces, extra }),
            roll.wf(),
    {
        Roll { num_dice, num_faces, extra }
    }

    /// The expected outcome: that of one die, `(num_faces + 1) / 2`, for each
    /// die, and the bonus. For one die without bonus that is `(num_faces + 1) / 2`.
    pub fn ev(&self) -> (expected: ExpectedValue)
        ensures
            expected.doubled == self.spec_ev_doubled(),
            self.num_dice == 1 && self.extra == 0 ==> expected.doubled == self.num_faces + 1,
    {
        let dice = self.num_dice as i64;
        let faces = self.num_faces as i64;
        assert(0 <= dice * (faces + 1) <= 65535 * 65536) by (nonlinear_arith)
            requires
                0 <= dice <= 65535,
                0 <= faces <= 65535,
        ;
        assert(dice == 1 ==> dice * (faces + 1) == faces + 1) by (nonlinear_arith);
        ExpectedValue { doubled: dice * (faces + 1) + 2 * (self.extra as i64) }
    }

    /// The smallest outcome.
    pub fn min(&self) -> (smallest: i64)
        ensures
            smallest == self.spec_min(),
    {
        self.num_dice as i64 + self.extra as i64
    }

    /// The largest outcome.
    pub fn max(&self) -> (largest: i64)
        ensures
            largest == self.spec_max(),
    {
        let dice = self.num_dice as i64;
        let faces = self.num_faces as i64;
        assert(0 <= dice * faces <= 65535 * 65535) by (nonlinear_arith)
            requires
                0 <= dice <= 65535,
                0 <= faces <= 65535,
        ;
        dice * faces + self.extra as i64
    }

    /// Writes the roll in its notation: the bonus only where it is not
    /// zero, and then always with its sign.
    pub fn to_string(&self) -> (text: String)
        ensures
            text@ == self.spec_to_string(),
    {
        let mut text = String::new();
        self.push_notation(&mut text);
        text
    }

    /// Writes the statistics on a single line, as other programs like them.
    pub fn print(&self) -> (text: String)
        ensures
            text@ == self.spec_print(),
    {
        let mut text = String::new();
        self.push_notation(&mut text);
        text.append(" ");
        push_signed_decimal(&mut text, self.min());
        text.append(" ");
        push_signed_decimal(&mut text, self.max());
        text.append(" ");
        push_halves_decimal(&mut text, self.ev().doubled);
        text
    }

    /// Writes the statistics on several lines, as people like them.
    pub fn pretty_print(&self) -> (text: String)
        ensures
            text@ == self.spec_pretty_print(),
    {
        let mut text = String::new();
        self.push_notation(&mut text);
        text.append(":\n\tmin: ");
        push_signed_decimal(&mut text, self.min());
        text.append("\n\tmax: ");
        push_signed_decimal(&mut text, self.max());
        text.append("\n\tev : ");
        push_halves_decimal(&mut text, self.ev().doubled);
        text
    }

    /// Writes the statistics in the given style.
    pub fn render(&self, style: &OutputStyle) -> (text: String)
        ensures
            text@ == self.spec_render(*style),
    {
        match style {
            OutputStyle::SingleLine => self.print(),
            OutputStyle::MultiLine => self.pretty_print(),
        }
    }

    /// Appends the notation of the roll to `out`.
    fn push_notation(&self, out: &mut String)
        ensures
            final(out)@ == old(out)@ + self.spec_to_string(),
    {
        proof {
            reveal_strlit("d");
            reveal_strlit("+");
            reveal_strlit("-");
        }
        push_decimal(out, self.num_dice as u64);
        out.append("d");
        push_decimal(out, self.num_faces as u64);
        if self.extra > 0 {
            out.append("+");
            push_decimal(out, self.extra as u64);
        } else if self.extra < 0 {
            out.append("-");
            push_decimal(out, (-(self.extra as i64)) as u64);
        }
        assert(out@ =~= old(out)@ + self.spec_to_string());
    }
}

} // verus!
