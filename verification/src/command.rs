//! Writing an action as the line that announces it.

use vstd::prelude::*;
use crate::action::Action;
use crate::catalog::{brew_token, cast_token};
use crate::feed::{body_of, digits_value, is_digit, number_of};

verus! {

/// The decimal digits of `n` in ASCII, the most significant first.
pub open spec fn digits(n: nat) -> Seq<u8>
    decreases n,
{
    if n < 10 {
        seq![(48 + n) as u8]
    } else {
        digits(n / 10).push((48 + n % 10) as u8)
    }
}

/// `n` written in decimal, with a minus sign before a negative number.
pub open spec fn decimal(n: int) -> Seq<u8> {
    if n < 0 {
        seq![45u8] + digits((-n) as nat)
    } else {
        digits(n as nat)
    }
}

/// The letters `REST`.
pub open spec fn rest_token() -> Seq<u8> {
    seq![82u8, 69u8, 83u8, 84u8]
}

/// The letters `WAIT`.
pub open spec fn wait_token() -> Seq<u8> {
    seq![87u8, 65u8, 73u8, 84u8]
}

/// The line that announces an action: `BREW` or `CAST`, a space and the
/// id in decimal, or `REST`, or `WAIT`, without a line end.
pub open spec fn command_of(action: Action) -> Seq<u8> {
    match action {
        Action::Brew(id) => brew_token().push(32u8) + decimal(id as int),
        Action::Cast(id) => cast_token().push(32u8) + decimal(id as int),
        Action::Rest => rest_token(),
        Action::Wait => wait_token(),
    }
}

/// The digits of a number are digits, at least one of them, and amount to
/// the number.
pub proof fn lemma_digits_read_back(n: nat)
    ensures
        digits(n).len() > 0,
        forall|i: int| 0 <= i < digits(n).len() ==> is_digit(#[trigger] digits(n)[i]),
        digits_value(digits(n)) == n,
    decreases n,
{
    if n < 10 {
        assert(digits(n).drop_last() =~= Seq::<u8>::empty());
        assert(digits_value(digits(n).drop_last()) == 0);
    } else {
        lemma_digits_read_back(n / 10);
        let last = (48 + n % 10) as u8;
        assert(digits(n).drop_last() =~= digits(n / 10));
        assert(digits(n).last() == last);
    }
}

/// A number written in decimal reads back as itself: what `command_of`
/// writes of an id, `number_of` reads.
pub proof fn lemma_decimal_reads_back(n: i32)
    ensures
        number_of(decimal(n as int)) == Some(n),
{
    let text = decimal(n as int);
    if n < 0 {
        lemma_digits_read_back((-n) as nat);
        assert(text[0] == 45u8);
        assert(body_of(text) =~= digits((-n) as nat));
    } else {
        lemma_digits_read_back(n as nat);
        assert(is_digit(digits(n as nat)[0]));
        assert(body_of(text) =~= digits(n as nat));
    }
}

/// Appends the decimal digits of `n` to `line`.
pub fn push_digits(line: &mut Vec<u8>, n: u32)
    ensures
        final(line)@ == old(line)@ + digits(n as nat),
    decreases n,
{
    if n >= 10 {
        push_digits(line, n / 10);
    }
    let ghost before = line@;
    let digit: u8 = 48 + (n % 10) as u8;
    line.push(digit);
    proof {
        if n >= 10 {
            assert(before == old(line)@ + digits((n / 10) as nat));
            assert(before.push(digit) =~= old(line)@ + digits((n / 10) as nat).push(digit));
        } else {
            assert(before.push(digit) =~= old(line)@ + seq![digit]);
        }
    }
}

/// Appends `n` in decimal to `line`.
pub fn push_decimal(line: &mut Vec<u8>, n: i32)
    ensures
        final(line)@ == old(line)@ + decimal(n as int),
{
    if n < 0 {
        line.push(45);
        let magnitude: u32 = (-(n as i64)) as u32;
        push_digits(line, magnitude);
        proof {
            assert(line@ =~= old(line)@ + (seq![45u8] + digits((-n) as nat)));
        }
    } else {
        push_digits(line, n as u32);
    }
}

impl Action {
    /// The line that announces the action, in ASCII and without a line end.
    pub fn command(&self) -> (line: Vec<u8>)
        ensures
            line@ == command_of(*self),
    {
        let mut line: Vec<u8> = Vec::new();
        match *self {
            Action::Brew(id) => {
                line.push(66);
                line.push(82);
                line.push(69);
                line.push(87);
                line.push(32);
                assert(line@ =~= brew_token().push(32u8));
                push_decimal(&mut line, id);
            },
            Action::Cast(id) => {
                line.push(67);
                line.push(65);
                line.push(83);
                line.push(84);
                line.push(32);
                assert(line@ =~= cast_token().push(32u8));
                push_decimal(&mut line, id);
            },
            Action::Rest => {
                line.push(82);
                line.push(69);
                line.push(83);
                line.push(84);
                assert(line@ =~= rest_token());
            },
            Action::Wait => {
                line.push(87);
                line.push(65);
                line.push(73);
                line.push(84);
                assert(line@ =~= wait_token());
            },
        }
        line
    }
}

} // verus!
