use vstd::prelude::*;

verus! {

/// States of a recogniser of decimal numbers:
/// `[+-]? (digits ('.' digits?)? | '.' digits) ([eE] [+-]? digits)?`.
pub const NUM_START: u8 = 0;
pub const NUM_SIGN: u8 = 1;
pub const NUM_INT: u8 = 2;
pub const NUM_DOT_AFTER_INT: u8 = 3;
pub const NUM_DOT: u8 = 4;
pub const NUM_FRAC: u8 = 5;
pub const NUM_EXP: u8 = 6;
pub const NUM_EXP_SIGN: u8 = 7;
pub const NUM_EXP_INT: u8 = 8;
pub const NUM_DEAD: u8 = 9;

pub open spec fn is_digit(b: u8) -> bool {
    48 <= b && b <= 57
}

pub open spec fn is_sign(b: u8) -> bool {
    b == 43 || b == 45
}

pub open spec fn is_exp_mark(b: u8) -> bool {
    b == 101 || b == 69
}

/// One transition of the recogniser.
pub open spec fn num_step(state: u8, b: u8) -> u8 {
    if state == NUM_START {
        if is_sign(b) {
            NUM_SIGN
        } else if is_digit(b) {
            NUM_INT
        } else if b == 46 {
            NUM_DOT
        } else {
            NUM_DEAD
        }
    } else if state == NUM_SIGN {
        if is_digit(b) {
            NUM_INT
        } else if b == 46 {
            NUM_DOT
        } else {
            NUM_DEAD
        }
    } else if state == NUM_INT {
        if is_digit(b) {
            NUM_INT
        } else if b == 46 {
            NUM_DOT_AFTER_INT
        } else if is_exp_mark(b) {
            NUM_EXP
        } else {
            NUM_DEAD
        }
    } else if state == NUM_DOT_AFTER_INT || state == NUM_FRAC {
        if is_digit(b) {
            NUM_FRAC
        } else if is_exp_mark(b) {
            NUM_EXP
        } else {
            NUM_DEAD
        }
    } else if state == NUM_DOT {
        if is_digit(b) {
            NUM_FRAC
        } else {
            NUM_DEAD
        }
    } else if state == NUM_EXP {
        if is_sign(b) {
            NUM_EXP_SIGN
        } else if is_digit(b) {
            NUM_EXP_INT
        } else {
            NUM_DEAD
        }
    } else if state == NUM_EXP_SIGN || state == NUM_EXP_INT {
        if is_digit(b) {
            NUM_EXP_INT
        } else {
            NUM_DEAD
        }
    } else {
        NUM_DEAD
    }
}

/// The state of the recogniser after reading `s` from `state`.
pub open spec fn num_run(state: u8, s: Seq<u8>) -> u8
    decreases s.len(),
{
    if s.len() == 0 {
        state
    } else {
        num_run(num_step(state, s[0]), s.drop_first())
    }
}

pub open spec fn num_accepting(state: u8) -> bool {
    state == NUM_INT || state == NUM_DOT_AFTER_INT || state == NUM_FRAC || state == NUM_EXP_INT
}

/// Whether `s` is a decimal number: an optional sign, digits with at most one
/// decimal point and at least one digit, and an optional exponent.
pub open spec fn is_decimal(s: Seq<u8>) -> bool {
    num_accepting(num_run(NUM_START, s))
}

/// Whether all of `fs` are decimal numbers.
pub open spec fn all_decimal(fs: Seq<Seq<u8>>) -> bool {
    forall|i: int| 0 <= i < fs.len() ==> is_decimal(#[trigger] fs[i])
}

fn num_next(state: u8, b: u8) -> (r: u8)
    ensures
        r == num_step(state, b),
{
    let digit = 48 <= b && b <= 57;
    let sign = b == 43 || b == 45;
    let exp = b == 101 || b == 69;
    if state == NUM_START {
        if sign {
            NUM_SIGN
        } else if digit {
            NUM_INT
        } else if b == 46 {
            NUM_DOT
        } else {
            NUM_DEAD
        }
    } else if state == NUM_SIGN {
        if digit {
            NUM_INT
        } else if b == 46 {
            NUM_DOT
        } else {
            NUM_DEAD
        }
    } else if state == NUM_INT {
        if digit {
            NUM_INT
        } else if b == 46 {
            NUM_DOT_AFTER_INT
        } else if exp {
            NUM_EXP
        } else {
            NUM_DEAD
        }
    } else if state == NUM_DOT_AFTER_INT || state == NUM_FRAC {
        if digit {
            NUM_FRAC
        } else if exp {
            NUM_EXP
        } else {
            NUM_DEAD
        }
    } else if state == NUM_DOT {
        if digit {
            NUM_FRAC
        } else {
            NUM_DEAD
        }
    } else if state == NUM_EXP {
        if sign {
            NUM_EXP_SIGN
        } else if digit {
            NUM_EXP_INT
        } else {
            NUM_DEAD
        }
    } else if state == NUM_EXP_SIGN || state == NUM_EXP_INT {
        if digit {
            NUM_EXP_INT
        } else {
            NUM_DEAD
        }
    } else {
        NUM_DEAD
    }
}

/// Whether `s` is a decimal number.
pub fn is_decimal_number(s: &[u8]) -> (r: bool)
    ensures
        r == is_decimal(s@),
{
    let mut state: u8 = NUM_START;
    let mut i: usize = 0;
    proof {
        assert(s@.subrange(0, s@.len() as int) =~= s@);
    }
    while i < s.len()
        invariant
            i <= s@.len(),
            num_run(NUM_START, s@) == num_run(state, s@.subrange(i as int, s@.len() as int)),
        decreases s@.len() - i,
    {
        proof {
            assert(s@.subrange(i as int, s@.len() as int).drop_first() =~= s@.subrange(
                i as int + 1,
                s@.len() as int,
            ));
        }
        state = num_next(state, s[i]);
        i = i + 1;
    }
    state == NUM_INT || state == NUM_DOT_AFTER_INT || state == NUM_FRAC || state == NUM_EXP_INT
}

} // verus!
