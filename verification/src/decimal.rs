//! Numbers as decimal text.

use vstd::prelude::*;
use vstd::string::StringExecFns;
use crate::hex::{digit_text, digits};

verus! {

/// The decimal text of a number, without leading zeros.
pub open spec fn decimal_text(n: nat) -> Seq<char>
    decreases n,
{
    if n < 10 {
        seq![digits()[n as int]]
    } else {
        decimal_text(n / 10).push(digits()[(n % 10) as int])
    }
}

/// A number below a thousand as three digits, with leading zeros.
pub open spec fn three_digits(n: nat) -> Seq<char> {
    seq![digits()[(n / 100) as int], digits()[(n / 10 % 10) as int], digits()[(n % 10) as int]]
}

/// Writes `n` in decimal.
pub fn decimal(n: u64) -> (text: String)
    ensures
        text@ == decimal_text(n as nat),
    decreases n,
{
    if n < 10 {
        String::from_str(digit_text(n as u8))
    } else {
        let mut text = decimal(n / 10);
        text.append(digit_text((n % 10) as u8));
        assert(text@ =~= decimal_text(n as nat));
        text
    }
}

} // verus!
