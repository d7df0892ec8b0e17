//! Numbers written out for messages.

use vstd::prelude::*;
use vstd::string::*;

verus! {

/// The decimal digit for `d`; every number above 9 counts as 9.
pub open spec fn digit(d: nat) -> char {
    if d == 0 {
        '0'
    } else if d == 1 {
        '1'
    } else if d == 2 {
        '2'
    } else if d == 3 {
        '3'
    } else if d == 4 {
        '4'
    } else if d == 5 {
        '5'
    } else if d == 6 {
        '6'
    } else if d == 7 {
        '7'
    } else if d == 8 {
        '8'
    } else {
        '9'
    }
}

/// The number in decimal digits, without leading zeros.
pub open spec fn decimal(n: nat) -> Seq<char>
    decreases n,
{
    if n < 10 {
        seq![digit(n)]
    } else {
        decimal(n / 10).push(digit(n % 10))
    }
}

/// The decimal digit for `d`, as a text; every number above 9 counts as 9.
pub fn digit_text(d: u8) -> (text: &'static str)
    ensures
        text@ == seq![digit(d as nat)],
{
    proof {
        reveal_strlit("0");
        reveal_strlit("1");
        reveal_strlit("2");
        reveal_strlit("3");
        reveal_strlit("4");
        reveal_strlit("5");
        reveal_strlit("6");
        reveal_strlit("7");
        reveal_strlit("8");
        reveal_strlit("9");
    }
    let text = match d {
        0 => "0",
        1 => "1",
        2 => "2",
        3 => "3",
        4 => "4",
        5 => "5",
        6 => "6",
        7 => "7",
        8 => "8",
        _ => "9",
    };
    assert(text@ =~= seq![digit(d as nat)]);
    text
}

/// The number in decimal digits.
pub fn decimal_text(x: u8) -> (text: String)
    ensures
        text@ == decimal(x as nat),
{
    let ones = digit_text(x % 10);
    if x < 10 {
        String::from_str(ones)
    } else if x < 100 {
        let text = String::from_str(digit_text(x / 10)).concat(ones);
        assert(text@ =~= decimal(x as nat)) by {
            assert(decimal((x / 10) as nat) == seq![digit((x / 10) as nat)]);
        }
        text
    } else {
        let text = String::from_str(digit_text(x / 100)).concat(digit_text(x / 10 % 10)).concat(ones);
        assert(text@ =~= decimal(x as nat)) by {
            assert(decimal((x / 100) as nat) == seq![digit((x / 100) as nat)]);
            assert((x / 10) as nat / 10 == (x / 100) as nat);
            assert(decimal((x / 10) as nat) == decimal((x / 100) as nat).push(
                digit((x / 10 % 10) as nat),
            ));
        }
        text
    }
}

} // verus!
