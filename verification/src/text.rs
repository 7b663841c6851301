//! Numbers as text.

use vstd::prelude::*;
use vstd::string::StringExecFns;

verus! {

/// The ten decimal digits, in order.
pub open spec fn decimal_digits() -> Seq<char> {
    seq!['0', '1', '2', '3', '4', '5', '6', '7', '8', '9']
}

/// The decimal digits of `n`, most significant first; none for zero.
pub open spec fn spec_digits(n: nat) -> Seq<char>
    decreases n,
{
    if n == 0 {
        Seq::empty()
    } else {
        spec_digits(n / 10).push(decimal_digits()[(n % 10) as int])
    }
}

/// The number `n` written in decimal, without sign or leading zeros.
pub open spec fn spec_decimal(n: nat) -> Seq<char> {
    if n == 0 {
        seq!['0']
    } else {
        spec_digits(n)
    }
}

/// The text of one decimal digit.
fn digit_text(d: usize) -> (text: &'static str)
    requires
        d < 10,
    ensures
        text@ == seq![decimal_digits()[d as int]],
{
    proof {
        reveal_strlit("0");
        reveal_strlit("1");
        reveal_strlit("2");
        reveal_strlit("3");
        reveal_strlit("4");
        reveal_strlit("5");
        reveal_strlit("6");
        reveal_strlit("7");
        reveal_strlit("8");
        reveal_strlit("9");
    }
    let text = match d {
        0 => "0",
        1 => "1",
        2 => "2",
        3 => "3",
        4 => "4",
        5 => "5",
        6 => "6",
        7 => "7",
        8 => "8",
        _ => "9",
    };
    assert(text@ =~= seq![decimal_digits()[d as int]]);
    text
}

/// Writes a number in decimal.
pub fn decimal(n: usize) -> (text: String)
    ensures
        text@ == spec_decimal(n as nat),
{
    if n == 0 {
        return digit_text(0).to_owned();
    }
    let mut text = String::new();
    let mut rest = n;
    while rest > 0
        invariant
            spec_digits(n as nat) == spec_digits(rest as nat) + text@,
        decreases rest,
    {
        let mut next = digit_text(rest % 10).to_owned();
        next.append(text.as_str());
        assert(spec_digits(rest as nat) + text@ =~= spec_digits((rest / 10) as nat) + next@);
        text = next;
        rest = rest / 10;
    }
    assert(spec_digits(0) + text@ =~= text@);
    text
}

} // verus!
