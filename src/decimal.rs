use vstd::prelude::*;

verus! {

/// The character of a decimal digit.
pub open spec fn digit_char(d: nat) -> char {
    if d == 0 {
        '0'
    } else if d == 1 {
        '1'
    } else if d == 2 {
        '2'
    } else if d == 3 {
        '3'
    } else if d == 4 {
        '4'
    } else if d == 5 {
        '5'
    } else if d == 6 {
        '6'
    } else if d == 7 {
        '7'
    } else if d == 8 {
        '8'
    } else {
        '9'
    }
}

/// The decimal digits of `n`, most significant first, without leading
/// zeros (`0` is written `"0"`).
pub open spec fn decimal(n: nat) -> Seq<char>
    decreases n,
{
    if n < 10 {
        seq![digit_char(n)]
    } else {
        decimal(n / 10) + seq![digit_char(n % 10)]
    }
}

fn digit_str(d: u64) -> (r: &'static str)
    requires
        d < 10,
    ensures
        r@ == seq![digit_char(d as nat)],
{
    proof {
        reveal_strlit("0");
        reveal_strlit("1");
        reveal_strlit("2");
        reveal_strlit("3");
        reveal_strlit("4");
        reveal_strlit("5");
        reveal_strlit("6");
        reveal_strlit("7");
        reveal_strlit("8");
        reveal_strlit("9");
    }
    if d == 0 {
        "0"
    } else if d == 1 {
        "1"
    } else if d == 2 {
        "2"
    } else if d == 3 {
        "3"
    } else if d == 4 {
        "4"
    } else if d == 5 {
        "5"
    } else if d == 6 {
        "6"
    } else if d == 7 {
        "7"
    } else if d == 8 {
        "8"
    } else {
        "9"
    }
}

/// Writes an integer in decimal.
pub fn decimal_string(n: u64) -> (r: String)
    ensures
        r@ == decimal(n as nat),
{
    let mut rest = n / 10;
    let mut out = String::from_str(digit_str(n % 10));
    proof {
        if n < 10 {
            assert(out@ == decimal(n as nat));
        }
    }
    while rest > 0
        invariant
            n > 0 || rest == 0,
            rest == 0 ==> out@ == decimal(n as nat),
            rest > 0 ==> decimal(rest as nat) + out@ == decimal(n as nat),
        decreases rest,
    {
        let ghost before = out@;
        let mut next = String::from_str(digit_str(rest % 10));
        next.append(out.as_str());
        proof {
            assert(decimal(rest as nat) + before == decimal(n as nat));
            if rest >= 10 {
                assert(decimal(rest as nat) == decimal((rest / 10) as nat) + seq![
                    digit_char((rest % 10) as nat),
                ]);
                assert(decimal((rest / 10) as nat) + next@ =~= decimal(rest as nat) + before);
            } else {
                assert(next@ =~= decimal(rest as nat) + before);
            }
        }
        out = next;
        rest = rest / 10;
    }
    out
}

} // verus!
