//! Decimal rendering of a number, padded with leading zeros to a
//! requested width.

use vstd::prelude::*;

verus! {

/// The character for one decimal digit value.
pub open spec fn digit_char(d: int) -> char {
    if d == 0 {
        '0'
    } else if d == 1 {
        '1'
    } else if d == 2 {
        '2'
    } else if d == 3 {
        '3'
    } else if d == 4 {
        '4'
    } else if d == 5 {
        '5'
    } else if d == 6 {
        '6'
    } else if d == 7 {
        '7'
    } else if d == 8 {
        '8'
    } else {
        '9'
    }
}

/// The decimal digits of `n`, most significant first, without leading
/// zeros (a single `'0'` for zero).
pub open spec fn dec_digits(n: nat) -> Seq<char>
    decreases n,
{
    if n < 10 {
        seq![digit_char(n as int)]
    } else {
        dec_digits(n / 10).push(digit_char((n % 10) as int))
    }
}

/// The decimal digits of `n`, preceded by as many `'0'` as it takes to
/// reach `length` characters; never truncated.
pub open spec fn spec_zero_padding(n: nat, length: nat) -> Seq<char> {
    let digits = dec_digits(n);
    if digits.len() >= length {
        digits
    } else {
        Seq::new((length - digits.len()) as nat, |i: int| '0') + digits
    }
}

/// One decimal digit as text.
fn digit_str(d: usize) -> (r: &'static str)
    requires
        d < 10,
    ensures
        r@ == seq![digit_char(d as int)],
{
    if d == 0 {
        proof {
            reveal_strlit("0");
        }
        assert("0"@ =~= seq![digit_char(0)]);
        "0"
    } else if d == 1 {
        proof {
            reveal_strlit("1");
        }
        assert("1"@ =~= seq![digit_char(1)]);
        "1"
    } else if d == 2 {
        proof {
            reveal_strlit("2");
        }
        assert("2"@ =~= seq![digit_char(2)]);
        "2"
    } else if d == 3 {
        proof {
            reveal_strlit("3");
        }
        assert("3"@ =~= seq![digit_char(3)]);
        "3"
    } else if d == 4 {
        proof {
            reveal_strlit("4");
        }
        assert("4"@ =~= seq![digit_char(4)]);
        "4"
    } else if d == 5 {
        proof {
            reveal_strlit("5");
        }
        assert("5"@ =~= seq![digit_char(5)]);
        "5"
    } else if d == 6 {
        proof {
            reveal_strlit("6");
        }
        assert("6"@ =~= seq![digit_char(6)]);
        "6"
    } else if d == 7 {
        proof {
            reveal_strlit("7");
        }
        assert("7"@ =~= seq![digit_char(7)]);
        "7"
    } else if d == 8 {
        proof {
            reveal_strlit("8");
        }
        assert("8"@ =~= seq![digit_char(8)]);
        "8"
    } else {
        proof {
            reveal_strlit("9");
        }
        assert("9"@ =~= seq![digit_char(9)]);
        "9"
    }
}

/// The decimal digits of `n` as text.
fn usize_to_string(n: usize) -> (r: String)
    ensures
        r@ == dec_digits(n as nat),
    decreases n,
{
    if n < 10 {
        String::from_str(digit_str(n))
    } else {
        let mut s = usize_to_string(n / 10);
        s.append(digit_str(n % 10));
        proof {
            assert(s@ =~= dec_digits(n as nat));
        }
        s
    }
}

/// Renders `number` in decimal, padded with leading zeros to at least
/// `length` characters; a longer number is never truncated.
pub fn zero_padding(number: usize, length: u8) -> (r: String)
    ensures
        r@ == spec_zero_padding(number as nat, length as nat),
{
    let digits = usize_to_string(number);
    let dlen = digits.as_str().unicode_len();
    let mut result = String::new();
    let mut k: usize = dlen;
    while k < length as usize
        invariant
            dlen == dec_digits(number as nat).len(),
            dlen <= k,
            if dlen < length as int {
                k <= length as int
            } else {
                k == dlen
            },
            result@ =~= Seq::new((k - dlen) as nat, |i: int| '0'),
        decreases length as int - k,
    {
        proof {
            reveal_strlit("0");
        }
        result.append("0");
        proof {
            assert(result@ =~= Seq::new((k + 1 - dlen) as nat, |i: int| '0'));
        }
        k += 1;
    }
    result.append(digits.as_str());
    proof {
        assert(result@ =~= spec_zero_padding(number as nat, length as nat));
    }
    result
}

} // verus!
