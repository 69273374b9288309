//! Decimal rendering of unsigned integers, used to build versioned
//! namespace identifiers and indexed storage keys.
use vstd::prelude::*;

verus! {

use vstd::string::StringExecFns;

/// The character for a single decimal digit.
pub open spec fn digit_char(d: int) -> char {
    if d == 0 {
        '0'
    } else if d == 1 {
        '1'
    } else if d == 2 {
        '2'
    } else if d == 3 {
        '3'
    } else if d == 4 {
        '4'
    } else if d == 5 {
        '5'
    } else if d == 6 {
        '6'
    } else if d == 7 {
        '7'
    } else if d == 8 {
        '8'
    } else {
        '9'
    }
}

/// The decimal digit string of `n`, most significant digit first.
pub open spec fn dec_digits(n: nat) -> Seq<char>
    decreases n,
{
    if n < 10 {
        seq![digit_char(n as int)]
    } else {
        dec_digits(n / 10).push(digit_char((n % 10) as int))
    }
}

fn digit_str(d: u64) -> (r: &'static str)
    requires
        d < 10,
    ensures
        r@ == seq![digit_char(d as int)],
{
    if d == 0 {
        proof {
            reveal_strlit("0");
        }
        "0"
    } else if d == 1 {
        proof {
            reveal_strlit("1");
        }
        "1"
    } else if d == 2 {
        proof {
            reveal_strlit("2");
        }
        "2"
    } else if d == 3 {
        proof {
            reveal_strlit("3");
        }
        "3"
    } else if d == 4 {
        proof {
            reveal_strlit("4");
        }
        "4"
    } else if d == 5 {
        proof {
            reveal_strlit("5");
        }
        "5"
    } else if d == 6 {
        proof {
            reveal_strlit("6");
        }
        "6"
    } else if d == 7 {
        proof {
            reveal_strlit("7");
        }
        "7"
    } else if d == 8 {
        proof {
            reveal_strlit("8");
        }
        "8"
    } else {
        proof {
            reveal_strlit("9");
        }
        "9"
    }
}

/// Renders `n` in decimal.
pub fn dec_string(n: u64) -> (s: String)
    ensures
        s@ == dec_digits(n as nat),
    decreases n,
{
    if n < 10 {
        String::from_str(digit_str(n))
    } else {
        proof {
            assert(n / 10 < n) by (nonlinear_arith)
                requires
                    n >= 10,
            ;
        }
        let mut s = dec_string(n / 10);
        s.append(digit_str(n % 10));
        proof {
            assert(s@ =~= dec_digits((n / 10) as nat).push(digit_char((n % 10) as int)));
        }
        s
    }
}

pub proof fn lemma_dec_digits_len(n: nat)
    ensures
        dec_digits(n).len() >= 1,
        n >= 10 ==> dec_digits(n).len() >= 2,
    decreases n,
{
    if n >= 10 {
        lemma_dec_digits_len(n / 10);
    }
}

/// The last character of a decimal rendering is the digit of the ones
/// place.
pub proof fn lemma_dec_digits_last(n: nat)
    ensures
        dec_digits(n).len() >= 1,
        dec_digits(n).last() == digit_char((n % 10) as int),
{
    lemma_dec_digits_len(n);
    if n < 10 {
        assert(n % 10 == n);
    }
}

/// Distinct numbers render to distinct digit strings.
pub proof fn lemma_dec_digits_injective(m: nat, n: nat)
    requires
        m != n,
    ensures
        dec_digits(m) != dec_digits(n),
    decreases m + n,
{
    if dec_digits(m) == dec_digits(n) {
        lemma_dec_digits_len(m);
        lemma_dec_digits_len(n);
        if m < 10 && n < 10 {
            assert(dec_digits(m)[0] == digit_char(m as int));
            assert(dec_digits(n)[0] == digit_char(n as int));
            assert(false);
        } else if m < 10 {
            assert(dec_digits(m).len() == 1);
            assert(dec_digits(n).len() >= 2);
            assert(false);
        } else if n < 10 {
            assert(dec_digits(m).len() >= 2);
            assert(dec_digits(n).len() == 1);
            assert(false);
        } else {
            let dm = dec_digits(m / 10);
            let dn = dec_digits(n / 10);
            assert(dm.push(digit_char((m % 10) as int)) == dn.push(digit_char((n % 10) as int)));
            assert(dm.len() == dn.len());
            assert(dm.push(digit_char((m % 10) as int)).last() == digit_char((m % 10) as int));
            assert(m % 10 == n % 10);
            assert(dm =~= dn) by {
                assert forall|i: int| 0 <= i < dm.len() implies dm[i] == dn[i] by {
                    assert(dm[i] == dm.push(digit_char((m % 10) as int))[i]);
                    assert(dn[i] == dn.push(digit_char((n % 10) as int))[i]);
                }
            }
            if m / 10 == n / 10 {
                assert(m == 10 * (m / 10) + m % 10) by (nonlinear_arith);
                assert(n == 10 * (n / 10) + n % 10) by (nonlinear_arith);
                assert(false);
            } else {
                lemma_dec_digits_injective(m / 10, n / 10);
                assert(false);
            }
        }
    }
}

/// Appending different suffixes to one prefix gives different strings.
pub proof fn lemma_concat_right_injective(p: Seq<char>, a: Seq<char>, b: Seq<char>)
    requires
        a != b,
    ensures
        p + a != p + b,
{
    if p + a == p + b {
        assert(a =~= b) by {
            assert((p + a).len() == p.len() + a.len());
            assert((p + b).len() == p.len() + b.len());
            assert(a.len() == b.len());
            assert forall|i: int| 0 <= i < a.len() implies a[i] == b[i] by {
                assert((p + a)[p.len() + i] == a[i]);
                assert((p + b)[p.len() + i] == b[i]);
            }
        }
        assert(false);
    }
}

} // verus!

