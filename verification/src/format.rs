//! Numeric display formatting: decimal numerals, percent labels, and the
//! total-RAM label in gibibytes with exactly two decimal places.

use vstd::prelude::*;

verus! {

use vstd::arithmetic::div_mod::lemma_div_is_ordered;
use vstd::string::StringExecFns;

/// The decimal digit character for one digit value.
pub open spec fn dec_digit(d: int) -> char
    recommends
        0 <= d < 10,
{
    if d == 0 {
        '0'
    } else if d == 1 {
        '1'
    } else if d == 2 {
        '2'
    } else if d == 3 {
        '3'
    } else if d == 4 {
        '4'
    } else if d == 5 {
        '5'
    } else if d == 6 {
        '6'
    } else if d == 7 {
        '7'
    } else if d == 8 {
        '8'
    } else {
        '9'
    }
}

/// The decimal numeral of a natural number, most significant digit first.
pub open spec fn spec_dec(n: nat) -> Seq<char>
    decreases n,
{
    if n < 10 {
        seq![dec_digit(n as int)]
    } else {
        spec_dec(n / 10).push(dec_digit((n % 10) as int))
    }
}

/// A numeral followed by a percent sign, as the gauges and table show it.
pub open spec fn spec_percent_label(n: nat) -> Seq<char> {
    spec_dec(n).push('%')
}

/// Total RAM in hundredths of a gibibyte, rounded half up.
pub open spec fn spec_gib_hundredths(total: int) -> int {
    (total * 200 + 0x40000000) / 0x80000000
}

/// The total-RAM label: integer gibibytes, a dot, exactly two decimal
/// places, and the unit suffix.
pub open spec fn spec_gib_label(total: int) -> Seq<char> {
    let h = spec_gib_hundredths(total);
    spec_dec((h / 100) as nat) + seq!['.'] + seq![
        dec_digit((h % 100) / 10),
        dec_digit(h % 10),
    ] + seq![' ', 'G', 'B']
}

/// The one-character string for one decimal digit.
pub fn digit_str(d: u64) -> (r: &'static str)
    requires
        d < 10,
    ensures
        r@ == seq![dec_digit(d as int)],
{
    if d == 0 {
        proof {
            reveal_strlit("0");
            assert("0"@ =~= seq![dec_digit(0)]);
        }
        "0"
    } else if d == 1 {
        proof {
            reveal_strlit("1");
            assert("1"@ =~= seq![dec_digit(1)]);
        }
        "1"
    } else if d == 2 {
        proof {
            reveal_strlit("2");
            assert("2"@ =~= seq![dec_digit(2)]);
        }
        "2"
    } else if d == 3 {
        proof {
            reveal_strlit("3");
            assert("3"@ =~= seq![dec_digit(3)]);
        }
        "3"
    } else if d == 4 {
        proof {
            reveal_strlit("4");
            assert("4"@ =~= seq![dec_digit(4)]);
        }
        "4"
    } else if d == 5 {
        proof {
            reveal_strlit("5");
            assert("5"@ =~= seq![dec_digit(5)]);
        }
        "5"
    } else if d == 6 {
        proof {
            reveal_strlit("6");
            assert("6"@ =~= seq![dec_digit(6)]);
        }
        "6"
    } else if d == 7 {
        proof {
            reveal_strlit("7");
            assert("7"@ =~= seq![dec_digit(7)]);
        }
        "7"
    } else if d == 8 {
        proof {
            reveal_strlit("8");
            assert("8"@ =~= seq![dec_digit(8)]);
        }
        "8"
    } else {
        proof {
            reveal_strlit("9");
            assert("9"@ =~= seq![dec_digit(9)]);
        }
        "9"
    }
}

/// The decimal numeral of `n`, e.g. 50 becomes "50".
pub fn u64_to_string(n: u64) -> (r: String)
    ensures
        r@ == spec_dec(n as nat),
    decreases n,
{
    if n < 10 {
        digit_str(n).to_owned()
    } else {
        let mut s = u64_to_string(n / 10);
        s.append(digit_str(n % 10));
        proof {
            assert(s@ =~= spec_dec(n as nat));
        }
        s
    }
}

/// The numeral with a trailing percent sign, e.g. 50 becomes "50%".
pub fn percent_label(n: u64) -> (r: String)
    ensures
        r@ == spec_percent_label(n as nat),
{
    let mut s = u64_to_string(n);
    s.append("%");
    proof {
        reveal_strlit("%");
        assert("%"@ =~= seq!['%']);
        assert(s@ =~= spec_percent_label(n as nat));
    }
    s
}

/// The total-RAM label, e.g. 16_000_000_000 bytes becomes "14.90 GB".
pub fn gib_label(total: u64) -> (r: String)
    ensures
        r@ == spec_gib_label(total as int),
{
    let h128: u128 = ((total as u128) * 200 + 0x40000000) / 0x80000000;
    proof {
        lemma_div_is_ordered(
            total as int * 200 + 0x40000000,
            u64::MAX as int * 200 + 0x40000000,
            0x80000000,
        );
    }
    let h: u64 = h128 as u64;
    let tens: u64 = (h % 100) / 10;
    let ones: u64 = h % 10;
    let mut s = u64_to_string(h / 100);
    s.append(".");
    s.append(digit_str(tens));
    s.append(digit_str(ones));
    s.append(" GB");
    proof {
        reveal_strlit(".");
        reveal_strlit(" GB");
        assert("."@ =~= seq!['.']);
        assert(" GB"@ =~= seq![' ', 'G', 'B']);
        assert(s@ =~= spec_gib_label(total as int));
    }
    s
}

} // verus!
