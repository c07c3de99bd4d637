use vstd::prelude::*;

verus! {

/// The decimal digit character for `d` in `0 .. 10`.
pub open spec fn dec_digit(d: int) -> char {
    if d == 0 {
        '0'
    } else if d == 1 {
        '1'
    } else if d == 2 {
        '2'
    } else if d == 3 {
        '3'
    } else if d == 4 {
        '4'
    } else if d == 5 {
        '5'
    } else if d == 6 {
        '6'
    } else if d == 7 {
        '7'
    } else if d == 8 {
        '8'
    } else {
        '9'
    }
}

/// The usual decimal notation of a non-negative integer, no leading zeros.
pub open spec fn dec_nat(n: int) -> Seq<char>
    decreases n,
{
    if n < 10 {
        seq![dec_digit(n)]
    } else {
        dec_nat(n / 10) + seq![dec_digit(n % 10)]
    }
}

/// The usual decimal notation of an integer, with a leading minus sign
/// when it is negative.
pub open spec fn dec_int(n: int) -> Seq<char> {
    if n < 0 {
        seq!['-'] + dec_nat(-n)
    } else {
        dec_nat(n)
    }
}

/// Three zero-padded decimal digits for `f` in `0 .. 1000`.
pub open spec fn frac3(f: int) -> Seq<char> {
    seq![dec_digit(f / 100), dec_digit((f / 10) % 10), dec_digit(f % 10)]
}

/// The label text for a fixed-point value of `v` thousandths: the plain
/// integer when `v` is a whole number of units, otherwise the integer
/// part, a point, and the three fractional digits.
pub open spec fn label_of(v: int) -> Seq<char> {
    let a = if v < 0 {
        -v
    } else {
        v
    };
    if a % 1000 == 0 {
        dec_int(v / 1000)
    } else {
        (if v < 0 {
            seq!['-']
        } else {
            Seq::<char>::empty()
        }) + dec_nat(a / 1000) + seq!['.'] + frac3(a % 1000)
    }
}

/// The single-character string of one decimal digit.
fn digit_str(d: i128) -> (r: &'static str)
    requires
        0 <= d < 10,
    ensures
        r@ == seq![dec_digit(d as int)],
{
    proof {
        reveal_strlit("0");
        reveal_strlit("1");
        reveal_strlit("2");
        reveal_strlit("3");
        reveal_strlit("4");
        reveal_strlit("5");
        reveal_strlit("6");
        reveal_strlit("7");
        reveal_strlit("8");
        reveal_strlit("9");
    }
    let r = match d {
        0 => "0",
        1 => "1",
        2 => "2",
        3 => "3",
        4 => "4",
        5 => "5",
        6 => "6",
        7 => "7",
        8 => "8",
        _ => "9",
    };
    proof {
        assert(r@ =~= seq![dec_digit(d as int)]);
    }
    r
}

/// Decimal notation of a non-negative integer.
pub fn fmt_nat(n: i128) -> (r: String)
    requires
        n >= 0,
    ensures
        r@ == dec_nat(n as int),
    decreases n,
{
    if n < 10 {
        let r = String::from_str(digit_str(n));
        r
    } else {
        let mut s = fmt_nat(n / 10);
        s.append(digit_str(n % 10));
        proof {
            assert(s@ =~= dec_nat(n as int));
        }
        s
    }
}

/// Decimal notation of an integer.
pub fn fmt_int(n: i128) -> (r: String)
    requires
        n > i128::MIN,
    ensures
        r@ == dec_int(n as int),
{
    if n < 0 {
        let mut s = String::from_str("-");
        let tail = fmt_nat(-n);
        s.append(tail.as_str());
        proof {
            reveal_strlit("-");
            assert(s@ =~= dec_int(n as int));
        }
        s
    } else {
        fmt_nat(n)
    }
}

/// The label text for a fixed-point value of `v` thousandths.
pub fn fmt_label(v: i128) -> (r: String)
    requires
        v > i128::MIN,
    ensures
        r@ == label_of(v as int),
{
    let neg = v < 0;
    let a = if neg {
        -v
    } else {
        v
    };
    let whole = a / 1000;
    let frac = a % 1000;
    proof {
        assert(a == if v < 0 { -(v as int) } else { v as int });
        assert(whole == a as int / 1000 && frac == a as int % 1000) by (nonlinear_arith)
            requires a >= 0 && whole == a / 1000 && frac == a % 1000;
    }
    if frac == 0 {
        proof {
            let ai = a as int;
            let q = ai / 1000;
            vstd::arithmetic::div_mod::lemma_fundamental_div_mod(ai, 1000);
            assert(ai == 1000 * q);
            if neg {
                assert(v as int == -ai);
                assert(-ai == 1000 * (-q)) by (nonlinear_arith)
                    requires ai == 1000 * q;
                vstd::arithmetic::div_mod::lemma_div_multiples_vanish(-q, 1000);
                assert(v as int / 1000 == -q);
                assert(ai >= 1000) by (nonlinear_arith)
                    requires ai > 0 && ai == 1000 * q;
            }
        }
        if neg {
            let mut s = String::from_str("-");
            let tail = fmt_nat(whole);
            s.append(tail.as_str());
            proof {
                reveal_strlit("-");
                assert(whole >= 1);
                assert(s@ =~= dec_int(v as int / 1000));
            }
            s
        } else {
            fmt_int(whole)
        }
    } else {
        let mut s = if neg {
            String::from_str("-")
        } else {
            String::new()
        };
        proof {
            reveal_strlit("-");
            assert(s@ =~= if v < 0 { seq!['-'] } else { Seq::<char>::empty() });
        }
        let head = fmt_nat(whole);
        s.append(head.as_str());
        s.append(".");
        s.append(digit_str(frac / 100));
        s.append(digit_str((frac / 10) % 10));
        s.append(digit_str(frac % 10));
        proof {
            reveal_strlit(".");
            assert((".")@ =~= seq!['.']);
            assert(s@ =~= label_of(v as int));
        }
        s
    }
}

} // verus!
