//! Decimal text of single-precision values given by their bit patterns, with
//! a fixed number of decimals, as `format!("{:.1}", x)` and
//! `format!("{:.3}", x)` write them: the exact binary value rounded to the
//! nearest, ties to an even last digit.
use vstd::arithmetic::power2::{
    lemma2_to64, lemma2_to64_rest, lemma_pow2_adds, lemma_pow2_strictly_increases, lemma_pow2_unfold, pow2,
};
use vstd::prelude::*;

use crate::text::{dec_string, dec_text, digit, digit_char, push_char};

verus! {

/// `10^d`.
pub open spec fn ten_pow(d: nat) -> nat
    decreases d,
{
    if d == 0 {
        1
    } else {
        10 * ten_pow((d - 1) as nat)
    }
}

/// The sign bit is set.
pub open spec fn bits_negative(b: u32) -> bool {
    b >= 0x8000_0000
}

/// The biased exponent field, 0 to 255.
pub open spec fn bits_field(b: u32) -> nat {
    ((b % 0x8000_0000) / 0x80_0000) as nat
}

/// The 23 fraction bits.
pub open spec fn bits_fraction(b: u32) -> nat {
    (b % 0x80_0000) as nat
}

/// The integer significand of a finite value: the fraction, with the hidden
/// bit unless the value is subnormal.
pub open spec fn bits_mantissa(b: u32) -> nat {
    if bits_field(b) == 0 {
        bits_fraction(b)
    } else {
        bits_fraction(b) + 0x80_0000
    }
}

/// The power of two that scales the significand of a finite value.
pub open spec fn bits_exponent(b: u32) -> int {
    if bits_field(b) == 0 {
        -149
    } else {
        bits_field(b) - 150
    }
}

/// `num / 2^k` rounded to the nearest integer, a tie to the even one.
pub open spec fn half_even(num: nat, k: nat) -> nat {
    let p = pow2(k);
    let fl = num / p;
    let r = num % p;
    if r > p / 2 || (r == p / 2 && fl % 2 == 1) {
        fl + 1
    } else {
        fl
    }
}

/// The magnitude of a finite value times `10^d`, rounded to the nearest
/// integer, a tie to the even one.
pub open spec fn scaled(b: u32, d: nat) -> nat {
    let m = bits_mantissa(b);
    let e = bits_exponent(b);
    if e >= 0 {
        m * pow2(e as nat) * ten_pow(d)
    } else {
        half_even(m * ten_pow(d), (-e) as nat)
    }
}

/// The last `d` decimal digits of `v`, zeros in front as needed.
pub open spec fn pad_digits(v: nat, d: nat) -> Seq<char>
    decreases d,
{
    if d == 0 {
        Seq::empty()
    } else {
        pad_digits(v / 10, (d - 1) as nat).push(digit_char(v % 10))
    }
}

/// The text of the value with bit pattern `b` with `d` decimals: `NaN`,
/// `inf` or `-inf`, else a minus sign when the sign bit is set, the integer
/// part, a point and `d` decimals.
pub open spec fn fixed_text(b: u32, d: nat) -> Seq<char> {
    if bits_field(b) == 255 {
        if bits_fraction(b) != 0 {
            "NaN"@
        } else if bits_negative(b) {
            "-inf"@
        } else {
            "inf"@
        }
    } else {
        let q = scaled(b, d);
        let sign = if bits_negative(b) {
            "-"@
        } else {
            Seq::<char>::empty()
        };
        sign + dec_text(q / ten_pow(d)) + "."@ + pad_digits(q % ten_pow(d), d)
    }
}

/// `2^a <= 2^b` for `a <= b`.
proof fn lemma_pow2_mono(a: nat, b: nat)
    requires
        a <= b,
    ensures
        pow2(a) <= pow2(b),
{
    if a < b {
        lemma_pow2_strictly_increases(a, b);
    }
}

/// The last `d` digits of `v`.
fn pad_string(v: u64, d: u32) -> (s: String)
    ensures
        s@ == pad_digits(v as nat, d as nat),
    decreases d,
{
    if d == 0 {
        String::new()
    } else {
        let mut s = pad_string(v / 10, d - 1);
        push_char(&mut s, digit((v % 10) as u128));
        s
    }
}

/// `10^d` for `d` up to 3.
fn ten_to(d: u32) -> (p: u64)
    requires
        d <= 3,
    ensures
        p == ten_pow(d as nat),
        1 <= p <= 1000,
{
    reveal_with_fuel(ten_pow, 4);
    if d == 0 {
        1
    } else if d == 1 {
        10
    } else if d == 2 {
        100
    } else {
        1000
    }
}

/// `num / 2^k` rounded to the nearest, ties to even, for `1 <= k < 40`.
fn round_shift(num: u64, k: u32) -> (q: u64)
    requires
        1 <= k < 40,
        num < 0x4_0000_0000,
    ensures
        q == half_even(num as nat, k as nat),
{
    let mut p: u64 = 1;
    let mut i: u32 = 0;
    proof {
        lemma2_to64();
        lemma2_to64_rest();
    }
    while i < k
        invariant
            i <= k < 40,
            p == pow2(i as nat),
            p >= 1,
            pow2(39) == 0x80_0000_0000,
        decreases k - i,
    {
        proof {
            lemma_pow2_mono((i + 1) as nat, 39);
            lemma_pow2_unfold((i + 1) as nat);
        }
        p = p * 2;
        i = i + 1;
    }
    let fl = num / p;
    let r = num % p;
    let h = p / 2;
    if r > h || (r == h && fl % 2 == 1) {
        fl + 1
    } else {
        fl
    }
}

/// `m * 2^e` for `m < 2^24` and `e <= 104`.
fn scale_up(m: u64, e: u32) -> (v: u128)
    requires
        m < 0x100_0000,
        e <= 104,
    ensures
        v == m * pow2(e as nat),
{
    let mut v: u128 = m as u128;
    let mut i: u32 = 0;
    proof {
        lemma2_to64();
        lemma2_to64_rest();
        lemma_pow2_adds(64, 63);
        assert(pow2(24) == 0x100_0000);
        assert(pow2(127) == 0x8000_0000_0000_0000_0000_0000_0000_0000);
        assert(m * pow2(0) == m);
    }
    while i < e
        invariant
            i <= e <= 104,
            v == m * pow2(i as nat),
            v < pow2(24 + i as nat),
            pow2(127) == 0x8000_0000_0000_0000_0000_0000_0000_0000,
        decreases e - i,
    {
        proof {
            lemma_pow2_mono(24 + i as nat, 127);
            lemma_pow2_unfold((i + 1) as nat);
            lemma_pow2_unfold(25 + i as nat);
            assert(m * pow2((i + 1) as nat) == 2 * (m * pow2(i as nat))) by (nonlinear_arith)
                requires
                    pow2((i + 1) as nat) == 2 * pow2(i as nat),
            ;
        }
        v = v * 2;
        i = i + 1;
    }
    v
}

/// The value with bit pattern `b` with `d` decimals (1 to 3), as
/// `format!("{:.d$}", f32::from_bits(b))` writes it.
pub fn fixed_decimal(b: u32, d: u32) -> (s: String)
    requires
        1 <= d <= 3,
    ensures
        s@ == fixed_text(b, d as nat),
{
    let field = (b % 0x8000_0000) / 0x80_0000;
    let frac = b % 0x80_0000;
    if field == 255 {
        proof {
            reveal_strlit("NaN");
            reveal_strlit("-inf");
            reveal_strlit("inf");
        }
        if frac != 0 {
            return String::from_str("NaN");
        } else if b >= 0x8000_0000 {
            return String::from_str("-inf");
        } else {
            return String::from_str("inf");
        }
    }
    let m: u64 = if field == 0 {
        frac as u64
    } else {
        frac as u64 + 0x80_0000
    };
    let p10 = ten_to(d);
    let mut s = if b >= 0x8000_0000 {
        String::from_str("-")
    } else {
        String::new()
    };
    let ghost q = scaled(b, d as nat);
    if field >= 150 {
        let e = field - 150;
        let ip = scale_up(m, e);
        proof {
            let t = ten_pow(d as nat) as int;
            let x = ip as int;
            assert(q == x * t);
            assert((x * t) / t == x && (x * t) % t == 0) by (nonlinear_arith)
                requires
                    t >= 1,
                    x >= 0,
            ;
        }
        let digits = dec_string(ip);
        s.append(digits.as_str());
        s.append(".");
        let zeros = pad_string(0, d);
        s.append(zeros.as_str());
    } else {
        let k: u32 = if field == 0 {
            149
        } else {
            150 - field
        };
        assert(m * p10 < 0x4_0000_0000) by (nonlinear_arith)
            requires
                m < 0x100_0000,
                p10 <= 1000,
        ;
        let num = m * p10;
        let r: u64 = if k >= 40 {
            proof {
                lemma2_to64();
                lemma2_to64_rest();
                lemma_pow2_mono(39, (k - 1) as nat);
                lemma_pow2_unfold(k as nat);
                let p = pow2(k as nat) as int;
                let x = num as int;
                assert(x / p == 0 && x % p == x) by (nonlinear_arith)
                    requires
                        0 <= x < p,
                ;
            }
            0
        } else {
            round_shift(num, k)
        };
        assert(r == q);
        let int_part = r / p10;
        let frac_part = r % p10;
        let digits = dec_string(int_part as u128);
        s.append(digits.as_str());
        s.append(".");
        let decimals = pad_string(frac_part, d);
        s.append(decimals.as_str());
    }
    proof {
        reveal_strlit("-");
        reveal_strlit(".");
    }
    s
}

} // verus!
