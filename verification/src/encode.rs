//! Numeric encoder: renders one visibility sample, and the integer
//! identification columns, as text.
//!
//! A sample is rendered under one of two policies: with radix 0 (the
//! "disabled" sentinel) its ordinary decimal text is emitted; with a radix
//! in `[2, 36]` the sample's truncated unsigned integer value is rendered in
//! that base with lowercase digits.  An optional absolute-value transform is
//! applied before either policy.  Radix rendering of the truncated value is
//! deliberately lossy on negative and fractional samples.

use vstd::prelude::*;
use vstd::string::StringExecFns;

verus! {

/// The digit alphabet for bases up to 36: `0`-`9` then lowercase `a`-`z`.
pub open spec fn digit_char(d: int) -> char {
    if d == 0 {
        '0'
    } else if d == 1 {
        '1'
    } else if d == 2 {
        '2'
    } else if d == 3 {
        '3'
    } else if d == 4 {
        '4'
    } else if d == 5 {
        '5'
    } else if d == 6 {
        '6'
    } else if d == 7 {
        '7'
    } else if d == 8 {
        '8'
    } else if d == 9 {
        '9'
    } else if d == 10 {
        'a'
    } else if d == 11 {
        'b'
    } else if d == 12 {
        'c'
    } else if d == 13 {
        'd'
    } else if d == 14 {
        'e'
    } else if d == 15 {
        'f'
    } else if d == 16 {
        'g'
    } else if d == 17 {
        'h'
    } else if d == 18 {
        'i'
    } else if d == 19 {
        'j'
    } else if d == 20 {
        'k'
    } else if d == 21 {
        'l'
    } else if d == 22 {
        'm'
    } else if d == 23 {
        'n'
    } else if d == 24 {
        'o'
    } else if d == 25 {
        'p'
    } else if d == 26 {
        'q'
    } else if d == 27 {
        'r'
    } else if d == 28 {
        's'
    } else if d == 29 {
        't'
    } else if d == 30 {
        'u'
    } else if d == 31 {
        'v'
    } else if d == 32 {
        'w'
    } else if d == 33 {
        'x'
    } else if d == 34 {
        'y'
    } else {
        'z'
    }
}

/// The base-`base` digits of `v`, most significant first, with no leading
/// zeros; empty for `v == 0`.
pub open spec fn digits_text(v: nat, base: nat) -> Seq<char>
    decreases v,
    when base >= 2
    via digits_text_decreases
{
    if v == 0 {
        Seq::empty()
    } else {
        digits_text(v / base, base).push(digit_char((v % base) as int))
    }
}

#[via_fn]
proof fn digits_text_decreases(v: nat, base: nat) {
    if v > 0 {
        assert(v / base < v) by (nonlinear_arith)
            requires
                v > 0 && base >= 2,
        ;
    }
}

/// The canonical base-`base` rendering of `v`: its digits, most significant
/// first, except that zero renders as the single digit `0`.
pub open spec fn radix_text(v: nat, base: nat) -> Seq<char> {
    if v == 0 {
        seq!['0']
    } else {
        digits_text(v, base)
    }
}

/// The ordinary decimal rendering of `v`.
pub open spec fn dec_text(v: nat) -> Seq<char> {
    radix_text(v, 10)
}

/// One decimal digit as a string slice.
fn digit_str(d: u64) -> (r: &'static str)
    requires
        d < 10,
    ensures
        r@ == seq![digit_char(d as int)],
{
    proof {
        reveal_strlit("0");
        reveal_strlit("1");
        reveal_strlit("2");
        reveal_strlit("3");
        reveal_strlit("4");
        reveal_strlit("5");
        reveal_strlit("6");
        reveal_strlit("7");
        reveal_strlit("8");
        reveal_strlit("9");
    }
    let r = match d {
        0 => "0",
        1 => "1",
        2 => "2",
        3 => "3",
        4 => "4",
        5 => "5",
        6 => "6",
        7 => "7",
        8 => "8",
        _ => "9",
    };
    proof {
        assert(r@ =~= seq![digit_char(d as int)]);
    }
    r
}

/// Append the decimal digits of `v` (most significant first, none for
/// `v == 0`) to `s`.
fn push_decimal(s: &mut String, v: u64)
    ensures
        final(s)@ == old(s)@ + digits_text(v as nat, 10),
    decreases v,
{
    if v == 0 {
        proof {
            assert(old(s)@ + digits_text(0, 10) =~= old(s)@);
        }
    } else {
        push_decimal(s, v / 10);
        let d = v % 10;
        s.append(digit_str(d));
        proof {
            assert(digits_text(v as nat, 10) == digits_text((v / 10) as nat, 10).push(
                digit_char((v % 10) as int),
            ));
            assert(old(s)@ + digits_text(v as nat, 10) =~= old(s)@ + digits_text(
                (v / 10) as nat,
                10,
            ) + seq![digit_char((v % 10) as int)]);
        }
    }
}

/// The decimal text of `v`, exactly as the decimal rendering spec gives it.
pub fn u64_to_decimal(v: u64) -> (r: String)
    ensures
        r@ == dec_text(v as nat),
{
    if v == 0 {
        let r = "0".to_owned();
        proof {
            reveal_strlit("0");
            assert(r@ =~= seq!['0']);
        }
        r
    } else {
        let mut s = String::new();
        push_decimal(&mut s, v);
        proof {
            assert(Seq::<char>::empty() + digits_text(v as nat, 10) =~= digits_text(
                v as nat,
                10,
            ));
        }
        s
    }
}

/// The decimal text of a machine-sized index.
pub fn usize_to_decimal(v: usize) -> (r: String)
    ensures
        r@ == dec_text(v as nat),
{
    u64_to_decimal(v as u64)
}

/// Relies on `radix_fmt::radix` and the `Display` impl of `radix_fmt::Radix<u64>`:
/// for a base in `[2, 36]` it renders `v` in that base with lowercase digits,
/// most significant first, without leading zeros, and renders zero as `"0"`.
#[verifier::external_body]
fn radix_string(v: u64, base: u8) -> (r: String)
    requires
        2 <= base <= 36,
    ensures
        r@ == radix_text(v as nat, base as nat),
{
    format!("{}", radix_fmt::radix(v, base))
}

/// One 32-bit floating-point visibility sample, represented by the plain
/// values the encoder reads of it: its decimal text, the decimal text of
/// its magnitude, and the truncations toward zero of both to an unsigned
/// 64-bit integer (a negative sample truncates to 0, as an `as u64` cast
/// does).  The surrounding program builds one from each raw sample.
#[derive(Debug, Clone)]
pub struct Sample {
    /// Decimal text of the sample value, sign and fraction preserved.
    pub decimal_text: String,
    /// Decimal text of the sample's magnitude.
    pub abs_decimal_text: String,
    /// The sample truncated toward zero to an unsigned 64-bit integer.
    pub truncated: u64,
    /// The sample's magnitude truncated toward zero.
    pub abs_truncated: u64,
}

/// What the encoder emits for sample `s` under the given policy: decimal
/// text when the radix is 0 (magnitude text if `absolute`), otherwise the
/// base-`radix` rendering of the truncated value (of the magnitude's
/// truncation if `absolute`).
pub open spec fn encoded_sample(s: Sample, radix: u8, absolute: bool) -> Seq<char> {
    if radix == 0 {
        if absolute {
            s.abs_decimal_text@
        } else {
            s.decimal_text@
        }
    } else {
        if absolute {
            radix_text(s.abs_truncated as nat, radix as nat)
        } else {
            radix_text(s.truncated as nat, radix as nat)
        }
    }
}

/// Render one sample under the run's encoding policy.
pub fn encode_sample(s: &Sample, radix: u8, absolute: bool) -> (r: String)
    requires
        radix == 0 || 2 <= radix <= 36,
    ensures
        r@ == encoded_sample(*s, radix, absolute),
{
    if radix == 0 {
        if absolute {
            s.abs_decimal_text.clone()
        } else {
            s.decimal_text.clone()
        }
    } else {
        if absolute {
            radix_string(s.abs_truncated, radix)
        } else {
            radix_string(s.truncated, radix)
        }
    }
}

} // verus!
