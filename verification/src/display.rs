//! Verified settings-to-text formatting.
//!
//! The engine exposes its effective parameters as text for the command-line
//! layer to print. Numbers are rendered exactly: unsigned integers in
//! decimal, fixed-point scalars as a signed decimal with the trailing
//! fraction zeros trimmed (`1.5`, `-0.25`, `2`), and complex numbers in the
//! `re+imi` shape.

use vstd::prelude::*;
use vstd::string::StringExecFns;

use crate::complex::Complex;
use crate::fixed::{Fx, SCALE_M};

verus! {

/// The character of a decimal digit.
pub open spec fn digit_char(d: nat) -> char {
    if d == 0 {
        '0'
    } else if d == 1 {
        '1'
    } else if d == 2 {
        '2'
    } else if d == 3 {
        '3'
    } else if d == 4 {
        '4'
    } else if d == 5 {
        '5'
    } else if d == 6 {
        '6'
    } else if d == 7 {
        '7'
    } else if d == 8 {
        '8'
    } else {
        '9'
    }
}

/// The decimal numeral of a natural number, most significant digit first.
pub open spec fn dec_str(n: nat) -> Seq<char>
    decreases n,
{
    if n < 10 {
        seq![digit_char(n)]
    } else {
        dec_str(n / 10) + seq![digit_char(n % 10)]
    }
}

/// One digit as a string slice.
fn digit_str(d: u64) -> (r: &'static str)
    requires
        d < 10,
    ensures
        r@ == seq![digit_char(d as nat)],
{
    let r: &'static str = if d == 0 {
        "0"
    } else if d == 1 {
        "1"
    } else if d == 2 {
        "2"
    } else if d == 3 {
        "3"
    } else if d == 4 {
        "4"
    } else if d == 5 {
        "5"
    } else if d == 6 {
        "6"
    } else if d == 7 {
        "7"
    } else if d == 8 {
        "8"
    } else {
        "9"
    };
    proof {
        reveal_strlit("0");
        reveal_strlit("1");
        reveal_strlit("2");
        reveal_strlit("3");
        reveal_strlit("4");
        reveal_strlit("5");
        reveal_strlit("6");
        reveal_strlit("7");
        reveal_strlit("8");
        reveal_strlit("9");
        assert(r@ =~= seq![digit_char(d as nat)]);
    }
    r
}

/// Format an unsigned integer in decimal.
pub fn u64_str(n: u64) -> (s: String)
    ensures
        s@ == dec_str(n as nat),
    decreases n,
{
    if n < 10 {
        String::from_str(digit_str(n))
    } else {
        let mut s = u64_str(n / 10);
        s.append(digit_str(n % 10));
        proof {
            assert(s@ =~= dec_str(n as nat));
        }
        s
    }
}

/// Drop trailing zero digits from a fraction block of the given width.
pub open spec fn trim_frac(f: nat, w: nat) -> (nat, nat)
    decreases w,
{
    if w > 0 && f % 10 == 0 {
        trim_frac(f / 10, (w - 1) as nat)
    } else {
        (f, w)
    }
}

/// A fraction block printed zero-padded to the given width.
pub open spec fn pad_str(f: nat, w: nat) -> Seq<char>
    decreases w,
{
    if w == 0 {
        Seq::empty()
    } else {
        pad_str(f / 10, (w - 1) as nat) + seq![digit_char(f % 10)]
    }
}

fn pad_str_exec(f: u64, w: u64) -> (s: String)
    requires
        w <= 6,
    ensures
        s@ == pad_str(f as nat, w as nat),
    decreases w,
{
    if w == 0 {
        let s = String::from_str("");
        proof {
            reveal_strlit("");
            assert(s@ =~= pad_str(f as nat, 0));
        }
        s
    } else {
        let mut s = pad_str_exec(f / 10, w - 1);
        s.append(digit_str(f % 10));
        proof {
            assert(s@ =~= pad_str(f as nat, w as nat));
        }
        s
    }
}

/// The text of the fraction part: nothing when zero, otherwise a dot and the
/// six fraction digits with trailing zeros trimmed.
pub open spec fn frac_str(f: nat) -> Seq<char> {
    if f == 0 {
        Seq::empty()
    } else {
        let (tf, tw) = trim_frac(f, 6);
        seq!['.'] + pad_str(tf, tw)
    }
}

/// The text of a fixed-point scalar: optional minus, the integer part, and
/// the fraction part.
pub open spec fn fx_str_spec(v: Fx) -> Seq<char> {
    let mag = if v.m < 0 {
        -(v.m as int)
    } else {
        v.m as int
    };
    let ip = (mag / (SCALE_M as int)) as nat;
    let fp = (mag % (SCALE_M as int)) as nat;
    let body = dec_str(ip) + frac_str(fp);
    if v.m < 0 {
        seq!['-'] + body
    } else {
        body
    }
}

/// Format a fixed-point scalar.
pub fn fx_str(v: Fx) -> (s: String)
    ensures
        s@ == fx_str_spec(v),
{
    let neg = v.m < 0;
    let mag: u64 = if v.m < 0 {
        (-(v.m as i128)) as u64
    } else {
        v.m as u64
    };
    let ip: u64 = mag / 1_000_000;
    let fp: u64 = mag % 1_000_000;
    let mut s = if neg {
        let t = String::from_str("-");
        proof {
            reveal_strlit("-");
        }
        t
    } else {
        let t = String::from_str("");
        proof {
            reveal_strlit("");
        }
        t
    };
    s.append(u64_str(ip).as_str());
    if fp != 0 {
        let mut tf: u64 = fp;
        let mut tw: u64 = 6;
        while tw > 0 && tf % 10 == 0
            invariant
                tw <= 6,
                trim_frac(fp as nat, 6) == trim_frac(tf as nat, tw as nat),
                tf < 1_000_000,
            decreases tw,
        {
            tf = tf / 10;
            tw = tw - 1;
        }
        s.append(".");
        proof {
            reveal_strlit(".");
        }
        s.append(pad_str_exec(tf, tw).as_str());
        proof {
            assert(s@ =~= fx_str_spec(v));
        }
    } else {
        proof {
            assert(s@ =~= fx_str_spec(v));
        }
    }
    s
}

/// The text of a complex number, in the `re+imi` shape: the real part, the
/// sign of the imaginary part, its magnitude, and a trailing `i`.
pub open spec fn complex_str_spec(z: Complex) -> Seq<char> {
    let im_mag = Fx { m: (if z.im.m < 0 { -(z.im.m as int) } else { z.im.m as int }) as i64 };
    let sign = if z.im.m < 0 {
        "-"@
    } else {
        "+"@
    };
    fx_str_spec(z.re) + sign + fx_str_spec(im_mag) + "i"@
}

/// Format a complex number.
pub fn complex_str(z: Complex) -> (s: String)
    requires
        z.im.m > i64::MIN,
    ensures
        s@ == complex_str_spec(z),
{
    let mut s = fx_str(z.re);
    if z.im.m < 0 {
        s.append("-");
        s.append(fx_str(Fx { m: -z.im.m }).as_str());
    } else {
        s.append("+");
        s.append(fx_str(z.im).as_str());
    }
    s.append("i");
    proof {
        reveal_strlit("-");
        reveal_strlit("+");
        reveal_strlit("i");
        assert(s@ =~= complex_str_spec(z));
    }
    s
}

/// Format a boolean as `true` or `false`.
pub fn bool_str(b: bool) -> (s: String)
    ensures
        s@ == (if b {
            "true"@
        } else {
            "false"@
        }),
{
    if b {
        String::from_str("true")
    } else {
        String::from_str("false")
    }
}

} // verus!
