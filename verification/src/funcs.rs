//! The catalog of complex iteration functions.
//!
//! Each is a total pure function `(z, c) -> z'` over the fixed-point complex
//! numbers, selected by a numeric identifier fixed for the lifetime of a
//! render. The identifiers and formulas follow the settings display: `0` is
//! the quadratic map, `1` the cubic, `10` the exponential, `100` and `200`
//! the two rational forms.

use vstd::prelude::*;

use crate::cmath::{cexp, cexp_spec, cln, cln_spec};
use crate::complex::{
    cadd, cadd_spec, cdiv, cdiv_spec, cmul, cmul_spec, csub, csub_spec, Complex,
};
use crate::fixed::{divi_spec, fx_divi, Fx, SCALE_M};

verus! {

/// Component-wise division of a complex number by a small positive integer.
pub open spec fn cdivi_spec(z: Complex, k: int) -> Complex {
    Complex { re: divi_spec(z.re, k), im: divi_spec(z.im, k) }
}

pub fn cdivi(z: Complex, k: i64) -> (r: Complex)
    requires
        k > 0,
    ensures
        r == cdivi_spec(z, k as int),
{
    Complex { re: fx_divi(z.re, k), im: fx_divi(z.im, k) }
}

/// The complex unit.
pub open spec fn one_spec() -> Complex {
    Complex { re: Fx { m: SCALE_M }, im: Fx { m: 0 } }
}

pub open spec fn f0_spec(z: Complex, c: Complex) -> Complex {
    cadd_spec(cmul_spec(z, z), c)
}

/// The quadratic map `z^2 + c`.
pub fn f0(z: Complex, c: Complex) -> (r: Complex)
    ensures
        r == f0_spec(z, c),
{
    cadd(cmul(z, z), c)
}

pub open spec fn f1_spec(z: Complex, c: Complex) -> Complex {
    cadd_spec(cmul_spec(cmul_spec(z, z), z), c)
}

/// The cubic map `z^3 + c`.
pub fn f1(z: Complex, c: Complex) -> (r: Complex)
    ensures
        r == f1_spec(z, c),
{
    cadd(cmul(cmul(z, z), z), c)
}

pub open spec fn f10_spec(z: Complex, c: Complex) -> Complex {
    cadd_spec(cexp_spec(z), c)
}

/// The exponential map `exp(z) + c`.
pub fn f10(z: Complex, c: Complex) -> (r: Complex)
    ensures
        r == f10_spec(z, c),
{
    cadd(cexp(z), c)
}

pub open spec fn f100_spec(z: Complex, c: Complex) -> Complex {
    let z2 = cmul_spec(z, z);
    let z3 = cmul_spec(z2, z);
    let num = csub_spec(one_spec(), cdivi_spec(z3, 6));
    let den_root = csub_spec(z, cdivi_spec(z2, 2));
    cadd_spec(cdiv_spec(num, cmul_spec(den_root, den_root)), c)
}

/// The rational map `(1 - z^3/6) / (z - z^2/2)^2 + c`.
pub fn f100(z: Complex, c: Complex) -> (r: Complex)
    ensures
        r == f100_spec(z, c),
{
    let z2 = cmul(z, z);
    let z3 = cmul(z2, z);
    let num = csub(Complex { re: Fx { m: SCALE_M }, im: Fx { m: 0 } }, cdivi(z3, 6));
    let den_root = csub(z, cdivi(z2, 2));
    cadd(cdiv(num, cmul(den_root, den_root)), c)
}

pub open spec fn f200_spec(z: Complex, c: Complex) -> Complex {
    cadd_spec(cdiv_spec(cadd_spec(cmul_spec(z, z), z), cln_spec(z)), c)
}

/// The logarithmic rational map `(z^2 + z) / ln(z) + c`.
pub fn f200(z: Complex, c: Complex) -> (r: Complex)
    ensures
        r == f200_spec(z, c),
{
    cadd(cdiv(cadd(cmul(z, z), z), cln(z)), c)
}

/// The members of the catalog.
#[derive(Clone, Copy, PartialEq, Eq, Structural, Debug)]
pub enum FnKind {
    Quadratic,
    Cubic,
    Exponential,
    RationalPoly,
    RationalLog,
}

/// Which catalog member a numeric identifier selects, if any.
pub open spec fn kind_of_id_spec(id: usize) -> Option<FnKind> {
    if id == 0 {
        Some(FnKind::Quadratic)
    } else if id == 1 {
        Some(FnKind::Cubic)
    } else if id == 10 {
        Some(FnKind::Exponential)
    } else if id == 100 {
        Some(FnKind::RationalPoly)
    } else if id == 200 {
        Some(FnKind::RationalLog)
    } else {
        None
    }
}

pub fn kind_of_id(id: usize) -> (r: Option<FnKind>)
    ensures
        r == kind_of_id_spec(id),
{
    if id == 0 {
        Some(FnKind::Quadratic)
    } else if id == 1 {
        Some(FnKind::Cubic)
    } else if id == 10 {
        Some(FnKind::Exponential)
    } else if id == 100 {
        Some(FnKind::RationalPoly)
    } else if id == 200 {
        Some(FnKind::RationalLog)
    } else {
        None
    }
}

/// One step of the iteration under the selected catalog member.
pub open spec fn step_spec(kind: FnKind, z: Complex, c: Complex) -> Complex {
    match kind {
        FnKind::Quadratic => f0_spec(z, c),
        FnKind::Cubic => f1_spec(z, c),
        FnKind::Exponential => f10_spec(z, c),
        FnKind::RationalPoly => f100_spec(z, c),
        FnKind::RationalLog => f200_spec(z, c),
    }
}

pub fn apply_fn(kind: FnKind, z: Complex, c: Complex) -> (r: Complex)
    ensures
        r == step_spec(kind, z, c),
{
    match kind {
        FnKind::Quadratic => f0(z, c),
        FnKind::Cubic => f1(z, c),
        FnKind::Exponential => f10(z, c),
        FnKind::RationalPoly => f100(z, c),
        FnKind::RationalLog => f200(z, c),
    }
}

/// The label under which the settings display names a catalog member.
pub open spec fn kind_label_spec(kind: FnKind) -> Seq<char> {
    match kind {
        FnKind::Quadratic => "x^2 + c"@,
        FnKind::Cubic => "x^3 + c"@,
        FnKind::Exponential => "exp(z) + c"@,
        FnKind::RationalPoly => "(1 - z^3 / 6) / (z - z^2 / 2)^2 + c"@,
        FnKind::RationalLog => "[(z2+z)/Ln(z)] + c"@,
    }
}

pub fn kind_label(kind: FnKind) -> (r: String)
    ensures
        r@ == kind_label_spec(kind),
{
    match kind {
        FnKind::Quadratic => String::from_str("x^2 + c"),
        FnKind::Cubic => String::from_str("x^3 + c"),
        FnKind::Exponential => String::from_str("exp(z) + c"),
        FnKind::RationalPoly => String::from_str("(1 - z^3 / 6) / (z - z^2 / 2)^2 + c"),
        FnKind::RationalLog => String::from_str("[(z2+z)/Ln(z)] + c"),
    }
}

} // verus!
