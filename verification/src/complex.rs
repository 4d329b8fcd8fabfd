//! Complex values and the arithmetic the evaluator and the color mapper use.
//!
//! A complex number is carried as the decimal renderings of its two `f64`
//! components. Rust renders a float as the shortest decimal string that parses
//! back to the same value, so a rendering determines its component exactly,
//! and re-parsing it inside an operation wrapper loses nothing.

use vstd::prelude::*;

use num::complex::Complex64;

verus! {

/// The mathematical value of a [`C`]: the two component renderings.
pub struct CVal {
    pub re: Seq<char>,
    pub im: Seq<char>,
}

/// One complex number, each `f64` component held as its decimal rendering.
#[derive(Debug, PartialEq)]
pub struct C {
    pub re: String,
    pub im: String,
}

impl View for C {
    type V = CVal;

    open spec fn view(&self) -> CVal {
        CVal { re: self.re@, im: self.im@ }
    }
}

pub open spec fn is_digit(c: char) -> bool {
    '0' <= c && c <= '9'
}

/// The tail of a decimal component rendering: digits with at most one decimal
/// point. `seen_dot` and `seen_digit` say what an already-read prefix held.
pub open spec fn dec_ok(s: Seq<char>, seen_dot: bool, seen_digit: bool) -> bool
    decreases s.len(),
{
    if s.len() == 0 {
        seen_digit
    } else if is_digit(s[0]) {
        dec_ok(s.skip(1), seen_dot, true)
    } else if s[0] == '.' {
        !seen_dot && dec_ok(s.skip(1), true, seen_digit)
    } else {
        false
    }
}

/// The component renderings this crate stores: an optional leading minus and
/// then digits with at most one decimal point and at least one digit, or one
/// of the three special renderings Rust's float formatter can emit. Every
/// such string is accepted by `f64` parsing.
pub open spec fn valid_scalar(s: Seq<char>) -> bool {
    ||| (s.len() > 0 && s[0] == '-' && dec_ok(s.skip(1), false, false))
    ||| dec_ok(s, false, false)
    ||| s =~= seq!['i', 'n', 'f']
    ||| s =~= seq!['-', 'i', 'n', 'f']
    ||| s =~= seq!['N', 'a', 'N']
}

impl CVal {
    pub open spec fn wf(self) -> bool {
        valid_scalar(self.re) && valid_scalar(self.im)
    }
}

impl C {
    pub open spec fn wf(&self) -> bool {
        self@.wf()
    }

    /// Builds a complex value from two component renderings, refusing
    /// strings that are not such renderings.
    pub fn new(re: String, im: String) -> (r: Option<C>)
        ensures
            match r {
                Some(c) => c@ == (CVal { re: re@, im: im@ }) && c.wf(),
                None => !(CVal { re: re@, im: im@ }).wf(),
            },
    {
        if check_scalar(re.as_str()) && check_scalar(im.as_str()) {
            Some(C { re, im })
        } else {
            None
        }
    }

    /// A real number: the given rendering as real component, zero imaginary.
    pub fn from_real(re: String) -> (r: Option<C>)
        ensures
            match r {
                Some(c) => c@ == (CVal { re: re@, im: seq!['0'] }) && c.wf(),
                None => !valid_scalar(re@),
            },
    {
        proof {
            assert(seq!['0'].skip(1) =~= Seq::<char>::empty());
            assert(dec_ok(Seq::<char>::empty(), false, true));
            assert(dec_ok(seq!['0'], false, false));
        }
        if check_scalar(re.as_str()) {
            let im = zero_string();
            Some(C { re, im })
        } else {
            None
        }
    }

    pub fn re(&self) -> (r: &String)
        ensures
            r@ == self@.re,
    {
        &self.re
    }

    pub fn im(&self) -> (r: &String)
        ensures
            r@ == self@.im,
    {
        &self.im
    }
}

impl Clone for C {
    fn clone(&self) -> (r: Self)
        ensures
            r@ == self@,
    {
        C { re: self.re.clone(), im: self.im.clone() }
    }
}

/// The rendering of zero, used as the imaginary component of real values.
pub(crate) fn zero_string() -> (r: String)
    ensures
        r@ =~= seq!['0'],
        valid_scalar(r@),
{
    let r = String::from_str("0");
    proof {
        reveal_strlit("0");
        assert(r@ =~= seq!['0']);
        assert(r@.skip(1) =~= Seq::<char>::empty());
        assert(dec_ok(Seq::<char>::empty(), false, true));
        assert(dec_ok(r@, false, false));
    }
    r
}

/// The rendering of one, used as the imaginary component of the constant `i`.
pub(crate) fn one_string() -> (r: String)
    ensures
        r@ =~= seq!['1'],
        valid_scalar(r@),
{
    let r = String::from_str("1");
    proof {
        reveal_strlit("1");
        assert(r@ =~= seq!['1']);
        assert(r@.skip(1) =~= Seq::<char>::empty());
        assert(dec_ok(Seq::<char>::empty(), false, true));
        assert(dec_ok(r@, false, false));
    }
    r
}

/// Checks that a string is a component rendering in the sense of
/// [`valid_scalar`].
#[verifier::loop_isolation(false)]
pub fn check_scalar(s: &str) -> (r: bool)
    ensures
        r == valid_scalar(s@),
{
    let n = s.unicode_len();
    if is_special(s) {
        return true;
    }
    let mut i: usize = 0;
    if n > 0 && s.get_char(0) == '-' {
        i = 1;
    }
    let ghost start: int = i as int;
    proof {
        assert(s@.skip(0) =~= s@);
    }
    let mut seen_dot = false;
    let mut seen_digit = false;
    while i < n
        invariant
            start <= i <= n,
            n == s@.len(),
            dec_ok(s@.skip(start), false, false) == dec_ok(
                s@.skip(i as int),
                seen_dot,
                seen_digit,
            ),
        decreases n - i,
    {
        let c = s.get_char(i);
        proof {
            assert(s@.skip(i as int)[0] == s@[i as int]);
            assert(s@.skip(i as int).skip(1) =~= s@.skip(i as int + 1));
        }
        if '0' <= c && c <= '9' {
            seen_digit = true;
        } else if c == '.' {
            if seen_dot {
                proof {
                    assert(!dec_ok(s@.skip(i as int), seen_dot, seen_digit));
                }
                return false;
            }
            seen_dot = true;
        } else {
            proof {
                assert(!dec_ok(s@.skip(i as int), seen_dot, seen_digit));
            }
            return false;
        }
        i = i + 1;
    }
    proof {
        assert(s@.skip(n as int) =~= Seq::<char>::empty());
        if start == 1 {
            assert(s@[0] == '-');
        }
    }
    seen_digit
}

// The arithmetic wrappers below all follow one pattern: the two components of
// each operand are parsed back into an `f64` pair (the `requires` admit only
// renderings that `f64` parsing accepts, so the `unwrap` cannot fail), the one
// outside operation is applied, and the result's components are re-rendered
// with `to_string`, which always emits a rendering in the sense of
// [`valid_scalar`]. What value the operation returns is named by one
// uninterpreted spec function per operation: the renderings determine the
// `f64` inputs exactly and each operation is a pure function of its inputs,
// so the same argument renderings always name the same result.

pub uninterp spec fn add_v(a: CVal, b: CVal) -> CVal;

/// Relies on `num`'s `Add` for `Complex<f64>`: componentwise addition.
#[verifier::external_body]
pub(crate) fn c_add(a: &C, b: &C) -> (r: C)
    requires
        a.wf(),
        b.wf(),
    ensures
        r.wf(),
        r@ == add_v(a@, b@),
{
    let x = Complex64::new(a.re.parse().unwrap(), a.im.parse().unwrap());
    let y = Complex64::new(b.re.parse().unwrap(), b.im.parse().unwrap());
    let v = x + y;
    C { re: v.re.to_string(), im: v.im.to_string() }
}

pub uninterp spec fn sub_v(a: CVal, b: CVal) -> CVal;

/// Relies on `num`'s `Sub` for `Complex<f64>`: componentwise subtraction.
#[verifier::external_body]
pub(crate) fn c_sub(a: &C, b: &C) -> (r: C)
    requires
        a.wf(),
        b.wf(),
    ensures
        r.wf(),
        r@ == sub_v(a@, b@),
{
    let x = Complex64::new(a.re.parse().unwrap(), a.im.parse().unwrap());
    let y = Complex64::new(b.re.parse().unwrap(), b.im.parse().unwrap());
    let v = x - y;
    C { re: v.re.to_string(), im: v.im.to_string() }
}

pub uninterp spec fn mul_v(a: CVal, b: CVal) -> CVal;

/// Relies on `num`'s `Mul` for `Complex<f64>`: complex multiplication.
#[verifier::external_body]
pub(crate) fn c_mul(a: &C, b: &C) -> (r: C)
    requires
        a.wf(),
        b.wf(),
    ensures
        r.wf(),
        r@ == mul_v(a@, b@),
{
    let x = Complex64::new(a.re.parse().unwrap(), a.im.parse().unwrap());
    let y = Complex64::new(b.re.parse().unwrap(), b.im.parse().unwrap());
    let v = x * y;
    C { re: v.re.to_string(), im: v.im.to_string() }
}

pub uninterp spec fn div_v(a: CVal, b: CVal) -> CVal;

/// Relies on `num`'s `Div` for `Complex<f64>`: complex division.
#[verifier::external_body]
pub(crate) fn c_div(a: &C, b: &C) -> (r: C)
    requires
        a.wf(),
        b.wf(),
    ensures
        r.wf(),
        r@ == div_v(a@, b@),
{
    let x = Complex64::new(a.re.parse().unwrap(), a.im.parse().unwrap());
    let y = Complex64::new(b.re.parse().unwrap(), b.im.parse().unwrap());
    let v = x / y;
    C { re: v.re.to_string(), im: v.im.to_string() }
}

pub uninterp spec fn powc_v(a: CVal, b: CVal) -> CVal;

/// Relies on `num`'s `Complex::powc`: the principal-branch complex power.
#[verifier::external_body]
pub(crate) fn c_powc(a: &C, b: &C) -> (r: C)
    requires
        a.wf(),
        b.wf(),
    ensures
        r.wf(),
        r@ == powc_v(a@, b@),
{
    let x = Complex64::new(a.re.parse().unwrap(), a.im.parse().unwrap());
    let y = Complex64::new(b.re.parse().unwrap(), b.im.parse().unwrap());
    let v = x.powc(y);
    C { re: v.re.to_string(), im: v.im.to_string() }
}

pub uninterp spec fn neg_v(a: CVal) -> CVal;

/// Relies on `num`'s `Neg` for `Complex<f64>`: componentwise negation.
#[verifier::external_body]
pub(crate) fn c_neg(a: &C) -> (r: C)
    requires
        a.wf(),
    ensures
        r.wf(),
        r@ == neg_v(a@),
{
    let v = -Complex64::new(a.re.parse().unwrap(), a.im.parse().unwrap());
    C { re: v.re.to_string(), im: v.im.to_string() }
}

pub uninterp spec fn inv_v(a: CVal) -> CVal;

/// Relies on `num`'s `Complex::inv`: the reciprocal `1/self`.
#[verifier::external_body]
pub(crate) fn c_inv(a: &C) -> (r: C)
    requires
        a.wf(),
    ensures
        r.wf(),
        r@ == inv_v(a@),
{
    let v = Complex64::new(a.re.parse().unwrap(), a.im.parse().unwrap()).inv();
    C { re: v.re.to_string(), im: v.im.to_string() }
}

pub uninterp spec fn sqrt_v(a: CVal) -> CVal;

/// Relies on `num`'s `Complex::sqrt`: the principal complex square root.
#[verifier::external_body]
pub(crate) fn c_sqrt(a: &C) -> (r: C)
    requires
        a.wf(),
    ensures
        r.wf(),
        r@ == sqrt_v(a@),
{
    let v = Complex64::new(a.re.parse().unwrap(), a.im.parse().unwrap()).sqrt();
    C { re: v.re.to_string(), im: v.im.to_string() }
}

pub uninterp spec fn exp_v(a: CVal) -> CVal;

/// Relies on `num`'s `Complex::exp`: the complex exponential.
#[verifier::external_body]
pub(crate) fn c_exp(a: &C) -> (r: C)
    requires
        a.wf(),
    ensures
        r.wf(),
        r@ == exp_v(a@),
{
    let v = Complex64::new(a.re.parse().unwrap(), a.im.parse().unwrap()).exp();
    C { re: v.re.to_string(), im: v.im.to_string() }
}

pub uninterp spec fn sin_v(a: CVal) -> CVal;

/// Relies on `num`'s `Complex::sin`: the complex sine.
#[verifier::external_body]
pub(crate) fn c_sin(a: &C) -> (r: C)
    requires
        a.wf(),
    ensures
        r.wf(),
        r@ == sin_v(a@),
{
    let v = Complex64::new(a.re.parse().unwrap(), a.im.parse().unwrap()).sin();
    C { re: v.re.to_string(), im: v.im.to_string() }
}

pub uninterp spec fn cos_v(a: CVal) -> CVal;

/// Relies on `num`'s `Complex::cos`: the complex cosine.
#[verifier::external_body]
pub(crate) fn c_cos(a: &C) -> (r: C)
    requires
        a.wf(),
    ensures
        r.wf(),
        r@ == cos_v(a@),
{
    let v = Complex64::new(a.re.parse().unwrap(), a.im.parse().unwrap()).cos();
    C { re: v.re.to_string(), im: v.im.to_string() }
}

pub uninterp spec fn tan_v(a: CVal) -> CVal;

/// Relies on `num`'s `Complex::tan`: the complex tangent.
#[verifier::external_body]
pub(crate) fn c_tan(a: &C) -> (r: C)
    requires
        a.wf(),
    ensures
        r.wf(),
        r@ == tan_v(a@),
{
    let v = Complex64::new(a.re.parse().unwrap(), a.im.parse().unwrap()).tan();
    C { re: v.re.to_string(), im: v.im.to_string() }
}

pub uninterp spec fn sinh_v(a: CVal) -> CVal;

/// Relies on `num`'s `Complex::sinh`: the complex hyperbolic sine.
#[verifier::external_body]
pub(crate) fn c_sinh(a: &C) -> (r: C)
    requires
        a.wf(),
    ensures
        r.wf(),
        r@ == sinh_v(a@),
{
    let v = Complex64::new(a.re.parse().unwrap(), a.im.parse().unwrap()).sinh();
    C { re: v.re.to_string(), im: v.im.to_string() }
}

pub uninterp spec fn cosh_v(a: CVal) -> CVal;

/// Relies on `num`'s `Complex::cosh`: the complex hyperbolic cosine.
#[verifier::external_body]
pub(crate) fn c_cosh(a: &C) -> (r: C)
    requires
        a.wf(),
    ensures
        r.wf(),
        r@ == cosh_v(a@),
{
    let v = Complex64::new(a.re.parse().unwrap(), a.im.parse().unwrap()).cosh();
    C { re: v.re.to_string(), im: v.im.to_string() }
}

pub uninterp spec fn tanh_v(a: CVal) -> CVal;

/// Relies on `num`'s `Complex::tanh`: the complex hyperbolic tangent.
#[verifier::external_body]
pub(crate) fn c_tanh(a: &C) -> (r: C)
    requires
        a.wf(),
    ensures
        r.wf(),
        r@ == tanh_v(a@),
{
    let v = Complex64::new(a.re.parse().unwrap(), a.im.parse().unwrap()).tanh();
    C { re: v.re.to_string(), im: v.im.to_string() }
}

pub uninterp spec fn norm_v(a: CVal) -> CVal;

/// Relies on `num`'s `Complex::norm`: the magnitude `|a|`, returned as a real
/// value (`From<f64>` embeds it with a zero imaginary component).
#[verifier::external_body]
pub(crate) fn c_norm(a: &C) -> (r: C)
    requires
        a.wf(),
    ensures
        r.wf(),
        r@ == norm_v(a@),
{
    let v = Complex64::from(
        Complex64::new(a.re.parse().unwrap(), a.im.parse().unwrap()).norm(),
    );
    C { re: v.re.to_string(), im: v.im.to_string() }
}

pub uninterp spec fn arg_v(a: CVal) -> CVal;

/// Relies on `num`'s `Complex::arg`: the principal argument in `(-pi, pi]`,
/// returned as a real value (`From<f64>` embeds it with a zero imaginary
/// component).
#[verifier::external_body]
pub(crate) fn c_arg(a: &C) -> (r: C)
    requires
        a.wf(),
    ensures
        r.wf(),
        r@ == arg_v(a@),
{
    let v = Complex64::from(
        Complex64::new(a.re.parse().unwrap(), a.im.parse().unwrap()).arg(),
    );
    C { re: v.re.to_string(), im: v.im.to_string() }
}

pub uninterp spec fn sadd_v(a: CVal, b: CVal) -> CVal;

/// Relies on `num`'s `Add<f64>` for `Complex<f64>`: adds the real component
/// of `b` to the real component of `a`; the imaginary component of `a` is
/// kept. This is the exact scalar `f64` addition of the real components.
#[verifier::external_body]
pub(crate) fn s_add(a: &C, b: &C) -> (r: C)
    requires
        a.wf(),
        b.wf(),
    ensures
        r.wf(),
        r@ == sadd_v(a@, b@),
{
    let x = Complex64::new(a.re.parse().unwrap(), a.im.parse().unwrap());
    let y = Complex64::new(b.re.parse().unwrap(), b.im.parse().unwrap());
    let v = x + y.re;
    C { re: v.re.to_string(), im: v.im.to_string() }
}

pub uninterp spec fn smul_v(a: CVal, b: CVal) -> CVal;

/// Relies on `num`'s `Complex::scale`: multiplies both components of `a` by
/// the real component of `b`. This is the exact scalar `f64` multiplication
/// of the real components.
#[verifier::external_body]
pub(crate) fn s_mul(a: &C, b: &C) -> (r: C)
    requires
        a.wf(),
        b.wf(),
    ensures
        r.wf(),
        r@ == smul_v(a@, b@),
{
    let x = Complex64::new(a.re.parse().unwrap(), a.im.parse().unwrap());
    let y = Complex64::new(b.re.parse().unwrap(), b.im.parse().unwrap());
    let v = x.scale(y.re);
    C { re: v.re.to_string(), im: v.im.to_string() }
}

pub uninterp spec fn sdiv_v(a: CVal, b: CVal) -> CVal;

/// Relies on `num`'s `Complex::unscale`: divides both components of `a` by
/// the real component of `b`. This is the exact scalar `f64` division of the
/// real components.
#[verifier::external_body]
pub(crate) fn s_div(a: &C, b: &C) -> (r: C)
    requires
        a.wf(),
        b.wf(),
    ensures
        r.wf(),
        r@ == sdiv_v(a@, b@),
{
    let x = Complex64::new(a.re.parse().unwrap(), a.im.parse().unwrap());
    let y = Complex64::new(b.re.parse().unwrap(), b.im.parse().unwrap());
    let v = x.unscale(y.re);
    C { re: v.re.to_string(), im: v.im.to_string() }
}

pub uninterp spec fn sge_v(a: CVal, b: CVal) -> bool;

/// Relies on std's `>=` for `f64` (`PartialOrd`), applied to the real
/// components; false whenever either real component is a NaN.
#[verifier::external_body]
pub(crate) fn s_ge(a: &C, b: &C) -> (r: bool)
    requires
        a.wf(),
        b.wf(),
    ensures
        r == sge_v(a@, b@),
{
    let x = Complex64::new(a.re.parse().unwrap(), a.im.parse().unwrap());
    let y = Complex64::new(b.re.parse().unwrap(), b.im.parse().unwrap());
    x.re >= y.re
}

pub uninterp spec fn sgt_v(a: CVal, b: CVal) -> bool;

/// Relies on std's `>` for `f64` (`PartialOrd`), applied to the real
/// components; false whenever either real component is a NaN.
#[verifier::external_body]
pub(crate) fn s_gt(a: &C, b: &C) -> (r: bool)
    requires
        a.wf(),
        b.wf(),
    ensures
        r == sgt_v(a@, b@),
{
    let x = Complex64::new(a.re.parse().unwrap(), a.im.parse().unwrap());
    let y = Complex64::new(b.re.parse().unwrap(), b.im.parse().unwrap());
    x.re > y.re
}

pub uninterp spec fn hpluv_v(h: CVal, s: CVal, l: CVal) -> (CVal, CVal, CVal);

/// Relies on `hsluv`'s `hpluv_to_rgb`: converts a hue, saturation, lightness
/// triple in the HPLuv color model (taken from the real components) to three
/// RGB components in `[0, 1]`, returned as real values.
#[verifier::external_body]
pub(crate) fn hpluv_rgb(h: &C, s: &C, l: &C) -> (r: (C, C, C))
    requires
        h.wf(),
        s.wf(),
        l.wf(),
    ensures
        r.0.wf() && r.1.wf() && r.2.wf(),
        (r.0@, r.1@, r.2@) == hpluv_v(h@, s@, l@),
{
    let t = hsluv::hpluv_to_rgb(
        h.re.parse().unwrap(),
        s.re.parse().unwrap(),
        l.re.parse().unwrap(),
    );
    let (x, y, z) = (Complex64::from(t.0), Complex64::from(t.1), Complex64::from(t.2));
    (
        C { re: x.re.to_string(), im: x.im.to_string() },
        C { re: y.re.to_string(), im: y.im.to_string() },
        C { re: z.re.to_string(), im: z.im.to_string() },
    )
}

pub uninterp spec fn trunc_v(a: CVal) -> u8;

/// Relies on std's `as u8` cast for `f64`, applied to the real component:
/// truncation toward zero, saturating at the `u8` bounds, zero for a NaN.
#[verifier::external_body]
pub(crate) fn trunc_u8(a: &C) -> (r: u8)
    requires
        a.wf(),
    ensures
        r == trunc_v(a@),
{
    Complex64::new(a.re.parse().unwrap(), a.im.parse().unwrap()).re as u8
}

/// Checks for the three special renderings Rust's float formatter can emit.
fn is_special(s: &str) -> (r: bool)
    ensures
        r == (s@ =~= seq!['i', 'n', 'f'] || s@ =~= seq!['-', 'i', 'n', 'f'] || s@ =~= seq![
            'N',
            'a',
            'N',
        ]),
{
    let n = s.unicode_len();
    if n == 3 {
        let a = s.get_char(0);
        let b = s.get_char(1);
        let c = s.get_char(2);
        (a == 'i' && b == 'n' && c == 'f') || (a == 'N' && b == 'a' && c == 'N')
    } else if n == 4 {
        s.get_char(0) == '-' && s.get_char(1) == 'i' && s.get_char(2) == 'n' && s.get_char(3)
            == 'f'
    } else {
        false
    }
}

} // verus!
