//! Domain coloring: sampling a compiled formula over a viewport, mapping each
//! output to a color (hue from the argument, lightness from the magnitude),
//! and encoding the pixel grid as an uncompressed 24-bit bitmap file buffer.

use vstd::prelude::*;

verus! {

use crate::ast::NodeV;
use crate::ast::eval_node;
use crate::complex::C;
use crate::complex::CVal;
use crate::complex::arg_v;
use crate::complex::c_arg;
use crate::complex::c_norm;
use crate::complex::c_sub;
use crate::complex::dec_ok;
use crate::complex::hpluv_rgb;
use crate::complex::hpluv_v;
use crate::complex::is_digit;
use crate::complex::norm_v;
use crate::complex::one_string;
use crate::complex::s_add;
use crate::complex::s_div;
use crate::complex::s_ge;
use crate::complex::s_gt;
use crate::complex::s_mul;
use crate::complex::sadd_v;
use crate::complex::sdiv_v;
use crate::complex::sge_v;
use crate::complex::sgt_v;
use crate::complex::smul_v;
use crate::complex::sub_v;
use crate::complex::trunc_u8;
use crate::complex::trunc_v;
use crate::complex::valid_scalar;
use crate::complex::zero_string;
use crate::parser::ParseError;
use crate::parser::parse_to_fn;
use crate::parser::sp_parse;

/// The viewport: the rectangle of the complex plane mapped onto the pixel
/// grid. Each bound is a real value (the real component carries the bound).
/// A viewport is degenerate unless `xmax > xmin` and `ymax > ymin`.
#[derive(Debug)]
pub struct DCOptions {
    pub xmin: C,
    pub xmax: C,
    pub ymin: C,
    pub ymax: C,
}

/// The mathematical value of a [`DCOptions`].
pub struct DCOptionsV {
    pub xmin: CVal,
    pub xmax: CVal,
    pub ymin: CVal,
    pub ymax: CVal,
}

impl View for DCOptions {
    type V = DCOptionsV;

    open spec fn view(&self) -> DCOptionsV {
        DCOptionsV { xmin: self.xmin@, xmax: self.xmax@, ymin: self.ymin@, ymax: self.ymax@ }
    }
}

impl DCOptions {
    pub open spec fn wf(&self) -> bool {
        self.xmin.wf() && self.xmax.wf() && self.ymin.wf() && self.ymax.wf()
    }
}

/// Why a render request failed.
#[derive(Clone, Copy, PartialEq, Eq, Structural, Debug)]
pub enum RenderError {
    /// The formula did not parse.
    Parse(ParseError),
    /// A zero pixel width or height.
    InvalidDimensions,
    /// A viewport without positive extent in both axes.
    InvalidViewport,
}

// ---------------------------------------------------------------------------
// Decimal renderings of pixel indices and dimensions
// ---------------------------------------------------------------------------

pub open spec fn digit_char(d: nat) -> char {
    if d == 0 {
        '0'
    } else if d == 1 {
        '1'
    } else if d == 2 {
        '2'
    } else if d == 3 {
        '3'
    } else if d == 4 {
        '4'
    } else if d == 5 {
        '5'
    } else if d == 6 {
        '6'
    } else if d == 7 {
        '7'
    } else if d == 8 {
        '8'
    } else {
        '9'
    }
}

/// The decimal rendering of a machine integer.
pub open spec fn dec_of(n: nat) -> Seq<char>
    decreases n,
{
    if n < 10 {
        seq![digit_char(n)]
    } else {
        dec_of(n / 10).push(digit_char(n % 10))
    }
}

/// A real complex value from a component rendering.
pub open spec fn cv_real(d: Seq<char>) -> CVal {
    CVal { re: d, im: seq!['0'] }
}

proof fn lemma_dec_of_digits(n: nat)
    ensures
        dec_of(n).len() >= 1,
        forall|k: int| 0 <= k < dec_of(n).len() ==> is_digit(#[trigger] dec_of(n)[k]),
    decreases n,
{
    if n >= 10 {
        lemma_dec_of_digits(n / 10);
    }
}

/// Digits alone continue a decimal rendering, whatever came before.
proof fn lemma_all_digits_dec_ok(s: Seq<char>, d: bool)
    requires
        forall|k: int| 0 <= k < s.len() ==> is_digit(#[trigger] s[k]),
    ensures
        dec_ok(s, d, true),
    decreases s.len(),
{
    if s.len() > 0 {
        assert forall|k: int| 0 <= k < s.skip(1).len() implies is_digit(#[trigger] s.skip(1)[k]) by {
            assert(s.skip(1)[k] == s[k + 1]);
        }
        lemma_all_digits_dec_ok(s.skip(1), d);
    }
}

/// A nonempty string of digits alone is a valid component rendering.
proof fn lemma_digits_valid_scalar(s: Seq<char>)
    requires
        s.len() >= 1,
        forall|k: int| 0 <= k < s.len() ==> is_digit(#[trigger] s[k]),
    ensures
        valid_scalar(s),
{
    assert forall|k: int| 0 <= k < s.skip(1).len() implies is_digit(#[trigger] s.skip(1)[k]) by {
        assert(s.skip(1)[k] == s[k + 1]);
    }
    lemma_all_digits_dec_ok(s.skip(1), false);
    assert(dec_ok(s, false, false));
}

pub proof fn lemma_dec_of_valid(n: nat)
    ensures
        valid_scalar(dec_of(n)),
{
    lemma_dec_of_digits(n);
    lemma_digits_valid_scalar(dec_of(n));
}

fn digit_str(d: usize) -> (r: &'static str)
    requires
        d < 10,
    ensures
        r@ == seq![digit_char(d as nat)],
{
    proof {
        reveal_strlit("0");
        reveal_strlit("1");
        reveal_strlit("2");
        reveal_strlit("3");
        reveal_strlit("4");
        reveal_strlit("5");
        reveal_strlit("6");
        reveal_strlit("7");
        reveal_strlit("8");
        reveal_strlit("9");
    }
    let r: &'static str = if d == 0 {
        "0"
    } else if d == 1 {
        "1"
    } else if d == 2 {
        "2"
    } else if d == 3 {
        "3"
    } else if d == 4 {
        "4"
    } else if d == 5 {
        "5"
    } else if d == 6 {
        "6"
    } else if d == 7 {
        "7"
    } else if d == 8 {
        "8"
    } else {
        "9"
    };
    proof {
        assert(r@ =~= seq![digit_char(d as nat)]);
    }
    r
}

/// Renders a machine integer in decimal.
pub fn usize_to_string(n: usize) -> (r: String)
    ensures
        r@ == dec_of(n as nat),
    decreases n,
{
    if n < 10 {
        let r = digit_str(n).to_owned();
        r
    } else {
        let q = usize_to_string(n / 10);
        let r = q.concat(digit_str(n % 10));
        proof {
            assert(r@ =~= dec_of((n / 10) as nat).push(digit_char((n % 10) as nat)));
        }
        r
    }
}

/// A real complex value whose real component renders the machine integer.
fn real_of_usize(n: usize) -> (r: C)
    ensures
        r@ == cv_real(dec_of(n as nat)),
        r.wf(),
{
    proof {
        lemma_dec_of_valid(n as nat);
    }
    let re = usize_to_string(n);
    C { re, im: zero_string() }
}

// ---------------------------------------------------------------------------
// Constants of the color mapping
// ---------------------------------------------------------------------------

pub open spec fn lit_hundred() -> Seq<char> {
    seq!['1', '0', '0']
}

pub open spec fn lit_one_eighty() -> Seq<char> {
    seq!['1', '8', '0']
}

pub open spec fn lit_three_sixty() -> Seq<char> {
    seq!['3', '6', '0']
}

pub open spec fn lit_two_fifty_five() -> Seq<char> {
    seq!['2', '5', '5']
}

/// The rendering of the `f64` nearest the circle constant pi: parsing it
/// gives exactly the value the standard library's PI constant holds.
pub open spec fn lit_pi() -> Seq<char> {
    seq!['3', '.', '1', '4', '1', '5', '9', '2', '6', '5', '3', '5', '8', '9', '7', '9', '3']
}

fn real_from_digits(s: &str) -> (r: C)
    requires
        s@.len() >= 1,
        forall|k: int| 0 <= k < s@.len() ==> is_digit(#[trigger] s@[k]),
    ensures
        r@ == cv_real(s@),
        r.wf(),
{
    proof {
        lemma_digits_valid_scalar(s@);
    }
    C { re: s.to_owned(), im: zero_string() }
}

fn c_hundred() -> (r: C)
    ensures
        r@ == cv_real(lit_hundred()),
        r.wf(),
{
    proof {
        reveal_strlit("100");
        assert("100"@ =~= lit_hundred());
    }
    real_from_digits("100")
}

fn c_one_eighty() -> (r: C)
    ensures
        r@ == cv_real(lit_one_eighty()),
        r.wf(),
{
    proof {
        reveal_strlit("180");
        assert("180"@ =~= lit_one_eighty());
    }
    real_from_digits("180")
}

fn c_three_sixty() -> (r: C)
    ensures
        r@ == cv_real(lit_three_sixty()),
        r.wf(),
{
    proof {
        reveal_strlit("360");
        assert("360"@ =~= lit_three_sixty());
    }
    real_from_digits("360")
}

fn c_two_fifty_five() -> (r: C)
    ensures
        r@ == cv_real(lit_two_fifty_five()),
        r.wf(),
{
    proof {
        reveal_strlit("255");
        assert("255"@ =~= lit_two_fifty_five());
    }
    real_from_digits("255")
}

fn c_pi() -> (r: C)
    ensures
        r@ == cv_real(lit_pi()),
        r.wf(),
{
    let s = String::from_str("3.141592653589793");
    proof {
        reveal_strlit("3.141592653589793");
        assert(s@ =~= lit_pi());
        let t = s@.skip(2);
        assert forall|k: int| 0 <= k < t.len() implies is_digit(#[trigger] t[k]) by {
            assert(t[k] == s@[k + 2]);
        }
        lemma_all_digits_dec_ok(t, true);
        assert(s@.skip(1).skip(1) =~= t);
        assert(dec_ok(s@.skip(1), false, true));
        assert(dec_ok(s@, false, false));
    }
    C { re: s, im: zero_string() }
}

fn c_zero() -> (r: C)
    ensures
        r@ == cv_real(seq!['0']),
        r.wf(),
{
    C { re: zero_string(), im: zero_string() }
}

fn c_one() -> (r: C)
    ensures
        r@ == cv_real(seq!['1']),
        r.wf(),
{
    C { re: one_string(), im: zero_string() }
}

// ---------------------------------------------------------------------------
// The color mapping
// ---------------------------------------------------------------------------

/// Lightness of a function value: `100 * |w| / (|w| + 1)`, which maps zero to
/// zero and grows monotonically toward (never reaching) one hundred.
pub open spec fn lightness_v(w: CVal) -> CVal {
    let m = norm_v(w);
    sdiv_v(smul_v(cv_real(lit_hundred()), m), sadd_v(m, cv_real(seq!['1'])))
}

/// Hue of a function value: the principal argument, in degrees, normalized to
/// `[0, 360)`: arguments at least zero give `arg / pi * 180`, negative ones
/// `arg * 180 / pi + 360`.
pub open spec fn hue_v(w: CVal) -> CVal {
    let a = arg_v(w);
    if sge_v(a, cv_real(seq!['0'])) {
        smul_v(sdiv_v(a, cv_real(lit_pi())), cv_real(lit_one_eighty()))
    } else {
        sadd_v(sdiv_v(smul_v(a, cv_real(lit_one_eighty())), cv_real(lit_pi())), cv_real(
            lit_three_sixty(),
        ))
    }
}

/// The 8-bit color of one function value: hue and lightness as above with
/// fixed saturation one hundred, converted from the HPLuv model to RGB in
/// `[0, 1]`, each component scaled by 255 and truncated.
pub open spec fn color_v(w: CVal) -> (u8, u8, u8) {
    let (lr, lg, lb) = hpluv_v(hue_v(w), cv_real(lit_hundred()), lightness_v(w));
    (
        trunc_v(smul_v(lr, cv_real(lit_two_fifty_five()))),
        trunc_v(smul_v(lg, cv_real(lit_two_fifty_five()))),
        trunc_v(smul_v(lb, cv_real(lit_two_fifty_five()))),
    )
}

/// Lightness of a function value (see [`lightness_v`]).
pub fn lightness(w: &C) -> (r: C)
    requires
        w.wf(),
    ensures
        r.wf(),
        r@ == lightness_v(w@),
{
    let m = c_norm(w);
    let num = s_mul(&c_hundred(), &m);
    let den = s_add(&m, &c_one());
    s_div(&num, &den)
}

/// The hue of a function value: its argument in degrees in `[0, 360)` (see
/// [`hue_v`]).
pub fn good_arg(z: &C) -> (r: C)
    requires
        z.wf(),
    ensures
        r.wf(),
        r@ == hue_v(z@),
{
    let a = c_arg(z);
    if s_ge(&a, &c_zero()) {
        s_mul(&s_div(&a, &c_pi()), &c_one_eighty())
    } else {
        s_add(&s_div(&s_mul(&a, &c_one_eighty()), &c_pi()), &c_three_sixty())
    }
}

/// One pixel color, as the encoder stores it.
#[derive(Clone, Copy, PartialEq, Eq, Structural, Debug)]
pub struct Rgb {
    pub r: u8,
    pub g: u8,
    pub b: u8,
}

impl Rgb {
    /// Scales three linear RGB components in `[0, 1]` by 255 and truncates
    /// each to eight bits.
    pub fn from_linear(r: &C, g: &C, b: &C) -> (rgb: Rgb)
        requires
            r.wf(),
            g.wf(),
            b.wf(),
        ensures
            rgb.r == trunc_v(smul_v(r@, cv_real(lit_two_fifty_five()))),
            rgb.g == trunc_v(smul_v(g@, cv_real(lit_two_fifty_five()))),
            rgb.b == trunc_v(smul_v(b@, cv_real(lit_two_fifty_five()))),
    {
        let scale = c_two_fifty_five();
        Rgb {
            r: trunc_u8(&s_mul(r, &scale)),
            g: trunc_u8(&s_mul(g, &scale)),
            b: trunc_u8(&s_mul(b, &scale)),
        }
    }
}

/// The color of one function value (see [`color_v`]).
pub fn color_bytes(fun_val: &C) -> (rgb: Rgb)
    requires
        fun_val.wf(),
    ensures
        (rgb.r, rgb.g, rgb.b) == color_v(fun_val@),
{
    let light = lightness(fun_val);
    let saturation = c_hundred();
    let hue = good_arg(fun_val);
    let linear = hpluv_rgb(&hue, &saturation, &light);
    Rgb::from_linear(&linear.0, &linear.1, &linear.2)
}

// ---------------------------------------------------------------------------
// Sampling grid
// ---------------------------------------------------------------------------

/// The complex sample point of pixel `(x, y)`:
/// `(xmin + x * x_step) + i (ymin + y * y_step)` with
/// `x_step = (xmax - xmin) / w` and `y_step = (ymax - ymin) / h`.
pub open spec fn sample_v(o: DCOptionsV, w: nat, h: nat, x: nat, y: nat) -> CVal {
    let xs = sdiv_v(sub_v(o.xmax, o.xmin), cv_real(dec_of(w)));
    let ys = sdiv_v(sub_v(o.ymax, o.ymin), cv_real(dec_of(h)));
    let px = sadd_v(smul_v(cv_real(dec_of(x)), xs), o.xmin);
    let py = sadd_v(smul_v(cv_real(dec_of(y)), ys), o.ymin);
    CVal { re: px.re, im: py.re }
}

/// The color of pixel `(x, y)`: the formula evaluated at the sample point,
/// mapped to a color.
pub open spec fn pixel_v(node: NodeV, o: DCOptionsV, w: nat, h: nat, x: nat, y: nat) -> (
    u8,
    u8,
    u8,
) {
    color_v(eval_node(node, sample_v(o, w, h, x, y)))
}

/// The byte `c` (blue, green, red order) of pixel `(x, y)`.
pub open spec fn pixel_byte(
    node: NodeV,
    o: DCOptionsV,
    w: nat,
    h: nat,
    x: nat,
    y: nat,
    c: nat,
) -> u8 {
    let p = pixel_v(node, o, w, h, x, y);
    if c == 0 {
        p.2
    } else if c == 1 {
        p.1
    } else {
        p.0
    }
}

/// A viewport with positive extent in both axes.
pub open spec fn viewport_ok(o: DCOptionsV) -> bool {
    sgt_v(o.xmax, o.xmin) && sgt_v(o.ymax, o.ymin)
}

// ---------------------------------------------------------------------------
// Bitmap layout
// ---------------------------------------------------------------------------

/// Bytes per pixel row: three bytes per pixel, padded up to a multiple of
/// four.
pub open spec fn spec_stride(w: nat) -> nat {
    ((3 * w + 3) / 4) * 4
}

/// A 32-bit value in little-endian byte order.
pub open spec fn le32(v: nat) -> Seq<u8> {
    seq![
        (v % 256) as u8,
        ((v / 256) % 256) as u8,
        ((v / 65536) % 256) as u8,
        ((v / 16777216) % 256) as u8,
    ]
}

/// The value a four-byte little-endian field holds.
pub open spec fn le32_val(b: Seq<u8>) -> nat {
    (b[0] + 256 * b[1] + 65536 * b[2] + 16777216 * b[3]) as nat
}

/// The 54 header bytes: the 14-byte file header (magic, file size, reserved,
/// pixel-data offset) and the 40-byte info header (header size, width,
/// height, one color plane, 24 bits per pixel, no compression, and zeroed
/// size, resolution and palette fields).
pub open spec fn bmp_header(w: nat, h: nat) -> Seq<u8> {
    seq![66u8, 77u8] + le32(54 + spec_stride(w) * h) + seq![0u8, 0u8, 0u8, 0u8] + le32(54) + le32(
        40,
    ) + le32(w) + le32(h) + seq![1u8, 0u8, 24u8, 0u8] + le32(0) + le32(0) + le32(0) + le32(0)
        + le32(0) + le32(0)
}

/// The whole encoded file for a parsed formula: header bytes, then rows of
/// three pixel bytes per pixel (blue, green, red) with zero padding bytes at
/// each row's end.
pub open spec fn bmp_ok(
    buf: Seq<u8>,
    node: NodeV,
    o: DCOptionsV,
    w: nat,
    h: nat,
) -> bool {
    &&& buf.len() == 54 + spec_stride(w) * h
    &&& (forall|k: int| 0 <= k < 54 ==> buf[k] == bmp_header(w, h)[k])
    &&& (forall|x: nat, y: nat, c: nat|
        x < w && y < h && c < 3 ==> buf[(54 + y * spec_stride(w) + 3 * x + c) as int] == #[trigger] pixel_byte(
            node,
            o,
            w,
            h,
            x,
            y,
            c,
        ))
    &&& (forall|y: nat, p: nat|
        y < h && 3 * w <= p < spec_stride(w) ==> buf[#[trigger] pad_index(w, y, p)] == 0)
}

/// The index of byte `p` of row `y`.
pub open spec fn pad_index(w: nat, y: nat, p: nat) -> int {
    (54 + y * spec_stride(w) + p) as int
}

fn le32_bytes(v: u32) -> (r: Vec<u8>)
    ensures
        r@ == le32(v as nat),
{
    let mut r: Vec<u8> = Vec::new();
    r.push((v % 256) as u8);
    r.push((v / 256 % 256) as u8);
    r.push((v / 65536 % 256) as u8);
    r.push((v / 16777216 % 256) as u8);
    proof {
        assert(r@ =~= le32(v as nat));
    }
    r
}

/// Two different in-bounds row/byte positions address different bytes.
proof fn lemma_distinct_cells(s: nat, y1: nat, p1: nat, y2: nat, p2: nat)
    requires
        p1 < s,
        p2 < s,
        y1 != y2 || p1 != p2,
    ensures
        54 + y1 * s + p1 != 54 + y2 * s + p2,
{
    assert(y1 * s + p1 != y2 * s + p2) by (nonlinear_arith)
        requires
            p1 < s,
            p2 < s,
            y1 != y2 || p1 != p2,
    ;
}

/// An in-bounds row/byte position lies within the pixel area.
proof fn lemma_cell_in_range(s: nat, h: nat, y: nat, p: nat)
    requires
        y < h,
        p < s,
    ensures
        y * s + p < h * s,
{
    assert(y * s + p < h * s) by (nonlinear_arith)
        requires
            y < h,
            p < s,
    ;
}

/// Builds the file buffer: the 54 header bytes followed by a zeroed pixel
/// area, so every padding byte is already zero.
#[verifier::loop_isolation(false)]
fn make_canvas(width: usize, height: usize, stride: usize, total: usize) -> (buf: Vec<u8>)
    requires
        width <= 0xFFFF_FFFF,
        height <= 0xFFFF_FFFF,
        stride as nat == spec_stride(width as nat),
        total == 54 + stride * height,
        total <= 0xFFFF_FFFF,
    ensures
        buf@.len() == total,
        forall|k: int| 0 <= k < 54 ==> buf@[k] == bmp_header(width as nat, height as nat)[k],
        forall|k: int| 54 <= k < total ==> buf@[k] == 0,
{
    let ghost w = width as nat;
    let ghost h = height as nat;
    let mut buf: Vec<u8> = Vec::new();
    buf.push(66u8);
    buf.push(77u8);
    let mut t = le32_bytes(total as u32);
    buf.append(&mut t);
    let mut t = le32_bytes(0);
    buf.append(&mut t);
    let mut t = le32_bytes(54);
    buf.append(&mut t);
    let mut t = le32_bytes(40);
    buf.append(&mut t);
    let mut t = le32_bytes(width as u32);
    buf.append(&mut t);
    let mut t = le32_bytes(height as u32);
    buf.append(&mut t);
    buf.push(1u8);
    buf.push(0u8);
    buf.push(24u8);
    buf.push(0u8);
    let mut k: usize = 0;
    while k < 24
        invariant
            k <= 24,
            buf@.len() == 30 + k,
            buf@ =~= bmp_header(w, h).take(30 + k as int),
        decreases 24 - k,
    {
        buf.push(0u8);
        proof {
            assert(buf@ =~= bmp_header(w, h).take(30 + k as int + 1));
        }
        k = k + 1;
    }
    proof {
        assert(buf@ =~= bmp_header(w, h));
    }
    let ghost hdr = buf@;
    while buf.len() < total
        invariant
            54 <= buf@.len() <= total,
            buf@.take(54) =~= hdr,
            forall|j: int| 54 <= j < buf@.len() ==> buf@[j] == 0,
        decreases total - buf@.len(),
    {
        buf.push(0u8);
    }
    proof {
        assert(forall|j: int| 0 <= j < 54 ==> buf@[j] == buf@.take(54)[j]);
    }
    buf
}

/// Renders one pixel row into the buffer: three bytes per pixel in blue,
/// green, red order, the padding bytes left as they are.
#[verifier::loop_isolation(false)]
#[verifier::rlimit(60)]
fn render_row(
    buf: &mut Vec<u8>,
    function: &crate::ast::CompiledFunction,
    options: &DCOptions,
    width: usize,
    height: usize,
    stride: usize,
    y_px: usize,
    x_step: &C,
    py: &C,
)
    requires
        function.wf(),
        options.wf(),
        x_step.wf(),
        py.wf(),
        width >= 1,
        y_px < height,
        stride as nat == spec_stride(width as nat),
        old(buf)@.len() == 54 + spec_stride(width as nat) * (height as nat),
        old(buf)@.len() <= 0xFFFF_FFFF,
        x_step@ == sdiv_v(sub_v(options@.xmax, options@.xmin), cv_real(dec_of(width as nat))),
        py@ == sadd_v(
            smul_v(
                cv_real(dec_of(y_px as nat)),
                sdiv_v(sub_v(options@.ymax, options@.ymin), cv_real(dec_of(height as nat))),
            ),
            options@.ymin,
        ),
        forall|k: int| 0 <= k < 54 ==> old(buf)@[k] == bmp_header(width as nat, height as nat)[k],
        forall|yy: nat, p: nat|
            yy < height && 3 * width <= p < spec_stride(width as nat) ==> old(buf)@[
                #[trigger] pad_index(width as nat, yy, p)
            ] == 0,
        forall|xx: nat, yy: nat, c: nat|
            yy < y_px && xx < width && c < 3 ==> old(buf)@[
                (54 + yy * spec_stride(width as nat) + 3 * xx + c) as int
            ] == #[trigger] pixel_byte(function@, options@, width as nat, height as nat, xx, yy, c),
    ensures
        final(buf)@.len() == old(buf)@.len(),
        forall|k: int| 0 <= k < 54 ==> final(buf)@[k] == bmp_header(width as nat, height as nat)[k],
        forall|yy: nat, p: nat|
            yy < height && 3 * width <= p < spec_stride(width as nat) ==> final(buf)@[
                #[trigger] pad_index(width as nat, yy, p)
            ] == 0,
        forall|xx: nat, yy: nat, c: nat|
            yy < y_px + 1 && xx < width && c < 3 ==> final(buf)@[
                (54 + yy * spec_stride(width as nat) + 3 * xx + c) as int
            ] == #[trigger] pixel_byte(function@, options@, width as nat, height as nat, xx, yy, c),
{
    let ghost node = function@;
    let ghost w = width as nat;
    let ghost h = height as nat;
    proof {
        assert(spec_stride(w) >= 3 * w);
        assert(y_px * spec_stride(w) + spec_stride(w) <= h * spec_stride(w)) by (nonlinear_arith)
            requires
                y_px < h,
        ;
        assert(h * spec_stride(w) == spec_stride(w) * h) by (nonlinear_arith);
    }
    let row_base: usize = 54 + y_px * stride;
    let mut x_px: usize = 0;
    while x_px < width
        invariant
            x_px <= width,
            buf@.len() == 54 + spec_stride(w) * h,
            (forall|k: int| 0 <= k < 54 ==> buf@[k] == bmp_header(w, h)[k]),
            (forall|yy: nat, p: nat|
                yy < h && 3 * w <= p < spec_stride(w) ==> buf@[#[trigger] pad_index(w, yy, p)]
                    == 0),
            (forall|xx: nat, yy: nat, c: nat|
                yy < y_px && xx < w && c < 3 ==> buf@[(54 + yy * spec_stride(w) + 3 * xx + c) as int]
                    == #[trigger] pixel_byte(node, options@, w, h, xx, yy, c)),
            (forall|xx: nat, c: nat|
                xx < x_px && c < 3 ==> buf@[(54 + y_px * spec_stride(w) + 3 * xx + c) as int]
                    == #[trigger] pixel_byte(node, options@, w, h, xx, y_px as nat, c)),
        decreases width - x_px,
    {
        let cx = real_of_usize(x_px);
        let px = s_add(&s_mul(&cx, &x_step), &options.xmin);
        let z = C { re: px.re, im: py.re.clone() };
        proof {
            assert(z@ == sample_v(options@, w, h, x_px as nat, y_px as nat));
        }
        let fun_val = function.eval(&z);
        let rgb = color_bytes(&fun_val);
        let off: usize = row_base + 3 * x_px;
        let ghost pre = buf@;
        buf.set(off, rgb.b);
        buf.set(off + 1, rgb.g);
        buf.set(off + 2, rgb.r);
        proof {
            let s = spec_stride(w);
            let xn = x_px as nat;
            let yn = y_px as nat;
            assert(off as int == 54 + yn * s + 3 * xn);
            assert forall|xx: nat, yy: nat, c: nat|
                yy < yn && xx < w && c < 3 implies buf@[(54 + yy * s + 3 * xx + c) as int]
                == #[trigger] pixel_byte(node, options@, w, h, xx, yy, c) by {
                lemma_cell_in_range(s, h, yy, (3 * xx + c) as nat);
                lemma_distinct_cells(s, yy, (3 * xx + c) as nat, yn, (3 * xn) as nat);
                lemma_distinct_cells(s, yy, (3 * xx + c) as nat, yn, (3 * xn + 1) as nat);
                lemma_distinct_cells(s, yy, (3 * xx + c) as nat, yn, (3 * xn + 2) as nat);
                assert(buf@[(54 + yy * s + 3 * xx + c) as int] == pre[(54 + yy * s + 3 * xx + c) as int]);
            }
            assert forall|yy: nat, p: nat| yy < h && 3 * w <= p < s implies buf@[
                #[trigger] pad_index(w, yy, p)
            ] == 0 by {
                lemma_cell_in_range(s, h, yy, p);
                if yy != yn {
                    lemma_distinct_cells(s, yy, p, yn, (3 * xn) as nat);
                    lemma_distinct_cells(s, yy, p, yn, (3 * xn + 1) as nat);
                    lemma_distinct_cells(s, yy, p, yn, (3 * xn + 2) as nat);
                }
                assert(buf@[pad_index(w, yy, p)] == pre[pad_index(w, yy, p)]);
            }
            assert forall|xx: nat, c: nat|
                xx < x_px as nat + 1 && c < 3 implies buf@[(54 + yn * s + 3 * xx + c) as int]
                == #[trigger] pixel_byte(node, options@, w, h, xx, yn, c) by {
                lemma_cell_in_range(s, h, yn, (3 * xx + c) as nat);
                if xx < xn {
                    assert(buf@[(54 + yn * s + 3 * xx + c) as int] == pre[(54 + yn * s + 3 * xx
                        + c) as int]);
                }
            }
        }
        x_px = x_px + 1;
    }
}

/// Renders the formula over the viewport into a complete bitmap file buffer.
///
/// The formula is parsed and compiled once; the compiled function is
/// evaluated once per pixel. On any failure no partial buffer is returned: a
/// formula that does not parse yields its parse fault, a zero dimension or a
/// degenerate viewport its domain fault.
#[verifier::loop_isolation(false)]
#[verifier::rlimit(100)]
pub fn color_bmp(width: usize, height: usize, fun_str: &str, options: DCOptions) -> (r: Result<
    Vec<u8>,
    RenderError,
>)
    requires
        options.wf(),
        54 + spec_stride(width as nat) * (height as nat) <= 0xFFFF_FFFF,
    ensures
        (match r {
            Result::Ok(buf) => {
                &&& width > 0 && height > 0
                &&& viewport_ok(options@)
                &&& (match sp_parse(fun_str@) {
                    Result::Ok(node) => bmp_ok(buf@, node, options@, width as nat, height as nat),
                    Result::Err(_) => false,
                })
            },
            Result::Err(RenderError::Parse(e)) => sp_parse(fun_str@) == Result::<
                NodeV,
                ParseError,
            >::Err(e),
            Result::Err(RenderError::InvalidDimensions) => sp_parse(fun_str@) is Ok && (width == 0
                || height == 0),
            Result::Err(RenderError::InvalidViewport) => sp_parse(fun_str@) is Ok && width > 0
                && height > 0 && !viewport_ok(options@),
        }),
{
    // Parse and compile the formula
    let function = match parse_to_fn(fun_str) {
        Result::Ok(f) => f,
        Result::Err(e) => {
            return Result::Err(RenderError::Parse(e));
        },
    };
    let ghost node = function@;
    if width == 0 || height == 0 {
        return Result::Err(RenderError::InvalidDimensions);
    }
    if !(s_gt(&options.xmax, &options.xmin) && s_gt(&options.ymax, &options.ymin)) {
        return Result::Err(RenderError::InvalidViewport);
    }
    let ghost w = width as nat;
    let ghost h = height as nat;

    // Row stride and total size
    proof {
        assert((3 * w + 3) / 4 * 4 >= 3 * w);
        assert(spec_stride(w) * h >= spec_stride(w) * 1) by (nonlinear_arith)
            requires
                h >= 1,
        ;
        assert(spec_stride(w) * h >= 1 * h) by (nonlinear_arith)
            requires
                h >= 1,
                spec_stride(w) >= 1,
        ;
    }
    let stride: usize = (3 * width + 3) / 4 * 4;
    let total: usize = 54 + stride * height;
    let mut buf = make_canvas(width, height, stride, total);
    proof {
        assert forall|yy: nat, p: nat|
            yy < h && 3 * w <= p < spec_stride(w) implies buf@[#[trigger] pad_index(w, yy, p)]
            == 0 by {
            lemma_cell_in_range(spec_stride(w), h, yy, p);
            assert(h * spec_stride(w) == spec_stride(w) * h) by (nonlinear_arith);
            assert(54 <= pad_index(w, yy, p) < total as int);
        }
    }

    // The sampling grid
    let cw = real_of_usize(width);
    let ch = real_of_usize(height);
    let x_step = s_div(&c_sub(&options.xmax, &options.xmin), &cw);
    let y_step = s_div(&c_sub(&options.ymax, &options.ymin), &ch);

    let mut y_px: usize = 0;
    while y_px < height
        invariant
            y_px <= height,
            buf@.len() == total,
            (forall|k: int| 0 <= k < 54 ==> buf@[k] == bmp_header(w, h)[k]),
            (forall|yy: nat, p: nat|
                yy < h && 3 * w <= p < spec_stride(w) ==> buf@[#[trigger] pad_index(w, yy, p)]
                    == 0),
            (forall|xx: nat, yy: nat, c: nat|
                yy < y_px && xx < w && c < 3 ==> buf@[(54 + yy * spec_stride(w) + 3 * xx + c) as int]
                    == #[trigger] pixel_byte(node, options@, w, h, xx, yy, c)),
        decreases height - y_px,
    {
        let cy = real_of_usize(y_px);
        let py = s_add(&s_mul(&cy, &y_step), &options.ymin);
        render_row(&mut buf, &function, &options, width, height, stride, y_px, &x_step, &py);
        y_px = y_px + 1;
    }
    Result::Ok(buf)
}

} // verus!
