//! Textual rendering.
//!
//! A pure, stateless formatting pass over the data model: a numeric
//! boundary becomes a compact, human-recognizable token (a pi multiple, a
//! root constant, a small fraction) or a six-decimal fallback, and domain
//! and range descriptions become the usual interval/union/complement
//! notation.  Output is produced as bytes; every byte written is ASCII.

use vstd::prelude::*;
use vstd::string::StringSliceAdditionalSpecFns;

use crate::frac::{float_to_ratio, ratio_of};
use crate::model::{Domain, DomainV, Ival, NumRange, NumRangeV, RangeShape, RangeShapeV};
use crate::nums::{
    div_round, div_round_spec, Ext, ACH_TOL, E_RAW, HALF_PI_RAW, HALF_SQRT2_RAW, HALF_SQRT3_RAW,
    INF_RAW, INV_E_RAW, PI_RAW, QUARTER_PI_RAW, SCALE, SIXTH_PI_RAW, SQRT2_RAW, SQRT3_RAW,
    SYM_EPS, THIRD_PI_RAW, TWO_PI_RAW, XEXP_BOUND_RAW, XX_MIN_RAW, ZERO_EPS,
};

verus! {

/// Append the bytes of a literal.
fn put(out: &mut Vec<u8>, s: &str)
    ensures
        final(out)@ == old(out)@ + s.spec_bytes(),
{
    let b = s.as_bytes_vec();
    let mut i: usize = 0;
    proof {
        assert(out@ + b@.take(0) =~= out@);
    }
    while i < b.len()
        invariant
            0 <= i <= b@.len(),
            b@ == s.spec_bytes(),
            out@ == old(out)@ + b@.take(i as int),
        decreases b@.len() - i,
    {
        out.push(b[i]);
        i = i + 1;
        proof {
            assert(old(out)@ + b@.take(i - 1) + seq![b@[i - 1]] =~= old(out)@ + b@.take(
                i as int,
            ));
        }
    }
    proof {
        assert(b@.take(b@.len() as int) =~= b@);
    }
}

/// Decimal digits of a nonnegative number.
pub open spec fn dec_u(n: int) -> Seq<u8>
    recommends
        n >= 0,
    decreases n,
{
    if n <= 9 {
        seq![(48 + (if n < 0 {
            0int
        } else {
            n
        }) % 10) as u8]
    } else {
        dec_u(n / 10) + seq![(48 + n % 10) as u8]
    }
}

fn push_dec(out: &mut Vec<u8>, n: i128)
    requires
        n >= 0,
    ensures
        final(out)@ == old(out)@ + dec_u(n as int),
    decreases n,
{
    if n <= 9 {
        out.push(48 + (n as u8));
        proof {
            assert(out@ =~= old(out)@ + dec_u(n as int));
        }
    } else {
        push_dec(out, n / 10);
        out.push(48 + ((n % 10) as u8));
        proof {
            assert(out@ =~= old(out)@ + dec_u(n as int));
        }
    }
}

/// Digits of a signed number.
pub open spec fn dec_s(n: int) -> Seq<u8> {
    if n < 0 {
        seq![45u8] + dec_u(-n)
    } else {
        dec_u(n)
    }
}

fn push_dec_s(out: &mut Vec<u8>, n: i128)
    requires
        n != i128::MIN,
    ensures
        final(out)@ == old(out)@ + dec_s(n as int),
{
    if n < 0 {
        out.push(45);
        push_dec(out, -n);
        proof {
            assert(out@ =~= old(out)@ + dec_s(n as int));
        }
    } else {
        push_dec(out, n);
    }
}

/// Zero-padded digits: exactly `k` digits of `n`'s low part.
pub open spec fn dec_pad(n: int, k: int) -> Seq<u8>
    decreases k,
{
    if k <= 0 {
        Seq::empty()
    } else {
        dec_pad(n / 10, k - 1) + seq![(48 + (if n < 0 {
            0int
        } else {
            n
        }) % 10) as u8]
    }
}

fn push_pad(out: &mut Vec<u8>, n: i128, k: u32)
    requires
        n >= 0,
        k <= 10,
    ensures
        final(out)@ == old(out)@ + dec_pad(n as int, k as int),
    decreases k,
{
    if k == 0 {
        proof {
            assert(out@ =~= out@ + dec_pad(n as int, 0));
        }
    } else {
        push_pad(out, n / 10, k - 1);
        out.push(48 + ((n % 10) as u8));
        proof {
            assert(out@ =~= old(out)@ + dec_pad(n as int, k as int));
        }
    }
}

/// Trailing-zero trimming of a fraction part: the value with its zeros
/// stripped and how many digits remain.
pub open spec fn trim6(fp: int, k: int) -> (int, int)
    decreases k,
{
    if k <= 0 {
        (fp, 0)
    } else if fp % 10 == 0 {
        trim6(fp / 10, k - 1)
    } else {
        (fp, k)
    }
}

/// The six-decimal fallback of a raw value: sign, whole part, and the
/// fraction with trailing zeros (and a bare point) trimmed.
pub open spec fn dec_fallback(v: int) -> Seq<u8> {
    let micro = div_round_spec(v, 1_000_000);
    let m = if micro < 0 {
        -micro
    } else {
        micro
    };
    let sign: Seq<u8> = if micro < 0 {
        seq![45u8]
    } else {
        Seq::empty()
    };
    let ip = m / 1_000_000;
    let fp = m % 1_000_000;
    let (tfp, k) = trim6(fp, 6);
    if k == 0 {
        sign + dec_u(ip)
    } else {
        sign + dec_u(ip) + seq![46u8] + dec_pad(tfp, k)
    }
}

fn push_fallback(out: &mut Vec<u8>, v: i128)
    requires
        -CLIP_BOUND <= v <= CLIP_BOUND,
    ensures
        final(out)@ == old(out)@ + dec_fallback(v as int),
{
    let micro = div_round(v, 1_000_000);
    let m = if micro < 0 {
        -micro
    } else {
        micro
    };
    if micro < 0 {
        out.push(45);
    }
    let ip = m / 1_000_000;
    let mut fp = m % 1_000_000;
    let mut k: u32 = 6;
    while k > 0 && fp % 10 == 0
        invariant
            0 <= fp,
            k <= 6,
            trim6((m % 1_000_000) as int, 6) == trim6(fp as int, k as int),
        decreases k,
    {
        fp = fp / 10;
        k = k - 1;
    }
    push_dec(out, ip);
    if k > 0 {
        out.push(46);
        push_pad(out, fp, k);
    }
    proof {
        assert(out@ =~= old(out)@ + dec_fallback(v as int));
    }
}

/// Arithmetic range accepted by the fallback printer.
pub const CLIP_BOUND: i128 = 2_000_000_000_000_000_000_000_000_000;

/// The small-fraction table the formatter tries first.
pub open spec fn frac_pairs() -> Seq<(i128, i128)> {
    seq![
        (1i128, 2i128),
        (1, 3),
        (1, 4),
        (1, 5),
        (1, 6),
        (1, 8),
        (1, 10),
        (2, 3),
        (3, 4),
        (2, 5),
        (3, 5),
        (4, 5),
        (5, 6),
        (5, 8),
        (3, 8),
        (7, 8),
    ]
}

fn frac_pairs_vec() -> (r: Vec<(i128, i128)>)
    ensures
        r@ == frac_pairs(),
{
    let mut v: Vec<(i128, i128)> = Vec::new();
    v.push((1, 2));
    v.push((1, 3));
    v.push((1, 4));
    v.push((1, 5));
    v.push((1, 6));
    v.push((1, 8));
    v.push((1, 10));
    v.push((2, 3));
    v.push((3, 4));
    v.push((2, 5));
    v.push((3, 5));
    v.push((4, 5));
    v.push((5, 6));
    v.push((5, 8));
    v.push((3, 8));
    v.push((7, 8));
    proof {
        assert(v@ =~= frac_pairs());
    }
    v
}

/// First table fraction matching `v` (either sign), from index `i`.
pub open spec fn pair_match(v: i128, i: int) -> Option<Seq<u8>>
    decreases frac_pairs().len() - i,
{
    if i < 0 || i >= frac_pairs().len() {
        Option::None
    } else {
        let (num, den) = frac_pairs()[i];
        if -(ZERO_EPS as int) * den < v * den - num * (SCALE as int) < (ZERO_EPS as int) * den {
            Option::Some(dec_u(num as int) + seq![47u8] + dec_u(den as int))
        } else if -(ZERO_EPS as int) * den < v * den + num * (SCALE as int) < (ZERO_EPS as int)
            * den {
            Option::Some(seq![45u8] + dec_u(num as int) + seq![47u8] + dec_u(den as int))
        } else {
            pair_match(v, i + 1)
        }
    }
}

/// What the fraction formatter produces for `v`.
pub open spec fn frac_str_spec(v: i128) -> Option<Seq<u8>> {
    if v > 1000 * (SCALE as int) || v < -1000 * (SCALE as int) || (-1_000_000 < v
        && v < 1_000_000) {
        Option::None
    } else if pair_match(v, 0) is Some {
        pair_match(v, 0)
    } else {
        match ratio_of(v) {
            Option::Some(p) => {
                if p.1 != 1 && p.1 <= 100 && -100 <= p.0 <= 100 {
                    Option::Some(dec_s(p.0) + seq![47u8] + dec_u(p.1))
                } else if p.1 == 1 {
                    Option::Some(dec_s(p.0))
                } else {
                    Option::None
                }
            },
            Option::None => Option::None,
        }
    }
}

/// Render `v` as a simple fraction when one is close enough.
pub fn try_to_fraction(v: i128) -> (r: Option<Vec<u8>>)
    ensures
        match r {
            Option::Some(s) => frac_str_spec(v) == Option::Some(s@),
            Option::None => frac_str_spec(v) is None,
        },
{
    if v > 1000 * SCALE || v < -(1000 * SCALE) || (-1_000_000 < v && v < 1_000_000) {
        return Option::None;
    }
    let pairs = frac_pairs_vec();
    let mut i: usize = 0;
    while i < pairs.len()
        invariant
            -1000 * (SCALE as int) <= v <= 1000 * (SCALE as int),
            !(-1_000_000 < v && v < 1_000_000),
            0 <= i <= pairs@.len(),
            pairs@ == frac_pairs(),
            pair_match(v, 0) == pair_match(v, i as int),
        decreases pairs@.len() - i,
    {
        let (num, den) = pairs[i];
        proof {
            assert(1 <= num <= 7 && 2 <= den <= 10);
            assert(-10_000 * (SCALE as int) <= v * den <= 10_000 * (SCALE as int) && 0
                < ZERO_EPS * den <= 10_000) by (nonlinear_arith)
                requires
                    -1000 * (SCALE as int) <= v <= 1000 * (SCALE as int),
                    2 <= den <= 10,
                    ZERO_EPS == 1000i128,
            ;
        }
        let e1 = v * den - num * SCALE;
        let e2 = v * den + num * SCALE;
        if -(ZERO_EPS * den) < e1 && e1 < ZERO_EPS * den {
            let mut s: Vec<u8> = Vec::new();
            push_dec(&mut s, num);
            s.push(47);
            push_dec(&mut s, den);
            proof {
                assert(s@ =~= dec_u(num as int) + seq![47u8] + dec_u(den as int));
                assert(pair_match(v, i as int) == Option::Some(
                    dec_u(num as int) + seq![47u8] + dec_u(den as int),
                ));
            }
            return Option::Some(s);
        }
        if -(ZERO_EPS * den) < e2 && e2 < ZERO_EPS * den {
            let mut s: Vec<u8> = Vec::new();
            s.push(45);
            push_dec(&mut s, num);
            s.push(47);
            push_dec(&mut s, den);
            proof {
                assert(s@ =~= seq![45u8] + dec_u(num as int) + seq![47u8] + dec_u(den as int));
                assert(pair_match(v, i as int) == Option::Some(
                    seq![45u8] + dec_u(num as int) + seq![47u8] + dec_u(den as int),
                ));
            }
            return Option::Some(s);
        }
        i = i + 1;
    }
    match float_to_ratio(v) {
        Option::Some(p) => {
            let (pn, pd) = p;
            if pd != 1 && pd <= 100 && -100 <= pn && pn <= 100 {
                let mut s: Vec<u8> = Vec::new();
                push_dec_s(&mut s, pn as i128);
                s.push(47);
                push_dec(&mut s, pd as i128);
                proof {
                    assert(s@ =~= dec_s(pn as int) + seq![47u8] + dec_u(pd as int));
                }
                Option::Some(s)
            } else if pd == 1 {
                let mut s: Vec<u8> = Vec::new();
                push_dec_s(&mut s, pn as i128);
                Option::Some(s)
            } else {
                Option::None
            }
        },
        Option::None => Option::None,
    }
}

/// A constant-name entry matching `v` within the given tolerance.
pub open spec fn const_match(v: i128, c: i128, tol: i128) -> bool {
    -(tol as int) < v - c < tol as int
}

/// The compact symbolic token for a finite raw value.
pub open spec fn sym_spec(v: i128) -> Seq<u8> {
    if v > INF_RAW {
        "oo".spec_bytes()
    } else if v < -INF_RAW {
        "-oo".spec_bytes()
    } else if -ZERO_EPS < v && v < ZERO_EPS {
        "0".spec_bytes()
    } else if const_match(v, PI_RAW, SYM_EPS) {
        "pi".spec_bytes()
    } else if const_match(v, (-PI_RAW) as i128, SYM_EPS) {
        "-pi".spec_bytes()
    } else if const_match(v, HALF_PI_RAW, SYM_EPS) {
        "pi/2".spec_bytes()
    } else if const_match(v, (-HALF_PI_RAW) as i128, SYM_EPS) {
        "-pi/2".spec_bytes()
    } else if const_match(v, THIRD_PI_RAW, SYM_EPS) {
        "pi/3".spec_bytes()
    } else if const_match(v, QUARTER_PI_RAW, SYM_EPS) {
        "pi/4".spec_bytes()
    } else if const_match(v, SIXTH_PI_RAW, SYM_EPS) {
        "pi/6".spec_bytes()
    } else if const_match(v, TWO_PI_RAW, SYM_EPS) {
        "2*pi".spec_bytes()
    } else if const_match(v, (-TWO_PI_RAW) as i128, SYM_EPS) {
        "-2*pi".spec_bytes()
    } else if const_match(v, E_RAW, SYM_EPS) {
        "E".spec_bytes()
    } else if const_match(v, INV_E_RAW, SYM_EPS) {
        "exp(-1)".spec_bytes()
    } else if const_match(v, (-INV_E_RAW) as i128, SYM_EPS) {
        "-exp(-1)".spec_bytes()
    } else if const_match(v, SQRT2_RAW, SYM_EPS) {
        "sqrt(2)".spec_bytes()
    } else if const_match(v, (-SQRT2_RAW) as i128, SYM_EPS) {
        "-sqrt(2)".spec_bytes()
    } else if const_match(v, HALF_SQRT2_RAW, SYM_EPS) {
        "sqrt(2)/2".spec_bytes()
    } else if const_match(v, (-HALF_SQRT2_RAW) as i128, SYM_EPS) {
        "-sqrt(2)/2".spec_bytes()
    } else if const_match(v, SQRT3_RAW, SYM_EPS) {
        "sqrt(3)".spec_bytes()
    } else if const_match(v, (-SQRT3_RAW) as i128, SYM_EPS) {
        "-sqrt(3)".spec_bytes()
    } else if const_match(v, HALF_SQRT3_RAW, SYM_EPS) {
        "sqrt(3)/2".spec_bytes()
    } else if const_match(v, XX_MIN_RAW, ACH_TOL) {
        "exp(-exp(-1))".spec_bytes()
    } else if const_match(v, XEXP_BOUND_RAW, ACH_TOL) {
        "1/sqrt(2*E)".spec_bytes()
    } else if const_match(v, (-XEXP_BOUND_RAW) as i128, ACH_TOL) {
        "-1/sqrt(2*E)".spec_bytes()
    } else if frac_str_spec(v) is Some {
        frac_str_spec(v).unwrap()
    } else {
        dec_fallback(v as int)
    }
}

/// Render a finite raw value as a compact symbolic token, or fall back
/// to six decimals.
pub fn format_symbolic(v: i128) -> (r: Vec<u8>)
    requires
        -CLIP_BOUND <= v <= CLIP_BOUND,
    ensures
        r@ == sym_spec(v),
{
    let mut out: Vec<u8> = Vec::new();
    if v > INF_RAW {
        put(&mut out, "oo");
        return out;
    }
    if v < -INF_RAW {
        put(&mut out, "-oo");
        return out;
    }
    if -ZERO_EPS < v && v < ZERO_EPS {
        put(&mut out, "0");
        return out;
    }
    if cm(v, PI_RAW, SYM_EPS) {
        put(&mut out, "pi");
        return out;
    }
    if cm(v, -PI_RAW, SYM_EPS) {
        put(&mut out, "-pi");
        return out;
    }
    if cm(v, HALF_PI_RAW, SYM_EPS) {
        put(&mut out, "pi/2");
        return out;
    }
    if cm(v, -HALF_PI_RAW, SYM_EPS) {
        put(&mut out, "-pi/2");
        return out;
    }
    if cm(v, THIRD_PI_RAW, SYM_EPS) {
        put(&mut out, "pi/3");
        return out;
    }
    if cm(v, QUARTER_PI_RAW, SYM_EPS) {
        put(&mut out, "pi/4");
        return out;
    }
    if cm(v, SIXTH_PI_RAW, SYM_EPS) {
        put(&mut out, "pi/6");
        return out;
    }
    if cm(v, TWO_PI_RAW, SYM_EPS) {
        put(&mut out, "2*pi");
        return out;
    }
    if cm(v, -TWO_PI_RAW, SYM_EPS) {
        put(&mut out, "-2*pi");
        return out;
    }
    if cm(v, E_RAW, SYM_EPS) {
        put(&mut out, "E");
        return out;
    }
    if cm(v, INV_E_RAW, SYM_EPS) {
        put(&mut out, "exp(-1)");
        return out;
    }
    if cm(v, -INV_E_RAW, SYM_EPS) {
        put(&mut out, "-exp(-1)");
        return out;
    }
    if cm(v, SQRT2_RAW, SYM_EPS) {
        put(&mut out, "sqrt(2)");
        return out;
    }
    if cm(v, -SQRT2_RAW, SYM_EPS) {
        put(&mut out, "-sqrt(2)");
        return out;
    }
    if cm(v, HALF_SQRT2_RAW, SYM_EPS) {
        put(&mut out, "sqrt(2)/2");
        return out;
    }
    if cm(v, -HALF_SQRT2_RAW, SYM_EPS) {
        put(&mut out, "-sqrt(2)/2");
        return out;
    }
    if cm(v, SQRT3_RAW, SYM_EPS) {
        put(&mut out, "sqrt(3)");
        return out;
    }
    if cm(v, -SQRT3_RAW, SYM_EPS) {
        put(&mut out, "-sqrt(3)");
        return out;
    }
    if cm(v, HALF_SQRT3_RAW, SYM_EPS) {
        put(&mut out, "sqrt(3)/2");
        return out;
    }
    if cm(v, XX_MIN_RAW, ACH_TOL) {
        put(&mut out, "exp(-exp(-1))");
        return out;
    }
    if cm(v, XEXP_BOUND_RAW, ACH_TOL) {
        put(&mut out, "1/sqrt(2*E)");
        return out;
    }
    if cm(v, -XEXP_BOUND_RAW, ACH_TOL) {
        put(&mut out, "-1/sqrt(2*E)");
        return out;
    }
    match try_to_fraction(v) {
        Option::Some(s) => {
            return s;
        },
        Option::None => {},
    }
    push_fallback(&mut out, v);
    out
}

fn cm(v: i128, c: i128, tol: i128) -> (r: bool)
    requires
        -CLIP_BOUND <= v <= CLIP_BOUND,
        -CLIP_BOUND <= c <= CLIP_BOUND,
        0 < tol <= SCALE,
    ensures
        r == const_match(v, c, tol),
{
    let d = v - c;
    -tol < d && d < tol
}

/// The token of an extended value.
pub open spec fn ext_sym_spec(e: Ext) -> Seq<u8> {
    match e {
        Ext::NegInf => "-oo".spec_bytes(),
        Ext::PosInf => "oo".spec_bytes(),
        Ext::Fin(v) => sym_spec(v),
    }
}

/// Render an extended value.
pub fn ext_symbolic(e: &Ext) -> (r: Vec<u8>)
    requires
        match e {
            Ext::Fin(v) => -CLIP_BOUND <= *v && *v <= CLIP_BOUND,
            _ => true,
        },
    ensures
        r@ == ext_sym_spec(*e),
{
    match e {
        Ext::NegInf => {
            let mut out: Vec<u8> = Vec::new();
            put(&mut out, "-oo");
            out
        },
        Ext::PosInf => {
            let mut out: Vec<u8> = Vec::new();
            put(&mut out, "oo");
            out
        },
        Ext::Fin(v) => format_symbolic(*v),
    }
}

/// The interval-style suffix for an openness pair.
pub open spec fn style_spec(lo_open: bool, hi_open: bool) -> Seq<u8> {
    if lo_open && hi_open {
        ".open".spec_bytes()
    } else if lo_open {
        ".Lopen".spec_bytes()
    } else if hi_open {
        ".Ropen".spec_bytes()
    } else {
        Seq::empty()
    }
}

fn put_style(out: &mut Vec<u8>, lo_open: bool, hi_open: bool)
    ensures
        final(out)@ == old(out)@ + style_spec(lo_open, hi_open),
{
    if lo_open && hi_open {
        put(out, ".open");
    } else if lo_open {
        put(out, ".Lopen");
    } else if hi_open {
        put(out, ".Ropen");
    } else {
        proof {
            assert(out@ =~= out@ + style_spec(lo_open, hi_open));
        }
    }
}

/// Whether every listed value is printable.
pub open spec fn vals_ok(vs: Seq<i128>) -> bool {
    forall|k: int| 0 <= k < vs.len() ==> -CLIP_BOUND <= #[trigger] vs[k] <= CLIP_BOUND
}

/// Whether every listed interval is printable.
pub open spec fn ivals_ok(ivs: Seq<Ival>) -> bool {
    forall|k: int| 0 <= k < ivs.len() ==> ival_ok(#[trigger] ivs[k])
}

/// Whether every finite value in an interval is printable.
pub open spec fn ival_ok(iv: Ival) -> bool {
    (match iv.lo {
        Ext::Fin(v) => -CLIP_BOUND <= v <= CLIP_BOUND,
        _ => true,
    }) && (match iv.hi {
        Ext::Fin(v) => -CLIP_BOUND <= v <= CLIP_BOUND,
        _ => true,
    })
}

/// One interval in the usual notation.
pub open spec fn ival_render(iv: Ival) -> Seq<u8> {
    "Interval".spec_bytes() + style_spec(iv.lo_open, iv.hi_open) + "(".spec_bytes()
        + ext_sym_spec(iv.lo) + ", ".spec_bytes() + ext_sym_spec(iv.hi) + ")".spec_bytes()
}

fn put_ival(out: &mut Vec<u8>, iv: &Ival)
    requires
        ival_ok(*iv),
    ensures
        final(out)@ == old(out)@ + ival_render(*iv),
{
    put(out, "Interval");
    put_style(out, iv.lo_open, iv.hi_open);
    put(out, "(");
    let lo = ext_symbolic(&iv.lo);
    let mut i: usize = 0;
    let ghost mark = out@;
    while i < lo.len()
        invariant
            0 <= i <= lo@.len(),
            out@ == mark + lo@.take(i as int),
        decreases lo@.len() - i,
    {
        out.push(lo[i]);
        i = i + 1;
        proof {
            assert(mark + lo@.take(i - 1) + seq![lo@[i - 1]] =~= mark + lo@.take(i as int));
        }
    }
    proof {
        assert(lo@.take(lo@.len() as int) =~= lo@);
    }
    put(out, ", ");
    let hi = ext_symbolic(&iv.hi);
    let mut j: usize = 0;
    let ghost mark2 = out@;
    while j < hi.len()
        invariant
            0 <= j <= hi@.len(),
            out@ == mark2 + hi@.take(j as int),
        decreases hi@.len() - j,
    {
        out.push(hi[j]);
        j = j + 1;
        proof {
            assert(mark2 + hi@.take(j - 1) + seq![hi@[j - 1]] =~= mark2 + hi@.take(j as int));
        }
    }
    proof {
        assert(hi@.take(hi@.len() as int) =~= hi@);
    }
    put(out, ")");
    proof {
        assert(out@ =~= old(out)@ + ival_render(*iv));
    }
}

/// Comma-joined intervals from index `i` (a separator before each but the
/// first).
pub open spec fn ivals_join(ivs: Seq<Ival>, i: int) -> Seq<u8>
    decreases ivs.len() - i,
{
    if i < 0 || i >= ivs.len() {
        Seq::empty()
    } else if i == 0 {
        ival_render(ivs[0]) + ivals_join(ivs, 1)
    } else {
        ", ".spec_bytes() + ival_render(ivs[i]) + ivals_join(ivs, i + 1)
    }
}

fn put_ivals(out: &mut Vec<u8>, ivs: &Vec<Ival>)
    requires
        ivals_ok(ivs@),
    ensures
        final(out)@ == old(out)@ + ivals_join(ivs@, 0),
{
    let mut i: usize = 0;
    proof {
        assert(out@ + ivals_join(ivs@, 0) =~= out@ + ivals_join(ivs@, 0));
    }
    while i < ivs.len()
        invariant
            0 <= i <= ivs@.len(),
            ivals_ok(ivs@),
            old(out)@ + ivals_join(ivs@, 0) == out@ + ivals_join(ivs@, i as int),
        decreases ivs@.len() - i,
    {
        let ghost pre = out@;
        if i > 0 {
            put(out, ", ");
        }
        put_ival(out, &ivs[i]);
        i = i + 1;
        proof {
            if i == 1 {
                assert(pre + ivals_join(ivs@, 0) =~= out@ + ivals_join(ivs@, 1));
            } else {
                assert(pre + ivals_join(ivs@, i - 1) =~= out@ + ivals_join(ivs@, i as int));
            }
        }
    }
    proof {
        assert(ivals_join(ivs@, ivs@.len() as int) =~= Seq::<u8>::empty());
        assert(out@ + Seq::<u8>::empty() =~= out@);
    }
}

/// Comma-joined symbolic tokens from index `i`.
pub open spec fn syms_join(vs: Seq<i128>, i: int) -> Seq<u8>
    decreases vs.len() - i,
{
    if i < 0 || i >= vs.len() {
        Seq::empty()
    } else if i == 0 {
        sym_spec(vs[0]) + syms_join(vs, 1)
    } else {
        ", ".spec_bytes() + sym_spec(vs[i]) + syms_join(vs, i + 1)
    }
}

fn put_syms(out: &mut Vec<u8>, vs: &Vec<i128>)
    requires
        vals_ok(vs@),
    ensures
        final(out)@ == old(out)@ + syms_join(vs@, 0),
{
    let mut i: usize = 0;
    while i < vs.len()
        invariant
            0 <= i <= vs@.len(),
            vals_ok(vs@),
            old(out)@ + syms_join(vs@, 0) == out@ + syms_join(vs@, i as int),
        decreases vs@.len() - i,
    {
        let ghost pre = out@;
        if i > 0 {
            put(out, ", ");
        }
        let s = format_symbolic(vs[i]);
        let mut j: usize = 0;
        let ghost mark = out@;
        while j < s.len()
            invariant
                0 <= j <= s@.len(),
                out@ == mark + s@.take(j as int),
            decreases s@.len() - j,
        {
            out.push(s[j]);
            j = j + 1;
            proof {
                assert(mark + s@.take(j - 1) + seq![s@[j - 1]] =~= mark + s@.take(j as int));
            }
        }
        proof {
            assert(s@.take(s@.len() as int) =~= s@);
        }
        i = i + 1;
        proof {
            if i == 1 {
                assert(pre + syms_join(vs@, 0) =~= out@ + syms_join(vs@, 1));
            } else {
                assert(pre + syms_join(vs@, i - 1) =~= out@ + syms_join(vs@, i as int));
            }
        }
    }
    proof {
        assert(syms_join(vs@, vs@.len() as int) =~= Seq::<u8>::empty());
        assert(out@ + Seq::<u8>::empty() =~= out@);
    }
}

/// The periodic-exclusion pattern text.
pub open spec fn periodic_render(offset: i128, period: i128) -> Seq<u8> {
    if offset == 0 {
        "ImageSet(Lambda(_n, _n*".spec_bytes() + sym_spec(period) + "), Integers)".spec_bytes()
    } else {
        "ImageSet(Lambda(_n, ".spec_bytes() + sym_spec(offset) + " + _n*".spec_bytes()
            + sym_spec(period) + "), Integers)".spec_bytes()
    }
}

/// Whether every finite value in a domain is printable.
pub open spec fn domain_ok(d: DomainV) -> bool {
    match d {
        DomainV::Interval(iv) => ival_ok(iv),
        DomainV::IntervalUnion(ivs) => ivals_ok(ivs),
        DomainV::ExcludedPoints { excluded } => vals_ok(excluded),
        DomainV::PeriodicExclusion { offset, period } => -CLIP_BOUND <= offset <= CLIP_BOUND
            && -CLIP_BOUND <= period <= CLIP_BOUND,
        _ => true,
    }
}

/// The textual form of a domain description.
pub open spec fn domain_render(d: DomainV) -> Seq<u8> {
    match d {
        DomainV::AllReals => "Reals".spec_bytes(),
        DomainV::Interval(iv) => ival_render(iv),
        DomainV::IntervalUnion(ivs) => "Union(".spec_bytes() + ivals_join(ivs, 0)
            + ")".spec_bytes(),
        DomainV::ExcludedPoints { excluded } => "Complement(Reals, {".spec_bytes() + syms_join(
            excluded,
            0,
        ) + "})".spec_bytes(),
        DomainV::PeriodicExclusion { offset, period } => "Complement(Reals, ".spec_bytes()
            + periodic_render(offset, period) + ")".spec_bytes(),
        DomainV::Empty => "EmptySet".spec_bytes(),
    }
}

/// Render a domain in the usual interval/union/complement notation.
pub fn render_domain(d: &Domain) -> (r: Vec<u8>)
    requires
        domain_ok(d.dv()),
    ensures
        r@ == domain_render(d.dv()),
{
    let mut out: Vec<u8> = Vec::new();
    match d {
        Domain::AllReals => {
            put(&mut out, "Reals");
        },
        Domain::Interval(iv) => {
            put_ival(&mut out, iv);
        },
        Domain::IntervalUnion(ivs) => {
            proof {
                assert(d.dv() == DomainV::IntervalUnion(ivs@));
                assert(ivals_ok(ivs@));
            }
            put(&mut out, "Union(");
            put_ivals(&mut out, ivs);
            put(&mut out, ")");
            proof {
                assert(out@ =~= domain_render(d.dv()));
            }
        },
        Domain::ExcludedPoints { excluded } => {
            proof {
                assert(d.dv() == (DomainV::ExcludedPoints { excluded: excluded@ }));
                assert(vals_ok(excluded@));
            }
            put(&mut out, "Complement(Reals, {");
            put_syms(&mut out, excluded);
            put(&mut out, "})");
            proof {
                assert(out@ =~= domain_render(d.dv()));
            }
        },
        Domain::PeriodicExclusion { offset, period } => {
            put(&mut out, "Complement(Reals, ");
            if *offset == 0 {
                put(&mut out, "ImageSet(Lambda(_n, _n*");
                let s = format_symbolic(*period);
                append_bytes(&mut out, &s);
                put(&mut out, "), Integers)");
            } else {
                put(&mut out, "ImageSet(Lambda(_n, ");
                let s0 = format_symbolic(*offset);
                append_bytes(&mut out, &s0);
                put(&mut out, " + _n*");
                let s1 = format_symbolic(*period);
                append_bytes(&mut out, &s1);
                put(&mut out, "), Integers)");
            }
            put(&mut out, ")");
            proof {
                assert(out@ =~= domain_render(d.dv()));
            }
        },
        Domain::Empty => {
            put(&mut out, "EmptySet");
        },
    }
    out
}

fn append_bytes(out: &mut Vec<u8>, s: &Vec<u8>)
    ensures
        final(out)@ == old(out)@ + s@,
{
    let mut j: usize = 0;
    while j < s.len()
        invariant
            0 <= j <= s@.len(),
            out@ == old(out)@ + s@.take(j as int),
        decreases s@.len() - j,
    {
        out.push(s[j]);
        j = j + 1;
        proof {
            assert(old(out)@ + s@.take(j - 1) + seq![s@[j - 1]] =~= old(out)@ + s@.take(
                j as int,
            ));
        }
    }
    proof {
        assert(s@.take(s@.len() as int) =~= s@);
    }
}

/// Whether every finite value in a range is printable.
pub open spec fn range_ok(r: NumRangeV) -> bool {
    &&& (match r.lo {
        Ext::Fin(v) => -CLIP_BOUND <= v <= CLIP_BOUND,
        _ => true,
    })
    &&& (match r.hi {
        Ext::Fin(v) => -CLIP_BOUND <= v <= CLIP_BOUND,
        _ => true,
    })
    &&& (match r.shape {
        RangeShapeV::SplitAt { excluded } => -CLIP_BOUND <= excluded <= CLIP_BOUND,
        RangeShapeV::UnionExterior { bound, closed } => -CLIP_BOUND <= bound <= CLIP_BOUND,
        RangeShapeV::UnionParts { parts } => ivals_ok(parts),
        _ => true,
    })
}

/// The textual form of a range description.
pub open spec fn range_render(r: NumRangeV) -> Seq<u8> {
    match r.shape {
        RangeShapeV::SplitAt { excluded } => "Union(Interval.open(-oo, ".spec_bytes()
            + sym_spec(excluded) + "), Interval.open(".spec_bytes() + sym_spec(excluded)
            + ", oo))".spec_bytes(),
        RangeShapeV::UnionExterior { bound, closed } => {
            if closed {
                "Union(Interval(-oo, -".spec_bytes() + sym_spec(bound)
                    + "], Interval[".spec_bytes() + sym_spec(bound) + ", oo))".spec_bytes()
            } else {
                "Union(Interval.open(-oo, -".spec_bytes() + sym_spec(bound)
                    + "), Interval.open(".spec_bytes() + sym_spec(bound) + ", oo))".spec_bytes()
            }
        },
        RangeShapeV::IntegerLattice => "Integers".spec_bytes(),
        RangeShapeV::UnionParts { parts } => "Union(".spec_bytes() + ivals_join(parts, 0)
            + ")".spec_bytes(),
        RangeShapeV::Simple => "Interval".spec_bytes() + style_spec(r.lo_open, r.hi_open)
            + "(".spec_bytes() + ext_sym_spec(r.lo) + ", ".spec_bytes() + ext_sym_spec(r.hi)
            + ")".spec_bytes(),
    }
}

/// Render a range description, honouring its shape tag.
pub fn render_range(r: &NumRange) -> (res: Vec<u8>)
    requires
        range_ok(r.dv()),
    ensures
        res@ == range_render(r.dv()),
{
    let mut out: Vec<u8> = Vec::new();
    match &r.shape {
        RangeShape::SplitAt { excluded } => {
            put(&mut out, "Union(Interval.open(-oo, ");
            let s = format_symbolic(*excluded);
            append_bytes(&mut out, &s);
            put(&mut out, "), Interval.open(");
            append_bytes(&mut out, &s);
            put(&mut out, ", oo))");
            proof {
                assert(out@ =~= range_render(r.dv()));
            }
        },
        RangeShape::UnionExterior { bound, closed } => {
            let s = format_symbolic(*bound);
            if *closed {
                put(&mut out, "Union(Interval(-oo, -");
                append_bytes(&mut out, &s);
                put(&mut out, "], Interval[");
                append_bytes(&mut out, &s);
                put(&mut out, ", oo))");
            } else {
                put(&mut out, "Union(Interval.open(-oo, -");
                append_bytes(&mut out, &s);
                put(&mut out, "), Interval.open(");
                append_bytes(&mut out, &s);
                put(&mut out, ", oo))");
            }
            proof {
                assert(out@ =~= range_render(r.dv()));
            }
        },
        RangeShape::IntegerLattice => {
            put(&mut out, "Integers");
        },
        RangeShape::UnionParts { parts } => {
            proof {
                assert(r.dv().shape == (RangeShapeV::UnionParts { parts: parts@ }));
                assert(ivals_ok(parts@));
            }
            put(&mut out, "Union(");
            put_ivals(&mut out, parts);
            put(&mut out, ")");
            proof {
                assert(out@ =~= range_render(r.dv()));
            }
        },
        RangeShape::Simple => {
            put(&mut out, "Interval");
            put_style(&mut out, r.lo_open, r.hi_open);
            put(&mut out, "(");
            let lo = ext_symbolic(&r.lo);
            append_bytes(&mut out, &lo);
            put(&mut out, ", ");
            let hi = ext_symbolic(&r.hi);
            append_bytes(&mut out, &hi);
            put(&mut out, ")");
            proof {
                assert(out@ =~= range_render(r.dv()));
            }
        },
    }
    out
}

} // verus!
