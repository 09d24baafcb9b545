//! Expression-text handling.
//!
//! The engine never interprets a formula; it only uses its text in two
//! ways: as a canonical key into the table of known exact facts, and as a
//! source of cheap structural hints (a root, a logarithm, a reciprocal of a
//! linear or quadratic factor).  Text is carried as bytes; keys are
//! canonicalized by dropping spaces and lowering ASCII letters.

use vstd::prelude::*;
use vstd::string::StringSliceAdditionalSpecFns;
use vstd::string::StrSliceExecFns;

use crate::nums::SCALE;

verus! {

/// Canonical form of one byte: ASCII letters lowered.
pub open spec fn norm_byte(b: u8) -> u8 {
    if b >= 65 && b <= 90 {
        (b + 32) as u8
    } else {
        b
    }
}

/// Canonical key of the text from position `i` on: spaces dropped, letters
/// lowered.
pub open spec fn norm_from(s: Seq<u8>, i: int) -> Seq<u8>
    decreases s.len() - i,
{
    if i < 0 || i >= s.len() {
        Seq::empty()
    } else if s[i] == 32 {
        norm_from(s, i + 1)
    } else {
        seq![norm_byte(s[i])] + norm_from(s, i + 1)
    }
}

pub open spec fn norm_spec(s: Seq<u8>) -> Seq<u8> {
    norm_from(s, 0)
}

fn norm_into(s: &Vec<u8>, i: usize, out: &mut Vec<u8>)
    requires
        i <= s.len(),
    ensures
        final(out)@ == old(out)@ + norm_from(s@, i as int),
    decreases s.len() - i,
{
    if i < s.len() {
        let b = s[i];
        if b != 32 {
            if b >= 65 && b <= 90 {
                out.push(b + 32);
            } else {
                out.push(b);
            }
        }
        norm_into(s, i + 1, out);
    } else {
        assert(out@ =~= out@ + norm_from(s@, i as int));
    }
}

/// Canonicalize expression text: drop spaces, lower ASCII letters.
pub fn normalize(s: &Vec<u8>) -> (r: Vec<u8>)
    ensures
        r@ == norm_spec(s@),
{
    let mut out: Vec<u8> = Vec::new();
    norm_into(s, 0, &mut out);
    out
}

/// Expression text normal form from position `i` on: the double-star
/// power operator becomes a caret, and the base-ten logarithm name becomes
/// the natural one the evaluator knows.
pub open spec fn pp_from(s: Seq<u8>, i: int) -> Seq<u8>
    decreases s.len() - i,
{
    if i < 0 || i >= s.len() {
        Seq::empty()
    } else if i + 2 <= s.len() && s[i] == 42 && s[i + 1] == 42 {
        seq![94u8] + pp_from(s, i + 2)
    } else if i + 4 <= s.len() && s[i] == 108 && s[i + 1] == 111 && s[i + 2] == 103 && s[i + 3]
        == 40 {
        seq![108u8, 110u8, 40u8] + pp_from(s, i + 4)
    } else {
        seq![s[i]] + pp_from(s, i + 1)
    }
}

pub open spec fn pp_spec(s: Seq<u8>) -> Seq<u8> {
    pp_from(s, 0)
}

fn pp_into(s: &Vec<u8>, i: usize, out: &mut Vec<u8>)
    requires
        i <= s.len(),
    ensures
        final(out)@ == old(out)@ + pp_from(s@, i as int),
    decreases s.len() - i,
{
    if i < s.len() {
        if s.len() - i >= 2 && s[i] == 42 && s[i + 1] == 42 {
            out.push(94);
            pp_into(s, i + 2, out);
        } else if s.len() - i >= 4 && s[i] == 108 && s[i + 1] == 111 && s[i + 2] == 103 && s[i
            + 3] == 40 {
            out.push(108);
            out.push(110);
            out.push(40);
            proof {
                assert(out@ =~= old(out)@ + seq![108u8, 110u8, 40u8]);
            }
            pp_into(s, i + 4, out);
        } else {
            out.push(s[i]);
            pp_into(s, i + 1, out);
        }
    } else {
        assert(out@ =~= out@ + pp_from(s@, i as int));
    }
}

/// Rewrite expression text into the form the evaluator and the knowledge
/// base expect.
pub fn preprocess(s: &Vec<u8>) -> (r: Vec<u8>)
    ensures
        r@ == pp_spec(s@),
{
    let mut out: Vec<u8> = Vec::new();
    pp_into(s, 0, &mut out);
    out
}

/// Whether `p` occurs in `s` starting exactly at `j`.
pub open spec fn match_at(s: Seq<u8>, p: Seq<u8>, j: int) -> bool {
    &&& 0 <= j
    &&& j + p.len() <= s.len()
    &&& forall|k: int| 0 <= k < p.len() ==> s[j + k] == p[k]
}

fn match_at_exec(s: &Vec<u8>, p: &Vec<u8>, j: usize) -> (r: bool)
    ensures
        r == match_at(s@, p@, j as int),
{
    if j > s.len() || s.len() - j < p.len() {
        return false;
    }
    let mut k: usize = 0;
    while k < p.len()
        invariant
            j + p.len() <= s.len(),
            0 <= k <= p.len(),
            forall|t: int| 0 <= t < k ==> s@[j + t] == p@[t],
        decreases p.len() - k,
    {
        if s[j + k] != p[k] {
            return false;
        }
        k = k + 1;
    }
    true
}

/// Whether `p` occurs anywhere in `s`.
pub open spec fn contains_spec(s: Seq<u8>, p: Seq<u8>) -> bool {
    exists|j: int| match_at(s, p, j)
}

fn contains_from(s: &Vec<u8>, p: &Vec<u8>, j: usize) -> (r: bool)
    requires
        j <= s.len(),
    ensures
        r == exists|t: int| t >= j && match_at(s@, p@, t),
    decreases s.len() - j,
{
    if match_at_exec(s, p, j) {
        return true;
    }
    if j < s.len() {
        contains_from(s, p, j + 1)
    } else {
        false
    }
}

/// Substring search over the whole text.
pub fn contains_sub(s: &Vec<u8>, p: &Vec<u8>) -> (r: bool)
    ensures
        r == contains_spec(s@, p@),
{
    let r = contains_from(s, p, 0);
    proof {
        if contains_spec(s@, p@) {
            let j = choose|j: int| match_at(s@, p@, j);
            assert(j >= 0 && match_at(s@, p@, j));
        }
    }
    r
}

/// Prefix test.
pub fn starts_with(s: &Vec<u8>, p: &Vec<u8>) -> (r: bool)
    ensures
        r == match_at(s@, p@, 0),
{
    match_at_exec(s, p, 0)
}

/// Whole-text equality.
pub fn eq_bytes(s: &Vec<u8>, p: &Vec<u8>) -> (r: bool)
    ensures
        r == (s@ == p@),
{
    if s.len() != p.len() {
        proof {
            assert(s@.len() != p@.len());
        }
        return false;
    }
    let r = match_at_exec(s, p, 0);
    proof {
        if r {
            assert(s@ =~= p@);
        } else {
            if s@ == p@ {
                assert(forall|k: int| 0 <= k < p@.len() ==> s@[0 + k] == p@[k]);
            }
        }
    }
    r
}

/// Bytes of a string literal; the way the crate spells byte constants.
pub fn lit(s: &str) -> (r: Vec<u8>)
    ensures
        r@ == s.spec_bytes(),
{
    s.as_bytes_vec()
}

pub open spec fn is_digit(b: u8) -> bool {
    48 <= b <= 57
}

/// Value of a run of digits starting at `i`, scaled by `SCALE`, together
/// with the position after the run; `acc` is the value read so far (raw).
/// Saturates at a million once the integer part would pass it, which is far
/// beyond any magnitude the structural hints deal in.
pub open spec fn digits_from(s: Seq<u8>, i: int, acc: int) -> (int, int)
    decreases s.len() - i,
{
    if i < 0 || i >= s.len() || !is_digit(s[i]) {
        (acc, i)
    } else {
        let acc2 = if acc >= 1_000_000 * (SCALE as int) {
            acc
        } else {
            acc * 10 + (s[i] - 48) * (SCALE as int)
        };
        digits_from(s, i + 1, acc2)
    }
}

fn digits_exec(s: &Vec<u8>, i: usize, acc: i128) -> (r: (i128, usize))
    requires
        i <= s.len(),
        0 <= acc <= 10_000_009 * (SCALE as int),
    ensures
        (r.0 as int, r.1 as int) == digits_from(s@, i as int, acc as int),
        r.1 <= s.len(),
        0 <= r.0 <= 10_000_009 * (SCALE as int),
    decreases s.len() - i,
{
    if i < s.len() && s[i] >= 48 && s[i] <= 57 {
        let acc2 = if acc >= 1_000_000 * SCALE {
            acc
        } else {
            acc * 10 + ((s[i] - 48) as i128) * SCALE
        };
        digits_exec(s, i + 1, acc2)
    } else {
        (acc, i)
    }
}

/// Value of a fraction-digit run starting at `i` with place weight `w`
/// (raw), plus the position after the run.
pub open spec fn frac_from(s: Seq<u8>, i: int, w: int, acc: int) -> (int, int)
    decreases s.len() - i,
{
    if i < 0 || i >= s.len() || !is_digit(s[i]) {
        (acc, i)
    } else {
        frac_from(s, i + 1, w / 10, acc + (s[i] - 48) * (w / 10))
    }
}

fn frac_exec(s: &Vec<u8>, i: usize, w: i128, acc: i128) -> (r: (i128, usize))
    requires
        i <= s.len(),
        0 <= w <= SCALE,
        0 <= acc,
        acc + w <= 10_000_010 * (SCALE as int),
    ensures
        (r.0 as int, r.1 as int) == frac_from(s@, i as int, w as int, acc as int),
        r.1 <= s.len(),
        acc <= r.0 <= acc + (w as int),
    decreases s.len() - i,
{
    if i < s.len() && s[i] >= 48 && s[i] <= 57 {
        let d = s[i] - 48;
        proof {
            lemma_frac_bound(d as int, w as int);
        }
        frac_exec(s, i + 1, w / 10, acc + (d as i128) * (w / 10))
    } else {
        (acc, i)
    }
}

proof fn lemma_frac_bound(d: int, w: int)
    requires
        0 <= w,
        0 <= d <= 9,
    ensures
        0 <= d * (w / 10),
        d * (w / 10) + w / 10 <= w,
{
    assert(0 <= d * (w / 10) && d * (w / 10) + w / 10 <= 10 * (w / 10)) by (nonlinear_arith)
        requires
            0 <= d <= 9,
            w / 10 >= 0,
    ;
    assert(10 * (w / 10) <= w) by (nonlinear_arith)
        requires
            w >= 0,
    ;
}

/// A decimal number `D+('.'D+)?` read at position `i`: its raw fixed-point
/// value and the position after it, or nothing if no digit stands at `i`.
pub open spec fn number_at(s: Seq<u8>, i: int) -> Option<(int, int)> {
    if i < 0 || i >= s.len() || !is_digit(s[i]) {
        Option::None
    } else {
        let (ipart, j) = digits_from(s, i, 0);
        if j < s.len() && s[j] == 46 && j + 1 < s.len() && is_digit(s[j + 1]) {
            let (v, k) = frac_from(s, j + 1, SCALE as int, ipart);
            Option::Some((v, k))
        } else {
            Option::Some((ipart, j))
        }
    }
}

/// A reciprocal-of-linear-factor hint at position `j`: the text
/// `/(x+N)` or `/(x-N)` with `N` a decimal number.  Yields the root of the
/// factor (negated `N` for `+`).
pub open spec fn div_lin_at(s: Seq<u8>, j: int) -> Option<int> {
    if j < 0 || j + 4 > s.len() {
        Option::None
    } else if s[j] == 47 && s[j + 1] == 40 && s[j + 2] == 120 && (s[j + 3] == 43 || s[j + 3]
        == 45) {
        match number_at(s, j + 4) {
            Option::None => Option::None,
            Option::Some((v, k)) => {
                if k < s.len() && s[k] == 41 {
                    Option::Some(
                        if s[j + 3] == 43 {
                            -v
                        } else {
                            v
                        },
                    )
                } else {
                    Option::None
                }
            },
        }
    } else {
        Option::None
    }
}

/// First linear-factor hint at or after `j`.
pub open spec fn div_lin_from(s: Seq<u8>, j: int) -> Option<int>
    decreases s.len() - j,
{
    if j < 0 || j >= s.len() {
        Option::None
    } else {
        match div_lin_at(s, j) {
            Option::Some(v) => Option::Some(v),
            Option::None => div_lin_from(s, j + 1),
        }
    }
}

/// Scan the text for a reciprocal-of-linear-factor hint.
pub fn find_div_lin(s: &Vec<u8>, j: usize) -> (r: Option<i128>)
    requires
        j <= s.len(),
    ensures
        match r {
            Option::None => div_lin_from(s@, j as int) is None,
            Option::Some(v) => div_lin_from(s@, j as int) == Option::Some(v as int)
                && -10_000_010 * (SCALE as int) <= v <= 10_000_010 * (SCALE as int),
        },
    decreases s.len() - j,
{
    if j >= s.len() {
        return Option::None;
    }
    if j < s.len() && s.len() - j >= 4 && s[j] == 47 && s[j + 1] == 40 && s[j + 2] == 120 && (s[j + 3] == 43
        || s[j + 3] == 45) {
        match read_number(s, j + 4) {
            Option::Some((v, k)) => {
                if k < s.len() && s[k] == 41 {
                    return Option::Some(
                        if s[j + 3] == 43 {
                            -v
                        } else {
                            v
                        },
                    );
                }
            },
            Option::None => {},
        }
    }
    find_div_lin(s, j + 1)
}

/// A reciprocal-of-quadratic hint at position `j`: the text `/(x^2-N)`.
/// Yields `N` itself (its square roots are the factor's roots).
pub open spec fn div_sq_at(s: Seq<u8>, j: int) -> Option<int> {
    if j < 0 || j + 6 > s.len() {
        Option::None
    } else if s[j] == 47 && s[j + 1] == 40 && s[j + 2] == 120 && s[j + 3] == 94 && s[j + 4]
        == 50 && s[j + 5] == 45 {
        match number_at(s, j + 6) {
            Option::None => Option::None,
            Option::Some((v, k)) => {
                if k < s.len() && s[k] == 41 {
                    Option::Some(v)
                } else {
                    Option::None
                }
            },
        }
    } else {
        Option::None
    }
}

/// First quadratic hint at or after `j`.
pub open spec fn div_sq_from(s: Seq<u8>, j: int) -> Option<int>
    decreases s.len() - j,
{
    if j < 0 || j >= s.len() {
        Option::None
    } else {
        match div_sq_at(s, j) {
            Option::Some(v) => Option::Some(v),
            Option::None => div_sq_from(s, j + 1),
        }
    }
}

/// Scan the text for a reciprocal-of-quadratic hint.
pub fn find_div_sq(s: &Vec<u8>, j: usize) -> (r: Option<i128>)
    requires
        j <= s.len(),
    ensures
        match r {
            Option::None => div_sq_from(s@, j as int) is None,
            Option::Some(v) => div_sq_from(s@, j as int) == Option::Some(v as int) && 0 <= v
                <= 10_000_010 * (SCALE as int),
        },
    decreases s.len() - j,
{
    if j >= s.len() {
        return Option::None;
    }
    if j < s.len() && s.len() - j >= 6 && s[j] == 47 && s[j + 1] == 40 && s[j + 2] == 120 && s[j + 3] == 94
        && s[j + 4] == 50 && s[j + 5] == 45 {
        match read_number(s, j + 6) {
            Option::Some((v, k)) => {
                if k < s.len() && s[k] == 41 {
                    proof {
                        lemma_number_nonneg(s@, j + 6);
                    }
                    return Option::Some(v);
                }
            },
            Option::None => {},
        }
    }
    find_div_sq(s, j + 1)
}

proof fn lemma_digits_nonneg(s: Seq<u8>, i: int, acc: int)
    requires
        acc >= 0,
    ensures
        digits_from(s, i, acc).0 >= 0,
    decreases s.len() - i,
{
    if !(i < 0 || i >= s.len() || !is_digit(s[i])) {
        let acc2 = if acc >= 1_000_000 * (SCALE as int) {
            acc
        } else {
            acc * 10 + (s[i] - 48) * (SCALE as int)
        };
        assert(acc2 >= 0) by (nonlinear_arith)
            requires
                acc >= 0,
                acc2 == acc || acc2 == acc * 10 + (s[i] - 48) * (SCALE as int),
                0 <= s[i] - 48,
                SCALE > 0,
        ;
        lemma_digits_nonneg(s, i + 1, acc2);
    }
}

proof fn lemma_frac_nonneg(s: Seq<u8>, i: int, w: int, acc: int)
    requires
        acc >= 0,
        w >= 0,
    ensures
        frac_from(s, i, w, acc).0 >= 0,
    decreases s.len() - i,
{
    if !(i < 0 || i >= s.len() || !is_digit(s[i])) {
        assert((s[i] - 48) * (w / 10) >= 0) by (nonlinear_arith)
            requires
                0 <= s[i] - 48,
                w / 10 >= 0,
        ;
        lemma_frac_nonneg(s, i + 1, w / 10, acc + (s[i] - 48) * (w / 10));
    }
}

/// A parsed number is never negative.
pub proof fn lemma_number_nonneg(s: Seq<u8>, i: int)
    requires
        number_at(s, i) is Some,
    ensures
        number_at(s, i).unwrap().0 >= 0,
{
    lemma_digits_nonneg(s, i, 0);
    let (ipart, j) = digits_from(s, i, 0);
    lemma_frac_nonneg(s, j + 1, SCALE as int, ipart);
}

/// Read a decimal number at position `i`.
pub fn read_number(s: &Vec<u8>, i: usize) -> (r: Option<(i128, usize)>)
    requires
        i <= s.len(),
    ensures
        match r {
            Option::None => number_at(s@, i as int) is None,
            Option::Some((v, j)) => number_at(s@, i as int) == Option::Some(
                (v as int, j as int),
            ) && j <= s.len() && 0 <= v <= 10_000_010 * (SCALE as int),
        },
{
    if i < s.len() && s[i] >= 48 && s[i] <= 57 {
        let (ipart, j) = digits_exec(s, i, 0);
        if j < s.len() && s[j] == 46 && j + 1 < s.len() && s[j + 1] >= 48 && s[j + 1] <= 57 {
            let (v, k) = frac_exec(s, j + 1, SCALE, ipart);
            Option::Some((v, k))
        } else {
            Option::Some((ipart, j))
        }
    } else {
        Option::None
    }
}

} // verus!
