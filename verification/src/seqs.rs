//! Sorted sample sequences.
//!
//! Grids are built from several independently generated, already-ascending
//! parts; this module supplies the strictly-sorted merge that combines
//! them (deduplicating exact repeats) and a small insertion sort for the
//! few parts that are not born sorted.  At the engine's resolution two
//! points closer than one raw unit are the same point, so deduplication is
//! exact equality.

use vstd::prelude::*;

verus! {

/// Strictly ascending: sorted with no repeats.
pub open spec fn sorted_strict(s: Seq<i128>) -> bool {
    forall|i: int, j: int| 0 <= i < j < s.len() ==> s[i] < s[j]
}

/// Ascending merge of two sequences, keeping one copy of a shared element.
pub open spec fn merge_spec(a: Seq<i128>, b: Seq<i128>) -> Seq<i128>
    decreases a.len() + b.len(),
{
    if a.len() == 0 {
        b
    } else if b.len() == 0 {
        a
    } else if a[0] < b[0] {
        seq![a[0]] + merge_spec(a.drop_first(), b)
    } else if a[0] > b[0] {
        seq![b[0]] + merge_spec(a, b.drop_first())
    } else {
        seq![a[0]] + merge_spec(a.drop_first(), b.drop_first())
    }
}

/// Merge two strictly ascending vectors into one.
pub fn merge_dedup(a: &Vec<i128>, b: &Vec<i128>) -> (r: Vec<i128>)
    requires
        sorted_strict(a@),
        sorted_strict(b@),
    ensures
        r@ == merge_spec(a@, b@),
        sorted_strict(r@),
{
    let mut out: Vec<i128> = Vec::new();
    let mut i: usize = 0;
    let mut j: usize = 0;
    proof {
        assert(a@.skip(0) =~= a@);
        assert(b@.skip(0) =~= b@);
        assert(out@ + merge_spec(a@, b@) =~= merge_spec(a@, b@));
    }
    while i < a.len() || j < b.len()
        invariant
            i <= a.len(),
            j <= b.len(),
            sorted_strict(a@),
            sorted_strict(b@),
            sorted_strict(out@),
            merge_spec(a@, b@) == out@ + merge_spec(a@.skip(i as int), b@.skip(j as int)),
            out@.len() > 0 && i < a.len() ==> out@.last() < a@[i as int],
            out@.len() > 0 && j < b.len() ==> out@.last() < b@[j as int],
        decreases a.len() + b.len() - i - j,
    {
        let ghost pre = out@;
        let ghost ra = a@.skip(i as int);
        let ghost rb = b@.skip(j as int);
        if i < a.len() && (j >= b.len() || a[i] < b[j]) {
            out.push(a[i]);
            i = i + 1;
            proof {
                assert(ra[0] == a@[i - 1]);
                if rb.len() == 0 {
                    assert(merge_spec(ra, rb) == ra);
                    assert(ra =~= seq![a@[i - 1]] + a@.skip(i as int));
                } else {
                    assert(rb[0] == b@[j as int]);
                    assert(ra.drop_first() =~= a@.skip(i as int));
                    assert(merge_spec(ra, rb) == seq![ra[0]] + merge_spec(
                        a@.skip(i as int),
                        rb,
                    ));
                }
                assert(out@ =~= pre + seq![a@[i - 1]]);
                assert(out@ + merge_spec(a@.skip(i as int), rb) =~= pre + merge_spec(ra, rb));
                assert(forall|t: int|
                    0 <= t < out@.len() - 1 ==> #[trigger] out@[t] < out@[out@.len() - 1]);
            }
        } else if j < b.len() && (i >= a.len() || b[j] < a[i]) {
            out.push(b[j]);
            j = j + 1;
            proof {
                assert(rb[0] == b@[j - 1]);
                if ra.len() == 0 {
                    assert(merge_spec(ra, rb) == rb);
                    assert(rb =~= seq![b@[j - 1]] + b@.skip(j as int));
                } else {
                    assert(ra[0] == a@[i as int]);
                    assert(rb.drop_first() =~= b@.skip(j as int));
                    assert(merge_spec(ra, rb) == seq![rb[0]] + merge_spec(
                        ra,
                        b@.skip(j as int),
                    ));
                }
                assert(out@ =~= pre + seq![b@[j - 1]]);
                assert(out@ + merge_spec(ra, b@.skip(j as int)) =~= pre + merge_spec(ra, rb));
            }
        } else {
            out.push(a[i]);
            i = i + 1;
            j = j + 1;
            proof {
                assert(ra[0] == a@[i - 1]);
                assert(rb[0] == b@[j - 1]);
                assert(ra[0] == rb[0]);
                assert(ra.drop_first() =~= a@.skip(i as int));
                assert(rb.drop_first() =~= b@.skip(j as int));
                assert(merge_spec(ra, rb) == seq![ra[0]] + merge_spec(
                    a@.skip(i as int),
                    b@.skip(j as int),
                ));
                assert(out@ =~= pre + seq![a@[i - 1]]);
                assert(out@ + merge_spec(a@.skip(i as int), b@.skip(j as int)) =~= pre
                    + merge_spec(ra, rb));
            }
        }
    }
    proof {
        assert(a@.skip(i as int) =~= Seq::<i128>::empty());
        assert(b@.skip(j as int) =~= Seq::<i128>::empty());
        assert(merge_spec(a@.skip(i as int), b@.skip(j as int)) =~= Seq::<i128>::empty());
        assert(out@ + Seq::<i128>::empty() =~= out@);
    }
    out
}

/// Ascending insertion of one element, keeping nothing if it is already
/// present.
pub open spec fn ins_spec(s: Seq<i128>, x: i128) -> Seq<i128>
    decreases s.len(),
{
    if s.len() == 0 {
        seq![x]
    } else if x < s[0] {
        seq![x] + s
    } else if x == s[0] {
        s
    } else {
        seq![s[0]] + ins_spec(s.drop_first(), x)
    }
}

/// The ascending, deduplicated content of the first `i` elements.
pub open spec fn sort_prefix(s: Seq<i128>, i: int) -> Seq<i128>
    decreases i,
{
    if i <= 0 {
        Seq::empty()
    } else {
        ins_spec(sort_prefix(s, i - 1), s[i - 1])
    }
}

pub open spec fn sort_spec(s: Seq<i128>) -> Seq<i128> {
    sort_prefix(s, s.len() as int)
}

proof fn lemma_ins_sorted(s: Seq<i128>, x: i128)
    requires
        sorted_strict(s),
    ensures
        sorted_strict(ins_spec(s, x)),
        ins_spec(s, x).len() >= 1,
        ins_spec(s, x)[0] == if s.len() == 0 || x < s[0] {
            x
        } else {
            s[0]
        },
        ins_spec(s, x).len() <= s.len() + 1,
    decreases s.len(),
{
    if s.len() == 0 {
    } else if x < s[0] {
        let r = seq![x] + s;
        assert forall|i: int, j: int| 0 <= i < j < r.len() implies r[i] < r[j] by {
            if i > 0 {
                assert(r[i] == s[i - 1]);
                assert(r[j] == s[j - 1]);
            } else {
                assert(r[j] == s[j - 1]);
                assert(s[0] <= s[j - 1]);
            }
        }
    } else if x == s[0] {
    } else {
        assert(sorted_strict(s.drop_first()));
        lemma_ins_sorted(s.drop_first(), x);
        let t = ins_spec(s.drop_first(), x);
        let r = seq![s[0]] + t;
        assert(ins_spec(s, x) == r);
        assert forall|i: int, j: int| 0 <= i < j < r.len() implies r[i] < r[j] by {
            if i > 0 {
                assert(r[i] == t[i - 1] && r[j] == t[j - 1]);
            } else {
                assert(r[j] == t[j - 1]);
                if s.len() == 1 {
                    assert(t[0] == x);
                    assert(sorted_strict(t));
                } else {
                    assert(t[0] == if x < s.drop_first()[0] {
                        x
                    } else {
                        s.drop_first()[0]
                    });
                    assert(s.drop_first()[0] == s[1]);
                    assert(s[0] < t[0]);
                    assert(t[0] <= t[j - 1]);
                }
            }
        }
    }
}

fn ins_exec(s: Vec<i128>, x: i128) -> (r: Vec<i128>)
    requires
        sorted_strict(s@),
    ensures
        r@ == ins_spec(s@, x),
        sorted_strict(r@),
    decreases s@.len(),
{
    proof {
        lemma_ins_sorted(s@, x);
    }
    if s.len() == 0 {
        let mut r: Vec<i128> = Vec::new();
        r.push(x);
        proof {
            assert(r@ =~= seq![x]);
        }
        r
    } else if x < s[0] {
        let mut r: Vec<i128> = Vec::new();
        r.push(x);
        let mut k: usize = 0;
        while k < s.len()
            invariant
                k <= s.len(),
                r@ == seq![x] + s@.take(k as int),
            decreases s.len() - k,
        {
            let ghost pre = r@;
            r.push(s[k]);
            k = k + 1;
            proof {
                assert(r@ =~= seq![x] + s@.take(k as int));
            }
        }
        proof {
            assert(s@.take(s@.len() as int) =~= s@);
        }
        r
    } else if x == s[0] {
        s
    } else {
        let mut rest: Vec<i128> = Vec::new();
        let mut k: usize = 1;
        while k < s.len()
            invariant
                1 <= k <= s.len(),
                rest@ == s@.subrange(1, k as int),
            decreases s.len() - k,
        {
            rest.push(s[k]);
            k = k + 1;
            proof {
                assert(rest@ =~= s@.subrange(1, k as int));
            }
        }
        proof {
            assert(s@.subrange(1, s@.len() as int) =~= s@.drop_first());
            assert(sorted_strict(s@.drop_first()));
        }
        let t = ins_exec(rest, x);
        let mut r: Vec<i128> = Vec::new();
        r.push(s[0]);
        let mut k2: usize = 0;
        while k2 < t.len()
            invariant
                k2 <= t.len(),
                t@ == ins_spec(s@.drop_first(), x),
                r@ == seq![s@[0]] + t@.take(k2 as int),
            decreases t.len() - k2,
        {
            r.push(t[k2]);
            k2 = k2 + 1;
            proof {
                assert(r@ =~= seq![s@[0]] + t@.take(k2 as int));
            }
        }
        proof {
            assert(t@.take(t@.len() as int) =~= t@);
        }
        r
    }
}

/// Sort a small vector ascending, dropping exact repeats.
pub fn sort_dedup(v: &Vec<i128>) -> (r: Vec<i128>)
    ensures
        r@ == sort_spec(v@),
        sorted_strict(r@),
{
    let mut out: Vec<i128> = Vec::new();
    let mut i: usize = 0;
    while i < v.len()
        invariant
            i <= v.len(),
            out@ == sort_prefix(v@, i as int),
            sorted_strict(out@),
        decreases v.len() - i,
    {
        out = ins_exec(out, v[i]);
        i = i + 1;
    }
    out
}

} // verus!
