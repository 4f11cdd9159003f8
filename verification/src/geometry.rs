//! Geometry over a town's polygon: the integer-truncated mean of each
//! coordinate axis (the centroid) and the per-axis minimum and maximum (the
//! bounding box).
use vstd::prelude::*;
use vstd::arithmetic::div_mod::{
    lemma_div_is_ordered, lemma_div_multiples_vanish, lemma_div_pos_is_pos,
    lemma_multiply_divide_le,
};
use vstd::arithmetic::mul::{
    lemma_mul_inequality, lemma_mul_is_distributive_add_other_way, lemma_mul_left_inequality,
    lemma_mul_unary_negation,
};

use crate::{Bounds, Error, ErrorView, Position};

verus! {

/// The sum of a coordinate sequence.
pub open spec fn spec_sum(s: Seq<i32>) -> int
    decreases s.len(),
{
    if s.len() == 0 {
        0
    } else {
        spec_sum(s.drop_last()) + s.last()
    }
}

/// The least element of a non-empty coordinate sequence.
pub open spec fn seq_min(s: Seq<i32>) -> int
    decreases s.len(),
{
    if s.len() <= 1 {
        if s.len() == 1 {
            s[0] as int
        } else {
            0
        }
    } else {
        let m = seq_min(s.drop_last());
        if s.last() < m {
            s.last() as int
        } else {
            m
        }
    }
}

/// The greatest element of a non-empty coordinate sequence.
pub open spec fn seq_max(s: Seq<i32>) -> int
    decreases s.len(),
{
    if s.len() <= 1 {
        if s.len() == 1 {
            s[0] as int
        } else {
            0
        }
    } else {
        let m = seq_max(s.drop_last());
        if s.last() > m {
            s.last() as int
        } else {
            m
        }
    }
}

/// The integer-truncated arithmetic mean of a non-empty coordinate sequence:
/// the quotient is rounded towards zero.
pub open spec fn spec_mean(s: Seq<i32>) -> int {
    let sm = spec_sum(s);
    if sm >= 0 {
        sm / (s.len() as int)
    } else {
        -((-sm) / (s.len() as int))
    }
}

/// The sum of `n` elements, each within the least and greatest, lies between
/// `n` times either bound.
proof fn lemma_sum_range(s: Seq<i32>)
    requires
        s.len() >= 1,
    ensures
        (s.len() as int) * seq_min(s) <= spec_sum(s) <= (s.len() as int) * seq_max(s),
    decreases s.len(),
{
    let n = s.len() as int;
    let mn = seq_min(s);
    let mx = seq_max(s);
    if s.len() == 1 {
        assert(spec_sum(s) == spec_sum(s.drop_last()) + s.last());
        assert(spec_sum(s.drop_last()) == 0);
        assert(1 * mn == mn && 1 * mx == mx) by (nonlinear_arith);
    } else {
        let d = s.drop_last();
        lemma_sum_range(d);
        let dn = d.len() as int;
        lemma_mul_left_inequality(dn, mn, seq_min(d));
        lemma_mul_left_inequality(dn, seq_max(d), mx);
        assert(dn * mn + mn == n * mn) by {
            lemma_mul_is_distributive_add_other_way(mn, dn, 1);
            assert((dn + 1) * mn == dn * mn + 1 * mn);
            assert(1 * mn == mn) by (nonlinear_arith);
        }
        assert(dn * mx + mx == n * mx) by {
            lemma_mul_is_distributive_add_other_way(mx, dn, 1);
            assert((dn + 1) * mx == dn * mx + 1 * mx);
            assert(1 * mx == mx) by (nonlinear_arith);
        }
        assert(mn <= s.last() <= mx);
    }
}

/// The truncated mean of a non-empty sequence lies between its least and
/// greatest elements.
proof fn lemma_mean_range(s: Seq<i32>)
    requires
        s.len() >= 1,
    ensures
        seq_min(s) <= spec_mean(s) <= seq_max(s),
{
    let n = s.len() as int;
    let sm = spec_sum(s);
    let mn = seq_min(s);
    let mx = seq_max(s);
    lemma_sum_range(s);
    if sm >= 0 {
        lemma_multiply_divide_le(sm, n, mx);
        if mn <= 0 {
            lemma_div_pos_is_pos(sm, n);
        } else {
            lemma_div_is_ordered(n * mn, sm, n);
            lemma_div_multiples_vanish(mn, n);
        }
    } else {
        let pos = -sm;
        assert(n * mn <= sm);
        lemma_mul_unary_negation(n, mn);
        assert(pos <= n * (-mn));
        lemma_multiply_divide_le(pos, n, -mn);
        if mx >= 0 {
            lemma_div_pos_is_pos(pos, n);
        } else {
            lemma_mul_unary_negation(n, mx);
            assert(n * (-mx) <= pos);
            lemma_div_is_ordered(n * (-mx), pos, n);
            lemma_div_multiples_vanish(-mx, n);
        }
    }
}

/// Computes the truncated mean, least and greatest element of one axis.
fn axis_stats(s: &Vec<i32>) -> (r: (i32, i32, i32))
    requires
        s@.len() >= 1,
    ensures
        r.0 == spec_mean(s@),
        r.1 == seq_min(s@),
        r.2 == seq_max(s@),
{
    let n: usize = s.len();
    let mut sum: i128 = s[0] as i128;
    let mut mn: i32 = s[0];
    let mut mx: i32 = s[0];
    let mut i: usize = 1;
    proof {
        assert(s@.take(1).drop_last() =~= Seq::<i32>::empty());
        assert(s@.take(1).last() == s@[0]);
        assert(spec_sum(Seq::<i32>::empty()) == 0);
        assert(spec_sum(s@.take(1)) == s@[0]);
        assert(seq_min(s@.take(1)) == s@[0]);
        assert(seq_max(s@.take(1)) == s@[0]);
    }
    while i < n
        invariant
            1 <= i <= n,
            n == s@.len(),
            sum == spec_sum(s@.take(i as int)),
            mn == seq_min(s@.take(i as int)),
            mx == seq_max(s@.take(i as int)),
            -(i as int) * 0x8000_0000 <= sum <= (i as int) * 0x8000_0000,
        decreases n - i,
    {
        proof {
            assert(s@.take(i as int + 1).drop_last() =~= s@.take(i as int));
            assert(s@.take(i as int + 1).last() == s@[i as int]);
            lemma_mul_is_distributive_add_other_way(0x8000_0000, i as int, 1);
            assert((i as int + 1) * 0x8000_0000 == (i as int) * 0x8000_0000 + 1 * 0x8000_0000);
            assert(1 * 0x8000_0000 == 0x8000_0000) by (nonlinear_arith);
            lemma_mul_inequality(i as int, 0x1_0000_0000_0000_0000, 0x8000_0000);
            lemma_mul_inequality(-(0x1_0000_0000_0000_0000 as int), -(i as int), 0x8000_0000);
            assert(i as int <= usize::MAX <= 0x1_0000_0000_0000_0000);
        }
        sum = sum + (s[i] as i128);
        if s[i] < mn {
            mn = s[i];
        }
        if s[i] > mx {
            mx = s[i];
        }
        i = i + 1;
    }
    proof {
        assert(s@.take(n as int) =~= s@);
        lemma_mean_range(s@);
        assert(i32::MIN <= seq_min(s@) && seq_max(s@) <= i32::MAX);
    }
    let mean: i32 = if sum >= 0 {
        let q: u128 = (sum as u128) / (n as u128);
        q as i32
    } else {
        let mag: u128 = (-sum) as u128;
        let q: u128 = mag / (n as u128);
        let m64: i64 = -(q as i64);
        m64 as i32
    };
    (mean, mn, mx)
}

/// Computes the centroid and bounding box of a polygon given by its two
/// coordinate sequences. The centroid is the per-axis truncated mean with
/// elevation fixed at 0; the bounds are the per-axis minimum and maximum.
/// An empty coordinate sequence on either axis is rejected.
pub fn centroid_and_bounds(xs: &Vec<i32>, zs: &Vec<i32>) -> (r: Result<(Position, Bounds), Error>)
    ensures
        (xs@.len() == 0 || zs@.len() == 0) <==> (r matches Err(e) && e@ == ErrorView::ParseError(
            "Empty polygon"@,
        )),
        xs@.len() > 0 && zs@.len() > 0 ==> (r matches Ok(pb) && pb.0 == (Position {
            x: spec_mean(xs@) as i32,
            y: 0,
            z: spec_mean(zs@) as i32,
        }) && pb.1 == (Bounds {
            x1: seq_min(xs@) as i32,
            z1: seq_min(zs@) as i32,
            x2: seq_max(xs@) as i32,
            z2: seq_max(zs@) as i32,
        })),
{
    if xs.len() == 0 || zs.len() == 0 {
        return Err(Error::ParseError("Empty polygon"));
    }
    let (x_mean, x_min, x_max) = axis_stats(xs);
    let (z_mean, z_min, z_max) = axis_stats(zs);
    Ok(
        (
            Position { x: x_mean, y: 0, z: z_mean },
            Bounds { x1: x_min, z1: z_min, x2: x_max, z2: z_max },
        ),
    )
}

} // verus!
