//! The loudness estimator: one non-negative scalar per captured block.
//!
//! Samples are fixed-point values in units of `1 / SAMPLE_ONE`. A captured
//! block is interleaved; only the first channel of each frame enters the
//! estimate, which is the square root of the mean of the squared samples. An
//! empty block leaves the previously published value in place, so the
//! estimator never divides by zero.

use vstd::prelude::*;

verus! {

/// Full scale: a fixed-point sample of value `SAMPLE_ONE` stands for 1.0.
pub const SAMPLE_ONE: i64 = 32768;

/// The widest sample magnitude the estimator accepts; it keeps every sum of
/// squares inside the accumulator's range.
pub const SAMPLE_LIMIT: i64 = 0x8000_0000;

/// How many frames a block of `len` interleaved samples holds: one per full
/// or partial run of `channels` contiguous slots.
pub open spec fn frame_count_of(len: int, channels: int) -> int
    recommends
        0 < channels,
{
    if len <= 0 {
        0
    } else {
        (len - 1) / channels + 1
    }
}

/// The first channel of each frame of an interleaved block; the other
/// channels are ignored, not averaged.
pub open spec fn first_channel(s: Seq<i64>, channels: int) -> Seq<int>
    recommends
        0 < channels,
{
    Seq::new(frame_count_of(s.len() as int, channels) as nat, |j: int| s[j * channels] as int)
}

/// The sum of the squares of a sequence of samples.
pub open spec fn sum_squares(s: Seq<int>) -> int
    decreases s.len(),
{
    if s.len() == 0 {
        0
    } else {
        sum_squares(s.drop_last()) + s.last() * s.last()
    }
}

/// `r` is the integer square root of `m`, rounded down.
pub open spec fn is_isqrt(m: int, r: int) -> bool {
    0 <= r && r * r <= m < (r + 1) * (r + 1)
}

/// A number has only one integer square root.
pub proof fn lemma_isqrt_unique(m: int, r1: int, r2: int)
    requires
        is_isqrt(m, r1),
        is_isqrt(m, r2),
    ensures
        r1 == r2,
{
    if r1 < r2 {
        assert((r1 + 1) * (r1 + 1) <= r2 * r2) by (nonlinear_arith)
            requires
                0 <= r1,
                0 <= r2,
                r1 < r2,
        ;
    }
    if r2 < r1 {
        assert((r2 + 1) * (r2 + 1) <= r1 * r1) by (nonlinear_arith)
            requires
                0 <= r1,
                0 <= r2,
                r2 < r1,
        ;
    }
}

/// The integer square root, rounded down, by bisection.
pub fn isqrt(m: u128) -> (r: u64)
    requires
        m < 0x1_0000_0000_0000_0000,
    ensures
        is_isqrt(m as int, r as int),
{
    let mut lo: u64 = 0;
    let mut hi: u64 = 0x1_0000_0000;
    while hi - lo > 1
        invariant
            lo < hi <= 0x1_0000_0000,
            (lo as int) * (lo as int) <= m as int,
            (m as int) < (hi as int) * (hi as int),
        decreases hi - lo,
    {
        let mid = lo + (hi - lo) / 2;
        proof {
            vstd::arithmetic::mul::lemma_mul_upper_bound(
                mid as int,
                0x1_0000_0000,
                mid as int,
                0x1_0000_0000,
            );
        }
        if (mid as u128) * (mid as u128) <= m {
            lo = mid;
        } else {
            hi = mid;
        }
    }
    lo
}

/// Consume one captured block and produce the loudness scalar: the integer
/// square root of the mean of the squared first-channel samples. An empty
/// block returns `previous` unchanged, retaining the last published value.
#[verifier::loop_isolation(false)]
pub fn rms_block(samples: &Vec<i64>, num_channels: usize, previous: u64) -> (r: u64)
    requires
        1 <= num_channels,
        forall|i: int|
            0 <= i < samples@.len() ==> -SAMPLE_LIMIT <= #[trigger] samples@[i] <= SAMPLE_LIMIT,
    ensures
        samples@.len() == 0 ==> r == previous,
        samples@.len() > 0 ==> is_isqrt(
            sum_squares(first_channel(samples@, num_channels as int)) / frame_count_of(
                samples@.len() as int,
                num_channels as int,
            ),
            r as int,
        ),
{
    if samples.len() == 0 {
        return previous;
    }
    let ghost ch = num_channels as int;
    let ghost fc = first_channel(samples@, ch);
    let count: usize = (samples.len() - 1) / num_channels + 1;
    proof {
        vstd::arithmetic::div_mod::lemma_fundamental_div_mod(
            samples@.len() as int - 1,
            ch,
        );
    }
    let mut sum: u128 = 0;
    let mut j: usize = 0;
    while j < count
        invariant
            j <= count,
            sum as int == sum_squares(fc.take(j as int)),
            sum as int <= (j as int) * (SAMPLE_LIMIT as int * SAMPLE_LIMIT as int),
        decreases count - j,
    {
        proof {
            vstd::arithmetic::mul::lemma_mul_inequality(j as int, count as int - 1, ch);
            assert((count as int - 1) * ch == ch * (count as int - 1)) by (nonlinear_arith);
        }
        let idx = j * num_channels;
        let s = samples[idx];
        let a: u64 = if s < 0 {
            (-s) as u64
        } else {
            s as u64
        };
        proof {
            assert((a as int) * (a as int) == (s as int) * (s as int)) by (nonlinear_arith)
                requires
                    a as int == (if s < 0 {
                        -(s as int)
                    } else {
                        s as int
                    }),
            ;
            vstd::arithmetic::mul::lemma_mul_upper_bound(
                a as int,
                SAMPLE_LIMIT as int,
                a as int,
                SAMPLE_LIMIT as int,
            );
            assert((j as int + 1) * (SAMPLE_LIMIT as int * SAMPLE_LIMIT as int) == (j as int) * (
            SAMPLE_LIMIT as int * SAMPLE_LIMIT as int) + SAMPLE_LIMIT as int * SAMPLE_LIMIT as int)
                by (nonlinear_arith);
            vstd::arithmetic::mul::lemma_mul_inequality(
                j as int + 1,
                0x1_0000_0000_0000_0000,
                SAMPLE_LIMIT as int * SAMPLE_LIMIT as int,
            );
        }
        let sq: u128 = (a as u128) * (a as u128);
        sum = sum + sq;
        proof {
            assert(fc.take(j as int + 1).drop_last() =~= fc.take(j as int));
            assert(fc.take(j as int + 1).last() == fc[j as int]);
        }
        j = j + 1;
    }
    proof {
        assert(fc.take(count as int) =~= fc);
        vstd::arithmetic::div_mod::lemma_div_is_ordered(
            sum as int,
            (count as int) * (SAMPLE_LIMIT as int * SAMPLE_LIMIT as int),
            count as int,
        );
        vstd::arithmetic::div_mod::lemma_div_multiples_vanish(
            SAMPLE_LIMIT as int * SAMPLE_LIMIT as int,
            count as int,
        );
    }
    let mean: u128 = sum / (count as u128);
    isqrt(mean)
}

/// A constant block estimates to the constant's magnitude: for a block that
/// repeats one value `a` on a single channel, the mean square is exactly
/// `a * a`, and the loudness scalar is exactly the magnitude of `a`.
pub proof fn lemma_rms_of_constant_block(s: Seq<i64>, a: i64, r: int)
    requires
        s.len() > 0,
        forall|i: int| 0 <= i < s.len() ==> s[i] == a,
        is_isqrt(
            sum_squares(first_channel(s, 1)) / frame_count_of(s.len() as int, 1),
            r,
        ),
    ensures
        r == vstd::math::abs(a as int),
{
    let fc = first_channel(s, 1);
    assert(forall|j: int| 0 <= j < fc.len() ==> fc[j] == a as int);
    lemma_sum_squares_constant(fc, a as int);
    vstd::arithmetic::div_mod::lemma_div_multiples_vanish(
        (a as int) * (a as int),
        s.len() as int,
    );
    let m = vstd::math::abs(a as int) as int;
    assert(is_isqrt((a as int) * (a as int), m)) by (nonlinear_arith)
        requires
            m == vstd::math::abs(a as int),
            m == (if (a as int) < 0 {
                -(a as int)
            } else {
                a as int
            }),
    ;
    lemma_isqrt_unique((a as int) * (a as int), r, m);
}

/// The sum of squares of a constant sequence is the square times the length.
pub proof fn lemma_sum_squares_constant(s: Seq<int>, a: int)
    requires
        forall|i: int| 0 <= i < s.len() ==> s[i] == a,
    ensures
        sum_squares(s) == s.len() * (a * a),
    decreases s.len(),
{
    if s.len() == 0 {
    } else {
        lemma_sum_squares_constant(s.drop_last(), a);
        assert(s.len() * (a * a) == (s.len() - 1) * (a * a) + a * a) by (nonlinear_arith);
    }
}

} // verus!
