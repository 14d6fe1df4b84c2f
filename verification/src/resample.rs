//! Sample-rate conversion by linear interpolation: how long the output
//! is, and between which two input samples each output sample lies.
//!
//! Positions are exact fractions. Blending two samples is the caller's
//! arithmetic.

use vstd::prelude::*;
use vstd::arithmetic::div_mod::{
    lemma_div_is_ordered, lemma_div_pos_is_pos, lemma_fundamental_div_mod,
    lemma_fundamental_div_mod_converse, lemma_mod_bound,
};
use vstd::arithmetic::mul::lemma_mul_is_commutative;
use crate::units::held;

verus! {

/// The number of output samples for `len` input samples: the duration of
/// the input at the output rate, rounded down. Nothing comes out of an
/// input without a rate.
pub open spec fn output_len_spec(len: nat, input_rate: nat, output_rate: nat) -> nat {
    if input_rate == 0 {
        0
    } else {
        len * output_rate / input_rate
    }
}

/// The divisor of all positions: one less than the output length, and 1
/// for an output of a single sample.
pub open spec fn position_scale(output_len: nat) -> nat {
    if output_len >= 2 {
        (output_len - 1) as nat
    } else {
        1
    }
}

/// The position of output sample `i` on the input, times the divisor.
/// The first output sample lies on the first input sample and the last
/// on the last, the others at equal distances between.
pub open spec fn scaled_position(input_len: nat, i: nat) -> nat {
    i * (input_len - 1) as nat
}

/// Where one output sample lies: `weight / scale` of the way from input
/// sample `index` to input sample `index + 1`.
#[derive(Debug, Clone, Copy, PartialEq, Eq, Structural)]
pub struct Tap {
    pub index: usize,
    pub weight: usize,
    pub scale: usize,
}

/// The positions of a conversion between two lengths.
#[derive(Debug, Clone, Copy, PartialEq, Eq, Structural)]
pub struct Resampler {
    input_len: usize,
    output_len: usize,
}

impl Resampler {
    /// The number of input samples.
    pub closed spec fn input_len_spec(&self) -> nat {
        self.input_len as nat
    }

    /// The number of output samples.
    pub closed spec fn output_len_spec(&self) -> nat {
        self.output_len as nat
    }

    /// The tap of output sample `i`.
    pub open spec fn tap_spec(&self, i: nat) -> Tap {
        Tap {
            index: (scaled_position(self.input_len_spec(), i) / position_scale(
                self.output_len_spec(),
            )) as usize,
            weight: (scaled_position(self.input_len_spec(), i) % position_scale(
                self.output_len_spec(),
            )) as usize,
            scale: position_scale(self.output_len_spec()) as usize,
        }
    }

    /// The conversion of `input_len` samples from one rate to another.
    /// The output length is held to what `usize` can count.
    pub fn new(input_len: usize, input_rate: u32, output_rate: u32) -> (resampler: Resampler)
        ensures
            resampler.input_len_spec() == input_len,
            resampler.output_len_spec() == held(
                output_len_spec(input_len as nat, input_rate as nat, output_rate as nat),
            ),
    {
        if input_rate == 0 {
            return Resampler { input_len, output_len: 0 };
        }
        assert(0 <= (input_len as int) * (output_rate as int) <= usize::MAX * 0xffff_ffff)
            by (nonlinear_arith)
            requires
                0 <= input_len <= usize::MAX,
                0 <= output_rate <= 0xffff_ffff,
        ;
        let product: u128 = (input_len as u128) * (output_rate as u128);
        let wanted: u128 = product / (input_rate as u128);
        let output_len: usize = if wanted <= usize::MAX as u128 {
            wanted as usize
        } else {
            usize::MAX
        };
        Resampler { input_len, output_len }
    }

    /// The number of input samples.
    pub fn input_len(&self) -> (len: usize)
        ensures
            len == self.input_len_spec(),
    {
        self.input_len
    }

    /// The number of output samples.
    pub fn output_len(&self) -> (len: usize)
        ensures
            len == self.output_len_spec(),
    {
        self.output_len
    }

    /// The tap of output sample `i`: the input sample at or before its
    /// position, and how far it lies towards the next one.
    pub fn tap(&self, i: usize) -> (tap: Tap)
        requires
            i < self.output_len_spec(),
            self.input_len_spec() > 0,
        ensures
            tap == self.tap_spec(i as nat),
            tap.index < self.input_len_spec(),
            tap.weight < tap.scale,
    {
        let scale: usize = if self.output_len >= 2 {
            self.output_len - 1
        } else {
            1
        };
        let last: usize = self.input_len - 1;
        proof {
            tap_bounds_law(*self, i as nat);
            assert(0 <= (i as int) * (last as int) <= usize::MAX * usize::MAX) by (nonlinear_arith)
                requires
                    0 <= i <= usize::MAX,
                    0 <= last <= usize::MAX,
            ;
        }
        let position: u128 = (i as u128) * (last as u128);
        let index: u128 = position / (scale as u128);
        let weight: u128 = position % (scale as u128);
        Tap { index: index as usize, weight: weight as usize, scale }
    }
}

/// Every tap lies on the input: its index is that of an input sample and
/// its weight is a proper fraction of its scale.
pub proof fn tap_bounds_law(resampler: Resampler, i: nat)
    requires
        i < resampler.output_len_spec(),
        resampler.input_len_spec() > 0,
    ensures
        scaled_position(resampler.input_len_spec(), i) / position_scale(
            resampler.output_len_spec(),
        ) < resampler.input_len_spec(),
        scaled_position(resampler.input_len_spec(), i) % position_scale(
            resampler.output_len_spec(),
        ) < position_scale(resampler.output_len_spec()),
        resampler.tap_spec(i).index < resampler.input_len_spec(),
        resampler.tap_spec(i).weight < resampler.tap_spec(i).scale,
{
    let last = (resampler.input_len_spec() - 1) as int;
    let scale = position_scale(resampler.output_len_spec()) as int;
    let position = scaled_position(resampler.input_len_spec(), i) as int;
    assert(position == i * last);
    assert(i <= scale);
    assert(i * last <= scale * last) by (nonlinear_arith)
        requires
            0 <= i <= scale,
            0 <= last,
    ;
    lemma_fundamental_div_mod(position, scale);
    lemma_mod_bound(position, scale);
    lemma_div_pos_is_pos(position, scale);
    let q = position / scale;
    assert(q <= last) by (nonlinear_arith)
        requires
            position == scale * q + position % scale,
            0 <= position % scale,
            position <= scale * last,
            scale > 0,
    ;
}

/// The first output sample is the first input sample, and an output of
/// two samples or more ends on the last input sample.
pub proof fn endpoints_law(resampler: Resampler)
    requires
        resampler.output_len_spec() > 0,
        resampler.input_len_spec() > 0,
    ensures
        resampler.tap_spec(0).index == 0,
        resampler.tap_spec(0).weight == 0,
        resampler.output_len_spec() >= 2 ==> resampler.tap_spec(
            (resampler.output_len_spec() - 1) as nat,
        ).index == resampler.input_len_spec() - 1,
        resampler.output_len_spec() >= 2 ==> resampler.tap_spec(
            (resampler.output_len_spec() - 1) as nat,
        ).weight == 0,
{
    let last = (resampler.input_len_spec() - 1) as int;
    let scale = position_scale(resampler.output_len_spec()) as int;
    assert(scaled_position(resampler.input_len_spec(), 0) == 0) by (nonlinear_arith)
        requires
            scaled_position(resampler.input_len_spec(), 0) == 0 * last,
    ;
    if resampler.output_len_spec() >= 2 {
        let i = (resampler.output_len_spec() - 1) as nat;
        assert(scaled_position(resampler.input_len_spec(), i) == scale * last);
        lemma_mul_is_commutative(scale, last);
        lemma_fundamental_div_mod_converse(scale * last, scale, last, 0);
    }
}

/// Between equal lengths every output sample lies exactly on the input
/// sample of the same index: the conversion changes nothing.
pub proof fn identity_law(resampler: Resampler, i: nat)
    requires
        resampler.output_len_spec() == resampler.input_len_spec(),
        i < resampler.output_len_spec(),
    ensures
        resampler.tap_spec(i).index == i,
        resampler.tap_spec(i).weight == 0,
{
    let last = (resampler.input_len_spec() - 1) as int;
    let scale = position_scale(resampler.output_len_spec()) as int;
    if resampler.output_len_spec() >= 2 {
        assert(scale == last);
        assert(scaled_position(resampler.input_len_spec(), i) == scale * (i as int))
            by (nonlinear_arith)
            requires
                scaled_position(resampler.input_len_spec(), i) == i * last,
                scale == last,
        ;
        lemma_fundamental_div_mod_converse(scale * (i as int), scale, i as int, 0);
    } else {
        assert(i == 0);
        assert(last == 0);
        assert(scaled_position(resampler.input_len_spec(), i) == 0);
    }
}

/// Equal rates give equal lengths.
pub proof fn same_rate_law(len: nat, rate: nat)
    requires
        rate > 0,
    ensures
        output_len_spec(len, rate, rate) == len,
{
    lemma_fundamental_div_mod_converse((len * rate) as int, rate as int, len as int, 0);
    lemma_mul_is_commutative(len as int, rate as int);
}

/// Later output samples never lie earlier on the input.
pub proof fn monotone_law(resampler: Resampler, i: nat, j: nat)
    requires
        i <= j < resampler.output_len_spec(),
        resampler.input_len_spec() > 0,
    ensures
        resampler.tap_spec(i).index <= resampler.tap_spec(j).index,
{
    let last = (resampler.input_len_spec() - 1) as int;
    let scale = position_scale(resampler.output_len_spec()) as int;
    tap_bounds_law(resampler, i);
    tap_bounds_law(resampler, j);
    assert(i * last <= j * last) by (nonlinear_arith)
        requires
            0 <= i <= j,
            0 <= last,
    ;
    lemma_div_is_ordered(i * last, j * last, scale);
}

/// Converts `input` from one sample rate to another by linear
/// interpolation.
///
/// Output sample `i` lies at tap `i`. Where the tap has an input sample
/// behind it, `blend` makes the output from the two neighbours, the
/// weight of the second and the scale of that weight; on the last input
/// sample the output is that sample.
pub fn resample<T: Copy, B: Fn(T, T, usize, usize) -> T>(
    input: &Vec<T>,
    input_rate: u32,
    output_rate: u32,
    blend: B,
) -> (out: Vec<T>)
    requires
        forall|a: T, b: T, weight: usize, scale: usize|
            weight < scale ==> call_requires(blend, (a, b, weight, scale)),
    ensures
        out@.len() == held(
            output_len_spec(input@.len(), input_rate as nat, output_rate as nat),
        ),
        input@.len() == 0 ==> out@.len() == 0,
        forall|i: int|
            0 <= i < out@.len() ==> resampled(input@, out@.len(), blend, i, #[trigger] out@[i]),
{
    let resampler = Resampler::new(input.len(), input_rate, output_rate);
    let count: usize = if input.len() == 0 {
        0
    } else {
        resampler.output_len()
    };
    assert(input@.len() == 0 ==> output_len_spec(
        input@.len(),
        input_rate as nat,
        output_rate as nat,
    ) == 0) by (nonlinear_arith);
    let mut out: Vec<T> = Vec::new();
    let _ = out.try_reserve(count);
    let mut i: usize = 0;
    while i < count
        invariant
            i <= count,
            count > 0 ==> input@.len() > 0,
            count > 0 ==> count == resampler.output_len_spec(),
            resampler.input_len_spec() == input@.len(),
            out@.len() == i,
            forall|a: T, b: T, weight: usize, scale: usize|
                weight < scale ==> call_requires(blend, (a, b, weight, scale)),
            forall|k: int|
                0 <= k < i ==> resampled(input@, count as nat, blend, k, #[trigger] out@[k]),
        decreases count - i,
    {
        let tap = resampler.tap(i);
        proof {
            tap_bounds_law(resampler, i as nat);
        }
        let ghost position = scaled_position(input@.len(), i as nat);
        let ghost scale = position_scale(count as nat);
        assert(tap.index == position / scale);
        assert(tap.weight == position % scale);
        assert(tap.scale == scale);
        let ghost before = out@;
        let sample: T = if tap.index + 1 < input.len() {
            blend(input[tap.index], input[tap.index + 1], tap.weight, tap.scale)
        } else {
            input[tap.index]
        };
        out.push(sample);
        assert(resampled(input@, count as nat, blend, i as int, sample));
        assert forall|k: int| 0 <= k < i + 1 implies resampled(
            input@,
            count as nat,
            blend,
            k,
            #[trigger] out@[k],
        ) by {
            if k < i {
                assert(out@[k] == before[k]);
            }
        }
        i = i + 1;
    }
    out
}

/// Whether `sample` is output sample `i` of the conversion of `input` to
/// `output_len` samples.
pub open spec fn resampled<T, B: Fn(T, T, usize, usize) -> T>(
    input: Seq<T>,
    output_len: nat,
    blend: B,
    i: int,
    sample: T,
) -> bool {
    let position = scaled_position(input.len(), i as nat);
    let scale = position_scale(output_len);
    let index = (position / scale) as int;
    if index + 1 < input.len() {
        call_ensures(
            blend,
            (input[index], input[index + 1], (position % scale) as usize, scale as usize),
            sample,
        )
    } else {
        sample == input[index]
    }
}

} // verus!
