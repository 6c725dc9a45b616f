use crate::buffer::Buffer;
use crate::network::{BlockRequirements, BlockSize, NetworkRealReal, ProcessStatus};
use crate::sample::Sample;
use vstd::prelude::*;

verus! {

/// The saturation curve `x * (27 + x * x) / (27 + 9 * x * x)`, in the sample
/// type's arithmetic.
pub open spec fn soft_limit_value<S: Sample>(x: S) -> S {
    x.product(S::of_int(27).sum(x.product(x))).quotient(
        S::of_int(27).sum(S::of_int(9).product(x).product(x)),
    )
}

/// The curve between -3 and 3, and the bounds -1 and 1 beyond.
pub open spec fn soft_clip_value<S: Sample>(x: S) -> S {
    if x.is_below(S::of_int((-3) as i32)) {
        S::of_int((-1) as i32)
    } else if S::of_int(3).is_below(x) {
        S::of_int(1)
    } else {
        soft_limit_value(x)
    }
}

/// `before` with every cell that `input` also has replaced by the clipped
/// input sample.
pub open spec fn clipped<S: Sample>(input: Seq<Seq<S>>, before: Seq<Seq<S>>) -> Seq<Seq<S>> {
    Seq::new(
        before.len(),
        |c: int|
            Seq::new(
                before[c].len(),
                |i: int|
                    if c < input.len() && i < input[c].len() {
                        soft_clip_value(input[c][i])
                    } else {
                        before[c][i]
                    },
            ),
    )
}

/// The numerator of the curve's exact value at the fraction `p / q`.
pub open spec fn curve_numerator(p: int, q: int) -> int {
    p * (27 * q * q + p * p)
}

/// The denominator of the curve's exact value at the fraction `p / q`.
pub open spec fn curve_denominator(p: int, q: int) -> int {
    q * (27 * q * q + 9 * p * p)
}

/// In exact arithmetic the curve stays within -1 and 1 between -3 and 3: at
/// every fraction `p / q` of that range, the value's numerator is no larger
/// in size than its denominator, which is positive. At 3 the curve meets the
/// bound 1, at -3 the bound -1.
pub proof fn lemma_curve_bounded(p: int, q: int)
    requires
        q > 0,
        -3 * q <= p <= 3 * q,
    ensures
        curve_denominator(p, q) > 0,
        -curve_denominator(p, q) <= curve_numerator(p, q) <= curve_denominator(p, q),
        p == 3 * q ==> curve_numerator(p, q) == curve_denominator(p, q),
        p == -3 * q ==> curve_numerator(p, q) == -curve_denominator(p, q),
{
    let up = 3 * q - p;
    let down = 3 * q + p;
    assert(curve_denominator(p, q) - curve_numerator(p, q) == up * up * up) by (nonlinear_arith)
        requires
            up == 3 * q - p,
    ;
    assert(curve_denominator(p, q) + curve_numerator(p, q) == down * down * down)
        by (nonlinear_arith)
        requires
            down == 3 * q + p,
    ;
    assert(up * up * up >= 0) by (nonlinear_arith)
        requires
            up >= 0,
    ;
    assert(down * down * down >= 0) by (nonlinear_arith)
        requires
            down >= 0,
    ;
    assert(curve_denominator(p, q) > 0) by (nonlinear_arith)
        requires
            q > 0,
    ;
    assert(up == 0 ==> up * up * up == 0) by (nonlinear_arith);
    assert(down == 0 ==> down * down * down == 0) by (nonlinear_arith);
}

/// In exact arithmetic the curve is the identity to first order: its value at
/// `x = p / q` differs from `x` by `-8 * x^3 / (27 + 9 * x^2)`, a term of third
/// order in `x`.
pub proof fn lemma_curve_near_identity(p: int, q: int)
    requires
        q > 0,
    ensures
        curve_numerator(p, q) * q - p * curve_denominator(p, q) == -8 * p * p * p * q,
{
    assert(curve_numerator(p, q) * q - p * curve_denominator(p, q) == -8 * p * p * p * q)
        by (nonlinear_arith);
}

/// Whatever the sample type's arithmetic gives between -3 and 3, beyond that
/// range the clipped value is the bound itself.
pub proof fn lemma_soft_clip_saturates<S: Sample>(x: S)
    ensures
        x.is_below(S::of_int((-3) as i32)) ==> soft_clip_value(x) == S::of_int((-1) as i32),
        !x.is_below(S::of_int((-3) as i32)) && S::of_int(3).is_below(x) ==> soft_clip_value(x)
            == S::of_int(1),
{
}

/// With whole-number samples every clipped value lies within -1 and 1.
pub proof fn lemma_soft_clip_bounded_i64(x: i64)
    ensures
        -1 <= soft_clip_value::<i64>(x) <= 1,
{
    if -3 <= x <= 3 {
        let square = x.product(x);
        assert(square == x * x) by (nonlinear_arith)
            requires
                -3 <= x <= 3,
                square == crate::sample::clamp_i64(x * x),
        ;
        assert(0 <= square <= 9) by (nonlinear_arith)
            requires
                -3 <= x <= 3,
                square == x * x,
        ;
        let inner = 27i64.sum(square);
        let numerator = x.product(inner);
        assert(numerator == x * inner && -108 <= numerator <= 108) by (nonlinear_arith)
            requires
                -3 <= x <= 3,
                27 <= inner <= 36,
                numerator == crate::sample::clamp_i64(x * inner),
        ;
        let nine = 9i64.product(x);
        let scaled = nine.product(x);
        assert(scaled == 9 * square) by (nonlinear_arith)
            requires
                -3 <= x <= 3,
                nine == 9 * x,
                square == x * x,
                scaled == crate::sample::clamp_i64(nine * x),
        ;
        let denominator = 27i64.sum(scaled);
        assert(numerator <= denominator && -numerator <= denominator) by (nonlinear_arith)
            requires
                -3 <= x <= 3,
                square == x * x,
                inner == 27 + square,
                numerator == x * inner,
                denominator == 27 + 9 * square,
        ;
        let size = crate::sample::magnitude(numerator as int);
        assert(0 <= size / (denominator as int) <= 1) by (nonlinear_arith)
            requires
                0 <= size <= denominator,
                denominator > 0,
        ;
    }
}

/// Soft limiting function.
pub fn soft_limit<S: Sample>(x: S) -> (y: S)
    ensures
        y == soft_limit_value(x),
{
    let numerator = x.times(S::from_int(27).plus(x.times(x)));
    let denominator = S::from_int(27).plus(S::from_int(9).times(x).times(x));
    numerator.over(denominator)
}

/// Soft clipping function with smooth limiting.
pub fn soft_clip<S: Sample>(x: S) -> (y: S)
    ensures
        y == soft_clip_value(x),
        x.is_below(S::of_int((-3) as i32)) ==> y == S::of_int((-1) as i32),
        !x.is_below(S::of_int((-3) as i32)) && S::of_int(3).is_below(x) ==> y == S::of_int(1),
{
    if x.below(S::from_int(-3)) {
        S::from_int(-1)
    } else if S::from_int(3).below(x) {
        S::from_int(1)
    } else {
        soft_limit(x)
    }
}

/// Soft clipping distortion: gentle saturation that bounds the amplitude.
pub struct SoftClipper {}

impl SoftClipper {
    /// A soft clipper.
    pub fn new() -> (node: Box<Self>) {
        Box::new(SoftClipper {  })
    }
}

impl Default for SoftClipper {
    fn default() -> (node: Self) {
        SoftClipper {  }
    }
}

impl<S: Sample> NetworkRealReal<S> for SoftClipper {
    open spec fn requirements(&self) -> BlockRequirements {
        BlockRequirements { input_size: BlockSize::Flexible, output_size: BlockSize::Flexible }
    }

    /// Always `Ready`; the output is the clipped input, cell by cell, wherever
    /// both buffers have the cell.
    open spec fn yields(
        &self,
        input: Seq<Seq<S>>,
        before: Seq<Seq<S>>,
        after: Seq<Seq<S>>,
        status: ProcessStatus,
    ) -> bool {
        &&& status == ProcessStatus::Ready
        &&& after == clipped(input, before)
    }

    fn process(&mut self, input: &Buffer<S>, output: &mut Buffer<S>) -> (status: ProcessStatus) {
        let channels = if input.channels() < output.channels() {
            input.channels()
        } else {
            output.channels()
        };
        let samples = if input.frames() < output.frames() {
            input.frames()
        } else {
            output.frames()
        };
        let ghost before = output@;
        let mut ch: usize = 0;
        while ch < channels
            invariant
                ch <= channels,
                channels <= input@.len(),
                channels <= output@.len(),
                samples <= input.frames,
                samples <= output.frames,
                input.wf(),
                output.wf(),
                output.frames == old(output).frames,
                output.room() == old(output).room(),
                output.data.len() == old(output).data.len(),
                before == old(output)@,
                forall|c: int, i: int|
                    0 <= c < before.len() && 0 <= i < before[c].len() ==> (#[trigger] output@[c][i])
                        == if c < ch && i < samples {
                        soft_clip_value(input@[c][i])
                    } else {
                        before[c][i]
                    },
            decreases channels - ch,
        {
            let mut i: usize = 0;
            while i < samples
                invariant
                    i <= samples,
                    ch < channels,
                    channels <= input@.len(),
                    channels <= output@.len(),
                    samples <= input.frames,
                    samples <= output.frames,
                    input.wf(),
                    output.wf(),
                    output.frames == old(output).frames,
                    output.room() == old(output).room(),
                    output.data.len() == old(output).data.len(),
                    before == old(output)@,
                    forall|c: int, j: int|
                        0 <= c < before.len() && 0 <= j < before[c].len() ==> (
                        #[trigger] output@[c][j]) == if (c < ch && j < samples) || (c == ch && j
                            < i) {
                            soft_clip_value(input@[c][j])
                        } else {
                            before[c][j]
                        },
                decreases samples - i,
            {
                let value = soft_clip(input.get(ch, i));
                output.set(ch, i, value);
                i += 1;
            }
            ch += 1;
        }
        assert(output@ =~~= clipped(input@, before));
        ProcessStatus::Ready
    }

    fn block_size(&self) -> (r: BlockRequirements) {
        BlockRequirements { input_size: BlockSize::Flexible, output_size: BlockSize::Flexible }
    }

    fn fits(&self, in_channels: usize, in_frames: usize, out_channels: usize, out_frames: usize) -> (ok:
        bool) {
        true
    }
}

} // verus!
