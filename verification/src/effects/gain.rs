use crate::buffer::Buffer;
use crate::network::{BlockRequirements, BlockSize, NetworkRealReal, ProcessStatus};
use crate::sample::Sample;
use vstd::prelude::*;

verus! {

/// Gain control: multiplies every sample by one factor.
pub struct Gain<S> {
    gain: S,
}

/// `before` with every cell that `input` also has replaced by the input sample
/// times `factor`.
pub open spec fn scaled<S: Sample>(input: Seq<Seq<S>>, before: Seq<Seq<S>>, factor: S) -> Seq<
    Seq<S>,
> {
    Seq::new(
        before.len(),
        |c: int|
            Seq::new(
                before[c].len(),
                |i: int|
                    if c < input.len() && i < input[c].len() {
                        input[c][i].product(factor)
                    } else {
                        before[c][i]
                    },
            ),
    )
}

/// With whole-number samples a gain of zero gives silence, a gain of one the
/// sample itself and a gain of minus one its negative; any gain is exact
/// where the product is within the range of the samples.
pub proof fn lemma_whole_gain(x: i64, k: i64)
    ensures
        x.product(0) == 0,
        x.product(1) == x,
        x > i64::MIN ==> x.product((-1) as i64) == -x,
        i64::MIN <= x * k <= i64::MAX ==> x.product(k) == x * k,
{
    let minus_one = (-1) as i64;
    assert(x * minus_one == -x) by (nonlinear_arith)
        requires
            minus_one == -1,
    ;
}

impl<S: Sample> Gain<S> {
    /// The factor in use.
    pub closed spec fn factor(&self) -> S {
        self.gain
    }

    /// A gain of the factor `gain`: 1 leaves the signal, 0 silences it, a
    /// negative factor inverts it.
    pub fn new(gain: S) -> (node: Box<Self>)
        ensures
            node.factor() == gain,
    {
        Box::new(Gain { gain })
    }

    /// Changes the factor.
    pub fn set_gain(&mut self, gain: S)
        ensures
            final(self).factor() == gain,
    {
        self.gain = gain;
    }

    /// The factor in use.
    pub fn get_gain(&self) -> (gain: S)
        ensures
            gain == self.factor(),
    {
        self.gain
    }
}

impl<S: Sample> NetworkRealReal<S> for Gain<S> {
    open spec fn requirements(&self) -> BlockRequirements {
        BlockRequirements { input_size: BlockSize::Flexible, output_size: BlockSize::Flexible }
    }

    /// Always `Ready`; the output is the input times the factor, cell by cell,
    /// wherever both buffers have the cell.
    open spec fn yields(
        &self,
        input: Seq<Seq<S>>,
        before: Seq<Seq<S>>,
        after: Seq<Seq<S>>,
        status: ProcessStatus,
    ) -> bool {
        &&& status == ProcessStatus::Ready
        &&& after == scaled(input, before, self.factor())
    }

    fn process(&mut self, input: &Buffer<S>, output: &mut Buffer<S>) -> (status: ProcessStatus)
        ensures
            final(self).factor() == old(self).factor(),
    {
        let channels = if input.channels() < output.channels() {
            input.channels()
        } else {
            output.channels()
        };
        let samples = if input.frames() < output.frames() {
            input.frames()
        } else {
            output.frames()
        };
        let ghost before = output@;
        let mut ch: usize = 0;
        while ch < channels
            invariant
                ch <= channels,
                channels <= input@.len(),
                channels <= output@.len(),
                samples <= input.frames,
                samples <= output.frames,
                input.wf(),
                output.wf(),
                output.frames == old(output).frames,
                output.room() == old(output).room(),
                output.data.len() == old(output).data.len(),
                before == old(output)@,
                forall|c: int, i: int|
                    0 <= c < before.len() && 0 <= i < before[c].len() ==> (#[trigger] output@[c][i])
                        == if c < ch && i < samples {
                        input@[c][i].product(self.gain)
                    } else {
                        before[c][i]
                    },
            decreases channels - ch,
        {
            let mut i: usize = 0;
            while i < samples
                invariant
                    i <= samples,
                    ch < channels,
                    channels <= input@.len(),
                    channels <= output@.len(),
                    samples <= input.frames,
                    samples <= output.frames,
                    input.wf(),
                    output.wf(),
                    output.frames == old(output).frames,
                    output.room() == old(output).room(),
                    output.data.len() == old(output).data.len(),
                output.data.len() == old(output).data.len(),
                    before == old(output)@,
                    forall|c: int, j: int|
                        0 <= c < before.len() && 0 <= j < before[c].len() ==> (
                        #[trigger] output@[c][j]) == if (c < ch && j < samples) || (c == ch && j
                            < i) {
                            input@[c][j].product(self.gain)
                        } else {
                            before[c][j]
                        },
                decreases samples - i,
            {
                let value = input.get(ch, i).times(self.gain);
                output.set(ch, i, value);
                i += 1;
            }
            ch += 1;
        }
        assert(output@ =~~= scaled(input@, before, self.gain));
        ProcessStatus::Ready
    }

    fn block_size(&self) -> (r: BlockRequirements) {
        BlockRequirements { input_size: BlockSize::Flexible, output_size: BlockSize::Flexible }
    }

    fn fits(&self, in_channels: usize, in_frames: usize, out_channels: usize, out_frames: usize) -> (ok:
        bool) {
        true
    }
}

} // verus!
