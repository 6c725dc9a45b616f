use crate::buffer::{frames_of, Buffer};
use crate::network::{BlockRequirements, BlockSize, NetworkRealReal, ProcessStatus};
use crate::sample::Sample;
use vstd::prelude::*;

verus! {

/// The sum of frame `i` over the first `n` channels of `input`, added up from
/// zero in the order of the channels.
pub open spec fn channel_sum<S: Sample>(input: Seq<Seq<S>>, i: int, n: int) -> S
    decreases n,
{
    if n <= 0 {
        S::of_int(0)
    } else {
        channel_sum(input, i, n - 1).sum(input[n - 1][i])
    }
}

/// The channel `row` with its first frames replaced by the sums over all
/// channels of `input`, as far as the input's frames reach.
pub open spec fn mixed_row<S: Sample>(input: Seq<Seq<S>>, row: Seq<S>) -> Seq<S> {
    Seq::new(
        row.len(),
        |i: int|
            if i < frames_of(input) {
                channel_sum(input, i, input.len() as int)
            } else {
                row[i]
            },
    )
}

/// Summing mixer: adds all input channels into the first output channel.
pub struct SummingMixer {}

impl SummingMixer {
    /// A summing mixer.
    pub fn new() -> (node: Box<Self>) {
        Box::new(SummingMixer {  })
    }
}

impl Default for SummingMixer {
    fn default() -> (node: Self) {
        SummingMixer {  }
    }
}

impl<S: Sample> NetworkRealReal<S> for SummingMixer {
    open spec fn requirements(&self) -> BlockRequirements {
        BlockRequirements { input_size: BlockSize::Flexible, output_size: BlockSize::Fixed(1) }
    }

    /// Always `Ready`. With an input channel and an output channel at hand, the
    /// first output channel gets the sums; everything else stays.
    open spec fn yields(
        &self,
        input: Seq<Seq<S>>,
        before: Seq<Seq<S>>,
        after: Seq<Seq<S>>,
        status: ProcessStatus,
    ) -> bool {
        &&& status == ProcessStatus::Ready
        &&& after == if input.len() == 0 || before.len() == 0 {
            before
        } else {
            before.update(0, mixed_row(input, before[0]))
        }
    }

    fn process(&mut self, input: &Buffer<S>, output: &mut Buffer<S>) -> (status: ProcessStatus) {
        if input.channels() == 0 || output.channels() == 0 || output.frames() == 0 {
            assert(input@.len() > 0 && output@.len() > 0 ==> output@ =~~= output@.update(
                0,
                mixed_row(input@, output@[0]),
            ));
            return ProcessStatus::Ready;
        }
        let channels = input.channels();
        let max_samples = if output.frames() < input.frames() {
            output.frames()
        } else {
            input.frames()
        };
        let mut i: usize = 0;
        while i < max_samples
            invariant
                i <= max_samples,
                max_samples <= input.frames,
                max_samples <= output.frames,
                channels == input@.len(),
                channels > 0,
                output@.len() > 0,
                input.wf(),
                output.wf(),
                output.frames == old(output).frames,
                output.room() == old(output).room(),
                output.data.len() == old(output).data.len(),
                forall|c: int| 0 < c < output@.len() ==> output@[c] == old(output)@[c],
                forall|j: int|
                    0 <= j < output.frames ==> (#[trigger] output@[0][j]) == if j < i {
                        channel_sum(input@, j, channels as int)
                    } else {
                        old(output)@[0][j]
                    },
            decreases max_samples - i,
        {
            let mut total = S::from_int(0);
            let mut ch: usize = 0;
            while ch < channels
                invariant
                    ch <= channels,
                    channels == input@.len(),
                    i < input.frames,
                    input.wf(),
                    total == channel_sum(input@, i as int, ch as int),
                decreases channels - ch,
            {
                total = total.plus(input.get(ch, i));
                ch += 1;
            }
            output.set(0, i, total);
            i += 1;
        }
        assert(output@ =~~= old(output)@.update(0, mixed_row(input@, old(output)@[0])));
        ProcessStatus::Ready
    }

    fn block_size(&self) -> (r: BlockRequirements) {
        BlockRequirements { input_size: BlockSize::Flexible, output_size: BlockSize::Fixed(1) }
    }

    fn fits(&self, in_channels: usize, in_frames: usize, out_channels: usize, out_frames: usize) -> (ok:
        bool) {
        true
    }
}

} // verus!
