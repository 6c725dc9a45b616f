use crate::buffer::Buffer;
use crate::network::{
    BlockRequirements, BlockSize, NetworkRealReal, ProcessStatus, SystemSampleRate,
};
use crate::oscillators::fast_sine_osc::with_first_sample;
use crate::sample::{Sample, Trig};
use vstd::prelude::*;

verus! {

/// Sine oscillator: the sine of a phase that advances by a fixed angle per
/// sample.
pub struct SineOsc<S> {
    phase: S,
    phase_increment: S,
}

/// The angle of a full turn, twice `pi`.
pub open spec fn full_turn<S: Trig>() -> S {
    S::of_int(2).product(S::pi_value())
}

/// Every sample that the oscillator writes lies within -1 and 1.
pub proof fn lemma_sine_osc_is_bounded<S: Trig>(
    osc: SineOsc<S>,
    input: Seq<Seq<S>>,
    before: Seq<Seq<S>>,
    after: Seq<Seq<S>>,
    status: ProcessStatus,
)
    requires
        osc.yields(input, before, after, status),
        before.len() > 0,
        before[0].len() > 0,
    ensures
        !after[0][0].is_below(S::of_int((-1) as i32)),
        !S::of_int(1).is_below(after[0][0]),
{
    S::sine_is_bounded(osc.phase());
}

impl<S: Trig> SineOsc<S> {
    /// The phase, an angle in radians from 0 up to a full turn.
    pub closed spec fn phase(&self) -> S {
        self.phase
    }

    /// The angle that one sample adds to the phase.
    pub closed spec fn step(&self) -> S {
        self.phase_increment
    }

    /// Whether the next step takes the phase to a full turn or beyond.
    pub open spec fn wraps(&self) -> bool {
        self.phase().sum(self.step()).is_at_least(full_turn::<S>())
    }

    /// The phase after one step, brought back by a full turn where it wraps.
    pub open spec fn next_phase(&self) -> S {
        if self.wraps() {
            self.phase().sum(self.step()).difference(full_turn::<S>())
        } else {
            self.phase().sum(self.step())
        }
    }

    /// An oscillator of `frequency`, at phase zero. The sample rate must have
    /// been set.
    pub fn new(frequency: S, config: &SystemSampleRate<S>) -> (node: Box<Self>)
        requires
            config@ is Some,
        ensures
            node.phase() == S::of_int(0),
            node.step() == frequency.product(S::of_int(2)).product(S::pi_value()).quotient(
                config@.unwrap(),
            ),
    {
        let sample_rate = config.get().unwrap();
        Box::new(
            SineOsc {
                phase_increment: frequency.times(S::from_int(2)).times(S::pi()).over(sample_rate),
                phase: S::from_int(0),
            },
        )
    }
}

impl<S: Trig> NetworkRealReal<S> for SineOsc<S> {
    open spec fn requirements(&self) -> BlockRequirements {
        BlockRequirements { input_size: BlockSize::Fixed(1), output_size: BlockSize::Fixed(1) }
    }

    /// Always `Ready`; the sine of the current phase goes to the first sample
    /// of the first output channel.
    open spec fn yields(
        &self,
        input: Seq<Seq<S>>,
        before: Seq<Seq<S>>,
        after: Seq<Seq<S>>,
        status: ProcessStatus,
    ) -> bool {
        &&& status == ProcessStatus::Ready
        &&& after == with_first_sample(before, self.phase().sine())
    }

    fn process(&mut self, input: &Buffer<S>, output: &mut Buffer<S>) -> (status: ProcessStatus)
        ensures
            final(self).step() == old(self).step(),
            old(output)@.len() == 0 || old(output).frames == 0 ==> final(self).phase() == old(
                self,
            ).phase(),
            old(output)@.len() > 0 && old(output).frames > 0 ==> final(self).phase() == old(
                self,
            ).next_phase(),
    {
        if output.channels() == 0 || output.frames() == 0 {
            return ProcessStatus::Ready;
        }
        let current_phase = self.phase;
        let sample = current_phase.sin();
        let mut new_phase = current_phase.plus(self.phase_increment);
        let turn = S::from_int(2).times(S::pi());
        if new_phase.at_least(turn) {
            new_phase = new_phase.minus(turn);
        }
        self.phase = new_phase;
        output.set(0, 0, sample);
        ProcessStatus::Ready
    }

    fn block_size(&self) -> (r: BlockRequirements) {
        BlockRequirements { input_size: BlockSize::Fixed(1), output_size: BlockSize::Fixed(1) }
    }

    fn fits(&self, in_channels: usize, in_frames: usize, out_channels: usize, out_frames: usize) -> (ok:
        bool) {
        true
    }
}

} // verus!
