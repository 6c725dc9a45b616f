use crate::buffer::Buffer;
use crate::network::{
    BlockRequirements, BlockSize, NetworkRealReal, ProcessStatus, SystemSampleRate,
};
use crate::sample::Sample;
use vstd::prelude::*;

verus! {

/// Which half of the cycle the fast oscillator is in.
#[derive(Debug, Clone, Copy, PartialEq, Eq, Structural)]
pub enum Sign {
    Positive,
    Negative,
}

impl Sign {
    /// The other sign.
    pub open spec fn flipped(self) -> Sign {
        match self {
            Sign::Positive => Sign::Negative,
            Sign::Negative => Sign::Positive,
        }
    }

    /// The other sign.
    pub fn flip(&self) -> (r: Sign)
        ensures
            r == self.flipped(),
    {
        match self {
            Sign::Positive => Sign::Negative,
            Sign::Negative => Sign::Positive,
        }
    }
}

/// Flipping twice gives the sign back.
pub proof fn lemma_flip_twice(sign: Sign)
    ensures
        sign.flipped().flipped() == sign,
        sign.flipped() != sign,
{
}

/// Fast sine oscillator: a parabola per half cycle in place of the sine. Cheap,
/// and good for modulation rates; not a clean sine.
pub struct FastSineOsc<S> {
    phase: S,
    phase_increment: S,
    sign: Sign,
}

/// The block `before` with the first sample of the first channel replaced by
/// `sample`, where there is such a sample.
pub open spec fn with_first_sample<S>(before: Seq<Seq<S>>, sample: S) -> Seq<Seq<S>> {
    if before.len() == 0 || before[0].len() == 0 {
        before
    } else {
        before.update(0, before[0].update(0, sample))
    }
}

impl<S: Sample> FastSineOsc<S> {
    /// The phase, which runs from -1 up to 1.
    pub closed spec fn phase(&self) -> S {
        self.phase
    }

    /// What one sample adds to the phase.
    pub closed spec fn step(&self) -> S {
        self.phase_increment
    }

    pub closed spec fn sign(&self) -> Sign {
        self.sign
    }

    /// The sample at the current phase: `phase * phase - 1` in the positive
    /// half, `-(phase * phase) + 1` in the negative half.
    pub open spec fn sample_value(&self) -> S {
        match self.sign() {
            Sign::Positive => self.phase().product(self.phase()).difference(S::of_int(1)),
            Sign::Negative => self.phase().product(self.phase()).negation().sum(S::of_int(1)),
        }
    }

    /// Whether the next step takes the phase to 1 or beyond.
    pub open spec fn wraps(&self) -> bool {
        self.phase().sum(self.step()).is_at_least(S::of_int(1))
    }

    /// The phase after one step, brought back by 2 where it wraps.
    pub open spec fn next_phase(&self) -> S {
        if self.wraps() {
            self.phase().sum(self.step()).difference(S::of_int(2))
        } else {
            self.phase().sum(self.step())
        }
    }

    /// The sign after one step: the other one where the phase wraps.
    pub open spec fn next_sign(&self) -> Sign {
        if self.wraps() {
            self.sign().flipped()
        } else {
            self.sign()
        }
    }

    /// An oscillator of `frequency`, at the start of its positive half. The
    /// sample rate must have been set.
    pub fn new(frequency: S, config: &SystemSampleRate<S>) -> (node: Box<Self>)
        requires
            config@ is Some,
        ensures
            node.phase() == S::of_int((-1) as i32),
            node.step() == frequency.product(S::of_int(4)).quotient(config@.unwrap()),
            node.sign() == Sign::Positive,
    {
        let sample_rate = config.get().unwrap();
        Box::new(
            FastSineOsc {
                phase_increment: frequency.times(S::from_int(4)).over(sample_rate),
                phase: S::from_int(-1),
                sign: Sign::Positive,
            },
        )
    }
}

impl<S: Sample> NetworkRealReal<S> for FastSineOsc<S> {
    open spec fn requirements(&self) -> BlockRequirements {
        BlockRequirements { input_size: BlockSize::Fixed(1), output_size: BlockSize::Fixed(1) }
    }

    /// Always `Ready`; the sample at the current phase goes to the first
    /// sample of the first output channel.
    open spec fn yields(
        &self,
        input: Seq<Seq<S>>,
        before: Seq<Seq<S>>,
        after: Seq<Seq<S>>,
        status: ProcessStatus,
    ) -> bool {
        &&& status == ProcessStatus::Ready
        &&& after == with_first_sample(before, self.sample_value())
    }

    fn process(&mut self, input: &Buffer<S>, output: &mut Buffer<S>) -> (status: ProcessStatus)
        ensures
            final(self).step() == old(self).step(),
            old(output)@.len() == 0 || old(output).frames == 0 ==> final(self).phase() == old(
                self,
            ).phase() && final(self).sign() == old(self).sign(),
            old(output)@.len() > 0 && old(output).frames > 0 ==> final(self).phase() == old(
                self,
            ).next_phase() && final(self).sign() == old(self).next_sign(),
    {
        if output.channels() == 0 || output.frames() == 0 {
            return ProcessStatus::Ready;
        }
        let current_phase = self.phase;
        let sample = match self.sign {
            Sign::Positive => current_phase.times(current_phase).minus(S::from_int(1)),
            Sign::Negative => current_phase.times(current_phase).negate().plus(S::from_int(1)),
        };
        let mut new_phase = current_phase.plus(self.phase_increment);
        if new_phase.at_least(S::from_int(1)) {
            new_phase = new_phase.minus(S::from_int(2));
            self.sign = self.sign.flip();
        }
        self.phase = new_phase;
        output.set(0, 0, sample);
        ProcessStatus::Ready
    }

    fn block_size(&self) -> (r: BlockRequirements) {
        BlockRequirements { input_size: BlockSize::Fixed(1), output_size: BlockSize::Fixed(1) }
    }

    fn fits(&self, in_channels: usize, in_frames: usize, out_channels: usize, out_frames: usize) -> (ok:
        bool) {
        true
    }
}

} // verus!
