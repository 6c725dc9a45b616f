use crate::buffer::Buffer;
use crate::network::{NetworkRealReal, ProcessStatus};
use crate::sample::Sample;
use vstd::prelude::*;

verus! {

/// The frames of an output stream, drawn one at a time from a network.
///
/// The network is run on one frame of silence per call and writes one frame
/// for the first two channels of the stream. A frame that the network did not
/// finish is replaced by silence, and so is every channel beyond the second.
pub struct FrameSource<S, N> {
    network: Box<N>,
    input: Buffer<S>,
    output: Buffer<S>,
    silence: S,
    channels: usize,
}

/// The number of channels that the network writes for a stream of `channels`
/// channels: at most two.
pub open spec fn fed_channels(channels: nat) -> nat {
    if channels < 2 {
        channels
    } else {
        2
    }
}

/// A block of `channels` channels of one frame, every sample `sample`.
pub open spec fn one_frame<S>(channels: nat, sample: S) -> Seq<Seq<S>> {
    Seq::new(channels, |c: int| Seq::new(1, |i: int| sample))
}

impl<S: Sample, N: NetworkRealReal<S>> FrameSource<S, N> {
    /// What `new` establishes and `advance` keeps: the buffers have the shapes
    /// that the stream asks for, and the network accepts them.
    pub closed spec fn wf(&self) -> bool {
        &&& self.channels > 0
        &&& self.input.wf()
        &&& self.input.frames == 1
        &&& self.input@ == one_frame(1, self.silence)
        &&& self.output.wf()
        &&& self.output@.len() == fed_channels(self.channels as nat)
        &&& self.output.frames == 1
        &&& self.network.accepts(1, 1, fed_channels(self.channels as nat), 1)
    }

    /// The network that the frames are drawn from, in its current state.
    pub closed spec fn network(&self) -> N {
        *self.network
    }

    /// The number of channels of the stream.
    pub closed spec fn channels(&self) -> nat {
        self.channels as nat
    }

    /// The sample that stands for silence.
    pub closed spec fn silence(&self) -> S {
        self.silence
    }

    /// The current frame: one sample for each channel that the network writes.
    pub closed spec fn frame(&self) -> Seq<Seq<S>> {
        self.output@
    }

    /// The sample of the current frame for channel `channel` of the stream.
    pub open spec fn sample_at(&self, channel: nat) -> S {
        if channel < self.frame().len() {
            self.frame()[channel as int][0]
        } else {
            self.silence()
        }
    }

    /// A source for a stream of `channels` channels, if there is a channel
    /// and the network accepts one frame of input and of output.
    pub fn new(network: Box<N>, channels: usize) -> (source: Option<Self>)
        ensures
            source is Some <==> channels > 0 && network.accepts(
                1,
                1,
                fed_channels(channels as nat),
                1,
            ),
            source matches Some(s) ==> {
                &&& s.wf()
                &&& s.network() == *network
                &&& s.channels() == channels
                &&& s.silence() == S::of_int(0)
                &&& s.frame() == one_frame(fed_channels(channels as nat), S::of_int(0))
            },
    {
        let fed = if channels < 2 {
            channels
        } else {
            2
        };
        if channels == 0 || !network.fits(1, 1, fed, 1) {
            return None;
        }
        let silence = S::from_int(0);
        let input = Buffer::new(1, 1, silence);
        let output = Buffer::new(fed, 1, silence);
        assert(input@ =~~= one_frame(1, silence));
        assert(output@ =~~= one_frame(fed as nat, silence));
        Some(FrameSource { network, input, output, silence, channels })
    }

    /// Draws the next frame. The network's status is returned; where it is not
    /// `Ready`, the frame is silence.
    pub fn advance(&mut self) -> (status: ProcessStatus)
        requires
            old(self).wf(),
        ensures
            final(self).wf(),
            final(self).channels() == old(self).channels(),
            final(self).silence() == old(self).silence(),
            final(self).frame().len() == fed_channels(old(self).channels()),
            forall|c: int|
                0 <= c < final(self).frame().len() ==> (#[trigger] final(self).frame()[c]).len()
                    == 1,
            exists|out: Seq<Seq<S>>|
                {
                    &&& #[trigger] old(self).network().yields(
                        one_frame(1, old(self).silence()),
                        old(self).frame(),
                        out,
                        status,
                    )
                    &&& final(self).frame() == if status == ProcessStatus::Ready {
                        out
                    } else {
                        one_frame(fed_channels(old(self).channels()), old(self).silence())
                    }
                },
    {
        let status = self.network.process(&self.input, &mut self.output);
        let ghost out = self.output@;
        assert(old(self).network().yields(
            one_frame(1, old(self).silence()),
            old(self).frame(),
            out,
            status,
        ));
        if status != ProcessStatus::Ready {
            let mut c: usize = 0;
            while c < self.output.channels()
                invariant
                    c <= self.output@.len(),
                    self.channels == old(self).channels,
                    self.silence == old(self).silence,
                    self.input == old(self).input,
                    forall|ic: nat, il: nat, oc: nat, ol: nat| #[trigger]
                        self.network.accepts(ic, il, oc, ol) == old(self).network.accepts(
                            ic,
                            il,
                            oc,
                            ol,
                        ),
                    self.output.wf(),
                    self.output.frames == 1,
                    self.output@.len() == out.len(),
                    forall|j: int| 0 <= j < c ==> (#[trigger] self.output@[j]) == seq![self.silence],
                decreases self.output@.len() - c,
            {
                self.output.set(c, 0, self.silence);
                c += 1;
            }
            assert(self.output@ =~~= one_frame(fed_channels(self.channels as nat), self.silence));
        }
        status
    }

    /// The sample of the current frame for channel `channel` of the stream:
    /// what the network wrote for the first two channels, silence for the rest.
    pub fn sample(&self, channel: usize) -> (s: S)
        requires
            self.wf(),
        ensures
            s == self.sample_at(channel as nat),
    {
        if channel < self.output.channels() {
            self.output.get(channel, 0)
        } else {
            self.silence
        }
    }
}

} // verus!
