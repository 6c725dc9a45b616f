use crate::buffer::Buffer;
use num::Complex;
use vstd::prelude::*;

verus! {

/// The complex number type of the `num` crate, `num::Complex`. Verus reads
/// its two public fields, the real part `re` and the imaginary part `im`, from
/// the crate's own definition; nothing else is claimed of it.
#[verifier::external_type_specification]
pub struct ExComplex<T>(Complex<T>);

/// `num::Complex::new` puts its two arguments into the fields `re` and `im`.
pub assume_specification<T>[ Complex::<T>::new ](re: T, im: T) -> (c: Complex<T>)
    ensures
        c.re == re,
        c.im == im,
;

/// Outcome of one `process` call.
#[derive(Debug, Clone, Copy, PartialEq, Eq, Structural)]
pub enum ProcessStatus {
    /// The full output was produced.
    Ready,
    /// Nothing could be produced until more upstream data arrives.
    NeedMoreInput { samples_needed: usize },
    /// Only a prefix of the requested output was produced.
    PartialOutput { frames_written: usize },
}

/// Constraint on a frame length.
#[derive(Debug, Clone, Copy, PartialEq, Eq, Structural)]
pub enum BlockSize {
    /// Any length is accepted.
    Flexible,
    /// Exactly this many samples.
    Fixed(usize),
    /// A multiple of this many samples.
    Multiple(usize),
}

/// What a node declares about the frame lengths it takes and gives.
#[derive(Debug, Clone, Copy, PartialEq, Eq, Structural)]
pub struct BlockRequirements {
    pub input_size: BlockSize,
    pub output_size: BlockSize,
}

impl BlockSize {
    /// Whether a frame length of `len` meets the constraint.
    pub open spec fn admits(self, len: nat) -> bool {
        match self {
            BlockSize::Flexible => true,
            BlockSize::Fixed(n) => len == n,
            BlockSize::Multiple(n) => if n == 0 {
                len == 0
            } else {
                len % (n as nat) == 0
            },
        }
    }

    /// The longest frame length that meets the constraint when `offered` frames
    /// are at hand; a fixed size is taken as it is.
    pub open spec fn granted(self, offered: nat) -> nat {
        match self {
            BlockSize::Flexible => offered,
            BlockSize::Fixed(n) => n as nat,
            BlockSize::Multiple(n) => if n == 0 {
                0
            } else {
                (offered - offered % (n as nat)) as nat
            },
        }
    }

    /// Whether a frame length of `len` meets the constraint.
    pub fn accepts_len(&self, len: usize) -> (ok: bool)
        ensures
            ok == self.admits(len as nat),
    {
        match self {
            BlockSize::Flexible => true,
            BlockSize::Fixed(n) => len == *n,
            BlockSize::Multiple(n) => if *n == 0 {
                len == 0
            } else {
                len % *n == 0
            },
        }
    }

    /// The frame length to use when `offered` frames are at hand.
    pub fn frames_for(&self, offered: usize) -> (len: usize)
        ensures
            len == self.granted(offered as nat),
    {
        match self {
            BlockSize::Flexible => offered,
            BlockSize::Fixed(n) => *n,
            BlockSize::Multiple(n) => if *n == 0 {
                0
            } else {
                proof {
                    vstd::arithmetic::div_mod::lemma_mod_decreases(offered as nat, *n as nat);
                }
                offered - offered % *n
            },
        }
    }
}

/// What is granted meets the constraint, and never exceeds what a flexible or
/// multiple constraint was offered.
pub proof fn lemma_granted_is_admitted(size: BlockSize, offered: nat)
    ensures
        size.admits(size.granted(offered)),
        !(size is Fixed) ==> size.granted(offered) <= offered,
        size.admits(offered) ==> size.granted(offered) == offered,
{
    if let BlockSize::Multiple(n) = size {
        if n != 0 {
            let m = n as int;
            let r = offered as int % m;
            assert(0 <= r < m) by (nonlinear_arith)
                requires
                    r == offered as int % m,
                    m > 0,
            ;
            vstd::arithmetic::div_mod::lemma_fundamental_div_mod(offered as int, m);
            assert((offered - r) % m == 0) by {
                vstd::arithmetic::div_mod::lemma_mod_multiples_basic(offered as int / m, m);
                assert(m * (offered as int / m) == (offered as int / m) * m) by (nonlinear_arith);
            }
        }
    }
}

/// The sample rate of the system: unset at first, set once, read-only after.
/// Setting takes the configuration exclusively, so of two writers one comes
/// first and wins.
pub struct SystemSampleRate<S> {
    rate: Option<S>,
}

/// What setting the rate to `rate` makes of a configuration that holds
/// `state`, and what the attempt returns: the first write wins, a later one is
/// handed back.
pub open spec fn after_set<S>(state: Option<S>, rate: S) -> (Option<S>, Result<(), S>) {
    match state {
        None => (Some(rate), Ok(())),
        Some(_) => (state, Err(rate)),
    }
}

/// After a set that succeeded, every further set fails, hands its rate back,
/// and leaves the rate of the first.
pub proof fn lemma_set_once<S>(state: Option<S>, first: S, second: S)
    requires
        after_set(state, first).1 is Ok,
    ensures
        after_set(after_set(state, first).0, second).1 == Err::<(), S>(second),
        after_set(after_set(state, first).0, second).0 == Some(first),
{
}

impl<S> View for SystemSampleRate<S> {
    type V = Option<S>;

    /// The rate, once set.
    closed spec fn view(&self) -> Option<S> {
        self.rate
    }
}

impl<S: Copy> SystemSampleRate<S> {
    /// A configuration whose rate is not set yet.
    pub fn new() -> (config: Self)
        ensures
            config@ is None,
    {
        SystemSampleRate { rate: None }
    }

    /// Sets the rate if none is set. Otherwise the configuration stays as it is
    /// and the rate comes back as the error.
    pub fn set(&mut self, rate: S) -> (r: Result<(), S>)
        ensures
            (final(self)@, r) == after_set(old(self)@, rate),
            r is Ok <==> old(self)@ is None,
    {
        match self.rate {
            None => {
                self.rate = Some(rate);
                Ok(())
            },
            Some(_) => Err(rate),
        }
    }

    /// The rate, if it is set.
    pub fn get(&self) -> (rate: Option<S>)
        ensures
            rate == self@,
    {
        self.rate
    }
}

/// A processing node from real samples to real samples.
///
/// A call of `process` reads `input`, writes into `output`, and says how far it
/// came. A node declares the block sizes it works with, accepts some shapes of
/// input and output (any other shape is a sizing error of the caller), and
/// stands for a relation between what goes in and what comes out. Each of
/// these has a spec function here; one left at its default claims nothing.
/// What a node declares and accepts stays the same over its lifetime.
pub trait NetworkRealReal<S>: Send {
    /// The block sizes that `block_size` declares.
    spec fn requirements(&self) -> BlockRequirements;

    /// Whether the node can be run on an input of `in_channels` channels of
    /// `in_frames` frames and an output of `out_channels` channels of
    /// `out_frames` frames.
    open spec fn accepts(
        &self,
        in_channels: nat,
        in_frames: nat,
        out_channels: nat,
        out_frames: nat,
    ) -> bool {
        true
    }

    /// Whether a call on `input`, with the output buffer holding `before`, may
    /// leave `after` in it and return `status`.
    open spec fn yields(
        &self,
        input: Seq<Seq<S>>,
        before: Seq<Seq<S>>,
        after: Seq<Seq<S>>,
        status: ProcessStatus,
    ) -> bool {
        true
    }

    fn process(&mut self, input: &Buffer<S>, output: &mut Buffer<S>) -> (status: ProcessStatus)
        requires
            input.wf(),
            old(output).wf(),
            old(self).accepts(
                input@.len(),
                input.frames as nat,
                old(output)@.len(),
                old(output).frames as nat,
            ),
        ensures
            final(self).requirements() == old(self).requirements(),
            forall|ic: nat, il: nat, oc: nat, ol: nat| #[trigger]
                final(self).accepts(ic, il, oc, ol) == old(self).accepts(ic, il, oc, ol),
            final(output).wf(),
            final(output).frames == old(output).frames,
            final(output).room() == old(output).room(),
            final(output).data.len() == old(output).data.len(),
            old(self).yields(input@, old(output)@, final(output)@, status),
    ;

    fn block_size(&self) -> (r: BlockRequirements)
        ensures
            r == self.requirements(),
    ;

    /// Tests at run time what `accepts` states.
    fn fits(&self, in_channels: usize, in_frames: usize, out_channels: usize, out_frames: usize) -> (ok:
        bool)
        ensures
            ok == self.accepts(
                in_channels as nat,
                in_frames as nat,
                out_channels as nat,
                out_frames as nat,
            ),
    ;
}

/// A processing node from real samples to complex samples.
pub trait NetworkRealComplex<S>: Send {
    /// The block sizes that `block_size` declares.
    spec fn requirements(&self) -> BlockRequirements;

    /// Whether the node can be run on buffers of these shapes.
    open spec fn accepts(
        &self,
        in_channels: nat,
        in_frames: nat,
        out_channels: nat,
        out_frames: nat,
    ) -> bool {
        true
    }

    /// Whether a call on `input`, with the output buffer holding `before`, may
    /// leave `after` in it and return `status`.
    open spec fn yields(
        &self,
        input: Seq<Seq<S>>,
        before: Seq<Seq<Complex<S>>>,
        after: Seq<Seq<Complex<S>>>,
        status: ProcessStatus,
    ) -> bool {
        true
    }

    fn process(&mut self, input: &Buffer<S>, output: &mut Buffer<Complex<S>>) -> (status:
        ProcessStatus)
        requires
            input.wf(),
            old(output).wf(),
            old(self).accepts(
                input@.len(),
                input.frames as nat,
                old(output)@.len(),
                old(output).frames as nat,
            ),
        ensures
            final(self).requirements() == old(self).requirements(),
            forall|ic: nat, il: nat, oc: nat, ol: nat| #[trigger]
                final(self).accepts(ic, il, oc, ol) == old(self).accepts(ic, il, oc, ol),
            final(output).wf(),
            final(output).frames == old(output).frames,
            final(output).room() == old(output).room(),
            final(output).data.len() == old(output).data.len(),
            old(self).yields(input@, old(output)@, final(output)@, status),
    ;

    fn block_size(&self) -> (r: BlockRequirements)
        ensures
            r == self.requirements(),
    ;

    /// Tests at run time what `accepts` states.
    fn fits(&self, in_channels: usize, in_frames: usize, out_channels: usize, out_frames: usize) -> (ok:
        bool)
        ensures
            ok == self.accepts(
                in_channels as nat,
                in_frames as nat,
                out_channels as nat,
                out_frames as nat,
            ),
    ;
}

/// A processing node from complex samples to complex samples.
pub trait NetworkComplexComplex<S>: Send {
    /// The block sizes that `block_size` declares.
    spec fn requirements(&self) -> BlockRequirements;

    /// Whether the node can be run on buffers of these shapes.
    open spec fn accepts(
        &self,
        in_channels: nat,
        in_frames: nat,
        out_channels: nat,
        out_frames: nat,
    ) -> bool {
        true
    }

    /// Whether a call on `input`, with the output buffer holding `before`, may
    /// leave `after` in it and return `status`.
    open spec fn yields(
        &self,
        input: Seq<Seq<Complex<S>>>,
        before: Seq<Seq<Complex<S>>>,
        after: Seq<Seq<Complex<S>>>,
        status: ProcessStatus,
    ) -> bool {
        true
    }

    fn process(&mut self, input: &Buffer<Complex<S>>, output: &mut Buffer<Complex<S>>) -> (status:
        ProcessStatus)
        requires
            input.wf(),
            old(output).wf(),
            old(self).accepts(
                input@.len(),
                input.frames as nat,
                old(output)@.len(),
                old(output).frames as nat,
            ),
        ensures
            final(self).requirements() == old(self).requirements(),
            forall|ic: nat, il: nat, oc: nat, ol: nat| #[trigger]
                final(self).accepts(ic, il, oc, ol) == old(self).accepts(ic, il, oc, ol),
            final(output).wf(),
            final(output).frames == old(output).frames,
            final(output).room() == old(output).room(),
            final(output).data.len() == old(output).data.len(),
            old(self).yields(input@, old(output)@, final(output)@, status),
    ;

    fn block_size(&self) -> (r: BlockRequirements)
        ensures
            r == self.requirements(),
    ;

    /// Tests at run time what `accepts` states.
    fn fits(&self, in_channels: usize, in_frames: usize, out_channels: usize, out_frames: usize) -> (ok:
        bool)
        ensures
            ok == self.accepts(
                in_channels as nat,
                in_frames as nat,
                out_channels as nat,
                out_frames as nat,
            ),
    ;
}

/// A processing node from complex samples to real samples.
pub trait NetworkComplexReal<S>: Send {
    /// The block sizes that `block_size` declares.
    spec fn requirements(&self) -> BlockRequirements;

    /// Whether the node can be run on buffers of these shapes.
    open spec fn accepts(
        &self,
        in_channels: nat,
        in_frames: nat,
        out_channels: nat,
        out_frames: nat,
    ) -> bool {
        true
    }

    /// Whether a call on `input`, with the output buffer holding `before`, may
    /// leave `after` in it and return `status`.
    open spec fn yields(
        &self,
        input: Seq<Seq<Complex<S>>>,
        before: Seq<Seq<S>>,
        after: Seq<Seq<S>>,
        status: ProcessStatus,
    ) -> bool {
        true
    }

    fn process(&mut self, input: &Buffer<Complex<S>>, output: &mut Buffer<S>) -> (status:
        ProcessStatus)
        requires
            input.wf(),
            old(output).wf(),
            old(self).accepts(
                input@.len(),
                input.frames as nat,
                old(output)@.len(),
                old(output).frames as nat,
            ),
        ensures
            final(self).requirements() == old(self).requirements(),
            forall|ic: nat, il: nat, oc: nat, ol: nat| #[trigger]
                final(self).accepts(ic, il, oc, ol) == old(self).accepts(ic, il, oc, ol),
            final(output).wf(),
            final(output).frames == old(output).frames,
            final(output).room() == old(output).room(),
            final(output).data.len() == old(output).data.len(),
            old(self).yields(input@, old(output)@, final(output)@, status),
    ;

    fn block_size(&self) -> (r: BlockRequirements)
        ensures
            r == self.requirements(),
    ;

    /// Tests at run time what `accepts` states.
    fn fits(&self, in_channels: usize, in_frames: usize, out_channels: usize, out_frames: usize) -> (ok:
        bool)
        ensures
            ok == self.accepts(
                in_channels as nat,
                in_frames as nat,
                out_channels as nat,
                out_frames as nat,
            ),
    ;
}

/// A node of any of the four domain pairs.
#[verifier::reject_recursive_types(T)]
pub enum Network<T> {
    RealReal(Box<dyn NetworkRealReal<T>>),
    RealComplex(Box<dyn NetworkRealComplex<T>>),
    ComplexComplex(Box<dyn NetworkComplexComplex<T>>),
    ComplexReal(Box<dyn NetworkComplexReal<T>>),
}

} // verus!
