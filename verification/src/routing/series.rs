use crate::buffer::{frames_of, lemma_overlay_same_shape, overlay, same_shape, Buffer};
use crate::network::{
    lemma_granted_is_admitted, BlockRequirements, BlockSize, NetworkRealReal, ProcessStatus,
};
use crate::sample::Sample;
use vstd::prelude::*;

verus! {

/// The nodes of a chain and, for each, the buffer that it writes into.
#[verifier::reject_recursive_types(S)]
struct Stages<S> {
    sub_networks: Vec<Box<dyn NetworkRealReal<S>>>,
    intermediate_buffers: Vec<Buffer<S>>,
}

/// Series routing: a chain of nodes in which the output of each is the input
/// of the next.
///
/// Every stage writes into a buffer of its own, allocated at construction with
/// `max_channels` channels and room for `max_frame_len` frames. The frame
/// length that a stage's buffer carries in a call follows from the declared
/// output size of the stage's node and from the frame length it is fed.
#[verifier::reject_recursive_types(S)]
pub struct Series<S> {
    stages: Stages<S>,
    max_channels: usize,
    max_frame_len: usize,
}

/// The frame length that comes out of stage `k` of a chain whose nodes declare
/// the output sizes `sizes`, when the chain is fed `in_frames` frames and the
/// stages' buffers have `channels` channels. Before the first stage (`k` below
/// zero) it is the input's frame length; a buffer without channels has no frames.
pub open spec fn stage_frames(sizes: Seq<BlockSize>, channels: nat, k: int, in_frames: nat) -> nat
    decreases k + 1,
{
    if k < 0 {
        in_frames
    } else if channels == 0 {
        0
    } else {
        sizes[k].granted(stage_frames(sizes, channels, k - 1, in_frames))
    }
}

/// The frame length of every stage meets the output size that the stage's
/// node declares.
pub proof fn lemma_stage_frames_admitted(sizes: Seq<BlockSize>, channels: nat, k: int, in_frames: nat)
    requires
        0 <= k < sizes.len(),
        channels > 0,
    ensures
        sizes[k].admits(stage_frames(sizes, channels, k, in_frames)),
{
    lemma_granted_is_admitted(sizes[k], stage_frames(sizes, channels, k - 1, in_frames));
}

/// What stage `k` of a chain reads: the chain's input, or the output of the
/// stage before.
pub open spec fn stage_input<S>(input: Seq<Seq<S>>, outs: Seq<Seq<Seq<S>>>, k: int) -> Seq<Seq<S>> {
    if k == 0 {
        input
    } else {
        outs[k - 1]
    }
}

impl<S> Series<S> {
    #[verifier::type_invariant]
    spec fn well_formed(&self) -> bool {
        &&& self.stages.intermediate_buffers.len() == self.stages.sub_networks.len()
        &&& forall|k: int|
            0 <= k < self.stages.intermediate_buffers.len() ==> self.slot_ok(
                #[trigger] self.stages.intermediate_buffers[k],
            )
    }

    /// The number of nodes in the chain.
    pub open spec fn len(&self) -> nat {
        self.nodes().len()
    }

    /// The nodes of the chain, in order.
    pub closed spec fn nodes(&self) -> Seq<Box<dyn NetworkRealReal<S>>> {
        self.stages.sub_networks@
    }

    /// The buffers of the stages, in order.
    pub closed spec fn scratch(&self) -> Seq<Buffer<S>> {
        self.stages.intermediate_buffers@
    }

    /// The number of channels of every stage's buffer.
    pub closed spec fn channel_budget(&self) -> nat {
        self.max_channels as nat
    }

    /// The longest frame length that a stage's buffer can carry.
    pub closed spec fn frame_budget(&self) -> nat {
        self.max_frame_len as nat
    }

    /// The output sizes that the nodes declare.
    pub open spec fn output_sizes(&self) -> Seq<BlockSize> {
        Seq::new(self.len(), |k: int| self.nodes()[k].requirements().output_size)
    }

    /// The frame length after stage `k`, for an input of `in_frames` frames.
    pub open spec fn frames_after(&self, k: int, in_frames: nat) -> nat {
        stage_frames(self.output_sizes(), self.channel_budget(), k, in_frames)
    }

    /// The number of channels after stage `k`, for an input of `in_channels`
    /// channels.
    pub open spec fn channels_after(&self, k: int, in_channels: nat) -> nat {
        if k < 0 {
            in_channels
        } else {
            self.channel_budget()
        }
    }

    /// Whether stage `k` can run: the frame length it is fed meets the input
    /// size that its node declares, the frame length it gives is within the
    /// budget, and its node accepts both shapes.
    pub open spec fn stage_fits(&self, k: int, in_channels: nat, in_frames: nat) -> bool {
        &&& self.nodes()[k].requirements().input_size.admits(self.frames_after(k - 1, in_frames))
        &&& self.frames_after(k, in_frames) <= self.frame_budget()
        &&& self.nodes()[k].accepts(
            self.channels_after(k - 1, in_channels),
            self.frames_after(k - 1, in_frames),
            self.channel_budget(),
            self.frames_after(k, in_frames),
        )
    }

    /// What the buffer of stage `k` holds when its node is called, for an
    /// input of `in_frames` frames: the samples left there by earlier calls.
    pub open spec fn slot(&self, k: int, in_frames: nat) -> Seq<Seq<S>> {
        self.scratch()[k].at_frames(self.frames_after(k, in_frames))
    }

    /// Whether a buffer has the shape of this chain's stage buffers.
    pub open spec fn slot_ok(&self, b: Buffer<S>) -> bool {
        &&& b.wf()
        &&& b.room() == Seq::new(self.channel_budget(), |c: int| self.frame_budget())
    }

    /// Whether `next` is the chain after a call in which the first stages gave
    /// the outputs `outs`: each of those stages' buffers carries its output,
    /// and the stages that were not run are as they were, node and buffer.
    pub open spec fn left_as(&self, next: Self, outs: Seq<Seq<Seq<S>>>) -> bool {
        &&& next.len() == self.len()
        &&& next.scratch().len() == self.scratch().len()
        &&& next.channel_budget() == self.channel_budget()
        &&& next.frame_budget() == self.frame_budget()
        &&& forall|k: int|
            0 <= k < outs.len() ==> (#[trigger] next.scratch()[k])@ == outs[k]
                && next.scratch()[k].room() == self.scratch()[k].room()
        &&& forall|k: int|
            outs.len() <= k < self.len() ==> (#[trigger] next.scratch()[k]) == self.scratch()[k]
        &&& forall|k: int|
            outs.len() <= k < self.len() ==> (#[trigger] next.nodes()[k]) == self.nodes()[k]
    }

    /// Whether the first stages of the chain, run in order on `input`, may
    /// give the outputs `outs` with the statuses `sts`: each stage reads what
    /// the one before gave, and every stage but the last one run was `Ready`.
    pub open spec fn ran(
        &self,
        input: Seq<Seq<S>>,
        outs: Seq<Seq<Seq<S>>>,
        sts: Seq<ProcessStatus>,
    ) -> bool {
        &&& 1 <= outs.len() <= self.len()
        &&& sts.len() == outs.len()
        &&& forall|k: int|
            0 <= k < outs.len() ==> self.nodes()[k].yields(
                stage_input(input, outs, k),
                self.slot(k, frames_of(input)),
                #[trigger] outs[k],
                sts[k],
            )
        &&& forall|k: int| 0 <= k < outs.len() - 1 ==> #[trigger] sts[k] == ProcessStatus::Ready
    }
}

/// Two chains of the same budgets, whose nodes declare and accept the same,
/// accept the same.
proof fn lemma_accepts_alike<S: Copy + Send>(a: Series<S>, b: Series<S>)
    requires
        a.len() == b.len(),
        a.channel_budget() == b.channel_budget(),
        a.frame_budget() == b.frame_budget(),
        forall|k: int|
            0 <= k < a.len() ==> (#[trigger] a.nodes()[k]).requirements()
                == b.nodes()[k].requirements(),
        forall|k: int, ic: nat, il: nat, oc: nat, ol: nat|
            0 <= k < a.len() ==> #[trigger] a.nodes()[k].accepts(ic, il, oc, ol)
                == b.nodes()[k].accepts(ic, il, oc, ol),
    ensures
        forall|ic: nat, il: nat, oc: nat, ol: nat| #[trigger]
            a.accepts(ic, il, oc, ol) == b.accepts(ic, il, oc, ol),
{
    assert(a.output_sizes() =~= b.output_sizes());
    assert forall|ic: nat, il: nat, oc: nat, ol: nat| #[trigger]
        a.accepts(ic, il, oc, ol) == b.accepts(ic, il, oc, ol) by {
        assert forall|k: int|
            #![trigger a.stage_fits(k, ic, il)]
            #![trigger b.stage_fits(k, ic, il)]
            0 <= k < a.len() implies a.stage_fits(k, ic, il) == b.stage_fits(k, ic, il) by {
        }
    }
}

/// A chain without nodes is the identity: whatever it yields on an input and
/// an output of one shape is `Ready`, with the input as the output.
pub proof fn lemma_empty_series_is_identity<S: Copy + Send>(
    chain: Series<S>,
    input: Seq<Seq<S>>,
    before: Seq<Seq<S>>,
    after: Seq<Seq<S>>,
    status: ProcessStatus,
)
    requires
        chain.len() == 0,
        same_shape(before, input),
        chain.yields(input, before, after, status),
    ensures
        status == ProcessStatus::Ready,
        after == input,
{
    lemma_overlay_same_shape(before, input);
}

/// A chain stops at the first node that is not `Ready`: whatever it yields
/// with another status is that node's status, the nodes before it were
/// `Ready`, and the output is untouched.
pub proof fn lemma_series_propagates<S: Copy + Send>(
    chain: Series<S>,
    input: Seq<Seq<S>>,
    before: Seq<Seq<S>>,
    after: Seq<Seq<S>>,
    status: ProcessStatus,
)
    requires
        chain.yields(input, before, after, status),
        status != ProcessStatus::Ready,
    ensures
        after == before,
        exists|outs: Seq<Seq<Seq<S>>>, sts: Seq<ProcessStatus>| #[trigger]
            chain.ran(input, outs, sts) && sts[sts.len() - 1] == status,
{
}

impl<S: Sample> Series<S> {
    /// A chain of `networks` whose stage buffers have `max_channels` channels
    /// and room for `max_frame_len` frames, all silent.
    pub fn new(
        networks: Vec<Box<dyn NetworkRealReal<S>>>,
        max_channels: usize,
        max_frame_len: usize,
    ) -> (node: Box<Self>)
        ensures
            node.nodes() == networks@,
            node.scratch().len() == networks.len(),
            node.channel_budget() == max_channels,
            node.frame_budget() == max_frame_len,
            forall|k: int| 0 <= k < networks.len() ==> node.slot_ok(#[trigger] node.scratch()[k]),
            forall|k: int, c: int, i: int|
                0 <= k < networks.len() && 0 <= c < max_channels && 0 <= i < max_frame_len ==> (
                #[trigger] node.scratch()[k].data[c][i]) == S::of_int(0),
    {
        let num_networks = networks.len();
        let silence = S::from_int(0);
        let mut buffers: Vec<Buffer<S>> = Vec::new();
        let mut k: usize = 0;
        while k < num_networks
            invariant
                k <= num_networks,
                buffers.len() == k,
                silence == S::of_int(0),
                forall|j: int|
                    0 <= j < k ==> (#[trigger] buffers[j]).wf() && buffers[j].room() == Seq::new(
                        max_channels as nat,
                        |c: int| max_frame_len as nat,
                    ),
                forall|j: int, c: int, i: int|
                    0 <= j < k && 0 <= c < max_channels && 0 <= i < max_frame_len ==> (
                    #[trigger] buffers[j].data[c][i]) == silence,
            decreases num_networks - k,
        {
            let buffer = Buffer::new(max_channels, max_frame_len, silence);
            buffers.push(buffer);
            k += 1;
        }
        Box::new(
            Series {
                stages: Stages { sub_networks: networks, intermediate_buffers: buffers },
                max_channels,
                max_frame_len,
            },
        )
    }
}

impl<S: Copy + Send> NetworkRealReal<S> for Series<S> {
    open spec fn requirements(&self) -> BlockRequirements {
        BlockRequirements { input_size: BlockSize::Fixed(1), output_size: BlockSize::Fixed(1) }
    }

    /// An empty chain copies, and takes any input that is not longer than the
    /// output. Any other chain takes an output of at most the budget's
    /// channels, and an input on which every stage can run.
    open spec fn accepts(
        &self,
        in_channels: nat,
        in_frames: nat,
        out_channels: nat,
        out_frames: nat,
    ) -> bool {
        if self.len() == 0 {
            in_channels == 0 || out_channels == 0 || in_frames <= out_frames
        } else {
            &&& out_channels <= self.channel_budget()
            &&& forall|k: int|
                0 <= k < self.len() ==> #[trigger] self.stage_fits(k, in_channels, in_frames)
        }
    }

    /// An empty chain is `Ready` and copies the input over the output. Any
    /// other chain runs its stages in order until one is not `Ready`: it then
    /// returns that status and leaves the output as it was. When all were
    /// `Ready`, so is the chain, and the last stage's output is copied over the
    /// output.
    open spec fn yields(
        &self,
        input: Seq<Seq<S>>,
        before: Seq<Seq<S>>,
        after: Seq<Seq<S>>,
        status: ProcessStatus,
    ) -> bool {
        if self.len() == 0 {
            &&& status == ProcessStatus::Ready
            &&& after == overlay(before, input)
        } else {
            exists|outs: Seq<Seq<Seq<S>>>, sts: Seq<ProcessStatus>|
                {
                    &&& #[trigger] self.ran(input, outs, sts)
                    &&& status == sts[sts.len() - 1]
                    &&& if status == ProcessStatus::Ready {
                        &&& outs.len() == self.len()
                        &&& after == overlay(before, outs[outs.len() - 1])
                    } else {
                        after == before
                    }
                }
        }
    }

    fn process(&mut self, input: &Buffer<S>, output: &mut Buffer<S>) -> (status: ProcessStatus)
        ensures
            old(self).len() == 0 ==> old(self).left_as(*final(self), Seq::empty()),
            old(self).len() > 0 ==> exists|outs: Seq<Seq<Seq<S>>>, sts: Seq<ProcessStatus>|
                {
                    &&& #[trigger] old(self).ran(input@, outs, sts)
                    &&& status == sts[sts.len() - 1]
                    &&& status == ProcessStatus::Ready ==> outs.len() == old(self).len()
                        && final(output)@ == overlay(old(output)@, outs[outs.len() - 1])
                    &&& old(self).left_as(*final(self), outs)
                },
    {
        proof {
            use_type_invariant(&*self);
        }
        let mut stages = Stages { sub_networks: Vec::new(), intermediate_buffers: Vec::new() };
        core::mem::swap(&mut stages, &mut self.stages);
        let num_networks = stages.sub_networks.len();
        if num_networks == 0 {
            self.stages = stages;
            output.copy_from(input);
            return ProcessStatus::Ready;
        }
        let ghost in_channels = input@.len();
        let ghost in_frames = frames_of(input@);
        let ghost mut outs: Seq<Seq<Seq<S>>> = Seq::empty();
        let ghost mut sts: Seq<ProcessStatus> = Seq::empty();
        let mut frames = input.frames();
        let mut k: usize = 0;
        while k < num_networks
            invariant
                0 < num_networks == old(self).len(),
                k <= num_networks,
                stages.sub_networks.len() == num_networks,
                stages.intermediate_buffers.len() == num_networks,
                old(self).scratch().len() == num_networks,
                forall|j: int|
                    0 <= j < num_networks ==> old(self).slot_ok(#[trigger] old(self).scratch()[j]),
                self.max_channels == old(self).max_channels,
                self.max_frame_len == old(self).max_frame_len,
                input.wf(),
                *output == *old(output),
                output.wf(),
                in_channels == input@.len(),
                in_frames == frames_of(input@),
                forall|j: int|
                    0 <= j < num_networks ==> old(self).slot_ok(
                        #[trigger] stages.intermediate_buffers[j],
                    ),
                forall|j: int|
                    0 <= j < num_networks ==> (#[trigger] stages.sub_networks@[j]).requirements()
                        == old(self).nodes()[j].requirements(),
                forall|j: int, ic: nat, il: nat, oc: nat, ol: nat|
                    0 <= j < num_networks ==> #[trigger] stages.sub_networks@[j].accepts(
                        ic,
                        il,
                        oc,
                        ol,
                    ) == old(self).nodes()[j].accepts(ic, il, oc, ol),
                forall|j: int|
                    k <= j < num_networks ==> (#[trigger] stages.sub_networks@[j]) == old(self).nodes()[j],
                forall|j: int|
                    k <= j < num_networks ==> (#[trigger] stages.intermediate_buffers[j]) == old(
                        self,
                    ).scratch()[j],
                forall|j: int|
                    0 <= j < num_networks ==> #[trigger] old(self).stage_fits(
                        j,
                        in_channels,
                        in_frames,
                    ),
                outs.len() == k,
                sts.len() == k,
                forall|j: int| 0 <= j < k ==> #[trigger] sts[j] == ProcessStatus::Ready,
                forall|j: int|
                    0 <= j < k ==> old(self).nodes()[j].yields(
                        stage_input(input@, outs, j),
                        old(self).slot(j, in_frames),
                        #[trigger] outs[j],
                        sts[j],
                    ),
                forall|j: int|
                    0 <= j < k ==> (#[trigger] stages.intermediate_buffers[j])@ == outs[j],
                k > 0 ==> stages.intermediate_buffers[k - 1].frames == frames,
                frames == old(self).frames_after(k - 1, in_frames),
            decreases num_networks - k,
        {
            assert(old(self).stage_fits(k as int, in_channels, in_frames));
            let size = stages.sub_networks[k].block_size().output_size;
            let granted = size.frames_for(frames);
            let mut slot = Buffer::empty();
            core::mem::swap(&mut slot, &mut stages.intermediate_buffers[k]);
            assert(slot.data.len() == slot.room().len());
            slot.set_frames(granted);
            let status = if k == 0 {
                stages.sub_networks[k].process(input, &mut slot)
            } else {
                stages.sub_networks[k].process(&stages.intermediate_buffers[k - 1], &mut slot)
            };
            proof {
                outs = outs.push(slot@);
                sts = sts.push(status);
            }
            frames = slot.frames();
            core::mem::swap(&mut slot, &mut stages.intermediate_buffers[k]);
            if status != ProcessStatus::Ready {
                self.stages = stages;
                proof {
                    assert(old(self).ran(input@, outs, sts));
                    lemma_accepts_alike(*self, *old(self));
                }
                return status;
            }
            k += 1;
        }
        self.stages = stages;
        output.copy_from(&self.stages.intermediate_buffers[num_networks - 1]);
        proof {
            assert(old(self).ran(input@, outs, sts));
            lemma_accepts_alike(*self, *old(self));
        }
        ProcessStatus::Ready
    }

    fn block_size(&self) -> (r: BlockRequirements) {
        BlockRequirements { input_size: BlockSize::Fixed(1), output_size: BlockSize::Fixed(1) }
    }

    fn fits(&self, in_channels: usize, in_frames: usize, out_channels: usize, out_frames: usize) -> (ok:
        bool) {
        let num_networks = self.stages.sub_networks.len();
        if num_networks == 0 {
            return in_channels == 0 || out_channels == 0 || in_frames <= out_frames;
        }
        if out_channels > self.max_channels {
            return false;
        }
        let mut channels = in_channels;
        let mut frames = in_frames;
        let mut k: usize = 0;
        while k < num_networks
            invariant
                0 < num_networks == self.len(),
                k <= num_networks,
                channels == self.channels_after(k - 1, in_channels as nat),
                frames == self.frames_after(k - 1, in_frames as nat),
                forall|j: int|
                    0 <= j < k ==> #[trigger] self.stage_fits(j, in_channels as nat, in_frames as nat),
            decreases num_networks - k,
        {
            let declared = self.stages.sub_networks[k].block_size();
            let granted = if self.max_channels == 0 {
                0
            } else {
                declared.output_size.frames_for(frames)
            };
            if !declared.input_size.accepts_len(frames) || granted > self.max_frame_len
                || !self.stages.sub_networks[k].fits(channels, frames, self.max_channels, granted) {
                assert(!self.stage_fits(k as int, in_channels as nat, in_frames as nat));
                return false;
            }
            channels = self.max_channels;
            frames = granted;
            k += 1;
        }
        true
    }
}

} // verus!
