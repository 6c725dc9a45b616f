use crate::buffer::{frames_of, overlay_row, Buffer};
use crate::network::{BlockRequirements, BlockSize, NetworkRealReal, ProcessStatus};
use crate::sample::Sample;
use vstd::prelude::*;

verus! {

/// The nodes of a fan-out and, for each, the buffer that it writes into.
#[verifier::reject_recursive_types(S)]
struct Lanes<S> {
    sub_networks: Vec<Box<dyn NetworkRealReal<S>>>,
    output_buffers: Vec<Buffer<S>>,
}

/// Parallel routing: every node gets the same input, and the output has one
/// channel per node.
///
/// Each node writes into a single-channel buffer of its own, allocated at
/// construction with room for `max_frame_len` frames. The frame length that a
/// node's buffer carries in a call follows from the output size that the node
/// declares and from the input's frame length.
#[verifier::reject_recursive_types(S)]
pub struct Parallel<S> {
    lanes: Lanes<S>,
    max_frame_len: usize,
}

/// The block `before` with channel `c` overlaid by the single channel of
/// `outs[c]`, for every `c` that both have.
pub open spec fn assembled<S>(before: Seq<Seq<S>>, outs: Seq<Seq<Seq<S>>>) -> Seq<Seq<S>> {
    Seq::new(
        before.len(),
        |c: int|
            if c < outs.len() {
                overlay_row(before[c], outs[c][0])
            } else {
                before[c]
            },
    )
}

/// Where the output's channel is as long as a node's output, the assembled
/// channel is that node's output.
pub proof fn lemma_assembled_channel<S>(before: Seq<Seq<S>>, outs: Seq<Seq<Seq<S>>>, c: int)
    requires
        0 <= c < before.len(),
        c < outs.len(),
        before[c].len() == outs[c][0].len(),
    ensures
        assembled(before, outs)[c] == outs[c][0],
{
}

impl<S> Parallel<S> {
    #[verifier::type_invariant]
    spec fn well_formed(&self) -> bool {
        &&& self.lanes.output_buffers.len() == self.lanes.sub_networks.len()
        &&& forall|k: int|
            0 <= k < self.lanes.output_buffers.len() ==> self.slot_ok(
                #[trigger] self.lanes.output_buffers[k],
            )
    }

    /// The nodes, in the order of the output's channels.
    pub closed spec fn nodes(&self) -> Seq<Box<dyn NetworkRealReal<S>>> {
        self.lanes.sub_networks@
    }

    /// The nodes' buffers, in order.
    pub closed spec fn scratch(&self) -> Seq<Buffer<S>> {
        self.lanes.output_buffers@
    }

    /// The longest frame length that a node's buffer can carry.
    pub closed spec fn frame_budget(&self) -> nat {
        self.max_frame_len as nat
    }

    /// The number of nodes.
    pub open spec fn len(&self) -> nat {
        self.nodes().len()
    }

    /// The frame length of node `k`'s output, for an input of `in_frames` frames.
    pub open spec fn lane_frames(&self, k: int, in_frames: nat) -> nat {
        self.nodes()[k].requirements().output_size.granted(in_frames)
    }

    /// Whether node `k` can run: the input's frame length meets the input size
    /// that it declares, the frame length it gives is within the budget, and
    /// it accepts both shapes.
    pub open spec fn lane_fits(&self, k: int, in_channels: nat, in_frames: nat) -> bool {
        &&& self.nodes()[k].requirements().input_size.admits(in_frames)
        &&& self.lane_frames(k, in_frames) <= self.frame_budget()
        &&& self.nodes()[k].accepts(in_channels, in_frames, 1, self.lane_frames(k, in_frames))
    }

    /// What the buffer of node `k` holds when the node is called, for an input
    /// of `in_frames` frames: the samples left there by earlier calls.
    pub open spec fn slot(&self, k: int, in_frames: nat) -> Seq<Seq<S>> {
        self.scratch()[k].at_frames(self.lane_frames(k, in_frames))
    }

    /// Whether a buffer has the shape of this fan-out's buffers.
    pub open spec fn slot_ok(&self, b: Buffer<S>) -> bool {
        &&& b.wf()
        &&& b.room() == Seq::new(1, |c: int| self.frame_budget())
    }

    /// Whether `next` is the fan-out after a call in which the first nodes gave
    /// the outputs `outs`: each of those nodes' buffers carries its output, and
    /// the nodes that were not run are as they were, node and buffer.
    pub open spec fn left_as(&self, next: Self, outs: Seq<Seq<Seq<S>>>) -> bool {
        &&& next.len() == self.len()
        &&& next.scratch().len() == self.scratch().len()
        &&& next.frame_budget() == self.frame_budget()
        &&& forall|k: int|
            0 <= k < outs.len() ==> (#[trigger] next.scratch()[k])@ == outs[k]
                && next.scratch()[k].room() == self.scratch()[k].room()
        &&& forall|k: int|
            outs.len() <= k < self.len() ==> (#[trigger] next.scratch()[k]) == self.scratch()[k]
        &&& forall|k: int|
            outs.len() <= k < self.len() ==> (#[trigger] next.nodes()[k]) == self.nodes()[k]
    }

    /// Whether the first nodes, each run on `input`, may give the outputs
    /// `outs` with the statuses `sts`, every node but the last one run being
    /// `Ready`.
    pub open spec fn ran(
        &self,
        input: Seq<Seq<S>>,
        outs: Seq<Seq<Seq<S>>>,
        sts: Seq<ProcessStatus>,
    ) -> bool {
        &&& 1 <= outs.len() <= self.len()
        &&& sts.len() == outs.len()
        &&& forall|k: int|
            0 <= k < outs.len() ==> self.nodes()[k].yields(
                input,
                self.slot(k, frames_of(input)),
                #[trigger] outs[k],
                sts[k],
            )
        &&& forall|k: int| 0 <= k < outs.len() ==> (#[trigger] outs[k]).len() == 1
        &&& forall|k: int| 0 <= k < outs.len() - 1 ==> #[trigger] sts[k] == ProcessStatus::Ready
    }
}

/// Two fan-outs of the same budget, whose nodes declare and accept the same,
/// accept the same.
proof fn lemma_accepts_alike<S: Copy + Send>(a: Parallel<S>, b: Parallel<S>)
    requires
        a.len() == b.len(),
        a.frame_budget() == b.frame_budget(),
        forall|k: int|
            0 <= k < a.len() ==> (#[trigger] a.nodes()[k]).requirements()
                == b.nodes()[k].requirements(),
        forall|k: int, ic: nat, il: nat, oc: nat, ol: nat|
            0 <= k < a.len() ==> #[trigger] a.nodes()[k].accepts(ic, il, oc, ol)
                == b.nodes()[k].accepts(ic, il, oc, ol),
    ensures
        forall|ic: nat, il: nat, oc: nat, ol: nat| #[trigger]
            a.accepts(ic, il, oc, ol) == b.accepts(ic, il, oc, ol),
{
    assert forall|ic: nat, il: nat, oc: nat, ol: nat| #[trigger]
        a.accepts(ic, il, oc, ol) == b.accepts(ic, il, oc, ol) by {
        assert forall|k: int|
            #![trigger a.lane_fits(k, ic, il)]
            #![trigger b.lane_fits(k, ic, il)]
            0 <= k < a.len() implies a.lane_fits(k, ic, il) == b.lane_fits(k, ic, il) by {
        }
    }
}

/// When a fan-out is `Ready`, every node was run on the same input and was
/// `Ready`, and channel `c` of the output is overlaid with the single channel
/// of node `c`'s output; where the two are of one length, it is that output.
pub proof fn lemma_parallel_channels<S: Copy + Send>(
    fan: Parallel<S>,
    input: Seq<Seq<S>>,
    before: Seq<Seq<S>>,
    after: Seq<Seq<S>>,
)
    requires
        fan.len() > 0,
        fan.yields(input, before, after, ProcessStatus::Ready),
    ensures
        exists|outs: Seq<Seq<Seq<S>>>|
            {
                &&& outs.len() == fan.len()
                &&& forall|k: int|
                    0 <= k < fan.len() ==> fan.nodes()[k].yields(
                        input,
                        fan.slot(k, frames_of(input)),
                        #[trigger] outs[k],
                        ProcessStatus::Ready,
                    )
                &&& after.len() == before.len()
                &&& forall|c: int|
                    0 <= c < before.len() ==> (#[trigger] after[c]) == if c < fan.len() {
                        overlay_row(before[c], outs[c][0])
                    } else {
                        before[c]
                    }
                &&& forall|c: int|
                    0 <= c < before.len() && c < fan.len() && before[c].len() == outs[c][0].len()
                        ==> (#[trigger] after[c]) == outs[c][0]
            },
{
    let (outs, sts) = choose|outs: Seq<Seq<Seq<S>>>, sts: Seq<ProcessStatus>|
        {
            &&& #[trigger] fan.ran(input, outs, sts)
            &&& sts[sts.len() - 1] == ProcessStatus::Ready
            &&& outs.len() == fan.len()
            &&& after == assembled(before, outs)
        };
}

impl<S: Sample> Parallel<S> {
    /// A fan-out over `networks` whose buffers have room for `max_frame_len`
    /// frames, all silent.
    pub fn new(networks: Vec<Box<dyn NetworkRealReal<S>>>, max_frame_len: usize) -> (node: Box<Self>)
        ensures
            node.nodes() == networks@,
            node.scratch().len() == networks.len(),
            node.frame_budget() == max_frame_len,
            forall|k: int| 0 <= k < networks.len() ==> node.slot_ok(#[trigger] node.scratch()[k]),
            forall|k: int, i: int|
                0 <= k < networks.len() && 0 <= i < max_frame_len ==> (
                #[trigger] node.scratch()[k].data[0][i]) == S::of_int(0),
    {
        let num_networks = networks.len();
        let silence = S::from_int(0);
        let mut buffers: Vec<Buffer<S>> = Vec::new();
        let mut k: usize = 0;
        while k < num_networks
            invariant
                k <= num_networks,
                buffers.len() == k,
                silence == S::of_int(0),
                forall|j: int|
                    0 <= j < k ==> (#[trigger] buffers[j]).wf() && buffers[j].room() == Seq::new(
                        1,
                        |c: int| max_frame_len as nat,
                    ),
                forall|j: int, i: int|
                    0 <= j < k && 0 <= i < max_frame_len ==> (#[trigger] buffers[j].data[0][i])
                        == silence,
            decreases num_networks - k,
        {
            let buffer = Buffer::new(1, max_frame_len, silence);
            buffers.push(buffer);
            k += 1;
        }
        Box::new(
            Parallel {
                lanes: Lanes { sub_networks: networks, output_buffers: buffers },
                max_frame_len,
            },
        )
    }
}

impl<S: Copy + Send> NetworkRealReal<S> for Parallel<S> {
    open spec fn requirements(&self) -> BlockRequirements {
        BlockRequirements { input_size: BlockSize::Fixed(1), output_size: BlockSize::Fixed(1) }
    }

    /// Every node must be able to run on the input.
    open spec fn accepts(
        &self,
        in_channels: nat,
        in_frames: nat,
        out_channels: nat,
        out_frames: nat,
    ) -> bool {
        forall|k: int| 0 <= k < self.len() ==> #[trigger] self.lane_fits(k, in_channels, in_frames)
    }

    /// Without nodes the call is `Ready` and leaves the output as it was.
    /// Otherwise the nodes are run in order, each on the same input, until one
    /// is not `Ready`: the call then returns that status and leaves the output
    /// as it was. When all were `Ready`, so is the call, and channel `c` of the
    /// output is overlaid with the output of node `c`.
    open spec fn yields(
        &self,
        input: Seq<Seq<S>>,
        before: Seq<Seq<S>>,
        after: Seq<Seq<S>>,
        status: ProcessStatus,
    ) -> bool {
        if self.len() == 0 {
            &&& status == ProcessStatus::Ready
            &&& after == before
        } else {
            exists|outs: Seq<Seq<Seq<S>>>, sts: Seq<ProcessStatus>|
                {
                    &&& #[trigger] self.ran(input, outs, sts)
                    &&& status == sts[sts.len() - 1]
                    &&& if status == ProcessStatus::Ready {
                        &&& outs.len() == self.len()
                        &&& after == assembled(before, outs)
                    } else {
                        after == before
                    }
                }
        }
    }

    fn process(&mut self, input: &Buffer<S>, output: &mut Buffer<S>) -> (status: ProcessStatus)
        ensures
            old(self).len() == 0 ==> old(self).left_as(*final(self), Seq::empty()),
            old(self).len() > 0 ==> exists|outs: Seq<Seq<Seq<S>>>, sts: Seq<ProcessStatus>|
                {
                    &&& #[trigger] old(self).ran(input@, outs, sts)
                    &&& status == sts[sts.len() - 1]
                    &&& status == ProcessStatus::Ready ==> outs.len() == old(self).len()
                        && final(output)@ == assembled(old(output)@, outs)
                    &&& old(self).left_as(*final(self), outs)
                },
    {
        proof {
            use_type_invariant(&*self);
        }
        let mut lanes = Lanes { sub_networks: Vec::new(), output_buffers: Vec::new() };
        core::mem::swap(&mut lanes, &mut self.lanes);
        let num_networks = lanes.sub_networks.len();
        if num_networks == 0 {
            self.lanes = lanes;
            return ProcessStatus::Ready;
        }
        let ghost in_channels = input@.len();
        let ghost in_frames = frames_of(input@);
        let ghost mut outs: Seq<Seq<Seq<S>>> = Seq::empty();
        let ghost mut sts: Seq<ProcessStatus> = Seq::empty();
        let frame_len = input.frames();
        let mut k: usize = 0;
        while k < num_networks
            invariant
                0 < num_networks == old(self).len(),
                k <= num_networks,
                lanes.sub_networks.len() == num_networks,
                lanes.output_buffers.len() == num_networks,
                old(self).scratch().len() == num_networks,
                forall|j: int|
                    0 <= j < num_networks ==> old(self).slot_ok(#[trigger] old(self).scratch()[j]),
                self.max_frame_len == old(self).max_frame_len,
                input.wf(),
                *output == *old(output),
                output.wf(),
                in_channels == input@.len(),
                in_frames == frames_of(input@),
                frame_len == in_frames,
                forall|j: int|
                    0 <= j < num_networks ==> old(self).slot_ok(#[trigger] lanes.output_buffers[j]),
                forall|j: int|
                    0 <= j < num_networks ==> (#[trigger] lanes.sub_networks@[j]).requirements()
                        == old(self).nodes()[j].requirements(),
                forall|j: int, ic: nat, il: nat, oc: nat, ol: nat|
                    0 <= j < num_networks ==> #[trigger] lanes.sub_networks@[j].accepts(
                        ic,
                        il,
                        oc,
                        ol,
                    ) == old(self).nodes()[j].accepts(ic, il, oc, ol),
                forall|j: int|
                    k <= j < num_networks ==> (#[trigger] lanes.sub_networks@[j]) == old(
                        self,
                    ).nodes()[j],
                forall|j: int|
                    k <= j < num_networks ==> (#[trigger] lanes.output_buffers[j]) == old(
                        self,
                    ).scratch()[j],
                forall|j: int|
                    0 <= j < num_networks ==> #[trigger] old(self).lane_fits(
                        j,
                        in_channels,
                        in_frames,
                    ),
                outs.len() == k,
                sts.len() == k,
                forall|j: int| 0 <= j < k ==> #[trigger] sts[j] == ProcessStatus::Ready,
                forall|j: int|
                    0 <= j < k ==> old(self).nodes()[j].yields(
                        input@,
                        old(self).slot(j, in_frames),
                        #[trigger] outs[j],
                        sts[j],
                    ),
                forall|j: int| 0 <= j < k ==> (#[trigger] lanes.output_buffers[j])@ == outs[j],
                forall|j: int| 0 <= j < k ==> (#[trigger] outs[j]).len() == 1,
            decreases num_networks - k,
        {
            assert(old(self).lane_fits(k as int, in_channels, in_frames));
            let size = lanes.sub_networks[k].block_size().output_size;
            let granted = size.frames_for(frame_len);
            let mut slot = Buffer::empty();
            core::mem::swap(&mut slot, &mut lanes.output_buffers[k]);
            assert(slot.data.len() == slot.room().len());
            slot.set_frames(granted);
            let status = lanes.sub_networks[k].process(input, &mut slot);
            proof {
                outs = outs.push(slot@);
                sts = sts.push(status);
            }
            core::mem::swap(&mut slot, &mut lanes.output_buffers[k]);
            if status != ProcessStatus::Ready {
                self.lanes = lanes;
                proof {
                    assert(old(self).ran(input@, outs, sts));
                    lemma_accepts_alike(*self, *old(self));
                }
                return status;
            }
            k += 1;
        }
        self.lanes = lanes;
        proof {
            lemma_accepts_alike(*self, *old(self));
        }
        let ghost left = *self;
        let channels = if output.channels() < num_networks {
            output.channels()
        } else {
            num_networks
        };
        let mut c: usize = 0;
        while c < channels
            invariant
                c <= channels,
                channels <= output@.len(),
                channels <= num_networks,
                num_networks == outs.len(),
                *self == left,
                self.lanes.output_buffers.len() == num_networks,
                forall|j: int|
                    0 <= j < num_networks ==> old(self).slot_ok(
                        #[trigger] self.lanes.output_buffers[j],
                    ),
                forall|j: int|
                    0 <= j < num_networks ==> (#[trigger] self.lanes.output_buffers[j])@ == outs[j],
                forall|j: int| 0 <= j < num_networks ==> (#[trigger] outs[j]).len() == 1,
                output.wf(),
                output.frames == old(output).frames,
                output.room() == old(output).room(),
                output.data.len() == old(output).data.len(),
                forall|j: int|
                    0 <= j < output@.len() ==> (#[trigger] output@[j]) == if j < c {
                        overlay_row(old(output)@[j], outs[j][0])
                    } else {
                        old(output)@[j]
                    },
            decreases channels - c,
        {
            output.copy_channel_from(c, &self.lanes.output_buffers[c], 0);
            c += 1;
        }
        proof {
            assert(output@ =~= assembled(old(output)@, outs));
            assert(old(self).ran(input@, outs, sts));
        }
        ProcessStatus::Ready
    }

    fn block_size(&self) -> (r: BlockRequirements) {
        BlockRequirements { input_size: BlockSize::Fixed(1), output_size: BlockSize::Fixed(1) }
    }

    fn fits(&self, in_channels: usize, in_frames: usize, out_channels: usize, out_frames: usize) -> (ok:
        bool) {
        let num_networks = self.lanes.sub_networks.len();
        let mut k: usize = 0;
        while k < num_networks
            invariant
                num_networks == self.len(),
                k <= num_networks,
                forall|j: int|
                    0 <= j < k ==> #[trigger] self.lane_fits(j, in_channels as nat, in_frames as nat),
            decreases num_networks - k,
        {
            let declared = self.lanes.sub_networks[k].block_size();
            let granted = declared.output_size.frames_for(in_frames);
            if !declared.input_size.accepts_len(in_frames) || granted > self.max_frame_len
                || !self.lanes.sub_networks[k].fits(in_channels, in_frames, 1, granted) {
                assert(!self.lane_fits(k as int, in_channels as nat, in_frames as nat));
                return false;
            }
            k += 1;
        }
        true
    }
}

} // verus!
