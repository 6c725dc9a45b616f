use vstd::prelude::*;

verus! {

/// A multi-channel block of samples: every channel holds the same number of
/// frames. The storage of a channel may be longer than the frame length in use,
/// so that a buffer allocated once can carry blocks of different lengths.
pub struct Buffer<S> {
    pub data: Vec<Vec<S>>,
    pub frames: usize,
}

/// The channel `base` with its first samples replaced by those of `src`, as far
/// as both reach.
pub open spec fn overlay_row<S>(base: Seq<S>, src: Seq<S>) -> Seq<S> {
    Seq::new(
        base.len(),
        |i: int|
            if i < src.len() {
                src[i]
            } else {
                base[i]
            },
    )
}

/// The block `base` with every sample that `src` also has replaced by the
/// sample of `src`.
pub open spec fn overlay<S>(base: Seq<Seq<S>>, src: Seq<Seq<S>>) -> Seq<Seq<S>> {
    Seq::new(
        base.len(),
        |c: int|
            if c < src.len() {
                overlay_row(base[c], src[c])
            } else {
                base[c]
            },
    )
}

/// Whether `a` and `b` have the same number of channels and, channel by channel,
/// the same number of frames.
pub open spec fn same_shape<S>(a: Seq<Seq<S>>, b: Seq<Seq<S>>) -> bool {
    &&& a.len() == b.len()
    &&& forall|c: int| 0 <= c < a.len() ==> (#[trigger] a[c]).len() == b[c].len()
}

/// The frame length of a block: that of its first channel, zero without one.
pub open spec fn frames_of<S>(block: Seq<Seq<S>>) -> nat {
    if block.len() == 0 {
        0
    } else {
        block[0].len()
    }
}

/// Copying a block over another of the same shape leaves the copied block.
pub proof fn lemma_overlay_same_shape<S>(base: Seq<Seq<S>>, src: Seq<Seq<S>>)
    requires
        same_shape(base, src),
    ensures
        overlay(base, src) == src,
{
    assert forall|c: int| 0 <= c < base.len() implies #[trigger] overlay(base, src)[c] == src[c] by {
    }
}

impl<S> View for Buffer<S> {
    type V = Seq<Seq<S>>;

    /// The block in use: one sequence of `frames` samples per channel.
    open spec fn view(&self) -> Seq<Seq<S>> {
        Seq::new(
            self.data.len() as nat,
            |c: int| Seq::new(self.frames as nat, |i: int| self.data[c][i]),
        )
    }
}

impl<S> Buffer<S> {
    /// Every channel has room for the frames in use, and a buffer without
    /// channels has no frames.
    pub open spec fn wf(&self) -> bool {
        &&& self.data.len() == 0 ==> self.frames == 0
        &&& forall|c: int| 0 <= c < self.data.len() ==> self.frames <= (#[trigger] self.data[c]).len()
    }

    /// How many frames each channel has room for.
    pub open spec fn room(&self) -> Seq<nat> {
        Seq::new(self.data.len() as nat, |c: int| self.data[c].len() as nat)
    }

    /// The block that the buffer would carry at a frame length of `frames`.
    pub open spec fn at_frames(&self, frames: nat) -> Seq<Seq<S>> {
        Seq::new(self.data.len() as nat, |c: int| Seq::new(frames, |i: int| self.data[c][i]))
    }

    /// A buffer without channels.
    pub fn empty() -> (b: Self)
        ensures
            b.wf(),
            b@.len() == 0,
            b.frames == 0,
    {
        Buffer { data: Vec::new(), frames: 0 }
    }

    /// The number of channels.
    pub fn channels(&self) -> (n: usize)
        ensures
            n == self@.len(),
            n == self.data.len(),
    {
        self.data.len()
    }

    /// The frame length in use, the same for every channel.
    pub fn frames(&self) -> (n: usize)
        ensures
            n == self.frames,
            self.wf() ==> n == frames_of(self@),
            forall|c: int| 0 <= c < self@.len() ==> (#[trigger] self@[c]).len() == n,
    {
        self.frames
    }

    /// Whether every channel has room for `frames` frames.
    pub fn has_room(&self, frames: usize) -> (ok: bool)
        ensures
            ok == forall|c: int| 0 <= c < self.data.len() ==> frames <= (#[trigger] self.room()[c]),
    {
        let mut c: usize = 0;
        while c < self.data.len()
            invariant
                c <= self.data.len(),
                forall|k: int| 0 <= k < c ==> frames <= (#[trigger] self.room()[k]),
            decreases self.data.len() - c,
        {
            if self.data[c].len() < frames {
                assert(self.room()[c as int] < frames);
                return false;
            }
            c += 1;
        }
        true
    }

    /// Changes the frame length in use; the stored samples stay. A buffer
    /// without channels keeps a frame length of zero.
    pub fn set_frames(&mut self, frames: usize)
        requires
            forall|c: int| 0 <= c < old(self).data.len() ==> frames <= (#[trigger] old(self).room()[c]),
        ensures
            final(self).data == old(self).data,
            final(self).frames == if old(self).data.len() == 0 {
                0
            } else {
                frames
            },
            final(self).wf(),
    {
        if self.data.len() == 0 {
            self.frames = 0;
        } else {
            self.frames = frames;
        }
        assert forall|c: int| 0 <= c < self.data.len() implies self.frames <= (
        #[trigger] self.data[c]).len() by {
            assert(frames <= old(self).room()[c]);
        }
    }
}

impl<S: Copy> Buffer<S> {
    /// A buffer of `channels` channels with room for `frames` frames, all in
    /// use and every sample `fill`.
    pub fn new(channels: usize, frames: usize, fill: S) -> (b: Self)
        ensures
            b.wf(),
            b@.len() == channels,
            b.frames == if channels == 0 {
                0
            } else {
                frames
            },
            forall|c: int| 0 <= c < channels ==> (#[trigger] b.data[c]).len() == frames,
            forall|c: int, i: int|
                0 <= c < channels && 0 <= i < frames ==> (#[trigger] b.data[c][i]) == fill,
    {
        let mut data: Vec<Vec<S>> = Vec::new();
        let mut c: usize = 0;
        while c < channels
            invariant
                c <= channels,
                data.len() == c,
                forall|k: int| 0 <= k < c ==> (#[trigger] data[k]).len() == frames,
                forall|k: int, i: int|
                    0 <= k < c && 0 <= i < frames ==> (#[trigger] data[k][i]) == fill,
            decreases channels - c,
        {
            let mut channel: Vec<S> = Vec::new();
            let mut i: usize = 0;
            while i < frames
                invariant
                    i <= frames,
                    channel.len() == i,
                    forall|j: int| 0 <= j < i ==> channel[j] == fill,
                decreases frames - i,
            {
                channel.push(fill);
                i += 1;
            }
            data.push(channel);
            c += 1;
        }
        Buffer {
            data,
            frames: if channels == 0 {
                0
            } else {
                frames
            },
        }
    }

    /// The sample of `channel` at `frame`.
    pub fn get(&self, channel: usize, frame: usize) -> (s: S)
        requires
            self.wf(),
            channel < self@.len(),
            frame < self.frames,
        ensures
            s == self@[channel as int][frame as int],
    {
        self.data[channel][frame]
    }

    /// Writes `value` to `channel` at `frame`; every other sample stays.
    pub fn set(&mut self, channel: usize, frame: usize, value: S)
        requires
            old(self).wf(),
            channel < old(self)@.len(),
            frame < old(self).frames,
        ensures
            final(self).wf(),
            final(self).frames == old(self).frames,
            final(self).room() == old(self).room(),
            final(self).data.len() == old(self).data.len(),
            final(self)@ == old(self)@.update(
                channel as int,
                old(self)@[channel as int].update(frame as int, value),
            ),
    {
        self.data[channel][frame] = value;
        assert(self@ =~~= old(self)@.update(
            channel as int,
            old(self)@[channel as int].update(frame as int, value),
        ));
    }

    /// Copies the first frames of channel `src_channel` of `src` into channel
    /// `channel`, as far as both reach.
    pub fn copy_channel_from(&mut self, channel: usize, src: &Buffer<S>, src_channel: usize)
        requires
            old(self).wf(),
            src.wf(),
            channel < old(self)@.len(),
            src_channel < src@.len(),
        ensures
            final(self).wf(),
            final(self).frames == old(self).frames,
            final(self).room() == old(self).room(),
            final(self).data.len() == old(self).data.len(),
            final(self)@ == old(self)@.update(
                channel as int,
                overlay_row(old(self)@[channel as int], src@[src_channel as int]),
            ),
    {
        let n = if src.frames() < self.frames() {
            src.frames()
        } else {
            self.frames()
        };
        let mut i: usize = 0;
        while i < n
            invariant
                i <= n,
                n <= src.frames,
                n <= self.frames,
                src.wf(),
                self.wf(),
                channel < self@.len(),
                src_channel < src@.len(),
                self.frames == old(self).frames,
                self.room() == old(self).room(),
                self.data.len() == old(self).data.len(),
                forall|c: int| 0 <= c < self@.len() && c != channel ==> self@[c] == old(self)@[c],
                forall|j: int|
                    0 <= j < self.frames ==> (#[trigger] self@[channel as int][j]) == if j < i {
                        src@[src_channel as int][j]
                    } else {
                        old(self)@[channel as int][j]
                    },
            decreases n - i,
        {
            let value = src.get(src_channel, i);
            self.set(channel, i, value);
            i += 1;
        }
        assert(self@ =~~= old(self)@.update(
            channel as int,
            overlay_row(old(self)@[channel as int], src@[src_channel as int]),
        ));
    }

    /// Copies `src` over the buffer, sample by sample, wherever both have the
    /// sample.
    pub fn copy_from(&mut self, src: &Buffer<S>)
        requires
            old(self).wf(),
            src.wf(),
        ensures
            final(self).wf(),
            final(self).frames == old(self).frames,
            final(self).room() == old(self).room(),
            final(self).data.len() == old(self).data.len(),
            final(self)@ == overlay(old(self)@, src@),
    {
        let n = if src.channels() < self.channels() {
            src.channels()
        } else {
            self.channels()
        };
        let mut c: usize = 0;
        while c < n
            invariant
                c <= n,
                n <= src@.len(),
                n <= self@.len(),
                src.wf(),
                self.wf(),
                self.frames == old(self).frames,
                self.room() == old(self).room(),
                self.data.len() == old(self).data.len(),
                forall|k: int|
                    0 <= k < self@.len() ==> (#[trigger] self@[k]) == if k < c {
                        overlay_row(old(self)@[k], src@[k])
                    } else {
                        old(self)@[k]
                    },
            decreases n - c,
        {
            self.copy_channel_from(c, src, c);
            c += 1;
        }
    }
}

} // verus!
