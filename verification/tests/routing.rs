use oryzae::audio::stream::FrameSource;
use oryzae::buffer::Buffer;
use oryzae::effects::gain::Gain;
use oryzae::effects::soft_clipper::{soft_clip, SoftClipper};
use oryzae::mixers::summing_mixer::SummingMixer;
use oryzae::network::{
    BlockRequirements, BlockSize, NetworkRealReal, ProcessStatus, SystemSampleRate,
};
use oryzae::oscillators::fast_sine_osc::FastSineOsc;
use oryzae::routing::parallel::Parallel;
use oryzae::routing::series::Series;
use oryzae::sample::Sample;
use std::sync::atomic::{AtomicUsize, Ordering};
use std::sync::Arc;

/// Double-precision samples.
#[derive(Clone, Copy, Debug, PartialEq)]
struct F(f64);

impl Sample for F {
    fn of_int(n: i32) -> Self {
        F(n as f64)
    }

    fn of_index(n: usize) -> Self {
        F(n as f64)
    }

    fn sum(self, rhs: Self) -> Self {
        F(self.0 + rhs.0)
    }

    fn difference(self, rhs: Self) -> Self {
        F(self.0 - rhs.0)
    }

    fn product(self, rhs: Self) -> Self {
        F(self.0 * rhs.0)
    }

    fn quotient(self, rhs: Self) -> Self {
        F(self.0 / rhs.0)
    }

    fn negation(self) -> Self {
        F(-self.0)
    }

    fn is_below(self, rhs: Self) -> bool {
        self.0 < rhs.0
    }

    fn is_at_least(self, rhs: Self) -> bool {
        self.0 >= rhs.0
    }

    fn from_int(n: i32) -> Self {
        F(n as f64)
    }

    fn from_index(n: usize) -> Self {
        F(n as f64)
    }

    fn plus(self, rhs: Self) -> Self {
        F(self.0 + rhs.0)
    }

    fn minus(self, rhs: Self) -> Self {
        F(self.0 - rhs.0)
    }

    fn times(self, rhs: Self) -> Self {
        F(self.0 * rhs.0)
    }

    fn over(self, rhs: Self) -> Self {
        F(self.0 / rhs.0)
    }

    fn negate(self) -> Self {
        F(-self.0)
    }

    fn below(self, rhs: Self) -> bool {
        self.0 < rhs.0
    }

    fn at_least(self, rhs: Self) -> bool {
        self.0 >= rhs.0
    }
}

/// A node that never has enough input, and counts its calls.
struct Stalled {
    calls: Arc<AtomicUsize>,
    needed: usize,
}

impl NetworkRealReal<i64> for Stalled {
    fn requirements(&self) -> BlockRequirements {
        self.block_size()
    }

    fn process(&mut self, _input: &Buffer<i64>, _output: &mut Buffer<i64>) -> ProcessStatus {
        self.calls.fetch_add(1, Ordering::SeqCst);
        ProcessStatus::NeedMoreInput { samples_needed: self.needed }
    }

    fn block_size(&self) -> BlockRequirements {
        BlockRequirements { input_size: BlockSize::Flexible, output_size: BlockSize::Flexible }
    }

    fn fits(&self, _: usize, _: usize, _: usize, _: usize) -> bool {
        true
    }
}

/// A node that writes a part of its output, adds one to every sample it
/// passes on, and counts its calls.
struct Partial {
    calls: Arc<AtomicUsize>,
}

impl NetworkRealReal<i64> for Partial {
    fn requirements(&self) -> BlockRequirements {
        self.block_size()
    }

    fn process(&mut self, input: &Buffer<i64>, output: &mut Buffer<i64>) -> ProcessStatus {
        self.calls.fetch_add(1, Ordering::SeqCst);
        if input.channels() > 0 && output.channels() > 0 && input.frames() > 0
            && output.frames() > 0
        {
            output.set(0, 0, input.get(0, 0) + 1);
        }
        ProcessStatus::PartialOutput { frames_written: 1 }
    }

    fn block_size(&self) -> BlockRequirements {
        BlockRequirements { input_size: BlockSize::Flexible, output_size: BlockSize::Flexible }
    }

    fn fits(&self, _: usize, _: usize, _: usize, _: usize) -> bool {
        true
    }
}

/// A node that takes and gives blocks of four frames, copying the first channel.
struct FourFrames;

impl NetworkRealReal<i64> for FourFrames {
    fn requirements(&self) -> BlockRequirements {
        self.block_size()
    }

    fn process(&mut self, input: &Buffer<i64>, output: &mut Buffer<i64>) -> ProcessStatus {
        output.copy_from(input);
        ProcessStatus::Ready
    }

    fn block_size(&self) -> BlockRequirements {
        BlockRequirements { input_size: BlockSize::Fixed(4), output_size: BlockSize::Multiple(4) }
    }

    fn fits(&self, _: usize, in_frames: usize, _: usize, out_frames: usize) -> bool {
        in_frames == 4 && out_frames % 4 == 0
    }
}

fn block(rows: Vec<Vec<f64>>) -> Buffer<F> {
    let frames = if rows.is_empty() { 0 } else { rows[0].len() };
    let mut buffer = Buffer::new(rows.len(), frames, F(0.0));
    for (c, row) in rows.iter().enumerate() {
        for (i, value) in row.iter().enumerate() {
            buffer.set(c, i, F(*value));
        }
    }
    buffer
}

fn rows(buffer: &Buffer<F>) -> Vec<Vec<f64>> {
    (0..buffer.channels())
        .map(|c| (0..buffer.frames()).map(|i| buffer.get(c, i).0).collect())
        .collect()
}

fn whole_block(rows: Vec<Vec<i64>>) -> Buffer<i64> {
    let frames = if rows.is_empty() { 0 } else { rows[0].len() };
    let mut buffer = Buffer::new(rows.len(), frames, 0i64);
    for (c, row) in rows.iter().enumerate() {
        for (i, value) in row.iter().enumerate() {
            buffer.set(c, i, *value);
        }
    }
    buffer
}

fn whole_rows(buffer: &Buffer<i64>) -> Vec<Vec<i64>> {
    (0..buffer.channels())
        .map(|c| (0..buffer.frames()).map(|i| buffer.get(c, i)).collect())
        .collect()
}

fn rate(hz: f64) -> SystemSampleRate<F> {
    let mut config = SystemSampleRate::new();
    assert!(config.set(F(hz)).is_ok());
    config
}

fn voice(config: &SystemSampleRate<F>, low: f64, mid: f64, high: f64) -> Box<Series<F>> {
    let oscillators: Vec<Box<dyn NetworkRealReal<F>>> = vec![
        FastSineOsc::new(F(low), config),
        FastSineOsc::new(F(mid), config),
        FastSineOsc::new(F(high), config),
    ];
    Series::new(
        vec![
            Parallel::new(oscillators, 1024),
            SummingMixer::new(),
            Gain::new(F(5.9)),
            SoftClipper::new(),
            Gain::new(F(0.9)),
        ],
        8,
        1024,
    )
}

#[test]
fn buffer_holds_a_grid() {
    let mut buffer = Buffer::new(2, 3, 7i64);
    assert_eq!(buffer.channels(), 2);
    assert_eq!(buffer.frames(), 3);
    assert_eq!(whole_rows(&buffer), vec![vec![7, 7, 7], vec![7, 7, 7]]);
    buffer.set(1, 2, 9);
    assert_eq!(buffer.get(1, 2), 9);
    assert_eq!(buffer.get(0, 2), 7);
    assert!(buffer.has_room(3));
    assert!(!buffer.has_room(4));
    buffer.set_frames(2);
    assert_eq!(whole_rows(&buffer), vec![vec![7, 7], vec![7, 7]]);
    buffer.set_frames(3);
    assert_eq!(whole_rows(&buffer), vec![vec![7, 7, 7], vec![7, 7, 9]]);
    let none: Buffer<i64> = Buffer::new(0, 5, 1);
    assert_eq!(none.channels(), 0);
    assert_eq!(none.frames(), 0);
    assert_eq!(Buffer::<i64>::empty().channels(), 0);
}

#[test]
fn buffer_copies_what_both_have() {
    let src = whole_block(vec![vec![1, 2], vec![3, 4], vec![5, 6]]);
    let mut dst = whole_block(vec![vec![0, 0, 0], vec![0, 0, 0]]);
    dst.copy_from(&src);
    assert_eq!(whole_rows(&dst), vec![vec![1, 2, 0], vec![3, 4, 0]]);
    let mut one = whole_block(vec![vec![9], vec![9]]);
    one.copy_channel_from(1, &src, 2);
    assert_eq!(whole_rows(&one), vec![vec![9], vec![5]]);
}

#[test]
fn empty_series_is_the_identity() {
    let mut chain: Box<Series<i64>> = Series::new(vec![], 8, 1024);
    for shape in [(1usize, 1usize), (2, 5), (3, 0), (0, 0), (4, 1)] {
        let mut input = Buffer::new(shape.0, shape.1, 0i64);
        for c in 0..input.channels() {
            for i in 0..input.frames() {
                input.set(c, i, (10 * c + i) as i64 - 7);
            }
        }
        let mut output = Buffer::new(shape.0, shape.1, 99i64);
        assert!(chain.fits(shape.0, input.frames(), shape.0, output.frames()));
        assert_eq!(chain.process(&input, &mut output), ProcessStatus::Ready);
        assert_eq!(whole_rows(&output), whole_rows(&input));
    }
}

#[test]
fn empty_series_copies_the_common_part() {
    let mut chain: Box<Series<i64>> = Series::new(vec![], 8, 1024);
    let input = whole_block(vec![vec![1, 2]]);
    let mut output = whole_block(vec![vec![9, 9, 9], vec![9, 9, 9]]);
    assert!(chain.fits(1, 2, 2, 3));
    assert_eq!(chain.process(&input, &mut output), ProcessStatus::Ready);
    assert_eq!(whole_rows(&output), vec![vec![1, 2, 9], vec![9, 9, 9]]);
    assert!(!chain.fits(1, 4, 2, 3));
    assert!(chain.fits(0, 0, 2, 3));
}

#[test]
fn series_feeds_each_node_the_one_before() {
    let mut chain: Box<Series<i64>> =
        Series::new(vec![Gain::new(2i64), Gain::new(3i64), Gain::new(-1i64)], 2, 16);
    let input = whole_block(vec![vec![1, 2, 3], vec![4, 5, 6]]);
    let mut output = whole_block(vec![vec![0, 0, 0], vec![0, 0, 0]]);
    assert!(chain.fits(2, 3, 2, 3));
    assert_eq!(chain.process(&input, &mut output), ProcessStatus::Ready);
    assert_eq!(whole_rows(&output), vec![vec![-6, -12, -18], vec![-24, -30, -36]]);
}

#[test]
fn series_stops_at_the_first_node_that_is_not_ready() {
    let stalled = Arc::new(AtomicUsize::new(0));
    let later = Arc::new(AtomicUsize::new(0));
    let mut chain: Box<Series<i64>> = Series::new(
        vec![
            Gain::new(2i64),
            Box::new(Stalled { calls: stalled.clone(), needed: 3 }),
            Box::new(Partial { calls: later.clone() }),
        ],
        2,
        16,
    );
    let input = whole_block(vec![vec![1, 2, 3]]);
    let mut output = whole_block(vec![vec![9, 9, 9]]);
    assert!(chain.fits(1, 3, 1, 3));
    assert_eq!(
        chain.process(&input, &mut output),
        ProcessStatus::NeedMoreInput { samples_needed: 3 }
    );
    assert_eq!(whole_rows(&output), vec![vec![9, 9, 9]]);
    assert_eq!(stalled.load(Ordering::SeqCst), 1);
    assert_eq!(later.load(Ordering::SeqCst), 0);
}

#[test]
fn series_hands_on_partial_output() {
    let calls = Arc::new(AtomicUsize::new(0));
    let mut chain: Box<Series<i64>> = Series::new(
        vec![Box::new(Partial { calls: calls.clone() }), Gain::new(2i64)],
        1,
        4,
    );
    let input = whole_block(vec![vec![1, 2]]);
    let mut output = whole_block(vec![vec![9, 9]]);
    assert_eq!(
        chain.process(&input, &mut output),
        ProcessStatus::PartialOutput { frames_written: 1 }
    );
    assert_eq!(whole_rows(&output), vec![vec![9, 9]]);
    assert_eq!(calls.load(Ordering::SeqCst), 1);
}

#[test]
fn series_sizes_its_stages_from_the_declared_output() {
    let mut chain: Box<Series<i64>> =
        Series::new(vec![Gain::new(2i64), SummingMixer::new(), Gain::new(5i64)], 2, 16);
    let input = whole_block(vec![vec![1, 2, 3], vec![10, 20, 30]]);
    let mut output = whole_block(vec![vec![0, 0, 0]]);
    assert!(chain.fits(2, 3, 1, 3));
    assert_eq!(chain.process(&input, &mut output), ProcessStatus::Ready);
    assert_eq!(whole_rows(&output), vec![vec![110, 0, 0]]);
}

#[test]
fn series_refuses_what_exceeds_its_budget() {
    let chain: Box<Series<i64>> = Series::new(vec![Gain::new(2i64)], 2, 16);
    assert!(chain.fits(2, 16, 2, 16));
    assert!(chain.fits(5, 16, 2, 1));
    assert!(!chain.fits(2, 17, 2, 17));
    assert!(!chain.fits(2, 16, 3, 16));
    let fixed: Box<Series<i64>> = Series::new(vec![Box::new(FourFrames)], 2, 16);
    assert!(fixed.fits(1, 4, 1, 4));
    assert!(!fixed.fits(1, 3, 1, 4));
    assert!(!fixed.fits(1, 8, 1, 4));
    let tight: Box<Series<i64>> = Series::new(vec![Box::new(FourFrames)], 2, 3);
    assert!(!tight.fits(1, 4, 1, 4));
    let wide: Box<Series<i64>> =
        Series::new(vec![SummingMixer::new(), Box::new(FourFrames)], 2, 16);
    assert!(!wide.fits(1, 4, 1, 4));
}

#[test]
fn series_declares_single_frames() {
    let chain: Box<Series<i64>> = Series::new(vec![], 8, 1024);
    let single = BlockRequirements {
        input_size: BlockSize::Fixed(1),
        output_size: BlockSize::Fixed(1),
    };
    assert_eq!(chain.block_size(), single);
    let fan: Box<Parallel<i64>> = Parallel::new(vec![], 1024);
    assert_eq!(fan.block_size(), single);
}

#[test]
fn parallel_gives_each_node_a_channel() {
    let mut fan: Box<Parallel<i64>> =
        Parallel::new(vec![Gain::new(1i64), Gain::new(2i64), Gain::new(3i64)], 16);
    let input = whole_block(vec![vec![5, 7]]);
    let mut output = whole_block(vec![vec![0, 0], vec![0, 0], vec![0, 0]]);
    assert!(fan.fits(1, 2, 3, 2));
    assert_eq!(fan.process(&input, &mut output), ProcessStatus::Ready);
    assert_eq!(whole_rows(&output), vec![vec![5, 7], vec![10, 14], vec![15, 21]]);
    for (i, factor) in [1i64, 2, 3].into_iter().enumerate() {
        let mut alone = Gain::new(factor);
        let mut single = whole_block(vec![vec![0, 0]]);
        alone.process(&input, &mut single);
        assert_eq!(whole_rows(&single)[0], whole_rows(&output)[i]);
    }
}

#[test]
fn parallel_fills_the_channels_it_has() {
    let mut fan: Box<Parallel<i64>> =
        Parallel::new(vec![Gain::new(1i64), Gain::new(2i64), Gain::new(3i64)], 16);
    let input = whole_block(vec![vec![5]]);
    let mut narrow = whole_block(vec![vec![0], vec![0]]);
    assert_eq!(fan.process(&input, &mut narrow), ProcessStatus::Ready);
    assert_eq!(whole_rows(&narrow), vec![vec![5], vec![10]]);
    let mut wide = whole_block(vec![vec![9, 9], vec![9, 9], vec![9, 9], vec![9, 9]]);
    assert_eq!(fan.process(&input, &mut wide), ProcessStatus::Ready);
    assert_eq!(whole_rows(&wide), vec![vec![5, 9], vec![10, 9], vec![15, 9], vec![9, 9]]);
}

#[test]
fn parallel_without_nodes_leaves_the_output() {
    let mut fan: Box<Parallel<i64>> = Parallel::new(vec![], 16);
    let input = whole_block(vec![vec![5]]);
    let mut output = whole_block(vec![vec![9], vec![9]]);
    assert!(fan.fits(1, 1, 2, 1));
    assert_eq!(fan.process(&input, &mut output), ProcessStatus::Ready);
    assert_eq!(whole_rows(&output), vec![vec![9], vec![9]]);
}

#[test]
fn parallel_fails_fast() {
    let stalled = Arc::new(AtomicUsize::new(0));
    let later = Arc::new(AtomicUsize::new(0));
    let mut fan: Box<Parallel<i64>> = Parallel::new(
        vec![
            Gain::new(2i64),
            Box::new(Stalled { calls: stalled.clone(), needed: 64 }),
            Box::new(Partial { calls: later.clone() }),
        ],
        16,
    );
    let input = whole_block(vec![vec![5]]);
    let mut output = whole_block(vec![vec![9], vec![9], vec![9]]);
    assert_eq!(
        fan.process(&input, &mut output),
        ProcessStatus::NeedMoreInput { samples_needed: 64 }
    );
    assert_eq!(whole_rows(&output), vec![vec![9], vec![9], vec![9]]);
    assert_eq!(stalled.load(Ordering::SeqCst), 1);
    assert_eq!(later.load(Ordering::SeqCst), 0);
}

#[test]
fn parallel_refuses_what_exceeds_its_budget() {
    let fan: Box<Parallel<i64>> = Parallel::new(vec![Gain::new(2i64)], 16);
    assert!(fan.fits(1, 16, 1, 16));
    assert!(!fan.fits(1, 17, 1, 16));
    let fixed: Box<Parallel<i64>> = Parallel::new(vec![Gain::new(2i64), Box::new(FourFrames)], 16);
    assert!(fixed.fits(1, 4, 2, 4));
    assert!(!fixed.fits(1, 5, 2, 4));
}

#[test]
fn voice_matches_its_parts() {
    let config = rate(44100.0);
    let mut chain = voice(&config, 120.0, 2.0, 4.0 / 3.0);
    let mut parts = [
        FastSineOsc::new(F(120.0), &config),
        FastSineOsc::new(F(2.0), &config),
        FastSineOsc::new(F(4.0 / 3.0), &config),
    ];
    let input = block(vec![vec![0.0]]);
    let mut output = block(vec![vec![0.0]]);
    let mut single = block(vec![vec![0.0]]);
    assert!(chain.fits(1, 1, 1, 1));
    for _ in 0..2000 {
        assert_eq!(chain.process(&input, &mut output), ProcessStatus::Ready);
        let mut sum = 0.0;
        for part in parts.iter_mut() {
            part.process(&input, &mut single);
            sum += single.get(0, 0).0;
        }
        let expected = soft_clip(F(sum * 5.9)).0 * 0.9;
        assert_eq!(rows(&output), vec![vec![expected]]);
        assert!(expected.abs() <= 0.9 * (1.0 + f64::EPSILON));
    }
}

#[test]
fn nested_voices_fill_two_channels() {
    let config = rate(44100.0);
    let voices: Vec<Box<dyn NetworkRealReal<F>>> = vec![
        voice(&config, 120.0, 2.0, 4.0 / 3.0),
        voice(&config, 480.0, 5.0, 2.0 / 3.0),
    ];
    let mut network: Box<Series<F>> = Series::new(vec![Parallel::new(voices, 1024)], 8, 1024);
    let mut left = voice(&config, 120.0, 2.0, 4.0 / 3.0);
    let mut right = voice(&config, 480.0, 5.0, 2.0 / 3.0);
    let input = block(vec![vec![0.0]]);
    let mut output = block(vec![vec![0.0], vec![0.0]]);
    let mut single = block(vec![vec![0.0]]);
    assert!(network.fits(1, 1, 2, 1));
    for _ in 0..500 {
        assert_eq!(network.process(&input, &mut output), ProcessStatus::Ready);
        left.process(&input, &mut single);
        assert_eq!(output.get(0, 0), single.get(0, 0));
        right.process(&input, &mut single);
        assert_eq!(output.get(1, 0), single.get(0, 0));
    }
}

#[test]
fn frame_source_maps_channels() {
    let fan: Box<Parallel<i64>> = Parallel::new(
        vec![
            Series::new(vec![SummingMixer::new(), Gain::new(0i64)], 1, 1),
            Series::new(vec![], 1, 1),
        ],
        1,
    );
    let mut source = FrameSource::new(fan, 4).unwrap();
    assert_eq!(source.advance(), ProcessStatus::Ready);
    assert_eq!(source.sample(0), 0);
    assert_eq!(source.sample(1), 0);
    assert_eq!(source.sample(2), 0);
    assert_eq!(source.sample(3), 0);
    let config = rate(8.0);
    let stereo: Box<Parallel<F>> = Parallel::new(
        vec![
            Series::new(vec![FastSineOsc::new(F(1.0), &config), Gain::new(F(2.0))], 1, 1),
            FastSineOsc::new(F(1.0), &config),
        ],
        1,
    );
    let mut source = FrameSource::new(stereo, 3).unwrap();
    let mut frames = Vec::new();
    for _ in 0..3 {
        assert_eq!(source.advance(), ProcessStatus::Ready);
        frames.push([source.sample(0).0, source.sample(1).0, source.sample(2).0]);
    }
    assert_eq!(frames, vec![[0.0, 0.0, 0.0], [-1.5, -0.75, 0.0], [-2.0, -1.0, 0.0]]);
}

#[test]
fn frame_source_feeds_one_channel_to_a_mono_stream() {
    let config = rate(8.0);
    let mut source = FrameSource::new(FastSineOsc::new(F(1.0), &config), 1).unwrap();
    source.advance();
    source.advance();
    assert_eq!(source.sample(0), F(-0.75));
    assert_eq!(source.sample(1), F(0.0));
}

#[test]
fn frame_source_substitutes_silence() {
    let calls = Arc::new(AtomicUsize::new(0));
    let mut source = FrameSource::new(Box::new(Partial { calls: calls.clone() }), 2).unwrap();
    assert_eq!(source.advance(), ProcessStatus::PartialOutput { frames_written: 1 });
    assert_eq!(source.sample(0), 0);
    assert_eq!(source.sample(1), 0);
    assert_eq!(calls.load(Ordering::SeqCst), 1);
}

#[test]
fn frame_source_needs_a_channel_and_a_fit() {
    assert!(FrameSource::new(Gain::new(1i64), 0).is_none());
    assert!(FrameSource::new(Gain::new(1i64), 1).is_some());
    assert!(FrameSource::new(Box::new(FourFrames), 2).is_none());
    let tight: Box<Series<i64>> = Series::new(vec![Gain::new(1i64)], 1, 1);
    assert!(FrameSource::new(tight, 2).is_none());
    let roomy: Box<Series<i64>> = Series::new(vec![Gain::new(1i64)], 2, 1);
    assert!(FrameSource::new(roomy, 2).is_some());
}
