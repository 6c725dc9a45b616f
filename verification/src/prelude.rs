//! The items that most programs need, in one place.

pub use crate::audio::FrameSource;
pub use crate::buffer::Buffer;
pub use crate::effects::{Gain, SoftClipper};
pub use crate::mixers::SummingMixer;
pub use crate::network::{
    BlockRequirements, BlockSize, Network, NetworkComplexComplex, NetworkComplexReal,
    NetworkRealComplex, NetworkRealReal, ProcessStatus, SystemSampleRate,
};
pub use crate::oscillators::{FastSineOsc, Sign, SineOsc};
pub use crate::routing::{Parallel, Series};
pub use crate::sample::{Sample, Trig};
