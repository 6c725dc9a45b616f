pub mod fast_sine_osc;
pub mod sine_osc;

pub use fast_sine_osc::{FastSineOsc, Sign};
pub use sine_osc::SineOsc;
