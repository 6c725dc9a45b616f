pub mod summing_mixer;

pub use summing_mixer::SummingMixer;
