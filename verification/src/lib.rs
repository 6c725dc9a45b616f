//! Oryzae - a modular audio synthesis library.
//!
//! Processing nodes (oscillators, mixers, effects and routing combinators) share
//! one contract, the `NetworkRealReal` trait, and compose into a tree that a host
//! drives once per hardware buffer.

pub mod audio;
pub mod buffer;
pub mod effects;
pub mod mixers;
pub mod network;
pub mod oscillators;
pub mod prelude;
pub mod routing;
pub mod sample;
pub mod spectrum;

pub use network::{
    Network, NetworkComplexComplex, NetworkComplexReal, NetworkRealComplex, NetworkRealReal,
};
