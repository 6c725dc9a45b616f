pub mod gain;
pub mod soft_clipper;

pub use gain::Gain;
pub use soft_clipper::SoftClipper;
