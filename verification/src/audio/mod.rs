pub mod stream;

pub use stream::FrameSource;
