pub mod parallel;
pub mod series;

pub use parallel::Parallel;
pub use series::Series;
