pub mod dft;
