//! Vectorized operations on complex-valued sample buffers: elementwise
//! arithmetic, sample-rate conversion, and FFT-based spectral transforms and
//! correlation, as used by software-defined-radio style signal processing.
//!
//! A complex sample is held as the IEEE-754 bit patterns of its two parts, so
//! that buffer logic (prefix policies, stride selection, composition of the
//! transform pipeline) is verified exactly, while the numeric work itself is
//! delegated to `num_complex` and `chfft` behind a small trusted layer.

pub mod correlate;
pub mod evm;
pub mod fft;
pub mod sample;
pub mod sampling;
pub mod sequence;
pub mod vecops;

pub use sample::Sample;
