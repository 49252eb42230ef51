//! A lane-width benchmark core: one escape-time kernel and one square-root
//! kernel, each written once and driven over scalar lanes or over vector
//! lanes of width 2, 4 or 8. Scalars cross the boundary as opaque 32-bit
//! patterns and the arithmetic itself is supplied by the caller, so the
//! library's contracts pin down what is provable about the pipeline itself:
//! the dispatcher partitions the input into exact chunks or fails fast with
//! a sizing error, each kernel drives every lane in isolation, and the
//! reassembler restores original input order, making the lane width a pure
//! performance knob.

pub mod dispatch;
pub mod kernel;
pub mod lane;
pub mod laws;
