//! Verified Mandelbrot escape-time kernel and grid driver.
//!
//! Points of the complex plane are iterated through `z <- z*z + c` in lanes
//! of eight, and each lane is packed into one byte of escape flags. All
//! 64-bit floating-point values are carried through the verified code as
//! their IEEE-754 bit patterns (`u64`); the primitive arithmetic steps are
//! the only trusted operations.

pub mod fbits;
pub mod grid;
pub mod kernel;
