//! Text-mode display driver and in-kernel test harness decisions.
pub mod color;
pub mod buffer;
pub mod writer;
pub mod runner;
