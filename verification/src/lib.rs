//! Core of a command-driven native debugger: breakpoint bookkeeping, the
//! breakpoint step-over protocol, traced-process lifecycle, frame-pointer
//! stack walking, and command parsing. Process spawning, symbol resolution
//! and the interactive prompt live outside the library and drive it through
//! plain values.

pub mod backtrace;
pub mod bits;
pub mod breakpoints;
pub mod command;
pub mod errors;
pub mod inferior;
pub mod laws;
pub mod parse;
pub mod session;
pub mod trace;
pub mod vec_util;
