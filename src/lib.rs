//! A run-time aliasing guard: it tracks the byte ranges of a shared buffer that
//! are currently claimed and refuses any new claim that would overlap one of them.

pub mod region;
pub mod borrow;
