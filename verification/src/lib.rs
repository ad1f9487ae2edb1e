//! Small, self-contained building blocks: a single-slot memoizing wrapper
//! around a calculation, and sequential models of three coordination patterns
//! between threads (spawn and join, message passing over a channel, and a
//! counter shared under a lock).

pub mod closures;
pub mod concurrency;
pub mod counter;
pub mod channel;
pub mod schedule;
pub mod worker;
