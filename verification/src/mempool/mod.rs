//! Transaction admission queue.

pub mod pool;
