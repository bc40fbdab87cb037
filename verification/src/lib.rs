//! A cooperative round-robin scheduler core for stackful green threads.
//!
//! The crate holds the slot pool, its state machine and the layout of the
//! frame that a fresh stack starts from. Moving the processor from one stack
//! to another is left to the host, which asks the pool what to do next.

pub mod context;
pub mod frame;
pub mod laws;
pub mod pool;
pub mod run;
pub mod runtime;
pub mod state;
pub mod thread;
