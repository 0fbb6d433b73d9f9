//! What the library promises as a whole, in terms of what goes in and what comes out.

pub mod export;
pub mod extraction;
pub mod numbers;
pub mod queue;
pub mod settings;
pub mod tracing;
pub mod worker;
