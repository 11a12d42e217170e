//! What holds of the receiver as a whole.

pub mod attempts;
pub mod effects;
pub mod events;
pub mod filters;
pub mod history;
pub mod inputs;
pub mod lines;
pub mod runs;
pub mod schedule;
pub mod sweeps;
