//! Simulation driver for exercising a limit-order-book exchange with
//! generated trading actions: the action model and its decoding from bytes,
//! the registry of simulated
//! participants, conservative gain and loss ceilings computed from an action
//! log, the planning of the exchange instruction for each action, the wind-down
//! that liquidates every participant, and the final invariant checks.

pub mod action;
pub mod bounds;
pub mod world;
pub mod executor;
pub mod registry;
pub mod driver;
pub mod invariants;
pub mod generator;
pub mod laws;
pub mod diagnostics;
