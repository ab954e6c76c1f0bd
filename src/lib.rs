//! Tick-driven execution core: type-erased events with checked downcasts,
//! priority-ordered event containers, notifier routing and a cadence-gated
//! system scheduler.

pub mod accessor;
pub mod event;
pub mod events;
pub mod game;
pub mod manager;
pub mod notifier;
pub mod order;
pub mod scheduler;
pub mod script;
pub mod system;
pub mod world;
