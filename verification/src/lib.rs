//! Decision-and-rate-limiting engine for a message-triggered actuator.
//!
//! The crate has two parts, evaluated in sequence for every inbound message:
//! a stateless trigger evaluator ([`trigger::should_fire`]) that decides
//! whether a message qualifies as a fire request, and a stateful per-user
//! fixed-window cooldown tracker ([`cooldown::CooldownTracker`]) that can veto
//! that decision based on the user's recent firing history.

pub mod config;
pub mod cooldown;
pub mod engine;
pub mod trigger;
