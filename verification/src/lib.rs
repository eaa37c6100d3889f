//! A Slay the Spire combat simulator: the cards, powers and monsters of a fight,
//! the actions that change a combat, and the bookkeeping that lets
//! random choices be replayed consistently.

pub mod string_match;
pub mod actions;
pub mod action_effects;
pub mod runner;
pub mod ai_utils;
pub mod condition_strategy;
pub mod communication_mod_state;
pub mod laws;
pub mod cow;
pub mod condition_strategy_generators;
pub mod seeds_concrete;
pub mod seed_system;
pub mod simulation;
pub mod simulation_state;
