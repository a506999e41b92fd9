//! Decision kernel of a turn-based crafting agent.
//!
//! Each turn the agent is shown the potions it may brew, the spells it may
//! cast and its own stock of four tiers of ingredients, and picks one action:
//! brew the most appealing potion if the stock allows it, otherwise cast the
//! spell that best bridges the shortfall, otherwise rest or wait.

pub mod tiers;
pub mod recipe;
pub mod catalog;
pub mod feed;
pub mod ranking;
pub mod search;
pub mod action;
pub mod command;
