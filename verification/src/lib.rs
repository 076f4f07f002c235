//! A chat-bot library for keeping channel messages in sync with the live
//! status of game servers.
//!
//! The crate is organised around two components: a subscription store
//! ([`db::BotDb`], modelled by the fully verified [`store::SubscriptionTable`])
//! that persists one row per followed channel, and the decision logic around
//! it — the status payload of the polling cycle ([`status`]), what happens to
//! a subscription after each check ([`cycle`]), the follow and unfollow
//! command replies ([`commands`]), and the startup configuration
//! ([`config`]). All network and chat transport stays outside the library;
//! the functions here work on plain values and carry contracts.

pub mod commands;
pub mod config;
pub mod cycle;
pub mod db;
pub mod status;
pub mod store;
pub mod types;
