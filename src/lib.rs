//! A verified core for a bot that mirrors a remote object graph (scopes,
//! channels, roles, emoji, stickers) from a stream of change-events:
//! the event-sourced cache store, the permission resolver on top of it, the
//! webhook discovery cache, and message templates with their variable
//! substitution, embedded actions and integrity fingerprint.

pub mod actions;
pub mod cache;
pub mod concurrent;
pub mod config;
pub mod index;
pub mod interactions;
pub mod message;
pub mod model;
pub mod permissions;
pub mod template;
pub mod text;
pub mod variables;
pub mod webhooks;
pub mod wire;
