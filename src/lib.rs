//! A moderation engine for a multi-channel chat service.
pub mod text;
pub mod users;
pub mod rules;
pub mod action;
pub mod channels;
pub mod bans;
pub mod ticket;
pub mod bot;
