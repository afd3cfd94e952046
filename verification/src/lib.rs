//! Chat-driven image overlays: the decisions of the overlay server, stated
//! and proved with Verus.
pub mod assoc;
pub mod text;
pub mod chat;
pub mod encoding;
pub mod images;
pub mod cooldown;
pub mod messages;
pub mod irc;
pub mod registry;
pub mod ws;
pub mod sql;
pub mod models;
pub mod ivr;
pub mod numbers;
pub mod routes;
pub mod recorder;
pub mod metrics;
