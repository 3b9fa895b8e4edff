//! Command routing and permission resolution engine.
//!
//! The crate builds an immutable command registry from declarative
//! descriptors, resolves raw message text to a registered command node,
//! evaluates a layered tri-state permission decision (bot-wide defaults
//! plus per-guild overrides), and plans the dispatch of the matched
//! handler. All decision logic is verified; asynchronous handler
//! execution and I/O live outside this crate.

pub mod config_store;
pub mod dispatch;
pub mod evaluator;
pub mod guild_config;
pub mod nodes;
pub mod permissions;
pub mod registry;
pub mod resolver;
pub mod stats;
pub mod text;
