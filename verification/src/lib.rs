//! Plugin multiplexer for the Helix editor.
//!
//! A host process fronts a population of plugin processes behind one
//! endpoint: it launches the plugins of a manifest, speaks line-delimited
//! JSON with each over its standard streams, routes the editor's commands to
//! the plugin that owns them and correlates the replies. This crate holds
//! both ends of that exchange, free of I/O:
//!
//! - [`protocol`] and [`wire`]: the messages and their JSON form;
//! - [`plugin`] and [`correlation`]: the host's record of one plugin, and the
//!   laws of its pending requests;
//! - [`server`]: the registry of plugins and commands, and what the editor is
//!   told;
//! - [`runtime`]: the event loop that a plugin embeds;
//! - [`manifest`] and [`paths`]: the declared plugins and where they are;
//! - [`plugins`]: the plugins that ship with the host;
//! - [`json`]: what is taken on trust from `serde_json`;
//! - [`text`]: lines, white space and other work on strings.
//!
//! Processes, pipes and the editor's transport belong to the caller.

pub mod correlation;
pub mod json;
pub mod manifest;
pub mod paths;
pub mod plugin;
pub mod plugins;
pub mod protocol;
pub mod runtime;
pub mod server;
pub mod text;
pub mod wire;
