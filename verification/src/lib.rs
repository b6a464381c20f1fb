//! Checks on model-initiated fetches and the plugin commands of a terminal agent.
pub mod commands;
pub mod guard;
pub mod guard_laws;
pub mod ip;
pub mod ip_laws;
pub mod ip_text;
pub mod network_policy;
pub mod plugin_commands;
pub mod plugin_laws;
pub mod plugin_text_laws;
pub mod plugins;
pub mod policy_laws;
pub mod text;
pub mod text_laws;
pub mod tool;
pub mod url;
