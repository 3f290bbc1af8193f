//! Rich-presence text for FL Studio sessions: the configuration, the project
//! and plugin lines shown on a Discord profile, the tray window's message
//! handling and the start-up plan for where the configuration lives.
pub mod config;
pub mod proj_info;
pub mod text;
pub mod tray;
