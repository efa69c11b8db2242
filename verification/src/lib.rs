//! Verified core of the CC Switch authentication, credential and VS Code Copilot
//! provider logic.

pub mod auth_browser;
pub mod auth_commands;
pub mod credential_laws;
pub mod credentials;
pub mod crypto;
pub mod json;
pub mod keyed;
pub mod machine_id;
pub mod paths;
pub mod proxy_handlers;
pub mod text;
pub mod vscode_copilot_config;
