//! Version resolution, launch arguments, workspace configuration and completion labels
//! for the Angular language server in the Zed editor.
pub mod text;
pub mod version;
pub mod json;
pub mod settings;
pub mod config;
pub mod server;
pub mod install;
pub mod completion;
