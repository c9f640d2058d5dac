pub mod config;
pub mod intent;
pub mod orchestrate;
pub mod prompt;
pub mod provider;
pub mod sanitize;
pub mod text;
pub mod watcher;
