pub mod components;
pub mod config;
pub mod finalize;
pub mod localization;
pub mod text;
