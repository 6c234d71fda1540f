pub mod catalog;
pub mod config;
pub mod context;
pub mod language;
pub mod laws;
pub mod locale;
pub mod render;
pub mod sources;
