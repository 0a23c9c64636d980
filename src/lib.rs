pub mod cli;
pub mod config;
pub mod settings;
pub mod command;
pub mod selection;
pub mod preflight;
pub mod pipeline;
