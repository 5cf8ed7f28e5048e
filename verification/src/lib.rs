pub mod text;
pub mod parse;
pub mod status;
pub mod drift;
pub mod theme;
pub mod render;
pub mod detail;
pub mod actions;
pub mod discover;
pub mod config;
pub mod scan;
pub mod cli;
pub mod ui;
