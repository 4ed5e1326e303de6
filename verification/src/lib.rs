pub mod clipboard;
pub mod activity;
pub mod command;
pub mod config;
pub mod dwim;
pub mod git;
pub mod keymap;
pub mod ops;
pub mod order;
pub mod route;
pub mod session;
pub mod text;
pub mod theme;
pub mod ui;
