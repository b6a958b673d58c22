//! The decisions behind AFC Finder, a file browser for iOS devices.

pub mod app;
pub mod commands;
pub mod connection;
pub mod discovery;
pub mod explorer;
pub mod laws;
pub mod laws_listing;
pub mod laws_paths;
pub mod laws_screens;
pub mod laws_text;
pub mod laws_worker;
pub mod listing;
pub mod name_map;
pub mod outside;
pub mod remote_path;
pub mod size;
pub mod state;
pub mod text;
pub mod worker;

