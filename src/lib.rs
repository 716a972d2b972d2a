//! Backend logic of a desktop file browser: the directory listing model, the
//! location of the configuration file, and the path aliases read from it.

pub mod alias_map;
pub mod config;
pub mod error;
pub mod listing;
pub mod paths;
