//! Core logic of an interactive tool that files downloaded media folders
//! under clean names: name cleaning, extension filters, menu input, the
//! persisted name mapping and the session's transitions.

pub mod config;
pub mod filter;
pub mod menu;
pub mod normalize;
pub mod session;
pub mod text;
