//! Turns playlists into HTML pages from line templates.
pub mod text;
pub mod error;
pub mod model;
pub mod parser;
pub mod logic;
pub mod lastfm;
pub mod database;
pub mod config;
pub mod playlist;
pub mod lists;
