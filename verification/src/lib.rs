//! Music library and playlist engine: songs, playlists and the pure
//! operations over them, with their contracts.

pub mod cli;
pub mod controllers;
pub mod domain;
pub mod error;
pub mod network;
pub mod outside;
pub mod repositories;
pub mod services;
pub mod states;
pub mod store;
pub mod text;
