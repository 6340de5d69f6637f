pub mod playlist_service;
pub mod song_service;
