pub mod playlist_controller;
pub mod song_controller;
