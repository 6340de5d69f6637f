use spoticry::controllers::playlist_controller;
use spoticry::controllers::song_controller::{play_song, stop_song, MIME_MP3};
use spoticry::domain::playlist::{Playlist, Playlists};
use spoticry::domain::song::{Library, Song, Timestamp};
use spoticry::network::protocol::{ErrorCode, PlaylistDetailDto, PlaylistDto, PlaylistSummaryDto, SongDto};
use spoticry::network::stream::CHUNK_SIZE;
use spoticry::repositories::file_repository::{load_library, load_playlists};
use spoticry::states::app_state::StreamRegistry;
use spoticry::text::{contains_str, eq_ignore_ascii_case, same_text, trim};

fn song(id: &str, title: &str, duration: u32) -> Song {
    Song {
        id: id.to_string(),
        title: title.to_string(),
        artist: "A".to_string(),
        genre: "G".to_string(),
        duration_sec: duration,
        bitrate: 1,
        added_at: Timestamp { secs: 1, nanos: 2 },
        path: format!("/m/{id}.mp3"),
    }
}

#[test]
fn registry_tracks_streams() {
    let mut r = StreamRegistry::new();
    assert!(!r.song_in_use(&"s1".to_string()));
    let (tx, mut rx) = tokio::sync::oneshot::channel::<()>();
    r.register_stream("str-a".into(), "s1".into(), tx);
    assert!(r.song_in_use(&"s1".to_string()));
    assert!(!r.song_in_use(&"s2".to_string()));
    assert_eq!(r.unregister_stream("str-a"), Some("s1".to_string()));
    assert!(rx.try_recv().is_err());
    assert!(!r.song_in_use(&"s1".to_string()));
    assert_eq!(r.unregister_stream("str-a"), None);
}

#[test]
fn play_and_stop() {
    let mut r = StreamRegistry::new();
    let mut lib = Library::new();
    lib.insert(song("s1", "T", 90));
    let ack = play_song(&lib, &mut r, &"s1".to_string(), Ok(4096)).unwrap();
    assert!(ack.stream_id.starts_with("str-"));
    assert_eq!(ack.stream_id.len(), 12);
    assert_eq!(ack.song_id, "s1");
    assert_eq!(ack.mime, MIME_MP3);
    assert_eq!(ack.total_bytes, 4096);
    assert_eq!(ack.chunk_size, CHUNK_SIZE);
    assert_eq!(ack.duration_sec, 90);
    assert_eq!(ack.path, "/m/s1.mp3");
    assert!(r.song_in_use(&"s1".to_string()));
    assert!(stop_song(&mut r, &ack.stream_id).is_ok());
    assert!(!r.song_in_use(&"s1".to_string()));
    let e = stop_song(&mut r, "str-none").unwrap_err();
    assert_eq!((e.code, e.message.as_str()), (ErrorCode::StreamNotFound, "Stream str-none not active"));
}

#[test]
fn playlist_controller_commits() {
    let mut lib = Library::new();
    lib.insert(song("s1", "One", 10));
    lib.insert(song("s2", "Two", 20));
    let mut ps = Playlists::new();
    let p = playlist_controller::create(&mut ps, " Mine ", "ana").unwrap();
    assert_eq!(ps.len(), 1);
    let pid = p.id.clone();
    let e = playlist_controller::create(&mut ps, "Mine", "ana").unwrap_err();
    assert_eq!(e.code, ErrorCode::DuplicateName);
    playlist_controller::create(&mut ps, "Other", "bob").unwrap();
    let q = playlist_controller::add_song_to_playlist(&lib, &mut ps, &pid, &"s2".to_string()).unwrap();
    assert_eq!(q.version, 2);
    playlist_controller::add_song_to_playlist(&lib, &mut ps, &pid, &"s1".to_string()).unwrap();
    let (got, songs) = playlist_controller::get(&ps, &lib, &pid).unwrap();
    assert_eq!(got.version, 3);
    assert_eq!(songs.iter().map(|s| s.title.as_str()).collect::<Vec<_>>(), vec!["Two", "One"]);
    let mine = playlist_controller::list(&ps, Some("ana"));
    assert_eq!(mine.len(), 1);
    assert_eq!(playlist_controller::list(&ps, None).len(), 2);
    assert!(playlist_controller::list(&ps, Some("carl")).is_empty());
    let r = playlist_controller::remove_song_from_playlist(&mut ps, &pid, &"s2".to_string()).unwrap();
    assert_eq!(r.song_count(), 1);
    assert_eq!(ps.get(&pid).unwrap().song_count(), 1);
    let e = playlist_controller::remove_song_from_playlist(&mut ps, &pid, &"s2".to_string()).unwrap_err();
    assert_eq!(e.code, ErrorCode::SongNotInPlaylist);
    assert!(playlist_controller::delete(&mut ps, &pid).is_ok());
    let e = playlist_controller::delete(&mut ps, &pid).unwrap_err();
    assert_eq!((e.code, e.message), (ErrorCode::NotFound, format!("Playlist {pid} not found")));
    let e = playlist_controller::get(&ps, &lib, &pid).unwrap_err();
    assert_eq!(e.code, ErrorCode::NotFound);
}

#[test]
fn dtos_copy_fields() {
    let s = song("s1", "One", 10);
    let d = SongDto::from(&s);
    assert_eq!((d.id.as_str(), d.title.as_str(), d.duration_sec, d.added_at), ("s1", "One", 10, Timestamp { secs: 1, nanos: 2 }));
    let mut p = Playlist::new("N".into(), "o".into());
    p.song_ids.push_back("s1".into());
    p.song_ids.push_back("zz".into());
    let pd = PlaylistDto::from(&p);
    assert_eq!(pd.song_ids, vec!["s1".to_string(), "zz".to_string()]);
    assert_eq!(pd.version, 1);
    let ps = PlaylistSummaryDto::from(&p);
    assert_eq!(ps.song_count, 2);
    let det = PlaylistDetailDto::from_parts(&p, &vec![s]);
    assert_eq!(det.songs.len(), 1);
    assert_eq!(det.song_ids.len(), 2);
}

#[test]
fn loading_keeps_the_later_record() {
    let lib = load_library(vec![song("a", "first", 1), song("b", "b", 2), song("a", "second", 3)]);
    assert_eq!(lib.len(), 2);
    assert_eq!(lib.get("a").unwrap().title, "second");
    let p1 = Playlist::new("x".into(), "o".into());
    let mut p2 = p1.clone();
    p2.name = "y".into();
    let ps = load_playlists(vec![p1, p2]);
    assert_eq!(ps.len(), 1);
    assert_eq!(ps.entry(0).name, "y");
}

#[test]
fn text_helpers() {
    assert_eq!(trim("\u{3000} hi there \u{85}\n"), "hi there");
    assert_eq!(trim("   "), "");
    assert!(contains_str("hello world", "o w"));
    assert!(contains_str("abc", ""));
    assert!(!contains_str("abc", "abcd"));
    assert!(eq_ignore_ascii_case("MP3", "mp3"));
    assert!(!eq_ignore_ascii_case("mp3", "mp4"));
    assert!(same_text("x", "x"));
    assert!(!same_text("x", "y"));
}

#[test]
fn reloading_saved_values_gives_back_the_library() {
    let mut lib = Library::new();
    lib.insert(song("a", "first", 1));
    lib.insert(song("b", "second", 2));
    lib.insert(song("a", "third", 3));
    let saved = lib.values();
    let again = load_library(saved);
    assert_eq!(again.len(), lib.len());
    for id in ["a", "b"] {
        assert_eq!(again.get(id).unwrap().title, lib.get(id).unwrap().title);
    }
    assert!(again.get("c").is_none());
}

#[test]
fn play_unknown_song_or_unreadable_file_is_refused() {
    let mut r = StreamRegistry::new();
    let mut lib = Library::new();
    lib.insert(song("s1", "T", 90));
    let e = play_song(&lib, &mut r, &"abc".to_string(), Ok(10)).unwrap_err();
    assert_eq!((e.code, e.message.as_str()), (ErrorCode::NotFound, "Song abc not found"));
    assert!(!r.song_in_use(&"abc".to_string()));
    let e = play_song(&lib, &mut r, &"s1".to_string(), Err("gone".to_string())).unwrap_err();
    assert_eq!((e.code, e.message.as_str()), (ErrorCode::ServerError, "Cannot read song file /m/s1.mp3: gone"));
    assert!(!r.song_in_use(&"s1".to_string()));
}
