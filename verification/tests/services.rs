use spoticry::domain::playlist::{Playlist, Playlists};
use spoticry::domain::song::{Library, Song, Timestamp};
use spoticry::network::protocol::{Criteria, CriteriaField, CriteriaOp, ErrorCode, SortBy, SortOrder, TransformOp};
use spoticry::services::playlist_service;
use spoticry::services::song_service::{
    self, add_from_path, apply_criteria, duration_from, get_song, invalid_value, is_mp3, list_songs, merge_tags,
    meta_from_probe, pois, probe_metadata, tag_key_of, to_tags, ProbedMeta, SongOverrides, SourceFile, Tag, TagKey,
};
use spoticry::services::playlist_service::{inv, map_playlist_err};
use spoticry::domain::playlist::PlaylistError;
use spoticry::states::app_state::StreamRegistry;

fn song(id: &str, title: &str, artist: &str, genre: &str, duration: u32, secs: i64) -> Song {
    Song {
        id: id.to_string(),
        title: title.to_string(),
        artist: artist.to_string(),
        genre: genre.to_string(),
        duration_sec: duration,
        bitrate: 128_000,
        added_at: Timestamp { secs, nanos: 0 },
        path: format!("/music/{id}.mp3"),
    }
}

fn library() -> Library {
    let mut lib = Library::new();
    lib.insert(song("s1", "Filaments", "Scott Buckley", "Ambient", 200, 100));
    lib.insert(song("s2", "Dragon Castle", "Makai Symphony", "Epic", 180, 50));
    lib.insert(song("s3", "The Epic Hero", "Keys Of Moon", "Epic", 240, 75));
    lib
}

fn criteria(field: CriteriaField, op: CriteriaOp, value: Option<&str>, min: Option<i64>, max: Option<i64>) -> Criteria {
    Criteria { field, op, value: value.map(|v| v.to_string()), min, max }
}

fn ids_of(v: &[Song]) -> Vec<String> {
    v.iter().map(|s| s.id.clone()).collect()
}

fn playlists_with(p: Playlist) -> Playlists {
    let mut ps = Playlists::new();
    ps.insert(p);
    ps
}

#[test]
fn list_songs_without_criteria_gives_all_in_order() {
    let lib = library();
    let all = list_songs(&lib, None).unwrap();
    assert_eq!(ids_of(&all), vec!["s1", "s2", "s3"]);
}

#[test]
fn title_criterion_is_case_insensitive_substring() {
    let lib = library();
    let c = criteria(CriteriaField::Title, CriteriaOp::Contains, Some("EPIC"), None, None);
    assert_eq!(ids_of(&list_songs(&lib, Some(&c)).unwrap()), vec!["s3"]);
    let c = criteria(CriteriaField::Artist, CriteriaOp::Contains, Some("moon"), None, None);
    assert_eq!(ids_of(&list_songs(&lib, Some(&c)).unwrap()), vec!["s3"]);
}

#[test]
fn genre_criterion_is_exact() {
    let lib = library();
    let c = criteria(CriteriaField::Genre, CriteriaOp::Equals, Some("Epic"), None, None);
    assert_eq!(ids_of(&list_songs(&lib, Some(&c)).unwrap()), vec!["s2", "s3"]);
    let c = criteria(CriteriaField::Genre, CriteriaOp::Equals, Some("epic"), None, None);
    assert!(list_songs(&lib, Some(&c)).unwrap().is_empty());
}

#[test]
fn duration_range_includes_both_ends_and_clamps() {
    let lib = library();
    let c = criteria(CriteriaField::Duration, CriteriaOp::Range, None, Some(180), Some(200));
    assert_eq!(ids_of(&list_songs(&lib, Some(&c)).unwrap()), vec!["s1", "s2"]);
    let c = criteria(CriteriaField::Duration, CriteriaOp::Range, None, Some(-5), None);
    assert_eq!(ids_of(&list_songs(&lib, Some(&c)).unwrap()), vec!["s1", "s2", "s3"]);
    let c = criteria(CriteriaField::Duration, CriteriaOp::Range, None, None, Some(5_000_000_000));
    assert_eq!(ids_of(&list_songs(&lib, Some(&c)).unwrap()).len(), 3);
    let c = criteria(CriteriaField::Duration, CriteriaOp::Range, None, Some(300), Some(100));
    assert!(list_songs(&lib, Some(&c)).unwrap().is_empty());
}

#[test]
fn added_at_range_on_seconds() {
    let lib = library();
    let c = criteria(CriteriaField::AddedAt, CriteriaOp::Range, None, Some(60), None);
    assert_eq!(ids_of(&list_songs(&lib, Some(&c)).unwrap()), vec!["s1", "s3"]);
    let c = criteria(CriteriaField::AddedAt, CriteriaOp::Range, None, None, Some(75));
    assert_eq!(ids_of(&list_songs(&lib, Some(&c)).unwrap()), vec!["s2", "s3"]);
}

#[test]
fn criteria_errors() {
    let lib = library();
    let c = criteria(CriteriaField::Title, CriteriaOp::Contains, None, None, None);
    let e = list_songs(&lib, Some(&c)).unwrap_err();
    assert_eq!(e.code, ErrorCode::InvalidCriteria);
    assert_eq!(e.message, "value required");
    let c = criteria(CriteriaField::Title, CriteriaOp::Range, Some("x"), None, None);
    let e = apply_criteria(vec![], &c).unwrap_err();
    assert_eq!(e.code, ErrorCode::InvalidCriteria);
    assert_eq!(e.message, "Unsupported field/op combination");
}

#[test]
fn get_song_found_and_not_found() {
    let lib = library();
    assert_eq!(get_song(&lib, &"s2".to_string()).unwrap().title, "Dragon Castle");
    let e = get_song(&lib, &"zz".to_string()).unwrap_err();
    assert_eq!(e.code, ErrorCode::NotFound);
    assert_eq!(e.message, "Song zz not found");
}

#[test]
fn small_error_builders() {
    let e = pois("library");
    assert_eq!(e.code, ErrorCode::ServerError);
    assert_eq!(e.message, "library lock poisoned");
    let e = invalid_value();
    assert_eq!((e.code, e.message.as_str()), (ErrorCode::InvalidCriteria, "value required"));
    let e = inv("bad");
    assert_eq!((e.code, e.message.as_str()), (ErrorCode::InvalidCriteria, "bad"));
    let e = map_playlist_err(PlaylistError::AlreadyInPlaylist);
    assert_eq!((e.code, e.message.as_str()), (ErrorCode::AlreadyInPlaylist, "Song already in playlist"));
    let e = map_playlist_err(PlaylistError::SongNotInPlaylist);
    assert_eq!((e.code, e.message.as_str()), (ErrorCode::SongNotInPlaylist, "Song not in playlist"));
}

#[test]
fn mp3_by_extension_any_case() {
    assert!(is_mp3("song.mp3"));
    assert!(is_mp3("/a/b/Song.MP3"));
    assert!(is_mp3("x.Mp3"));
    assert!(!is_mp3("song.mp4"));
    assert!(!is_mp3("song"));
    assert!(!is_mp3(".mp3"));
    assert!(!is_mp3("song.mp3x"));
}

#[test]
fn duration_from_frames_and_rate() {
    assert_eq!(duration_from(Some(44_100), Some(441_000)), Some(10));
    assert_eq!(duration_from(Some(0), Some(100)), None);
    assert_eq!(duration_from(None, Some(100)), None);
    assert_eq!(duration_from(Some(1), None), None);
    assert_eq!(duration_from(Some(1), Some(u64::from(u32::MAX) + 5)), Some(4));
}

#[test]
fn merge_tags_first_non_empty_wins() {
    let mut meta = ProbedMeta { duration_sec: Some(3), ..Default::default() };
    let tags = vec![
        Tag { key: Some(TagKey::TrackTitle), value: "   ".to_string() },
        Tag { key: Some(TagKey::TrackTitle), value: "  First  ".to_string() },
        Tag { key: Some(TagKey::TrackTitle), value: "Second".to_string() },
        Tag { key: None, value: "ignored".to_string() },
        Tag { key: Some(TagKey::Other), value: "other".to_string() },
        Tag { key: Some(TagKey::Genre), value: "\tRock\n".to_string() },
    ];
    merge_tags(&mut meta, &tags);
    assert_eq!(meta.title.as_deref(), Some("First"));
    assert_eq!(meta.artist, None);
    assert_eq!(meta.genre.as_deref(), Some("Rock"));
    merge_tags(&mut meta, &vec![Tag { key: Some(TagKey::Artist), value: "Band".to_string() }, Tag { key: Some(TagKey::Genre), value: "Pop".to_string() }]);
    assert_eq!(meta.artist.as_deref(), Some("Band"));
    assert_eq!(meta.genre.as_deref(), Some("Rock"));
}

// An MPEG-1 layer III stream of `frames` silent 128 kbit/s, 44.1 kHz
// frames, after an ID3v2.3 tag with this title if one is given.
fn mp3(frames: usize, title: Option<&str>) -> Vec<u8> {
    let mut out = Vec::new();
    if let Some(t) = title {
        let body_len = 1 + t.len();
        let tag_len = 10 + body_len;
        out.extend_from_slice(b"ID3");
        out.extend_from_slice(&[3, 0, 0, 0, 0, 0, tag_len as u8]);
        out.extend_from_slice(b"TIT2");
        out.extend_from_slice(&(body_len as u32).to_be_bytes());
        out.extend_from_slice(&[0, 0, 0]);
        out.extend_from_slice(t.as_bytes());
    }
    for _ in 0..frames {
        out.extend_from_slice(&[0xFF, 0xFB, 0x90, 0x00]);
        out.extend_from_slice(&[0u8; 413]);
    }
    out
}

fn source(path: &str) -> SourceFile {
    SourceFile {
        path: path.to_string(),
        exists: true,
        canonical: Ok(format!("/abs/{path}")),
        content: Some(mp3(3829, Some("Tagged"))),
        file_size: 1_000_000,
    }
}

#[test]
fn probe_reads_duration_and_tags_from_the_bytes() {
    let m = probe_metadata(mp3(3829, Some("Tagged"))).unwrap();
    assert_eq!(m.duration_sec, Some(100));
    assert_eq!(m.title.as_deref(), Some("Tagged"));
    assert_eq!(m.artist, None);
    let m = probe_metadata(mp3(20, None)).unwrap();
    assert_eq!(m.duration_sec, Some(0));
    assert_eq!(m.title, None);
    assert!(probe_metadata(vec![0u8; 4000]).is_none());
    assert!(probe_metadata(Vec::new()).is_none());
}

#[test]
fn add_from_path_builds_the_song() {
    let mut lib = Library::new();
    let s = add_from_path(&mut lib, source("a.mp3"), SongOverrides::default()).unwrap();
    assert_eq!(s.title, "Tagged");
    assert_eq!(s.artist, "Unknown");
    assert_eq!(s.genre, "Unknown");
    assert_eq!(s.duration_sec, 100);
    assert_eq!(s.bitrate, 80_000);
    assert_eq!(s.path, "/abs/a.mp3");
    assert_eq!(s.id.len(), 32);
    assert!(s.id.chars().all(|c| c.is_ascii_hexdigit() && !c.is_ascii_uppercase()));
    assert_eq!(get_song(&lib, &s.id).unwrap().path, "/abs/a.mp3");
}

#[test]
fn add_from_path_fallbacks_and_overrides() {
    let mut lib = Library::new();
    let mut src = source("b.mp3");
    src.content = Some(mp3(20, None));
    let s = add_from_path(&mut lib, src, SongOverrides { title: None, artist: Some("Me".into()), genre: Some("Jazz".into()) }).unwrap();
    assert_eq!(s.title, "b");
    assert_eq!(s.artist, "Me");
    assert_eq!(s.genre, "Jazz");
    assert_eq!(s.bitrate, 0);
    let mut src = source("c.mp3");
    src.content = Some(mp3(3829, None));
    let s = add_from_path(&mut lib, src, SongOverrides { title: Some("Given".into()), ..Default::default() }).unwrap();
    assert_eq!(s.title, "Given");
    let mut src = source("d.mp3");
    src.content = Some(mp3(3829, None));
    src.canonical = Ok("/".to_string());
    let s = add_from_path(&mut lib, src, SongOverrides::default()).unwrap();
    assert_eq!(s.title, "Untitled");
}

#[test]
fn add_from_path_refusals_in_order() {
    let mut lib = Library::new();
    let mut src = source("a.wav");
    src.exists = false;
    let e = add_from_path(&mut lib, src, SongOverrides::default()).unwrap_err();
    assert_eq!(e.code, ErrorCode::FileNotFound);
    assert_eq!(e.message, "Source file does not exist: a.wav");
    let e = add_from_path(&mut lib, source("a.wav"), SongOverrides::default()).unwrap_err();
    assert_eq!((e.code, e.message.as_str()), (ErrorCode::UnsupportedFormat, "Only MP3 supported"));
    let mut src = source("a.mp3");
    src.canonical = Err("denied".to_string());
    let e = add_from_path(&mut lib, src, SongOverrides::default()).unwrap_err();
    assert_eq!((e.code, e.message.as_str()), (ErrorCode::FileNotFound, "Cannot canonicalize: denied"));
    add_from_path(&mut lib, source("a.mp3"), SongOverrides::default()).unwrap();
    let e = add_from_path(&mut lib, source("a.mp3"), SongOverrides::default()).unwrap_err();
    assert_eq!((e.code, e.message.as_str()), (ErrorCode::DuplicateSong, "Song already in library"));
    let mut src = source("x.mp3");
    src.content = Some(vec![0u8; 4000]);
    let e = add_from_path(&mut lib, src, SongOverrides::default()).unwrap_err();
    assert_eq!((e.code, e.message.as_str()), (ErrorCode::UnsupportedFormat, "File is not a decodable MP3 stream"));
    let mut src = source("x2.mp3");
    src.content = None;
    let e = add_from_path(&mut lib, src, SongOverrides::default()).unwrap_err();
    assert_eq!((e.code, e.message.as_str()), (ErrorCode::UnsupportedFormat, "File is not a decodable MP3 stream"));
    let mut src = source("y.mp3");
    src.content = Some(mp3(10, None));
    let e = add_from_path(&mut lib, src, SongOverrides::default()).unwrap_err();
    assert_eq!(e.code, ErrorCode::UnsupportedFormat);
    assert_eq!(e.message, "Cannot determine MP3 duration (corrupt or empty stream)");
    assert_eq!(lib.len(), 1);
}

#[test]
fn remove_song_cascades_into_playlists() {
    let mut lib = library();
    let mut ps = Playlists::new();
    let mut a = Playlist::new("A".into(), "o".into());
    a.song_ids.push_back("s1".into());
    a.song_ids.push_back("s2".into());
    let mut b = Playlist::new("B".into(), "o".into());
    b.song_ids.push_back("s3".into());
    let (aid, bid) = (a.id.clone(), b.id.clone());
    ps.insert(a);
    ps.insert(b);
    let streams = StreamRegistry::new();
    let (removed, touched) = song_service::remove_song(&mut lib, &mut ps, &streams, &"s1".to_string()).unwrap();
    assert_eq!(removed.id, "s1");
    assert!(touched);
    assert!(!lib.contains_key("s1"));
    let a2 = ps.get(&aid).unwrap();
    assert_eq!(a2.song_ids.iter().cloned().collect::<Vec<_>>(), vec!["s2".to_string()]);
    assert_eq!(a2.version, 2);
    assert_eq!(ps.get(&bid).unwrap().version, 1);
    let (_, touched) = song_service::remove_song(&mut lib, &mut ps, &streams, &"s2".to_string()).unwrap();
    assert!(touched);
    let (_, touched) = song_service::remove_song(&mut lib, &mut ps, &streams, &"s3".to_string()).unwrap();
    assert!(touched);
    assert!(ps.values().iter().all(|p| p.song_ids.is_empty()));
}

#[test]
fn remove_song_refusals() {
    let mut lib = library();
    let mut ps = Playlists::new();
    // A playlist at the largest version holds both songs: the refusals come
    // before any playlist would change.
    let mut full = Playlist::new("Full".into(), "o".into());
    full.song_ids.push_back("s1".into());
    full.song_ids.push_back("nope".into());
    full.version = u64::MAX;
    ps.insert(full);
    let mut streams = StreamRegistry::new();
    let (tx, _rx) = tokio::sync::oneshot::channel();
    streams.register_stream("str-1".into(), "s1".into(), tx);
    let e = song_service::remove_song(&mut lib, &mut ps, &streams, &"s1".to_string()).unwrap_err();
    assert_eq!((e.code, e.message.as_str()), (ErrorCode::SongInUse, "Cannot remove song: currently streaming"));
    assert!(lib.contains_key("s1"));
    let e = song_service::remove_song(&mut lib, &mut ps, &streams, &"nope".to_string()).unwrap_err();
    assert_eq!((e.code, e.message.as_str()), (ErrorCode::NotFound, "Song nope not found"));
    assert!(ps.values().iter().all(|p| p.version == u64::MAX && p.song_ids.len() == 2));
}

#[test]
fn create_trims_and_refuses_duplicates_per_owner() {
    let mut ps = Playlists::new();
    let p = playlist_service::create(&ps, "  Chill  ", "ana").unwrap();
    assert_eq!(p.name, "Chill");
    assert_eq!(p.version, 1);
    ps.insert(p);
    let e = playlist_service::create(&ps, "Chill", "ana").unwrap_err();
    assert_eq!((e.code, e.message.as_str()), (ErrorCode::DuplicateName, "Playlist name already exists"));
    assert!(playlist_service::create(&ps, "Chill", "bob").is_ok());
    let e = playlist_service::create(&ps, " \t ", "ana").unwrap_err();
    assert_eq!((e.code, e.message.as_str()), (ErrorCode::InvalidRequest, "Playlist name cannot be empty"));
}

#[test]
fn service_add_and_remove_song_errors() {
    let lib = library();
    let p = Playlist::new("P".into(), "o".into());
    let pid = p.id.clone();
    let ps = playlists_with(p);
    let e = playlist_service::add_song(&lib, &ps, &pid, &"nope".to_string()).unwrap_err();
    assert_eq!((e.code, e.message.as_str()), (ErrorCode::SongNotFound, "Song nope not found"));
    let e = playlist_service::add_song(&lib, &ps, &"pl".to_string(), &"s1".to_string()).unwrap_err();
    assert_eq!((e.code, e.message.as_str()), (ErrorCode::PlaylistNotFound, "Playlist pl not found"));
    let q = playlist_service::add_song(&lib, &ps, &pid, &"s1".to_string()).unwrap();
    let mut ps2 = Playlists::new();
    ps2.insert(q);
    let e = playlist_service::add_song(&lib, &ps2, &pid, &"s1".to_string()).unwrap_err();
    assert_eq!(e.code, ErrorCode::AlreadyInPlaylist);
    let e = playlist_service::remove_song(&ps2, &pid, &"s2".to_string()).unwrap_err();
    assert_eq!(e.code, ErrorCode::SongNotInPlaylist);
    let r = playlist_service::remove_song(&ps2, &pid, &"s1".to_string()).unwrap();
    assert_eq!(r.song_count(), 0);
    assert_eq!(r.version, 3);
}

#[test]
fn service_filter_sort_transform() {
    let lib = library();
    let mut p = Playlist::new("P".into(), "o".into());
    for id in ["s3", "s1", "s2", "s3", "missing"] {
        p.song_ids.push_back(id.to_string());
    }
    let pid = p.id.clone();
    let ps = playlists_with(p);
    let c = criteria(CriteriaField::Genre, CriteriaOp::Equals, Some("Epic"), None, None);
    assert_eq!(ids_of(&playlist_service::filter(&lib, &ps, &pid, &c).unwrap()), vec!["s3", "s2", "s3"]);
    let bad = criteria(CriteriaField::Genre, CriteriaOp::Contains, Some("x"), None, None);
    assert_eq!(playlist_service::filter(&lib, &ps, &pid, &bad).unwrap_err().code, ErrorCode::InvalidCriteria);
    assert_eq!(playlist_service::filter(&lib, &ps, &"zz".to_string(), &bad).unwrap_err().code, ErrorCode::PlaylistNotFound);
    let asc = playlist_service::sort(&lib, &ps, &pid, SortBy::Duration, SortOrder::Asc).unwrap();
    assert_eq!(ids_of(&asc), vec!["s2", "s1", "s3", "s3"]);
    let desc = playlist_service::sort(&lib, &ps, &pid, SortBy::Duration, SortOrder::Desc).unwrap();
    assert_eq!(ids_of(&desc), vec!["s3", "s3", "s1", "s2"]);
    for by in [SortBy::Title, SortBy::Artist, SortBy::Duration, SortBy::AddedAt] {
        let asc = ids_of(&playlist_service::sort(&lib, &ps, &pid, by, SortOrder::Asc).unwrap());
        let mut desc = ids_of(&playlist_service::sort(&lib, &ps, &pid, by, SortOrder::Desc).unwrap());
        desc.reverse();
        assert_eq!(desc, asc);
    }
    assert_eq!(ids_of(&playlist_service::transform(&lib, &ps, &pid, TransformOp::Dedupe, None).unwrap()), vec!["s3", "s1", "s2"]);
    assert_eq!(ids_of(&playlist_service::transform(&lib, &ps, &pid, TransformOp::Reverse, None).unwrap()), vec!["s3", "s2", "s1", "s3"]);
    assert_eq!(ids_of(&playlist_service::transform(&lib, &ps, &pid, TransformOp::Take, Some(2)).unwrap()), vec!["s3", "s1"]);
    assert!(playlist_service::transform(&lib, &ps, &pid, TransformOp::Take, None).unwrap().is_empty());
    assert_eq!(ids_of(&playlist_service::transform(&lib, &ps, &pid, TransformOp::Drop, Some(3)).unwrap()), vec!["s3"]);
    assert_eq!(ps.get(&pid).unwrap().version, 1);
}

#[test]
fn probe_reading_becomes_metadata() {
    assert_eq!(tag_key_of(92), TagKey::TrackTitle);
    assert_eq!(tag_key_of(5), TagKey::Artist);
    assert_eq!(tag_key_of(24), TagKey::Genre);
    assert_eq!(tag_key_of(3), TagKey::Other);
    let tags = to_tags(vec![(Some(92), "T".to_string()), (None, "x".to_string())]);
    assert_eq!(tags.len(), 2);
    assert_eq!((tags[0].key, tags[0].value.as_str()), (Some(TagKey::TrackTitle), "T"));
    assert_eq!((tags[1].key, tags[1].value.as_str()), (None, "x"));
    let m = meta_from_probe(
        Some((Some(44_100), Some(441_000))),
        vec![(Some(92), "  ".to_string()), (Some(5), " Band ".to_string()), (Some(0), "fp".to_string())],
        vec![(Some(92), "Song".to_string()), (Some(5), "Other".to_string()), (Some(24), "Rock".to_string())],
    );
    assert_eq!(m.duration_sec, Some(10));
    assert_eq!(m.title.as_deref(), Some("Song"));
    assert_eq!(m.artist.as_deref(), Some("Band"));
    assert_eq!(m.genre.as_deref(), Some("Rock"));
    let m = meta_from_probe(None, Vec::new(), Vec::new());
    assert_eq!((m.duration_sec, m.title, m.artist, m.genre), (None, None, None, None));
}
