use spoticry::domain::playlist::{
    add_song, dedupe, drop, filter_by, materialize_songs, remove_song, reverse, sort_by, sort_keyed, take, Playlist,
    PlaylistError,
};
use spoticry::domain::predicate::SongPredicate;
use spoticry::domain::song::{Library, Song, Timestamp};
use spoticry::network::protocol::SortBy;

fn song(id: &str, title: &str, artist: &str, genre: &str, duration: u32, secs: i64) -> Song {
    Song {
        id: id.to_string(),
        title: title.to_string(),
        artist: artist.to_string(),
        genre: genre.to_string(),
        duration_sec: duration,
        bitrate: 128_000,
        added_at: Timestamp { secs, nanos: 0 },
        path: format!("/music/{id}.mp3"),
    }
}

fn ids(p: &Playlist) -> Vec<String> {
    p.song_ids.iter().cloned().collect()
}

fn with_songs(list: &[&str]) -> Playlist {
    let mut p = Playlist::new("Mix".to_string(), "ana".to_string());
    for id in list {
        p.song_ids.push_back(id.to_string());
    }
    p
}

fn titles(v: &[Song]) -> Vec<String> {
    v.iter().map(|s| s.title.clone()).collect()
}

#[test]
fn new_playlist_is_empty_at_version_one() {
    let p = Playlist::new("Road trip".to_string(), "ana".to_string());
    assert_eq!(p.name, "Road trip");
    assert_eq!(p.owner, "ana");
    assert_eq!(p.version, 1);
    assert_eq!(p.song_count(), 0);
    assert_eq!(p.id.len(), 36);
    assert_eq!(p.id.chars().filter(|c| *c == '-').count(), 4);
    assert!(p.created_at.nanos < 2_000_000_000);
    let q = Playlist::new("Road trip".to_string(), "ana".to_string());
    assert_ne!(p.id, q.id);
}

#[test]
fn add_song_appends_and_bumps_version() {
    let p = with_songs(&["a"]);
    let q = add_song(&p, "b".to_string()).unwrap();
    assert_eq!(ids(&q), vec!["a", "b"]);
    assert_eq!(q.version, p.version + 1);
    assert_eq!(q.id, p.id);
    assert_eq!(q.name, p.name);
    assert_eq!(ids(&p), vec!["a"]);
    assert!(q.contains(&"b".to_string()));
}

#[test]
fn add_song_refuses_a_song_already_there() {
    let p = with_songs(&["a", "b"]);
    assert_eq!(add_song(&p, "a".to_string()).unwrap_err(), PlaylistError::AlreadyInPlaylist);
}

#[test]
fn remove_song_drops_every_occurrence() {
    let p = with_songs(&["a", "b", "a", "c"]);
    let q = remove_song(&p, &"a".to_string()).unwrap();
    assert_eq!(ids(&q), vec!["b", "c"]);
    assert_eq!(q.version, p.version + 1);
}

#[test]
fn remove_song_refuses_a_missing_song() {
    let p = with_songs(&["a"]);
    assert_eq!(remove_song(&p, &"z".to_string()).unwrap_err(), PlaylistError::SongNotInPlaylist);
}

#[test]
fn dedupe_keeps_first_occurrences() {
    let p = with_songs(&["b", "a", "b", "c", "a"]);
    let q = dedupe(&p);
    assert_eq!(ids(&q), vec!["b", "a", "c"]);
    assert_eq!(q.version, p.version + 1);
}

#[test]
fn dedupe_twice_is_dedupe_once() {
    let p = with_songs(&["x", "y", "x", "x", "z", "y"]);
    let once = dedupe(&p);
    let twice = dedupe(&once);
    assert_eq!(ids(&once), ids(&twice));
}

#[test]
fn reverse_flips_order_and_twice_restores_it() {
    let p = with_songs(&["a", "b", "c"]);
    let r = reverse(&p);
    assert_eq!(ids(&r), vec!["c", "b", "a"]);
    assert_eq!(ids(&reverse(&r)), ids(&p));
}

#[test]
fn take_and_drop_split_the_playlist() {
    let p = with_songs(&["a", "b", "c", "d"]);
    assert_eq!(ids(&take(&p, 2)), vec!["a", "b"]);
    assert_eq!(ids(&drop(&p, 2)), vec!["c", "d"]);
    assert_eq!(ids(&take(&p, 10)), vec!["a", "b", "c", "d"]);
    assert!(ids(&drop(&p, 10)).is_empty());
    assert!(ids(&take(&p, 0)).is_empty());
    for n in 0..6 {
        let mut joined = ids(&take(&p, n));
        joined.extend(ids(&drop(&p, n)));
        assert_eq!(joined, ids(&p));
    }
}

#[test]
fn add_then_remove_restores_ids() {
    let p = with_songs(&["a", "b"]);
    let q = add_song(&p, "c".to_string()).unwrap();
    let r = remove_song(&q, &"c".to_string()).unwrap();
    assert_eq!(ids(&r), ids(&p));
    assert_eq!(r.version, p.version + 2);
}

fn library() -> Library {
    let mut lib = Library::new();
    lib.insert(song("s1", "Filaments", "Scott Buckley", "Ambient", 200, 100));
    lib.insert(song("s2", "dragon castle", "Makai Symphony", "Epic", 180, 50));
    lib.insert(song("s3", "The Epic Hero", "Keys of Moon", "Epic", 200, 75));
    lib
}

#[test]
fn materialize_skips_ids_the_library_lacks() {
    let lib = library();
    let p = with_songs(&["s3", "gone", "s1"]);
    let songs = materialize_songs(&p, &lib);
    assert_eq!(titles(&songs), vec!["The Epic Hero", "Filaments"]);
}

#[test]
fn filter_by_keeps_matching_songs_in_order() {
    let lib = library();
    let p = with_songs(&["s1", "s2", "s3"]);
    let epic = filter_by(&p, &lib, &SongPredicate::GenreEquals("Epic".to_string()));
    assert_eq!(titles(&epic), vec!["dragon castle", "The Epic Hero"]);
    let the = filter_by(&p, &lib, &SongPredicate::TitleContains("the".to_string()));
    assert_eq!(titles(&the), vec!["The Epic Hero"]);
}

#[test]
fn sort_by_title_ignores_case() {
    let lib = library();
    let p = with_songs(&["s1", "s3", "s2"]);
    let sorted = sort_by(&p, &lib, SortBy::Title);
    assert_eq!(titles(&sorted), vec!["dragon castle", "Filaments", "The Epic Hero"]);
}

#[test]
fn sort_by_duration_is_stable() {
    let lib = library();
    let p = with_songs(&["s3", "s2", "s1"]);
    let sorted = sort_by(&p, &lib, SortBy::Duration);
    assert_eq!(titles(&sorted), vec!["dragon castle", "The Epic Hero", "Filaments"]);
    let p2 = with_songs(&["s1", "s2", "s3"]);
    let sorted2 = sort_by(&p2, &lib, SortBy::Duration);
    assert_eq!(titles(&sorted2), vec!["dragon castle", "Filaments", "The Epic Hero"]);
}

#[test]
fn sort_by_added_at_and_artist() {
    let lib = library();
    let p = with_songs(&["s1", "s2", "s3"]);
    assert_eq!(titles(&sort_by(&p, &lib, SortBy::AddedAt)), vec!["dragon castle", "The Epic Hero", "Filaments"]);
    assert_eq!(titles(&sort_by(&p, &lib, SortBy::Artist)), vec!["The Epic Hero", "dragon castle", "Filaments"]);
}

#[test]
fn added_at_orders_by_nanoseconds_within_a_second() {
    let mut lib = Library::new();
    let mut a = song("a", "A", "x", "g", 1, 10);
    a.added_at = Timestamp { secs: 10, nanos: 900 };
    let mut b = song("b", "B", "x", "g", 1, 10);
    b.added_at = Timestamp { secs: 10, nanos: 5 };
    lib.insert(a);
    lib.insert(b);
    let p = with_songs(&["a", "b"]);
    assert_eq!(titles(&sort_by(&p, &lib, SortBy::AddedAt)), vec!["B", "A"]);
}

#[test]
fn sort_keyed_orders_by_the_given_texts_and_keeps_ties_in_order() {
    let src = vec![
        song("a", "Zed", "x", "g", 3, 1),
        song("b", "Alpha", "x", "g", 1, 2),
        song("c", "Mid", "x", "g", 2, 3),
    ];
    let keys: Vec<Vec<char>> = vec!["b".chars().collect(), "c".chars().collect(), "b".chars().collect()];
    let sorted = sort_keyed(SortBy::Title, &src, &keys);
    assert_eq!(titles(&sorted), vec!["Zed", "Mid", "Alpha"]);
    let by_duration = sort_keyed(SortBy::Duration, &src, &keys);
    assert_eq!(titles(&by_duration), vec!["Alpha", "Mid", "Zed"]);
}
