use spoticry::cli::commands::{parse_command, saves_after, split_bars, Command, Saves, ADD_USAGE, CREATE_USAGE, DELETE_USAGE, REMOVE_USAGE};

#[test]
fn blank_and_simple_words() {
    assert!(matches!(parse_command("   "), Command::Blank));
    assert!(matches!(parse_command("list"), Command::List));
    assert!(matches!(parse_command("  playlists  "), Command::Playlists));
    assert!(matches!(parse_command("quit"), Command::Quit));
    assert!(matches!(parse_command("exit"), Command::Quit));
    assert!(matches!(parse_command("help"), Command::Help));
    assert!(matches!(parse_command("?"), Command::Help));
    assert!(matches!(parse_command("dance now"), Command::Unknown(w) if w == "dance"));
    assert!(matches!(parse_command("List"), Command::Unknown(w) if w == "List"));
}

#[test]
fn add_with_overrides() {
    match parse_command("add ./songs/a.mp3 | My Title | My Artist | Rock") {
        Command::Add { path, overrides } => {
            assert_eq!(path, "./songs/a.mp3");
            assert_eq!(overrides.title.as_deref(), Some("My Title"));
            assert_eq!(overrides.artist.as_deref(), Some("My Artist"));
            assert_eq!(overrides.genre.as_deref(), Some("Rock"));
        }
        other => panic!("{other:?}"),
    }
    match parse_command("add foo.mp3 || Some Artist | Rock") {
        Command::Add { path, overrides } => {
            assert_eq!(path, "foo.mp3");
            assert_eq!(overrides.title, None);
            assert_eq!(overrides.artist.as_deref(), Some("Some Artist"));
            assert_eq!(overrides.genre.as_deref(), Some("Rock"));
        }
        other => panic!("{other:?}"),
    }
    match parse_command("add a.mp3 | t | a | g | extra") {
        Command::Add { overrides, .. } => assert_eq!(overrides.genre.as_deref(), Some("g | extra")),
        other => panic!("{other:?}"),
    }
    match parse_command("add   spaced name.mp3  ") {
        Command::Add { path, overrides } => {
            assert_eq!(path, "spaced name.mp3");
            assert_eq!(overrides.title, None);
        }
        other => panic!("{other:?}"),
    }
}

#[test]
fn usage_errors() {
    assert!(matches!(parse_command("add"), Command::Usage(u) if u == ADD_USAGE));
    assert!(matches!(parse_command("add  | title"), Command::Usage(u) if u == ADD_USAGE));
    assert!(matches!(parse_command("remove"), Command::Usage(u) if u == REMOVE_USAGE));
    assert!(matches!(parse_command("create-playlist"), Command::Usage(u) if u == CREATE_USAGE));
    assert!(matches!(parse_command("create-playlist | bob"), Command::Usage(u) if u == CREATE_USAGE));
    assert!(matches!(parse_command("delete-playlist   "), Command::Usage(u) if u == DELETE_USAGE));
}

#[test]
fn playlist_commands() {
    assert!(matches!(parse_command("create-playlist Road Trip"), Command::CreatePlaylist { name, owner } if name == "Road Trip" && owner == "cli"));
    assert!(matches!(parse_command("create-playlist Road Trip | ana "), Command::CreatePlaylist { name, owner } if name == "Road Trip" && owner == "ana"));
    assert!(matches!(parse_command("create-playlist Mix |  "), Command::CreatePlaylist { name, owner } if name == "Mix" && owner == "cli"));
    assert!(matches!(parse_command("delete-playlist abc-123"), Command::DeletePlaylist { playlist_id } if playlist_id == "abc-123"));
    assert!(matches!(parse_command("remove\tsong42 "), Command::Remove { song_id } if song_id == "song42"));
}

#[test]
fn bars_split_like_splitn() {
    assert_eq!(split_bars("a|b|c", 2), vec!["a", "b|c"]);
    assert_eq!(split_bars("a|b|c", 4), vec!["a", "b", "c"]);
    assert_eq!(split_bars("abc", 4), vec!["abc"]);
    assert_eq!(split_bars("|", 4), vec!["", ""]);
    assert_eq!(split_bars("a||b|c|d", 4), vec!["a", "", "b", "c|d"]);
}

#[test]
fn saves_follow_the_command() {
    assert_eq!(saves_after(&parse_command("add x.mp3"), true), Saves::Library);
    assert_eq!(saves_after(&parse_command("add"), false), Saves::Library);
    assert_eq!(saves_after(&parse_command("remove"), false), Saves::Library);
    assert_eq!(saves_after(&parse_command("remove abc"), true), Saves::Library);
    assert_eq!(saves_after(&parse_command("create-playlist Mix"), true), Saves::Playlists);
    assert_eq!(saves_after(&parse_command("create-playlist Mix"), false), Saves::Nothing);
    assert_eq!(saves_after(&parse_command("create-playlist"), false), Saves::Nothing);
    assert_eq!(saves_after(&parse_command("delete-playlist p1"), true), Saves::Playlists);
    assert_eq!(saves_after(&parse_command("delete-playlist"), false), Saves::Nothing);
    assert_eq!(saves_after(&parse_command("quit"), true), Saves::Both);
    assert_eq!(saves_after(&parse_command("list"), true), Saves::Nothing);
    assert_eq!(saves_after(&parse_command("bogus"), false), Saves::Nothing);
}
