//! The server console's command language. A line is a command word, then
//! its argument; `add` and `create-playlist` split their argument at `|`.

use vstd::prelude::*;

use crate::error::text;
use crate::services::song_service::SongOverrides;
use crate::text::{chars_of, is_white, is_whitespace, trim, trimmed};

verus! {

/// The length of the first word of `s` (up to its first white space).
pub open spec fn word_end(s: Seq<char>) -> int
    decreases s.len(),
{
    if s.len() == 0 || is_white(s[0]) {
        0
    } else {
        1 + word_end(s.drop_first())
    }
}

/// The position of the first `|` of `s`, or its length when there is none.
pub open spec fn bar_pos(s: Seq<char>) -> int
    decreases s.len(),
{
    if s.len() == 0 || s[0] == '|' {
        0
    } else {
        1 + bar_pos(s.drop_first())
    }
}

/// `s` cut at its first `limit - 1` bars (what `splitn(limit, '|')` gives).
pub open spec fn pieces(s: Seq<char>, limit: nat) -> Seq<Seq<char>>
    decreases limit,
{
    if limit <= 1 || bar_pos(s) >= s.len() {
        seq![s]
    } else {
        seq![s.take(bar_pos(s))] + pieces(s.skip(bar_pos(s) + 1), (limit - 1) as nat)
    }
}

proof fn lemma_word_end(s: Seq<char>)
    ensures
        0 <= word_end(s) <= s.len(),
        forall|j: int| 0 <= j < word_end(s) ==> !is_white(#[trigger] s[j]),
        word_end(s) < s.len() ==> is_white(s[word_end(s)]),
    decreases s.len(),
{
    if s.len() > 0 && !is_white(s[0]) {
        lemma_word_end(s.drop_first());
        assert forall|j: int| 0 <= j < word_end(s) implies !is_white(#[trigger] s[j]) by {
            if j > 0 {
                assert(s[j] == s.drop_first()[j - 1]);
            }
        }
    }
}

proof fn lemma_bar_pos(s: Seq<char>)
    ensures
        0 <= bar_pos(s) <= s.len(),
        forall|j: int| 0 <= j < bar_pos(s) ==> #[trigger] s[j] != '|',
        bar_pos(s) < s.len() ==> s[bar_pos(s)] == '|',
    decreases s.len(),
{
    if s.len() > 0 && s[0] != '|' {
        lemma_bar_pos(s.drop_first());
        assert forall|j: int| 0 <= j < bar_pos(s) implies #[trigger] s[j] != '|' by {
            if j > 0 {
                assert(s[j] == s.drop_first()[j - 1]);
            }
        }
    }
}

proof fn lemma_word_end_unique(s: Seq<char>, e: int)
    requires
        0 <= e <= s.len(),
        forall|j: int| 0 <= j < e ==> !is_white(#[trigger] s[j]),
        e < s.len() ==> is_white(s[e]),
    ensures
        word_end(s) == e,
    decreases s.len(),
{
    if s.len() > 0 && e > 0 {
        assert forall|j: int| 0 <= j < e - 1 implies !is_white(#[trigger] s.drop_first()[j]) by {
            assert(s.drop_first()[j] == s[j + 1]);
        }
        if e < s.len() {
            assert(s.drop_first()[e - 1] == s[e]);
        }
        lemma_word_end_unique(s.drop_first(), e - 1);
    }
}

proof fn lemma_bar_pos_unique(s: Seq<char>, e: int)
    requires
        0 <= e <= s.len(),
        forall|j: int| 0 <= j < e ==> #[trigger] s[j] != '|',
        e < s.len() ==> s[e] == '|',
    ensures
        bar_pos(s) == e,
    decreases s.len(),
{
    if s.len() > 0 && e > 0 {
        assert forall|j: int| 0 <= j < e - 1 implies #[trigger] s.drop_first()[j] != '|' by {
            assert(s.drop_first()[j] == s[j + 1]);
        }
        if e < s.len() {
            assert(s.drop_first()[e - 1] == s[e]);
        }
        lemma_bar_pos_unique(s.drop_first(), e - 1);
    }
}

/// `s` cut at its first `limit - 1` bars.
pub fn split_bars(s: &str, limit: usize) -> (v: Vec<String>)
    ensures
        v@.map_values(|t: String| t@) == pieces(s@, limit as nat),
    decreases limit,
{
    let cs = chars_of(s);
    let n = cs.len();
    let mut i: usize = 0;
    while i < n && cs[i] != '|'
        invariant
            cs@ == s@,
            n == cs.len(),
            i <= n,
            forall|j: int| 0 <= j < i ==> #[trigger] cs@[j] != '|',
        decreases n - i,
    {
        i = i + 1;
    }
    proof {
        lemma_bar_pos_unique(s@, i as int);
    }
    if limit <= 1 || i >= n {
        let mut v: Vec<String> = Vec::new();
        v.push(s.to_owned());
        assert(v@.map_values(|t: String| t@) =~= seq![s@]);
        return v;
    }
    let head = s.substring_char(0, i).to_owned();
    let tail = s.substring_char(i + 1, n);
    let rest = split_bars(tail, limit - 1);
    let mut v: Vec<String> = Vec::new();
    v.push(head);
    let mut k: usize = 0;
    let m = rest.len();
    while k < m
        invariant
            m == rest.len(),
            k <= m,
            v.len() == k + 1,
            v@[0]@ == s@.take(i as int),
            forall|j: int| 1 <= j <= k ==> (#[trigger] v@[j])@ == rest@[j - 1]@,
        decreases m - k,
    {
        v.push(rest[k].clone());
        k = k + 1;
    }
    proof {
        assert(s@.subrange(0, i as int) =~= s@.take(i as int));
        assert(s@.subrange(i + 1, n as int) =~= s@.skip(i + 1));
        let want = seq![s@.take(i as int)] + pieces(s@.skip(i + 1), (limit - 1) as nat);
        assert(v@.map_values(|t: String| t@) =~= want) by {
            assert forall|j: int| 0 <= j < want.len() implies v@.map_values(|t: String| t@)[j] == want[j] by {
                if j > 0 {
                    assert(v@[j]@ == rest@[j - 1]@);
                    assert(rest@.map_values(|t: String| t@)[j - 1] == rest@[j - 1]@);
                }
            }
        }
    }
    v
}

/// The usage line of `add`.
pub const ADD_USAGE: &'static str = "add <path> [| <title> | <artist> | <genre>]";

/// The usage line of `remove`.
pub const REMOVE_USAGE: &'static str = "remove <song_id>";

/// The usage line of `create-playlist`.
pub const CREATE_USAGE: &'static str = "create-playlist <name> [| <owner>]";

/// The usage line of `delete-playlist`.
pub const DELETE_USAGE: &'static str = "delete-playlist <playlist_id>";

/// A console command.
#[derive(Debug)]
pub enum Command {
    /// An empty line.
    Blank,
    /// Add the MP3 at `path`, with the non-empty overrides given.
    Add { path: String, overrides: SongOverrides },
    /// Remove a song.
    Remove { song_id: String },
    /// List the songs.
    List,
    /// List the playlists.
    Playlists,
    /// Create a playlist.
    CreatePlaylist { name: String, owner: String },
    /// Delete a playlist.
    DeletePlaylist { playlist_id: String },
    /// Save and leave.
    Quit,
    /// Show the commands.
    Help,
    /// A command without the argument it needs; the text is its usage.
    Usage(&'static str),
    /// A word that is no command.
    Unknown(String),
}

/// Piece `i` of `parts` when it is there and not empty.
pub open spec fn given(parts: Seq<Seq<char>>, i: int) -> Option<Seq<char>> {
    if 0 <= i < parts.len() && parts[i].len() > 0 {
        Some(parts[i])
    } else {
        None
    }
}

/// The trimmed pieces of `s` at its first `limit - 1` bars.
pub open spec fn fields(s: Seq<char>, limit: nat) -> Seq<Seq<char>> {
    pieces(s, limit).map_values(|p: Seq<char>| trimmed(p))
}

/// The command word of a line: its first word once trimmed.
pub open spec fn command_word(line: Seq<char>) -> Seq<char> {
    trimmed(line).take(word_end(trimmed(line)))
}

/// The argument of a line: what follows the command word and one white
/// space, trimmed.
pub open spec fn argument(line: Seq<char>) -> Seq<char> {
    let t = trimmed(line);
    let e = word_end(t);
    if e < t.len() {
        trimmed(t.skip(e + 1))
    } else {
        Seq::empty()
    }
}

fn given_exec(parts: &Vec<String>, i: usize) -> (r: Option<String>)
    ensures
        opt_view(r) == given(parts@.map_values(|t: String| t@), i as int),
{
    if i < parts.len() && !parts[i].as_str().is_empty() {
        Some(parts[i].clone())
    } else {
        None
    }
}

/// The text of an optional string.
pub open spec fn opt_view(o: Option<String>) -> Option<Seq<char>> {
    match o {
        Some(s) => Some(s@),
        None => None,
    }
}

fn trim_all(v: Vec<String>) -> (r: Vec<String>)
    ensures
        r@.map_values(|t: String| t@) == v@.map_values(|t: String| t@).map_values(|p: Seq<char>| trimmed(p)),
{
    let n = v.len();
    let mut r: Vec<String> = Vec::new();
    let mut i: usize = 0;
    while i < n
        invariant
            n == v.len(),
            i <= n,
            r.len() == i,
            forall|j: int| 0 <= j < i ==> (#[trigger] r@[j])@ == trimmed(v@[j]@),
        decreases n - i,
    {
        r.push(trim(v[i].as_str()));
        i = i + 1;
    }
    assert(r@.map_values(|t: String| t@) =~= v@.map_values(|t: String| t@).map_values(|p: Seq<char>| trimmed(p)));
    r
}

/// The command that a console line asks for.
pub fn parse_command(line: &str) -> (c: Command)
    ensures
        ({
            let t = trimmed(line@);
            let w = command_word(line@);
            let a = argument(line@);
            if t.len() == 0 {
                c is Blank
            } else if w == "add"@ {
                let f = fields(a, 4);
                if a.len() == 0 || f[0].len() == 0 {
                    c matches Command::Usage(u) && u@ == ADD_USAGE@
                } else {
                    c matches Command::Add { path, overrides } && path@ == f[0] && opt_view(overrides.title)
                        == given(f, 1) && opt_view(overrides.artist) == given(f, 2) && opt_view(
                        overrides.genre,
                    ) == given(f, 3)
                }
            } else if w == "remove"@ {
                if a.len() == 0 {
                    c matches Command::Usage(u) && u@ == REMOVE_USAGE@
                } else {
                    c matches Command::Remove { song_id } && song_id@ == a
                }
            } else if w == "list"@ {
                c is List
            } else if w == "playlists"@ {
                c is Playlists
            } else if w == "create-playlist"@ {
                let f = fields(a, 2);
                if a.len() == 0 || f[0].len() == 0 {
                    c matches Command::Usage(u) && u@ == CREATE_USAGE@
                } else {
                    c matches Command::CreatePlaylist { name, owner } && name@ == f[0] && owner@
                        == match given(f, 1) {
                        Some(o) => o,
                        None => "cli"@,
                    }
                }
            } else if w == "delete-playlist"@ {
                if a.len() == 0 {
                    c matches Command::Usage(u) && u@ == DELETE_USAGE@
                } else {
                    c matches Command::DeletePlaylist { playlist_id } && playlist_id@ == a
                }
            } else if w == "quit"@ || w == "exit"@ {
                c is Quit
            } else if w == "help"@ || w == "?"@ {
                c is Help
            } else {
                c matches Command::Unknown(u) && u@ == w
            }
        }),
{
    let t = trim(line);
    let cs = chars_of(t.as_str());
    let n = cs.len();
    if n == 0 {
        return Command::Blank;
    }
    let mut e: usize = 0;
    while e < n && !is_whitespace(cs[e])
        invariant
            cs@ == t@,
            n == cs.len(),
            e <= n,
            forall|j: int| 0 <= j < e ==> !is_white(#[trigger] cs@[j]),
        decreases n - e,
    {
        e = e + 1;
    }
    proof {
        lemma_word_end_unique(t@, e as int);
    }
    let word = t.as_str().substring_char(0, e).to_owned();
    let arg = if e < n {
        trim(t.as_str().substring_char(e + 1, n))
    } else {
        String::new()
    };
    proof {
        assert(t@.subrange(0, e as int) =~= t@.take(e as int));
        if e < n {
            assert(t@.subrange(e + 1, n as int) =~= t@.skip(e + 1));
        }
        assert(word@ == command_word(line@));
        assert(arg@ == argument(line@));
    }
    let arg_empty = arg.as_str().is_empty();
    if same_word(&word, "add") {
        if arg_empty {
            return Command::Usage(ADD_USAGE);
        }
        let parts = trim_all(split_bars(arg.as_str(), 4));
        if parts[0].as_str().is_empty() {
            return Command::Usage(ADD_USAGE);
        }
        let path = parts[0].clone();
        let overrides = SongOverrides {
            title: given_exec(&parts, 1),
            artist: given_exec(&parts, 2),
            genre: given_exec(&parts, 3),
        };
        Command::Add { path, overrides }
    } else if same_word(&word, "remove") {
        if arg_empty {
            return Command::Usage(REMOVE_USAGE);
        }
        Command::Remove { song_id: arg }
    } else if same_word(&word, "list") {
        Command::List
    } else if same_word(&word, "playlists") {
        Command::Playlists
    } else if same_word(&word, "create-playlist") {
        if arg_empty {
            return Command::Usage(CREATE_USAGE);
        }
        let parts = trim_all(split_bars(arg.as_str(), 2));
        if parts[0].as_str().is_empty() {
            return Command::Usage(CREATE_USAGE);
        }
        let name = parts[0].clone();
        let owner = match given_exec(&parts, 1) {
            Some(o) => o,
            None => text("cli"),
        };
        Command::CreatePlaylist { name, owner }
    } else if same_word(&word, "delete-playlist") {
        if arg_empty {
            return Command::Usage(DELETE_USAGE);
        }
        Command::DeletePlaylist { playlist_id: arg }
    } else if same_word(&word, "quit") || same_word(&word, "exit") {
        Command::Quit
    } else if same_word(&word, "help") || same_word(&word, "?") {
        Command::Help
    } else {
        Command::Unknown(word)
    }
}

fn same_word(w: &String, lit: &str) -> (b: bool)
    ensures
        b == (w@ == lit@),
{
    crate::text::same_text(w.as_str(), lit)
}


/// The snapshots to write after a console command.
#[derive(Debug, Clone, Copy, PartialEq, Eq, Structural)]
pub enum Saves {
    Nothing,
    Library,
    Playlists,
    Both,
}

/// What is saved after command `c`, `done` telling whether a playlist
/// command took effect: the library after any `add` or `remove` (also one
/// that only printed its usage), the playlists after a playlist created or
/// deleted, both on `quit`, nothing otherwise.
pub open spec fn saves_spec(c: Command, done: bool) -> Saves {
    match c {
        Command::Add { .. } | Command::Remove { .. } => Saves::Library,
        Command::Usage(u) => if u@ == ADD_USAGE@ || u@ == REMOVE_USAGE@ {
            Saves::Library
        } else {
            Saves::Nothing
        },
        Command::CreatePlaylist { .. } | Command::DeletePlaylist { .. } => if done {
            Saves::Playlists
        } else {
            Saves::Nothing
        },
        Command::Quit => Saves::Both,
        _ => Saves::Nothing,
    }
}

/// The snapshots to write after command `c`; `done` tells whether a
/// playlist command took effect.
pub fn saves_after(c: &Command, done: bool) -> (s: Saves)
    ensures
        s == saves_spec(*c, done),
{
    match c {
        Command::Add { .. } | Command::Remove { .. } => Saves::Library,
        Command::Usage(u) => if crate::text::same_text(u, ADD_USAGE) || crate::text::same_text(u, REMOVE_USAGE) {
            Saves::Library
        } else {
            Saves::Nothing
        },
        Command::CreatePlaylist { .. } | Command::DeletePlaylist { .. } => if done {
            Saves::Playlists
        } else {
            Saves::Nothing
        },
        Command::Quit => Saves::Both,
        _ => Saves::Nothing,
    }
}

} // verus!
