//! The song service: queries over the library, and the additions and
//! removals that the server's console makes.

use vstd::prelude::*;

use crate::domain::playlist::{self, Playlist, PlaylistView, Playlists, with_ids, without};
use crate::domain::predicate::{criteria_holds, criteria_refusal, criteria_refused, meets, needs_value};
use crate::domain::song::{Library, Song, SongId};
use crate::error::{AppError, join2, join3, text};
use crate::network::protocol::{Criteria, CriteriaField, CriteriaOp, ErrorCode};
use crate::outside::{
    extension_of, is_lower_hex, mp3_probe, new_uuid_simple, path_extension, path_stem, probe_format_tags, probe_probe_tags, probe_track,
    stem_of,
    utc_now,
};
use crate::services::playlist_service::{criteria_predicate, not_found_message};
use crate::states::app_state::StreamRegistry;
use crate::store::{Keyed, keyed_map, lemma_keyed_map};
use crate::text::{opt_text, eq_ascii_case, eq_ignore_ascii_case, trim, trimmed};

verus! {

/// All songs of the library in its order, or those that meet `criteria`.
pub fn list_songs(lib: &Library, criteria: Option<&Criteria>) -> (r: Result<Vec<Song>, AppError>)
    ensures
        match criteria {
            None => r matches Ok(v) && v@ == lib.entries(),
            Some(c) => match r {
                Ok(v) => !criteria_refused(*c) && v@ == lib.entries().filter(meets(*c)),
                Err(e) => criteria_refused(*c) && e.code == ErrorCode::InvalidCriteria && e.message@
                    == criteria_refusal(*c),
            },
        },
{
    let all = lib.values();
    assert(all@ =~= all@.map_values(|t: Song| t@));
    match criteria {
        None => Ok(all),
        Some(c) => apply_criteria(all, c),
    }
}

/// The song with id `song_id`; `NotFound` when the library lacks it.
pub fn get_song(lib: &Library, song_id: &SongId) -> (r: Result<Song, AppError>)
    requires
        lib.wf(),
    ensures
        match r {
            Ok(s) => lib.spec_map().contains_key(song_id@) && s == lib.spec_map()[song_id@],
            Err(e) => !lib.spec_map().contains_key(song_id@) && e.code == ErrorCode::NotFound
                && e.message@ == not_found_message("Song "@, song_id@),
        },
{
    match lib.get(song_id.as_str()) {
        Some(s) => Ok(s.clone()),
        None => Err(AppError::new(ErrorCode::NotFound, join3("Song ", song_id.as_str(), " not found"))),
    }
}

/// The songs of `songs` that meet `c`, in order; refused as the criterion
/// is.
pub fn apply_criteria(songs: Vec<Song>, c: &Criteria) -> (r: Result<Vec<Song>, AppError>)
    ensures
        match r {
            Ok(v) => !criteria_refused(*c) && v@ == songs@.filter(meets(*c)),
            Err(e) => criteria_refused(*c) && e.code == ErrorCode::InvalidCriteria && e.message@
                == criteria_refusal(*c),
        },
{
    if needs_value_exec(c) && c.value.is_none() {
        return Err(invalid_value());
    }
    let pred = criteria_predicate(c)?;
    let n = songs.len();
    let mut out: Vec<Song> = Vec::new();
    let mut i: usize = 0;
    while i < n
        invariant
            n == songs.len(),
            i <= n,
            forall|s: Song| pred.holds(s) == criteria_holds(*c, s),
            out@ == songs@.take(i as int).filter(meets(*c)),
        decreases n - i,
    {
        proof {
            reveal_with_fuel(Seq::filter, 1);
            assert(songs@.take(i + 1).drop_last() =~= songs@.take(i as int));
        }
        if pred.matches(&songs[i]) {
            out.push(songs[i].clone());
        }
        i = i + 1;
    }
    assert(songs@.take(n as int) =~= songs@);
    Ok(out)
}

fn needs_value_exec(c: &Criteria) -> (b: bool)
    ensures
        b == needs_value(*c),
{
    (c.field == CriteriaField::Title && c.op == CriteriaOp::Contains) || (c.field == CriteriaField::Artist
        && c.op == CriteriaOp::Contains) || (c.field == CriteriaField::Genre && c.op == CriteriaOp::Equals)
}

/// Values that the console gives in place of the file's tags.
#[derive(Debug, Default)]
pub struct SongOverrides {
    pub title: Option<String>,
    pub artist: Option<String>,
    pub genre: Option<String>,
}

/// The tag kinds that the library reads from an MP3 file.
#[derive(Debug, Clone, Copy, PartialEq, Eq, Structural)]
pub enum TagKey {
    TrackTitle,
    Artist,
    Genre,
    Other,
}

/// One tag of a file: its standard kind if it has one, and its text.
#[derive(Debug)]
pub struct Tag {
    pub key: Option<TagKey>,
    pub value: String,
}

/// What a probe of an MP3 file found.
#[derive(Debug, Default)]
pub struct ProbedMeta {
    pub duration_sec: Option<u32>,
    pub title: Option<String>,
    pub artist: Option<String>,
    pub genre: Option<String>,
}

/// What a probe found, as values.
pub struct ProbedView {
    pub duration_sec: Option<u32>,
    pub title: Option<Seq<char>>,
    pub artist: Option<Seq<char>>,
    pub genre: Option<Seq<char>>,
}

impl View for ProbedMeta {
    type V = ProbedView;

    open spec fn view(&self) -> ProbedView {
        ProbedView {
            duration_sec: self.duration_sec,
            title: opt_text(self.title),
            artist: opt_text(self.artist),
            genre: opt_text(self.genre),
        }
    }
}

/// The tag kind that a standard tag key of `symphonia` stands for, the key
/// given by its position in the declaration of `StandardTagKey` (`Artist` is
/// the sixth, `Genre` the twenty-fifth, `TrackTitle` the ninety-third).
pub open spec fn std_tag_key(k: u32) -> TagKey {
    if k == 92 {
        TagKey::TrackTitle
    } else if k == 5 {
        TagKey::Artist
    } else if k == 24 {
        TagKey::Genre
    } else {
        TagKey::Other
    }
}

/// Probed tags (standard key position, text) as tags of the library.
pub open spec fn keyed_tags(tags: Seq<(Option<u32>, Seq<char>)>) -> Seq<(Option<TagKey>, Seq<char>)> {
    tags.map_values(
        |t: (Option<u32>, Seq<char>)|
            (
                match t.0 {
                    Some(k) => Some(std_tag_key(k)),
                    None => None,
                },
                t.1,
            ),
    )
}

/// Probed tags as values.
pub open spec fn raw_tags(tags: Seq<(Option<u32>, String)>) -> Seq<(Option<u32>, Seq<char>)> {
    tags.map_values(|t: (Option<u32>, String)| (t.0, t.1@))
}

/// The metadata that a probe's reading gives: the duration of the first
/// track (none without one), and the title, artist and genre from the
/// format reader's tags first, then the probe's.
pub open spec fn probed_from_parts(
    track: Option<(Option<u32>, Option<u64>)>,
    format_tags: Seq<(Option<u32>, Seq<char>)>,
    probe_tags: Seq<(Option<u32>, Seq<char>)>,
) -> ProbedView {
    let d = match track {
        Some(t) => duration_of(t.0, t.1),
        None => None,
    };
    merged(
        merged(ProbedView { duration_sec: d, title: None, artist: None, genre: None }, keyed_tags(format_tags)),
        keyed_tags(probe_tags),
    )
}

/// What the probe of an MP3 file's bytes gives: none when the bytes are no
/// decodable MP3 stream, else the metadata its reading gives.
pub open spec fn probe_view(bytes: Seq<u8>) -> Option<ProbedView> {
    match mp3_probe(bytes) {
        None => None,
        Some(p) => Some(probed_from_parts(p.0, p.1, p.2)),
    }
}

/// The tag kind of the standard key at position `k` of `StandardTagKey`.
pub fn tag_key_of(k: u32) -> (r: TagKey)
    ensures
        r == std_tag_key(k),
{
    if k == 92 {
        TagKey::TrackTitle
    } else if k == 5 {
        TagKey::Artist
    } else if k == 24 {
        TagKey::Genre
    } else {
        TagKey::Other
    }
}

/// Probed tags as tags of the library.
pub fn to_tags(raw: Vec<(Option<u32>, String)>) -> (r: Vec<Tag>)
    ensures
        tag_values(r@) == keyed_tags(raw_tags(raw@)),
{
    let n = raw.len();
    let mut out: Vec<Tag> = Vec::new();
    let mut i: usize = 0;
    while i < n
        invariant
            n == raw.len(),
            i <= n,
            tag_values(out@) == keyed_tags(raw_tags(raw@)).take(i as int),
        decreases n - i,
    {
        let key = match raw[i].0 {
            Some(k) => Some(tag_key_of(k)),
            None => None,
        };
        let t = Tag { key, value: raw[i].1.clone() };
        let ghost before = out@;
        out.push(t);
        assert(tag_values(out@) =~= tag_values(before).push((key, raw@[i as int].1@)));
        assert(keyed_tags(raw_tags(raw@)).take(i + 1) =~= keyed_tags(raw_tags(raw@)).take(i as int).push(
            (key, raw@[i as int].1@),
        ));
        i = i + 1;
    }
    assert(keyed_tags(raw_tags(raw@)).take(n as int) =~= keyed_tags(raw_tags(raw@)));
    out
}

/// The metadata that a probe's reading gives: the first track's sample rate
/// and frame count, and the tags of the format reader's and of the probe's
/// current metadata revision.
pub fn meta_from_probe(
    track: Option<(Option<u32>, Option<u64>)>,
    format_tags: Vec<(Option<u32>, String)>,
    probe_tags: Vec<(Option<u32>, String)>,
) -> (m: ProbedMeta)
    ensures
        m@ == probed_from_parts(track, raw_tags(format_tags@), raw_tags(probe_tags@)),
{
    let duration_sec = match track {
        Some((sample_rate, n_frames)) => duration_from(sample_rate, n_frames),
        None => None,
    };
    let mut meta = ProbedMeta { duration_sec, title: None, artist: None, genre: None };
    merge_tags(&mut meta, &to_tags(format_tags));
    merge_tags(&mut meta, &to_tags(probe_tags));
    meta
}

/// The metadata of the MP3 file whose bytes are `bytes`; none when they are
/// no decodable MP3 stream.
pub fn probe_metadata(bytes: Vec<u8>) -> (r: Option<ProbedMeta>)
    ensures
        match r {
            Some(m) => probe_view(bytes@) == Some(m@),
            None => probe_view(bytes@) is None,
        },
{
    let track = match probe_track(&bytes) {
        Some(t) => t,
        None => return None,
    };
    let format_tags = match probe_format_tags(&bytes) {
        Some(t) => t,
        None => return None,
    };
    let probe_tags = match probe_probe_tags(&bytes) {
        Some(t) => t,
        None => return None,
    };
    Some(meta_from_probe(track, format_tags, probe_tags))
}

/// The duration in whole seconds that a track's frame count and sample rate
/// give (the quotient cut to 32 bits, as a cast does); none without both, or
/// at rate 0.
pub open spec fn duration_of(sample_rate: Option<u32>, n_frames: Option<u64>) -> Option<u32> {
    match (sample_rate, n_frames) {
        (Some(sr), Some(f)) => if sr == 0 {
            None
        } else {
            Some((f / (sr as u64)) as u32)
        },
        _ => None,
    }
}

/// The duration of a track from its frame count and sample rate.
pub fn duration_from(sample_rate: Option<u32>, n_frames: Option<u64>) -> (r: Option<u32>)
    ensures
        r == duration_of(sample_rate, n_frames),
{
    match (sample_rate, n_frames) {
        (Some(sr), Some(f)) => if sr == 0 {
            None
        } else {
            Some((f / (sr as u64)) as u32)
        },
        _ => None,
    }
}

/// `m` after one tag: a title, artist or genre tag whose trimmed text is not
/// empty fills its slot if that slot is still empty.
pub open spec fn merge_one(m: ProbedView, key: Option<TagKey>, value: Seq<char>) -> ProbedView {
    let v = trimmed(value);
    if key is None || v.len() == 0 {
        m
    } else {
        match key->0 {
            TagKey::TrackTitle => if m.title is None { ProbedView { title: Some(v), ..m } } else { m },
            TagKey::Artist => if m.artist is None { ProbedView { artist: Some(v), ..m } } else { m },
            TagKey::Genre => if m.genre is None { ProbedView { genre: Some(v), ..m } } else { m },
            TagKey::Other => m,
        }
    }
}

/// `m` after the tags of `tags`, in order: the first usable tag of each kind
/// wins.
pub open spec fn merged(m: ProbedView, tags: Seq<(Option<TagKey>, Seq<char>)>) -> ProbedView
    decreases tags.len(),
{
    if tags.len() == 0 {
        m
    } else {
        let t = tags.last();
        merge_one(merged(m, tags.drop_last()), t.0, t.1)
    }
}

/// The tags as values.
pub open spec fn tag_values(tags: Seq<Tag>) -> Seq<(Option<TagKey>, Seq<char>)> {
    tags.map_values(|t: Tag| (t.key, t.value@))
}

/// Fills the empty title, artist and genre of `meta` from `tags`.
pub fn merge_tags(meta: &mut ProbedMeta, tags: &Vec<Tag>)
    ensures
        final(meta)@ == merged(old(meta)@, tag_values(tags@)),
{
    let ghost start = meta@;
    let n = tags.len();
    let mut i: usize = 0;
    while i < n
        invariant
            n == tags.len(),
            i <= n,
            meta@ == merged(start, tag_values(tags@).take(i as int)),
        decreases n - i,
    {
        proof {
            assert(tag_values(tags@).take(i + 1).drop_last() =~= tag_values(tags@).take(i as int));
        }
        let tag = &tags[i];
        match tag.key {
            Some(key) => {
                let v = trim(tag.value.as_str());
                if !v.as_str().is_empty() {
                    match key {
                        TagKey::TrackTitle => if meta.title.is_none() {
                            meta.title = Some(v);
                        },
                        TagKey::Artist => if meta.artist.is_none() {
                            meta.artist = Some(v);
                        },
                        TagKey::Genre => if meta.genre.is_none() {
                            meta.genre = Some(v);
                        },
                        TagKey::Other => {},
                    }
                }
            },
            None => {},
        }
        i = i + 1;
    }
    assert(tag_values(tags@).take(n as int) =~= tag_values(tags@));
}

/// The path names an MP3 file by its extension, in any ASCII case.
pub open spec fn is_mp3_path(p: Seq<char>) -> bool {
    match path_extension(p) {
        Some(e) => eq_ascii_case(e, "mp3"@),
        None => false,
    }
}

/// Whether the path's extension is "mp3", in any ASCII case.
pub fn is_mp3(path: &str) -> (b: bool)
    ensures
        b == is_mp3_path(path@),
{
    match extension_of(path) {
        Some(e) => eq_ignore_ascii_case(e.as_str(), "mp3"),
        None => false,
    }
}

/// A `ServerError` for a shared value whose lock was poisoned.
pub fn pois(what: &str) -> (e: AppError)
    ensures
        e.code == ErrorCode::ServerError,
        e.message@ == what@ + " lock poisoned"@,
{
    let mut m = what.to_owned();
    m.append(" lock poisoned");
    AppError::new(ErrorCode::ServerError, m)
}

/// The `InvalidCriteria` error for a criterion that lacks its value.
pub fn invalid_value() -> (e: AppError)
    ensures
        e.code == ErrorCode::InvalidCriteria,
        e.message@ == "value required"@,
{
    AppError::new(ErrorCode::InvalidCriteria, text("value required"))
}


/// What the file system says of a file that the console asks to add: the
/// path as given, whether it exists, its canonical form (or the text of the
/// error that canonicalising gave), the bytes of the canonical file (none
/// when they could not be read), and its size in bytes (0 when unknown).
#[derive(Debug)]
pub struct SourceFile {
    pub path: String,
    pub exists: bool,
    pub canonical: Result<String, String>,
    pub content: Option<Vec<u8>>,
    pub file_size: u64,
}

/// What the probe of a source file's bytes found: none when they could not
/// be read or are no decodable MP3 stream.
pub open spec fn probed_of(content: Option<Vec<u8>>) -> Option<ProbedView> {
    match content {
        Some(b) => probe_view(b@),
        None => None,
    }
}

/// Adding `source` to a library with songs `songs` gets as far as computing
/// the bitrate from the file size: every check passes and the duration is
/// not zero.
pub open spec fn computes_bitrate(songs: Seq<Song>, source: SourceFile) -> bool {
    &&& source.exists
    &&& is_mp3_path(source.path@)
    &&& source.canonical is Ok
    &&& !path_taken(songs, source.canonical->Ok_0@)
    &&& probed_of(source.content) matches Some(p)
    &&& p.duration_sec matches Some(d)
    &&& d > 0
}

/// Some song of `songs` has file `path`.
pub open spec fn path_taken(songs: Seq<Song>, path: Seq<char>) -> bool {
    exists|i: int| 0 <= i < songs.len() && songs[i].path@ == path
}

/// The first text present, in order, else `default`.
pub open spec fn first_of(a: Option<Seq<char>>, b: Option<Seq<char>>, c: Option<Seq<char>>, default: Seq<char>) -> Seq<char> {
    match a {
        Some(x) => x,
        None => match b {
            Some(x) => x,
            None => match c {
                Some(x) => x,
                None => default,
            },
        },
    }
}

/// The first text given wins: a given first text is the result whatever
/// follows; without it the second, then the third, then the default.
pub proof fn lemma_first_given_wins(
    a: Option<Seq<char>>,
    b: Option<Seq<char>>,
    c: Option<Seq<char>>,
    default: Seq<char>,
)
    ensures
        a is Some ==> first_of(a, b, c, default) == a->0,
        a is None && b is Some ==> first_of(a, b, c, default) == b->0,
        a is None && b is None && c is Some ==> first_of(a, b, c, default) == c->0,
        a is None && b is None && c is None ==> first_of(a, b, c, default) == default,
{
}

/// The bitrate that a file size and duration give: bits per second, cut to
/// 32 bits as a cast does; 0 for a zero duration.
pub open spec fn bitrate_of(file_size: u64, duration_sec: u32) -> u32 {
    if duration_sec > 0 {
        (((file_size * 8) as u64) / (duration_sec as u64)) as u32
    } else {
        0
    }
}

fn pick(a: Option<String>, b: Option<String>, c: Option<String>, default: &str) -> (r: String)
    ensures
        r@ == first_of(opt_text(a), opt_text(b), opt_text(c), default@),
{
    match a {
        Some(x) => x,
        None => match b {
            Some(x) => x,
            None => match c {
                Some(x) => x,
                None => text(default),
            },
        },
    }
}

/// Adds the MP3 file that `source` describes to the library, under a fresh
/// random id. Refused, checked in this order: `FileNotFound` when the file
/// does not exist; `UnsupportedFormat` when its extension is not "mp3";
/// `FileNotFound` when it cannot be canonicalised; `DuplicateSong` when a
/// song of the library has the same canonical path; `UnsupportedFormat` when
/// the probe found no MP3 stream, or no duration. Title, artist and genre
/// come from the overrides, then the file's tags, then (title only) the stem
/// of the canonical path, then "Untitled" / "Unknown".
pub fn add_from_path(lib: &mut Library, source: SourceFile, overrides: SongOverrides) -> (r: Result<Song, AppError>)
    requires
        old(lib).wf(),
        computes_bitrate(old(lib).entries(), source) ==> source.file_size <= u64::MAX / 8,
    ensures
        final(lib).wf(),
        match r {
            Ok(song) => {
                &&& source.exists
                &&& is_mp3_path(source.path@)
                &&& source.canonical is Ok
                &&& !path_taken(old(lib).entries(), source.canonical->Ok_0@)
                &&& probed_of(source.content) is Some
                &&& probed_of(source.content)->0.duration_sec is Some
                &&& song.path@ == source.canonical->Ok_0@
                &&& song.duration_sec == probed_of(source.content)->0.duration_sec->0
                &&& song.bitrate == bitrate_of(source.file_size, song.duration_sec)
                &&& song.title@ == first_of(opt_text(overrides.title), probed_of(source.content)->0.title, path_stem(source.canonical->Ok_0@), "Untitled"@)
                &&& song.artist@ == first_of(opt_text(overrides.artist), probed_of(source.content)->0.artist, None, "Unknown"@)
                &&& song.genre@ == first_of(opt_text(overrides.genre), probed_of(source.content)->0.genre, None, "Unknown"@)
                &&& (overrides.title is Some ==> song.title@ == overrides.title->0@)
                &&& (overrides.artist is Some ==> song.artist@ == overrides.artist->0@)
                &&& (overrides.genre is Some ==> song.genre@ == overrides.genre->0@)
                &&& (overrides.title is None && probed_of(source.content)->0.title is Some ==> song.title@ == probed_of(source.content)->0.title->0)
                &&& (overrides.artist is None && probed_of(source.content)->0.artist is Some ==> song.artist@ == probed_of(source.content)->0.artist->0)
                &&& (overrides.genre is None && probed_of(source.content)->0.genre is Some ==> song.genre@ == probed_of(source.content)->0.genre->0)
                &&& song.id@.len() == 32
                &&& forall|i: int| 0 <= i < 32 ==> is_lower_hex(#[trigger] song.id@[i])
                &&& song.added_at.nanos < 2_000_000_000
                &&& final(lib).spec_map() == old(lib).spec_map().insert(song.id@, song)
            },
            Err(e) => {
                &&& final(lib).spec_map() == old(lib).spec_map()
                &&& final(lib).entries() == old(lib).entries()
                &&& if !source.exists {
                    e.code == ErrorCode::FileNotFound && e.message@ == "Source file does not exist: "@ + source.path@
                } else if !is_mp3_path(source.path@) {
                    e.code == ErrorCode::UnsupportedFormat && e.message@ == "Only MP3 supported"@
                } else if source.canonical is Err {
                    e.code == ErrorCode::FileNotFound && e.message@ == "Cannot canonicalize: "@ + source.canonical->Err_0@
                } else if path_taken(old(lib).entries(), source.canonical->Ok_0@) {
                    e.code == ErrorCode::DuplicateSong && e.message@ == "Song already in library"@
                } else if probed_of(source.content) is None {
                    e.code == ErrorCode::UnsupportedFormat && e.message@ == "File is not a decodable MP3 stream"@
                } else {
                    probed_of(source.content)->0.duration_sec is None && e.code == ErrorCode::UnsupportedFormat
                        && e.message@ == "Cannot determine MP3 duration (corrupt or empty stream)"@
                }
            },
        },
{
    if !source.exists {
        return Err(AppError::new(ErrorCode::FileNotFound, join2("Source file does not exist: ", source.path.as_str())));
    }
    if !is_mp3(source.path.as_str()) {
        return Err(AppError::new(ErrorCode::UnsupportedFormat, text("Only MP3 supported")));
    }
    let canonical = match source.canonical {
        Ok(c) => c,
        Err(e) => {
            return Err(AppError::new(ErrorCode::FileNotFound, join2("Cannot canonicalize: ", e.as_str())));
        },
    };
    let n = lib.len();
    let mut i: usize = 0;
    while i < n
        invariant
            n == lib.entries().len(),
            lib.wf(),
            lib.entries() == old(lib).entries(),
            source.exists,
            is_mp3_path(source.path@),
            source.canonical is Ok,
            canonical@ == source.canonical->Ok_0@,
            i <= n,
            forall|j: int| 0 <= j < i ==> lib.entries()[j].path@ != canonical@,
        decreases n - i,
    {
        if lib.entry(i).path == canonical {
            assert(lib.entries()[i as int].path@ == canonical@);
            return Err(AppError::new(ErrorCode::DuplicateSong, text("Song already in library")));
        }
        i = i + 1;
    }
    let probed = match source.content {
        Some(bytes) => probe_metadata(bytes),
        None => None,
    };
    let probed = match probed {
        Some(p) => p,
        None => {
            return Err(AppError::new(ErrorCode::UnsupportedFormat, text("File is not a decodable MP3 stream")));
        },
    };
    let duration_sec = match probed.duration_sec {
        Some(d) => d,
        None => {
            return Err(AppError::new(
                ErrorCode::UnsupportedFormat,
                text("Cannot determine MP3 duration (corrupt or empty stream)"),
            ));
        },
    };
    let bitrate: u32 = if duration_sec > 0 {
        (source.file_size * 8 / (duration_sec as u64)) as u32
    } else {
        0
    };
    let stem = stem_of(canonical.as_str());
    let title = pick(overrides.title, probed.title, stem, "Untitled");
    let artist = pick(overrides.artist, probed.artist, None, "Unknown");
    let genre = pick(overrides.genre, probed.genre, None, "Unknown");
    let song = Song {
        id: new_uuid_simple(),
        title,
        artist,
        genre,
        duration_sec,
        bitrate,
        added_at: utc_now(),
        path: canonical,
    };
    let stored = song.clone();
    let _ = lib.insert(stored);
    Ok(song)
}


/// Playlist `p` once song `sid` is gone: without it and one version on when
/// it held the song, else unchanged.
pub open spec fn cascade_one(p: PlaylistView, sid: Seq<char>) -> PlaylistView {
    if p.song_ids.contains(sid) {
        with_ids(p, without(p.song_ids, sid))
    } else {
        p
    }
}

/// Every playlist once song `sid` is gone.
pub open spec fn cascaded(m: Map<Seq<char>, PlaylistView>, sid: Seq<char>) -> Map<Seq<char>, PlaylistView> {
    m.map_values(|p: PlaylistView| cascade_one(p, sid))
}

/// Some playlist holds song `sid`.
pub open spec fn any_holds(m: Map<Seq<char>, PlaylistView>, sid: Seq<char>) -> bool {
    exists|k: Seq<char>| m.contains_key(k) && (#[trigger] m[k]).song_ids.contains(sid)
}

/// Some active stream of `streams` plays song `song_id`.
pub open spec fn in_use(streams: &StreamRegistry, song_id: Seq<char>) -> bool {
    exists|k: Seq<char>| streams.spec_streams().contains_key(k) && #[trigger] streams.spec_streams()[k] == song_id
}

/// Removes song `song_id` from the library and from every playlist that
/// holds it (each such playlist goes one version on). Refused with
/// `SongInUse` while a stream plays the song, with `NotFound` when the
/// library lacks it; nothing changes then. Also says whether a playlist
/// changed.
pub fn remove_song(lib: &mut Library, playlists: &mut Playlists, streams: &StreamRegistry, song_id: &SongId) -> (r: Result<(Song, bool), AppError>)
    requires
        old(lib).wf(),
        old(playlists).wf(),
        streams.wf(),
        !in_use(streams, song_id@) && old(lib).spec_map().contains_key(song_id@) ==> forall|k: Seq<char>|
            old(playlists).spec_map().contains_key(k) && (#[trigger] old(playlists).spec_map()[k]).song_ids.contains(song_id@)
                ==> old(playlists).spec_map()[k].version < u64::MAX,
    ensures
        final(lib).wf(),
        final(playlists).wf(),
        match r {
            Ok((song, touched)) => {
                &&& !(exists|k: Seq<char>| streams.spec_streams().contains_key(k) && #[trigger] streams.spec_streams()[k] == song_id@)
                &&& old(lib).spec_map().contains_key(song_id@)
                &&& song == old(lib).spec_map()[song_id@]
                &&& final(lib).spec_map() == old(lib).spec_map().remove(song_id@)
                &&& final(playlists).spec_map() == cascaded(old(playlists).spec_map(), song_id@)
                &&& touched == any_holds(old(playlists).spec_map(), song_id@)
            },
            Err(e) => {
                &&& final(lib).spec_map() == old(lib).spec_map()
                &&& final(playlists).spec_map() == old(playlists).spec_map()
                &&& if exists|k: Seq<char>| streams.spec_streams().contains_key(k) && #[trigger] streams.spec_streams()[k] == song_id@ {
                    e.code == ErrorCode::SongInUse && e.message@ == "Cannot remove song: currently streaming"@
                } else {
                    !old(lib).spec_map().contains_key(song_id@) && e.code == ErrorCode::NotFound
                        && e.message@ == not_found_message("Song "@, song_id@)
                }
            },
        },
{
    if streams.song_in_use(song_id) {
        return Err(AppError::new(ErrorCode::SongInUse, text("Cannot remove song: currently streaming")));
    }
    let song = match lib.remove(song_id.as_str()) {
        Some(s) => s,
        None => {
            return Err(AppError::new(ErrorCode::NotFound, join3("Song ", song_id.as_str(), " not found")));
        },
    };
    let ghost orig = playlists.entries();
    let ghost sid = song_id@;
    proof {
        playlists.lemma_map_of_entries();
        assert forall|j: int| 0 <= j < orig.len() && (#[trigger] orig[j]).song_ids.contains(sid) implies orig[j].version < u64::MAX by {
            assert(playlists.spec_map()[Playlist::spec_key(orig[j])] == orig[j]);
        }
    }
    let n = playlists.len();
    let mut touched = false;
    let mut i: usize = 0;
    while i < n
        invariant
            playlists.wf(),
            n == orig.len(),
            playlists.entries().len() == n,
            sid == song_id@,
            i <= n,
            forall|j: int| 0 <= j < orig.len() && (#[trigger] orig[j]).song_ids.contains(sid) ==> orig[j].version < u64::MAX,
            forall|j: int| 0 <= j < i ==> playlists.entries()[j] == cascade_one(#[trigger] orig[j], sid),
            forall|j: int| i <= j < n ==> playlists.entries()[j] == #[trigger] orig[j],
            touched == exists|j: int| 0 <= j < i && (#[trigger] orig[j]).song_ids.contains(sid),
        decreases n - i,
    {
        let holds = playlists.entry(i).contains(song_id);
        assert(playlists.entries()[i as int] == orig[i as int]);
        if holds {
            let np = playlist::remove_song(playlists.entry(i), song_id);
            match np {
                Ok(q) => {
                    let ghost before = playlists.entries();
                    assert(Playlist::spec_key(q@) == Playlist::spec_key(before[i as int]));
                    proof {
                        playlists.lemma_map_of_entries();
                        assert(playlists.spec_map().contains_key(Playlist::spec_key(before[i as int])));
                    }
                    let prev = playlists.insert(q);
                    proof {
                        assert(prev is Some);
                        let j = choose|j: int| 0 <= j < before.len() && Playlist::spec_key(before[j]) == Playlist::spec_key(q@) && playlists.entries() == before.update(j, q@);
                        if j != i {
                            assert(Playlist::spec_key(before[j]) == Playlist::spec_key(before[i as int]));
                        }
                    }
                    touched = true;
                },
                Err(_) => {},
            }
        }
        i = i + 1;
    }
    proof {
        let now = playlists.entries();
        assert(orig.len() == now.len());
        let m0 = keyed_map::<Playlist>(orig);
        let m1 = keyed_map::<Playlist>(now);
        lemma_keyed_map::<Playlist>(orig);
        lemma_keyed_map::<Playlist>(now);
        let want = cascaded(m0, sid);
        assert forall|k: Seq<char>| m1.contains_key(k) <==> want.contains_key(k) by {
            if m1.contains_key(k) {
                let j = choose|j: int| 0 <= j < now.len() && Playlist::spec_key(#[trigger] now[j]) == k;
                assert(now[j] == cascade_one(orig[j], sid));
            }
            if m0.contains_key(k) {
                let j = choose|j: int| 0 <= j < orig.len() && Playlist::spec_key(#[trigger] orig[j]) == k;
                assert(now[j] == cascade_one(orig[j], sid));
            }
        }
        assert forall|k: Seq<char>| m1.contains_key(k) implies m1[k] == want[k] by {
            let j = choose|j: int| 0 <= j < now.len() && Playlist::spec_key(#[trigger] now[j]) == k;
            assert(now[j] == cascade_one(orig[j], sid));
            assert(m0[Playlist::spec_key(orig[j])] == orig[j]);
        }
        assert(m1 =~= want);
        if touched {
            let j = choose|j: int| 0 <= j < n && (#[trigger] orig[j]).song_ids.contains(sid);
            assert(m0[Playlist::spec_key(orig[j])] == orig[j]);
        }
        if any_holds(m0, sid) {
            let k = choose|k: Seq<char>| m0.contains_key(k) && (#[trigger] m0[k]).song_ids.contains(sid);
            let j = choose|j: int| 0 <= j < orig.len() && Playlist::spec_key(#[trigger] orig[j]) == k;
            assert(orig[j].song_ids.contains(sid));
        }
    }
    Ok((song, touched))
}


/// Once a song is removed, no playlist holds it, and every playlist keeps
/// its other songs.
pub proof fn lemma_cascade_clears(m: Map<Seq<char>, PlaylistView>, sid: Seq<char>)
    ensures
        forall|k: Seq<char>| #[trigger] cascaded(m, sid).contains_key(k) ==> !cascaded(m, sid)[k].song_ids.contains(sid),
        forall|k: Seq<char>, x: Seq<char>|
            cascaded(m, sid).contains_key(k) && x != sid ==> (#[trigger] cascaded(m, sid)[k].song_ids.contains(x)
                <==> m[k].song_ids.contains(x)),
{
    assert forall|k: Seq<char>| #[trigger] cascaded(m, sid).contains_key(k) implies !cascaded(m, sid)[k].song_ids.contains(sid) by {
        crate::domain::playlist::lemma_removed_is_gone(m[k].song_ids, sid);
    }
    assert forall|k: Seq<char>, x: Seq<char>|
        cascaded(m, sid).contains_key(k) && x != sid implies (#[trigger] cascaded(m, sid)[k].song_ids.contains(x)
            <==> m[k].song_ids.contains(x)) by {
        crate::domain::playlist::lemma_removed_is_gone(m[k].song_ids, sid);
    }
}

/// No two songs of the library share a file.
pub open spec fn paths_unique(m: Map<Seq<char>, Song>) -> bool {
    forall|a: Seq<char>, b: Seq<char>|
        m.contains_key(a) && m.contains_key(b) && a != b ==> (#[trigger] m[a]).path@ != (#[trigger] m[b]).path@
}

/// Adding a song as `add_from_path` does (a file no song has, under any id)
/// keeps the files of the library's songs distinct.
pub proof fn lemma_add_keeps_paths_unique(lib: Library, song: Song)
    requires
        lib.wf(),
        paths_unique(lib.spec_map()),
        !path_taken(lib.entries(), song.path@),
    ensures
        paths_unique(lib.spec_map().insert(song.id@, song)),
{
    lib.lemma_map_of_entries();
    let m = lib.spec_map();
    let m2 = m.insert(song.id@, song);
    assert forall|k: Seq<char>| #[trigger] m.contains_key(k) implies m[k].path@ != song.path@ by {
        let i = choose|i: int| 0 <= i < lib.entries().len() && Song::spec_key(#[trigger] lib.entries()[i]) == k;
        assert(m[Song::spec_key(lib.entries()[i])] == lib.entries()[i]);
    }
    assert forall|a: Seq<char>, b: Seq<char>|
        m2.contains_key(a) && m2.contains_key(b) && a != b implies (#[trigger] m2[a]).path@ != (#[trigger] m2[b]).path@ by {
        if a == song.id@ {
            assert(m.contains_key(b));
        } else if b == song.id@ {
            assert(m.contains_key(a));
        } else {
            assert(m2[a] == m[a] && m2[b] == m[b]);
        }
    }
}

} // verus!
