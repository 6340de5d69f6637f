//! The values of the wire protocol: requests' sub-types, responses, error
//! codes and stream chunks.

use vstd::prelude::*;

verus! {

/// The song field that a criterion looks at.
#[derive(Debug, Clone, Copy, PartialEq, Eq, Structural)]
pub enum CriteriaField {
    Title,
    Artist,
    Genre,
    Duration,
    AddedAt,
}

/// How a criterion compares.
#[derive(Debug, Clone, Copy, PartialEq, Eq, Structural)]
pub enum CriteriaOp {
    Contains,
    Equals,
    Range,
}

/// A search criterion. The bounds of a range are whole numbers: the
/// fractional part of a bound on the wire is cut off (toward zero) before
/// it reaches the library.
#[derive(Debug)]
pub struct Criteria {
    pub field: CriteriaField,
    pub op: CriteriaOp,
    pub value: Option<String>,
    pub min: Option<i64>,
    pub max: Option<i64>,
}

/// The song key that a sort orders by.
#[derive(Debug, Clone, Copy, PartialEq, Eq, Structural)]
pub enum SortBy {
    Title,
    Artist,
    Duration,
    AddedAt,
}

/// The direction of a sort; ascending unless asked otherwise.
#[derive(Debug, Clone, Copy, PartialEq, Eq, Structural)]
pub enum SortOrder {
    Asc,
    Desc,
}

impl Default for SortOrder {
    fn default() -> (o: Self)
        ensures
            o == SortOrder::Asc,
    {
        SortOrder::Asc
    }
}

/// A derived view of a playlist.
#[derive(Debug, Clone, Copy, PartialEq, Eq, Structural)]
pub enum TransformOp {
    Dedupe,
    Reverse,
    Take,
    Drop,
}

} // verus!

verus! {

/// The error codes of the protocol. Some are reserved for paths that the
/// current operations never take.
#[derive(Debug, Clone, Copy, PartialEq, Eq, Structural)]
pub enum ErrorCode {
    InvalidRequest,
    UnknownType,
    InvalidCriteria,
    NotFound,
    PlaylistNotFound,
    SongNotFound,
    DuplicateName,
    DuplicateSong,
    AlreadyInPlaylist,
    SongNotInPlaylist,
    SongInUse,
    AlreadyPlaying,
    StreamNotFound,
    UnsupportedFormat,
    FileNotFound,
    UnsupportedOp,
    VersionMismatch,
    ServerError,
}

} // verus!

verus! {

use crate::domain::playlist::{Playlist, PlaylistId};
use crate::domain::song::{Song, SongId, Timestamp};
use crate::outside::{ids_get, ids_len};

/// The error part of a response.
#[derive(Debug)]
pub struct ResponseError {
    pub code: ErrorCode,
    pub message: String,
}

/// A response to a request: its id and type echo the request; `status` is
/// "ok" with data, or "error" with an error.
#[derive(Debug)]
pub struct Response {
    pub id: String,
    pub resp_type: String,
    pub status: &'static str,
    pub data: Option<serde_json::Value>,
    pub error: Option<ResponseError>,
}

/// `r` is the failed response to request `id` of type `resp_type` with
/// `code` and `message`.
pub open spec fn is_error_response(r: Response, id: Seq<char>, resp_type: Seq<char>, code: ErrorCode, message: Seq<char>) -> bool {
    &&& r.id@ == id
    &&& r.resp_type@ == resp_type
    &&& r.status@ == "error"@
    &&& r.data is None
    &&& r.error is Some
    &&& r.error->0.code == code
    &&& r.error->0.message@ == message
}

impl Response {
    /// A successful response carrying `data`.
    pub fn ok(id: String, resp_type: &str, data: serde_json::Value) -> (r: Self)
        ensures
            r.id@ == id@,
            r.resp_type@ == resp_type@,
            r.status@ == "ok"@,
            r.data == Some(data),
            r.error is None,
    {
        Response { id, resp_type: resp_type.to_owned(), status: "ok", data: Some(data), error: None }
    }

    /// A failed response with `code` and `message`.
    pub fn err(id: String, resp_type: &str, code: ErrorCode, message: String) -> (r: Self)
        ensures
            is_error_response(r, id@, resp_type@, code, message@),
    {
        Response {
            id,
            resp_type: resp_type.to_owned(),
            status: "error",
            data: None,
            error: Some(ResponseError { code, message }),
        }
    }
}

/// A song as the protocol shows it (without its file path).
#[derive(Debug)]
pub struct SongDto {
    pub id: SongId,
    pub title: String,
    pub artist: String,
    pub genre: String,
    pub duration_sec: u32,
    pub bitrate: u32,
    pub added_at: Timestamp,
}

/// `d` shows song `s`.
pub open spec fn dto_of(d: SongDto, s: Song) -> bool {
    &&& d.id@ == s.id@
    &&& d.title@ == s.title@
    &&& d.artist@ == s.artist@
    &&& d.genre@ == s.genre@
    &&& d.duration_sec == s.duration_sec
    &&& d.bitrate == s.bitrate
    &&& d.added_at == s.added_at
}

impl SongDto {
    /// The protocol's view of song `s`.
    pub fn from(s: &Song) -> (d: Self)
        ensures
            dto_of(d, *s),
    {
        SongDto {
            id: s.id.clone(),
            title: s.title.clone(),
            artist: s.artist.clone(),
            genre: s.genre.clone(),
            duration_sec: s.duration_sec,
            bitrate: s.bitrate,
            added_at: s.added_at,
        }
    }
}

/// The song ids of a playlist as a `Vec`, in order.
pub fn song_id_list(p: &Playlist) -> (v: Vec<SongId>)
    ensures
        v@.map_values(|s: String| s@) == p@.song_ids,
{
    let n = ids_len(&p.song_ids);
    let mut v: Vec<SongId> = Vec::new();
    let mut i: usize = 0;
    while i < n
        invariant
            n == p@.song_ids.len(),
            i <= n,
            v.len() == i,
            forall|j: int| 0 <= j < i ==> (#[trigger] v@[j])@ == p@.song_ids[j],
        decreases n - i,
    {
        v.push(ids_get(&p.song_ids, i));
        i = i + 1;
    }
    assert(v@.map_values(|s: String| s@) =~= p@.song_ids);
    v
}

/// A playlist as the protocol shows it.
#[derive(Debug)]
pub struct PlaylistDto {
    pub id: PlaylistId,
    pub name: String,
    pub owner: String,
    pub song_ids: Vec<SongId>,
    pub created_at: Timestamp,
    pub version: u64,
}

impl PlaylistDto {
    /// The protocol's view of playlist `p`.
    pub fn from(p: &Playlist) -> (d: Self)
        ensures
            d.id@ == p@.id,
            d.name@ == p@.name,
            d.owner@ == p@.owner,
            d.song_ids@.map_values(|s: String| s@) == p@.song_ids,
            d.created_at == p@.created_at,
            d.version == p@.version,
    {
        PlaylistDto {
            id: p.id.clone(),
            name: p.name.clone(),
            owner: p.owner.clone(),
            song_ids: song_id_list(p),
            created_at: p.created_at,
            version: p.version,
        }
    }
}

/// A playlist in a listing: its size, not its songs.
#[derive(Debug)]
pub struct PlaylistSummaryDto {
    pub id: PlaylistId,
    pub name: String,
    pub owner: String,
    pub song_count: usize,
    pub created_at: Timestamp,
}

impl PlaylistSummaryDto {
    /// The listing entry of playlist `p`.
    pub fn from(p: &Playlist) -> (d: Self)
        ensures
            d.id@ == p@.id,
            d.name@ == p@.name,
            d.owner@ == p@.owner,
            d.song_count == p@.song_ids.len(),
            d.created_at == p@.created_at,
    {
        PlaylistSummaryDto {
            id: p.id.clone(),
            name: p.name.clone(),
            owner: p.owner.clone(),
            song_count: p.song_count(),
            created_at: p.created_at,
        }
    }
}

/// A playlist with the songs the library holds for it.
#[derive(Debug)]
pub struct PlaylistDetailDto {
    pub id: PlaylistId,
    pub name: String,
    pub owner: String,
    pub song_ids: Vec<SongId>,
    pub songs: Vec<SongDto>,
    pub created_at: Timestamp,
    pub version: u64,
}

impl PlaylistDetailDto {
    /// Playlist `p` with `songs`, the library's songs for it.
    pub fn from_parts(p: &Playlist, songs: &Vec<Song>) -> (d: Self)
        ensures
            d.id@ == p@.id,
            d.name@ == p@.name,
            d.owner@ == p@.owner,
            d.song_ids@.map_values(|s: String| s@) == p@.song_ids,
            d.songs.len() == songs.len(),
            forall|i: int| 0 <= i < songs.len() ==> dto_of(#[trigger] d.songs@[i], songs@[i]),
            d.created_at == p@.created_at,
            d.version == p@.version,
    {
        let n = songs.len();
        let mut dtos: Vec<SongDto> = Vec::new();
        let mut i: usize = 0;
        while i < n
            invariant
                n == songs.len(),
                i <= n,
                dtos.len() == i,
                forall|j: int| 0 <= j < i ==> dto_of(#[trigger] dtos@[j], songs@[j]),
            decreases n - i,
        {
            dtos.push(SongDto::from(&songs[i]));
            i = i + 1;
        }
        PlaylistDetailDto {
            id: p.id.clone(),
            name: p.name.clone(),
            owner: p.owner.clone(),
            song_ids: song_id_list(p),
            songs: dtos,
            created_at: p.created_at,
            version: p.version,
        }
    }
}

/// One piece of a song's audio, sent unasked: the stream it belongs to, its
/// place in the stream, the bytes in base64, and whether it is the last.
#[derive(Debug)]
pub struct StreamChunk {
    pub msg_type: &'static str,
    pub stream_id: String,
    pub seq: u64,
    pub payload_b64: String,
    pub eof: bool,
}

impl StreamChunk {
    /// A `STREAM_CHUNK` message.
    pub fn new(stream_id: String, seq: u64, payload_b64: String, eof: bool) -> (c: Self)
        ensures
            c.msg_type@ == "STREAM_CHUNK"@,
            c.stream_id@ == stream_id@,
            c.seq == seq,
            c.payload_b64@ == payload_b64@,
            c.eof == eof,
    {
        StreamChunk { msg_type: "STREAM_CHUNK", stream_id, seq, payload_b64, eof }
    }
}

} // verus!
