//! The decisions of a connection: what each incoming frame is, the
//! handshake, and the rule that a client plays one stream at a time.

use vstd::prelude::*;

use crate::error::{AppError, join2, text};
use crate::network::protocol::{ErrorCode, Response, is_error_response};
use crate::outside::{is_lower_hex, new_uuid_simple};
use crate::states::app_state::StreamId;
use crate::text::same_text;

verus! {

/// The protocol version this server speaks.
pub const SERVER_VERSION: &'static str = "1.0";

/// The request types the server answers, in the order it lists them.
pub open spec fn supported_op_names() -> Seq<Seq<char>> {
    seq![
        "HELLO"@,
        "PING"@,
        "LIST_SONGS"@,
        "GET_SONG"@,
        "PLAY_SONG"@,
        "STOP_SONG"@,
        "CREATE_PLAYLIST"@,
        "DELETE_PLAYLIST"@,
        "LIST_PLAYLISTS"@,
        "GET_PLAYLIST"@,
        "ADD_SONG_TO_PLAYLIST"@,
        "REMOVE_SONG_FROM_PLAYLIST"@,
        "FILTER_PLAYLIST"@,
        "SORT_PLAYLIST"@,
        "TRANSFORM_PLAYLIST"@,
    ]
}

/// The request types the server answers, in the order it lists them.
pub fn supported_ops() -> (v: Vec<&'static str>)
    ensures
        v@.map_values(|s: &'static str| s@) == supported_op_names(),
{
    let v = vec![
        "HELLO",
        "PING",
        "LIST_SONGS",
        "GET_SONG",
        "PLAY_SONG",
        "STOP_SONG",
        "CREATE_PLAYLIST",
        "DELETE_PLAYLIST",
        "LIST_PLAYLISTS",
        "GET_PLAYLIST",
        "ADD_SONG_TO_PLAYLIST",
        "REMOVE_SONG_FROM_PLAYLIST",
        "FILTER_PLAYLIST",
        "SORT_PLAYLIST",
        "TRANSFORM_PLAYLIST",
    ];
    assert(v@.map_values(|s: &'static str| s@) =~= supported_op_names());
    v
}

/// `prefix` then the first 8 digits of a fresh random UUID.
pub fn short_id(prefix: &str) -> (s: String)
    ensures
        s@.len() == prefix@.len() + 8,
        s@.subrange(0, prefix@.len() as int) == prefix@,
        forall|i: int| prefix@.len() <= i < s@.len() ==> is_lower_hex(#[trigger] s@[i]),
{
    let u = new_uuid_simple();
    let head = u.as_str().substring_char(0, 8);
    let s = join2(prefix, head);
    assert(s@.subrange(0, prefix@.len() as int) =~= prefix@);
    assert forall|i: int| prefix@.len() <= i < s@.len() implies is_lower_hex(#[trigger] s@[i]) by {
        assert(s@[i] == u@[i - prefix@.len()]);
    }
    s
}

/// What the server answers to a handshake.
#[derive(Debug)]
pub struct HelloAck {
    pub server_version: &'static str,
    pub session_id: String,
    pub supported_ops: Vec<&'static str>,
}

/// The handshake: accepted, with a fresh session id, when the client speaks
/// this server's version; refused with `VersionMismatch` otherwise.
pub fn hello(version: &str) -> (r: Result<HelloAck, AppError>)
    ensures
        match r {
            Ok(ack) => version@ == SERVER_VERSION@ && ack.server_version@ == SERVER_VERSION@
                && ack.session_id@.subrange(0, 5) == "sess-"@ && ack.session_id@.len() == 13
                && (forall|i: int| 5 <= i < 13 ==> is_lower_hex(#[trigger] ack.session_id@[i]))
                && ack.supported_ops@.map_values(|s: &'static str| s@) == supported_op_names(),
            Err(e) => version@ != SERVER_VERSION@ && e.code == ErrorCode::VersionMismatch
                && e.message@ == "Server speaks 1.0, client sent "@ + version@,
        },
{
    if !same_text(version, SERVER_VERSION) {
        return Err(AppError::new(ErrorCode::VersionMismatch, join2("Server speaks 1.0, client sent ", version)));
    }
    proof {
        reveal_strlit("sess-");
    }
    Ok(HelloAck { server_version: SERVER_VERSION, session_id: short_id("sess-"), supported_ops: supported_ops() })
}

/// The stream a connection is playing, if any.
#[derive(Debug)]
pub struct Session {
    pub current_stream: Option<StreamId>,
}

impl Session {
    /// A connection that plays nothing.
    pub fn new() -> (s: Self)
        ensures
            s.current_stream is None,
    {
        Session { current_stream: None }
    }

    /// Whether the connection may start a stream: refused with
    /// `AlreadyPlaying` while it plays one.
    pub fn may_play(&self) -> (r: Result<(), AppError>)
        ensures
            match r {
                Ok(_) => self.current_stream is None,
                Err(e) => self.current_stream is Some && e.code == ErrorCode::AlreadyPlaying
                    && e.message@ == "Client already has an active stream"@,
            },
    {
        if self.current_stream.is_some() {
            return Err(AppError::new(ErrorCode::AlreadyPlaying, text("Client already has an active stream")));
        }
        Ok(())
    }

    /// The connection now plays `stream_id`.
    pub fn started(&mut self, stream_id: StreamId)
        ensures
            final(self).current_stream matches Some(s) && s@ == stream_id@,
    {
        self.current_stream = Some(stream_id);
    }

    /// A stop for `stream_id` was answered: the connection plays nothing if
    /// that was its stream, and is unchanged otherwise.
    pub fn stopped(&mut self, stream_id: &str)
        ensures
            match old(self).current_stream {
                Some(s) => if s@ == stream_id@ {
                    final(self).current_stream is None
                } else {
                    final(self).current_stream == old(self).current_stream
                },
                None => final(self).current_stream is None,
            },
    {
        let matches = match &self.current_stream {
            Some(s) => same_text(s.as_str(), stream_id),
            None => false,
        };
        if matches {
            self.current_stream = None;
        }
    }

    /// The connection closes: the stream it played, which must be
    /// unregistered, if any.
    pub fn closed(&mut self) -> (r: Option<StreamId>)
        ensures
            r == old(self).current_stream,
            final(self).current_stream is None,
    {
        self.current_stream.take()
    }
}

/// A frame that arrives on a connection.
#[derive(Debug)]
pub enum Frame {
    Text(String),
    Binary(Vec<u8>),
    Ping(Vec<u8>),
    Close,
    Other,
}

/// What to do with a frame.
#[derive(Debug)]
pub enum FrameAction {
    /// Handle this text as a request.
    Request(String),
    /// Send this error response.
    Refuse(Response),
    /// Answer a ping with a pong carrying these bytes.
    Pong(Vec<u8>),
    /// Close the connection.
    End,
    /// Ignore the frame.
    Skip,
}

/// Text frames are requests; binary frames are requests when they are
/// UTF-8, else refused with `InvalidRequest`; pings are answered; a close
/// ends the connection; anything else is ignored.
pub fn classify_frame(frame: Frame) -> (a: FrameAction)
    ensures
        match frame {
            Frame::Text(t) => a matches FrameAction::Request(r) && r@ == t@,
            Frame::Binary(b) => if vstd::utf8::valid_utf8(b@) {
                a matches FrameAction::Request(r) && r@ == vstd::utf8::decode_utf8(b@)
            } else {
                a matches FrameAction::Refuse(resp) && is_error_response(
                    resp,
                    Seq::empty(),
                    "ERROR"@,
                    ErrorCode::InvalidRequest,
                    "Binary frames must be UTF-8 JSON"@,
                )
            },
            Frame::Ping(p) => a matches FrameAction::Pong(q) && q@ == p@,
            Frame::Close => a is End,
            Frame::Other => a is Skip,
        },
{
    match frame {
        Frame::Text(t) => FrameAction::Request(t),
        Frame::Binary(b) => match crate::outside::utf8_text(b.as_slice()) {
            Some(s) => FrameAction::Request(s),
            None => FrameAction::Refuse(
                Response::err(String::new(), "ERROR", ErrorCode::InvalidRequest, text("Binary frames must be UTF-8 JSON")),
            ),
        },
        Frame::Ping(p) => FrameAction::Pong(p),
        Frame::Close => FrameAction::End,
        Frame::Other => FrameAction::Skip,
    }
}

/// The text of a request id that could be read from a frame; empty when the
/// frame had none.
pub open spec fn id_text(id: Option<String>) -> Seq<char> {
    match id {
        Some(i) => i@,
        None => Seq::empty(),
    }
}

/// The response to a request that is not valid JSON or lacks its type;
/// `detail` is the parser's account. It echoes the request's id `id` when
/// one could be read from the frame, and is the empty id otherwise.
pub fn malformed(id: Option<String>, detail: &str) -> (r: Response)
    ensures
        is_error_response(
            r,
            id_text(id),
            "ERROR"@,
            ErrorCode::InvalidRequest,
            "Malformed JSON or missing type: "@ + detail@,
        ),
{
    let rid = match id {
        Some(i) => i,
        None => String::new(),
    };
    Response::err(rid, "ERROR", ErrorCode::InvalidRequest, join2("Malformed JSON or missing type: ", detail))
}

} // verus!
