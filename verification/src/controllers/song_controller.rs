//! What the streaming requests change and answer: starting a stream
//! registers it, stopping one forgets it.

use vstd::prelude::*;

use crate::domain::song::{Library, SongId};
use crate::error::{AppError, join2, join3};
use crate::network::handler::short_id;
use crate::network::protocol::ErrorCode;
use crate::services::playlist_service::not_found_message;
use crate::services::song_service::get_song;
use crate::network::stream::CHUNK_SIZE;
use crate::outside::{cancel_channel, is_lower_hex};
use crate::states::app_state::{StreamId, StreamRegistry};

verus! {

/// The MIME type of the audio the server streams.
pub const MIME_MP3: &'static str = "audio/mpeg";

/// The acknowledgement of a play request, with what its pump needs: the
/// file to read and the receiver that tells it to stop.
#[derive(Debug)]
pub struct PlayAck {
    pub stream_id: StreamId,
    pub song_id: SongId,
    pub mime: &'static str,
    pub total_bytes: u64,
    pub chunk_size: usize,
    pub duration_sec: u32,
    pub path: String,
    pub cancel_rx: tokio::sync::oneshot::Receiver<()>,
}

/// A play request for song `song_id`. `file_size` is what reading the size
/// of that song's file gave: its length in bytes, or the text of the error.
/// Refused with `NotFound` when the library lacks the song, then with
/// `ServerError` when its file's size could not be read; nothing is
/// registered then. Otherwise a fresh stream id ("str-" and 8 hex digits) is
/// registered as playing the song, and the acknowledgement describes it.
pub fn play_song(lib: &Library, streams: &mut StreamRegistry, song_id: &SongId, file_size: Result<u64, String>) -> (r: Result<PlayAck, AppError>)
    requires
        lib.wf(),
        old(streams).wf(),
    ensures
        final(streams).wf(),
        match r {
            Ok(ack) => {
                let song = lib.spec_map()[song_id@];
                &&& lib.spec_map().contains_key(song_id@)
                &&& file_size is Ok
                &&& final(streams).spec_streams() == old(streams).spec_streams().insert(ack.stream_id@, song_id@)
                &&& exists|c: tokio::sync::oneshot::Sender<()>|
                    final(streams).spec_cancels() == old(streams).spec_cancels().insert(ack.stream_id@, c)
                &&& ack.stream_id@.len() == 12
                &&& ack.stream_id@.subrange(0, 4) == "str-"@
                &&& forall|i: int| 4 <= i < 12 ==> is_lower_hex(#[trigger] ack.stream_id@[i])
                &&& ack.song_id@ == song_id@
                &&& ack.mime@ == MIME_MP3@
                &&& ack.total_bytes == file_size->Ok_0
                &&& ack.chunk_size == CHUNK_SIZE
                &&& ack.duration_sec == song.duration_sec
                &&& ack.path@ == song.path@
            },
            Err(e) => {
                &&& final(streams).spec_streams() == old(streams).spec_streams()
                &&& final(streams).spec_cancels() == old(streams).spec_cancels()
                &&& if !lib.spec_map().contains_key(song_id@) {
                    e.code == ErrorCode::NotFound && e.message@ == not_found_message("Song "@, song_id@)
                } else {
                    file_size is Err && e.code == ErrorCode::ServerError && e.message@ == "Cannot read song file "@
                        + lib.spec_map()[song_id@].path@ + ": "@ + file_size->Err_0@
                }
            },
        },
{
    let song = get_song(lib, song_id)?;
    let total_bytes = match file_size {
        Ok(n) => n,
        Err(e) => {
            let head = join3("Cannot read song file ", song.path.as_str(), ": ");
            return Err(AppError::new(ErrorCode::ServerError, join2(head.as_str(), e.as_str())));
        },
    };
    proof {
        reveal_strlit("str-");
        lib.lemma_keys_are_ids();
    }
    let stream_id = short_id("str-");
    let (cancel_tx, cancel_rx) = cancel_channel();
    streams.register_stream(stream_id.clone(), song.id.clone(), cancel_tx);
    Ok(PlayAck {
        stream_id,
        song_id: song.id.clone(),
        mime: MIME_MP3,
        total_bytes,
        chunk_size: CHUNK_SIZE,
        duration_sec: song.duration_sec,
        path: song.path.clone(),
        cancel_rx,
    })
}

/// Stops stream `stream_id`; `StreamNotFound` when it is not active.
pub fn stop_song(streams: &mut StreamRegistry, stream_id: &str) -> (r: Result<(), AppError>)
    requires
        old(streams).wf(),
    ensures
        final(streams).wf(),
        final(streams).spec_streams() == old(streams).spec_streams().remove(stream_id@),
        final(streams).spec_cancels() == old(streams).spec_cancels().remove(stream_id@),
        match r {
            Ok(_) => old(streams).spec_streams().contains_key(stream_id@),
            Err(e) => !old(streams).spec_streams().contains_key(stream_id@) && e.code == ErrorCode::StreamNotFound
                && e.message@ == "Stream "@ + stream_id@ + " not active"@,
        },
{
    match streams.unregister_stream(stream_id) {
        Some(_) => Ok(()),
        None => Err(AppError::new(ErrorCode::StreamNotFound, join3("Stream ", stream_id, " not active"))),
    }
}

} // verus!
