//! The decisions of the audio pump: what each read of the song file turns
//! into. The pump reads the file in chunks and sends each, base64-encoded,
//! as a `STREAM_CHUNK`; an empty read ends the stream with an empty last
//! chunk; a cancellation ends it with nothing more sent.

use vstd::prelude::*;

use crate::network::protocol::StreamChunk;
use crate::outside::{base64_standard, encode_base64};

verus! {

/// The size of the pieces in which a song file is read and sent.
pub const CHUNK_SIZE: usize = 16384;

/// Where a pump stands: its stream and the number of the next chunk.
#[derive(Debug)]
pub struct PumpState {
    pub stream_id: String,
    pub seq: u64,
}

/// What happened since the last step.
#[derive(Debug)]
pub enum PumpEvent {
    /// The stream was stopped (its cancel sender dropped or fired).
    Cancelled,
    /// A read of the file gave these bytes; none means the end of the file.
    Read(Vec<u8>),
}

/// What the pump does next.
#[derive(Debug)]
pub enum PumpAction {
    /// Send this chunk; when `last`, stop after it.
    Send { chunk: StreamChunk, last: bool },
    /// Stop without sending.
    Stop,
}

impl PumpState {
    /// A pump for `stream_id` at chunk 0.
    pub fn new(stream_id: String) -> (s: Self)
        ensures
            s.stream_id@ == stream_id@,
            s.seq == 0,
    {
        PumpState { stream_id, seq: 0 }
    }
}

/// The step of the pump for `event`: a cancellation stops it; an empty read
/// sends the last, empty chunk; other bytes go out base64-encoded under the
/// current number, which then goes one up (staying at its maximum).
pub fn pump_step(state: &mut PumpState, event: PumpEvent) -> (a: PumpAction)
    requires
        event matches PumpEvent::Read(b) ==> b@.len() <= CHUNK_SIZE,
    ensures
        final(state).stream_id@ == old(state).stream_id@,
        match event {
            PumpEvent::Cancelled => a is Stop && final(state).seq == old(state).seq,
            PumpEvent::Read(b) => match a {
                PumpAction::Send { chunk, last } => {
                    &&& chunk.msg_type@ == "STREAM_CHUNK"@
                    &&& chunk.stream_id@ == old(state).stream_id@
                    &&& chunk.seq == old(state).seq
                    &&& chunk.payload_b64@ == base64_standard(b@)
                    &&& chunk.eof == (b@.len() == 0)
                    &&& last == (b@.len() == 0)
                    &&& final(state).seq == if b@.len() == 0 {
                        old(state).seq
                    } else if old(state).seq == u64::MAX {
                        u64::MAX
                    } else {
                        (old(state).seq + 1) as u64
                    }
                },
                PumpAction::Stop => false,
            },
        },
{
    match event {
        PumpEvent::Cancelled => PumpAction::Stop,
        PumpEvent::Read(bytes) => {
            let payload = encode_base64(bytes.as_slice());
            let eof = bytes.len() == 0;
            let chunk = StreamChunk::new(state.stream_id.clone(), state.seq, payload, eof);
            if !eof {
                state.seq = state.seq.saturating_add(1);
            }
            PumpAction::Send { chunk, last: eof }
        },
    }
}


/// A chunk's payload is four characters for every three bytes, the last
/// group rounded up.
pub proof fn lemma_payload_length(bytes: Seq<u8>)
    ensures
        base64_standard(bytes).len() == 4 * ((bytes.len() + 2) / 3),
    decreases bytes.len(),
{
    if bytes.len() > 2 {
        lemma_payload_length(bytes.skip(3));
    }
}

} // verus!
