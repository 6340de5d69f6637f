//! The state that the server shares between connections, as far as it is
//! logic: the registry of active streams and the notifications it sends.

use vstd::prelude::*;

use crate::domain::song::SongId;
use crate::store::{IdMap, Keyed};

verus! {

/// Stream ids are strings.
pub type StreamId = String;

/// A notification that the server broadcasts to every connection.
#[derive(Debug)]
pub enum Notification {
    /// A song was added to or removed from the library; `event` says which
    /// ("added" or "removed").
    LibraryUpdated { event: &'static str, song_id: SongId },
}

/// One active stream: which song it plays, and the sender whose drop tells
/// its pump to stop.
#[derive(Debug)]
pub struct StreamHandle {
    pub stream_id: StreamId,
    pub song_id: SongId,
    cancel: tokio::sync::oneshot::Sender<()>,
}

impl View for StreamHandle {
    type V = (Seq<char>, Seq<char>, tokio::sync::oneshot::Sender<()>);

    closed spec fn view(&self) -> (Seq<char>, Seq<char>, tokio::sync::oneshot::Sender<()>) {
        (self.stream_id@, self.song_id@, self.cancel)
    }
}

impl Keyed for StreamHandle {
    open spec fn spec_key(v: (Seq<char>, Seq<char>, tokio::sync::oneshot::Sender<()>)) -> Seq<char> {
        v.0
    }

    fn key(&self) -> (k: &String) {
        &self.stream_id
    }
}

/// The active streams, by stream id.
#[derive(Debug)]
pub struct StreamRegistry {
    streams: IdMap<StreamHandle>,
}

impl StreamRegistry {
    /// The song of each active stream, by stream id.
    pub closed spec fn spec_streams(&self) -> Map<Seq<char>, Seq<char>> {
        Map::new(
            |k: Seq<char>| self.streams.spec_map().contains_key(k),
            |k: Seq<char>| self.streams.spec_map()[k].1,
        )
    }

    /// The sender held for each active stream, by stream id: dropping it
    /// stops that stream's pump.
    pub closed spec fn spec_cancels(&self) -> Map<Seq<char>, tokio::sync::oneshot::Sender<()>> {
        Map::new(
            |k: Seq<char>| self.streams.spec_map().contains_key(k),
            |k: Seq<char>| self.streams.spec_map()[k].2,
        )
    }

    /// The registry's own consistency.
    pub closed spec fn wf(&self) -> bool {
        self.streams.wf()
    }

    /// No active streams.
    pub fn new() -> (r: Self)
        ensures
            r.wf(),
            r.spec_streams() == Map::<Seq<char>, Seq<char>>::empty(),
            r.spec_cancels().dom() == Set::<Seq<char>>::empty(),
    {
        let r = StreamRegistry { streams: IdMap::new() };
        assert(r.spec_streams() =~= Map::<Seq<char>, Seq<char>>::empty());
        assert(r.spec_cancels().dom() =~= Set::<Seq<char>>::empty());
        r
    }

    /// Whether some active stream plays `song_id`.
    pub fn song_in_use(&self, song_id: &SongId) -> (b: bool)
        requires
            self.wf(),
        ensures
            b == exists|k: Seq<char>|
                self.spec_streams().contains_key(k) && #[trigger] self.spec_streams()[k] == song_id@,
    {
        proof {
            self.streams.lemma_map_of_entries();
        }
        let n = self.streams.len();
        let mut i: usize = 0;
        while i < n
            invariant
                n == self.streams.entries().len(),
                self.wf(),
                i <= n,
                forall|j: int| 0 <= j < i ==> (#[trigger] self.streams.entries()[j]).1 != song_id@,
            decreases n - i,
        {
            let h = self.streams.entry(i);
            if h.song_id == *song_id {
                proof {
                    self.streams.lemma_map_of_entries();
                    let k = self.streams.entries()[i as int].0;
                    assert(self.streams.spec_map().contains_key(k));
                    assert(self.spec_streams()[k] == song_id@);
                }
                return true;
            }
            i = i + 1;
        }
        proof {
            assert forall|k: Seq<char>| self.spec_streams().contains_key(k) implies #[trigger] self.spec_streams()[k] != song_id@ by {
                let j = choose|j: int| 0 <= j < self.streams.entries().len() && #[trigger] self.streams.entries()[j].0 == k;
                assert(self.streams.spec_map()[self.streams.entries()[j].0] == self.streams.entries()[j]);
            }
        }
        false
    }

    /// Records stream `stream_id` playing `song_id`, replacing (and so
    /// cancelling) a stream registered under the same id.
    pub fn register_stream(&mut self, stream_id: StreamId, song_id: SongId, cancel: tokio::sync::oneshot::Sender<()>)
        requires
            old(self).wf(),
        ensures
            final(self).wf(),
            final(self).spec_streams() == old(self).spec_streams().insert(stream_id@, song_id@),
            final(self).spec_cancels() == old(self).spec_cancels().insert(stream_id@, cancel),
    {
        let ghost sid = stream_id@;
        let ghost song = song_id@;
        let ghost c = cancel;
        let _replaced = self.streams.insert(StreamHandle { stream_id, song_id, cancel });
        assert(self.spec_streams() =~= old(self).spec_streams().insert(sid, song));
        assert(self.spec_cancels() =~= old(self).spec_cancels().insert(sid, c));
    }

    /// Forgets stream `stream_id` (dropping its sender stops its pump) and
    /// hands back its song, if it was active.
    pub fn unregister_stream(&mut self, stream_id: &str) -> (r: Option<SongId>)
        requires
            old(self).wf(),
        ensures
            final(self).wf(),
            final(self).spec_streams() == old(self).spec_streams().remove(stream_id@),
            final(self).spec_cancels() == old(self).spec_cancels().remove(stream_id@),
            match r {
                Some(s) => old(self).spec_streams().contains_key(stream_id@) && s@ == old(self).spec_streams()[stream_id@],
                None => !old(self).spec_streams().contains_key(stream_id@),
            },
    {
        let removed = self.streams.remove(stream_id);
        assert(self.spec_streams() =~= old(self).spec_streams().remove(stream_id@));
        assert(self.spec_cancels() =~= old(self).spec_cancels().remove(stream_id@));
        match removed {
            Some(h) => Some(h.song_id),
            None => None,
        }
    }
}


/// A stream that was not active, registered and then unregistered, leaves
/// the registry as it was; while registered, its song is in use.
pub proof fn lemma_register_then_unregister(m: Map<Seq<char>, Seq<char>>, stream_id: Seq<char>, song_id: Seq<char>)
    requires
        !m.contains_key(stream_id),
    ensures
        m.insert(stream_id, song_id).remove(stream_id) == m,
        exists|k: Seq<char>|
            m.insert(stream_id, song_id).contains_key(k) && #[trigger] m.insert(stream_id, song_id)[k] == song_id,
{
    assert(m.insert(stream_id, song_id).remove(stream_id) =~= m);
    assert(m.insert(stream_id, song_id)[stream_id] == song_id);
}

} // verus!
