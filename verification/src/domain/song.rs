//! The song record of the library.

use vstd::prelude::*;

verus! {

/// Song ids are strings.
pub type SongId = String;

/// An instant in UTC as seconds since the Unix epoch and the nanoseconds
/// within that second. Instants are ordered by seconds, then nanoseconds.
#[derive(Clone, Copy, Debug, PartialEq, Eq, Structural)]
pub struct Timestamp {
    pub secs: i64,
    pub nanos: u32,
}

impl Timestamp {
    /// The order of instants.
    pub open spec fn spec_le(self, other: Timestamp) -> bool {
        self.secs < other.secs || (self.secs == other.secs && self.nanos <= other.nanos)
    }

    /// Whether `self` is not later than `other`.
    pub fn le(&self, other: &Timestamp) -> (b: bool)
        ensures
            b == self.spec_le(*other),
    {
        self.secs < other.secs || (self.secs == other.secs && self.nanos <= other.nanos)
    }
}

/// Instants are ordered in time: an earlier second comes first whatever the
/// nanoseconds; within one second the nanoseconds decide; any two instants
/// are ordered one way or the other, and both ways only when equal.
pub proof fn lemma_instants_in_time_order(t1: Timestamp, t2: Timestamp)
    ensures
        t1.secs < t2.secs ==> t1.spec_le(t2) && !t2.spec_le(t1),
        t1.secs == t2.secs ==> (t1.spec_le(t2) <==> t1.nanos <= t2.nanos),
        t1.spec_le(t2) || t2.spec_le(t1),
        t1.spec_le(t2) && t2.spec_le(t1) ==> t1 == t2,
        t1.spec_le(t2) ==> t1.secs <= t2.secs,
{
}

/// One song of the library. `path` is the canonical path of its MP3 file.
#[derive(Debug)]
pub struct Song {
    pub id: SongId,
    pub title: String,
    pub artist: String,
    pub genre: String,
    pub duration_sec: u32,
    pub bitrate: u32,
    pub added_at: Timestamp,
    pub path: String,
}

impl Clone for Song {
    fn clone(&self) -> (r: Self)
        ensures
            r == *self,
    {
        Song {
            id: self.id.clone(),
            title: self.title.clone(),
            artist: self.artist.clone(),
            genre: self.genre.clone(),
            duration_sec: self.duration_sec,
            bitrate: self.bitrate,
            added_at: self.added_at,
            path: self.path.clone(),
        }
    }
}

} // verus!

verus! {

impl View for Song {
    type V = Song;

    open spec fn view(&self) -> Song {
        *self
    }
}

impl crate::store::Keyed for Song {
    open spec fn spec_key(v: Song) -> Seq<char> {
        v.id@
    }

    fn key(&self) -> (k: &String) {
        &self.id
    }

}

impl crate::store::Duplicate for Song {
    fn duplicate(&self) -> (r: Self) {
        self.clone()
    }
}

/// The library: songs by id.
pub type Library = crate::store::IdMap<Song>;

} // verus!
