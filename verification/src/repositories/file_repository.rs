//! The step of loading that is logic: the records read from disk become a
//! map by id, a later record replacing an earlier one with the same id.

use vstd::prelude::*;

use crate::domain::playlist::{Playlist, Playlists};
use crate::domain::song::{Library, Song};
use crate::store::{IdMap, Keyed, keyed_map, unique_keys};

verus! {

/// The records of `items` by their ids; a later record wins over an earlier
/// one with the same id.
pub fn collect_by_id<T: Keyed>(items: Vec<T>) -> (m: IdMap<T>)
    ensures
        m.wf(),
        m.spec_map() == keyed_map::<T>(items@.map_values(|t: T| t@)),
{
    let ghost all = items@.map_values(|t: T| t@);
    let mut rest = items;
    let mut m: IdMap<T> = IdMap::new();
    let ghost mut k: int = 0;
    while rest.len() > 0
        invariant
            m.wf(),
            0 <= k <= all.len(),
            rest@.map_values(|t: T| t@) == all.skip(k),
            m.spec_map() == keyed_map::<T>(all.take(k)),
        decreases rest.len(),
    {
        let ghost before = rest@;
        proof {
            assert(before.map_values(|t: T| t@).len() == all.skip(k).len());
            assert(k < all.len());
            assert(before.map_values(|t: T| t@)[0] == all.skip(k)[0]);
        }
        let t = rest.remove(0);
        proof {
            assert(t@ == all[k]);
            assert forall|j: int| 0 <= j < rest@.len() implies (#[trigger] rest@[j])@ == all.skip(k + 1)[j] by {
                assert(rest@[j] == before[j + 1]);
                assert(before.map_values(|t: T| t@)[j + 1] == all.skip(k)[j + 1]);
            }
            assert(rest@.map_values(|t: T| t@) =~= all.skip(k + 1));
            assert(all.take(k + 1).drop_last() =~= all.take(k));
        }
        let _ = m.insert(t);
        proof {
            k = k + 1;
        }
    }
    assert(all.take(k) =~= all);
    m
}

/// The library from the songs read from disk.
pub fn load_library(items: Vec<Song>) -> (lib: Library)
    ensures
        lib.wf(),
        lib.spec_map() == keyed_map::<Song>(items@.map_values(|t: Song| t@)),
{
    collect_by_id(items)
}

/// The playlists from those read from disk.
pub fn load_playlists(items: Vec<Playlist>) -> (ps: Playlists)
    ensures
        ps.wf(),
        ps.spec_map() == keyed_map::<Playlist>(items@.map_values(|t: Playlist| t@)),
{
    collect_by_id(items)
}

/// Loading the records that a snapshot of a map saved (its `values`, in
/// order) gives back the same map, with no id twice.
pub proof fn lemma_reload_gives_back<T: Keyed>(m: IdMap<T>, saved: Seq<T>)
    requires
        m.wf(),
        saved.map_values(|t: T| t@) == m.entries(),
    ensures
        keyed_map::<T>(saved.map_values(|t: T| t@)) == m.spec_map(),
        unique_keys::<T>(saved.map_values(|t: T| t@)),
{
}

} // verus!
