//! What the playlist requests change and answer, on the shared playlists:
//! the service computes the new value, these commit it.

use vstd::prelude::*;

use crate::domain::playlist::{Playlist, PlaylistId, PlaylistView, Playlists, materialized, with_ids, without};
use crate::domain::song::{Library, Song, SongId};
use crate::error::{AppError, join3};
use crate::network::protocol::ErrorCode;
use crate::services::playlist_service::{self, name_taken, not_found_message};
use crate::outside::is_uuid_text;
use crate::store::{Duplicate, Keyed};
use crate::text::{same_text, trimmed};

verus! {

/// Creates playlist `name` (trimmed) for `owner` and stores it; refused as
/// the service refuses, the playlists unchanged then.
pub fn create(playlists: &mut Playlists, name: &str, owner: &str) -> (r: Result<Playlist, AppError>)
    requires
        old(playlists).wf(),
    ensures
        final(playlists).wf(),
        match r {
            Ok(p) => {
                &&& trimmed(name@).len() > 0
                &&& !name_taken(old(playlists).entries(), trimmed(name@), owner@)
                &&& forall|i: int|
                    0 <= i < old(playlists).entries().len() ==> !((#[trigger] old(playlists).entries()[i]).name == trimmed(name@) && old(playlists).entries()[i].owner == owner@)
                &&& p@.name == trimmed(name@)
                &&& p@.owner == owner@
                &&& p@.song_ids == Seq::<Seq<char>>::empty()
                &&& p@.version == 1
                &&& is_uuid_text(p@.id)
                &&& p@.created_at.nanos < 2_000_000_000
                &&& final(playlists).spec_map() == old(playlists).spec_map().insert(p@.id, p@)
            },
            Err(e) => {
                &&& final(playlists).spec_map() == old(playlists).spec_map()
                &&& final(playlists).entries() == old(playlists).entries()
                &&& if trimmed(name@).len() == 0 {
                    e.code == ErrorCode::InvalidRequest && e.message@ == "Playlist name cannot be empty"@
                } else {
                    (exists|i: int|
                    0 <= i < old(playlists).entries().len() && (#[trigger] old(playlists).entries()[i]).name == trimmed(name@) && old(playlists).entries()[i].owner == owner@)
                    && name_taken(old(playlists).entries(), trimmed(name@), owner@) && e.code
                        == ErrorCode::DuplicateName && e.message@ == "Playlist name already exists"@
                }
            },
        },
{
    let new = playlist_service::create(playlists, name, owner)?;
    let stored = new.duplicate();
    let _ = playlists.insert(stored);
    Ok(new)
}

/// Deletes playlist `pid`; `NotFound` when there is none.
pub fn delete(playlists: &mut Playlists, pid: &PlaylistId) -> (r: Result<(), AppError>)
    requires
        old(playlists).wf(),
    ensures
        final(playlists).wf(),
        final(playlists).spec_map() == old(playlists).spec_map().remove(pid@),
        match r {
            Ok(_) => old(playlists).spec_map().contains_key(pid@),
            Err(e) => !old(playlists).spec_map().contains_key(pid@) && e.code == ErrorCode::NotFound
                && e.message@ == not_found_message("Playlist "@, pid@),
        },
{
    match playlists.remove(pid.as_str()) {
        Some(_) => Ok(()),
        None => Err(AppError::new(ErrorCode::NotFound, join3("Playlist ", pid.as_str(), " not found"))),
    }
}

/// Playlist `p` belongs to `owner`, or no owner is asked for.
pub open spec fn owned_by(owner: Option<Seq<char>>, p: PlaylistView) -> bool {
    match owner {
        Some(o) => p.owner == o,
        None => true,
    }
}

/// Asking for an owner keeps exactly the playlists of that owner: the owner
/// must be equal, not merely share a beginning; asking for none keeps all.
pub proof fn lemma_owned_by_is_equal_owner(owner: Option<Seq<char>>, p: PlaylistView)
    ensures
        owner is Some ==> (owned_by(owner, p) <==> p.owner == owner->0),
        owner is None ==> owned_by(owner, p),
{
}

/// The text of an optional borrowed string.
pub open spec fn opt_str(o: Option<&str>) -> Option<Seq<char>> {
    match o {
        Some(s) => Some(s@),
        None => None,
    }
}

/// The playlists (all, or those of `owner`), in store order.
pub fn list(playlists: &Playlists, owner: Option<&str>) -> (v: Vec<Playlist>)
    ensures
        v@.map_values(|p: Playlist| p@) == playlists.entries().filter(|p: PlaylistView| owned_by(opt_str(owner), p)),
        forall|i: int| 0 <= i < v.len() ==> playlists.entries().contains(#[trigger] v@[i]@),
        owner is Some ==> forall|i: int| 0 <= i < v.len() ==> (#[trigger] v@[i])@.owner == owner->0@,
        forall|i: int|
            0 <= i < playlists.entries().len() && owned_by(opt_str(owner), #[trigger] playlists.entries()[i])
                ==> v@.map_values(|p: Playlist| p@).contains(playlists.entries()[i]),
{
    let ghost pred = |p: PlaylistView| owned_by(opt_str(owner), p);
    let n = playlists.len();
    let mut out: Vec<Playlist> = Vec::new();
    let mut i: usize = 0;
    while i < n
        invariant
            n == playlists.entries().len(),
            i <= n,
            pred == (|p: PlaylistView| owned_by(opt_str(owner), p)),
            out@.map_values(|p: Playlist| p@) == playlists.entries().take(i as int).filter(pred),
        decreases n - i,
    {
        let p = playlists.entry(i);
        let keep = match owner {
            Some(o) => same_text(p.owner.as_str(), o),
            None => true,
        };
        proof {
            reveal_with_fuel(Seq::filter, 1);
            assert(playlists.entries().take(i + 1).drop_last() =~= playlists.entries().take(i as int));
        }
        let ghost before = out@;
        if keep {
            out.push(p.duplicate());
            assert(out@.map_values(|p: Playlist| p@) =~= before.map_values(|p: Playlist| p@).push(playlists.entries()[i as int]));
        }
        i = i + 1;
    }
    assert(playlists.entries().take(n as int) =~= playlists.entries());
    proof {
        let es = playlists.entries();
        let vs = out@.map_values(|p: Playlist| p@);
        crate::services::playlist_service::lemma_filter_from(es, pred);
        assert forall|i: int| 0 <= i < out.len() implies es.contains(#[trigger] out@[i]@) by {
            assert(vs[i] == out@[i]@);
        }
        assert forall|i: int| 0 <= i < out.len() implies pred(#[trigger] out@[i]@) by {
            assert(vs[i] == out@[i]@);
            es.lemma_filter_pred(pred, i);
        }
        assert forall|i: int| 0 <= i < es.len() && owned_by(opt_str(owner), #[trigger] es[i]) implies vs.contains(
            es[i],
        ) by {
            es.lemma_filter_contains(pred, i);
        }
    }
    out
}

/// Playlist `pid` with the library's songs for it; `NotFound` when there is
/// none.
pub fn get(playlists: &Playlists, lib: &Library, pid: &PlaylistId) -> (r: Result<(Playlist, Vec<Song>), AppError>)
    requires
        playlists.wf(),
        lib.wf(),
    ensures
        match r {
            Ok((p, songs)) => playlists.spec_map().contains_key(pid@) && p@ == playlists.spec_map()[pid@]
                && songs@ == materialized(p@.song_ids, lib.spec_map()),
            Err(e) => !playlists.spec_map().contains_key(pid@) && e.code == ErrorCode::NotFound
                && e.message@ == not_found_message("Playlist "@, pid@),
        },
{
    match playlists.get(pid.as_str()) {
        Some(p) => {
            let p = p.duplicate();
            let songs = playlist_service::materialize(lib, &p);
            Ok((p, songs))
        },
        None => Err(AppError::new(ErrorCode::NotFound, join3("Playlist ", pid.as_str(), " not found"))),
    }
}

/// Adds song `sid` to playlist `pid` and stores the new playlist; refused as
/// the service refuses, the playlists unchanged then.
pub fn add_song_to_playlist(lib: &Library, playlists: &mut Playlists, pid: &PlaylistId, sid: &SongId) -> (r: Result<Playlist, AppError>)
    requires
        lib.wf(),
        old(playlists).wf(),
        lib.spec_map().contains_key(sid@) && old(playlists).spec_map().contains_key(pid@)
            && !old(playlists).spec_map()[pid@].song_ids.contains(sid@) ==> old(playlists).spec_map()[pid@].version
            < u64::MAX,
    ensures
        final(playlists).wf(),
        match r {
            Ok(q) => {
                &&& lib.spec_map().contains_key(sid@)
                &&& old(playlists).spec_map().contains_key(pid@)
                &&& !old(playlists).spec_map()[pid@].song_ids.contains(sid@)
                &&& q@ == with_ids(old(playlists).spec_map()[pid@], old(playlists).spec_map()[pid@].song_ids.push(sid@))
                &&& final(playlists).spec_map() == old(playlists).spec_map().insert(pid@, q@)
            },
            Err(e) => {
                &&& final(playlists).spec_map() == old(playlists).spec_map()
                &&& if !lib.spec_map().contains_key(sid@) {
                    e.code == ErrorCode::SongNotFound && e.message@ == not_found_message("Song "@, sid@)
                } else if !old(playlists).spec_map().contains_key(pid@) {
                    e.code == ErrorCode::PlaylistNotFound && e.message@ == not_found_message("Playlist "@, pid@)
                } else {
                    old(playlists).spec_map()[pid@].song_ids.contains(sid@) && e.code == ErrorCode::AlreadyInPlaylist
                        && e.message@ == "Song already in playlist"@
                }
            },
        },
{
    proof {
        playlists.lemma_keys_are_ids();
    }
    let new = playlist_service::add_song(lib, playlists, pid, sid)?;
    let stored = new.duplicate();
    let _ = playlists.insert(stored);
    Ok(new)
}

/// Removes song `sid` from playlist `pid` and stores the new playlist;
/// refused as the service refuses, the playlists unchanged then.
pub fn remove_song_from_playlist(playlists: &mut Playlists, pid: &PlaylistId, sid: &SongId) -> (r: Result<Playlist, AppError>)
    requires
        old(playlists).wf(),
        old(playlists).spec_map().contains_key(pid@) && old(playlists).spec_map()[pid@].song_ids.contains(sid@)
            ==> old(playlists).spec_map()[pid@].version < u64::MAX,
    ensures
        final(playlists).wf(),
        match r {
            Ok(q) => {
                &&& old(playlists).spec_map().contains_key(pid@)
                &&& old(playlists).spec_map()[pid@].song_ids.contains(sid@)
                &&& q@ == with_ids(old(playlists).spec_map()[pid@], without(old(playlists).spec_map()[pid@].song_ids, sid@))
                &&& final(playlists).spec_map() == old(playlists).spec_map().insert(pid@, q@)
            },
            Err(e) => {
                &&& final(playlists).spec_map() == old(playlists).spec_map()
                &&& if !old(playlists).spec_map().contains_key(pid@) {
                    e.code == ErrorCode::PlaylistNotFound && e.message@ == not_found_message("Playlist "@, pid@)
                } else {
                    !old(playlists).spec_map()[pid@].song_ids.contains(sid@) && e.code == ErrorCode::SongNotInPlaylist
                        && e.message@ == "Song not in playlist"@
                }
            },
        },
{
    proof {
        playlists.lemma_keys_are_ids();
    }
    let new = playlist_service::remove_song(playlists, pid, sid)?;
    let stored = new.duplicate();
    let _ = playlists.insert(stored);
    Ok(new)
}


/// No owner has two playlists of the same name.
pub open spec fn names_unique(m: Map<Seq<char>, PlaylistView>) -> bool {
    forall|a: Seq<char>, b: Seq<char>|
        m.contains_key(a) && m.contains_key(b) && a != b ==> !((#[trigger] m[a]).name == (#[trigger] m[b]).name
            && m[a].owner == m[b].owner)
}

/// Storing a playlist that `create` accepted (its name is not taken for its
/// owner), under any id, keeps names distinct per owner.
pub proof fn lemma_create_keeps_names_unique(playlists: Playlists, p: PlaylistView)
    requires
        playlists.wf(),
        names_unique(playlists.spec_map()),
        !name_taken(playlists.entries(), p.name, p.owner),
    ensures
        names_unique(playlists.spec_map().insert(p.id, p)),
{
    playlists.lemma_map_of_entries();
    let m = playlists.spec_map();
    let m2 = m.insert(p.id, p);
    assert forall|k: Seq<char>| #[trigger] m.contains_key(k) implies !(m[k].name == p.name && m[k].owner == p.owner) by {
        let i = choose|i: int| 0 <= i < playlists.entries().len() && Playlist::spec_key(#[trigger] playlists.entries()[i]) == k;
        assert(m[Playlist::spec_key(playlists.entries()[i])] == playlists.entries()[i]);
    }
    assert forall|a: Seq<char>, b: Seq<char>|
        m2.contains_key(a) && m2.contains_key(b) && a != b implies !((#[trigger] m2[a]).name == (#[trigger] m2[b]).name
            && m2[a].owner == m2[b].owner) by {
        if a == p.id {
            assert(m.contains_key(b));
        } else if b == p.id {
            assert(m.contains_key(a));
        } else {
            assert(m2[a] == m[a] && m2[b] == m[b]);
        }
    }
}

/// After a song of the library is added to a playlist, reading the playlist
/// shows its songs as before with the added song last.
pub proof fn lemma_added_song_shows_last(ids: Seq<Seq<char>>, lib: Map<Seq<char>, Song>, sid: Seq<char>)
    requires
        lib.contains_key(sid),
    ensures
        materialized(ids.push(sid), lib) == materialized(ids, lib).push(lib[sid]),
{
    assert(ids.push(sid).drop_last() =~= ids);
}

} // verus!
