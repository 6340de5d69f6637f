//! The playlist service: pure functions over read-only snapshots of the
//! library and the playlists, returning new values for the caller to commit.

use vstd::prelude::*;

use crate::domain::playlist::{
    self, Playlist, PlaylistId, PlaylistError, PlaylistView, Playlists, capped, dedup, is_stable_sort, materialized,
    with_ids, without,
};
use crate::domain::predicate::{SongPredicate, criteria_holds, criteria_refusal, criteria_refused, meets};
use crate::domain::song::{Library, Song, SongId};
use crate::error::{AppError, join3, text};
use crate::network::protocol::{
    Criteria, CriteriaField, CriteriaOp, ErrorCode, SortBy, SortOrder, TransformOp,
};
use crate::outside::{is_uuid_text, to_lowercase};

verus! {

/// The message of a refused criterion, or of an unknown id: `what` then the
/// id then "not found".
pub open spec fn not_found_message(what: Seq<char>, id: Seq<char>) -> Seq<char> {
    what + id + " not found"@
}

/// Some playlist of `ps` has this name and owner.
pub open spec fn name_taken(ps: Seq<PlaylistView>, name: Seq<char>, owner: Seq<char>) -> bool {
    exists|i: int| 0 <= i < ps.len() && ps[i].name == name && ps[i].owner == owner
}

/// A name is taken for an owner exactly when some playlist has that name and
/// that owner: another owner's playlist of the name, or another name of the
/// owner, does not take it.
pub proof fn lemma_name_taken_means_same_name_and_owner(ps: Seq<PlaylistView>, name: Seq<char>, owner: Seq<char>)
    ensures
        name_taken(ps, name, owner) <==> exists|i: int|
            0 <= i < ps.len() && (#[trigger] ps[i]).name == name && ps[i].owner == owner,
        forall|i: int|
            0 <= i < ps.len() && (#[trigger] ps[i]).name != name ==> (name_taken(ps, name, owner)
                == name_taken(ps.remove(i), name, owner)),
{
    assert forall|i: int|
        0 <= i < ps.len() && (#[trigger] ps[i]).name != name implies (name_taken(ps, name, owner)
            == name_taken(ps.remove(i), name, owner)) by {
        let r = ps.remove(i);
        if name_taken(ps, name, owner) {
            let j = choose|j: int| 0 <= j < ps.len() && ps[j].name == name && ps[j].owner == owner;
            let k = if j < i { j } else { j - 1 };
            assert(r[k] == ps[j]);
        }
        if name_taken(r, name, owner) {
            let k = choose|k: int| 0 <= k < r.len() && r[k].name == name && r[k].owner == owner;
            let j = if k < i { k } else { k + 1 };
            assert(r[k] == ps[j]);
        }
    }
}

/// A new playlist named `name` (trimmed) for `owner`. Refused when the trimmed
/// name is empty, or when `owner` already has a playlist of that name.
pub fn create(existing: &Playlists, name: &str, owner: &str) -> (r: Result<Playlist, AppError>)
    ensures
        match r {
            Ok(p) => {
                &&& crate::text::trimmed(name@).len() > 0
                &&& !name_taken(existing.entries(), crate::text::trimmed(name@), owner@)
                &&& forall|i: int|
                    0 <= i < existing.entries().len() ==> !((#[trigger] existing.entries()[i]).name == crate::text::trimmed(name@) && existing.entries()[i].owner == owner@)
                &&& p@.name == crate::text::trimmed(name@)
                &&& p@.owner == owner@
                &&& p@.song_ids == Seq::<Seq<char>>::empty()
                &&& p@.version == 1
                &&& is_uuid_text(p@.id)
                &&& p@.created_at.nanos < 2_000_000_000
            },
            Err(e) => if crate::text::trimmed(name@).len() == 0 {
                e.code == ErrorCode::InvalidRequest && e.message@ == "Playlist name cannot be empty"@
            } else {
                (exists|i: int|
                    0 <= i < existing.entries().len() && (#[trigger] existing.entries()[i]).name == crate::text::trimmed(name@) && existing.entries()[i].owner == owner@)
                    && name_taken(existing.entries(), crate::text::trimmed(name@), owner@) && e.code
                    == ErrorCode::DuplicateName && e.message@ == "Playlist name already exists"@
            },
        },
{
    let trimmed = crate::text::trim(name);
    if trimmed.as_str().is_empty() {
        return Err(AppError::new(ErrorCode::InvalidRequest, text("Playlist name cannot be empty")));
    }
    let owner_s = text(owner);
    let n = existing.len();
    let mut i: usize = 0;
    while i < n
        invariant
            n == existing.entries().len(),
            i <= n,
            trimmed@ == crate::text::trimmed(name@),
            trimmed@.len() > 0,
            owner_s@ == owner@,
            forall|j: int|
                0 <= j < i ==> !(existing.entries()[j].name == trimmed@ && existing.entries()[j].owner
                    == owner@),
        decreases n - i,
    {
        let p = existing.entry(i);
        if p.name == trimmed && p.owner == owner_s {
            assert(existing.entries()[i as int].name == trimmed@);
            return Err(AppError::new(ErrorCode::DuplicateName, text("Playlist name already exists")));
        }
        i = i + 1;
    }
    Ok(Playlist::new(trimmed, owner_s))
}

/// The playlist with id `pid`; refused with `PlaylistNotFound` when there is
/// none.
pub fn lookup<'a>(playlists: &'a Playlists, pid: &PlaylistId) -> (r: Result<&'a Playlist, AppError>)
    requires
        playlists.wf(),
    ensures
        match r {
            Ok(p) => playlists.spec_map().contains_key(pid@) && p@ == playlists.spec_map()[pid@],
            Err(e) => !playlists.spec_map().contains_key(pid@) && e.code == ErrorCode::PlaylistNotFound
                && e.message@ == not_found_message("Playlist "@, pid@),
        },
{
    match playlists.get(pid.as_str()) {
        Some(p) => Ok(p),
        None => Err(AppError::new(ErrorCode::PlaylistNotFound, join3("Playlist ", pid.as_str(), " not found"))),
    }
}

/// The protocol error for a refused playlist change.
pub fn map_playlist_err(e: PlaylistError) -> (r: AppError)
    ensures
        e == PlaylistError::AlreadyInPlaylist ==> r.code == ErrorCode::AlreadyInPlaylist && r.message@
            == "Song already in playlist"@,
        e == PlaylistError::SongNotInPlaylist ==> r.code == ErrorCode::SongNotInPlaylist && r.message@
            == "Song not in playlist"@,
{
    match e {
        PlaylistError::AlreadyInPlaylist => AppError::new(
            ErrorCode::AlreadyInPlaylist,
            text("Song already in playlist"),
        ),
        PlaylistError::SongNotInPlaylist => AppError::new(
            ErrorCode::SongNotInPlaylist,
            text("Song not in playlist"),
        ),
    }
}

/// An `InvalidCriteria` error with message `msg`.
pub fn inv(msg: &str) -> (e: AppError)
    ensures
        e.code == ErrorCode::InvalidCriteria,
        e.message@ == msg@,
{
    AppError::new(ErrorCode::InvalidCriteria, text(msg))
}



/// Adds song `sid` to playlist `pid`: refused with `SongNotFound` when the
/// library lacks the song, `PlaylistNotFound` when there is no such
/// playlist, `AlreadyInPlaylist` when the song is there already. Checked in
/// that order.
pub fn add_song(lib: &Library, playlists: &Playlists, pid: &PlaylistId, sid: &SongId) -> (r: Result<Playlist, AppError>)
    requires
        lib.wf(),
        playlists.wf(),
        lib.spec_map().contains_key(sid@) && playlists.spec_map().contains_key(pid@)
            && !playlists.spec_map()[pid@].song_ids.contains(sid@) ==> playlists.spec_map()[pid@].version
            < u64::MAX,
    ensures
        match r {
            Ok(q) => {
                &&& lib.spec_map().contains_key(sid@)
                &&& playlists.spec_map().contains_key(pid@)
                &&& !playlists.spec_map()[pid@].song_ids.contains(sid@)
                &&& q@ == with_ids(playlists.spec_map()[pid@], playlists.spec_map()[pid@].song_ids.push(sid@))
            },
            Err(e) => if !lib.spec_map().contains_key(sid@) {
                e.code == ErrorCode::SongNotFound && e.message@ == not_found_message("Song "@, sid@)
            } else if !playlists.spec_map().contains_key(pid@) {
                e.code == ErrorCode::PlaylistNotFound && e.message@ == not_found_message("Playlist "@, pid@)
            } else {
                playlists.spec_map()[pid@].song_ids.contains(sid@) && e.code == ErrorCode::AlreadyInPlaylist
                    && e.message@ == "Song already in playlist"@
            },
        },
{
    if !lib.contains_key(sid.as_str()) {
        return Err(AppError::new(ErrorCode::SongNotFound, join3("Song ", sid.as_str(), " not found")));
    }
    let p = lookup(playlists, pid)?;
    match playlist::add_song(p, sid.clone()) {
        Ok(q) => Ok(q),
        Err(e) => Err(map_playlist_err(e)),
    }
}

/// Removes song `sid` from playlist `pid`: refused with `PlaylistNotFound`
/// when there is no such playlist, `SongNotInPlaylist` when the song is not
/// in it.
pub fn remove_song(playlists: &Playlists, pid: &PlaylistId, sid: &SongId) -> (r: Result<Playlist, AppError>)
    requires
        playlists.wf(),
        playlists.spec_map().contains_key(pid@) && playlists.spec_map()[pid@].song_ids.contains(sid@)
            ==> playlists.spec_map()[pid@].version < u64::MAX,
    ensures
        match r {
            Ok(q) => {
                &&& playlists.spec_map().contains_key(pid@)
                &&& playlists.spec_map()[pid@].song_ids.contains(sid@)
                &&& q@ == with_ids(playlists.spec_map()[pid@], without(playlists.spec_map()[pid@].song_ids, sid@))
            },
            Err(e) => if !playlists.spec_map().contains_key(pid@) {
                e.code == ErrorCode::PlaylistNotFound && e.message@ == not_found_message("Playlist "@, pid@)
            } else {
                !playlists.spec_map()[pid@].song_ids.contains(sid@) && e.code == ErrorCode::SongNotInPlaylist
                    && e.message@ == "Song not in playlist"@
            },
        },
{
    let p = lookup(playlists, pid)?;
    match playlist::remove_song(p, sid) {
        Ok(q) => Ok(q),
        Err(e) => Err(map_playlist_err(e)),
    }
}

/// A bound of the wire brought into `u32`, saturating at both ends.
fn clamp_to_u32(x: i64) -> (r: u32)
    ensures
        r == crate::domain::predicate::clamp_u32(x),
{
    if x < 0 {
        0
    } else if x > 0xFFFF_FFFF {
        u32::MAX
    } else {
        x as u32
    }
}

/// The condition that criterion `c` stands for; refused with
/// `InvalidCriteria` when the field/op pair is unknown or a needed value is
/// missing.
pub fn criteria_predicate(c: &Criteria) -> (r: Result<SongPredicate, AppError>)
    ensures
        match r {
            Ok(pred) => !criteria_refused(*c) && forall|s: Song| pred.holds(s) == criteria_holds(*c, s),
            Err(e) => criteria_refused(*c) && e.code == ErrorCode::InvalidCriteria && e.message@
                == criteria_refusal(*c),
        },
{
    if c.field == CriteriaField::Title && c.op == CriteriaOp::Contains {
        match &c.value {
            Some(v) => Ok(SongPredicate::TitleContains(to_lowercase(v.as_str()))),
            None => Err(inv("value required")),
        }
    } else if c.field == CriteriaField::Artist && c.op == CriteriaOp::Contains {
        match &c.value {
            Some(v) => Ok(SongPredicate::ArtistContains(to_lowercase(v.as_str()))),
            None => Err(inv("value required")),
        }
    } else if c.field == CriteriaField::Genre && c.op == CriteriaOp::Equals {
        match &c.value {
            Some(v) => Ok(SongPredicate::GenreEquals(v.clone())),
            None => Err(inv("value required")),
        }
    } else if c.field == CriteriaField::Duration && c.op == CriteriaOp::Range {
        let min = match c.min {
            Some(x) => clamp_to_u32(x),
            None => 0,
        };
        let max = match c.max {
            Some(x) => clamp_to_u32(x),
            None => u32::MAX,
        };
        Ok(SongPredicate::DurationBetween(min, max))
    } else if c.field == CriteriaField::AddedAt && c.op == CriteriaOp::Range {
        let min = match c.min {
            Some(x) => x,
            None => i64::MIN,
        };
        let max = match c.max {
            Some(x) => x,
            None => i64::MAX,
        };
        Ok(SongPredicate::AddedBetween(min, max))
    } else {
        Err(inv("Unsupported field/op combination"))
    }
}

/// The songs of playlist `pid` that the library holds and that meet `c`, in
/// playlist order; refused when there is no such playlist (checked first) or
/// when the criterion is refused.
pub fn filter(lib: &Library, playlists: &Playlists, pid: &PlaylistId, c: &Criteria) -> (r: Result<Vec<Song>, AppError>)
    requires
        lib.wf(),
        playlists.wf(),
    ensures
        match r {
            Ok(v) => {
                &&& playlists.spec_map().contains_key(pid@)
                &&& !criteria_refused(*c)
                &&& v@ == materialized(playlists.spec_map()[pid@].song_ids, lib.spec_map()).filter(meets(*c))
            },
            Err(e) => if !playlists.spec_map().contains_key(pid@) {
                e.code == ErrorCode::PlaylistNotFound && e.message@ == not_found_message("Playlist "@, pid@)
            } else {
                criteria_refused(*c) && e.code == ErrorCode::InvalidCriteria && e.message@ == criteria_refusal(*c)
            },
        },
{
    let p = lookup(playlists, pid)?;
    let pred = criteria_predicate(c)?;
    let v = playlist::filter_by(p, lib, &pred);
    assert((|s: Song| pred.holds(s)) =~= meets(*c));
    Ok(v)
}

/// Every item that a filter keeps is an item of the sequence filtered.
pub proof fn lemma_filter_from<A>(s: Seq<A>, pred: spec_fn(A) -> bool)
    ensures
        forall|i: int| 0 <= i < s.filter(pred).len() ==> s.contains(#[trigger] s.filter(pred)[i]),
    decreases s.len(),
{
    reveal_with_fuel(Seq::filter, 1);
    if s.len() > 0 {
        let p = s.drop_last();
        lemma_filter_from(p, pred);
        assert forall|i: int| 0 <= i < s.filter(pred).len() implies s.contains(#[trigger] s.filter(pred)[i]) by {
            if i < p.filter(pred).len() {
                let j = choose|j: int| 0 <= j < p.len() && p[j] == p.filter(pred)[i];
                assert(s[j] == p[j]);
                assert(s.filter(pred)[i] == p.filter(pred)[i]);
            } else {
                assert(s.filter(pred)[i] == s.last());
                assert(s[s.len() - 1] == s.last());
            }
        }
    }
}

/// A filter returns exactly the songs of the playlist that meet the
/// criterion: each song returned meets it and is a song of the playlist, and
/// each song of the playlist that meets it is returned.
pub proof fn lemma_filter_exact(songs: Seq<Song>, c: Criteria)
    ensures
        forall|i: int|
            0 <= i < songs.filter(meets(c)).len() ==> criteria_holds(c, #[trigger] songs.filter(meets(c))[i])
                && songs.contains(songs.filter(meets(c))[i]),
        forall|i: int|
            0 <= i < songs.len() && criteria_holds(c, #[trigger] songs[i]) ==> songs.filter(meets(c)).contains(
                songs[i],
            ),
{
    let pred = meets(c);
    lemma_filter_from(songs, pred);
    assert forall|i: int| 0 <= i < songs.filter(pred).len() implies criteria_holds(c, #[trigger] songs.filter(pred)[i]) by {
        songs.lemma_filter_pred(pred, i);
    }
    assert forall|i: int| 0 <= i < songs.len() && criteria_holds(c, #[trigger] songs[i]) implies songs.filter(pred).contains(songs[i]) by {
        songs.lemma_filter_contains(pred, i);
    }
}

/// The songs of playlist `pid` that the library holds, stably sorted by `by`,
/// then reversed when `order` is descending; refused when there is no such
/// playlist.
pub fn sort(lib: &Library, playlists: &Playlists, pid: &PlaylistId, by: SortBy, order: SortOrder) -> (r: Result<Vec<Song>, AppError>)
    requires
        lib.wf(),
        playlists.wf(),
    ensures
        match r {
            Ok(v) => {
                let m = materialized(playlists.spec_map()[pid@].song_ids, lib.spec_map());
                &&& playlists.spec_map().contains_key(pid@)
                &&& order == SortOrder::Asc ==> is_stable_sort(by, m, v@)
                &&& order == SortOrder::Desc ==> exists|asc: Seq<Song>| is_stable_sort(by, m, asc) && v@ == asc.reverse()
            },
            Err(e) => !playlists.spec_map().contains_key(pid@) && e.code == ErrorCode::PlaylistNotFound
                && e.message@ == not_found_message("Playlist "@, pid@),
        },
{
    let p = lookup(playlists, pid)?;
    let sorted = playlist::sort_by(p, lib, by);
    match order {
        SortOrder::Asc => Ok(sorted),
        SortOrder::Desc => {
            let rev = reversed(&sorted);
            Ok(rev)
        },
    }
}

/// Sorting a playlist in descending order gives its ascending order
/// reversed: what `sort` returns for `Asc` (`asc`) and for `Desc` (`desc`) on
/// the same songs satisfy `desc == asc.reverse()`.
pub proof fn lemma_desc_is_asc_reversed(by: SortBy, songs: Seq<Song>, asc: Seq<Song>, desc: Seq<Song>)
    requires
        is_stable_sort(by, songs, asc),
        exists|a: Seq<Song>| is_stable_sort(by, songs, a) && desc == a.reverse(),
    ensures
        desc == asc.reverse(),
{
    let a = choose|a: Seq<Song>| is_stable_sort(by, songs, a) && desc == a.reverse();
    playlist::lemma_stable_sort_unique(by, songs, a, asc);
}

/// `v` back to front.
fn reversed(v: &Vec<Song>) -> (r: Vec<Song>)
    ensures
        r@ == v@.reverse(),
{
    let n = v.len();
    let mut out: Vec<Song> = Vec::new();
    let mut i: usize = n;
    while i > 0
        invariant
            n == v.len(),
            i <= n,
            out@ == v@.skip(i as int).reverse(),
        decreases i,
    {
        proof {
            assert(v@.skip(i - 1).reverse() =~= v@.skip(i as int).reverse().push(v@[i - 1]));
        }
        out.push(v[i - 1].clone());
        i = i - 1;
    }
    assert(v@.skip(0) =~= v@);
    out
}

/// The song ids that a transform derives.
pub open spec fn transformed_ids(ids: Seq<Seq<char>>, op: TransformOp, n: Option<usize>) -> Seq<Seq<char>> {
    let k = match n {
        Some(k) => k,
        None => 0,
    };
    match op {
        TransformOp::Dedupe => dedup(ids),
        TransformOp::Reverse => ids.reverse(),
        TransformOp::Take => ids.take(capped(k, ids.len())),
        TransformOp::Drop => ids.skip(capped(k, ids.len())),
    }
}

/// The library's songs for the ids that `op` derives from playlist `pid`
/// (`n` counts for take and drop, none meaning 0); the playlist itself is
/// unchanged. Refused when there is no such playlist.
pub fn transform(lib: &Library, playlists: &Playlists, pid: &PlaylistId, op: TransformOp, n: Option<usize>) -> (r: Result<Vec<Song>, AppError>)
    requires
        lib.wf(),
        playlists.wf(),
        playlists.spec_map().contains_key(pid@) ==> playlists.spec_map()[pid@].version < u64::MAX,
    ensures
        match r {
            Ok(v) => playlists.spec_map().contains_key(pid@) && v@ == materialized(
                transformed_ids(playlists.spec_map()[pid@].song_ids, op, n),
                lib.spec_map(),
            ),
            Err(e) => !playlists.spec_map().contains_key(pid@) && e.code == ErrorCode::PlaylistNotFound
                && e.message@ == not_found_message("Playlist "@, pid@),
        },
{
    let p = lookup(playlists, pid)?;
    let k = match n {
        Some(k) => k,
        None => 0,
    };
    let derived = match op {
        TransformOp::Dedupe => playlist::dedupe(p),
        TransformOp::Reverse => playlist::reverse(p),
        TransformOp::Take => playlist::take(p, k),
        TransformOp::Drop => playlist::drop(p, k),
    };
    Ok(playlist::materialize_songs(&derived, lib))
}

/// The songs of playlist `p` that the library holds, in playlist order.
pub fn materialize(lib: &Library, p: &Playlist) -> (songs: Vec<Song>)
    requires
        lib.wf(),
    ensures
        songs@ == materialized(p@.song_ids, lib.spec_map()),
{
    playlist::materialize_songs(p, lib)
}

} // verus!
