//! Playlists and the pure operations over them. Each operation returns a new
//! playlist with the version one higher and never changes its input.

use vstd::prelude::*;

use crate::domain::predicate::SongPredicate;
use crate::domain::song::{Library, Song, SongId, Timestamp};
use crate::network::protocol::SortBy;
use crate::outside::{
    id_items, ids_clone, ids_get, ids_len, ids_new, ids_push_back, is_uuid_text, lowercase, new_uuid_hyphenated,
    to_lowercase, utc_now,
};
use crate::store::Keyed;
use crate::text::{chars_of, lemma_lex_total, lemma_lex_trans, lex_le, lex_le_chars};

verus! {

/// Playlist ids are strings.
pub type PlaylistId = String;

/// A named, owned, ordered list of song ids.
#[derive(Debug)]
pub struct Playlist {
    pub id: PlaylistId,
    pub name: String,
    pub owner: String,
    pub song_ids: im::Vector<SongId>,
    pub created_at: Timestamp,
    pub version: u64,
}

/// What a playlist is: its fields, the song ids as a sequence.
pub struct PlaylistView {
    pub id: Seq<char>,
    pub name: Seq<char>,
    pub owner: Seq<char>,
    pub song_ids: Seq<Seq<char>>,
    pub created_at: Timestamp,
    pub version: u64,
}

impl View for Playlist {
    type V = PlaylistView;

    open spec fn view(&self) -> PlaylistView {
        PlaylistView {
            id: self.id@,
            name: self.name@,
            owner: self.owner@,
            song_ids: id_items(self.song_ids),
            created_at: self.created_at,
            version: self.version,
        }
    }
}

impl Clone for Playlist {
    fn clone(&self) -> (r: Self)
        ensures
            r@ == self@,
    {
        Playlist {
            id: self.id.clone(),
            name: self.name.clone(),
            owner: self.owner.clone(),
            song_ids: ids_clone(&self.song_ids),
            created_at: self.created_at,
            version: self.version,
        }
    }
}

impl Keyed for Playlist {
    open spec fn spec_key(v: PlaylistView) -> Seq<char> {
        v.id
    }

    fn key(&self) -> (k: &String) {
        &self.id
    }

}

impl crate::store::Duplicate for Playlist {
    fn duplicate(&self) -> (r: Self) {
        self.clone()
    }
}

/// The playlists by id.
pub type Playlists = crate::store::IdMap<Playlist>;

/// Why a change to a playlist was refused.
#[derive(Debug, Clone, Copy, PartialEq, Eq, Structural)]
pub enum PlaylistError {
    AlreadyInPlaylist,
    SongNotInPlaylist,
}

/// `p` with the song ids `ids` and the next version; all else kept.
pub open spec fn with_ids(p: PlaylistView, ids: Seq<Seq<char>>) -> PlaylistView {
    PlaylistView { song_ids: ids, version: (p.version + 1) as u64, ..p }
}

impl Playlist {
    /// A new empty playlist at version 1, with a fresh random id and the
    /// current time.
    pub fn new(name: String, owner: String) -> (p: Self)
        ensures
            p@.name == name@,
            p@.owner == owner@,
            p@.song_ids == Seq::<Seq<char>>::empty(),
            p@.version == 1,
            is_uuid_text(p@.id),
            p@.created_at.nanos < 2_000_000_000,
    {
        Playlist {
            id: new_uuid_hyphenated(),
            name,
            owner,
            song_ids: ids_new(),
            created_at: utc_now(),
            version: 1,
        }
    }

    /// The number of songs.
    pub fn song_count(&self) -> (n: usize)
        ensures
            n == self@.song_ids.len(),
    {
        ids_len(&self.song_ids)
    }

    /// Whether `song_id` is in the playlist.
    pub fn contains(&self, song_id: &SongId) -> (b: bool)
        ensures
            b == self@.song_ids.contains(song_id@),
    {
        let n = ids_len(&self.song_ids);
        let mut i: usize = 0;
        while i < n
            invariant
                n == self@.song_ids.len(),
                i <= n,
                forall|j: int| 0 <= j < i ==> self@.song_ids[j] != song_id@,
            decreases n - i,
        {
            let id = ids_get(&self.song_ids, i);
            if id == *song_id {
                return true;
            }
            i = i + 1;
        }
        false
    }
}

/// The copy of `p` with `song_ids` and the next version.
fn replace_ids(p: &Playlist, song_ids: im::Vector<SongId>) -> (q: Playlist)
    requires
        p@.version < u64::MAX,
    ensures
        q@ == with_ids(p@, id_items(song_ids)),
{
    Playlist {
        id: p.id.clone(),
        name: p.name.clone(),
        owner: p.owner.clone(),
        song_ids,
        created_at: p.created_at,
        version: p.version + 1,
    }
}

/// Appends `song_id`; refused when it is already there.
pub fn add_song(p: &Playlist, song_id: SongId) -> (r: Result<Playlist, PlaylistError>)
    requires
        !p@.song_ids.contains(song_id@) ==> p@.version < u64::MAX,
    ensures
        match r {
            Ok(q) => !p@.song_ids.contains(song_id@) && q@ == with_ids(
                p@,
                p@.song_ids.push(song_id@),
            ),
            Err(e) => p@.song_ids.contains(song_id@) && e == PlaylistError::AlreadyInPlaylist,
        },
{
    if p.contains(&song_id) {
        return Err(PlaylistError::AlreadyInPlaylist);
    }
    let mut next = ids_clone(&p.song_ids);
    ids_push_back(&mut next, song_id);
    Ok(replace_ids(p, next))
}

/// The ids of `s` other than `id`, in order.
pub open spec fn without(s: Seq<Seq<char>>, id: Seq<char>) -> Seq<Seq<char>> {
    s.filter(other_than(id))
}

/// The test "is not `id`".
pub open spec fn other_than(id: Seq<char>) -> spec_fn(Seq<char>) -> bool {
    |x: Seq<char>| x != id
}

/// Removes every occurrence of `song_id`; refused when it is not there.
pub fn remove_song(p: &Playlist, song_id: &SongId) -> (r: Result<Playlist, PlaylistError>)
    requires
        p@.song_ids.contains(song_id@) ==> p@.version < u64::MAX,
    ensures
        match r {
            Ok(q) => p@.song_ids.contains(song_id@) && q@ == with_ids(
                p@,
                without(p@.song_ids, song_id@),
            ),
            Err(e) => !p@.song_ids.contains(song_id@) && e == PlaylistError::SongNotInPlaylist,
        },
{
    if !p.contains(song_id) {
        return Err(PlaylistError::SongNotInPlaylist);
    }
    let ghost ids = p@.song_ids;
    let ghost sid = song_id@;
    let n = ids_len(&p.song_ids);
    let mut next = ids_new();
    let mut i: usize = 0;
    while i < n
        invariant
            ids == p@.song_ids,
            sid == song_id@,
            n == ids.len(),
            i <= n,
            id_items(next) == without(ids.take(i as int), sid),
        decreases n - i,
    {
        let id = ids_get(&p.song_ids, i);
        proof {
            reveal_with_fuel(Seq::filter, 1);
            assert(ids.take(i + 1).drop_last() =~= ids.take(i as int));
        }
        if id != *song_id {
            ids_push_back(&mut next, id);
        }
        i = i + 1;
    }
    assert(ids.take(n as int) =~= ids);
    Ok(replace_ids(p, next))
}

/// The ids of `s`, each kept at its first occurrence only.
pub open spec fn dedup(s: Seq<Seq<char>>) -> Seq<Seq<char>>
    decreases s.len(),
{
    if s.len() == 0 {
        s
    } else {
        let d = dedup(s.drop_last());
        if d.contains(s.last()) {
            d
        } else {
            d.push(s.last())
        }
    }
}

/// Whether `v` holds `x`.
fn ids_contain(v: &im::Vector<SongId>, x: &SongId) -> (b: bool)
    ensures
        b == id_items(*v).contains(x@),
{
    let n = ids_len(v);
    let mut i: usize = 0;
    while i < n
        invariant
            n == id_items(*v).len(),
            i <= n,
            forall|j: int| 0 <= j < i ==> id_items(*v)[j] != x@,
        decreases n - i,
    {
        let id = ids_get(v, i);
        if id == *x {
            return true;
        }
        i = i + 1;
    }
    false
}

/// Keeps the first occurrence of each id, dropping later repeats.
pub fn dedupe(p: &Playlist) -> (q: Playlist)
    requires
        p@.version < u64::MAX,
    ensures
        q@ == with_ids(p@, dedup(p@.song_ids)),
{
    let ghost ids = p@.song_ids;
    let n = ids_len(&p.song_ids);
    let mut acc = ids_new();
    let mut i: usize = 0;
    while i < n
        invariant
            ids == p@.song_ids,
            n == ids.len(),
            i <= n,
            id_items(acc) == dedup(ids.take(i as int)),
        decreases n - i,
    {
        let id = ids_get(&p.song_ids, i);
        proof {
            assert(ids.take(i + 1).drop_last() =~= ids.take(i as int));
        }
        if !ids_contain(&acc, &id) {
            ids_push_back(&mut acc, id);
        }
        i = i + 1;
    }
    assert(ids.take(n as int) =~= ids);
    replace_ids(p, acc)
}

/// The song ids in reverse order.
pub fn reverse(p: &Playlist) -> (q: Playlist)
    requires
        p@.version < u64::MAX,
    ensures
        q@ == with_ids(p@, p@.song_ids.reverse()),
{
    let ghost ids = p@.song_ids;
    let n = ids_len(&p.song_ids);
    let mut next = ids_new();
    let mut i: usize = n;
    while i > 0
        invariant
            ids == p@.song_ids,
            n == ids.len(),
            i <= n,
            id_items(next) == ids.skip(i as int).reverse(),
        decreases i,
    {
        let id = ids_get(&p.song_ids, i - 1);
        proof {
            assert(ids.skip(i - 1).reverse() =~= ids.skip(i as int).reverse().push(ids[i - 1]));
        }
        ids_push_back(&mut next, id);
        i = i - 1;
    }
    assert(ids.skip(0) =~= ids);
    replace_ids(p, next)
}

/// `n`, capped at `len`: how many items `take` and `skip` of `std` count.
pub open spec fn capped(n: usize, len: nat) -> int {
    if n <= len {
        n as int
    } else {
        len as int
    }
}

/// The first `n` song ids (all of them when there are fewer).
pub fn take(p: &Playlist, n: usize) -> (q: Playlist)
    requires
        p@.version < u64::MAX,
    ensures
        q@ == with_ids(p@, p@.song_ids.take(capped(n, p@.song_ids.len()))),
{
    let ghost ids = p@.song_ids;
    let len = ids_len(&p.song_ids);
    let stop = if n < len { n } else { len };
    let mut next = ids_new();
    let mut i: usize = 0;
    while i < stop
        invariant
            ids == p@.song_ids,
            len == ids.len(),
            stop <= len,
            i <= stop,
            id_items(next) == ids.take(i as int),
        decreases stop - i,
    {
        let id = ids_get(&p.song_ids, i);
        proof {
            assert(ids.take(i + 1) =~= ids.take(i as int).push(ids[i as int]));
        }
        ids_push_back(&mut next, id);
        i = i + 1;
    }
    replace_ids(p, next)
}

/// The song ids after the first `n` (none when there are fewer).
pub fn drop(p: &Playlist, n: usize) -> (q: Playlist)
    requires
        p@.version < u64::MAX,
    ensures
        q@ == with_ids(p@, p@.song_ids.skip(capped(n, p@.song_ids.len()))),
{
    let ghost ids = p@.song_ids;
    let len = ids_len(&p.song_ids);
    let start = if n < len { n } else { len };
    let mut next = ids_new();
    let mut i: usize = start;
    assert(ids.subrange(start as int, start as int) =~= Seq::<Seq<char>>::empty());
    while i < len
        invariant
            ids == p@.song_ids,
            len == ids.len(),
            start <= i <= len,
            id_items(next) == ids.subrange(start as int, i as int),
        decreases len - i,
    {
        let id = ids_get(&p.song_ids, i);
        proof {
            assert(ids.subrange(start as int, i + 1) =~= ids.subrange(start as int, i as int).push(
                ids[i as int],
            ));
        }
        ids_push_back(&mut next, id);
        i = i + 1;
    }
    assert(ids.subrange(start as int, len as int) =~= ids.skip(start as int));
    replace_ids(p, next)
}

/// The songs of the library that `ids` name, in the order of `ids`; ids the
/// library lacks are skipped.
pub open spec fn materialized(ids: Seq<Seq<char>>, lib: Map<Seq<char>, Song>) -> Seq<Song>
    decreases ids.len(),
{
    if ids.len() == 0 {
        Seq::empty()
    } else {
        let rest = materialized(ids.drop_last(), lib);
        if lib.contains_key(ids.last()) {
            rest.push(lib[ids.last()])
        } else {
            rest
        }
    }
}

/// The songs of the playlist that the library holds, in playlist order.
pub fn materialize_songs(p: &Playlist, lib: &Library) -> (songs: Vec<Song>)
    requires
        lib.wf(),
    ensures
        songs@ == materialized(p@.song_ids, lib.spec_map()),
{
    let ghost ids = p@.song_ids;
    let n = ids_len(&p.song_ids);
    let mut out: Vec<Song> = Vec::new();
    let mut i: usize = 0;
    while i < n
        invariant
            ids == p@.song_ids,
            n == ids.len(),
            lib.wf(),
            i <= n,
            out@ == materialized(ids.take(i as int), lib.spec_map()),
        decreases n - i,
    {
        let id = ids_get(&p.song_ids, i);
        proof {
            assert(ids.take(i + 1).drop_last() =~= ids.take(i as int));
        }
        match lib.get(id.as_str()) {
            Some(s) => out.push(s.clone()),
            None => {},
        }
        i = i + 1;
    }
    assert(ids.take(n as int) =~= ids);
    out
}

/// The songs of the playlist that the library holds and that meet `pred`, in
/// playlist order.
pub fn filter_by(p: &Playlist, lib: &Library, pred: &SongPredicate) -> (songs: Vec<Song>)
    requires
        lib.wf(),
    ensures
        songs@ == materialized(p@.song_ids, lib.spec_map()).filter(|s: Song| pred.holds(s)),
{
    let all = materialize_songs(p, lib);
    let ghost m = all@;
    let n = all.len();
    let mut out: Vec<Song> = Vec::new();
    let mut i: usize = 0;
    while i < n
        invariant
            m == all@,
            n == m.len(),
            i <= n,
            out@ == m.take(i as int).filter(|s: Song| pred.holds(s)),
        decreases n - i,
    {
        proof {
            reveal_with_fuel(Seq::filter, 1);
            assert(m.take(i + 1).drop_last() =~= m.take(i as int));
        }
        if pred.matches(&all[i]) {
            out.push(all[i].clone());
        }
        i = i + 1;
    }
    assert(m.take(n as int) =~= m);
    out
}


/// The text a sort by title or artist compares: the lower-cased field.
pub open spec fn text_key(by: SortBy, s: Song) -> Seq<char> {
    match by {
        SortBy::Title => lowercase(s.title@),
        SortBy::Artist => lowercase(s.artist@),
        _ => Seq::empty(),
    }
}

/// The lower-cased title or artist of `s` for a sort, as characters.
fn sort_text(by: SortBy, s: &Song) -> (k: Vec<char>)
    ensures
        k@ == text_key(by, *s),
{
    match by {
        SortBy::Title => {
            let t = to_lowercase(s.title.as_str());
            chars_of(t.as_str())
        },
        SortBy::Artist => {
            let a = to_lowercase(s.artist.as_str());
            chars_of(a.as_str())
        },
        _ => Vec::new(),
    }
}

/// The order of a sort on songs `a` and `b` whose sort texts are `ka` and
/// `kb`: the texts in string order for a sort by title or artist, else the
/// duration or the instant the song was added.
pub open spec fn entry_le(by: SortBy, a: Song, ka: Seq<char>, b: Song, kb: Seq<char>) -> bool {
    match by {
        SortBy::Title | SortBy::Artist => lex_le(ka, kb),
        SortBy::Duration => a.duration_sec <= b.duration_sec,
        SortBy::AddedAt => a.added_at.spec_le(b.added_at),
    }
}

/// `entry_le` is total.
pub proof fn lemma_entry_total(by: SortBy, a: Song, ka: Seq<char>, b: Song, kb: Seq<char>)
    ensures
        entry_le(by, a, ka, b, kb) || entry_le(by, b, kb, a, ka),
{
    if by == SortBy::Title || by == SortBy::Artist {
        lemma_lex_total(ka, kb);
    }
}

/// `entry_le` is transitive.
pub proof fn lemma_entry_trans(
    by: SortBy,
    a: Song,
    ka: Seq<char>,
    b: Song,
    kb: Seq<char>,
    c: Song,
    kc: Seq<char>,
)
    requires
        entry_le(by, a, ka, b, kb),
        entry_le(by, b, kb, c, kc),
    ensures
        entry_le(by, a, ka, c, kc),
{
    if by == SortBy::Title || by == SortBy::Artist {
        lemma_lex_trans(ka, kb, kc);
    }
}

/// The order of songs for a sort: lower-cased title or artist in string
/// order, duration, or the instant the song was added.
pub open spec fn key_le(by: SortBy, a: Song, b: Song) -> bool {
    entry_le(by, a, text_key(by, a), b, text_key(by, b))
}

/// `s` is in `key_le` order.
pub open spec fn sorted_by(by: SortBy, s: Seq<Song>) -> bool {
    forall|i: int, j: int| 0 <= i < j < s.len() ==> key_le(by, s[i], s[j])
}

/// `out` is `src` rearranged by `perm` (`out[i] == src[perm[i]]`, each
/// position of `src` used once), in `key_le` order, with songs of equal key
/// in their order in `src`.
pub open spec fn stable_sort_witness(by: SortBy, src: Seq<Song>, out: Seq<Song>, perm: Seq<int>) -> bool {
    &&& perm.len() == out.len() == src.len()
    &&& forall|i: int| 0 <= i < perm.len() ==> 0 <= #[trigger] perm[i] < src.len()
    &&& forall|i: int| 0 <= i < perm.len() ==> out[i] == src[#[trigger] perm[i]]
    &&& forall|i: int, j: int| 0 <= i < perm.len() && 0 <= j < perm.len() && i != j ==> perm[i] != perm[j]
    &&& sorted_by(by, out)
    &&& forall|i: int, j: int|
        0 <= i < j < out.len() && key_le(by, out[j], out[i]) ==> perm[i] < perm[j]
}

/// `out` is the stable sort of `src` by `key_le`.
pub open spec fn is_stable_sort(by: SortBy, src: Seq<Song>, out: Seq<Song>) -> bool {
    exists|perm: Seq<int>| stable_sort_witness(by, src, out, perm)
}

/// Some entry of `perm` is `k`.
spec fn takes(perm: Seq<int>, k: int) -> bool {
    exists|j: int| 0 <= j < perm.len() && perm[j] == k
}

/// An injective sequence of `n` positions below `n` takes every position.
proof fn lemma_perm_onto(perm: Seq<int>, n: int)
    requires
        perm.len() == n,
        forall|i: int| 0 <= i < perm.len() ==> 0 <= #[trigger] perm[i] < n,
        forall|i: int, j: int| 0 <= i < perm.len() && 0 <= j < perm.len() && i != j ==> perm[i] != perm[j],
    ensures
        forall|k: int| 0 <= k < n ==> #[trigger] takes(perm, k),
{
    let r = vstd::set_lib::set_int_range(0, n);
    assert(perm.no_duplicates());
    perm.unique_seq_to_set();
    vstd::set_lib::lemma_int_range(0, n);
    assert forall|k: int| perm.to_set().contains(k) implies r.contains(k) by {
        let j = choose|j: int| 0 <= j < perm.len() && perm[j] == k;
        assert(0 <= perm[j] < n);
    }
    vstd::set_lib::lemma_len_subset(perm.to_set(), r);
    vstd::set_lib::lemma_subset_equality(perm.to_set(), r);
    assert forall|k: int| 0 <= k < n implies #[trigger] takes(perm, k) by {
        assert(r.contains(k));
        assert(perm.to_set().contains(k));
    }
}

/// Two stable sorts of one sequence agree on every position below `i`.
proof fn lemma_stable_sorts_agree(
    by: SortBy,
    src: Seq<Song>,
    a: Seq<Song>,
    pa: Seq<int>,
    b: Seq<Song>,
    pb: Seq<int>,
    i: int,
)
    requires
        stable_sort_witness(by, src, a, pa),
        stable_sort_witness(by, src, b, pb),
        forall|k: int| 0 <= k < src.len() ==> #[trigger] takes(pa, k),
        forall|k: int| 0 <= k < src.len() ==> #[trigger] takes(pb, k),
        0 <= i <= src.len(),
    ensures
        forall|k: int| 0 <= k < i ==> pa[k] == pb[k],
    decreases i,
{
    if i > 0 {
        lemma_stable_sorts_agree(by, src, a, pa, b, pb, i - 1);
        let m = i - 1;
        let x = pa[m];
        let y = pb[m];
        if x != y {
            assert(0 <= x < src.len());
            assert(0 <= y < src.len());
            assert(takes(pb, x) && takes(pa, y));
            let j = choose|j: int| 0 <= j < pb.len() && pb[j] == x;
            let j2 = choose|j2: int| 0 <= j2 < pa.len() && pa[j2] == y;
            if j < m {
                assert(pa[j] == pb[j]);
            }
            if j2 < m {
                assert(pa[j2] == pb[j2]);
            }
            assert(j > m && j2 > m);
            // In `b`, `y` comes before `x`; in `a`, `x` comes before `y`.
            assert(b[m] == src[y] && b[j] == src[x]);
            assert(a[m] == src[x] && a[j2] == src[y]);
            assert(key_le(by, b[m], b[j]));
            assert(key_le(by, a[m], a[j2]));
            assert(pb[m] < pb[j]);
            assert(pa[m] < pa[j2]);
        }
    }
}

/// A stable sort is unique: two stable sorts of one sequence are equal.
pub proof fn lemma_stable_sort_unique(by: SortBy, src: Seq<Song>, a: Seq<Song>, b: Seq<Song>)
    requires
        is_stable_sort(by, src, a),
        is_stable_sort(by, src, b),
    ensures
        a == b,
{
    let pa = choose|p: Seq<int>| stable_sort_witness(by, src, a, p);
    let pb = choose|p: Seq<int>| stable_sort_witness(by, src, b, p);
    lemma_perm_onto(pa, src.len() as int);
    lemma_perm_onto(pb, src.len() as int);
    lemma_stable_sorts_agree(by, src, a, pa, b, pb, src.len() as int);
    assert forall|k: int| 0 <= k < a.len() implies a[k] == b[k] by {
        assert(a[k] == src[pa[k]]);
        assert(b[k] == src[pb[k]]);
    }
    assert(a =~= b);
}

/// A sort by the instant of adding puts songs in time order: earlier seconds
/// first, and within one second fewer nanoseconds first.
pub proof fn lemma_added_at_sort_is_chronological(src: Seq<Song>, out: Seq<Song>)
    requires
        is_stable_sort(SortBy::AddedAt, src, out),
    ensures
        forall|i: int, j: int|
            0 <= i < j < out.len() ==> (#[trigger] out[i]).added_at.secs <= (#[trigger] out[j]).added_at.secs,
        forall|i: int, j: int|
            0 <= i < j < out.len() && (#[trigger] out[i]).added_at.secs == (#[trigger] out[j]).added_at.secs
                ==> out[i].added_at.nanos <= out[j].added_at.nanos,
{
    let perm = choose|p: Seq<int>| stable_sort_witness(SortBy::AddedAt, src, out, p);
    assert forall|i: int, j: int| 0 <= i < j < out.len() implies (#[trigger] out[i]).added_at.secs
        <= (#[trigger] out[j]).added_at.secs by {
        assert(key_le(SortBy::AddedAt, out[i], out[j]));
        crate::domain::song::lemma_instants_in_time_order(out[i].added_at, out[j].added_at);
    }
    assert forall|i: int, j: int|
        0 <= i < j < out.len() && (#[trigger] out[i]).added_at.secs == (#[trigger] out[j]).added_at.secs
            implies out[i].added_at.nanos <= out[j].added_at.nanos by {
        assert(key_le(SortBy::AddedAt, out[i], out[j]));
        crate::domain::song::lemma_instants_in_time_order(out[i].added_at, out[j].added_at);
    }
}

/// A sort by title or artist puts the songs in string order of their
/// lower-cased title, or artist.
pub proof fn lemma_text_sort_is_alphabetical(by: SortBy, src: Seq<Song>, out: Seq<Song>)
    requires
        is_stable_sort(by, src, out),
    ensures
        by == SortBy::Title ==> forall|i: int, j: int|
            0 <= i < j < out.len() ==> lex_le(lowercase((#[trigger] out[i]).title@), lowercase((#[trigger] out[j]).title@)),
        by == SortBy::Artist ==> forall|i: int, j: int|
            0 <= i < j < out.len() ==> lex_le(lowercase((#[trigger] out[i]).artist@), lowercase((#[trigger] out[j]).artist@)),
{
    let perm = choose|p: Seq<int>| stable_sort_witness(by, src, out, p);
    assert forall|i: int, j: int| 0 <= i < j < out.len() implies (by == SortBy::Title ==> lex_le(
        lowercase((#[trigger] out[i]).title@),
        lowercase((#[trigger] out[j]).title@),
    )) && (by == SortBy::Artist ==> lex_le(lowercase(out[i].artist@), lowercase(out[j].artist@))) by {
        assert(key_le(by, out[i], out[j]));
    }
}

/// A sort by duration puts shorter songs first.
pub proof fn lemma_duration_sort_is_shortest_first(src: Seq<Song>, out: Seq<Song>)
    requires
        is_stable_sort(SortBy::Duration, src, out),
    ensures
        forall|i: int, j: int|
            0 <= i < j < out.len() ==> (#[trigger] out[i]).duration_sec <= (#[trigger] out[j]).duration_sec,
{
    let perm = choose|p: Seq<int>| stable_sort_witness(SortBy::Duration, src, out, p);
    assert forall|i: int, j: int| 0 <= i < j < out.len() implies (#[trigger] out[i]).duration_sec
        <= (#[trigger] out[j]).duration_sec by {
        assert(key_le(SortBy::Duration, out[i], out[j]));
    }
}

/// The texts of a list of character vectors.
pub open spec fn texts_of(keys: Seq<Vec<char>>) -> Seq<Seq<char>> {
    Seq::new(keys.len(), |i: int| keys[i]@)
}

/// `out` with texts `outk` is `src` with texts `keys` rearranged by `perm`
/// (each position used once), in `entry_le` order, with entries of equal
/// key in their order in `src`.
pub open spec fn keyed_sort_witness(
    by: SortBy,
    src: Seq<Song>,
    keys: Seq<Seq<char>>,
    out: Seq<Song>,
    outk: Seq<Seq<char>>,
    perm: Seq<int>,
) -> bool {
    &&& perm.len() == out.len() == outk.len() == src.len()
    &&& forall|i: int| 0 <= i < perm.len() ==> 0 <= #[trigger] perm[i] < src.len()
    &&& forall|i: int|
        0 <= i < perm.len() ==> out[i] == src[#[trigger] perm[i]] && outk[i] == keys[perm[i]]
    &&& forall|i: int, j: int| 0 <= i < perm.len() && 0 <= j < perm.len() && i != j ==> perm[i] != perm[j]
    &&& forall|i: int, j: int| 0 <= i < j < out.len() ==> entry_le(by, out[i], outk[i], out[j], outk[j])
    &&& forall|i: int, j: int|
        0 <= i < j < out.len() && entry_le(by, out[j], outk[j], out[i], outk[i]) ==> perm[i] < perm[j]
}

/// `out` is the stable sort of `src` by `entry_le`, song `src[i]` having the
/// sort text `keys[i]`.
pub open spec fn is_keyed_sort(by: SortBy, src: Seq<Song>, keys: Seq<Seq<char>>, out: Seq<Song>) -> bool {
    exists|outk: Seq<Seq<char>>, perm: Seq<int>| keyed_sort_witness(by, src, keys, out, outk, perm)
}

/// Whether song `a` with text `ka` comes no later than `b` with text `kb`.
fn entry_le_exec(by: SortBy, a: &Song, ka: &Vec<char>, b: &Song, kb: &Vec<char>) -> (r: bool)
    ensures
        r == entry_le(by, *a, ka@, *b, kb@),
{
    match by {
        SortBy::Title | SortBy::Artist => lex_le_chars(ka, kb),
        SortBy::Duration => a.duration_sec <= b.duration_sec,
        SortBy::AddedAt => a.added_at.le(&b.added_at),
    }
}

/// The songs of `src` sorted by `by`, song `src[i]` having the sort text
/// `keys[i]`; songs of equal key keep their order in `src`.
pub fn sort_keyed(by: SortBy, src: &Vec<Song>, keys: &Vec<Vec<char>>) -> (out: Vec<Song>)
    requires
        keys.len() == src.len(),
    ensures
        is_keyed_sort(by, src@, texts_of(keys@), out@),
{
    let ghost kin = texts_of(keys@);
    let n = src.len();
    let mut out: Vec<Song> = Vec::new();
    let mut outk: Vec<Vec<char>> = Vec::new();
    let ghost mut perm: Seq<int> = Seq::empty();
    let mut i: usize = 0;
    while i < n
        invariant
            n == src.len(),
            n == keys.len(),
            kin == texts_of(keys@),
            i <= n,
            out.len() == i,
            outk.len() == i,
            perm.len() == i,
            forall|k: int| 0 <= k < i ==> 0 <= #[trigger] perm[k] < i,
            keyed_sort_witness(by, src@.take(i as int), kin.take(i as int), out@, texts_of(outk@), perm),
        decreases n - i,
    {
        let x = src[i].clone();
        let kx = keys[i].clone();
        let ghost ko = texts_of(outk@);
        // The first position whose entry comes strictly after `x`.
        let mut pos: usize = 0;
        while pos < i && entry_le_exec(by, &out[pos], &outk[pos], &x, &kx)
            invariant
                i == out.len(),
                i == outk.len(),
                pos <= i,
                ko == texts_of(outk@),
                forall|k: int| 0 <= k < pos ==> entry_le(by, #[trigger] out@[k], ko[k], x, kx@),
            decreases i - pos,
        {
            pos = pos + 1;
        }
        proof {
            let o = out@;
            let t = src@.take(i as int);
            let t2 = src@.take(i + 1);
            let kt = kin.take(i as int);
            let kt2 = kin.take(i + 1);
            let k = kx@;
            let o2 = o.insert(pos as int, x);
            let ko2 = ko.insert(pos as int, k);
            let perm2 = perm.insert(pos as int, i as int);
            assert(x == src@[i as int]);
            assert(k == kin[i as int]);
            // Entries from `pos` on come strictly after `x`.
            assert forall|a: int| pos <= a < i implies !entry_le(by, #[trigger] o[a], ko[a], x, k) by {
                if entry_le(by, o[a], ko[a], x, k) {
                    assert(!entry_le(by, o[pos as int], ko[pos as int], x, k));
                    assert(entry_le(by, o[pos as int], ko[pos as int], o[a], ko[a]));
                    lemma_entry_trans(by, o[pos as int], ko[pos as int], o[a], ko[a], x, k);
                }
            }
            assert forall|a: int| pos <= a < i implies entry_le(by, x, k, #[trigger] o[a], ko[a]) by {
                lemma_entry_total(by, x, k, o[a], ko[a]);
            }
            assert forall|a: int| 0 <= a < perm2.len() implies o2[a] == t2[#[trigger] perm2[a]]
                && ko2[a] == kt2[perm2[a]] by {
                if a < pos {
                    assert(perm2[a] == perm[a]);
                    assert(o2[a] == o[a] && ko2[a] == ko[a]);
                    assert(t2[perm[a]] == t[perm[a]] && kt2[perm[a]] == kt[perm[a]]);
                } else if a > pos {
                    assert(perm2[a] == perm[a - 1]);
                    assert(o2[a] == o[a - 1] && ko2[a] == ko[a - 1]);
                    assert(t2[perm[a - 1]] == t[perm[a - 1]] && kt2[perm[a - 1]] == kt[perm[a - 1]]);
                }
            }
            assert forall|a: int, b: int| 0 <= a < b < o2.len() implies entry_le(
                by,
                o2[a],
                ko2[a],
                o2[b],
                ko2[b],
            ) by {
                if b < pos {
                    assert(o2[a] == o[a] && o2[b] == o[b] && ko2[a] == ko[a] && ko2[b] == ko[b]);
                } else if b == pos {
                    assert(o2[a] == o[a] && ko2[a] == ko[a]);
                } else if a < pos {
                    assert(o2[a] == o[a] && o2[b] == o[b - 1] && ko2[a] == ko[a] && ko2[b] == ko[b - 1]);
                    assert(entry_le(by, o[a], ko[a], x, k));
                    assert(entry_le(by, x, k, o[b - 1], ko[b - 1]));
                    lemma_entry_trans(by, o[a], ko[a], x, k, o[b - 1], ko[b - 1]);
                } else if a == pos {
                    assert(o2[b] == o[b - 1] && ko2[b] == ko[b - 1]);
                } else {
                    assert(o2[a] == o[a - 1] && o2[b] == o[b - 1]);
                    assert(ko2[a] == ko[a - 1] && ko2[b] == ko[b - 1]);
                }
            }
            assert forall|a: int, b: int|
                0 <= a < b < o2.len() && entry_le(by, o2[b], ko2[b], o2[a], ko2[a]) implies perm2[a]
                < perm2[b] by {
                if b < pos {
                    assert(o2[a] == o[a] && o2[b] == o[b] && ko2[a] == ko[a] && ko2[b] == ko[b]);
                    assert(perm2[a] == perm[a] && perm2[b] == perm[b]);
                } else if b == pos {
                    assert(perm2[a] == perm[a]);
                } else if a < pos {
                    assert(perm2[a] == perm[a] && perm2[b] == perm[b - 1]);
                    assert(o2[a] == o[a] && o2[b] == o[b - 1] && ko2[a] == ko[a] && ko2[b] == ko[b - 1]);
                    assert(entry_le(by, o[b - 1], ko[b - 1], o[a], ko[a]));
                    assert(entry_le(by, o[a], ko[a], x, k));
                    lemma_entry_trans(by, o[b - 1], ko[b - 1], o[a], ko[a], x, k);
                    assert(false);
                } else if a == pos {
                    assert(o2[b] == o[b - 1] && ko2[b] == ko[b - 1]);
                    assert(!entry_le(by, o[b - 1], ko[b - 1], x, k));
                } else {
                    assert(o2[a] == o[a - 1] && o2[b] == o[b - 1]);
                    assert(ko2[a] == ko[a - 1] && ko2[b] == ko[b - 1]);
                    assert(perm2[a] == perm[a - 1] && perm2[b] == perm[b - 1]);
                }
            }
            assert forall|a: int, b: int|
                0 <= a < perm2.len() && 0 <= b < perm2.len() && a != b implies perm2[a]
                != perm2[b] by {
                if a != pos && b != pos {
                    let a0 = if a < pos { a } else { a - 1 };
                    let b0 = if b < pos { b } else { b - 1 };
                    assert(perm2[a] == perm[a0] && perm2[b] == perm[b0]);
                } else if a == pos {
                    let b0 = if b < pos { b } else { b - 1 };
                    assert(perm2[b] == perm[b0]);
                } else {
                    let a0 = if a < pos { a } else { a - 1 };
                    assert(perm2[a] == perm[a0]);
                }
            }
            assert forall|a: int| 0 <= a < perm2.len() implies 0 <= #[trigger] perm2[a] < i + 1 by {
                if a < pos {
                    assert(perm2[a] == perm[a]);
                } else if a > pos {
                    assert(perm2[a] == perm[a - 1]);
                }
            }
            assert(keyed_sort_witness(by, t2, kt2, o2, ko2, perm2));
            perm = perm2;
        }
        let ghost ko_before = ko;
        out.insert(pos, x);
        outk.insert(pos, kx);
        proof {
            assert(texts_of(outk@) =~= ko_before.insert(pos as int, kx@));
        }
        i = i + 1;
    }
    assert(src@.take(n as int) =~= src@);
    assert(kin.take(n as int) =~= kin);
    out
}

/// The songs of the playlist that the library holds, sorted by `by`; songs
/// with equal keys keep their playlist order.
pub fn sort_by(p: &Playlist, lib: &Library, by: SortBy) -> (songs: Vec<Song>)
    requires
        lib.wf(),
    ensures
        is_stable_sort(by, materialized(p@.song_ids, lib.spec_map()), songs@),
{
    let src = materialize_songs(p, lib);
    let n = src.len();
    let mut keys: Vec<Vec<char>> = Vec::new();
    let mut i: usize = 0;
    while i < n
        invariant
            n == src.len(),
            i <= n,
            keys.len() == i,
            forall|k: int| 0 <= k < i ==> (#[trigger] keys@[k])@ == text_key(by, src@[k]),
        decreases n - i,
    {
        let k = sort_text(by, &src[i]);
        keys.push(k);
        i = i + 1;
    }
    let out = sort_keyed(by, &src, &keys);
    proof {
        let kin = texts_of(keys@);
        let (outk, perm) = choose|outk: Seq<Seq<char>>, perm: Seq<int>|
            keyed_sort_witness(by, src@, kin, out@, outk, perm);
        let o = out@;
        assert forall|a: int| 0 <= a < o.len() implies #[trigger] outk[a] == text_key(by, o[a]) by {
            assert(outk[a] == kin[perm[a]]);
            assert(o[a] == src@[perm[a]]);
        }
        assert forall|a: int, b: int| 0 <= a < b < o.len() implies key_le(by, o[a], o[b]) by {
            assert(outk[a] == text_key(by, o[a]) && outk[b] == text_key(by, o[b]));
        }
        assert forall|a: int, b: int|
            0 <= a < b < o.len() && key_le(by, o[b], o[a]) implies perm[a] < perm[b] by {
            assert(outk[a] == text_key(by, o[a]) && outk[b] == text_key(by, o[b]));
        }
        assert(stable_sort_witness(by, src@, o, perm));
    }
    out
}


/// Dedupe leaves no id twice.
pub proof fn lemma_dedupe_no_repeats(ids: Seq<Seq<char>>)
    ensures
        dedup(ids).no_duplicates(),
    decreases ids.len(),
{
    if ids.len() > 0 {
        lemma_dedupe_no_repeats(ids.drop_last());
        let d = dedup(ids.drop_last());
        if !d.contains(ids.last()) {
            let e = d.push(ids.last());
            assert forall|i: int, j: int| 0 <= i < e.len() && 0 <= j < e.len() && i != j implies e[i] != e[j] by {
                if i == d.len() {
                    assert(e[j] == d[j]);
                    if e[i] == e[j] {
                        assert(d.contains(ids.last()));
                    }
                } else if j == d.len() {
                    assert(e[i] == d[i]);
                    if e[i] == e[j] {
                        assert(d.contains(ids.last()));
                    }
                } else {
                    assert(e[i] == d[i] && e[j] == d[j]);
                }
            }
        }
    }
}

/// Dedupe keeps every id of the playlist and adds none.
pub proof fn lemma_dedupe_same_ids(ids: Seq<Seq<char>>)
    ensures
        forall|x: Seq<char>| dedup(ids).contains(x) <==> ids.contains(x),
    decreases ids.len(),
{
    if ids.len() > 0 {
        let p = ids.drop_last();
        lemma_dedupe_same_ids(p);
        assert forall|x: Seq<char>| dedup(ids).contains(x) <==> ids.contains(x) by {
            if ids.contains(x) && x != ids.last() {
                let i = choose|i: int| 0 <= i < ids.len() && ids[i] == x;
                assert(p[i] == x);
            }
            if p.contains(x) {
                let i = choose|i: int| 0 <= i < p.len() && p[i] == x;
                assert(ids[i] == x);
            }
            if x == ids.last() {
                assert(ids[ids.len() - 1] == x);
            }
            let d = dedup(p);
            if !d.contains(ids.last()) {
                if d.push(ids.last()).contains(x) && x != ids.last() {
                    let i = choose|i: int| 0 <= i < d.push(ids.last()).len() && d.push(ids.last())[i] == x;
                    assert(d[i] == x);
                }
                if d.contains(x) {
                    let i = choose|i: int| 0 <= i < d.len() && d[i] == x;
                    assert(d.push(ids.last())[i] == x);
                }
                assert(d.push(ids.last())[d.len() as int] == ids.last());
            }
        }
    }
}

/// Dedupe changes nothing in a playlist without repeats.
pub proof fn lemma_dedupe_keeps_unique(ids: Seq<Seq<char>>)
    requires
        ids.no_duplicates(),
    ensures
        dedup(ids) == ids,
    decreases ids.len(),
{
    if ids.len() > 0 {
        let p = ids.drop_last();
        assert(p.no_duplicates());
        lemma_dedupe_keeps_unique(p);
        assert(!p.contains(ids.last())) by {
            if p.contains(ids.last()) {
                let i = choose|i: int| 0 <= i < p.len() && p[i] == ids.last();
                assert(ids[i] == ids[ids.len() - 1]);
            }
        }
        assert(p.push(ids.last()) =~= ids);
    }
}

/// Deduping twice is deduping once.
pub proof fn lemma_dedupe_idempotent(ids: Seq<Seq<char>>)
    ensures
        dedup(dedup(ids)) == dedup(ids),
{
    lemma_dedupe_no_repeats(ids);
    lemma_dedupe_keeps_unique(dedup(ids));
}

/// Reversing twice gives the playlist's order back.
pub proof fn lemma_reverse_twice(ids: Seq<Seq<char>>)
    ensures
        ids.reverse().reverse() == ids,
{
    assert(ids.reverse().reverse() =~= ids);
}

/// Taking the first `n` and dropping the first `n` split the playlist: the
/// two put together are the whole.
pub proof fn lemma_take_then_drop(ids: Seq<Seq<char>>, n: usize)
    ensures
        ids.take(capped(n, ids.len())) + ids.skip(capped(n, ids.len())) == ids,
        ids.take(capped(n, ids.len())).len() == if n <= ids.len() { n as nat } else { ids.len() },
{
    assert(ids.take(capped(n, ids.len())) + ids.skip(capped(n, ids.len())) =~= ids);
}

/// Removing a song leaves none of it in the playlist, and every other id in
/// its order.
pub proof fn lemma_removed_is_gone(ids: Seq<Seq<char>>, id: Seq<char>)
    ensures
        !without(ids, id).contains(id),
        forall|x: Seq<char>| x != id ==> (without(ids, id).contains(x) <==> ids.contains(x)),
{
    broadcast use vstd::seq_lib::group_filter_ensures;
    let pred = other_than(id);
    assert(!ids.filter(pred).contains(id)) by {
        if ids.filter(pred).contains(id) {
            let i = choose|i: int| 0 <= i < ids.filter(pred).len() && ids.filter(pred)[i] == id;
            assert(pred(ids.filter(pred)[i]));
        }
    }
    assert forall|x: Seq<char>| x != id implies (without(ids, id).contains(x) <==> ids.contains(x)) by {
        if ids.contains(x) {
            let i = choose|i: int| 0 <= i < ids.len() && ids[i] == x;
            assert(ids.filter(pred).contains(ids[i]));
        }
        if ids.filter(pred).contains(x) {
            ids.lemma_filter_contains_rev(pred, x);
        }
    }
}

/// Removing an id that is absent changes nothing.
pub proof fn lemma_remove_absent(ids: Seq<Seq<char>>, id: Seq<char>)
    requires
        !ids.contains(id),
    ensures
        without(ids, id) == ids,
    decreases ids.len(),
{
    reveal_with_fuel(Seq::filter, 1);
    if ids.len() > 0 {
        let p = ids.drop_last();
        assert(!p.contains(id)) by {
            if p.contains(id) {
                let i = choose|i: int| 0 <= i < p.len() && p[i] == id;
                assert(ids[i] == id);
            }
        }
        lemma_remove_absent(p, id);
        assert(ids.last() != id) by {
            assert(ids[ids.len() - 1] == ids.last());
        }
        assert(p.push(ids.last()) =~= ids);
    }
}

/// Adding a song that is not in the playlist, then removing it, gives the
/// song ids back.
pub proof fn lemma_add_then_remove(ids: Seq<Seq<char>>, id: Seq<char>)
    requires
        !ids.contains(id),
    ensures
        without(ids.push(id), id) == ids,
{
    reveal_with_fuel(Seq::filter, 1);
    assert(ids.push(id).drop_last() =~= ids);
    lemma_remove_absent(ids, id);
}

} // verus!
