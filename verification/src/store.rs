//! A map from string ids to records that are keyed by their own id, in
//! insertion order: the library (songs by id) and the playlists (by id).

use vstd::prelude::*;

verus! {

/// A record that carries its own id.
pub trait Keyed: View + Sized {
    /// The id of a record, read on its view.
    spec fn spec_key(v: Self::V) -> Seq<char>;

    /// The record's id.
    fn key(&self) -> (k: &String)
        ensures
            k@ == Self::spec_key(self@),
    ;
}

/// A record that can be copied.
pub trait Duplicate: View + Sized {
    /// A copy of the record.
    fn duplicate(&self) -> (r: Self)
        ensures
            r@ == self@,
    ;
}

/// The map of a sequence of records by their ids, later records winning.
pub open spec fn keyed_map<T: Keyed>(s: Seq<T::V>) -> Map<Seq<char>, T::V>
    decreases s.len(),
{
    if s.len() == 0 {
        Map::empty()
    } else {
        keyed_map::<T>(s.drop_last()).insert(T::spec_key(s.last()), s.last())
    }
}

/// No two records of `s` share an id.
pub open spec fn unique_keys<T: Keyed>(s: Seq<T::V>) -> bool {
    forall|i: int, j: int|
        0 <= i < s.len() && 0 <= j < s.len() && i != j ==> T::spec_key(s[i]) != T::spec_key(s[j])
}

/// The map of records with distinct ids holds exactly their ids, each bound
/// to its record.
pub proof fn lemma_keyed_map<T: Keyed>(s: Seq<T::V>)
    requires
        unique_keys::<T>(s),
    ensures
        forall|k: Seq<char>|
            keyed_map::<T>(s).contains_key(k) <==> exists|i: int|
                0 <= i < s.len() && T::spec_key(#[trigger] s[i]) == k,
        forall|i: int| 0 <= i < s.len() ==> keyed_map::<T>(s)[T::spec_key(#[trigger] s[i])] == s[i],
    decreases s.len(),
{
    if s.len() > 0 {
        let p = s.drop_last();
        assert(unique_keys::<T>(p));
        lemma_keyed_map::<T>(p);
        assert forall|k: Seq<char>|
            keyed_map::<T>(s).contains_key(k) <==> exists|i: int|
                0 <= i < s.len() && T::spec_key(#[trigger] s[i]) == k by {
            if keyed_map::<T>(s).contains_key(k) && k != T::spec_key(s.last()) {
                assert(keyed_map::<T>(p).contains_key(k));
                let i = choose|i: int| 0 <= i < p.len() && T::spec_key(#[trigger] p[i]) == k;
                assert(s[i] == p[i]);
            }
            if exists|i: int| 0 <= i < s.len() && T::spec_key(#[trigger] s[i]) == k {
                let i = choose|i: int| 0 <= i < s.len() && T::spec_key(#[trigger] s[i]) == k;
                if i < s.len() - 1 {
                    assert(p[i] == s[i]);
                }
            }
        }
        assert forall|i: int| 0 <= i < s.len() implies keyed_map::<T>(s)[T::spec_key(
            #[trigger] s[i],
        )] == s[i] by {
            if i < s.len() - 1 {
                assert(p[i] == s[i]);
                assert(T::spec_key(s[i]) != T::spec_key(s[s.len() - 1]));
            }
        }
    }
}

/// Records keyed by their ids, kept in insertion order; no two share an id.
#[derive(Debug)]
pub struct IdMap<T> {
    items: Vec<T>,
}

impl<T: Keyed> IdMap<T> {
    /// The records, in order.
    pub closed spec fn entries(&self) -> Seq<T::V> {
        self.items@.map_values(|t: T| t@)
    }

    /// The records by id.
    pub open spec fn spec_map(&self) -> Map<Seq<char>, T::V> {
        keyed_map::<T>(self.entries())
    }

    /// No two records share an id: what every map keeps.
    pub open spec fn wf(&self) -> bool {
        unique_keys::<T>(self.entries())
    }

    /// In a well-formed map, the ids bound are those of the records, each to
    /// its record.
    pub proof fn lemma_map_of_entries(&self)
        requires
            self.wf(),
        ensures
            forall|k: Seq<char>|
                self.spec_map().contains_key(k) <==> exists|i: int|
                    0 <= i < self.entries().len() && T::spec_key(#[trigger] self.entries()[i]) == k,
            forall|i: int|
                0 <= i < self.entries().len() ==> self.spec_map()[T::spec_key(
                    #[trigger] self.entries()[i],
                )] == self.entries()[i],
    {
        lemma_keyed_map::<T>(self.entries());
    }

    /// In a well-formed map each record is bound to its own id.
    pub proof fn lemma_keys_are_ids(&self)
        requires
            self.wf(),
        ensures
            forall|k: Seq<char>|
                #[trigger] self.spec_map().contains_key(k) ==> T::spec_key(self.spec_map()[k]) == k,
    {
        self.lemma_map_of_entries();
        assert forall|k: Seq<char>| #[trigger] self.spec_map().contains_key(k) implies T::spec_key(
            self.spec_map()[k],
        ) == k by {
            let i = choose|i: int|
                0 <= i < self.entries().len() && T::spec_key(#[trigger] self.entries()[i]) == k;
            assert(self.spec_map()[T::spec_key(self.entries()[i])] == self.entries()[i]);
        }
    }

    /// An empty map.
    pub fn new() -> (m: Self)
        ensures
            m.wf(),
            m.entries() == Seq::<T::V>::empty(),
            m.spec_map() == Map::<Seq<char>, T::V>::empty(),
    {
        let m = IdMap { items: Vec::new() };
        assert(m.entries() =~= Seq::<T::V>::empty());
        m
    }

    /// The number of records.
    pub fn len(&self) -> (n: usize)
        ensures
            n == self.entries().len(),
    {
        self.items.len()
    }

    /// The record at position `i`.
    pub fn entry(&self, i: usize) -> (r: &T)
        requires
            i < self.entries().len(),
        ensures
            r@ == self.entries()[i as int],
    {
        &self.items[i]
    }

    /// The position of the record with id `k`, if there is one.
    pub fn position(&self, k: &str) -> (r: Option<usize>)
        requires
            self.wf(),
        ensures
            match r {
                Some(i) => i < self.entries().len() && T::spec_key(self.entries()[i as int]) == k@,
                None => forall|i: int|
                    0 <= i < self.entries().len() ==> T::spec_key(#[trigger] self.entries()[i])
                        != k@,
            },
            r is Some <==> self.spec_map().contains_key(k@),
            r matches Some(i) ==> self.spec_map()[k@] == self.entries()[i as int],
    {
        proof {
            self.lemma_map_of_entries();
        }
        let target = k.to_owned();
        let n = self.items.len();
        let mut i: usize = 0;
        while i < n
            invariant
                n == self.items.len(),
                n == self.entries().len(),
                target@ == k@,
                self.wf(),
                i <= n,
                forall|j: int| 0 <= j < i ==> T::spec_key(#[trigger] self.entries()[j]) != k@,
            decreases n - i,
        {
            let key = self.items[i].key();
            assert(self.entries()[i as int] == self.items@[i as int]@);
            if *key == target {
                proof {
                    self.lemma_map_of_entries();
                }
                return Some(i);
            }
            i = i + 1;
        }
        None
    }

    /// Whether a record has id `k`.
    pub fn contains_key(&self, k: &str) -> (b: bool)
        requires
            self.wf(),
        ensures
            b == self.spec_map().contains_key(k@),
    {
        self.position(k).is_some()
    }

    /// The record with id `k`, if there is one.
    pub fn get(&self, k: &str) -> (r: Option<&T>)
        requires
            self.wf(),
        ensures
            match r {
                Some(t) => self.spec_map().contains_key(k@) && t@ == self.spec_map()[k@],
                None => !self.spec_map().contains_key(k@),
            },
    {
        match self.position(k) {
            Some(i) => Some(&self.items[i]),
            None => None,
        }
    }

    /// Binds `t` to its own id: a record with that id is replaced where it
    /// stands, and is handed back; otherwise `t` is appended.
    pub fn insert(&mut self, t: T) -> (prev: Option<T>)
        requires
            old(self).wf(),
        ensures
            final(self).wf(),
            final(self).spec_map() == old(self).spec_map().insert(T::spec_key(t@), t@),
            match prev {
                Some(p) => old(self).spec_map().contains_key(T::spec_key(t@)) && p@ == old(
                    self,
                ).spec_map()[T::spec_key(t@)] && exists|i: int|
                    0 <= i < old(self).entries().len() && T::spec_key(old(self).entries()[i])
                        == T::spec_key(t@) && final(self).entries() == old(self).entries().update(
                        i,
                        t@,
                    ),
                None => !old(self).spec_map().contains_key(T::spec_key(t@)) && final(self).entries()
                    == old(self).entries().push(t@),
            },
    {
        proof {
            self.lemma_map_of_entries();
        }
        let pos = {
            let k = t.key();
            self.position(k.as_str())
        };
        let ghost old_entries = self.entries();
        let ghost key = T::spec_key(t@);
        match pos {
            Some(i) => {
                assert(self.items.len() == self.entries().len());
                self.items.insert(i, t);
                let old_item = self.items.remove(i + 1);
                assert(self.items@.map_values(|x: T| x@) =~= old_entries.update(i as int, t@));
                proof {
                    let s = old_entries.update(i as int, t@);
                    assert forall|a: int, b: int|
                        0 <= a < s.len() && 0 <= b < s.len() && a != b implies T::spec_key(s[a])
                        != T::spec_key(s[b]) by {
                        if a != i && b != i {
                            assert(s[a] == old_entries[a] && s[b] == old_entries[b]);
                        } else if a == i {
                            assert(s[b] == old_entries[b]);
                        } else {
                            assert(s[a] == old_entries[a]);
                        }
                    }
                    lemma_keyed_map::<T>(s);
                    lemma_keyed_map::<T>(old_entries);
                    let m1 = keyed_map::<T>(s);
                    let m0 = keyed_map::<T>(old_entries).insert(key, t@);
                    assert(s[i as int] == t@);
                    assert forall|k: Seq<char>| m1.contains_key(k) <==> m0.contains_key(k) by {
                        if m1.contains_key(k) {
                            let j = choose|j: int| 0 <= j < s.len() && T::spec_key(#[trigger] s[j]) == k;
                            if j != i {
                                assert(old_entries[j] == s[j]);
                            }
                        }
                        if m0.contains_key(k) && k != key {
                            let j = choose|j: int|
                                0 <= j < old_entries.len() && T::spec_key(#[trigger] old_entries[j])
                                    == k;
                            assert(s[j] == old_entries[j]);
                        }
                    }
                    assert forall|k: Seq<char>| m1.contains_key(k) implies m1[k] == m0[k] by {
                        let j = choose|j: int| 0 <= j < s.len() && T::spec_key(#[trigger] s[j]) == k;
                        if j != i {
                            assert(old_entries[j] == s[j]);
                        }
                    }
                    assert(m1 =~= m0);
                }
                Some(old_item)
            },
            None => {
                proof {
                    let s = old_entries.push(t@);
                    assert forall|a: int, b: int|
                        0 <= a < s.len() && 0 <= b < s.len() && a != b implies T::spec_key(s[a])
                        != T::spec_key(s[b]) by {
                        if a < old_entries.len() && b < old_entries.len() {
                            assert(s[a] == old_entries[a] && s[b] == old_entries[b]);
                        } else if a < old_entries.len() {
                            assert(s[a] == old_entries[a]);
                        } else {
                            assert(s[b] == old_entries[b]);
                        }
                    }
                }
                self.items.push(t);
                assert(self.items@.map_values(|x: T| x@) =~= old_entries.push(t@));
                assert(old_entries.push(t@).drop_last() =~= old_entries);
                None
            },
        }
    }

    /// Removes the record with id `k` and hands it back, if there is one; the
    /// others keep their order.
    pub fn remove(&mut self, k: &str) -> (r: Option<T>)
        requires
            old(self).wf(),
        ensures
            final(self).wf(),
            final(self).spec_map() == old(self).spec_map().remove(k@),
            match r {
                Some(t) => old(self).spec_map().contains_key(k@) && t@ == old(self).spec_map()[k@]
                    && exists|i: int|
                    0 <= i < old(self).entries().len() && T::spec_key(old(self).entries()[i]) == k@
                        && final(self).entries() == old(self).entries().remove(i),
                None => !old(self).spec_map().contains_key(k@) && final(self).entries() == old(
                    self,
                ).entries(),
            },
    {
        proof {
            self.lemma_map_of_entries();
        }
        let ghost old_entries = self.entries();
        match self.position(k) {
            Some(i) => {
                let t = self.items.remove(i);
                assert(self.items@.map_values(|x: T| x@) =~= old_entries.remove(i as int));
                proof {
                    let s = old_entries.remove(i as int);
                    assert forall|a: int, b: int|
                        0 <= a < s.len() && 0 <= b < s.len() && a != b implies T::spec_key(s[a])
                        != T::spec_key(s[b]) by {
                        let a0 = if a < i { a } else { a + 1 };
                        let b0 = if b < i { b } else { b + 1 };
                        assert(s[a] == old_entries[a0] && s[b] == old_entries[b0]);
                    }
                    lemma_keyed_map::<T>(s);
                    lemma_keyed_map::<T>(old_entries);
                    let m1 = keyed_map::<T>(s);
                    let m0 = keyed_map::<T>(old_entries).remove(k@);
                    assert forall|kk: Seq<char>| m1.contains_key(kk) <==> m0.contains_key(kk) by {
                        if m1.contains_key(kk) {
                            let j = choose|j: int| 0 <= j < s.len() && T::spec_key(#[trigger] s[j]) == kk;
                            let j0 = if j < i { j } else { j + 1 };
                            assert(s[j] == old_entries[j0]);
                        }
                        if m0.contains_key(kk) {
                            let j = choose|j: int|
                                0 <= j < old_entries.len() && T::spec_key(#[trigger] old_entries[j])
                                    == kk;
                            assert(j != i);
                            let j1 = if j < i { j } else { j - 1 };
                            assert(s[j1] == old_entries[j]);
                        }
                    }
                    assert forall|kk: Seq<char>| m1.contains_key(kk) implies m1[kk] == m0[kk] by {
                        let j = choose|j: int| 0 <= j < s.len() && T::spec_key(#[trigger] s[j]) == kk;
                        let j0 = if j < i { j } else { j + 1 };
                        assert(s[j] == old_entries[j0]);
                    }
                    assert(m1 =~= m0);
                }
                Some(t)
            },
            None => {
                assert(self.spec_map().remove(k@) =~= self.spec_map());
                None
            },
        }
    }

}

impl<T: Keyed + Duplicate> IdMap<T> {
    /// Copies of all records, in order.
    pub fn values(&self) -> (v: Vec<T>)
        ensures
            v@.map_values(|t: T| t@) == self.entries(),
    {
        let n = self.items.len();
        let mut v: Vec<T> = Vec::new();
        let mut i: usize = 0;
        while i < n
            invariant
                n == self.items.len(),
                n == self.entries().len(),
                i <= n,
                v.len() == i,
                forall|j: int| 0 <= j < i ==> (#[trigger] v@[j])@ == self.entries()[j],
            decreases n - i,
        {
            v.push(self.items[i].duplicate());
            i = i + 1;
        }
        assert(v@.map_values(|t: T| t@) =~= self.entries());
        v
    }
}

} // verus!
