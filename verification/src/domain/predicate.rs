//! Conditions on songs, as the search criteria of the protocol select them.

use vstd::prelude::*;

use crate::domain::song::Song;
use crate::outside::{lowercase, to_lowercase};
use crate::text::{contains_str, has_substring};

verus! {

/// A condition on one song.
#[derive(Debug)]
pub enum SongPredicate {
    /// The lower-cased title holds this (already lower-cased) text.
    TitleContains(String),
    /// The lower-cased artist holds this (already lower-cased) text.
    ArtistContains(String),
    /// The genre is exactly this text.
    GenreEquals(String),
    /// The duration lies in `[min, max]` seconds.
    DurationBetween(u32, u32),
    /// The second at which the song was added lies in `[min, max]`.
    AddedBetween(i64, i64),
}

impl SongPredicate {
    /// Whether song `s` meets the condition.
    pub open spec fn holds(self, s: Song) -> bool {
        match self {
            SongPredicate::TitleContains(n) => has_substring(lowercase(s.title@), n@),
            SongPredicate::ArtistContains(n) => has_substring(lowercase(s.artist@), n@),
            SongPredicate::GenreEquals(g) => s.genre@ == g@,
            SongPredicate::DurationBetween(lo, hi) => lo <= s.duration_sec <= hi,
            SongPredicate::AddedBetween(lo, hi) => lo <= s.added_at.secs <= hi,
        }
    }

    /// Whether song `s` meets the condition.
    pub fn matches(&self, s: &Song) -> (b: bool)
        ensures
            b == self.holds(*s),
    {
        match self {
            SongPredicate::TitleContains(n) => {
                let t = to_lowercase(s.title.as_str());
                contains_str(t.as_str(), n.as_str())
            },
            SongPredicate::ArtistContains(n) => {
                let a = to_lowercase(s.artist.as_str());
                contains_str(a.as_str(), n.as_str())
            },
            SongPredicate::GenreEquals(g) => s.genre == *g,
            SongPredicate::DurationBetween(lo, hi) => *lo <= s.duration_sec && s.duration_sec <= *hi,
            SongPredicate::AddedBetween(lo, hi) => *lo <= s.added_at.secs && s.added_at.secs <= *hi,
        }
    }
}

} // verus!

verus! {

use crate::network::protocol::{Criteria, CriteriaField, CriteriaOp};

/// The field/op pairs that take a text value.
pub open spec fn needs_value(c: Criteria) -> bool {
    (c.field == CriteriaField::Title && c.op == CriteriaOp::Contains) || (c.field
        == CriteriaField::Artist && c.op == CriteriaOp::Contains) || (c.field == CriteriaField::Genre
        && c.op == CriteriaOp::Equals)
}

/// The field/op pairs that the search knows.
pub open spec fn supported(c: Criteria) -> bool {
    needs_value(c) || (c.field == CriteriaField::Duration && c.op == CriteriaOp::Range) || (c.field
        == CriteriaField::AddedAt && c.op == CriteriaOp::Range)
}

/// A whole-number bound brought into the range of `u32` (what a cast of the
/// wire's number to `u32` gives: saturating at both ends).
pub open spec fn clamp_u32(x: i64) -> u32 {
    if x < 0 {
        0
    } else if x > u32::MAX {
        u32::MAX
    } else {
        x as u32
    }
}

/// The shortest duration a range criterion admits.
pub open spec fn duration_min(c: Criteria) -> u32 {
    match c.min {
        Some(x) => clamp_u32(x),
        None => 0,
    }
}

/// The longest duration a range criterion admits.
pub open spec fn duration_max(c: Criteria) -> u32 {
    match c.max {
        Some(x) => clamp_u32(x),
        None => u32::MAX,
    }
}

/// The earliest second a range criterion on the adding time admits.
pub open spec fn added_min(c: Criteria) -> i64 {
    match c.min {
        Some(x) => x,
        None => i64::MIN,
    }
}

/// The latest second a range criterion on the adding time admits.
pub open spec fn added_max(c: Criteria) -> i64 {
    match c.max {
        Some(x) => x,
        None => i64::MAX,
    }
}

/// Whether song `s` meets criterion `c`: text criteria compare lower-cased
/// (title, artist: the value occurs in the field) or exactly (genre); range
/// criteria include both ends.
pub open spec fn criteria_holds(c: Criteria, s: Song) -> bool {
    if c.field == CriteriaField::Title && c.op == CriteriaOp::Contains {
        has_substring(lowercase(s.title@), lowercase(c.value->0@))
    } else if c.field == CriteriaField::Artist && c.op == CriteriaOp::Contains {
        has_substring(lowercase(s.artist@), lowercase(c.value->0@))
    } else if c.field == CriteriaField::Genre && c.op == CriteriaOp::Equals {
        s.genre@ == c.value->0@
    } else if c.field == CriteriaField::Duration && c.op == CriteriaOp::Range {
        duration_min(c) <= s.duration_sec <= duration_max(c)
    } else {
        added_min(c) <= s.added_at.secs <= added_max(c)
    }
}

/// Each criterion reads its own field only: two songs that agree on that
/// field both meet it or both fail it. A title or artist criterion holds
/// exactly when the lower-cased field contains the lower-cased value; a genre
/// criterion when the genre is the value.
pub proof fn lemma_criteria_read_their_field(c: Criteria, s1: Song, s2: Song)
    ensures
        c.field == CriteriaField::Title && c.op == CriteriaOp::Contains && s1.title@ == s2.title@
            ==> criteria_holds(c, s1) == criteria_holds(c, s2),
        c.field == CriteriaField::Artist && c.op == CriteriaOp::Contains && s1.artist@ == s2.artist@
            ==> criteria_holds(c, s1) == criteria_holds(c, s2),
        c.field == CriteriaField::Genre && c.op == CriteriaOp::Equals && s1.genre@ == s2.genre@
            ==> criteria_holds(c, s1) == criteria_holds(c, s2),
        c.field == CriteriaField::Duration && c.op == CriteriaOp::Range && s1.duration_sec == s2.duration_sec
            ==> criteria_holds(c, s1) == criteria_holds(c, s2),
        c.field == CriteriaField::AddedAt && c.op == CriteriaOp::Range && s1.added_at.secs == s2.added_at.secs
            ==> criteria_holds(c, s1) == criteria_holds(c, s2),
        c.field == CriteriaField::Title && c.op == CriteriaOp::Contains && c.value is Some ==> (criteria_holds(c, s1)
            <==> has_substring(lowercase(s1.title@), lowercase(c.value->0@))),
        c.field == CriteriaField::Artist && c.op == CriteriaOp::Contains && c.value is Some ==> (criteria_holds(
            c,
            s1,
        ) <==> has_substring(lowercase(s1.artist@), lowercase(c.value->0@))),
        c.field == CriteriaField::Genre && c.op == CriteriaOp::Equals && c.value is Some ==> (criteria_holds(c, s1)
            <==> s1.genre@ == c.value->0@),
{
}

/// Each condition reads its own field only: two songs that agree on that
/// field both meet it or both fail it.
pub proof fn lemma_predicate_reads_its_field(p: SongPredicate, s1: Song, s2: Song)
    ensures
        p is TitleContains && s1.title@ == s2.title@ ==> p.holds(s1) == p.holds(s2),
        p is ArtistContains && s1.artist@ == s2.artist@ ==> p.holds(s1) == p.holds(s2),
        p is GenreEquals && s1.genre@ == s2.genre@ ==> p.holds(s1) == p.holds(s2),
        p is DurationBetween && s1.duration_sec == s2.duration_sec ==> p.holds(s1) == p.holds(s2),
        p is AddedBetween && s1.added_at.secs == s2.added_at.secs ==> p.holds(s1) == p.holds(s2),
        p matches SongPredicate::TitleContains(n) ==> (p.holds(s1) <==> has_substring(lowercase(s1.title@), n@)),
        p matches SongPredicate::ArtistContains(n) ==> (p.holds(s1) <==> has_substring(lowercase(s1.artist@), n@)),
{
}

/// The test "meets criterion `c`", as a function on songs.
pub open spec fn meets(c: Criteria) -> spec_fn(Song) -> bool {
    |s: Song| criteria_holds(c, s)
}

/// A criterion is refused when its field/op pair is unknown, or when it
/// needs a value and has none.
pub open spec fn criteria_refused(c: Criteria) -> bool {
    !supported(c) || (needs_value(c) && c.value is None)
}

/// The message of a refused criterion.
pub open spec fn criteria_refusal(c: Criteria) -> Seq<char> {
    if supported(c) {
        "value required"@
    } else {
        "Unsupported field/op combination"@
    }
}

} // verus!
