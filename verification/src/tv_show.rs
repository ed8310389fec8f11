//! The catalogue entry: one TV program with its title, its raw age-rating
//! string and one availability flag per platform.

use vstd::prelude::*;

verus! {

/// One TV show as parsed from the catalogue. Immutable once constructed.
#[derive(Debug)]
pub struct TvShow {
    pub title: String,
    pub netflix: bool,
    pub age: String,
    pub hulu: bool,
    pub prime_video: bool,
    pub disney: bool,
}

/// The platform flag of `s` for the platform with fixed index `p`:
/// Netflix = 0, Hulu = 1, Prime Video = 2, Disney+ = 3.
pub open spec fn flag_of(s: TvShow, p: int) -> bool {
    if p == 0 {
        s.netflix
    } else if p == 1 {
        s.hulu
    } else if p == 2 {
        s.prime_video
    } else {
        s.disney
    }
}

/// How many of the four platform flags of `s` are set; this is the degree of
/// the show's node in the built graph.
pub open spec fn show_degree(s: TvShow) -> int {
    (if s.netflix { 1int } else { 0 }) + (if s.hulu { 1int } else { 0 }) + (if s.prime_video {
        1int
    } else {
        0
    }) + (if s.disney { 1int } else { 0 })
}

/// How many shows have the flag of platform `p` set.
pub open spec fn flag_count(shows: Seq<TvShow>, p: int) -> int
    decreases shows.len(),
{
    if shows.len() == 0 {
        0
    } else {
        flag_count(shows.drop_last(), p) + if flag_of(shows.last(), p) {
            1int
        } else {
            0
        }
    }
}

/// The total number of set flags over all shows; this is the edge count of
/// the built graph.
pub open spec fn total_flags(shows: Seq<TvShow>) -> int
    decreases shows.len(),
{
    if shows.len() == 0 {
        0
    } else {
        total_flags(shows.drop_last()) + show_degree(shows.last())
    }
}

impl TvShow {
    /// A show with the given title and flags and an empty age-rating string.
    pub fn new(title: &str, netflix: bool, hulu: bool, prime_video: bool, disney: bool) -> (s:
        TvShow)
        ensures
            s.title@ == title@,
            s.age@ == Seq::<char>::empty(),
            s.netflix == netflix,
            s.hulu == hulu,
            s.prime_video == prime_video,
            s.disney == disney,
    {
        TvShow {
            title: title.to_owned(),
            age: String::new(),
            netflix,
            hulu,
            prime_video,
            disney,
        }
    }
}

/// `total_flags` is the sum of the four per-platform flag counts: every set
/// flag is counted by exactly one platform.
pub proof fn lemma_total_flags_split(shows: Seq<TvShow>)
    ensures
        total_flags(shows) == flag_count(shows, 0) + flag_count(shows, 1) + flag_count(shows, 2)
            + flag_count(shows, 3),
    decreases shows.len(),
{
    if shows.len() > 0 {
        lemma_total_flags_split(shows.drop_last());
    }
}

} // verus!
