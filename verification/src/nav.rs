//! Chapter navigation: pure arithmetic over a metadata snapshot and a
//! position. A position belongs to the first chapter in order that
//! contains it (both boundaries included), so a boundary shared by two
//! adjacent chapters belongs to the earlier one.
use vstd::prelude::*;

use crate::duration::Duration;
use crate::metadata::{Chapter, Metadata};

verus! {

/// How far "previous chapter" may stand into a chapter and still jump one
/// chapter back instead of restarting the current one.
pub const PREVIOUS_GRACE_MILLIS: u64 = 10_000;

/// The first chapter at or after index `i` that contains `p`.
pub open spec fn first_hit_from(chs: Seq<Chapter>, p: Duration, i: int) -> Option<int>
    decreases chs.len() - i,
{
    if i < 0 || i >= chs.len() {
        None
    } else if chs[i].spec_contains(p) {
        Some(i)
    } else {
        first_hit_from(chs, p, i + 1)
    }
}

/// The chapter a position belongs to: the first one in order containing it.
pub open spec fn first_hit(chs: Seq<Chapter>, p: Duration) -> Option<int> {
    first_hit_from(chs, p, 0)
}

/// Ten seconds before `d`, stopping at zero.
pub open spec fn back_ten(d: Duration) -> Duration {
    if d.millis >= PREVIOUS_GRACE_MILLIS {
        Duration { millis: (d.millis - PREVIOUS_GRACE_MILLIS) as u64 }
    } else {
        Duration { millis: 0 }
    }
}

/// The seek target of "next chapter": the end of the current chapter, or
/// nothing when the position lies in no chapter.
pub open spec fn spec_next_target(chs: Seq<Chapter>, p: Duration) -> Option<Duration> {
    match first_hit(chs, p) {
        Some(i) => Some(chs[i].end),
        None => None,
    }
}

/// The seek target of "previous chapter": the start of the current
/// chapter, unless the position is within ten seconds of it — then the
/// start of the chapter found ten seconds before that start.
pub open spec fn spec_previous_target(chs: Seq<Chapter>, p: Duration) -> Option<Duration> {
    match first_hit(chs, p) {
        Some(i) => if p.millis - chs[i].start.millis < PREVIOUS_GRACE_MILLIS {
            match first_hit(chs, back_ten(chs[i].start)) {
                Some(j) => Some(chs[j].start),
                None => None,
            }
        } else {
            Some(chs[i].start)
        },
        None => None,
    }
}

proof fn lemma_first_hit_from_skip(chs: Seq<Chapter>, p: Duration, i: int)
    requires
        0 <= i <= chs.len(),
        forall|j: int| 0 <= j < i ==> !(#[trigger] chs[j]).spec_contains(p),
    ensures
        first_hit(chs, p) == first_hit_from(chs, p, i),
    decreases i,
{
    if i > 0 {
        lemma_first_hit_from_skip(chs, p, i - 1);
    }
}

proof fn lemma_first_hit_from_props(chs: Seq<Chapter>, p: Duration, i: int)
    requires
        0 <= i <= chs.len(),
    ensures
        first_hit_from(chs, p, i) matches Some(j) ==> i <= j < chs.len() && chs[
            j
        ].spec_contains(p) && (forall|k: int| i <= k < j ==> !(#[trigger] chs[k]).spec_contains(p)),
        first_hit_from(chs, p, i) is None ==> forall|k: int|
            i <= k < chs.len() ==> !(#[trigger] chs[k]).spec_contains(p),
    decreases chs.len() - i,
{
    if i < chs.len() && !chs[i].spec_contains(p) {
        lemma_first_hit_from_props(chs, p, i + 1);
    }
}

/// The chapter a position belongs to is exactly the first-match rule of
/// the navigation contract: a hit contains the position while no earlier
/// chapter does — so a boundary shared by two adjacent chapters belongs to
/// the earlier one — and no hit means no chapter contains the position.
pub proof fn lemma_first_hit_is_first_match(chs: Seq<Chapter>, p: Duration)
    ensures
        first_hit(chs, p) matches Some(i) ==> 0 <= i < chs.len() && chs[i].spec_contains(p) && (
        forall|k: int| 0 <= k < i ==> !(#[trigger] chs[k]).spec_contains(p)),
        first_hit(chs, p) is None ==> forall|k: int|
            0 <= k < chs.len() ==> !(#[trigger] chs[k]).spec_contains(p),
{
    lemma_first_hit_from_props(chs, p, 0);
}

impl Metadata {
    /// The index of the chapter containing `position`, first in order on a
    /// shared boundary; `None` when no chapter contains it.
    pub fn chapter_index_at(&self, position: Duration) -> (r: Option<usize>)
        ensures
            r matches Some(i) ==> i < self.chapters@.len() && first_hit(self.chapters@, position)
                == Some(i as int),
            r is None ==> first_hit(self.chapters@, position) is None,
    {
        let n = self.chapters.len();
        let mut i: usize = 0;
        while i < n
            invariant
                i <= n,
                n == self.chapters@.len(),
                forall|j: int|
                    0 <= j < i ==> !(#[trigger] self.chapters@[j]).spec_contains(position),
            decreases n - i,
        {
            if self.chapters[i].contains(position) {
                proof {
                    lemma_first_hit_from_skip(self.chapters@, position, i as int);
                }
                return Some(i);
            }
            i = i + 1;
        }
        proof {
            lemma_first_hit_from_skip(self.chapters@, position, n as int);
        }
        None
    }

    /// The chapter containing `position`, as a value of its own.
    pub fn chapter_at(&self, position: Duration) -> (r: Option<Chapter>)
        ensures
            ({
                let hit = first_hit(self.chapters@, position);
                &&& (hit matches Some(i) ==> r matches Some(c) && c == self.chapters@[i])
                &&& (hit is None ==> r is None)
            }),
    {
        match self.chapter_index_at(position) {
            Some(i) => Some(self.chapters[i].clone()),
            None => None,
        }
    }

    /// The seek target for "next chapter" from `position`.
    pub fn next_chapter(&self, position: Duration) -> (r: Option<Duration>)
        ensures
            r == spec_next_target(self.chapters@, position),
    {
        match self.chapter_index_at(position) {
            Some(i) => Some(self.chapters[i].end),
            None => None,
        }
    }

    /// The seek target for "previous chapter" from `position`: the current
    /// chapter's start, or — within ten seconds of it — the start of the
    /// chapter lying ten seconds before that.
    pub fn previous_chapter(&self, position: Duration) -> (r: Option<Duration>)
        ensures
            r == spec_previous_target(self.chapters@, position),
    {
        match self.chapter_index_at(position) {
            Some(i) => {
                proof {
                    lemma_first_hit_from_props(self.chapters@, position, 0);
                }
                let start = self.chapters[i].start;
                if position.as_millis() - start.as_millis() < PREVIOUS_GRACE_MILLIS {
                    let target = start.saturating_sub(Duration::from_millis(PREVIOUS_GRACE_MILLIS));
                    match self.chapter_index_at(target) {
                        Some(j) => Some(self.chapters[j].start),
                        None => None,
                    }
                } else {
                    Some(start)
                }
            },
            None => None,
        }
    }

    /// The elapsed time within and the total length of the chapter
    /// containing `position`; `None` when no chapter contains it. A
    /// progress fraction is elapsed over length, left to the caller, who
    /// must not divide when the length is zero.
    pub fn chapter_progress(&self, position: Duration) -> (r: Option<(Duration, Duration)>)
        ensures
            ({
                let hit = first_hit(self.chapters@, position);
                &&& (hit matches Some(i) ==> r == Some(
                    (
                        Duration {
                            millis: (position.millis - self.chapters@[i].start.millis) as u64,
                        },
                        Duration {
                            millis: (self.chapters@[i].end.millis
                                - self.chapters@[i].start.millis) as u64,
                        },
                    ),
                ))
                &&& (hit is None ==> r is None)
            }),
    {
        match self.chapter_index_at(position) {
            Some(i) => {
                proof {
                    lemma_first_hit_from_props(self.chapters@, position, 0);
                }
                let c = &self.chapters[i];
                Some(
                    (
                        Duration::from_millis(position.as_millis() - c.start.as_millis()),
                        Duration::from_millis(c.end.as_millis() - c.start.as_millis()),
                    ),
                )
            },
            None => None,
        }
    }
}

} // verus!

