//! The ranked list: accepted score entries, kept sorted descending by score
//! and capped at a fixed capacity. Ties keep their original insertion order,
//! so a new entry is placed after every entry that scores at least as high.

use vstd::prelude::*;

verus! {

/// How many entries the ranked list retains.
pub const CAPACITY: usize = 100;

/// How many entries the top-scores query returns at most.
pub const TOP_N: usize = 5;

/// An accepted score entry: player-supplied name, score, and the server time
/// (milliseconds) at which the submission was accepted. Never mutated after
/// creation.
pub struct ScoreEntry {
    pub name: String,
    pub score: i64,
    pub ts: u64,
}

/// The mathematical image of a `ScoreEntry`.
pub struct EntryV {
    pub name: Seq<char>,
    pub score: int,
    pub ts: int,
}

impl View for ScoreEntry {
    type V = EntryV;

    open spec fn view(&self) -> EntryV {
        EntryV { name: self.name@, score: self.score as int, ts: self.ts as int }
    }
}

/// Sorted descending by score.
pub open spec fn sorted_desc(s: Seq<EntryV>) -> bool {
    forall|i: int, j: int| 0 <= i <= j < s.len() ==> s[i].score >= s[j].score
}

/// Where a new entry with score `sc` is placed: after every entry that
/// scores at least `sc`, which for a sorted list is exactly where a stable
/// descending sort of the appended list would leave it.
pub open spec fn insert_pos(s: Seq<EntryV>, sc: int) -> int
    decreases s.len(),
{
    if s.len() == 0 {
        0
    } else if s[0].score >= sc {
        1 + insert_pos(s.drop_first(), sc)
    } else {
        0
    }
}

/// The list with `e` placed at its rank, before any eviction.
pub open spec fn placed(s: Seq<EntryV>, e: EntryV) -> Seq<EntryV> {
    s.insert(insert_pos(s, e.score), e)
}

/// The list after an accepted entry is ranked: placed at its position, then
/// the tail beyond the capacity evicted.
pub open spec fn insert_ranked(s: Seq<EntryV>, e: EntryV) -> Seq<EntryV> {
    let t = placed(s, e);
    if t.len() <= CAPACITY {
        t
    } else {
        t.take(CAPACITY as int)
    }
}

/// The insertion position is within bounds; everything before it scores at
/// least `sc`, and the entry right after it (if any) scores less.
pub proof fn lemma_insert_pos_props(s: Seq<EntryV>, sc: int)
    ensures
        0 <= insert_pos(s, sc) <= s.len(),
        forall|j: int| 0 <= j < insert_pos(s, sc) ==> s[j].score >= sc,
        insert_pos(s, sc) < s.len() ==> s[insert_pos(s, sc)].score < sc,
    decreases s.len(),
{
    if s.len() > 0 && s[0].score >= sc {
        lemma_insert_pos_props(s.drop_first(), sc);
        assert(forall|j: int| 1 <= j < s.len() ==> s[j] == s.drop_first()[j - 1]);
    }
}

/// Any index with the properties of `lemma_insert_pos_props` is the
/// insertion position, provided the list is sorted.
pub proof fn lemma_insert_pos_unique(s: Seq<EntryV>, sc: int, i: int)
    requires
        sorted_desc(s),
        0 <= i <= s.len(),
        forall|j: int| 0 <= j < i ==> s[j].score >= sc,
        i < s.len() ==> s[i].score < sc,
    ensures
        insert_pos(s, sc) == i,
    decreases s.len(),
{
    if s.len() == 0 {
    } else if s[0].score >= sc {
        assert(i > 0);
        assert(forall|j: int| 1 <= j < s.len() ==> s[j] == s.drop_first()[j - 1]);
        assert(forall|j: int, k: int|
            0 <= j <= k < s.drop_first().len() ==> s.drop_first()[j].score >= s.drop_first()[k].score);
        lemma_insert_pos_unique(s.drop_first(), sc, i - 1);
    } else {
        assert(i == 0);
    }
}

/// Placing an entry at its insertion position keeps the list sorted.
pub proof fn lemma_placed_sorted(s: Seq<EntryV>, e: EntryV)
    requires
        sorted_desc(s),
    ensures
        sorted_desc(placed(s, e)),
        placed(s, e).len() == s.len() + 1,
{
    let p = insert_pos(s, e.score);
    lemma_insert_pos_props(s, e.score);
    let t = placed(s, e);
    assert forall|i: int, j: int| 0 <= i <= j < t.len() implies t[i].score >= t[j].score by {
        if i < p {
            assert(t[i] == s[i]);
        } else if i == p {
            assert(t[i] == e);
        } else {
            assert(t[i] == s[i - 1]);
        }
        if j < p {
            assert(t[j] == s[j]);
        } else if j == p {
            assert(t[j] == e);
        } else {
            assert(t[j] == s[j - 1]);
        }
    }
}

/// An entry ranked into a list below capacity is itself in the result, at
/// its insertion position: nothing is evicted, so every accepted entry
/// appears. On a full list the lowest-ranked entry — possibly the new one —
/// is evicted instead.
pub proof fn lemma_insert_ranked_keeps_entry(s: Seq<EntryV>, e: EntryV)
    requires
        sorted_desc(s),
        s.len() < CAPACITY,
    ensures
        insert_ranked(s, e).len() == s.len() + 1,
        0 <= insert_pos(s, e.score) < insert_ranked(s, e).len(),
        insert_ranked(s, e)[insert_pos(s, e.score)] == e,
{
    lemma_insert_pos_props(s, e.score);
}

/// Ranking one more entry into a sorted list within capacity yields a sorted
/// list within capacity: the leaderboard invariant is preserved by every
/// accepted submission.
pub proof fn lemma_insert_ranked_sorted(s: Seq<EntryV>, e: EntryV)
    requires
        sorted_desc(s),
        s.len() <= CAPACITY,
    ensures
        sorted_desc(insert_ranked(s, e)),
        insert_ranked(s, e).len() <= CAPACITY,
        insert_ranked(s, e).len() == if s.len() < CAPACITY {
            s.len() as int + 1
        } else {
            CAPACITY as int
        },
{
    lemma_placed_sorted(s, e);
    let t = placed(s, e);
    if t.len() > CAPACITY {
        assert(forall|i: int| 0 <= i < CAPACITY ==> t.take(CAPACITY as int)[i] == t[i]);
    }
}

} // verus!
