//! The leaderboard service: session lifecycle, score validation and the
//! capped ranked list. All operations on one `ScoreBoard` value are strictly
//! serialized by Rust's ownership of `&mut self`, so the read-modify-write
//! sequences below cannot interleave.

use vstd::prelude::*;

use crate::outcome::{SubmitOutcome, SCORE_RATE, TOLERANCE};
use crate::ranking::{
    insert_ranked, lemma_insert_pos_unique, lemma_insert_ranked_sorted, placed, sorted_desc,
    EntryV, ScoreEntry, CAPACITY, TOP_N,
};
use crate::session::{
    consumed, distinct_ids, lemma_lookup_none_not_present, lemma_lookup_push, lemma_lookup_skip,
    lemma_lookup_update, lookup, Session, SessionInfo,
};
use crate::token::{make_session_token, token_chars};

verus! {

/// Milliseconds elapsed since the session started, by a monotonic clock:
/// zero if the submission timestamp somehow precedes the start.
pub open spec fn elapsed_ms_of(start_ts: u64, now_ms: u64) -> u64 {
    if now_ms >= start_ts {
        (now_ms - start_ts) as u64
    } else {
        0
    }
}

/// The score expected after `elapsed` milliseconds of play, at the fixed
/// accrual rate: `elapsed x 60 / 1000`, rounded down.
pub open spec fn expected_score_of(elapsed: u64) -> i64 {
    ((elapsed as int) * (SCORE_RATE as int) / 1000) as i64
}

/// The score differs from the one expected for the elapsed time by more
/// than the tolerance: `|score - elapsed_seconds x 60| > 180`, stated over
/// milliseconds without rounding.
pub open spec fn score_mismatch(score: i64, elapsed: u64) -> bool {
    let d = 1000 * (score as int) - (SCORE_RATE as int) * (elapsed as int);
    d > 1000 * (TOLERANCE as int) || d < -1000 * (TOLERANCE as int)
}

/// The reported device pixel ratio (thousandths) fell below 85% of the one
/// recorded at session start. Absent values on either side skip the check.
pub open spec fn dpr_shrunk(info: SessionInfo, dpr_milli: Option<u32>) -> bool {
    &&& info.start_dpr_milli is Some
    &&& dpr_milli is Some
    &&& 100 * (dpr_milli->0 as int) < 85 * (info.start_dpr_milli->0 as int)
}

/// The reported width fell below 85% of the one recorded at session start.
/// Absent values on either side skip the check.
pub open spec fn width_shrunk(info: SessionInfo, vw: Option<u32>) -> bool {
    &&& info.start_w is Some
    &&& vw is Some
    &&& 100 * (vw->0 as int) < 85 * (info.start_w->0 as int)
}

/// The reported height fell below 85% of the one recorded at session start.
/// Absent values on either side skip the check.
pub open spec fn height_shrunk(info: SessionInfo, vh: Option<u32>) -> bool {
    &&& info.start_h is Some
    &&& vh is Some
    &&& 100 * (vh->0 as int) < 85 * (info.start_h->0 as int)
}

/// The reported viewport fell below 85% of the width or height recorded at
/// session start. Each dimension is judged on its own, whenever both its
/// starting and its current value are present.
pub open spec fn viewport_shrunk(info: SessionInfo, vw: Option<u32>, vh: Option<u32>) -> bool {
    width_shrunk(info, vw) || height_shrunk(info, vh)
}

/// The outcome a submission receives, as a function of the board state and
/// the submitted values. The checks apply in order: the session must exist,
/// must not have been consumed, the score must be plausible for the elapsed
/// time, and the viewport must not have shrunk; a device-pixel-ratio shrink
/// is reported ahead of a width/height shrink.
pub open spec fn spec_outcome(
    b: ScoreBoard,
    id: Seq<char>,
    score: i64,
    now_ms: u64,
    vw: Option<u32>,
    vh: Option<u32>,
    dpr_milli: Option<u32>,
) -> SubmitOutcome {
    if id.len() == 0 || b.session(id) is None {
        SubmitOutcome::InvalidSession
    } else {
        let info = b.session(id)->0;
        if info.used {
            SubmitOutcome::SessionAlreadyUsed
        } else {
            let elapsed = elapsed_ms_of(info.start_ts, now_ms);
            if score_mismatch(score, elapsed) {
                SubmitOutcome::ScoreTimeMismatch {
                    elapsed_ms: elapsed,
                    expected_score: expected_score_of(elapsed),
                    tolerance: TOLERANCE,
                    actual_score: score,
                }
            } else if dpr_shrunk(info, dpr_milli) {
                SubmitOutcome::DprShrink { dpr_milli: dpr_milli->0 }
            } else if viewport_shrunk(info, vw, vh) {
                SubmitOutcome::ViewportShrink { viewport_w: vw, viewport_h: vh }
            } else {
                SubmitOutcome::Accepted
            }
        }
    }
}

/// The scoring service: a session table and the ranked list, both owned
/// exclusively by this value.
pub struct ScoreBoard {
    sessions: Vec<Session>,
    scores: Vec<ScoreEntry>,
}

impl ScoreBoard {
    /// The stored sessions, in insertion order.
    pub closed spec fn sessions_view(self) -> Seq<Session> {
        self.sessions@
    }

    /// The ranked list, as a sequence of entry images.
    pub closed spec fn ranking(self) -> Seq<EntryV> {
        self.scores@.map_values(|e: ScoreEntry| e@)
    }

    /// The record stored under a session token, if any.
    pub open spec fn session(self, id: Seq<char>) -> Option<SessionInfo> {
        lookup(self.sessions_view(), id)
    }

    /// The leaderboard invariant: session tokens are distinct, and the
    /// ranked list is sorted descending by score and within capacity.
    pub open spec fn wf(self) -> bool {
        &&& distinct_ids(self.sessions_view())
        &&& sorted_desc(self.ranking())
        &&& self.ranking().len() <= CAPACITY
    }

    /// An empty board: no sessions, no scores.
    pub fn new() -> (r: ScoreBoard)
        ensures
            r.wf(),
            r.ranking() == Seq::<EntryV>::empty(),
            forall|id: Seq<char>| r.session(id) is None,
    {
        let r = ScoreBoard { sessions: Vec::new(), scores: Vec::new() };
        proof {
            assert(r.ranking() =~= Seq::<EntryV>::empty());
        }
        r
    }

    /// The index of the stored session whose token matches `id`, if any.
    fn find_index(&self, id: &String) -> (r: Option<usize>)
        ensures
            match r {
                Some(i) => {
                    &&& i < self.sessions_view().len()
                    &&& self.sessions_view()[i as int].id@ == id@
                    &&& forall|j: int| 0 <= j < i ==> self.sessions_view()[j].id@ != id@
                    &&& self.session(id@) == Some(self.sessions_view()[i as int].info)
                },
                None => self.session(id@) is None,
            },
    {
        let ghost s = self.sessions@;
        let n = self.sessions.len();
        let mut i: usize = 0;
        while i < n
            invariant
                n == s.len(),
                0 <= i <= n,
                s == self.sessions@,
                forall|j: int| 0 <= j < i ==> s[j].id@ != id@,
            decreases n - i,
        {
            if self.sessions[i].id == *id {
                proof {
                    lemma_lookup_skip(s, id@, i as int);
                    assert(s.skip(i as int)[0] == s[i as int]);
                    assert(lookup(s.skip(i as int), id@) == Some(s[i as int].info));
                }
                return Some(i);
            }
            i = i + 1;
        }
        proof {
            lemma_lookup_skip(s, id@, n as int);
            assert(s.skip(n as int) =~= Seq::<Session>::empty());
        }
        None
    }

    /// Open a play session: store a fresh, unconsumed record under the given
    /// token, with the supplied start time and optional viewport hints. A
    /// token that is already stored is overwritten, as a durable put would;
    /// the ranked list is untouched.
    pub fn open_session(
        &mut self,
        id: String,
        now_ms: u64,
        w: Option<u32>,
        h: Option<u32>,
        dpr_milli: Option<u32>,
    )
        requires
            old(self).wf(),
        ensures
            final(self).wf(),
            final(self).session(id@) == Some(
                SessionInfo {
                    start_ts: now_ms,
                    used: false,
                    start_w: w,
                    start_h: h,
                    start_dpr_milli: dpr_milli,
                },
            ),
            forall|other: Seq<char>| other != id@ ==> final(self).session(other) == old(
                self,
            ).session(other),
            final(self).ranking() == old(self).ranking(),
    {
        let ghost s0 = self.sessions@;
        let info = SessionInfo {
            start_ts: now_ms,
            used: false,
            start_w: w,
            start_h: h,
            start_dpr_milli: dpr_milli,
        };
        let found = self.find_index(&id);
        match found {
            Some(i) => {
                let ghost iv = i as int;
                let sess = Session { id, info };
                proof {
                    assert(forall|j: int|
                        0 <= j < s0.len() && j != iv ==> s0[j].id@ != sess.id@) by {
                        assert(forall|j: int| iv < j < s0.len() ==> s0[j].id@ != s0[iv].id@);
                    }
                }
                self.sessions.set(i, sess);
                proof {
                    assert forall|other: Seq<char>|
                        self.session(other) == (if other == sess.id@ {
                            Some(sess.info)
                        } else {
                            lookup(s0, other)
                        }) by {
                        lemma_lookup_update(s0, iv, sess, other);
                    }
                }
            },
            None => {
                let sess = Session { id, info };
                proof {
                    lemma_lookup_none_not_present(s0, sess.id@);
                }
                self.sessions.push(sess);
                proof {
                    assert forall|other: Seq<char>|
                        self.session(other) == (if other == sess.id@ {
                            Some(sess.info)
                        } else {
                            lookup(s0, other)
                        }) by {
                        lemma_lookup_push(s0, sess, other);
                    }
                    assert(forall|j: int| 0 <= j < s0.len() ==> self.sessions@[j] == s0[j]);
                }
            },
        }
    }

    /// Open a play session under a freshly issued token, built from the
    /// server time and a random suffix, and return the token. The token is
    /// practically unique: a collision would need the same millisecond and
    /// the same suffix, and is not otherwise handled.
    pub fn open_session_with_token(
        &mut self,
        now_ms: u64,
        suffix: u64,
        w: Option<u32>,
        h: Option<u32>,
        dpr_milli: Option<u32>,
    ) -> (r: String)
        requires
            old(self).wf(),
        ensures
            final(self).wf(),
            r@ == token_chars(now_ms, suffix),
            final(self).session(r@) == Some(
                SessionInfo {
                    start_ts: now_ms,
                    used: false,
                    start_w: w,
                    start_h: h,
                    start_dpr_milli: dpr_milli,
                },
            ),
            forall|other: Seq<char>| other != r@ ==> final(self).session(other) == old(
                self,
            ).session(other),
            final(self).ranking() == old(self).ranking(),
    {
        let token = make_session_token(now_ms, suffix);
        let issued = token.clone();
        self.open_session(token, now_ms, w, h, dpr_milli);
        issued
    }

    /// Place an accepted entry at its rank, evicting past the capacity.
    fn insert_entry(&mut self, e: ScoreEntry)
        requires
            sorted_desc(old(self).ranking()),
            old(self).ranking().len() <= CAPACITY,
        ensures
            final(self).ranking() == insert_ranked(old(self).ranking(), e@),
            final(self).sessions_view() == old(self).sessions_view(),
            sorted_desc(final(self).ranking()),
            final(self).ranking().len() <= CAPACITY,
    {
        let ghost r0 = self.ranking();
        let n = self.scores.len();
        let mut i: usize = 0;
        while i < n && self.scores[i].score >= e.score
            invariant
                n == self.scores@.len(),
                0 <= i <= n,
                forall|j: int| 0 <= j < i ==> self.scores@[j].score >= e.score,
            decreases n - i,
        {
            i = i + 1;
        }
        proof {
            assert(forall|j: int| 0 <= j < i ==> r0[j].score >= e.score as int);
            assert(i < n ==> r0[i as int].score < e.score as int);
            lemma_insert_pos_unique(r0, e.score as int, i as int);
        }
        self.scores.insert(i, e);
        proof {
            assert(self.ranking() =~= placed(r0, e@));
        }
        if self.scores.len() > CAPACITY {
            self.scores.truncate(CAPACITY);
            proof {
                assert(self.ranking() =~= placed(r0, e@).take(CAPACITY as int));
            }
        }
        proof {
            lemma_insert_ranked_sorted(r0, e@);
        }
    }

    /// Submit a score against a session.
    ///
    /// The outcome is exactly `spec_outcome` of the state before the call.
    /// On acceptance the session is consumed (its `used` flag set, all else
    /// kept), no other session changes, and the entry is ranked into the
    /// list; on any rejection the state is untouched.
    pub fn submit_score(
        &mut self,
        session_id: &String,
        name: String,
        score: i64,
        now_ms: u64,
        viewport_w: Option<u32>,
        viewport_h: Option<u32>,
        dpr_milli: Option<u32>,
    ) -> (r: SubmitOutcome)
        requires
            old(self).wf(),
        ensures
            final(self).wf(),
            r == spec_outcome(
                *old(self),
                session_id@,
                score,
                now_ms,
                viewport_w,
                viewport_h,
                dpr_milli,
            ),
            !(r is Accepted) ==> *final(self) == *old(self),
            r is Accepted ==> {
                &&& final(self).session(session_id@) == Some(
                    consumed(old(self).session(session_id@)->0),
                )
                &&& forall|other: Seq<char>| other != session_id@ ==> final(self).session(other)
                    == old(self).session(other)
                &&& final(self).ranking() == insert_ranked(
                    old(self).ranking(),
                    EntryV { name: name@, score: score as int, ts: now_ms as int },
                )
            },
    {
        if session_id.as_str().is_empty() {
            return SubmitOutcome::InvalidSession;
        }
        let found = self.find_index(session_id);
        let i = match found {
            None => { return SubmitOutcome::InvalidSession; },
            Some(i) => i,
        };
        let info = self.sessions[i].info;
        if info.used {
            return SubmitOutcome::SessionAlreadyUsed;
        }
        let elapsed: u64 = if now_ms >= info.start_ts {
            now_ms - info.start_ts
        } else {
            0
        };
        let d: i128 = 1000 * (score as i128) - (SCORE_RATE as i128) * (elapsed as i128);
        let lim: i128 = 1000 * (TOLERANCE as i128);
        if d > lim || d < -lim {
            let expected_wide: u128 = (elapsed as u128) * (SCORE_RATE as u128) / 1000;
            proof {
                vstd::arithmetic::div_mod::lemma_div_is_ordered(
                    (elapsed as int) * (SCORE_RATE as int),
                    (0xffff_ffff_ffff_ffff as int) * (SCORE_RATE as int),
                    1000,
                );
            }
            let expected: i64 = expected_wide as i64;
            return SubmitOutcome::ScoreTimeMismatch {
                elapsed_ms: elapsed,
                expected_score: expected,
                tolerance: TOLERANCE,
                actual_score: score,
            };
        }
        if let (Some(sd), Some(d_now)) = (info.start_dpr_milli, dpr_milli) {
            if 100 * (d_now as u64) < 85 * (sd as u64) {
                return SubmitOutcome::DprShrink { dpr_milli: d_now };
            }
        }
        let mut shrunk = false;
        if let (Some(sw), Some(w)) = (info.start_w, viewport_w) {
            if 100 * (w as u64) < 85 * (sw as u64) {
                shrunk = true;
            }
        }
        if let (Some(sh), Some(h)) = (info.start_h, viewport_h) {
            if 100 * (h as u64) < 85 * (sh as u64) {
                shrunk = true;
            }
        }
        if shrunk {
            return SubmitOutcome::ViewportShrink { viewport_w, viewport_h };
        }
        let ghost s0 = self.sessions@;
        let ghost iv = i as int;
        let id_again = self.sessions[i].id.clone();
        let sess = Session {
            id: id_again,
            info: SessionInfo {
                start_ts: info.start_ts,
                used: true,
                start_w: info.start_w,
                start_h: info.start_h,
                start_dpr_milli: info.start_dpr_milli,
            },
        };
        proof {
            assert(sess.id@ == s0[iv].id@);
            assert(forall|j: int| 0 <= j < s0.len() && j != iv ==> s0[j].id@ != sess.id@) by {
                assert(forall|j: int| iv < j < s0.len() ==> s0[j].id@ != s0[iv].id@);
            }
        }
        self.sessions.set(i, sess);
        proof {
            // Replacing a session in place under the same token keeps the
            // tokens distinct.
            assert(forall|k: int| 0 <= k < self.sessions@.len() ==> self.sessions@[k].id@
                == s0[k].id@);
            assert(distinct_ids(self.sessions@));
        }
        self.insert_entry(ScoreEntry { name, score, ts: now_ms });
        // The ranked insert leaves the session table as the update left it,
        // so the consumed record and every other record read as claimed.
        proof {
            assert(self.sessions@ == s0.update(iv, sess));
            lemma_lookup_update(s0, iv, sess, session_id@);
            assert(consumed(info) == sess.info);
            assert forall|other: Seq<char>| other != session_id@ implies self.session(other)
                == lookup(s0, other) by {
                lemma_lookup_update(s0, iv, sess, other);
            }
        }
        SubmitOutcome::Accepted
    }

    /// The first `k` ranked entries as (name, score) pairs, in order.
    fn collect_prefix(&self, k: usize) -> (r: Vec<(String, i64)>)
        requires
            k <= self.ranking().len(),
        ensures
            r@.len() == k,
            forall|j: int| 0 <= j < k ==> r@[j].0@ == self.ranking()[j].name && r@[j].1 as int
                == self.ranking()[j].score,
    {
        let mut r: Vec<(String, i64)> = Vec::new();
        let mut i: usize = 0;
        while i < k
            invariant
                0 <= i <= k,
                k <= self.scores@.len(),
                r@.len() == i,
                forall|j: int| 0 <= j < i ==> r@[j].0@ == self.ranking()[j].name && r@[j].1 as int
                    == self.ranking()[j].score,
            decreases k - i,
        {
            let name = self.scores[i].name.clone();
            let sc = self.scores[i].score;
            r.push((name, sc));
            i = i + 1;
        }
        r
    }

    /// The top of the leaderboard: the first entries of the ranked list, at
    /// most five, as (name, score) pairs in descending score order. Reads
    /// only; an empty list yields an empty result.
    pub fn top_scores(&self) -> (r: Vec<(String, i64)>)
        ensures
            r@.len() == if self.ranking().len() < TOP_N {
                self.ranking().len() as int
            } else {
                TOP_N as int
            },
            forall|j: int| 0 <= j < r@.len() ==> r@[j].0@ == self.ranking()[j].name && r@[j].1
                as int == self.ranking()[j].score,
    {
        let n = self.scores.len();
        let k = if n < TOP_N {
            n
        } else {
            TOP_N
        };
        self.collect_prefix(k)
    }

    /// The whole ranked list as (name, score) pairs, in descending score
    /// order.
    pub fn ranked_scores(&self) -> (r: Vec<(String, i64)>)
        ensures
            r@.len() == self.ranking().len(),
            forall|j: int| 0 <= j < r@.len() ==> r@[j].0@ == self.ranking()[j].name && r@[j].1
                as int == self.ranking()[j].score,
    {
        let n = self.scores.len();
        self.collect_prefix(n)
    }

    /// Whether the session stored under a token has been consumed, or
    /// `None` if no session is stored under it.
    pub fn session_used(&self, id: &String) -> (r: Option<bool>)
        ensures
            r == match self.session(id@) {
                Some(info) => Some(info.used),
                None => None::<bool>,
            },
    {
        match self.find_index(id) {
            Some(i) => Some(self.sessions[i].info.used),
            None => None,
        }
    }
}

/// An accepted submission consumes its session: afterwards, any further
/// submission with the same token is rejected as already used, whatever its
/// score, timing or viewport — so a submission is accepted at most once per
/// session.
pub proof fn lemma_resubmission_rejected(
    pre: ScoreBoard,
    post: ScoreBoard,
    id: Seq<char>,
    score1: i64,
    now1: u64,
    vw1: Option<u32>,
    vh1: Option<u32>,
    dpr1: Option<u32>,
    score2: i64,
    now2: u64,
    vw2: Option<u32>,
    vh2: Option<u32>,
    dpr2: Option<u32>,
)
    requires
        spec_outcome(pre, id, score1, now1, vw1, vh1, dpr1) is Accepted,
        post.session(id) == Some(consumed(pre.session(id)->0)),
    ensures
        spec_outcome(post, id, score2, now2, vw2, vh2, dpr2) == SubmitOutcome::SessionAlreadyUsed,
{
}

/// A submission against a live session is accepted whenever its score is
/// within the tolerance of the elapsed-time expectation and neither the
/// viewport nor the pixel ratio shrank: the checks reject nothing else.
pub proof fn lemma_plausible_submission_accepted(
    b: ScoreBoard,
    id: Seq<char>,
    score: i64,
    now_ms: u64,
    vw: Option<u32>,
    vh: Option<u32>,
    dpr_milli: Option<u32>,
)
    requires
        id.len() > 0,
        b.session(id) is Some,
        !b.session(id)->0.used,
        !score_mismatch(score, elapsed_ms_of(b.session(id)->0.start_ts, now_ms)),
        !dpr_shrunk(b.session(id)->0, dpr_milli),
        !viewport_shrunk(b.session(id)->0, vw, vh),
    ensures
        spec_outcome(b, id, score, now_ms, vw, vh, dpr_milli) is Accepted,
{
}

} // verus!
