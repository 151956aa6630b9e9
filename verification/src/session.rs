//! Play sessions: a one-shot token binding a play attempt to a start
//! timestamp and optional starting viewport metrics.

use vstd::prelude::*;

verus! {

/// What the service records when a session is opened.
///
/// Timestamps are server wall-clock milliseconds. The device pixel ratio is
/// carried in thousandths (`1500` stands for a ratio of one and a half), so
/// that the shrink check below is exact integer arithmetic. Absent viewport
/// hints disable the corresponding check at submission time.
#[derive(Clone, Copy)]
pub struct SessionInfo {
    pub start_ts: u64,
    pub used: bool,
    pub start_w: Option<u32>,
    pub start_h: Option<u32>,
    pub start_dpr_milli: Option<u32>,
}

/// A stored session: the opaque token together with its record.
pub struct Session {
    pub id: String,
    pub info: SessionInfo,
}

/// The same record with its one-shot flag consumed.
pub open spec fn consumed(info: SessionInfo) -> SessionInfo {
    SessionInfo {
        start_ts: info.start_ts,
        used: true,
        start_w: info.start_w,
        start_h: info.start_h,
        start_dpr_milli: info.start_dpr_milli,
    }
}

/// The record of the first session whose token matches `id`, if any.
pub open spec fn lookup(s: Seq<Session>, id: Seq<char>) -> Option<SessionInfo>
    decreases s.len(),
{
    if s.len() == 0 {
        None
    } else if s[0].id@ == id {
        Some(s[0].info)
    } else {
        lookup(s.drop_first(), id)
    }
}

/// Tokens in `s` are pairwise distinct.
pub open spec fn distinct_ids(s: Seq<Session>) -> bool {
    forall|i: int, j: int| 0 <= i < j < s.len() ==> s[i].id@ != s[j].id@
}

/// Skipping a prefix without a matching token does not change the lookup.
pub proof fn lemma_lookup_skip(s: Seq<Session>, id: Seq<char>, i: int)
    requires
        0 <= i <= s.len(),
        forall|j: int| 0 <= j < i ==> s[j].id@ != id,
    ensures
        lookup(s, id) == lookup(s.skip(i), id),
    decreases i,
{
    if i > 0 {
        assert(s[0].id@ != id);
        assert(s.drop_first() =~= s.skip(1));
        assert(forall|j: int| 0 <= j < i - 1 ==> s.drop_first()[j].id@ != id);
        lemma_lookup_skip(s.drop_first(), id, i - 1);
        assert(s.drop_first().skip(i - 1) =~= s.skip(i));
    } else {
        assert(s.skip(0) =~= s);
    }
}

/// What a lookup sees after one stored session is replaced by another with
/// the same token: that token now maps to the new record, every other token
/// maps as before.
pub proof fn lemma_lookup_update(s: Seq<Session>, i: int, sess: Session, id: Seq<char>)
    requires
        0 <= i < s.len(),
        s[i].id@ == sess.id@,
        forall|j: int| 0 <= j < s.len() && j != i ==> s[j].id@ != sess.id@,
    ensures
        lookup(s.update(i, sess), id) == if id == sess.id@ {
            Some(sess.info)
        } else {
            lookup(s, id)
        },
    decreases s.len(),
{
    let t = s.update(i, sess);
    if i == 0 {
        assert(t[0] == sess);
        if id != sess.id@ {
            assert(s[0].id@ == sess.id@);
            assert(t.drop_first() =~= s.drop_first());
        }
    } else {
        assert(t[0] == s[0]);
        assert(s[0].id@ != sess.id@);
        if s[0].id@ == id {
        } else {
            assert(t.drop_first() =~= s.drop_first().update(i - 1, sess));
            assert(forall|j: int|
                0 <= j < s.drop_first().len() && j != i - 1 ==> s.drop_first()[j].id@ != sess.id@);
            lemma_lookup_update(s.drop_first(), i - 1, sess, id);
        }
    }
}

/// What a lookup sees after a session with a fresh token is appended: that
/// token now maps to the new record, every other token maps as before.
pub proof fn lemma_lookup_push(s: Seq<Session>, sess: Session, id: Seq<char>)
    requires
        lookup(s, sess.id@) is None,
    ensures
        lookup(s.push(sess), id) == if id == sess.id@ {
            Some(sess.info)
        } else {
            lookup(s, id)
        },
    decreases s.len(),
{
    let t = s.push(sess);
    if s.len() == 0 {
        assert(t[0] == sess);
        if id != sess.id@ {
            assert(t.drop_first() =~= Seq::<Session>::empty());
        }
    } else {
        assert(t[0] == s[0]);
        assert(s[0].id@ != sess.id@);
        assert(lookup(s.drop_first(), sess.id@) is None);
        assert(t.drop_first() =~= s.drop_first().push(sess));
        lemma_lookup_push(s.drop_first(), sess, id);
        if id == s[0].id@ {
            assert(lookup(t, id) == Some(s[0].info));
            assert(lookup(s, id) == Some(s[0].info));
        } else {
            assert(lookup(t, id) == lookup(t.drop_first(), id));
            assert(lookup(s, id) == lookup(s.drop_first(), id));
        }
    }
}

/// A fresh token cannot already be stored anywhere in the table.
pub proof fn lemma_lookup_none_not_present(s: Seq<Session>, id: Seq<char>)
    requires
        lookup(s, id) is None,
    ensures
        forall|j: int| 0 <= j < s.len() ==> s[j].id@ != id,
    decreases s.len(),
{
    if s.len() > 0 {
        lemma_lookup_none_not_present(s.drop_first(), id);
        assert(forall|j: int| 1 <= j < s.len() ==> s[j] == s.drop_first()[j - 1]);
    }
}

} // verus!
