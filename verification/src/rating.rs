//! Post-session ratings and their per-payee aggregation.  A rating may only
//! be filed by the payer of a released escrow, exactly once per
//! `(session, rater)` pair; the aggregate keeps integer accumulators and a
//! fixed-point average scaled by 100, recomputed from the accumulators on
//! every update.

use vstd::prelude::*;

use crate::errors::EscrowError;
use crate::escrow::EscrowRecord;
use crate::escrow::EscrowStatus;
use crate::service::EscrowService;

verus! {

/// One filed rating, held for a single `(session_id, rater_id)` pair.
pub struct RatingRecord {
    pub payee_id: u64,
    pub rater_id: u64,
    pub session_id: String,
    pub score: u8,
    pub comment: String,
    pub created_at: u64,
}

/// The running rating summary of one payee.  `average_scaled` is the average
/// score scaled by 100, so a plain 4.0 reads as 400.
#[derive(Clone, Copy, Debug, PartialEq, Eq, Structural)]
pub struct AggregateRating {
    pub payee_id: u64,
    pub total_count: u64,
    pub total_score_sum: u64,
    pub average_scaled: u64,
}

impl AggregateRating {
    /// Internal consistency: at least one rating was absorbed, the sum stays
    /// between one and five points per rating, and the average is exactly the
    /// scaled integer quotient of the accumulators.
    pub open spec fn agg_wf(self) -> bool {
        &&& 1 <= self.total_count
        &&& self.total_count <= self.total_score_sum
        &&& self.total_score_sum <= 5 * self.total_count
        &&& self.average_scaled == (self.total_score_sum * 100) / (self.total_count as int)
    }

    /// The aggregate after absorbing one more score: the count and the sum
    /// grow, the average is recomputed from the accumulators.
    pub open spec fn with_score(self, score: u8) -> Self {
        AggregateRating {
            payee_id: self.payee_id,
            total_count: (self.total_count + 1) as u64,
            total_score_sum: (self.total_score_sum + score) as u64,
            average_scaled: (((self.total_score_sum + score) * 100) / (self.total_count
                + 1)) as u64,
        }
    }

    /// The aggregate a payee's first rating creates.
    pub open spec fn spec_first(payee_id: u64, score: u8) -> Self {
        AggregateRating {
            payee_id,
            total_count: 1,
            total_score_sum: score as u64,
            average_scaled: (score * 100) as u64,
        }
    }
}

/// How many of the filed ratings belong to `payee`.
pub open spec fn payee_count(s: Seq<RatingRecord>, payee: u64) -> int
    decreases s.len(),
{
    if s.len() == 0 {
        0
    } else {
        payee_count(s.drop_last(), payee) + if s.last().payee_id == payee {
            1int
        } else {
            0int
        }
    }
}

/// The sum of the scores of the filed ratings that belong to `payee`.
pub open spec fn payee_score_sum(s: Seq<RatingRecord>, payee: u64) -> int
    decreases s.len(),
{
    if s.len() == 0 {
        0
    } else {
        payee_score_sum(s.drop_last(), payee) + if s.last().payee_id == payee {
            s.last().score as int
        } else {
            0int
        }
    }
}

/// Filing one more rating moves the tallies of its payee alone, by one and
/// by its score.
pub proof fn lemma_payee_tallies_push(s: Seq<RatingRecord>, r: RatingRecord, payee: u64)
    ensures
        payee_count(s.push(r), payee) == payee_count(s, payee) + if r.payee_id == payee {
            1int
        } else {
            0int
        },
        payee_score_sum(s.push(r), payee) == payee_score_sum(s, payee) + if r.payee_id
            == payee {
            r.score as int
        } else {
            0int
        },
{
    assert(s.push(r).drop_last() == s);
    assert(s.push(r).last() == r);
}

/// The tally of a payee never counts below zero, and a payee counted zero
/// times has no score tallied either.
pub proof fn lemma_zero_count_zero_sum(s: Seq<RatingRecord>, payee: u64)
    ensures
        payee_count(s, payee) >= 0,
        payee_count(s, payee) == 0 ==> payee_score_sum(s, payee) == 0,
    decreases s.len(),
{
    if s.len() > 0 {
        lemma_zero_count_zero_sum(s.drop_last(), payee);
    }
}

/// Whether an aggregate is exactly the tally of the given ratings: its count
/// and sum are those of its payee's filed ratings.
pub open spec fn aggregate_matches(a: AggregateRating, rs: Seq<RatingRecord>) -> bool {
    &&& a.total_count == payee_count(rs, a.payee_id)
    &&& a.total_score_sum == payee_score_sum(rs, a.payee_id)
}

/// An operation that touches neither the ratings nor the aggregates keeps
/// every aggregate the exact tally of the filed ratings.
pub proof fn lemma_tallies_unchanged(pre: EscrowService, post: EscrowService)
    requires
        pre.aggregates_match_ratings(),
        post.ratings@ == pre.ratings@,
        post.aggregates@ == pre.aggregates@,
    ensures
        post.aggregates_match_ratings(),
{
    assert forall|i: int| 0 <= i < post.aggregates@.len() implies
        aggregate_matches(#[trigger] post.aggregates@[i], post.ratings@) by {
        assert(aggregate_matches(pre.aggregates@[i], pre.ratings@));
    }
    assert forall|p: u64| !post.has_aggregate(p) implies #[trigger] payee_count(post.ratings@, p)
        == 0 by {
        if pre.has_aggregate(p) {
            let j = pre.aggregate_index(p);
            assert(0 <= j < pre.aggregates@.len() && pre.aggregates@[j].payee_id == p);
            assert(post.aggregates@[j].payee_id == p);
            assert(post.has_aggregate(p));
        }
        assert(payee_count(pre.ratings@, p) == 0);
    }
}

/// Filing a rating and absorbing its score into the existing aggregate of
/// its payee keeps every aggregate the exact tally of the filed ratings.
proof fn lemma_tallies_after_absorb(pre: EscrowService, post: EscrowService, a_idx: int)
    requires
        pre.aggregates_match_ratings(),
        post.ratings@.len() == pre.ratings@.len() + 1,
        post.ratings@ == pre.ratings@.push(post.ratings@.last()),
        0 <= a_idx < pre.aggregates@.len(),
        post.aggregates@.len() == pre.aggregates@.len(),
        forall|j: int|
            0 <= j < pre.aggregates@.len() && j != a_idx
                ==> post.aggregates@[j] == pre.aggregates@[j],
        post.aggregates_unique(),
        post.aggregates@[a_idx].payee_id == pre.aggregates@[a_idx].payee_id,
        post.ratings@.last().payee_id == pre.aggregates@[a_idx].payee_id,
        post.aggregates@[a_idx].total_count == pre.aggregates@[a_idx].total_count + 1,
        post.aggregates@[a_idx].total_score_sum == pre.aggregates@[a_idx].total_score_sum
            + post.ratings@.last().score,
    ensures
        post.aggregates_match_ratings(),
{
    let payee = pre.aggregates@[a_idx].payee_id;
    assert forall|i: int| 0 <= i < post.aggregates@.len() implies
        aggregate_matches(#[trigger] post.aggregates@[i], post.ratings@) by {
        lemma_payee_tallies_push(pre.ratings@, post.ratings@.last(), post.aggregates@[i].payee_id);
        if i != a_idx {
            assert(post.aggregates@[i] == pre.aggregates@[i]);
            assert(aggregate_matches(pre.aggregates@[i], pre.ratings@));
            assert(post.aggregates@[i].payee_id != post.aggregates@[a_idx].payee_id);
        } else {
            assert(aggregate_matches(pre.aggregates@[a_idx], pre.ratings@));
        }
    }
    assert forall|p: u64| !post.has_aggregate(p) implies #[trigger] payee_count(post.ratings@, p)
        == 0 by {
        lemma_payee_tallies_push(pre.ratings@, post.ratings@.last(), p);
        assert(post.aggregates@[a_idx].payee_id == payee);
        assert(post.has_aggregate(payee));
        if pre.has_aggregate(p) {
            let j = pre.aggregate_index(p);
            assert(0 <= j < pre.aggregates@.len() && pre.aggregates@[j].payee_id == p);
            assert(post.aggregates@[j].payee_id == p);
            assert(post.has_aggregate(p));
        }
        assert(payee_count(pre.ratings@, p) == 0);
    }
}

/// Filing the first rating of a payee, with a fresh aggregate that carries
/// the one score, keeps every aggregate the exact tally of the filed
/// ratings.
proof fn lemma_tallies_after_first(pre: EscrowService, post: EscrowService)
    requires
        pre.aggregates_match_ratings(),
        post.ratings@.len() == pre.ratings@.len() + 1,
        post.ratings@ == pre.ratings@.push(post.ratings@.last()),
        post.aggregates@.len() == pre.aggregates@.len() + 1,
        forall|j: int|
            0 <= j < pre.aggregates@.len() ==> post.aggregates@[j] == pre.aggregates@[j],
        !pre.has_aggregate(post.aggregates@[pre.aggregates@.len() as int].payee_id),
        post.aggregates@[pre.aggregates@.len() as int].payee_id == post.ratings@.last().payee_id,
        post.aggregates@[pre.aggregates@.len() as int].total_count == 1,
        post.aggregates@[pre.aggregates@.len() as int].total_score_sum
            == post.ratings@.last().score,
    ensures
        post.aggregates_match_ratings(),
{
    let n = pre.aggregates@.len() as int;
    let payee = post.aggregates@[n].payee_id;
    assert forall|i: int| 0 <= i < post.aggregates@.len() implies
        aggregate_matches(#[trigger] post.aggregates@[i], post.ratings@) by {
        lemma_payee_tallies_push(pre.ratings@, post.ratings@.last(), post.aggregates@[i].payee_id);
        if i != n {
            assert(post.aggregates@[i] == pre.aggregates@[i]);
            assert(aggregate_matches(pre.aggregates@[i], pre.ratings@));
            if pre.aggregates@[i].payee_id == payee {
                assert(pre.has_aggregate(payee));
            }
        } else {
            assert(payee_count(pre.ratings@, payee) == 0);
            lemma_zero_count_zero_sum(pre.ratings@, payee);
        }
    }
    assert forall|p: u64| !post.has_aggregate(p) implies #[trigger] payee_count(post.ratings@, p)
        == 0 by {
        lemma_payee_tallies_push(pre.ratings@, post.ratings@.last(), p);
        assert(post.has_aggregate(payee));
        if pre.has_aggregate(p) {
            let j = pre.aggregate_index(p);
            assert(0 <= j < pre.aggregates@.len() && pre.aggregates@[j].payee_id == p);
            assert(post.aggregates@[j].payee_id == p);
            assert(post.has_aggregate(p));
        }
        assert(payee_count(pre.ratings@, p) == 0);
    }
}

/// The first record of the sequence that carries the session `sid`, if any;
/// a rating refers to its escrow this way.
pub open spec fn first_by_session(s: Seq<EscrowRecord>, sid: Seq<char>) -> Option<EscrowRecord>
    decreases s.len(),
{
    if s.len() == 0 {
        None
    } else if s[0].session_id@ == sid {
        Some(s[0])
    } else {
        first_by_session(s.drop_first(), sid)
    }
}

/// A position that matches the session, with no match before it, is the one
/// `first_by_session` returns.
pub proof fn lemma_first_by_session_at(s: Seq<EscrowRecord>, sid: Seq<char>, i: int)
    requires
        0 <= i < s.len(),
        s[i].session_id@ == sid,
        forall|j: int| 0 <= j < i ==> s[j].session_id@ != sid,
    ensures
        first_by_session(s, sid) == Some(s[i]),
    decreases i,
{
    if i > 0 {
        assert(s[0].session_id@ != sid);
        assert(forall|j: int| 0 <= j < i - 1 ==> s.drop_first()[j] == s[j + 1]);
        lemma_first_by_session_at(s.drop_first(), sid, i - 1);
        assert(s.drop_first()[i - 1] == s[i]);
    }
}

/// With no match anywhere, `first_by_session` returns nothing.
pub proof fn lemma_first_by_session_none(s: Seq<EscrowRecord>, sid: Seq<char>)
    requires
        forall|j: int| 0 <= j < s.len() ==> s[j].session_id@ != sid,
    ensures
        first_by_session(s, sid) is None,
    decreases s.len(),
{
    if s.len() > 0 {
        assert(forall|j: int| 0 <= j < s.len() - 1 ==> s.drop_first()[j] == s[j + 1]);
        lemma_first_by_session_none(s.drop_first(), sid);
    }
}

impl EscrowService {
    /// Whether a rating exists for the key `(sid, rater)`.
    pub open spec fn has_rating(self, sid: Seq<char>, rater: u64) -> bool {
        exists|i: int|
            0 <= i < self.ratings@.len() && self.ratings@[i].session_id@ == sid
                && self.ratings@[i].rater_id == rater
    }

    /// No two ratings share a `(session, rater)` key: a rating is filed at
    /// most once per session and rater.
    pub open spec fn ratings_unique(self) -> bool {
        forall|i: int, j: int|
            0 <= i < j < self.ratings@.len()
                ==> !(self.ratings@[i].session_id@ == self.ratings@[j].session_id@
                    && self.ratings@[i].rater_id == self.ratings@[j].rater_id)
    }

    /// Whether a payee has an aggregate yet.
    pub open spec fn has_aggregate(self, payee: u64) -> bool {
        exists|i: int| 0 <= i < self.aggregates@.len() && self.aggregates@[i].payee_id == payee
    }

    /// The position of the payee's aggregate (meaningful only when it exists
    /// and payees are unique).
    pub open spec fn aggregate_index(self, payee: u64) -> int {
        choose|i: int| 0 <= i < self.aggregates@.len() && self.aggregates@[i].payee_id == payee
    }

    /// The payee's aggregate.
    pub open spec fn aggregate_of(self, payee: u64) -> AggregateRating {
        self.aggregates@[self.aggregate_index(payee)]
    }

    /// No two aggregates belong to the same payee.
    pub open spec fn aggregates_unique(self) -> bool {
        forall|i: int, j: int|
            0 <= i < j < self.aggregates@.len()
                ==> self.aggregates@[i].payee_id != self.aggregates@[j].payee_id
    }

    /// Every aggregate is internally consistent.
    pub open spec fn aggregates_wf(self) -> bool {
        forall|i: int| 0 <= i < self.aggregates@.len() ==> self.aggregates@[i].agg_wf()
    }

    /// Every aggregate is exactly the tally of the filed ratings of its
    /// payee, and a payee without an aggregate has no filed rating: the
    /// average is derived from the records, never drifts from them.
    pub open spec fn aggregates_match_ratings(self) -> bool {
        &&& forall|i: int|
            0 <= i < self.aggregates@.len() ==> aggregate_matches(
                #[trigger] self.aggregates@[i],
                self.ratings@,
            )
        &&& forall|p: u64|
            !self.has_aggregate(p) ==> #[trigger] payee_count(self.ratings@, p) == 0
    }

    /// The accumulators of the payee's aggregate can still absorb one rating
    /// without leaving the machine's integers.
    pub open spec fn rating_headroom(self, payee: u64) -> bool {
        self.has_aggregate(payee) ==> {
            &&& self.aggregate_of(payee).total_count + 1 <= u64::MAX
            &&& (self.aggregate_of(payee).total_score_sum + 5) * 100 <= u64::MAX
        }
    }

    /// The escrow a rating for session `sid` refers to.
    pub open spec fn session_escrow(self, sid: Seq<char>) -> Option<EscrowRecord> {
        first_by_session(self.escrows@, sid)
    }

    /// Whether the escrow of session `sid` exists and has released its funds,
    /// which alone authorizes ratings for the session.
    pub open spec fn rating_released(self, sid: Seq<char>) -> bool {
        match self.session_escrow(sid) {
            Some(rec) => rec.status == EscrowStatus::Released,
            None => false,
        }
    }

    /// Whether `rater` is the payer recorded in the escrow of session `sid`;
    /// only the payer may rate.
    pub open spec fn rating_authorized(self, sid: Seq<char>, rater: u64) -> bool {
        match self.session_escrow(sid) {
            Some(rec) => rec.payer_id == rater,
            None => false,
        }
    }

    /// How a successful `submit_rating` changes the service: one rating
    /// record appears, and the payee's aggregate absorbs the score.
    pub open spec fn rating_transition(
        pre: Self,
        post: Self,
        session_id: String,
        rater_id: u64,
        payee_id: u64,
        score: u8,
        comment: String,
        now: u64,
    ) -> bool {
        &&& post.escrows@ == pre.escrows@
        &&& post.ledger == pre.ledger
        &&& post.ratings@ == pre.ratings@.push(
            RatingRecord { payee_id, rater_id, session_id, score, comment, created_at: now },
        )
        &&& post.has_aggregate(payee_id)
        &&& post.aggregate_of(payee_id) == (if pre.has_aggregate(payee_id) {
            pre.aggregate_of(payee_id).with_score(score)
        } else {
            AggregateRating::spec_first(payee_id, score)
        })
        &&& forall|p2: u64|
            p2 != payee_id ==> {
                &&& #[trigger] post.has_aggregate(p2) == pre.has_aggregate(p2)
                &&& (pre.has_aggregate(p2) ==> post.aggregate_of(p2) == pre.aggregate_of(p2))
            }
    }

    /// The position of the first escrow of session `session_id`, if any.
    fn find_by_session(&self, session_id: &String) -> (r: Option<usize>)
        ensures
            match r {
                Some(i) => i < self.escrows@.len()
                    && self.session_escrow(session_id@) == Some(self.escrows@[i as int]),
                None => self.session_escrow(session_id@) is None,
            },
    {
        let mut i: usize = 0;
        while i < self.escrows.len()
            invariant
                i <= self.escrows@.len(),
                forall|j: int| 0 <= j < i ==> self.escrows@[j].session_id@ != session_id@,
            decreases self.escrows@.len() - i,
        {
            if self.escrows[i].session_id == *session_id {
                proof {
                    lemma_first_by_session_at(self.escrows@, session_id@, i as int);
                }
                return Some(i);
            }
            i = i + 1;
        }
        proof {
            lemma_first_by_session_none(self.escrows@, session_id@);
        }
        None
    }

    /// Whether a rating is already filed under `(session_id, rater_id)`.
    fn rating_exists(&self, session_id: &String, rater_id: u64) -> (r: bool)
        ensures
            r == self.has_rating(session_id@, rater_id),
    {
        let mut i: usize = 0;
        while i < self.ratings.len()
            invariant
                i <= self.ratings@.len(),
                forall|j: int|
                    0 <= j < i ==> !(self.ratings@[j].session_id@ == session_id@
                        && self.ratings@[j].rater_id == rater_id),
            decreases self.ratings@.len() - i,
        {
            if self.ratings[i].session_id == *session_id && self.ratings[i].rater_id == rater_id {
                return true;
            }
            i = i + 1;
        }
        false
    }

    /// The position of the payee's aggregate, if any.
    fn find_aggregate(&self, payee_id: u64) -> (r: Option<usize>)
        ensures
            match r {
                Some(i) => i < self.aggregates@.len()
                    && self.aggregates@[i as int].payee_id == payee_id,
                None => forall|j: int|
                    0 <= j < self.aggregates@.len() ==> self.aggregates@[j].payee_id != payee_id,
            },
    {
        let mut i: usize = 0;
        while i < self.aggregates.len()
            invariant
                i <= self.aggregates@.len(),
                forall|j: int| 0 <= j < i ==> self.aggregates@[j].payee_id != payee_id,
            decreases self.aggregates@.len() - i,
        {
            if self.aggregates[i].payee_id == payee_id {
                return Some(i);
            }
            i = i + 1;
        }
        None
    }

    /// The payee's aggregate rating, if any rating was filed for the payee.
    pub fn get_aggregate(&self, payee_id: u64) -> (r: Option<AggregateRating>)
        requires
            self.wf(),
        ensures
            match r {
                Some(a) => self.has_aggregate(payee_id) && a == self.aggregate_of(payee_id),
                None => !self.has_aggregate(payee_id),
            },
    {
        match self.find_aggregate(payee_id) {
            Some(i) => {
                proof {
                    lemma_aggregate_index_is(*self, i as int, payee_id);
                }
                Some(self.aggregates[i])
            }
            None => None,
        }
    }

    /// Files the rating `score` for the payee of session `session_id`.
    /// The score must lie in 1..=5 (`InvalidScore`); the escrow the session
    /// refers to must exist and be `Released` (`PaymentNotReleased`); the
    /// rater must be the payer recorded there (`Unauthorized`); and at most
    /// one rating per `(session, rater)` pair is accepted
    /// (`DuplicateRating`).  On success the rating is recorded and the
    /// payee's aggregate absorbs the score; any failure changes nothing.
    #[verifier::rlimit(30)]
    pub fn submit_rating(
        &mut self,
        session_id: &String,
        rater_id: u64,
        payee_id: u64,
        score: u8,
        comment: String,
        now: u64,
    ) -> (r: Result<(), EscrowError>)
        requires
            old(self).wf(),
            old(self).rating_headroom(payee_id),
        ensures
            final(self).wf(),
            r == Err::<(), EscrowError>(EscrowError::InvalidScore) <==> !(1 <= score <= 5),
            r == Err::<(), EscrowError>(EscrowError::PaymentNotReleased)
                <==> 1 <= score <= 5 && !old(self).rating_released(session_id@),
            r == Err::<(), EscrowError>(EscrowError::Unauthorized)
                <==> 1 <= score <= 5 && old(self).rating_released(session_id@)
                    && !old(self).rating_authorized(session_id@, rater_id),
            r == Err::<(), EscrowError>(EscrowError::DuplicateRating)
                <==> 1 <= score <= 5 && old(self).rating_released(session_id@)
                    && old(self).rating_authorized(session_id@, rater_id)
                    && old(self).has_rating(session_id@, rater_id),
            r.is_ok() <==> 1 <= score <= 5 && old(self).rating_released(session_id@)
                && old(self).rating_authorized(session_id@, rater_id)
                && !old(self).has_rating(session_id@, rater_id),
            r.is_err() ==> *final(self) == *old(self),
            r.is_ok() ==> Self::rating_transition(
                *old(self),
                *final(self),
                *session_id,
                rater_id,
                payee_id,
                score,
                comment,
                now,
            ),
    {
        if score < 1 || score > 5 {
            return Err(EscrowError::InvalidScore);
        }
        let e_idx = match self.find_by_session(session_id) {
            Some(i) => i,
            None => {
                return Err(EscrowError::PaymentNotReleased);
            }
        };
        if self.escrows[e_idx].status != EscrowStatus::Released {
            return Err(EscrowError::PaymentNotReleased);
        }
        if self.escrows[e_idx].payer_id != rater_id {
            return Err(EscrowError::Unauthorized);
        }
        if self.rating_exists(session_id, rater_id) {
            return Err(EscrowError::DuplicateRating);
        }
        let record = RatingRecord {
            payee_id,
            rater_id,
            session_id: session_id.clone(),
            score,
            comment,
            created_at: now,
        };
        self.ratings.push(record);
        proof {
            assert forall|i: int, j: int| 0 <= i < j < self.ratings@.len() implies
                !(self.ratings@[i].session_id@ == self.ratings@[j].session_id@
                    && self.ratings@[i].rater_id == self.ratings@[j].rater_id) by {
                if j < old(self).ratings@.len() {
                    assert(self.ratings@[i] == old(self).ratings@[i]);
                    assert(self.ratings@[j] == old(self).ratings@[j]);
                } else {
                    assert(self.ratings@[i] == old(self).ratings@[i]);
                    if self.ratings@[i].session_id@ == session_id@
                        && self.ratings@[i].rater_id == rater_id {
                        assert(old(self).has_rating(session_id@, rater_id));
                    }
                }
            }
        }
        match self.find_aggregate(payee_id) {
            Some(a_idx) => {
                proof {
                    lemma_aggregate_index_is(*self, a_idx as int, payee_id);
                    lemma_aggregate_index_is(*old(self), a_idx as int, payee_id);
                }
                let agg = self.aggregates[a_idx];
                let count = agg.total_count + 1;
                let sum = agg.total_score_sum + (score as u64);
                let average = (sum * 100) / count;
                self.aggregates[a_idx] = AggregateRating {
                    payee_id,
                    total_count: count,
                    total_score_sum: sum,
                    average_scaled: average,
                };
                proof {
                    lemma_aggregates_after_update(*old(self), *self, a_idx as int);
                    assert(self.ratings@.last().payee_id == payee_id);
                    assert(self.ratings@.last().score == score);
                    lemma_tallies_after_absorb(*old(self), *self, a_idx as int);
                    assert(count == old(self).aggregate_of(payee_id).total_count + 1);
                    assert(sum == old(self).aggregate_of(payee_id).total_score_sum + score);
                    assert(average == (sum * 100) as int / (count as int));
                    assert(self.aggregate_of(payee_id)
                        == old(self).aggregate_of(payee_id).with_score(score));
                }
            }
            None => {
                let average = (score as u64) * 100;
                self.aggregates.push(AggregateRating {
                    payee_id,
                    total_count: 1,
                    total_score_sum: score as u64,
                    average_scaled: average,
                });
                proof {
                    assert(!old(self).has_aggregate(payee_id));
                    lemma_aggregates_after_push(*old(self), *self);
                    assert(self.ratings@.last().payee_id == payee_id);
                    assert(self.ratings@.last().score == score);
                    lemma_tallies_after_first(*old(self), *self);
                    assert(self.aggregate_of(payee_id)
                        == AggregateRating::spec_first(payee_id, score));
                }
            }
        }
        Ok(())
    }
}

/// A position whose aggregate belongs to `payee` is the position
/// `aggregate_index` picks, once payees are unique.
pub proof fn lemma_aggregate_index_is(s: EscrowService, i: int, payee: u64)
    requires
        s.aggregates_unique(),
        0 <= i < s.aggregates@.len(),
        s.aggregates@[i].payee_id == payee,
    ensures
        s.has_aggregate(payee),
        s.aggregate_index(payee) == i,
        s.aggregate_of(payee) == s.aggregates@[i],
{
    assert(s.has_aggregate(payee));
    let j = s.aggregate_index(payee);
    assert(0 <= j < s.aggregates@.len() && s.aggregates@[j].payee_id == payee);
    if i < j {
        assert(s.aggregates@[i].payee_id != s.aggregates@[j].payee_id);
    } else if j < i {
        assert(s.aggregates@[j].payee_id != s.aggregates@[i].payee_id);
    }
}

/// Replacing the aggregate at one position, keeping its payee, changes that
/// payee's aggregate alone.
pub proof fn lemma_aggregates_after_update(pre: EscrowService, post: EscrowService, i: int)
    requires
        pre.aggregates_unique(),
        0 <= i < pre.aggregates@.len(),
        post.aggregates@.len() == pre.aggregates@.len(),
        post.aggregates@[i].payee_id == pre.aggregates@[i].payee_id,
        forall|j: int|
            0 <= j < pre.aggregates@.len() && j != i ==> post.aggregates@[j] == pre.aggregates@[j],
    ensures
        post.aggregates_unique(),
        post.has_aggregate(pre.aggregates@[i].payee_id),
        post.aggregate_of(pre.aggregates@[i].payee_id) == post.aggregates@[i],
        forall|p2: u64|
            p2 != pre.aggregates@[i].payee_id ==> {
                &&& #[trigger] post.has_aggregate(p2) == pre.has_aggregate(p2)
                &&& (pre.has_aggregate(p2) ==> post.aggregate_of(p2) == pre.aggregate_of(p2))
            },
{
    let payee = pre.aggregates@[i].payee_id;
    assert forall|p: int, q: int| 0 <= p < q < post.aggregates@.len() implies
        post.aggregates@[p].payee_id != post.aggregates@[q].payee_id by {
        assert(pre.aggregates@[p].payee_id != pre.aggregates@[q].payee_id);
    }
    lemma_aggregate_index_is(post, i, payee);
    assert forall|p2: u64| p2 != payee implies
        (#[trigger] post.has_aggregate(p2) == pre.has_aggregate(p2)
            && (pre.has_aggregate(p2) ==> post.aggregate_of(p2) == pre.aggregate_of(p2))) by {
        if pre.has_aggregate(p2) {
            let j = pre.aggregate_index(p2);
            lemma_aggregate_index_is(pre, j, p2);
            assert(j != i);
            assert(post.aggregates@[j].payee_id == p2);
            lemma_aggregate_index_is(post, j, p2);
        }
        if post.has_aggregate(p2) {
            let j = post.aggregate_index(p2);
            lemma_aggregate_index_is(post, j, p2);
            assert(j != i);
            assert(pre.aggregates@[j].payee_id == p2);
            lemma_aggregate_index_is(pre, j, p2);
        }
    }
}

/// Appending an aggregate for a fresh payee gives that payee its aggregate
/// and leaves every other payee's as it was.
pub proof fn lemma_aggregates_after_push(pre: EscrowService, post: EscrowService)
    requires
        pre.aggregates_unique(),
        post.aggregates@.len() == pre.aggregates@.len() + 1,
        forall|j: int| 0 <= j < pre.aggregates@.len() ==> post.aggregates@[j] == pre.aggregates@[j],
        !pre.has_aggregate(post.aggregates@[pre.aggregates@.len() as int].payee_id),
    ensures
        post.aggregates_unique(),
        post.has_aggregate(post.aggregates@[pre.aggregates@.len() as int].payee_id),
        post.aggregate_of(post.aggregates@[pre.aggregates@.len() as int].payee_id)
            == post.aggregates@[pre.aggregates@.len() as int],
        forall|p2: u64|
            p2 != post.aggregates@[pre.aggregates@.len() as int].payee_id ==> {
                &&& #[trigger] post.has_aggregate(p2) == pre.has_aggregate(p2)
                &&& (pre.has_aggregate(p2) ==> post.aggregate_of(p2) == pre.aggregate_of(p2))
            },
{
    let n = pre.aggregates@.len() as int;
    let payee = post.aggregates@[n].payee_id;
    assert forall|p: int, q: int| 0 <= p < q < post.aggregates@.len() implies
        post.aggregates@[p].payee_id != post.aggregates@[q].payee_id by {
        if q < n {
            assert(pre.aggregates@[p].payee_id != pre.aggregates@[q].payee_id);
        } else {
            assert(post.aggregates@[p] == pre.aggregates@[p]);
            if pre.aggregates@[p].payee_id == payee {
                assert(pre.has_aggregate(payee));
            }
        }
    }
    lemma_aggregate_index_is(post, n, payee);
    assert forall|p2: u64| p2 != payee implies
        (#[trigger] post.has_aggregate(p2) == pre.has_aggregate(p2)
            && (pre.has_aggregate(p2) ==> post.aggregate_of(p2) == pre.aggregate_of(p2))) by {
        if pre.has_aggregate(p2) {
            let j = pre.aggregate_index(p2);
            lemma_aggregate_index_is(pre, j, p2);
            assert(post.aggregates@[j].payee_id == p2);
            lemma_aggregate_index_is(post, j, p2);
        }
        if post.has_aggregate(p2) {
            let j = post.aggregate_index(p2);
            lemma_aggregate_index_is(post, j, p2);
            assert(j != n);
            assert(pre.aggregates@[j].payee_id == p2);
            lemma_aggregate_index_is(pre, j, p2);
        }
    }
}

} // verus!
