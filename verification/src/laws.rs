//! The guarantees that relate several operations, stated and proved once and
//! for all inputs.  Each law is phrased over the transition predicates and
//! spec functions that the operations' own contracts use, so together with
//! those contracts it pins down what a sequence of calls can do.

use vstd::prelude::*;

use crate::escrow::EscrowRecord;
use crate::escrow::EscrowStatus;
use crate::escrow::outstanding;
use crate::rating::aggregate_matches;
use crate::rating::payee_count;
use crate::rating::payee_score_sum;
use crate::service::EscrowService;

verus! {

/// A successful `open_escrow` occupies its key: an immediately repeated
/// `open_escrow` with the same `(session, payer)` pair finds the key taken,
/// and by `open_escrow`'s contract it then reports `DuplicateSession`.  Of
/// two same-key opens, exactly one succeeds.
pub proof fn lemma_second_open_is_duplicate(
    pre: EscrowService,
    post: EscrowService,
    session_id: String,
    payer_id: u64,
    payee_id: u64,
    amount: u64,
    now: u64,
)
    requires
        EscrowService::open_transition(pre, post, session_id, payer_id, payee_id, amount, now),
    ensures
        post.has_escrow(session_id@, payer_id),
{
    assert(post.escrows@[pre.escrows@.len() as int].key_is(session_id@, payer_id));
}

/// A confirmation ratchets the record to `AwaitingConfirmation`, whatever its
/// prior active status, and marks the acting party; by `confirm`'s contract
/// the same party's repeated `confirm` then reports `AlreadyConfirmed`.
pub proof fn lemma_second_confirm_is_rejected(
    pre: EscrowService,
    post: EscrowService,
    sid: Seq<char>,
    payer: u64,
    actor_is_payer: bool,
    now: u64,
)
    requires
        pre.wf(),
        pre.active_escrow(sid, payer),
        EscrowService::confirm_transition(pre, post, sid, payer, actor_is_payer, now),
    ensures
        post.escrow_of(sid, payer).status == EscrowStatus::AwaitingConfirmation,
        post.active_escrow(sid, payer),
        post.escrow_of(sid, payer).confirmed_flag(actor_is_payer),
{
}

/// When an escrow is settleable: at or after the deadline it is settleable
/// whatever the confirmations say; once both parties have confirmed it is
/// settleable even strictly before the deadline; and strictly before the
/// deadline with a confirmation missing it is not.
pub proof fn lemma_settleable_conditions(rec: EscrowRecord, now: u64)
    ensures
        now >= rec.confirmation_deadline ==> rec.settleable_at(now),
        rec.confirmed_by_payer && rec.confirmed_by_payee ==> rec.settleable_at(now),
        now < rec.confirmation_deadline && !(rec.confirmed_by_payer && rec.confirmed_by_payee)
            ==> !rec.settleable_at(now),
{
}

/// A settled escrow is terminal: after a successful `settle` the record is
/// `Released` and no longer active, so by the contracts a second `settle`
/// reports `AlreadySettled` and a payer's `cancel` reports `InvalidState`.
pub proof fn lemma_settled_is_terminal(
    pre: EscrowService,
    post: EscrowService,
    sid: Seq<char>,
    payer: u64,
    now: u64,
)
    requires
        pre.wf(),
        pre.active_escrow(sid, payer),
        EscrowService::settle_transition(pre, post, sid, payer, now),
    ensures
        post.has_escrow(sid, payer),
        post.escrow_of(sid, payer).status == EscrowStatus::Released,
        !post.active_escrow(sid, payer),
{
}

/// A cancelled escrow is terminal the same way: neither `settle` nor a
/// second `cancel` can act on it.
pub proof fn lemma_cancelled_is_terminal(
    pre: EscrowService,
    post: EscrowService,
    sid: Seq<char>,
    payer: u64,
)
    requires
        pre.wf(),
        pre.active_escrow(sid, payer),
        EscrowService::cancel_transition(pre, post, sid, payer),
    ensures
        post.has_escrow(sid, payer),
        post.escrow_of(sid, payer).status == EscrowStatus::Cancelled,
        !post.active_escrow(sid, payer),
{
}

/// The custody invariant: in a well-formed service the funds in the custody
/// holding balance equal the sum of the amounts of the escrows that are
/// neither released nor cancelled.  Every operation requires and
/// re-establishes well-formedness, so this holds before and after each one.
pub proof fn lemma_custody_invariant(s: EscrowService)
    requires
        s.wf(),
    ensures
        s.ledger.custody == outstanding(s.escrows@),
{
}

/// An aggregate never drifts from the filed ratings: in a well-formed
/// service a payee's count and sum are exactly the tallies over that payee's
/// rating records, and the scaled average is their integer quotient.  After
/// ratings of 5, 3 and 4 the average therefore reads 400, a plain 4.0.
pub proof fn lemma_average_is_derived(s: EscrowService, payee: u64)
    requires
        s.wf(),
        s.has_aggregate(payee),
    ensures
        s.aggregate_of(payee).total_count == payee_count(s.ratings@, payee),
        s.aggregate_of(payee).total_score_sum == payee_score_sum(s.ratings@, payee),
        s.aggregate_of(payee).average_scaled == (payee_score_sum(s.ratings@, payee) * 100)
            / payee_count(s.ratings@, payee),
{
    let i = s.aggregate_index(payee);
    assert(0 <= i < s.aggregates@.len() && s.aggregates@[i].payee_id == payee);
    assert(aggregate_matches(s.aggregates@[i], s.ratings@));
    assert(s.aggregates@[i].agg_wf());
}

/// A filed rating occupies its `(session, rater)` key, so by
/// `submit_rating`'s contract an immediately repeated submission reports
/// `DuplicateRating`: a rating succeeds at most once per key.
pub proof fn lemma_second_rating_is_duplicate(
    pre: EscrowService,
    post: EscrowService,
    session_id: String,
    rater_id: u64,
    payee_id: u64,
    score: u8,
    comment: String,
    now: u64,
)
    requires
        EscrowService::rating_transition(
            pre,
            post,
            session_id,
            rater_id,
            payee_id,
            score,
            comment,
            now,
        ),
    ensures
        post.has_rating(session_id@, rater_id),
{
    assert(post.ratings@[pre.ratings@.len() as int].session_id@ == session_id@
        && post.ratings@[pre.ratings@.len() as int].rater_id == rater_id);
}

} // verus!
