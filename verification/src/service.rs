//! The escrow state machine over a keyed store of records, a custody ledger,
//! and the rating stores.  Every operation is validated before anything is
//! mutated, and a record mutation happens only together with the fund
//! movement it stands for, so the custody balance always equals the sum of
//! the amounts still held by active escrows.

use vstd::prelude::*;

use crate::errors::EscrowError;
use crate::escrow::CONFIRMATION_WINDOW_SECS;
use crate::escrow::EscrowRecord;
use crate::escrow::EscrowStatus;
use crate::escrow::contribution;
use crate::escrow::lemma_outstanding_covers;
use crate::escrow::lemma_outstanding_push;
use crate::escrow::lemma_outstanding_update;
use crate::escrow::outstanding;
use crate::ledger::CustodyLedger;
use crate::rating::AggregateRating;
use crate::rating::RatingRecord;
use crate::rating::lemma_tallies_unchanged;

verus! {

/// The whole service: escrow records, the custody ledger they are backed by,
/// the filed ratings, and the per-payee aggregates.
pub struct EscrowService {
    pub escrows: Vec<EscrowRecord>,
    pub ledger: CustodyLedger,
    pub ratings: Vec<RatingRecord>,
    pub aggregates: Vec<AggregateRating>,
}

impl EscrowService {
    /// Whether an escrow exists for the key `(sid, payer)`.
    pub open spec fn has_escrow(self, sid: Seq<char>, payer: u64) -> bool {
        exists|i: int| 0 <= i < self.escrows@.len() && self.escrows@[i].key_is(sid, payer)
    }

    /// The position of the escrow with key `(sid, payer)` (meaningful only
    /// when it exists and keys are unique).
    pub open spec fn escrow_index(self, sid: Seq<char>, payer: u64) -> int {
        choose|i: int| 0 <= i < self.escrows@.len() && self.escrows@[i].key_is(sid, payer)
    }

    /// The escrow stored under `(sid, payer)`.
    pub open spec fn escrow_of(self, sid: Seq<char>, payer: u64) -> EscrowRecord {
        self.escrows@[self.escrow_index(sid, payer)]
    }

    /// Whether an escrow exists under `(sid, payer)` and still admits
    /// transitions.
    pub open spec fn active_escrow(self, sid: Seq<char>, payer: u64) -> bool {
        self.has_escrow(sid, payer) && self.escrow_of(sid, payer).is_active()
    }

    /// No two records share a `(session, payer)` key, so a key can never be
    /// created twice and denotes at most one record.
    pub open spec fn escrows_unique(self) -> bool {
        forall|i: int, j: int|
            0 <= i < j < self.escrows@.len()
                ==> !(self.escrows@[i].session_id@ == self.escrows@[j].session_id@
                    && self.escrows@[i].payer_id == self.escrows@[j].payer_id)
    }

    /// Every stored record is internally consistent.
    pub open spec fn records_wf(self) -> bool {
        forall|i: int| 0 <= i < self.escrows@.len() ==> self.escrows@[i].record_wf()
    }

    /// The custody holding balance equals the sum of the amounts of the
    /// active (neither released nor cancelled) escrows.
    pub open spec fn custody_matches(self) -> bool {
        self.ledger.custody == outstanding(self.escrows@)
    }

    /// Well-formedness of the whole service; established by `new` and
    /// preserved by every operation.
    pub open spec fn wf(self) -> bool {
        &&& self.escrows_unique()
        &&& self.records_wf()
        &&& self.ledger.wf()
        &&& self.custody_matches()
        &&& self.ratings_unique()
        &&& self.aggregates_unique()
        &&& self.aggregates_wf()
        &&& self.aggregates_match_ratings()
    }

    /// How a successful `open_escrow` changes the service.
    pub open spec fn open_transition(
        pre: Self,
        post: Self,
        session_id: String,
        payer_id: u64,
        payee_id: u64,
        amount: u64,
        now: u64,
    ) -> bool {
        &&& post.escrows@ == pre.escrows@.push(
            EscrowRecord::spec_open_record(session_id, payer_id, payee_id, amount, now),
        )
        &&& post.ledger.custody == pre.ledger.custody + amount
        &&& post.ledger.balance_of(payer_id) == pre.ledger.balance_of(payer_id) - amount
        &&& forall|a: u64|
            a != payer_id ==> post.ledger.balance_of(a) == pre.ledger.balance_of(a)
        &&& post.ratings@ == pre.ratings@
        &&& post.aggregates@ == pre.aggregates@
    }

    /// How a successful `confirm` changes the service: only the one record
    /// changes, and only as the confirmation ratchet says.
    pub open spec fn confirm_transition(
        pre: Self,
        post: Self,
        sid: Seq<char>,
        payer: u64,
        actor_is_payer: bool,
        now: u64,
    ) -> bool {
        &&& post.escrows@.len() == pre.escrows@.len()
        &&& post.has_escrow(sid, payer)
        &&& post.escrow_of(sid, payer) == pre.escrow_of(sid, payer).with_confirm(
            actor_is_payer,
            now,
        )
        &&& Self::other_escrows_unchanged(pre, post, sid, payer)
        &&& post.ledger == pre.ledger
        &&& post.ratings@ == pre.ratings@
        &&& post.aggregates@ == pre.aggregates@
    }

    /// How a successful `settle` changes the service: the record is released
    /// and its amount moves from custody to the payee, atomically.
    pub open spec fn settle_transition(
        pre: Self,
        post: Self,
        sid: Seq<char>,
        payer: u64,
        now: u64,
    ) -> bool {
        let rec = pre.escrow_of(sid, payer);
        &&& post.escrows@.len() == pre.escrows@.len()
        &&& post.has_escrow(sid, payer)
        &&& post.escrow_of(sid, payer) == rec.with_release(now)
        &&& Self::other_escrows_unchanged(pre, post, sid, payer)
        &&& post.ledger.custody == pre.ledger.custody - rec.amount
        &&& post.ledger.balance_of(rec.payee_id)
            == pre.ledger.balance_of(rec.payee_id) + rec.amount
        &&& forall|a: u64|
            a != rec.payee_id ==> post.ledger.balance_of(a) == pre.ledger.balance_of(a)
        &&& post.ratings@ == pre.ratings@
        &&& post.aggregates@ == pre.aggregates@
    }

    /// How a successful `cancel` changes the service: the record is cancelled
    /// and its amount moves from custody back to the payer, atomically.
    pub open spec fn cancel_transition(pre: Self, post: Self, sid: Seq<char>, payer: u64) -> bool {
        let rec = pre.escrow_of(sid, payer);
        &&& post.escrows@.len() == pre.escrows@.len()
        &&& post.has_escrow(sid, payer)
        &&& post.escrow_of(sid, payer) == rec.with_cancel()
        &&& Self::other_escrows_unchanged(pre, post, sid, payer)
        &&& post.ledger.custody == pre.ledger.custody - rec.amount
        &&& post.ledger.balance_of(payer) == pre.ledger.balance_of(payer) + rec.amount
        &&& forall|a: u64| a != payer ==> post.ledger.balance_of(a) == pre.ledger.balance_of(a)
        &&& post.ratings@ == pre.ratings@
        &&& post.aggregates@ == pre.aggregates@
    }

    /// Every escrow under a key other than `(sid, payer)` is exactly as it
    /// was.
    pub open spec fn other_escrows_unchanged(
        pre: Self,
        post: Self,
        sid: Seq<char>,
        payer: u64,
    ) -> bool {
        forall|s2: Seq<char>, p2: u64|
            !(s2 == sid && p2 == payer) ==> {
                &&& #[trigger] post.has_escrow(s2, p2) == pre.has_escrow(s2, p2)
                &&& (pre.has_escrow(s2, p2) ==> post.escrow_of(s2, p2) == pre.escrow_of(s2, p2))
            }
    }

    /// An empty service: no escrows, no funds, no ratings.
    pub fn new() -> (s: Self)
        ensures
            s.wf(),
            s.escrows@.len() == 0,
            s.ratings@.len() == 0,
            s.aggregates@.len() == 0,
            s.ledger.custody == 0,
            forall|a: u64| s.ledger.balance_of(a) == 0,
    {
        EscrowService {
            escrows: Vec::new(),
            ledger: CustodyLedger::new(),
            ratings: Vec::new(),
            aggregates: Vec::new(),
        }
    }

    /// Puts `amount` fresh units into the account `id`, outside any escrow;
    /// this is how payers come to hold funds that can be deposited.
    pub fn fund_account(&mut self, id: u64, amount: u64) -> (r: Result<(), EscrowError>)
        requires
            old(self).wf(),
        ensures
            final(self).wf(),
            final(self).escrows@ == old(self).escrows@,
            final(self).ratings@ == old(self).ratings@,
            final(self).aggregates@ == old(self).aggregates@,
            final(self).ledger.custody == old(self).ledger.custody,
            r.is_ok() <==> old(self).ledger.balance_of(id) + amount <= u64::MAX,
            r.is_err() ==> r == Err::<(), EscrowError>(EscrowError::TransferFailed)
                && *final(self) == *old(self),
            r.is_ok() ==> final(self).ledger.balance_of(id)
                == old(self).ledger.balance_of(id) + amount,
            forall|a: u64|
                a != id ==> final(self).ledger.balance_of(a) == old(self).ledger.balance_of(a),
    {
        let r = self.ledger.fund(id, amount);
        proof {
            lemma_tallies_unchanged(*old(self), *self);
        }
        r
    }

    /// The position of the escrow keyed `(session_id, payer_id)`, if any.
    fn find_escrow(&self, session_id: &String, payer_id: u64) -> (r: Option<usize>)
        ensures
            match r {
                Some(i) => i < self.escrows@.len()
                    && self.escrows@[i as int].key_is(session_id@, payer_id),
                None => forall|j: int|
                    0 <= j < self.escrows@.len()
                        ==> !self.escrows@[j].key_is(session_id@, payer_id),
            },
    {
        let mut i: usize = 0;
        while i < self.escrows.len()
            invariant
                i <= self.escrows@.len(),
                forall|j: int| 0 <= j < i ==> !self.escrows@[j].key_is(session_id@, payer_id),
            decreases self.escrows@.len() - i,
        {
            if self.escrows[i].session_id == *session_id && self.escrows[i].payer_id == payer_id {
                return Some(i);
            }
            i = i + 1;
        }
        None
    }

    /// The escrow stored under `(session_id, payer_id)`, if any.
    pub fn get_escrow(&self, session_id: &String, payer_id: u64) -> (r: Option<&EscrowRecord>)
        requires
            self.wf(),
        ensures
            match r {
                Some(rec) => self.has_escrow(session_id@, payer_id)
                    && *rec == self.escrow_of(session_id@, payer_id),
                None => !self.has_escrow(session_id@, payer_id),
            },
    {
        match self.find_escrow(session_id, payer_id) {
            Some(i) => {
                proof {
                    lemma_escrow_index_is(*self, i as int, session_id@, payer_id);
                }
                Some(&self.escrows[i])
            }
            None => None,
        }
    }

    /// Opens an escrow for `(session_id, payer_id)`: exactly when no escrow
    /// exists under that key and the ledger can move `amount` from the payer
    /// into custody, a fresh `Locked` record is created whose deadline lies
    /// one confirmation window after `now`.  Creation and deposit are atomic:
    /// on any failure nothing changes.
    pub fn open_escrow(
        &mut self,
        session_id: String,
        payer_id: u64,
        payee_id: u64,
        amount: u64,
        now: u64,
    ) -> (r: Result<(), EscrowError>)
        requires
            old(self).wf(),
            now + CONFIRMATION_WINDOW_SECS <= u64::MAX,
        ensures
            final(self).wf(),
            r == Err::<(), EscrowError>(EscrowError::DuplicateSession)
                <==> old(self).has_escrow(session_id@, payer_id),
            r == Err::<(), EscrowError>(EscrowError::InsufficientFunds)
                <==> !old(self).has_escrow(session_id@, payer_id)
                    && old(self).ledger.balance_of(payer_id) < amount,
            r == Err::<(), EscrowError>(EscrowError::TransferFailed)
                <==> !old(self).has_escrow(session_id@, payer_id)
                    && old(self).ledger.balance_of(payer_id) >= amount
                    && old(self).ledger.custody + amount > u64::MAX,
            r.is_ok() <==> !old(self).has_escrow(session_id@, payer_id)
                && old(self).ledger.balance_of(payer_id) >= amount
                && old(self).ledger.custody + amount <= u64::MAX,
            r.is_err() ==> *final(self) == *old(self),
            r.is_ok() ==> Self::open_transition(
                *old(self),
                *final(self),
                session_id,
                payer_id,
                payee_id,
                amount,
                now,
            ),
    {
        if self.find_escrow(&session_id, payer_id).is_some() {
            return Err(EscrowError::DuplicateSession);
        }
        match self.ledger.deposit(payer_id, amount) {
            Err(e) => {
                return Err(e);
            }
            Ok(()) => {}
        }
        let record = EscrowRecord {
            session_id,
            payer_id,
            payee_id,
            amount,
            status: EscrowStatus::Locked,
            confirmed_by_payer: false,
            confirmed_by_payee: false,
            payer_confirmed_at: None,
            payee_confirmed_at: None,
            created_at: now,
            confirmation_deadline: now + CONFIRMATION_WINDOW_SECS,
            released_at: None,
        };
        self.escrows.push(record);
        proof {
            lemma_escrows_after_push(*old(self), *self);
            lemma_outstanding_push(old(self).escrows@, self.escrows@.last());
            lemma_tallies_unchanged(*old(self), *self);
        }
        Ok(())
    }

    /// Records the confirmation of one party on the escrow `(session_id,
    /// payer_id)`.  It fails with `InvalidState` when no such active escrow
    /// exists, with `AlreadyConfirmed` when the calling party has confirmed
    /// before; otherwise the party's flag and timestamp are set and the
    /// status ratchets to `AwaitingConfirmation`, already on the first
    /// confirmation.
    pub fn confirm(
        &mut self,
        session_id: &String,
        payer_id: u64,
        actor_is_payer: bool,
        now: u64,
    ) -> (r: Result<(), EscrowError>)
        requires
            old(self).wf(),
        ensures
            final(self).wf(),
            r == Err::<(), EscrowError>(EscrowError::InvalidState)
                <==> !old(self).active_escrow(session_id@, payer_id),
            r == Err::<(), EscrowError>(EscrowError::AlreadyConfirmed)
                <==> old(self).active_escrow(session_id@, payer_id)
                    && old(self).escrow_of(session_id@, payer_id).confirmed_flag(actor_is_payer),
            r.is_ok() <==> old(self).active_escrow(session_id@, payer_id)
                && !old(self).escrow_of(session_id@, payer_id).confirmed_flag(actor_is_payer),
            r.is_err() ==> *final(self) == *old(self),
            r.is_ok() ==> Self::confirm_transition(
                *old(self),
                *final(self),
                session_id@,
                payer_id,
                actor_is_payer,
                now,
            ),
    {
        let idx = match self.find_escrow(session_id, payer_id) {
            Some(i) => i,
            None => {
                return Err(EscrowError::InvalidState);
            }
        };
        proof {
            lemma_escrow_index_is(*self, idx as int, session_id@, payer_id);
        }
        let status = self.escrows[idx].status;
        if !(status == EscrowStatus::Locked || status == EscrowStatus::AwaitingConfirmation) {
            return Err(EscrowError::InvalidState);
        }
        let already = if actor_is_payer {
            self.escrows[idx].confirmed_by_payer
        } else {
            self.escrows[idx].confirmed_by_payee
        };
        if already {
            return Err(EscrowError::AlreadyConfirmed);
        }
        let rec = &mut self.escrows[idx];
        rec.status = EscrowStatus::AwaitingConfirmation;
        if actor_is_payer {
            rec.confirmed_by_payer = true;
            rec.payer_confirmed_at = Some(now);
        } else {
            rec.confirmed_by_payee = true;
            rec.payee_confirmed_at = Some(now);
        }
        proof {
            assert(self.escrows@ == old(self).escrows@.update(
                idx as int,
                old(self).escrows@[idx as int].with_confirm(actor_is_payer, now),
            ));
            lemma_escrows_after_update(*old(self), *self, idx as int);
            lemma_outstanding_update(
                old(self).escrows@,
                idx as int,
                self.escrows@[idx as int],
            );
            lemma_tallies_unchanged(*old(self), *self);
        }
        Ok(())
    }

    /// Settles the escrow `(session_id, payer_id)` at time `now`: exactly
    /// when the escrow is still active, the deadline has passed (a call
    /// exactly at the deadline counts) or both parties have confirmed, and
    /// the payee's balance can take the amount, the record becomes
    /// `Released` and its amount moves from custody to the payee.
    /// Settlement and payout are atomic: on any failure nothing changes.
    pub fn settle(&mut self, session_id: &String, payer_id: u64, now: u64) -> (r: Result<
        (),
        EscrowError,
    >)
        requires
            old(self).wf(),
        ensures
            final(self).wf(),
            r == Err::<(), EscrowError>(EscrowError::AlreadySettled)
                <==> !old(self).active_escrow(session_id@, payer_id),
            r == Err::<(), EscrowError>(EscrowError::NotYetSettleable)
                <==> old(self).active_escrow(session_id@, payer_id)
                    && !old(self).escrow_of(session_id@, payer_id).settleable_at(now),
            r == Err::<(), EscrowError>(EscrowError::TransferFailed)
                <==> old(self).active_escrow(session_id@, payer_id)
                    && old(self).escrow_of(session_id@, payer_id).settleable_at(now)
                    && old(self).ledger.balance_of(
                        old(self).escrow_of(session_id@, payer_id).payee_id,
                    ) + old(self).escrow_of(session_id@, payer_id).amount > u64::MAX,
            r.is_ok() <==> old(self).active_escrow(session_id@, payer_id)
                && old(self).escrow_of(session_id@, payer_id).settleable_at(now)
                && old(self).ledger.balance_of(old(self).escrow_of(session_id@, payer_id).payee_id)
                    + old(self).escrow_of(session_id@, payer_id).amount <= u64::MAX,
            r.is_err() ==> *final(self) == *old(self),
            r.is_ok() ==> Self::settle_transition(
                *old(self),
                *final(self),
                session_id@,
                payer_id,
                now,
            ),
    {
        let idx = match self.find_escrow(session_id, payer_id) {
            Some(i) => i,
            None => {
                return Err(EscrowError::AlreadySettled);
            }
        };
        proof {
            lemma_escrow_index_is(*self, idx as int, session_id@, payer_id);
        }
        let status = self.escrows[idx].status;
        if !(status == EscrowStatus::Locked || status == EscrowStatus::AwaitingConfirmation) {
            return Err(EscrowError::AlreadySettled);
        }
        let deadline_passed = now >= self.escrows[idx].confirmation_deadline;
        let both_confirmed = self.escrows[idx].confirmed_by_payer
            && self.escrows[idx].confirmed_by_payee;
        if !(deadline_passed || both_confirmed) {
            return Err(EscrowError::NotYetSettleable);
        }
        let payee = self.escrows[idx].payee_id;
        let amount = self.escrows[idx].amount;
        proof {
            lemma_outstanding_covers(self.escrows@, idx as int);
            assert(contribution(self.escrows@[idx as int]) == amount as int);
        }
        match self.ledger.payout(payee, amount) {
            Err(_) => {
                return Err(EscrowError::TransferFailed);
            }
            Ok(()) => {}
        }
        let rec = &mut self.escrows[idx];
        rec.status = EscrowStatus::Released;
        rec.released_at = Some(now);
        proof {
            assert(self.escrows@ == old(self).escrows@.update(
                idx as int,
                old(self).escrows@[idx as int].with_release(now),
            ));
            lemma_escrows_after_update(*old(self), *self, idx as int);
            lemma_outstanding_update(
                old(self).escrows@,
                idx as int,
                self.escrows@[idx as int],
            );
            lemma_tallies_unchanged(*old(self), *self);
        }
        Ok(())
    }

    /// Cancels the escrow `(session_id, payer_id)` on behalf of `caller_id`.
    /// Only the payer may cancel (`Unauthorized` otherwise), only while the
    /// escrow is still active (`InvalidState` otherwise); then the record
    /// becomes `Cancelled` and its amount moves from custody back to the
    /// payer, atomically with the status change.
    pub fn cancel(&mut self, session_id: &String, payer_id: u64, caller_id: u64) -> (r: Result<
        (),
        EscrowError,
    >)
        requires
            old(self).wf(),
        ensures
            final(self).wf(),
            r == Err::<(), EscrowError>(EscrowError::Unauthorized) <==> caller_id != payer_id,
            r == Err::<(), EscrowError>(EscrowError::InvalidState)
                <==> caller_id == payer_id && !old(self).active_escrow(session_id@, payer_id),
            r == Err::<(), EscrowError>(EscrowError::TransferFailed)
                <==> caller_id == payer_id && old(self).active_escrow(session_id@, payer_id)
                    && old(self).ledger.balance_of(payer_id)
                        + old(self).escrow_of(session_id@, payer_id).amount > u64::MAX,
            r.is_ok() <==> caller_id == payer_id && old(self).active_escrow(session_id@, payer_id)
                && old(self).ledger.balance_of(payer_id)
                    + old(self).escrow_of(session_id@, payer_id).amount <= u64::MAX,
            r.is_err() ==> *final(self) == *old(self),
            r.is_ok() ==> Self::cancel_transition(*old(self), *final(self), session_id@, payer_id),
    {
        if caller_id != payer_id {
            return Err(EscrowError::Unauthorized);
        }
        let idx = match self.find_escrow(session_id, payer_id) {
            Some(i) => i,
            None => {
                return Err(EscrowError::InvalidState);
            }
        };
        proof {
            lemma_escrow_index_is(*self, idx as int, session_id@, payer_id);
        }
        let status = self.escrows[idx].status;
        if !(status == EscrowStatus::Locked || status == EscrowStatus::AwaitingConfirmation) {
            return Err(EscrowError::InvalidState);
        }
        let amount = self.escrows[idx].amount;
        proof {
            lemma_outstanding_covers(self.escrows@, idx as int);
            assert(contribution(self.escrows@[idx as int]) == amount as int);
        }
        match self.ledger.refund(payer_id, amount) {
            Err(_) => {
                return Err(EscrowError::TransferFailed);
            }
            Ok(()) => {}
        }
        let rec = &mut self.escrows[idx];
        rec.status = EscrowStatus::Cancelled;
        proof {
            assert(self.escrows@ == old(self).escrows@.update(
                idx as int,
                old(self).escrows@[idx as int].with_cancel(),
            ));
            lemma_escrows_after_update(*old(self), *self, idx as int);
            lemma_outstanding_update(
                old(self).escrows@,
                idx as int,
                self.escrows@[idx as int],
            );
            lemma_tallies_unchanged(*old(self), *self);
        }
        Ok(())
    }
}

/// A position whose record carries the key `(sid, payer)` is the position
/// `escrow_index` picks, once keys are unique.
pub proof fn lemma_escrow_index_is(s: EscrowService, i: int, sid: Seq<char>, payer: u64)
    requires
        s.escrows_unique(),
        0 <= i < s.escrows@.len(),
        s.escrows@[i].key_is(sid, payer),
    ensures
        s.has_escrow(sid, payer),
        s.escrow_index(sid, payer) == i,
        s.escrow_of(sid, payer) == s.escrows@[i],
{
    assert(s.has_escrow(sid, payer));
    let j = s.escrow_index(sid, payer);
    assert(0 <= j < s.escrows@.len() && s.escrows@[j].key_is(sid, payer));
    if i < j {
        assert(!(s.escrows@[i].session_id@ == s.escrows@[j].session_id@
            && s.escrows@[i].payer_id == s.escrows@[j].payer_id));
    } else if j < i {
        assert(!(s.escrows@[j].session_id@ == s.escrows@[i].session_id@
            && s.escrows@[j].payer_id == s.escrows@[i].payer_id));
    }
}

/// Replacing the record at one position, keeping its key, changes the record
/// under that key alone.
pub proof fn lemma_escrows_after_update(pre: EscrowService, post: EscrowService, i: int)
    requires
        pre.escrows_unique(),
        0 <= i < pre.escrows@.len(),
        post.escrows@.len() == pre.escrows@.len(),
        post.escrows@[i].session_id@ == pre.escrows@[i].session_id@,
        post.escrows@[i].payer_id == pre.escrows@[i].payer_id,
        forall|j: int|
            0 <= j < pre.escrows@.len() && j != i ==> post.escrows@[j] == pre.escrows@[j],
    ensures
        post.escrows_unique(),
        post.has_escrow(pre.escrows@[i].session_id@, pre.escrows@[i].payer_id),
        post.escrow_of(pre.escrows@[i].session_id@, pre.escrows@[i].payer_id)
            == post.escrows@[i],
        EscrowService::other_escrows_unchanged(
            pre,
            post,
            pre.escrows@[i].session_id@,
            pre.escrows@[i].payer_id,
        ),
{
    let sid = pre.escrows@[i].session_id@;
    let payer = pre.escrows@[i].payer_id;
    assert forall|p: int, q: int| 0 <= p < q < post.escrows@.len() implies
        !(post.escrows@[p].session_id@ == post.escrows@[q].session_id@
            && post.escrows@[p].payer_id == post.escrows@[q].payer_id) by {
        assert(post.escrows@[p].session_id@ == pre.escrows@[p].session_id@
            && post.escrows@[p].payer_id == pre.escrows@[p].payer_id);
        assert(post.escrows@[q].session_id@ == pre.escrows@[q].session_id@
            && post.escrows@[q].payer_id == pre.escrows@[q].payer_id);
    }
    lemma_escrow_index_is(post, i, sid, payer);
    assert forall|s2: Seq<char>, p2: u64| !(s2 == sid && p2 == payer) implies
        (#[trigger] post.has_escrow(s2, p2) == pre.has_escrow(s2, p2)
            && (pre.has_escrow(s2, p2) ==> post.escrow_of(s2, p2) == pre.escrow_of(s2, p2))) by {
        if pre.has_escrow(s2, p2) {
            let j = pre.escrow_index(s2, p2);
            lemma_escrow_index_is(pre, j, s2, p2);
            assert(j != i);
            assert(post.escrows@[j].key_is(s2, p2));
            lemma_escrow_index_is(post, j, s2, p2);
        }
        if post.has_escrow(s2, p2) {
            let j = post.escrow_index(s2, p2);
            lemma_escrow_index_is(post, j, s2, p2);
            assert(j != i);
            assert(pre.escrows@[j].key_is(s2, p2));
            lemma_escrow_index_is(pre, j, s2, p2);
        }
    }
}

/// Appending a record with a fresh key gives that key its record and leaves
/// every other key as it was.
pub proof fn lemma_escrows_after_push(pre: EscrowService, post: EscrowService)
    requires
        pre.escrows_unique(),
        post.escrows@.len() == pre.escrows@.len() + 1,
        forall|j: int| 0 <= j < pre.escrows@.len() ==> post.escrows@[j] == pre.escrows@[j],
        !pre.has_escrow(
            post.escrows@[pre.escrows@.len() as int].session_id@,
            post.escrows@[pre.escrows@.len() as int].payer_id,
        ),
    ensures
        post.escrows_unique(),
        post.has_escrow(
            post.escrows@[pre.escrows@.len() as int].session_id@,
            post.escrows@[pre.escrows@.len() as int].payer_id,
        ),
        post.escrow_of(
            post.escrows@[pre.escrows@.len() as int].session_id@,
            post.escrows@[pre.escrows@.len() as int].payer_id,
        ) == post.escrows@[pre.escrows@.len() as int],
        EscrowService::other_escrows_unchanged(
            pre,
            post,
            post.escrows@[pre.escrows@.len() as int].session_id@,
            post.escrows@[pre.escrows@.len() as int].payer_id,
        ),
{
    let n = pre.escrows@.len() as int;
    let sid = post.escrows@[n].session_id@;
    let payer = post.escrows@[n].payer_id;
    assert forall|p: int, q: int| 0 <= p < q < post.escrows@.len() implies
        !(post.escrows@[p].session_id@ == post.escrows@[q].session_id@
            && post.escrows@[p].payer_id == post.escrows@[q].payer_id) by {
        if q < n {
            assert(post.escrows@[p] == pre.escrows@[p]);
            assert(post.escrows@[q] == pre.escrows@[q]);
        } else {
            assert(post.escrows@[p] == pre.escrows@[p]);
            if pre.escrows@[p].session_id@ == sid && pre.escrows@[p].payer_id == payer {
                assert(pre.escrows@[p].key_is(sid, payer));
                assert(pre.has_escrow(sid, payer));
            }
        }
    }
    lemma_escrow_index_is(post, n, sid, payer);
    assert forall|s2: Seq<char>, p2: u64| !(s2 == sid && p2 == payer) implies
        (#[trigger] post.has_escrow(s2, p2) == pre.has_escrow(s2, p2)
            && (pre.has_escrow(s2, p2) ==> post.escrow_of(s2, p2) == pre.escrow_of(s2, p2))) by {
        if pre.has_escrow(s2, p2) {
            let j = pre.escrow_index(s2, p2);
            lemma_escrow_index_is(pre, j, s2, p2);
            assert(post.escrows@[j].key_is(s2, p2));
            lemma_escrow_index_is(post, j, s2, p2);
        }
        if post.has_escrow(s2, p2) {
            let j = post.escrow_index(s2, p2);
            lemma_escrow_index_is(post, j, s2, p2);
            assert(j != n);
            assert(pre.escrows@[j].key_is(s2, p2));
            lemma_escrow_index_is(pre, j, s2, p2);
        }
    }
}

} // verus!
