//! Escrow records and their lifecycle: a record is created `Locked`, may
//! advance to `AwaitingConfirmation` once either party confirms, and ends in
//! exactly one of the terminal states `Released` or `Cancelled`.

use vstd::prelude::*;

verus! {

/// How long after creation an unsettled escrow becomes releasable to the
/// payee regardless of confirmations: 24 hours, in seconds.
pub const CONFIRMATION_WINDOW_SECS: u64 = 86400;

/// The lifecycle state of an escrow.  `Released` and `Cancelled` are
/// terminal; `Locked` and `AwaitingConfirmation` are both eligible for
/// settlement, the latter only signals that at least one party confirmed.
#[derive(Clone, Copy, Debug, PartialEq, Eq, Structural)]
pub enum EscrowStatus {
    Locked,
    AwaitingConfirmation,
    Released,
    Cancelled,
}

/// One escrow, held for a single `(session_id, payer_id)` pair.  Records are
/// never deleted; settled and cancelled ones stay as an audit trail.
pub struct EscrowRecord {
    pub session_id: String,
    pub payer_id: u64,
    pub payee_id: u64,
    pub amount: u64,
    pub status: EscrowStatus,
    pub confirmed_by_payer: bool,
    pub confirmed_by_payee: bool,
    pub payer_confirmed_at: Option<u64>,
    pub payee_confirmed_at: Option<u64>,
    pub created_at: u64,
    pub confirmation_deadline: u64,
    pub released_at: Option<u64>,
}

impl EscrowRecord {
    /// Whether this record carries the key `(sid, payer)`.
    pub open spec fn key_is(self, sid: Seq<char>, payer: u64) -> bool {
        self.session_id@ == sid && self.payer_id == payer
    }

    /// Whether the record still holds funds and admits transitions.
    pub open spec fn is_active(self) -> bool {
        self.status == EscrowStatus::Locked
            || self.status == EscrowStatus::AwaitingConfirmation
    }

    /// The confirmation flag of the given party.
    pub open spec fn confirmed_flag(self, actor_is_payer: bool) -> bool {
        if actor_is_payer {
            self.confirmed_by_payer
        } else {
            self.confirmed_by_payee
        }
    }

    /// Whether a settlement at `now` may release the funds: the deadline has
    /// passed (a check exactly at the deadline counts as passed) or both
    /// parties have confirmed.
    pub open spec fn settleable_at(self, now: u64) -> bool {
        now >= self.confirmation_deadline
            || (self.confirmed_by_payer && self.confirmed_by_payee)
    }

    /// Internal consistency of one record: each confirmation flag carries its
    /// timestamp, a `Locked` record has no confirmation yet, `released_at` is
    /// set exactly on release, and the deadline sits one confirmation window
    /// after creation.
    pub open spec fn record_wf(self) -> bool {
        &&& self.confirmed_by_payer <==> self.payer_confirmed_at is Some
        &&& self.confirmed_by_payee <==> self.payee_confirmed_at is Some
        &&& (self.status == EscrowStatus::Locked
            ==> !self.confirmed_by_payer && !self.confirmed_by_payee)
        &&& (self.status == EscrowStatus::Released <==> self.released_at is Some)
        &&& self.confirmation_deadline == self.created_at + CONFIRMATION_WINDOW_SECS
    }

    /// The record as `open_escrow` creates it at time `now`.
    pub open spec fn spec_open_record(
        session_id: String,
        payer_id: u64,
        payee_id: u64,
        amount: u64,
        now: u64,
    ) -> Self {
        EscrowRecord {
            session_id,
            payer_id,
            payee_id,
            amount,
            status: EscrowStatus::Locked,
            confirmed_by_payer: false,
            confirmed_by_payee: false,
            payer_confirmed_at: None,
            payee_confirmed_at: None,
            created_at: now,
            confirmation_deadline: (now + CONFIRMATION_WINDOW_SECS) as u64,
            released_at: None,
        }
    }

    /// The record after the given party confirms at time `now`: the party's
    /// flag and timestamp are set and the status ratchets forward to
    /// `AwaitingConfirmation`, already on the first confirmation.
    pub open spec fn with_confirm(self, actor_is_payer: bool, now: u64) -> Self {
        EscrowRecord {
            status: EscrowStatus::AwaitingConfirmation,
            confirmed_by_payer: self.confirmed_by_payer || actor_is_payer,
            confirmed_by_payee: self.confirmed_by_payee || !actor_is_payer,
            payer_confirmed_at: if actor_is_payer {
                Some(now)
            } else {
                self.payer_confirmed_at
            },
            payee_confirmed_at: if !actor_is_payer {
                Some(now)
            } else {
                self.payee_confirmed_at
            },
            ..self
        }
    }

    /// The record after a successful settlement at time `now`.
    pub open spec fn with_release(self, now: u64) -> Self {
        EscrowRecord { status: EscrowStatus::Released, released_at: Some(now), ..self }
    }

    /// The record after a successful cancellation.
    pub open spec fn with_cancel(self) -> Self {
        EscrowRecord { status: EscrowStatus::Cancelled, ..self }
    }
}

/// What one record contributes to the funds that custody must hold: its
/// amount while it is active, nothing once it is settled or cancelled.
pub open spec fn contribution(r: EscrowRecord) -> int {
    if r.is_active() {
        r.amount as int
    } else {
        0
    }
}

/// The funds that custody must hold for a sequence of records: the sum of
/// the amounts of the active ones.
pub open spec fn outstanding(s: Seq<EscrowRecord>) -> int
    decreases s.len(),
{
    if s.len() == 0 {
        0
    } else {
        outstanding(s.drop_last()) + contribution(s.last())
    }
}

/// The outstanding sum of an extended sequence grows by the contribution of
/// the appended record.
pub proof fn lemma_outstanding_push(s: Seq<EscrowRecord>, r: EscrowRecord)
    ensures
        outstanding(s.push(r)) == outstanding(s) + contribution(r),
{
    assert(s.push(r).drop_last() == s);
    assert(s.push(r).last() == r);
}

/// Replacing one record changes the outstanding sum by the difference of the
/// two contributions.
pub proof fn lemma_outstanding_update(s: Seq<EscrowRecord>, i: int, r: EscrowRecord)
    requires
        0 <= i < s.len(),
    ensures
        outstanding(s.update(i, r)) == outstanding(s) - contribution(s[i]) + contribution(r),
    decreases s.len(),
{
    if i == s.len() - 1 {
        assert(s.update(i, r).drop_last() == s.drop_last());
        assert(s.update(i, r).last() == r);
    } else {
        assert(s.update(i, r).drop_last() == s.drop_last().update(i, r));
        assert(s.update(i, r).last() == s.last());
        lemma_outstanding_update(s.drop_last(), i, r);
    }
}

/// The outstanding sum covers each single active record: custody that equals
/// the sum can always pay that record out.
pub proof fn lemma_outstanding_covers(s: Seq<EscrowRecord>, i: int)
    requires
        0 <= i < s.len(),
    ensures
        outstanding(s) >= contribution(s[i]),
        outstanding(s) >= 0,
    decreases s.len(),
{
    lemma_outstanding_nonneg(s.drop_last());
    if i == s.len() - 1 {
        assert(s.last() == s[i]);
        lemma_outstanding_nonneg(s);
    } else {
        lemma_outstanding_covers(s.drop_last(), i);
        assert(s.drop_last()[i] == s[i]);
    }
}

/// No record contributes negatively, so the outstanding sum never is.
pub proof fn lemma_outstanding_nonneg(s: Seq<EscrowRecord>)
    ensures
        outstanding(s) >= 0,
    decreases s.len(),
{
    if s.len() > 0 {
        lemma_outstanding_nonneg(s.drop_last());
    }
}

} // verus!
