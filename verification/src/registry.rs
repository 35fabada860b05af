use vstd::prelude::*;
use crate::account::AccountId;
use crate::account::Balance;
use crate::ledger::Ledger;

verus! {

/// One escrow: the deposited value, the three identities attached to it,
/// and whether the value is still held.
///
/// A record is never deleted; a release only flips `is_active` to `false`.
#[derive(Clone, Copy, PartialEq, Eq, Structural, Debug)]
pub struct EscrowDetails {
    pub amount: Balance,
    pub owner: AccountId,
    pub beneficiary: AccountId,
    pub arbiter: AccountId,
    pub is_active: bool,
}

/// Notification that a new escrow was created and its value custodied.
#[derive(Clone, Copy, PartialEq, Eq, Structural, Debug)]
pub struct EscrowCreated {
    pub escrow_id: u32,
    pub amount: Balance,
}

/// Notification that an escrow's value went to its beneficiary.
#[derive(Clone, Copy, PartialEq, Eq, Structural, Debug)]
pub struct FundsReleased {
    pub escrow_id: u32,
    pub amount: Balance,
}

/// Why a mutating operation was refused. Every error is terminal for its
/// call; nothing is retried.
#[derive(Clone, Copy, PartialEq, Eq, Structural, Debug)]
pub enum Error {
    /// The value transfer to the beneficiary failed.
    InsufficientFunds,
    /// The caller is not the arbiter, or the record is no longer active.
    NotAuthorized,
    /// The identifier has no record.
    EscrowNotFound,
    /// Declared alongside the others but never raised: an inactive record
    /// is reported as `NotAuthorized`.
    EscrowNotActive,
}

/// The record `create_escrow` builds: fully populated, active, owned by the
/// caller that attached the value.
pub open spec fn new_record(
    caller: AccountId,
    beneficiary: AccountId,
    arbiter: AccountId,
    amount: Balance,
) -> EscrowDetails {
    EscrowDetails { amount, owner: caller, beneficiary, arbiter, is_active: true }
}

/// The record after a successful release: only the activity flag changes.
pub open spec fn released_record(r: EscrowDetails) -> EscrowDetails {
    EscrowDetails { is_active: false, ..r }
}

/// The authorization decision of `release_funds`, checked in order: the
/// record must exist, must still be active, and the caller must be its
/// arbiter. The latter two failures share one error.
pub open spec fn release_check(
    escrows: Seq<EscrowDetails>,
    caller: AccountId,
    escrow_id: u32,
) -> Result<(), Error> {
    if escrows.len() <= escrow_id {
        Err(Error::EscrowNotFound)
    } else if !escrows[escrow_id as int].is_active || caller != escrows[escrow_id as int].arbiter {
        Err(Error::NotAuthorized)
    } else {
        Ok(())
    }
}

/// What one record contributes to the registry's outstanding liability.
pub open spec fn active_amount(r: EscrowDetails) -> int {
    if r.is_active {
        r.amount as int
    } else {
        0
    }
}

/// The registry's outstanding liability: the sum of the amounts of all
/// records still active.
pub open spec fn active_total(escrows: Seq<EscrowDetails>) -> int
    decreases escrows.len(),
{
    if escrows.len() == 0 {
        0
    } else {
        active_amount(escrows[0]) + active_total(escrows.drop_first())
    }
}

/// Appending a record adds exactly its contribution to the liability.
pub proof fn lemma_active_total_push(escrows: Seq<EscrowDetails>, r: EscrowDetails)
    ensures
        active_total(escrows.push(r)) == active_total(escrows) + active_amount(r),
    decreases escrows.len(),
{
    if escrows.len() == 0 {
        assert(escrows.push(r)[0] == r);
        assert(escrows.push(r).drop_first() =~= Seq::<EscrowDetails>::empty());
        assert(active_total(Seq::<EscrowDetails>::empty()) == 0);
        assert(active_total(escrows.push(r)) == active_amount(r));
    } else {
        assert(escrows.push(r)[0] == escrows[0]);
        assert(escrows.push(r).drop_first() =~= escrows.drop_first().push(r));
        lemma_active_total_push(escrows.drop_first(), r);
        assert(active_total(escrows.push(r)) == active_amount(escrows[0]) + active_total(
            escrows.drop_first().push(r),
        ));
        assert(active_total(escrows) == active_amount(escrows[0]) + active_total(
            escrows.drop_first(),
        ));
    }
}

/// Replacing one record moves the liability by the difference of the two
/// contributions.
pub proof fn lemma_active_total_update(escrows: Seq<EscrowDetails>, i: int, r: EscrowDetails)
    requires
        0 <= i < escrows.len(),
    ensures
        active_total(escrows.update(i, r)) == active_total(escrows) - active_amount(escrows[i])
            + active_amount(r),
    decreases i,
{
    let u = escrows.update(i, r);
    if i == 0 {
        assert(u[0] == r);
        assert(u.drop_first() =~= escrows.drop_first());
    } else {
        assert(u[0] == escrows[0]);
        assert(u.drop_first() =~= escrows.drop_first().update(i - 1, r));
        lemma_active_total_update(escrows.drop_first(), i - 1, r);
    }
}

/// The escrow registry: every record ever created, keyed by its identifier,
/// beside the identifier counter and the administrator identity captured at
/// construction.
///
/// Identifiers are handed out sequentially from zero, so the record with
/// identifier `i` sits at position `i`; none is ever removed.
pub struct TrustbridgeContract {
    pub escrows: Vec<EscrowDetails>,
    pub next_escrow_id: u32,
    pub admin: AccountId,
}

impl TrustbridgeContract {
    /// The counter always equals the number of records ever created.
    pub open spec fn wf(self) -> bool {
        self.next_escrow_id as nat == self.escrows@.len()
    }

    /// The record under `escrow_id`, if one was ever created.
    pub open spec fn spec_get(self, escrow_id: u32) -> Option<EscrowDetails> {
        if (escrow_id as nat) < self.escrows@.len() {
            Some(self.escrows@[escrow_id as int])
        } else {
            None
        }
    }

    /// An empty registry. The administrator identity is recorded as the
    /// host reports the constructing caller; no operation is gated on it.
    pub fn new(admin: AccountId) -> (r: TrustbridgeContract)
        ensures
            r.wf(),
            r.escrows@.len() == 0,
            r.next_escrow_id == 0,
            r.admin == admin,
    {
        TrustbridgeContract { escrows: Vec::new(), next_escrow_id: 0, admin }
    }

    /// Create and fund a new escrow: allocate the next identifier, record
    /// the caller as owner with the submitted beneficiary and arbiter, take
    /// the attached value into custody, and report the identifier and
    /// amount. Never fails.
    pub fn create_escrow(
        &mut self,
        caller: AccountId,
        beneficiary: AccountId,
        arbiter: AccountId,
        amount: Balance,
        ledger: &mut Ledger,
    ) -> (r: Result<EscrowCreated, Error>)
        requires
            old(self).wf(),
            old(self).escrows@.len() < u32::MAX,
            old(ledger).custodied + amount <= u128::MAX,
        ensures
            final(self).wf(),
            r == Ok::<EscrowCreated, Error>(
                (EscrowCreated { escrow_id: old(self).next_escrow_id, amount }),
            ),
            final(self).escrows@ == old(self).escrows@.push(
                new_record(caller, beneficiary, arbiter, amount),
            ),
            final(self).next_escrow_id == old(self).next_escrow_id + 1,
            final(self).admin == old(self).admin,
            final(ledger).custodied == old(ledger).custodied + amount,
            final(ledger).accounts@ == old(ledger).accounts@,
            active_total(final(self).escrows@) == active_total(old(self).escrows@) + amount,
    {
        let escrow_id = self.next_escrow_id;
        let escrow = EscrowDetails {
            amount,
            owner: caller,
            beneficiary,
            arbiter,
            is_active: true,
        };
        self.escrows.push(escrow);
        self.next_escrow_id = self.next_escrow_id + 1;
        ledger.custodied = ledger.custodied + amount;
        proof {
            lemma_active_total_push(old(self).escrows@, escrow);
        }
        Ok(EscrowCreated { escrow_id, amount })
    }

    /// The decision half of a release: check that the record exists, is
    /// still active, and that `caller` is its arbiter, and hand back the
    /// transfer the host must now perform — beneficiary and amount.
    pub fn release_request(&self, caller: AccountId, escrow_id: u32) -> (r: Result<
        (AccountId, Balance),
        Error,
    >)
        ensures
            match release_check(self.escrows@, caller, escrow_id) {
                Ok(()) => r == Ok::<(AccountId, Balance), Error>(
                    (
                        self.escrows@[escrow_id as int].beneficiary,
                        self.escrows@[escrow_id as int].amount,
                    ),
                ),
                Err(e) => r == Err::<(AccountId, Balance), Error>(e),
            },
    {
        if self.escrows.len() <= escrow_id as usize {
            return Err(Error::EscrowNotFound);
        }
        let record = self.escrows[escrow_id as usize];
        if !record.is_active || caller != record.arbiter {
            return Err(Error::NotAuthorized);
        }
        Ok((record.beneficiary, record.amount))
    }

    /// The commit half of a release, called only after the checks passed
    /// and the transfer succeeded: flip the record to inactive — its other
    /// fields keep their values — and report the released amount.
    pub fn apply_release(&mut self, escrow_id: u32) -> (r: FundsReleased)
        requires
            old(self).wf(),
            (escrow_id as nat) < old(self).escrows@.len(),
            old(self).escrows@[escrow_id as int].is_active,
        ensures
            final(self).wf(),
            r == (FundsReleased {
                escrow_id,
                amount: old(self).escrows@[escrow_id as int].amount,
            }),
            final(self).escrows@ == old(self).escrows@.update(
                escrow_id as int,
                released_record(old(self).escrows@[escrow_id as int]),
            ),
            final(self).next_escrow_id == old(self).next_escrow_id,
            final(self).admin == old(self).admin,
            active_total(final(self).escrows@) == active_total(old(self).escrows@) - old(
                self,
            ).escrows@[escrow_id as int].amount,
    {
        let mut record = self.escrows[escrow_id as usize];
        let amount = record.amount;
        record.is_active = false;
        self.escrows[escrow_id as usize] = record;
        proof {
            lemma_active_total_update(
                old(self).escrows@,
                escrow_id as int,
                released_record(old(self).escrows@[escrow_id as int]),
            );
        }
        FundsReleased { escrow_id, amount }
    }

    /// Release the escrowed value to the beneficiary. The record must exist
    /// and be active, the caller must be its arbiter, and the transfer must
    /// go through; then, and only then, the record is marked inactive and
    /// exactly the escrowed amount moves from custody to the beneficiary.
    /// On any error nothing changes.
    pub fn release_funds(&mut self, caller: AccountId, escrow_id: u32, ledger: &mut Ledger) -> (r:
        Result<FundsReleased, Error>)
        requires
            old(self).wf(),
            old(ledger).wf(),
        ensures
            final(self).wf(),
            final(ledger).wf(),
            final(self).next_escrow_id == old(self).next_escrow_id,
            final(self).admin == old(self).admin,
            match release_check(old(self).escrows@, caller, escrow_id) {
                Err(e) => {
                    &&& r == Err::<FundsReleased, Error>(e)
                    &&& final(self).escrows@ == old(self).escrows@
                    &&& final(ledger).custodied == old(ledger).custodied
                    &&& final(ledger).accounts@ == old(ledger).accounts@
                },
                Ok(()) => {
                    let record = old(self).escrows@[escrow_id as int];
                    let fits = old(ledger).spec_balance(record.beneficiary) + record.amount
                        <= u128::MAX;
                    if old(ledger).custodied >= record.amount && fits {
                        &&& r == Ok::<FundsReleased, Error>(
                            (FundsReleased { escrow_id, amount: record.amount }),
                        )
                        &&& final(self).escrows@ == old(self).escrows@.update(
                            escrow_id as int,
                            released_record(record),
                        )
                        &&& final(ledger).custodied == old(ledger).custodied - record.amount
                        &&& final(ledger).spec_balance(record.beneficiary) == old(
                            ledger,
                        ).spec_balance(record.beneficiary) + record.amount
                        &&& forall|x: AccountId|
                            x != record.beneficiary ==> final(ledger).spec_balance(x) == old(
                                ledger,
                            ).spec_balance(x)
                        &&& active_total(final(self).escrows@) == active_total(
                            old(self).escrows@,
                        ) - record.amount
                    } else {
                        &&& r == Err::<FundsReleased, Error>(Error::InsufficientFunds)
                        &&& final(self).escrows@ == old(self).escrows@
                        &&& final(ledger).custodied == old(ledger).custodied
                        &&& final(ledger).accounts@ == old(ledger).accounts@
                    }
                },
            },
    {
        let request = self.release_request(caller, escrow_id);
        match request {
            Err(e) => Err(e),
            Ok((beneficiary, amount)) => {
                if ledger.transfer(beneficiary, amount) {
                    let released = self.apply_release(escrow_id);
                    Ok(released)
                } else {
                    Err(Error::InsufficientFunds)
                }
            },
        }
    }

    /// Look up an escrow by identifier; absent identifiers yield `None`,
    /// never an error, and no caller is refused.
    pub fn get_escrow(&self, escrow_id: u32) -> (r: Option<EscrowDetails>)
        ensures
            r == self.spec_get(escrow_id),
    {
        if (escrow_id as usize) < self.escrows.len() {
            Some(self.escrows[escrow_id as usize])
        } else {
            None
        }
    }
}

} // verus!
