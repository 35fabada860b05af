use vstd::prelude::*;
use crate::account::AccountId;
use crate::account::Balance;
use crate::registry::EscrowDetails;
use crate::registry::Error;
use crate::registry::TrustbridgeContract;
use crate::registry::active_amount;
use crate::registry::active_total;
use crate::registry::lemma_active_total_push;
use crate::registry::new_record;
use crate::registry::release_check;
use crate::registry::released_record;

verus! {

/// The registry contents after a run of creations, one record per submitted
/// (caller, beneficiary, arbiter, amount) request, oldest first.
pub open spec fn create_all(reqs: Seq<(AccountId, AccountId, AccountId, Balance)>) -> Seq<
    EscrowDetails,
>
    decreases reqs.len(),
{
    if reqs.len() == 0 {
        Seq::empty()
    } else {
        create_all(reqs.drop_last()).push(
            new_record(reqs.last().0, reqs.last().1, reqs.last().2, reqs.last().3),
        )
    }
}

proof fn lemma_create_all_index(reqs: Seq<(AccountId, AccountId, AccountId, Balance)>)
    ensures
        create_all(reqs).len() == reqs.len(),
        forall|i: int|
            0 <= i < reqs.len() ==> create_all(reqs)[i] == new_record(
                (#[trigger] reqs[i]).0,
                reqs[i].1,
                reqs[i].2,
                reqs[i].3,
            ),
    decreases reqs.len(),
{
    if reqs.len() > 0 {
        lemma_create_all_index(reqs.drop_last());
        assert forall|i: int|
            0 <= i < reqs.len() implies create_all(reqs)[i] == new_record(
            (#[trigger] reqs[i]).0,
            reqs[i].1,
            reqs[i].2,
            reqs[i].3,
        ) by {
            if i < reqs.len() - 1 {
                assert(reqs.drop_last()[i] == reqs[i]);
                assert(create_all(reqs)[i] == create_all(reqs.drop_last())[i]);
            } else {
                assert(reqs.last() == reqs[i]);
            }
        }
    }
}

/// Law: creating escrows from an empty registry hands out the identifiers
/// 0, 1, 2, ... in order. The record under identifier `i` holds exactly the
/// i-th submitted owner, beneficiary, arbiter and amount and is still
/// active; an identifier at or past the count of creations has no record.
pub proof fn lemma_sequential_creation(
    r: TrustbridgeContract,
    reqs: Seq<(AccountId, AccountId, AccountId, Balance)>,
)
    requires
        r.wf(),
        r.escrows@ == create_all(reqs),
    ensures
        r.next_escrow_id as nat == reqs.len(),
        forall|i: u32|
            (i as nat) < reqs.len() ==> #[trigger] r.spec_get(i) == Some(
                new_record(reqs[i as int].0, reqs[i as int].1, reqs[i as int].2, reqs[i as int].3),
            ),
        forall|i: u32| (i as nat) >= reqs.len() ==> #[trigger] r.spec_get(i) == None::<
            EscrowDetails,
        >,
{
    lemma_create_all_index(reqs);
}

/// Law: a successful release is final. On the registry state it leaves
/// behind, the same identifier is refused with `NotAuthorized` for every
/// caller — the record's own arbiter included — so funds move at most once
/// per escrow.
pub proof fn lemma_release_at_most_once(
    escrows: Seq<EscrowDetails>,
    caller: AccountId,
    later_caller: AccountId,
    escrow_id: u32,
)
    requires
        release_check(escrows, caller, escrow_id) == Ok::<(), Error>(()),
    ensures
        release_check(
            escrows.update(escrow_id as int, released_record(escrows[escrow_id as int])),
            later_caller,
            escrow_id,
        ) == Err::<(), Error>(Error::NotAuthorized),
{
}

/// Law: a release touches one record, and of that record only the activity
/// flag: every other record is untouched, and the released record keeps its
/// amount, owner, beneficiary and arbiter, with `is_active` now `false`.
pub proof fn lemma_release_changes_only_activity(escrows: Seq<EscrowDetails>, escrow_id: u32)
    requires
        (escrow_id as nat) < escrows.len(),
    ensures
        ({
            let u = escrows.update(escrow_id as int, released_record(escrows[escrow_id as int]));
            &&& u.len() == escrows.len()
            &&& forall|j: int|
                0 <= j < escrows.len() && j != escrow_id as int ==> u[j] == escrows[j]
            &&& u[escrow_id as int].amount == escrows[escrow_id as int].amount
            &&& u[escrow_id as int].owner == escrows[escrow_id as int].owner
            &&& u[escrow_id as int].beneficiary == escrows[escrow_id as int].beneficiary
            &&& u[escrow_id as int].arbiter == escrows[escrow_id as int].arbiter
            &&& !u[escrow_id as int].is_active
        }),
{
}

/// Law: creation keeps custody matching liability. If the custodied value
/// equals the sum of the active amounts, then after taking `amount` into
/// custody and recording the new active escrow it does so again.
pub proof fn lemma_create_preserves_liability(
    escrows: Seq<EscrowDetails>,
    custodied: Balance,
    caller: AccountId,
    beneficiary: AccountId,
    arbiter: AccountId,
    amount: Balance,
)
    requires
        custodied == active_total(escrows),
        custodied + amount <= u128::MAX,
    ensures
        custodied + amount == active_total(
            escrows.push(new_record(caller, beneficiary, arbiter, amount)),
        ),
{
    lemma_active_total_push(escrows, new_record(caller, beneficiary, arbiter, amount));
}

/// Law: a successful release keeps custody matching liability. Exactly the
/// released amount leaves both the custodied value and the sum of the
/// active amounts.
pub proof fn lemma_release_preserves_liability(
    escrows: Seq<EscrowDetails>,
    custodied: Balance,
    caller: AccountId,
    escrow_id: u32,
)
    requires
        custodied == active_total(escrows),
        release_check(escrows, caller, escrow_id) == Ok::<(), Error>(()),
    ensures
        custodied - escrows[escrow_id as int].amount == active_total(
            escrows.update(escrow_id as int, released_record(escrows[escrow_id as int])),
        ),
{
    crate::registry::lemma_active_total_update(
        escrows,
        escrow_id as int,
        released_record(escrows[escrow_id as int]),
    );
}

proof fn lemma_active_total_nonneg(escrows: Seq<EscrowDetails>)
    ensures
        active_total(escrows) >= 0,
    decreases escrows.len(),
{
    if escrows.len() > 0 {
        lemma_active_total_nonneg(escrows.drop_first());
    }
}

/// Law: when custody matches liability, the custodied value covers every
/// single active escrow, so an authorized release never finds the registry
/// short of the amount it owes.
pub proof fn lemma_liability_covers_each_escrow(escrows: Seq<EscrowDetails>, escrow_id: u32)
    requires
        (escrow_id as nat) < escrows.len(),
        escrows[escrow_id as int].is_active,
    ensures
        active_total(escrows) >= escrows[escrow_id as int].amount,
    decreases escrows.len(),
{
    lemma_active_total_nonneg(escrows.drop_first());
    if escrow_id > 0 {
        assert(escrows.drop_first()[escrow_id as int - 1] == escrows[escrow_id as int]);
        lemma_liability_covers_each_escrow(escrows.drop_first(), (escrow_id - 1) as u32);
        assert(active_amount(escrows[0]) >= 0);
    }
}

} // verus!
