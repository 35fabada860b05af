use vstd::prelude::*;
use crate::account::AccountId;
use crate::account::Balance;

verus! {

/// The value-transfer ledger the registry draws on: the balances of external
/// accounts, together with the value the registry itself currently holds in
/// custody on behalf of pending escrows.
///
/// An account that has no entry holds a balance of zero.
pub struct Ledger {
    /// Value held by the registry, not yet released to any beneficiary.
    pub custodied: Balance,
    /// Balances of external accounts, at most one entry per identifier.
    pub accounts: Vec<(AccountId, Balance)>,
}

/// The balance of `id` in the entry list `s`: the value beside the first
/// entry for `id`, or zero when no entry carries that identifier.
pub open spec fn balance_in(s: Seq<(AccountId, Balance)>, id: AccountId) -> Balance
    decreases s.len(),
{
    if s.len() == 0 {
        0
    } else if s[0].0 == id {
        s[0].1
    } else {
        balance_in(s.drop_first(), id)
    }
}

/// The balance of `id` is the value beside its first entry.
proof fn lemma_balance_in_first_match(s: Seq<(AccountId, Balance)>, i: int, id: AccountId)
    requires
        0 <= i < s.len(),
        s[i].0 == id,
        forall|k: int| 0 <= k < i ==> (#[trigger] s[k]).0 != id,
    ensures
        balance_in(s, id) == s[i].1,
    decreases i,
{
    if i > 0 {
        lemma_balance_in_first_match(s.drop_first(), i - 1, id);
    }
}

/// An identifier with no entry holds a balance of zero.
proof fn lemma_balance_in_absent(s: Seq<(AccountId, Balance)>, id: AccountId)
    requires
        forall|k: int| 0 <= k < s.len() ==> (#[trigger] s[k]).0 != id,
    ensures
        balance_in(s, id) == 0,
    decreases s.len(),
{
    if s.len() > 0 {
        lemma_balance_in_absent(s.drop_first(), id);
    }
}

/// Overwriting the first entry for `id` with a new value `v` makes the
/// balance of `id` equal to `v` and leaves every other balance alone.
proof fn lemma_balance_in_update(
    s: Seq<(AccountId, Balance)>,
    i: int,
    id: AccountId,
    v: Balance,
    x: AccountId,
)
    requires
        0 <= i < s.len(),
        s[i].0 == id,
        forall|k: int| 0 <= k < i ==> (#[trigger] s[k]).0 != id,
    ensures
        balance_in(s.update(i, (id, v)), id) == v,
        x != id ==> balance_in(s.update(i, (id, v)), x) == balance_in(s, x),
    decreases i,
{
    let u = s.update(i, (id, v));
    if i == 0 {
        assert(u.drop_first() =~= s.drop_first());
    } else {
        assert(u[0] == s[0]);
        assert(u.drop_first() =~= s.drop_first().update(i - 1, (id, v)));
        lemma_balance_in_update(s.drop_first(), i - 1, id, v, x);
    }
}

/// Appending an entry for an identifier that has no entry yet gives that
/// identifier the appended value and leaves every other balance alone.
proof fn lemma_balance_in_push(s: Seq<(AccountId, Balance)>, t: (AccountId, Balance), x: AccountId)
    requires
        forall|k: int| 0 <= k < s.len() ==> (#[trigger] s[k]).0 != t.0,
    ensures
        balance_in(s.push(t), t.0) == t.1,
        x != t.0 ==> balance_in(s.push(t), x) == balance_in(s, x),
    decreases s.len(),
{
    if s.len() == 0 {
        assert(s.push(t)[0] == t);
        assert(s.push(t).drop_first() =~= Seq::<(AccountId, Balance)>::empty());
        if x != t.0 {
            assert(balance_in(s, x) == 0);
            assert(s.push(t)[0].0 != x);
            assert(balance_in(s.push(t), x) == balance_in(s.push(t).drop_first(), x));
            assert(balance_in(s.push(t), x) == 0);
        }
    } else {
        assert(s.push(t)[0] == s[0]);
        assert(s.push(t).drop_first() =~= s.drop_first().push(t));
        assert forall|k: int| 0 <= k < s.drop_first().len() implies (#[trigger] s.drop_first()[
            k]).0 != t.0 by {
            assert(s.drop_first()[k] == s[k + 1]);
        }
        lemma_balance_in_push(s.drop_first(), t, x);
        if x != t.0 {
            if s[0].0 == x {
                assert(balance_in(s, x) == s[0].1);
                assert(s.push(t)[0].0 == x);
                assert(balance_in(s.push(t), x) == s[0].1);
            } else {
                assert(balance_in(s, x) == balance_in(s.drop_first(), x));
                assert(balance_in(s.push(t), x) == balance_in(s.push(t).drop_first(), x));
                assert(balance_in(s.drop_first().push(t), x) == balance_in(s.drop_first(), x));
            }
        }
    }
}

impl Ledger {
    /// Each account identifier appears in at most one entry.
    pub open spec fn wf(self) -> bool {
        forall|i: int, j: int|
            0 <= i < j < self.accounts@.len()
                ==> (#[trigger] self.accounts@[i]).0 != (#[trigger] self.accounts@[j]).0
    }

    /// The balance the ledger records for `id`.
    pub open spec fn spec_balance(self, id: AccountId) -> Balance {
        balance_in(self.accounts@, id)
    }

    /// An empty ledger: no custodied value, every account at zero.
    pub fn new() -> (r: Ledger)
        ensures
            r.wf(),
            r.custodied == 0,
            r.accounts@.len() == 0,
            forall|id: AccountId| r.spec_balance(id) == 0,
    {
        Ledger { custodied: 0, accounts: Vec::new() }
    }

    /// The balance currently held by `id`.
    pub fn balance_of(&self, id: AccountId) -> (r: Balance)
        ensures
            r == self.spec_balance(id),
    {
        let mut i: usize = 0;
        proof {
            assert(self.accounts@.skip(0) =~= self.accounts@);
        }
        while i < self.accounts.len()
            invariant
                i <= self.accounts@.len(),
                balance_in(self.accounts@, id) == balance_in(self.accounts@.skip(i as int), id),
            decreases self.accounts@.len() - i,
        {
            let entry = self.accounts[i];
            proof {
                assert(self.accounts@.skip(i as int)[0] == self.accounts@[i as int]);
                assert(self.accounts@.skip(i as int).drop_first() =~= self.accounts@.skip(
                    i as int + 1,
                ));
            }
            if entry.0 == id {
                return entry.1;
            }
            i = i + 1;
        }
        proof {
            assert(self.accounts@.skip(i as int) =~= Seq::<(AccountId, Balance)>::empty());
        }
        0
    }

    /// The position of the entry for `id`, if the ledger has one.
    fn find_account(&self, id: AccountId) -> (r: Option<usize>)
        ensures
            match r {
                Some(i) => (i as int) < self.accounts@.len() && self.accounts@[i as int].0 == id
                    && (forall|k: int| 0 <= k < i ==> (#[trigger] self.accounts@[k]).0 != id),
                None => forall|k: int|
                    0 <= k < self.accounts@.len() ==> (#[trigger] self.accounts@[k]).0 != id,
            },
    {
        let mut i: usize = 0;
        while i < self.accounts.len()
            invariant
                i <= self.accounts@.len(),
                forall|k: int| 0 <= k < i ==> (#[trigger] self.accounts@[k]).0 != id,
            decreases self.accounts@.len() - i,
        {
            if self.accounts[i].0 == id {
                return Some(i);
            }
            i = i + 1;
        }
        None
    }

    /// Credit `amount` to the account of `to`: outside value entering the
    /// system. Fails, changing nothing, exactly when the credited balance
    /// would not fit in a `Balance`.
    pub fn deposit(&mut self, to: AccountId, amount: Balance) -> (r: bool)
        requires
            old(self).wf(),
        ensures
            final(self).wf(),
            final(self).custodied == old(self).custodied,
            r == (old(self).spec_balance(to) + amount <= u128::MAX),
            r ==> final(self).spec_balance(to) == old(self).spec_balance(to) + amount,
            r ==> forall|x: AccountId|
                x != to ==> final(self).spec_balance(x) == old(self).spec_balance(x),
            !r ==> final(self).accounts@ == old(self).accounts@,
    {
        let ghost s = self.accounts@;
        match self.find_account(to) {
            Some(i) => {
                let (aid, bal) = self.accounts[i];
                proof {
                    lemma_balance_in_first_match(s, i as int, to);
                }
                if amount <= u128::MAX - bal {
                    self.accounts[i] = (aid, bal + amount);
                    proof {
                        let u = self.accounts@;
                        assert(u == s.update(i as int, (to, (bal + amount) as u128)));
                        assert forall|k: int| 0 <= k < u.len() implies (#[trigger] u[k]).0
                            == s[k].0 by {}
                        assert forall|x: AccountId|
                            x != to implies balance_in(u, x) == balance_in(s, x) by {
                            lemma_balance_in_update(s, i as int, to, (bal + amount) as u128, x);
                        }
                        lemma_balance_in_update(s, i as int, to, (bal + amount) as u128, to);
                    }
                    true
                } else {
                    false
                }
            },
            None => {
                proof {
                    lemma_balance_in_absent(s, to);
                }
                self.accounts.push((to, amount));
                proof {
                    let u = self.accounts@;
                    assert forall|i: int, j: int| 0 <= i < j < u.len() implies u[i].0
                        != u[j].0 by {
                        if j < s.len() {
                            assert(s[i].0 != s[j].0);
                        } else {
                            assert(u[j].0 == to);
                            assert(s[i].0 != to);
                        }
                    }
                    assert forall|x: AccountId|
                        x != to implies balance_in(u, x) == balance_in(s, x) by {
                        lemma_balance_in_push(s, (to, amount), x);
                    }
                    lemma_balance_in_push(s, (to, amount), to);
                }
                true
            },
        }
    }

    /// The value-transfer primitive the registry calls when an escrow is
    /// released: move `amount` from registry custody to the account of `to`.
    /// Reports failure, changing nothing, exactly when the custodied value
    /// does not cover `amount` or the credited balance would not fit.
    pub fn transfer(&mut self, to: AccountId, amount: Balance) -> (r: bool)
        requires
            old(self).wf(),
        ensures
            final(self).wf(),
            r == (old(self).custodied >= amount && old(self).spec_balance(to) + amount
                <= u128::MAX),
            r ==> final(self).custodied == old(self).custodied - amount,
            r ==> final(self).spec_balance(to) == old(self).spec_balance(to) + amount,
            r ==> forall|x: AccountId|
                x != to ==> final(self).spec_balance(x) == old(self).spec_balance(x),
            !r ==> final(self).custodied == old(self).custodied && final(self).accounts@
                == old(self).accounts@,
    {
        if self.custodied < amount {
            return false;
        }
        let ok = self.deposit(to, amount);
        if !ok {
            return false;
        }
        self.custodied = self.custodied - amount;
        true
    }
}

} // verus!
