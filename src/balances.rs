use vstd::prelude::*;
use vstd::hash_map::HashMapWithView;
use crate::types::{AccountId, Balance};

verus! {

broadcast use vstd::std_specs::hash::group_hash_axioms;

/// Free balance of `who`; an account never credited holds nothing.
pub open spec fn balance_of(m: Map<AccountId, Balance>, who: AccountId) -> Balance {
    if m.contains_key(who) {
        m[who]
    } else {
        0
    }
}

/// Why a keep-alive transfer was refused.
#[derive(Copy, Clone, PartialEq, Eq, Debug, Structural)]
pub enum TransferError {
    /// The source holds less than the amount.
    InsufficientBalance,
    /// The source would be left under the existential deposit.
    KeepAlive,
    /// The destination's balance would not fit.
    Overflow,
    /// The destination would hold less than the existential deposit.
    ExistentialDeposit,
}

/// Outcome of a keep-alive transfer of `value` from `source` to `dest`.
pub open spec fn transfer_outcome(
    m: Map<AccountId, Balance>,
    existential_deposit: Balance,
    source: AccountId,
    dest: AccountId,
    value: Balance,
) -> Result<(), TransferError> {
    let from = balance_of(m, source);
    let to = balance_of(m, dest);
    if value == 0 || source == dest {
        Ok(())
    } else if from < value {
        Err(TransferError::InsufficientBalance)
    } else if from - value < existential_deposit {
        Err(TransferError::KeepAlive)
    } else if to + value > u64::MAX {
        Err(TransferError::Overflow)
    } else if to + value < existential_deposit {
        Err(TransferError::ExistentialDeposit)
    } else {
        Ok(())
    }
}

/// Balances after a transfer that succeeded.
pub open spec fn apply_transfer(
    m: Map<AccountId, Balance>,
    source: AccountId,
    dest: AccountId,
    value: Balance,
) -> Map<AccountId, Balance> {
    if value == 0 || source == dest {
        m
    } else {
        m.insert(source, (balance_of(m, source) - value) as Balance).insert(
            dest,
            (balance_of(m, dest) + value) as Balance,
        )
    }
}

/// Balances after a keep-alive transfer attempt: moved in full or not at all.
pub open spec fn after_transfer(
    m: Map<AccountId, Balance>,
    existential_deposit: Balance,
    source: AccountId,
    dest: AccountId,
    value: Balance,
) -> Map<AccountId, Balance> {
    if transfer_outcome(m, existential_deposit, source, dest, value) is Ok {
        apply_transfer(m, source, dest, value)
    } else {
        m
    }
}

/// The ledger that instalments are paid through.
pub struct Balances {
    free: HashMapWithView<AccountId, Balance>,
    existential_deposit: Balance,
}

impl View for Balances {
    type V = Map<AccountId, Balance>;

    closed spec fn view(&self) -> Map<AccountId, Balance> {
        self.free@
    }
}

impl Balances {
    pub closed spec fn spec_existential_deposit(&self) -> Balance {
        self.existential_deposit
    }

    /// A ledger in which no account holds anything yet.
    pub fn new(existential_deposit: Balance) -> (r: Self)
        ensures
            r@ == Map::<AccountId, Balance>::empty(),
            r.spec_existential_deposit() == existential_deposit,
    {
        Balances { free: HashMapWithView::new(), existential_deposit }
    }

    pub fn existential_deposit(&self) -> (r: Balance)
        ensures
            r == self.spec_existential_deposit(),
    {
        self.existential_deposit
    }

    /// Sets the free balance of `who` (genesis endowment).
    pub fn set_balance(&mut self, who: AccountId, amount: Balance)
        ensures
            final(self)@ == old(self)@.insert(who, amount),
            final(self).spec_existential_deposit() == old(self).spec_existential_deposit(),
    {
        self.free.insert(who, amount);
    }

    pub fn free_balance(&self, who: AccountId) -> (r: Balance)
        ensures
            r == balance_of(self@, who),
    {
        match self.free.get(&who) {
            Some(b) => *b,
            None => 0,
        }
    }

    /// Moves `value` from `source` to `dest`, refusing to leave `source`
    /// under the existential deposit; on refusal nothing changes.
    pub fn transfer(&mut self, source: AccountId, dest: AccountId, value: Balance) -> (r: Result<
        (),
        TransferError,
    >)
        ensures
            r == transfer_outcome(old(self)@, old(self).spec_existential_deposit(), source, dest, value),
            final(self)@ == after_transfer(
                old(self)@,
                old(self).spec_existential_deposit(),
                source,
                dest,
                value,
            ),
            final(self).spec_existential_deposit() == old(self).spec_existential_deposit(),
    {
        if value == 0 || source == dest {
            return Ok(());
        }
        let from = self.free_balance(source);
        let to = self.free_balance(dest);
        if from < value {
            return Err(TransferError::InsufficientBalance);
        }
        if from - value < self.existential_deposit {
            return Err(TransferError::KeepAlive);
        }
        let credited = match to.checked_add(value) {
            Some(c) => c,
            None => {
                return Err(TransferError::Overflow);
            },
        };
        if credited < self.existential_deposit {
            return Err(TransferError::ExistentialDeposit);
        }
        self.free.insert(source, from - value);
        self.free.insert(dest, credited);
        Ok(())
    }
}

} // verus!
