use vstd::prelude::*;
use std::collections::HashMap;
use crate::types::{AccountId, Balance, LedgerError};

verus! {

broadcast use vstd::std_specs::hash::group_hash_axioms;

/// What the ledger holds for one account.
#[derive(Clone, Copy, PartialEq, Eq, Structural, Debug)]
pub struct AccountData {
    /// Balance that can be moved or reserved.
    pub free: Balance,
    /// Balance held on behalf of some purpose; only unreserving frees it.
    pub reserved: Balance,
    /// Number of modules that rely on this account staying alive.
    pub consumers: u32,
}

/// The data of `a`, or all zeros when the account does not exist.
pub open spec fn data_of(m: Map<AccountId, AccountData>, a: AccountId) -> AccountData {
    if m.contains_key(a) {
        m[a]
    } else {
        AccountData { free: 0, reserved: 0, consumers: 0 }
    }
}

/// Free plus reserved balance of `a`.
pub open spec fn total_of(m: Map<AccountId, AccountData>, a: AccountId) -> int {
    data_of(m, a).free + data_of(m, a).reserved
}

/// Every account's total balance fits in a balance.
pub open spec fn accounts_wf(m: Map<AccountId, AccountData>) -> bool {
    forall|a: AccountId| #[trigger] m.contains_key(a) ==> m[a].free + m[a].reserved <= u128::MAX
}

/// Moving `amount` from free to reserved on `a`.
pub open spec fn reserve_spec(m: Map<AccountId, AccountData>, a: AccountId, amount: Balance) -> Result<
    Map<AccountId, AccountData>,
    LedgerError,
> {
    if amount == 0 {
        Ok(m)
    } else if data_of(m, a).free < amount {
        Err(LedgerError::InsufficientBalance)
    } else {
        Ok(
            m.insert(
                a,
                AccountData {
                    free: (m[a].free - amount) as Balance,
                    reserved: (m[a].reserved + amount) as Balance,
                    consumers: m[a].consumers,
                },
            ),
        )
    }
}

/// The part of `amount` that unreserving can move back: at most what is reserved.
pub open spec fn unreservable(m: Map<AccountId, AccountData>, a: AccountId, amount: Balance) -> Balance {
    if data_of(m, a).reserved < amount {
        data_of(m, a).reserved
    } else {
        amount
    }
}

/// Moving up to `amount` from reserved back to free on `a`.
pub open spec fn unreserve_spec(m: Map<AccountId, AccountData>, a: AccountId, amount: Balance) -> Map<
    AccountId,
    AccountData,
> {
    if !m.contains_key(a) || unreservable(m, a, amount) == 0 {
        m
    } else {
        m.insert(
            a,
            AccountData {
                free: (m[a].free + unreservable(m, a, amount)) as Balance,
                reserved: (m[a].reserved - unreservable(m, a, amount)) as Balance,
                consumers: m[a].consumers,
            },
        )
    }
}

/// Moving `amount` of free balance from `from` to `to`. An account whose total
/// falls below `ed` is removed, which is refused when `allow_death` is false or
/// when the account has consumers.
pub open spec fn transfer_spec(
    m: Map<AccountId, AccountData>,
    ed: Balance,
    from: AccountId,
    to: AccountId,
    amount: Balance,
    allow_death: bool,
) -> Result<Map<AccountId, AccountData>, LedgerError> {
    if amount == 0 || from == to {
        Ok(m)
    } else if data_of(m, from).free < amount {
        Err(LedgerError::InsufficientBalance)
    } else if !m.contains_key(to) && amount < ed {
        Err(LedgerError::ExistentialDeposit)
    } else if total_of(m, to) + amount > u128::MAX {
        Err(LedgerError::Overflow)
    } else if total_of(m, from) - amount < ed && !allow_death {
        Err(LedgerError::KeepAlive)
    } else if total_of(m, from) - amount < ed && m[from].consumers > 0 {
        Err(LedgerError::ConsumerRemaining)
    } else {
        let credited = m.insert(
            to,
            AccountData {
                free: (data_of(m, to).free + amount) as Balance,
                reserved: data_of(m, to).reserved,
                consumers: data_of(m, to).consumers,
            },
        );
        if total_of(m, from) - amount < ed {
            Ok(credited.remove(from))
        } else {
            Ok(
                credited.insert(
                    from,
                    AccountData {
                        free: (m[from].free - amount) as Balance,
                        reserved: m[from].reserved,
                        consumers: m[from].consumers,
                    },
                ),
            )
        }
    }
}

/// Registering one more consumer of `a`.
pub open spec fn inc_consumers_spec(m: Map<AccountId, AccountData>, a: AccountId) -> Result<
    Map<AccountId, AccountData>,
    LedgerError,
> {
    if !m.contains_key(a) {
        Err(LedgerError::NoProviders)
    } else if m[a].consumers == u32::MAX {
        Err(LedgerError::TooManyConsumers)
    } else {
        Ok(
            m.insert(
                a,
                AccountData {
                    free: m[a].free,
                    reserved: m[a].reserved,
                    consumers: (m[a].consumers + 1) as u32,
                },
            ),
        )
    }
}

/// Deregistering one consumer of `a`, if it has any.
pub open spec fn dec_consumers_spec(m: Map<AccountId, AccountData>, a: AccountId) -> Map<
    AccountId,
    AccountData,
> {
    if m.contains_key(a) && m[a].consumers > 0 {
        m.insert(
            a,
            AccountData {
                free: m[a].free,
                reserved: m[a].reserved,
                consumers: (m[a].consumers - 1) as u32,
            },
        )
    } else {
        m
    }
}

/// Adding `amount` to the free balance of `a`, creating the account if needed.
pub open spec fn endow_spec(
    m: Map<AccountId, AccountData>,
    ed: Balance,
    a: AccountId,
    amount: Balance,
) -> Result<Map<AccountId, AccountData>, LedgerError> {
    if amount == 0 {
        Ok(m)
    } else if !m.contains_key(a) && amount < ed {
        Err(LedgerError::ExistentialDeposit)
    } else if total_of(m, a) + amount > u128::MAX {
        Err(LedgerError::Overflow)
    } else {
        Ok(
            m.insert(
                a,
                AccountData {
                    free: (data_of(m, a).free + amount) as Balance,
                    reserved: data_of(m, a).reserved,
                    consumers: data_of(m, a).consumers,
                },
            ),
        )
    }
}

/// An in-memory `Currency`: free and reserved balances, an existential
/// deposit below which accounts are removed, and per-account consumer counts.
pub struct Balances {
    accounts: HashMap<AccountId, AccountData>,
    existential_deposit: Balance,
}

impl View for Balances {
    type V = Map<AccountId, AccountData>;

    closed spec fn view(&self) -> Map<AccountId, AccountData> {
        self.accounts@
    }
}

impl Balances {
    /// Every account's total fits in a balance.
    pub open spec fn wf(&self) -> bool {
        accounts_wf(self@)
    }

    /// An empty ledger with the given existential deposit.
    pub fn new(existential_deposit: Balance) -> (r: Balances)
        ensures
            r@ == Map::<AccountId, AccountData>::empty(),
            r.ed() == existential_deposit,
            r.wf(),
    {
        Balances { accounts: HashMap::new(), existential_deposit }
    }

    /// The data of `who`, zeros when the account does not exist.
    pub fn account(&self, who: AccountId) -> (r: AccountData)
        ensures
            r == data_of(self@, who),
    {
        match self.accounts.get(&who) {
            Some(d) => *d,
            None => AccountData { free: 0, reserved: 0, consumers: 0 },
        }
    }

    /// The free balance of `who`.
    pub fn free_balance(&self, who: AccountId) -> (r: Balance)
        ensures
            r == data_of(self@, who).free,
    {
        self.account(who).free
    }

    /// The reserved balance of `who`.
    pub fn reserved_balance(&self, who: AccountId) -> (r: Balance)
        ensures
            r == data_of(self@, who).reserved,
    {
        self.account(who).reserved
    }

    /// The number of consumers of `who`.
    pub fn consumers(&self, who: AccountId) -> (r: u32)
        ensures
            r == data_of(self@, who).consumers,
    {
        self.account(who).consumers
    }

    /// Whether `who` exists on the ledger.
    pub fn account_exists(&self, who: AccountId) -> (r: bool)
        ensures
            r == self@.contains_key(who),
    {
        self.accounts.contains_key(&who)
    }

    /// Number of providers of `who`: one for an existing account, else zero.
    pub fn providers(&self, who: AccountId) -> (r: u32)
        ensures
            r == (if self@.contains_key(who) { 1u32 } else { 0u32 }),
    {
        if self.accounts.contains_key(&who) {
            1
        } else {
            0
        }
    }

    /// Credits `amount` of new tokens to `who`.
    pub fn endow(&mut self, who: AccountId, amount: Balance) -> (r: Result<(), LedgerError>)
        requires
            old(self).wf(),
        ensures
            final(self).wf(),
            final(self).ed() == old(self).ed(),
            match endow_spec(old(self)@, old(self).ed(), who, amount) {
                Ok(m) => r.is_ok() && final(self)@ == m,
                Err(e) => r == Err::<(), LedgerError>(e) && final(self)@ == old(self)@,
            },
    {
        if amount == 0 {
            return Ok(());
        }
        let d = self.account(who);
        if !self.accounts.contains_key(&who) && amount < self.existential_deposit {
            return Err(LedgerError::ExistentialDeposit);
        }
        if d.reserved > u128::MAX - d.free || amount > u128::MAX - d.free - d.reserved {
            return Err(LedgerError::Overflow);
        }
        self.accounts.insert(
            who,
            AccountData { free: d.free + amount, reserved: d.reserved, consumers: d.consumers },
        );
        Ok(())
    }

}

/// The ledger that the engine reserves deposits on and moves funds with.
///
/// Implementations hold, for each account, a free and a reserved balance and
/// a consumer count; an account whose total falls below the existential
/// deposit is removed. Each operation either does exactly what its spec
/// function describes or fails with that function's error and changes
/// nothing.
pub trait Currency: Sized {
    /// What the ledger holds for each account.
    spec fn accounts(&self) -> Map<AccountId, AccountData>;

    /// The smallest total balance an account may hold.
    spec fn ed(&self) -> Balance;

    /// The smallest total balance an account may hold.
    fn minimum_balance(&self) -> (r: Balance)
        ensures
            r == self.ed(),
    ;

    /// Free plus reserved balance of `who`.
    fn total_balance(&self, who: AccountId) -> (r: Balance)
        requires
            accounts_wf(self.accounts()),
        ensures
            r == total_of(self.accounts(), who),
    ;

    /// A copy of the ledger, to roll back to.
    fn snapshot(&self) -> (r: Self)
        ensures
            r.accounts() == self.accounts(),
            r.ed() == self.ed(),
    ;

    /// Moves `amount` from the free to the reserved balance of `who`.
    fn reserve(&mut self, who: AccountId, amount: Balance) -> (r: Result<(), LedgerError>)
        requires
            accounts_wf(old(self).accounts()),
        ensures
            accounts_wf(final(self).accounts()),
            final(self).ed() == old(self).ed(),
            match reserve_spec(old(self).accounts(), who, amount) {
                Ok(m) => r.is_ok() && final(self).accounts() == m,
                Err(e) => r == Err::<(), LedgerError>(e) && final(self).accounts() == old(self).accounts(),
            },
    ;

    /// Moves up to `amount` from the reserved back to the free balance of
    /// `who`; returns the part of `amount` that was not reserved.
    fn unreserve(&mut self, who: AccountId, amount: Balance) -> (r: Balance)
        requires
            accounts_wf(old(self).accounts()),
        ensures
            accounts_wf(final(self).accounts()),
            final(self).ed() == old(self).ed(),
            final(self).accounts() == unreserve_spec(old(self).accounts(), who, amount),
            r == amount - unreservable(old(self).accounts(), who, amount),
    ;

    /// Moves `amount` of free balance from `from` to `to`.
    fn transfer(&mut self, from: AccountId, to: AccountId, amount: Balance, allow_death: bool) -> (r:
        Result<(), LedgerError>)
        requires
            accounts_wf(old(self).accounts()),
        ensures
            accounts_wf(final(self).accounts()),
            final(self).ed() == old(self).ed(),
            match transfer_spec(old(self).accounts(), old(self).ed(), from, to, amount, allow_death) {
                Ok(m) => r.is_ok() && final(self).accounts() == m,
                Err(e) => r == Err::<(), LedgerError>(e) && final(self).accounts() == old(self).accounts(),
            },
    ;

    /// Registers one more consumer of `who`, which must exist.
    fn inc_consumers(&mut self, who: AccountId) -> (r: Result<(), LedgerError>)
        requires
            accounts_wf(old(self).accounts()),
        ensures
            accounts_wf(final(self).accounts()),
            final(self).ed() == old(self).ed(),
            match inc_consumers_spec(old(self).accounts(), who) {
                Ok(m) => r.is_ok() && final(self).accounts() == m,
                Err(e) => r == Err::<(), LedgerError>(e) && final(self).accounts() == old(self).accounts(),
            },
    ;

    /// Deregisters one consumer of `who`, if it has any.
    fn dec_consumers(&mut self, who: AccountId)
        requires
            accounts_wf(old(self).accounts()),
        ensures
            accounts_wf(final(self).accounts()),
            final(self).ed() == old(self).ed(),
            final(self).accounts() == dec_consumers_spec(old(self).accounts(), who),
    ;
}

impl Currency for Balances {
    closed spec fn accounts(&self) -> Map<AccountId, AccountData> {
        self@
    }

    closed spec fn ed(&self) -> Balance {
        self.existential_deposit
    }

    fn minimum_balance(&self) -> (r: Balance) {
        self.existential_deposit
    }

    fn total_balance(&self, who: AccountId) -> (r: Balance) {
        let d = self.account(who);
        d.free + d.reserved
    }

    fn snapshot(&self) -> (r: Self) {
        Balances { accounts: self.accounts.clone(), existential_deposit: self.existential_deposit }
    }

    fn reserve(&mut self, who: AccountId, amount: Balance) -> (r: Result<(), LedgerError>) {
        if amount == 0 {
            return Ok(());
        }
        let d = self.account(who);
        if d.free < amount {
            return Err(LedgerError::InsufficientBalance);
        }
        self.accounts.insert(
            who,
            AccountData { free: d.free - amount, reserved: d.reserved + amount, consumers: d.consumers },
        );
        Ok(())
    }

    fn unreserve(&mut self, who: AccountId, amount: Balance) -> (r: Balance) {
        let d = self.account(who);
        let actual: Balance = if d.reserved < amount {
            d.reserved
        } else {
            amount
        };
        if !self.accounts.contains_key(&who) || actual == 0 {
            return amount - actual;
        }
        self.accounts.insert(
            who,
            AccountData { free: d.free + actual, reserved: d.reserved - actual, consumers: d.consumers },
        );
        amount - actual
    }

    fn transfer(&mut self, from: AccountId, to: AccountId, amount: Balance, allow_death: bool) -> (r:
        Result<(), LedgerError>) {
        if amount == 0 || from == to {
            return Ok(());
        }
        let src = self.account(from);
        let dst = self.account(to);
        let ed = self.existential_deposit;
        if src.free < amount {
            return Err(LedgerError::InsufficientBalance);
        }
        if !self.accounts.contains_key(&to) && amount < ed {
            return Err(LedgerError::ExistentialDeposit);
        }
        if amount > u128::MAX - dst.free - dst.reserved {
            return Err(LedgerError::Overflow);
        }
        let remaining: Balance = src.free - amount + src.reserved;
        if remaining < ed && !allow_death {
            return Err(LedgerError::KeepAlive);
        }
        if remaining < ed && src.consumers > 0 {
            return Err(LedgerError::ConsumerRemaining);
        }
        self.accounts.insert(
            to,
            AccountData { free: dst.free + amount, reserved: dst.reserved, consumers: dst.consumers },
        );
        if remaining < ed {
            self.accounts.remove(&from);
        } else {
            self.accounts.insert(
                from,
                AccountData { free: src.free - amount, reserved: src.reserved, consumers: src.consumers },
            );
        }
        Ok(())
    }

    fn inc_consumers(&mut self, who: AccountId) -> (r: Result<(), LedgerError>) {
        if !self.accounts.contains_key(&who) {
            return Err(LedgerError::NoProviders);
        }
        let d = self.account(who);
        if d.consumers == u32::MAX {
            return Err(LedgerError::TooManyConsumers);
        }
        self.accounts.insert(
            who,
            AccountData { free: d.free, reserved: d.reserved, consumers: d.consumers + 1 },
        );
        Ok(())
    }

    fn dec_consumers(&mut self, who: AccountId) {
        let d = self.account(who);
        if self.accounts.contains_key(&who) && d.consumers > 0 {
            self.accounts.insert(
                who,
                AccountData { free: d.free, reserved: d.reserved, consumers: d.consumers - 1 },
            );
        }
    }
}

} // verus!
