//! Ledger state for a single client: available funds, held funds, and an
//! irreversible lock flag, together with the only legal balance-mutating
//! operations.
//!
//! Every operation is fail-closed: when its guard does not hold it leaves the
//! account untouched instead of corrupting balances or panicking. Amounts are
//! counts of millionths (10^-6) of the currency unit.

use vstd::prelude::*;

verus! {

/// One client's balances. `available` and `held` are in millionths of the
/// currency unit; `total` is the derived sum of the two.
#[derive(Clone, Copy, Debug, PartialEq, Eq, Structural)]
pub struct Account {
    pub available: u64,
    pub held: u64,
    pub locked: bool,
}

impl Account {
    /// Well-formedness: the total fits the machine representation, so every
    /// move between `available` and `held` stays free of overflow.
    pub open spec fn wf(&self) -> bool {
        self.available + self.held <= u64::MAX
    }

    /// The account every client starts from: zero balances, unlocked.
    pub open spec fn spec_new() -> Account {
        Account { available: 0, held: 0, locked: false }
    }

    /// Derived total: available plus held.
    pub open spec fn spec_total(&self) -> int {
        self.available + self.held
    }

    /// A deposit applies while the account is unlocked and the new total
    /// still fits the representation.
    pub open spec fn can_deposit(self, amount: u64) -> bool {
        &&& !self.locked
        &&& self.available + self.held + amount <= u64::MAX
    }

    pub open spec fn spec_deposit(self, amount: u64) -> Account {
        if self.can_deposit(amount) {
            Account { available: (self.available + amount) as u64, ..self }
        } else {
            self
        }
    }

    /// A withdrawal applies while the account is unlocked and covered.
    pub open spec fn can_withdraw(self, amount: u64) -> bool {
        !self.locked && amount <= self.available
    }

    pub open spec fn spec_withdraw(self, amount: u64) -> Account {
        if self.can_withdraw(amount) {
            Account { available: (self.available - amount) as u64, ..self }
        } else {
            self
        }
    }

    /// A hold moves covered funds out of `available`; it needs an unlocked
    /// account, like a withdrawal.
    pub open spec fn can_hold(self, amount: u64) -> bool {
        !self.locked && amount <= self.available
    }

    pub open spec fn spec_hold(self, amount: u64) -> Account {
        if self.can_hold(amount) {
            Account {
                available: (self.available - amount) as u64,
                held: (self.held + amount) as u64,
                ..self
            }
        } else {
            self
        }
    }

    /// A release moves funds back from `held` to `available`.
    pub open spec fn can_release(self, amount: u64) -> bool {
        !self.locked && amount <= self.held
    }

    pub open spec fn spec_release(self, amount: u64) -> Account {
        if self.can_release(amount) {
            Account {
                available: (self.available + amount) as u64,
                held: (self.held - amount) as u64,
                ..self
            }
        } else {
            self
        }
    }

    /// A chargeback removes covered funds from `held` and locks the account.
    /// It is the one operation allowed through a lock, so that disputes opened
    /// before the account froze can still run to completion.
    pub open spec fn can_chargeback(self, amount: u64) -> bool {
        amount <= self.held
    }

    pub open spec fn spec_chargeback(self, amount: u64) -> Account {
        if self.can_chargeback(amount) {
            Account { held: (self.held - amount) as u64, locked: true, ..self }
        } else {
            self
        }
    }

    pub fn new() -> (account: Account)
        ensures
            account == Account::spec_new(),
    {
        Account { available: 0, held: 0, locked: false }
    }

    pub fn total(&self) -> (total: u64)
        requires
            self.wf(),
        ensures
            total == self.spec_total(),
    {
        self.available + self.held
    }

    pub fn deposit(&mut self, amount: u64)
        requires
            old(self).wf(),
        ensures
            *final(self) == old(self).spec_deposit(amount),
            final(self).wf(),
    {
        if !self.locked && amount <= u64::MAX - self.available - self.held {
            self.available = self.available + amount;
        }
    }

    pub fn withdraw(&mut self, amount: u64) -> (applied: bool)
        requires
            old(self).wf(),
        ensures
            *final(self) == old(self).spec_withdraw(amount),
            applied == old(self).can_withdraw(amount),
            final(self).wf(),
    {
        if !self.locked && self.available >= amount {
            self.available = self.available - amount;
            true
        } else {
            false
        }
    }

    pub fn hold_funds(&mut self, amount: u64)
        requires
            old(self).wf(),
        ensures
            *final(self) == old(self).spec_hold(amount),
            final(self).wf(),
    {
        if !self.locked && self.available >= amount {
            self.available = self.available - amount;
            self.held = self.held + amount;
        }
    }

    pub fn release_funds(&mut self, amount: u64)
        requires
            old(self).wf(),
        ensures
            *final(self) == old(self).spec_release(amount),
            final(self).wf(),
    {
        if !self.locked && self.held >= amount {
            self.held = self.held - amount;
            self.available = self.available + amount;
        }
    }

    pub fn chargeback(&mut self, amount: u64)
        requires
            old(self).wf(),
        ensures
            *final(self) == old(self).spec_chargeback(amount),
            final(self).wf(),
    {
        if self.held >= amount {
            self.held = self.held - amount;
            self.locked = true;
        }
    }
}

/// A withdrawal past the available balance (or on a locked account) is
/// refused: it returns `false` and moves nothing.
pub proof fn lemma_withdraw_fails_closed(account: Account, amount: u64)
    ensures
        amount > account.available || account.locked ==> !account.can_withdraw(amount)
            && account.spec_withdraw(amount) == account,
{
}

/// Once an account is locked, deposits, withdrawals, holds and releases are
/// all no-ops; only a chargeback may still move held funds.
pub proof fn lemma_locked_account_frozen(account: Account, amount: u64)
    requires
        account.locked,
    ensures
        account.spec_deposit(amount) == account,
        account.spec_withdraw(amount) == account,
        account.spec_hold(amount) == account,
        account.spec_release(amount) == account,
{
}

/// Rounds a count of millionths (10^-6) to the nearest count of
/// ten-thousandths (10^-4), ties to the even neighbour — the convention used
/// for every figure of an output row.
pub open spec fn spec_round_dp4(micros: u64) -> u64 {
    let whole = micros as int / 100;
    let part = micros as int % 100;
    if part > 50 || (part == 50 && whole % 2 == 1) {
        (whole + 1) as u64
    } else {
        whole as u64
    }
}

pub fn round_dp4(micros: u64) -> (rounded: u64)
    ensures
        rounded == spec_round_dp4(micros),
{
    let whole = micros / 100;
    let part = micros % 100;
    if part > 50 || (part == 50 && whole % 2 == 1) {
        whole + 1
    } else {
        whole
    }
}

/// One output row: the balances of one client, rounded to four decimal
/// places. The three amounts are counts of ten-thousandths (10^-4) of the
/// currency unit; rounding is applied only here, at output time, never to the
/// running balances.
#[derive(Clone, Copy, Debug, PartialEq, Eq, Structural)]
pub struct AccountOutput {
    pub client: u16,
    pub available: u64,
    pub held: u64,
    pub total: u64,
    pub locked: bool,
}

impl AccountOutput {
    pub open spec fn spec_from(client: u16, account: Account) -> AccountOutput
        recommends
            account.wf(),
    {
        AccountOutput {
            client,
            available: spec_round_dp4(account.available),
            held: spec_round_dp4(account.held),
            total: spec_round_dp4((account.available + account.held) as u64),
            locked: account.locked,
        }
    }

    pub fn from_account(client: u16, account: &Account) -> (row: AccountOutput)
        requires
            account.wf(),
        ensures
            row == AccountOutput::spec_from(client, *account),
    {
        AccountOutput {
            client,
            available: round_dp4(account.available),
            held: round_dp4(account.held),
            total: round_dp4(account.total()),
            locked: account.locked,
        }
    }
}

} // verus!
