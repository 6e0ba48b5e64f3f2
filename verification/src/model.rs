//! Per-client account state and its five operations.
//!
//! [`ClientState`] is the balance record of one client: available funds,
//! held funds, their total and a lock flag. Each operation is specified by
//! a pure function on the mathematical view [`AccountView`]; the executable
//! methods are proved to follow those functions exactly and to leave the
//! state untouched whenever they return an error.

use vstd::prelude::*;

use crate::amount::Amount;

verus! {

/// Identifier of one client account.
#[derive(Clone, Copy, Debug, PartialEq, Eq, Hash, Structural)]
pub struct ClientId(pub u16);

impl ClientId {
    /// Wraps a raw client identifier.
    pub fn new(id: u16) -> (r: ClientId)
        ensures
            r == (ClientId(id)),
    {
        ClientId(id)
    }
}

/// Identifier of one deposit or withdrawal, referenced by later disputes.
#[derive(Clone, Copy, Debug, PartialEq, Eq, Hash, Structural)]
pub struct TransactionId(pub u32);

impl TransactionId {
    /// Wraps a raw transaction identifier.
    pub fn new(id: u32) -> (r: TransactionId)
        ensures
            r == (TransactionId(id)),
    {
        TransactionId(id)
    }
}

/// The five kinds of transaction record.
#[derive(Clone, Copy, Debug, PartialEq, Eq, Structural)]
pub enum TransactionType {
    Deposit,
    Withdrawal,
    Dispute,
    Resolve,
    Chargeback,
}

/// A single transaction record to process. The amount is present on
/// deposits and withdrawals and absent on dispute-family records, which
/// recover it from the referenced prior transaction.
#[derive(Clone, Copy, Debug, PartialEq, Eq)]
pub struct Transaction {
    pub kind: TransactionType,
    pub client_id: ClientId,
    pub transaction_id: TransactionId,
    pub amount: Option<Amount>,
}

/// Errors of the account operations themselves.
#[derive(Clone, Copy, Debug, PartialEq, Eq, Structural)]
pub enum TransactionError {
    /// The supplied amount is negative; it carries the offending amount.
    InvalidAmount(Amount),
    /// Available (or held) funds do not cover the requested amount.
    InsufficientFunds,
    /// The account is locked and does not accept the operation.
    AccountLocked,
}

/// The mathematical value of a [`ClientState`]: balances as unbounded
/// integers counted in ten-thousandths.
pub struct AccountView {
    pub client_id: ClientId,
    pub available: int,
    pub held: int,
    pub total: int,
    pub locked: bool,
}

/// The balance sheet adds up: total funds are available plus held funds.
pub open spec fn balanced(a: AccountView) -> bool {
    a.total == a.available + a.held
}

/// Whether a mathematical balance is representable in the machine integers
/// that `ClientState` stores.
pub open spec fn in_amount_range(v: int) -> bool {
    i128::MIN <= v <= i128::MAX
}

/// Whether all three balances of an account are representable.
pub open spec fn account_fits(a: AccountView) -> bool {
    in_amount_range(a.available) && in_amount_range(a.held) && in_amount_range(a.total)
}

/// A fresh account: zero balances, unlocked.
pub open spec fn spec_new_account(client_id: ClientId) -> AccountView {
    AccountView { client_id, available: 0, held: 0, total: 0, locked: false }
}

/// What a deposit does: rejects a negative amount, otherwise credits the
/// available and total funds. A lock does not block deposits.
pub open spec fn spec_deposit(s: AccountView, amount: Amount) -> (AccountView, Result<
    (),
    TransactionError,
>) {
    if amount@ < 0 {
        (s, Err(TransactionError::InvalidAmount(amount)))
    } else {
        (
            AccountView { available: s.available + amount@, total: s.total + amount@, ..s },
            Ok(()),
        )
    }
}

/// What a withdrawal does: refused on a locked account, for a negative
/// amount, and when available funds do not cover it; otherwise debits the
/// available and total funds.
pub open spec fn spec_withdraw(s: AccountView, amount: Amount) -> (AccountView, Result<
    (),
    TransactionError,
>) {
    if s.locked {
        (s, Err(TransactionError::AccountLocked))
    } else if amount@ < 0 {
        (s, Err(TransactionError::InvalidAmount(amount)))
    } else if s.available < amount@ {
        (s, Err(TransactionError::InsufficientFunds))
    } else {
        (
            AccountView { available: s.available - amount@, total: s.total - amount@, ..s },
            Ok(()),
        )
    }
}

/// What disputing a deposit does: rejects a negative amount, otherwise
/// moves the amount from available to held funds; the total is unchanged.
pub open spec fn spec_dispute(s: AccountView, amount: Amount) -> (AccountView, Result<
    (),
    TransactionError,
>) {
    if amount@ < 0 {
        (s, Err(TransactionError::InvalidAmount(amount)))
    } else {
        (
            AccountView { available: s.available - amount@, held: s.held + amount@, ..s },
            Ok(()),
        )
    }
}

/// What resolving a dispute does: rejects a negative amount and one not
/// covered by the held funds, otherwise moves the amount back from held to
/// available funds; the total is unchanged.
pub open spec fn spec_resolve(s: AccountView, amount: Amount) -> (AccountView, Result<
    (),
    TransactionError,
>) {
    if amount@ < 0 {
        (s, Err(TransactionError::InvalidAmount(amount)))
    } else if s.held < amount@ {
        (s, Err(TransactionError::InsufficientFunds))
    } else {
        (
            AccountView { available: s.available + amount@, held: s.held - amount@, ..s },
            Ok(()),
        )
    }
}

/// What a chargeback does: rejects a negative amount and one not covered by
/// the held funds, otherwise removes the amount from held and total funds
/// and locks the account for good.
pub open spec fn spec_chargeback(s: AccountView, amount: Amount) -> (AccountView, Result<
    (),
    TransactionError,
>) {
    if amount@ < 0 {
        (s, Err(TransactionError::InvalidAmount(amount)))
    } else if s.held < amount@ {
        (s, Err(TransactionError::InsufficientFunds))
    } else {
        (
            AccountView {
                held: s.held - amount@,
                total: s.total - amount@,
                locked: true,
                ..s
            },
            Ok(()),
        )
    }
}

/// Single client state after applying a list of transactions.
#[derive(Clone, Copy, Debug)]
pub struct ClientState {
    client_id: ClientId,
    /// The funds that are available for withdrawal.
    available: Amount,
    /// The funds that are held pending dispute resolution.
    held: Amount,
    /// The funds that are available or held.
    total: Amount,
    /// Whether the account is locked.
    locked: bool,
}

impl View for ClientState {
    type V = AccountView;

    closed spec fn view(&self) -> AccountView {
        AccountView {
            client_id: self.client_id,
            available: self.available@,
            held: self.held@,
            total: self.total@,
            locked: self.locked,
        }
    }
}

impl ClientState {
    /// Creates a new state with no funds.
    pub fn new(client_id: ClientId) -> (r: Self)
        ensures
            r@ == spec_new_account(client_id),
    {
        Self {
            client_id,
            available: Amount::zero(),
            held: Amount::zero(),
            total: Amount::zero(),
            locked: false,
        }
    }

    /// Deposits some funds into the account, increasing the available amount.
    pub fn deposit(&mut self, amount: Amount) -> (r: Result<(), TransactionError>)
        requires
            account_fits(spec_deposit(old(self)@, amount).0),
        ensures
            final(self)@ == spec_deposit(old(self)@, amount).0,
            r == spec_deposit(old(self)@, amount).1,
    {
        if amount.is_negative() {
            return Err(TransactionError::InvalidAmount(amount));
        }
        self.available = Amount(self.available.0 + amount.0);
        self.total = Amount(self.total.0 + amount.0);
        Ok(())
    }

    /// Withdraws funds from the account. Does not allow for negative balance.
    pub fn withdraw(&mut self, amount: Amount) -> (r: Result<(), TransactionError>)
        requires
            account_fits(spec_withdraw(old(self)@, amount).0),
        ensures
            final(self)@ == spec_withdraw(old(self)@, amount).0,
            r == spec_withdraw(old(self)@, amount).1,
    {
        if self.locked {
            return Err(TransactionError::AccountLocked);
        }
        if amount.is_negative() {
            return Err(TransactionError::InvalidAmount(amount));
        }
        if self.available.0 < amount.0 {
            return Err(TransactionError::InsufficientFunds);
        }
        self.available = Amount(self.available.0 - amount.0);
        self.total = Amount(self.total.0 - amount.0);
        Ok(())
    }

    /// Disputes a deposited amount: the available funds decrease by the
    /// disputed amount, the held funds increase by it, and the total funds
    /// remain the same.
    pub fn dispute(&mut self, amount: Amount) -> (r: Result<(), TransactionError>)
        requires
            account_fits(spec_dispute(old(self)@, amount).0),
        ensures
            final(self)@ == spec_dispute(old(self)@, amount).0,
            r == spec_dispute(old(self)@, amount).1,
    {
        if amount.is_negative() {
            return Err(TransactionError::InvalidAmount(amount));
        }
        self.available = Amount(self.available.0 - amount.0);
        self.held = Amount(self.held.0 + amount.0);
        Ok(())
    }

    /// Resolves a disputed amount, releasing the held funds back to the
    /// available funds.
    pub fn resolve(&mut self, amount: Amount) -> (r: Result<(), TransactionError>)
        requires
            account_fits(spec_resolve(old(self)@, amount).0),
        ensures
            final(self)@ == spec_resolve(old(self)@, amount).0,
            r == spec_resolve(old(self)@, amount).1,
    {
        if amount.is_negative() {
            return Err(TransactionError::InvalidAmount(amount));
        }
        if self.held.0 < amount.0 {
            return Err(TransactionError::InsufficientFunds);
        }
        self.available = Amount(self.available.0 + amount.0);
        self.held = Amount(self.held.0 - amount.0);
        Ok(())
    }

    /// Issues a chargeback on a disputed amount and locks the account, so
    /// no further withdrawals can take place.
    pub fn chargeback(&mut self, amount: Amount) -> (r: Result<(), TransactionError>)
        requires
            account_fits(spec_chargeback(old(self)@, amount).0),
        ensures
            final(self)@ == spec_chargeback(old(self)@, amount).0,
            r == spec_chargeback(old(self)@, amount).1,
    {
        if amount.is_negative() {
            return Err(TransactionError::InvalidAmount(amount));
        }
        if self.held.0 < amount.0 {
            return Err(TransactionError::InsufficientFunds);
        }
        self.held = Amount(self.held.0 - amount.0);
        self.total = Amount(self.total.0 - amount.0);
        self.locked = true;
        Ok(())
    }

    /// The identifier of the client this account belongs to.
    pub fn client_id(&self) -> (r: ClientId)
        ensures
            r == self@.client_id,
    {
        self.client_id
    }

    /// The funds available for withdrawal.
    pub fn available(&self) -> (r: Amount)
        ensures
            r@ == self@.available,
    {
        self.available
    }

    /// The funds held for dispute.
    pub fn held(&self) -> (r: Amount)
        ensures
            r@ == self@.held,
    {
        self.held
    }

    /// The funds that are available or held.
    pub fn total(&self) -> (r: Amount)
        ensures
            r@ == self@.total,
    {
        self.total
    }

    /// Whether the account is locked.
    pub fn locked(&self) -> (r: bool)
        ensures
            r == self@.locked,
    {
        self.locked
    }
}

} // verus!
