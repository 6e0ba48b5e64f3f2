//! The transaction processor.
//!
//! [`TransactionProcessor`] owns the account ledger: per client, one
//! [`ClientState`] and the history of that client's deposits and
//! withdrawals with their dispute lifecycle. A batch of transaction records
//! is applied in input order; every per-record failure is collected and the
//! run continues. The whole run is specified by the pure functions
//! [`spec_apply`], [`spec_step`] and [`spec_run`], and the executable code
//! is proved to follow them exactly.

use std::collections::HashMap;
use vstd::prelude::*;

use crate::amount::Amount;
use crate::laws::lemma_run_fits_when_bounded;
use crate::model::{
    account_fits, spec_chargeback, spec_deposit, spec_dispute, spec_new_account, spec_resolve,
    spec_withdraw, AccountView, ClientId, ClientState, Transaction, TransactionError,
    TransactionId, TransactionType,
};

verus! {

broadcast use vstd::std_specs::hash::group_hash_axioms;

/// Per-record processing errors. All of them are recoverable: the offending
/// record is skipped, the error collected, and the run continues.
#[derive(Clone, Copy, Debug, PartialEq, Eq, Structural)]
pub enum ProcessingError {
    /// A deposit or withdrawal record came without an amount.
    MissingAmount(TransactionId),
    /// The referenced transaction is not an applied deposit.
    CannotDispute(TransactionId),
    /// The referenced transaction is not under dispute.
    CannotResolveOrChargeBack(TransactionId),
    /// The account operation itself failed.
    TransactionError { transaction_id: TransactionId, error: TransactionError },
}

/// Dispute lifecycle of a recorded deposit or withdrawal.
#[derive(Clone, Copy, Debug, PartialEq, Eq, Structural)]
pub enum TransactionState {
    /// Applied and not under dispute; a deposit in this state may be disputed.
    Applied,
    /// Under dispute; may be resolved or charged back.
    Disputed,
    /// Charged back; terminal, no further lifecycle transition succeeds.
    ChargedBack,
}

impl TransactionState {
    /// Only an applied transaction can be disputed, not one already
    /// disputed or charged back.
    pub fn can_dispute(self) -> (r: bool)
        ensures
            r == (self == TransactionState::Applied),
    {
        self == TransactionState::Applied
    }

    /// Only a disputed transaction can be resolved or charged back.
    pub fn can_resolve_or_charge_back(self) -> (r: bool)
        ensures
            r == (self == TransactionState::Disputed),
    {
        self == TransactionState::Disputed
    }
}

/// What the history remembers of one applied deposit or withdrawal.
#[derive(Clone, Copy, Debug, PartialEq, Eq, Structural)]
pub struct TransactionInfo {
    pub amount: Amount,
    pub state: TransactionState,
    pub kind: TransactionType,
}

/// A freshly recorded transaction: applied, not under dispute.
pub open spec fn spec_new_record(amount: Amount, kind: TransactionType) -> TransactionInfo {
    TransactionInfo { amount, state: TransactionState::Applied, kind }
}

/// Only an applied deposit can be disputed; withdrawal disputes are
/// rejected by rule.
pub open spec fn spec_can_dispute(info: TransactionInfo) -> bool {
    info.kind == TransactionType::Deposit && info.state == TransactionState::Applied
}

/// Only a transaction under dispute can be resolved or charged back.
pub open spec fn spec_can_resolve_or_charge_back(info: TransactionInfo) -> bool {
    info.state == TransactionState::Disputed
}

impl TransactionInfo {
    /// Records a freshly applied transaction.
    pub fn new(amount: Amount, kind: TransactionType) -> (r: Self)
        ensures
            r == spec_new_record(amount, kind),
    {
        Self { amount, state: TransactionState::Applied, kind }
    }

    /// Whether this record may be disputed.
    pub fn can_dispute(&self) -> (r: bool)
        ensures
            r == spec_can_dispute(*self),
    {
        (match self.kind {
            TransactionType::Deposit => true,
            _ => false,
        }) && self.state.can_dispute()
    }

    /// Whether this record may be resolved or charged back.
    pub fn can_resolve_or_charge_back(&self) -> (r: bool)
        ensures
            r == spec_can_resolve_or_charge_back(*self),
    {
        self.state.can_resolve_or_charge_back()
    }
}

/// The mathematical value of one ledger entry: the account and the
/// recorded transaction history, keyed by raw transaction id.
#[verifier::ext_equal]
pub struct ClientView {
    pub state: AccountView,
    pub transactions: Map<u32, TransactionInfo>,
}

/// The mathematical value of the whole ledger: the clients in order of
/// first reference, and per raw client id the entry.
#[verifier::ext_equal]
pub struct LedgerView {
    pub order: Seq<ClientId>,
    pub clients: Map<u16, ClientView>,
}

/// A ledger entry created on first reference: fresh account, no history.
pub open spec fn spec_new_client(client_id: ClientId) -> ClientView {
    ClientView { state: spec_new_account(client_id), transactions: Map::empty() }
}

/// The ledger before any transaction: no clients.
pub open spec fn spec_empty_ledger() -> LedgerView {
    LedgerView { order: Seq::empty(), clients: Map::empty() }
}

/// What processing one record does to the referenced client's entry:
/// the new entry, and the error to collect, if any.
///
/// A deposit or withdrawal needs an amount and applies the account
/// operation; on success it is recorded as applied, overwriting any record
/// under the same id. A dispute-family record referencing an unknown id is
/// silently ignored; one referencing a record in the wrong lifecycle state
/// (or disputing a non-deposit) fails without touching the entry; otherwise
/// the account operation runs with the recorded amount and, on success, the
/// lifecycle advances (dispute: applied to disputed; resolve: back to
/// applied; chargeback: to charged-back).
pub open spec fn spec_apply(c: ClientView, tx: Transaction) -> (ClientView, Option<
    ProcessingError,
>) {
    match tx.kind {
        TransactionType::Deposit | TransactionType::Withdrawal => match tx.amount {
            None => (c, Some(ProcessingError::MissingAmount(tx.transaction_id))),
            Some(amount) => {
                let op = if tx.kind == TransactionType::Deposit {
                    spec_deposit(c.state, amount)
                } else {
                    spec_withdraw(c.state, amount)
                };
                match op.1 {
                    Ok(_) => (
                        ClientView {
                            state: op.0,
                            transactions: c.transactions.insert(
                                tx.transaction_id.0,
                                spec_new_record(amount, tx.kind),
                            ),
                        },
                        None,
                    ),
                    Err(error) => (
                        c,
                        Some(
                            ProcessingError::TransactionError {
                                transaction_id: tx.transaction_id,
                                error,
                            },
                        ),
                    ),
                }
            },
        },
        TransactionType::Dispute => {
            if !c.transactions.contains_key(tx.transaction_id.0) {
                (c, None)
            } else {
                let info = c.transactions[tx.transaction_id.0];
                if !spec_can_dispute(info) {
                    (c, Some(ProcessingError::CannotDispute(tx.transaction_id)))
                } else {
                    let op = spec_dispute(c.state, info.amount);
                    match op.1 {
                        Ok(_) => (
                            ClientView {
                                state: op.0,
                                transactions: c.transactions.insert(
                                    tx.transaction_id.0,
                                    TransactionInfo { state: TransactionState::Disputed, ..info },
                                ),
                            },
                            None,
                        ),
                        Err(error) => (
                            c,
                            Some(
                                ProcessingError::TransactionError {
                                    transaction_id: tx.transaction_id,
                                    error,
                                },
                            ),
                        ),
                    }
                }
            }
        },
        TransactionType::Resolve | TransactionType::Chargeback => {
            if !c.transactions.contains_key(tx.transaction_id.0) {
                (c, None)
            } else {
                let info = c.transactions[tx.transaction_id.0];
                if !spec_can_resolve_or_charge_back(info) {
                    (c, Some(ProcessingError::CannotResolveOrChargeBack(tx.transaction_id)))
                } else {
                    let op = if tx.kind == TransactionType::Resolve {
                        spec_resolve(c.state, info.amount)
                    } else {
                        spec_chargeback(c.state, info.amount)
                    };
                    let lifecycle = if tx.kind == TransactionType::Resolve {
                        TransactionState::Applied
                    } else {
                        TransactionState::ChargedBack
                    };
                    match op.1 {
                        Ok(_) => (
                            ClientView {
                                state: op.0,
                                transactions: c.transactions.insert(
                                    tx.transaction_id.0,
                                    TransactionInfo { state: lifecycle, ..info },
                                ),
                            },
                            None,
                        ),
                        Err(error) => (
                            c,
                            Some(
                                ProcessingError::TransactionError {
                                    transaction_id: tx.transaction_id,
                                    error,
                                },
                            ),
                        ),
                    }
                }
            }
        },
    }
}

/// What processing one record does to the ledger: the client's entry is
/// created if this is the first reference to the client, then the record is
/// applied to it.
pub open spec fn spec_step(l: LedgerView, tx: Transaction) -> (LedgerView, Option<
    ProcessingError,
>) {
    let cid = tx.client_id.0;
    let entry = if l.clients.contains_key(cid) {
        l.clients[cid]
    } else {
        spec_new_client(tx.client_id)
    };
    let order = if l.clients.contains_key(cid) {
        l.order
    } else {
        l.order.push(tx.client_id)
    };
    let res = spec_apply(entry, tx);
    (LedgerView { order, clients: l.clients.insert(cid, res.0) }, res.1)
}

/// What processing a whole batch does to the ledger, with the collected
/// errors in input order.
pub open spec fn spec_run(l: LedgerView, txs: Seq<Transaction>) -> (LedgerView, Seq<
    ProcessingError,
>)
    decreases txs.len(),
{
    if txs.len() == 0 {
        (l, Seq::empty())
    } else {
        let prev = spec_run(l, txs.drop_last());
        let st = spec_step(prev.0, txs.last());
        (
            st.0,
            match st.1 {
                None => prev.1,
                Some(e) => prev.1.push(e),
            },
        )
    }
}

/// Every account of the ledger is representable in machine integers.
pub open spec fn ledger_fits(l: LedgerView) -> bool {
    forall|k: u16| #[trigger] l.clients.contains_key(k) ==> account_fits(l.clients[k].state)
}

/// Every ledger state reached while processing the batch is representable
/// in machine integers. This is the machine limit under which the
/// processor is verified; mathematically the run is unbounded.
pub open spec fn run_fits(l: LedgerView, txs: Seq<Transaction>) -> bool {
    forall|i: int| 0 <= i <= txs.len() ==> ledger_fits(#[trigger] spec_run(l, txs.take(i)).0)
}

/// The magnitude of the amount a record carries; zero when it carries
/// none.
pub open spec fn amount_magnitude(amount: Option<Amount>) -> int {
    match amount {
        Some(x) => if x@ < 0 {
            -x@
        } else {
            x@
        },
        None => 0,
    }
}

/// The largest amount magnitude carried by any record of the batch.
pub open spec fn max_amount_magnitude(txs: Seq<Transaction>) -> int
    decreases txs.len(),
{
    if txs.len() == 0 {
        0
    } else {
        let rest = max_amount_magnitude(txs.drop_last());
        let last = amount_magnitude(txs.last().amount);
        if last > rest {
            last
        } else {
            rest
        }
    }
}

/// Structural soundness of a ledger: the order lists each client exactly
/// once, it lists exactly the clients present, and each entry carries the
/// client id it is filed under.
pub open spec fn ledger_wf(l: LedgerView) -> bool {
    &&& forall|i: int|
        0 <= i < l.order.len() ==> l.clients.contains_key(#[trigger] l.order[i].0)
    &&& forall|i: int, j: int|
        0 <= i < j < l.order.len() ==> #[trigger] l.order[i].0 != #[trigger] l.order[j].0
    &&& forall|k: u16|
        #[trigger] l.clients.contains_key(k) ==> exists|i: int|
            0 <= i < l.order.len() && l.order[i].0 == k
    &&& forall|k: u16|
        #[trigger] l.clients.contains_key(k) ==> l.clients[k].state.client_id == (ClientId(k))
}

/// One ledger entry: the account and the client's transaction history.
pub struct ClientInfo {
    /// The account balances and lock flag.
    pub state: ClientState,
    transactions: HashMap<u32, TransactionInfo>,
}

impl View for ClientInfo {
    type V = ClientView;

    closed spec fn view(&self) -> ClientView {
        ClientView { state: self.state@, transactions: self.transactions@ }
    }
}

impl ClientInfo {
    /// A ledger entry with the given account and an empty history.
    pub fn new(state: ClientState) -> (r: Self)
        ensures
            r@ == (ClientView { state: state@, transactions: Map::empty() }),
    {
        Self { state, transactions: HashMap::new() }
    }
}

/// Requires an amount on a deposit or withdrawal record.
pub fn extract_amount(transaction: &Transaction) -> (r: Result<Amount, ProcessingError>)
    ensures
        r == (match transaction.amount {
            Some(a) => Ok::<Amount, ProcessingError>(a),
            None => Err::<Amount, ProcessingError>(
                ProcessingError::MissingAmount(transaction.transaction_id),
            ),
        }),
{
    match transaction.amount {
        Some(a) => Ok(a),
        None => Err(ProcessingError::MissingAmount(transaction.transaction_id)),
    }
}

/// Maps an account operation's error to a processing error carrying the
/// offending transaction id.
pub fn map_from_transaction_error(
    transaction_id: TransactionId,
    result: Result<(), TransactionError>,
) -> (r: Result<(), ProcessingError>)
    ensures
        r == (match result {
            Ok(_) => Ok::<(), ProcessingError>(()),
            Err(error) => Err::<(), ProcessingError>(
                ProcessingError::TransactionError { transaction_id, error },
            ),
        }),
{
    match result {
        Ok(_) => Ok(()),
        Err(error) => Err(ProcessingError::TransactionError { transaction_id, error }),
    }
}

/// Transaction processing service: applies batches of transaction records
/// to the ledger it owns, collecting per-record errors, and hands out the
/// final per-client snapshots.
pub struct TransactionProcessor {
    clients: HashMap<u16, ClientInfo>,
    order: Vec<ClientId>,
    transaction_errors: Vec<ProcessingError>,
}

impl TransactionProcessor {
    /// The ledger this processor has built so far.
    pub closed spec fn ledger(&self) -> LedgerView {
        LedgerView {
            order: self.order@,
            clients: Map::new(
                |k: u16| self.clients@.contains_key(k),
                |k: u16| self.clients@[k]@,
            ),
        }
    }

    /// The errors collected so far, in input order.
    pub closed spec fn errors(&self) -> Seq<ProcessingError> {
        self.transaction_errors@
    }

    /// Creates a new processor with an empty ledger.
    pub fn new() -> (r: Self)
        ensures
            r.ledger() == spec_empty_ledger(),
            r.errors() == Seq::<ProcessingError>::empty(),
    {
        let r = Self { clients: HashMap::new(), order: Vec::new(), transaction_errors: Vec::new() };
        proof {
            assert(r.ledger().clients =~= spec_empty_ledger().clients);
            assert(r.ledger().order =~= spec_empty_ledger().order);
        }
        r
    }

    /// Applies one transaction record to one ledger entry, exactly as
    /// [`spec_apply`] says: the entry is updated on success, left untouched
    /// on failure, and the error, if any, is returned.
    pub fn process_transaction(client: &mut ClientInfo, transaction: &Transaction) -> (r: Result<
        (),
        ProcessingError,
    >)
        requires
            account_fits(spec_apply(old(client)@, *transaction).0.state),
        ensures
            final(client)@ == spec_apply(old(client)@, *transaction).0,
            spec_apply(old(client)@, *transaction).1 == (match r {
                Ok(_) => None::<ProcessingError>,
                Err(e) => Some(e),
            }),
    {
        match transaction.kind {
            TransactionType::Deposit => {
                let amount = match extract_amount(transaction) {
                    Ok(a) => a,
                    Err(e) => {
                        return Err(e);
                    },
                };
                match map_from_transaction_error(
                    transaction.transaction_id,
                    client.state.deposit(amount),
                ) {
                    Ok(_) => {},
                    Err(e) => {
                        return Err(e);
                    },
                }
                client.transactions.insert(
                    transaction.transaction_id.0,
                    TransactionInfo::new(amount, TransactionType::Deposit),
                );
                Ok(())
            },
            TransactionType::Withdrawal => {
                let amount = match extract_amount(transaction) {
                    Ok(a) => a,
                    Err(e) => {
                        return Err(e);
                    },
                };
                match map_from_transaction_error(
                    transaction.transaction_id,
                    client.state.withdraw(amount),
                ) {
                    Ok(_) => {},
                    Err(e) => {
                        return Err(e);
                    },
                }
                client.transactions.insert(
                    transaction.transaction_id.0,
                    TransactionInfo::new(amount, TransactionType::Withdrawal),
                );
                Ok(())
            },
            TransactionType::Dispute => {
                let id = transaction.transaction_id.0;
                let record = match client.transactions.get(&id) {
                    Some(info) => Some(*info),
                    None => None,
                };
                match record {
                    // unknown reference: ignored, not an error
                    None => Ok(()),
                    Some(info) => {
                        if !info.can_dispute() {
                            return Err(ProcessingError::CannotDispute(transaction.transaction_id));
                        }
                        match map_from_transaction_error(
                            transaction.transaction_id,
                            client.state.dispute(info.amount),
                        ) {
                            Ok(_) => {},
                            Err(e) => {
                                return Err(e);
                            },
                        }
                        client.transactions.insert(
                            id,
                            TransactionInfo { state: TransactionState::Disputed, ..info },
                        );
                        Ok(())
                    },
                }
            },
            TransactionType::Resolve => {
                let id = transaction.transaction_id.0;
                let record = match client.transactions.get(&id) {
                    Some(info) => Some(*info),
                    None => None,
                };
                match record {
                    // unknown reference: ignored, not an error
                    None => Ok(()),
                    Some(info) => {
                        if !info.can_resolve_or_charge_back() {
                            return Err(
                                ProcessingError::CannotResolveOrChargeBack(
                                    transaction.transaction_id,
                                ),
                            );
                        }
                        match map_from_transaction_error(
                            transaction.transaction_id,
                            client.state.resolve(info.amount),
                        ) {
                            Ok(_) => {},
                            Err(e) => {
                                return Err(e);
                            },
                        }
                        // back to applied: the record can be disputed again
                        client.transactions.insert(
                            id,
                            TransactionInfo { state: TransactionState::Applied, ..info },
                        );
                        Ok(())
                    },
                }
            },
            TransactionType::Chargeback => {
                let id = transaction.transaction_id.0;
                let record = match client.transactions.get(&id) {
                    Some(info) => Some(*info),
                    None => None,
                };
                match record {
                    // unknown reference: ignored, not an error
                    None => Ok(()),
                    Some(info) => {
                        if !info.can_resolve_or_charge_back() {
                            return Err(
                                ProcessingError::CannotResolveOrChargeBack(
                                    transaction.transaction_id,
                                ),
                            );
                        }
                        match map_from_transaction_error(
                            transaction.transaction_id,
                            client.state.chargeback(info.amount),
                        ) {
                            Ok(_) => {},
                            Err(e) => {
                                return Err(e);
                            },
                        }
                        client.transactions.insert(
                            id,
                            TransactionInfo { state: TransactionState::ChargedBack, ..info },
                        );
                        Ok(())
                    },
                }
            },
        }
    }

    /// Processes a batch of transaction records in input order and collects
    /// the per-record errors; a failing record never stops the run.
    pub fn process_transactions(&mut self, transactions: &Vec<Transaction>)
        requires
            run_fits(old(self).ledger(), transactions@),
        ensures
            final(self).ledger() == spec_run(old(self).ledger(), transactions@).0,
            final(self).errors() == old(self).errors() + spec_run(
                old(self).ledger(),
                transactions@,
            ).1,
    {
        let ghost l0 = self.ledger();
        let ghost e0 = self.errors();
        let n = transactions.len();
        let mut idx: usize = 0;
        while idx < n
            invariant
                idx <= n,
                n == transactions@.len(),
                run_fits(l0, transactions@),
                self.ledger() == spec_run(l0, transactions@.take(idx as int)).0,
                self.errors() == e0 + spec_run(l0, transactions@.take(idx as int)).1,
            decreases n - idx,
        {
            let ghost cur = self.ledger();
            let ghost pre = transactions@.take(idx as int);
            let ghost post = transactions@.take(idx as int + 1);
            let transaction = transactions[idx];
            let cid = transaction.client_id.0;
            proof {
                assert(post.drop_last() =~= pre);
                assert(post.last() == transaction);
                assert(0 <= idx as int + 1 <= transactions@.len());
                assert(ledger_fits(spec_run(l0, post).0));
            }
            let mut entry = match self.clients.remove(&cid) {
                Some(c) => c,
                None => {
                    self.order.push(transaction.client_id);
                    ClientInfo::new(ClientState::new(transaction.client_id))
                },
            };
            proof {
                let stepped = spec_step(cur, transaction);
                assert(spec_run(l0, post).0 == stepped.0);
                assert(stepped.0.clients.contains_key(cid));
                assert(stepped.0.clients[cid] == spec_apply(entry@, transaction).0);
                assert(account_fits(spec_apply(entry@, transaction).0.state));
            }
            let result = Self::process_transaction(&mut entry, &transaction);
            self.clients.insert(cid, entry);
            match result {
                Ok(_) => {},
                Err(e) => {
                    self.transaction_errors.push(e);
                },
            }
            proof {
                let stepped = spec_step(cur, transaction);
                assert(self.ledger().clients =~= stepped.0.clients);
                assert(self.ledger().order =~= stepped.0.order);
                assert(self.ledger() == spec_run(l0, post).0);
                assert(self.errors() =~= e0 + spec_run(l0, post).1);
            }
            idx += 1;
        }
        proof {
            assert(transactions@.take(n as int) =~= transactions@);
        }
    }

    /// Processes a batch like [`Self::process_transactions`], after
    /// checking at run time that the batch is moderate enough for the whole
    /// run to stay within the fixed-point range (see
    /// [`crate::laws::lemma_run_fits_when_bounded`]): exactly when the
    /// largest amount magnitude times the number of records fits, the
    /// batch is processed and `true` is returned; otherwise the processor
    /// is left untouched and `false` is returned.
    pub fn process_transactions_checked(&mut self, transactions: &Vec<Transaction>) -> (r: bool)
        requires
            old(self).ledger() == spec_empty_ledger(),
        ensures
            r == (transactions@.len() * max_amount_magnitude(transactions@) <= i128::MAX),
            r ==> final(self).ledger() == spec_run(old(self).ledger(), transactions@).0,
            r ==> final(self).errors() == old(self).errors() + spec_run(
                old(self).ledger(),
                transactions@,
            ).1,
            !r ==> *final(self) == *old(self),
    {
        let n = transactions.len();
        let mut max_units: u128 = 0;
        let mut idx: usize = 0;
        while idx < n
            invariant
                idx <= n,
                n == transactions@.len(),
                max_units as int == max_amount_magnitude(transactions@.take(idx as int)),
                forall|j: int|
                    0 <= j < idx ==> match #[trigger] transactions@[j].amount {
                        Some(x) => -(max_units as int) <= x@ <= max_units as int,
                        None => true,
                    },
            decreases n - idx,
        {
            proof {
                assert(transactions@.take(idx as int + 1).drop_last() =~= transactions@.take(
                    idx as int,
                ));
                assert(transactions@.take(idx as int + 1).last() == transactions@[idx as int]);
            }
            match transactions[idx].amount {
                Some(amount) => {
                    let magnitude: u128 = if amount.0 >= 0 {
                        amount.0 as u128
                    } else if amount.0 == i128::MIN {
                        (i128::MAX as u128) + 1
                    } else {
                        (-amount.0) as u128
                    };
                    proof {
                        assert(magnitude as int == amount_magnitude(
                            transactions@[idx as int].amount,
                        ));
                    }
                    if magnitude > max_units {
                        max_units = magnitude;
                    }
                },
                None => {},
            }
            idx += 1;
        }
        proof {
            assert(transactions@.take(n as int) =~= transactions@);
        }
        let in_range = match (n as u128).checked_mul(max_units) {
            Some(product) => product <= i128::MAX as u128,
            None => false,
        };
        if in_range {
            proof {
                lemma_run_fits_when_bounded(transactions@, max_units as int);
            }
            self.process_transactions(transactions);
            true
        } else {
            false
        }
    }

    /// The final snapshot of every client seen, in order of first
    /// reference.
    pub fn export_client_states(&self) -> (r: Vec<ClientState>)
        requires
            ledger_wf(self.ledger()),
        ensures
            r@.len() == self.ledger().order.len(),
            forall|i: int|
                0 <= i < r@.len() ==> r@[i]@ == self.ledger().clients[#[trigger] self.ledger().order[i].0].state,
    {
        let mut result: Vec<ClientState> = Vec::new();
        let n = self.order.len();
        let mut idx: usize = 0;
        while idx < n
            invariant
                idx <= n,
                n == self.order@.len(),
                ledger_wf(self.ledger()),
                self.ledger().order == self.order@,
                result@.len() == idx,
                forall|i: int|
                    0 <= i < idx ==> result@[i]@ == self.ledger().clients[
                        #[trigger] self.ledger().order[i].0
                    ].state,
            decreases n - idx,
        {
            let cid = self.order[idx].0;
            match self.clients.get(&cid) {
                Some(info) => {
                    result.push(info.state);
                },
                None => {
                    proof {
                        assert(false);
                    }
                },
            }
            idx += 1;
        }
        result
    }

    /// The errors collected so far, in input order.
    pub fn transaction_errors(&self) -> (r: &Vec<ProcessingError>)
        ensures
            r@ == self.errors(),
    {
        &self.transaction_errors
    }
}

} // verus!
