//! Laws of the engine, proved once and for all over the pure run
//! specification: balance-sheet and lock invariants of every reachable
//! ledger state, the dispute/resolve round trip, and the dispute
//! lifecycle rules.

use vstd::prelude::*;

use crate::amount::Amount;
use crate::model::{
    balanced, spec_deposit, spec_dispute, spec_resolve, spec_withdraw, AccountView, Transaction,
    TransactionError, TransactionType,
};
use crate::service::{
    ledger_fits, ledger_wf, run_fits, spec_apply, spec_can_dispute,
    spec_can_resolve_or_charge_back, spec_empty_ledger, spec_new_client, spec_run, spec_step,
    ClientView, LedgerView, ProcessingError, TransactionState,
};

verus! {

/// Soundness of one ledger entry: the balance sheet adds up, no funds are
/// held negatively, and every recorded transaction carries a non-negative
/// amount.
pub open spec fn client_ok(c: ClientView) -> bool {
    &&& balanced(c.state)
    &&& c.state.held >= 0
    &&& forall|id: u32|
        #[trigger] c.transactions.contains_key(id) ==> c.transactions[id].amount@ >= 0
}

/// Soundness of every entry of a ledger.
pub open spec fn ledger_accounts_ok(l: LedgerView) -> bool {
    forall|k: u16| #[trigger] l.clients.contains_key(k) ==> client_ok(l.clients[k])
}

/// The empty ledger is sound and well formed, and so is a fresh entry.
pub proof fn lemma_empty_ledger_ok()
    ensures
        ledger_accounts_ok(spec_empty_ledger()),
        ledger_wf(spec_empty_ledger()),
{
}

/// Processing one record keeps a ledger entry sound: balances stay
/// balanced, held funds stay non-negative, recorded amounts stay
/// non-negative.
pub proof fn lemma_apply_preserves_client_ok(c: ClientView, tx: Transaction)
    requires
        client_ok(c),
    ensures
        client_ok(spec_apply(c, tx).0),
{
    let res = spec_apply(c, tx).0;
    assert forall|id: u32| #[trigger] res.transactions.contains_key(id) implies (res.transactions[id].amount@
        >= 0) by {
        if c.transactions.contains_key(id) {
        }
    }
}

/// Processing one record keeps every entry of the ledger sound.
pub proof fn lemma_step_preserves_accounts_ok(l: LedgerView, tx: Transaction)
    requires
        ledger_accounts_ok(l),
    ensures
        ledger_accounts_ok(spec_step(l, tx).0),
{
    let cid = tx.client_id.0;
    let entry = if l.clients.contains_key(cid) {
        l.clients[cid]
    } else {
        spec_new_client(tx.client_id)
    };
    assert(client_ok(entry));
    lemma_apply_preserves_client_ok(entry, tx);
    assert forall|k: u16| #[trigger] spec_step(l, tx).0.clients.contains_key(k) implies client_ok(
        spec_step(l, tx).0.clients[k],
    ) by {
        if k != cid {
            assert(l.clients.contains_key(k));
        }
    }
}

/// Every ledger state reachable from a sound ledger is sound: in
/// particular, every emitted account satisfies `total == available + held`
/// and holds no negative funds in dispute.
pub proof fn lemma_run_preserves_accounts_ok(l: LedgerView, txs: Seq<Transaction>)
    requires
        ledger_accounts_ok(l),
    ensures
        ledger_accounts_ok(spec_run(l, txs).0),
    decreases txs.len(),
{
    if txs.len() > 0 {
        lemma_run_preserves_accounts_ok(l, txs.drop_last());
        lemma_step_preserves_accounts_ok(spec_run(l, txs.drop_last()).0, txs.last());
    }
}

/// Processing one record keeps the ledger well formed: the order still
/// lists each present client exactly once under its own id.
pub proof fn lemma_step_preserves_wf(l: LedgerView, tx: Transaction)
    requires
        ledger_wf(l),
    ensures
        ledger_wf(spec_step(l, tx).0),
{
    let cid = tx.client_id.0;
    let res = spec_step(l, tx).0;
    let entry = if l.clients.contains_key(cid) {
        l.clients[cid]
    } else {
        spec_new_client(tx.client_id)
    };
    assert(spec_apply(entry, tx).0.state.client_id == entry.state.client_id);
    if l.clients.contains_key(cid) {
        assert forall|k: u16| #[trigger] res.clients.contains_key(k) implies exists|i: int|
            0 <= i < res.order.len() && res.order[i].0 == k by {
            assert(l.clients.contains_key(k));
        }
    } else {
        assert forall|i: int| 0 <= i < res.order.len() implies res.clients.contains_key(
            #[trigger] res.order[i].0,
        ) by {
            if i < l.order.len() {
                assert(l.clients.contains_key(l.order[i].0));
            }
        }
        assert forall|k: u16| #[trigger] res.clients.contains_key(k) implies exists|i: int|
            0 <= i < res.order.len() && res.order[i].0 == k by {
            if k == cid {
                assert(res.order[l.order.len() as int].0 == k);
            } else {
                assert(l.clients.contains_key(k));
                let i = choose|i: int| 0 <= i < l.order.len() && l.order[i].0 == k;
                assert(res.order[i].0 == k);
            }
        }
    }
}

/// Every ledger state reachable from a well-formed ledger is well formed.
pub proof fn lemma_run_preserves_wf(l: LedgerView, txs: Seq<Transaction>)
    requires
        ledger_wf(l),
    ensures
        ledger_wf(spec_run(l, txs).0),
    decreases txs.len(),
{
    if txs.len() > 0 {
        lemma_run_preserves_wf(l, txs.drop_last());
        lemma_step_preserves_wf(spec_run(l, txs.drop_last()).0, txs.last());
    }
}

/// No operation on a locked account ever unlocks it: processing any one
/// record leaves a locked account locked.
pub proof fn lemma_apply_keeps_lock(c: ClientView, tx: Transaction)
    requires
        c.state.locked,
    ensures
        spec_apply(c, tx).0.state.locked,
{
}

/// Once a client's account is locked, it stays locked for the rest of the
/// run, whatever records follow.
pub proof fn lemma_lock_is_permanent(l: LedgerView, txs: Seq<Transaction>, k: u16)
    requires
        l.clients.contains_key(k),
        l.clients[k].state.locked,
    ensures
        spec_run(l, txs).0.clients.contains_key(k),
        spec_run(l, txs).0.clients[k].state.locked,
    decreases txs.len(),
{
    if txs.len() > 0 {
        lemma_lock_is_permanent(l, txs.drop_last(), k);
        let mid = spec_run(l, txs.drop_last()).0;
        let tx = txs.last();
        if tx.client_id.0 == k {
            lemma_apply_keeps_lock(mid.clients[k], tx);
        }
    }
}

/// On a locked account every withdrawal fails with `AccountLocked` and
/// leaves the account untouched, while a deposit of a non-negative amount
/// still succeeds (and keeps the account locked).
pub proof fn lemma_locked_account_operations(s: AccountView, amount: Amount)
    ensures
        s.locked ==> spec_withdraw(s, amount) == ((
            s,
            Err::<(), TransactionError>(TransactionError::AccountLocked),
        )),
        s.locked && amount@ >= 0 ==> spec_deposit(s, amount).1 == Ok::<(), TransactionError>(())
            && spec_deposit(s, amount).0.locked,
{
}

/// Disputing an amount and resolving it right away returns the available,
/// held and total funds to their pre-dispute values exactly. It holds of
/// every account whose held funds are not negative, which is every
/// reachable account (see [`lemma_run_preserves_accounts_ok`]).
pub proof fn lemma_dispute_resolve_round_trip(s: AccountView, amount: Amount)
    requires
        s.held >= 0,
    ensures
        spec_dispute(s, amount).1 is Ok ==> spec_resolve(spec_dispute(s, amount).0, amount) == ((
            s,
            Ok::<(), TransactionError>(()),
        )),
{
}

/// A recorded transaction can be disputed only while applied, and only if
/// it is a deposit: in every other state the dispute fails with
/// `CannotDispute` and the entry is untouched.
pub proof fn lemma_dispute_only_while_applied(c: ClientView, tx: Transaction)
    requires
        tx.kind == TransactionType::Dispute,
        c.transactions.contains_key(tx.transaction_id.0),
        !spec_can_dispute(c.transactions[tx.transaction_id.0]),
    ensures
        spec_apply(c, tx) == ((
            c,
            Some(ProcessingError::CannotDispute(tx.transaction_id)),
        )),
{
}

/// A recorded transaction can be resolved or charged back only while
/// disputed: in every other state the record fails with
/// `CannotResolveOrChargeBack` and the entry is untouched.
pub proof fn lemma_resolve_or_charge_back_only_while_disputed(c: ClientView, tx: Transaction)
    requires
        tx.kind == TransactionType::Resolve || tx.kind == TransactionType::Chargeback,
        c.transactions.contains_key(tx.transaction_id.0),
        !spec_can_resolve_or_charge_back(c.transactions[tx.transaction_id.0]),
    ensures
        spec_apply(c, tx) == ((
            c,
            Some(ProcessingError::CannotResolveOrChargeBack(tx.transaction_id)),
        )),
{
}

/// Processing batches composes: running one batch after another leaves
/// the ledger as one run over the concatenated input would, with the
/// collected errors concatenated in the same order.
pub proof fn lemma_run_append(l: LedgerView, first: Seq<Transaction>, second: Seq<Transaction>)
    ensures
        spec_run(l, first + second).0 == spec_run(spec_run(l, first).0, second).0,
        spec_run(l, first + second).1 == spec_run(l, first).1 + spec_run(
            spec_run(l, first).0,
            second,
        ).1,
    decreases second.len(),
{
    if second.len() == 0 {
        assert(first + second =~= first);
        assert(spec_run(l, first).1 + spec_run(spec_run(l, first).0, second).1 =~= spec_run(
            l,
            first,
        ).1);
    } else {
        lemma_run_append(l, first, second.drop_last());
        assert((first + second).drop_last() =~= first + second.drop_last());
        assert((first + second).last() == second.last());
        let prior = spec_run(spec_run(l, first).0, second.drop_last());
        let st = spec_step(prior.0, second.last());
        match st.1 {
            None => {},
            Some(e) => {
                assert(spec_run(l, first).1 + prior.1.push(e) =~= (spec_run(l, first).1 + prior.1)
                    .push(e));
            },
        }
    }
}

/// All balances of the account lie within `b` of zero.
pub open spec fn account_bounded(a: AccountView, b: int) -> bool {
    &&& -b <= a.available <= b
    &&& -b <= a.held <= b
    &&& -b <= a.total <= b
}

/// Every recorded transaction of the entry carries an amount within `a`
/// of zero.
pub open spec fn records_bounded(c: ClientView, a: int) -> bool {
    forall|id: u32| #[trigger] c.transactions.contains_key(id) ==> -a <= c.transactions[id].amount@
        <= a
}

/// Every entry of the ledger has balances within `b` and recorded amounts
/// within `a` of zero.
pub open spec fn ledger_bounded(l: LedgerView, a: int, b: int) -> bool {
    forall|k: u16| #[trigger] l.clients.contains_key(k) ==> account_bounded(l.clients[k].state, b)
        && records_bounded(l.clients[k], a)
}

/// Every amount carried by a record of the batch lies within `a` of zero.
pub open spec fn amounts_bounded(txs: Seq<Transaction>, a: int) -> bool {
    forall|i: int|
        0 <= i < txs.len() ==> match #[trigger] txs[i].amount {
            Some(x) => -a <= x@ <= a,
            None => true,
        }
}

/// Processing one record moves each balance by at most the amounts in
/// play: balances bounded by `b` stay within `b + a`.
pub proof fn lemma_apply_bounded(c: ClientView, tx: Transaction, a: int, b: int)
    requires
        0 <= a,
        0 <= b,
        account_bounded(c.state, b),
        records_bounded(c, a),
        match tx.amount {
            Some(x) => -a <= x@ <= a,
            None => true,
        },
    ensures
        account_bounded(spec_apply(c, tx).0.state, b + a),
        records_bounded(spec_apply(c, tx).0, a),
{
    let res = spec_apply(c, tx).0;
    if c.transactions.contains_key(tx.transaction_id.0) {
        assert(-a <= c.transactions[tx.transaction_id.0].amount@ <= a);
    }
    assert forall|id: u32| #[trigger] res.transactions.contains_key(id) implies (-a
        <= res.transactions[id].amount@ <= a) by {
        if c.transactions.contains_key(id) {
        }
    }
}

/// Processing one record against the ledger keeps all balances within the
/// old bound widened by the amounts in play.
pub proof fn lemma_step_bounded(l: LedgerView, tx: Transaction, a: int, b: int)
    requires
        0 <= a,
        0 <= b,
        ledger_bounded(l, a, b),
        match tx.amount {
            Some(x) => -a <= x@ <= a,
            None => true,
        },
    ensures
        ledger_bounded(spec_step(l, tx).0, a, b + a),
{
    let cid = tx.client_id.0;
    let entry = if l.clients.contains_key(cid) {
        l.clients[cid]
    } else {
        spec_new_client(tx.client_id)
    };
    assert(account_bounded(entry.state, b));
    assert(records_bounded(entry, a));
    lemma_apply_bounded(entry, tx, a, b);
    assert forall|k: u16| #[trigger] spec_step(l, tx).0.clients.contains_key(k) implies (
    account_bounded(spec_step(l, tx).0.clients[k].state, b + a) && records_bounded(
        spec_step(l, tx).0.clients[k],
        a,
    )) by {
        if k != cid {
            assert(l.clients.contains_key(k));
        }
    }
}

/// Over a whole batch, each balance moves by at most one bounded amount
/// per record: after `n` records the balances lie within `b + n * a`.
pub proof fn lemma_run_bounded(l: LedgerView, txs: Seq<Transaction>, a: int, b: int)
    requires
        0 <= a,
        0 <= b,
        ledger_bounded(l, a, b),
        amounts_bounded(txs, a),
    ensures
        ledger_bounded(spec_run(l, txs).0, a, b + txs.len() * a),
    decreases txs.len(),
{
    let n = txs.len() as int;
    if n == 0 {
    } else {
        assert(amounts_bounded(txs.drop_last(), a)) by {
            assert forall|i: int| 0 <= i < txs.drop_last().len() implies match #[trigger] txs.drop_last()[i].amount {
                Some(x) => -a <= x@ <= a,
                None => true,
            } by {
                assert(txs.drop_last()[i] == txs[i]);
            }
        }
        lemma_run_bounded(l, txs.drop_last(), a, b);
        vstd::arithmetic::mul::lemma_mul_nonnegative(n - 1, a);
        let mid = spec_run(l, txs.drop_last()).0;
        assert(txs.last() == txs[n - 1]);
        lemma_step_bounded(mid, txs.last(), a, b + (n - 1) * a);
        assert(n * a == (n - 1) * a + a) by (nonlinear_arith);
    }
}

/// The machine-limit premise of the processor is met by any batch whose
/// amounts and length are moderate: starting from the empty ledger, if
/// every amount lies within `a` of zero and `n * a` fits the fixed-point
/// range, every ledger state of the run is representable.
pub proof fn lemma_run_fits_when_bounded(txs: Seq<Transaction>, a: int)
    requires
        0 <= a,
        amounts_bounded(txs, a),
        txs.len() * a <= i128::MAX,
    ensures
        run_fits(spec_empty_ledger(), txs),
{
    let n = txs.len() as int;
    assert forall|i: int| 0 <= i <= n implies ledger_fits(
        #[trigger] spec_run(spec_empty_ledger(), txs.take(i)).0,
    ) by {
        let prefix = txs.take(i);
        assert(amounts_bounded(prefix, a)) by {
            assert forall|j: int| 0 <= j < prefix.len() implies match #[trigger] prefix[j].amount {
                Some(x) => -a <= x@ <= a,
                None => true,
            } by {
                assert(prefix[j] == txs[j]);
            }
        }
        lemma_run_bounded(spec_empty_ledger(), prefix, a, 0);
        vstd::arithmetic::mul::lemma_mul_inequality(i, n, a);
        let reached = spec_run(spec_empty_ledger(), prefix).0;
        assert forall|k: u16| #[trigger] reached.clients.contains_key(k) implies crate::model::account_fits(
            reached.clients[k].state,
        ) by {
            assert(account_bounded(reached.clients[k].state, i * a));
        }
    }
}

/// A chargeback is terminal: once a record is charged back, no
/// dispute-family record referencing its id ever succeeds or changes the
/// entry again.
pub proof fn lemma_charged_back_is_terminal(c: ClientView, tx: Transaction)
    requires
        tx.kind == TransactionType::Dispute || tx.kind == TransactionType::Resolve
            || tx.kind == TransactionType::Chargeback,
        c.transactions.contains_key(tx.transaction_id.0),
        c.transactions[tx.transaction_id.0].state == TransactionState::ChargedBack,
    ensures
        spec_apply(c, tx).0 == c,
        spec_apply(c, tx).1 is Some,
{
}

} // verus!
