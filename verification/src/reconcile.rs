use vstd::prelude::*;

use crate::balances::{abs_int, lemma_sum_bal_le_sum_abs, sum_bal};
use crate::helpers::{get_max_balance, spec_group_max};
use crate::ledger::{
    ledger_wf, lemma_apply_batch_wf, ops_view, spec_apply_batch, DataFile, LedgerModel,
};
use crate::models::{profile_wf, tx_wf, Profile, ProfileModel, Transaction, TransactionAction, TxModel};
use crate::operation::{op_wf, OpModel, Operation};
use crate::username::{canon_name, Username};

verus! {

/// The two labels under which the feed books shared bank interest.
pub open spec fn interest_label(name: Seq<char>) -> bool {
    name == "Bank Interest"@ || name == "Bank Interest (x2)"@
}

/// Classification of one raw feed record: a withdrawal becomes a purse
/// movement with its amount negated; a deposit booked under an interest
/// label becomes shared interest; any other deposit is its member's purse
/// movement. Names are canonicalized first. Total: no record is rejected.
pub open spec fn spec_classify(t: TxModel) -> (int, OpModel) {
    let name = canon_name(t.initiator_name);
    match t.action {
        TransactionAction::Withdraw => (
            t.timestamp,
            OpModel::PlayerPurse { amount: -t.amount, username: name, repeat_count: 1 },
        ),
        TransactionAction::Deposit => {
            if interest_label(name) {
                (t.timestamp, OpModel::BankInterests { amount: t.amount })
            } else {
                (
                    t.timestamp,
                    OpModel::PlayerPurse { amount: t.amount, username: name, repeat_count: 1 },
                )
            }
        },
    }
}

/// The longest prefix of the feed (newest first) strictly newer than the
/// cursor: exactly the records not yet applied.
pub open spec fn spec_select(txs: Seq<TxModel>, cursor: int) -> Seq<TxModel>
    decreases txs.len(),
{
    if txs.len() == 0 || txs[0].timestamp <= cursor {
        Seq::empty()
    } else {
        seq![txs[0]] + spec_select(txs.drop_first(), cursor)
    }
}

/// The new records of a pass, classified, in feed order.
pub open spec fn spec_classified(txs: Seq<TxModel>, cursor: int) -> Seq<(int, OpModel)> {
    let sel = spec_select(txs, cursor);
    Seq::new(sel.len(), |k: int| spec_classify(sel[k]))
}

/// The batch a pass applies: the classified new records, with one anomaly
/// sentinel appended when there are more than 50 of them.
pub open spec fn spec_batch_of(txs: Seq<TxModel>, cursor: int, now: int) -> Seq<(int, OpModel)> {
    let cls = spec_classified(txs, cursor);
    if cls.len() > 50 {
        cls.push((now, OpModel::WeirdWaypoint))
    } else {
        cls
    }
}

/// One whole reconciliation pass over the ledger state: select, classify,
/// apply, then re-derive drift, progression cap and authoritative balance.
pub open spec fn spec_update(m: LedgerModel, p: ProfileModel, now: int) -> LedgerModel {
    let batch = spec_batch_of(p.banking.transactions, m.cursor, now);
    let m1 = match spec_apply_batch(m, batch) {
        Some(x) => x,
        None => m,
    };
    LedgerModel {
        balance: p.banking.balance,
        drift: abs_int(p.banking.balance - (sum_bal(m1.users) + m1.bank_interests)),
        max_balance: match spec_group_max(p.members) {
            Some(v) => Some(v as int),
            None => None,
        },
        ..m1
    }
}

/// Classifies one raw feed record into a typed operation and its timestamp.
pub fn classify(t: &Transaction) -> (r: (u128, Operation))
    requires
        tx_wf(t@),
    ensures
        r.0 as int == spec_classify(t@).0,
        r.1@ == spec_classify(t@).1,
        op_wf(r.1@),
{
    let username = Username::new(t.initiator_name.clone());
    match t.action {
        TransactionAction::Withdraw => (
            t.timestamp,
            Operation::PlayerPurse { amount: -t.amount, username, repeat_count: 1 },
        ),
        TransactionAction::Deposit => {
            if *username.as_string() == String::from_str("Bank Interest") || *username.as_string()
                == String::from_str("Bank Interest (x2)") {
                (t.timestamp, Operation::BankInterests { amount: t.amount })
            } else {
                (t.timestamp, Operation::PlayerPurse { amount: t.amount, username, repeat_count: 1 })
            }
        },
    }
}

/// A batch with no transfers in it always applies.
pub proof fn lemma_feed_batch_applies(m: LedgerModel, batch: Seq<(int, OpModel)>)
    requires
        forall|j: int| 0 <= j < batch.len() ==> !((#[trigger] batch[j].1) is PlayerTransfer),
    ensures
        spec_apply_batch(m, batch) is Some,
    decreases batch.len(),
{
    if batch.len() > 0 {
        let m1 = crate::ledger::spec_apply(m, batch[0].0, batch[0].1).unwrap();
        assert(forall|j: int|
            0 <= j < batch.drop_first().len() ==> batch.drop_first()[j] == batch[j + 1]);
        lemma_feed_batch_applies(m1, batch.drop_first());
    }
}

/// One reconciliation pass: ingests the feed records strictly newer than the
/// cursor, in feed order (newest first), classifies and applies them,
/// journals every applied operation, flags a batch of more than 50 with one
/// anomaly sentinel timestamped `now`, and re-derives drift, progression cap
/// and the authoritative balance. The cursor never moves backwards, and a
/// feed with nothing new leaves balances, interest, journal and cursor
/// untouched.
pub fn update_transaction(profile: &Profile, database: &mut DataFile, now: u128)
    requires
        old(database).wf(),
        profile_wf(profile@),
    ensures
        final(database).wf(),
        final(database)@ == spec_update(old(database)@, profile@, now as int),
        old(database)@.cursor <= final(database)@.cursor,
{
    let ghost m0 = database@;
    let ghost txs = profile@.banking.transactions;
    let transactions = &profile.banking.transactions;
    let mut batch: Vec<(u128, Operation)> = Vec::new();
    let mut i: usize = 0;
    proof {
        assert(txs.skip(0) =~= txs);
        assert(ops_view(batch@) =~= Seq::<(int, OpModel)>::empty());
    }
    while i < transactions.len() && transactions[i].timestamp > database.last_transaction_timestamp
        invariant
            i <= transactions@.len(),
            txs == profile@.banking.transactions,
            txs.len() == transactions@.len(),
            forall|j: int| 0 <= j < txs.len() ==> #[trigger] txs[j] == transactions@[j]@,
            profile_wf(profile@),
            *database == *old(database),
            m0 == old(database)@,
            forall|j: int| 0 <= j < i ==> (#[trigger] txs[j]).timestamp > m0.cursor,
            spec_select(txs, m0.cursor) == txs.take(i as int) + spec_select(
                txs.skip(i as int),
                m0.cursor,
            ),
            ops_view(batch@) == Seq::new(i as nat, |k: int| spec_classify(txs[k])),
        decreases transactions@.len() - i,
    {
        proof {
            assert(txs[i as int] == transactions@[i as int]@);
            assert(tx_wf(txs[i as int]));
        }
        let pair = classify(&transactions[i]);
        let ghost bprev = batch@;
        batch.push(pair);
        proof {
            assert(batch@ == bprev.push(pair));
            assert(ops_view(bprev).len() == i as int);
            assert(bprev.len() == i as int);
            assert forall|l: int| 0 <= l < i as int implies ops_view(batch@)[l] == spec_classify(
                txs[l],
            ) by {
                assert(batch@[l] == bprev[l]);
                assert(ops_view(bprev)[l] == ops_view(batch@)[l]);
                assert(Seq::new(i as nat, |k: int| spec_classify(txs[k]))[l] == spec_classify(
                    txs[l],
                ));
            }
            assert(ops_view(batch@)[i as int].0 == spec_classify(txs[i as int]).0);
            assert(ops_view(batch@)[i as int].1 == spec_classify(txs[i as int]).1);
            assert(txs.skip(i as int)[0] == txs[i as int]);
            assert(txs.skip(i as int).drop_first() =~= txs.skip(i as int + 1));
            assert(txs.take(i as int) + seq![txs[i as int]] =~= txs.take(i as int + 1));
            assert(txs.take(i as int) + (seq![txs[i as int]] + spec_select(
                txs.skip(i as int + 1),
                m0.cursor,
            )) =~= txs.take(i as int + 1) + spec_select(txs.skip(i as int + 1), m0.cursor));
            assert(ops_view(batch@) =~~= Seq::new((i + 1) as nat, |k: int| spec_classify(txs[k])));
        }
        i += 1;
    }
    let ghost sel = spec_select(txs, m0.cursor);
    proof {
        if i < transactions@.len() {
            assert(txs.skip(i as int)[0] == txs[i as int]);
        }
        assert(spec_select(txs.skip(i as int), m0.cursor) =~= Seq::<TxModel>::empty());
        assert(sel =~= txs.take(i as int));
        assert(forall|k: int| 0 <= k < sel.len() ==> sel[k] == txs[k]);
        assert(ops_view(batch@) =~~= spec_classified(txs, m0.cursor));
    }
    if batch.len() > 50 {
        batch.push((now, Operation::WeirdWaypoint));
    }
    let ghost bm = ops_view(batch@);
    proof {
        assert(bm =~~= spec_batch_of(txs, m0.cursor, now as int));
        assert forall|j: int| 0 <= j < bm.len() implies op_wf(#[trigger] bm[j].1)
            && !(bm[j].1 is PlayerTransfer) by {
            if j < spec_classified(txs, m0.cursor).len() {
                assert(tx_wf(txs[j]));
            }
        }
        lemma_feed_batch_applies(m0, bm);
        lemma_apply_batch_wf(m0, bm);
    }
    // A classified feed holds no transfers, so the fold is proved to
    // succeed: the error case of the applier is unreachable here.
    let r = database.apply_batch(&batch);
    match r {
        Ok(()) => {},
        Err(_) => {},
    }
    let ghost m1 = database@;
    // Reading the journal's length makes the drift arithmetic provably fit.
    let n = database.operations.len();
    proof {
        assert(m1.journal.len() == n as int);
        lemma_sum_bal_le_sum_abs(m1.users);
    }
    let total = database.ledger_total();
    let diff = profile.banking.balance - total;
    let drift = if diff < 0 {
        -diff
    } else {
        diff
    };
    database.drift = drift;
    database.max_balance = get_max_balance(profile);
    database.balance = profile.banking.balance;
    proof {
        assert(database@ =~~= spec_update(m0, profile@, now as int));
        assert(ledger_wf(database@));
    }
}

/// Idempotence of cursor advance: a pass over a feed containing nothing
/// newer than the cursor changes neither balances, nor the shared interest,
/// nor the journal, nor the cursor.
pub proof fn lemma_reconcile_idempotent(m: LedgerModel, p: ProfileModel, now: int)
    requires
        forall|j: int|
            0 <= j < p.banking.transactions.len() ==> (#[trigger] p.banking.transactions[j]).timestamp
                <= m.cursor,
    ensures
        spec_update(m, p, now).users == m.users,
        spec_update(m, p, now).bank_interests == m.bank_interests,
        spec_update(m, p, now).journal == m.journal,
        spec_update(m, p, now).cursor == m.cursor,
{
    let txs = p.banking.transactions;
    if txs.len() > 0 {
        assert(txs[0].timestamp <= m.cursor);
    }
    assert(spec_select(txs, m.cursor) =~= Seq::<TxModel>::empty());
    assert(spec_batch_of(txs, m.cursor, now) =~= Seq::<(int, OpModel)>::empty());
}

/// Anomaly flagging: when a pass selects more than 50 new records, the
/// journal gains every classified operation, in order, followed by exactly
/// one anomaly sentinel — and every classified operation is still applied.
pub proof fn lemma_anomaly_flagging(m: LedgerModel, p: ProfileModel, now: int)
    requires
        ledger_wf(m),
        profile_wf(p),
        spec_classified(p.banking.transactions, m.cursor).len() > 50,
    ensures
        ({
            let cls = spec_classified(p.banking.transactions, m.cursor);
            let batch = cls.push((now, OpModel::WeirdWaypoint));
            &&& spec_update(m, p, now).journal == m.journal + batch
            &&& forall|k: int| 0 <= k < cls.len() ==> !((#[trigger] cls[k].1) is WeirdWaypoint)
            &&& spec_apply_batch(m, batch) is Some
            &&& spec_update(m, p, now).users == spec_apply_batch(m, batch).unwrap().users
        }),
{
    let txs = p.banking.transactions;
    let cls = spec_classified(txs, m.cursor);
    let batch = cls.push((now, OpModel::WeirdWaypoint));
    let sel = spec_select(txs, m.cursor);
    lemma_select_selects(txs, m.cursor);
    assert forall|j: int| 0 <= j < batch.len() implies !((#[trigger] batch[j].1)
        is PlayerTransfer) by {
        if j < cls.len() {
            assert(cls[j] == spec_classify(sel[j]));
        }
    }
    assert forall|k: int| 0 <= k < cls.len() implies !((#[trigger] cls[k].1)
        is WeirdWaypoint) by {
        assert(cls[k] == spec_classify(sel[k]));
    }
    lemma_feed_batch_applies(m, batch);
    lemma_apply_batch_wf(m, batch);
    assert(spec_update(m, p, now).journal =~= m.journal + batch);
}

/// Every record the selection keeps is a record of the feed, and strictly
/// newer than the cursor.
pub proof fn lemma_select_selects(txs: Seq<TxModel>, cursor: int)
    ensures
        spec_select(txs, cursor).len() <= txs.len(),
        forall|j: int|
            0 <= j < spec_select(txs, cursor).len() ==> (#[trigger] spec_select(txs, cursor)[j])
                == txs[j] && txs[j].timestamp > cursor,
    decreases txs.len(),
{
    if txs.len() == 0 || txs[0].timestamp <= cursor {
    } else {
        lemma_select_selects(txs.drop_first(), cursor);
        assert(forall|j: int|
            0 <= j < spec_select(txs.drop_first(), cursor).len() ==> #[trigger] spec_select(
                txs.drop_first(),
                cursor,
            )[j] == txs[j + 1]);
    }
}

} // verus!

