use vstd::prelude::*;

use crate::balances::{
    abs_int, bal_of, bump, bump_model, clone_entries, entries_view, find_entry, find_name,
    has_name, lemma_bump_lookup, lemma_bump_shape, lemma_entry_bound, lemma_find_name_props,
    lemma_sum_abs_nonneg, lemma_sum_bal_le_sum_abs, sum_abs, sum_bal, sum_entries, unique_names,
    BalModel,
};
use crate::operation::{op_wf, OpModel, Operation, AMOUNT_LIMIT};
use crate::username::Username;

verus! {

/// Largest drift, in currency units, that passes without a warning.
pub const DRIFT_TOLERANCE: i128 = 1;

/// The one way a pass can fail outright: a transfer whose parties are not two
/// distinct known members. It is surfaced instead of corrupting balances.
#[derive(Clone, Copy, Debug, PartialEq, Eq, Structural)]
pub enum LedgerError {
    InvalidTransfer,
}

/// The mathematical shape of the persisted ledger aggregate.
#[verifier::ext_equal]
pub ghost struct LedgerModel {
    pub version: int,
    /// Timestamp of the most recently applied transaction.
    pub cursor: int,
    pub last_check: int,
    /// Authoritative balance reported by the feed at the last pass.
    pub balance: int,
    /// |authoritative - (sum of balances + interest)| after the last pass.
    pub drift: int,
    pub max_balance: Option<int>,
    pub bank_interests: int,
    pub users: BalModel,
    /// Applied operations in application order.
    pub journal: Seq<(int, OpModel)>,
}

/// The model of an executable journal.
pub open spec fn ops_view(s: Seq<(u128, Operation)>) -> Seq<(int, OpModel)> {
    s.map_values(|p: (u128, Operation)| (p.0 as int, p.1@))
}

/// Every operation of a batch is valid.
pub open spec fn batch_wf(batch: Seq<(int, OpModel)>) -> bool {
    forall|j: int| 0 <= j < batch.len() ==> op_wf(#[trigger] batch[j].1)
}

/// Well-formedness of a ledger state: member names unique, every journaled
/// operation valid and no newer than the cursor, the authoritative balance a
/// plain amount, drift non-negative, and the total magnitude of balances and
/// interest explained by the journal's length. The last bound is what keeps
/// every running total inside an `i128`.
pub open spec fn ledger_wf(m: LedgerModel) -> bool {
    &&& unique_names(m.users)
    &&& batch_wf(m.journal)
    &&& forall|j: int| 0 <= j < m.journal.len() ==> (#[trigger] m.journal[j].0) <= m.cursor
    &&& sum_abs(m.users) + abs_int(m.bank_interests) <= m.journal.len() * (2 * (AMOUNT_LIMIT
        as int))
    &&& -(AMOUNT_LIMIT as int) <= m.balance <= AMOUNT_LIMIT as int
    &&& 0 <= m.drift
}

/// One transition of the ledger state machine: apply `op` with timestamp `ts`.
/// `None` stands for the invalid-transfer failure, on which nothing changes.
pub open spec fn spec_apply(m: LedgerModel, ts: int, op: OpModel) -> Option<LedgerModel> {
    let advanced = LedgerModel {
        cursor: if ts > m.cursor {
            ts
        } else {
            m.cursor
        },
        journal: m.journal.push((ts, op)),
        ..m
    };
    match op {
        OpModel::PlayerPurse { amount, username, .. } => Some(
            LedgerModel { users: bump_model(m.users, username, amount), ..advanced },
        ),
        OpModel::BankInterests { amount } => Some(
            LedgerModel { bank_interests: m.bank_interests + amount, ..advanced },
        ),
        OpModel::WeirdWaypoint => Some(advanced),
        OpModel::PlayerTransfer { amount, receiver, sender, .. } => {
            if sender == receiver || !has_name(m.users, sender) || !has_name(m.users, receiver) {
                None
            } else {
                Some(
                    LedgerModel {
                        users: bump_model(bump_model(m.users, sender, -amount), receiver, amount),
                        ..advanced
                    },
                )
            }
        },
    }
}

/// Folds a batch of operations over the state, in the order received.
/// `None` as soon as one operation fails.
pub open spec fn spec_apply_batch(m: LedgerModel, batch: Seq<(int, OpModel)>) -> Option<
    LedgerModel,
>
    decreases batch.len(),
{
    if batch.len() == 0 {
        Some(m)
    } else {
        match spec_apply(m, batch[0].0, batch[0].1) {
            None => None,
            Some(m1) => spec_apply_batch(m1, batch.drop_first()),
        }
    }
}

/// One applied transition preserves well-formedness.
pub proof fn lemma_apply_wf(m: LedgerModel, ts: int, op: OpModel)
    requires
        ledger_wf(m),
        op_wf(op),
        spec_apply(m, ts, op) is Some,
    ensures
        ledger_wf(spec_apply(m, ts, op).unwrap()),
        spec_apply(m, ts, op).unwrap().journal == m.journal.push((ts, op)),
        m.cursor <= spec_apply(m, ts, op).unwrap().cursor,
{
    let r = spec_apply(m, ts, op).unwrap();
    assert(r.journal.len() == m.journal.len() + 1);
    assert(forall|j: int| 0 <= j < m.journal.len() ==> r.journal[j] == m.journal[j]);
    match op {
        OpModel::PlayerPurse { amount, username, .. } => {
            lemma_bump_shape(m.users, username, amount);
        },
        OpModel::BankInterests { amount } => {},
        OpModel::WeirdWaypoint => {},
        OpModel::PlayerTransfer { amount, receiver, sender, .. } => {
            let u1 = bump_model(m.users, sender, -amount);
            lemma_bump_shape(m.users, sender, -amount);
            lemma_bump_shape(u1, receiver, amount);
        },
    }
}

/// The batch fold preserves well-formedness and only ever appends to the
/// journal, keeping the cursor non-decreasing.
pub proof fn lemma_apply_batch_wf(m: LedgerModel, batch: Seq<(int, OpModel)>)
    requires
        ledger_wf(m),
        batch_wf(batch),
        spec_apply_batch(m, batch) is Some,
    ensures
        ledger_wf(spec_apply_batch(m, batch).unwrap()),
        spec_apply_batch(m, batch).unwrap().journal =~= m.journal + batch,
        m.cursor <= spec_apply_batch(m, batch).unwrap().cursor,
    decreases batch.len(),
{
    if batch.len() == 0 {
        assert(m.journal + batch =~= m.journal);
    } else {
        let m1 = spec_apply(m, batch[0].0, batch[0].1).unwrap();
        lemma_apply_wf(m, batch[0].0, batch[0].1);
        assert(batch_wf(batch.drop_first())) by {
            assert(forall|j: int|
                0 <= j < batch.drop_first().len() ==> batch.drop_first()[j] == batch[j + 1]);
        }
        lemma_apply_batch_wf(m1, batch.drop_first());
        assert(m.journal.push((batch[0].0, batch[0].1)) + batch.drop_first() =~= m.journal + batch);
    }
}

/// Snapshot round trip: the journal of a state reached from a fresh ledger
/// is exactly the batch that built it, so replaying that journal against the
/// same fresh ledger reproduces the state, every field of it. This is what
/// makes a persisted snapshot that carries the journal lossless.
pub proof fn lemma_replay_round_trip(e: LedgerModel, b: Seq<(int, OpModel)>)
    requires
        ledger_wf(e),
        batch_wf(b),
        e.journal == Seq::<(int, OpModel)>::empty(),
        spec_apply_batch(e, b) is Some,
    ensures
        spec_apply_batch(e, b).unwrap().journal == b,
        spec_apply_batch(e, spec_apply_batch(e, b).unwrap().journal) == spec_apply_batch(e, b),
{
    lemma_apply_batch_wf(e, b);
    assert(spec_apply_batch(e, b).unwrap().journal =~= b);
}

/// Conservation under transfer: a valid transfer leaves the combined balance
/// of sender and receiver unchanged, and the ledger's total with it.
pub proof fn lemma_transfer_conserves(
    m: LedgerModel,
    ts: int,
    amount: int,
    sender: Seq<char>,
    receiver: Seq<char>,
    repeat: int,
)
    requires
        unique_names(m.users),
        spec_apply(
            m,
            ts,
            OpModel::PlayerTransfer { amount, receiver, sender, repeat_count: repeat },
        ) is Some,
    ensures
        ({
            let r = spec_apply(
                m,
                ts,
                OpModel::PlayerTransfer { amount, receiver, sender, repeat_count: repeat },
            ).unwrap();
            &&& bal_of(r.users, sender) + bal_of(r.users, receiver) == bal_of(m.users, sender)
                + bal_of(m.users, receiver)
            &&& sum_bal(r.users) == sum_bal(m.users)
        }),
{
    let u1 = bump_model(m.users, sender, -amount);
    lemma_bump_lookup(m.users, sender, -amount, receiver);
    lemma_bump_lookup(u1, receiver, amount, sender);
    lemma_bump_shape(m.users, sender, -amount);
    lemma_bump_shape(u1, receiver, amount);
}

/// Transfer rejection: a transfer applies exactly when its parties are two
/// distinct members known to the ledger; otherwise it fails, and, failing,
/// changes no ledger field.
pub proof fn lemma_transfer_applies_iff(
    m: LedgerModel,
    ts: int,
    amount: int,
    sender: Seq<char>,
    receiver: Seq<char>,
    repeat: int,
)
    ensures
        spec_apply(
            m,
            ts,
            OpModel::PlayerTransfer { amount, receiver, sender, repeat_count: repeat },
        ) is Some <==> (sender != receiver && has_name(m.users, sender) && has_name(
            m.users,
            receiver,
        )),
{
}

/// The persisted ledger aggregate: per-member balances, shared interest pool,
/// drift, cursor, progression cap, and the append-only operations journal.
pub struct DataFile {
    pub version: u64,
    pub last_transaction_timestamp: u128,
    pub last_check_timestamp: u128,
    pub balance: i128,
    pub drift: i128,
    pub max_balance: Option<u64>,
    pub bank_interests: i128,
    pub users: Vec<(Username, i128)>,
    pub operations: Vec<(u128, Operation)>,
}

impl View for DataFile {
    type V = LedgerModel;

    open spec fn view(&self) -> LedgerModel {
        LedgerModel {
            version: self.version as int,
            cursor: self.last_transaction_timestamp as int,
            last_check: self.last_check_timestamp as int,
            balance: self.balance as int,
            drift: self.drift as int,
            max_balance: match self.max_balance {
                Some(v) => Some(v as int),
                None => None,
            },
            bank_interests: self.bank_interests as int,
            users: entries_view(self.users@),
            journal: ops_view(self.operations@),
        }
    }
}

impl DataFile {
    pub open spec fn wf(&self) -> bool {
        ledger_wf(self@)
    }

    /// A fresh, empty ledger.
    pub fn new(version: u64) -> (r: DataFile)
        ensures
            r@ == (LedgerModel {
                version: version as int,
                cursor: 0,
                last_check: 0,
                balance: 0,
                drift: 0,
                max_balance: None,
                bank_interests: 0,
                users: Seq::empty(),
                journal: Seq::empty(),
            }),
            r.wf(),
    {
        let r = DataFile {
            version,
            last_transaction_timestamp: 0,
            last_check_timestamp: 0,
            balance: 0,
            drift: 0,
            max_balance: None,
            bank_interests: 0,
            users: Vec::new(),
            operations: Vec::new(),
        };
        proof {
            assert(entries_view(r.users@) =~= Seq::<(Seq<char>, int)>::empty());
            assert(ops_view(r.operations@) =~= Seq::<(int, OpModel)>::empty());
        }
        r
    }

    /// A deep copy, equal in every model field.
    pub fn clone_data(&self) -> (r: DataFile)
        ensures
            r@ == self@,
    {
        let mut ops: Vec<(u128, Operation)> = Vec::new();
        let mut i: usize = 0;
        while i < self.operations.len()
            invariant
                i <= self.operations@.len(),
                ops@ =~= self.operations@.take(i as int),
            decreases self.operations@.len() - i,
        {
            ops.push((self.operations[i].0, self.operations[i].1.clone()));
            i += 1;
        }
        proof {
            assert(self.operations@.take(self.operations@.len() as int) =~= self.operations@);
        }
        let r = DataFile {
            version: self.version,
            last_transaction_timestamp: self.last_transaction_timestamp,
            last_check_timestamp: self.last_check_timestamp,
            balance: self.balance,
            drift: self.drift,
            max_balance: self.max_balance,
            bank_interests: self.bank_interests,
            users: clone_entries(&self.users),
            operations: ops,
        };
        proof {
            assert(r@ =~~= self@);
        }
        r
    }

    /// Applies one operation: a purse movement adjusts its member's balance
    /// (inserting the member at 0 first), interest grows the shared pool, a
    /// valid transfer moves the amount between two distinct known members as
    /// one atomic adjustment, and the anomaly sentinel has no financial
    /// effect. Every applied operation is journaled and advances the cursor
    /// to its timestamp when newer. An invalid transfer fails and changes
    /// nothing.
    pub fn apply_operation(&mut self, timestamp: u128, op: Operation) -> (r: Result<
        (),
        LedgerError,
    >)
        requires
            old(self).wf(),
            op_wf(op@),
        ensures
            final(self).wf(),
            match spec_apply(old(self)@, timestamp as int, op@) {
                Some(m) => r is Ok && final(self)@ == m,
                None => r is Err && final(self)@ == old(self)@,
            },
    {
        let ghost m0 = self@;
        let n = self.operations.len();
        proof {
            assert(m0.journal.len() == n as int);
            lemma_sum_abs_nonneg(m0.users);
        }
        match &op {
            Operation::PlayerPurse { amount, username, .. } => {
                proof {
                    lemma_find_name_props(m0.users, username@);
                    if has_name(m0.users, username@) {
                        lemma_entry_bound(m0.users, find_name(m0.users, username@));
                    }
                }
                bump(&mut self.users, username, *amount);
            },
            Operation::BankInterests { amount } => {
                self.bank_interests = self.bank_interests + *amount;
            },
            Operation::WeirdWaypoint => {},
            Operation::PlayerTransfer { amount, receiver, sender, .. } => {
                if *sender.as_string() == *receiver.as_string() {
                    return Err(LedgerError::InvalidTransfer);
                }
                let s_found = find_entry(&self.users, sender);
                let r_found = find_entry(&self.users, receiver);
                if s_found.is_none() || r_found.is_none() {
                    return Err(LedgerError::InvalidTransfer);
                }
                proof {
                    lemma_find_name_props(m0.users, sender@);
                    lemma_find_name_props(m0.users, receiver@);
                    lemma_entry_bound(m0.users, find_name(m0.users, sender@));
                    lemma_entry_bound(m0.users, find_name(m0.users, receiver@));
                    lemma_bump_lookup(m0.users, sender@, -(*amount as int), receiver@);
                    lemma_bump_shape(m0.users, sender@, -(*amount as int));
                }
                bump(&mut self.users, sender, -*amount);
                bump(&mut self.users, receiver, *amount);
            },
        }
        self.operations.push((timestamp, op));
        if timestamp > self.last_transaction_timestamp {
            self.last_transaction_timestamp = timestamp;
        }
        proof {
            let exp = spec_apply(m0, timestamp as int, op@);
            assert(ops_view(self.operations@) =~= m0.journal.push((timestamp as int, op@)));
            assert(self@ =~~= exp.unwrap());
            lemma_apply_wf(m0, timestamp as int, op@);
        }
        Ok(())
    }

    /// Applies a whole batch in the order received, all or nothing: on the
    /// first invalid transfer the ledger is left exactly as it was.
    pub fn apply_batch(&mut self, batch: &Vec<(u128, Operation)>) -> (r: Result<(), LedgerError>)
        requires
            old(self).wf(),
            batch_wf(ops_view(batch@)),
        ensures
            final(self).wf(),
            match spec_apply_batch(old(self)@, ops_view(batch@)) {
                Some(m) => r is Ok && final(self)@ == m,
                None => r is Err && final(self)@ == old(self)@,
            },
    {
        let ghost bm = ops_view(batch@);
        let mut tmp = self.clone_data();
        let mut i: usize = 0;
        proof {
            assert(bm.skip(0) =~= bm);
        }
        while i < batch.len()
            invariant
                i <= batch@.len(),
                bm == ops_view(batch@),
                batch_wf(bm),
                tmp.wf(),
                spec_apply_batch(old(self)@, bm) == spec_apply_batch(tmp@, bm.skip(i as int)),
                *self == *old(self),
                old(self).wf(),
            decreases batch@.len() - i,
        {
            let ts = batch[i].0;
            let op = batch[i].1.clone();
            proof {
                assert(bm.skip(i as int)[0] == bm[i as int]);
                assert(bm.skip(i as int).drop_first() =~= bm.skip(i as int + 1));
                assert(op_wf(bm[i as int].1));
            }
            match tmp.apply_operation(ts, op) {
                Ok(()) => {},
                Err(e) => {
                    return Err(e);
                },
            }
            i += 1;
        }
        proof {
            assert(bm.skip(batch@.len() as int) =~= Seq::<(int, OpModel)>::empty());
        }
        *self = tmp;
        Ok(())
    }

    /// Records when the feed was last fetched.
    pub fn set_last_check(&mut self, now: u128)
        ensures
            final(self)@ == (LedgerModel { last_check: now as int, ..old(self)@ }),
            old(self).wf() ==> final(self).wf(),
    {
        self.last_check_timestamp = now;
        proof {
            assert(self@ =~~= (LedgerModel { last_check: now as int, ..old(self)@ }));
        }
    }

    /// The current balance of one member, `None` for a name the ledger does
    /// not know.
    pub fn balance_of(&self, name: &Username) -> (r: Option<i128>)
        ensures
            match r {
                Some(b) => has_name(self@.users, name@) && b as int == bal_of(self@.users, name@),
                None => !has_name(self@.users, name@),
            },
    {
        match find_entry(&self.users, name) {
            Some(i) => Some(self.users[i].1),
            None => None,
        }
    }

    /// Whether the drift of the last pass exceeds the tolerance of one
    /// currency unit and must be surfaced as a warning.
    pub fn drift_warning(&self) -> (r: bool)
        ensures
            r == (self@.drift > DRIFT_TOLERANCE as int),
    {
        self.drift > DRIFT_TOLERANCE
    }

    /// The computed total the drift check compares against the feed:
    /// every member balance plus the shared interest pool.
    pub fn ledger_total(&self) -> (r: i128)
        requires
            self.wf(),
        ensures
            r as int == sum_bal(self@.users) + self@.bank_interests,
    {
        let n = self.operations.len();
        proof {
            assert(self@.journal.len() == n as int);
            lemma_sum_abs_nonneg(self@.users);
            lemma_sum_bal_le_sum_abs(self@.users);
            assert(sum_abs(self@.users) + abs_int(self@.bank_interests) <= (n as int) * (2 * (
            AMOUNT_LIMIT as int)));
            assert((n as int) * (2 * (AMOUNT_LIMIT as int)) <= 18446744073709551615 * (2 * (
            AMOUNT_LIMIT as int)));
        }
        let s = sum_entries(&self.users);
        s + self.bank_interests
    }
}

} // verus!
