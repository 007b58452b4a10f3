use vstd::prelude::*;

use crate::balances::{
    bump, bump_model, entries_view, lemma_bal_of_bound, lemma_bump_lookup, lemma_bump_shape,
    sum_abs, unique_names, BalModel,
};
use crate::ledger::{batch_wf, ops_view};
use crate::models::Profile;
use crate::operation::{OpModel, Operation};
use crate::username::Username;

verus! {

/// Length of the trailing window of the balance-evolution view, in
/// milliseconds: one day.
pub const WINDOW_MS: u128 = 86400000;

/// The fixed table of bank-upgrade tasks: capacity unlocked by each.
pub open spec fn task_value(t: Seq<char>) -> Option<u64> {
    if t == "BANK_UPGRADE_STARTER"@ {
        Some(5000000u64)
    } else if t == "BANK_UPGRADE_GOLD"@ {
        Some(100000000u64)
    } else if t == "BANK_UPGRADE_DELUXE"@ {
        Some(250000000u64)
    } else if t == "BANK_UPGRADE_SUPER_DELUXE"@ {
        Some(500000000u64)
    } else if t == "BANK_UPGRADE_PREMIER"@ {
        Some(1000000000u64)
    } else if t == "BANK_UPGRADE_LUXURIOUS"@ {
        Some(6000000000u64)
    } else if t == "BANK_UPGRADE_PALATIAL"@ {
        Some(60000000000u64)
    } else {
        None
    }
}

/// The larger of two optional capacities; an absent side never wins.
pub open spec fn opt_max(a: Option<u64>, b: Option<u64>) -> Option<u64> {
    match (a, b) {
        (None, x) => x,
        (x, None) => x,
        (Some(x), Some(y)) => if x >= y {
            Some(x)
        } else {
            Some(y)
        },
    }
}

/// The highest capacity among one member's recognized completed tasks.
pub open spec fn member_max(tasks: Seq<Seq<char>>) -> Option<u64>
    decreases tasks.len(),
{
    if tasks.len() == 0 {
        None
    } else {
        opt_max(member_max(tasks.drop_last()), task_value(tasks.last()))
    }
}

/// The highest upgrade unlocked by any single member of the group — a
/// cross-member maximum, not a sum. Absent when no member completed any
/// recognized upgrade task.
pub open spec fn spec_group_max(members: Seq<Seq<Seq<char>>>) -> Option<u64>
    decreases members.len(),
{
    if members.len() == 0 {
        None
    } else {
        opt_max(spec_group_max(members.drop_last()), member_max(members.last()))
    }
}

/// Capacity unlocked by one task identifier, if it is a known upgrade task.
fn task_value_of(t: &String) -> (r: Option<u64>)
    ensures
        r == task_value(t@),
{
    if *t == String::from_str("BANK_UPGRADE_STARTER") {
        Some(5000000u64)
    } else if *t == String::from_str("BANK_UPGRADE_GOLD") {
        Some(100000000u64)
    } else if *t == String::from_str("BANK_UPGRADE_DELUXE") {
        Some(250000000u64)
    } else if *t == String::from_str("BANK_UPGRADE_SUPER_DELUXE") {
        Some(500000000u64)
    } else if *t == String::from_str("BANK_UPGRADE_PREMIER") {
        Some(1000000000u64)
    } else if *t == String::from_str("BANK_UPGRADE_LUXURIOUS") {
        Some(6000000000u64)
    } else if *t == String::from_str("BANK_UPGRADE_PALATIAL") {
        Some(60000000000u64)
    } else {
        None
    }
}

fn opt_max_of(a: Option<u64>, b: Option<u64>) -> (r: Option<u64>)
    ensures
        r == opt_max(a, b),
{
    match (a, b) {
        (None, x) => x,
        (x, None) => x,
        (Some(x), Some(y)) => if x >= y {
            Some(x)
        } else {
            Some(y)
        },
    }
}

/// The current progression cap ("max balance") of the group, `None` when it
/// cannot be resolved from the profile.
pub fn get_max_balance(profile: &Profile) -> (r: Option<u64>)
    ensures
        r == spec_group_max(profile@.members),
{
    let ghost ms = profile@.members;
    let mut best: Option<u64> = None;
    let mut i: usize = 0;
    proof {
        assert(ms.take(0) =~= Seq::<Seq<Seq<char>>>::empty());
    }
    while i < profile.members.len()
        invariant
            i <= profile.members@.len(),
            ms == profile@.members,
            best == spec_group_max(ms.take(i as int)),
        decreases profile.members@.len() - i,
    {
        let tasks = &profile.members[i].leveling.completed_tasks;
        let ghost tm = ms[i as int];
        let mut cur: Option<u64> = None;
        let mut j: usize = 0;
        proof {
            assert(tm.take(0) =~= Seq::<Seq<char>>::empty());
        }
        while j < tasks.len()
            invariant
                j <= tasks@.len(),
                tm == tasks@.map_values(|s: String| s@),
                cur == member_max(tm.take(j as int)),
            decreases tasks@.len() - j,
        {
            let v = task_value_of(&tasks[j]);
            cur = opt_max_of(cur, v);
            proof {
                assert(tm.take(j as int + 1).drop_last() =~= tm.take(j as int));
                assert(tm.take(j as int + 1).last() == tm[j as int]);
            }
            j += 1;
        }
        proof {
            assert(tm.take(tasks@.len() as int) =~= tm);
        }
        best = opt_max_of(best, cur);
        proof {
            assert(ms.take(i as int + 1).drop_last() =~= ms.take(i as int));
            assert(ms.take(i as int + 1).last() == ms[i as int]);
        }
        i += 1;
    }
    proof {
        assert(ms.take(profile.members@.len() as int) =~= ms);
    }
    best
}

/// The contribution of one journaled operation to the per-member delta view:
/// a purse movement counts for its member, a transfer counts against the
/// sender and for the receiver, interest and the anomaly sentinel count for
/// nobody.
pub open spec fn apply_delta(d: BalModel, op: OpModel) -> BalModel {
    match op {
        OpModel::PlayerPurse { amount, username, .. } => bump_model(d, username, amount),
        OpModel::PlayerTransfer { amount, receiver, sender, .. } => bump_model(
            bump_model(d, receiver, amount),
            sender,
            -amount,
        ),
        OpModel::WeirdWaypoint => d,
        OpModel::BankInterests { .. } => d,
    }
}

/// Per-member net deltas over the journal entries whose timestamp lies
/// within `[now - window, now]`, selected by explicit comparison against
/// `now`, never by position in the journal.
pub open spec fn spec_window_delta(journal: Seq<(int, OpModel)>, now: int, window: int) -> BalModel
    decreases journal.len(),
{
    if journal.len() == 0 {
        Seq::empty()
    } else {
        let prev = spec_window_delta(journal.drop_last(), now, window);
        if now - window <= journal.last().0 <= now {
            apply_delta(prev, journal.last().1)
        } else {
            prev
        }
    }
}

/// The balance-evolution view: how much each member's balance moved over the
/// trailing day, recomputed from the journal on demand.
pub fn process_user_balance_evolution(operations: &Vec<(u128, Operation)>, now: u128) -> (r: Vec<
    (Username, i128),
>)
    requires
        batch_wf(ops_view(operations@)),
    ensures
        entries_view(r@) == spec_window_delta(ops_view(operations@), now as int, WINDOW_MS as int),
{
    let ghost om = ops_view(operations@);
    let mut d: Vec<(Username, i128)> = Vec::new();
    let mut i: usize = 0;
    proof {
        assert(om.take(0) =~= Seq::<(int, OpModel)>::empty());
        assert(entries_view(d@) =~= Seq::<(Seq<char>, int)>::empty());
    }
    while i < operations.len()
        invariant
            i <= operations@.len(),
            om == ops_view(operations@),
            batch_wf(om),
            entries_view(d@) == spec_window_delta(om.take(i as int), now as int, WINDOW_MS as int),
            unique_names(entries_view(d@)),
            // The coefficient is 2 * AMOUNT_LIMIT, written out so the
            // bound stays within linear arithmetic.
            sum_abs(entries_view(d@)) <= (i as int) * 18014398509481984,
        decreases operations@.len() - i,
    {
        let ghost dm = entries_view(d@);
        let ts = operations[i].0;
        proof {
            assert(om.take(i as int + 1).drop_last() =~= om.take(i as int));
            assert(om.take(i as int + 1).last() == om[i as int]);
            assert(op_wf_at(om, i as int));
        }
        if ts <= now && now - ts <= WINDOW_MS {
            match &operations[i].1 {
                Operation::PlayerPurse { amount, username, .. } => {
                    proof {
                        lemma_bal_of_bound(dm, username@);
                        lemma_bump_shape(dm, username@, *amount as int);
                    }
                    bump(&mut d, username, *amount);
                },
                Operation::PlayerTransfer { amount, receiver, sender, .. } => {
                    proof {
                        lemma_bal_of_bound(dm, receiver@);
                        lemma_bump_shape(dm, receiver@, *amount as int);
                        lemma_bump_lookup(dm, receiver@, *amount as int, sender@);
                        lemma_bal_of_bound(bump_model(dm, receiver@, *amount as int), sender@);
                        lemma_bump_shape(
                            bump_model(dm, receiver@, *amount as int),
                            sender@,
                            -(*amount as int),
                        );
                    }
                    bump(&mut d, receiver, *amount);
                    bump(&mut d, sender, -*amount);
                },
                Operation::WeirdWaypoint => {},
                Operation::BankInterests { .. } => {},
            }
        }
        i += 1;
    }
    proof {
        assert(om.take(operations@.len() as int) =~= om);
    }
    d
}

/// The operation at `j` of a valid batch is itself valid.
pub open spec fn op_wf_at(batch: Seq<(int, OpModel)>, j: int) -> bool {
    crate::operation::op_wf(batch[j].1)
}

} // verus!
