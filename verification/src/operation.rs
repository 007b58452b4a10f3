use vstd::prelude::*;

use crate::username::Username;

verus! {

/// Largest magnitude the ledger accepts for a single money amount.
/// Amounts are whole numbers of the game's currency unit; this bound is what
/// keeps every running total provably inside an `i128`.
pub const AMOUNT_LIMIT: i128 = 9007199254740992;

/// One applied banking operation, immutable once created.
pub enum Operation {
    /// A member's own deposit (positive amount) or withdrawal (negative amount).
    PlayerPurse { amount: i128, username: Username, repeat_count: u64 },
    /// A direct transfer between two members; the feed does not produce these
    /// today, but the ledger must be able to apply them.
    PlayerTransfer { amount: i128, receiver: Username, sender: Username, repeat_count: u64 },
    /// Sentinel recorded when a pass sees too many new entries to trust
    /// individual attribution; has no financial effect.
    WeirdWaypoint,
    /// Interest credited to the shared pool, attributed to no member.
    BankInterests { amount: i128 },
}

/// The mathematical shape of an operation: names as character sequences,
/// amounts as unbounded integers.
pub ghost enum OpModel {
    PlayerPurse { amount: int, username: Seq<char>, repeat_count: int },
    PlayerTransfer { amount: int, receiver: Seq<char>, sender: Seq<char>, repeat_count: int },
    WeirdWaypoint,
    BankInterests { amount: int },
}

impl View for Operation {
    type V = OpModel;

    open spec fn view(&self) -> OpModel {
        match self {
            Operation::PlayerPurse { amount, username, repeat_count } => OpModel::PlayerPurse {
                amount: *amount as int,
                username: username@,
                repeat_count: *repeat_count as int,
            },
            Operation::PlayerTransfer { amount, receiver, sender, repeat_count } => OpModel::PlayerTransfer {
                amount: *amount as int,
                receiver: receiver@,
                sender: sender@,
                repeat_count: *repeat_count as int,
            },
            Operation::WeirdWaypoint => OpModel::WeirdWaypoint,
            Operation::BankInterests { amount } => OpModel::BankInterests { amount: *amount as int },
        }
    }
}

/// Validity of a single operation: amounts bounded, transfer and interest
/// amounts non-negative, repeat counts at least one.
pub open spec fn op_wf(op: OpModel) -> bool {
    match op {
        OpModel::PlayerPurse { amount, repeat_count, .. } => {
            &&& -(AMOUNT_LIMIT as int) <= amount <= AMOUNT_LIMIT as int
            &&& repeat_count >= 1
        },
        OpModel::PlayerTransfer { amount, repeat_count, .. } => {
            &&& 0 <= amount <= AMOUNT_LIMIT as int
            &&& repeat_count >= 1
        },
        OpModel::WeirdWaypoint => true,
        OpModel::BankInterests { amount } => 0 <= amount <= AMOUNT_LIMIT as int,
    }
}

impl Clone for Operation {
    fn clone(&self) -> (r: Self)
        ensures
            r == *self,
    {
        match self {
            Operation::PlayerPurse { amount, username, repeat_count } => Operation::PlayerPurse {
                amount: *amount,
                username: username.clone(),
                repeat_count: *repeat_count,
            },
            Operation::PlayerTransfer { amount, receiver, sender, repeat_count } => Operation::PlayerTransfer {
                amount: *amount,
                receiver: receiver.clone(),
                sender: sender.clone(),
                repeat_count: *repeat_count,
            },
            Operation::WeirdWaypoint => Operation::WeirdWaypoint,
            Operation::BankInterests { amount } => Operation::BankInterests { amount: *amount },
        }
    }
}

} // verus!
