use vstd::prelude::*;

use crate::operation::AMOUNT_LIMIT;

verus! {

/// The two kinds of raw feed records.
#[derive(Clone, Copy, Debug, PartialEq, Eq, Structural)]
pub enum TransactionAction {
    Deposit,
    Withdraw,
}

/// One raw record of the transaction feed: a magnitude, a millisecond
/// timestamp, the record kind, and the raw initiator text.
pub struct Transaction {
    pub amount: i128,
    pub timestamp: u128,
    pub action: TransactionAction,
    pub initiator_name: String,
}

#[verifier::ext_equal]
pub ghost struct TxModel {
    pub amount: int,
    pub timestamp: int,
    pub action: TransactionAction,
    pub initiator_name: Seq<char>,
}

impl View for Transaction {
    type V = TxModel;

    open spec fn view(&self) -> TxModel {
        TxModel {
            amount: self.amount as int,
            timestamp: self.timestamp as int,
            action: self.action,
            initiator_name: self.initiator_name@,
        }
    }
}

/// A feed record carries a magnitude; the classifier gives it its sign.
pub open spec fn tx_wf(t: TxModel) -> bool {
    0 <= t.amount <= AMOUNT_LIMIT as int
}

/// The banking part of a fetched profile: the authoritative balance and the
/// feed, newest first.
pub struct Banking {
    pub balance: i128,
    pub transactions: Vec<Transaction>,
}

#[verifier::ext_equal]
pub ghost struct BankingModel {
    pub balance: int,
    pub transactions: Seq<TxModel>,
}

impl View for Banking {
    type V = BankingModel;

    open spec fn view(&self) -> BankingModel {
        BankingModel {
            balance: self.balance as int,
            transactions: self.transactions@.map_values(|t: Transaction| t@),
        }
    }
}

/// A member's progression data, as far as the ledger reads it.
pub struct Leveling {
    pub completed_tasks: Vec<String>,
}

pub struct Member {
    pub leveling: Leveling,
}

impl View for Member {
    type V = Seq<Seq<char>>;

    open spec fn view(&self) -> Seq<Seq<char>> {
        self.leveling.completed_tasks@.map_values(|s: String| s@)
    }
}

/// One fetched profile: the group's members and its banking data.
pub struct Profile {
    pub members: Vec<Member>,
    pub banking: Banking,
}

#[verifier::ext_equal]
pub ghost struct ProfileModel {
    pub members: Seq<Seq<Seq<char>>>,
    pub banking: BankingModel,
}

impl View for Profile {
    type V = ProfileModel;

    open spec fn view(&self) -> ProfileModel {
        ProfileModel {
            members: self.members@.map_values(|m: Member| m@),
            banking: self.banking@,
        }
    }
}

/// Validity of a fetched profile: the authoritative balance is a plain
/// amount and every feed record carries a bounded magnitude.
pub open spec fn profile_wf(p: ProfileModel) -> bool {
    &&& -(AMOUNT_LIMIT as int) <= p.banking.balance <= AMOUNT_LIMIT as int
    &&& forall|i: int|
        0 <= i < p.banking.transactions.len() ==> tx_wf(#[trigger] p.banking.transactions[i])
}

} // verus!
