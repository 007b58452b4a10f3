use vstd::prelude::*;

use chrono::TimeZone;

use crate::balances::abs_int;
use crate::operation::{op_wf, OpModel, Operation, AMOUNT_LIMIT};

verus! {

pub open spec fn digit_char(d: int) -> char {
    if d == 0 {
        '0'
    } else if d == 1 {
        '1'
    } else if d == 2 {
        '2'
    } else if d == 3 {
        '3'
    } else if d == 4 {
        '4'
    } else if d == 5 {
        '5'
    } else if d == 6 {
        '6'
    } else if d == 7 {
        '7'
    } else if d == 8 {
        '8'
    } else {
        '9'
    }
}

/// Decimal digits of a non-negative number, most significant first.
pub open spec fn dec_digits(n: int) -> Seq<char>
    decreases n,
{
    if n < 10 {
        seq![digit_char(n)]
    } else {
        dec_digits(n / 10) + seq![digit_char(n % 10)]
    }
}

/// Decimal rendering of a signed number.
pub open spec fn dec_int(n: int) -> Seq<char> {
    if n < 0 {
        seq!['-'] + dec_digits(-n)
    } else {
        dec_digits(n)
    }
}

fn digit_str(d: u128) -> (r: &'static str)
    requires
        d < 10,
    ensures
        r@ == seq![digit_char(d as int)],
{
    if d == 0 {
        proof {
            reveal_strlit("0");
            assert("0"@ =~= seq![digit_char(0)]);
        }
        "0"
    } else if d == 1 {
        proof {
            reveal_strlit("1");
            assert("1"@ =~= seq![digit_char(1)]);
        }
        "1"
    } else if d == 2 {
        proof {
            reveal_strlit("2");
            assert("2"@ =~= seq![digit_char(2)]);
        }
        "2"
    } else if d == 3 {
        proof {
            reveal_strlit("3");
            assert("3"@ =~= seq![digit_char(3)]);
        }
        "3"
    } else if d == 4 {
        proof {
            reveal_strlit("4");
            assert("4"@ =~= seq![digit_char(4)]);
        }
        "4"
    } else if d == 5 {
        proof {
            reveal_strlit("5");
            assert("5"@ =~= seq![digit_char(5)]);
        }
        "5"
    } else if d == 6 {
        proof {
            reveal_strlit("6");
            assert("6"@ =~= seq![digit_char(6)]);
        }
        "6"
    } else if d == 7 {
        proof {
            reveal_strlit("7");
            assert("7"@ =~= seq![digit_char(7)]);
        }
        "7"
    } else if d == 8 {
        proof {
            reveal_strlit("8");
            assert("8"@ =~= seq![digit_char(8)]);
        }
        "8"
    } else {
        proof {
            reveal_strlit("9");
            assert("9"@ =~= seq![digit_char(9)]);
        }
        "9"
    }
}

/// Decimal digits of a number, most significant first.
pub fn u128_digits(n: u128) -> (r: String)
    ensures
        r@ == dec_digits(n as int),
    decreases n,
{
    if n < 10 {
        String::from_str(digit_str(n))
    } else {
        let mut s = u128_digits(n / 10);
        s.append(digit_str(n % 10));
        s
    }
}

/// Decimal rendering of a signed amount.
pub fn i128_string(n: i128) -> (r: String)
    requires
        i128::MIN < n,
    ensures
        r@ == dec_int(n as int),
{
    if n < 0 {
        let mut s = String::from_str("-");
        proof {
            reveal_strlit("-");
            assert("-"@ =~= seq!['-']);
        }
        s.append(u128_digits((-n) as u128).as_str());
        s
    } else {
        u128_digits(n as u128)
    }
}

/// Digits grouped in threes from the right, separated by spaces.
pub open spec fn spec_grouped(s: Seq<char>) -> Seq<char>
    decreases s.len(),
{
    if s.len() <= 3 {
        s
    } else {
        spec_grouped(s.take(s.len() - 3)) + seq![' '] + s.skip(s.len() - 3)
    }
}

fn group_digits(s: &str) -> (r: String)
    ensures
        r@ == spec_grouped(s@),
    decreases s@.len(),
{
    let n = s.unicode_len();
    if n <= 3 {
        String::from_str(s)
    } else {
        let head = s.substring_char(0, n - 3);
        let tail = s.substring_char(n - 3, n);
        let mut r = group_digits(head);
        proof {
            reveal_strlit(" ");
            assert(" "@ =~= seq![' ']);
            assert(head@ =~= s@.take(s@.len() - 3));
            assert(tail@ =~= s@.skip(s@.len() - 3));
        }
        r.append(" ");
        r.append(tail);
        r
    }
}

/// A whole number rendered for display: decimal digits grouped in threes.
pub open spec fn spec_format_number(n: int) -> Seq<char> {
    if n < 0 {
        seq!['-'] + spec_grouped(dec_digits(-n))
    } else {
        spec_grouped(dec_digits(n))
    }
}

/// Renders a balance with its digits grouped in threes for display.
pub fn format_number(n: i128) -> (r: String)
    requires
        i128::MIN < n,
    ensures
        r@ == spec_format_number(n as int),
{
    if n < 0 {
        let mut s = String::from_str("-");
        proof {
            reveal_strlit("-");
            assert("-"@ =~= seq!['-']);
        }
        s.append(group_digits(u128_digits((-n) as u128).as_str()).as_str());
        s
    } else {
        group_digits(u128_digits(n as u128).as_str())
    }
}

/// The audit line for one operation.
pub open spec fn spec_describe(op: OpModel) -> Seq<char> {
    match op {
        OpModel::PlayerPurse { amount, username, .. } => "TSC NEW: "@ + username + (if amount > 0 {
            " has deposit "@
        } else {
            " has withdraw "@
        }) + dec_int(amount) + " \u{a4}"@,
        OpModel::PlayerTransfer { amount, receiver, sender, .. } => "TSF NEW: "@ + sender
            + " has transfered "@ + dec_int(amount) + " coins to "@ + receiver,
        OpModel::WeirdWaypoint => "Weirdwaypoint"@,
        OpModel::BankInterests { amount } => "BANK INTEREST: "@ + dec_int(amount) + " \u{a4}"@,
    }
}

impl Operation {
    /// A human-readable description of the operation, for logging and audit,
    /// not for programmatic parsing.
    pub fn describe(&self) -> (r: String)
        requires
            op_wf(self@),
        ensures
            r@ == spec_describe(self@),
    {
        match self {
            Operation::PlayerPurse { amount, username, .. } => {
                let mut s = String::from_str("TSC NEW: ");
                s.append(username.as_str());
                if *amount > 0 {
                    s.append(" has deposit ");
                } else {
                    s.append(" has withdraw ");
                }
                s.append(i128_string(*amount).as_str());
                s.append(" \u{a4}");
                s
            },
            Operation::PlayerTransfer { amount, receiver, sender, .. } => {
                let mut s = String::from_str("TSF NEW: ");
                s.append(sender.as_str());
                s.append(" has transfered ");
                s.append(i128_string(*amount).as_str());
                s.append(" coins to ");
                s.append(receiver.as_str());
                s
            },
            Operation::WeirdWaypoint => String::from_str("Weirdwaypoint"),
            Operation::BankInterests { amount } => {
                let mut s = String::from_str("BANK INTEREST: ");
                s.append(i128_string(*amount).as_str());
                s.append(" \u{a4}");
                s
            },
        }
    }
}

/// How full the shared bank stands against its progression cap, rounded to
/// two decimal places, or "Unknown" when the cap could not be resolved.
pub open spec fn spec_completion(balance: int, cap: Option<u64>) -> Seq<char> {
    match cap {
        None => "Unknown"@,
        Some(c) => {
            let p = (abs_int(balance) * 20000 + c as int) / (2 * (c as int));
            let sign = if balance < 0 {
                "-"@
            } else {
                Seq::<char>::empty()
            };
            sign + dec_digits(p / 100) + "."@ + seq![digit_char((p % 100) / 10)] + seq![
                digit_char(p % 10),
            ] + "%"@
        },
    }
}

/// Renders the completion percentage of the shared bank.
pub fn format_completion_percentage(balance: i128, max_balance: &Option<u64>) -> (r: String)
    requires
        -(AMOUNT_LIMIT as int) <= balance <= AMOUNT_LIMIT as int,
        match *max_balance {
            Some(c) => c > 0,
            None => true,
        },
    ensures
        r@ == spec_completion(balance as int, *max_balance),
{
    match max_balance {
        None => String::from_str("Unknown"),
        Some(c) => {
            let mag: u128 = if balance < 0 {
                (-balance) as u128
            } else {
                balance as u128
            };
            let p: u128 = (mag * 20000 + *c as u128) / (2 * (*c as u128));
            let mut s = if balance < 0 {
                proof {
                    reveal_strlit("-");
                    assert("-"@ =~= seq!['-']);
                }
                String::from_str("-")
            } else {
                String::new()
            };
            s.append(u128_digits(p / 100).as_str());
            s.append(".");
            s.append(digit_str((p % 100) / 10));
            s.append(digit_str(p % 10));
            s.append("%");
            proof {
                assert(p as int == (abs_int(balance as int) * 20000 + *c as int) / (2 * (*c
                    as int)));
            }
            s
        },
    }
}

/// Relies on chrono's `TimeZone::timestamp_opt` on `Local` and on
/// `DateTime::format`: the rendering follows the machine's configured time
/// zone, so nothing is promised of which text comes back — only its width.
/// Each of the format's four fields is zero-padded to two digits and its
/// value stays under 100, so a returned label is always eleven characters.
#[verifier::external_body]
fn local_clock_label(secs: i64) -> (r: Option<String>)
    ensures
        r is Some ==> r.unwrap()@.len() == 11,
{
    match chrono::Local.timestamp_opt(secs, 0).single() {
        Some(dt) => Some(dt.format("%H:%M %d/%m").to_string()),
        None => None,
    }
}

/// Renders a millisecond timestamp as local wall-clock text for display,
/// falling back to a fixed label when the timestamp cannot be represented.
pub fn format_timestamp(ts: u128) -> (r: String)
    ensures
        ts / 1000 > i64::MAX as u128 ==> r@ == "Invalid timestamp"@,
        r@ == "Invalid timestamp"@ || r@.len() == 11,
{
    let secs = ts / 1000;
    if secs > i64::MAX as u128 {
        return String::from_str("Invalid timestamp");
    }
    match local_clock_label(secs as i64) {
        Some(s) => s,
        None => String::from_str("Invalid timestamp"),
    }
}

} // verus!
