use banker::format::{format_completion_percentage, format_number, format_timestamp, i128_string};
use banker::operation::Operation;
use banker::username::Username;

#[test]
fn numbers_render_in_decimal() {
    assert_eq!(i128_string(0).as_str(), "0");
    assert_eq!(i128_string(7).as_str(), "7");
    assert_eq!(i128_string(250).as_str(), "250");
    assert_eq!(i128_string(-250).as_str(), "-250");
    assert_eq!(i128_string(9007199254740992).as_str(), "9007199254740992");
}

#[test]
fn format_number_groups_digits_in_threes() {
    assert_eq!(format_number(0).as_str(), "0");
    assert_eq!(format_number(123).as_str(), "123");
    assert_eq!(format_number(1234).as_str(), "1 234");
    assert_eq!(format_number(1234567).as_str(), "1 234 567");
    assert_eq!(format_number(-1234567).as_str(), "-1 234 567");
}

#[test]
fn describe_deposit_and_withdraw() {
    let dep = Operation::PlayerPurse {
        amount: 250,
        username: Username::new("Alice".to_string()),
        repeat_count: 1,
    };
    assert_eq!(dep.describe().as_str(), "TSC NEW: Alice has deposit 250 \u{a4}");
    let wd = Operation::PlayerPurse {
        amount: -40,
        username: Username::new("Bob".to_string()),
        repeat_count: 1,
    };
    assert_eq!(wd.describe().as_str(), "TSC NEW: Bob has withdraw -40 \u{a4}");
}

#[test]
fn describe_transfer_interest_and_marker() {
    let tr = Operation::PlayerTransfer {
        amount: 2,
        receiver: Username::new("v".to_string()),
        sender: Username::new("u".to_string()),
        repeat_count: 1,
    };
    assert_eq!(
        tr.describe().as_str(),
        "TSF NEW: u has transfered 2 coins to v"
    );
    let int = Operation::BankInterests { amount: 5 };
    assert_eq!(int.describe().as_str(), "BANK INTEREST: 5 \u{a4}");
    assert_eq!(Operation::WeirdWaypoint.describe().as_str(), "Weirdwaypoint");
}

#[test]
fn completion_percentage_renders_two_decimals() {
    assert_eq!(
        format_completion_percentage(500, &Some(1000)).as_str(),
        "50.00%"
    );
    assert_eq!(format_completion_percentage(1, &Some(3)).as_str(), "33.33%");
    // Rounded to the nearest hundredth of a percent, not truncated.
    assert_eq!(format_completion_percentage(2, &Some(3)).as_str(), "66.67%");
    assert_eq!(format_completion_percentage(0, &Some(5)).as_str(), "0.00%");
    assert_eq!(
        format_completion_percentage(-500, &Some(1000)).as_str(),
        "-50.00%"
    );
    assert_eq!(format_completion_percentage(10, &None).as_str(), "Unknown");
}

#[test]
fn timestamp_formatting_has_a_fallback() {
    // A millisecond timestamp whose seconds exceed the representable range.
    let huge: u128 = (i64::MAX as u128 + 1) * 1000;
    assert_eq!(format_timestamp(huge).as_str(), "Invalid timestamp");
    // An ordinary timestamp renders as local "HH:MM DD/MM" text.
    let label = format_timestamp(1_600_000_000_000);
    assert!(label.as_str() == "Invalid timestamp" || label.chars().count() == 11);
    assert!(!label.is_empty());
}
