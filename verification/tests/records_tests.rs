use stake_checker::records::{
    balance_from_maybe_str, parse_rewards, parse_stake_changes, BalanceField, Reward, StakeChange,
};
use stake_checker::timestamp::Timestamp;
use stake_checker::ScError;

fn ts(year: u32, month: u32, day: u32, hour: u32, minute: u32, second: u32) -> Timestamp {
    Timestamp { year, month, day, hour, minute, second, milli: 0 }
}

#[test]
fn balance_accepts_native_integers_and_digit_strings() {
    assert_eq!(balance_from_maybe_str(&BalanceField::Uint(10)), Ok(10u128));
    assert_eq!(balance_from_maybe_str(&BalanceField::Uint(u64::MAX)), Ok(u64::MAX as u128));
    assert_eq!(
        balance_from_maybe_str(&BalanceField::Text(String::from("3000000000000"))),
        Ok(3000000000000u128)
    );
    assert_eq!(balance_from_maybe_str(&BalanceField::Text(String::from("0"))), Ok(0u128));
}

#[test]
fn balance_rejects_non_integer_values() {
    assert_eq!(
        balance_from_maybe_str(&BalanceField::Other),
        Err(ScError::NonIntegerValue)
    );
    assert_eq!(
        balance_from_maybe_str(&BalanceField::Text(String::from(""))),
        Err(ScError::NonIntegerValue)
    );
    assert_eq!(
        balance_from_maybe_str(&BalanceField::Text(String::from("12a3"))),
        Err(ScError::NonIntegerValue)
    );
    assert_eq!(
        balance_from_maybe_str(&BalanceField::Text(String::from("-5"))),
        Err(ScError::NonIntegerValue)
    );
}

#[test]
fn balance_too_wide_for_sixty_four_bits_overflows() {
    // One past u64::MAX, and a plainly huge digit string.
    assert_eq!(
        balance_from_maybe_str(&BalanceField::Text(String::from("18446744073709551616"))),
        Err(ScError::Overflow)
    );
    assert_eq!(
        balance_from_maybe_str(&BalanceField::Text(String::from("99999999999999999999999"))),
        Err(ScError::Overflow)
    );
    assert_eq!(
        balance_from_maybe_str(&BalanceField::Text(String::from("18446744073709551615"))),
        Ok(u64::MAX as u128)
    );
}

#[test]
fn cache_text_parses_line_by_line() {
    let text = "2022-09-19T17:53:20.000,1000000000000\n2022-09-19T20:40:00.000,2000000000000\n";
    let changes = parse_stake_changes(text).unwrap();
    assert_eq!(
        changes,
        vec![
            StakeChange {
                timestamp: ts(2022, 9, 19, 17, 53, 20),
                accumulated_amount: 1000000000000
            },
            StakeChange {
                timestamp: ts(2022, 9, 19, 20, 40, 0),
                accumulated_amount: 2000000000000
            },
        ]
    );
}

#[test]
fn cache_text_parses_rewards_and_epoch_timestamps() {
    let text = "2015-06-10T08:07:06.011,10\n1663630000,11";
    let rewards = parse_rewards(text).unwrap();
    assert_eq!(rewards.len(), 2);
    assert_eq!(
        rewards[0],
        Reward {
            date: Timestamp { year: 2015, month: 6, day: 10, hour: 8, minute: 7, second: 6, milli: 11 },
            balance: 10
        }
    );
    assert_eq!(rewards[1], Reward { date: ts(2022, 9, 19, 23, 26, 40), balance: 11 });
}

#[test]
fn cache_text_skips_blank_lines_and_carriage_returns() {
    let text = "\n2022-09-19T17:53:20.000,7\r\n\r\n";
    let changes = parse_stake_changes(text).unwrap();
    assert_eq!(changes.len(), 1);
    assert_eq!(changes[0].accumulated_amount, 7);
    assert_eq!(parse_stake_changes("").unwrap(), vec![]);
}

#[test]
fn cache_text_stops_at_the_first_malformed_record() {
    let text = "2022-09-19T17:53:20.000,7\nnot-a-timestamp,8\n2022-09-19T20:40:00.000,9\n";
    assert_eq!(parse_stake_changes(text), Err(ScError::MalformedTimestamp));
    let text2 = "2022-09-19T17:53:20.000,x\n";
    assert_eq!(parse_stake_changes(text2), Err(ScError::NonIntegerValue));
    let text3 = "2022-09-19T17:53:20.000\n";
    assert_eq!(parse_stake_changes(text3), Err(ScError::NonIntegerValue));
    let text4 = "2022-09-19T17:53:20.000,99999999999999999999999\n";
    assert_eq!(parse_stake_changes(text4), Err(ScError::Overflow));
}

#[test]
fn records_render_back_to_cache_lines() {
    let change = StakeChange {
        timestamp: Timestamp {
            year: 2022,
            month: 9,
            day: 19,
            hour: 17,
            minute: 53,
            second: 20,
            milli: 0,
        },
        accumulated_amount: 1000000000000,
    };
    assert_eq!(change.to_line(), "2022-09-19T17:53:20.000,1000000000000");
    let reward = Reward {
        date: Timestamp { year: 2015, month: 6, day: 10, hour: 8, minute: 7, second: 6, milli: 11 },
        balance: 10,
    };
    assert_eq!(reward.to_line(), "2015-06-10T08:07:06.011,10");
}

#[test]
fn error_kinds_describe_themselves() {
    assert_eq!(ScError::MalformedTimestamp.describe(), "malformed timestamp");
    assert_eq!(ScError::NonIntegerValue.describe(), "non-integer value");
    assert_eq!(ScError::Overflow.describe(), "overflow");
    assert_eq!(ScError::InvalidAccountIdentifier.describe(), "invalid account identifier");
    assert_eq!(ScError::TruncatedInput.describe(), "truncated input");
    assert_eq!(ScError::NoDataFound.describe(), "no data found");
}
