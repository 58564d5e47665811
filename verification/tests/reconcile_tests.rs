use stake_checker::reconcile::{reconcile, BoundaryPolicy};
use stake_checker::records::{Reward, StakeChange};
use stake_checker::timestamp::Timestamp;

fn ts(hour: u32, minute: u32, second: u32) -> Timestamp {
    Timestamp { year: 2022, month: 9, day: 19, hour, minute, second, milli: 0 }
}

fn change(t: Timestamp, accumulated_amount: u128) -> StakeChange {
    StakeChange { timestamp: t, accumulated_amount }
}

#[test]
fn empty_cache_takes_every_fetched_record() {
    let fetched = vec![
        change(ts(17, 53, 20), 1000000000000),
        change(ts(20, 40, 0), 2000000000000),
        change(ts(23, 26, 40), 3000000000000),
    ];
    let cached: Vec<StakeChange> = vec![];
    let new = reconcile(&cached, &fetched, BoundaryPolicy::SkipFirstMatch);
    assert_eq!(new, fetched);
    let new2 = reconcile(&cached, &fetched, BoundaryPolicy::KeepFromMatch);
    assert_eq!(new2, fetched);
    let nothing: Vec<StakeChange> = vec![];
    assert_eq!(reconcile(&nothing, &nothing, BoundaryPolicy::SkipFirstMatch), nothing);
}

#[test]
fn no_fetched_record_at_or_after_the_cache_means_nothing_new() {
    let cached = vec![change(ts(20, 0, 0), 5), change(ts(20, 40, 0), 6)];
    let fetched = vec![change(ts(17, 53, 20), 1), change(ts(19, 0, 0), 2)];
    let new = reconcile(&cached, &fetched, BoundaryPolicy::SkipFirstMatch);
    assert_eq!(new, vec![]);
    let new2 = reconcile(&cached, &fetched, BoundaryPolicy::KeepFromMatch);
    assert_eq!(new2, vec![]);
}

#[test]
fn boundary_cut_keeps_only_what_follows_the_first_match() {
    // Cache of two records ending 2022-09-19T20:40:00; three fetched
    // records at 17:53:20, 20:40:00 and 23:26:40. The record matching
    // the boundary is itself dropped: only the third is new.
    let cached = vec![change(ts(17, 53, 20), 1000000000000), change(ts(20, 40, 0), 2000000000000)];
    let fetched = vec![
        change(ts(17, 53, 20), 1000000000000),
        change(ts(20, 40, 0), 2000000000000),
        change(ts(23, 26, 40), 3000000000000),
    ];
    let new = reconcile(&cached, &fetched, BoundaryPolicy::SkipFirstMatch);
    assert_eq!(new.len(), 1);
    assert_eq!(new[0], change(ts(23, 26, 40), 3000000000000));
}

#[test]
fn keep_from_match_policy_keeps_the_boundary_record() {
    let cached = vec![change(ts(17, 53, 20), 1), change(ts(20, 40, 0), 2)];
    let fetched = vec![
        change(ts(17, 53, 20), 1),
        change(ts(20, 40, 0), 2),
        change(ts(23, 26, 40), 3),
    ];
    let new = reconcile(&cached, &fetched, BoundaryPolicy::KeepFromMatch);
    assert_eq!(new, vec![change(ts(20, 40, 0), 2), change(ts(23, 26, 40), 3)]);
}

#[test]
fn duplicate_timestamps_pass_through_the_cut_uniformly() {
    let cached = vec![change(ts(20, 40, 0), 2)];
    let fetched = vec![
        change(ts(20, 40, 0), 2),
        change(ts(21, 0, 0), 3),
        change(ts(21, 0, 0), 4),
    ];
    let new = reconcile(&cached, &fetched, BoundaryPolicy::SkipFirstMatch);
    assert_eq!(new, vec![change(ts(21, 0, 0), 3), change(ts(21, 0, 0), 4)]);
}

#[test]
fn rewards_reconcile_like_stake_changes() {
    let day = |d: u32| Timestamp {
        year: 2015,
        month: 6,
        day: d,
        hour: 8,
        minute: 7,
        second: 6,
        milli: 11,
    };
    let cached = vec![
        Reward { date: day(10), balance: 10 },
        Reward { date: day(11), balance: 10 },
    ];
    let fetched = vec![
        Reward { date: day(10), balance: 9 },
        Reward { date: day(11), balance: 10 },
        Reward {
            date: Timestamp {
                year: 2016,
                month: 7,
                day: 8,
                hour: 9,
                minute: 10,
                second: 11,
                milli: 0,
            },
            balance: 11,
        },
    ];
    let new = reconcile(&cached, &fetched, BoundaryPolicy::SkipFirstMatch);
    assert_eq!(new.len(), 1);
    assert_eq!(new[0].balance, 11);
}
