use k_snowflake::constants::TWITTER_EPOCH;
use k_snowflake::utils::elapsed_between;
use k_snowflake::utils::millis_of_reading;
use k_snowflake::utils::sys_time_millis;
use k_snowflake::utils::time_since_epoch;
use k_snowflake::Snowflake;
use std::time::SystemTime;
use std::time::UNIX_EPOCH;

#[test]
fn default_epoch_value() {
    assert_eq!(TWITTER_EPOCH, 1288834974657);
}

#[test]
fn elapsed_between_subtracts() {
    assert_eq!(elapsed_between(0, 0), 0);
    assert_eq!(elapsed_between(1288834974657, 1739042682543), 450207707886);
    assert_eq!(elapsed_between(5, 5), 0);
    assert_eq!(elapsed_between(0, u64::MAX), u64::MAX);
}

#[test]
fn elapsed_between_wraps_when_the_epoch_is_later() {
    assert_eq!(elapsed_between(10, 5), u64::MAX - 4);
    assert_eq!(elapsed_between(1, 0), u64::MAX);
    assert_eq!(elapsed_between(u64::MAX, 0), 1);
}

#[test]
fn with_epoch_and_timestamp_counts_from_the_epoch() {
    let snowflake = Snowflake::with_epoch_and_timestamp(1288834974657, 1739042682543, 598, 1073);
    assert_eq!(snowflake, Snowflake::from_timestamp(450207707886, 598, 1073));
    assert_eq!(snowflake.to_decimal(), Ok(1888307990019531825));
    let at_epoch = Snowflake::with_epoch_and_timestamp(1000, 1000, 1, 2);
    assert_eq!(at_epoch, Snowflake::from_timestamp(0, 1, 2));
}

#[test]
fn with_epoch_and_timestamp_before_the_epoch_does_not_pack() {
    let snowflake = Snowflake::with_epoch_and_timestamp(10, 5, 1, 2);
    assert_eq!(snowflake, Snowflake::from_timestamp(u64::MAX - 4, 1, 2));
    assert!(snowflake.to_decimal().is_err());
}

#[test]
fn unix_timestamp_at_adds_reading_epoch_and_timestamp() {
    let snowflake = Snowflake::from_timestamp(450207707886, 598, 1073);
    assert_eq!(snowflake.unix_timestamp_at(0), 1739042682543);
    assert_eq!(snowflake.unix_timestamp_at(1000), 1739042683543);
    assert_eq!(
        Snowflake::from_timestamp(0, 0, 0).unix_timestamp_at(0),
        TWITTER_EPOCH
    );
}

#[test]
fn unix_timestamp_at_wraps() {
    let snowflake = Snowflake::from_timestamp(u64::MAX, 0, 0);
    assert_eq!(snowflake.unix_timestamp_at(0), TWITTER_EPOCH - 1);
    assert_eq!(snowflake.unix_timestamp_at(1), TWITTER_EPOCH);
    let zero = Snowflake::from_timestamp(0, 0, 0);
    assert_eq!(zero.unix_timestamp_at(u64::MAX), TWITTER_EPOCH - 1);
}

#[test]
fn millis_of_reading_keeps_the_low_64_bits() {
    assert_eq!(millis_of_reading(Some(0)), 0);
    assert_eq!(millis_of_reading(Some(1739042682543)), 1739042682543);
    assert_eq!(millis_of_reading(Some(u64::MAX as u128)), u64::MAX);
    assert_eq!(millis_of_reading(Some(1 << 64)), 0);
    assert_eq!(millis_of_reading(Some((1 << 64) + 7)), 7);
    assert_eq!(millis_of_reading(Some(u128::MAX)), u64::MAX);
}

#[test]
fn millis_of_reading_before_the_unix_epoch_is_zero() {
    assert_eq!(millis_of_reading(None), 0);
}

#[test]
fn sys_time_millis_reads_the_wall_clock() {
    let before = SystemTime::now().duration_since(UNIX_EPOCH).unwrap().as_millis() as u64;
    let reading = sys_time_millis();
    let after = SystemTime::now().duration_since(UNIX_EPOCH).unwrap().as_millis() as u64;
    assert!(before <= reading + 1000);
    assert!(reading <= after + 1000);
    assert!(reading > TWITTER_EPOCH);
}

#[test]
fn time_since_epoch_counts_from_the_epoch() {
    let before = sys_time_millis();
    let elapsed = time_since_epoch(TWITTER_EPOCH);
    let after = sys_time_millis();
    assert!(before - TWITTER_EPOCH <= elapsed + 1000);
    assert!(elapsed <= after - TWITTER_EPOCH + 1000);
    let since_unix = time_since_epoch(0);
    assert!(since_unix >= before.saturating_sub(1000));
}

#[test]
fn new_stamps_with_the_clock_and_keeps_the_fields() {
    let before = time_since_epoch(TWITTER_EPOCH);
    let snowflake = Snowflake::new(598, 1073);
    let after = time_since_epoch(TWITTER_EPOCH);
    assert_eq!(snowflake.instance, 598);
    assert_eq!(snowflake.sequence, 1073);
    assert!(before <= snowflake.timestamp + 1000);
    assert!(snowflake.timestamp <= after + 1000);
    assert!(snowflake.to_decimal().is_ok());
}

#[test]
fn with_epoch_stamps_with_the_clock_and_keeps_the_fields() {
    let epoch = 1577836800000;
    let before = time_since_epoch(epoch);
    let snowflake = Snowflake::with_epoch(epoch, 1, 2);
    let after = time_since_epoch(epoch);
    assert_eq!(snowflake.instance, 1);
    assert_eq!(snowflake.sequence, 2);
    assert!(before <= snowflake.timestamp + 1000);
    assert!(snowflake.timestamp <= after + 1000);
}

#[test]
fn get_unix_timestamp_adds_the_clock_reading() {
    let snowflake = Snowflake::from_timestamp(450207707886, 598, 1073);
    let before = sys_time_millis();
    let sum = snowflake.get_unix_timestamp();
    let after = sys_time_millis();
    assert!(snowflake.unix_timestamp_at(before) <= sum + 1000);
    assert!(sum <= snowflake.unix_timestamp_at(after) + 1000);
}
