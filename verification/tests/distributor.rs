//! Emission streams and what users earn from them.

use backstop::backstop::pool::PoolBalance;
use backstop::constants::SCALAR_7;
use backstop::emissions::distributor::{
    advance_emission_data, claim_emissions, preview_user_emissions, set_backstop_emission_eps,
    update_emissions, update_user_emissions, STREAM_SECONDS,
};
use backstop::errors::BackstopError;
use backstop::storage::{BackstopEmissionData, UserEmissionData};
use soroban_sdk::testutils::EnvTestConfig;
use soroban_sdk::Env;

const START: u64 = 1713139200;

fn env() -> Env {
    Env::new_with_config(EnvTestConfig { capture_snapshot_at_drop: false })
}

fn stream(eps: u64, index: i128, last_time: u64) -> BackstopEmissionData {
    BackstopEmissionData {
        expiration: START + 7 * 24 * 60 * 60,
        eps,
        index,
        last_time,
        index_carry: 0,
        schedule_carry: 0,
    }
}

fn user(index: i128, accrued: i128) -> UserEmissionData {
    UserEmissionData { index, accrued, carry: 0 }
}

fn pool(q4w: i128) -> PoolBalance {
    PoolBalance { shares: 150_0000000, tokens: 200_0000000, q4w }
}

#[test]
fn test_update_emissions() {
    let e = env();
    let block_timestamp = START + 1234;
    let mut emission = Some(stream(0_10000000000000, 222220000000, START));
    let mut record = Some(user(111110000000, 3));
    update_emissions(&e, &mut emission, &mut record, &pool(0), 9_0000000, block_timestamp).unwrap();

    let new_backstop_data = emission.unwrap();
    let new_user_data = record.unwrap();
    assert_eq!(new_backstop_data.last_time, block_timestamp);
    assert_eq!(new_backstop_data.index, 82488886666666);
    assert_eq!(new_user_data.accrued, 7_4140001);
    assert_eq!(new_user_data.index, 82488886666666);
}

#[test]
fn test_update_emissions_no_data() {
    let e = env();
    let (mut emission, mut record) = (None, None);
    update_emissions(&e, &mut emission, &mut record, &pool(0), 9_0000000, START + 1234).unwrap();
    assert!(emission.is_none());
    assert!(record.is_none());
}

#[test]
fn test_update_emissions_first_action() {
    let e = env();
    let block_timestamp = START + 12345;
    let mut emission = Some(stream(0_04200000000000, 222220000000, START));
    let mut record = None;
    update_emissions(&e, &mut emission, &mut record, &pool(0), 0, block_timestamp).unwrap();

    let new_backstop_data = emission.unwrap();
    let new_user_data = record.unwrap();
    assert_eq!(new_backstop_data.last_time, block_timestamp);
    assert_eq!(new_backstop_data.index, 345882220000000);
    assert_eq!(new_user_data.accrued, 0);
    assert_eq!(new_user_data.index, 345882220000000);
}

#[test]
fn test_update_emissions_config_set_after_user() {
    let e = env();
    let block_timestamp = START + 12345;
    let mut emission = Some(stream(0_04200000000000, 0, START));
    let mut record = None;
    update_emissions(&e, &mut emission, &mut record, &pool(0), 9_0000000, block_timestamp).unwrap();

    let new_backstop_data = emission.unwrap();
    let new_user_data = record.unwrap();
    assert_eq!(new_backstop_data.last_time, block_timestamp);
    assert_eq!(new_backstop_data.index, 345660000000000);
    assert_eq!(new_user_data.accrued, 31_1094000);
    assert_eq!(new_user_data.index, 345660000000000);
}

#[test]
fn test_update_emissions_q4w_not_counted() {
    let e = env();
    let block_timestamp = START + 1234;
    let mut emission = Some(stream(0_10000000000000, 222220000000, START));
    let mut record = Some(user(111110000000, 3));
    update_emissions(
        &e,
        &mut emission,
        &mut record,
        &pool(4_5000000),
        4_5000000,
        block_timestamp,
    )
    .unwrap();

    let new_backstop_data = emission.unwrap();
    let new_user_data = record.unwrap();
    assert_eq!(new_backstop_data.last_time, block_timestamp);
    assert_eq!(new_backstop_data.index, 85033216563573);
    assert_eq!(new_user_data.accrued, 38214950);
    assert_eq!(new_user_data.index, 85033216563573);
}

#[test]
fn test_update_emissions_fully_q4w_emissions_lost() {
    let e = env();
    let block_timestamp = START + 1234;
    let before = stream(0_10000000000000, 222220000000, START);
    let mut emission = Some(before);
    let mut record = Some(user(111110000000, 3));
    update_emissions(
        &e,
        &mut emission,
        &mut record,
        &pool(150_0000000),
        4_5000000,
        block_timestamp,
    )
    .unwrap();

    let new_backstop_data = emission.unwrap();
    let new_user_data = record.unwrap();
    assert_eq!(new_backstop_data.last_time, block_timestamp);
    assert_eq!(new_backstop_data.index, before.index);
    assert_eq!(new_user_data.accrued, 50002);
    assert_eq!(new_user_data.index, before.index);
}

#[test]
fn test_claim_emissions() {
    let e = env();
    let block_timestamp = START + 1234;
    let mut emission = Some(stream(0_10000000000000, 222220000000, START));
    let mut record = Some(user(111110000000, 3));
    let result =
        claim_emissions(&e, &mut emission, &mut record, &pool(0), 9_0000000, block_timestamp);

    let new_backstop_data = emission.unwrap();
    let new_user_data = record.unwrap();
    assert_eq!(result, Ok(7_4140001));
    assert_eq!(new_backstop_data.last_time, block_timestamp);
    assert_eq!(new_backstop_data.index, 82488886666666);
    assert_eq!(new_user_data.accrued, 0);
    assert_eq!(new_user_data.index, 82488886666666);

    let (mut emission, mut record) = (Some(new_backstop_data), Some(new_user_data));
    assert_eq!(
        claim_emissions(&e, &mut emission, &mut record, &pool(0), 9_0000000, block_timestamp),
        Ok(0)
    );
}

#[test]
fn test_update_emissions_more_q4w_than_shares_panics() {
    let e = env();
    let mut emission = Some(stream(0_10000000000000, 22222, START));
    let mut record = Some(user(11111, 3));
    let error = update_emissions(
        &e,
        &mut emission,
        &mut record,
        &pool(150_0000001),
        4_5000000,
        START + 1234,
    )
    .unwrap_err();
    assert_eq!(error.code(), 1027);
}

#[test]
fn test_update_emissions_negative_time_dif() {
    let e = env();
    let block_timestamp = START + 1234;
    let mut emission = Some(stream(0_10000000000000, 22222, block_timestamp + 1));
    let mut record = Some(user(11111, 3));
    let error = update_emissions(
        &e,
        &mut emission,
        &mut record,
        &pool(0),
        4_5000000,
        block_timestamp,
    )
    .unwrap_err();
    assert_eq!(error.code(), 1027);
}

#[test]
fn test_update_emissions_negative_user_index() {
    let e = env();
    let mut emission = Some(stream(0_10000000000000, 222220000000, START));
    let mut record = Some(user(345660000000000 + 1, 3));
    let error = update_emissions(
        &e,
        &mut emission,
        &mut record,
        &pool(0),
        4_5000000,
        START + 1234,
    )
    .unwrap_err();
    assert_eq!(error.code(), 1027);
}

#[test]
fn a_preview_shows_what_a_checkpoint_leaves() {
    let e = env();
    let mut emission = Some(stream(0_10000000000000, 222220000000, START));
    let mut record = Some(user(111110000000, 3));
    let now = START + 1234;
    let preview =
        preview_user_emissions(&e, &emission, &record, &pool(0), 9_0000000, now).unwrap();
    assert_eq!(record, Some(user(111110000000, 3)));
    let after =
        update_emissions(&e, &mut emission, &mut record, &pool(0), 9_0000000, now).unwrap();
    assert_eq!(preview, after);
    assert_eq!(
        preview_user_emissions(&e, &None, &None, &pool(0), 9_0000000, now),
        Ok(user(0, 0))
    );
}

#[test]
fn streams_are_spread_over_seven_days() {
    let e = env();
    let mut emission = None;
    set_backstop_emission_eps(&e, &mut emission, &pool(0), 1_000, START).unwrap();
    let data = emission.unwrap();
    assert_eq!(data.eps, 16_534);
    assert_eq!(data.schedule_carry, 236_800);
    assert_eq!(data.expiration, START + STREAM_SECONDS);
    assert_eq!(data.last_time, START);
    assert_eq!(
        data.eps as i128 * STREAM_SECONDS as i128 + data.schedule_carry,
        1_000 * SCALAR_7
    );

    let later = START + STREAM_SECONDS / 2;
    set_backstop_emission_eps(&e, &mut emission, &pool(0), 500, later).unwrap();
    let next = emission.unwrap();
    let left = 16_534 * (STREAM_SECONDS / 2) as i128 + 236_800;
    assert_eq!(
        next.eps as i128 * STREAM_SECONDS as i128 + next.schedule_carry,
        500 * SCALAR_7 + left
    );
    assert_eq!(next.expiration, later + STREAM_SECONDS);
    set_backstop_emission_eps(&e, &mut emission, &pool(0), 0, later + 1).unwrap();
    assert_eq!(emission.unwrap().expiration, later + STREAM_SECONDS);
    assert_eq!(emission.unwrap().last_time, later + 1);
}

#[test]
fn a_stream_pays_its_carry_at_its_end() {
    let e = env();
    let mut emission = None;
    let one = PoolBalance { shares: 1, tokens: 1, q4w: 0 };
    set_backstop_emission_eps(&e, &mut emission, &one, 1_000, START).unwrap();
    let end = advance_emission_data(&e, &emission.unwrap(), &one, START + STREAM_SECONDS + 9).unwrap();
    assert_eq!(end.index, 1_000 * SCALAR_7 * SCALAR_7);
    assert_eq!(end.schedule_carry, 0);
    let half = advance_emission_data(&e, &emission.unwrap(), &one, START + 77).unwrap();
    let whole = advance_emission_data(&e, &half, &one, START + STREAM_SECONDS + 9).unwrap();
    assert_eq!(whole, end);
}

#[test]
fn user_checkpoints_do_not_change_earnings() {
    let e = env();
    let start = user(0, 0);
    let whole = update_user_emissions(&e, &start, 3_0000000, 1_2345678).unwrap();
    let half = update_user_emissions(&e, &start, 3_0000000, 777_777).unwrap();
    let two = update_user_emissions(&e, &half, 3_0000000, 1_2345678).unwrap();
    assert_eq!(two, whole);
    assert_eq!(whole.accrued, 3);
    assert_eq!(whole.carry, 70370340000000);
}

#[test]
fn broken_records_are_refused() {
    let e = env();
    let invalid = Err(BackstopError::InvalidEmissionValue);
    let good = stream(1, 0, START);
    for bad in [
        BackstopEmissionData { index: -1, ..good },
        BackstopEmissionData { index_carry: -1, ..good },
        BackstopEmissionData { schedule_carry: -1, ..good },
        BackstopEmissionData { schedule_carry: STREAM_SECONDS as i128, ..good },
    ] {
        assert_eq!(advance_emission_data(&e, &bad, &pool(0), START), invalid);
    }
    let invalid = Err(BackstopError::InvalidEmissionValue);
    assert_eq!(update_user_emissions(&e, &user(0, 0), -1, 0), invalid);
    assert_eq!(update_user_emissions(&e, &user(0, -5), 0, 0), invalid);
    assert_eq!(
        update_user_emissions(&e, &user(0, i128::MAX), i128::MAX, 100000000000000),
        Err(BackstopError::OverflowError)
    );
    let one = PoolBalance { shares: 1, tokens: 1, q4w: 0 };
    let huge = BackstopEmissionData { index: i128::MAX, eps: 1, ..good };
    assert_eq!(
        advance_emission_data(&e, &huge, &one, START + 1),
        Err(BackstopError::OverflowError)
    );
    let mut emission = None;
    assert_eq!(
        set_backstop_emission_eps(&e, &mut emission, &one, -1, START),
        Err(BackstopError::InvalidEmissionValue)
    );
    assert_eq!(
        set_backstop_emission_eps(&e, &mut emission, &one, i128::MAX, START),
        Err(BackstopError::OverflowError)
    );
    assert_eq!(
        set_backstop_emission_eps(&e, &mut emission, &one, 1, u64::MAX),
        Err(BackstopError::OverflowError)
    );
}
