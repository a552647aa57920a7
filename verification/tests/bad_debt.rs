//! Lots for bad-debt auctions.

use backstop::backstop::bad_debt::{
    allocate_bad_debt_tier, available_pool_tier_assets, bad_debt_commitment, commit_bad_debt_lot,
    pool_bad_debt_commitment_count, pool_tier_committed_assets, proportional_ceil,
    proportional_floor, quote_bad_debt_lot, release_bad_debt_lot, AuctionId, BadDebtCommitment,
    BadDebtLotQuote, BadDebtStep, CommitStep, LpQuotes, BAD_DEBT_TIER_MINIMUM_VALUE_USDC,
};
use backstop::backstop::pool::PoolBalance;
use backstop::backstop::tier::BackstopTier;
use backstop::backstop::valuation::TierBalances;
use backstop::constants::SCALAR_7;
use backstop::dependencies::backstop_valuation::AssetValuation;
use backstop::errors::BackstopError;
use soroban_sdk::testutils::EnvTestConfig;
use soroban_sdk::Env;

const NOW: u64 = 1_000;
const AUCTION: AuctionId = AuctionId { hi: 7, lo: 7 };

fn env() -> Env {
    Env::new_with_config(EnvTestConfig { capture_snapshot_at_drop: false })
}

fn balance(amount: i128) -> PoolBalance {
    PoolBalance { shares: amount, tokens: amount, q4w: 0 }
}

fn balances(blnd_usdc: i128, blnd_xlm: i128, usdc: i128) -> TierBalances {
    TierBalances {
        blnd_usdc: balance(blnd_usdc),
        blnd_xlm: balance(blnd_xlm),
        usdc: balance(usdc),
    }
}

/// An LP token is worth one USDC.
fn price(amount: i128) -> AssetValuation {
    AssetValuation { underlying_blnd: amount, usdc_value: amount, valid_until: u64::MAX }
}

/// Ask for prices until the lot is found.
fn quote(
    e: &Env,
    is_pool: bool,
    debt_value: i128,
    balances: &TierBalances,
    commitment: &Option<BadDebtCommitment>,
) -> Result<Option<BadDebtLotQuote>, BackstopError> {
    let mut quotes = LpQuotes { blnd_usdc: None, blnd_xlm: None };
    loop {
        match quote_bad_debt_lot(e, is_pool, debt_value, true, balances, commitment, &quotes, NOW)? {
            BadDebtStep::Lot(lot) => return Ok(Some(lot)),
            BadDebtStep::NoLot => return Ok(None),
            BadDebtStep::Price(BackstopTier::BlndUsdc, amount) => {
                quotes.blnd_usdc = Some(price(amount))
            }
            BadDebtStep::Price(BackstopTier::BlndXlm, amount) => {
                quotes.blnd_xlm = Some(price(amount))
            }
            BadDebtStep::Price(BackstopTier::Usdc, _) => unreachable!(),
        }
    }
}

#[test]
fn commits_first_qualifying_single_tier_and_releases_it() {
    let e = env();
    let tiers = balances(50 * SCALAR_7, 100 * SCALAR_7, 500 * SCALAR_7);
    let debt_value = 200 * SCALAR_7;
    let expected = BadDebtLotQuote {
        committed_value: 240 * SCALAR_7,
        debt_value,
        tier: BackstopTier::Usdc,
        lot_amount: 240 * SCALAR_7,
        unfilled_target_value: 0,
        target_value: 240 * SCALAR_7,
        valid_until: u64::MAX,
    };
    assert_eq!(quote(&e, true, debt_value, &tiers, &None), Ok(Some(expected)));

    let mut commitment = None;
    let quotes = LpQuotes {
        blnd_usdc: Some(price(50 * SCALAR_7)),
        blnd_xlm: Some(price(100 * SCALAR_7)),
    };
    assert_eq!(
        commit_bad_debt_lot(
            &e,
            true,
            AUCTION,
            debt_value,
            true,
            &tiers,
            &mut commitment,
            &quotes,
            NOW
        ),
        Ok(CommitStep::Committed(expected))
    );
    assert_eq!(pool_bad_debt_commitment_count(&commitment), 1);
    assert_eq!(bad_debt_commitment(&commitment, AUCTION), Some(expected));
    assert_eq!(
        pool_tier_committed_assets(&commitment, BackstopTier::Usdc),
        240 * SCALAR_7
    );
    let available = |commitment: &Option<BadDebtCommitment>, tier, balance: &PoolBalance| {
        available_pool_tier_assets(balance, commitment, tier).unwrap()
    };
    assert_eq!(
        available(&commitment, BackstopTier::BlndUsdc, &tiers.blnd_usdc),
        50 * SCALAR_7
    );
    assert_eq!(
        available(&commitment, BackstopTier::BlndXlm, &tiers.blnd_xlm),
        100 * SCALAR_7
    );
    assert_eq!(available(&commitment, BackstopTier::Usdc, &tiers.usdc), 260 * SCALAR_7);

    assert_eq!(release_bad_debt_lot(true, AUCTION, &mut commitment), Ok(()));
    assert_eq!(pool_bad_debt_commitment_count(&commitment), 0);
    assert_eq!(available(&commitment, BackstopTier::Usdc, &tiers.usdc), 500 * SCALAR_7);
}

#[test]
fn skips_every_tier_below_the_operational_minimum() {
    let e = env();
    let short = BAD_DEBT_TIER_MINIMUM_VALUE_USDC - 1;
    assert_eq!(quote(&e, true, SCALAR_7, &balances(short, short, short), &None), Ok(None));

    let enough = balances(BAD_DEBT_TIER_MINIMUM_VALUE_USDC, short, short);
    assert_eq!(
        quote(&e, true, SCALAR_7, &enough, &None).unwrap().unwrap().tier,
        BackstopTier::BlndUsdc
    );
    assert_eq!(BAD_DEBT_TIER_MINIMUM_VALUE_USDC, 200 * SCALAR_7);
}

#[test]
fn partial_tier_selection_rounds_assets_up() {
    let e = env();
    assert_eq!(allocate_bad_debt_tier(&e, 3, 2, 1), Ok((2, 1, 0)));
    assert_eq!(allocate_bad_debt_tier(&e, 3, 2, 2), Ok((3, 2, 0)));
    assert_eq!(allocate_bad_debt_tier(&e, 3, 2, 3), Ok((3, 2, 1)));
    assert_eq!(allocate_bad_debt_tier(&e, 0, 2, 3), Err(BackstopError::InternalError));
}

#[test]
fn quotes_are_refused_in_order() {
    let e = env();
    let tiers = balances(0, 0, 500 * SCALAR_7);
    assert_eq!(quote(&e, false, 0, &tiers, &None), Err(BackstopError::NotPool));
    assert_eq!(quote(&e, true, 0, &tiers, &None), Err(BackstopError::BadRequest));
    assert_eq!(
        quote(&e, true, i128::MAX, &tiers, &None),
        Err(BackstopError::OverflowError)
    );
    let quotes = LpQuotes { blnd_usdc: None, blnd_xlm: None };
    assert_eq!(
        quote_bad_debt_lot(&e, true, 1, false, &tiers, &None, &quotes, NOW),
        Err(BackstopError::InvalidBackstopValuation)
    );
    let lp = balances(500 * SCALAR_7, 0, 0);
    let at = |price: AssetValuation| {
        let quotes = LpQuotes { blnd_usdc: Some(price), blnd_xlm: None };
        quote_bad_debt_lot(&e, true, 1, true, &lp, &None, &quotes, NOW)
    };
    assert_eq!(
        at(AssetValuation { underlying_blnd: -1, ..price(1) }),
        Err(BackstopError::InvalidValuation)
    );
    assert_eq!(
        at(AssetValuation { valid_until: NOW - 1, ..price(1) }),
        Err(BackstopError::StaleValuation)
    );
    assert_eq!(at(AssetValuation { valid_until: NOW, ..price(1) }), Ok(BadDebtStep::NoLot));
}

#[test]
fn commitments_are_exclusive() {
    let e = env();
    let tiers = balances(0, 0, 500 * SCALAR_7);
    let quotes = LpQuotes { blnd_usdc: None, blnd_xlm: None };
    let mut commitment = None;
    let commit = |is_pool, tiers: &TierBalances, commitment: &mut Option<BadDebtCommitment>| {
        commit_bad_debt_lot(
            &e,
            is_pool,
            AUCTION,
            SCALAR_7,
            true,
            tiers,
            commitment,
            &quotes,
            NOW,
        )
    };
    assert_eq!(commit(false, &tiers, &mut commitment), Err(BackstopError::NotPool));
    assert_eq!(
        commit(true, &balances(0, 0, 1), &mut commitment),
        Err(BackstopError::NoBadDebtLossCapacity)
    );
    assert_eq!(
        commit(true, &balances(9, 0, 1), &mut commitment),
        Ok(CommitStep::Price(BackstopTier::BlndUsdc, 9))
    );
    assert_eq!(commitment, None);
    assert_eq!(
        release_bad_debt_lot(true, AUCTION, &mut commitment),
        Err(BackstopError::BadDebtCommitmentNotFound)
    );
    commit(true, &tiers, &mut commitment).unwrap();
    assert_eq!(
        commit(true, &tiers, &mut commitment),
        Err(BackstopError::BadDebtCommitmentExists)
    );
    let other = AuctionId { hi: 7, lo: 8 };
    assert_eq!(bad_debt_commitment(&commitment, other), None);
    assert_eq!(
        release_bad_debt_lot(true, other, &mut commitment),
        Err(BackstopError::BadDebtCommitmentNotFound)
    );
    assert_eq!(
        release_bad_debt_lot(false, AUCTION, &mut commitment),
        Err(BackstopError::NotPool)
    );
    assert_eq!(
        available_pool_tier_assets(&balance(1), &commitment, BackstopTier::Usdc),
        Err(BackstopError::InternalError)
    );
}

#[test]
fn proportions_round_as_they_are_named() {
    let e = env();
    assert_eq!(proportional_floor(&e, 7, 3, 2), Ok(10));
    assert_eq!(proportional_ceil(&e, 7, 3, 2), Ok(11));
    assert_eq!(proportional_floor(&e, i128::MAX, i128::MAX, i128::MAX), Ok(i128::MAX));
    assert_eq!(
        proportional_ceil(&e, i128::MAX, 2, 1),
        Err(BackstopError::OverflowError)
    );
    assert_eq!(proportional_floor(&e, -1, 1, 1), Err(BackstopError::OverflowError));
    assert_eq!(proportional_ceil(&e, 1, 1, 0), Err(BackstopError::OverflowError));
}
