//! A valuation contract that prices both LP tokens by the reserves of their Comet pools.

use soroban_sdk::Env;
use vstd::prelude::*;

use crate::backstop::pool::{
    asset_list, canonical_comet, decimals_match, read_comet, spec_read_comet, validate_comet,
    AssetDecimals, BackstopAssets, CometComposition, CometReading, CometTokens,
    PAIR_VALUE_MULTIPLIER, TOKEN_DECIMALS,
};
use crate::dependencies::backstop_valuation::AssetValuation;
use crate::math::{fits_i128, mul_div_floor};
use crate::Address;

verus! {

/// Errors of the valuation contract.
#[derive(Clone, Copy, Debug, PartialEq, Eq, Structural)]
pub enum BackstopValuationError {
    AlreadyInitialized,
    InvalidConfiguration,
    InvalidComet,
    InvalidAmount,
    UnsupportedAsset,
    InvalidReserve,
    ArithmeticError,
}

impl BackstopValuationError {
    /// The number under which the contract reports the error.
    pub open spec fn spec_code(self) -> u32 {
        match self {
            BackstopValuationError::AlreadyInitialized => 1600,
            BackstopValuationError::InvalidConfiguration => 1601,
            BackstopValuationError::InvalidComet => 1603,
            BackstopValuationError::InvalidAmount => 1604,
            BackstopValuationError::UnsupportedAsset => 1605,
            BackstopValuationError::InvalidReserve => 1608,
            BackstopValuationError::ArithmeticError => 1609,
        }
    }

    /// The number under which the contract reports the error.
    pub fn code(self) -> (r: u32)
        ensures
            r == self.spec_code(),
    {
        match self {
            BackstopValuationError::AlreadyInitialized => 1600,
            BackstopValuationError::InvalidConfiguration => 1601,
            BackstopValuationError::InvalidComet => 1603,
            BackstopValuationError::InvalidAmount => 1604,
            BackstopValuationError::UnsupportedAsset => 1605,
            BackstopValuationError::InvalidReserve => 1608,
            BackstopValuationError::ArithmeticError => 1609,
        }
    }
}

/// The assets that the contract prices by.
#[derive(Clone, Copy, Debug, PartialEq, Eq, Structural)]
pub struct AdapterBinding {
    pub blnd: Address,
    pub blnd_usdc: Address,
    pub blnd_xlm: Address,
    pub usdc: Address,
}

/// The assets that the contract was set up with.
#[derive(Clone, Copy, Debug, PartialEq, Eq, Structural)]
pub struct AdapterConfig {
    pub blnd: Address,
    pub blnd_usdc: Address,
    pub blnd_xlm: Address,
    pub usdc: Address,
    pub xlm: Address,
}

/// The valuation contract with its configuration.
#[derive(Clone, Copy, Debug, PartialEq, Eq, Structural)]
pub struct BackstopValuation {
    pub config: Option<AdapterConfig>,
}

/// The configuration of a set of assets.
pub open spec fn spec_config_of(assets: BackstopAssets) -> AdapterConfig {
    AdapterConfig {
        blnd: assets.blnd,
        blnd_usdc: assets.blnd_usdc,
        blnd_xlm: assets.blnd_xlm,
        usdc: assets.usdc,
        xlm: assets.xlm,
    }
}

/// The first objection to a set-up: it is the second one, an address occurs twice,
/// a token has the wrong decimals, or a Comet pool is not canonical.
pub open spec fn spec_setup_error(
    config: Option<AdapterConfig>,
    assets: BackstopAssets,
    decimals: AssetDecimals,
    blnd_usdc: CometTokens,
    blnd_xlm: CometTokens,
) -> Option<BackstopValuationError> {
    if config is Some {
        Some(BackstopValuationError::AlreadyInitialized)
    } else if !asset_list(assets).no_duplicates() || !decimals_match(decimals) {
        Some(BackstopValuationError::InvalidConfiguration)
    } else if !canonical_comet(blnd_usdc, assets.blnd, assets.usdc) || !canonical_comet(
        blnd_xlm,
        assets.blnd,
        assets.xlm,
    ) {
        Some(BackstopValuationError::InvalidComet)
    } else {
        None
    }
}

fn validate_distinct_addresses(assets: &BackstopAssets) -> (r: Result<(), BackstopValuationError>)
    ensures
        r == if asset_list(*assets).no_duplicates() {
            Ok(())
        } else {
            Err(BackstopValuationError::InvalidConfiguration)
        },
{
    let addresses: [Address; 5] = [
        assets.blnd,
        assets.usdc,
        assets.xlm,
        assets.blnd_usdc,
        assets.blnd_xlm,
    ];
    assert(addresses@ =~= asset_list(*assets));
    let mut index: usize = 0;
    while index < 5
        invariant
            index <= 5,
            addresses@ == asset_list(*assets),
            addresses@.len() == 5,
            forall|i: int, j: int| 0 <= i < index && i < j < 5 ==> addresses@[i] != addresses@[j],
        decreases 5 - index,
    {
        let mut other: usize = index + 1;
        while other < 5
            invariant
                index < other <= 5,
                addresses@ == asset_list(*assets),
                addresses@.len() == 5,
                forall|j: int| index < j < other ==> addresses@[index as int] != addresses@[j],
            decreases 5 - other,
        {
            if addresses[index] == addresses[other] {
                assert(!asset_list(*assets).no_duplicates());
                return Err(BackstopValuationError::InvalidConfiguration);
            }
            other = other + 1;
        }
        index = index + 1;
    }
    assert(asset_list(*assets).no_duplicates());
    Ok(())
}

fn validate_token_decimals(decimals: u32) -> (r: Result<(), BackstopValuationError>)
    ensures
        r == if decimals == TOKEN_DECIMALS {
            Ok(())
        } else {
            Err(BackstopValuationError::InvalidConfiguration)
        },
{
    if decimals != TOKEN_DECIMALS {
        return Err(BackstopValuationError::InvalidConfiguration);
    }
    Ok(())
}

fn check_comet(comet: &CometTokens, blnd: Address, pair: Address) -> (r: Result<
    (),
    BackstopValuationError,
>)
    ensures
        r == if canonical_comet(*comet, blnd, pair) {
            Ok(())
        } else {
            Err(BackstopValuationError::InvalidComet)
        },
{
    match validate_comet(comet, blnd, pair) {
        Ok(_) => Ok(()),
        Err(_) => Err(BackstopValuationError::InvalidComet),
    }
}

/// The composition of a usable Comet pool; no other can be priced by.
pub open spec fn spec_reserves(reading: CometReading) -> Result<
    CometComposition,
    BackstopValuationError,
> {
    match spec_read_comet(reading) {
        Ok(composition) => Ok(composition),
        Err(_) => Err(BackstopValuationError::InvalidReserve),
    }
}

fn reserves(reading: &CometReading) -> (r: Result<CometComposition, BackstopValuationError>)
    ensures
        r == spec_reserves(*reading),
        r matches Ok(composition) ==> composition.well_formed(),
{
    match read_comet(reading) {
        Ok(composition) => Ok(composition),
        Err(_) => Err(BackstopValuationError::InvalidReserve),
    }
}

/// The total value of the BLND:USDC pool: five times its USDC reserve.
pub open spec fn spec_anchor_value(anchor: CometComposition) -> Result<
    i128,
    BackstopValuationError,
> {
    if fits_i128(anchor.pair_reserve * PAIR_VALUE_MULTIPLIER) {
        Ok((anchor.pair_reserve * PAIR_VALUE_MULTIPLIER) as i128)
    } else {
        Err(BackstopValuationError::ArithmeticError)
    }
}

fn anchor_value(anchor: &CometComposition) -> (r: Result<i128, BackstopValuationError>)
    ensures
        r == spec_anchor_value(*anchor),
{
    match anchor.pair_reserve.checked_mul(PAIR_VALUE_MULTIPLIER) {
        Some(value) => Ok(value),
        None => Err(BackstopValuationError::ArithmeticError),
    }
}

/// `floor(value * numerator / denominator)`.
pub open spec fn spec_scale(value: int, numerator: int, denominator: int) -> Result<
    i128,
    BackstopValuationError,
> {
    if fits_i128(value * numerator / denominator) {
        Ok((value * numerator / denominator) as i128)
    } else {
        Err(BackstopValuationError::ArithmeticError)
    }
}

fn scale(e: &Env, value: i128, numerator: i128, denominator: i128) -> (r: Result<
    i128,
    BackstopValuationError,
>)
    requires
        value >= 0,
        numerator >= 0,
        denominator > 0,
    ensures
        r == spec_scale(value as int, numerator as int, denominator as int),
{
    match mul_div_floor(e, value, numerator, denominator) {
        Some(quotient) => Ok(quotient),
        None => Err(BackstopValuationError::ArithmeticError),
    }
}

/// The parts of the BLND reserve and of the total value that an amount of LP
/// tokens stands for, or the first error.
pub open spec fn spec_quote_amount(
    amount: int,
    total_value: int,
    composition: CometComposition,
) -> Result<AssetValuation, BackstopValuationError> {
    let supply = composition.total_supply as int;
    if amount > supply || total_value <= 0 {
        Err(BackstopValuationError::InvalidReserve)
    } else {
        match (
            spec_scale(amount, composition.blnd_reserve as int, supply),
            spec_scale(amount, total_value, supply),
        ) {
            (Ok(underlying_blnd), Ok(usdc_value)) => Ok(
                AssetValuation { underlying_blnd, usdc_value, valid_until: u64::MAX },
            ),
            (Err(error), _) => Err(error),
            (_, Err(error)) => Err(error),
        }
    }
}

fn quote_amount(e: &Env, amount: i128, total_value: i128, composition: &CometComposition) -> (r:
    Result<AssetValuation, BackstopValuationError>)
    requires
        amount > 0,
        composition.well_formed(),
    ensures
        r == spec_quote_amount(amount as int, total_value as int, *composition),
{
    if amount > composition.total_supply || total_value <= 0 {
        return Err(BackstopValuationError::InvalidReserve);
    }
    let underlying_blnd: i128 = scale(
        e,
        amount,
        composition.blnd_reserve,
        composition.total_supply,
    )?;
    let usdc_value: i128 = scale(e, amount, total_value, composition.total_supply)?;
    Ok(AssetValuation { underlying_blnd, usdc_value, valid_until: u64::MAX })
}

/// The price of an amount of BLND:XLM LP tokens: the pool is worth what its BLND
/// is worth in the BLND:USDC pool.
pub open spec fn spec_cross_quote(
    amount: int,
    anchor: CometComposition,
    target: CometReading,
) -> Result<AssetValuation, BackstopValuationError> {
    match spec_reserves(target) {
        Err(error) => Err(error),
        Ok(t) => match spec_anchor_value(anchor) {
            Err(error) => Err(error),
            Ok(value) => match spec_scale(
                t.blnd_reserve as int,
                value as int,
                anchor.blnd_reserve as int,
            ) {
                Err(error) => Err(error),
                Ok(total) => spec_quote_amount(amount, total as int, t),
            },
        },
    }
}

/// The price of an amount of an LP token, or the first error.
pub open spec fn spec_quote(
    config: Option<AdapterConfig>,
    token: Address,
    amount: i128,
    anchor: CometReading,
    target: CometReading,
) -> Result<AssetValuation, BackstopValuationError> {
    if amount <= 0 {
        Err(BackstopValuationError::InvalidAmount)
    } else if config is None {
        Err(BackstopValuationError::InvalidConfiguration)
    } else {
        match spec_reserves(anchor) {
            Err(error) => Err(error),
            Ok(a) => if token == config->Some_0.blnd_usdc {
                match spec_anchor_value(a) {
                    Err(error) => Err(error),
                    Ok(value) => spec_quote_amount(amount as int, value as int, a),
                }
            } else if token == config->Some_0.blnd_xlm {
                spec_cross_quote(amount as int, a, target)
            } else {
                Err(BackstopValuationError::UnsupportedAsset)
            },
        }
    }
}

impl BackstopValuation {
    /// Set the contract up with its assets, once.
    pub fn construct(
        &mut self,
        assets: &BackstopAssets,
        decimals: &AssetDecimals,
        blnd_usdc: &CometTokens,
        blnd_xlm: &CometTokens,
    ) -> (r: Result<(), BackstopValuationError>)
        ensures
            match spec_setup_error(old(self).config, *assets, *decimals, *blnd_usdc, *blnd_xlm) {
                Some(error) => {
                    &&& r == Err::<(), BackstopValuationError>(error)
                    &&& *final(self) == *old(self)
                },
                None => {
                    &&& r == Ok::<(), BackstopValuationError>(())
                    &&& final(self).config == Some(spec_config_of(*assets))
                },
            },
    {
        if self.config.is_some() {
            return Err(BackstopValuationError::AlreadyInitialized);
        }
        validate_distinct_addresses(assets)?;
        validate_token_decimals(decimals.blnd)?;
        validate_token_decimals(decimals.usdc)?;
        validate_token_decimals(decimals.xlm)?;
        validate_token_decimals(decimals.blnd_usdc)?;
        validate_token_decimals(decimals.blnd_xlm)?;
        check_comet(blnd_usdc, assets.blnd, assets.usdc)?;
        check_comet(blnd_xlm, assets.blnd, assets.xlm)?;
        self.config = Some(
            AdapterConfig {
                blnd: assets.blnd,
                blnd_usdc: assets.blnd_usdc,
                blnd_xlm: assets.blnd_xlm,
                usdc: assets.usdc,
                xlm: assets.xlm,
            },
        );
        Ok(())
    }

    /// The assets that the contract was set up with.
    pub fn config(&self) -> (r: Result<AdapterConfig, BackstopValuationError>)
        ensures
            r == match self.config {
                Some(config) => Ok(config),
                None => Err(BackstopValuationError::InvalidConfiguration),
            },
    {
        match self.config {
            Some(config) => Ok(config),
            None => Err(BackstopValuationError::InvalidConfiguration),
        }
    }

    /// The assets that the contract prices by.
    pub fn binding(&self) -> (r: Result<AdapterBinding, BackstopValuationError>)
        ensures
            r == match self.config {
                Some(config) => Ok(
                    AdapterBinding {
                        blnd: config.blnd,
                        blnd_usdc: config.blnd_usdc,
                        blnd_xlm: config.blnd_xlm,
                        usdc: config.usdc,
                    },
                ),
                None => Err(BackstopValuationError::InvalidConfiguration),
            },
    {
        let config = self.config()?;
        Ok(
            AdapterBinding {
                blnd: config.blnd,
                blnd_usdc: config.blnd_usdc,
                blnd_xlm: config.blnd_xlm,
                usdc: config.usdc,
            },
        )
    }

    /// Price an amount of one of the two LP tokens. `anchor` is what the BLND:USDC pool
    /// reports, `target` what the BLND:XLM pool reports; the latter only counts for
    /// the BLND:XLM token.
    pub fn quote(
        &self,
        e: &Env,
        token: Address,
        amount: i128,
        anchor: &CometReading,
        target: &CometReading,
    ) -> (r: Result<AssetValuation, BackstopValuationError>)
        ensures
            r == spec_quote(self.config, token, amount, *anchor, *target),
    {
        if amount <= 0 {
            return Err(BackstopValuationError::InvalidAmount);
        }
        let config = self.config()?;
        let anchor = reserves(anchor)?;
        if token == config.blnd_usdc {
            let total_value: i128 = anchor_value(&anchor)?;
            quote_amount(e, amount, total_value, &anchor)
        } else if token == config.blnd_xlm {
            let target = reserves(target)?;
            let value: i128 = anchor_value(&anchor)?;
            let total_value: i128 = scale(e, target.blnd_reserve, value, anchor.blnd_reserve)?;
            quote_amount(e, amount, total_value, &target)
        } else {
            Err(BackstopValuationError::UnsupportedAsset)
        }
    }
}

/// A price never claims more than the pool: no more BLND than its reserve, no more
/// USDC than its total value.
pub proof fn law_quotes_stay_within_the_pool(
    amount: int,
    total_value: int,
    composition: CometComposition,
)
    requires
        amount > 0,
        composition.well_formed(),
    ensures
        spec_quote_amount(amount, total_value, composition) matches Ok(quote) ==> {
            &&& 0 <= quote.underlying_blnd <= composition.blnd_reserve
            &&& 0 <= quote.usdc_value <= total_value
        },
{
    let supply = composition.total_supply as int;
    if amount <= supply && total_value > 0 {
        crate::emissions::policy::lemma_part_of_value(
            composition.blnd_reserve as int,
            amount,
            supply,
        );
        crate::emissions::policy::lemma_part_of_value(total_value, amount, supply);
        assert(amount * composition.blnd_reserve == composition.blnd_reserve * amount)
            by (nonlinear_arith);
        assert(amount * total_value == total_value * amount) by (nonlinear_arith);
    }
}

/// A price does not depend on the size of the pool: with supply, reserves and total
/// value scaled alike, the same amount is priced the same.
pub proof fn law_proportionate_liquidity_preserves_quotes(
    amount: int,
    part: int,
    supply: int,
    factor: int,
)
    requires
        amount >= 0,
        part >= 0,
        supply > 0,
        factor > 0,
    ensures
        spec_scale(amount, part, supply) == spec_scale(amount, part * factor, supply * factor),
{
    vstd::arithmetic::div_mod::lemma_div_denominator(amount * part * factor, factor, supply);
    assert((amount * part * factor) / factor == amount * part) by {
        vstd::arithmetic::div_mod::lemma_div_multiples_vanish(amount * part, factor);
        assert(factor * (amount * part) == amount * part * factor) by (nonlinear_arith);
    }
    assert(amount * (part * factor) == amount * part * factor) by (nonlinear_arith);
    assert(factor * supply == supply * factor) by (nonlinear_arith);
    assert(supply * factor > 0) by (nonlinear_arith)
        requires
            supply > 0,
            factor > 0,
    ;
}

} // verus!
