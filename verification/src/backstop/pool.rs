//! Pool balances, the configured loss waterfall and its valuation.

use soroban_sdk::Env;
use vstd::prelude::*;

use super::share_laws::{law_shares_redeem_what_stands_behind_them, stands_behind};
use crate::constants::{ACTIVATION_THRESHOLD_USDC, SCALAR_7};
use crate::dependencies::pool_factory::{BackstopAsset as FactoryBackstopAsset, BackstopTierConfig};
use crate::errors::BackstopError;
use crate::math::{
    ceil_div, fits_i128, fits_wide, fixed_mul_floor, fixed_result, floor_div, lemma_ceil_by_floor,
    lemma_product_fits, lemma_quotient_bounds, mul_div_ceil, wide_div, wide_from_i128, wide_mul,
    wide_to_i128, Wide,
};
use crate::results::{collected, lemma_collected_error, lemma_collected_ok, lemma_collected_step};
use crate::Address;

verus! {

/// The pool's backstop balances.
#[derive(Clone, Copy, Debug, PartialEq, Eq, Structural)]
pub struct PoolBalance {
    /// The amount of shares the pool has issued.
    pub shares: i128,
    /// The number of tokens the pool holds in the backstop.
    pub tokens: i128,
    /// The number of shares queued for withdrawal.
    pub q4w: i128,
}

impl PoolBalance {
    /// No amount is negative and no more shares are queued than issued.
    pub open spec fn well_formed(self) -> bool {
        0 <= self.q4w <= self.shares && 0 <= self.tokens
    }

    /// The shares that stand for `tokens` tokens, rounded down.
    pub open spec fn shares_for(self, tokens: int) -> int {
        if self.shares == 0 {
            tokens
        } else if self.tokens == 0 {
            0
        } else {
            floor_div(tokens * self.shares, self.tokens as int)
        }
    }

    /// Whether `shares_for` can be computed without an overflow.
    pub open spec fn shares_for_fits(self, tokens: int) -> bool {
        self.shares == 0 || self.tokens == 0 || fixed_result(
            tokens * self.shares,
            self.tokens as int,
            self.shares_for(tokens),
        ) is Some
    }

    /// The tokens that stand for `shares` shares, rounded down.
    pub open spec fn tokens_for(self, shares: int) -> int {
        if self.shares == 0 {
            0
        } else if self.shares == shares {
            self.tokens as int
        } else {
            floor_div(shares * self.tokens, self.shares as int)
        }
    }

    /// Whether `tokens_for` can be computed without an overflow.
    pub open spec fn tokens_for_fits(self, shares: int) -> bool {
        self.shares == 0 || self.shares == shares || fixed_result(
            shares * self.tokens,
            self.shares as int,
            self.tokens_for(shares),
        ) is Some
    }

    /// Convert a token balance to a share balance based on the current pool state.
    pub fn convert_to_shares(&self, tokens: i128) -> (r: i128)
        requires
            self.shares_for_fits(tokens as int),
        ensures
            r == self.shares_for(tokens as int),
    {
        if self.shares == 0 {
            return tokens;
        }
        if self.tokens == 0 {
            return 0;
        }
        fixed_mul_floor(tokens, self.shares, self.tokens).unwrap()
    }

    /// Convert a pool share balance to a token balance based on the current pool state.
    pub fn convert_to_tokens(&self, shares: i128) -> (r: i128)
        requires
            self.tokens_for_fits(shares as int),
        ensures
            r == self.tokens_for(shares as int),
    {
        if self.shares == 0 {
            return 0;
        }
        if self.shares == shares {
            return self.tokens;
        }
        fixed_mul_floor(shares, self.tokens, self.shares).unwrap()
    }

    /// Determine the amount of effective tokens (not queued for withdrawal) in the pool.
    pub fn non_queued_tokens(&self) -> (r: i128)
        requires
            self.tokens_for_fits(self.q4w as int),
            fits_i128(self.tokens - self.tokens_for(self.q4w as int)),
        ensures
            r == self.tokens - self.tokens_for(self.q4w as int),
            self.well_formed() ==> stands_behind(*self, self.q4w as int, self.tokens - r),
    {
        proof {
            if self.well_formed() {
                law_shares_redeem_what_stands_behind_them(*self, self.q4w as int);
            }
        }
        self.tokens - self.convert_to_tokens(self.q4w)
    }

    /// The balance with `tokens` tokens and `shares` shares more.
    pub open spec fn after_deposit(self, tokens: int, shares: int) -> PoolBalance {
        PoolBalance {
            shares: (self.shares + shares) as i128,
            tokens: (self.tokens + tokens) as i128,
            q4w: self.q4w,
        }
    }

    /// Deposit tokens and shares into the pool.
    pub fn deposit(&mut self, tokens: i128, shares: i128)
        requires
            fits_i128(old(self).tokens + tokens),
            fits_i128(old(self).shares + shares),
        ensures
            *final(self) == old(self).after_deposit(tokens as int, shares as int),
    {
        self.tokens = self.tokens + tokens;
        self.shares = self.shares + shares;
    }

    /// Whether the pool cannot pay out `tokens` tokens for `shares` queued shares.
    pub open spec fn lacks(self, tokens: int, shares: int) -> bool {
        tokens > self.tokens || shares > self.shares || shares > self.q4w
    }

    /// The balance without `tokens` tokens and `shares` queued shares.
    pub open spec fn after_withdraw(self, tokens: int, shares: int) -> PoolBalance {
        PoolBalance {
            shares: (self.shares - shares) as i128,
            tokens: (self.tokens - tokens) as i128,
            q4w: (self.q4w - shares) as i128,
        }
    }

    /// Withdraw tokens and queued shares from the pool.
    pub fn withdraw(&mut self, tokens: i128, shares: i128) -> (r: Result<(), BackstopError>)
        requires
            old(self).lacks(tokens as int, shares as int) || (fits_i128(old(self).tokens - tokens)
                && fits_i128(old(self).shares - shares) && fits_i128(old(self).q4w - shares)),
        ensures
            old(self).lacks(tokens as int, shares as int) ==> {
                &&& r == Err::<(), BackstopError>(BackstopError::InsufficientFunds)
                &&& *final(self) == *old(self)
            },
            !old(self).lacks(tokens as int, shares as int) ==> {
                &&& r == Ok::<(), BackstopError>(())
                &&& *final(self) == old(self).after_withdraw(tokens as int, shares as int)
            },
    {
        if tokens > self.tokens || shares > self.shares || shares > self.q4w {
            return Err(BackstopError::InsufficientFunds);
        }
        self.tokens = self.tokens - tokens;
        self.shares = self.shares - shares;
        self.q4w = self.q4w - shares;
        Ok(())
    }

    /// The balance with `shares` more of its shares in the withdrawal queue.
    pub open spec fn after_queue(self, shares: int) -> PoolBalance {
        PoolBalance { q4w: (self.q4w + shares) as i128, ..self }
    }

    /// Queue shares of the pool for withdrawal.
    pub fn queue_for_withdraw(&mut self, shares: i128)
        requires
            fits_i128(old(self).q4w + shares),
        ensures
            *final(self) == old(self).after_queue(shares as int),
    {
        self.q4w = self.q4w + shares;
    }

    /// Take shares of the pool back out of the withdrawal queue.
    pub fn dequeue_q4w(&mut self, shares: i128) -> (r: Result<(), BackstopError>)
        requires
            shares > old(self).q4w || fits_i128(old(self).q4w - shares),
        ensures
            shares > old(self).q4w ==> {
                &&& r == Err::<(), BackstopError>(BackstopError::InsufficientFunds)
                &&& *final(self) == *old(self)
            },
            shares <= old(self).q4w ==> {
                &&& r == Ok::<(), BackstopError>(())
                &&& *final(self) == old(self).after_queue(-shares)
            },
    {
        if shares > self.q4w {
            return Err(BackstopError::InsufficientFunds);
        }
        self.q4w = self.q4w - shares;
        Ok(())
    }
}

/// The canonical asset assigned to one configured loss tier.
#[derive(Clone, Copy, Debug, PartialEq, Eq, Structural)]
pub enum BackstopAsset {
    BlndXlm,
    BlndUsdc,
    Usdc,
    Xlm,
}

/// A backstop asset's immutable position in one pool's loss waterfall.
#[derive(Clone, Copy, Debug, PartialEq, Eq, Structural)]
pub enum BackstopTier {
    FirstLoss,
    SecondLoss,
    ThirdLoss,
}

/// The position of `tier` in the waterfall.
pub open spec fn spec_tier_index(tier: BackstopTier) -> u32 {
    match tier {
        BackstopTier::FirstLoss => 0,
        BackstopTier::SecondLoss => 1,
        BackstopTier::ThirdLoss => 2,
    }
}

/// The position of `tier` in the waterfall.
pub fn tier_index(tier: BackstopTier) -> (r: u32)
    ensures
        r == spec_tier_index(tier),
        r < 3,
{
    match tier {
        BackstopTier::FirstLoss => 0,
        BackstopTier::SecondLoss => 1,
        BackstopTier::ThirdLoss => 2,
    }
}

/// The tier at position `index` of the waterfall.
pub fn tier_from_index(index: u32) -> (r: Result<BackstopTier, BackstopError>)
    ensures
        match r {
            Ok(tier) => spec_tier_index(tier) == index,
            Err(error) => index >= 3 && error == BackstopError::BadRequest,
        },
{
    match index {
        0 => Ok(BackstopTier::FirstLoss),
        1 => Ok(BackstopTier::SecondLoss),
        2 => Ok(BackstopTier::ThirdLoss),
        _ => Err(BackstopError::BadRequest),
    }
}

/// Two tiers at the same position are the same tier.
pub proof fn law_tier_positions_are_distinct(a: BackstopTier, b: BackstopTier)
    requires
        spec_tier_index(a) == spec_tier_index(b),
    ensures
        a == b,
{
}

/// The token contracts that the backstop was set up with.
#[derive(Clone, Copy, Debug, PartialEq, Eq, Structural)]
pub struct BackstopAssets {
    pub blnd: Address,
    pub usdc: Address,
    pub xlm: Address,
    pub blnd_usdc: Address,
    pub blnd_xlm: Address,
}

/// The token contract of `asset`.
pub open spec fn spec_asset_token(assets: BackstopAssets, asset: BackstopAsset) -> Address {
    match asset {
        BackstopAsset::BlndXlm => assets.blnd_xlm,
        BackstopAsset::BlndUsdc => assets.blnd_usdc,
        BackstopAsset::Usdc => assets.usdc,
        BackstopAsset::Xlm => assets.xlm,
    }
}

/// The token contract of `asset`.
pub fn asset_token(assets: &BackstopAssets, asset: BackstopAsset) -> (r: Address)
    ensures
        r == spec_asset_token(*assets, asset),
{
    match asset {
        BackstopAsset::BlndXlm => assets.blnd_xlm,
        BackstopAsset::BlndUsdc => assets.blnd_usdc,
        BackstopAsset::Usdc => assets.usdc,
        BackstopAsset::Xlm => assets.xlm,
    }
}

/// The asset that a factory's configuration names.
pub open spec fn spec_from_factory_asset(asset: FactoryBackstopAsset) -> BackstopAsset {
    match asset {
        FactoryBackstopAsset::BlndXlm => BackstopAsset::BlndXlm,
        FactoryBackstopAsset::BlndUsdc => BackstopAsset::BlndUsdc,
        FactoryBackstopAsset::Usdc => BackstopAsset::Usdc,
        FactoryBackstopAsset::Xlm => BackstopAsset::Xlm,
    }
}

/// The asset that a factory's configuration names.
pub fn from_factory_asset(asset: FactoryBackstopAsset) -> (r: BackstopAsset)
    ensures
        r == spec_from_factory_asset(asset),
{
    match asset {
        FactoryBackstopAsset::BlndXlm => BackstopAsset::BlndXlm,
        FactoryBackstopAsset::BlndUsdc => BackstopAsset::BlndUsdc,
        FactoryBackstopAsset::Usdc => BackstopAsset::Usdc,
        FactoryBackstopAsset::Xlm => BackstopAsset::Xlm,
    }
}

/// Whether a tier of this asset earns BLND emissions.
pub open spec fn spec_is_blnd_asset(asset: BackstopAsset) -> bool {
    asset == BackstopAsset::BlndUsdc || asset == BackstopAsset::BlndXlm
}

/// The configuration at `tier` of a waterfall, `BadRequest` where it has no such tier.
pub open spec fn spec_tier_config(config: Seq<BackstopTierConfig>, tier: BackstopTier) -> Result<
    BackstopTierConfig,
    BackstopError,
> {
    if spec_tier_index(tier) < config.len() {
        Ok(config[spec_tier_index(tier) as int])
    } else {
        Err(BackstopError::BadRequest)
    }
}

/// The configuration of one tier of a waterfall.
pub fn tier_config(config: &Vec<BackstopTierConfig>, tier: BackstopTier) -> (r: Result<
    BackstopTierConfig,
    BackstopError,
>)
    ensures
        r == spec_tier_config(config@, tier),
{
    let index: usize = tier_index(tier) as usize;
    if index < config.len() {
        Ok(config[index])
    } else {
        Err(BackstopError::BadRequest)
    }
}

/// The asset of one tier of a waterfall.
pub fn tier_asset(config: &Vec<BackstopTierConfig>, tier: BackstopTier) -> (r: Result<
    BackstopAsset,
    BackstopError,
>)
    ensures
        r == match spec_tier_config(config@, tier) {
            Ok(c) => Ok(spec_from_factory_asset(c.asset)),
            Err(error) => Err(error),
        },
{
    Ok(from_factory_asset(tier_config(config, tier)?.asset))
}

/// The token contract of one tier of a waterfall.
pub fn tier_token(
    assets: &BackstopAssets,
    config: &Vec<BackstopTierConfig>,
    tier: BackstopTier,
) -> (r: Result<Address, BackstopError>)
    ensures
        r == match spec_tier_config(config@, tier) {
            Ok(c) => Ok(spec_asset_token(*assets, spec_from_factory_asset(c.asset))),
            Err(error) => Err(error),
        },
{
    Ok(asset_token(assets, tier_asset(config, tier)?))
}

/// Whether one tier of a waterfall earns BLND emissions.
pub fn is_blnd_emission_tier(config: &Vec<BackstopTierConfig>, tier: BackstopTier) -> (r: Result<
    bool,
    BackstopError,
>)
    ensures
        r == match spec_tier_config(config@, tier) {
            Ok(c) => Ok(spec_is_blnd_asset(spec_from_factory_asset(c.asset))),
            Err(error) => Err(error),
        },
{
    let asset = tier_asset(config, tier)?;
    Ok(matches!(asset, BackstopAsset::BlndUsdc | BackstopAsset::BlndXlm))
}

/// Whether the tier at position `i` of the waterfall is held in `token`.
pub open spec fn tier_holds(
    assets: BackstopAssets,
    config: Seq<BackstopTierConfig>,
    token: Address,
    i: int,
) -> bool {
    spec_asset_token(assets, spec_from_factory_asset(config[i].asset)) == token
}

/// The first tier of a waterfall that is held in `token`; `BadRequest` where the
/// first one lies beyond the third position.
pub fn tier_for_token(
    assets: &BackstopAssets,
    config: &Vec<BackstopTierConfig>,
    token: Address,
) -> (r: Result<Option<BackstopTier>, BackstopError>)
    ensures
        match r {
            Ok(Some(tier)) => {
                &&& spec_tier_index(tier) < config@.len()
                &&& tier_holds(*assets, config@, token, spec_tier_index(tier) as int)
                &&& forall|j: int|
                    0 <= j < spec_tier_index(tier) ==> !tier_holds(*assets, config@, token, j)
            },
            Ok(None) => forall|j: int|
                0 <= j < config@.len() ==> !tier_holds(*assets, config@, token, j),
            Err(error) => {
                &&& error == BackstopError::BadRequest
                &&& exists|j: int|
                    3 <= j < config@.len() && tier_holds(*assets, config@, token, j)
                &&& forall|j: int|
                    0 <= j < 3 ==> !tier_holds(*assets, config@, token, j)
            },
        },
{
    let mut index: usize = 0;
    while index < config.len()
        invariant
            index <= config@.len(),
            forall|j: int| 0 <= j < index ==> !tier_holds(*assets, config@, token, j),
        decreases config@.len() - index,
    {
        if asset_token(assets, from_factory_asset(config[index].asset)) == token {
            assert(tier_holds(*assets, config@, token, index as int));
            if index >= 3 {
                return Err(BackstopError::BadRequest);
            }
            let tier = tier_from_index(index as u32)?;
            return Ok(Some(tier));
        }
        index = index + 1;
    }
    Ok(None)
}

/// The number of decimals that every backstop token must have.
pub const TOKEN_DECIMALS: u32 = 7;

/// The greatest take-rate weight of a tier.
pub const MAX_TAKE_RATE_WEIGHT: u32 = 10;

/// The number of decimals of each token contract of the backstop.
#[derive(Clone, Copy, Debug, PartialEq, Eq, Structural)]
pub struct AssetDecimals {
    pub blnd: u32,
    pub usdc: u32,
    pub xlm: u32,
    pub blnd_usdc: u32,
    pub blnd_xlm: u32,
}

/// The number of decimals of the token contract of `asset`.
pub open spec fn spec_asset_decimals(decimals: AssetDecimals, asset: BackstopAsset) -> u32 {
    match asset {
        BackstopAsset::BlndXlm => decimals.blnd_xlm,
        BackstopAsset::BlndUsdc => decimals.blnd_usdc,
        BackstopAsset::Usdc => decimals.usdc,
        BackstopAsset::Xlm => decimals.xlm,
    }
}

/// The number of decimals of the token contract of `asset`.
fn asset_decimals(decimals: &AssetDecimals, asset: BackstopAsset) -> (r: u32)
    ensures
        r == spec_asset_decimals(*decimals, asset),
{
    match asset {
        BackstopAsset::BlndXlm => decimals.blnd_xlm,
        BackstopAsset::BlndUsdc => decimals.blnd_usdc,
        BackstopAsset::Usdc => decimals.usdc,
        BackstopAsset::Xlm => decimals.xlm,
    }
}

/// Whether some later tier of the waterfall has the asset of tier `i`.
pub open spec fn asset_recurs(config: Seq<BackstopTierConfig>, i: int) -> bool {
    exists|j: int| i < j < config.len() && (#[trigger] config[j]).asset == config[i].asset
}

/// Whether tier `i` may stand where it stands: its weight lies in range and below
/// the weight before it, its token has the right decimals and no later tier
/// has its asset.
pub open spec fn check_tier(config: Seq<BackstopTierConfig>, decimals: AssetDecimals, i: int) -> Result<
    (),
    BackstopError,
> {
    let weight = config[i].take_rate_weight;
    if !(1 <= weight <= MAX_TAKE_RATE_WEIGHT) || (i > 0 && config[i - 1].take_rate_weight <= weight)
        || spec_asset_decimals(decimals, spec_from_factory_asset(config[i].asset))
        != TOKEN_DECIMALS {
        Err(BackstopError::InvalidBackstopValuation)
    } else if asset_recurs(config, i) {
        Err(BackstopError::AssetConfigurationCollision)
    } else {
        Ok(())
    }
}

/// The first objection to a waterfall, if there is one.
pub open spec fn check_config(config: Seq<BackstopTierConfig>, decimals: AssetDecimals) -> Result<
    (),
    BackstopError,
> {
    if config.len() == 0 || config.len() > 3 {
        Err(BackstopError::InvalidBackstopValuation)
    } else {
        match collected(Seq::new(config.len(), |i: int| check_tier(config, decimals, i))) {
            Ok(_) => Ok(()),
            Err(error) => Err(error),
        }
    }
}

/// A waterfall as the backstop accepts it: one to three tiers of distinct
/// assets with 7 decimals, under strictly descending weights from 1 to 10.
pub open spec fn valid_config(config: Seq<BackstopTierConfig>, decimals: AssetDecimals) -> bool {
    &&& 1 <= config.len() <= 3
    &&& forall|i: int|
        0 <= i < config.len() ==> 1 <= (#[trigger] config[i]).take_rate_weight
            <= MAX_TAKE_RATE_WEIGHT && spec_asset_decimals(
            decimals,
            spec_from_factory_asset(config[i].asset),
        ) == TOKEN_DECIMALS
    &&& forall|i: int, j: int|
        0 <= i < j < config.len() ==> (#[trigger] config[i]).take_rate_weight > (
        #[trigger] config[j]).take_rate_weight && config[i].asset != config[j].asset
}

/// A waterfall raises no objection exactly where it is valid.
pub proof fn law_accepted_configs_are_the_valid_ones(
    config: Seq<BackstopTierConfig>,
    decimals: AssetDecimals,
)
    ensures
        check_config(config, decimals) is Ok <==> valid_config(config, decimals),
{
    let checks = Seq::new(config.len(), |i: int| check_tier(config, decimals, i));
    lemma_collected_ok(checks);
    if check_config(config, decimals) is Ok {
        assert forall|i: int, j: int| 0 <= i < j < config.len() implies (
        #[trigger] config[i]).take_rate_weight > (#[trigger] config[j]).take_rate_weight
            && config[i].asset != config[j].asset by {
            assert(checks[i] is Ok);
            assert(checks[j] is Ok);
            assert(checks[i + 1] is Ok);
        }
        assert forall|i: int| 0 <= i < config.len() implies 1 <= (
        #[trigger] config[i]).take_rate_weight <= MAX_TAKE_RATE_WEIGHT && spec_asset_decimals(
            decimals,
            spec_from_factory_asset(config[i].asset),
        ) == TOKEN_DECIMALS by {
            assert(checks[i] is Ok);
        }
    }
    if valid_config(config, decimals) {
        assert forall|i: int| 0 <= i < checks.len() implies (#[trigger] checks[i]) is Ok by {
            if i > 0 {
                assert(config[i - 1].take_rate_weight > config[i].take_rate_weight);
            }
        }
    }
}

/// Check the waterfall that a pool factory provides.
pub fn validate_pool_backstop_config(
    config: &Vec<BackstopTierConfig>,
    decimals: &AssetDecimals,
) -> (r: Result<(), BackstopError>)
    ensures
        r == check_config(config@, *decimals),
{
    if config.len() == 0 || config.len() > 3 {
        return Err(BackstopError::InvalidBackstopValuation);
    }
    let ghost checks = Seq::new(config@.len(), |i: int| check_tier(config@, *decimals, i));
    let mut previous_weight: Option<u32> = None;
    let mut index: usize = 0;
    while index < config.len()
        invariant
            index <= config@.len() <= 3,
            config@.len() > 0,
            checks == Seq::new(config@.len(), |i: int| check_tier(config@, *decimals, i)),
            collected(checks.take(index as int)) is Ok,
            index == 0 ==> previous_weight is None,
            index > 0 ==> previous_weight == Some(config@[index - 1].take_rate_weight),
        decreases config@.len() - index,
    {
        let tier: BackstopTierConfig = config[index];
        proof {
            lemma_collected_step(checks, index as int);
            if check_tier(config@, *decimals, index as int) is Err {
                lemma_collected_error(checks, index + 1);
            }
        }
        if tier.take_rate_weight == 0 || tier.take_rate_weight > MAX_TAKE_RATE_WEIGHT {
            return Err(BackstopError::InvalidBackstopValuation);
        }
        if let Some(weight) = previous_weight {
            if weight <= tier.take_rate_weight {
                return Err(BackstopError::InvalidBackstopValuation);
            }
        }
        previous_weight = Some(tier.take_rate_weight);
        if asset_decimals(decimals, from_factory_asset(tier.asset)) != TOKEN_DECIMALS {
            return Err(BackstopError::InvalidBackstopValuation);
        }
        let mut later: usize = index + 1;
        while later < config.len()
            invariant
                index < later <= config@.len() <= 3,
                tier == config@[index as int],
                checks == Seq::new(config@.len(), |i: int| check_tier(config@, *decimals, i)),
                forall|j: int| index < j < later ==> (#[trigger] config@[j]).asset != tier.asset,
                asset_recurs(config@, index as int) ==> check_config(config@, *decimals) == Err::<
                    (),
                    BackstopError,
                >(BackstopError::AssetConfigurationCollision),
            decreases config@.len() - later,
        {
            if tier.asset == config[later].asset {
                return Err(BackstopError::AssetConfigurationCollision);
            }
            later = later + 1;
        }
        assert(!asset_recurs(config@, index as int));
        index = index + 1;
    }
    assert(checks.take(index as int) =~= checks);
    Ok(())
}

/// The waterfall of a pool: the one on record, or else the one that its factory
/// provides and that passes the checks.
pub fn pool_backstop_config(
    recorded: Option<Vec<BackstopTierConfig>>,
    is_pool: bool,
    provided: Vec<BackstopTierConfig>,
    decimals: &AssetDecimals,
) -> (r: Result<Vec<BackstopTierConfig>, BackstopError>)
    ensures
        match recorded {
            Some(config) => r == Ok::<Vec<BackstopTierConfig>, BackstopError>(config),
            None => if !is_pool {
                r == Err::<Vec<BackstopTierConfig>, BackstopError>(BackstopError::NotPool)
            } else {
                match check_config(provided@, *decimals) {
                    Ok(_) => r == Ok::<Vec<BackstopTierConfig>, BackstopError>(provided),
                    Err(error) => r == Err::<Vec<BackstopTierConfig>, BackstopError>(error),
                }
            },
        },
{
    if let Some(config) = recorded {
        return Ok(config);
    }
    if !is_pool {
        return Err(BackstopError::NotPool);
    }
    validate_pool_backstop_config(&provided, decimals)?;
    Ok(provided)
}

/// Verify that a pool was deployed by the pool factory. A pool with a balance
/// was verified when it got the balance.
pub fn require_is_from_pool_factory(
    balance: i128,
    recorded: Option<Vec<BackstopTierConfig>>,
    is_pool: bool,
    provided: Vec<BackstopTierConfig>,
    decimals: &AssetDecimals,
) -> (r: Result<(), BackstopError>)
    ensures
        r == if balance != 0 || recorded is Some {
            Ok(())
        } else if !is_pool {
            Err(BackstopError::NotPool)
        } else {
            check_config(provided@, *decimals)
        },
{
    if balance == 0 {
        let _ = pool_backstop_config(recorded, is_pool, provided, decimals)?;
    }
    Ok(())
}

/// Verify that a pool is registered by the configured pool factory.
pub fn require_registered_pool(
    recorded: Option<Vec<BackstopTierConfig>>,
    is_pool: bool,
    provided: Vec<BackstopTierConfig>,
    decimals: &AssetDecimals,
) -> (r: Result<(), BackstopError>)
    ensures
        r == if recorded is Some {
            Ok(())
        } else if !is_pool {
            Err(BackstopError::NotPool)
        } else {
            check_config(provided@, *decimals)
        },
{
    let _ = pool_backstop_config(recorded, is_pool, provided, decimals)?;
    Ok(())
}

/// The weight of BLND in a canonical Comet pool.
pub const BLND_WEIGHT: i128 = 8_000_000;

/// The weight of the other token in a canonical Comet pool.
pub const PAIR_WEIGHT: i128 = 2_000_000;

/// The value of a canonical Comet pool is this many times its pair reserve.
pub const PAIR_VALUE_MULTIPLIER: i128 = 5;

/// The tokens of a Comet pool with the weights that it reports for BLND and the
/// pair token.
#[derive(Debug)]
pub struct CometTokens {
    pub tokens: Vec<Address>,
    pub blnd_weight: i128,
    pub pair_weight: i128,
}

/// A canonical pool holds `blnd` and `pair`, nothing else, under the canonical weights.
pub open spec fn canonical_comet(comet: CometTokens, blnd: Address, pair: Address) -> bool {
    &&& comet.tokens@.len() == 2
    &&& comet.tokens@.contains(blnd)
    &&& comet.tokens@.contains(pair)
    &&& comet.blnd_weight == BLND_WEIGHT
    &&& comet.pair_weight == PAIR_WEIGHT
}

/// Check that a Comet pool is canonical.
pub fn validate_comet(comet: &CometTokens, blnd: Address, pair: Address) -> (r: Result<
    (),
    BackstopError,
>)
    ensures
        r == if canonical_comet(*comet, blnd, pair) {
            Ok(())
        } else {
            Err(BackstopError::InvalidBackstopValuation)
        },
{
    if comet.tokens.len() != 2 {
        return Err(BackstopError::InvalidBackstopValuation);
    }
    let first = comet.tokens[0];
    let second = comet.tokens[1];
    proof {
        assert forall|x: Address| comet.tokens@.contains(x) implies x == first || x == second by {
            let i = comet.tokens@.index_of(x);
            assert(i == 0 || i == 1);
        }
        assert(comet.tokens@[0] == first);
        assert(comet.tokens@[1] == second);
    }
    if (blnd != first && blnd != second) || (pair != first && pair != second) || comet.blnd_weight
        != BLND_WEIGHT || comet.pair_weight != PAIR_WEIGHT {
        return Err(BackstopError::InvalidBackstopValuation);
    }
    Ok(())
}

/// The five token contracts in the order in which they are checked.
pub open spec fn asset_list(assets: BackstopAssets) -> Seq<Address> {
    seq![assets.blnd, assets.usdc, assets.xlm, assets.blnd_usdc, assets.blnd_xlm]
}

/// Whether every token contract of the backstop has the right decimals.
pub open spec fn decimals_match(decimals: AssetDecimals) -> bool {
    &&& decimals.blnd == TOKEN_DECIMALS
    &&& decimals.usdc == TOKEN_DECIMALS
    &&& decimals.xlm == TOKEN_DECIMALS
    &&& decimals.blnd_usdc == TOKEN_DECIMALS
    &&& decimals.blnd_xlm == TOKEN_DECIMALS
}

/// Check the token contracts that the backstop is set up with.
pub fn validate_backstop_assets(
    assets: &BackstopAssets,
    decimals: &AssetDecimals,
    blnd_usdc: &CometTokens,
    blnd_xlm: &CometTokens,
) -> (r: Result<(), BackstopError>)
    ensures
        r == if !asset_list(*assets).no_duplicates() {
            Err(BackstopError::AssetConfigurationCollision)
        } else if decimals_match(*decimals) && canonical_comet(
            *blnd_usdc,
            assets.blnd,
            assets.usdc,
        ) && canonical_comet(*blnd_xlm, assets.blnd, assets.xlm) {
            Ok(())
        } else {
            Err(BackstopError::InvalidBackstopValuation)
        },
{
    let ghost list = asset_list(*assets);
    let addresses: [Address; 5] = [
        assets.blnd,
        assets.usdc,
        assets.xlm,
        assets.blnd_usdc,
        assets.blnd_xlm,
    ];
    assert(addresses@ =~= list);
    let mut index: usize = 0;
    while index < 5
        invariant
            index <= 5,
            addresses@ == asset_list(*assets),
            addresses@.len() == 5,
            forall|i: int, j: int| 0 <= i < index && i < j < 5 ==> addresses@[i] != addresses@[j],
        decreases 5 - index,
    {
        let mut other: usize = index + 1;
        while other < 5
            invariant
                index < other <= 5,
                addresses@ == asset_list(*assets),
                addresses@.len() == 5,
                forall|j: int| index < j < other ==> addresses@[index as int] != addresses@[j],
            decreases 5 - other,
        {
            if addresses[index] == addresses[other] {
                assert(!asset_list(*assets).no_duplicates());
                return Err(BackstopError::AssetConfigurationCollision);
            }
            other = other + 1;
        }
        index = index + 1;
    }
    assert(asset_list(*assets).no_duplicates());
    if decimals.blnd != TOKEN_DECIMALS || decimals.usdc != TOKEN_DECIMALS || decimals.xlm
        != TOKEN_DECIMALS || decimals.blnd_usdc != TOKEN_DECIMALS || decimals.blnd_xlm
        != TOKEN_DECIMALS {
        return Err(BackstopError::InvalidBackstopValuation);
    }
    validate_comet(blnd_usdc, assets.blnd, assets.usdc)?;
    validate_comet(blnd_xlm, assets.blnd, assets.xlm)
}

/// What a Comet pool reports of itself.
#[derive(Clone, Copy, Debug, PartialEq, Eq, Structural)]
pub struct CometReading {
    pub total_supply: i128,
    pub blnd_reserve: i128,
    pub pair_reserve: i128,
    pub blnd_weight: i128,
    pub pair_weight: i128,
}

/// The composition of a usable canonical Comet pool.
#[derive(Clone, Copy, Debug, PartialEq, Eq, Structural)]
pub struct CometComposition {
    pub blnd_reserve: i128,
    pub pair_reserve: i128,
    pub total_supply: i128,
}

impl CometComposition {
    /// Supply and reserves are positive.
    pub open spec fn well_formed(self) -> bool {
        0 < self.blnd_reserve && 0 < self.pair_reserve && 0 < self.total_supply
    }
}

/// The composition of a pool with positive supply and reserves under the
/// canonical weights; every other reading is an invalid valuation.
pub open spec fn spec_read_comet(reading: CometReading) -> Result<CometComposition, BackstopError> {
    if reading.total_supply > 0 && reading.blnd_reserve > 0 && reading.pair_reserve > 0
        && reading.blnd_weight == BLND_WEIGHT && reading.pair_weight == PAIR_WEIGHT {
        Ok(
            CometComposition {
                blnd_reserve: reading.blnd_reserve,
                pair_reserve: reading.pair_reserve,
                total_supply: reading.total_supply,
            },
        )
    } else {
        Err(BackstopError::InvalidValuation)
    }
}

/// Check what a Comet pool reports and keep its composition.
pub fn read_comet(reading: &CometReading) -> (r: Result<CometComposition, BackstopError>)
    ensures
        r == spec_read_comet(*reading),
{
    if reading.total_supply <= 0 || reading.blnd_reserve <= 0 || reading.pair_reserve <= 0
        || reading.blnd_weight != BLND_WEIGHT || reading.pair_weight != PAIR_WEIGHT {
        return Err(BackstopError::InvalidValuation);
    }
    Ok(
        CometComposition {
            blnd_reserve: reading.blnd_reserve,
            pair_reserve: reading.pair_reserve,
            total_supply: reading.total_supply,
        },
    )
}

/// `floor(value * numerator / denominator)`; a negative operand or a denominator
/// that is not positive is an invalid valuation.
pub open spec fn spec_mul_div_floor(value: int, numerator: int, denominator: int) -> Result<
    i128,
    BackstopError,
> {
    if value < 0 || numerator < 0 || denominator <= 0 {
        Err(BackstopError::InvalidValuation)
    } else if fits_i128(value * numerator / denominator) {
        Ok((value * numerator / denominator) as i128)
    } else {
        Err(BackstopError::OverflowError)
    }
}

/// `floor(value * numerator / denominator)` for a valuation.
pub fn mul_div_floor(e: &Env, value: i128, numerator: i128, denominator: i128) -> (r: Result<
    i128,
    BackstopError,
>)
    ensures
        r == spec_mul_div_floor(value as int, numerator as int, denominator as int),
{
    if value < 0 || numerator < 0 || denominator <= 0 {
        return Err(BackstopError::InvalidValuation);
    }
    match crate::math::mul_div_floor(e, value, numerator, denominator) {
        Some(quotient) => Ok(quotient),
        None => Err(BackstopError::OverflowError),
    }
}

/// The value of one amount in USDC.
#[derive(Clone, Copy, Debug, PartialEq, Eq, Structural)]
pub struct AssetValuation {
    pub usdc_value: i128,
}

/// The values of one tier's active, queued and total tokens.
#[derive(Clone, Copy, Debug, PartialEq, Eq, Structural)]
pub struct PoolTierValuation {
    pub active: AssetValuation,
    pub queued: AssetValuation,
    pub total: AssetValuation,
}

/// A tier's active, queued and total tokens.
pub type TierAmounts = (i128, i128, i128);

/// A tier is valued one to one.
pub open spec fn spec_unit_pool_tier_valuation(amounts: TierAmounts) -> PoolTierValuation {
    PoolTierValuation {
        active: AssetValuation { usdc_value: amounts.0 },
        queued: AssetValuation { usdc_value: amounts.1 },
        total: AssetValuation { usdc_value: amounts.2 },
    }
}

/// Value one amount one to one.
pub fn unit_asset_valuation(amount: i128) -> (r: AssetValuation)
    ensures
        r.usdc_value == amount,
{
    AssetValuation { usdc_value: amount }
}

/// Value a tier one to one.
pub fn unit_pool_tier_valuation(amounts: TierAmounts) -> (r: PoolTierValuation)
    ensures
        r == spec_unit_pool_tier_valuation(amounts),
{
    PoolTierValuation {
        active: unit_asset_valuation(amounts.0),
        queued: unit_asset_valuation(amounts.1),
        total: unit_asset_valuation(amounts.2),
    }
}

/// The three values of a tier, or the first error among them.
pub open spec fn tier_of_values(
    active: Result<i128, BackstopError>,
    queued: Result<i128, BackstopError>,
    total: Result<i128, BackstopError>,
) -> Result<PoolTierValuation, BackstopError> {
    match (active, queued, total) {
        (Ok(a), Ok(q), Ok(t)) => Ok(spec_unit_pool_tier_valuation((a, q, t))),
        (Err(error), _, _) => Err(error),
        (_, Err(error), _) => Err(error),
        (_, _, Err(error)) => Err(error),
    }
}

/// The share of `total_value` that `amount` of the pool's supply stands for.
pub fn quote_from_composition(
    e: &Env,
    amount: i128,
    total_value: i128,
    composition: &CometComposition,
) -> (r: Result<AssetValuation, BackstopError>)
    ensures
        r == match spec_mul_div_floor(
            amount as int,
            total_value as int,
            composition.total_supply as int,
        ) {
            Ok(value) => Ok(AssetValuation { usdc_value: value }),
            Err(error) => Err(error),
        },
{
    Ok(
        AssetValuation {
            usdc_value: mul_div_floor(e, amount, total_value, composition.total_supply)?,
        },
    )
}

/// The values of a tier that is held in LP tokens of a Comet pool worth `total_value`.
pub open spec fn spec_pool_tier_valuation(
    amounts: TierAmounts,
    total_value: int,
    composition: CometComposition,
) -> Result<PoolTierValuation, BackstopError> {
    if total_value <= 0 || amounts.2 > composition.total_supply {
        Err(BackstopError::InvalidValuation)
    } else {
        let supply = composition.total_supply as int;
        tier_of_values(
            spec_mul_div_floor(amounts.0 as int, total_value, supply),
            spec_mul_div_floor(amounts.1 as int, total_value, supply),
            spec_mul_div_floor(amounts.2 as int, total_value, supply),
        )
    }
}

/// Value a tier that is held in LP tokens of a Comet pool worth `total_value`.
pub fn pool_tier_valuation(
    e: &Env,
    amounts: TierAmounts,
    total_value: i128,
    composition: &CometComposition,
) -> (r: Result<PoolTierValuation, BackstopError>)
    ensures
        r == spec_pool_tier_valuation(amounts, total_value as int, *composition),
{
    if total_value <= 0 || amounts.2 > composition.total_supply {
        return Err(BackstopError::InvalidValuation);
    }
    let active = quote_from_composition(e, amounts.0, total_value, composition)?;
    let queued = quote_from_composition(e, amounts.1, total_value, composition)?;
    let total = quote_from_composition(e, amounts.2, total_value, composition)?;
    Ok(PoolTierValuation { active, queued, total })
}

/// The value of `amount` XLM at the price that the two Comet pools imply:
/// BLND in USDC by the anchor, XLM in BLND by the target.
pub open spec fn spec_xlm_value(
    amount: int,
    anchor: CometComposition,
    target: CometComposition,
) -> Result<i128, BackstopError> {
    let value = (amount * anchor.pair_reserve * target.blnd_reserve) / (anchor.blnd_reserve
        * target.pair_reserve);
    if amount < 0 {
        Err(BackstopError::InvalidValuation)
    } else if fits_i128(value) {
        Ok(value as i128)
    } else {
        Err(BackstopError::OverflowError)
    }
}

/// Value an amount of XLM.
pub fn xlm_asset_valuation(
    e: &Env,
    amount: i128,
    anchor: &CometComposition,
    target: &CometComposition,
) -> (r: Result<AssetValuation, BackstopError>)
    requires
        anchor.well_formed(),
        target.well_formed(),
        amount >= 0 ==> fits_wide(amount * anchor.pair_reserve * target.blnd_reserve),
    ensures
        r == match spec_xlm_value(amount as int, *anchor, *target) {
            Ok(value) => Ok(AssetValuation { usdc_value: value }),
            Err(error) => Err(error),
        },
{
    if amount < 0 {
        return Err(BackstopError::InvalidValuation);
    }
    proof {
        let n = amount * anchor.pair_reserve * target.blnd_reserve;
        let d = anchor.blnd_reserve * target.pair_reserve;
        lemma_product_fits(amount as int, anchor.pair_reserve as int);
        lemma_product_fits(anchor.blnd_reserve as int, target.pair_reserve as int);
        assert(n >= 0) by (nonlinear_arith)
            requires
                amount >= 0,
                anchor.pair_reserve > 0,
                target.blnd_reserve > 0,
                n == amount * anchor.pair_reserve * target.blnd_reserve,
        ;
        assert(d > 0) by (nonlinear_arith)
            requires
                anchor.blnd_reserve > 0,
                target.pair_reserve > 0,
                d == anchor.blnd_reserve * target.pair_reserve,
        ;
        lemma_quotient_bounds(n, d);
    }
    let numerator: Wide = wide_mul(
        e,
        wide_mul(e, wide_from_i128(e, amount), wide_from_i128(e, anchor.pair_reserve)),
        wide_from_i128(e, target.blnd_reserve),
    );
    let denominator: Wide = wide_mul(
        e,
        wide_from_i128(e, anchor.blnd_reserve),
        wide_from_i128(e, target.pair_reserve),
    );
    match wide_to_i128(e, wide_div(e, numerator, denominator)) {
        Some(usdc_value) => Ok(AssetValuation { usdc_value }),
        None => Err(BackstopError::OverflowError),
    }
}

/// The values of a tier that is held in XLM.
pub open spec fn spec_xlm_pool_tier_valuation(
    amounts: TierAmounts,
    anchor: CometComposition,
    target: CometComposition,
) -> Result<PoolTierValuation, BackstopError> {
    tier_of_values(
        spec_xlm_value(amounts.0 as int, anchor, target),
        spec_xlm_value(amounts.1 as int, anchor, target),
        spec_xlm_value(amounts.2 as int, anchor, target),
    )
}

/// Value a tier that is held in XLM.
pub fn xlm_pool_tier_valuation(
    e: &Env,
    amounts: TierAmounts,
    anchor: &CometComposition,
    target: &CometComposition,
) -> (r: Result<PoolTierValuation, BackstopError>)
    requires
        anchor.well_formed(),
        target.well_formed(),
        amounts.0 >= 0 ==> fits_wide(amounts.0 * anchor.pair_reserve * target.blnd_reserve),
        amounts.1 >= 0 ==> fits_wide(amounts.1 * anchor.pair_reserve * target.blnd_reserve),
        amounts.2 >= 0 ==> fits_wide(amounts.2 * anchor.pair_reserve * target.blnd_reserve),
    ensures
        r == spec_xlm_pool_tier_valuation(amounts, *anchor, *target),
{
    let active = xlm_asset_valuation(e, amounts.0, anchor, target)?;
    let queued = xlm_asset_valuation(e, amounts.1, anchor, target)?;
    let total = xlm_asset_valuation(e, amounts.2, anchor, target)?;
    Ok(PoolTierValuation { active, queued, total })
}

/// What the waterfall is priced by: the composition of the BLND:USDC pool with
/// its total value, and the composition of the BLND:XLM pool, each where it is needed.
#[derive(Clone, Copy, Debug, PartialEq, Eq, Structural)]
pub struct PriceSource {
    pub anchor: Option<CometComposition>,
    pub anchor_value: Option<i128>,
    pub target: Option<CometComposition>,
}

impl PriceSource {
    /// The compositions at hand are usable.
    pub open spec fn well_formed(self) -> bool {
        &&& self.anchor matches Some(anchor) ==> anchor.well_formed()
        &&& self.target matches Some(target) ==> target.well_formed()
    }
}

/// The values of one configured tier.
pub open spec fn spec_quote_configured_tier(
    config: BackstopTierConfig,
    amounts: TierAmounts,
    prices: PriceSource,
) -> Result<PoolTierValuation, BackstopError> {
    if amounts.0 < 0 || amounts.1 < 0 || amounts.2 < 0 {
        Err(BackstopError::InvalidValuation)
    } else if amounts.2 == 0 {
        Ok(spec_unit_pool_tier_valuation(amounts))
    } else {
        match spec_from_factory_asset(config.asset) {
            BackstopAsset::BlndUsdc => match (prices.anchor, prices.anchor_value) {
                (Some(anchor), Some(value)) => spec_pool_tier_valuation(
                    amounts,
                    value as int,
                    anchor,
                ),
                _ => Err(BackstopError::InvalidValuation),
            },
            BackstopAsset::BlndXlm => match (prices.anchor, prices.anchor_value, prices.target) {
                (Some(anchor), Some(value), Some(target)) => match spec_mul_div_floor(
                    target.blnd_reserve as int,
                    value as int,
                    anchor.blnd_reserve as int,
                ) {
                    Ok(target_value) => spec_pool_tier_valuation(
                        amounts,
                        target_value as int,
                        target,
                    ),
                    Err(error) => Err(error),
                },
                _ => Err(BackstopError::InvalidValuation),
            },
            BackstopAsset::Usdc => Ok(spec_unit_pool_tier_valuation(amounts)),
            BackstopAsset::Xlm => match (prices.anchor, prices.target) {
                (Some(anchor), Some(target)) => spec_xlm_pool_tier_valuation(
                    amounts,
                    anchor,
                    target,
                ),
                _ => Err(BackstopError::InvalidValuation),
            },
        }
    }
}

/// The XLM price of an amount can be computed in 256 bits.
pub open spec fn xlm_quote_fits(amount: int, prices: PriceSource) -> bool {
    match (prices.anchor, prices.target) {
        (Some(anchor), Some(target)) => fits_wide(
            amount * anchor.pair_reserve * target.blnd_reserve,
        ),
        _ => true,
    }
}

/// Value one configured tier.
pub fn quote_configured_tier(
    e: &Env,
    config: &BackstopTierConfig,
    amounts: TierAmounts,
    prices: &PriceSource,
) -> (r: Result<PoolTierValuation, BackstopError>)
    requires
        prices.well_formed(),
        config.asset == FactoryBackstopAsset::Xlm && amounts.0 >= 0 && amounts.1 >= 0 && amounts.2
            > 0 ==> {
            &&& xlm_quote_fits(amounts.0 as int, *prices)
            &&& xlm_quote_fits(amounts.1 as int, *prices)
            &&& xlm_quote_fits(amounts.2 as int, *prices)
        },
    ensures
        r == spec_quote_configured_tier(*config, amounts, *prices),
{
    if amounts.0 < 0 || amounts.1 < 0 || amounts.2 < 0 {
        return Err(BackstopError::InvalidValuation);
    }
    if amounts.2 == 0 {
        return Ok(unit_pool_tier_valuation(amounts));
    }
    match from_factory_asset(config.asset) {
        BackstopAsset::BlndUsdc => match (prices.anchor, prices.anchor_value) {
            (Some(anchor), Some(value)) => pool_tier_valuation(e, amounts, value, &anchor),
            _ => Err(BackstopError::InvalidValuation),
        },
        BackstopAsset::BlndXlm => match (prices.anchor, prices.anchor_value, prices.target) {
            (Some(anchor), Some(value), Some(target)) => {
                let target_value: i128 = mul_div_floor(
                    e,
                    target.blnd_reserve,
                    value,
                    anchor.blnd_reserve,
                )?;
                pool_tier_valuation(e, amounts, target_value, &target)
            },
            _ => Err(BackstopError::InvalidValuation),
        },
        BackstopAsset::Usdc => Ok(unit_pool_tier_valuation(amounts)),
        BackstopAsset::Xlm => match (prices.anchor, prices.target) {
            (Some(anchor), Some(target)) => xlm_pool_tier_valuation(e, amounts, &anchor, &target),
            _ => Err(BackstopError::InvalidValuation),
        },
    }
}

/// The tokens behind a tier's active shares, behind its queued shares, and all its
/// tokens; a balance that is not well formed cannot be valued.
pub open spec fn spec_partition(balance: PoolBalance) -> Result<TierAmounts, BackstopError> {
    if balance.well_formed() {
        Ok(
            (
                balance.tokens_for(balance.shares - balance.q4w) as i128,
                balance.tokens_for(balance.q4w as int) as i128,
                balance.tokens,
            ),
        )
    } else {
        Err(BackstopError::InvalidValuation)
    }
}

/// Whether a tier's tokens can be split by shares without an overflow.
pub open spec fn partition_fits(balance: PoolBalance) -> bool {
    balance.well_formed() ==> balance.tokens_for_fits(balance.shares - balance.q4w)
        && balance.tokens_for_fits(balance.q4w as int)
}

/// A part of the shares stands for no more than all the tokens.
pub proof fn lemma_tokens_for_bounds(balance: PoolBalance, shares: int)
    requires
        balance.well_formed(),
        0 <= shares <= balance.shares,
    ensures
        0 <= balance.tokens_for(shares) <= balance.tokens,
{
    if balance.shares != 0 && balance.shares != shares {
        let n = shares * balance.tokens;
        let d = balance.shares as int;
        assert(0 <= n / d <= balance.tokens) by (nonlinear_arith)
            requires
                0 <= shares <= d,
                0 < d,
                0 <= balance.tokens,
                n == shares * balance.tokens,
        ;
    }
}

/// A part of the shares stands for no more than its part of the tokens.
proof fn lemma_tokens_for_part(balance: PoolBalance, shares: int)
    requires
        balance.well_formed(),
        0 <= shares <= balance.shares,
    ensures
        balance.tokens_for(shares) * balance.shares <= shares * balance.tokens,
{
    if balance.shares == 0 {
        assert(0 * balance.shares <= shares * balance.tokens) by (nonlinear_arith)
            requires
                shares == 0,
        ;
    } else if balance.shares == shares {
        assert(balance.tokens * balance.shares == shares * balance.tokens) by (nonlinear_arith)
            requires
                balance.shares == shares,
        ;
    } else {
        assert(shares * balance.tokens >= 0) by (nonlinear_arith)
            requires
                shares >= 0,
                balance.tokens >= 0,
        ;
        lemma_quotient_bounds(shares * balance.tokens, balance.shares as int);
    }
}

/// The active and the queued shares of a tier together stand for no more than its tokens.
pub proof fn law_active_and_queued_stay_within_the_tier(balance: PoolBalance)
    requires
        balance.well_formed(),
    ensures
        balance.tokens_for(balance.shares - balance.q4w) + balance.tokens_for(balance.q4w as int)
            <= balance.tokens,
{
    let total = balance.shares as int;
    let queued = balance.q4w as int;
    let x = balance.tokens_for(total - queued);
    let y = balance.tokens_for(queued);
    lemma_tokens_for_part(balance, total - queued);
    lemma_tokens_for_part(balance, queued);
    if total > 0 {
        assert(x + y <= balance.tokens) by (nonlinear_arith)
            requires
                x * total <= (total - queued) * balance.tokens,
                y * total <= queued * balance.tokens,
                total > 0,
        ;
    }
}

/// Shares that are redeemed in two steps never pay more than in one.
pub proof fn law_split_redemptions_never_pay_more(balance: PoolBalance, first: int, second: int)
    requires
        balance.well_formed(),
        0 <= first,
        0 <= second,
        first + second <= balance.q4w,
    ensures
        ({
            let paid = balance.tokens_for(first);
            let left = balance.after_withdraw(paid, first);
            &&& left.well_formed()
            &&& paid + left.tokens_for(second) <= balance.tokens_for(first + second)
        }),
{
    let paid = balance.tokens_for(first);
    let left = balance.after_withdraw(paid, first);
    lemma_tokens_for_bounds(balance, first);
    assert(left.well_formed());
    let shares = balance.shares as int;
    let tokens = balance.tokens as int;
    let later = left.tokens_for(second);
    if shares > 0 && first + second != shares {
        lemma_tokens_for_part(balance, first);
        lemma_tokens_for_part(left, second);
        let rest = shares - first;
        let gain = first * tokens - paid * shares;
        assert((tokens - paid) * shares == tokens * rest + gain) by (nonlinear_arith)
            requires
                gain == first * tokens - paid * shares,
                rest == shares - first,
        ;
        assert(later * rest * shares <= second * (tokens - paid) * shares) by (nonlinear_arith)
            requires
                later * rest <= second * (tokens - paid),
                shares > 0,
        ;
        assert(second * (tokens - paid) * shares == second * ((tokens - paid) * shares))
            by (nonlinear_arith);
        assert(second * (tokens * rest + gain) == second * tokens * rest + second * gain)
            by (nonlinear_arith);
        assert(second * gain <= gain * rest) by (nonlinear_arith)
            requires
                0 <= second <= rest,
                gain >= 0,
        ;
        assert((second * tokens + gain) * rest == second * tokens * rest + gain * rest)
            by (nonlinear_arith);
        assert((paid + later) * shares <= (first + second) * tokens) by (nonlinear_arith)
            requires
                later * rest * shares <= (second * tokens + gain) * rest,
                gain == first * tokens - paid * shares,
                rest > 0,
        ;
        let n = (first + second) * tokens;
        assert(n >= 0) by (nonlinear_arith)
            requires
                n == (first + second) * tokens,
                first + second >= 0,
                tokens >= 0,
        ;
        lemma_quotient_bounds(n, shares);
        let q = n / shares;
        assert(paid + later <= q) by (nonlinear_arith)
            requires
                (paid + later) * shares <= n,
                n < q * shares + shares,
                shares > 0,
        ;
    } else if shares > 0 {
        lemma_tokens_for_bounds(left, second);
    }
}

/// Convert shares for a valuation.
fn assets_from_shares(shares: i128, balance: &PoolBalance) -> (r: Result<i128, BackstopError>)
    requires
        shares >= 0 && balance.tokens >= 0 && balance.shares >= 0 ==> balance.tokens_for_fits(
            shares as int,
        ),
    ensures
        r == if shares < 0 || balance.tokens < 0 || balance.shares < 0 {
            Err(BackstopError::InvalidValuation)
        } else {
            Ok(balance.tokens_for(shares as int) as i128)
        },
{
    if shares < 0 || balance.tokens < 0 || balance.shares < 0 {
        return Err(BackstopError::InvalidValuation);
    }
    Ok(balance.convert_to_tokens(shares))
}

/// Split a tier's tokens by the state of the shares that they stand behind.
pub fn pool_tier_asset_partition(balance: &PoolBalance) -> (r: Result<TierAmounts, BackstopError>)
    requires
        partition_fits(*balance),
    ensures
        r == spec_partition(*balance),
{
    if balance.q4w < 0 {
        return Err(BackstopError::InvalidValuation);
    }
    let active_shares: i128 = match balance.shares.checked_sub(balance.q4w) {
        Some(active_shares) => active_shares,
        None => return Err(BackstopError::InvalidValuation),
    };
    let active: i128 = assets_from_shares(active_shares, balance)?;
    let queued: i128 = assets_from_shares(balance.q4w, balance)?;
    Ok((active, queued, balance.tokens))
}

/// One USDC value for each tier, in waterfall order.
#[derive(Debug)]
pub struct ActivationValues {
    pub tiers: Vec<i128>,
}

/// The values of all tiers by the state of the shares.
#[derive(Debug)]
pub struct PoolValuation {
    pub active_values: ActivationValues,
    pub queued_values: ActivationValues,
    pub total_values: ActivationValues,
}

impl PoolValuation {
    /// The valuation tier by tier.
    pub open spec fn is_of(self, tiers: Seq<PoolTierValuation>) -> bool {
        &&& self.active_values.tiers@ == tiers.map_values(
            |t: PoolTierValuation| t.active.usdc_value,
        )
        &&& self.queued_values.tiers@ == tiers.map_values(
            |t: PoolTierValuation| t.queued.usdc_value,
        )
        &&& self.total_values.tiers@ == tiers.map_values(|t: PoolTierValuation| t.total.usdc_value)
    }
}

/// The split of every tier's tokens, or the first error.
pub open spec fn spec_partitions(balances: Seq<PoolBalance>) -> Result<
    Seq<TierAmounts>,
    BackstopError,
> {
    collected(balances.map_values(|b: PoolBalance| spec_partition(b)))
}

/// Whether some tier is priced by the BLND:USDC pool.
pub open spec fn needs_anchor(
    config: Seq<BackstopTierConfig>,
    amounts: Seq<TierAmounts>,
    upto: int,
) -> bool {
    exists|i: int|
        0 <= i < upto && #[trigger] amounts[i].2 > 0 && config[i].asset
            != FactoryBackstopAsset::Usdc
}

/// Whether some tier is priced by the BLND:XLM pool.
pub open spec fn needs_target(
    config: Seq<BackstopTierConfig>,
    amounts: Seq<TierAmounts>,
    upto: int,
) -> bool {
    exists|i: int|
        0 <= i < upto && #[trigger] amounts[i].2 > 0 && (config[i].asset
            == FactoryBackstopAsset::BlndXlm || config[i].asset == FactoryBackstopAsset::Xlm)
}

/// Whether some tier has tokens.
pub open spec fn has_tokens(amounts: Seq<TierAmounts>, upto: int) -> bool {
    exists|i: int| 0 <= i < upto && #[trigger] amounts[i].2 > 0
}

/// What a waterfall's valuation needs, with the split of every tier's tokens.
#[derive(Debug)]
pub struct ValuationNeeds {
    pub amounts: Vec<TierAmounts>,
    pub any_tokens: bool,
    pub anchor: bool,
    pub target: bool,
}

/// Split every tier's tokens and find out which Comet pools price them.
pub fn valuation_needs(
    config: &Vec<BackstopTierConfig>,
    balances: &Vec<PoolBalance>,
) -> (r: Result<ValuationNeeds, BackstopError>)
    requires
        config@.len() == balances@.len(),
        forall|i: int| 0 <= i < balances@.len() ==> partition_fits(#[trigger] balances@[i]),
    ensures
        match r {
            Ok(needs) => {
                &&& spec_partitions(balances@) == Ok::<Seq<TierAmounts>, BackstopError>(
                    needs.amounts@,
                )
                &&& needs.amounts@.len() == config@.len()
                &&& needs.any_tokens == has_tokens(needs.amounts@, config@.len() as int)
                &&& needs.anchor == needs_anchor(
                    config@,
                    needs.amounts@,
                    config@.len() as int,
                )
                &&& needs.target == needs_target(
                    config@,
                    needs.amounts@,
                    config@.len() as int,
                )
            },
            Err(error) => spec_partitions(balances@) == Err::<Seq<TierAmounts>, BackstopError>(
                error,
            ),
        },
{
    let ghost parts = balances@.map_values(|b: PoolBalance| spec_partition(b));
    let mut amounts: Vec<TierAmounts> = Vec::new();
    let mut any_tokens: bool = false;
    let mut anchor: bool = false;
    let mut target: bool = false;
    let mut index: usize = 0;
    while index < config.len()
        invariant
            index <= config@.len(),
            config@.len() == balances@.len(),
            forall|i: int| 0 <= i < balances@.len() ==> partition_fits(#[trigger] balances@[i]),
            parts == balances@.map_values(|b: PoolBalance| spec_partition(b)),
            amounts@.len() == index,
            collected(parts.take(index as int)) == Ok::<Seq<TierAmounts>, BackstopError>(amounts@),
            any_tokens == has_tokens(amounts@, index as int),
            anchor == needs_anchor(config@, amounts@, index as int),
            target == needs_target(config@, amounts@, index as int),
        decreases config@.len() - index,
    {
        proof {
            lemma_collected_step(parts, index as int);
            if parts[index as int] is Err {
                lemma_collected_error(parts, index + 1);
            }
        }
        let partition: TierAmounts = pool_tier_asset_partition(&balances[index])?;
        let ghost before = amounts@;
        amounts.push(partition);
        proof {
            let n = index as int;
            assert(forall|i: int| 0 <= i < n ==> #[trigger] amounts@[i] == before[i]);
            if any_tokens {
                let i = choose|i: int| 0 <= i < n && #[trigger] before[i].2 > 0;
                assert(amounts@[i].2 > 0);
            }
            if anchor {
                let i = choose|i: int|
                    0 <= i < n && #[trigger] before[i].2 > 0 && config@[i].asset
                        != FactoryBackstopAsset::Usdc;
                assert(amounts@[i].2 > 0);
            }
            if target {
                let i = choose|i: int|
                    0 <= i < n && #[trigger] before[i].2 > 0 && (config@[i].asset
                        == FactoryBackstopAsset::BlndXlm || config@[i].asset
                        == FactoryBackstopAsset::Xlm);
                assert(amounts@[i].2 > 0);
            }
            if partition.2 > 0 {
                assert(amounts@[n].2 > 0);
            }
        }
        if partition.2 > 0 {
            any_tokens = true;
            match from_factory_asset(config[index].asset) {
                BackstopAsset::BlndUsdc => {
                    anchor = true;
                },
                BackstopAsset::BlndXlm | BackstopAsset::Xlm => {
                    anchor = true;
                    target = true;
                },
                BackstopAsset::Usdc => {},
            }
        }
        index = index + 1;
    }
    assert(parts.take(index as int) =~= parts);
    Ok(ValuationNeeds { amounts, any_tokens, anchor, target })
}

/// A usable composition where one is needed; an invalid valuation where it is
/// missing or not usable.
pub open spec fn spec_needed_comet(needed: bool, reading: Option<CometReading>) -> Result<
    Option<CometComposition>,
    BackstopError,
> {
    if !needed {
        Ok(None)
    } else {
        match reading {
            None => Err(BackstopError::InvalidValuation),
            Some(reading) => match spec_read_comet(reading) {
                Ok(composition) => Ok(Some(composition)),
                Err(error) => Err(error),
            },
        }
    }
}

/// Check a reading where it is needed.
fn needed_comet(needed: bool, reading: Option<CometReading>) -> (r: Result<
    Option<CometComposition>,
    BackstopError,
>)
    ensures
        r == spec_needed_comet(needed, reading),
{
    if !needed {
        return Ok(None);
    }
    match reading {
        None => Err(BackstopError::InvalidValuation),
        Some(reading) => Ok(Some(read_comet(&reading)?)),
    }
}

/// What the waterfall is priced by, or the first error: the BLND:USDC pool,
/// then its total value, then the BLND:XLM pool.
pub open spec fn spec_price_source(
    needs_anchor: bool,
    needs_target: bool,
    anchor: Option<CometReading>,
    target: Option<CometReading>,
) -> Result<PriceSource, BackstopError> {
    match spec_needed_comet(needs_anchor, anchor) {
        Err(error) => Err(error),
        Ok(Some(composition)) if !fits_i128(composition.pair_reserve * PAIR_VALUE_MULTIPLIER)
            => Err(BackstopError::OverflowError),
        Ok(anchor) => match spec_needed_comet(needs_target, target) {
            Err(error) => Err(error),
            Ok(target) => Ok(
                PriceSource {
                    anchor,
                    anchor_value: match anchor {
                        Some(composition) => Some(
                            (composition.pair_reserve * PAIR_VALUE_MULTIPLIER) as i128,
                        ),
                        None => None,
                    },
                    target,
                },
            ),
        },
    }
}

/// Check the readings that price the waterfall.
pub fn price_source(
    needs_anchor: bool,
    needs_target: bool,
    anchor: Option<CometReading>,
    target: Option<CometReading>,
) -> (r: Result<PriceSource, BackstopError>)
    ensures
        r == spec_price_source(needs_anchor, needs_target, anchor, target),
        r matches Ok(prices) ==> prices.well_formed(),
{
    let anchor = needed_comet(needs_anchor, anchor)?;
    let anchor_value: Option<i128> = match anchor {
        Some(composition) => match composition.pair_reserve.checked_mul(PAIR_VALUE_MULTIPLIER) {
            Some(value) => Some(value),
            None => return Err(BackstopError::OverflowError),
        },
        None => None,
    };
    let target = needed_comet(needs_target, target)?;
    Ok(PriceSource { anchor, anchor_value, target })
}

/// Whether a tier's tokens can be moved: plain USDC only while the backstop is
/// authorized to hold it.
pub open spec fn spec_is_transferable(config: BackstopTierConfig, usdc_authorized: bool) -> bool {
    config.asset != FactoryBackstopAsset::Usdc || usdc_authorized
}

/// Whether a tier's tokens can be moved.
pub fn configured_tier_is_transferable(config: &BackstopTierConfig, usdc_authorized: bool) -> (r:
    bool)
    ensures
        r == spec_is_transferable(*config, usdc_authorized),
{
    if from_factory_asset(config.asset) != BackstopAsset::Usdc {
        return true;
    }
    usdc_authorized
}

/// The values of one configured tier, zero while its tokens cannot be moved.
pub open spec fn spec_tier_value(
    config: BackstopTierConfig,
    amounts: TierAmounts,
    prices: PriceSource,
    usdc_authorized: bool,
) -> Result<PoolTierValuation, BackstopError> {
    match spec_quote_configured_tier(config, amounts, prices) {
        Err(error) => Err(error),
        Ok(values) => if spec_is_transferable(config, usdc_authorized) {
            Ok(values)
        } else {
            Ok(spec_unit_pool_tier_valuation((0, 0, 0)))
        },
    }
}

/// The values of every tier of a waterfall, or the first error.
pub open spec fn spec_pool_valuation(
    config: Seq<BackstopTierConfig>,
    balances: Seq<PoolBalance>,
    anchor: Option<CometReading>,
    target: Option<CometReading>,
    usdc_authorized: bool,
) -> Result<Seq<PoolTierValuation>, BackstopError> {
    let n = config.len() as int;
    match spec_partitions(balances) {
        Err(error) => Err(error),
        Ok(amounts) => if !has_tokens(amounts, n) {
            Ok(Seq::new(config.len(), |i: int| spec_unit_pool_tier_valuation((0, 0, 0))))
        } else {
            match spec_price_source(
                needs_anchor(config, amounts, n),
                needs_target(config, amounts, n),
                anchor,
                target,
            ) {
                Err(error) => Err(error),
                Ok(prices) => collected(
                    Seq::new(
                        config.len(),
                        |i: int| spec_tier_value(config[i], amounts[i], prices, usdc_authorized),
                    ),
                ),
            }
        },
    }
}

/// The XLM price of `tokens` tokens can be computed in 256 bits from what the
/// Comet pools report.
pub open spec fn xlm_reading_fits(
    tokens: int,
    anchor: Option<CometReading>,
    target: Option<CometReading>,
) -> bool {
    match (anchor, target) {
        (Some(a), Some(t)) => tokens > 0 && a.pair_reserve > 0 && t.blnd_reserve > 0 ==> fits_wide(
            tokens * a.pair_reserve * t.blnd_reserve,
        ),
        _ => true,
    }
}

proof fn lemma_smaller_quote_fits(part: int, whole: int, a: int, b: int)
    requires
        0 <= part <= whole,
        0 < a,
        0 < b,
        fits_wide(whole * a * b),
    ensures
        fits_wide(part * a * b),
{
    assert(0 <= part * a * b <= whole * a * b) by (nonlinear_arith)
        requires
            0 <= part <= whole,
            0 < a,
            0 < b,
    ;
}

/// Value every tier of a waterfall.
///
/// The readings are those that `valuation_needs` asks for.
pub fn build_pool_valuation(
    e: &Env,
    config: &Vec<BackstopTierConfig>,
    balances: &Vec<PoolBalance>,
    anchor: Option<CometReading>,
    target: Option<CometReading>,
    usdc_authorized: bool,
) -> (r: Result<PoolValuation, BackstopError>)
    requires
        config@.len() == balances@.len(),
        forall|i: int| 0 <= i < balances@.len() ==> partition_fits(#[trigger] balances@[i]),
        forall|i: int|
            0 <= i < config@.len() && (#[trigger] config@[i]).asset == FactoryBackstopAsset::Xlm
                ==> xlm_reading_fits(balances@[i].tokens as int, anchor, target),
    ensures
        match r {
            Ok(valuation) => {
                &&& spec_pool_valuation(config@, balances@, anchor, target, usdc_authorized) is Ok
                &&& valuation.is_of(
                    spec_pool_valuation(
                        config@,
                        balances@,
                        anchor,
                        target,
                        usdc_authorized,
                    )->Ok_0,
                )
            },
            Err(error) => spec_pool_valuation(config@, balances@, anchor, target, usdc_authorized)
                == Err::<Seq<PoolTierValuation>, BackstopError>(error),
        },
{
    let needs = valuation_needs(config, balances)?;
    let mut active: Vec<i128> = Vec::new();
    let mut queued: Vec<i128> = Vec::new();
    let mut total: Vec<i128> = Vec::new();
    let mut index: usize = 0;
    if !needs.any_tokens {
        let ghost zeroes = Seq::new(
            config@.len(),
            |i: int| spec_unit_pool_tier_valuation((0, 0, 0)),
        );
        while index < config.len()
            invariant
                index <= config@.len(),
                active@ =~= Seq::new(index as nat, |i: int| 0i128),
                queued@ =~= Seq::new(index as nat, |i: int| 0i128),
                total@ =~= Seq::new(index as nat, |i: int| 0i128),
            decreases config@.len() - index,
        {
            active.push(0);
            queued.push(0);
            total.push(0);
            index = index + 1;
        }
        let valuation = PoolValuation {
            active_values: ActivationValues { tiers: active },
            queued_values: ActivationValues { tiers: queued },
            total_values: ActivationValues { tiers: total },
        };
        proof {
        assert(valuation.active_values.tiers@ =~= zeroes.map_values(
            |t: PoolTierValuation| t.active.usdc_value,
        ));
        assert(valuation.queued_values.tiers@ =~= zeroes.map_values(
            |t: PoolTierValuation| t.queued.usdc_value,
        ));
        assert(valuation.total_values.tiers@ =~= zeroes.map_values(
            |t: PoolTierValuation| t.total.usdc_value,
        ));
    }
        return Ok(valuation);
    }
    let prices: PriceSource = price_source(needs.anchor, needs.target, anchor, target)?;
    let ghost quotes = Seq::new(
        config@.len(),
        |i: int| spec_tier_value(config@[i], needs.amounts@[i], prices, usdc_authorized),
    );
    let ghost mut tiers: Seq<PoolTierValuation> = Seq::empty();
    proof {
        lemma_collected_ok(balances@.map_values(|b: PoolBalance| spec_partition(b)));
    }
    while index < config.len()
        invariant
            index <= config@.len(),
            config@.len() == balances@.len(),
            config@.len() == needs.amounts@.len(),
            prices.well_formed(),
            spec_price_source(needs.anchor, needs.target, anchor, target) == Ok::<
                PriceSource,
                BackstopError,
            >(prices),
            quotes == Seq::new(
                config@.len(),
                |i: int| spec_tier_value(config@[i], needs.amounts@[i], prices, usdc_authorized),
            ),
            spec_pool_valuation(config@, balances@, anchor, target, usdc_authorized) == collected(
                quotes,
            ),
            forall|i: int|
                0 <= i < config@.len() ==> spec_partition(#[trigger] balances@[i]) == Ok::<
                    TierAmounts,
                    BackstopError,
                >(needs.amounts@[i]),
            forall|i: int| 0 <= i < balances@.len() ==> partition_fits(#[trigger] balances@[i]),
            forall|i: int|
                0 <= i < config@.len() && (#[trigger] config@[i]).asset
                    == FactoryBackstopAsset::Xlm ==> xlm_reading_fits(
                    balances@[i].tokens as int,
                    anchor,
                    target,
                ),
            tiers.len() == index,
            active@.len() == index,
            queued@.len() == index,
            total@.len() == index,
            forall|i: int|
                0 <= i < index ==> active@[i] == (#[trigger] tiers[i]).active.usdc_value
                    && queued@[i] == tiers[i].queued.usdc_value && total@[i]
                    == tiers[i].total.usdc_value,
            collected(quotes.take(index as int)) == Ok::<Seq<PoolTierValuation>, BackstopError>(
                tiers,
            ),
        decreases config@.len() - index,
    {
        let tier: BackstopTierConfig = config[index];
        let amounts: TierAmounts = needs.amounts[index];
        proof {
            let i = index as int;
            let b = balances@[i];
            lemma_collected_step(quotes, i);
            if quotes[i] is Err {
                lemma_collected_error(quotes, i + 1);
            }
            assert(spec_partition(b) == Ok::<TierAmounts, BackstopError>(amounts));
            assert(partition_fits(b));
            lemma_tokens_for_bounds(b, b.shares - b.q4w);
            lemma_tokens_for_bounds(b, b.q4w as int);
            if tier.asset == FactoryBackstopAsset::Xlm && amounts.2 > 0 && prices.anchor is Some
                && prices.target is Some {
                let p = prices.anchor->Some_0.pair_reserve as int;
                let t = prices.target->Some_0.blnd_reserve as int;
                assert(xlm_reading_fits(b.tokens as int, anchor, target));
                assert(fits_wide(b.tokens * p * t));
                lemma_smaller_quote_fits(amounts.0 as int, b.tokens as int, p, t);
                lemma_smaller_quote_fits(amounts.1 as int, b.tokens as int, p, t);
            }
        }
        let values: PoolTierValuation = quote_configured_tier(e, &tier, amounts, &prices)?;
        if configured_tier_is_transferable(&tier, usdc_authorized) {
            active.push(values.active.usdc_value);
            queued.push(values.queued.usdc_value);
            total.push(values.total.usdc_value);
        } else {
            active.push(0);
            queued.push(0);
            total.push(0);
        }
        proof {
            let before = tiers;
            tiers = tiers.push(quotes[index as int]->Ok_0);
            assert(forall|i: int| 0 <= i < index ==> #[trigger] tiers[i] == before[i]);
        }
        index = index + 1;
    }
    let valuation = PoolValuation {
        active_values: ActivationValues { tiers: active },
        queued_values: ActivationValues { tiers: queued },
        total_values: ActivationValues { tiers: total },
    };
    assert(quotes.take(index as int) =~= quotes);
    proof {
        assert(valuation.active_values.tiers@ =~= tiers.map_values(
            |t: PoolTierValuation| t.active.usdc_value,
        ));
        assert(valuation.queued_values.tiers@ =~= tiers.map_values(
            |t: PoolTierValuation| t.queued.usdc_value,
        ));
        assert(valuation.total_values.tiers@ =~= tiers.map_values(
            |t: PoolTierValuation| t.total.usdc_value,
        ));
    }
    Ok(valuation)
}

/// The sum of tier values, or the first objection to it: a negative value, or a
/// running total beyond an `i128`.
pub open spec fn spec_activation_total(values: Seq<i128>) -> Result<i128, BackstopError>
    decreases values.len(),
{
    if values.len() == 0 {
        Ok(0)
    } else {
        match spec_activation_total(values.drop_last()) {
            Err(error) => Err(error),
            Ok(total) => if values.last() < 0 {
                Err(BackstopError::InvalidActivationValue)
            } else if total + values.last() > i128::MAX {
                Err(BackstopError::OverflowError)
            } else {
                Ok((total + values.last()) as i128)
            },
        }
    }
}

/// The plain sum of tier values.
pub open spec fn value_sum(values: Seq<i128>) -> int
    decreases values.len(),
{
    if values.len() == 0 {
        0
    } else {
        value_sum(values.drop_last()) + values.last()
    }
}

/// The values add up exactly where none is negative and the sum fits; the total
/// is then their plain sum.
pub proof fn law_activation_total_is_the_sum(values: Seq<i128>)
    ensures
        spec_activation_total(values) is Ok <==> (forall|i: int|
            0 <= i < values.len() ==> #[trigger] values[i] >= 0) && value_sum(values)
            <= i128::MAX,
        spec_activation_total(values) matches Ok(total) ==> total == value_sum(values) && total
            >= 0,
    decreases values.len(),
{
    if values.len() > 0 {
        let init = values.drop_last();
        law_activation_total_is_the_sum(init);
        assert(forall|i: int| 0 <= i < init.len() ==> #[trigger] init[i] == values[i]);
        if forall|i: int| 0 <= i < values.len() ==> #[trigger] values[i] >= 0 {
            assert(values.last() == values[values.len() - 1]);
            assert(forall|i: int| 0 <= i < init.len() ==> #[trigger] init[i] >= 0);
        }
        if spec_activation_total(values) is Ok {
            assert forall|i: int| 0 <= i < values.len() implies #[trigger] values[i] >= 0 by {
                if i < values.len() - 1 {
                    assert(init[i] >= 0);
                }
            }
        }
    }
}

proof fn lemma_activation_error(values: Seq<i128>, i: int)
    requires
        0 <= i <= values.len(),
        spec_activation_total(values.take(i)) is Err,
    ensures
        spec_activation_total(values) == spec_activation_total(values.take(i)),
    decreases values.len() - i,
{
    if i == values.len() {
        assert(values.take(i) =~= values);
    } else {
        assert(values.take(i + 1).drop_last() =~= values.take(i));
        lemma_activation_error(values, i + 1);
    }
}

/// Add up the values of all tiers.
pub fn sum_activation_values(values: &ActivationValues) -> (r: Result<i128, BackstopError>)
    ensures
        r == spec_activation_total(values.tiers@),
        r matches Ok(total) ==> total >= 0,
{
    let mut total: i128 = 0;
    let mut index: usize = 0;
    while index < values.tiers.len()
        invariant
            index <= values.tiers@.len(),
            spec_activation_total(values.tiers@.take(index as int)) == Ok::<i128, BackstopError>(
                total,
            ),
            total >= 0,
        decreases values.tiers@.len() - index,
    {
        let value: i128 = values.tiers[index];
        proof {
            let next = values.tiers@.take(index + 1);
            assert(next.drop_last() =~= values.tiers@.take(index as int));
            if value < 0 || total + value > i128::MAX {
                lemma_activation_error(values.tiers@, index + 1);
            }
        }
        if value < 0 {
            return Err(BackstopError::InvalidActivationValue);
        }
        total = match total.checked_add(value) {
            Some(sum) => sum,
            None => return Err(BackstopError::OverflowError),
        };
        index = index + 1;
    }
    assert(values.tiers@.take(index as int) =~= values.tiers@);
    Ok(total)
}

/// A pool's value against the value that activation asks for.
#[derive(Clone, Copy, Debug, PartialEq, Eq, Structural)]
pub struct ActivationQuote {
    pub eligible_value: i128,
    pub meets_threshold: bool,
    pub required_value: i128,
}

/// Hold the value of all tiers against the activation threshold.
pub fn quote_activation(values: &ActivationValues) -> (r: Result<ActivationQuote, BackstopError>)
    ensures
        r matches Ok(quote) ==> {
            &&& quote.eligible_value == value_sum(values.tiers@)
            &&& quote.required_value == 125_000_000_000
            &&& quote.meets_threshold <==> quote.eligible_value >= 125_000_000_000
        },
        r == match spec_activation_total(values.tiers@) {
            Ok(total) => Ok(
                ActivationQuote {
                    eligible_value: total,
                    meets_threshold: total >= ACTIVATION_THRESHOLD_USDC,
                    required_value: ACTIVATION_THRESHOLD_USDC,
                },
            ),
            Err(error) => Err(error),
        },
{
    proof {
        law_activation_total_is_the_sum(values.tiers@);
    }
    let eligible_value: i128 = sum_activation_values(values)?;
    Ok(
        ActivationQuote {
            eligible_value,
            meets_threshold: eligible_value >= ACTIVATION_THRESHOLD_USDC,
            required_value: ACTIVATION_THRESHOLD_USDC,
        },
    )
}

/// The queued part of a value, scaled to 7 decimals and rounded up; zero of nothing.
pub open spec fn spec_q4w_fraction(active: int, queued: int) -> int {
    if active + queued == 0 {
        0
    } else {
        ceil_div(queued * SCALAR_7, active + queued)
    }
}

/// The queued part of a value lies between nothing and all of it; it is nothing
/// only where no value is queued, and all of it where every value is queued.
pub proof fn law_q4w_fraction_is_a_fraction(active: int, queued: int)
    requires
        active >= 0,
        queued >= 0,
    ensures
        0 <= spec_q4w_fraction(active, queued) <= SCALAR_7,
        spec_q4w_fraction(active, queued) == 0 <==> queued == 0,
        active == 0 && queued > 0 ==> spec_q4w_fraction(active, queued) == SCALAR_7,
{
    let total = active + queued;
    if total > 0 {
        let c = ceil_div(queued * SCALAR_7, total);
        lemma_ceil_by_floor(queued * SCALAR_7, total);
        assert(0 <= c <= SCALAR_7 && (c == 0 <==> queued == 0) && (active == 0 ==> c
            == SCALAR_7)) by (nonlinear_arith)
            requires
                active >= 0,
                queued >= 0,
                total == active + queued,
                total > 0,
                SCALAR_7 == 10_000_000,
                c * total >= queued * SCALAR_7,
                (c - 1) * total < queued * SCALAR_7,
        ;
    }
}

/// The sums of active and queued values and the queued fraction of both, or the first error.
pub open spec fn spec_q4w_percentage(active: Seq<i128>, queued: Seq<i128>) -> Result<
    i128,
    BackstopError,
> {
    match (spec_activation_total(active), spec_activation_total(queued)) {
        (Err(error), _) => Err(error),
        (_, Err(error)) => Err(error),
        (Ok(a), Ok(q)) => if a + q > i128::MAX {
            Err(BackstopError::OverflowError)
        } else {
            Ok(spec_q4w_fraction(a as int, q as int) as i128)
        },
    }
}

/// The queued part of a pool's value, rounded up.
pub fn calculate_q4w_percentage(
    e: &Env,
    active_values: &ActivationValues,
    queued_values: &ActivationValues,
) -> (r: Result<i128, BackstopError>)
    ensures
        r == spec_q4w_percentage(active_values.tiers@, queued_values.tiers@),
        r matches Ok(fraction) ==> 0 <= fraction <= SCALAR_7,
{
    let active_value: i128 = sum_activation_values(active_values)?;
    let queued_value: i128 = sum_activation_values(queued_values)?;
    let total_value: i128 = match active_value.checked_add(queued_value) {
        Some(total_value) => total_value,
        None => return Err(BackstopError::OverflowError),
    };
    if total_value == 0 {
        return Ok(0);
    }
    proof {
        law_q4w_fraction_is_a_fraction(active_value as int, queued_value as int);
    }
    match mul_div_ceil(e, queued_value, SCALAR_7, total_value) {
        Some(fraction) => Ok(fraction),
        None => Err(BackstopError::OverflowError),
    }
}

/// One configured tier's compact accounting and verified valuation.
#[derive(Clone, Copy, Debug, PartialEq, Eq, Structural)]
pub struct PoolTierData {
    pub asset: BackstopAsset,
    pub blnd_emission_eligible: bool,
    pub take_rate_weight: u32,
    pub token: Address,
    pub tokens: i128,
    pub shares: i128,
    /// Transferable USDC-equivalent value; zero while plain USDC is deauthorized.
    pub value: i128,
}

/// One pool's complete configured backstop accounting and valuation.
#[derive(Debug)]
pub struct PoolBackstopData {
    /// Aggregate transferable USDC value excluding queued withdrawals.
    pub active_value: i128,
    /// Queued value divided by total active-plus-queued value, rounded up.
    pub q4w_pct: i128,
    /// Tier data in configured loss-waterfall order.
    pub tiers: Vec<PoolTierData>,
}

/// The accounting and valuation of one tier.
pub open spec fn spec_tier_data(
    assets: BackstopAssets,
    config: BackstopTierConfig,
    balance: PoolBalance,
    value: i128,
) -> PoolTierData {
    let asset = spec_from_factory_asset(config.asset);
    PoolTierData {
        asset,
        blnd_emission_eligible: spec_is_blnd_asset(asset),
        take_rate_weight: config.take_rate_weight,
        token: spec_asset_token(assets, asset),
        tokens: balance.tokens,
        shares: balance.shares,
        value,
    }
}

/// The accounting and valuation of one tier.
pub fn tier_data(
    assets: &BackstopAssets,
    config: &BackstopTierConfig,
    balance: &PoolBalance,
    value: i128,
) -> (r: PoolTierData)
    ensures
        r == spec_tier_data(*assets, *config, *balance, value),
{
    let asset = from_factory_asset(config.asset);
    PoolTierData {
        asset,
        blnd_emission_eligible: matches!(asset, BackstopAsset::BlndUsdc | BackstopAsset::BlndXlm),
        take_rate_weight: config.take_rate_weight,
        token: asset_token(assets, asset),
        tokens: balance.tokens,
        shares: balance.shares,
        value,
    }
}

/// The active values of a waterfall, tier by tier.
pub open spec fn active_of(tiers: Seq<PoolTierValuation>) -> Seq<i128> {
    tiers.map_values(|t: PoolTierValuation| t.active.usdc_value)
}

/// The queued values of a waterfall, tier by tier.
pub open spec fn queued_of(tiers: Seq<PoolTierValuation>) -> Seq<i128> {
    tiers.map_values(|t: PoolTierValuation| t.queued.usdc_value)
}

/// The errors of a pool's data in the order in which they come: valuation,
/// active value, queued fraction.
pub open spec fn spec_pool_data_error(
    valuation: Result<Seq<PoolTierValuation>, BackstopError>,
) -> Option<BackstopError> {
    match valuation {
        Err(error) => Some(error),
        Ok(tiers) => match spec_activation_total(active_of(tiers)) {
            Err(error) => Some(error),
            Ok(_) => match spec_q4w_percentage(active_of(tiers), queued_of(tiers)) {
                Err(error) => Some(error),
                Ok(_) => None,
            },
        },
    }
}

/// The accounting and valuation of a pool's whole waterfall.
pub fn load_pool_backstop_data(
    e: &Env,
    assets: &BackstopAssets,
    config: &Vec<BackstopTierConfig>,
    balances: &Vec<PoolBalance>,
    anchor: Option<CometReading>,
    target: Option<CometReading>,
    usdc_authorized: bool,
) -> (r: Result<PoolBackstopData, BackstopError>)
    requires
        config@.len() == balances@.len(),
        forall|i: int| 0 <= i < balances@.len() ==> partition_fits(#[trigger] balances@[i]),
        forall|i: int|
            0 <= i < config@.len() && (#[trigger] config@[i]).asset == FactoryBackstopAsset::Xlm
                ==> xlm_reading_fits(balances@[i].tokens as int, anchor, target),
    ensures
        ({
            let valuation = spec_pool_valuation(
                config@,
                balances@,
                anchor,
                target,
                usdc_authorized,
            );
            match r {
                Err(error) => spec_pool_data_error(valuation) == Some(error),
                Ok(data) => {
                    let tiers = valuation->Ok_0;
                    &&& spec_pool_data_error(valuation) is None
                    &&& data.active_value == value_sum(active_of(tiers))
                    &&& data.q4w_pct == spec_q4w_fraction(
                        value_sum(active_of(tiers)),
                        value_sum(queued_of(tiers)),
                    )
                    &&& data.tiers@.len() == config@.len()
                    &&& forall|i: int|
                        0 <= i < config@.len() ==> #[trigger] data.tiers@[i] == spec_tier_data(
                            *assets,
                            config@[i],
                            balances@[i],
                            tiers[i].total.usdc_value,
                        )
                },
            }
        }),
{
    let ghost spec_valuation = spec_pool_valuation(
        config@,
        balances@,
        anchor,
        target,
        usdc_authorized,
    );
    let valuation = build_pool_valuation(e, config, balances, anchor, target, usdc_authorized)?;
    let ghost values = spec_valuation->Ok_0;
    proof {
        law_valuation_has_every_tier(config@, balances@, anchor, target, usdc_authorized);
        assert(valuation.total_values.tiers@.len() == config@.len());
        assert(forall|i: int|
            0 <= i < config@.len() ==> #[trigger] valuation.total_values.tiers@[i]
                == values[i].total.usdc_value);
    }
    let mut tiers: Vec<PoolTierData> = Vec::new();
    let mut index: usize = 0;
    while index < config.len()
        invariant
            index <= config@.len(),
            config@.len() == balances@.len(),
            values.len() == config@.len(),
            valuation.total_values.tiers@.len() == config@.len(),
            forall|i: int|
                0 <= i < config@.len() ==> #[trigger] valuation.total_values.tiers@[i]
                    == values[i].total.usdc_value,
            tiers@.len() == index,
            forall|i: int|
                0 <= i < index ==> #[trigger] tiers@[i] == spec_tier_data(
                    *assets,
                    config@[i],
                    balances@[i],
                    values[i].total.usdc_value,
                ),
        decreases config@.len() - index,
    {
        let data = tier_data(
            assets,
            &config[index],
            &balances[index],
            valuation.total_values.tiers[index],
        );
        tiers.push(data);
        index = index + 1;
    }
    proof {
        law_activation_total_is_the_sum(active_of(values));
        law_activation_total_is_the_sum(queued_of(values));
        if spec_q4w_percentage(active_of(values), queued_of(values)) is Ok {
            law_q4w_fraction_is_a_fraction(
                value_sum(active_of(values)),
                value_sum(queued_of(values)),
            );
        }
    }
    let active_value: i128 = sum_activation_values(&valuation.active_values)?;
    let q4w_pct: i128 = calculate_q4w_percentage(
        e,
        &valuation.active_values,
        &valuation.queued_values,
    )?;
    Ok(PoolBackstopData { active_value, q4w_pct, tiers })
}

/// A valuation that succeeds has one entry for each tier.
pub proof fn law_valuation_has_every_tier(
    config: Seq<BackstopTierConfig>,
    balances: Seq<PoolBalance>,
    anchor: Option<CometReading>,
    target: Option<CometReading>,
    usdc_authorized: bool,
)
    ensures
        spec_pool_valuation(config, balances, anchor, target, usdc_authorized) matches Ok(tiers)
            ==> tiers.len() == config.len(),
{
    let n = config.len() as int;
    if spec_partitions(balances) is Ok {
        let amounts = spec_partitions(balances)->Ok_0;
        let prices = spec_price_source(
            needs_anchor(config, amounts, n),
            needs_target(config, amounts, n),
            anchor,
            target,
        );
        if prices is Ok {
            lemma_collected_ok(
                Seq::new(
                    config.len(),
                    |i: int|
                        spec_tier_value(config[i], amounts[i], prices->Ok_0, usdc_authorized),
                ),
            );
        }
    }
}

/// Value the LP tokens of both BLND tiers.
pub fn quote_pool_lp_amounts(
    e: &Env,
    blnd_usdc: TierAmounts,
    blnd_xlm: TierAmounts,
    anchor: &CometReading,
    target: &CometReading,
) -> (r: Result<(PoolTierValuation, PoolTierValuation), BackstopError>)
    ensures
        r == spec_quote_pool_lp_amounts(blnd_usdc, blnd_xlm, *anchor, *target),
{
    let anchor = read_comet(anchor)?;
    let anchor_value: i128 = match anchor.pair_reserve.checked_mul(PAIR_VALUE_MULTIPLIER) {
        Some(value) => value,
        None => return Err(BackstopError::OverflowError),
    };
    let blnd_usdc_quote = pool_tier_valuation(e, blnd_usdc, anchor_value, &anchor)?;
    let target = read_comet(target)?;
    let target_value: i128 = mul_div_floor(
        e,
        target.blnd_reserve,
        anchor_value,
        anchor.blnd_reserve,
    )?;
    let blnd_xlm_quote = pool_tier_valuation(e, blnd_xlm, target_value, &target)?;
    Ok((blnd_usdc_quote, blnd_xlm_quote))
}

/// The values of both BLND tiers, or the first error.
pub open spec fn spec_quote_pool_lp_amounts(
    blnd_usdc: TierAmounts,
    blnd_xlm: TierAmounts,
    anchor: CometReading,
    target: CometReading,
) -> Result<(PoolTierValuation, PoolTierValuation), BackstopError> {
    match spec_read_comet(anchor) {
        Err(error) => Err(error),
        Ok(a) => if !fits_i128(a.pair_reserve * PAIR_VALUE_MULTIPLIER) {
            Err(BackstopError::OverflowError)
        } else {
            let value = a.pair_reserve * PAIR_VALUE_MULTIPLIER;
            match spec_pool_tier_valuation(blnd_usdc, value, a) {
                Err(error) => Err(error),
                Ok(first) => match spec_read_comet(target) {
                    Err(error) => Err(error),
                    Ok(t) => match spec_mul_div_floor(
                        t.blnd_reserve as int,
                        value,
                        a.blnd_reserve as int,
                    ) {
                        Err(error) => Err(error),
                        Ok(target_value) => match spec_pool_tier_valuation(
                            blnd_xlm,
                            target_value as int,
                            t,
                        ) {
                            Err(error) => Err(error),
                            Ok(second) => Ok((first, second)),
                        },
                    },
                },
            }
        },
    }
}

} // verus!
