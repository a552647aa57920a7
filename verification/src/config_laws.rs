//! What the contracts accept when they are set up.

use vstd::prelude::*;

use crate::backstop::pool::{
    asset_list, canonical_comet, decimals_match, spec_asset_token, spec_from_factory_asset,
    spec_is_blnd_asset, valid_config, AssetDecimals, BackstopAssets, CometTokens,
};
use crate::backstop_valuation::{spec_config_of, spec_setup_error, AdapterConfig};
use crate::contract::{spec_check_drop_list, spec_drop_list_total};
use crate::dependencies::pool_factory::{BackstopAsset as FactoryBackstopAsset, BackstopTierConfig};
use crate::emitter::emitter_laws::amounts_of;
use crate::math::sum_of;
use crate::pool_factory::{acceptable_args, orderly_tiers};
use crate::Address;

verus! {

proof fn lemma_drop_list_total(list: Seq<(Address, i128)>)
    ensures
        spec_drop_list_total(list) is Ok <==> (forall|i: int|
            0 <= i < list.len() ==> (#[trigger] list[i]).1 >= 0) && sum_of(amounts_of(list))
            <= i128::MAX,
        spec_drop_list_total(list) matches Ok(total) ==> total == sum_of(amounts_of(list)),
        (forall|i: int| 0 <= i < list.len() ==> (#[trigger] list[i]).1 >= 0) ==> sum_of(
            amounts_of(list),
        ) >= 0,
    decreases list.len(),
{
    if list.len() > 0 {
        let init = list.drop_last();
        let n = list.len() - 1;
        lemma_drop_list_total(init);
        assert(amounts_of(list).drop_last() =~= amounts_of(init));
        assert(amounts_of(list).last() == list[n].1);
        assert(forall|i: int| 0 <= i < init.len() ==> #[trigger] init[i] == list[i]);
        if forall|i: int| 0 <= i < list.len() ==> (#[trigger] list[i]).1 >= 0 {
            assert(list[n].1 >= 0);
        } else if forall|i: int| 0 <= i < init.len() ==> (#[trigger] init[i]).1 >= 0 {
            assert(list[n].1 < 0) by {
                if list[n].1 >= 0 {
                    assert forall|i: int| 0 <= i < list.len() implies (#[trigger] list[i]).1
                        >= 0 by {
                        if i < n {
                            assert(init[i].1 >= 0);
                        }
                    }
                }
            }
        } else {
            let i = choose|i: int| 0 <= i < init.len() && (#[trigger] init[i]).1 < 0;
            assert(list[i].1 < 0);
        }
    }
}

/// A drop list pays no one a negative amount, and 40 million tokens at most. Only that of
/// the backstop that the emitter pays already may go up to 150 million, and is marked where
/// it does.
pub proof fn law_drop_lists_are_capped(list: Seq<(Address, i128)>, is_current_backstop: bool)
    ensures
        ({
            let total = sum_of(amounts_of(list));
            let r = spec_check_drop_list(list, is_current_backstop);
            &&& r is Ok <==> (forall|i: int| 0 <= i < list.len() ==> (#[trigger] list[i]).1 >= 0)
                && (total <= 400_000_000_000_000 || total <= 1_500_000_000_000_000
                && is_current_backstop)
            &&& r is Ok ==> (r->Ok_0 <==> total > 400_000_000_000_000)
        }),
{
    lemma_drop_list_total(list);
}

/// A pool is set up with a rate below one, two to sixty positions, and no negative minimum
/// of collateral.
pub proof fn law_pools_are_set_up_within_bounds(
    backstop_rate: u32,
    max_positions: u32,
    min_collateral: i128,
)
    ensures
        acceptable_args(backstop_rate, max_positions, min_collateral) <==> backstop_rate
            < 10_000_000 && 2 <= max_positions <= 60 && min_collateral >= 0,
{
}

/// Whether a pool's tiers are in order: one to three of them, each of another asset, with
/// weights from ten down to one that fall from each to the next.
pub open spec fn in_order(config: Seq<BackstopTierConfig>) -> bool {
    &&& 1 <= config.len() <= 3
    &&& forall|i: int|
        0 <= i < config.len() ==> 1 <= (#[trigger] config[i]).take_rate_weight <= 10
    &&& forall|i: int, j: int|
        0 <= i < j < config.len() ==> (#[trigger] config[j]).take_rate_weight < (
        #[trigger] config[i]).take_rate_weight
    &&& forall|i: int, j: int|
        0 <= i < j < config.len() ==> (#[trigger] config[i]).asset != (#[trigger] config[j]).asset
}

/// The decimals of the token of an asset.
pub open spec fn decimals_of(decimals: AssetDecimals, asset: FactoryBackstopAsset) -> u32 {
    match asset {
        FactoryBackstopAsset::BlndUsdc => decimals.blnd_usdc,
        FactoryBackstopAsset::BlndXlm => decimals.blnd_xlm,
        FactoryBackstopAsset::Usdc => decimals.usdc,
        FactoryBackstopAsset::Xlm => decimals.xlm,
    }
}

/// The factory and the backstop both take a pool's tiers only in order, and the backstop
/// only those whose tokens have seven decimals.
pub proof fn law_tiers_are_taken_in_order(
    config: Seq<BackstopTierConfig>,
    decimals: AssetDecimals,
)
    ensures
        orderly_tiers(config) <==> in_order(config),
        valid_config(config, decimals) <==> in_order(config) && forall|i: int|
            0 <= i < config.len() ==> decimals_of(decimals, (#[trigger] config[i]).asset) == 7,
{
    if valid_config(config, decimals) {
        assert forall|i: int| 0 <= i < config.len() implies decimals_of(
            decimals,
            (#[trigger] config[i]).asset,
        ) == 7 by {}
    }
}

/// Every asset keeps its name and has its own token, and the two kinds of LP tokens are
/// those that earn emissions.
pub proof fn law_assets_keep_their_names(assets: BackstopAssets, asset: FactoryBackstopAsset)
    ensures
        ({
            let ours = spec_from_factory_asset(asset);
            let token = spec_asset_token(assets, ours);
            match asset {
                FactoryBackstopAsset::BlndUsdc => ours is BlndUsdc && token == assets.blnd_usdc
                    && spec_is_blnd_asset(ours),
                FactoryBackstopAsset::BlndXlm => ours is BlndXlm && token == assets.blnd_xlm
                    && spec_is_blnd_asset(ours),
                FactoryBackstopAsset::Usdc => ours is Usdc && token == assets.usdc
                    && !spec_is_blnd_asset(ours),
                FactoryBackstopAsset::Xlm => ours is Xlm && token == assets.xlm
                    && !spec_is_blnd_asset(ours),
            }
        }),
{
}

/// Whether a Comet pool is one of BLND and a pair token alone, weighed 80 to 20.
pub open spec fn is_eighty_twenty(comet: CometTokens, blnd: Address, pair: Address) -> bool {
    &&& comet.tokens@.len() == 2
    &&& comet.tokens@.contains(blnd)
    &&& comet.tokens@.contains(pair)
    &&& comet.blnd_weight == 8_000_000
    &&& comet.pair_weight == 2_000_000
}

/// The adapter is set up once, with five different tokens of seven decimals and the two
/// Comet pools of BLND, and keeps each token under its name.
pub proof fn law_the_adapter_is_set_up_once(
    config: Option<AdapterConfig>,
    assets: BackstopAssets,
    decimals: AssetDecimals,
    blnd_usdc: CometTokens,
    blnd_xlm: CometTokens,
)
    ensures
        spec_setup_error(config, assets, decimals, blnd_usdc, blnd_xlm) is None <==> {
            &&& config is None
            &&& assets.blnd != assets.usdc && assets.blnd != assets.xlm && assets.blnd
                != assets.blnd_usdc && assets.blnd != assets.blnd_xlm
            &&& assets.usdc != assets.xlm && assets.usdc != assets.blnd_usdc && assets.usdc
                != assets.blnd_xlm
            &&& assets.xlm != assets.blnd_usdc && assets.xlm != assets.blnd_xlm
            &&& assets.blnd_usdc != assets.blnd_xlm
            &&& decimals.blnd == 7 && decimals.usdc == 7 && decimals.xlm == 7 && decimals.blnd_usdc
                == 7 && decimals.blnd_xlm == 7
            &&& is_eighty_twenty(blnd_usdc, assets.blnd, assets.usdc)
            &&& is_eighty_twenty(blnd_xlm, assets.blnd, assets.xlm)
        },
        ({
            let kept = spec_config_of(assets);
            &&& kept.blnd == assets.blnd
            &&& kept.usdc == assets.usdc
            &&& kept.xlm == assets.xlm
            &&& kept.blnd_usdc == assets.blnd_usdc
            &&& kept.blnd_xlm == assets.blnd_xlm
        }),
{
    let list = asset_list(assets);
    assert(list[0] == assets.blnd && list[1] == assets.usdc && list[2] == assets.xlm && list[3]
        == assets.blnd_usdc && list[4] == assets.blnd_xlm);
    assert(canonical_comet(blnd_usdc, assets.blnd, assets.usdc) <==> is_eighty_twenty(
        blnd_usdc,
        assets.blnd,
        assets.usdc,
    ));
    assert(decimals_match(decimals) <==> decimals.blnd == 7 && decimals.usdc == 7 && decimals.xlm
        == 7 && decimals.blnd_usdc == 7 && decimals.blnd_xlm == 7);
}

} // verus!
