//! What the pool factory accepts.

use backstop::dependencies::pool_factory::{BackstopAsset, BackstopTierConfig};
use backstop::pool_factory::{validate_backstop_config, validate_pool_init_args};

fn tier(asset: BackstopAsset, take_rate_weight: u32) -> BackstopTierConfig {
    BackstopTierConfig { asset, take_rate_weight }
}

fn backstop_config() -> Vec<BackstopTierConfig> {
    vec![tier(BackstopAsset::BlndXlm, 1)]
}

fn rejected(config: Vec<BackstopTierConfig>) {
    assert_eq!(validate_backstop_config(&config).unwrap_err().code(), 1300);
    assert_eq!(
        validate_pool_init_args(0_1000000, 6, 1_0000000, &config).unwrap_err().code(),
        1300
    );
}

#[test]
fn test_pool_factory_accepts_three_ordered_backstop_tiers() {
    let config = vec![
        tier(BackstopAsset::BlndXlm, 4),
        tier(BackstopAsset::BlndUsdc, 3),
        tier(BackstopAsset::Usdc, 2),
    ];
    assert_eq!(validate_backstop_config(&config), Ok(()));
}

#[test]
fn test_pool_factory_accepts_maximum_backstop_weight() {
    assert_eq!(validate_backstop_config(&vec![tier(BackstopAsset::BlndXlm, 10)]), Ok(()));
}

#[test]
fn test_pool_factory_rejects_empty_backstop_config() {
    rejected(vec![]);
}

#[test]
fn test_pool_factory_rejects_duplicate_backstop_tokens() {
    rejected(vec![tier(BackstopAsset::Xlm, 1), tier(BackstopAsset::Xlm, 2)]);
    rejected(vec![tier(BackstopAsset::Xlm, 2), tier(BackstopAsset::Xlm, 1)]);
}

#[test]
fn test_pool_factory_rejects_zero_backstop_weight() {
    rejected(vec![tier(BackstopAsset::Usdc, 0)]);
}

#[test]
fn test_pool_factory_rejects_more_than_three_backstop_tiers() {
    rejected(vec![
        tier(BackstopAsset::BlndXlm, 1),
        tier(BackstopAsset::BlndUsdc, 1),
        tier(BackstopAsset::Usdc, 1),
        tier(BackstopAsset::Xlm, 1),
    ]);
    rejected(vec![
        tier(BackstopAsset::BlndXlm, 4),
        tier(BackstopAsset::BlndUsdc, 3),
        tier(BackstopAsset::Usdc, 2),
        tier(BackstopAsset::Xlm, 1),
    ]);
}

#[test]
fn test_pool_factory_rejects_excessive_backstop_weight() {
    rejected(vec![tier(BackstopAsset::Usdc, 11)]);
}

#[test]
fn test_pool_factory_rejects_equal_backstop_weights() {
    rejected(vec![tier(BackstopAsset::BlndXlm, 4), tier(BackstopAsset::Usdc, 4)]);
}

#[test]
fn test_pool_factory_rejects_ascending_backstop_weights() {
    rejected(vec![tier(BackstopAsset::BlndXlm, 3), tier(BackstopAsset::Usdc, 4)]);
}

#[test]
fn test_pool_factory_invalid_pool_init_args_backstop_rate() {
    let result = validate_pool_init_args(1_0000000, 6, 1_0000000, &backstop_config());
    assert_eq!(result.unwrap_err().code(), 1300);
}

#[test]
fn test_pool_factory_invalid_pool_init_args_max_positions() {
    let result = validate_pool_init_args(0_1000000, 1, 1_0000000, &backstop_config());
    assert_eq!(result.unwrap_err().code(), 1300);
}

#[test]
fn test_pool_factory_invalid_pool_init_args_max_positions_large() {
    let result = validate_pool_init_args(0_1000000, 61, 1_0000000, &backstop_config());
    assert_eq!(result.unwrap_err().code(), 1300);
}

#[test]
fn test_pool_factory_invalid_pool_init_args_min_collateral() {
    let result = validate_pool_init_args(0_1000000, 60, -1, &backstop_config());
    assert_eq!(result.unwrap_err().code(), 1300);
}

#[test]
fn ordinary_pools_are_accepted() {
    assert_eq!(validate_pool_init_args(0_1000000, 6, 1_0000000, &backstop_config()), Ok(()));
    assert_eq!(validate_pool_init_args(0, 2, 0, &backstop_config()), Ok(()));
    assert_eq!(validate_pool_init_args(0_9999999, 60, 0, &backstop_config()), Ok(()));
}
