use casper_types::U256;
use ectoplasm_lending::errors::LendingError;
use ectoplasm_lending::price_oracle::PriceOracle;

const SCALE: u128 = 1_000_000_000_000_000_000;
const ADMIN: u64 = 1;
const ASSET: u64 = 100;

#[test]
fn test_set_and_get_price() {
    let mut oracle = PriceOracle::init(ADMIN);
    oracle.set_price(ADMIN, ASSET, U256::from(SCALE * 11 / 10), 1000).unwrap();
    assert_eq!(oracle.get_price(ASSET, 1000).unwrap(), U256::from(SCALE * 11 / 10));
    // A non-admin may not set prices, and zero prices are rejected.
    assert_eq!(
        oracle.set_price(2, ASSET, U256::from(SCALE), 1000),
        Err(LendingError::Unauthorized)
    );
    assert_eq!(
        oracle.set_price(ADMIN, ASSET, U256::zero(), 1000),
        Err(LendingError::InvalidPrice)
    );
    // A missing feed is unavailable.
    assert_eq!(oracle.get_price(999, 1000), Err(LendingError::PriceFeedNotAvailable));
}

#[test]
fn test_asset_value_calculation() {
    let mut oracle = PriceOracle::init(ADMIN);
    // 1 unit of the asset is worth 1.1 of the base asset.
    oracle.set_price(ADMIN, ASSET, U256::from(SCALE * 11 / 10), 1000).unwrap();
    let value = oracle.get_asset_value(ASSET, U256::from(1000u64), 1000).unwrap();
    assert_eq!(value, U256::from(1100u64));
    let amount = oracle.get_asset_amount(ASSET, U256::from(1100u64), 1000).unwrap();
    assert_eq!(amount, U256::from(1000u64));
}

#[test]
fn test_stale_price_rejection() {
    let mut oracle = PriceOracle::init(ADMIN);
    oracle.set_price(ADMIN, ASSET, U256::from(SCALE), 1000).unwrap();
    // Within the default hour the price is served.
    assert!(oracle.get_price(ASSET, 1000 + 3600).is_ok());
    // One second past the bound it is rejected.
    assert_eq!(oracle.get_price(ASSET, 1000 + 3601), Err(LendingError::InvalidPrice));
}

#[test]
fn test_disable_and_enable_feed() {
    let mut oracle = PriceOracle::init(ADMIN);
    oracle.set_price(ADMIN, ASSET, U256::from(SCALE), 1000).unwrap();
    oracle.disable_feed(ADMIN, ASSET).unwrap();
    assert_eq!(oracle.get_price(ASSET, 1000), Err(LendingError::PriceFeedNotAvailable));
    // The unchecked read still serves the stored price.
    assert_eq!(oracle.get_price_unchecked(ASSET).unwrap(), U256::from(SCALE));
    oracle.enable_feed(ADMIN, ASSET).unwrap();
    assert_eq!(oracle.get_price(ASSET, 1000).unwrap(), U256::from(SCALE));
}

#[test]
fn test_set_max_staleness() {
    let mut oracle = PriceOracle::init(ADMIN);
    oracle.set_price(ADMIN, ASSET, U256::from(SCALE), 1000).unwrap();
    oracle.set_max_staleness(ADMIN, 60).unwrap();
    assert_eq!(oracle.get_price(ASSET, 1061), Err(LendingError::InvalidPrice));
    assert_eq!(oracle.get_admin(), ADMIN);
}
