use melange_mint::asset::{Asset, AssetInfo};
use melange_mint::decimal::{Decimal, DECIMAL_FRACTIONAL};
use melange_mint::error::ContractError;
use melange_mint::pairs::{paris_to_map, TswapPairQuerier};
use melange_mint::queries::OrderBy;
use melange_mint::state::{CollateralInfo, Config, MintEngine};

fn base_config() -> Config {
    Config {
        owner: "owner0000".to_string(),
        oracle: "oracle0000".to_string(),
        collector: "collector0000".to_string(),
        collateral_oracle: "collateraloracle0000".to_string(),
        staking: "staking0000".to_string(),
        tswap_factory: "tswap_factory".to_string(),
        base_denom: "uusd".to_string(),
        token_code_id: 10u64,
        protocol_fee_rate: Decimal::percent(1),
    }
}

fn native(denom: &str, amount: u128) -> Asset {
    Asset {
        info: AssetInfo::NativeToken {
            denom: denom.to_string(),
        },
        amount,
    }
}

fn token(addr: &str, amount: u128) -> Asset {
    Asset {
        info: AssetInfo::Token {
            contract_addr: addr.to_string(),
        },
        amount,
    }
}

fn token_info(addr: &str) -> AssetInfo {
    AssetInfo::Token {
        contract_addr: addr.to_string(),
    }
}

fn unit_info() -> CollateralInfo {
    CollateralInfo {
        price: Decimal::one(),
        multiplier: Decimal::one(),
        is_revoked: false,
    }
}

fn engine_with_asset() -> MintEngine {
    let mut engine = MintEngine::new(base_config()).unwrap();
    engine
        .register_asset(
            &"owner0000".to_string(),
            "asset0000".to_string(),
            Decimal::percent(150),
        )
        .unwrap();
    engine
}

#[test]
fn decimal_matches_reference() {
    // the fixed-point representation agrees with the host chain's decimal
    assert_eq!(
        Decimal::from_ratio(1u128, 3u128).atomics,
        cosmwasm_std::Decimal::from_ratio(1u128, 3u128).atomics().u128()
    );
    assert_eq!(
        Decimal::percent(150).atomics,
        cosmwasm_std::Decimal::percent(150).atomics().u128()
    );
    assert_eq!(
        Decimal::one().atomics,
        cosmwasm_std::Decimal::one().atomics().u128()
    );
    assert_eq!(DECIMAL_FRACTIONAL, 10u128.pow(18));
}

#[test]
fn invalid_protocol_fee_rejected() {
    let mut config = base_config();
    config.protocol_fee_rate = Decimal::one();
    let res = MintEngine::new(config).unwrap_err();
    assert_eq!(res, ContractError::InvalidProtocolFeeRate);
    assert_eq!(res.message(), "protocol_fee_rate must be smaller than 1");
}

#[test]
fn next_position_idx_monotonic() {
    let mut engine = engine_with_asset();
    assert_eq!(engine.query_next_position_idx().next_position_idx, 1u128);
    engine
        .open_position(
            "addr0000".to_string(),
            native("uusd", 1000000),
            token_info("asset0000"),
            Decimal::percent(150),
            Decimal::one(),
            unit_info(),
        )
        .unwrap();
    assert_eq!(engine.query_next_position_idx().next_position_idx, 2u128);
    // fully repay the first position: its index is still never reused
    engine
        .burn(
            "addr0000".to_string(),
            1u128,
            token("asset0000", 666666),
            Decimal::one(),
            unit_info(),
        )
        .unwrap();
    let res = engine
        .open_position(
            "addr0000".to_string(),
            native("uusd", 1000000),
            token_info("asset0000"),
            Decimal::percent(150),
            Decimal::one(),
            unit_info(),
        )
        .unwrap();
    assert_eq!(res.position_idx, 2u128);
    assert_eq!(engine.query_next_position_idx().next_position_idx, 3u128);
}

#[test]
fn migration_freezes_asset() {
    let mut engine = engine_with_asset();
    engine
        .open_position(
            "addr0000".to_string(),
            native("uusd", 1000000),
            token_info("asset0000"),
            Decimal::percent(150),
            Decimal::one(),
            unit_info(),
        )
        .unwrap();
    // only the owner may migrate
    let res = engine
        .register_migration(
            &"addr0000".to_string(),
            &"asset0000".to_string(),
            Decimal::percent(200),
        )
        .unwrap_err();
    assert_eq!(res, ContractError::Unauthorized);
    engine
        .register_migration(
            &"owner0000".to_string(),
            &"asset0000".to_string(),
            Decimal::percent(200),
        )
        .unwrap();
    // the registry entry is frozen at the end price with a 100% minimum
    let cfg = engine.query_asset_config(&"asset0000".to_string()).unwrap();
    assert_eq!(cfg.end_price, Some(Decimal::percent(200)));
    assert_eq!(cfg.min_collateral_ratio, Decimal::percent(100));
    // ratio-changing operations are rejected for the deprecated asset
    let res = engine
        .open_position(
            "addr0001".to_string(),
            native("uusd", 1000),
            token_info("asset0000"),
            Decimal::percent(150),
            Decimal::one(),
            unit_info(),
        )
        .unwrap_err();
    assert_eq!(res.message(), "Operation is not allowed for the deprecated asset");
    let res = engine
        .mint(
            "addr0000".to_string(),
            1u128,
            token("asset0000", 1),
            Decimal::one(),
            unit_info(),
        )
        .unwrap_err();
    assert_eq!(res, ContractError::AssetMigrated);
    let res = engine
        .deposit("addr0000".to_string(), 1u128, native("uusd", 1))
        .unwrap_err();
    assert_eq!(res, ContractError::AssetMigrated);
    // withdrawing stays legal for any amount up to the full collateral
    let res = engine
        .withdraw(
            "addr0000".to_string(),
            1u128,
            Some(native("uusd", 1000000)),
            Decimal::one(),
            unit_info(),
        )
        .unwrap();
    assert_eq!(res.withdraw_amount, 1000000u128);
    // burning stays legal and is priced at the frozen end price:
    // fee = 666666 * 2.0 * 0.01 = 13333 (floored), capped at the
    // remaining collateral, which is now zero
    let res = engine
        .burn(
            "addr0000".to_string(),
            1u128,
            token("asset0000", 666666),
            Decimal::one(),
            unit_info(),
        )
        .unwrap();
    assert_eq!(res.protocol_fee, 0u128);
    let p = engine.query_position(1u128).unwrap();
    assert_eq!(p.asset.amount, 0u128);
}

#[test]
fn burn_uses_frozen_end_price() {
    let mut engine = engine_with_asset();
    engine
        .open_position(
            "addr0000".to_string(),
            native("uusd", 1000000),
            token_info("asset0000"),
            Decimal::percent(150),
            Decimal::one(),
            unit_info(),
        )
        .unwrap();
    engine
        .register_migration(
            &"owner0000".to_string(),
            &"asset0000".to_string(),
            Decimal::percent(200),
        )
        .unwrap();
    // fee = 666666 * 2.0 (end price, overriding the 1.0 oracle price) * 0.01
    let res = engine
        .burn(
            "addr0000".to_string(),
            1u128,
            token("asset0000", 666666),
            Decimal::one(),
            unit_info(),
        )
        .unwrap();
    assert_eq!(res.protocol_fee, 13333u128);
}

#[test]
fn revoked_collateral_rejected() {
    let mut engine = engine_with_asset();
    let revoked = CollateralInfo {
        price: Decimal::one(),
        multiplier: Decimal::one(),
        is_revoked: true,
    };
    let res = engine
        .open_position(
            "addr0000".to_string(),
            token("collateral0000", 1000000),
            token_info("asset0000"),
            Decimal::percent(150),
            Decimal::one(),
            revoked,
        )
        .unwrap_err();
    assert_eq!(res, ContractError::CollateralRevoked);
    assert_eq!(
        res.message(),
        "The collateral asset provided is no longer valid"
    );
    // opening with sound collateral, then minting against it once revoked
    engine
        .open_position(
            "addr0000".to_string(),
            token("collateral0000", 1000000),
            token_info("asset0000"),
            Decimal::percent(150),
            Decimal::one(),
            unit_info(),
        )
        .unwrap();
    let res = engine
        .mint(
            "addr0000".to_string(),
            1u128,
            token("asset0000", 1),
            Decimal::one(),
            revoked,
        )
        .unwrap_err();
    assert_eq!(res, ContractError::CollateralRevoked);
}

#[test]
fn divide_by_zero_on_zero_price() {
    let mut engine = engine_with_asset();
    let res = engine
        .open_position(
            "addr0000".to_string(),
            native("uusd", 1000000),
            token_info("asset0000"),
            Decimal::percent(150),
            Decimal::zero(),
            unit_info(),
        )
        .unwrap_err();
    assert_eq!(res, ContractError::DivideByZero);
}

#[test]
fn mint_amount_overflow() {
    let mut engine = engine_with_asset();
    // an asset priced at 10^-18 makes the minted amount exceed 128 bits
    let tiny = Decimal::from_ratio(1u128, DECIMAL_FRACTIONAL);
    assert_eq!(tiny.atomics, 1u128);
    let res = engine
        .open_position(
            "addr0000".to_string(),
            native("uusd", u128::MAX),
            token_info("asset0000"),
            Decimal::percent(150),
            tiny,
            unit_info(),
        )
        .unwrap_err();
    assert_eq!(res, ContractError::Overflow);
}

#[test]
fn wrong_identity_errors() {
    let mut engine = engine_with_asset();
    engine
        .open_position(
            "addr0000".to_string(),
            native("uusd", 1000000),
            token_info("asset0000"),
            Decimal::percent(150),
            Decimal::one(),
            unit_info(),
        )
        .unwrap();
    // depositing a different collateral
    let res = engine
        .deposit("addr0000".to_string(), 1u128, native("ukrw", 1000))
        .unwrap_err();
    assert_eq!(res, ContractError::WrongCollateral);
    assert_eq!(res.message(), "Wrong collateral");
    // depositing nothing
    let res = engine
        .deposit("addr0000".to_string(), 1u128, native("uusd", 0))
        .unwrap_err();
    assert_eq!(res, ContractError::WrongCollateral);
    // minting a different asset
    let res = engine
        .mint(
            "addr0000".to_string(),
            1u128,
            token("asset9999", 1),
            Decimal::one(),
            unit_info(),
        )
        .unwrap_err();
    assert_eq!(res, ContractError::WrongAsset);
    assert_eq!(res.message(), "Wrong asset");
    // burning a different asset
    let res = engine
        .burn(
            "addr0000".to_string(),
            1u128,
            token("asset9999", 1),
            Decimal::one(),
            unit_info(),
        )
        .unwrap_err();
    assert_eq!(res, ContractError::WrongAsset);
    // withdrawing a different collateral
    let res = engine
        .withdraw(
            "addr0000".to_string(),
            1u128,
            Some(native("ukrw", 1)),
            Decimal::one(),
            unit_info(),
        )
        .unwrap_err();
    assert_eq!(res, ContractError::WrongCollateral);
}

#[test]
fn not_found_errors() {
    let mut engine = engine_with_asset();
    let res = engine.query_position(7u128).unwrap_err();
    assert_eq!(res, ContractError::PositionNotFound);
    let res = engine.query_asset_config(&"asset9999".to_string()).unwrap_err();
    assert_eq!(res, ContractError::AssetNotFound);
    let res = engine
        .deposit("addr0000".to_string(), 7u128, native("uusd", 1))
        .unwrap_err();
    assert_eq!(res, ContractError::PositionNotFound);
    let res = engine
        .update_asset(&"owner0000".to_string(), &"asset9999".to_string(), None)
        .unwrap_err();
    assert_eq!(res, ContractError::AssetNotFound);
}

#[test]
fn pagination_filters() {
    let mut engine = engine_with_asset();
    engine
        .register_asset(
            &"owner0000".to_string(),
            "asset0001".to_string(),
            Decimal::percent(150),
        )
        .unwrap();
    // three positions: two for addr0000, one for addr0001 on another asset
    for owner in ["addr0000", "addr0001", "addr0000"] {
        engine
            .open_position(
                owner.to_string(),
                native("uusd", 300000),
                token_info(if owner == "addr0001" {
                    "asset0001"
                } else {
                    "asset0000"
                }),
                Decimal::percent(150),
                Decimal::one(),
                unit_info(),
            )
            .unwrap();
    }
    // ascending with a cursor: exactly the indices above 1, in order
    let page = engine.query_positions(None, None, Some(1u128), None, Some(OrderBy::Asc));
    let idxs: Vec<u128> = page.positions.iter().map(|p| p.idx).collect();
    assert_eq!(idxs, vec![2u128, 3u128]);
    // descending with a cursor: exactly the indices below 3, in reverse
    let page = engine.query_positions(None, None, Some(3u128), None, Some(OrderBy::Desc));
    let idxs: Vec<u128> = page.positions.iter().map(|p| p.idx).collect();
    assert_eq!(idxs, vec![2u128, 1u128]);
    // filter by owner
    let page = engine.query_positions(
        Some(&"addr0000".to_string()),
        None,
        None,
        None,
        Some(OrderBy::Asc),
    );
    let idxs: Vec<u128> = page.positions.iter().map(|p| p.idx).collect();
    assert_eq!(idxs, vec![1u128, 3u128]);
    // filter by asset
    let page = engine.query_positions(
        None,
        Some(&"asset0001".to_string()),
        None,
        None,
        Some(OrderBy::Asc),
    );
    let idxs: Vec<u128> = page.positions.iter().map(|p| p.idx).collect();
    assert_eq!(idxs, vec![2u128]);
    // the limit caps the page
    let page = engine.query_positions(None, None, None, Some(2u32), Some(OrderBy::Asc));
    let idxs: Vec<u128> = page.positions.iter().map(|p| p.idx).collect();
    assert_eq!(idxs, vec![1u128, 2u128]);
    // the default order is descending
    let page = engine.query_positions(None, None, None, None, None);
    let idxs: Vec<u128> = page.positions.iter().map(|p| p.idx).collect();
    assert_eq!(idxs, vec![3u128, 2u128, 1u128]);
}

#[test]
fn protocol_fee_capped_at_collateral() {
    let mut engine = engine_with_asset();
    engine
        .open_position(
            "addr0000".to_string(),
            native("uusd", 1000),
            token_info("asset0000"),
            Decimal::percent(150),
            Decimal::one(),
            unit_info(),
        )
        .unwrap();
    // minted 666; the price then rises a thousandfold, so the nominal fee
    // 666 * 1000 * 0.01 = 6660 exceeds the 1000 collateral and is capped
    let res = engine
        .burn(
            "addr0000".to_string(),
            1u128,
            token("asset0000", 666),
            Decimal::from_ratio(1000u128, 1u128),
            unit_info(),
        )
        .unwrap();
    assert_eq!(res.protocol_fee, 1000u128);
    let p = engine.query_position(1u128).unwrap();
    assert_eq!(p.collateral.amount, 0u128);
    assert_eq!(p.asset.amount, 0u128);
}

#[test]
fn burn_with_zero_fee_rate_returns_position() {
    let mut config = base_config();
    config.protocol_fee_rate = Decimal::zero();
    let mut engine = MintEngine::new(config).unwrap();
    engine
        .register_asset(
            &"owner0000".to_string(),
            "asset0000".to_string(),
            Decimal::percent(150),
        )
        .unwrap();
    engine
        .open_position(
            "addr0000".to_string(),
            native("uusd", 1000000),
            token_info("asset0000"),
            Decimal::percent(200),
            Decimal::one(),
            unit_info(),
        )
        .unwrap();
    let before = engine.query_position(1u128).unwrap();
    engine
        .mint(
            "addr0000".to_string(),
            1u128,
            token("asset0000", 100),
            Decimal::one(),
            unit_info(),
        )
        .unwrap();
    // burning the minted amount with a zero fee restores the position
    let res = engine
        .burn(
            "addr0000".to_string(),
            1u128,
            token("asset0000", 100),
            Decimal::one(),
            unit_info(),
        )
        .unwrap();
    assert_eq!(res.protocol_fee, 0u128);
    let after = engine.query_position(1u128).unwrap();
    assert_eq!(after, before);
}

#[test]
fn withdraw_without_amount_releases_maximum() {
    let mut engine = engine_with_asset();
    engine
        .open_position(
            "addr0000".to_string(),
            native("uusd", 1000000),
            token_info("asset0000"),
            Decimal::percent(150),
            Decimal::from_ratio(100u128, 1u128),
            unit_info(),
        )
        .unwrap();
    // minted 6666: required collateral is 6666 * 100 * 1.5 = 999900
    let res = engine
        .withdraw(
            "addr0000".to_string(),
            1u128,
            None,
            Decimal::from_ratio(100u128, 1u128),
            unit_info(),
        )
        .unwrap();
    assert_eq!(res.withdraw_amount, 100u128);
    let p = engine.query_position(1u128).unwrap();
    assert_eq!(p.collateral.amount, 999900u128);
}

#[test]
fn withdraw_more_than_collateral_rejected() {
    let mut engine = engine_with_asset();
    engine
        .open_position(
            "addr0000".to_string(),
            native("uusd", 1000),
            token_info("asset0000"),
            Decimal::percent(150),
            Decimal::one(),
            unit_info(),
        )
        .unwrap();
    let res = engine
        .withdraw(
            "addr0000".to_string(),
            1u128,
            Some(native("uusd", 1001)),
            Decimal::one(),
            unit_info(),
        )
        .unwrap_err();
    assert_eq!(res, ContractError::WithdrawExceedsCollateral);
    // only the owner may withdraw
    let res = engine
        .withdraw(
            "addr0001".to_string(),
            1u128,
            Some(native("uusd", 1)),
            Decimal::one(),
            unit_info(),
        )
        .unwrap_err();
    assert_eq!(res, ContractError::Unauthorized);
}

#[test]
fn pair_table_collects_triples() {
    let a = "asset0000".to_string();
    let b = "uusd".to_string();
    let pair = "pair0000".to_string();
    let querier = TswapPairQuerier::new(&[(&a, &b, &pair)]);
    assert_eq!(
        querier.pairs.get("asset0000uusd"),
        Some(&"pair0000".to_string())
    );
    let map = paris_to_map(&[(&a, &b, &pair), (&b, &a, &pair)]);
    assert_eq!(map.len(), 2);
    assert_eq!(map.get("uusdasset0000"), Some(&"pair0000".to_string()));
}

#[test]
fn deposit_overflow_rejected() {
    let mut engine = engine_with_asset();
    engine
        .open_position(
            "addr0000".to_string(),
            native("uusd", 1000),
            token_info("asset0000"),
            Decimal::percent(150),
            Decimal::one(),
            unit_info(),
        )
        .unwrap();
    let res = engine
        .deposit("addr0000".to_string(), 1u128, native("uusd", u128::MAX))
        .unwrap_err();
    assert_eq!(res, ContractError::Overflow);
}

#[test]
fn burn_with_zero_collateral_price_rejected() {
    let mut engine = engine_with_asset();
    engine
        .open_position(
            "addr0000".to_string(),
            token("collateral0000", 1000000),
            token_info("asset0000"),
            Decimal::percent(150),
            Decimal::one(),
            unit_info(),
        )
        .unwrap();
    let zero_price = CollateralInfo {
        price: Decimal::zero(),
        multiplier: Decimal::one(),
        is_revoked: false,
    };
    let res = engine
        .burn(
            "addr0000".to_string(),
            1u128,
            token("asset0000", 1),
            Decimal::one(),
            zero_price,
        )
        .unwrap_err();
    assert_eq!(res, ContractError::DivideByZero);
}

#[test]
fn withdraw_nothing_from_underwater_position() {
    let mut engine = engine_with_asset();
    engine
        .open_position(
            "addr0000".to_string(),
            native("uusd", 1000000),
            token_info("asset0000"),
            Decimal::percent(150),
            Decimal::one(),
            unit_info(),
        )
        .unwrap();
    // the asset price doubles: 666666 * 2 * 1.5 > 1000000, so no amount can
    // be released without breaking the minimum ratio
    let res = engine
        .withdraw(
            "addr0000".to_string(),
            1u128,
            None,
            Decimal::from_ratio(2u128, 1u128),
            unit_info(),
        )
        .unwrap_err();
    assert_eq!(res, ContractError::WithdrawRatioTooLow);
}
