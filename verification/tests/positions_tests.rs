use melange_mint::asset::{Asset, AssetInfo};
use melange_mint::decimal::Decimal;
use melange_mint::positions::Effect;
use melange_mint::queries::{OrderBy, PositionResponse, PositionsResponse};
use melange_mint::state::{CollateralInfo, Config, MintEngine};

static TOKEN_CODE_ID: u64 = 10u64;

fn base_config() -> Config {
    Config {
        owner: "owner0000".to_string(),
        oracle: "oracle0000".to_string(),
        collector: "collector0000".to_string(),
        collateral_oracle: "collateraloracle0000".to_string(),
        staking: "staking0000".to_string(),
        tswap_factory: "tswap_factory".to_string(),
        base_denom: "uusd".to_string(),
        token_code_id: TOKEN_CODE_ID,
        protocol_fee_rate: Decimal::percent(1),
    }
}

fn native(denom: &str, amount: u128) -> Asset {
    Asset {
        info: AssetInfo::NativeToken {
            denom: denom.to_string(),
        },
        amount,
    }
}

fn token(addr: &str, amount: u128) -> Asset {
    Asset {
        info: AssetInfo::Token {
            contract_addr: addr.to_string(),
        },
        amount,
    }
}

fn oracle_info(price: Decimal, multiplier: Decimal) -> CollateralInfo {
    CollateralInfo {
        price,
        multiplier,
        is_revoked: false,
    }
}

fn unit_info() -> CollateralInfo {
    oracle_info(Decimal::one(), Decimal::one())
}

/// An engine with asset0000 and asset0001 registered at 150%.
fn engine_with_assets() -> MintEngine {
    let mut engine = MintEngine::new(base_config()).unwrap();
    engine
        .register_asset(
            &"owner0000".to_string(),
            "asset0000".to_string(),
            Decimal::percent(150),
        )
        .unwrap();
    engine
        .register_asset(
            &"owner0000".to_string(),
            "asset0001".to_string(),
            Decimal::percent(150),
        )
        .unwrap();
    engine
}

#[test]
fn open_position() {
    let mut engine = engine_with_assets();
    // prices: uusd 1.0, asset0000 1.0, asset0001 0.5 with multiplier 2
    let asset0000_price = Decimal::percent(100);
    let asset0001_collateral = oracle_info(Decimal::percent(50), Decimal::percent(200));

    // open position with an unknown target asset
    let res = engine.open_position(
        "addr0000".to_string(),
        token("asset9999", 1000000),
        AssetInfo::Token {
            contract_addr: "asset9999".to_string(),
        },
        Decimal::percent(150),
        Decimal::one(),
        unit_info(),
    );
    res.unwrap_err(); // expect error

    // must fail; collateral ratio is too low
    let res = engine
        .open_position(
            "addr0000".to_string(),
            native("uusd", 1000000),
            AssetInfo::Token {
                contract_addr: "asset0000".to_string(),
            },
            Decimal::percent(140),
            asset0000_price,
            unit_info(),
        )
        .unwrap_err();
    assert_eq!(
        res.message(),
        "Can not open a position with low collateral ratio than minimum"
    );

    // successful attempt
    let res = engine
        .open_position(
            "addr0000".to_string(),
            native("uusd", 1000000),
            AssetInfo::Token {
                contract_addr: "asset0000".to_string(),
            },
            Decimal::percent(150),
            asset0000_price,
            unit_info(),
        )
        .unwrap();
    assert_eq!(res.position_idx, 1u128);
    assert_eq!(res.mint_amount, 666666u128);
    assert_eq!(
        res.effects,
        vec![Effect::MintTokens {
            token: "asset0000".to_string(),
            recipient: "addr0000".to_string(),
            amount: 666666u128,
        }]
    );

    let position = engine.query_position(1u128).unwrap();
    assert_eq!(
        position,
        PositionResponse {
            idx: 1u128,
            owner: "addr0000".to_string(),
            asset: token("asset0000", 666666),
            collateral: native("uusd", 1000000),
        }
    );

    // can query positions
    let positions = engine.query_positions(
        Some(&"addr0000".to_string()),
        None,
        None,
        None,
        Some(OrderBy::Asc),
    );
    assert_eq!(
        positions,
        PositionsResponse {
            positions: vec![PositionResponse {
                idx: 1u128,
                owner: "addr0000".to_string(),
                asset: token("asset0000", 666666),
                collateral: native("uusd", 1000000),
            }],
        }
    );

    // open a second position with token collateral
    // 1000000 * 0.5 (price to asset) * 2 (multiplier) / 3.0 (ratio)
    let res = engine
        .open_position(
            "addr0000".to_string(),
            token("asset0001", 1000000),
            AssetInfo::Token {
                contract_addr: "asset0000".to_string(),
            },
            Decimal::percent(300),
            asset0000_price,
            asset0001_collateral,
        )
        .unwrap();
    assert_eq!(res.position_idx, 2u128);
    assert_eq!(res.mint_amount, 333333u128);
    assert_eq!(
        res.effects,
        vec![Effect::MintTokens {
            token: "asset0000".to_string(),
            recipient: "addr0000".to_string(),
            amount: 333333u128,
        }]
    );

    let position = engine.query_position(2u128).unwrap();
    assert_eq!(
        position,
        PositionResponse {
            idx: 2u128,
            owner: "addr0000".to_string(),
            asset: token("asset0000", 333333),
            collateral: token("asset0001", 1000000),
        }
    );

    // descending enumeration
    let positions = engine.query_positions(
        Some(&"addr0000".to_string()),
        None,
        None,
        None,
        Some(OrderBy::Desc),
    );
    assert_eq!(
        positions,
        PositionsResponse {
            positions: vec![
                PositionResponse {
                    idx: 2u128,
                    owner: "addr0000".to_string(),
                    asset: token("asset0000", 333333),
                    collateral: token("asset0001", 1000000),
                },
                PositionResponse {
                    idx: 1u128,
                    owner: "addr0000".to_string(),
                    asset: token("asset0000", 666666),
                    collateral: native("uusd", 1000000),
                },
            ],
        }
    );

    // descending, strictly after index 2
    let positions = engine.query_positions(
        Some(&"addr0000".to_string()),
        None,
        Some(2u128),
        None,
        Some(OrderBy::Desc),
    );
    assert_eq!(
        positions,
        PositionsResponse {
            positions: vec![PositionResponse {
                idx: 1u128,
                owner: "addr0000".to_string(),
                asset: token("asset0000", 666666),
                collateral: native("uusd", 1000000),
            }],
        }
    );
}

#[test]
fn deposit() {
    let mut engine = engine_with_assets();
    let asset0000_price = Decimal::percent(100);
    let asset0001_collateral = oracle_info(Decimal::percent(50), Decimal::one());

    // open uusd-asset0000 position
    engine
        .open_position(
            "addr0000".to_string(),
            native("uusd", 1000000),
            AssetInfo::Token {
                contract_addr: "asset0000".to_string(),
            },
            Decimal::percent(150),
            asset0000_price,
            unit_info(),
        )
        .unwrap();

    // open asset0001-asset0000 position
    engine
        .open_position(
            "addr0000".to_string(),
            token("asset0001", 1000000),
            AssetInfo::Token {
                contract_addr: "asset0000".to_string(),
            },
            Decimal::percent(150),
            asset0000_price,
            asset0001_collateral,
        )
        .unwrap();

    engine
        .deposit("addr0000".to_string(), 1u128, native("uusd", 1000000))
        .unwrap();
    let position = engine.query_position(1u128).unwrap();
    assert_eq!(
        position,
        PositionResponse {
            idx: 1u128,
            owner: "addr0000".to_string(),
            asset: token("asset0000", 666666),
            collateral: native("uusd", 2000000),
        }
    );

    // only the owner may deposit
    let res = engine
        .deposit("addr0001".to_string(), 2u128, token("asset0001", 1000000))
        .unwrap_err();
    assert_eq!(res.message(), "unauthorized");

    // deposit the token collateral
    engine
        .deposit("addr0000".to_string(), 2u128, token("asset0001", 1000000))
        .unwrap();
    let position = engine.query_position(2u128).unwrap();
    assert_eq!(
        position,
        PositionResponse {
            idx: 2u128,
            owner: "addr0000".to_string(),
            // 1000000 * 0.5 (collateral price) / 1.5 (ratio)
            asset: token("asset0000", 333333),
            collateral: token("asset0001", 2000000),
        }
    );
}

#[test]
fn mint() {
    let mut engine = engine_with_assets();
    let asset0000_price = Decimal::from_ratio(100u128, 1u128);
    let asset0001_collateral = oracle_info(Decimal::from_ratio(50u128, 1u128), Decimal::one());

    // open uusd-asset0000 position
    engine
        .open_position(
            "addr0000".to_string(),
            native("uusd", 1000000),
            AssetInfo::Token {
                contract_addr: "asset0000".to_string(),
            },
            Decimal::percent(150),
            asset0000_price,
            unit_info(),
        )
        .unwrap();

    // open asset0001-asset0000 position
    engine
        .open_position(
            "addr0000".to_string(),
            token("asset0001", 1000000),
            AssetInfo::Token {
                contract_addr: "asset0000".to_string(),
            },
            Decimal::percent(150),
            asset0000_price,
            asset0001_collateral,
        )
        .unwrap();

    engine
        .deposit("addr0000".to_string(), 1u128, native("uusd", 1000000))
        .unwrap();
    engine
        .deposit("addr0000".to_string(), 2u128, token("asset0001", 1000000))
        .unwrap();

    // failed to mint; due to min_collateral_ratio
    let res = engine
        .mint(
            "addr0000".to_string(),
            1u128,
            token("asset0000", 6668),
            asset0000_price,
            unit_info(),
        )
        .unwrap_err();
    assert_eq!(res.message(), "Cannot mint asset over than min collateral ratio");

    // successfully mint within the min_collateral_ratio
    let res = engine
        .mint(
            "addr0000".to_string(),
            1u128,
            token("asset0000", 6667),
            asset0000_price,
            unit_info(),
        )
        .unwrap();
    assert_eq!(res.mint_amount, 6667u128);
    assert_eq!(
        res.effects,
        vec![Effect::MintTokens {
            token: "asset0000".to_string(),
            recipient: "addr0000".to_string(),
            amount: 6667u128,
        }]
    );

    // mint with the token-collateral position; failed due to min collateral ratio
    let res = engine
        .mint(
            "addr0000".to_string(),
            2u128,
            token("asset0000", 333334),
            asset0000_price,
            asset0001_collateral,
        )
        .unwrap_err();
    assert_eq!(res.message(), "Cannot mint asset over than min collateral ratio");

    let res = engine
        .mint(
            "addr0000".to_string(),
            2u128,
            token("asset0000", 333333),
            asset0000_price,
            asset0001_collateral,
        )
        .unwrap();
    assert_eq!(res.mint_amount, 333333u128);
    assert_eq!(
        res.effects,
        vec![Effect::MintTokens {
            token: "asset0000".to_string(),
            recipient: "addr0000".to_string(),
            amount: 333333u128,
        }]
    );
}

#[test]
fn burn() {
    let mut engine = engine_with_assets();
    let asset0000_price = Decimal::from_ratio(100u128, 1u128);
    let asset0001_collateral = oracle_info(Decimal::from_ratio(50u128, 1u128), Decimal::one());

    engine
        .open_position(
            "addr0000".to_string(),
            native("uusd", 1000000),
            AssetInfo::Token {
                contract_addr: "asset0000".to_string(),
            },
            Decimal::percent(150),
            asset0000_price,
            unit_info(),
        )
        .unwrap();
    engine
        .open_position(
            "addr0000".to_string(),
            token("asset0001", 1000000),
            AssetInfo::Token {
                contract_addr: "asset0000".to_string(),
            },
            Decimal::percent(150),
            asset0000_price,
            asset0001_collateral,
        )
        .unwrap();
    engine
        .deposit("addr0000".to_string(), 1u128, native("uusd", 1000000))
        .unwrap();
    engine
        .deposit("addr0000".to_string(), 2u128, token("asset0001", 1000000))
        .unwrap();
    engine
        .mint(
            "addr0000".to_string(),
            1u128,
            token("asset0000", 6667),
            asset0000_price,
            unit_info(),
        )
        .unwrap();

    // failed to burn more than the position amount
    let res = engine
        .burn(
            "addr0000".to_string(),
            1u128,
            token("asset0000", 13334),
            asset0000_price,
            unit_info(),
        )
        .unwrap_err();
    assert_eq!(res.message(), "Cannot burn asset more than you mint");

    // fee: 13333 * 100 (price) * 0.01 (protocol fee)
    let res = engine
        .burn(
            "addr0000".to_string(),
            1u128,
            token("asset0000", 13333),
            asset0000_price,
            unit_info(),
        )
        .unwrap();
    assert_eq!(res.burn_amount, 13333u128);
    assert_eq!(res.protocol_fee, 13333u128);
    assert_eq!(
        res.effects,
        vec![
            Effect::BurnTokens {
                token: "asset0000".to_string(),
                amount: 13333u128,
            },
            Effect::TransferNative {
                denom: "uusd".to_string(),
                recipient: "collector0000".to_string(),
                amount: 13333u128,
            },
        ]
    );

    // mint with the token-collateral position
    engine
        .mint(
            "addr0000".to_string(),
            2u128,
            token("asset0000", 333333),
            asset0000_price,
            asset0001_collateral,
        )
        .unwrap();

    // failed to burn more than the position amount
    let res = engine
        .burn(
            "addr0000".to_string(),
            2u128,
            token("asset0000", 666667),
            asset0000_price,
            asset0001_collateral,
        )
        .unwrap_err();
    assert_eq!(res.message(), "Cannot burn asset more than you mint");

    // fee: 666666 * 100 * 0.01 / 50
    let res = engine
        .burn(
            "addr0000".to_string(),
            2u128,
            token("asset0000", 666666),
            asset0000_price,
            asset0001_collateral,
        )
        .unwrap();
    assert_eq!(res.burn_amount, 666666u128);
    assert_eq!(res.protocol_fee, 13333u128);
    assert_eq!(
        res.effects,
        vec![
            Effect::BurnTokens {
                token: "asset0000".to_string(),
                amount: 666666u128,
            },
            Effect::TransferToken {
                token: "asset0001".to_string(),
                recipient: "collector0000".to_string(),
                amount: 13333u128,
            },
        ]
    );
}

#[test]
fn withdraw() {
    let mut engine = engine_with_assets();
    let asset0000_price = Decimal::from_ratio(100u128, 1u128);
    let asset0001_collateral = oracle_info(Decimal::from_ratio(50u128, 1u128), Decimal::one());

    engine
        .open_position(
            "addr0000".to_string(),
            native("uusd", 1000000),
            AssetInfo::Token {
                contract_addr: "asset0000".to_string(),
            },
            Decimal::percent(150),
            asset0000_price,
            unit_info(),
        )
        .unwrap();
    engine
        .open_position(
            "addr0000".to_string(),
            token("asset0001", 1000000),
            AssetInfo::Token {
                contract_addr: "asset0000".to_string(),
            },
            Decimal::percent(150),
            asset0000_price,
            asset0001_collateral,
        )
        .unwrap();

    // cannot withdraw 101: the remaining collateral would fall under the
    // minimum collateral ratio (100 collateral token == 1 token)
    let res = engine
        .withdraw(
            "addr0000".to_string(),
            1u128,
            Some(native("uusd", 101)),
            asset0000_price,
            unit_info(),
        )
        .unwrap_err();
    assert_eq!(
        res.message(),
        "Cannot withdraw collateral over than minimum collateral ratio"
    );

    // withdrawing 100 keeps the ratio exactly at the minimum and succeeds
    let res = engine
        .withdraw(
            "addr0000".to_string(),
            1u128,
            Some(native("uusd", 100)),
            asset0000_price,
            unit_info(),
        )
        .unwrap();
    assert_eq!(res.withdraw_amount, 100u128);
    assert_eq!(
        res.effects,
        vec![Effect::TransferNative {
            denom: "uusd".to_string(),
            recipient: "addr0000".to_string(),
            amount: 100u128,
        }]
    );

    // cannot withdraw 2 from the token-collateral position
    // (2 collateral token == 1 token)
    let res = engine
        .withdraw(
            "addr0000".to_string(),
            2u128,
            Some(token("asset0001", 2)),
            asset0000_price,
            asset0001_collateral,
        )
        .unwrap_err();
    assert_eq!(
        res.message(),
        "Cannot withdraw collateral over than minimum collateral ratio"
    );

    let res = engine
        .withdraw(
            "addr0000".to_string(),
            2u128,
            Some(token("asset0001", 1)),
            asset0000_price,
            asset0001_collateral,
        )
        .unwrap();
    assert_eq!(res.withdraw_amount, 1u128);
    assert_eq!(
        res.effects,
        vec![Effect::TransferToken {
            token: "asset0001".to_string(),
            recipient: "addr0000".to_string(),
            amount: 1u128,
        }]
    );
}
