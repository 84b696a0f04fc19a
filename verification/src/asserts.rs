//! The engine's precondition checks.
//!
//! Each check returns `Ok` exactly when the condition it guards holds, and a
//! typed rejection otherwise; the lifecycle operations call them before any
//! state is touched.

use vstd::prelude::*;

verus! {

use crate::asset::Asset;
use crate::asset::info_eq;
use crate::asset::asset_info_eq;
use crate::decimal::DECIMAL_FRACTIONAL;
use crate::decimal::Decimal;
use crate::error::ContractError;
use crate::state::AssetConfig;
use crate::state::CollateralInfo;
use crate::state::MIN_CR_ALLOWED_ATOMICS;
use crate::state::Position;

/// Rejects a zero amount or a collateral identity differing from the position's.
pub fn assert_collateral(position: &Position, collateral: &Asset) -> (r: Result<
    (),
    ContractError,
>)
    ensures
        r is Ok <==> (info_eq(collateral.info, position.collateral.info) && collateral.amount > 0),
        r is Err ==> r->Err_0 == ContractError::WrongCollateral,
{
    if !asset_info_eq(&collateral.info, &position.collateral.info) || collateral.amount == 0 {
        return Err(ContractError::WrongCollateral);
    }
    Ok(())
}

/// Rejects a zero amount or an asset identity differing from the position's.
pub fn assert_asset(position: &Position, asset: &Asset) -> (r: Result<(), ContractError>)
    ensures
        r is Ok <==> (info_eq(asset.info, position.asset.info) && asset.amount > 0),
        r is Err ==> r->Err_0 == ContractError::WrongAsset,
{
    if !asset_info_eq(&asset.info, &position.asset.info) || asset.amount == 0 {
        return Err(ContractError::WrongAsset);
    }
    Ok(())
}

/// Rejects an asset that was deprecated by a migration.
pub fn assert_migrated_asset(asset_config: &AssetConfig) -> (r: Result<(), ContractError>)
    ensures
        r is Ok <==> asset_config.end_price is None,
        r is Err ==> r->Err_0 == ContractError::AssetMigrated,
{
    if asset_config.end_price.is_some() {
        return Err(ContractError::AssetMigrated);
    }
    Ok(())
}

/// Rejects collateral that the collateral oracle marked revoked; otherwise
/// hands back its price and multiplier.
pub fn assert_revoked_collateral(collateral_info: CollateralInfo) -> (r: Result<
    (Decimal, Decimal),
    ContractError,
>)
    ensures
        r is Ok <==> !collateral_info.is_revoked,
        r is Ok ==> r->Ok_0 == (collateral_info.price, collateral_info.multiplier),
        r is Err ==> r->Err_0 == ContractError::CollateralRevoked,
{
    if collateral_info.is_revoked {
        return Err(ContractError::CollateralRevoked);
    }
    Ok((collateral_info.price, collateral_info.multiplier))
}

/// Rejects a minimum collateral ratio below the protocol floor of 1.1.
pub fn assert_min_collateral_ratio(min_collateral_ratio: Decimal) -> (r: Result<
    (),
    ContractError,
>)
    ensures
        r is Ok <==> min_collateral_ratio.atomics >= MIN_CR_ALLOWED_ATOMICS,
        r is Err ==> r->Err_0 == ContractError::MinCollateralRatioTooLow,
{
    if min_collateral_ratio.atomics < MIN_CR_ALLOWED_ATOMICS {
        Err(ContractError::MinCollateralRatioTooLow)
    } else {
        Ok(())
    }
}

/// Rejects a protocol fee rate of 1 or more; otherwise hands the rate back.
pub fn assert_protocol_fee(protocol_fee_rate: Decimal) -> (r: Result<Decimal, ContractError>)
    ensures
        r is Ok <==> protocol_fee_rate.atomics < DECIMAL_FRACTIONAL,
        r is Ok ==> r->Ok_0 == protocol_fee_rate,
        r is Err ==> r->Err_0 == ContractError::InvalidProtocolFeeRate,
{
    if protocol_fee_rate.atomics >= DECIMAL_FRACTIONAL {
        Err(ContractError::InvalidProtocolFeeRate)
    } else {
        Ok(protocol_fee_rate)
    }
}

} // verus!
