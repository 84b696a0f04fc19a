//! The typed rejections of the engine.
//!
//! Every failing operation returns one of these variants and leaves the
//! engine state untouched. `message` renders the human-readable reason the
//! host reports to the caller.

use vstd::prelude::*;

verus! {

/// Why an operation was rejected.
#[derive(Clone, Copy, PartialEq, Eq, Structural, Debug)]
pub enum ContractError {
    /// The caller may not perform this operation.
    Unauthorized,
    /// A synthetic asset was registered under an identity already in use.
    AssetAlreadyRegistered,
    /// A minimum collateral ratio below the protocol floor of 1.1.
    MinCollateralRatioTooLow,
    /// A protocol fee rate of 1 or more.
    InvalidProtocolFeeRate,
    /// The synthetic asset is not registered.
    AssetNotFound,
    /// No position exists under the given index.
    PositionNotFound,
    /// The operation is not allowed for a deprecated (migrated) asset.
    AssetMigrated,
    /// The collateral asset was revoked by the collateral oracle.
    CollateralRevoked,
    /// Zero collateral, or a collateral identity differing from the position's.
    WrongCollateral,
    /// Zero asset amount, or an asset identity differing from the position's.
    WrongAsset,
    /// Opening with a chosen ratio below the asset's minimum.
    OpenRatioTooLow,
    /// Minting would push the ratio below the asset's minimum.
    MintRatioTooLow,
    /// Withdrawing would push the ratio below the asset's minimum.
    WithdrawRatioTooLow,
    /// Burning more than the position's outstanding minted amount.
    BurnExceedsMinted,
    /// Withdrawing more collateral than the position holds.
    WithdrawExceedsCollateral,
    /// A price or ratio computation divided by zero.
    DivideByZero,
    /// A computed amount or index does not fit in 128 bits.
    Overflow,
}

impl ContractError {
    /// The human-readable reason carried by the rejection.
    pub fn message(&self) -> (r: &'static str)
        ensures
            r@ == self.spec_message(),
    {
        match self {
            ContractError::Unauthorized => "unauthorized",
            ContractError::AssetAlreadyRegistered => "Asset was already registered",
            ContractError::MinCollateralRatioTooLow => "min_collateral_ratio must be bigger or equal than 1.1",
            ContractError::InvalidProtocolFeeRate => "protocol_fee_rate must be smaller than 1",
            ContractError::AssetNotFound => "Asset is not registered",
            ContractError::PositionNotFound => "Position is not found",
            ContractError::AssetMigrated => "Operation is not allowed for the deprecated asset",
            ContractError::CollateralRevoked => "The collateral asset provided is no longer valid",
            ContractError::WrongCollateral => "Wrong collateral",
            ContractError::WrongAsset => "Wrong asset",
            ContractError::OpenRatioTooLow => "Can not open a position with low collateral ratio than minimum",
            ContractError::MintRatioTooLow => "Cannot mint asset over than min collateral ratio",
            ContractError::WithdrawRatioTooLow => "Cannot withdraw collateral over than minimum collateral ratio",
            ContractError::BurnExceedsMinted => "Cannot burn asset more than you mint",
            ContractError::WithdrawExceedsCollateral => "Cannot withdraw more than you provide",
            ContractError::DivideByZero => "Divide by zero",
            ContractError::Overflow => "Amount overflow",
        }
    }

    /// The character sequence `message` returns.
    pub open spec fn spec_message(&self) -> Seq<char> {
        match self {
            ContractError::Unauthorized => "unauthorized"@,
            ContractError::AssetAlreadyRegistered => "Asset was already registered"@,
            ContractError::MinCollateralRatioTooLow => "min_collateral_ratio must be bigger or equal than 1.1"@,
            ContractError::InvalidProtocolFeeRate => "protocol_fee_rate must be smaller than 1"@,
            ContractError::AssetNotFound => "Asset is not registered"@,
            ContractError::PositionNotFound => "Position is not found"@,
            ContractError::AssetMigrated => "Operation is not allowed for the deprecated asset"@,
            ContractError::CollateralRevoked => "The collateral asset provided is no longer valid"@,
            ContractError::WrongCollateral => "Wrong collateral"@,
            ContractError::WrongAsset => "Wrong asset"@,
            ContractError::OpenRatioTooLow => "Can not open a position with low collateral ratio than minimum"@,
            ContractError::MintRatioTooLow => "Cannot mint asset over than min collateral ratio"@,
            ContractError::WithdrawRatioTooLow => "Cannot withdraw collateral over than minimum collateral ratio"@,
            ContractError::BurnExceedsMinted => "Cannot burn asset more than you mint"@,
            ContractError::WithdrawExceedsCollateral => "Cannot withdraw more than you provide"@,
            ContractError::DivideByZero => "Divide by zero"@,
            ContractError::Overflow => "Amount overflow"@,
        }
    }
}

} // verus!
