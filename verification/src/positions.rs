//! The position lifecycle engine.
//!
//! Opening, resizing and closing a collateralized debt position all re-derive
//! the position's collateral ratio from prices current at call time. The
//! ratio comparison and the minted/fee amounts are specified as exact
//! unbounded-integer formulas over the fixed-point atomics, where the 10^18
//! scale factors cancel:
//!
//! ```text
//! ratio ok      <==>  collateral * col_price * multiplier
//!                         >= asset_amount * asset_price * min_ratio
//! mint amount    ==   floor(collateral * col_price * multiplier
//!                         / (asset_price * chosen_ratio))
//! protocol fee   ==   min(collateral,
//!                         floor(burn * asset_price * fee_rate / col_price))
//! ```
//!
//! Oracle lookups happen outside the engine: each operation takes the
//! oracle's answers as arguments and decides internally whether a frozen
//! end price or the base currency's unit price overrides them, so the
//! decision logic is verified for every value the oracle could return.

use vstd::prelude::*;

verus! {

use vstd::arithmetic::div_mod::lemma_fundamental_div_mod;
use crate::arith::div3_by_2;
use crate::arith::lt3;
use crate::arith::mul3_u128;
use crate::arith::mul_u128;
use crate::asset::Asset;
use crate::asset::AssetInfo;
use crate::decimal::DECIMAL_FRACTIONAL;
use crate::decimal::Decimal;
use crate::error::ContractError;
use crate::state::AssetConfig;
use crate::state::CollateralInfo;
use crate::state::Config;
use crate::asset::info_eq;
use crate::state::MintEngine;
use crate::state::Position;
use crate::state::find_asset_idx;
use crate::state::find_position_idx;
use crate::state::spec_find_asset;
use crate::state::spec_find_position;

/// An outbound instruction the host executes after the operation commits.
#[derive(PartialEq, Eq, Debug)]
pub enum Effect {
    /// Mint `amount` units of the synthetic token to `recipient`.
    MintTokens { token: String, recipient: String, amount: u128 },
    /// Burn `amount` units of the synthetic token.
    BurnTokens { token: String, amount: u128 },
    /// Transfer `amount` of the native currency `denom` to `recipient`.
    TransferNative { denom: String, recipient: String, amount: u128 },
    /// Transfer `amount` of the token balance to `recipient`.
    TransferToken { token: String, recipient: String, amount: u128 },
}

/// The frozen end price recorded for the asset, if it was migrated.
pub open spec fn spec_fixed_price(assets: Seq<AssetConfig>, info: AssetInfo) -> Option<Decimal> {
    match info {
        AssetInfo::Token { contract_addr } => match spec_find_asset(assets, contract_addr@) {
            Some(a) => a.end_price,
            None => None,
        },
        AssetInfo::NativeToken { .. } => None,
    }
}

/// Whether the asset is the configured base currency.
pub open spec fn spec_is_base(config: Config, info: AssetInfo) -> bool {
    match info {
        AssetInfo::NativeToken { denom } => denom@ == config.base_denom@,
        AssetInfo::Token { .. } => false,
    }
}

/// The price the engine uses for an asset: a frozen end price overrides the
/// oracle entirely, the base currency is worth one, anything else is priced
/// by the oracle.
pub open spec fn spec_asset_price(
    assets: Seq<AssetConfig>,
    config: Config,
    info: AssetInfo,
    oracle_price: Decimal,
) -> Decimal {
    match spec_fixed_price(assets, info) {
        Some(p) => p,
        None => if spec_is_base(config, info) {
            Decimal { atomics: DECIMAL_FRACTIONAL }
        } else {
            oracle_price
        },
    }
}

/// What the engine takes the collateral to be worth: the base currency has
/// unit price and is never revoked; a migrated synthetic used as collateral
/// is priced at its end price and counts as revoked; anything else is what
/// the collateral oracle reported.
pub open spec fn spec_collateral_info(
    assets: Seq<AssetConfig>,
    config: Config,
    info: AssetInfo,
    oracle: CollateralInfo,
) -> CollateralInfo {
    if spec_is_base(config, info) {
        CollateralInfo {
            price: Decimal { atomics: DECIMAL_FRACTIONAL },
            multiplier: Decimal { atomics: DECIMAL_FRACTIONAL },
            is_revoked: false,
        }
    } else {
        match spec_fixed_price(assets, info) {
            Some(p) => CollateralInfo { price: p, multiplier: oracle.multiplier, is_revoked: true },
            None => oracle,
        }
    }
}

/// The value of the collateral side, scaled by 10^36.
pub open spec fn spec_collateral_value(col_amt: u128, cp: Decimal, mult: Decimal) -> int {
    col_amt * cp.atomics * mult.atomics
}

/// The value the minted assets must stay covered by, scaled by 10^36.
pub open spec fn spec_required_value(asset_amt: u128, ap: Decimal, mcr: Decimal) -> int {
    asset_amt * ap.atomics * mcr.atomics
}

/// Whether the collateral ratio is at or above the required minimum. A
/// position with no minted assets has infinite ratio and always passes.
pub open spec fn spec_ratio_ok(
    col_amt: u128,
    cp: Decimal,
    mult: Decimal,
    asset_amt: u128,
    ap: Decimal,
    mcr: Decimal,
) -> bool {
    spec_collateral_value(col_amt, cp, mult) >= spec_required_value(asset_amt, ap, mcr)
}

/// How many asset units a fresh position mints: the collateral's value
/// divided by the asset price times the chosen ratio, rounded down.
pub open spec fn spec_mint_amount(
    col_amt: u128,
    cp: Decimal,
    mult: Decimal,
    ap: Decimal,
    ratio: Decimal,
) -> int {
    (col_amt * cp.atomics * mult.atomics) / (ap.atomics * ratio.atomics)
}

/// The burn fee in collateral units: the burned value times the fee rate,
/// converted at the collateral price and rounded down, capped at the
/// position's collateral.
pub open spec fn spec_protocol_fee(
    burn_amt: u128,
    ap: Decimal,
    fee_rate: Decimal,
    cp: Decimal,
    col_amt: u128,
) -> int {
    let uncapped = (burn_amt * ap.atomics * fee_rate.atomics) / (cp.atomics * DECIMAL_FRACTIONAL);
    if uncapped > col_amt {
        col_amt as int
    } else {
        uncapped
    }
}

/// The least collateral that keeps `asset_amt` minted units at or above the
/// required ratio: the required value divided by the collateral's unit
/// value, rounded up.
pub open spec fn spec_required_collateral(
    asset_amt: u128,
    ap: Decimal,
    mcr: Decimal,
    cp: Decimal,
    mult: Decimal,
) -> int {
    let n = asset_amt * ap.atomics * mcr.atomics;
    let d = cp.atomics * mult.atomics;
    n / d + if n % d == 0 {
        0int
    } else {
        1int
    }
}

/// Decides whether the collateral value is strictly below the required
/// value, comparing the exact 384-bit products.
pub fn ratio_below(
    col_amt: u128,
    cp: Decimal,
    mult: Decimal,
    asset_amt: u128,
    ap: Decimal,
    mcr: Decimal,
) -> (r: bool)
    ensures
        r == !spec_ratio_ok(col_amt, cp, mult, asset_amt, ap, mcr),
{
    let lhs = mul3_u128(col_amt, cp.atomics, mult.atomics);
    let rhs = mul3_u128(asset_amt, ap.atomics, mcr.atomics);
    lt3(lhs, rhs)
}

/// Computes `spec_mint_amount` exactly, rejecting a zero divisor and a
/// quotient beyond 128 bits.
pub fn compute_mint_amount(
    col_amt: u128,
    cp: Decimal,
    mult: Decimal,
    ap: Decimal,
    ratio: Decimal,
) -> (r: Result<u128, ContractError>)
    ensures
        match r {
            Ok(m) => ap.atomics * ratio.atomics > 0 && m == spec_mint_amount(
                col_amt,
                cp,
                mult,
                ap,
                ratio,
            ),
            Err(e) => if ap.atomics == 0 || ratio.atomics == 0 {
                e == ContractError::DivideByZero
            } else {
                e == ContractError::Overflow && spec_mint_amount(col_amt, cp, mult, ap, ratio)
                    > u128::MAX
            },
        },
{
    if ap.atomics == 0 || ratio.atomics == 0 {
        return Err(ContractError::DivideByZero);
    }
    let den = mul_u128(ap.atomics, ratio.atomics);
    proof {
        assert(ap.atomics * ratio.atomics > 0) by (nonlinear_arith)
            requires
                ap.atomics > 0,
                ratio.atomics > 0,
        ;
    }
    let num = mul3_u128(col_amt, cp.atomics, mult.atomics);
    match div3_by_2(num, den) {
        Some(q) => Ok(q.0),
        None => Err(ContractError::Overflow),
    }
}

/// Computes `spec_protocol_fee` exactly, rejecting a zero collateral price.
pub fn compute_protocol_fee(
    burn_amt: u128,
    ap: Decimal,
    fee_rate: Decimal,
    cp: Decimal,
    col_amt: u128,
) -> (r: Result<u128, ContractError>)
    ensures
        match r {
            Ok(f) => cp.atomics > 0 && f == spec_protocol_fee(burn_amt, ap, fee_rate, cp, col_amt)
                && f <= col_amt,
            Err(e) => e == ContractError::DivideByZero && cp.atomics == 0,
        },
{
    if cp.atomics == 0 {
        return Err(ContractError::DivideByZero);
    }
    let den = mul_u128(cp.atomics, DECIMAL_FRACTIONAL);
    proof {
        assert(cp.atomics * DECIMAL_FRACTIONAL > 0) by (nonlinear_arith)
            requires
                cp.atomics > 0,
        ;
    }
    let num = mul3_u128(burn_amt, ap.atomics, fee_rate.atomics);
    match div3_by_2(num, den) {
        Some(q) => if q.0 > col_amt {
            Ok(col_amt)
        } else {
            Ok(q.0)
        },
        None => Ok(col_amt),
    }
}

/// Computes the most collateral the position can release while the rest
/// still covers `asset_amt` minted units, rejecting a zero collateral unit
/// value, and rejecting a position already below the required ratio.
pub fn compute_max_withdraw(
    col_amt: u128,
    cp: Decimal,
    mult: Decimal,
    asset_amt: u128,
    ap: Decimal,
    mcr: Decimal,
) -> (r: Result<u128, ContractError>)
    requires
        asset_amt > 0,
    ensures
        match r {
            Ok(w) => cp.atomics * mult.atomics > 0 && w == col_amt - spec_required_collateral(
                asset_amt,
                ap,
                mcr,
                cp,
                mult,
            ) && spec_required_collateral(asset_amt, ap, mcr, cp, mult) <= col_amt,
            Err(e) => if cp.atomics == 0 || mult.atomics == 0 {
                e == ContractError::DivideByZero
            } else {
                e == ContractError::WithdrawRatioTooLow && spec_required_collateral(
                    asset_amt,
                    ap,
                    mcr,
                    cp,
                    mult,
                ) > col_amt
            },
        },
{
    if cp.atomics == 0 || mult.atomics == 0 {
        return Err(ContractError::DivideByZero);
    }
    let den = mul_u128(cp.atomics, mult.atomics);
    proof {
        assert(cp.atomics * mult.atomics > 0) by (nonlinear_arith)
            requires
                cp.atomics > 0,
                mult.atomics > 0,
        ;
    }
    let num = mul3_u128(asset_amt, ap.atomics, mcr.atomics);
    match div3_by_2(num, den) {
        Some(q) => {
            let need = if q.1 {
                q.0
            } else {
                match q.0.checked_add(1) {
                    Some(n) => n,
                    None => {
                        // The required collateral exceeds u128::MAX, hence
                        // the position's collateral.
                        return Err(ContractError::WithdrawRatioTooLow);
                    },
                }
            };
            if need > col_amt {
                Err(ContractError::WithdrawRatioTooLow)
            } else {
                Ok(col_amt - need)
            }
        },
        None => {
            // Even the floor of the required collateral exceeds u128::MAX.
            Err(ContractError::WithdrawRatioTooLow)
        },
    }
}

/// What `open_position` returns on success.
#[derive(PartialEq, Eq, Debug)]
pub struct OpenPositionResult {
    /// The index the new position was stored under.
    pub position_idx: u128,
    /// How many asset units were minted to the caller.
    pub mint_amount: u128,
    /// The mint instruction for the host.
    pub effects: Vec<Effect>,
}

/// What `mint` returns on success.
#[derive(PartialEq, Eq, Debug)]
pub struct MintResult {
    /// How many asset units were minted to the caller.
    pub mint_amount: u128,
    /// The mint instruction for the host.
    pub effects: Vec<Effect>,
}

/// What `withdraw` returns on success.
#[derive(PartialEq, Eq, Debug)]
pub struct WithdrawResult {
    /// How much collateral left the position.
    pub withdraw_amount: u128,
    /// The transfer instruction for the host.
    pub effects: Vec<Effect>,
}

/// What `burn` returns on success.
#[derive(PartialEq, Eq, Debug)]
pub struct BurnResult {
    /// How many asset units were burned.
    pub burn_amount: u128,
    /// The fee charged, in collateral units.
    pub protocol_fee: u128,
    /// The burn instruction, and the fee transfer when the fee is non-zero.
    pub effects: Vec<Effect>,
}

/// The registry entry for the named asset, when the identity is a token.
pub open spec fn spec_find_asset_info(assets: Seq<AssetConfig>, info: AssetInfo) -> Option<
    AssetConfig,
> {
    match info {
        AssetInfo::Token { contract_addr } => spec_find_asset(assets, contract_addr@),
        AssetInfo::NativeToken { .. } => None,
    }
}

/// The token or denomination string inside an asset identity.
pub open spec fn spec_info_name(info: AssetInfo) -> String {
    match info {
        AssetInfo::Token { contract_addr } => contract_addr,
        AssetInfo::NativeToken { denom } => denom,
    }
}

/// What `open_position` decides: the minted amount, or the exact rejection,
/// with the checks made in this order.
pub open spec fn spec_open_decision(
    s: MintEngine,
    collateral: Asset,
    asset_info: AssetInfo,
    ratio: Decimal,
    oracle_asset_price: Decimal,
    oracle_collateral: CollateralInfo,
) -> Result<u128, ContractError> {
    if collateral.amount == 0 {
        Err(ContractError::WrongCollateral)
    } else {
        match spec_find_asset_info(s.assets@, asset_info) {
            None => Err(ContractError::AssetNotFound),
            Some(a) => if a.end_price is Some {
                Err(ContractError::AssetMigrated)
            } else if ratio.atomics < a.min_collateral_ratio.atomics {
                Err(ContractError::OpenRatioTooLow)
            } else {
                let ci = spec_collateral_info(s.assets@, s.config, collateral.info, oracle_collateral);
                if ci.is_revoked {
                    Err(ContractError::CollateralRevoked)
                } else if s.position_idx == u128::MAX {
                    Err(ContractError::Overflow)
                } else {
                    let ap = spec_asset_price(s.assets@, s.config, asset_info, oracle_asset_price);
                    if ap.atomics == 0 || ratio.atomics == 0 {
                        Err(ContractError::DivideByZero)
                    } else {
                        let m = spec_mint_amount(collateral.amount, ci.price, ci.multiplier, ap, ratio);
                        if m > u128::MAX {
                            Err(ContractError::Overflow)
                        } else {
                            Ok(m as u128)
                        }
                    }
                }
            },
        }
    }
}

/// A minted amount chosen under the asset's minimum ratio keeps the new
/// position at or above that minimum.
pub proof fn lemma_open_ratio_safe(
    col_amt: u128,
    cp: Decimal,
    mult: Decimal,
    ap: Decimal,
    ratio: Decimal,
    mcr: Decimal,
    m: u128,
)
    requires
        m == spec_mint_amount(col_amt, cp, mult, ap, ratio),
        ap.atomics * ratio.atomics > 0,
        mcr.atomics <= ratio.atomics,
    ensures
        spec_ratio_ok(col_amt, cp, mult, m, ap, mcr),
{
    let n = col_amt * cp.atomics * mult.atomics;
    let d = ap.atomics * ratio.atomics;
    lemma_fundamental_div_mod(n, d);
    assert(m * d <= n) by (nonlinear_arith)
        requires
            n == d * (n / d) + n % d,
            n % d >= 0,
            m == n / d,
    ;
    assert(m * ap.atomics * mcr.atomics <= m * d) by (nonlinear_arith)
        requires
            d == ap.atomics * ratio.atomics,
            mcr.atomics <= ratio.atomics,
            m >= 0,
            ap.atomics >= 0,
    ;
}

/// Collateral at or above `spec_required_collateral` keeps the ratio at or
/// above the required minimum.
pub proof fn lemma_required_collateral_sound(
    col_amt: u128,
    cp: Decimal,
    mult: Decimal,
    asset_amt: u128,
    ap: Decimal,
    mcr: Decimal,
)
    requires
        cp.atomics * mult.atomics > 0,
        col_amt >= spec_required_collateral(asset_amt, ap, mcr, cp, mult),
    ensures
        spec_ratio_ok(col_amt, cp, mult, asset_amt, ap, mcr),
{
    let n = asset_amt * ap.atomics * mcr.atomics;
    let d = cp.atomics * mult.atomics;
    lemma_fundamental_div_mod(n, d);
    let need = spec_required_collateral(asset_amt, ap, mcr, cp, mult);
    assert(need * d >= n) by (nonlinear_arith)
        requires
            n == d * (n / d) + n % d,
            0 <= n % d < d,
            need == n / d + if n % d == 0 {
                0int
            } else {
                1int
            },
    ;
    assert(col_amt * d >= need * d) by (nonlinear_arith)
        requires
            col_amt >= need,
            d > 0,
    ;
    assert(col_amt * cp.atomics * mult.atomics == col_amt * d) by (nonlinear_arith)
        requires
            d == cp.atomics * mult.atomics,
    ;
}

/// `spec_required_collateral` is tight: with less collateral the ratio
/// falls below the required minimum. Together with
/// `lemma_required_collateral_sound` this makes the amount a `withdraw`
/// without an explicit amount releases the maximum the minimum ratio
/// admits.
pub proof fn lemma_required_collateral_tight(
    col_amt: u128,
    cp: Decimal,
    mult: Decimal,
    asset_amt: u128,
    ap: Decimal,
    mcr: Decimal,
)
    requires
        cp.atomics * mult.atomics > 0,
        col_amt < spec_required_collateral(asset_amt, ap, mcr, cp, mult),
    ensures
        !spec_ratio_ok(col_amt, cp, mult, asset_amt, ap, mcr),
{
    let n = asset_amt * ap.atomics * mcr.atomics;
    let d = cp.atomics * mult.atomics;
    lemma_fundamental_div_mod(n, d);
    let need = spec_required_collateral(asset_amt, ap, mcr, cp, mult);
    assert((need - 1) * d < n) by (nonlinear_arith)
        requires
            n == d * (n / d) + n % d,
            0 <= n % d < d,
            d > 0,
            need == n / d + if n % d == 0 {
                0int
            } else {
                1int
            },
    ;
    assert(col_amt * d <= (need - 1) * d) by (nonlinear_arith)
        requires
            col_amt <= need - 1,
            d > 0,
    ;
    assert(col_amt * cp.atomics * mult.atomics == col_amt * d) by (nonlinear_arith)
        requires
            d == cp.atomics * mult.atomics,
    ;
}

/// What `deposit` decides: the grown position, or the exact rejection, with
/// the checks made in this order.
pub open spec fn spec_deposit_decision(
    s: MintEngine,
    sender: String,
    position_idx: u128,
    collateral: Asset,
) -> Result<Position, ContractError> {
    match spec_find_position(s.positions@, position_idx) {
        None => Err(ContractError::PositionNotFound),
        Some(p) => if sender@ != p.owner@ {
            Err(ContractError::Unauthorized)
        } else if !(info_eq(collateral.info, p.collateral.info) && collateral.amount > 0) {
            Err(ContractError::WrongCollateral)
        } else {
            match spec_find_asset_info(s.assets@, p.asset.info) {
                None => Err(ContractError::AssetNotFound),
                Some(a) => if a.end_price is Some {
                    Err(ContractError::AssetMigrated)
                } else if p.collateral.amount + collateral.amount > u128::MAX {
                    Err(ContractError::Overflow)
                } else {
                    Ok(
                        Position {
                            idx: p.idx,
                            owner: p.owner,
                            collateral: Asset {
                                info: p.collateral.info,
                                amount: (p.collateral.amount + collateral.amount) as u128,
                            },
                            asset: p.asset,
                        },
                    )
                },
            }
        },
    }
}

/// The position after releasing `w` units of collateral.
pub open spec fn spec_withdrawn(p: Position, w: u128) -> Position {
    Position {
        idx: p.idx,
        owner: p.owner,
        collateral: Asset { info: p.collateral.info, amount: (p.collateral.amount - w) as u128 },
        asset: p.asset,
    }
}

/// The transfer instruction for an amount of the given asset.
pub open spec fn spec_transfer_effect(info: AssetInfo, recipient: String, amount: u128) -> Effect {
    match info {
        AssetInfo::NativeToken { denom } => Effect::TransferNative { denom, recipient, amount },
        AssetInfo::Token { contract_addr } => Effect::TransferToken {
            token: contract_addr,
            recipient,
            amount,
        },
    }
}

/// Builds `spec_transfer_effect`.
fn transfer_effect(info: &AssetInfo, recipient: String, amount: u128) -> (r: Effect)
    ensures
        r == spec_transfer_effect(*info, recipient, amount),
{
    match info {
        AssetInfo::NativeToken { denom } => Effect::TransferNative {
            denom: denom.clone(),
            recipient,
            amount,
        },
        AssetInfo::Token { contract_addr } => Effect::TransferToken {
            token: contract_addr.clone(),
            recipient,
            amount,
        },
    }
}

/// Clones the token or denomination string inside an asset identity.
fn info_name(info: &AssetInfo) -> (r: String)
    ensures
        r == spec_info_name(*info),
{
    match info {
        AssetInfo::Token { contract_addr } => contract_addr.clone(),
        AssetInfo::NativeToken { denom } => denom.clone(),
    }
}

/// What `withdraw` decides: the shrunk position and the withdrawn amount,
/// or the exact rejection, with the checks made in this order. With an
/// explicit amount the remaining collateral must keep the ratio at or above
/// the asset's minimum, except for a migrated asset, which admits any
/// amount up to the full collateral. Without an amount the engine releases
/// the most collateral that keeps the ratio at the minimum; for a migrated
/// asset or a fully repaid position that is the full collateral.
pub open spec fn spec_withdraw_decision(
    s: MintEngine,
    sender: String,
    position_idx: u128,
    collateral: Option<Asset>,
    oracle_asset_price: Decimal,
    oracle_collateral: CollateralInfo,
) -> Result<(Position, u128), ContractError> {
    match spec_find_position(s.positions@, position_idx) {
        None => Err(ContractError::PositionNotFound),
        Some(p) => if sender@ != p.owner@ {
            Err(ContractError::Unauthorized)
        } else {
            match spec_find_asset_info(s.assets@, p.asset.info) {
                None => Err(ContractError::AssetNotFound),
                Some(a) => match collateral {
                    Some(c) => if !(info_eq(c.info, p.collateral.info) && c.amount > 0) {
                        Err(ContractError::WrongCollateral)
                    } else if c.amount > p.collateral.amount {
                        Err(ContractError::WithdrawExceedsCollateral)
                    } else if a.end_price is Some {
                        Ok((spec_withdrawn(p, c.amount), c.amount))
                    } else {
                        let ci = spec_collateral_info(
                            s.assets@,
                            s.config,
                            p.collateral.info,
                            oracle_collateral,
                        );
                        let ap = spec_asset_price(
                            s.assets@,
                            s.config,
                            p.asset.info,
                            oracle_asset_price,
                        );
                        if !spec_ratio_ok(
                            (p.collateral.amount - c.amount) as u128,
                            ci.price,
                            ci.multiplier,
                            p.asset.amount,
                            ap,
                            a.min_collateral_ratio,
                        ) {
                            Err(ContractError::WithdrawRatioTooLow)
                        } else {
                            Ok((spec_withdrawn(p, c.amount), c.amount))
                        }
                    },
                    None => if a.end_price is Some {
                        Ok((spec_withdrawn(p, p.collateral.amount), p.collateral.amount))
                    } else if p.asset.amount == 0 {
                        Ok((spec_withdrawn(p, p.collateral.amount), p.collateral.amount))
                    } else {
                        let ci = spec_collateral_info(
                            s.assets@,
                            s.config,
                            p.collateral.info,
                            oracle_collateral,
                        );
                        let ap = spec_asset_price(
                            s.assets@,
                            s.config,
                            p.asset.info,
                            oracle_asset_price,
                        );
                        if ci.price.atomics == 0 || ci.multiplier.atomics == 0 {
                            Err(ContractError::DivideByZero)
                        } else {
                            let need = spec_required_collateral(
                                p.asset.amount,
                                ap,
                                a.min_collateral_ratio,
                                ci.price,
                                ci.multiplier,
                            );
                            if need > p.collateral.amount {
                                Err(ContractError::WithdrawRatioTooLow)
                            } else {
                                Ok(
                                    (
                                        spec_withdrawn(p, (p.collateral.amount - need) as u128),
                                        (p.collateral.amount - need) as u128,
                                    ),
                                )
                            }
                        }
                    },
                },
            }
        },
    }
}

/// What `mint` decides: the grown position, or the exact rejection, with
/// the checks made in this order. The projected ratio with the increased
/// asset amount must stay at or above the asset's minimum.
pub open spec fn spec_mint_decision(
    s: MintEngine,
    sender: String,
    position_idx: u128,
    asset: Asset,
    oracle_asset_price: Decimal,
    oracle_collateral: CollateralInfo,
) -> Result<Position, ContractError> {
    match spec_find_position(s.positions@, position_idx) {
        None => Err(ContractError::PositionNotFound),
        Some(p) => if sender@ != p.owner@ {
            Err(ContractError::Unauthorized)
        } else if !(info_eq(asset.info, p.asset.info) && asset.amount > 0) {
            Err(ContractError::WrongAsset)
        } else {
            match spec_find_asset_info(s.assets@, p.asset.info) {
                None => Err(ContractError::AssetNotFound),
                Some(a) => if a.end_price is Some {
                    Err(ContractError::AssetMigrated)
                } else {
                    let ci = spec_collateral_info(
                        s.assets@,
                        s.config,
                        p.collateral.info,
                        oracle_collateral,
                    );
                    if ci.is_revoked {
                        Err(ContractError::CollateralRevoked)
                    } else if p.asset.amount + asset.amount > u128::MAX {
                        Err(ContractError::Overflow)
                    } else {
                        let new_amount = (p.asset.amount + asset.amount) as u128;
                        let ap = spec_asset_price(
                            s.assets@,
                            s.config,
                            p.asset.info,
                            oracle_asset_price,
                        );
                        if !spec_ratio_ok(
                            p.collateral.amount,
                            ci.price,
                            ci.multiplier,
                            new_amount,
                            ap,
                            a.min_collateral_ratio,
                        ) {
                            Err(ContractError::MintRatioTooLow)
                        } else {
                            Ok(
                                Position {
                                    idx: p.idx,
                                    owner: p.owner,
                                    collateral: p.collateral,
                                    asset: Asset { info: p.asset.info, amount: new_amount },
                                },
                            )
                        }
                    }
                },
            }
        },
    }
}

/// What `burn` decides: the shrunk position and the protocol fee, or the
/// exact rejection, with the checks made in this order. Burning a migrated
/// asset stays legal and uses its frozen end price; the fee, denominated in
/// collateral units, is capped at the position's collateral.
pub open spec fn spec_burn_decision(
    s: MintEngine,
    sender: String,
    position_idx: u128,
    asset: Asset,
    oracle_asset_price: Decimal,
    oracle_collateral: CollateralInfo,
) -> Result<(Position, u128), ContractError> {
    match spec_find_position(s.positions@, position_idx) {
        None => Err(ContractError::PositionNotFound),
        Some(p) => if sender@ != p.owner@ {
            Err(ContractError::Unauthorized)
        } else if !(info_eq(asset.info, p.asset.info) && asset.amount > 0) {
            Err(ContractError::WrongAsset)
        } else if asset.amount > p.asset.amount {
            Err(ContractError::BurnExceedsMinted)
        } else {
            match spec_find_asset_info(s.assets@, p.asset.info) {
                None => Err(ContractError::AssetNotFound),
                Some(a) => {
                    let ap = spec_asset_price(
                        s.assets@,
                        s.config,
                        p.asset.info,
                        oracle_asset_price,
                    );
                    let ci = spec_collateral_info(
                        s.assets@,
                        s.config,
                        p.collateral.info,
                        oracle_collateral,
                    );
                    if ci.price.atomics == 0 {
                        Err(ContractError::DivideByZero)
                    } else {
                        let fee = spec_protocol_fee(
                            asset.amount,
                            ap,
                            s.config.protocol_fee_rate,
                            ci.price,
                            p.collateral.amount,
                        ) as u128;
                        Ok(
                            (
                                Position {
                                    idx: p.idx,
                                    owner: p.owner,
                                    collateral: Asset {
                                        info: p.collateral.info,
                                        amount: (p.collateral.amount - fee) as u128,
                                    },
                                    asset: Asset {
                                        info: p.asset.info,
                                        amount: (p.asset.amount - asset.amount) as u128,
                                    },
                                },
                                fee,
                            ),
                        )
                    }
                },
            }
        },
    }
}

impl MintEngine {
    /// The price used for an asset: its frozen end price when it was
    /// migrated, one for the base currency, else what the price oracle
    /// reported.
    ///
    /// The oracle's answer is an argument so that the override decision is
    /// verified for every price the oracle could return.
    pub fn load_asset_price(&self, info: &AssetInfo, oracle_price: Decimal) -> (r: Decimal)
        ensures
            r == spec_asset_price(self.assets@, self.config, *info, oracle_price),
    {
        if let AssetInfo::Token { contract_addr } = info {
            if let Some(i) = find_asset_idx(&self.assets, contract_addr) {
                if let Some(p) = self.assets[i].end_price {
                    return p;
                }
            }
        }
        if let AssetInfo::NativeToken { denom } = info {
            if *denom == self.config.base_denom {
                return Decimal::one();
            }
        }
        oracle_price
    }

    /// The collateral's price, multiplier and revocation flag as the engine
    /// uses them: the base currency is worth one and never revoked, a
    /// migrated synthetic is priced at its end price and counts as revoked,
    /// anything else is what the collateral oracle reported.
    pub fn load_collateral_info(&self, info: &AssetInfo, oracle: CollateralInfo) -> (r:
        CollateralInfo)
        ensures
            r == spec_collateral_info(self.assets@, self.config, *info, oracle),
    {
        if let AssetInfo::NativeToken { denom } = info {
            if *denom == self.config.base_denom {
                return CollateralInfo {
                    price: Decimal::one(),
                    multiplier: Decimal::one(),
                    is_revoked: false,
                };
            }
        }
        if let AssetInfo::Token { contract_addr } = info {
            if let Some(i) = find_asset_idx(&self.assets, contract_addr) {
                if let Some(p) = self.assets[i].end_price {
                    return CollateralInfo {
                        price: p,
                        multiplier: oracle.multiplier,
                        is_revoked: true,
                    };
                }
            }
        }
        oracle
    }

    /// Opens a new position: locks the collateral and mints
    /// `floor(collateral value / (asset price * chosen ratio))` units of the
    /// synthetic asset to the caller. The chosen ratio must be at or above
    /// the asset's minimum, the asset must be registered and not migrated,
    /// and the collateral must not be revoked.
    pub fn open_position(
        &mut self,
        sender: String,
        collateral: Asset,
        asset_info: AssetInfo,
        collateral_ratio: Decimal,
        asset_oracle_price: Decimal,
        collateral_oracle_info: CollateralInfo,
    ) -> (r: Result<OpenPositionResult, ContractError>)
        requires
            old(self).wf(),
        ensures
            final(self).wf(),
            match spec_open_decision(
                *old(self),
                collateral,
                asset_info,
                collateral_ratio,
                asset_oracle_price,
                collateral_oracle_info,
            ) {
                Ok(m) => {
                    &&& r is Ok
                    &&& r->Ok_0.position_idx == old(self).position_idx
                    &&& r->Ok_0.mint_amount == m
                    &&& final(self).positions@ == old(self).positions@.push(
                        (Position {
                            idx: old(self).position_idx,
                            owner: sender,
                            collateral: collateral,
                            asset: (Asset { info: asset_info, amount: m }),
                        }),
                    )
                    &&& final(self).position_idx == old(self).position_idx + 1
                    &&& final(self).assets == old(self).assets
                    &&& final(self).config == old(self).config
                    &&& r->Ok_0.effects@ == seq![
                        (Effect::MintTokens {
                            token: spec_info_name(asset_info),
                            recipient: sender,
                            amount: m,
                        }),
                    ]
                },
                Err(e) => r == Err::<OpenPositionResult, ContractError>(e) && *final(self) == *old(
                    self,
                ),
            },
            // The new position starts at or above the asset's minimum ratio.
            r is Ok ==> ({
                let ci = spec_collateral_info(
                    old(self).assets@,
                    old(self).config,
                    collateral.info,
                    collateral_oracle_info,
                );
                let ap = spec_asset_price(
                    old(self).assets@,
                    old(self).config,
                    asset_info,
                    asset_oracle_price,
                );
                match spec_find_asset_info(old(self).assets@, asset_info) {
                    Some(a) => spec_ratio_ok(
                        collateral.amount,
                        ci.price,
                        ci.multiplier,
                        r->Ok_0.mint_amount,
                        ap,
                        a.min_collateral_ratio,
                    ),
                    None => false,
                }
            }),
    {
        if collateral.amount == 0 {
            return Err(ContractError::WrongCollateral);
        }
        let token_addr = match &asset_info {
            AssetInfo::Token { contract_addr } => contract_addr.clone(),
            AssetInfo::NativeToken { .. } => {
                return Err(ContractError::AssetNotFound);
            },
        };
        let ai = match find_asset_idx(&self.assets, &token_addr) {
            Some(i) => i,
            None => {
                return Err(ContractError::AssetNotFound);
            },
        };
        if self.assets[ai].end_price.is_some() {
            return Err(ContractError::AssetMigrated);
        }
        let mcr = self.assets[ai].min_collateral_ratio;
        if collateral_ratio.atomics < mcr.atomics {
            return Err(ContractError::OpenRatioTooLow);
        }
        let ci = self.load_collateral_info(&collateral.info, collateral_oracle_info);
        if ci.is_revoked {
            return Err(ContractError::CollateralRevoked);
        }
        if self.position_idx == u128::MAX {
            return Err(ContractError::Overflow);
        }
        let ap = self.load_asset_price(&asset_info, asset_oracle_price);
        let mint_amount = match compute_mint_amount(
            collateral.amount,
            ci.price,
            ci.multiplier,
            ap,
            collateral_ratio,
        ) {
            Ok(m) => m,
            Err(e) => {
                return Err(e);
            },
        };
        proof {
            lemma_open_ratio_safe(
                collateral.amount,
                ci.price,
                ci.multiplier,
                ap,
                collateral_ratio,
                mcr,
                mint_amount,
            );
        }
        let idx = self.position_idx;
        let recipient = sender.clone();
        let position = Position {
            idx,
            owner: sender,
            collateral,
            asset: Asset { info: asset_info, amount: mint_amount },
        };
        self.positions.push(position);
        self.position_idx = idx + 1;
        Ok(
            OpenPositionResult {
                position_idx: idx,
                mint_amount,
                effects: vec![
                    Effect::MintTokens { token: token_addr, recipient, amount: mint_amount },
                ],
            },
        )
    }

    /// Adds collateral to a position. Only the owner may do so, the added
    /// collateral must match the position's collateral identity, and the
    /// position's asset must not be migrated. No ratio check is needed:
    /// deposits only improve the ratio.
    pub fn deposit(&mut self, sender: String, position_idx: u128, collateral: Asset) -> (r: Result<
        (),
        ContractError,
    >)
        requires
            old(self).wf(),
        ensures
            final(self).wf(),
            match spec_deposit_decision(*old(self), sender, position_idx, collateral) {
                Ok(p2) => {
                    &&& r is Ok
                    &&& exists|i: int|
                        0 <= i < old(self).positions@.len() && (#[trigger] old(
                            self,
                        ).positions@[i]).idx == position_idx && final(self).positions@ == old(
                            self,
                        ).positions@.update(i, p2)
                    &&& final(self).assets == old(self).assets
                    &&& final(self).config == old(self).config
                    &&& final(self).position_idx == old(self).position_idx
                },
                Err(e) => r == Err::<(), ContractError>(e) && *final(self) == *old(self),
            },
    {
        let pi = match find_position_idx(&self.positions, position_idx) {
            Some(i) => i,
            None => {
                return Err(ContractError::PositionNotFound);
            },
        };
        if sender != self.positions[pi].owner {
            return Err(ContractError::Unauthorized);
        }
        if let Err(e) = crate::asserts::assert_collateral(&self.positions[pi], &collateral) {
            return Err(e);
        }
        let asset_token = match &self.positions[pi].asset.info {
            AssetInfo::Token { contract_addr } => contract_addr.clone(),
            AssetInfo::NativeToken { .. } => {
                return Err(ContractError::AssetNotFound);
            },
        };
        let ai = match find_asset_idx(&self.assets, &asset_token) {
            Some(i) => i,
            None => {
                return Err(ContractError::AssetNotFound);
            },
        };
        if self.assets[ai].end_price.is_some() {
            return Err(ContractError::AssetMigrated);
        }
        let new_amount = match self.positions[pi].collateral.amount.checked_add(collateral.amount) {
            Some(n) => n,
            None => {
                return Err(ContractError::Overflow);
            },
        };
        let p2 = Position {
            idx: self.positions[pi].idx,
            owner: self.positions[pi].owner.clone(),
            collateral: Asset {
                info: self.positions[pi].collateral.info.clone(),
                amount: new_amount,
            },
            asset: self.positions[pi].asset.clone(),
        };
        self.positions.set(pi, p2);
        proof {
            let ghost w = pi as int;
            let ghost p2s = spec_deposit_decision(*old(self), sender, position_idx, collateral)->Ok_0;
            assert(self.positions@ =~= old(self).positions@.update(w, p2s));
            assert(exists|i: int|
                0 <= i < old(self).positions@.len() && (#[trigger] old(self).positions@[i]).idx
                    == position_idx && self.positions@ == old(self).positions@.update(i, p2s)) by {
                assert(0 <= w && w < old(self).positions@.len() && old(self).positions@[w].idx
                    == position_idx && self.positions@ == old(self).positions@.update(w, p2s));
            }
        }
        Ok(())
    }

    /// Releases collateral to the owner. With an explicit amount the
    /// remaining collateral must keep the ratio at or above the asset's
    /// minimum (migrated assets admit any amount); without one the engine
    /// releases the most collateral that minimum allows.
    pub fn withdraw(
        &mut self,
        sender: String,
        position_idx: u128,
        collateral: Option<Asset>,
        asset_oracle_price: Decimal,
        collateral_oracle_info: CollateralInfo,
    ) -> (r: Result<WithdrawResult, ContractError>)
        requires
            old(self).wf(),
        ensures
            final(self).wf(),
            match spec_withdraw_decision(
                *old(self),
                sender,
                position_idx,
                collateral,
                asset_oracle_price,
                collateral_oracle_info,
            ) {
                Ok(pw) => {
                    &&& r is Ok
                    &&& r->Ok_0.withdraw_amount == pw.1
                    &&& exists|i: int|
                        0 <= i < old(self).positions@.len() && (#[trigger] old(
                            self,
                        ).positions@[i]).idx == position_idx && final(self).positions@ == old(
                            self,
                        ).positions@.update(i, pw.0)
                    &&& final(self).assets == old(self).assets
                    &&& final(self).config == old(self).config
                    &&& final(self).position_idx == old(self).position_idx
                    &&& r->Ok_0.effects@ == seq![
                        spec_transfer_effect(pw.0.collateral.info, sender, pw.1),
                    ]
                },
                Err(e) => r == Err::<WithdrawResult, ContractError>(e) && *final(self) == *old(
                    self,
                ),
            },
            // On a non-migrated asset the remaining collateral keeps the
            // ratio at or above the asset's minimum.
            r is Ok ==> (match spec_find_position(old(self).positions@, position_idx) {
                Some(p) => match spec_find_asset_info(old(self).assets@, p.asset.info) {
                    Some(a) => {
                        let ci = spec_collateral_info(
                            old(self).assets@,
                            old(self).config,
                            p.collateral.info,
                            collateral_oracle_info,
                        );
                        let ap = spec_asset_price(
                            old(self).assets@,
                            old(self).config,
                            p.asset.info,
                            asset_oracle_price,
                        );
                        a.end_price is None ==> spec_ratio_ok(
                            (p.collateral.amount - r->Ok_0.withdraw_amount) as u128,
                            ci.price,
                            ci.multiplier,
                            p.asset.amount,
                            ap,
                            a.min_collateral_ratio,
                        )
                    },
                    None => false,
                },
                None => false,
            }),
    {
        let pi = match find_position_idx(&self.positions, position_idx) {
            Some(i) => i,
            None => {
                return Err(ContractError::PositionNotFound);
            },
        };
        if sender != self.positions[pi].owner {
            return Err(ContractError::Unauthorized);
        }
        let asset_token = match &self.positions[pi].asset.info {
            AssetInfo::Token { contract_addr } => contract_addr.clone(),
            AssetInfo::NativeToken { .. } => {
                return Err(ContractError::AssetNotFound);
            },
        };
        let ai = match find_asset_idx(&self.assets, &asset_token) {
            Some(i) => i,
            None => {
                return Err(ContractError::AssetNotFound);
            },
        };
        let migrated = self.assets[ai].end_price.is_some();
        let mcr = self.assets[ai].min_collateral_ratio;
        let p_col_amt = self.positions[pi].collateral.amount;
        let p_asset_amt = self.positions[pi].asset.amount;
        let w: u128 = match &collateral {
            Some(c) => {
                if let Err(e) = crate::asserts::assert_collateral(&self.positions[pi], c) {
                    return Err(e);
                }
                if c.amount > p_col_amt {
                    return Err(ContractError::WithdrawExceedsCollateral);
                }
                if !migrated {
                    let ci = self.load_collateral_info(
                        &self.positions[pi].collateral.info,
                        collateral_oracle_info,
                    );
                    let ap = self.load_asset_price(
                        &self.positions[pi].asset.info,
                        asset_oracle_price,
                    );
                    if ratio_below(
                        p_col_amt - c.amount,
                        ci.price,
                        ci.multiplier,
                        p_asset_amt,
                        ap,
                        mcr,
                    ) {
                        return Err(ContractError::WithdrawRatioTooLow);
                    }
                }
                c.amount
            },
            None => {
                if migrated || p_asset_amt == 0 {
                    p_col_amt
                } else {
                    let ci = self.load_collateral_info(
                        &self.positions[pi].collateral.info,
                        collateral_oracle_info,
                    );
                    let ap = self.load_asset_price(
                        &self.positions[pi].asset.info,
                        asset_oracle_price,
                    );
                    let got = match compute_max_withdraw(
                        p_col_amt,
                        ci.price,
                        ci.multiplier,
                        p_asset_amt,
                        ap,
                        mcr,
                    ) {
                        Ok(wmax) => wmax,
                        Err(e) => {
                            return Err(e);
                        },
                    };
                    proof {
                        lemma_required_collateral_sound(
                            (p_col_amt - got) as u128,
                            spec_collateral_info(
                                self.assets@,
                                self.config,
                                self.positions@[pi as int].collateral.info,
                                collateral_oracle_info,
                            ).price,
                            spec_collateral_info(
                                self.assets@,
                                self.config,
                                self.positions@[pi as int].collateral.info,
                                collateral_oracle_info,
                            ).multiplier,
                            p_asset_amt,
                            spec_asset_price(
                                self.assets@,
                                self.config,
                                self.positions@[pi as int].asset.info,
                                asset_oracle_price,
                            ),
                            mcr,
                        );
                    }
                    got
                }
            },
        };
        proof {
            if !migrated && p_asset_amt == 0 {
                let ghost p = self.positions@[pi as int];
                let ghost cis = spec_collateral_info(
                    self.assets@,
                    self.config,
                    p.collateral.info,
                    collateral_oracle_info,
                );
                let ghost aps = spec_asset_price(
                    self.assets@,
                    self.config,
                    p.asset.info,
                    asset_oracle_price,
                );
                let ghost rem = (p_col_amt - w) as u128;
                assert(p.asset.amount * aps.atomics * mcr.atomics == 0) by (nonlinear_arith)
                    requires
                        p.asset.amount == 0,
                ;
                assert(0 <= rem * cis.price.atomics * cis.multiplier.atomics) by (nonlinear_arith)
                    requires
                        rem >= 0,
                        cis.price.atomics >= 0,
                        cis.multiplier.atomics >= 0,
                ;
            }
        }
        let recipient = sender.clone();
        let eff = transfer_effect(&self.positions[pi].collateral.info, recipient, w);
        let p2 = Position {
            idx: self.positions[pi].idx,
            owner: self.positions[pi].owner.clone(),
            collateral: Asset {
                info: self.positions[pi].collateral.info.clone(),
                amount: p_col_amt - w,
            },
            asset: self.positions[pi].asset.clone(),
        };
        self.positions.set(pi, p2);
        proof {
            let ghost wi = pi as int;
            let ghost pws = spec_withdraw_decision(
                *old(self),
                sender,
                position_idx,
                collateral,
                asset_oracle_price,
                collateral_oracle_info,
            )->Ok_0;
            assert(self.positions@ =~= old(self).positions@.update(wi, pws.0));
            assert(exists|i: int|
                0 <= i < old(self).positions@.len() && (#[trigger] old(self).positions@[i]).idx
                    == position_idx && self.positions@ == old(self).positions@.update(i, pws.0))
                by {
                assert(0 <= wi && wi < old(self).positions@.len() && old(self).positions@[wi].idx
                    == position_idx && self.positions@ == old(self).positions@.update(wi, pws.0));
            }
        }
        Ok(WithdrawResult { withdraw_amount: w, effects: vec![eff] })
    }

    /// Mints more of the synthetic asset against the position's collateral.
    /// The projected ratio with the increased amount must stay at or above
    /// the asset's minimum, the asset must not be migrated, and the
    /// collateral must not be revoked.
    pub fn mint(
        &mut self,
        sender: String,
        position_idx: u128,
        asset: Asset,
        asset_oracle_price: Decimal,
        collateral_oracle_info: CollateralInfo,
    ) -> (r: Result<MintResult, ContractError>)
        requires
            old(self).wf(),
        ensures
            final(self).wf(),
            match spec_mint_decision(
                *old(self),
                sender,
                position_idx,
                asset,
                asset_oracle_price,
                collateral_oracle_info,
            ) {
                Ok(p2) => {
                    &&& r is Ok
                    &&& r->Ok_0.mint_amount == asset.amount
                    &&& exists|i: int|
                        0 <= i < old(self).positions@.len() && (#[trigger] old(
                            self,
                        ).positions@[i]).idx == position_idx && final(self).positions@ == old(
                            self,
                        ).positions@.update(i, p2)
                    &&& final(self).assets == old(self).assets
                    &&& final(self).config == old(self).config
                    &&& final(self).position_idx == old(self).position_idx
                    &&& r->Ok_0.effects@ == seq![
                        (Effect::MintTokens {
                            token: spec_info_name(asset.info),
                            recipient: sender,
                            amount: asset.amount,
                        }),
                    ]
                },
                Err(e) => r == Err::<MintResult, ContractError>(e) && *final(self) == *old(self),
            },
            // The grown position stays at or above the asset's minimum ratio.
            r is Ok ==> (match spec_find_position(old(self).positions@, position_idx) {
                Some(p) => match spec_find_asset_info(old(self).assets@, p.asset.info) {
                    Some(a) => {
                        let ci = spec_collateral_info(
                            old(self).assets@,
                            old(self).config,
                            p.collateral.info,
                            collateral_oracle_info,
                        );
                        let ap = spec_asset_price(
                            old(self).assets@,
                            old(self).config,
                            p.asset.info,
                            asset_oracle_price,
                        );
                        spec_ratio_ok(
                            p.collateral.amount,
                            ci.price,
                            ci.multiplier,
                            (p.asset.amount + asset.amount) as u128,
                            ap,
                            a.min_collateral_ratio,
                        )
                    },
                    None => false,
                },
                None => false,
            }),
    {
        let pi = match find_position_idx(&self.positions, position_idx) {
            Some(i) => i,
            None => {
                return Err(ContractError::PositionNotFound);
            },
        };
        if sender != self.positions[pi].owner {
            return Err(ContractError::Unauthorized);
        }
        if let Err(e) = crate::asserts::assert_asset(&self.positions[pi], &asset) {
            return Err(e);
        }
        let asset_token = match &self.positions[pi].asset.info {
            AssetInfo::Token { contract_addr } => contract_addr.clone(),
            AssetInfo::NativeToken { .. } => {
                return Err(ContractError::AssetNotFound);
            },
        };
        let ai = match find_asset_idx(&self.assets, &asset_token) {
            Some(i) => i,
            None => {
                return Err(ContractError::AssetNotFound);
            },
        };
        if self.assets[ai].end_price.is_some() {
            return Err(ContractError::AssetMigrated);
        }
        let mcr = self.assets[ai].min_collateral_ratio;
        let ci = self.load_collateral_info(
            &self.positions[pi].collateral.info,
            collateral_oracle_info,
        );
        if ci.is_revoked {
            return Err(ContractError::CollateralRevoked);
        }
        let new_amount = match self.positions[pi].asset.amount.checked_add(asset.amount) {
            Some(n) => n,
            None => {
                return Err(ContractError::Overflow);
            },
        };
        let ap = self.load_asset_price(&self.positions[pi].asset.info, asset_oracle_price);
        if ratio_below(
            self.positions[pi].collateral.amount,
            ci.price,
            ci.multiplier,
            new_amount,
            ap,
            mcr,
        ) {
            return Err(ContractError::MintRatioTooLow);
        }
        let recipient = sender.clone();
        let token_name = info_name(&asset.info);
        let p2 = Position {
            idx: self.positions[pi].idx,
            owner: self.positions[pi].owner.clone(),
            collateral: self.positions[pi].collateral.clone(),
            asset: Asset { info: self.positions[pi].asset.info.clone(), amount: new_amount },
        };
        self.positions.set(pi, p2);
        proof {
            let ghost wi = pi as int;
            let ghost p2s = spec_mint_decision(
                *old(self),
                sender,
                position_idx,
                asset,
                asset_oracle_price,
                collateral_oracle_info,
            )->Ok_0;
            assert(self.positions@ =~= old(self).positions@.update(wi, p2s));
            assert(exists|i: int|
                0 <= i < old(self).positions@.len() && (#[trigger] old(self).positions@[i]).idx
                    == position_idx && self.positions@ == old(self).positions@.update(i, p2s)) by {
                assert(0 <= wi && wi < old(self).positions@.len() && old(self).positions@[wi].idx
                    == position_idx && self.positions@ == old(self).positions@.update(wi, p2s));
            }
        }
        Ok(
            MintResult {
                mint_amount: asset.amount,
                effects: vec![
                    Effect::MintTokens { token: token_name, recipient, amount: asset.amount },
                ],
            },
        )
    }

    /// Burns synthetic assets handed back by the owner, reducing the
    /// position's minted amount and charging the protocol fee, in
    /// collateral units, to the fee collector. A migrated asset burns at
    /// its frozen end price. Remaining collateral stays in the position.
    pub fn burn(
        &mut self,
        sender: String,
        position_idx: u128,
        asset: Asset,
        asset_oracle_price: Decimal,
        collateral_oracle_info: CollateralInfo,
    ) -> (r: Result<BurnResult, ContractError>)
        requires
            old(self).wf(),
        ensures
            final(self).wf(),
            match spec_burn_decision(
                *old(self),
                sender,
                position_idx,
                asset,
                asset_oracle_price,
                collateral_oracle_info,
            ) {
                Ok(pf) => {
                    &&& r is Ok
                    &&& r->Ok_0.burn_amount == asset.amount
                    &&& r->Ok_0.protocol_fee == pf.1
                    &&& exists|i: int|
                        0 <= i < old(self).positions@.len() && (#[trigger] old(
                            self,
                        ).positions@[i]).idx == position_idx && final(self).positions@ == old(
                            self,
                        ).positions@.update(i, pf.0)
                    &&& final(self).assets == old(self).assets
                    &&& final(self).config == old(self).config
                    &&& final(self).position_idx == old(self).position_idx
                    &&& r->Ok_0.effects@ == (if pf.1 > 0 {
                        seq![
                            (Effect::BurnTokens {
                                token: spec_info_name(asset.info),
                                amount: asset.amount,
                            }),
                            spec_transfer_effect(
                                pf.0.collateral.info,
                                old(self).config.collector,
                                pf.1,
                            ),
                        ]
                    } else {
                        seq![
                            (Effect::BurnTokens {
                                token: spec_info_name(asset.info),
                                amount: asset.amount,
                            }),
                        ]
                    })
                },
                Err(e) => r == Err::<BurnResult, ContractError>(e) && *final(self) == *old(self),
            },
    {
        let pi = match find_position_idx(&self.positions, position_idx) {
            Some(i) => i,
            None => {
                return Err(ContractError::PositionNotFound);
            },
        };
        if sender != self.positions[pi].owner {
            return Err(ContractError::Unauthorized);
        }
        if let Err(e) = crate::asserts::assert_asset(&self.positions[pi], &asset) {
            return Err(e);
        }
        if asset.amount > self.positions[pi].asset.amount {
            return Err(ContractError::BurnExceedsMinted);
        }
        let asset_token = match &self.positions[pi].asset.info {
            AssetInfo::Token { contract_addr } => contract_addr.clone(),
            AssetInfo::NativeToken { .. } => {
                return Err(ContractError::AssetNotFound);
            },
        };
        let ai = match find_asset_idx(&self.assets, &asset_token) {
            Some(i) => i,
            None => {
                return Err(ContractError::AssetNotFound);
            },
        };
        let ap = self.load_asset_price(&self.positions[pi].asset.info, asset_oracle_price);
        let ci = self.load_collateral_info(
            &self.positions[pi].collateral.info,
            collateral_oracle_info,
        );
        let fee = match compute_protocol_fee(
            asset.amount,
            ap,
            self.config.protocol_fee_rate,
            ci.price,
            self.positions[pi].collateral.amount,
        ) {
            Ok(f) => f,
            Err(e) => {
                return Err(e);
            },
        };
        let token_name = info_name(&asset.info);
        let mut effects: Vec<Effect> = vec![
            Effect::BurnTokens { token: token_name, amount: asset.amount },
        ];
        if fee > 0 {
            let to_collector = transfer_effect(
                &self.positions[pi].collateral.info,
                self.config.collector.clone(),
                fee,
            );
            effects.push(to_collector);
        }
        let p2 = Position {
            idx: self.positions[pi].idx,
            owner: self.positions[pi].owner.clone(),
            collateral: Asset {
                info: self.positions[pi].collateral.info.clone(),
                amount: self.positions[pi].collateral.amount - fee,
            },
            asset: Asset {
                info: self.positions[pi].asset.info.clone(),
                amount: self.positions[pi].asset.amount - asset.amount,
            },
        };
        self.positions.set(pi, p2);
        proof {
            let ghost wi = pi as int;
            let ghost pfs = spec_burn_decision(
                *old(self),
                sender,
                position_idx,
                asset,
                asset_oracle_price,
                collateral_oracle_info,
            )->Ok_0;
            assert(self.positions@ =~= old(self).positions@.update(wi, pfs.0));
            assert(exists|i: int|
                0 <= i < old(self).positions@.len() && (#[trigger] old(self).positions@[i]).idx
                    == position_idx && self.positions@ == old(self).positions@.update(i, pfs.0))
                by {
                assert(0 <= wi && wi < old(self).positions@.len() && old(self).positions@[wi].idx
                    == position_idx && self.positions@ == old(self).positions@.update(wi, pfs.0));
            }
        }
        Ok(BurnResult { burn_amount: asset.amount, protocol_fee: fee, effects })
    }
}

} // verus!
