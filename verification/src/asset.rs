//! Asset identities and amounts.
//!
//! An asset is either a chain-native currency, named by its denomination, or
//! a fungible-token balance, named by the token contract's address. Verified
//! code compares identities with `asset_info_eq`, whose contract speaks of
//! the underlying character sequences.

use vstd::prelude::*;

verus! {

/// The identity of an asset.
#[derive(PartialEq, Eq, Debug)]
pub enum AssetInfo {
    /// A fungible-token balance, held by the given token contract.
    Token { contract_addr: String },
    /// A chain-native currency with the given denomination.
    NativeToken { denom: String },
}

/// An amount of a particular asset.
#[derive(PartialEq, Eq, Debug)]
pub struct Asset {
    /// Which asset the amount is denominated in.
    pub info: AssetInfo,
    /// The number of base units.
    pub amount: u128,
}

/// Whether two asset identities name the same asset.
pub open spec fn info_eq(a: AssetInfo, b: AssetInfo) -> bool {
    match a {
        AssetInfo::Token { contract_addr: x } => match b {
            AssetInfo::Token { contract_addr: y } => x@ == y@,
            AssetInfo::NativeToken { .. } => false,
        },
        AssetInfo::NativeToken { denom: x } => match b {
            AssetInfo::NativeToken { denom: y } => x@ == y@,
            AssetInfo::Token { .. } => false,
        },
    }
}

/// Decides `info_eq` on two asset identities.
pub fn asset_info_eq(a: &AssetInfo, b: &AssetInfo) -> (r: bool)
    ensures
        r == info_eq(*a, *b),
{
    match (a, b) {
        (AssetInfo::Token { contract_addr: x }, AssetInfo::Token { contract_addr: y }) => *x == *y,
        (AssetInfo::NativeToken { denom: x }, AssetInfo::NativeToken { denom: y }) => *x == *y,
        _ => false,
    }
}

impl AssetInfo {
    /// Whether the asset is a chain-native currency.
    pub fn is_native_token(&self) -> (r: bool)
        ensures
            r == (self is NativeToken),
    {
        match self {
            AssetInfo::NativeToken { .. } => true,
            AssetInfo::Token { .. } => false,
        }
    }
}

impl Clone for AssetInfo {
    fn clone(&self) -> (res: Self)
        ensures
            res == *self,
    {
        match self {
            AssetInfo::Token { contract_addr } => AssetInfo::Token {
                contract_addr: contract_addr.clone(),
            },
            AssetInfo::NativeToken { denom } => AssetInfo::NativeToken { denom: denom.clone() },
        }
    }
}

impl Clone for Asset {
    fn clone(&self) -> (res: Self)
        ensures
            res == *self,
    {
        Asset { info: self.info.clone(), amount: self.amount }
    }
}

} // verus!
