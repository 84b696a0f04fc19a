//! The engine's state: configuration, asset registry, and position store.
//!
//! `MintEngine` owns the whole state of one deployment. The host loads it,
//! calls one operation, and persists it; every operation is all-or-nothing,
//! leaving the state untouched when it rejects. The well-formedness
//! invariant `wf` ties the pieces together: the fee rate is below 1, asset
//! identities are unique, non-deprecated assets keep the 1.1 ratio floor,
//! and position indices are strictly increasing and below the next free
//! index.

use vstd::prelude::*;

verus! {

use crate::asset::Asset;
use crate::asset::AssetInfo;
use crate::asserts::assert_min_collateral_ratio;
use crate::asserts::assert_protocol_fee;
use crate::decimal::DECIMAL_FRACTIONAL;
use crate::decimal::Decimal;
use crate::error::ContractError;

/// The protocol floor for a minimum collateral ratio: 1.1 in atomics.
pub const MIN_CR_ALLOWED_ATOMICS: u128 = 1_100_000_000_000_000_000;

/// The process-wide configuration, mutated only by the owner.
#[derive(PartialEq, Eq, Debug)]
pub struct Config {
    /// Who may run the administrative operations.
    pub owner: String,
    /// The price oracle service.
    pub oracle: String,
    /// Where protocol fees are sent.
    pub collector: String,
    /// The collateral oracle service.
    pub collateral_oracle: String,
    /// The staking service.
    pub staking: String,
    /// The token-pair factory.
    pub tswap_factory: String,
    /// The chain-native currency all prices are quoted in.
    pub base_denom: String,
    /// The template identifier for newly instantiated synthetic tokens.
    pub token_code_id: u64,
    /// The fee rate charged on burns; strictly below 1.
    pub protocol_fee_rate: Decimal,
}

impl Clone for Config {
    fn clone(&self) -> (res: Self)
        ensures
            res == *self,
    {
        Config {
            owner: self.owner.clone(),
            oracle: self.oracle.clone(),
            collector: self.collector.clone(),
            collateral_oracle: self.collateral_oracle.clone(),
            staking: self.staking.clone(),
            tswap_factory: self.tswap_factory.clone(),
            base_denom: self.base_denom.clone(),
            token_code_id: self.token_code_id,
            protocol_fee_rate: self.protocol_fee_rate,
        }
    }
}

/// The per-synthetic-asset configuration.
#[derive(PartialEq, Eq, Debug)]
pub struct AssetConfig {
    /// The synthetic token's contract address.
    pub token: String,
    /// The minimum collateral ratio demanded of positions minting this asset.
    pub min_collateral_ratio: Decimal,
    /// When set, the asset is deprecated and exchanges at this frozen price.
    pub end_price: Option<Decimal>,
}

impl Clone for AssetConfig {
    fn clone(&self) -> (res: Self)
        ensures
            res == *self,
    {
        AssetConfig {
            token: self.token.clone(),
            min_collateral_ratio: self.min_collateral_ratio,
            end_price: self.end_price,
        }
    }
}

/// One open collateralized debt position.
#[derive(PartialEq, Eq, Debug)]
pub struct Position {
    /// The position's index, unique for the life of the deployment.
    pub idx: u128,
    /// Who opened the position.
    pub owner: String,
    /// The locked collateral.
    pub collateral: Asset,
    /// The synthetic asset minted against the collateral.
    pub asset: Asset,
}

impl Clone for Position {
    fn clone(&self) -> (res: Self)
        ensures
            res == *self,
    {
        Position {
            idx: self.idx,
            owner: self.owner.clone(),
            collateral: self.collateral.clone(),
            asset: self.asset.clone(),
        }
    }
}

/// What the collateral oracle reports about a collateral asset.
#[derive(Clone, Copy, PartialEq, Eq, Structural, Debug)]
pub struct CollateralInfo {
    /// The collateral's unit price in the base currency.
    pub price: Decimal,
    /// The scaling factor applied to the collateral's value.
    pub multiplier: Decimal,
    /// Whether the collateral was revoked.
    pub is_revoked: bool,
}

/// The admin request that rewrites legacy registry records; handled by the
/// host, outside the engine.
#[derive(PartialEq, Eq, Debug)]
pub struct MigrateMsg {
    /// The oracle contract the rewritten records point at.
    pub melange_oracle_contract: String,
}

/// The first registry entry whose token matches, if any.
pub open spec fn spec_find_asset(assets: Seq<AssetConfig>, token: Seq<char>) -> Option<AssetConfig>
    decreases assets.len(),
{
    if assets.len() == 0 {
        None
    } else if assets[0].token@ == token {
        Some(assets[0])
    } else {
        spec_find_asset(assets.drop_first(), token)
    }
}

/// A missing registry entry means no entry carries the token, and a found
/// one is an entry of the registry carrying it.
pub proof fn lemma_find_asset_props(assets: Seq<AssetConfig>, token: Seq<char>)
    ensures
        match spec_find_asset(assets, token) {
            Some(a) => exists|i: int|
                0 <= i < assets.len() && assets[i] == a && #[trigger] assets[i].token@ == token,
            None => forall|i: int|
                0 <= i < assets.len() ==> (#[trigger] assets[i]).token@ != token,
        },
    decreases assets.len(),
{
    if assets.len() != 0 && assets[0].token@ != token {
        lemma_find_asset_props(assets.drop_first(), token);
        match spec_find_asset(assets, token) {
            Some(a) => {
                let j = choose|j: int|
                    0 <= j < assets.drop_first().len() && assets.drop_first()[j] == a
                        && #[trigger] assets.drop_first()[j].token@ == token;
                assert(assets[j + 1] == a && assets[j + 1].token@ == token);
            },
            None => {
                assert forall|i: int| 0 <= i < assets.len() implies (#[trigger] assets[i]).token@
                    != token by {
                    if i > 0 {
                        assert(assets.drop_first()[i - 1] == assets[i]);
                    }
                }
            },
        }
    }
}

/// The index of the registry entry whose token matches, if any.
pub fn find_asset_idx(assets: &Vec<AssetConfig>, token: &String) -> (r: Option<usize>)
    ensures
        match r {
            Some(i) => i < assets@.len() && assets@[i as int].token@ == token@ && spec_find_asset(
                assets@,
                token@,
            ) == Some(assets@[i as int]),
            None => spec_find_asset(assets@, token@) is None,
        },
{
    let n = assets.len();
    let mut i: usize = 0;
    proof {
        assert(assets@.skip(0) =~= assets@);
    }
    while i < n
        invariant
            i <= n,
            n == assets@.len(),
            spec_find_asset(assets@, token@) == spec_find_asset(assets@.skip(i as int), token@),
            forall|k: int| 0 <= k < i ==> (#[trigger] assets@[k]).token@ != token@,
        decreases n - i,
    {
        if assets[i].token == *token {
            proof {
                assert(assets@.skip(i as int)[0] == assets@[i as int]);
            }
            return Some(i);
        }
        proof {
            assert(assets@.skip(i as int).drop_first() =~= assets@.skip(i as int + 1));
            assert(assets@.skip(i as int)[0] == assets@[i as int]);
        }
        i += 1;
    }
    proof {
        assert(assets@.skip(n as int).len() == 0);
    }
    None
}

/// The position stored under the given index, if any.
pub open spec fn spec_find_position(positions: Seq<Position>, idx: u128) -> Option<Position>
    decreases positions.len(),
{
    if positions.len() == 0 {
        None
    } else if positions[0].idx == idx {
        Some(positions[0])
    } else {
        spec_find_position(positions.drop_first(), idx)
    }
}

/// A missing position means no stored position carries the index, and a
/// found one is a stored position carrying it.
pub proof fn lemma_find_position_props(positions: Seq<Position>, idx: u128)
    ensures
        match spec_find_position(positions, idx) {
            Some(p) => exists|i: int|
                0 <= i < positions.len() && positions[i] == p && #[trigger] positions[i].idx == idx,
            None => forall|i: int|
                0 <= i < positions.len() ==> (#[trigger] positions[i]).idx != idx,
        },
    decreases positions.len(),
{
    if positions.len() != 0 && positions[0].idx != idx {
        lemma_find_position_props(positions.drop_first(), idx);
        match spec_find_position(positions, idx) {
            Some(p) => {
                let j = choose|j: int|
                    0 <= j < positions.drop_first().len() && positions.drop_first()[j] == p
                        && #[trigger] positions.drop_first()[j].idx == idx;
                assert(positions[j + 1] == p && positions[j + 1].idx == idx);
            },
            None => {
                assert forall|i: int| 0 <= i < positions.len() implies (#[trigger] positions[i]).idx
                    != idx by {
                    if i > 0 {
                        assert(positions.drop_first()[i - 1] == positions[i]);
                    }
                }
            },
        }
    }
}

/// The index into the store of the position with the given index, if any.
pub fn find_position_idx(positions: &Vec<Position>, idx: u128) -> (r: Option<usize>)
    ensures
        match r {
            Some(i) => i < positions@.len() && positions@[i as int].idx == idx
                && spec_find_position(positions@, idx) == Some(positions@[i as int]),
            None => spec_find_position(positions@, idx) is None,
        },
{
    let n = positions.len();
    let mut i: usize = 0;
    proof {
        assert(positions@.skip(0) =~= positions@);
    }
    while i < n
        invariant
            i <= n,
            n == positions@.len(),
            spec_find_position(positions@, idx) == spec_find_position(
                positions@.skip(i as int),
                idx,
            ),
            forall|k: int| 0 <= k < i ==> (#[trigger] positions@[k]).idx != idx,
        decreases n - i,
    {
        if positions[i].idx == idx {
            proof {
                assert(positions@.skip(i as int)[0] == positions@[i as int]);
            }
            return Some(i);
        }
        proof {
            assert(positions@.skip(i as int).drop_first() =~= positions@.skip(i as int + 1));
            assert(positions@.skip(i as int)[0] == positions@[i as int]);
        }
        i += 1;
    }
    proof {
        assert(positions@.skip(n as int).len() == 0);
    }
    None
}

/// The configuration after applying the present fields of a partial update.
pub open spec fn spec_apply_config(
    c: Config,
    owner: Option<String>,
    oracle: Option<String>,
    collector: Option<String>,
    collateral_oracle: Option<String>,
    tswap_factory: Option<String>,
    token_code_id: Option<u64>,
    protocol_fee_rate: Option<Decimal>,
    staking: Option<String>,
) -> Config {
    Config {
        owner: match owner {
            Some(v) => v,
            None => c.owner,
        },
        oracle: match oracle {
            Some(v) => v,
            None => c.oracle,
        },
        collector: match collector {
            Some(v) => v,
            None => c.collector,
        },
        collateral_oracle: match collateral_oracle {
            Some(v) => v,
            None => c.collateral_oracle,
        },
        tswap_factory: match tswap_factory {
            Some(v) => v,
            None => c.tswap_factory,
        },
        token_code_id: match token_code_id {
            Some(v) => v,
            None => c.token_code_id,
        },
        protocol_fee_rate: match protocol_fee_rate {
            Some(v) => v,
            None => c.protocol_fee_rate,
        },
        staking: match staking {
            Some(v) => v,
            None => c.staking,
        },
        base_denom: c.base_denom,
    }
}

/// The position lifecycle engine's whole state.
#[derive(Debug)]
pub struct MintEngine {
    /// The process-wide configuration.
    pub config: Config,
    /// The registered synthetic assets.
    pub assets: Vec<AssetConfig>,
    /// The open positions, in increasing index order.
    pub positions: Vec<Position>,
    /// The next position index to assign; starts at 1, never decreases.
    pub position_idx: u128,
}

impl MintEngine {
    /// The state invariant every operation preserves.
    pub open spec fn wf(&self) -> bool {
        &&& self.config.protocol_fee_rate.atomics < DECIMAL_FRACTIONAL
        &&& forall|i: int, j: int|
            0 <= i < j < self.assets@.len() ==> (#[trigger] self.assets@[i]).token@ != (
            #[trigger] self.assets@[j]).token@
        &&& forall|i: int|
            0 <= i < self.assets@.len() ==> ((#[trigger] self.assets@[i]).end_price is None
                ==> self.assets@[i].min_collateral_ratio.atomics >= MIN_CR_ALLOWED_ATOMICS)
        &&& self.position_idx >= 1
        &&& forall|i: int|
            0 <= i < self.positions@.len() ==> (#[trigger] self.positions@[i]).idx
                < self.position_idx
        &&& forall|i: int, j: int|
            0 <= i < j < self.positions@.len() ==> (#[trigger] self.positions@[i]).idx < (
            #[trigger] self.positions@[j]).idx
    }

    /// Sets up a fresh deployment: an empty registry and position store, the
    /// next position index at 1, and the given configuration, whose fee rate
    /// must be below 1.
    pub fn new(config: Config) -> (r: Result<MintEngine, ContractError>)
        ensures
            r is Ok <==> config.protocol_fee_rate.atomics < DECIMAL_FRACTIONAL,
            r is Ok ==> {
                let s = r->Ok_0;
                &&& s.wf()
                &&& s.config == config
                &&& s.assets@.len() == 0
                &&& s.positions@.len() == 0
                &&& s.position_idx == 1
            },
            r is Err ==> r->Err_0 == ContractError::InvalidProtocolFeeRate,
    {
        assert_protocol_fee(config.protocol_fee_rate)?;
        Ok(MintEngine { config, assets: Vec::new(), positions: Vec::new(), position_idx: 1 })
    }

    /// Applies a partial configuration update. Only the owner may do so, and
    /// a fee rate of 1 or more is rejected before anything changes.
    pub fn update_config(
        &mut self,
        sender: &String,
        owner: Option<String>,
        oracle: Option<String>,
        collector: Option<String>,
        collateral_oracle: Option<String>,
        tswap_factory: Option<String>,
        token_code_id: Option<u64>,
        protocol_fee_rate: Option<Decimal>,
        staking: Option<String>,
    ) -> (r: Result<(), ContractError>)
        requires
            old(self).wf(),
        ensures
            final(self).wf(),
            r is Ok <==> (sender@ == old(self).config.owner@ && (match protocol_fee_rate {
                Some(p) => p.atomics < DECIMAL_FRACTIONAL,
                None => true,
            })),
            r is Ok ==> final(self).config == spec_apply_config(
                old(self).config,
                owner,
                oracle,
                collector,
                collateral_oracle,
                tswap_factory,
                token_code_id,
                protocol_fee_rate,
                staking,
            ),
            r is Ok ==> final(self).assets == old(self).assets && final(self).positions == old(
                self,
            ).positions && final(self).position_idx == old(self).position_idx,
            r is Err ==> *final(self) == *old(self) && r->Err_0 == (if sender@ != old(
                self,
            ).config.owner@ {
                ContractError::Unauthorized
            } else {
                ContractError::InvalidProtocolFeeRate
            }),
    {
        if *sender != self.config.owner {
            return Err(ContractError::Unauthorized);
        }
        if let Some(fee) = &protocol_fee_rate {
            assert_protocol_fee(*fee)?;
        }
        if let Some(v) = owner {
            self.config.owner = v;
        }
        if let Some(v) = oracle {
            self.config.oracle = v;
        }
        if let Some(v) = collector {
            self.config.collector = v;
        }
        if let Some(v) = collateral_oracle {
            self.config.collateral_oracle = v;
        }
        if let Some(v) = tswap_factory {
            self.config.tswap_factory = v;
        }
        if let Some(v) = token_code_id {
            self.config.token_code_id = v;
        }
        if let Some(v) = protocol_fee_rate {
            self.config.protocol_fee_rate = v;
        }
        if let Some(v) = staking {
            self.config.staking = v;
        }
        Ok(())
    }

    /// Registers a new synthetic asset. The ratio floor is checked first,
    /// then ownership, then that the identity is still free; the new entry
    /// starts without an end price.
    pub fn register_asset(
        &mut self,
        sender: &String,
        asset_token: String,
        min_collateral_ratio: Decimal,
    ) -> (r: Result<(), ContractError>)
        requires
            old(self).wf(),
        ensures
            final(self).wf(),
            r is Ok <==> (min_collateral_ratio.atomics >= MIN_CR_ALLOWED_ATOMICS && sender@ == old(
                self,
            ).config.owner@ && spec_find_asset(old(self).assets@, asset_token@) is None),
            r is Ok ==> final(self).assets@ == old(self).assets@.push(
                (AssetConfig { token: asset_token, min_collateral_ratio, end_price: None }),
            ),
            r is Ok ==> final(self).config == old(self).config && final(self).positions == old(
                self,
            ).positions && final(self).position_idx == old(self).position_idx,
            r is Err ==> *final(self) == *old(self) && r->Err_0 == (if min_collateral_ratio.atomics
                < MIN_CR_ALLOWED_ATOMICS {
                ContractError::MinCollateralRatioTooLow
            } else if sender@ != old(self).config.owner@ {
                ContractError::Unauthorized
            } else {
                ContractError::AssetAlreadyRegistered
            }),
    {
        assert_min_collateral_ratio(min_collateral_ratio)?;
        if *sender != self.config.owner {
            return Err(ContractError::Unauthorized);
        }
        if find_asset_idx(&self.assets, &asset_token).is_some() {
            return Err(ContractError::AssetAlreadyRegistered);
        }
        proof {
            lemma_find_asset_props(self.assets@, asset_token@);
        }
        self.assets.push(AssetConfig { token: asset_token, min_collateral_ratio, end_price: None });
        Ok(())
    }

    /// Updates a registered asset's minimum collateral ratio, which must
    /// stay at or above the protocol floor. Only the owner may do so.
    pub fn update_asset(
        &mut self,
        sender: &String,
        asset_token: &String,
        min_collateral_ratio: Option<Decimal>,
    ) -> (r: Result<(), ContractError>)
        requires
            old(self).wf(),
        ensures
            final(self).wf(),
            r is Ok <==> (spec_find_asset(old(self).assets@, asset_token@) is Some && sender@
                == old(self).config.owner@ && (match min_collateral_ratio {
                Some(m) => m.atomics >= MIN_CR_ALLOWED_ATOMICS,
                None => true,
            })),
            r is Ok ==> (match (spec_find_asset(old(self).assets@, asset_token@),
            min_collateral_ratio) {
                (Some(a), Some(m)) => exists|i: int|
                    0 <= i < old(self).assets@.len() && old(self).assets@[i] == a && final(self).assets@ == old(self).assets@.update(
                        i,
                        (AssetConfig {
                            token: a.token,
                            min_collateral_ratio: m,
                            end_price: a.end_price,
                        }),
                    ),
                (Some(a), None) => final(self).assets == old(self).assets,
                _ => false,
            }),
            r is Ok ==> final(self).config == old(self).config && final(self).positions == old(
                self,
            ).positions && final(self).position_idx == old(self).position_idx,
            r is Err ==> *final(self) == *old(self) && r->Err_0 == (if spec_find_asset(
                old(self).assets@,
                asset_token@,
            ) is None {
                ContractError::AssetNotFound
            } else if sender@ != old(self).config.owner@ {
                ContractError::Unauthorized
            } else {
                ContractError::MinCollateralRatioTooLow
            }),
    {
        let found = find_asset_idx(&self.assets, asset_token);
        let i = match found {
            Some(i) => i,
            None => {
                return Err(ContractError::AssetNotFound);
            },
        };
        if *sender != self.config.owner {
            return Err(ContractError::Unauthorized);
        }
        if let Some(m) = min_collateral_ratio {
            assert_min_collateral_ratio(m)?;
            let token = self.assets[i].token.clone();
            let end_price = self.assets[i].end_price;
            self.assets.set(
                i,
                AssetConfig { token, min_collateral_ratio: m, end_price },
            );
            proof {
                assert(self.assets@ =~= old(self).assets@.update(
                    i as int,
                    (AssetConfig {
                        token: old(self).assets@[i as int].token,
                        min_collateral_ratio: m,
                        end_price: old(self).assets@[i as int].end_price,
                    }),
                ));
            }
        }
        Ok(())
    }

    /// Deprecates a registered asset: freezes its exchange price at the
    /// given end price and forces its minimum collateral ratio to 100%.
    /// Only the owner may do so.
    pub fn register_migration(
        &mut self,
        sender: &String,
        asset_token: &String,
        end_price: Decimal,
    ) -> (r: Result<(), ContractError>)
        requires
            old(self).wf(),
        ensures
            final(self).wf(),
            r is Ok <==> (sender@ == old(self).config.owner@ && spec_find_asset(
                old(self).assets@,
                asset_token@,
            ) is Some),
            r is Ok ==> (match spec_find_asset(old(self).assets@, asset_token@) {
                Some(a) => exists|i: int|
                    0 <= i < old(self).assets@.len() && old(self).assets@[i] == a && final(self).assets@ == old(self).assets@.update(
                        i,
                        (AssetConfig {
                            token: a.token,
                            min_collateral_ratio: (Decimal {
                                atomics: DECIMAL_FRACTIONAL,
                            }),
                            end_price: Some(end_price),
                        }),
                    ),
                None => false,
            }),
            r is Ok ==> final(self).config == old(self).config && final(self).positions == old(
                self,
            ).positions && final(self).position_idx == old(self).position_idx,
            r is Err ==> *final(self) == *old(self) && r->Err_0 == (if sender@ != old(
                self,
            ).config.owner@ {
                ContractError::Unauthorized
            } else {
                ContractError::AssetNotFound
            }),
    {
        if *sender != self.config.owner {
            return Err(ContractError::Unauthorized);
        }
        let found = find_asset_idx(&self.assets, asset_token);
        let i = match found {
            Some(i) => i,
            None => {
                return Err(ContractError::AssetNotFound);
            },
        };
        let token = self.assets[i].token.clone();
        self.assets.set(
            i,
            AssetConfig {
                token,
                min_collateral_ratio: Decimal::one(),
                end_price: Some(end_price),
            },
        );
        proof {
            assert(self.assets@ =~= old(self).assets@.update(
                i as int,
                (AssetConfig {
                    token: old(self).assets@[i as int].token,
                    min_collateral_ratio: (Decimal { atomics: DECIMAL_FRACTIONAL }),
                    end_price: Some(end_price),
                }),
            ));
        }
        Ok(())
    }
}

} // verus!
