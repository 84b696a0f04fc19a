//! Read-only queries over the engine's state.
//!
//! `query_positions` is a cursor-paginated scan: ascending order visits the
//! store front to back, descending back to front, each resuming strictly
//! after `start_after` and capped at a bounded limit. Its contract equates
//! the result with a recursive selection function over the store, and the
//! pagination lemmas state order and membership of that selection.

use vstd::prelude::*;

verus! {

use crate::asset::Asset;
use crate::asset::AssetInfo;
use crate::decimal::Decimal;
use crate::error::ContractError;
use crate::state::AssetConfig;
use crate::state::MintEngine;
use crate::state::Position;
use crate::state::find_asset_idx;
use crate::state::find_position_idx;
use crate::state::spec_find_asset;
use crate::state::spec_find_position;

/// The direction of a paginated scan.
#[derive(Clone, Copy, PartialEq, Eq, Structural, Debug)]
pub enum OrderBy {
    /// Increasing position index.
    Asc,
    /// Decreasing position index.
    Desc,
}

/// One position, as a query answer.
#[derive(PartialEq, Eq, Debug)]
pub struct PositionResponse {
    /// The position's index.
    pub idx: u128,
    /// Who owns the position.
    pub owner: String,
    /// The locked collateral.
    pub collateral: Asset,
    /// The outstanding minted asset.
    pub asset: Asset,
}

/// A page of positions.
#[derive(PartialEq, Eq, Debug)]
pub struct PositionsResponse {
    /// The selected positions, in scan order.
    pub positions: Vec<PositionResponse>,
}

/// The index the next opened position will get.
#[derive(PartialEq, Eq, Debug)]
pub struct NextPositionIdxResponse {
    /// The next free position index.
    pub next_position_idx: u128,
}

/// The configuration, as a query answer.
#[derive(PartialEq, Eq, Debug)]
pub struct ConfigResponse {
    /// Who may run the administrative operations.
    pub owner: String,
    /// The price oracle service.
    pub oracle: String,
    /// Where protocol fees are sent.
    pub collector: String,
    /// The collateral oracle service.
    pub collateral_oracle: String,
    /// The staking service.
    pub staking: String,
    /// The token-pair factory.
    pub tswap_factory: String,
    /// The chain-native currency all prices are quoted in.
    pub base_denom: String,
    /// The template identifier for newly instantiated synthetic tokens.
    pub token_code_id: u64,
    /// The fee rate charged on burns.
    pub protocol_fee_rate: Decimal,
}

/// One registry entry, as a query answer.
#[derive(PartialEq, Eq, Debug)]
pub struct AssetConfigResponse {
    /// The synthetic token's contract address.
    pub token: String,
    /// The minimum collateral ratio demanded of positions.
    pub min_collateral_ratio: Decimal,
    /// The frozen end price, when the asset was migrated.
    pub end_price: Option<Decimal>,
}

/// A position as its query answer.
pub open spec fn spec_to_response(p: Position) -> PositionResponse {
    PositionResponse { idx: p.idx, owner: p.owner, collateral: p.collateral, asset: p.asset }
}

/// Whether a position passes the owner and asset filters.
pub open spec fn spec_matches(
    p: Position,
    owner: Option<&String>,
    asset_token: Option<&String>,
) -> bool {
    (match owner {
        Some(o) => p.owner@ == o@,
        None => true,
    }) && (match asset_token {
        Some(t) => match p.asset.info {
            AssetInfo::Token { contract_addr } => contract_addr@ == t@,
            AssetInfo::NativeToken { .. } => false,
        },
        None => true,
    })
}

/// Whether a position's index lies after the cursor in the scan direction.
pub open spec fn spec_after_cursor(idx: u128, start_after: Option<u128>, asc: bool) -> bool {
    match start_after {
        Some(k) => if asc {
            idx > k
        } else {
            idx < k
        },
        None => true,
    }
}

/// Whether a position is selected by the given filters and cursor.
pub open spec fn spec_selected(
    p: Position,
    owner: Option<&String>,
    asset_token: Option<&String>,
    start_after: Option<u128>,
    asc: bool,
) -> bool {
    spec_matches(p, owner, asset_token) && spec_after_cursor(p.idx, start_after, asc)
}

/// The selected positions of `s`, front to back.
pub open spec fn spec_select_asc(
    s: Seq<Position>,
    owner: Option<&String>,
    asset_token: Option<&String>,
    start_after: Option<u128>,
) -> Seq<PositionResponse>
    decreases s.len(),
{
    if s.len() == 0 {
        Seq::empty()
    } else {
        let rest = spec_select_asc(s.drop_first(), owner, asset_token, start_after);
        if spec_selected(s[0], owner, asset_token, start_after, true) {
            seq![spec_to_response(s[0])] + rest
        } else {
            rest
        }
    }
}

/// The selected positions of `s`, back to front.
pub open spec fn spec_select_desc(
    s: Seq<Position>,
    owner: Option<&String>,
    asset_token: Option<&String>,
    start_after: Option<u128>,
) -> Seq<PositionResponse>
    decreases s.len(),
{
    if s.len() == 0 {
        Seq::empty()
    } else {
        let rest = spec_select_desc(s.drop_last(), owner, asset_token, start_after);
        if spec_selected(s.last(), owner, asset_token, start_after, false) {
            seq![spec_to_response(s.last())] + rest
        } else {
            rest
        }
    }
}

/// The first `n` elements, or all of them when fewer.
pub open spec fn spec_take_up_to(s: Seq<PositionResponse>, n: int) -> Seq<PositionResponse> {
    if n >= s.len() {
        s
    } else {
        s.take(n)
    }
}

/// The page size: the requested limit capped at 30, or 10 by default.
pub open spec fn spec_limit(limit: Option<u32>) -> int {
    match limit {
        Some(l) => if l > 30 {
            30
        } else {
            l as int
        },
        None => 10,
    }
}

/// Ascending selection splits over concatenation.
pub proof fn lemma_select_asc_concat(
    a: Seq<Position>,
    b: Seq<Position>,
    owner: Option<&String>,
    asset_token: Option<&String>,
    start_after: Option<u128>,
)
    ensures
        spec_select_asc(a + b, owner, asset_token, start_after) == spec_select_asc(
            a,
            owner,
            asset_token,
            start_after,
        ) + spec_select_asc(b, owner, asset_token, start_after),
    decreases a.len(),
{
    if a.len() == 0 {
        assert(a + b =~= b);
        assert(spec_select_asc(a, owner, asset_token, start_after) + spec_select_asc(
            b,
            owner,
            asset_token,
            start_after,
        ) =~= spec_select_asc(b, owner, asset_token, start_after));
    } else {
        assert((a + b).drop_first() =~= a.drop_first() + b);
        assert((a + b)[0] == a[0]);
        lemma_select_asc_concat(a.drop_first(), b, owner, asset_token, start_after);
        if spec_selected(a[0], owner, asset_token, start_after, true) {
            assert(seq![spec_to_response(a[0])] + (spec_select_asc(
                a.drop_first(),
                owner,
                asset_token,
                start_after,
            ) + spec_select_asc(b, owner, asset_token, start_after)) =~= (seq![
                spec_to_response(a[0]),
            ] + spec_select_asc(a.drop_first(), owner, asset_token, start_after))
                + spec_select_asc(b, owner, asset_token, start_after));
        }
    }
}

/// Descending selection splits over concatenation, visiting `b` first.
pub proof fn lemma_select_desc_concat(
    a: Seq<Position>,
    b: Seq<Position>,
    owner: Option<&String>,
    asset_token: Option<&String>,
    start_after: Option<u128>,
)
    ensures
        spec_select_desc(a + b, owner, asset_token, start_after) == spec_select_desc(
            b,
            owner,
            asset_token,
            start_after,
        ) + spec_select_desc(a, owner, asset_token, start_after),
    decreases b.len(),
{
    if b.len() == 0 {
        assert(a + b =~= a);
        assert(spec_select_desc(b, owner, asset_token, start_after) + spec_select_desc(
            a,
            owner,
            asset_token,
            start_after,
        ) =~= spec_select_desc(a, owner, asset_token, start_after));
    } else {
        assert((a + b).drop_last() =~= a + b.drop_last());
        assert((a + b).last() == b.last());
        lemma_select_desc_concat(a, b.drop_last(), owner, asset_token, start_after);
        if spec_selected(b.last(), owner, asset_token, start_after, false) {
            assert(seq![spec_to_response(b.last())] + (spec_select_desc(
                b.drop_last(),
                owner,
                asset_token,
                start_after,
            ) + spec_select_desc(a, owner, asset_token, start_after)) =~= (seq![
                spec_to_response(b.last()),
            ] + spec_select_desc(b.drop_last(), owner, asset_token, start_after))
                + spec_select_desc(a, owner, asset_token, start_after));
        }
    }
}

impl MintEngine {
    /// The stored position under the given index, or a not-found rejection.
    pub fn query_position(&self, position_idx: u128) -> (r: Result<
        PositionResponse,
        ContractError,
    >)
        ensures
            match spec_find_position(self.positions@, position_idx) {
                Some(p) => r == Ok::<PositionResponse, ContractError>(spec_to_response(p)),
                None => r == Err::<PositionResponse, ContractError>(
                    ContractError::PositionNotFound,
                ),
            },
    {
        match find_position_idx(&self.positions, position_idx) {
            Some(i) => Ok(
                PositionResponse {
                    idx: self.positions[i].idx,
                    owner: self.positions[i].owner.clone(),
                    collateral: self.positions[i].collateral.clone(),
                    asset: self.positions[i].asset.clone(),
                },
            ),
            None => Err(ContractError::PositionNotFound),
        }
    }

    /// The index the next opened position will get.
    pub fn query_next_position_idx(&self) -> (r: NextPositionIdxResponse)
        ensures
            r.next_position_idx == self.position_idx,
    {
        NextPositionIdxResponse { next_position_idx: self.position_idx }
    }

    /// The current configuration.
    pub fn query_config(&self) -> (r: ConfigResponse)
        ensures
            r.owner == self.config.owner,
            r.oracle == self.config.oracle,
            r.collector == self.config.collector,
            r.collateral_oracle == self.config.collateral_oracle,
            r.staking == self.config.staking,
            r.tswap_factory == self.config.tswap_factory,
            r.base_denom == self.config.base_denom,
            r.token_code_id == self.config.token_code_id,
            r.protocol_fee_rate == self.config.protocol_fee_rate,
    {
        ConfigResponse {
            owner: self.config.owner.clone(),
            oracle: self.config.oracle.clone(),
            collector: self.config.collector.clone(),
            collateral_oracle: self.config.collateral_oracle.clone(),
            staking: self.config.staking.clone(),
            tswap_factory: self.config.tswap_factory.clone(),
            base_denom: self.config.base_denom.clone(),
            token_code_id: self.config.token_code_id,
            protocol_fee_rate: self.config.protocol_fee_rate,
        }
    }

    /// The registry entry for the named asset, or a not-found rejection.
    pub fn query_asset_config(&self, asset_token: &String) -> (r: Result<
        AssetConfigResponse,
        ContractError,
    >)
        ensures
            match spec_find_asset(self.assets@, asset_token@) {
                Some(a) => r is Ok && r->Ok_0 == (AssetConfigResponse {
                    token: a.token,
                    min_collateral_ratio: a.min_collateral_ratio,
                    end_price: a.end_price,
                }),
                None => r == Err::<AssetConfigResponse, ContractError>(
                    ContractError::AssetNotFound,
                ),
            },
    {
        match find_asset_idx(&self.assets, asset_token) {
            Some(i) => Ok(
                AssetConfigResponse {
                    token: self.assets[i].token.clone(),
                    min_collateral_ratio: self.assets[i].min_collateral_ratio,
                    end_price: self.assets[i].end_price,
                },
            ),
            None => Err(ContractError::AssetNotFound),
        }
    }

    /// A page of positions: filtered by owner and/or asset, ordered by
    /// index in the chosen direction (descending by default), resuming
    /// strictly after `start_after`, and capped at the limit (10 by
    /// default, at most 30).
    pub fn query_positions(
        &self,
        owner_addr: Option<&String>,
        asset_token: Option<&String>,
        start_after: Option<u128>,
        limit: Option<u32>,
        order_by: Option<OrderBy>,
    ) -> (r: PositionsResponse)
        ensures
            r.positions@ == (match order_by {
                Some(OrderBy::Asc) => spec_take_up_to(
                    spec_select_asc(self.positions@, owner_addr, asset_token, start_after),
                    spec_limit(limit),
                ),
                _ => spec_take_up_to(
                    spec_select_desc(self.positions@, owner_addr, asset_token, start_after),
                    spec_limit(limit),
                ),
            }),
    {
        let lim: usize = match limit {
            Some(l) => if l > 30 {
                30
            } else {
                l as usize
            },
            None => 10,
        };
        let n = self.positions.len();
        let mut out: Vec<PositionResponse> = Vec::new();
        let asc = match order_by {
            Some(OrderBy::Asc) => true,
            _ => false,
        };
        if asc {
            let mut i: usize = 0;
            proof {
                assert(self.positions@.take(0) =~= Seq::empty());
            }
            while i < n && out.len() < lim
                invariant
                    i <= n,
                    n == self.positions@.len(),
                    out@.len() <= lim,
                    out@ == spec_select_asc(
                        self.positions@.take(i as int),
                        owner_addr,
                        asset_token,
                        start_after,
                    ),
                decreases n - i,
            {
                let p = &self.positions[i];
                let selected = self.position_selected(p, owner_addr, asset_token, start_after, true);
                proof {
                    let ghost cur = self.positions@[i as int];
                    let ghost prefix = spec_select_asc(
                        self.positions@.take(i as int),
                        owner_addr,
                        asset_token,
                        start_after,
                    );
                    assert(self.positions@.take(i as int + 1) =~= self.positions@.take(i as int)
                        + seq![cur]);
                    lemma_select_asc_concat(
                        self.positions@.take(i as int),
                        seq![cur],
                        owner_addr,
                        asset_token,
                        start_after,
                    );
                    assert(seq![cur].drop_first() =~= Seq::<Position>::empty());
                    reveal_with_fuel(spec_select_asc, 2);
                    if spec_selected(cur, owner_addr, asset_token, start_after, true) {
                        assert(spec_select_asc(seq![cur], owner_addr, asset_token, start_after)
                            =~= seq![spec_to_response(cur)]);
                    } else {
                        assert(spec_select_asc(seq![cur], owner_addr, asset_token, start_after)
                            =~= Seq::<PositionResponse>::empty());
                        assert(prefix + Seq::<PositionResponse>::empty() =~= prefix);
                    }
                }
                if selected {
                    out.push(
                        PositionResponse {
                            idx: p.idx,
                            owner: p.owner.clone(),
                            collateral: p.collateral.clone(),
                            asset: p.asset.clone(),
                        },
                    );
                    proof {
                        assert(out@ =~= spec_select_asc(
                            self.positions@.take(i as int),
                            owner_addr,
                            asset_token,
                            start_after,
                        ) + seq![spec_to_response(self.positions@[i as int])]);
                    }
                }
                i += 1;
            }
            proof {
                let ghost full = spec_select_asc(
                    self.positions@,
                    owner_addr,
                    asset_token,
                    start_after,
                );
                if i == n {
                    assert(self.positions@.take(n as int) =~= self.positions@);
                    assert(out@ == full);
                    assert(spec_take_up_to(full, lim as int) == full);
                } else {
                    // The page filled up: the scanned prefix already holds
                    // `lim` selected positions.
                    assert(self.positions@ =~= self.positions@.take(i as int)
                        + self.positions@.skip(i as int));
                    lemma_select_asc_concat(
                        self.positions@.take(i as int),
                        self.positions@.skip(i as int),
                        owner_addr,
                        asset_token,
                        start_after,
                    );
                    assert(full.take(lim as int) =~= out@);
                }
            }
            PositionsResponse { positions: out }
        } else {
            let mut i: usize = n;
            proof {
                assert(self.positions@.skip(n as int) =~= Seq::empty());
            }
            while i > 0 && out.len() < lim
                invariant
                    i <= n,
                    n == self.positions@.len(),
                    out@.len() <= lim,
                    out@ == spec_select_desc(
                        self.positions@.skip(i as int),
                        owner_addr,
                        asset_token,
                        start_after,
                    ),
                decreases i,
            {
                i -= 1;
                let p = &self.positions[i];
                let selected = self.position_selected(
                    p,
                    owner_addr,
                    asset_token,
                    start_after,
                    false,
                );
                proof {
                    let ghost cur = self.positions@[i as int];
                    let ghost suffix = spec_select_desc(
                        self.positions@.skip(i as int + 1),
                        owner_addr,
                        asset_token,
                        start_after,
                    );
                    assert(self.positions@.skip(i as int) =~= seq![cur] + self.positions@.skip(
                        i as int + 1,
                    ));
                    lemma_select_desc_concat(
                        seq![cur],
                        self.positions@.skip(i as int + 1),
                        owner_addr,
                        asset_token,
                        start_after,
                    );
                    assert(seq![cur].drop_last() =~= Seq::<Position>::empty());
                    assert(seq![cur].last() == cur);
                    reveal_with_fuel(spec_select_desc, 2);
                    if spec_selected(cur, owner_addr, asset_token, start_after, false) {
                        assert(spec_select_desc(seq![cur], owner_addr, asset_token, start_after)
                            =~= seq![spec_to_response(cur)]);
                    } else {
                        assert(spec_select_desc(seq![cur], owner_addr, asset_token, start_after)
                            =~= Seq::<PositionResponse>::empty());
                        assert(suffix + Seq::<PositionResponse>::empty() =~= suffix);
                    }
                }
                if selected {
                    out.push(
                        PositionResponse {
                            idx: p.idx,
                            owner: p.owner.clone(),
                            collateral: p.collateral.clone(),
                            asset: p.asset.clone(),
                        },
                    );
                    proof {
                        assert(out@ =~= spec_select_desc(
                            self.positions@.skip(i as int + 1),
                            owner_addr,
                            asset_token,
                            start_after,
                        ) + seq![spec_to_response(self.positions@[i as int])]);
                    }
                }
            }
            proof {
                let ghost full = spec_select_desc(
                    self.positions@,
                    owner_addr,
                    asset_token,
                    start_after,
                );
                if i == 0 {
                    assert(self.positions@.skip(0) =~= self.positions@);
                    assert(out@ == full);
                    assert(spec_take_up_to(full, lim as int) == full);
                } else {
                    assert(self.positions@ =~= self.positions@.take(i as int)
                        + self.positions@.skip(i as int));
                    lemma_select_desc_concat(
                        self.positions@.take(i as int),
                        self.positions@.skip(i as int),
                        owner_addr,
                        asset_token,
                        start_after,
                    );
                    assert(full.take(lim as int) =~= out@);
                }
            }
            PositionsResponse { positions: out }
        }
    }

    /// Decides `spec_selected` for one stored position.
    fn position_selected(
        &self,
        p: &Position,
        owner_addr: Option<&String>,
        asset_token: Option<&String>,
        start_after: Option<u128>,
        asc: bool,
    ) -> (r: bool)
        ensures
            r == spec_selected(*p, owner_addr, asset_token, start_after, asc),
    {
        let owner_ok = match owner_addr {
            Some(o) => p.owner == *o,
            None => true,
        };
        let asset_ok = match asset_token {
            Some(t) => match &p.asset.info {
                AssetInfo::Token { contract_addr } => *contract_addr == *t,
                AssetInfo::NativeToken { .. } => false,
            },
            None => true,
        };
        let cursor_ok = match start_after {
            Some(k) => if asc {
                p.idx > k
            } else {
                p.idx < k
            },
            None => true,
        };
        owner_ok && asset_ok && cursor_ok
    }
}

} // verus!
