//! Laws of the engine, proved from the operations' contracts.
//!
//! Each proof function here states a property that spans several operations
//! or every state, over the same specification functions the operations'
//! contracts use.

use vstd::prelude::*;

verus! {

use crate::asset::Asset;
use crate::decimal::Decimal;
use crate::positions::spec_burn_decision;
use crate::positions::spec_mint_decision;
use crate::positions::spec_protocol_fee;
use crate::positions::spec_collateral_info;
use crate::queries::spec_after_cursor;
use crate::queries::spec_select_asc;
use crate::queries::spec_select_desc;
use crate::queries::spec_selected;
use crate::queries::spec_to_response;
use crate::state::AssetConfig;
use crate::state::CollateralInfo;
use crate::state::MintEngine;
use crate::state::Position;
use crate::state::lemma_find_position_props;
use crate::state::spec_find_asset;
use crate::state::spec_find_position;

/// In a store with strictly increasing indices, looking up the index of the
/// `i`-th position finds exactly that position.
pub proof fn lemma_find_position_at(s: Seq<Position>, i: int)
    requires
        forall|j: int, k: int| 0 <= j < k < s.len() ==> (#[trigger] s[j]).idx < (#[trigger] s[k]).idx,
        0 <= i < s.len(),
    ensures
        spec_find_position(s, s[i].idx) == Some(s[i]),
{
    lemma_find_position_props(s, s[i].idx);
    match spec_find_position(s, s[i].idx) {
        None => {
            assert(s[i].idx == s[i].idx);
        },
        Some(p) => {
            let j = choose|j: int|
                0 <= j < s.len() && s[j] == p && #[trigger] s[j].idx == s[i].idx;
            if j < i {
                assert(s[j].idx < s[i].idx);
            }
            if i < j {
                assert(s[i].idx < s[j].idx);
            }
        },
    }
}

/// A position index is never reused: the next free index differs from the
/// index of every stored position, so the position created by an opening
/// operation gets a fresh index even if some position was fully closed.
pub proof fn lemma_next_index_fresh(s: MintEngine)
    requires
        s.wf(),
    ensures
        forall|i: int|
            0 <= i < s.positions@.len() ==> (#[trigger] s.positions@[i]).idx != s.position_idx,
        spec_find_position(s.positions@, s.position_idx) is None,
{
    lemma_find_position_props(s.positions@, s.position_idx);
    match spec_find_position(s.positions@, s.position_idx) {
        None => {
        },
        Some(p) => {
            let j = choose|j: int|
                0 <= j < s.positions@.len() && s.positions@[j] == p
                    && #[trigger] s.positions@[j].idx == s.position_idx;
            assert(s.positions@[j].idx < s.position_idx);
        },
    }
}

/// The protocol fee never exceeds the position's collateral.
pub proof fn lemma_protocol_fee_capped(
    burn_amt: u128,
    ap: Decimal,
    fee_rate: Decimal,
    cp: Decimal,
    col_amt: u128,
)
    requires
        cp.atomics > 0,
    ensures
        0 <= spec_protocol_fee(burn_amt, ap, fee_rate, cp, col_amt) <= col_amt,
{
    let n = burn_amt * ap.atomics * fee_rate.atomics;
    let d = cp.atomics * crate::decimal::DECIMAL_FRACTIONAL;
    assert(n >= 0) by (nonlinear_arith)
        requires
            n == burn_amt * ap.atomics * fee_rate.atomics,
            burn_amt >= 0,
            ap.atomics >= 0,
            fee_rate.atomics >= 0,
    ;
    assert(d > 0) by (nonlinear_arith)
        requires
            d == cp.atomics * crate::decimal::DECIMAL_FRACTIONAL,
            cp.atomics > 0,
            crate::decimal::DECIMAL_FRACTIONAL > 0,
    ;
    vstd::arithmetic::div_mod::lemma_div_pos_is_pos(n, d);
}

/// A fee rate of zero charges no fee.
pub proof fn lemma_protocol_fee_zero_rate(burn_amt: u128, ap: Decimal, cp: Decimal, col_amt: u128)
    requires
        cp.atomics > 0,
    ensures
        spec_protocol_fee(burn_amt, ap, (Decimal { atomics: 0 }), cp, col_amt) == 0,
{
    let n = burn_amt * ap.atomics * 0;
    let d = cp.atomics * crate::decimal::DECIMAL_FRACTIONAL;
    assert(n == 0) by (nonlinear_arith)
        requires
            n == burn_amt * ap.atomics * 0,
    ;
    assert(d > 0) by (nonlinear_arith)
        requires
            d == cp.atomics * crate::decimal::DECIMAL_FRACTIONAL,
            cp.atomics > 0,
            crate::decimal::DECIMAL_FRACTIONAL > 0,
    ;
    vstd::arithmetic::div_mod::lemma_div_of0(d);
}

/// Burning is the inverse of minting, up to the fee: after a mint of some
/// amount, burning exactly that amount returns the position's minted total
/// to its pre-mint value, and with a fee rate of zero (and a non-zero
/// collateral price) the collateral is untouched as well.
pub proof fn lemma_burn_inverts_mint(
    s: MintEngine,
    s2: MintEngine,
    sender: String,
    position_idx: u128,
    asset: Asset,
    oracle_asset_price: Decimal,
    oracle_collateral: CollateralInfo,
    i: int,
)
    requires
        s.wf(),
        0 <= i < s.positions@.len(),
        s.positions@[i].idx == position_idx,
        spec_mint_decision(
            s,
            sender,
            position_idx,
            asset,
            oracle_asset_price,
            oracle_collateral,
        ) is Ok,
        s2.config == s.config,
        s2.assets == s.assets,
        s2.position_idx == s.position_idx,
        s2.positions@ == s.positions@.update(
            i,
            spec_mint_decision(
                s,
                sender,
                position_idx,
                asset,
                oracle_asset_price,
                oracle_collateral,
            )->Ok_0,
        ),
        s.config.protocol_fee_rate.atomics == 0,
        spec_collateral_info(
            s.assets@,
            s.config,
            s.positions@[i].collateral.info,
            oracle_collateral,
        ).price.atomics != 0,
    ensures
        spec_burn_decision(
            s2,
            sender,
            position_idx,
            asset,
            oracle_asset_price,
            oracle_collateral,
        ) is Ok,
        spec_burn_decision(
            s2,
            sender,
            position_idx,
            asset,
            oracle_asset_price,
            oracle_collateral,
        )->Ok_0.1 == 0,
        spec_burn_decision(
            s2,
            sender,
            position_idx,
            asset,
            oracle_asset_price,
            oracle_collateral,
        )->Ok_0.0.asset.amount == s.positions@[i].asset.amount,
        spec_burn_decision(
            s2,
            sender,
            position_idx,
            asset,
            oracle_asset_price,
            oracle_collateral,
        )->Ok_0.0.collateral == s.positions@[i].collateral,
{
    let p = s.positions@[i];
    lemma_find_position_at(s.positions@, i);
    let p2 = spec_mint_decision(
        s,
        sender,
        position_idx,
        asset,
        oracle_asset_price,
        oracle_collateral,
    )->Ok_0;
    assert(spec_find_position(s.positions@, position_idx) == Some(p));
    assert(p2.idx == p.idx && p2.owner == p.owner && p2.collateral == p.collateral
        && p2.asset.info == p.asset.info && p2.asset.amount == p.asset.amount + asset.amount);
    assert(forall|j: int, k: int|
        0 <= j < k < s2.positions@.len() ==> (#[trigger] s2.positions@[j]).idx < (
        #[trigger] s2.positions@[k]).idx);
    assert(s2.positions@[i] == p2);
    lemma_find_position_at(s2.positions@, i);
    assert(spec_find_position(s2.positions@, position_idx) == Some(p2));
    lemma_protocol_fee_zero_rate(
        asset.amount,
        crate::positions::spec_asset_price(
            s2.assets@,
            s2.config,
            p2.asset.info,
            oracle_asset_price,
        ),
        spec_collateral_info(s2.assets@, s2.config, p2.collateral.info, oracle_collateral).price,
        p2.collateral.amount,
    );
    assert(s.config.protocol_fee_rate == (Decimal { atomics: 0 }));
    let pf = spec_burn_decision(
        s2,
        sender,
        position_idx,
        asset,
        oracle_asset_price,
        oracle_collateral,
    )->Ok_0;
    assert(pf.0.collateral == (Asset {
        info: p2.collateral.info,
        amount: (p2.collateral.amount - 0) as u128,
    }));
    assert(pf.0.collateral == p.collateral);
}

/// Ascending pagination is sound and complete: over a store with strictly
/// increasing indices, the ascending selection holds exactly the stored
/// positions that pass the filters and lie strictly after the cursor, in
/// increasing index order. `query_positions` then returns its first
/// `limit` elements.
pub proof fn lemma_pagination_asc(
    s: Seq<Position>,
    owner: Option<&String>,
    asset_token: Option<&String>,
    start_after: Option<u128>,
)
    requires
        forall|j: int, k: int|
            0 <= j < k < s.len() ==> (#[trigger] s[j]).idx < (#[trigger] s[k]).idx,
    ensures
        ({
            let sel = spec_select_asc(s, owner, asset_token, start_after);
            &&& forall|k1: int, k2: int|
                0 <= k1 < k2 < sel.len() ==> (#[trigger] sel[k1]).idx < (#[trigger] sel[k2]).idx
            &&& forall|k: int|
                0 <= k < sel.len() ==> spec_after_cursor((#[trigger] sel[k]).idx, start_after, true)
            &&& forall|k: int|
                0 <= k < sel.len() ==> exists|i: int|
                    0 <= i < s.len() && #[trigger] sel[k] == spec_to_response(s[i])
                        && spec_selected(s[i], owner, asset_token, start_after, true)
            &&& forall|i: int|
                0 <= i < s.len() && spec_selected(
                    #[trigger] s[i],
                    owner,
                    asset_token,
                    start_after,
                    true,
                ) ==> sel.contains(spec_to_response(s[i]))
        }),
    decreases s.len(),
{
    let sel = spec_select_asc(s, owner, asset_token, start_after);
    if s.len() > 0 {
        let d = s.drop_first();
        assert(forall|j: int, k: int|
            0 <= j < k < d.len() ==> (#[trigger] d[j]).idx < (#[trigger] d[k]).idx);
        lemma_pagination_asc(d, owner, asset_token, start_after);
        let rsel = spec_select_asc(d, owner, asset_token, start_after);
        assert forall|k: int| 0 <= k < rsel.len() implies (#[trigger] rsel[k]).idx > s[0].idx by {
            let i = choose|i: int|
                0 <= i < d.len() && #[trigger] rsel[k] == spec_to_response(d[i]) && spec_selected(
                    d[i],
                    owner,
                    asset_token,
                    start_after,
                    true,
                );
            assert(d[i] == s[i + 1]);
            assert(s[0].idx < s[i + 1].idx);
        }
        if spec_selected(s[0], owner, asset_token, start_after, true) {
            assert(sel == seq![spec_to_response(s[0])] + rsel);
            assert(sel[0] == spec_to_response(s[0]));
            assert forall|k1: int, k2: int| 0 <= k1 < k2 < sel.len() implies (
            #[trigger] sel[k1]).idx < (#[trigger] sel[k2]).idx by {
                if k1 == 0 {
                    assert(sel[k2] == rsel[k2 - 1]);
                } else {
                    assert(sel[k1] == rsel[k1 - 1] && sel[k2] == rsel[k2 - 1]);
                }
            }
            assert forall|k: int| 0 <= k < sel.len() implies spec_after_cursor(
                (#[trigger] sel[k]).idx,
                start_after,
                true,
            ) by {
                if k > 0 {
                    assert(sel[k] == rsel[k - 1]);
                }
            }
            assert forall|k: int| 0 <= k < sel.len() implies exists|i: int|
                0 <= i < s.len() && #[trigger] sel[k] == spec_to_response(s[i]) && spec_selected(
                    s[i],
                    owner,
                    asset_token,
                    start_after,
                    true,
                ) by {
                if k == 0 {
                    assert(0 <= 0 < s.len() && sel[0] == spec_to_response(s[0]) && spec_selected(
                        s[0],
                        owner,
                        asset_token,
                        start_after,
                        true,
                    ));
                } else {
                    let i = choose|i: int|
                        0 <= i < d.len() && #[trigger] rsel[k - 1] == spec_to_response(d[i])
                            && spec_selected(d[i], owner, asset_token, start_after, true);
                    assert(d[i] == s[i + 1]);
                    assert(0 <= i + 1 < s.len() && sel[k] == spec_to_response(s[i + 1])
                        && spec_selected(s[i + 1], owner, asset_token, start_after, true));
                }
            }
            assert forall|i: int|
                0 <= i < s.len() && spec_selected(
                    #[trigger] s[i],
                    owner,
                    asset_token,
                    start_after,
                    true,
                ) implies sel.contains(spec_to_response(s[i])) by {
                if i == 0 {
                    assert(sel[0] == spec_to_response(s[0]));
                } else {
                    assert(d[i - 1] == s[i]);
                    assert(rsel.contains(spec_to_response(d[i - 1])));
                    let k = choose|k: int|
                        0 <= k < rsel.len() && rsel[k] == spec_to_response(d[i - 1]);
                    assert(sel[k + 1] == spec_to_response(s[i]));
                }
            }
        } else {
            assert(sel == rsel);
            assert forall|i: int|
                0 <= i < s.len() && spec_selected(
                    #[trigger] s[i],
                    owner,
                    asset_token,
                    start_after,
                    true,
                ) implies sel.contains(spec_to_response(s[i])) by {
                assert(i != 0);
                assert(d[i - 1] == s[i]);
            }
        }
    }
}

/// Descending pagination is sound and complete: over a store with strictly
/// increasing indices, the descending selection holds exactly the stored
/// positions that pass the filters and lie strictly before the cursor, in
/// decreasing index order. `query_positions` then returns its first
/// `limit` elements.
pub proof fn lemma_pagination_desc(
    s: Seq<Position>,
    owner: Option<&String>,
    asset_token: Option<&String>,
    start_after: Option<u128>,
)
    requires
        forall|j: int, k: int|
            0 <= j < k < s.len() ==> (#[trigger] s[j]).idx < (#[trigger] s[k]).idx,
    ensures
        ({
            let sel = spec_select_desc(s, owner, asset_token, start_after);
            &&& forall|k1: int, k2: int|
                0 <= k1 < k2 < sel.len() ==> (#[trigger] sel[k1]).idx > (#[trigger] sel[k2]).idx
            &&& forall|k: int|
                0 <= k < sel.len() ==> spec_after_cursor(
                    (#[trigger] sel[k]).idx,
                    start_after,
                    false,
                )
            &&& forall|k: int|
                0 <= k < sel.len() ==> exists|i: int|
                    0 <= i < s.len() && #[trigger] sel[k] == spec_to_response(s[i])
                        && spec_selected(s[i], owner, asset_token, start_after, false)
            &&& forall|i: int|
                0 <= i < s.len() && spec_selected(
                    #[trigger] s[i],
                    owner,
                    asset_token,
                    start_after,
                    false,
                ) ==> sel.contains(spec_to_response(s[i]))
        }),
    decreases s.len(),
{
    let sel = spec_select_desc(s, owner, asset_token, start_after);
    if s.len() > 0 {
        let d = s.drop_last();
        let n = s.len() as int;
        assert(forall|j: int, k: int|
            0 <= j < k < d.len() ==> (#[trigger] d[j]).idx < (#[trigger] d[k]).idx);
        lemma_pagination_desc(d, owner, asset_token, start_after);
        let rsel = spec_select_desc(d, owner, asset_token, start_after);
        assert forall|k: int| 0 <= k < rsel.len() implies (#[trigger] rsel[k]).idx < s.last().idx by {
            let i = choose|i: int|
                0 <= i < d.len() && #[trigger] rsel[k] == spec_to_response(d[i]) && spec_selected(
                    d[i],
                    owner,
                    asset_token,
                    start_after,
                    false,
                );
            assert(d[i] == s[i]);
            assert(s[i].idx < s[n - 1].idx);
        }
        if spec_selected(s.last(), owner, asset_token, start_after, false) {
            assert(sel == seq![spec_to_response(s.last())] + rsel);
            assert(sel[0] == spec_to_response(s.last()));
            assert forall|k1: int, k2: int| 0 <= k1 < k2 < sel.len() implies (
            #[trigger] sel[k1]).idx > (#[trigger] sel[k2]).idx by {
                if k1 == 0 {
                    assert(sel[k2] == rsel[k2 - 1]);
                } else {
                    assert(sel[k1] == rsel[k1 - 1] && sel[k2] == rsel[k2 - 1]);
                }
            }
            assert forall|k: int| 0 <= k < sel.len() implies spec_after_cursor(
                (#[trigger] sel[k]).idx,
                start_after,
                false,
            ) by {
                if k > 0 {
                    assert(sel[k] == rsel[k - 1]);
                }
            }
            assert forall|k: int| 0 <= k < sel.len() implies exists|i: int|
                0 <= i < s.len() && #[trigger] sel[k] == spec_to_response(s[i]) && spec_selected(
                    s[i],
                    owner,
                    asset_token,
                    start_after,
                    false,
                ) by {
                if k == 0 {
                    assert(0 <= n - 1 < s.len() && sel[0] == spec_to_response(s[n - 1])
                        && spec_selected(s[n - 1], owner, asset_token, start_after, false));
                } else {
                    let i = choose|i: int|
                        0 <= i < d.len() && #[trigger] rsel[k - 1] == spec_to_response(d[i])
                            && spec_selected(d[i], owner, asset_token, start_after, false);
                    assert(d[i] == s[i]);
                    assert(0 <= i < s.len() && sel[k] == spec_to_response(s[i]) && spec_selected(
                        s[i],
                        owner,
                        asset_token,
                        start_after,
                        false,
                    ));
                }
            }
            assert forall|i: int|
                0 <= i < s.len() && spec_selected(
                    #[trigger] s[i],
                    owner,
                    asset_token,
                    start_after,
                    false,
                ) implies sel.contains(spec_to_response(s[i])) by {
                if i == n - 1 {
                    assert(sel[0] == spec_to_response(s[i]));
                } else {
                    assert(d[i] == s[i]);
                    assert(rsel.contains(spec_to_response(d[i])));
                    let k = choose|k: int| 0 <= k < rsel.len() && rsel[k] == spec_to_response(d[i]);
                    assert(sel[k + 1] == spec_to_response(s[i]));
                }
            }
        } else {
            assert(sel == rsel);
            assert forall|i: int|
                0 <= i < s.len() && spec_selected(
                    #[trigger] s[i],
                    owner,
                    asset_token,
                    start_after,
                    false,
                ) implies sel.contains(spec_to_response(s[i])) by {
                assert(i != n - 1);
                assert(d[i] == s[i]);
            }
        }
    }
}

/// Registering an asset identity makes a second registration of the same
/// identity find the existing entry, so the duplicate is rejected and, by
/// the registration contract, leaves the registry unchanged.
pub proof fn lemma_register_twice_rejected(assets: Seq<AssetConfig>, a: AssetConfig)
    ensures
        spec_find_asset(assets.push(a), a.token@) is Some,
    decreases assets.len(),
{
    if assets.len() == 0 {
        assert(assets.push(a)[0] == a);
    } else {
        if assets[0].token@ != a.token@ {
            lemma_register_twice_rejected(assets.drop_first(), a);
            assert(assets.push(a).drop_first() =~= assets.drop_first().push(a));
        }
    }
}

} // verus!
