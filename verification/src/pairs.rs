//! A lookup table of token-pair contracts.
//!
//! Hosts that resolve trading pairs keep one of these: each entry maps the
//! concatenation of two asset names to the address of the contract trading
//! that pair.

use vstd::prelude::*;

verus! {

use std::collections::HashMap;
use vstd::string::StringExecFns;

/// A table of pair contracts, keyed by the two asset names joined together.
pub struct TswapPairQuerier {
    /// The pair contract for each concatenated asset-name key.
    pub pairs: HashMap<String, String>,
}

impl TswapPairQuerier {
    /// Builds the table from `(first asset, second asset, pair contract)`
    /// triples.
    pub fn new(pairs: &[(&String, &String, &String)]) -> (r: TswapPairQuerier) {
        TswapPairQuerier { pairs: paris_to_map(pairs) }
    }
}

/// Collects `(first asset, second asset, pair contract)` triples into a map
/// keyed by the two asset names joined together.
pub fn paris_to_map(pairs: &[(&String, &String, &String)]) -> (r: HashMap<String, String>) {
    let mut pairs_map: HashMap<String, String> = HashMap::new();
    let n = pairs.len();
    let mut i: usize = 0;
    while i < n
        invariant
            n == pairs@.len(),
            i <= n,
        decreases n - i,
    {
        let (asset1, asset2, pair) = pairs[i];
        let key = asset1.clone().concat(asset2.as_str());
        pairs_map.insert(key, pair.clone());
        i += 1;
    }
    pairs_map
}

} // verus!
