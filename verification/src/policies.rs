use vstd::prelude::*;

verus! {

/// The chains this indexer can run against.
#[derive(Debug, Clone, Copy, PartialEq, Eq, Structural)]
pub enum Chain {
    Mainnet,
    Testnet,
    Regtest,
    Signet,
}

/// Block heights at which protocol upgrades activate, fixed per chain and
/// never mutated at runtime.
pub struct HardForks;

/// Activation height of the self-issuance upgrade (the `self_mint` deploy
/// field), per chain. Test and development chains activate from genesis.
pub open spec fn spec_self_issuance_activation_height(chain: Chain) -> u32 {
    match chain {
        Chain::Mainnet => 837090u32,
        Chain::Testnet => 2413343u32,
        Chain::Regtest => 0u32,
        Chain::Signet => 0u32,
    }
}

impl HardForks {
    /// Block height from which the `self_mint` field of a deploy operation
    /// is honored on the given chain.
    pub fn self_issuance_activation_height(chain: Chain) -> (height: u32)
        ensures
            height == spec_self_issuance_activation_height(chain),
    {
        match chain {
            Chain::Mainnet => 837090,
            Chain::Testnet => 2413343,
            Chain::Regtest => 0,
            Chain::Signet => 0,
        }
    }
}

/// A decoded `self_mint` value after hard-fork gating: below the activation
/// height the field is treated as absent, whatever the wire carried.
pub open spec fn spec_gated_self_mint(chain: Chain, height: u32, raw: Option<bool>) -> Option<bool> {
    if height >= spec_self_issuance_activation_height(chain) {
        raw
    } else {
        None
    }
}

/// Apply hard-fork gating to a raw decoded `self_mint` value: the value is
/// honored at or above the chain's activation height and ignored below it.
pub fn gated_self_mint(chain: Chain, height: u32, raw: Option<bool>) -> (r: Option<bool>)
    ensures
        r == spec_gated_self_mint(chain, height, raw),
        height < spec_self_issuance_activation_height(chain) ==> r is None,
        height >= spec_self_issuance_activation_height(chain) ==> r == raw,
{
    if height >= HardForks::self_issuance_activation_height(chain) {
        raw
    } else {
        None
    }
}

} // verus!
