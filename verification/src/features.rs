//! Runtime feature flags reported to observers. The optional marketplace
//! and proof-verification features are not compiled into this build, so
//! both report off; analytics can only be enabled through configuration.

use vstd::prelude::*;

verus! {

/// Which optional feature groups this build carries.
#[derive(Debug, Clone, Copy, PartialEq, Eq, Structural)]
pub struct Features {
    /// Marketplace features: wallet, contracts, listings.
    pub marketplace: bool,
    /// Zero-knowledge proof verification.
    pub zk_proofs: bool,
    /// Advanced analytics dashboard.
    pub analytics: bool,
}

impl Default for Features {
    /// This build carries none of the optional features.
    fn default() -> (r: Self)
        ensures
            !r.marketplace,
            !r.zk_proofs,
            !r.analytics,
    {
        Features { marketplace: false, zk_proofs: false, analytics: false }
    }
}

impl Features {
    /// The feature flags of this build.
    pub fn new() -> (r: Self)
        ensures
            !r.marketplace,
            !r.zk_proofs,
            !r.analytics,
    {
        Features::default()
    }

    /// Whether any of the second-generation feature groups is on.
    pub fn has_v2_features(&self) -> (r: bool)
        ensures
            r == (self.marketplace || self.zk_proofs),
    {
        self.marketplace || self.zk_proofs
    }
}

} // verus!
