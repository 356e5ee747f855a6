use vstd::prelude::*;

verus! {

/// Where the server listens and which directory it serves.
pub struct RockConfig {
    pub root: String,
    pub host: String,
    pub port: u16,
}

impl RockConfig {
    /// Bundles the three settings, unchanged.
    pub fn new(root: String, host: String, port: u16) -> (c: RockConfig)
        ensures
            c.root == root,
            c.host == host,
            c.port == port,
    {
        RockConfig { root, host, port }
    }
}

} // verus!
