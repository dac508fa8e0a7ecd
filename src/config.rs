//! The daemon's configuration: where its socket lives and which pool it
//! works on.
use vstd::prelude::*;

use crate::zfs::Pool;

verus! {

/// The pool worked on when the configuration names none.
pub open spec fn default_pool_name() -> Seq<char> {
    "trunk"@
}

/// The pool worked on when the configuration names none.
pub fn default_zpool() -> (r: String)
    ensures
        r@ == default_pool_name(),
{
    String::from_str("trunk")
}

/// The daemon's configuration.
#[derive(Debug, Clone)]
pub struct Config {
    /// The path of the socket that the daemon listens on.
    pub socket: String,
    pub zfs: ZFSConfig,
}

/// Which pool the daemon works on.
#[derive(Debug, Clone)]
pub struct ZFSConfig {
    pub pool: String,
}

impl ZFSConfig {
    /// The configuration of the default pool.
    pub fn new() -> (r: ZFSConfig)
        ensures
            r.pool@ == default_pool_name(),
    {
        ZFSConfig { pool: default_zpool() }
    }

    /// The configured pool.
    pub fn controller(&self) -> (r: Pool)
        ensures
            r@ == self.pool@,
    {
        Pool::new(self.pool.as_str())
    }
}

} // verus!
