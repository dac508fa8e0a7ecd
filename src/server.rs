//! The service behind the socket: each request is served on the pool that
//! the configuration names, with no state kept between requests.
use vstd::prelude::*;

use crate::config::Config;
use crate::runner::Error;
use crate::zfs::Pool;

verus! {

/// The service, with its configuration.
#[derive(Debug, Clone)]
pub struct Server {
    config: Config,
}

impl Server {
    /// The service for `config`.
    pub fn new_with_config(config: Config) -> (r: Server)
        ensures
            r.config() == config,
    {
        Server { config }
    }

    pub closed spec fn config(&self) -> Config {
        self.config
    }

    /// The service's configuration.
    pub fn settings(&self) -> (r: &Config)
        ensures
            *r == self.config(),
    {
        &self.config
    }

    /// The pool that a request is served on.
    pub fn pool(&self) -> (r: Pool)
        ensures
            r@ == self.config().zfs.pool@,
    {
        self.config.zfs.controller()
    }

    /// The text that a failed request reports to its caller: every kind of
    /// failure is reported alike, by its message.
    pub fn status_message(e: &Error) -> (r: String)
        ensures
            r@ == e.spec_message(),
    {
        e.message()
    }
}

} // verus!
