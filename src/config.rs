//! Process configuration, constructed once at startup and passed explicitly.

use vstd::prelude::*;

verus! {

/// Where and how to reach the data store.
pub struct DatabaseConfig {
    pub host: String,
    pub port: u16,
    pub namespace: String,
    pub database: String,
    pub username: String,
    pub password: String,
}

/// The read-only process-wide values: the origin URL and the global signing
/// secret.
pub struct ConfigGetter {
    pub origin_url: String,
    pub secret_key: String,
}

impl ConfigGetter {
    /// The origin URL.
    pub fn get_origin_url(&self) -> (r: String)
        ensures
            r@ == self.origin_url@,
    {
        self.origin_url.clone()
    }

    /// The global signing secret.
    pub fn get_secret_key(&self) -> (r: String)
        ensures
            r@ == self.secret_key@,
    {
        self.secret_key.clone()
    }
}

} // verus!
