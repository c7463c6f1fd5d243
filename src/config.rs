//! Settings of the whole service.
use vstd::prelude::*;

verus! {

#[derive(Clone, Debug, PartialEq, Eq)]
pub struct Config {
    pub listen: String,
    pub storage_dir: String,
    pub base_url: String,
    pub cdn_url: String,
    pub redis_server: String,
    pub stat_url: String,
    pub btcpay: BTCPayConfig,
}

/// Access to the payment processor.
#[derive(Clone, Debug, PartialEq, Eq)]
pub struct BTCPayConfig {
    pub key: String,
    pub url: String,
    pub merchant: String,
    /// Where the processor sends payment notifications.
    pub webhook: String,
}

} // verus!
