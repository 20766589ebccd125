use vstd::prelude::*;

verus! {

/// Process-wide configuration, assembled by the caller (for example
/// from the environment) and handed in at construction time.
///
/// `cache_ttl_seconds` is the time-to-live applied to every balance
/// entry the orchestrator writes; threading it through here rather
/// than reading it at each call site keeps the TTL policy explicit.
#[derive(Clone, Debug)]
pub struct Config {
    pub port: u16,
    pub solana_rpc_url: String,
    pub ethereum_rpc_url: String,
    pub database_url: String,
    pub cache_ttl_seconds: u64,
}

impl Config {
    pub fn new(
        port: u16,
        solana_rpc_url: String,
        ethereum_rpc_url: String,
        database_url: String,
        cache_ttl_seconds: u64,
    ) -> (config: Config)
        ensures
            config.port == port,
            config.solana_rpc_url@ == solana_rpc_url@,
            config.ethereum_rpc_url@ == ethereum_rpc_url@,
            config.database_url@ == database_url@,
            config.cache_ttl_seconds == cache_ttl_seconds,
    {
        Config { port, solana_rpc_url, ethereum_rpc_url, database_url, cache_ttl_seconds }
    }
}

} // verus!
