use vstd::prelude::*;

pub mod cache;
pub mod config;
pub mod errors;
pub mod ethereum_client;
pub mod helpers;
pub mod orchestrator;
pub mod portfolio;
pub mod solana_client;
pub mod token;
pub mod transaction;
pub mod user;

verus! {

/// Which of the two supported ledgers a value belongs to.
///
/// The two chains differ in how token holdings are discovered
/// (Ethereum: a fixed allow-list of contracts; Solana: enumeration of
/// program-owned token accounts) but present one uniform result shape.
#[derive(Clone, Copy, Debug, PartialEq, Eq, Structural)]
pub enum Chain {
    Ethereum,
    Solana,
}

impl Chain {
    /// The lower-case chain name used in responses and cache keys.
    pub open spec fn spec_name(self) -> Seq<char> {
        match self {
            Chain::Ethereum => "ethereum"@,
            Chain::Solana => "solana"@,
        }
    }

    pub fn name(&self) -> (name: String)
        ensures
            name@ == self.spec_name(),
    {
        match self {
            Chain::Ethereum => "ethereum".to_owned(),
            Chain::Solana => "solana".to_owned(),
        }
    }
}

} // verus!
