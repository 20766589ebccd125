use vstd::prelude::*;
use crate::errors::AppError;
use crate::helpers::{
    is_valid_ethereum_address, is_valid_solana_address, spec_valid_eth_address,
    spec_valid_solana_address,
};

verus! {

/// A request to register a user.
#[derive(Debug)]
pub struct CreateUserRequest {
    pub email: String,
    pub username: Option<String>,
}

/// A request to attach a wallet to a user.
#[derive(Debug)]
pub struct AddWalletRequest {
    pub address: String,
    pub chain: String,
    pub label: Option<String>,
    pub is_primary: Option<bool>,
}

impl AddWalletRequest {
    /// A request is acceptable when it names one of the two supported
    /// chains and its address is syntactically valid for that chain.
    pub open spec fn spec_acceptable(self) -> bool {
        ||| (self.chain@ == "solana"@ && spec_valid_solana_address(self.address@))
        ||| (self.chain@ == "ethereum"@ && spec_valid_eth_address(self.address@))
    }

    /// Checks the chain name and the address format; rejected requests
    /// carry the offending field.
    pub fn validate(&self) -> (r: Result<(), AppError>)
        ensures
            r is Ok <==> self.spec_acceptable(),
            r matches Err(e) ==> e matches AppError::InvalidAddress(_),
    {
        proof {
            reveal_strlit("solana");
            reveal_strlit("ethereum");
            assert("solana"@.len() == 6);
            assert("ethereum"@.len() == 8);
            assert("solana"@ != "ethereum"@);
        }
        let solana: String = "solana".to_owned();
        let ethereum: String = "ethereum".to_owned();
        if self.chain == solana {
            if is_valid_solana_address(self.address.as_str()) {
                Ok(())
            } else {
                Err(AppError::InvalidAddress(self.address.clone()))
            }
        } else if self.chain == ethereum {
            if is_valid_ethereum_address(self.address.as_str()) {
                Ok(())
            } else {
                Err(AppError::InvalidAddress(self.address.clone()))
            }
        } else {
            Err(AppError::InvalidAddress(self.chain.clone()))
        }
    }
}

} // verus!
