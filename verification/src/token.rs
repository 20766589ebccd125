use vstd::prelude::*;

verus! {

/// Mathematical image of a [`Token`]: the same fields with strings
/// replaced by character sequences.
pub struct TokenModel {
    pub symbol: Seq<char>,
    pub mint_or_address: Seq<char>,
    pub amount: u64,
    pub decimals: u8,
    pub price_usd: u64,
    pub value_usd: u128,
    pub name: Option<Seq<char>>,
    pub logo_uri: Option<Seq<char>>,
    pub price_change_24h: Option<i64>,
}

impl TokenModel {
    /// A holding is well formed when its value is exactly its amount
    /// times its unit price, and it represents a positive balance
    /// (zero-balance accounts are filtered before they reach a
    /// snapshot).
    pub open spec fn wf(self) -> bool {
        &&& self.value_usd == self.amount as u128 * self.price_usd as u128
        &&& self.amount > 0
    }
}

/// One fungible asset held by an address.
///
/// Quantities are fixed-point integers: `amount` counts raw base units
/// of the asset (`decimals` gives the scale, i.e. how many base units
/// make one whole token is `10^decimals`), `price_usd` is the price of
/// one base unit in the smallest unit of the reference currency, and
/// `value_usd = amount * price_usd` exactly.  `price_change_24h` is in
/// basis points.
#[derive(Debug)]
pub struct Token {
    pub symbol: String,
    pub mint_or_address: String,
    pub amount: u64,
    pub decimals: u8,
    pub price_usd: u64,
    pub value_usd: u128,
    pub name: Option<String>,
    pub logo_uri: Option<String>,
    pub price_change_24h: Option<i64>,
}

pub open spec fn view_opt_string(s: Option<String>) -> Option<Seq<char>> {
    match s {
        Some(v) => Some(v@),
        None => None,
    }
}

impl View for Token {
    type V = TokenModel;

    open spec fn view(&self) -> TokenModel {
        TokenModel {
            symbol: self.symbol@,
            mint_or_address: self.mint_or_address@,
            amount: self.amount,
            decimals: self.decimals,
            price_usd: self.price_usd,
            value_usd: self.value_usd,
            name: view_opt_string(self.name),
            logo_uri: view_opt_string(self.logo_uri),
            price_change_24h: self.price_change_24h,
        }
    }
}

pub fn clone_opt_string(s: &Option<String>) -> (r: Option<String>)
    ensures
        view_opt_string(r) == view_opt_string(*s),
{
    match s {
        Some(v) => Some(v.clone()),
        None => None,
    }
}

impl Clone for Token {
    fn clone(&self) -> (r: Self)
        ensures
            r@ == self@,
    {
        Token {
            symbol: self.symbol.clone(),
            mint_or_address: self.mint_or_address.clone(),
            amount: self.amount,
            decimals: self.decimals,
            price_usd: self.price_usd,
            value_usd: self.value_usd,
            name: clone_opt_string(&self.name),
            logo_uri: clone_opt_string(&self.logo_uri),
            price_change_24h: self.price_change_24h,
        }
    }
}

/// The name and logo a metadata provider knows for a token; either
/// field may be absent.
#[derive(Debug)]
pub struct TokenMetadata {
    pub name: Option<String>,
    pub logo_uri: Option<String>,
}

/// Mathematical image of a [`TokenMetadata`].
pub struct TokenMetadataModel {
    pub name: Option<Seq<char>>,
    pub logo_uri: Option<Seq<char>>,
}

impl View for TokenMetadata {
    type V = TokenMetadataModel;

    open spec fn view(&self) -> TokenMetadataModel {
        TokenMetadataModel { name: view_opt_string(self.name), logo_uri: view_opt_string(self.logo_uri) }
    }
}

impl Clone for TokenMetadata {
    fn clone(&self) -> (r: Self)
        ensures
            r@ == self@,
    {
        TokenMetadata { name: clone_opt_string(&self.name), logo_uri: clone_opt_string(&self.logo_uri) }
    }
}

} // verus!
