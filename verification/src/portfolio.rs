use vstd::prelude::*;
use crate::Chain;
use crate::token::{Token, TokenModel, clone_opt_string, view_opt_string};

verus! {

/// Mathematical image of a [`PortfolioResponse`].
pub struct PortfolioModel {
    pub chain: Chain,
    pub address: Seq<char>,
    pub native_balance: u64,
    pub native_price_usd: u64,
    pub native_value_usd: u128,
    pub tokens: Seq<TokenModel>,
    pub total_tokens_count: Option<usize>,
    pub last_updated: Option<u64>,
}

impl PortfolioModel {
    /// The asset-count rule: every token holding plus one for the
    /// native asset when its balance is positive.
    pub open spec fn spec_count(self) -> int {
        self.tokens.len() + if self.native_balance > 0 { 1int } else { 0int }
    }

    /// A snapshot is well formed when the native value is exactly
    /// balance times price, every holding is well formed (which
    /// includes having a positive amount), and the stored count obeys
    /// the asset-count rule.
    pub open spec fn wf(self) -> bool {
        &&& self.native_value_usd == self.native_balance as u128 * self.native_price_usd as u128
        &&& forall|i: int| 0 <= i < self.tokens.len() ==> (#[trigger] self.tokens[i]).wf()
        &&& self.total_tokens_count matches Some(n) && n == self.spec_count()
    }
}

/// One address's holdings on one chain at fetch time.
///
/// Quantities are fixed-point integers as in [`Token`]:
/// `native_balance` counts raw base units of the chain's native asset,
/// `native_price_usd` is the price of one base unit in the smallest
/// unit of the reference currency, and
/// `native_value_usd = native_balance * native_price_usd` exactly.
/// `last_updated` is a Unix timestamp in seconds.
#[derive(Debug)]
pub struct PortfolioResponse {
    pub chain: Chain,
    pub address: String,
    pub native_balance: u64,
    pub native_price_usd: u64,
    pub native_value_usd: u128,
    pub tokens: Vec<Token>,
    pub total_tokens_count: Option<usize>,
    pub last_updated: Option<u64>,
}

impl View for PortfolioResponse {
    type V = PortfolioModel;

    open spec fn view(&self) -> PortfolioModel {
        PortfolioModel {
            chain: self.chain,
            address: self.address@,
            native_balance: self.native_balance,
            native_price_usd: self.native_price_usd,
            native_value_usd: self.native_value_usd,
            tokens: Seq::new(self.tokens@.len(), |i: int| self.tokens@[i]@),
            total_tokens_count: self.total_tokens_count,
            last_updated: self.last_updated,
        }
    }
}

impl PortfolioResponse {
    /// Whether the snapshot satisfies the invariants of its model; see
    /// [`PortfolioModel::wf`].
    pub open spec fn wf(self) -> bool {
        self@.wf()
    }
}

impl Clone for PortfolioResponse {
    fn clone(&self) -> (r: Self)
        ensures
            r@ == self@,
    {
        let mut tokens: Vec<Token> = Vec::new();
        let mut i: usize = 0;
        while i < self.tokens.len()
            invariant
                i <= self.tokens.len(),
                tokens@.len() == i as int,
                forall|j: int| 0 <= j < i ==> (#[trigger] tokens@[j])@ == self.tokens@[j]@,
            decreases self.tokens.len() - i,
        {
            tokens.push(self.tokens[i].clone());
            i += 1;
        }
        let r = PortfolioResponse {
            chain: self.chain,
            address: self.address.clone(),
            native_balance: self.native_balance,
            native_price_usd: self.native_price_usd,
            native_value_usd: self.native_value_usd,
            tokens,
            total_tokens_count: self.total_tokens_count,
            last_updated: self.last_updated,
        };
        proof {
            assert(r@.tokens =~= self@.tokens);
            assert(r@ == self@);
        }
        r
    }
}

} // verus!
