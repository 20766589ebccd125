use vstd::prelude::*;
use crate::Chain;
use crate::config::Config;
use crate::errors::AppError;
use crate::helpers::{
    format_address, is_valid_ethereum_address, spec_is_hex_digit, spec_lower,
    spec_valid_eth_address,
};
use crate::portfolio::{PortfolioModel, PortfolioResponse};
use crate::token::{Token, TokenMetadata, TokenMetadataModel, TokenModel, clone_opt_string};
use crate::transaction::Transaction;

verus! {

/// The outcome of resolving one allow-listed token candidate against
/// the chain and the price/metadata providers.
///
/// `Failed` records that the three per-token calls (balance-of,
/// decimals, symbol) could not all be completed; such a candidate is
/// skipped without failing the whole fetch.  In `Resolved`, `price` is
/// `None` when the price provider failed (the holding then defaults to
/// a zero price rather than being dropped) and `metadata` is `None`
/// when the metadata provider failed.
pub enum TokenQueryResult {
    Failed,
    Resolved {
        amount: u64,
        decimals: u8,
        symbol: String,
        price: Option<(u64, Option<i64>)>,
        metadata: Option<TokenMetadata>,
    },
}

/// Mathematical image of a [`TokenQueryResult`].
pub enum TokenQueryModel {
    Failed,
    Resolved {
        amount: u64,
        decimals: u8,
        symbol: Seq<char>,
        price: Option<(u64, Option<i64>)>,
        metadata: Option<TokenMetadataModel>,
    },
}

impl View for TokenQueryResult {
    type V = TokenQueryModel;

    open spec fn view(&self) -> TokenQueryModel {
        match self {
            TokenQueryResult::Failed => TokenQueryModel::Failed,
            TokenQueryResult::Resolved { amount, decimals, symbol, price, metadata } => {
                TokenQueryModel::Resolved {
                    amount: *amount,
                    decimals: *decimals,
                    symbol: symbol@,
                    price: *price,
                    metadata: match metadata {
                        Some(m) => Some(m@),
                        None => None,
                    },
                }
            },
        }
    }
}

/// The price actually applied to an asset: the provider's figure, or
/// zero when the provider failed.
pub open spec fn spec_applied_price(price: Option<(u64, Option<i64>)>) -> u64 {
    match price {
        Some(pc) => pc.0,
        None => 0,
    }
}

/// The 24h change actually applied: absent when the provider failed.
pub open spec fn spec_applied_change(price: Option<(u64, Option<i64>)>) -> Option<i64> {
    match price {
        Some(pc) => pc.1,
        None => None,
    }
}

/// Whether a candidate contributes a holding: it resolved and its
/// balance is positive.
pub open spec fn spec_included(q: TokenQueryModel) -> bool {
    q matches TokenQueryModel::Resolved { amount, .. } && amount > 0
}

/// The holding built from one resolved candidate.
pub open spec fn spec_resolved_token(id: Seq<char>, q: TokenQueryModel) -> TokenModel
    recommends
        q is Resolved,
{
    match q {
        TokenQueryModel::Resolved { amount, decimals, symbol, price, metadata } => TokenModel {
            symbol,
            mint_or_address: id,
            amount,
            decimals,
            price_usd: spec_applied_price(price),
            value_usd: (amount as u128 * spec_applied_price(price) as u128) as u128,
            name: match metadata {
                Some(m) => m.name,
                None => None,
            },
            logo_uri: match metadata {
                Some(m) => m.logo_uri,
                None => None,
            },
            price_change_24h: spec_applied_change(price),
        },
        TokenQueryModel::Failed => arbitrary(),
    }
}

/// The holdings of a snapshot, in candidate order: one entry per
/// resolved candidate with a positive balance; failed and zero-balance
/// candidates contribute nothing.
pub open spec fn spec_holdings(rs: Seq<(Seq<char>, TokenQueryModel)>) -> Seq<TokenModel>
    decreases rs.len(),
{
    if rs.len() == 0 {
        Seq::empty()
    } else {
        let rest = spec_holdings(rs.drop_last());
        if spec_included(rs.last().1) {
            rest.push(spec_resolved_token(rs.last().0, rs.last().1))
        } else {
            rest
        }
    }
}

/// The views of a list of (token identifier, outcome) pairs.
pub open spec fn view_results(rs: Seq<(String, TokenQueryResult)>) -> Seq<
    (Seq<char>, TokenQueryModel),
> {
    Seq::new(rs.len(), |i: int| (rs[i].0@, rs[i].1@))
}

/// The full snapshot assembled from an address's native balance, the
/// native price outcome and the per-candidate outcomes at time `now`.
pub open spec fn spec_assembled_portfolio(
    chain: Chain,
    address: Seq<char>,
    native_balance: u64,
    native_price: Option<(u64, Option<i64>)>,
    rs: Seq<(Seq<char>, TokenQueryModel)>,
    now: u64,
) -> PortfolioModel {
    let price = spec_applied_price(native_price);
    let tokens = spec_holdings(rs);
    PortfolioModel {
        chain,
        address,
        native_balance,
        native_price_usd: price,
        native_value_usd: (native_balance as u128 * price as u128) as u128,
        tokens,
        total_tokens_count: Some(
            (tokens.len() + if native_balance > 0 {
                1int
            } else {
                0int
            }) as usize,
        ),
        last_updated: Some(now),
    }
}

/// The product of two 64-bit quantities always fits the 128-bit value
/// field, so `value = amount * price` never overflows.
pub proof fn lemma_u64_mul_fits(a: u64, b: u64)
    ensures
        (a as u128) * (b as u128) <= u128::MAX,
{
    assert((a as u128) * (b as u128) <= u128::MAX) by (nonlinear_arith)
        requires
            a <= u64::MAX && b <= u64::MAX,
    ;
}

/// Every holding an assembly produces is well formed, and failed
/// candidates are tolerated: the holdings are exactly those of the
/// successfully resolved candidates, so of `N` candidates with `M`
/// failures the remaining `N - M` still contribute, and a failure
/// never removes another candidate's holding.
pub proof fn lemma_partial_failure_tolerance(rs: Seq<(Seq<char>, TokenQueryModel)>)
    ensures
        spec_holdings(rs).len() <= rs.len(),
        spec_holdings(rs) == spec_holdings(
            rs.filter(|p: (Seq<char>, TokenQueryModel)| !(p.1 is Failed)),
        ),
        forall|i: int| 0 <= i < spec_holdings(rs).len() ==> (#[trigger] spec_holdings(rs)[i]).wf(),
    decreases rs.len(),
{
    reveal_with_fuel(Seq::filter, 2);
    let pred = |p: (Seq<char>, TokenQueryModel)| !(p.1 is Failed);
    if rs.len() == 0 {
    } else {
        lemma_partial_failure_tolerance(rs.drop_last());
        assert(rs.filter(pred).len() <= rs.len()) by {
            rs.lemma_filter_len(pred);
        }
        if pred(rs.last()) {
            assert(rs.filter(pred) == rs.drop_last().filter(pred).push(rs.last()));
            assert(rs.filter(pred).drop_last() =~= rs.drop_last().filter(pred));
            assert(rs.filter(pred).last() == rs.last());
        } else {
            assert(rs.filter(pred) == rs.drop_last().filter(pred));
            assert(!spec_included(rs.last().1));
        }
        if spec_included(rs.last().1) {
            let t = spec_resolved_token(rs.last().0, rs.last().1);
            match rs.last().1 {
                TokenQueryModel::Resolved { amount, price, .. } => {
                    lemma_u64_mul_fits(amount, spec_applied_price(price));
                    assert(t.wf());
                },
                TokenQueryModel::Failed => {},
            }
            assert forall|i: int| 0 <= i < spec_holdings(rs).len() implies (
            #[trigger] spec_holdings(rs)[i]).wf() by {
                if i < spec_holdings(rs.drop_last()).len() {
                    assert(spec_holdings(rs)[i] == spec_holdings(rs.drop_last())[i]);
                } else {
                    assert(spec_holdings(rs)[i] == t);
                }
            }
        }
    }
}

/// A candidate that resolved with a positive balance contributes its
/// holding to the assembled list, whatever the other candidates did.
pub proof fn lemma_included_appears(rs: Seq<(Seq<char>, TokenQueryModel)>, i: int)
    requires
        0 <= i < rs.len(),
        spec_included(rs[i].1),
    ensures
        spec_holdings(rs).contains(spec_resolved_token(rs[i].0, rs[i].1)),
    decreases rs.len(),
{
    let t = spec_resolved_token(rs[i].0, rs[i].1);
    if i == rs.len() - 1 {
        let h = spec_holdings(rs);
        assert(h.last() == t);
        assert(h[h.len() - 1] == t);
    } else {
        lemma_included_appears(rs.drop_last(), i);
        let rest = spec_holdings(rs.drop_last());
        let j = choose|j: int| 0 <= j < rest.len() && rest[j] == t;
        assert(spec_holdings(rs)[j] == t);
    }
}

/// Price-default fallback: when the price provider fails for a held
/// asset (the candidate resolved with a positive balance but no price
/// figure), the asset still appears in the assembled holdings, with a
/// zero unit price and a zero value, rather than being omitted or
/// failing the fetch.
pub proof fn lemma_price_default_fallback(rs: Seq<(Seq<char>, TokenQueryModel)>, i: int)
    requires
        0 <= i < rs.len(),
        rs[i].1 matches TokenQueryModel::Resolved { amount, price, .. } && amount > 0 && price
            is None,
    ensures
        spec_holdings(rs).contains(spec_resolved_token(rs[i].0, rs[i].1)),
        spec_resolved_token(rs[i].0, rs[i].1).price_usd == 0,
        spec_resolved_token(rs[i].0, rs[i].1).value_usd == 0,
        spec_resolved_token(rs[i].0, rs[i].1).mint_or_address == rs[i].0,
{
    lemma_included_appears(rs, i);
    match rs[i].1 {
        TokenQueryModel::Resolved { amount, price, .. } => {
            assert(spec_applied_price(price) == 0);
            assert((amount as u128) * 0 == 0) by (nonlinear_arith);
            assert(spec_resolved_token(rs[i].0, rs[i].1).value_usd == (amount as u128 * 0) as u128);
        },
        TokenQueryModel::Failed => {},
    }
}

/// The account-model backend: token candidates come from a fixed,
/// hand-curated allow-list of well-known contract addresses, so each
/// fetch issues a small, bounded number of calls.
pub struct EthereumClient {
    pub rpc_url: String,
    pub config: Config,
}

/// The allow-list of token contracts a fetch considers, as
/// (contract address, display symbol) pairs.
pub fn popular_tokens() -> (list: Vec<(String, String)>)
    ensures
        list@.len() == 8,
        list@[0].0@ == "0xA0b86991c6218b36c1d19D4a2e9Eb0cE3606eB48"@ && list@[0].1@ == "USDC"@,
        list@[1].0@ == "0xdAC17F958D2ee523a2206206994597C13D831ec7"@ && list@[1].1@ == "USDT"@,
        list@[2].0@ == "0x6B175474E89094C44Da98b954EedeAC495271d0F"@ && list@[2].1@ == "DAI"@,
        list@[3].0@ == "0x2260FAC5E5542a773Aa44fBCfeDf7C193bc2C599"@ && list@[3].1@ == "WBTC"@,
        list@[4].0@ == "0xC02aaA39b223FE8D0A0e5C4F27eAD9083C756Cc2"@ && list@[4].1@ == "WETH"@,
        list@[5].0@ == "0x1f9840a85d5aF5bf1D1762F925BDADdC4201F984"@ && list@[5].1@ == "UNI"@,
        list@[6].0@ == "0x514910771AF9Ca656af840dff83E8264EcF986CA"@ && list@[6].1@ == "LINK"@,
        list@[7].0@ == "0x7Fc66500c84A76Ad7e9c93437bFc5Ac33E2DDaE9"@ && list@[7].1@ == "AAVE"@,
{
    let mut list: Vec<(String, String)> = Vec::new();
    list.push(("0xA0b86991c6218b36c1d19D4a2e9Eb0cE3606eB48".to_owned(), "USDC".to_owned()));
    list.push(("0xdAC17F958D2ee523a2206206994597C13D831ec7".to_owned(), "USDT".to_owned()));
    list.push(("0x6B175474E89094C44Da98b954EedeAC495271d0F".to_owned(), "DAI".to_owned()));
    list.push(("0x2260FAC5E5542a773Aa44fBCfeDf7C193bc2C599".to_owned(), "WBTC".to_owned()));
    list.push(("0xC02aaA39b223FE8D0A0e5C4F27eAD9083C756Cc2".to_owned(), "WETH".to_owned()));
    list.push(("0x1f9840a85d5aF5bf1D1762F925BDADdC4201F984".to_owned(), "UNI".to_owned()));
    list.push(("0x514910771AF9Ca656af840dff83E8264EcF986CA".to_owned(), "LINK".to_owned()));
    list.push(("0x7Fc66500c84A76Ad7e9c93437bFc5Ac33E2DDaE9".to_owned(), "AAVE".to_owned()));
    list
}

/// A valid Ethereum address is ASCII: its characters are `0`, `x` and
/// hexadecimal digits.
proof fn lemma_eth_address_ascii(s: Seq<char>)
    requires
        spec_valid_eth_address(s),
    ensures
        vstd::utf8::is_ascii_chars(s),
{
    assert forall|i: int| 0 <= i < s.len() implies '\0' <= #[trigger] s[i] <= '\u{7f}' by {
        if i >= 2 {
            assert(spec_is_hex_digit(s[i]));
        }
    }
}

/// The call data of a balance-of query against the generic
/// fungible-token interface: the four-byte function selector followed
/// by the owner address, lower-cased and left-padded to a 32-byte
/// word.
pub fn encode_balance_of_call(owner: &str) -> (r: String)
    requires
        spec_valid_eth_address(owner@),
    ensures
        r@ == "0x70a08231000000000000000000000000"@ + spec_lower(owner@.subrange(2, 42)),
{
    proof {
        lemma_eth_address_ascii(owner@);
    }
    let lowered = format_address(owner, Chain::Ethereum);
    let tail = lowered.as_str().substring_char(2, 42);
    proof {
        assert(tail@ =~= spec_lower(owner@.subrange(2, 42)));
    }
    let mut r = "0x70a08231000000000000000000000000".to_owned();
    r.append(tail);
    r
}

impl EthereumClient {
    pub fn new(rpc_url: String, config: Config) -> (client: EthereumClient)
        ensures
            client.rpc_url@ == rpc_url@,
            client.config == config,
    {
        EthereumClient { rpc_url, config }
    }

    /// The pure tail of a portfolio fetch: given the native balance,
    /// the native price outcome and the outcome of every candidate,
    /// builds the snapshot.  Failed candidates and zero balances are
    /// skipped; a failed price lookup defaults the price to zero
    /// instead of dropping the asset or failing the fetch.
    pub fn assemble_portfolio(
        &self,
        address: &str,
        native_balance: u64,
        native_price: Option<(u64, Option<i64>)>,
        token_results: &Vec<(String, TokenQueryResult)>,
        now: u64,
    ) -> (p: PortfolioResponse)
        requires
            token_results@.len() < usize::MAX,
        ensures
            p.wf(),
            p@ == spec_assembled_portfolio(
                Chain::Ethereum,
                address@,
                native_balance,
                native_price,
                view_results(token_results@),
                now,
            ),
    {
        assemble(Chain::Ethereum, address, native_balance, native_price, token_results, now)
    }

    /// Transaction history needs an external indexer this system does
    /// not have; for a valid address the fetch legitimately reports an
    /// empty history (an acknowledged capability gap, not an error).
    pub fn fetch_transactions(&self, address: &str, limit: usize) -> (r: Result<
        Vec<Transaction>,
        AppError,
    >)
        ensures
            match r {
                Ok(v) => spec_valid_eth_address(address@) && v@.len() == 0,
                Err(e) => !spec_valid_eth_address(address@) && e matches AppError::InvalidAddress(_),
            },
    {
        let _ = limit;
        if !is_valid_ethereum_address(address) {
            return Err(AppError::InvalidAddress(address.to_owned()));
        }
        Ok(Vec::new())
    }
}

/// Shared assembly of a snapshot from plain outcome values; both chain
/// backends funnel their fetch results through this.
pub(crate) fn assemble(
    chain: Chain,
    address: &str,
    native_balance: u64,
    native_price: Option<(u64, Option<i64>)>,
    token_results: &Vec<(String, TokenQueryResult)>,
    now: u64,
) -> (p: PortfolioResponse)
    requires
        token_results@.len() < usize::MAX,
    ensures
        p.wf(),
        p@ == spec_assembled_portfolio(
            chain,
            address@,
            native_balance,
            native_price,
            view_results(token_results@),
            now,
        ),
{
    let ghost rs = view_results(token_results@);
    let mut tokens: Vec<Token> = Vec::new();
    let mut i: usize = 0;
    while i < token_results.len()
        invariant
            rs == view_results(token_results@),
            i <= token_results@.len(),
            token_results@.len() < usize::MAX,
            Seq::new(tokens@.len(), |j: int| tokens@[j]@) =~= spec_holdings(rs.take(i as int)),
            tokens@.len() <= i,
        decreases token_results@.len() - i,
    {
        let pair = &token_results[i];
        proof {
            assert(rs.take(i + 1).drop_last() =~= rs.take(i as int));
            assert(rs.take(i + 1).last() == (pair.0@, pair.1@));
        }
        match &pair.1 {
            TokenQueryResult::Failed => {},
            TokenQueryResult::Resolved { amount, decimals, symbol, price, metadata } => {
                if *amount > 0 {
                    let (pr, ch): (u64, Option<i64>) = match price {
                        Some(pc) => (pc.0, pc.1),
                        None => (0, None),
                    };
                    let (nm, lg): (Option<String>, Option<String>) = match metadata {
                        Some(m) => (clone_opt_string(&m.name), clone_opt_string(&m.logo_uri)),
                        None => (None, None),
                    };
                    proof {
                        assert((*amount as u128) * (pr as u128) <= u128::MAX) by (nonlinear_arith)
                            requires
                                *amount <= u64::MAX && pr <= u64::MAX,
                        ;
                    }
                    let value: u128 = (*amount as u128) * (pr as u128);
                    let token = Token {
                        symbol: symbol.clone(),
                        mint_or_address: pair.0.clone(),
                        amount: *amount,
                        decimals: *decimals,
                        price_usd: pr,
                        value_usd: value,
                        name: nm,
                        logo_uri: lg,
                        price_change_24h: ch,
                    };
                    proof {
                        assert(token@ == spec_resolved_token(pair.0@, pair.1@));
                    }
                    tokens.push(token);
                }
            },
        }
        i += 1;
    }
    proof {
        assert(rs.take(rs.len() as int) =~= rs);
        assert((native_balance as u128) * (spec_applied_price(native_price) as u128)
            <= u128::MAX) by (nonlinear_arith)
            requires
                native_balance <= u64::MAX && spec_applied_price(native_price) <= u64::MAX,
        ;
        lemma_partial_failure_tolerance(rs);
    }
    let native_price_usd: u64 = match native_price {
        Some(pc) => pc.0,
        None => 0,
    };
    let native_value: u128 = (native_balance as u128) * (native_price_usd as u128);
    let count: usize = tokens.len() + if native_balance > 0 {
        1
    } else {
        0
    };
    let p = PortfolioResponse {
        chain,
        address: address.to_owned(),
        native_balance,
        native_price_usd,
        native_value_usd: native_value,
        tokens,
        total_tokens_count: Some(count),
        last_updated: Some(now),
    };
    proof {
        assert(p@.tokens =~= spec_holdings(rs));
        assert(p@ == spec_assembled_portfolio(
            chain,
            address@,
            native_balance,
            native_price,
            rs,
            now,
        ));
    }
    p
}

} // verus!
