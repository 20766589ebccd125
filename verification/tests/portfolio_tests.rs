use wallet_portfolio::Chain;
use wallet_portfolio::config::Config;
use wallet_portfolio::errors::AppError;
use wallet_portfolio::ethereum_client::{EthereumClient, TokenQueryResult, popular_tokens};
use wallet_portfolio::token::TokenMetadata;

fn test_config() -> Config {
    Config::new(
        8000,
        "http://localhost:8899".to_string(),
        "http://localhost:8545".to_string(),
        "postgres://localhost/test".to_string(),
        30,
    )
}

fn client() -> EthereumClient {
    EthereumClient::new("http://localhost:8545".to_string(), test_config())
}

fn resolved(
    amount: u64,
    price: Option<(u64, Option<i64>)>,
    symbol: &str,
) -> TokenQueryResult {
    TokenQueryResult::Resolved {
        amount,
        decimals: 6,
        symbol: symbol.to_string(),
        price,
        metadata: None,
    }
}

#[test]
fn allow_list_has_eight_candidates() {
    let list = popular_tokens();
    assert_eq!(list.len(), 8);
    assert_eq!(list[0].1, "USDC".to_string());
    assert_eq!(list[0].0, "0xA0b86991c6218b36c1d19D4a2e9Eb0cE3606eB48".to_string());
    assert_eq!(list[7].1, "AAVE".to_string());
}

#[test]
fn two_of_eight_candidates_yield_two_holdings_and_count_three() {
    let list = popular_tokens();
    let mut results: Vec<(String, TokenQueryResult)> = Vec::new();
    for (i, (addr, symbol)) in list.into_iter().enumerate() {
        let outcome = match i {
            0 => resolved(5_000_000, Some((1, None)), &symbol),
            1 => resolved(70_000, Some((3, Some(120))), &symbol),
            2 | 3 | 4 => TokenQueryResult::Failed,
            _ => resolved(0, Some((9, None)), &symbol),
        };
        results.push((addr, outcome));
    }
    let p = client().assemble_portfolio("0xabc", 42, Some((2, None)), &results, 1700000000);
    assert_eq!(p.tokens.len(), 2);
    assert_eq!(p.total_tokens_count, Some(3));
    assert_eq!(p.tokens[0].symbol, "USDC".to_string());
    assert_eq!(p.tokens[0].amount, 5_000_000);
    assert_eq!(p.tokens[0].value_usd, 5_000_000);
    assert_eq!(p.tokens[1].symbol, "USDT".to_string());
    assert_eq!(p.tokens[1].value_usd, 210_000);
    assert_eq!(p.tokens[1].price_change_24h, Some(120));
    assert_eq!(p.chain, Chain::Ethereum);
    assert_eq!(p.last_updated, Some(1700000000));
}

#[test]
fn snapshot_invariants_hold_exactly() {
    let results = vec![(
        "0xToken".to_string(),
        resolved(1_000, Some((7, None)), "TOK"),
    )];
    let p = client().assemble_portfolio("0xabc", 300, Some((11, None)), &results, 5);
    assert_eq!(p.native_value_usd, 300u128 * 11u128);
    assert_eq!(p.native_price_usd, 11);
    for t in &p.tokens {
        assert_eq!(t.value_usd, (t.amount as u128) * (t.price_usd as u128));
        assert!(t.amount > 0);
    }
    assert_eq!(
        p.total_tokens_count,
        Some(p.tokens.len() + if p.native_balance > 0 { 1 } else { 0 })
    );
}

#[test]
fn zero_balance_tokens_are_filtered() {
    let results = vec![
        ("0xa".to_string(), resolved(0, Some((5, None)), "ZERO")),
        ("0xb".to_string(), resolved(9, Some((5, None)), "NINE")),
    ];
    let p = client().assemble_portfolio("0xabc", 0, Some((2, None)), &results, 0);
    assert_eq!(p.tokens.len(), 1);
    assert_eq!(p.tokens[0].symbol, "NINE".to_string());
    assert!(p.tokens.iter().all(|t| t.amount > 0));
    assert_eq!(p.total_tokens_count, Some(1));
}

#[test]
fn partial_failures_never_fail_the_fetch() {
    let results = vec![
        ("0xa".to_string(), TokenQueryResult::Failed),
        ("0xb".to_string(), resolved(4, Some((25, None)), "B")),
        ("0xc".to_string(), TokenQueryResult::Failed),
        ("0xd".to_string(), resolved(6, Some((50, None)), "D")),
    ];
    let p = client().assemble_portfolio("0xabc", 1, Some((1, None)), &results, 0);
    assert_eq!(p.tokens.len(), 2);
    assert_eq!(p.tokens[0].symbol, "B".to_string());
    assert_eq!(p.tokens[0].value_usd, 100);
    assert_eq!(p.tokens[1].symbol, "D".to_string());
    assert_eq!(p.tokens[1].value_usd, 300);
}

#[test]
fn failed_price_defaults_to_zero_not_omitted() {
    let results = vec![("0xheld".to_string(), resolved(123, None, "HELD"))];
    let p = client().assemble_portfolio("0xabc", 10, None, &results, 0);
    assert_eq!(p.tokens.len(), 1);
    assert_eq!(p.tokens[0].price_usd, 0);
    assert_eq!(p.tokens[0].value_usd, 0);
    assert_eq!(p.tokens[0].amount, 123);
    assert_eq!(p.native_price_usd, 0);
    assert_eq!(p.native_value_usd, 0);
    assert_eq!(p.total_tokens_count, Some(2));
}

#[test]
fn metadata_outcome_carries_through() {
    let meta = TokenMetadata {
        name: Some("Dai Stablecoin".to_string()),
        logo_uri: Some("https://example.org/dai.png".to_string()),
    };
    let results = vec![(
        "0xdai".to_string(),
        TokenQueryResult::Resolved {
            amount: 8,
            decimals: 18,
            symbol: "DAI".to_string(),
            price: Some((1, None)),
            metadata: Some(meta),
        },
    )];
    let p = client().assemble_portfolio("0xabc", 0, None, &results, 0);
    assert_eq!(p.tokens[0].name, Some("Dai Stablecoin".to_string()));
    assert_eq!(
        p.tokens[0].logo_uri,
        Some("https://example.org/dai.png".to_string())
    );
    assert_eq!(p.tokens[0].decimals, 18);
}

#[test]
fn ethereum_transactions_empty_for_valid_address() {
    let addr = "0xA0b86991c6218b36c1d19D4a2e9Eb0cE3606eB48";
    let txs = client().fetch_transactions(addr, 10).unwrap();
    assert!(txs.is_empty());
}

#[test]
fn ethereum_transactions_reject_invalid_address() {
    let err = client().fetch_transactions("not-an-address", 10).unwrap_err();
    assert!(matches!(err, AppError::InvalidAddress(_)));
}
