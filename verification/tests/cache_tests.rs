use wallet_portfolio::Chain;
use wallet_portfolio::cache::CacheService;
use wallet_portfolio::ethereum_client::EthereumClient;
use wallet_portfolio::config::Config;
use wallet_portfolio::orchestrator::PortfolioOrchestrator;
use wallet_portfolio::token::TokenMetadata;

fn test_config() -> Config {
    Config::new(
        8000,
        "http://localhost:8899".to_string(),
        "http://localhost:8545".to_string(),
        "postgres://localhost/test".to_string(),
        30,
    )
}

fn sample_snapshot(now: u64) -> wallet_portfolio::portfolio::PortfolioResponse {
    let client = EthereumClient::new("http://localhost:8545".to_string(), test_config());
    client.assemble_portfolio("0xabc", 1_000_000_000, Some((2, None)), &Vec::new(), now)
}

#[test]
fn cache_put_then_get_within_ttl_returns_snapshot() {
    let mut cache = CacheService::new();
    let snapshot = sample_snapshot(0);
    cache
        .set_balance("addrX", Chain::Ethereum, &snapshot, 30, 0)
        .unwrap();
    let got = cache.get_balance("addrX", Chain::Ethereum, 29).unwrap();
    assert_eq!(got.address, "0xabc".to_string());
    assert_eq!(got.native_balance, 1_000_000_000);
    assert_eq!(got.native_price_usd, 2);
    assert_eq!(got.native_value_usd, 2_000_000_000);
}

#[test]
fn cache_ttl_scenario_fresh_at_29_gone_at_31() {
    let mut cache = CacheService::new();
    let snapshot = sample_snapshot(0);
    cache
        .set_balance("addrX", Chain::Ethereum, &snapshot, 30, 0)
        .unwrap();
    assert!(cache.get_balance("addrX", Chain::Ethereum, 29).is_some());
    assert!(cache.get_balance("addrX", Chain::Ethereum, 31).is_none());
}

#[test]
fn cache_expiry_boundary_is_exclusive() {
    let mut cache = CacheService::new();
    let snapshot = sample_snapshot(0);
    cache
        .set_balance("k", Chain::Solana, &snapshot, 10, 5)
        .unwrap();
    assert!(cache.get_balance("k", Chain::Solana, 14).is_some());
    assert!(cache.get_balance("k", Chain::Solana, 15).is_none());
    assert!(cache.get_balance("k", Chain::Solana, 16).is_none());
}

#[test]
fn cache_miss_on_other_key_or_chain() {
    let mut cache = CacheService::new();
    let snapshot = sample_snapshot(0);
    cache
        .set_balance("addr1", Chain::Ethereum, &snapshot, 30, 0)
        .unwrap();
    assert!(cache.get_balance("addr2", Chain::Ethereum, 1).is_none());
    assert!(cache.get_balance("addr1", Chain::Solana, 1).is_none());
}

#[test]
fn cache_overwrite_replaces_entry() {
    let mut cache = CacheService::new();
    let first = sample_snapshot(0);
    let second = sample_snapshot(100);
    cache
        .set_balance("addr", Chain::Ethereum, &first, 30, 0)
        .unwrap();
    cache
        .set_balance("addr", Chain::Ethereum, &second, 30, 100)
        .unwrap();
    let got = cache.get_balance("addr", Chain::Ethereum, 120).unwrap();
    assert_eq!(got.last_updated, Some(100));
}

#[test]
fn price_namespace_roundtrip_and_expiry() {
    let mut cache = CacheService::new();
    cache.set_price("USDC", Chain::Ethereum, 1_000_000, 60, 0).unwrap();
    assert_eq!(cache.get_price("USDC", Chain::Ethereum, 59), Some(1_000_000));
    assert_eq!(cache.get_price("USDC", Chain::Ethereum, 60), None);
    assert_eq!(
        cache.get_price_with_change("USDC", Chain::Ethereum, 10),
        Some((1_000_000, None))
    );
}

#[test]
fn price_with_change_roundtrip() {
    let mut cache = CacheService::new();
    cache
        .set_price_with_change("SOL", Chain::Solana, 150_000_000, Some(-250), 60, 0)
        .unwrap();
    assert_eq!(
        cache.get_price_with_change("SOL", Chain::Solana, 30),
        Some((150_000_000, Some(-250)))
    );
    assert_eq!(cache.get_price("SOL", Chain::Solana, 30), Some(150_000_000));
}

#[test]
fn metadata_namespace_roundtrip() {
    let mut cache = CacheService::new();
    let metadata = TokenMetadata {
        name: Some("Wrapped SOL".to_string()),
        logo_uri: None,
    };
    cache
        .set_metadata("mint1", Chain::Solana, &metadata, 60, 0)
        .unwrap();
    let got = cache.get_metadata("mint1", Chain::Solana, 59).unwrap();
    assert_eq!(got.name, Some("Wrapped SOL".to_string()));
    assert_eq!(got.logo_uri, None);
    assert!(cache.get_metadata("mint1", Chain::Solana, 61).is_none());
}

#[test]
fn namespaces_are_independent() {
    let mut cache = CacheService::new();
    cache.set_price("same-id", Chain::Ethereum, 7, 60, 0).unwrap();
    assert!(cache.get_metadata("same-id", Chain::Ethereum, 1).is_none());
    assert!(cache.get_balance("same-id", Chain::Ethereum, 1).is_none());
}

#[test]
fn orchestrator_miss_fetch_store_then_hit() {
    let cache = CacheService::new();
    let mut orchestrator = PortfolioOrchestrator::new(cache, 30);
    assert!(orchestrator.lookup("0xabc", Chain::Ethereum, 0).is_none());
    let fetched = sample_snapshot(0);
    let returned = orchestrator
        .store_fetched("0xabc", Chain::Ethereum, fetched, 0)
        .unwrap();
    assert_eq!(returned.native_balance, 1_000_000_000);
    let hit = orchestrator.lookup("0xabc", Chain::Ethereum, 29).unwrap();
    assert_eq!(hit.native_balance, returned.native_balance);
    assert_eq!(hit.native_value_usd, returned.native_value_usd);
    assert_eq!(hit.last_updated, returned.last_updated);
    assert!(orchestrator.lookup("0xabc", Chain::Ethereum, 30).is_none());
}
