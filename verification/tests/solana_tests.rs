use wallet_portfolio::Chain;
use wallet_portfolio::config::Config;
use wallet_portfolio::errors::AppError;
use wallet_portfolio::solana_client::{
    SignatureRecord, SolanaAccountOutcome, SolanaClient, decode_account, derive_symbol,
};
use wallet_portfolio::token::TokenMetadata;

fn test_config() -> Config {
    Config::new(
        8000,
        "http://localhost:8899".to_string(),
        "http://localhost:8545".to_string(),
        "postgres://localhost/test".to_string(),
        30,
    )
}

fn client() -> SolanaClient {
    SolanaClient::new("http://localhost:8899".to_string(), test_config())
}

/// A syntactically valid, initialized token account: mint bytes,
/// owner bytes, little-endian amount, empty delegate, state 1, empty
/// native marker, zero delegated amount, empty close authority.
fn account_bytes(mint: [u8; 32], amount: u64) -> Vec<u8> {
    let mut data = Vec::new();
    data.extend_from_slice(&mint);
    data.extend_from_slice(&[7u8; 32]);
    data.extend_from_slice(&amount.to_le_bytes());
    data.extend_from_slice(&[0, 0, 0, 0]);
    data.extend_from_slice(&[0u8; 32]);
    data.push(1);
    data.extend_from_slice(&[0, 0, 0, 0]);
    data.extend_from_slice(&[0u8; 8]);
    data.extend_from_slice(&[0u8; 8]);
    data.extend_from_slice(&[0, 0, 0, 0]);
    data.extend_from_slice(&[0u8; 32]);
    assert_eq!(data.len(), 165);
    data
}

const VALID_SOL_ADDR: &str = "11111111111111111111111111111111";

#[test]
fn decode_account_reads_mint_and_amount() {
    let data = account_bytes([0u8; 32], 5_000);
    let (mint, amount) = decode_account(&data).unwrap();
    assert_eq!(mint, "1".repeat(32));
    assert_eq!(amount, 5_000);
}

#[test]
fn decode_account_rejects_corrupt_data() {
    assert!(decode_account(&vec![1, 2, 3]).is_none());
    let mut bad_state = account_bytes([0u8; 32], 10);
    bad_state[108] = 9;
    assert!(decode_account(&bad_state).is_none());
    let mut uninitialized = account_bytes([0u8; 32], 10);
    uninitialized[108] = 0;
    assert!(decode_account(&uninitialized).is_none());
    let mut bad_tag = account_bytes([0u8; 32], 10);
    bad_tag[72] = 3;
    assert!(decode_account(&bad_tag).is_none());
}

#[test]
fn corrupt_account_is_skipped_not_fatal() {
    let accounts = vec![
        SolanaAccountOutcome::Fetched {
            data: account_bytes([0u8; 32], 1_500),
            price: Some((2, None)),
            metadata: None,
        },
        SolanaAccountOutcome::Fetched {
            data: vec![0xde, 0xad],
            price: None,
            metadata: None,
        },
        SolanaAccountOutcome::Failed,
    ];
    let p = client().assemble_portfolio(VALID_SOL_ADDR, 9, Some((4, None)), &accounts, 77);
    assert_eq!(p.tokens.len(), 1);
    assert_eq!(p.tokens[0].amount, 1_500);
    assert_eq!(p.tokens[0].value_usd, 3_000);
    assert_eq!(p.tokens[0].mint_or_address, "1".repeat(32));
    assert_eq!(p.chain, Chain::Solana);
    assert_eq!(p.native_balance, 9);
    assert_eq!(p.native_value_usd, 36);
    assert_eq!(p.total_tokens_count, Some(2));
    assert_eq!(p.last_updated, Some(77));
}

#[test]
fn zero_amount_account_is_filtered() {
    let accounts = vec![SolanaAccountOutcome::Fetched {
        data: account_bytes([0u8; 32], 0),
        price: Some((2, None)),
        metadata: None,
    }];
    let p = client().assemble_portfolio(VALID_SOL_ADDR, 0, None, &accounts, 0);
    assert!(p.tokens.is_empty());
    assert_eq!(p.total_tokens_count, Some(0));
}

#[test]
fn symbol_comes_from_metadata_first_word() {
    let accounts = vec![SolanaAccountOutcome::Fetched {
        data: account_bytes([0u8; 32], 3),
        price: None,
        metadata: Some(TokenMetadata {
            name: Some("Wrapped SOL token".to_string()),
            logo_uri: None,
        }),
    }];
    let p = client().assemble_portfolio(VALID_SOL_ADDR, 0, None, &accounts, 0);
    assert_eq!(p.tokens[0].symbol, "Wrapped".to_string());
    assert_eq!(p.tokens[0].name, Some("Wrapped SOL token".to_string()));
    assert_eq!(p.tokens[0].decimals, 9);
}

#[test]
fn symbol_falls_back_to_mint_prefix() {
    let accounts = vec![SolanaAccountOutcome::Fetched {
        data: account_bytes([0u8; 32], 3),
        price: None,
        metadata: None,
    }];
    let p = client().assemble_portfolio(VALID_SOL_ADDR, 0, None, &accounts, 0);
    assert_eq!(p.tokens[0].symbol, "11111111".to_string());
}

#[test]
fn derive_symbol_handles_blank_and_short_inputs() {
    assert_eq!(derive_symbol(&Some("  \t ".to_string()), "mintmintmint"), "mintmint");
    assert_eq!(derive_symbol(&Some("   spaced name".to_string()), "m"), "spaced");
    assert_eq!(derive_symbol(&None, "abc"), "abc");
    assert_eq!(derive_symbol(&Some("One".to_string()), "abc"), "One");
}

#[test]
fn transactions_respect_limit_and_retrievability() {
    let signatures = vec![
        SignatureRecord {
            signature: "sig1".to_string(),
            block_time: Some(500),
            failed: false,
            retrievable: true,
        },
        SignatureRecord {
            signature: "sig2".to_string(),
            block_time: None,
            failed: true,
            retrievable: true,
        },
        SignatureRecord {
            signature: "sig3".to_string(),
            block_time: Some(300),
            failed: false,
            retrievable: false,
        },
        SignatureRecord {
            signature: "sig4".to_string(),
            block_time: Some(200),
            failed: false,
            retrievable: true,
        },
    ];
    let txs = client()
        .fetch_transactions(VALID_SOL_ADDR, &signatures, 3)
        .unwrap();
    assert_eq!(txs.len(), 2);
    assert_eq!(txs[0].hash, "sig1".to_string());
    assert_eq!(txs[0].timestamp, 500);
    assert_eq!(txs[0].status, "success".to_string());
    assert_eq!(txs[0].transaction_type, "transfer".to_string());
    assert_eq!(txs[0].token_symbol, "SOL".to_string());
    assert_eq!(txs[0].from, VALID_SOL_ADDR.to_string());
    assert_eq!(txs[1].hash, "sig2".to_string());
    assert_eq!(txs[1].timestamp, 0);
    assert_eq!(txs[1].status, "failed".to_string());
}

#[test]
fn transactions_reject_invalid_address() {
    let err = client()
        .fetch_transactions("0xabc", &Vec::new(), 5)
        .unwrap_err();
    assert!(matches!(err, AppError::InvalidAddress(_)));
}
