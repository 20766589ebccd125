use wallet_portfolio::Chain;
use wallet_portfolio::errors::AppError;
use wallet_portfolio::ethereum_client::encode_balance_of_call;
use wallet_portfolio::helpers::{
    format_address, is_valid_ethereum_address, is_valid_solana_address, parse_hex_u128,
    truncate_address,
};
use wallet_portfolio::transaction::TransactionQuery;
use wallet_portfolio::user::AddWalletRequest;

#[test]
fn ethereum_address_validation() {
    assert!(is_valid_ethereum_address(
        "0xA0b86991c6218b36c1d19D4a2e9Eb0cE3606eB48"
    ));
    assert!(!is_valid_ethereum_address(
        "A0b86991c6218b36c1d19D4a2e9Eb0cE3606eB48ab"
    ));
    assert!(!is_valid_ethereum_address("0x1234"));
    assert!(!is_valid_ethereum_address(
        "0xG0b86991c6218b36c1d19D4a2e9Eb0cE3606eB48"
    ));
    assert!(!is_valid_ethereum_address(""));
}

#[test]
fn solana_address_validation() {
    assert!(is_valid_solana_address("11111111111111111111111111111111"));
    assert!(is_valid_solana_address(
        "TokenkegQfeZyiNwAJbNbGKPFXCWuBvf9Ss623VQ5DA"
    ));
    assert!(!is_valid_solana_address("short"));
    assert!(!is_valid_solana_address(
        "l1111111111111111111111111111111"
    ));
    assert!(!is_valid_solana_address(
        "0OIl111111111111111111111111111111111111"
    ));
    assert!(!is_valid_solana_address(""));
}

#[test]
fn format_address_lowercases_ethereum() {
    assert_eq!(
        format_address("0xA0b86991C6218b36c1d19D4a2e9Eb0cE3606eB48", Chain::Ethereum),
        "0xa0b86991c6218b36c1d19d4a2e9eb0ce3606eb48".to_string()
    );
    assert_eq!(format_address("NoPrefix", Chain::Ethereum), "noprefix".to_string());
}

#[test]
fn format_address_keeps_solana_untouched() {
    assert_eq!(
        format_address("TokenkegQfeZyiNwAJbNbGKPFXCWuBvf9Ss623VQ5DA", Chain::Solana),
        "TokenkegQfeZyiNwAJbNbGKPFXCWuBvf9Ss623VQ5DA".to_string()
    );
}

#[test]
fn truncate_address_shortens_long_addresses() {
    assert_eq!(truncate_address("abcdefghij", 4, 3), "abcd...hij".to_string());
    assert_eq!(truncate_address("abcdefg", 4, 3), "abcdefg".to_string());
    assert_eq!(truncate_address("ab", 4, 3), "ab".to_string());
    assert_eq!(truncate_address("", 2, 2), "".to_string());
}

#[test]
fn hex_quantities_parse_exactly() {
    assert_eq!(parse_hex_u128("0"), Some(0));
    assert_eq!(parse_hex_u128("1a2B"), Some(0x1a2b));
    assert_eq!(parse_hex_u128("de0b6b3a7640000"), Some(1_000_000_000_000_000_000));
    assert_eq!(
        parse_hex_u128("ffffffffffffffffffffffffffffffff"),
        Some(u128::MAX)
    );
    assert_eq!(parse_hex_u128(""), None);
    assert_eq!(parse_hex_u128("12g4"), None);
    assert_eq!(parse_hex_u128("100000000000000000000000000000000"), None);
}

#[test]
fn balance_of_call_data_is_selector_plus_padded_owner() {
    assert_eq!(
        encode_balance_of_call("0xA0b86991c6218b36c1d19D4a2e9Eb0cE3606eB48"),
        "0x70a08231000000000000000000000000a0b86991c6218b36c1d19d4a2e9eb0ce3606eb48"
            .to_string()
    );
}

#[test]
fn chain_names() {
    assert_eq!(Chain::Ethereum.name(), "ethereum".to_string());
    assert_eq!(Chain::Solana.name(), "solana".to_string());
}

#[test]
fn error_status_codes_distinguish_categories() {
    assert_eq!(AppError::InvalidAddress("x".to_string()).status_code(), 400);
    assert_eq!(AppError::Database("x".to_string()).status_code(), 500);
    assert_eq!(AppError::Serialization("x".to_string()).status_code(), 500);
    assert_eq!(AppError::Http("x".to_string()).status_code(), 502);
    assert_eq!(AppError::Solana("x".to_string()).status_code(), 502);
    assert_eq!(AppError::Ethereum("x".to_string()).status_code(), 502);
    assert_eq!(AppError::Internal("x".to_string()).status_code(), 500);
}

#[test]
fn error_message_names_subsystem_and_detail() {
    assert_eq!(
        AppError::Solana("rpc unreachable".to_string()).message(),
        "Solana error: rpc unreachable".to_string()
    );
    assert_eq!(
        AppError::InvalidAddress("0x12".to_string()).message(),
        "Invalid address: 0x12".to_string()
    );
}

#[test]
fn transaction_query_limit_defaults_to_ten() {
    assert_eq!(TransactionQuery { limit: Some(3) }.effective_limit(), 3);
    assert_eq!(TransactionQuery { limit: None }.effective_limit(), 10);
}

#[test]
fn add_wallet_validation() {
    let ok_sol = AddWalletRequest {
        address: "11111111111111111111111111111111".to_string(),
        chain: "solana".to_string(),
        label: None,
        is_primary: None,
    };
    assert!(ok_sol.validate().is_ok());
    let ok_eth = AddWalletRequest {
        address: "0xA0b86991c6218b36c1d19D4a2e9Eb0cE3606eB48".to_string(),
        chain: "ethereum".to_string(),
        label: Some("main".to_string()),
        is_primary: Some(true),
    };
    assert!(ok_eth.validate().is_ok());
    let bad_chain = AddWalletRequest {
        address: "11111111111111111111111111111111".to_string(),
        chain: "dogecoin".to_string(),
        label: None,
        is_primary: None,
    };
    assert!(matches!(bad_chain.validate(), Err(AppError::InvalidAddress(_))));
    let bad_addr = AddWalletRequest {
        address: "nope".to_string(),
        chain: "solana".to_string(),
        label: None,
        is_primary: None,
    };
    assert!(bad_addr.validate().is_err());
    let crossed = AddWalletRequest {
        address: "11111111111111111111111111111111".to_string(),
        chain: "ethereum".to_string(),
        label: None,
        is_primary: None,
    };
    assert!(crossed.validate().is_err());
}
