use juper_swap_api::address::Address;
use juper_swap_api::api::API;
use juper_swap_api::error::{ApiError, SwapStage};
use juper_swap_api::types::{Quote, SwapConfig, SwapResponse};

const SYSTEM_KEY: &str = "11111111111111111111111111111111";
const TOKEN_KEY: &str = "TokenkegQfeZyiNwAJbNbGKPFXCWuBvf9Ss623VQ5DA";

fn valid_blob() -> String {
    let tx = solana_sdk::transaction::Transaction::default();
    let bytes = bincode::serialize(&tx).expect("a default transaction serializes");
    base64::encode(bytes)
}

#[test]
fn swap_alone_decodes() {
    let response = SwapResponse {
        setup_transaction: None,
        swap_transaction: Some(valid_blob()),
        cleanup_transaction: None,
    };
    let swap = API::V1
        .process_swap_response(response)
        .expect("a valid swap blob decodes");
    assert!(swap.setup.is_none());
    assert!(swap.cleanup.is_none());
    assert_eq!(swap.swap, solana_sdk::transaction::Transaction::default());
}

#[test]
fn all_three_stages_decode() {
    let response = SwapResponse {
        setup_transaction: Some(valid_blob()),
        swap_transaction: Some(valid_blob()),
        cleanup_transaction: Some(valid_blob()),
    };
    let swap = API::V1
        .process_swap_response(response)
        .expect("three valid blobs decode");
    assert!(swap.setup.is_some());
    assert!(swap.cleanup.is_some());
}

#[test]
fn missing_swap_transaction_fails() {
    let response = SwapResponse {
        setup_transaction: Some(valid_blob()),
        swap_transaction: None,
        cleanup_transaction: Some(valid_blob()),
    };
    match API::V1.process_swap_response(response) {
        Err(ApiError::MissingSwapTransaction) => {},
        _ => panic!("expected the missing-swap error"),
    }
}

#[test]
fn malformed_base64_is_tagged_with_its_stage() {
    let response = SwapResponse {
        setup_transaction: None,
        swap_transaction: Some(String::from("not base64 !!!")),
        cleanup_transaction: None,
    };
    match API::V1.process_swap_response(response) {
        Err(ApiError::TransactionDecode { stage }) => assert_eq!(stage, SwapStage::Swap),
        _ => panic!("expected a transaction-decode error"),
    }
}

#[test]
fn malformed_setup_reported_before_swap() {
    let response = SwapResponse {
        setup_transaction: Some(String::from("????")),
        swap_transaction: Some(String::from("also bad")),
        cleanup_transaction: None,
    };
    match API::V1.process_swap_response(response) {
        Err(ApiError::TransactionDecode { stage }) => assert_eq!(stage, SwapStage::Setup),
        _ => panic!("expected a transaction-decode error"),
    }
}

#[test]
fn malformed_cleanup_is_tagged() {
    // valid base64 that is not a transaction serialization
    let junk = base64::encode([1u8, 2, 3]);
    let response = SwapResponse {
        setup_transaction: None,
        swap_transaction: Some(valid_blob()),
        cleanup_transaction: Some(junk),
    };
    match API::V1.process_swap_response(response) {
        Err(ApiError::TransactionDecode { stage }) => assert_eq!(stage, SwapStage::Cleanup),
        _ => panic!("expected a transaction-decode error"),
    }
}

#[test]
fn swap_input_flattens_the_config() {
    let user = Address::from_text(SYSTEM_KEY).unwrap();
    let fee = Address::from_text(TOKEN_KEY).unwrap();
    let config = SwapConfig {
        wrap_unwrap_sol: true,
        fee_account: Some(fee),
        token_ledger: None,
    };
    let route = Quote {
        json: String::from("{\"inAmount\":1}"),
    };
    let (url, request) = API::V1.process_swap_input(route, user, config);
    assert_eq!(url, "https://quote-api.jup.ag/v1/swap");
    assert_eq!(request.route.json, "{\"inAmount\":1}");
    assert_eq!(request.user_public_key.text(), SYSTEM_KEY);
    assert!(request.wrap_unwrap_sol);
    assert_eq!(request.fee_account.as_deref(), Some(TOKEN_KEY));
    assert!(request.token_ledger.is_none());
}
