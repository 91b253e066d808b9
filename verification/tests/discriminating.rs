use juper_swap_api::error::ApiError;
use juper_swap_api::response::{maybe_jupiter_api_error, ServiceReply};
use juper_swap_api::types::{Price, Quote};

#[test]
fn error_envelope_becomes_service_error() {
    // the classified form of `{"error": "slippage tolerance exceeded"}`
    let reply: ServiceReply<Vec<Quote>> = ServiceReply::Errored {
        message: String::from("slippage tolerance exceeded"),
    };
    match maybe_jupiter_api_error(reply) {
        Err(ApiError::Service { message }) => {
            assert_eq!(message, "slippage tolerance exceeded");
        },
        _ => panic!("expected the service's own error"),
    }
}

#[test]
fn success_envelope_becomes_typed_payload() {
    // the classified form of `{"data": [...quotes...]}`
    let quotes = vec![
        Quote {
            json: String::from("{\"inAmount\":10}"),
        },
        Quote {
            json: String::from("{\"inAmount\":20}"),
        },
    ];
    let reply: ServiceReply<Vec<Quote>> = ServiceReply::Data { value: quotes };
    match maybe_jupiter_api_error(reply) {
        Ok(response) => {
            assert_eq!(response.data.len(), 2);
            assert_eq!(response.data[0].json, "{\"inAmount\":10}");
            assert_eq!(response.data[1].json, "{\"inAmount\":20}");
        },
        Err(_) => panic!("a success envelope must not be misclassified"),
    }
}

#[test]
fn malformed_payload_is_a_decode_error_not_a_service_error() {
    let reply: ServiceReply<Price> = ServiceReply::Malformed {
        detail: String::from("missing field `id`"),
    };
    match maybe_jupiter_api_error(reply) {
        Err(ApiError::MalformedPayload { detail }) => {
            assert_eq!(detail, "missing field `id`");
        },
        _ => panic!("expected a malformed-payload error"),
    }
}
