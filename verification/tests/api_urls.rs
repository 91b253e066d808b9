use juper_swap_api::address::Address;
use juper_swap_api::api::API;
use juper_swap_api::slippage::{FeeBps, Slippage};

const SYSTEM_KEY: &str = "11111111111111111111111111111111";
const TOKEN_KEY: &str = "TokenkegQfeZyiNwAJbNbGKPFXCWuBvf9Ss623VQ5DA";

#[test]
fn test_jupapi_v1() {
    let api_version = API::V1;

    let got = api_version.route_map_str(true);
    assert_eq!(
        got,
        "https://quote-api.jup.ag/v1/indexed-route-map?onlyDirectRoutes=true"
    );
    let got = api_version.route_map_str(false);
    assert_eq!(
        got,
        "https://quote-api.jup.ag/v1/indexed-route-map?onlyDirectRoutes=false"
    );

    let got = api_version.swap_str();
    assert_eq!(got, "https://quote-api.jup.ag/v1/swap");
}

#[test]
fn address_text_round_trip() {
    let a = Address::from_text(SYSTEM_KEY).expect("system key parses");
    assert_eq!(a.text(), SYSTEM_KEY);
    let b = Address::from_text(TOKEN_KEY).expect("token key parses");
    assert_eq!(b.text(), TOKEN_KEY);
    assert!(Address::from_text("A").is_none());
    assert!(Address::from_text("not a key !!").is_none());
}

#[test]
fn address_equality_is_by_bytes() {
    let a = Address::from_text(SYSTEM_KEY).unwrap();
    let b = Address::from_text(SYSTEM_KEY).unwrap();
    let c = Address::from_text(TOKEN_KEY).unwrap();
    assert_eq!(a, b);
    assert_ne!(a, c);
    assert_eq!(a.clone(), b);
}

#[test]
fn address_from_bytes_checks_length() {
    assert!(Address::from_bytes(vec![7u8; 32]).is_some());
    assert!(Address::from_bytes(vec![7u8; 31]).is_none());
    assert!(Address::from_bytes(Vec::new()).is_none());
}

#[test]
fn quote_url_bps_with_fee() {
    let input = Address::from_text(SYSTEM_KEY).unwrap();
    let output = Address::from_text(TOKEN_KEY).unwrap();
    let url = API::V1.quote_str(
        input,
        output,
        1000,
        false,
        Slippage::Bps(50),
        FeeBps { bps: Some(5) },
    );
    let expected = format!(
        "https://quote-api.jup.ag/v1/quote?inputMint={}&outputMint={}&amount=1000&onlyDirectRoutes=false&slippageBps=50&feeBps=5",
        SYSTEM_KEY, TOKEN_KEY
    );
    assert_eq!(url, expected);
    assert_eq!(url.matches("slippage").count(), 1);
}

#[test]
fn quote_url_percent_without_fee() {
    let input = Address::from_text(SYSTEM_KEY).unwrap();
    let output = Address::from_text(TOKEN_KEY).unwrap();
    let url = API::V2.quote_str(
        input,
        output,
        250,
        true,
        Slippage::Percent(1),
        FeeBps { bps: None },
    );
    let expected = format!(
        "https://quote-api.jup.ag/v1/quote?inputMint={}&outputMint={}&amount=250&onlyDirectRoutes=true&slippage=1",
        SYSTEM_KEY, TOKEN_KEY
    );
    assert_eq!(url, expected);
    assert_eq!(url.matches("slippage").count(), 1);
    assert!(!url.contains("feeBps"));
}

#[test]
fn price_url_without_amount() {
    let input = Address::from_text(SYSTEM_KEY).unwrap();
    let output = Address::from_text(TOKEN_KEY).unwrap();
    let url = API::V1.price_str(input, output, None);
    let expected = format!(
        "https://quote-api.jup.ag/v1/price?id={}&vsToken={}",
        SYSTEM_KEY, TOKEN_KEY
    );
    assert_eq!(url, expected);
    assert!(!url.contains("amount="));
}

#[test]
fn price_url_with_amount() {
    let input = Address::from_text(SYSTEM_KEY).unwrap();
    let output = Address::from_text(TOKEN_KEY).unwrap();
    let url = API::V3.price_str(input, output, Some(String::from("1.5")));
    let expected = format!(
        "https://quote-api.jup.ag/v1/price?id={}&vsToken={}&amount=1.5",
        SYSTEM_KEY, TOKEN_KEY
    );
    assert_eq!(url, expected);
    assert_eq!(url.matches("amount=").count(), 1);
    assert!(url.contains("amount=1.5"));
}

#[test]
fn slippage_fragments() {
    assert_eq!(Slippage::Percent(3).value(), "slippage=3");
    assert_eq!(Slippage::Bps(125).value(), "slippageBps=125");
    assert_eq!(FeeBps { bps: Some(7) }.value(), "&feeBps=7");
    assert_eq!(FeeBps { bps: None }.value(), "");
}
