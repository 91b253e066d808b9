use juper_swap_api::address::Address;
use juper_swap_api::api::API;
use juper_swap_api::error::ApiError;
use juper_swap_api::route_map::{compress, decompress};
use juper_swap_api::types::{IndexedRouteMap, RouteMap};

const KEY_A: &str = "11111111111111111111111111111111";
const KEY_B: &str = "TokenkegQfeZyiNwAJbNbGKPFXCWuBvf9Ss623VQ5DA";
const KEY_C: &str = "ATokenGPvbdGVxr1b2hvZbsiqW5xWH25efTNsLJA8knL";

fn addr(text: &str) -> Address {
    Address::from_text(text).expect("key parses")
}

fn entry_texts(m: &RouteMap) -> Vec<(String, Vec<String>)> {
    m.entries
        .iter()
        .map(|(src, dests)| {
            (
                src.text(),
                dests.iter().map(|d| d.text()).collect::<Vec<String>>(),
            )
        })
        .collect()
}

#[test]
fn decompress_example_scenario() {
    // mintKeys = [A, B, C], indexed map {0: [1, 2], 1: [2]}
    // expected route map {A: [B, C], B: [C]}
    let response = IndexedRouteMap {
        mint_keys: vec![
            String::from(KEY_A),
            String::from(KEY_B),
            String::from(KEY_C),
        ],
        indexed_route_map: vec![(0, vec![1, 2]), (1, vec![2])],
    };
    let m = API::V1
        .process_route_map_response(response)
        .expect("in-range table decompresses");
    let got = entry_texts(&m);
    assert_eq!(
        got,
        vec![
            (
                String::from(KEY_A),
                vec![String::from(KEY_B), String::from(KEY_C)]
            ),
            (String::from(KEY_B), vec![String::from(KEY_C)]),
        ]
    );
}

#[test]
fn decompress_rejects_destination_out_of_range() {
    let response = IndexedRouteMap {
        mint_keys: vec![
            String::from(KEY_A),
            String::from(KEY_B),
            String::from(KEY_C),
        ],
        indexed_route_map: vec![(0, vec![1, 3])],
    };
    match API::V1.process_route_map_response(response) {
        Err(ApiError::IndexOutOfRange { index, len }) => {
            assert_eq!(index, 3);
            assert_eq!(len, 3);
        },
        _ => panic!("expected an index-out-of-range error"),
    }
}

#[test]
fn decompress_rejects_source_out_of_range() {
    let keys = vec![addr(KEY_A), addr(KEY_B)];
    let pairs = vec![(5usize, vec![0usize])];
    match decompress(&keys, &pairs) {
        Err(ApiError::IndexOutOfRange { index, len }) => {
            assert_eq!(index, 5);
            assert_eq!(len, 2);
        },
        _ => panic!("expected an index-out-of-range error"),
    }
}

#[test]
fn decompress_rejects_unparseable_key() {
    let response = IndexedRouteMap {
        mint_keys: vec![String::from(KEY_A), String::from("not base58 !")],
        indexed_route_map: vec![(0, vec![1])],
    };
    match API::V1.process_route_map_response(response) {
        Err(ApiError::AddressParse { position }) => assert_eq!(position, 1),
        _ => panic!("expected an address-parse error"),
    }
}

#[test]
fn compress_then_decompress_round_trip() {
    let m = RouteMap {
        entries: vec![
            (addr(KEY_A), vec![addr(KEY_B), addr(KEY_C)]),
            (addr(KEY_B), vec![addr(KEY_C)]),
            (addr(KEY_C), vec![]),
        ],
    };
    let wire = compress(&m);
    let back = API::V1
        .process_route_map_response(wire)
        .expect("a compressed table decompresses");
    assert_eq!(entry_texts(&back), entry_texts(&m));
}

#[test]
fn empty_route_map_round_trip() {
    let m = RouteMap { entries: vec![] };
    let wire = compress(&m);
    assert!(wire.mint_keys.is_empty());
    assert!(wire.indexed_route_map.is_empty());
    let back = API::V1
        .process_route_map_response(wire)
        .expect("the empty table decompresses");
    assert!(back.entries.is_empty());
}
