use vstd::prelude::*;

verus! {

/// The bytes a base64 text decodes to, if it is well-formed; nothing
/// otherwise.
pub uninterp spec fn base64_decoded(s: Seq<char>) -> Option<Seq<u8>>;

/// Whether a byte string is the binary serialization of a transaction.
pub uninterp spec fn transaction_bytes_ok(b: Seq<u8>) -> bool;

/// A transaction blob that survives both stages: well-formed base64 whose
/// bytes deserialize as a transaction.
pub open spec fn tx_blob_ok(s: Seq<char>) -> bool {
    match base64_decoded(s) {
        Some(b) => transaction_bytes_ok(b),
        None => false,
    }
}

/// An optional blob is acceptable when absent or decodable.
pub open spec fn opt_blob_ok(o: Option<String>) -> bool {
    match o {
        Some(s) => tx_blob_ok(s@),
        None => true,
    }
}

/// Decodes base64 text into raw bytes.
///
/// Relies on base64::decode (standard alphabet): which texts decode, and
/// to which bytes, depends on the text alone.
#[verifier::external_body]
fn decode_base64(s: &str) -> (r: Option<Vec<u8>>)
    ensures
        match r {
            Some(v) => base64_decoded(s@) == Some(v@),
            None => base64_decoded(s@) is None,
        },
{
    match base64::decode(s) {
        Ok(v) => Some(v),
        Err(_) => None,
    }
}

/// Deserializes raw bytes into a transaction.
///
/// Relies on bincode::deserialize for the chain's transaction type:
/// whether the bytes deserialize depends on the bytes alone.
#[verifier::external_body]
fn deserialize_transaction(b: &Vec<u8>) -> (r: Option<solana_sdk::transaction::Transaction>)
    ensures
        r is Some <==> transaction_bytes_ok(b@),
{
    match bincode::deserialize::<solana_sdk::transaction::Transaction>(b.as_slice()) {
        Ok(t) => Some(t),
        Err(_) => None,
    }
}

/// Decodes one base64 transaction blob through both stages: base64 text to
/// raw bytes, then bytes to a structured transaction.
pub fn decode_transaction_blob(blob: &str) -> (r: Option<solana_sdk::transaction::Transaction>)
    ensures
        r is Some <==> tx_blob_ok(blob@),
{
    match decode_base64(blob) {
        Some(bytes) => deserialize_transaction(&bytes),
        None => None,
    }
}

} // verus!
