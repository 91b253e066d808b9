use vstd::prelude::*;

use crate::address::Address;

verus! {

/// A signed transaction as the chain defines it.  Its structure is the
/// outside crate's business; this layer only decodes blobs into it and
/// hands the values through.
#[verifier::external_type_specification]
#[verifier::external_body]
pub struct ExTransaction(solana_sdk::transaction::Transaction);

/// An opaque route description returned by the quoting service, carried as
/// the JSON text the service sent and passed back verbatim in swap requests.
#[derive(Debug)]
pub struct Quote {
    pub json: String,
}

/// Caller-supplied options for a swap request, immutable once passed in.
#[derive(Debug)]
pub struct SwapConfig {
    /// Whether native-token accounts are wrapped and unwrapped around the swap.
    pub wrap_unwrap_sol: bool,
    /// The account that collects the platform fee, if any.
    pub fee_account: Option<Address>,
    /// The token-ledger account, if any.
    pub token_ledger: Option<Address>,
}

impl SwapConfig {
    /// Both optional addresses, where present, are valid.
    pub open spec fn wf(&self) -> bool {
        &&& (self.fee_account matches Some(a) ==> a.wf())
        &&& (self.token_ledger matches Some(a) ==> a.wf())
    }
}

/// The wire body posted to the swap endpoint: the quote passed back
/// verbatim, the user's address, and the flattened swap options.
#[derive(Debug)]
pub struct SwapRequest {
    pub route: Quote,
    pub user_public_key: Address,
    pub wrap_unwrap_sol: bool,
    pub fee_account: Option<String>,
    pub token_ledger: Option<String>,
}

/// The wire body the swap endpoint returns: up to three base64-encoded
/// transaction blobs.  The swap blob is mandatory on the wire; it is kept
/// optional here so that its absence can be rejected rather than assumed away.
#[derive(Debug)]
pub struct SwapResponse {
    pub setup_transaction: Option<String>,
    pub swap_transaction: Option<String>,
    pub cleanup_transaction: Option<String>,
}

/// The decoded swap bundle.  The swap transaction is always present;
/// a response without one fails decoding instead of producing this.
pub struct Swap {
    pub setup: Option<solana_sdk::transaction::Transaction>,
    pub swap: solana_sdk::transaction::Transaction,
    pub cleanup: Option<solana_sdk::transaction::Transaction>,
}

/// A price record returned by the price endpoint.  The unit value is kept
/// as the decimal text of the wire so that no rounding is introduced here.
#[derive(Debug)]
pub struct Price {
    pub id: String,
    pub vs_token: String,
    pub unit_price_text: String,
}

/// One cached market account, as the market-cache file lists it.
#[derive(Default, Debug, Clone, PartialEq, Eq)]
pub struct MarketCacheAccount {
    pub data: Vec<String>,
    pub executable: bool,
    pub lamports: i64,
    pub owner: String,
    pub rent_epoch: i64,
    pub pubkey: String,
}

/// The whole market cache.
pub type MarketCaches = Vec<MarketCacheAccount>;

/// The wire form of the route map: an index-addressable array of address
/// texts, and for each source index the ordered destination indices.
/// Every index must fall inside the key array; a violation fails decoding.
#[derive(Debug)]
pub struct IndexedRouteMap {
    pub mint_keys: Vec<String>,
    pub indexed_route_map: Vec<(usize, Vec<usize>)>,
}

/// The domain form of the route map: each source address with its ordered
/// destination addresses, one entry per wire pair, in wire order.
#[derive(Debug)]
pub struct RouteMap {
    pub entries: Vec<(Address, Vec<Address>)>,
}

/// The views of a sequence of addresses.
pub open spec fn addr_views(s: Seq<Address>) -> Seq<Seq<u8>> {
    s.map(|i: int, a: Address| a@)
}

/// The mapping a sequence of (source, destinations) pairs denotes;
/// a later entry for the same source wins.
pub open spec fn pairs_to_map(ps: Seq<(Seq<u8>, Seq<Seq<u8>>)>) -> Map<Seq<u8>, Seq<Seq<u8>>>
    decreases ps.len(),
{
    if ps.len() == 0 {
        Map::empty()
    } else {
        pairs_to_map(ps.drop_last()).insert(ps.last().0, ps.last().1)
    }
}

impl RouteMap {
    /// Every address held is valid.
    pub open spec fn wf(&self) -> bool {
        forall|i: int|
            0 <= i < self.entries@.len() ==> {
                &&& (#[trigger] self.entries@[i]).0.wf()
                &&& forall|j: int|
                    0 <= j < self.entries@[i].1@.len() ==> (#[trigger] self.entries@[i].1@[j]).wf()
            }
    }

    /// The (source bytes, destination bytes) pairs, in entry order.
    pub open spec fn entry_views(&self) -> Seq<(Seq<u8>, Seq<Seq<u8>>)> {
        self.entries@.map(|i: int, e: (Address, Vec<Address>)| (e.0@, addr_views(e.1@)))
    }

    /// The mapping this table denotes.
    pub open spec fn as_map(&self) -> Map<Seq<u8>, Seq<Seq<u8>>> {
        pairs_to_map(self.entry_views())
    }
}

/// A success envelope wrapping one typed payload.
#[derive(Debug)]
pub struct Response<T> {
    pub data: T,
}

} // verus!
