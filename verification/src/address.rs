use vstd::prelude::*;

verus! {

/// The length in bytes of a native account or mint address.
pub const ADDRESS_LEN: usize = 32;

/// The bytes a canonical address text denotes, if it is well-formed
/// base58 of exactly `ADDRESS_LEN` bytes; nothing otherwise.
pub uninterp spec fn parsed_address(s: Seq<char>) -> Option<Seq<u8>>;

/// The canonical base58 text of an address's bytes.
pub uninterp spec fn base58_of(b: Seq<u8>) -> Seq<char>;

/// A fixed-length binary account or mint address, round-trippable to and
/// from its canonical text encoding.  Addresses compare by their bytes and
/// hash independently of any ordering, so they can serve as map keys.
#[derive(Debug, Eq, Hash)]
pub struct Address {
    bytes: Vec<u8>,
}

impl PartialEq for Address {
    fn eq(&self, other: &Self) -> (r: bool) {
        bytes_eq(&self.bytes, &other.bytes)
    }
}

impl vstd::std_specs::cmp::PartialEqSpecImpl for Address {
    open spec fn obeys_eq_spec() -> bool {
        true
    }

    open spec fn eq_spec(&self, other: &Self) -> bool {
        self@ == other@
    }
}

/// Compares two byte vectors element by element.
fn bytes_eq(a: &Vec<u8>, b: &Vec<u8>) -> (r: bool)
    ensures
        r == (a@ == b@),
{
    if a.len() != b.len() {
        proof {
            assert(a@.len() != b@.len());
        }
        return false;
    }
    let mut i: usize = 0;
    while i < a.len()
        invariant
            a@.len() == b@.len(),
            i <= a@.len(),
            forall|k: int| 0 <= k < i ==> a@[k] == b@[k],
        decreases a@.len() - i,
    {
        if a[i] != b[i] {
            return false;
        }
        i = i + 1;
    }
    proof {
        assert(a@ =~= b@);
    }
    true
}

impl View for Address {
    type V = Seq<u8>;

    closed spec fn view(&self) -> Seq<u8> {
        self.bytes@
    }
}

impl Clone for Address {
    fn clone(&self) -> (r: Self)
        ensures
            r@ == self@,
    {
        Address { bytes: copy_bytes(&self.bytes) }
    }
}

/// Copies a byte vector element by element.
fn copy_bytes(v: &Vec<u8>) -> (r: Vec<u8>)
    ensures
        r@ == v@,
{
    let mut r: Vec<u8> = Vec::new();
    let mut i: usize = 0;
    while i < v.len()
        invariant
            i <= v@.len(),
            r@ == v@.subrange(0, i as int),
        decreases v@.len() - i,
    {
        r.push(v[i]);
        i = i + 1;
    }
    proof {
        assert(r@ =~= v@);
    }
    r
}

/// Parses an address text.
///
/// Relies on solana_sdk::pubkey::Pubkey::from_str: base58 decoding of the
/// text into exactly `ADDRESS_LEN` bytes, a function of the text alone.
#[verifier::external_body]
fn parse_address_text(s: &str) -> (r: Option<Address>)
    ensures
        match r {
            Some(a) => parsed_address(s@) == Some(a@) && a@.len() == ADDRESS_LEN,
            None => parsed_address(s@) is None,
        },
{
    match s.parse::<solana_sdk::pubkey::Pubkey>() {
        Ok(pk) => Some(Address { bytes: pk.to_bytes().to_vec() }),
        Err(_) => None,
    }
}

/// Renders an address as its canonical text.
///
/// Relies on Pubkey's Display implementation: base58 encoding of the 32
/// bytes.  The encoding is canonical, so parsing the text gives back
/// exactly the same bytes; and the base58 alphabet is alphanumeric and
/// leaves out the letter `l`, so the text holds neither a query-string
/// metacharacter nor that letter.
#[verifier::external_body]
fn render_address_text(a: &Address) -> (r: String)
    requires
        a.wf(),
    ensures
        r@ == base58_of(a@),
        parsed_address(r@) == Some(a@),
        forall|i: int| 0 <= i < r@.len() ==> #[trigger] r@[i] != '=' && r@[i] != '&' && r@[i] != 'l',
{
    let mut arr = [0u8; 32];
    arr.copy_from_slice(&a.bytes);
    solana_sdk::pubkey::Pubkey::new_from_array(arr).to_string()
}

impl Address {
    /// A valid address holds exactly `ADDRESS_LEN` bytes.
    pub open spec fn wf(&self) -> bool {
        self@.len() == ADDRESS_LEN
    }

    /// Builds an address from its raw bytes; anything but exactly
    /// `ADDRESS_LEN` bytes is rejected.
    pub fn from_bytes(bytes: Vec<u8>) -> (r: Option<Address>)
        ensures
            bytes@.len() == ADDRESS_LEN ==> (r matches Some(a) && a@ == bytes@ && a.wf()),
            bytes@.len() != ADDRESS_LEN ==> r is None,
    {
        if bytes.len() == ADDRESS_LEN {
            Some(Address { bytes })
        } else {
            None
        }
    }

    /// Parses the canonical text encoding of an address.
    pub fn from_text(s: &str) -> (r: Option<Address>)
        ensures
            r matches Some(a) ==> a.wf() && parsed_address(s@) == Some(a@),
            r is None <==> parsed_address(s@) is None,
    {
        parse_address_text(s)
    }

    /// The canonical text encoding of this address, which parses back to
    /// exactly these bytes.  The text is base58, whose alphabet has no
    /// `=`, no `&` and no letter `l`.
    pub fn text(&self) -> (r: String)
        requires
            self.wf(),
        ensures
            r@ == base58_of(self@),
            parsed_address(r@) == Some(self@),
            forall|i: int| 0 <= i < r@.len() ==> #[trigger] r@[i] != '=' && r@[i] != '&' && r@[i] != 'l',
    {
        render_address_text(self)
    }
}

} // verus!
