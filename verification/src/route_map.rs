use vstd::prelude::*;

use crate::address::{parsed_address, Address};
use crate::error::ApiError;
use crate::types::{addr_views, pairs_to_map, IndexedRouteMap, RouteMap};

verus! {

/// The view of a wire pair list: each source index with its destination
/// index sequence.
pub open spec fn pair_views(ps: Seq<(usize, Vec<usize>)>) -> Seq<(usize, Seq<usize>)> {
    ps.map(|i: int, p: (usize, Vec<usize>)| (p.0, p.1@))
}

/// The views of a sequence of key texts.
pub open spec fn str_views(ss: Seq<String>) -> Seq<Seq<char>> {
    ss.map(|i: int, s: String| s@)
}

/// Every key text parses as an address.
pub open spec fn keys_parse_ok(keys: Seq<Seq<char>>) -> bool {
    forall|i: int| 0 <= i < keys.len() ==> (#[trigger] parsed_address(keys[i])) is Some
}

/// The bytes each key text parses to (empty where it does not parse).
pub open spec fn parsed_key_views(keys: Seq<Seq<char>>) -> Seq<Seq<u8>> {
    keys.map(
        |i: int, s: Seq<char>|
            match parsed_address(s) {
                Some(b) => b,
                None => Seq::empty(),
            },
    )
}

/// One wire pair stays inside a key array of the given length.
pub open spec fn pair_in_range(p: (usize, Seq<usize>), len: nat) -> bool {
    &&& p.0 < len
    &&& forall|j: int| 0 <= j < p.1.len() ==> (#[trigger] p.1[j]) < len
}

/// Every source and destination index stays inside the key array.
pub open spec fn all_indices_in(pairs: Seq<(usize, Seq<usize>)>, len: nat) -> bool {
    forall|i: int| 0 <= i < pairs.len() ==> pair_in_range(#[trigger] pairs[i], len)
}

/// The given index occurs somewhere in the pair list, as a source or a
/// destination.
pub open spec fn index_appears(pairs: Seq<(usize, Seq<usize>)>, ix: usize) -> bool {
    exists|i: int|
        0 <= i < pairs.len() && ((#[trigger] pairs[i]).0 == ix || pairs[i].1.contains(ix))
}

/// One wire pair resolved against the key array: the source bytes and the
/// ordered destination bytes.
pub open spec fn resolve_pair(keys: Seq<Seq<u8>>, p: (usize, Seq<usize>)) -> (
    Seq<u8>,
    Seq<Seq<u8>>,
) {
    (keys[p.0 as int], p.1.map(|j: int, ix: usize| keys[ix as int]))
}

/// The whole pair list resolved against the key array, in wire order.
pub open spec fn resolved_entries(keys: Seq<Seq<u8>>, pairs: Seq<(usize, Seq<usize>)>) -> Seq<
    (Seq<u8>, Seq<Seq<u8>>),
> {
    pairs.map(|i: int, p: (usize, Seq<usize>)| resolve_pair(keys, p))
}

/// The mapping an in-range indexed table denotes.
pub open spec fn decompressed_map(keys: Seq<Seq<u8>>, pairs: Seq<(usize, Seq<usize>)>) -> Map<
    Seq<u8>,
    Seq<Seq<u8>>,
> {
    pairs_to_map(resolved_entries(keys, pairs))
}

/// Parses every mint key into an address; the whole operation fails on the
/// first unparseable key, with its position, and yields no partial result.
pub fn parse_mint_keys(keys: &Vec<String>) -> (r: Result<Vec<Address>, ApiError>)
    ensures
        match r {
            Ok(v) => {
                &&& keys_parse_ok(str_views(keys@))
                &&& v@.len() == keys@.len()
                &&& addr_views(v@) == parsed_key_views(str_views(keys@))
                &&& forall|i: int| 0 <= i < v@.len() ==> (#[trigger] v@[i]).wf()
            },
            Err(e) => {
                &&& e matches ApiError::AddressParse { position }
                &&& position < keys@.len()
                &&& parsed_address(keys@[position as int]@) is None
                &&& forall|k: int|
                    0 <= k < position ==> (#[trigger] parsed_address(keys@[k]@)) is Some
            },
        },
{
    let mut v: Vec<Address> = Vec::new();
    let mut i: usize = 0;
    while i < keys.len()
        invariant
            i <= keys@.len(),
            v@.len() == i,
            forall|k: int| 0 <= k < i ==> (#[trigger] parsed_address(keys@[k]@)) is Some,
            forall|k: int|
                0 <= k < i ==> parsed_address(keys@[k]@) == Some((#[trigger] v@[k])@),
            forall|k: int| 0 <= k < i ==> (#[trigger] v@[k]).wf(),
        decreases keys@.len() - i,
    {
        match Address::from_text(keys[i].as_str()) {
            Some(a) => {
                v.push(a);
            },
            None => {
                return Err(ApiError::AddressParse { position: i });
            },
        }
        i = i + 1;
    }
    proof {
        assert(addr_views(v@) =~= parsed_key_views(str_views(keys@)));
    }
    Ok(v)
}

/// Expands an index-compressed table over already-parsed addresses.  When
/// every index is in range the result holds, entry for entry and in wire
/// order, each source address with its resolved destination sequence; any
/// index at or beyond the key count fails the whole operation instead.
pub fn decompress(keys: &Vec<Address>, pairs: &Vec<(usize, Vec<usize>)>) -> (r: Result<
    RouteMap,
    ApiError,
>)
    requires
        forall|i: int| 0 <= i < keys@.len() ==> (#[trigger] keys@[i]).wf(),
    ensures
        match r {
            Ok(m) => {
                &&& all_indices_in(pair_views(pairs@), keys@.len())
                &&& m.wf()
                &&& m.entry_views() == resolved_entries(addr_views(keys@), pair_views(pairs@))
                &&& m.as_map() == decompressed_map(addr_views(keys@), pair_views(pairs@))
            },
            Err(e) => {
                &&& !all_indices_in(pair_views(pairs@), keys@.len())
                &&& e matches ApiError::IndexOutOfRange { index, len }
                &&& len == keys@.len()
                &&& index >= len
                &&& index_appears(pair_views(pairs@), index)
            },
        },
{
    let ghost kv = addr_views(keys@);
    let ghost pv = pair_views(pairs@);
    let mut entries: Vec<(Address, Vec<Address>)> = Vec::new();
    let mut i: usize = 0;
    while i < pairs.len()
        invariant
            forall|k: int| 0 <= k < keys@.len() ==> (#[trigger] keys@[k]).wf(),
            kv == addr_views(keys@),
            pv == pair_views(pairs@),
            i <= pairs@.len(),
            entries@.len() == i,
            forall|k: int| 0 <= k < i ==> pair_in_range(#[trigger] pv[k], keys@.len()),
            forall|k: int| 0 <= k < i ==> (#[trigger] entries@[k]).0@ == kv[pv[k].0 as int],
            forall|k: int| 0 <= k < i ==> (#[trigger] entries@[k]).0.wf(),
            forall|k: int|
                0 <= k < i ==> addr_views((#[trigger] entries@[k]).1@) == resolve_pair(
                    kv,
                    pv[k],
                ).1,
            forall|k: int, j: int|
                0 <= k < i && 0 <= j < entries@[k].1@.len() ==> (#[trigger] entries@[k].1@[j]).wf(),
        decreases pairs@.len() - i,
    {
        let p = &pairs[i];
        proof {
            assert(pv[i as int] == (pairs@[i as int].0, pairs@[i as int].1@));
        }
        let src: usize = p.0;
        if src >= keys.len() {
            proof {
                assert(!pair_in_range(pv[i as int], keys@.len()));
                assert(index_appears(pv, src));
            }
            return Err(ApiError::IndexOutOfRange { index: src, len: keys.len() });
        }
        let src_addr = keys[src].clone();
        let mut out: Vec<Address> = Vec::new();
        let mut j: usize = 0;
        while j < p.1.len()
            invariant
                forall|k: int| 0 <= k < keys@.len() ==> (#[trigger] keys@[k]).wf(),
                kv == addr_views(keys@),
                pv == pair_views(pairs@),
                i < pairs@.len(),
                pv[i as int].1 == p.1@,
                j <= p.1@.len(),
                out@.len() == j,
                forall|t: int| 0 <= t < j ==> p.1@[t] < keys@.len(),
                forall|t: int| 0 <= t < j ==> (#[trigger] out@[t])@ == kv[p.1@[t] as int],
                forall|t: int| 0 <= t < j ==> (#[trigger] out@[t]).wf(),
            decreases p.1@.len() - j,
        {
            let ix: usize = p.1[j];
            if ix >= keys.len() {
                proof {
                    assert(pv[i as int].1[j as int] == ix);
                    assert(!pair_in_range(pv[i as int], keys@.len()));
                    assert(pv[i as int].1.contains(ix));
                    assert(index_appears(pv, ix));
                }
                return Err(ApiError::IndexOutOfRange { index: ix, len: keys.len() });
            }
            out.push(keys[ix].clone());
            j = j + 1;
        }
        proof {
            assert(addr_views(out@) =~= resolve_pair(kv, pv[i as int]).1);
            assert(pair_in_range(pv[i as int], keys@.len()));
        }
        entries.push((src_addr, out));
        i = i + 1;
    }
    let m = RouteMap { entries };
    proof {
        assert forall|k: int| 0 <= k < pv.len() implies m.entry_views()[k] == resolved_entries(
            kv,
            pv,
        )[k] by {
            assert(m.entry_views()[k].0 == kv[pv[k].0 as int]);
            assert(m.entry_views()[k].1 == resolve_pair(kv, pv[k]).1);
        }
        assert(m.entry_views() =~= resolved_entries(kv, pv));
    }
    Ok(m)
}

/// Rebuilds the wire form of a route map: every address is written out as
/// its canonical text and re-indexed consistently, entry for entry.
pub fn compress(m: &RouteMap) -> (r: IndexedRouteMap)
    requires
        m.wf(),
    ensures
        keys_parse_ok(str_views(r.mint_keys@)),
        all_indices_in(pair_views(r.indexed_route_map@), r.mint_keys@.len()),
        resolved_entries(
            parsed_key_views(str_views(r.mint_keys@)),
            pair_views(r.indexed_route_map@),
        ) == m.entry_views(),
{
    let mut mint_keys: Vec<String> = Vec::new();
    let mut pairs: Vec<(usize, Vec<usize>)> = Vec::new();
    let mut i: usize = 0;
    while i < m.entries.len()
        invariant
            m.wf(),
            i <= m.entries@.len(),
            pairs@.len() == i,
            keys_parse_ok(str_views(mint_keys@)),
            forall|k: int|
                0 <= k < i ==> pair_in_range(
                    #[trigger] pair_views(pairs@)[k],
                    mint_keys@.len(),
                ),
            forall|k: int|
                0 <= k < i ==> resolve_pair(
                    parsed_key_views(str_views(mint_keys@)),
                    #[trigger] pair_views(pairs@)[k],
                ) == m.entry_views()[k],
        decreases m.entries@.len() - i,
    {
        let ghost old_keys = mint_keys@;
        let e = &m.entries[i];
        let src_ix: usize = mint_keys.len();
        mint_keys.push(e.0.text());
        proof {
            lemma_grown_keys_resolve(old_keys, mint_keys@, pairs@, m, i as int);
        }
        let mut dest_ixs: Vec<usize> = Vec::new();
        let mut j: usize = 0;
        while j < e.1.len()
            invariant
                m.wf(),
                i < m.entries@.len(),
                m.entries@[i as int] == *e,
                pairs@.len() == i,
                j <= e.1@.len(),
                dest_ixs@.len() == j,
                src_ix < mint_keys@.len(),
                keys_parse_ok(str_views(mint_keys@)),
                parsed_key_views(str_views(mint_keys@))[src_ix as int] == e.0@,
                forall|t: int| 0 <= t < j ==> (#[trigger] dest_ixs@[t]) < mint_keys@.len(),
                forall|t: int|
                    0 <= t < j ==> parsed_key_views(str_views(mint_keys@))[(
                    #[trigger] dest_ixs@[t]) as int] == e.1@[t]@,
                forall|k: int|
                    0 <= k < i ==> pair_in_range(
                        #[trigger] pair_views(pairs@)[k],
                        mint_keys@.len(),
                    ),
                forall|k: int|
                    0 <= k < i ==> resolve_pair(
                        parsed_key_views(str_views(mint_keys@)),
                        #[trigger] pair_views(pairs@)[k],
                    ) == m.entry_views()[k],
            decreases e.1@.len() - j,
        {
            let ghost old_keys2 = mint_keys@;
            dest_ixs.push(mint_keys.len());
            let d = &e.1[j];
            mint_keys.push(d.text());
            proof {
                lemma_grown_keys_resolve(old_keys2, mint_keys@, pairs@, m, i as int);
                assert(str_views(mint_keys@)[src_ix as int] == str_views(old_keys2)[src_ix as int]);
                assert forall|t: int| 0 <= t < j implies parsed_key_views(str_views(mint_keys@))[(
                #[trigger] dest_ixs@[t]) as int] == e.1@[t]@ by {
                    assert(str_views(mint_keys@)[dest_ixs@[t] as int] == str_views(old_keys2)[
                        dest_ixs@[t] as int]);
                }
            }
            j = j + 1;
        }
        let ghost old_pairs = pairs@;
        pairs.push((src_ix, dest_ixs));
        proof {
            let pv = pair_views(pairs@);
            let pkv = parsed_key_views(str_views(mint_keys@));
            assert forall|k: int| 0 <= k < i implies #[trigger] pv[k] == pair_views(old_pairs)[k]
                by {
                assert(pairs@[k] == old_pairs[k]);
            }
            assert(pv[i as int] == (src_ix, dest_ixs@));
            assert(resolve_pair(pkv, pv[i as int]).1 =~= addr_views(e.1@));
            assert(m.entry_views()[i as int] == (e.0@, addr_views(e.1@)));
            assert(resolve_pair(pkv, pv[i as int]) == m.entry_views()[i as int]);
            assert(pair_in_range(pv[i as int], mint_keys@.len()));
        }
        i = i + 1;
    }
    let r = IndexedRouteMap { mint_keys, indexed_route_map: pairs };
    proof {
        assert(resolved_entries(
            parsed_key_views(str_views(r.mint_keys@)),
            pair_views(r.indexed_route_map@),
        ) =~= m.entry_views());
    }
    r
}

/// Growing the key array never changes how an already in-range pair list
/// resolves: each resolved entry reads only indices below the old length.
proof fn lemma_grown_keys_resolve(
    old_keys: Seq<String>,
    new_keys: Seq<String>,
    pairs: Seq<(usize, Vec<usize>)>,
    m: &RouteMap,
    n: int,
)
    requires
        old_keys.len() <= new_keys.len(),
        forall|t: int| 0 <= t < old_keys.len() ==> old_keys[t] == new_keys[t],
        keys_parse_ok(str_views(old_keys)),
        0 <= n <= pairs.len(),
        forall|k: int|
            0 <= k < n ==> pair_in_range(#[trigger] pair_views(pairs)[k], old_keys.len()),
        forall|k: int|
            0 <= k < n ==> resolve_pair(
                parsed_key_views(str_views(old_keys)),
                #[trigger] pair_views(pairs)[k],
            ) == m.entry_views()[k],
        forall|t: int|
            old_keys.len() <= t < new_keys.len() ==> (#[trigger] parsed_address(
                new_keys[t]@,
            )) is Some,
    ensures
        keys_parse_ok(str_views(new_keys)),
        forall|k: int|
            0 <= k < n ==> pair_in_range(#[trigger] pair_views(pairs)[k], new_keys.len()),
        forall|k: int|
            0 <= k < n ==> resolve_pair(
                parsed_key_views(str_views(new_keys)),
                #[trigger] pair_views(pairs)[k],
            ) == m.entry_views()[k],
{
    let old_pkv = parsed_key_views(str_views(old_keys));
    let new_pkv = parsed_key_views(str_views(new_keys));
    assert forall|t: int| 0 <= t < old_keys.len() implies old_pkv[t] == new_pkv[t] by {
        assert(str_views(old_keys)[t] == str_views(new_keys)[t]);
    }
    assert forall|t: int| 0 <= t < new_keys.len() implies (#[trigger] parsed_address(
        str_views(new_keys)[t],
    )) is Some by {
        if t < old_keys.len() {
            assert(parsed_address(str_views(old_keys)[t]) is Some);
        } else {
            assert(parsed_address(new_keys[t]@) is Some);
        }
    }
    assert forall|k: int| 0 <= k < n implies resolve_pair(
        new_pkv,
        #[trigger] pair_views(pairs)[k],
    ) == m.entry_views()[k] by {
        let p = pair_views(pairs)[k];
        assert(resolve_pair(old_pkv, p) == m.entry_views()[k]);
        assert(new_pkv[p.0 as int] == old_pkv[p.0 as int]);
        assert forall|t: int| 0 <= t < p.1.len() implies new_pkv[(#[trigger] p.1[t]) as int]
            == old_pkv[p.1[t] as int] by {
            assert(pair_in_range(p, old_keys.len()));
        }
        assert(resolve_pair(new_pkv, p).1 =~= resolve_pair(old_pkv, p).1);
    }
}

/// Round trip: a wire table whose parsed keys resolve, entry for entry, to
/// exactly a route map's entries decompresses to exactly that map — the
/// same key set with the same destination sequence under every key.
pub proof fn lemma_route_map_round_trip(
    keys: Seq<Seq<char>>,
    pairs: Seq<(usize, Seq<usize>)>,
    m: RouteMap,
)
    requires
        keys_parse_ok(keys),
        all_indices_in(pairs, keys.len()),
        resolved_entries(parsed_key_views(keys), pairs) == m.entry_views(),
    ensures
        decompressed_map(parsed_key_views(keys), pairs) == m.as_map(),
{
}

} // verus!
