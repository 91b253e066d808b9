use vstd::prelude::*;
use vstd::string::StringExecFns;

use crate::address::{base58_of, parsed_address, Address};
use crate::error::{ApiError, SwapStage};
use crate::route_map::{
    all_indices_in, decompress, decompressed_map, index_appears, keys_parse_ok, pair_views,
    parse_mint_keys, parsed_key_views, resolved_entries, str_views,
};
use crate::slippage::{FeeBps, Slippage};
use crate::text::{
    bool_chars, bool_text, contains_sub, contains_sub_once, dec_digits, is_digit_char,
    lemma_dec_digits_are_digits, matches_at, no_query_metachars, u64_text,
};
use crate::transactions::{decode_transaction_blob, opt_blob_ok, tx_blob_ok};
use crate::types::{IndexedRouteMap, Quote, RouteMap, Swap, SwapConfig, SwapRequest, SwapResponse};

verus! {

/// The text of a rendered query parameter list: `name=value` fragments
/// joined by `&`.
pub open spec fn render_query(ps: Seq<(Seq<char>, Seq<char>)>) -> Seq<char>
    decreases ps.len(),
{
    if ps.len() == 0 {
        Seq::empty()
    } else if ps.len() == 1 {
        ps[0].0 + "="@ + ps[0].1
    } else {
        render_query(ps.drop_last()) + "&"@ + ps.last().0 + "="@ + ps.last().1
    }
}

/// The query parameters of a quote URL, in order: the four positional
/// parameters, the single slippage parameter, then the fee when one is set.
pub open spec fn quote_params(
    input: Seq<u8>,
    output: Seq<u8>,
    amount: u64,
    direct: bool,
    slippage: Slippage,
    fee_bps: FeeBps,
) -> Seq<(Seq<char>, Seq<char>)> {
    seq![
        ("inputMint"@, base58_of(input)),
        ("outputMint"@, base58_of(output)),
        ("amount"@, dec_digits(amount as nat)),
        ("onlyDirectRoutes"@, bool_chars(direct)),
        (slippage.param_name(), slippage.param_value()),
    ] + match fee_bps.bps {
        Some(n) => seq![("feeBps"@, dec_digits(n as nat))],
        None => Seq::empty(),
    }
}

/// The whole quote URL.
pub open spec fn quote_url_spec(
    input: Seq<u8>,
    output: Seq<u8>,
    amount: u64,
    direct: bool,
    slippage: Slippage,
    fee_bps: FeeBps,
) -> Seq<char> {
    "https://quote-api.jup.ag/v1/quote?"@ + render_query(
        quote_params(input, output, amount, direct, slippage, fee_bps),
    )
}

/// The query parameters of a price URL: the two mints, then the amount
/// only when one was given.
pub open spec fn price_params(
    input: Seq<u8>,
    output: Seq<u8>,
    ui_amount: Option<Seq<char>>,
) -> Seq<(Seq<char>, Seq<char>)> {
    seq![("id"@, base58_of(input)), ("vsToken"@, base58_of(output))] + match ui_amount {
        Some(t) => seq![("amount"@, t)],
        None => Seq::empty(),
    }
}

/// The whole price URL.
pub open spec fn price_url_spec(
    input: Seq<u8>,
    output: Seq<u8>,
    ui_amount: Option<Seq<char>>,
) -> Seq<char> {
    "https://quote-api.jup.ag/v1/price?"@ + render_query(price_params(input, output, ui_amount))
}

/// Appending one more parameter to a non-empty list renders as the old
/// text, a separator, and the new fragment.
proof fn lemma_render_push(ps: Seq<(Seq<char>, Seq<char>)>, p: (Seq<char>, Seq<char>))
    requires
        ps.len() >= 1,
    ensures
        render_query(ps.push(p)) == render_query(ps) + "&"@ + p.0 + "="@ + p.1,
{
    assert(ps.push(p).drop_last() =~= ps);
    assert(ps.push(p).last() == p);
}

/// The quote URL text laid out as the builder writes it: piece by piece,
/// one query fragment after another.
#[verifier::rlimit(100)]
#[verifier::spinoff_prover]
proof fn lemma_quote_render(
    input: Seq<u8>,
    output: Seq<u8>,
    amount: u64,
    direct: bool,
    slippage: Slippage,
    fee_bps: FeeBps,
)
    ensures
        quote_url_spec(input, output, amount, direct, slippage, fee_bps)
            == "https://quote-api.jup.ag/v1/quote?"@ + "inputMint"@ + "="@ + base58_of(input)
            + "&"@ + "outputMint"@ + "="@ + base58_of(output) + "&"@ + "amount"@ + "="@
            + dec_digits(amount as nat) + "&"@ + "onlyDirectRoutes"@ + "="@ + bool_chars(direct)
            + "&"@ + slippage.fragment() + fee_bps.fragment(),
{
    let p0 = ("inputMint"@, base58_of(input));
    let p1 = ("outputMint"@, base58_of(output));
    let p2 = ("amount"@, dec_digits(amount as nat));
    let p3 = ("onlyDirectRoutes"@, bool_chars(direct));
    let p4 = (slippage.param_name(), slippage.param_value());
    let base = seq![p0, p1, p2, p3, p4];
    assert(seq![p0].len() == 1);
    assert(render_query(seq![p0]) == p0.0 + "="@ + p0.1);
    assert(seq![p0].push(p1) =~= seq![p0, p1]);
    lemma_render_push(seq![p0], p1);
    assert(seq![p0, p1].push(p2) =~= seq![p0, p1, p2]);
    lemma_render_push(seq![p0, p1], p2);
    assert(seq![p0, p1, p2].push(p3) =~= seq![p0, p1, p2, p3]);
    lemma_render_push(seq![p0, p1, p2], p3);
    assert(seq![p0, p1, p2, p3].push(p4) =~= base);
    lemma_render_push(seq![p0, p1, p2, p3], p4);
    match fee_bps.bps {
        Some(n) => {
            let p5 = ("feeBps"@, dec_digits(n as nat));
            assert(base.push(p5) =~= quote_params(input, output, amount, direct, slippage, fee_bps));
            lemma_render_push(base, p5);
            reveal_strlit("&feeBps=");
            reveal_strlit("&");
            reveal_strlit("feeBps");
            reveal_strlit("=");
            assert("&feeBps="@ =~= "&"@ + "feeBps"@ + "="@);
        },
        None => {
            assert(base + Seq::<(Seq<char>, Seq<char>)>::empty() =~= base);
        },
    }
}

/// The word `slippage` stands at exactly one position of a quote URL text
/// of the builder's shape: where the slippage fragment begins.  The two
/// positional letters `l` elsewhere (in `onlyDirectRoutes`, and in `false`
/// when that flag is off) are not preceded by an `s`, and base58 texts and
/// decimal digits carry no `l` at all.
#[verifier::rlimit(100)]
#[verifier::spinoff_prover]
proof fn lemma_quote_text_single_slippage(
    s: Seq<char>,
    a: Seq<char>,
    b: Seq<char>,
    da: Seq<char>,
    bt: Seq<char>,
    pn: Seq<char>,
    ds: Seq<char>,
    fee: Seq<char>,
)
    requires
        s == "https://quote-api.jup.ag/v1/quote?"@ + "inputMint"@ + "="@ + a + "&"@ + "outputMint"@
            + "="@ + b + "&"@ + "amount"@ + "="@ + da + "&"@ + "onlyDirectRoutes"@ + "="@ + bt
            + "&"@ + pn + "="@ + ds + fee,
        forall|i: int| 0 <= i < a.len() ==> #[trigger] a[i] != 'l',
        forall|i: int| 0 <= i < b.len() ==> #[trigger] b[i] != 'l',
        forall|i: int| 0 <= i < da.len() ==> #[trigger] da[i] != 'l',
        bt == "true"@ || bt == "false"@,
        pn == "slippage"@ || pn == "slippageBps"@,
        forall|i: int| 0 <= i < ds.len() ==> #[trigger] ds[i] != 'l',
        forall|i: int| 0 <= i < fee.len() ==> #[trigger] fee[i] != 'l',
    ensures
        contains_sub_once(s, "slippage"@),
{
    reveal_strlit("https://quote-api.jup.ag/v1/quote?");
    reveal_strlit("inputMint");
    reveal_strlit("outputMint");
    reveal_strlit("amount");
    reveal_strlit("onlyDirectRoutes");
    reveal_strlit("=");
    reveal_strlit("&");
    reveal_strlit("true");
    reveal_strlit("false");
    reveal_strlit("slippage");
    reveal_strlit("slippageBps");
    let base = "https://quote-api.jup.ag/v1/quote?"@;
    let inm = "inputMint"@;
    let onm = "outputMint"@;
    let amn = "amount"@;
    let odr = "onlyDirectRoutes"@;
    let eq = "="@;
    let amp = "&"@;
    let pat = "slippage"@;
    assert(base.len() == 34);
    assert(inm.len() == 9);
    assert(onm.len() == 10);
    assert(amn.len() == 6);
    assert(odr.len() == 16);
    assert(eq.len() == 1);
    assert(amp.len() == 1);
    assert(pat.len() == 8);
    assert(bt.len() == 4 || bt.len() == 5);
    assert(pn.len() == 8 || pn.len() == 11);
    assert(forall|i: int| 0 <= i < 34 ==> #[trigger] base[i] != 'l');
    assert(forall|i: int| 0 <= i < 9 ==> #[trigger] inm[i] != 'l');
    assert(forall|i: int| 0 <= i < 10 ==> #[trigger] onm[i] != 'l');
    assert(forall|i: int| 0 <= i < 6 ==> #[trigger] amn[i] != 'l');
    assert(eq[0] != 'l');
    assert(amp[0] != 'l');
    assert(forall|i: int| 0 <= i < 16 && i != 2 ==> #[trigger] odr[i] != 'l');
    assert(odr[2] == 'l');
    assert(odr[1] == 'n');
    assert(forall|i: int| 0 <= i < bt.len() && i != 2 ==> #[trigger] bt[i] != 'l');
    assert(bt == "false"@ ==> bt[2] == 'l' && bt[1] == 'a');
    assert(bt == "true"@ ==> bt[2] != 'l');
    assert(forall|i: int| 0 <= i < pn.len() && i != 1 ==> #[trigger] pn[i] != 'l');
    assert(pn[1] == 'l');
    assert(pn[0] == 's');
    assert(pat[0] == 's');
    assert(pat[1] == 'l');
    let t1 = 34int;
    let t2 = t1 + 9;
    let t3 = t2 + 1;
    let t4 = t3 + a.len();
    let t5 = t4 + 1;
    let t6 = t5 + 10;
    let t7 = t6 + 1;
    let t8 = t7 + b.len();
    let t9 = t8 + 1;
    let t10 = t9 + 6;
    let t11 = t10 + 1;
    let t12 = t11 + da.len();
    let t13 = t12 + 1;
    let t14 = t13 + 16;
    let t15 = t14 + 1;
    let t16 = t15 + bt.len();
    let w = t16 + 1;
    let t18 = w + pn.len();
    let t19 = t18 + 1;
    let t20 = t19 + ds.len();
    assert(s.len() == t20 + fee.len());
    if pn == "slippageBps"@ {
        assert(pn.subrange(0, 8) =~= pat);
    } else {
        assert(pn.subrange(0, 8) =~= pat);
    }
    assert forall|i: int| 0 <= i < 8 implies s[w + i] == pat[i] by {
        assert(s[w + i] == pn[i]);
        assert(pn.subrange(0, 8)[i] == pn[i]);
    }
    assert(s.subrange(w, w + 8) =~= pat);
    assert(matches_at(s, pat, w));
    assert forall|q: int| matches_at(s, pat, q) implies q == w by {
        assert(s.subrange(q, q + 8) == pat);
        assert(s.subrange(q, q + 8)[0] == s[q]);
        assert(s.subrange(q, q + 8)[1] == s[q + 1]);
        assert(s[q] == 's');
        assert(s[q + 1] == 'l');
        if q + 1 < t1 {
            assert(s[q + 1] == base[q + 1]);
            assert(false);
        } else if q + 1 < t2 {
            assert(s[q + 1] == inm[q + 1 - t1]);
            assert(false);
        } else if q + 1 < t3 {
            assert(s[q + 1] == eq[0]);
            assert(false);
        } else if q + 1 < t4 {
            assert(s[q + 1] == a[q + 1 - t3]);
            assert(false);
        } else if q + 1 < t5 {
            assert(s[q + 1] == amp[0]);
            assert(false);
        } else if q + 1 < t6 {
            assert(s[q + 1] == onm[q + 1 - t5]);
            assert(false);
        } else if q + 1 < t7 {
            assert(s[q + 1] == eq[0]);
            assert(false);
        } else if q + 1 < t8 {
            assert(s[q + 1] == b[q + 1 - t7]);
            assert(false);
        } else if q + 1 < t9 {
            assert(s[q + 1] == amp[0]);
            assert(false);
        } else if q + 1 < t10 {
            assert(s[q + 1] == amn[q + 1 - t9]);
            assert(false);
        } else if q + 1 < t11 {
            assert(s[q + 1] == eq[0]);
            assert(false);
        } else if q + 1 < t12 {
            assert(s[q + 1] == da[q + 1 - t11]);
            assert(false);
        } else if q + 1 < t13 {
            assert(s[q + 1] == amp[0]);
            assert(false);
        } else if q + 1 < t14 {
            assert(s[q + 1] == odr[q + 1 - t13]);
            if q + 1 - t13 == 2 {
                assert(s[q] == odr[1]);
                assert(false);
            } else {
                assert(false);
            }
        } else if q + 1 < t15 {
            assert(s[q + 1] == eq[0]);
            assert(false);
        } else if q + 1 < t16 {
            assert(s[q + 1] == bt[q + 1 - t15]);
            if q + 1 - t15 == 2 {
                assert(s[q] == bt[1]);
                assert(false);
            } else {
                assert(false);
            }
        } else if q + 1 < w {
            assert(s[q + 1] == amp[0]);
            assert(false);
        } else if q + 1 < t18 {
            assert(s[q + 1] == pn[q + 1 - w]);
            if q + 1 - w == 1 {
                assert(q == w);
            } else {
                assert(false);
            }
        } else if q + 1 < t19 {
            assert(s[q + 1] == eq[0]);
            assert(false);
        } else if q + 1 < t20 {
            assert(s[q + 1] == ds[q + 1 - t19]);
            assert(false);
        } else {
            assert(s[q + 1] == fee[q + 1 - t20]);
            assert(false);
        }
    }
    assert(contains_sub_once(s, pat));
}

/// A query parameter name that encodes a slippage tolerance.
pub open spec fn is_slippage_param_name(n: Seq<char>) -> bool {
    n == "slippage"@ || n == "slippageBps"@
}

/// How many parameters of a list carry a slippage-encoding name.
pub open spec fn slippage_param_count(ps: Seq<(Seq<char>, Seq<char>)>) -> nat
    decreases ps.len(),
{
    if ps.len() == 0 {
        0
    } else {
        slippage_param_count(ps.drop_last()) + if is_slippage_param_name(ps.last().0) {
            1nat
        } else {
            0nat
        }
    }
}

/// How many parameters of a list are named `amount`.
pub open spec fn amount_param_count(ps: Seq<(Seq<char>, Seq<char>)>) -> nat
    decreases ps.len(),
{
    if ps.len() == 0 {
        0
    } else {
        amount_param_count(ps.drop_last()) + if ps.last().0 == "amount"@ {
            1nat
        } else {
            0nat
        }
    }
}

proof fn lemma_slippage_count_push(ps: Seq<(Seq<char>, Seq<char>)>, p: (Seq<char>, Seq<char>))
    ensures
        slippage_param_count(ps.push(p)) == slippage_param_count(ps) + if is_slippage_param_name(
            p.0,
        ) {
            1nat
        } else {
            0nat
        },
{
    assert(ps.push(p).drop_last() =~= ps);
    assert(ps.push(p).last() == p);
}

proof fn lemma_amount_count_push(ps: Seq<(Seq<char>, Seq<char>)>, p: (Seq<char>, Seq<char>))
    ensures
        amount_param_count(ps.push(p)) == amount_param_count(ps) + if p.0 == "amount"@ {
            1nat
        } else {
            0nat
        },
{
    assert(ps.push(p).drop_last() =~= ps);
    assert(ps.push(p).last() == p);
}

/// Every quote URL carries exactly one slippage-encoding parameter — never
/// none, never two — whichever tolerance representation and fee setting
/// were chosen.
pub proof fn lemma_quote_url_single_slippage(
    input: Seq<u8>,
    output: Seq<u8>,
    amount: u64,
    direct: bool,
    slippage: Slippage,
    fee_bps: FeeBps,
)
    ensures
        slippage_param_count(quote_params(input, output, amount, direct, slippage, fee_bps)) == 1,
{
    reveal_strlit("inputMint");
    reveal_strlit("outputMint");
    reveal_strlit("amount");
    reveal_strlit("onlyDirectRoutes");
    reveal_strlit("feeBps");
    reveal_strlit("slippage");
    reveal_strlit("slippageBps");
    assert("inputMint"@.len() == 9);
    assert("outputMint"@.len() == 10);
    assert("amount"@.len() == 6);
    assert("onlyDirectRoutes"@.len() == 16);
    assert("feeBps"@.len() == 6);
    assert("slippage"@.len() == 8);
    assert("slippageBps"@.len() == 11);
    let p0 = ("inputMint"@, base58_of(input));
    let p1 = ("outputMint"@, base58_of(output));
    let p2 = ("amount"@, dec_digits(amount as nat));
    let p3 = ("onlyDirectRoutes"@, bool_chars(direct));
    let p4 = (slippage.param_name(), slippage.param_value());
    let base = seq![p0, p1, p2, p3, p4];
    assert(seq![p0].drop_last() =~= Seq::<(Seq<char>, Seq<char>)>::empty());
    assert(slippage_param_count(Seq::<(Seq<char>, Seq<char>)>::empty()) == 0);
    assert(!is_slippage_param_name(p0.0));
    assert(slippage_param_count(seq![p0]) == 0);
    assert(seq![p0].push(p1) =~= seq![p0, p1]);
    lemma_slippage_count_push(seq![p0], p1);
    assert(seq![p0, p1].push(p2) =~= seq![p0, p1, p2]);
    lemma_slippage_count_push(seq![p0, p1], p2);
    assert(seq![p0, p1, p2].push(p3) =~= seq![p0, p1, p2, p3]);
    lemma_slippage_count_push(seq![p0, p1, p2], p3);
    assert(seq![p0, p1, p2, p3].push(p4) =~= base);
    assert(is_slippage_param_name(p4.0));
    lemma_slippage_count_push(seq![p0, p1, p2, p3], p4);
    assert(slippage_param_count(base) == 1);
    match fee_bps.bps {
        Some(n) => {
            let p5 = ("feeBps"@, dec_digits(n as nat));
            assert(base.push(p5) =~= quote_params(input, output, amount, direct, slippage, fee_bps));
            assert(!is_slippage_param_name(p5.0));
            lemma_slippage_count_push(base, p5);
        },
        None => {
            assert(base + Seq::<(Seq<char>, Seq<char>)>::empty() =~= base);
        },
    }
}

/// A price URL built without a unit amount carries no `amount` parameter
/// at all; one built with an amount carries exactly one, whose value is
/// exactly the given text.
pub proof fn lemma_price_url_amount_fragment(
    input: Seq<u8>,
    output: Seq<u8>,
    ui_amount: Option<Seq<char>>,
)
    ensures
        ui_amount is None ==> amount_param_count(price_params(input, output, ui_amount)) == 0,
        ui_amount matches Some(t) ==> amount_param_count(price_params(input, output, ui_amount))
            == 1 && price_params(input, output, ui_amount).last() == ("amount"@, t),
{
    reveal_strlit("id");
    reveal_strlit("vsToken");
    reveal_strlit("amount");
    assert("id"@.len() == 2);
    assert("vsToken"@.len() == 7);
    assert("amount"@.len() == 6);
    let p0 = ("id"@, base58_of(input));
    let p1 = ("vsToken"@, base58_of(output));
    assert(seq![p0].drop_last() =~= Seq::<(Seq<char>, Seq<char>)>::empty());
    assert(amount_param_count(Seq::<(Seq<char>, Seq<char>)>::empty()) == 0);
    assert(amount_param_count(seq![p0]) == 0);
    assert(seq![p0].push(p1) =~= seq![p0, p1]);
    lemma_amount_count_push(seq![p0], p1);
    match ui_amount {
        Some(t) => {
            let p2 = ("amount"@, t);
            assert(seq![p0, p1].push(p2) =~= price_params(input, output, ui_amount));
            lemma_amount_count_push(seq![p0, p1], p2);
        },
        None => {
            assert(seq![p0, p1] + Seq::<(Seq<char>, Seq<char>)>::empty() =~= seq![p0, p1]);
        },
    }
}

/// Revision tag of the remote quoting service.  Every revision currently
/// resolves to the same fixed set of endpoint URLs.
pub enum API {
    V1,
    V2,
    V3,
}

impl API {
    /// The fixed URL of the indexed route-map endpoint, selected by whether
    /// only direct routes are requested.
    pub fn route_map_str<'a>(&self, direct: bool) -> (r: &'a str)
        ensures
            direct ==> r@ == "https://quote-api.jup.ag/v1/indexed-route-map?onlyDirectRoutes=true"@,
            !direct ==> r@
                == "https://quote-api.jup.ag/v1/indexed-route-map?onlyDirectRoutes=false"@,
    {
        match self {
            Self::V1 | Self::V2 | Self::V3 => {
                if direct {
                    "https://quote-api.jup.ag/v1/indexed-route-map?onlyDirectRoutes=true"
                } else {
                    "https://quote-api.jup.ag/v1/indexed-route-map?onlyDirectRoutes=false"
                }
            },
        }
    }

    /// The fixed URL of the swap endpoint, independent of input.
    pub fn swap_str<'a>(&self) -> (r: &'a str)
        ensures
            r@ == "https://quote-api.jup.ag/v1/swap"@,
    {
        match self {
            Self::V1 | Self::V2 | Self::V3 => "https://quote-api.jup.ag/v1/swap",
        }
    }

    /// Builds the quote URL: the required parameters positionally, then the
    /// one slippage fragment and the fee fragment.  A pure function of its
    /// inputs: equal inputs give the same text, and the text carries the
    /// word `slippage` at exactly one position, whichever tolerance
    /// representation and fee setting were chosen.
    #[verifier::rlimit(100)]
    pub fn quote_str(
        &self,
        input_mint: Address,
        output_mint: Address,
        amount: u64,
        only_direct_routes: bool,
        slippage: Slippage,
        fee_bps: FeeBps,
    ) -> (r: String)
        requires
            input_mint.wf(),
            output_mint.wf(),
        ensures
            r@ == quote_url_spec(
                input_mint@,
                output_mint@,
                amount,
                only_direct_routes,
                slippage,
                fee_bps,
            ),
            contains_sub_once(r@, "slippage"@),
    {
        let mut url = String::from_str("https://quote-api.jup.ag/v1/quote?");
        url.append("inputMint");
        url.append("=");
        let input_text = input_mint.text();
        url.append(input_text.as_str());
        url.append("&");
        url.append("outputMint");
        url.append("=");
        let output_text = output_mint.text();
        url.append(output_text.as_str());
        url.append("&");
        url.append("amount");
        url.append("=");
        let amount_text = u64_text(amount);
        url.append(amount_text.as_str());
        url.append("&");
        url.append("onlyDirectRoutes");
        url.append("=");
        url.append(bool_text(only_direct_routes));
        url.append("&");
        let slippage_text = slippage.value();
        url.append(slippage_text.as_str());
        let fee_text = fee_bps.value();
        url.append(fee_text.as_str());
        proof {
            lemma_quote_render(
                input_mint@,
                output_mint@,
                amount,
                only_direct_routes,
                slippage,
                fee_bps,
            );
            let a = input_text@;
            let b = output_text@;
            let da = amount_text@;
            let bt = bool_chars(only_direct_routes);
            let pn = slippage.param_name();
            let ds = slippage.param_value();
            let fee = fee_bps.fragment();
            lemma_dec_digits_are_digits(amount as nat);
            assert forall|i: int| 0 <= i < da.len() implies #[trigger] da[i] != 'l' by {
                assert(is_digit_char(da[i]));
            }
            match slippage {
                Slippage::Percent(n) => {
                    lemma_dec_digits_are_digits(n as nat);
                },
                Slippage::Bps(n) => {
                    lemma_dec_digits_are_digits(n as nat);
                },
            }
            assert forall|i: int| 0 <= i < ds.len() implies #[trigger] ds[i] != 'l' by {
                assert(is_digit_char(ds[i]));
            }
            match fee_bps.bps {
                Some(n) => {
                    lemma_dec_digits_are_digits(n as nat);
                    reveal_strlit("&feeBps=");
                    assert("&feeBps="@.len() == 8);
                    assert(forall|i: int| 0 <= i < 8 ==> #[trigger] "&feeBps="@[i] != 'l');
                    assert forall|i: int| 0 <= i < fee.len() implies #[trigger] fee[i] != 'l' by {
                        if i < 8 {
                            assert(fee[i] == "&feeBps="@[i]);
                        } else {
                            assert(fee[i] == dec_digits(n as nat)[i - 8]);
                            assert(is_digit_char(fee[i]));
                        }
                    }
                },
                None => {
                    assert(fee.len() == 0);
                },
            }
            assert(url@ =~= "https://quote-api.jup.ag/v1/quote?"@ + "inputMint"@ + "="@ + a + "&"@
                + "outputMint"@ + "="@ + b + "&"@ + "amount"@ + "="@ + da + "&"@
                + "onlyDirectRoutes"@ + "="@ + bt + "&"@ + pn + "="@ + ds + fee);
            lemma_quote_text_single_slippage(url@, a, b, da, bt, pn, ds, fee);
        }
        url
    }

    /// Builds the price URL; an `amount` fragment is appended only when a
    /// unit amount was given, and absence appends nothing at all: without
    /// an amount the text nowhere holds `amount=`, and with one it holds
    /// exactly one such fragment.  The amount is taken as already-rendered
    /// decimal text.
    #[verifier::rlimit(100)]
    pub fn price_str(
        &self,
        input_mint: Address,
        output_mint: Address,
        ui_amount: Option<String>,
    ) -> (r: String)
        requires
            input_mint.wf(),
            output_mint.wf(),
        ensures
            r@ == price_url_spec(
                input_mint@,
                output_mint@,
                match ui_amount {
                    Some(t) => Some(t@),
                    None => None,
                },
            ),
            ui_amount is None ==> !contains_sub(r@, "amount="@),
            (ui_amount matches Some(t) && no_query_metachars(t@)) ==> contains_sub_once(
                r@,
                "amount="@,
            ),
    {
        let mut url = String::from_str("https://quote-api.jup.ag/v1/price?");
        url.append("id");
        url.append("=");
        let input_text = input_mint.text();
        url.append(input_text.as_str());
        url.append("&");
        url.append("vsToken");
        url.append("=");
        let output_text = output_mint.text();
        url.append(output_text.as_str());
        let ghost amount_view: Option<Seq<char>> = match &ui_amount {
            Some(t) => Some(t@),
            None => None,
        };
        match &ui_amount {
            Some(t) => {
                url.append("&");
                url.append("amount");
                url.append("=");
                url.append(t.as_str());
            },
            None => {},
        }
        proof {
            let p0 = ("id"@, base58_of(input_mint@));
            let p1 = ("vsToken"@, base58_of(output_mint@));
            assert(render_query(seq![p0]) == p0.0 + "="@ + p0.1);
            assert(seq![p0].push(p1) =~= seq![p0, p1]);
            lemma_render_push(seq![p0], p1);
            match amount_view {
                Some(t) => {
                    let p2 = ("amount"@, t);
                    assert(seq![p0, p1].push(p2) =~= price_params(
                        input_mint@,
                        output_mint@,
                        amount_view,
                    ));
                    lemma_render_push(seq![p0, p1], p2);
                    if no_query_metachars(t) {
                        reveal_strlit("amount=");
                        reveal_strlit("amount");
                        reveal_strlit("https://quote-api.jup.ag/v1/price?");
                        reveal_strlit("id");
                        reveal_strlit("=");
                        reveal_strlit("&");
                        reveal_strlit("vsToken");
                        let s = url@;
                        let base = "https://quote-api.jup.ag/v1/price?"@;
                        let idp = "id"@;
                        let eq = "="@;
                        let amp = "&"@;
                        let vst = "vsToken"@;
                        let amt = "amount"@;
                        let a = input_text@;
                        let b = output_text@;
                        assert(s == base + idp + eq + a + amp + vst + eq + b + amp + amt + eq + t);
                        assert(base.len() == 34);
                        assert(idp.len() == 2);
                        assert(eq.len() == 1);
                        assert(amp.len() == 1);
                        assert(vst.len() == 7);
                        assert(amt.len() == 6);
                        assert(forall|i: int| 0 <= i < 34 ==> #[trigger] base[i] != '=');
                        assert(idp[0] != '=' && idp[1] != '=');
                        assert(idp[1] == 'd');
                        assert(amp[0] != '=');
                        assert(forall|i: int| 0 <= i < 7 ==> #[trigger] vst[i] != '=');
                        assert(vst[6] == 'n');
                        assert(forall|i: int| 0 <= i < 6 ==> #[trigger] amt[i] != '=');
                        assert(amt[5] == 't');
                        assert("amount="@.len() == 7);
                        assert("amount="@[6] == '=');
                        assert("amount="@[5] == 't');
                        assert("amount="@.subrange(0, 6) =~= amt);
                        let q1 = (base.len() + idp.len()) as int;
                        let q2 = q1 + 1 + a.len() + amp.len() + vst.len();
                        let w = q2 + 1 + b.len() + amp.len();
                        let q3 = w + 6;
                        assert forall|i: int| 0 <= i < 7 implies s[w + i] == "amount="@[i] by {
                            if i < 6 {
                                assert(s[w + i] == amt[i]);
                                assert("amount="@[i] == "amount="@.subrange(0, 6)[i]);
                            } else {
                                assert(s[w + i] == eq[0]);
                            }
                        }
                        assert(s.subrange(w, w + 7) =~= "amount="@);
                        assert(matches_at(s, "amount="@, w));
                        assert forall|q: int| matches_at(s, "amount="@, q) implies q == w by {
                            assert(s.subrange(q, q + 7) == "amount="@);
                            assert(s.subrange(q, q + 7)[6] == s[q + 6]);
                            assert(s.subrange(q, q + 7)[5] == s[q + 5]);
                            assert(s[q + 6] == '=');
                            assert(s[q + 5] == 't');
                            if q + 6 < base.len() {
                                assert(s[q + 6] == base[q + 6]);
                                assert(false);
                            } else if q + 6 < q1 {
                                assert(s[q + 6] == idp[q + 6 - base.len()]);
                                assert(false);
                            } else if q + 6 == q1 {
                                assert(s[q + 5] == idp[1]);
                                assert(false);
                            } else if q + 6 < q1 + 1 + a.len() {
                                assert(s[q + 6] == a[q + 6 - (q1 + 1)]);
                                assert(false);
                            } else if q + 6 < q1 + 1 + a.len() + 1 {
                                assert(s[q + 6] == amp[0]);
                                assert(false);
                            } else if q + 6 < q2 {
                                assert(s[q + 6] == vst[q + 6 - (q1 + 1 + a.len() + 1)]);
                                assert(false);
                            } else if q + 6 == q2 {
                                assert(s[q + 5] == vst[6]);
                                assert(false);
                            } else if q + 6 < q2 + 1 + b.len() {
                                assert(s[q + 6] == b[q + 6 - (q2 + 1)]);
                                assert(false);
                            } else if q + 6 < q2 + 1 + b.len() + 1 {
                                assert(s[q + 6] == amp[0]);
                                assert(false);
                            } else if q + 6 < q3 {
                                assert(s[q + 6] == amt[q + 6 - w]);
                                assert(false);
                            } else if q + 6 == q3 {
                                assert(q == w);
                            } else {
                                assert(s[q + 6] == t[q + 6 - (q3 + 1)]);
                                assert(false);
                            }
                        }
                        assert(contains_sub_once(s, "amount="@));
                    }
                },
                None => {
                    assert(seq![p0, p1] + Seq::<(Seq<char>, Seq<char>)>::empty() =~= seq![p0, p1]);
                    reveal_strlit("amount=");
                    reveal_strlit("https://quote-api.jup.ag/v1/price?");
                    reveal_strlit("id");
                    reveal_strlit("=");
                    reveal_strlit("&");
                    reveal_strlit("vsToken");
                    let s = url@;
                    let base = "https://quote-api.jup.ag/v1/price?"@;
                    let idp = "id"@;
                    let eq = "="@;
                    let amp = "&"@;
                    let vst = "vsToken"@;
                    let a = input_text@;
                    let b = output_text@;
                    assert(s == base + idp + eq + a + amp + vst + eq + b);
                    assert(base.len() == 34);
                    assert(idp.len() == 2);
                    assert(eq.len() == 1);
                    assert(amp.len() == 1);
                    assert(vst.len() == 7);
                    assert(forall|i: int| 0 <= i < 34 ==> #[trigger] base[i] != '=');
                    assert(idp[0] != '=' && idp[1] != '=');
                    assert(idp[1] == 'd');
                    assert(amp[0] != '=');
                    assert(forall|i: int| 0 <= i < 7 ==> #[trigger] vst[i] != '=');
                    assert(vst[6] == 'n');
                    assert("amount="@.len() == 7);
                    assert("amount="@[6] == '=');
                    assert("amount="@[5] == 't');
                    let q1 = base.len() + idp.len();
                    let q2 = q1 + 1 + a.len() + amp.len() + vst.len();
                    assert forall|p: int| !matches_at(s, "amount="@, p) by {
                        if matches_at(s, "amount="@, p) {
                            assert(s.subrange(p, p + 7) == "amount="@);
                            assert(s.subrange(p, p + 7)[6] == s[p + 6]);
                            assert(s.subrange(p, p + 7)[5] == s[p + 5]);
                            assert(s[p + 6] == '=');
                            assert(s[p + 5] == 't');
                            if p + 6 < base.len() {
                                assert(s[p + 6] == base[p + 6]);
                                assert(false);
                            } else if p + 6 < q1 {
                                assert(s[p + 6] == idp[p + 6 - base.len()]);
                                assert(false);
                            } else if p + 6 == q1 {
                                assert(s[p + 5] == idp[1]);
                                assert(false);
                            } else if p + 6 < q1 + 1 + a.len() {
                                assert(s[p + 6] == a[p + 6 - (q1 + 1)]);
                                assert(false);
                            } else if p + 6 < q1 + 1 + a.len() + 1 {
                                assert(s[p + 6] == amp[0]);
                                assert(false);
                            } else if p + 6 < q2 {
                                assert(s[p + 6] == vst[p + 6 - (q1 + 1 + a.len() + 1)]);
                                assert(false);
                            } else if p + 6 == q2 {
                                assert(s[p + 5] == vst[6]);
                                assert(false);
                            } else {
                                assert(s[p + 6] == b[p + 6 - (q2 + 1)]);
                                assert(false);
                            }
                        }
                    }
                    assert(!contains_sub(s, "amount="@));
                },
            }
        }
        url
    }

    /// Builds the swap request: the fixed URL, and the wire body holding
    /// the quote verbatim, the user's address, and the flattened options.
    pub fn process_swap_input<'a>(
        &self,
        route: Quote,
        user_public_key: Address,
        swap_config: SwapConfig,
    ) -> (r: (&'a str, SwapRequest))
        requires
            user_public_key.wf(),
            swap_config.wf(),
        ensures
            r.0@ == "https://quote-api.jup.ag/v1/swap"@,
            r.1.route == route,
            r.1.user_public_key == user_public_key,
            r.1.wrap_unwrap_sol == swap_config.wrap_unwrap_sol,
            (r.1.fee_account is Some) == (swap_config.fee_account is Some),
            swap_config.fee_account matches Some(a) ==> (r.1.fee_account matches Some(s) && s@
                == base58_of(a@)),
            (r.1.token_ledger is Some) == (swap_config.token_ledger is Some),
            swap_config.token_ledger matches Some(a) ==> (r.1.token_ledger matches Some(s) && s@
                == base58_of(a@)),
    {
        let url = self.swap_str();
        let fee_account = match &swap_config.fee_account {
            Some(a) => Some(a.text()),
            None => None,
        };
        let token_ledger = match &swap_config.token_ledger {
            Some(a) => Some(a.text()),
            None => None,
        };
        let request = SwapRequest {
            route,
            user_public_key,
            wrap_unwrap_sol: swap_config.wrap_unwrap_sol,
            fee_account,
            token_ledger,
        };
        (url, request)
    }

    /// The transaction decode pipeline: each present blob is decoded from
    /// base64 and then binary-deserialized, in setup, swap, cleanup order;
    /// the first malformed stage aborts the call with its tag.  Absent
    /// setup and cleanup stages stay absent; an absent swap stage is
    /// malformed input and fails loudly.
    pub fn process_swap_response(&self, response: SwapResponse) -> (r: Result<Swap, ApiError>)
        ensures
            match r {
                Ok(s) => {
                    &&& opt_blob_ok(response.setup_transaction)
                    &&& response.swap_transaction matches Some(t) && tx_blob_ok(t@)
                    &&& opt_blob_ok(response.cleanup_transaction)
                    &&& (s.setup is Some) == (response.setup_transaction is Some)
                    &&& (s.cleanup is Some) == (response.cleanup_transaction is Some)
                },
                Err(e) => match e {
                    ApiError::TransactionDecode { stage } => match stage {
                        SwapStage::Setup => response.setup_transaction matches Some(t)
                            && !tx_blob_ok(t@),
                        SwapStage::Swap => opt_blob_ok(response.setup_transaction) && (
                        response.swap_transaction matches Some(t) && !tx_blob_ok(t@)),
                        SwapStage::Cleanup => opt_blob_ok(response.setup_transaction) && (
                        response.swap_transaction matches Some(t) && tx_blob_ok(t@)) && (
                        response.cleanup_transaction matches Some(c) && !tx_blob_ok(c@)),
                    },
                    ApiError::MissingSwapTransaction => opt_blob_ok(response.setup_transaction)
                        && response.swap_transaction is None,
                    _ => false,
                },
            },
    {
        let setup = match response.setup_transaction {
            Some(blob) => match decode_transaction_blob(blob.as_str()) {
                Some(t) => Some(t),
                None => {
                    return Err(ApiError::TransactionDecode { stage: SwapStage::Setup });
                },
            },
            None => None,
        };
        let swap = match response.swap_transaction {
            Some(blob) => match decode_transaction_blob(blob.as_str()) {
                Some(t) => t,
                None => {
                    return Err(ApiError::TransactionDecode { stage: SwapStage::Swap });
                },
            },
            None => {
                return Err(ApiError::MissingSwapTransaction);
            },
        };
        let cleanup = match response.cleanup_transaction {
            Some(blob) => match decode_transaction_blob(blob.as_str()) {
                Some(t) => Some(t),
                None => {
                    return Err(ApiError::TransactionDecode { stage: SwapStage::Cleanup });
                },
            },
            None => None,
        };
        Ok(Swap { setup, swap, cleanup })
    }

    /// The route-map decompressor: every mint key is parsed into an
    /// address (the first unparseable one fails the whole operation), and
    /// the indexed table is resolved against the parsed array; any index
    /// at or beyond the array length is a fatal decode error.
    pub fn process_route_map_response(&self, response: IndexedRouteMap) -> (r: Result<
        RouteMap,
        ApiError,
    >)
        ensures
            ({
                let kv = str_views(response.mint_keys@);
                let pv = pair_views(response.indexed_route_map@);
                match r {
                    Ok(m) => {
                        &&& keys_parse_ok(kv)
                        &&& all_indices_in(pv, kv.len())
                        &&& m.wf()
                        &&& m.entry_views() == resolved_entries(parsed_key_views(kv), pv)
                        &&& m.as_map() == decompressed_map(parsed_key_views(kv), pv)
                    },
                    Err(e) => match e {
                        ApiError::AddressParse { position } => {
                            &&& position < kv.len()
                            &&& parsed_address(kv[position as int]) is None
                            &&& forall|k: int|
                                0 <= k < position ==> (#[trigger] parsed_address(kv[k])) is Some
                        },
                        ApiError::IndexOutOfRange { index, len } => {
                            &&& keys_parse_ok(kv)
                            &&& !all_indices_in(pv, kv.len())
                            &&& len == kv.len()
                            &&& index >= len
                            &&& index_appears(pv, index)
                        },
                        _ => false,
                    },
                }
            }),
    {
        let keys = match parse_mint_keys(&response.mint_keys) {
            Ok(v) => v,
            Err(e) => {
                return Err(e);
            },
        };
        decompress(&keys, &response.indexed_route_map)
    }
}

} // verus!
