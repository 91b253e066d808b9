use vstd::prelude::*;

verus! {

/// The character for one decimal digit.
pub open spec fn digit_char(d: int) -> char {
    if d == 0 {
        '0'
    } else if d == 1 {
        '1'
    } else if d == 2 {
        '2'
    } else if d == 3 {
        '3'
    } else if d == 4 {
        '4'
    } else if d == 5 {
        '5'
    } else if d == 6 {
        '6'
    } else if d == 7 {
        '7'
    } else if d == 8 {
        '8'
    } else {
        '9'
    }
}

/// The decimal text of an unsigned value, most significant digit first,
/// with no leading zeros (a lone zero for the value zero).
pub open spec fn dec_digits(n: nat) -> Seq<char>
    decreases n,
{
    if n < 10 {
        seq![digit_char(n as int)]
    } else {
        dec_digits(n / 10) + seq![digit_char((n % 10) as int)]
    }
}

/// Whether the pattern occurs in `s` starting at position `p`.
pub open spec fn matches_at(s: Seq<char>, pat: Seq<char>, p: int) -> bool {
    &&& 0 <= p
    &&& p + pat.len() <= s.len()
    &&& s.subrange(p, p + pat.len() as int) == pat
}

/// Whether the pattern occurs anywhere in `s`.
pub open spec fn contains_sub(s: Seq<char>, pat: Seq<char>) -> bool {
    exists|p: int| matches_at(s, pat, p)
}

/// Whether the pattern occurs exactly once in `s`.
pub open spec fn contains_sub_once(s: Seq<char>, pat: Seq<char>) -> bool {
    exists|p: int|
        #[trigger] matches_at(s, pat, p) && (forall|q: int| matches_at(s, pat, q) ==> q == p)
}

/// Text free of the query-string metacharacters, as the rendering of any
/// number is.
pub open spec fn no_query_metachars(t: Seq<char>) -> bool {
    forall|i: int| 0 <= i < t.len() ==> #[trigger] t[i] != '=' && t[i] != '&'
}

/// The decimal digit characters.
pub open spec fn is_digit_char(c: char) -> bool {
    ||| c == '0'
    ||| c == '1'
    ||| c == '2'
    ||| c == '3'
    ||| c == '4'
    ||| c == '5'
    ||| c == '6'
    ||| c == '7'
    ||| c == '8'
    ||| c == '9'
}

/// Every character of a decimal rendering is a digit.
pub proof fn lemma_dec_digits_are_digits(n: nat)
    ensures
        forall|i: int| 0 <= i < dec_digits(n).len() ==> is_digit_char(#[trigger] dec_digits(n)[i]),
    decreases n,
{
    if n < 10 {
    } else {
        lemma_dec_digits_are_digits(n / 10);
        assert forall|i: int| 0 <= i < dec_digits(n).len() implies is_digit_char(
            #[trigger] dec_digits(n)[i],
        ) by {
            if i < dec_digits((n / 10) as nat).len() {
                assert(dec_digits(n)[i] == dec_digits((n / 10) as nat)[i]);
            } else {
                assert(dec_digits(n)[i] == digit_char((n % 10) as int));
            }
        }
    }
}

/// The lower-case text of a boolean.
pub open spec fn bool_chars(b: bool) -> Seq<char> {
    if b {
        "true"@
    } else {
        "false"@
    }
}

/// Renders a boolean the way query strings expect it.
pub fn bool_text(b: bool) -> (r: &'static str)
    ensures
        r@ == bool_chars(b),
{
    if b {
        "true"
    } else {
        "false"
    }
}

/// Renders an unsigned value in decimal.
///
/// Relies on u64's Display implementation, documented to print the decimal
/// digits of the value with no sign and no leading zeros.
#[verifier::external_body]
pub(crate) fn u64_text(n: u64) -> (r: String)
    ensures
        r@ == dec_digits(n as nat),
{
    format!("{}", n)
}

} // verus!
