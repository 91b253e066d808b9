use vstd::prelude::*;
use vstd::string::StringExecFns;

use crate::text::{dec_digits, u64_text};

verus! {

/// One of the closed set of slippage tolerances a quote may carry.  A quote
/// URL carries exactly one of these encodings; keeping them as one sum type
/// makes a URL with two slippage fragments, or none, unrepresentable.
#[derive(Clone, Copy, Debug, PartialEq, Eq, Structural)]
pub enum Slippage {
    /// A whole-percent tolerance, rendered as `slippage={n}`.
    Percent(u64),
    /// A basis-points tolerance, rendered as `slippageBps={n}`.
    Bps(u64),
}

impl Slippage {
    /// The name of the one query parameter this tolerance contributes.
    pub open spec fn param_name(&self) -> Seq<char> {
        match self {
            Slippage::Percent(_) => "slippage"@,
            Slippage::Bps(_) => "slippageBps"@,
        }
    }

    /// The value text of that parameter.
    pub open spec fn param_value(&self) -> Seq<char> {
        match self {
            Slippage::Percent(n) => dec_digits(*n as nat),
            Slippage::Bps(n) => dec_digits(*n as nat),
        }
    }

    /// The single `name=value` query fragment this tolerance denotes.
    pub open spec fn fragment(&self) -> Seq<char> {
        self.param_name() + "="@ + self.param_value()
    }

    /// Renders the query fragment.
    pub fn value(&self) -> (r: String)
        ensures
            r@ == self.fragment(),
    {
        match self {
            Slippage::Percent(n) => {
                proof {
                    reveal_strlit("slippage=");
                    reveal_strlit("slippage");
                    reveal_strlit("=");
                    assert("slippage="@ =~= "slippage"@ + "="@);
                }
                let mut s = String::from_str("slippage=");
                let digits = u64_text(*n);
                s.append(digits.as_str());
                s
            },
            Slippage::Bps(n) => {
                proof {
                    reveal_strlit("slippageBps=");
                    reveal_strlit("slippageBps");
                    reveal_strlit("=");
                    assert("slippageBps="@ =~= "slippageBps"@ + "="@);
                }
                let mut s = String::from_str("slippageBps=");
                let digits = u64_text(*n);
                s.append(digits.as_str());
                s
            },
        }
    }
}

/// The optional platform fee of a quote, in basis points.  When unset the
/// quote URL carries no fee fragment at all.
#[derive(Clone, Copy, Debug)]
pub struct FeeBps {
    pub bps: Option<u64>,
}

impl FeeBps {
    /// The query fragment this fee denotes: empty when unset, otherwise
    /// one `&feeBps={n}` fragment.
    pub open spec fn fragment(&self) -> Seq<char> {
        match self.bps {
            Some(n) => "&feeBps="@ + dec_digits(n as nat),
            None => Seq::empty(),
        }
    }

    /// Renders the query fragment.
    pub fn value(&self) -> (r: String)
        ensures
            r@ == self.fragment(),
    {
        match self.bps {
            Some(n) => {
                let mut s = String::from_str("&feeBps=");
                let digits = u64_text(n);
                s.append(digits.as_str());
                s
            },
            None => {
                let s = String::new();
                proof {
                    assert(s@ =~= self.fragment());
                }
                s
            },
        }
    }
}

} // verus!
