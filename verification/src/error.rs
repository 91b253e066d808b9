use vstd::prelude::*;

verus! {

/// Which of the three transaction stages of a swap response was being
/// decoded when a failure was found.
#[derive(Clone, Copy, Debug, PartialEq, Eq, Structural)]
pub enum SwapStage {
    Setup,
    Swap,
    Cleanup,
}

/// Every failure this layer reports.  Nothing is retried and nothing is
/// swallowed: each sub-stage aborts the whole call with one of these.
#[derive(Debug)]
pub enum ApiError {
    /// A network or connection failure, or a non-success HTTP status,
    /// surfaced unchanged from the transport.
    Transport { detail: String },
    /// A well-formed error envelope returned by the remote service,
    /// carrying the service's own message.
    Service { message: String },
    /// The payload was not valid JSON of the expected success shape.
    MalformedPayload { detail: String },
    /// A transaction blob failed base64 or binary decoding, tagged with
    /// the stage whose blob was malformed.
    TransactionDecode { stage: SwapStage },
    /// The swap response carried no swap transaction at all; the swap
    /// stage is mandatory, so this is malformed input, not an empty state.
    MissingSwapTransaction,
    /// A mint key of the indexed route map is not a parseable address;
    /// `position` is the first offending index into the key array.
    AddressParse { position: usize },
    /// A route-map index falls outside the mint key array of length `len`.
    IndexOutOfRange { index: usize, len: usize },
}

} // verus!
