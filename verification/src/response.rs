use vstd::prelude::*;

use crate::error::ApiError;
use crate::types::Response;

verus! {

/// A raw service reply after the transport edge has inspected it: the
/// error-indicator field is looked for first, so an error envelope is
/// classified before any attempt to decode the success shape, and an
/// `Errored` reply never holds a decoded payload at all.
#[derive(Debug)]
pub enum ServiceReply<T> {
    /// The payload carried the error-indicator field with this message.
    Errored { message: String },
    /// The payload lacked the error indicator and decoded as the expected shape.
    Data { value: T },
    /// The payload lacked the error indicator but was malformed for the
    /// expected shape.
    Malformed { detail: String },
}

/// What the discriminator makes of each reply.
pub open spec fn discriminated<T>(reply: ServiceReply<T>) -> Result<Response<T>, ApiError> {
    match reply {
        ServiceReply::Errored { message } => Err(ApiError::Service { message }),
        ServiceReply::Data { value } => Ok(Response { data: value }),
        ServiceReply::Malformed { detail } => Err(ApiError::MalformedPayload { detail }),
    }
}

/// The response discriminator: a service-reported error envelope becomes a
/// service error, a decoded success payload is returned typed, and a
/// malformed payload is reported as a decode failure, distinct from the
/// service's own errors.
pub fn maybe_jupiter_api_error<T>(reply: ServiceReply<T>) -> (r: Result<Response<T>, ApiError>)
    ensures
        r == discriminated(reply),
{
    match reply {
        ServiceReply::Errored { message } => Err(ApiError::Service { message }),
        ServiceReply::Data { value } => Ok(Response { data: value }),
        ServiceReply::Malformed { detail } => Err(ApiError::MalformedPayload { detail }),
    }
}

/// An error envelope is always surfaced as the service's own error, with
/// its message unchanged; it is never taken for a success payload (an
/// `Errored` reply carries no decoded payload the success path could use).
pub proof fn lemma_error_envelope_is_service_error<T>(message: String)
    ensures
        discriminated::<T>(ServiceReply::Errored { message }) == Err::<
            Response<T>,
            ApiError,
        >(ApiError::Service { message }),
{
}

/// A success envelope is always returned as the typed payload, never
/// misclassified as a service error.
pub proof fn lemma_success_envelope_is_data<T>(value: T)
    ensures
        discriminated(ServiceReply::Data { value }) == Ok::<Response<T>, ApiError>(
            Response { data: value },
        ),
{
}

} // verus!
