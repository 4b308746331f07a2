//! Structured extraction failures: the reason taxonomy, the failure record
//! handed back to the dispatch layer, and the HTTP status class each reason
//! maps to.
//!
//! Every failure is recoverable and per-request; extractors surface it to
//! their immediate caller, which answers the exchange with a 4xx-class
//! response and never lets a partially populated shape reach a handler.

use vstd::prelude::*;

verus! {

/// Why an extraction failed.
#[derive(Clone, Copy, Debug, PartialEq, Eq, Structural)]
pub enum FailureReason {
    /// A declared-required value was absent from its source.
    MissingRequiredField,
    /// The value was present but failed coercion to the declared type.
    TypeMismatch,
    /// The body bytes did not parse under the declared encoding.
    MalformedBody,
    /// The header was present but its value failed the header's grammar.
    MalformedHeaderValue,
    /// The body's reported content type was not the declared expectation.
    UnsupportedContentType,
}

/// A failed extraction: the declared field concerned (`None` when the
/// failure is not about one named field), the raw source value observed
/// (`None` when the value was missing), and the reason code.
#[derive(Debug)]
pub struct ExtractionFailure {
    pub field: Option<Vec<u8>>,
    pub observed: Option<Vec<u8>>,
    pub reason: FailureReason,
}

/// Ghost image of a failure.
pub struct FailureModel {
    pub field: Option<Seq<u8>>,
    pub observed: Option<Seq<u8>>,
    pub reason: FailureReason,
}

impl View for ExtractionFailure {
    type V = FailureModel;

    open spec fn view(&self) -> FailureModel {
        FailureModel {
            field: match self.field {
                Some(f) => Some(f@),
                None => None,
            },
            observed: match self.observed {
                Some(o) => Some(o@),
                None => None,
            },
            reason: self.reason,
        }
    }
}

/// A required value was absent from the named field's source.
pub open spec fn missing(field: Option<Seq<u8>>) -> FailureModel {
    FailureModel { field, observed: None, reason: FailureReason::MissingRequiredField }
}

/// The named field's observed value failed coercion to its declared type.
pub open spec fn mismatch(field: Seq<u8>, observed: Seq<u8>) -> FailureModel {
    FailureModel {
        field: Some(field),
        observed: Some(observed),
        reason: FailureReason::TypeMismatch,
    }
}

/// The HTTP status class the dispatch layer answers a failure with: 415 for
/// an unsupported content type, 400 for everything else.
pub open spec fn spec_http_status(r: FailureReason) -> u16 {
    if r is UnsupportedContentType {
        415
    } else {
        400
    }
}

impl FailureReason {
    /// Maps this reason to the HTTP status class of the response.
    pub fn http_status(&self) -> (s: u16)
        ensures
            s == spec_http_status(*self),
    {
        match self {
            FailureReason::UnsupportedContentType => 415,
            _ => 400,
        }
    }
}

} // verus!
