//! Protocol-core error types.
//!
//! Each error maps to an HTTP status code, a metrics category and a JSON
//! error body.

use vstd::prelude::*;
use crate::canonical::LossPolicy;
use crate::json::{spec_quote, write_quoted};
use crate::text::{spec_decimal, write_decimal};

verus! {

/// Protocol engine errors.
#[derive(Debug, Clone)]
pub enum ProtocolEngineError {
    /// The detected protocol is not supported.
    UnsupportedProtocol { protocol: String },
    /// The request payload could not be decoded.
    InvalidPayload { message: String },
    /// A required feature is not supported by the target adapter.
    UnsupportedFeature { feature: String, reason: String },
    /// A stream event could not be parsed or translated.
    InvalidStreamEvent { message: String },
    /// Translation between protocols failed.
    TranslationFailure { message: String },
    /// A feature was lost during translation.
    LossyTranslation { feature: String, reason: String, policy: LossPolicy },
    /// The upstream provider returned an error.
    ProviderError { message: String, status: Option<u16> },
    /// An internal error that should never happen.
    Internal(String),
}

/// The HTTP status code of an error.
pub open spec fn spec_status_code(e: ProtocolEngineError) -> u16 {
    match e {
        ProtocolEngineError::UnsupportedProtocol { .. } => 400,
        ProtocolEngineError::InvalidPayload { .. } => 400,
        ProtocolEngineError::UnsupportedFeature { .. } => 501,
        ProtocolEngineError::InvalidStreamEvent { .. } => 502,
        ProtocolEngineError::TranslationFailure { .. } => 502,
        ProtocolEngineError::LossyTranslation { policy, .. } => match policy {
            LossPolicy::Reject => 400,
            _ => 200,
        },
        ProtocolEngineError::ProviderError { .. } => 502,
        ProtocolEngineError::Internal(_) => 500,
    }
}

/// The metrics category (and JSON `type`) of an error.
pub open spec fn spec_category(e: ProtocolEngineError) -> Seq<char> {
    match e {
        ProtocolEngineError::UnsupportedProtocol { .. } => "unsupported_protocol"@,
        ProtocolEngineError::InvalidPayload { .. } => "invalid_payload"@,
        ProtocolEngineError::UnsupportedFeature { .. } => "unsupported_feature"@,
        ProtocolEngineError::InvalidStreamEvent { .. } => "invalid_stream_event"@,
        ProtocolEngineError::TranslationFailure { .. } => "translation_failure"@,
        ProtocolEngineError::LossyTranslation { .. } => "lossy_translation"@,
        ProtocolEngineError::ProviderError { .. } => "provider_error"@,
        ProtocolEngineError::Internal(_) => "internal"@,
    }
}

/// The human-readable message of an error (its display form).
pub open spec fn spec_message(e: ProtocolEngineError) -> Seq<char> {
    match e {
        ProtocolEngineError::UnsupportedProtocol { protocol } => "unsupported protocol: "@
            + protocol@,
        ProtocolEngineError::InvalidPayload { message } => "invalid payload: "@ + message@,
        ProtocolEngineError::UnsupportedFeature { feature, reason } => "unsupported feature '"@
            + feature@ + "': "@ + reason@,
        ProtocolEngineError::InvalidStreamEvent { message } => "invalid stream event: "@
            + message@,
        ProtocolEngineError::TranslationFailure { message } => "translation failure: "@
            + message@,
        ProtocolEngineError::LossyTranslation { feature, reason, .. } => "lossy translation for '"@
            + feature@ + "': "@ + reason@,
        ProtocolEngineError::ProviderError { message, .. } => "provider error: "@ + message@,
        ProtocolEngineError::Internal(m) => "internal protocol error: "@ + m@,
    }
}

/// The JSON error body: `{"error":{"type":..,"message":..,"status":..}}`.
pub open spec fn spec_json_body(e: ProtocolEngineError) -> Seq<char> {
    "{\"error\":{\"type\":"@ + spec_quote(spec_category(e)) + ",\"message\":"@ + spec_quote(
        spec_message(e),
    ) + ",\"status\":"@ + spec_decimal(spec_status_code(e) as nat) + "}}"@
}

/// The HTTP status code type of the `http` crate, carried opaquely.
#[verifier::external_type_specification]
#[verifier::external_body]
pub struct ExStatusCode(http::StatusCode);

/// The status code that `http::StatusCode::from_u16` gives for `code`.
pub uninterp spec fn spec_status_from_u16(code: u16) -> http::StatusCode;

/// `http::StatusCode::from_u16`, its error dropped. Claimed, as its source
/// shows: it gives a status code for every number in `100..=999` and an
/// error for any other; the code it gives depends on `code` alone and is
/// named by `spec_status_from_u16`.
#[verifier::external_body]
pub(crate) fn status_from_code(code: u16) -> (s: Option<http::StatusCode>)
    ensures
        s is Some <==> 100 <= code <= 999,
        s matches Some(c) ==> c == spec_status_from_u16(code),
{
    http::StatusCode::from_u16(code).ok()
}

/// The upstream HTTP status an error carries: that of a provider error
/// for a real upstream response.
pub open spec fn spec_status(e: ProtocolEngineError) -> Option<u16> {
    match e {
        ProtocolEngineError::ProviderError { status, .. } => status,
        _ => None,
    }
}

impl ProtocolEngineError {
    /// The upstream HTTP status this error carries, if any.
    pub fn status(&self) -> (s: Option<u16>)
        ensures
            s == spec_status(*self),
    {
        match self {
            ProtocolEngineError::ProviderError { status, .. } => *status,
            _ => None,
        }
    }

    /// The numeric HTTP status code for this error.
    pub fn status_code_number(&self) -> (code: u16)
        ensures
            code == spec_status_code(*self),
    {
        match self {
            ProtocolEngineError::UnsupportedProtocol { .. } => 400,
            ProtocolEngineError::InvalidPayload { .. } => 400,
            ProtocolEngineError::UnsupportedFeature { .. } => 501,
            ProtocolEngineError::InvalidStreamEvent { .. } => 502,
            ProtocolEngineError::TranslationFailure { .. } => 502,
            ProtocolEngineError::LossyTranslation { policy, .. } => match policy {
                LossPolicy::Reject => 400,
                _ => 200,
            },
            ProtocolEngineError::ProviderError { .. } => 502,
            ProtocolEngineError::Internal(_) => 500,
        }
    }

    /// HTTP status code for this error: the one `http` gives for its
    /// number.
    pub fn status_code(&self) -> (s: http::StatusCode)
        ensures
            s == spec_status_from_u16(spec_status_code(*self)),
    {
        match status_from_code(self.status_code_number()) {
            Some(s) => s,
            None => vstd::pervasive::unreached(),
        }
    }

    /// Classification for metrics labels.
    pub fn category(&self) -> (c: &'static str)
        ensures
            c@ == spec_category(*self),
    {
        match self {
            ProtocolEngineError::UnsupportedProtocol { .. } => "unsupported_protocol",
            ProtocolEngineError::InvalidPayload { .. } => "invalid_payload",
            ProtocolEngineError::UnsupportedFeature { .. } => "unsupported_feature",
            ProtocolEngineError::InvalidStreamEvent { .. } => "invalid_stream_event",
            ProtocolEngineError::TranslationFailure { .. } => "translation_failure",
            ProtocolEngineError::LossyTranslation { .. } => "lossy_translation",
            ProtocolEngineError::ProviderError { .. } => "provider_error",
            ProtocolEngineError::Internal(_) => "internal",
        }
    }

    /// The error's message (its display form).
    pub fn to_string(&self) -> (s: String)
        ensures
            s@ == spec_message(*self),
    {
        let mut s = String::new();
        match self {
            ProtocolEngineError::UnsupportedProtocol { protocol } => {
                s.append("unsupported protocol: ");
                s.append(protocol.as_str());
            },
            ProtocolEngineError::InvalidPayload { message } => {
                s.append("invalid payload: ");
                s.append(message.as_str());
            },
            ProtocolEngineError::UnsupportedFeature { feature, reason } => {
                s.append("unsupported feature '");
                s.append(feature.as_str());
                s.append("': ");
                s.append(reason.as_str());
            },
            ProtocolEngineError::InvalidStreamEvent { message } => {
                s.append("invalid stream event: ");
                s.append(message.as_str());
            },
            ProtocolEngineError::TranslationFailure { message } => {
                s.append("translation failure: ");
                s.append(message.as_str());
            },
            ProtocolEngineError::LossyTranslation { feature, reason, .. } => {
                s.append("lossy translation for '");
                s.append(feature.as_str());
                s.append("': ");
                s.append(reason.as_str());
            },
            ProtocolEngineError::ProviderError { message, .. } => {
                s.append("provider error: ");
                s.append(message.as_str());
            },
            ProtocolEngineError::Internal(m) => {
                s.append("internal protocol error: ");
                s.append(m.as_str());
            },
        }
        s
    }

    /// Build a JSON response body for this error.
    pub fn to_json_body(&self) -> (body: String)
        ensures
            body@ == spec_json_body(*self),
    {
        let mut s = String::new();
        s.append("{\"error\":{\"type\":");
        write_quoted(&mut s, self.category());
        s.append(",\"message\":");
        let msg = self.to_string();
        write_quoted(&mut s, msg.as_str());
        s.append(",\"status\":");
        write_decimal(&mut s, self.status_code_number() as u64);
        s.append("}}");
        s
    }
}

/// JSON error response body for protocol errors.
#[derive(Debug, Clone)]
pub struct ProtocolErrorResponse {
    pub error: ProtocolErrorBody,
}

/// The body of a [`ProtocolErrorResponse`].
#[derive(Debug, Clone)]
pub struct ProtocolErrorBody {
    /// Serialized as `type`.
    pub error_type: String,
    pub message: String,
    pub status: u16,
}

} // verus!
