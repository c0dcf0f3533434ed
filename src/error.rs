use vstd::prelude::*;

verus! {

/// Every failure that the library reports. Each is a returned value: no
/// function of the library aborts.
#[derive(Debug, Clone, PartialEq, Eq)]
pub enum Error {
    /// An actor endpoint string does not have the shape `name/handler[/hook]`.
    InvalidEndpoint,
    /// A string is not a syntactically valid DID.
    DidSyntaxError,
    /// No resolver is registered for the method of the DID.
    UnsupportedMethod,
    /// A credential of a presentation was issued under a method that has no resolver.
    UnsupportedIssuerMethod,
    /// A resolver for this method name is registered already.
    DuplicateMethod,
    /// The resolver of `method` failed; `cause` is its own description of the failure.
    ResolutionFailed { method: String, cause: String },
    /// A credential has no issuer, or its issuer is not a DID.
    MissingOrMalformedIssuer,
    /// A presentation has no holder, or its holder is not a DID.
    MissingOrMalformedHolder,
    /// The validation of the presentation reported these failures.
    ValidationFailed { details: Vec<String> },
    /// A claim could not be concealed in a selective-disclosure presentation.
    SelectiveDisclosureError,
}

} // verus!
