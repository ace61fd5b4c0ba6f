//! The pipeline's error taxonomy.  Validation errors are detected before
//! any I/O; resource errors surface a missing body file; signing errors
//! abort the pipeline rather than send an unsigned or wrongly-signed
//! request.

use vstd::prelude::*;

verus! {

/// A rule of option-model validation that an invocation violated.
#[derive(Debug, PartialEq, Eq)]
pub enum ValidationError {
    /// The method string is not a valid HTTP token.
    InvalidMethod,
    /// The URL is not an absolute URL.
    InvalidUrl,
    /// Both a request body and form fields were supplied.
    ConflictingBodySource,
    /// Exactly one of the access key and the secret key was supplied.
    IncompleteCredentials,
    /// A header argument with no colon or an empty name; carries the
    /// offending argument verbatim.
    MalformedHeader(Vec<u8>),
}

/// A failure to obtain an external resource the body needs.
#[derive(Debug, PartialEq, Eq)]
pub enum ResourceError {
    /// The file named by a file-sourced body could not be read; carries
    /// the path.
    BodySourceUnreadable(Vec<u8>),
}

/// A failure while signing the request.
#[derive(Debug, PartialEq, Eq)]
pub enum SigningError {
    /// Canonicalization needs a region and none was supplied.
    MissingRegion,
    /// The requested auth scheme name is not an HTTP token.
    UnsupportedScheme,
}

/// Any failure of the build stages that follow validation.
#[derive(Debug, PartialEq, Eq)]
pub enum BuildError {
    Resource(ResourceError),
    Signing(SigningError),
}

} // verus!
