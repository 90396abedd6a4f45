//! Declarations of the types that come from other crates and from `std`.
//!
//! Every type declared here is opaque to the proofs: a value of it is only
//! carried through, or read by one of the trusted functions of this crate.
use vstd::prelude::*;

verus! {

/// `std::time::SystemTime`: a reading of the system clock.
#[verifier::external_type_specification]
#[verifier::external_body]
pub struct ExSystemTime(std::time::SystemTime);

/// `http::HeaderMap`: the multimap of header names to header values.
#[verifier::external_type_specification]
#[verifier::external_body]
#[verifier::reject_recursive_types(T)]
pub struct ExHeaderMap<T>(http::HeaderMap<T>);

/// `http::HeaderValue`: the bytes of one header value.
#[verifier::external_type_specification]
#[verifier::external_body]
pub struct ExHeaderValue(http::HeaderValue);

/// `http::Method`: the method of a request.
#[verifier::external_type_specification]
#[verifier::external_body]
pub struct ExMethod(http::Method);

/// `http::uri::InvalidUri`: why a text is not a URI.
#[verifier::external_type_specification]
#[verifier::external_body]
pub struct ExInvalidUri(http::uri::InvalidUri);

/// `http::Error`: why a part of an HTTP message cannot be built.
#[verifier::external_type_specification]
#[verifier::external_body]
pub struct ExHttpError(http::Error);

/// `http::header::ToStrError`: a header value holds a byte that is not visible ASCII.
#[verifier::external_type_specification]
#[verifier::external_body]
pub struct ExToStrError(http::header::ToStrError);

/// `bytes::Bytes`: a shared buffer of bytes.
#[verifier::external_type_specification]
#[verifier::external_body]
pub struct ExBytes(bytes::Bytes);

/// `aws_sigv4::http_request::SigningError`: why the signer refused a request.
#[verifier::external_type_specification]
#[verifier::external_body]
pub struct ExSigningError(aws_sigv4::http_request::SigningError);

/// `aws_sigv4::http_request::SigningInstructions`: what to add to a request to sign it.
#[verifier::external_type_specification]
#[verifier::external_body]
pub struct ExSigningInstructions(aws_sigv4::http_request::SigningInstructions);

/// `CredentialsError` of `aws_credential_types`: why a provider gave no credentials.
#[verifier::external_type_specification]
#[verifier::external_body]
pub struct ExCredentialsError(aws_credential_types::provider::error::CredentialsError);

/// `SharedCredentialsProvider` of `aws_credential_types`: a handle on a credentials provider.
#[verifier::external_type_specification]
#[verifier::external_body]
pub struct ExSharedCredentialsProvider(aws_credential_types::provider::SharedCredentialsProvider);

/// `aws_types::SdkConfig`: the configuration that the AWS SDK resolved.
#[verifier::external_type_specification]
#[verifier::external_body]
pub struct ExSdkConfig(aws_types::SdkConfig);

/// `aws_config::profile::ProfileFileLoadError`: why the profile files could not be loaded.
#[verifier::external_type_specification]
#[verifier::external_body]
pub struct ExProfileFileLoadError(aws_config::profile::ProfileFileLoadError);

} // verus!
