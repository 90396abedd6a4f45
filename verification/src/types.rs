//! The values that callers hand over and get back.
use bytes::Bytes;
use http::HeaderMap;
use http::Method;
use crate::message::buffer_bytes;
use crate::message::copy_buffer;
use crate::message::copy_headers;
use crate::message::copy_method;
use crate::message::header_entries;
use crate::message::method_text;
use vstd::prelude::*;

verus! {

/// AWS auth configuration used to resolve credentials and sign requests.
#[derive(Debug, PartialEq, Eq)]
pub struct AwsAuthConfig {
    pub profile: Option<String>,
    pub region: Option<String>,
    pub service: String,
}

/// Static AWS access keys supplied by a caller instead of the default SDK chain.
#[derive(PartialEq, Eq)]
pub struct AwsAccessKeys {
    pub access_key_id: String,
    pub secret_access_key: String,
    pub session_token: Option<String>,
}

/// Generic HTTP request shape consumed by SigV4 signing.
#[derive(Debug, PartialEq, Eq)]
pub struct AwsRequestToSign {
    pub method: Method,
    pub url: String,
    pub headers: HeaderMap,
    pub body: Bytes,
}

/// Signed request parts returned to the caller.
#[derive(Debug, PartialEq, Eq)]
pub struct AwsSignedRequest {
    pub url: String,
    pub headers: HeaderMap,
}

impl Clone for AwsAuthConfig {
    fn clone(&self) -> (copy: Self)
        ensures
            copy == *self,
    {
        AwsAuthConfig {
            profile: self.profile.clone(),
            region: self.region.clone(),
            service: self.service.clone(),
        }
    }
}

impl Clone for AwsAccessKeys {
    fn clone(&self) -> (copy: Self)
        ensures
            copy == *self,
    {
        AwsAccessKeys {
            access_key_id: self.access_key_id.clone(),
            secret_access_key: self.secret_access_key.clone(),
            session_token: self.session_token.clone(),
        }
    }
}

impl Clone for AwsRequestToSign {
    fn clone(&self) -> (copy: Self)
        ensures
            method_text(copy.method) == method_text(self.method),
            copy.url@ == self.url@,
            header_entries(copy.headers) == header_entries(self.headers),
            buffer_bytes(copy.body) == buffer_bytes(self.body),
    {
        AwsRequestToSign {
            method: copy_method(&self.method),
            url: self.url.clone(),
            headers: copy_headers(&self.headers),
            body: copy_buffer(&self.body),
        }
    }
}

impl Clone for AwsSignedRequest {
    fn clone(&self) -> (copy: Self)
        ensures
            copy.url@ == self.url@,
            header_entries(copy.headers) == header_entries(self.headers),
    {
        AwsSignedRequest { url: self.url.clone(), headers: copy_headers(&self.headers) }
    }
}

} // verus!
