//! The errors of credential loading and request signing.
use aws_config::profile::ProfileFileLoadError;
use aws_credential_types::provider::error::CredentialsError;
use aws_sigv4::http_request::SigningError;
use http::header::ToStrError;
use http::uri::InvalidUri;
use vstd::prelude::*;
use vstd::string::to_string_from_display_ensures;

verus! {

/// Errors returned by credential loading or SigV4 signing.
#[derive(Debug)]
pub enum AwsAuthError {
    EmptyService,
    MissingProfile,
    MissingCredentialsProvider,
    MissingRegion,
    ProfileLoad(ProfileFileLoadError),
    Credentials(CredentialsError),
    InvalidUri(InvalidUri),
    BuildHttpRequest(http::Error),
    InvalidHeaderValue(ToStrError),
    SigningRequest(SigningError),
    SigningParams(String),
    SigningFailure(SigningError),
}

/// What kind of failure a credentials provider reported.
#[derive(Debug, Clone, Copy, PartialEq, Eq, Structural)]
pub enum CredentialsErrorKind {
    /// No credentials were available for the provider.
    CredentialsNotLoaded,
    /// Loading took longer than the provider allows.
    ProviderTimedOut,
    /// The provider was configured wrongly.
    InvalidConfiguration,
    /// The provider failed while it resolved the credentials.
    ProviderError,
    /// The provider met something it did not expect.
    Unhandled,
    /// A variant that the SDK added later.
    Other,
}

/// The variant that a credentials error is of.
pub uninterp spec fn credentials_error_kind_of(error: CredentialsError) -> CredentialsErrorKind;

/// Tells the variants of `CredentialsError` apart.
///
/// Trusted: the kind is a function of the error alone, its variant.
#[verifier::external_body]
fn credentials_error_kind(error: &CredentialsError) -> (kind: CredentialsErrorKind)
    ensures
        kind == credentials_error_kind_of(*error),
{
    match error {
        CredentialsError::CredentialsNotLoaded(_) => CredentialsErrorKind::CredentialsNotLoaded,
        CredentialsError::ProviderTimedOut(_) => CredentialsErrorKind::ProviderTimedOut,
        CredentialsError::InvalidConfiguration(_) => CredentialsErrorKind::InvalidConfiguration,
        CredentialsError::ProviderError(_) => CredentialsErrorKind::ProviderError,
        CredentialsError::Unhandled(_) => CredentialsErrorKind::Unhandled,
        _ => CredentialsErrorKind::Other,
    }
}

/// `text` is `prefix` followed by what `value` displays as.
pub open spec fn displays_after<T: core::fmt::Display>(
    prefix: Seq<char>,
    value: T,
    text: Seq<char>,
) -> bool {
    exists|shown: String| #[trigger]
        to_string_from_display_ensures::<T>(&value, shown) && text == prefix + shown@
}

impl CredentialsErrorKind {
    /// Returns the kind of failure that an error reports.
    pub fn of(error: &CredentialsError) -> (kind: Self)
        ensures
            kind == credentials_error_kind_of(*error),
    {
        credentials_error_kind(error)
    }

    /// The failures that may go away by themselves: the provider ran out of time, or failed
    /// while it resolved the credentials.
    pub open spec fn is_transient(self) -> bool {
        self is ProviderTimedOut || self is ProviderError
    }

    /// Returns whether a later attempt can succeed after a failure of this kind.
    pub fn is_retryable(&self) -> (retryable: bool)
        ensures
            retryable == self.is_transient(),
    {
        match self {
            CredentialsErrorKind::ProviderTimedOut | CredentialsErrorKind::ProviderError => true,
            CredentialsErrorKind::CredentialsNotLoaded
            | CredentialsErrorKind::InvalidConfiguration
            | CredentialsErrorKind::Unhandled
            | CredentialsErrorKind::Other => false,
        }
    }
}

impl AwsAuthError {
    /// The error is one that a retry can recover from.
    pub open spec fn is_transient(self) -> bool {
        self matches AwsAuthError::Credentials(error)
            && credentials_error_kind_of(error).is_transient()
    }

    /// `text` is the message of the error.
    pub open spec fn is_described_by(self, text: Seq<char>) -> bool {
        match self {
            AwsAuthError::EmptyService => text == "AWS service name must not be empty"@,
            AwsAuthError::MissingProfile => text == "AWS profile must be configured"@,
            AwsAuthError::MissingCredentialsProvider => text
                == "AWS SDK config did not resolve a credentials provider"@,
            AwsAuthError::MissingRegion => text == "AWS SDK config did not resolve a region"@,
            AwsAuthError::ProfileLoad(error) => displays_after(
                "failed to load AWS profiles: "@,
                error,
                text,
            ),
            AwsAuthError::Credentials(error) => displays_after(
                "failed to load AWS credentials: "@,
                error,
                text,
            ),
            AwsAuthError::InvalidUri(error) => displays_after(
                "request URL is not a valid URI: "@,
                error,
                text,
            ),
            AwsAuthError::BuildHttpRequest(error) => displays_after(
                "failed to construct HTTP request for signing: "@,
                error,
                text,
            ),
            AwsAuthError::InvalidHeaderValue(error) => displays_after(
                "request contains a non-UTF8 header value: "@,
                error,
                text,
            ),
            AwsAuthError::SigningRequest(error) => displays_after(
                "failed to build signable request: "@,
                error,
                text,
            ),
            AwsAuthError::SigningParams(reason) => text
                == "failed to build SigV4 signing params: "@ + reason@,
            AwsAuthError::SigningFailure(error) => displays_after(
                "SigV4 signing failed: "@,
                error,
                text,
            ),
        }
    }

    /// Returns whether retrying the outbound request can reasonably recover from this auth error.
    pub fn is_retryable(&self) -> (retryable: bool)
        ensures
            retryable == self.is_transient(),
    {
        match self {
            AwsAuthError::Credentials(error) => CredentialsErrorKind::of(error).is_retryable(),
            AwsAuthError::EmptyService
            | AwsAuthError::MissingProfile
            | AwsAuthError::MissingCredentialsProvider
            | AwsAuthError::MissingRegion
            | AwsAuthError::ProfileLoad(_)
            | AwsAuthError::InvalidUri(_)
            | AwsAuthError::BuildHttpRequest(_)
            | AwsAuthError::InvalidHeaderValue(_)
            | AwsAuthError::SigningRequest(_)
            | AwsAuthError::SigningParams(_)
            | AwsAuthError::SigningFailure(_) => false,
        }
    }

    /// Returns the message of the error: what went wrong, then the cause where there is one.
    pub fn to_string(&self) -> (text: String)
        ensures
            self.is_described_by(text@),
    {
        match self {
            AwsAuthError::EmptyService => "AWS service name must not be empty".to_owned(),
            AwsAuthError::MissingProfile => "AWS profile must be configured".to_owned(),
            AwsAuthError::MissingCredentialsProvider => {
                "AWS SDK config did not resolve a credentials provider".to_owned()
            },
            AwsAuthError::MissingRegion => "AWS SDK config did not resolve a region".to_owned(),
            AwsAuthError::ProfileLoad(error) => {
                message("failed to load AWS profiles: ", &error.to_string())
            },
            AwsAuthError::Credentials(error) => {
                message("failed to load AWS credentials: ", &error.to_string())
            },
            AwsAuthError::InvalidUri(error) => {
                message("request URL is not a valid URI: ", &error.to_string())
            },
            AwsAuthError::BuildHttpRequest(error) => {
                message("failed to construct HTTP request for signing: ", &error.to_string())
            },
            AwsAuthError::InvalidHeaderValue(error) => {
                message("request contains a non-UTF8 header value: ", &error.to_string())
            },
            AwsAuthError::SigningRequest(error) => {
                message("failed to build signable request: ", &error.to_string())
            },
            AwsAuthError::SigningParams(reason) => {
                message("failed to build SigV4 signing params: ", reason)
            },
            AwsAuthError::SigningFailure(error) => {
                message("SigV4 signing failed: ", &error.to_string())
            },
        }
    }
}

/// Joins what went wrong and its cause.
fn message(prefix: &str, cause: &String) -> (text: String)
    ensures
        text@ == prefix@ + cause@,
{
    prefix.to_owned().concat(cause.as_str())
}

impl vstd::std_specs::convert::FromSpecImpl<CredentialsError> for AwsAuthError {
    open spec fn obeys_from_spec() -> bool {
        true
    }

    open spec fn from_spec(error: CredentialsError) -> Self {
        AwsAuthError::Credentials(error)
    }
}

impl From<CredentialsError> for AwsAuthError {
    fn from(error: CredentialsError) -> (converted: Self) {
        AwsAuthError::Credentials(error)
    }
}

impl vstd::std_specs::convert::FromSpecImpl<ProfileFileLoadError> for AwsAuthError {
    open spec fn obeys_from_spec() -> bool {
        true
    }

    open spec fn from_spec(error: ProfileFileLoadError) -> Self {
        AwsAuthError::ProfileLoad(error)
    }
}

impl From<ProfileFileLoadError> for AwsAuthError {
    fn from(error: ProfileFileLoadError) -> (converted: Self) {
        AwsAuthError::ProfileLoad(error)
    }
}

} // verus!
