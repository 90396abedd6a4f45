use std::time::Duration;

use aws_auth::AwsAuthConfig;
use aws_auth::AwsAuthContext;
use aws_auth::AwsAuthError;
use aws_auth::CredentialsErrorKind;
use aws_credential_types::provider::error::CredentialsError;
use http::HeaderValue;
use http::Uri;

#[test]
fn credentials_provider_failures_are_retryable() {
    assert!(
        AwsAuthError::Credentials(CredentialsError::provider_error("temporarily unavailable"))
            .is_retryable()
    );
    assert!(
        AwsAuthError::Credentials(CredentialsError::provider_timed_out(Duration::from_secs(1)))
            .is_retryable()
    );
}

#[test]
fn deterministic_aws_auth_errors_are_not_retryable() {
    assert!(!AwsAuthError::EmptyService.is_retryable());
    assert!(!AwsAuthError::MissingProfile.is_retryable());
    assert!(!AwsAuthError::Credentials(CredentialsError::not_loaded_no_source()).is_retryable());
    assert!(
        !AwsAuthError::Credentials(CredentialsError::invalid_configuration("bad profile"))
            .is_retryable()
    );
    assert!(
        !AwsAuthError::Credentials(CredentialsError::unhandled("unexpected response"))
            .is_retryable()
    );
}

#[test]
fn all_other_errors_are_not_retryable() {
    let header = HeaderValue::from_bytes(b"\xff").unwrap().to_str().unwrap_err();
    assert!(!AwsAuthError::MissingCredentialsProvider.is_retryable());
    assert!(!AwsAuthError::MissingRegion.is_retryable());
    assert!(!AwsAuthError::InvalidUri("".parse::<Uri>().unwrap_err()).is_retryable());
    assert!(
        !AwsAuthError::BuildHttpRequest(http::Error::from("".parse::<Uri>().unwrap_err()))
            .is_retryable()
    );
    assert!(!AwsAuthError::InvalidHeaderValue(header).is_retryable());
    assert!(!AwsAuthError::SigningParams("time is required".to_string()).is_retryable());
}

#[test]
fn only_transient_kinds_are_retryable() {
    let error = CredentialsError::invalid_configuration("bad profile");
    assert_eq!(CredentialsErrorKind::of(&error), CredentialsErrorKind::InvalidConfiguration);
    assert!(CredentialsErrorKind::ProviderTimedOut.is_retryable());
    assert!(CredentialsErrorKind::ProviderError.is_retryable());
    assert!(!CredentialsErrorKind::CredentialsNotLoaded.is_retryable());
    assert!(!CredentialsErrorKind::InvalidConfiguration.is_retryable());
    assert!(!CredentialsErrorKind::Unhandled.is_retryable());
    assert!(!CredentialsErrorKind::Other.is_retryable());
}

#[test]
fn messages_name_the_failure() {
    assert_eq!(AwsAuthError::EmptyService.to_string(), "AWS service name must not be empty");
    assert_eq!(AwsAuthError::MissingProfile.to_string(), "AWS profile must be configured");
    assert_eq!(
        AwsAuthError::MissingCredentialsProvider.to_string(),
        "AWS SDK config did not resolve a credentials provider"
    );
    assert_eq!(
        AwsAuthError::MissingRegion.to_string(),
        "AWS SDK config did not resolve a region"
    );
    assert_eq!(
        AwsAuthError::SigningParams("time is required".to_string()).to_string(),
        "failed to build SigV4 signing params: time is required"
    );
}

#[test]
fn messages_end_with_the_cause() {
    let header = HeaderValue::from_bytes(b"\xff").unwrap().to_str().unwrap_err();
    assert_eq!(
        AwsAuthError::Credentials(CredentialsError::not_loaded_no_source()).to_string(),
        "failed to load AWS credentials: the credential provider was not enabled"
    );
    assert_eq!(
        AwsAuthError::InvalidUri("".parse::<Uri>().unwrap_err()).to_string(),
        "request URL is not a valid URI: empty string"
    );
    assert_eq!(
        AwsAuthError::BuildHttpRequest(http::Error::from("".parse::<Uri>().unwrap_err()))
            .to_string(),
        "failed to construct HTTP request for signing: empty string"
    );
    assert_eq!(
        AwsAuthError::InvalidHeaderValue(header).to_string(),
        "request contains a non-UTF8 header value: failed to convert header to a str"
    );
}

#[test]
fn provider_errors_convert() {
    let error = AwsAuthError::from(CredentialsError::provider_error("down"));
    assert!(matches!(error, AwsAuthError::Credentials(CredentialsError::ProviderError(_))));
}

#[test]
fn a_profile_is_needed_to_load_one() {
    let config = AwsAuthConfig {
        profile: None,
        region: Some("us-east-1".to_string()),
        service: "bedrock".to_string(),
    };
    let error = AwsAuthContext::profile_request(&config).unwrap_err();
    assert_eq!(error.to_string(), "AWS profile must be configured");
}
