use std::sync::Arc;

use aws_auth::load_sdk_config;
use aws_auth::AwsAccessKeys;
use aws_auth::AwsAuthConfig;
use aws_auth::AwsAuthContext;
use aws_auth::AwsAuthError;
use aws_auth::CredentialsSource;
use aws_auth::SdkConfigCache;
use aws_auth::SdkConfigRequest;
use aws_auth::SdkConfigStep;
use aws_credential_types::provider::SharedCredentialsProvider;
use aws_types::region::Region;
use aws_types::SdkConfig;

fn provider() -> SharedCredentialsProvider {
    SharedCredentialsProvider::new(aws_credential_types::Credentials::new(
        "AKIDEXAMPLE",
        "wJalrXUtnFEMI/K7MDENG+bPxRfiCYEXAMPLEKEY",
        None,
        None,
        "unit-test",
    ))
}

fn sdk_config(region: &'static str) -> SdkConfig {
    SdkConfig::builder()
        .region(Region::new(region))
        .credentials_provider(provider())
        .build()
}

fn config(profile: Option<&str>, region: Option<&str>, service: &str) -> AwsAuthConfig {
    AwsAuthConfig {
        profile: profile.map(str::to_string),
        region: region.map(str::to_string),
        service: service.to_string(),
    }
}

fn keys(session_token: Option<&str>) -> AwsAccessKeys {
    AwsAccessKeys {
        access_key_id: "AKIDSTATIC".to_string(),
        secret_access_key: "static-secret".to_string(),
        session_token: session_token.map(str::to_string),
    }
}

fn error_of(outcome: Result<AwsAuthContext, AwsAuthError>) -> AwsAuthError {
    match outcome {
        Ok(_) => panic!("loading should fail"),
        Err(error) => error,
    }
}

fn context_of(outcome: Result<AwsAuthContext, AwsAuthError>) -> AwsAuthContext {
    match outcome {
        Ok(context) => context,
        Err(error) => panic!("{}", error.to_string()),
    }
}

#[test]
fn load_rejects_invalid_configuration() {
    let empty = config(None, None, "   ");
    let cache = SdkConfigCache::new();
    let err = match load_sdk_config(&cache, &empty) {
        Ok(_) => panic!("empty service should be rejected"),
        Err(error) => error,
    };
    assert_eq!(err.to_string(), "AWS service name must not be empty");
    let err = error_of(AwsAuthContext::load(empty, &sdk_config("us-east-1")));
    assert_eq!(err.to_string(), "AWS service name must not be empty");

    let no_profile = config(None, Some("us-east-1"), "bedrock");
    let err = match AwsAuthContext::profile_request(&no_profile) {
        Ok(_) => panic!("profile auth should require a configured profile"),
        Err(error) => error,
    };
    assert_eq!(err.to_string(), "AWS profile must be configured");
    let err = error_of(AwsAuthContext::load_profile(
        no_profile,
        provider(),
        &sdk_config("us-east-1"),
    ));
    assert_eq!(err.to_string(), "AWS profile must be configured");
}

#[test]
fn load_takes_region_and_service() {
    let context = context_of(AwsAuthContext::load(
        config(None, Some("eu-west-1"), "\u{2003} bedrock\t\n"),
        &sdk_config("us-east-1"),
    ));
    assert_eq!(context.region(), "us-east-1");
    assert_eq!(context.service(), "bedrock");
    assert!(matches!(context.credentials_source(), CredentialsSource::Provider(_)));
}

#[test]
fn load_needs_provider_and_region() {
    let nothing = SdkConfig::builder().build();
    let err = error_of(AwsAuthContext::load(config(None, None, "bedrock"), &nothing));
    assert!(matches!(err, AwsAuthError::MissingCredentialsProvider));

    let no_region = SdkConfig::builder().credentials_provider(provider()).build();
    let err = error_of(AwsAuthContext::load(config(None, None, "bedrock"), &no_region));
    assert!(matches!(err, AwsAuthError::MissingRegion));

    let no_provider = SdkConfig::builder().region(Region::new("us-east-1")).build();
    let err = error_of(AwsAuthContext::load_with_access_keys(
        config(None, None, "bedrock"),
        keys(None),
        &no_provider,
    ));
    assert!(matches!(err, AwsAuthError::MissingCredentialsProvider));
}

#[test]
fn missing_parts_are_reported_for_plain_values() {
    let err = error_of(AwsAuthContext::from_resolved(
        config(None, None, " \u{a0}"),
        None,
        None,
    ));
    assert!(matches!(err, AwsAuthError::EmptyService));
    let err = error_of(AwsAuthContext::from_resolved(
        config(None, None, "bedrock"),
        None,
        Some("us-east-1".to_string()),
    ));
    assert!(matches!(err, AwsAuthError::MissingCredentialsProvider));
    let err = error_of(AwsAuthContext::from_resolved(
        config(None, None, "bedrock"),
        Some(provider()),
        None,
    ));
    assert!(matches!(err, AwsAuthError::MissingRegion));
}

#[test]
fn access_keys_take_the_place_of_the_provider() {
    let context = context_of(AwsAuthContext::load_with_access_keys(
        config(None, None, "bedrock"),
        keys(Some("token")),
        &sdk_config("us-east-1"),
    ));
    match context.credentials_source() {
        CredentialsSource::AccessKeys(found) => assert!(*found == keys(Some("token"))),
        CredentialsSource::Provider(_) => panic!("the keys should be used"),
    }
}

#[test]
fn profile_takes_the_place_of_the_provider() {
    let config = config(Some("work"), Some("us-east-1"), "bedrock");
    let request = AwsAuthContext::profile_request(&config).unwrap();
    assert_eq!(request.profile, "work");
    assert_eq!(request.region, Some("us-east-1".to_string()));
    let context =
        context_of(AwsAuthContext::load_profile(config, provider(), &sdk_config("us-east-1")));
    assert!(matches!(context.credentials_source(), CredentialsSource::Provider(_)));
}

#[test]
fn loaded_configs_are_shared_between_services() {
    let mut cache = SdkConfigCache::new();
    let first = config(Some("work"), Some("us-east-1"), "bedrock");
    let request = match load_sdk_config(&cache, &first) {
        Ok(SdkConfigStep::Load(request)) => request,
        _ => panic!("nothing is cached yet"),
    };
    assert_eq!(
        request,
        SdkConfigRequest {
            profile: Some("work".to_string()),
            region: Some("us-east-1".to_string()),
        }
    );
    let loaded = Arc::new(sdk_config("us-east-1"));
    cache.store(request, Arc::clone(&loaded));

    let second = config(Some("work"), Some("us-east-1"), "sts");
    match load_sdk_config(&cache, &second) {
        Ok(SdkConfigStep::Cached(found)) => assert!(Arc::ptr_eq(found, &loaded)),
        _ => panic!("the configuration is cached"),
    }
    for other in [
        config(Some("home"), Some("us-east-1"), "bedrock"),
        config(Some("work"), Some("us-west-2"), "bedrock"),
        config(Some("work"), None, "bedrock"),
        config(None, Some("us-east-1"), "bedrock"),
        config(None, None, "bedrock"),
    ] {
        assert!(matches!(load_sdk_config(&cache, &other), Ok(SdkConfigStep::Load(_))));
    }
}

#[test]
fn storing_again_replaces() {
    let mut cache = SdkConfigCache::new();
    let request = || SdkConfigRequest { profile: None, region: None };
    let (one, two) = (Arc::new(sdk_config("us-east-1")), Arc::new(sdk_config("us-west-2")));
    cache.store(request(), Arc::clone(&one));
    cache.store(
        SdkConfigRequest { profile: Some("work".to_string()), region: None },
        Arc::clone(&one),
    );
    cache.store(request(), Arc::clone(&two));
    assert!(Arc::ptr_eq(cache.get(&None, &None).unwrap(), &two));
    assert!(Arc::ptr_eq(cache.get(&Some("work".to_string()), &None).unwrap(), &one));
    assert!(cache.get(&None, &Some("us-east-1".to_string())).is_none());
}

#[test]
fn descriptions_show_no_secrets() {
    assert_eq!(
        keys(None).debug_text(),
        "AwsAccessKeys { access_key_id: \"<redacted>\", secret_access_key: \"<redacted>\", \
         session_token: None }"
    );
    assert_eq!(
        keys(Some("token")).debug_text(),
        "AwsAccessKeys { access_key_id: \"<redacted>\", secret_access_key: \"<redacted>\", \
         session_token: Some(\"<redacted>\") }"
    );
    let context = context_of(AwsAuthContext::load_with_access_keys(
        config(None, None, "bed\"rock"),
        keys(Some("token")),
        &sdk_config("us-east-1"),
    ));
    assert_eq!(
        context.debug_text(),
        "AwsAuthContext { region: \"us-east-1\", service: \"bed\\\"rock\", .. }"
    );
    assert_eq!(
        context.pretty_debug_text(),
        "AwsAuthContext {\n    region: \"us-east-1\",\n    service: \"bed\\\"rock\",\n    ..\n}"
    );
    assert_eq!(
        keys(None).pretty_debug_text(),
        "AwsAccessKeys {\n    access_key_id: \"<redacted>\",\n    secret_access_key: \"<redacted>\",\n    \
         session_token: None,\n}"
    );
    assert_eq!(
        keys(Some("token")).pretty_debug_text(),
        "AwsAccessKeys {\n    access_key_id: \"<redacted>\",\n    secret_access_key: \"<redacted>\",\n    \
         session_token: Some(\n        \"<redacted>\",\n    ),\n}"
    );
}

#[test]
fn descriptions_of_different_keys_are_equal() {
    let mut other = keys(Some("another"));
    other.access_key_id = "AKIDOTHER".to_string();
    other.secret_access_key = "other-secret".to_string();
    assert_eq!(other.debug_text(), keys(Some("token")).debug_text());
    assert_eq!(other.clone().debug_text(), other.debug_text());
}

#[test]
fn each_config_is_loaded_once() {
    let mut cache = SdkConfigCache::new();
    let mut loads = 0;
    for asked in [
        config(Some("work"), None, "bedrock"),
        config(Some("work"), None, "sts"),
        config(None, None, "bedrock"),
        config(Some("work"), None, " bedrock"),
        config(None, None, "s3"),
    ] {
        let request = match load_sdk_config(&cache, &asked.clone()) {
            Ok(SdkConfigStep::Load(request)) => Some(request),
            _ => None,
        };
        if let Some(request) = request {
            loads += 1;
            cache.store(request, Arc::new(sdk_config("us-east-1")));
        }
    }
    assert_eq!(loads, 2);
}
