use std::time::Duration;
use std::time::SystemTime;
use std::time::UNIX_EPOCH;

use aws_auth::clock::nanos_since_epoch;
use aws_auth::credentials_still_valid;
use aws_auth::query::measure_query;
use aws_auth::signing::apply_signing_headers;
use aws_auth::signing::can_be_signed;
use aws_auth::signing::sign_request;
use aws_auth::signing::text_headers;
use aws_auth::signing::SigningHeader;
use aws_auth::AwsAccessKeys;
use aws_auth::AwsAuthConfig;
use aws_auth::AwsAuthContext;
use aws_auth::AwsAuthError;
use aws_auth::AwsRequestToSign;
use aws_auth::AwsSignedRequest;
use aws_auth::Credentials;
use aws_auth::CredentialsSource;
use aws_auth::CredentialsStep;
use aws_auth::SignStep;
use aws_credential_types::provider::error::CredentialsError;
use aws_credential_types::provider::SharedCredentialsProvider;
use aws_types::region::Region;
use aws_types::SdkConfig;
use bytes::Bytes;
use http::HeaderMap;
use http::HeaderName;
use http::HeaderValue;
use http::Method;

const SIGNATURE: &str = "AWS4-HMAC-SHA256 Credential=AKIDEXAMPLE/20231114/us-east-1/bedrock/\
    aws4_request, SignedHeaders=content-type;host;x-amz-date;x-test-header, \
    Signature=2afc1ca5125d41face25d2bd48edc9609a64492d23a547bdbccb28d1e69b6252";

const SIGNATURE_WITH_TOKEN: &str = "AWS4-HMAC-SHA256 Credential=AKIDEXAMPLE/20231114/us-east-1/\
    bedrock/aws4_request, \
    SignedHeaders=content-type;host;x-amz-date;x-amz-security-token;x-test-header, \
    Signature=8fddb9d3a0222e110aab95fa3d597f1eff8d330b231fe4525f13c75efca9454f";

fn test_credentials(session_token: Option<&str>) -> Credentials {
    Credentials {
        access_key_id: "AKIDEXAMPLE".to_string(),
        secret_access_key: "wJalrXUtnFEMI/K7MDENG+bPxRfiCYEXAMPLEKEY".to_string(),
        session_token: session_token.map(str::to_string),
        expires_after: None,
        provider_name: "unit-test",
    }
}

fn test_context() -> AwsAuthContext {
    let provider = SharedCredentialsProvider::new(aws_credential_types::Credentials::new(
        "AKIDEXAMPLE",
        "wJalrXUtnFEMI/K7MDENG+bPxRfiCYEXAMPLEKEY",
        None,
        None,
        "unit-test",
    ));
    let sdk_config = SdkConfig::builder()
        .region(Region::new("us-east-1"))
        .credentials_provider(provider)
        .build();
    match AwsAuthContext::load(test_config(), &sdk_config) {
        Ok(context) => context,
        Err(error) => panic!("{}", error.to_string()),
    }
}

fn test_config() -> AwsAuthConfig {
    AwsAuthConfig { profile: None, region: None, service: "bedrock".to_string() }
}

fn test_request() -> AwsRequestToSign {
    let mut headers = HeaderMap::new();
    headers.insert(
        http::header::CONTENT_TYPE,
        HeaderValue::from_static("application/json"),
    );
    headers.insert("x-test-header", HeaderValue::from_static("present"));
    AwsRequestToSign {
        method: Method::POST,
        url: "https://bedrock-runtime.us-east-1.amazonaws.com/v1/responses".to_string(),
        headers,
        body: Bytes::from_static(br#"{"model":"openai.gpt-oss-120b-1:0"}"#),
    }
}

fn test_time() -> SystemTime {
    UNIX_EPOCH + Duration::from_secs(1_700_000_000)
}

fn header_value(headers: &HeaderMap, name: &str) -> Option<String> {
    headers.get(name).map(|value| value.to_str().unwrap().to_string())
}

/// Signs like a caller with a provider that gives `fresh`, and counts how often it is asked.
fn sign_counting(
    context: &mut AwsAuthContext,
    request: AwsRequestToSign,
    time: SystemTime,
    fresh: Credentials,
    asked: &mut u32,
) -> Result<AwsSignedRequest, AwsAuthError> {
    let step = match context.sign_at(request, time) {
        SignStep::FetchCredentials(pending) => {
            *asked += 1;
            context.resume(pending, Ok(fresh))
        }
        step => step,
    };
    match step {
        SignStep::Done(outcome) => outcome,
        _ => panic!("the request should be signed or refused"),
    }
}

fn sign_once(
    request: AwsRequestToSign,
    credentials: &Credentials,
) -> Result<AwsSignedRequest, AwsAuthError> {
    assert!(can_be_signed(credentials, &request, test_time()));
    sign_request(credentials, "us-east-1", "bedrock", request, test_time())
}

#[test]
fn sign_adds_sigv4_headers_and_preserves_existing_headers() {
    let mut asked = 0;
    let signed = sign_counting(
        &mut test_context(),
        test_request(),
        test_time(),
        test_credentials(None),
        &mut asked,
    )
    .expect("request should sign");

    assert_eq!(
        header_value(&signed.headers, http::header::CONTENT_TYPE.as_str()),
        Some("application/json".to_string())
    );
    assert_eq!(header_value(&signed.headers, "x-test-header"), Some("present".to_string()));
    assert_eq!(signed.url, "https://bedrock-runtime.us-east-1.amazonaws.com/v1/responses");
    assert!(
        header_value(&signed.headers, http::header::AUTHORIZATION.as_str())
            .is_some_and(|value| value.starts_with("AWS4-HMAC-SHA256 "))
    );
    assert!(header_value(&signed.headers, "x-amz-date").is_some());
}

#[test]
fn sign_includes_session_token_when_credentials_have_one() {
    let mut asked = 0;
    let signed = sign_counting(
        &mut test_context(),
        test_request(),
        test_time(),
        test_credentials(Some("session-token")),
        &mut asked,
    )
    .expect("request should sign");

    assert_eq!(
        header_value(&signed.headers, "x-amz-security-token"),
        Some("session-token".to_string())
    );
}

#[test]
fn concurrent_signing_invokes_credential_provider_once() {
    let mut context = test_context();
    let mut asked = 0;
    let mut fresh = test_credentials(None);
    fresh.expires_after = Some(UNIX_EPOCH + Duration::from_secs(4_100_000_000));
    for _ in 0..10 {
        sign_counting(&mut context, test_request(), test_time(), fresh.clone(), &mut asked)
            .expect("signing should succeed");
    }
    assert_eq!(
        asked, 1,
        "credential provider should be invoked exactly once across concurrent sign() calls"
    );
}

#[test]
fn the_signature_is_that_of_the_request() {
    let signed = sign_once(test_request(), &test_credentials(None)).unwrap();
    assert_eq!(header_value(&signed.headers, "x-amz-date"), Some("20231114T221320Z".to_string()));
    assert_eq!(header_value(&signed.headers, "authorization"), Some(SIGNATURE.to_string()));
    assert_eq!(header_value(&signed.headers, "x-amz-security-token"), None);
    assert_eq!(signed.headers.len(), 4);

    let signed = sign_once(test_request(), &test_credentials(Some("session-token"))).unwrap();
    assert_eq!(
        header_value(&signed.headers, "authorization"),
        Some(SIGNATURE_WITH_TOKEN.to_string())
    );
    assert_eq!(signed.headers.len(), 5);
}

#[test]
fn the_token_is_marked_as_sensitive() {
    let signed = sign_once(test_request(), &test_credentials(Some("session-token"))).unwrap();
    assert!(signed.headers.get("x-amz-security-token").unwrap().is_sensitive());
    assert!(!signed.headers.get("x-amz-date").unwrap().is_sensitive());
}

#[test]
fn method_url_and_body_are_signed() {
    let plain = sign_once(test_request(), &test_credentials(None)).unwrap();
    let authorization = header_value(&plain.headers, "authorization");

    let mut other = test_request();
    other.method = Method::PUT;
    let signed = sign_once(other, &test_credentials(None)).unwrap();
    assert_ne!(header_value(&signed.headers, "authorization"), authorization);

    let mut other = test_request();
    other.url = "https://bedrock-runtime.us-east-1.amazonaws.com/v1/responses?a=b".to_string();
    let signed = sign_once(other, &test_credentials(None)).unwrap();
    assert_ne!(header_value(&signed.headers, "authorization"), authorization);

    let mut other = test_request();
    other.body = Bytes::from_static(b"{}");
    let signed = sign_once(other, &test_credentials(None)).unwrap();
    assert_ne!(header_value(&signed.headers, "authorization"), authorization);
}

#[test]
fn signing_twice_gives_the_same() {
    let one = sign_once(test_request().clone(), &test_credentials(None)).unwrap();
    let two = sign_once(test_request(), &test_credentials(None)).unwrap();
    assert_eq!(one.clone(), two);
}

#[test]
fn old_signature_headers_are_replaced() {
    let mut request = test_request();
    request.headers.append("authorization", HeaderValue::from_static("Bearer one"));
    request.headers.append("authorization", HeaderValue::from_static("Bearer two"));
    request.headers.append("x-test-header", HeaderValue::from_static("twice"));
    let signed = sign_once(request, &test_credentials(None)).unwrap();
    let all: Vec<_> = signed.headers.get_all("authorization").iter().collect();
    assert_eq!(all.len(), 1);
    assert!(all[0].to_str().unwrap().starts_with("AWS4-HMAC-SHA256 Credential=AKIDEXAMPLE/"));
    let kept: Vec<_> = signed.headers.get_all("x-test-header").iter().collect();
    assert_eq!(kept, ["present", "twice"]);
    let names: Vec<_> = signed.headers.keys().map(|name| name.as_str()).collect();
    assert_eq!(names, ["content-type", "x-test-header", "authorization", "x-amz-date"]);
}

#[test]
fn bad_urls_are_refused() {
    let mut request = test_request();
    request.url = "https://".to_string();
    let error = sign_once(request, &test_credentials(None)).unwrap_err();
    assert!(matches!(error, AwsAuthError::InvalidUri(_)));
    assert!(!error.is_retryable());
}

#[test]
fn bad_header_values_are_refused() {
    let mut request = test_request();
    request.headers.insert("x-bytes", HeaderValue::from_bytes(b"\xff").unwrap());
    let error = sign_once(request, &test_credentials(None)).unwrap_err();
    assert!(matches!(error, AwsAuthError::InvalidHeaderValue(_)));
}

#[test]
fn bad_tokens_and_names_are_refused() {
    let error = sign_once(test_request(), &test_credentials(Some("line\nbreak"))).unwrap_err();
    assert!(matches!(error, AwsAuthError::SigningFailure(_)));
    assert_eq!(error.to_string(), "SigV4 signing failed: failed to create canonical request");

    let mut request = test_request();
    request.headers.insert(
        HeaderName::from_lowercase(b"a\"b").unwrap(),
        HeaderValue::from_static("quoted"),
    );
    let error = sign_once(request, &test_credentials(None)).unwrap_err();
    assert!(matches!(error, AwsAuthError::SigningFailure(_)));
}

#[test]
fn bad_access_keys_are_refused() {
    let mut credentials = test_credentials(None);
    credentials.access_key_id = "AKID\u{7f}".to_string();
    let error = sign_once(test_request(), &credentials).unwrap_err();
    assert!(matches!(error, AwsAuthError::BuildHttpRequest(_)));
}

#[test]
fn requests_without_a_host_are_not_given_to_the_signer() {
    let mut request = test_request();
    request.url = "/v1/responses".to_string();
    assert!(!can_be_signed(&test_credentials(None), &request, test_time()));
    request.headers.insert("host", HeaderValue::from_static("example.com"));
    assert!(can_be_signed(&test_credentials(None), &request, test_time()));
    assert!(sign_once(request.clone(), &test_credentials(None)).is_ok());
    request.url = "example.com".to_string();
    assert!(!can_be_signed(&test_credentials(None), &request, test_time()));
}

#[test]
fn requests_for_odd_times_are_not_given_to_the_signer() {
    let credentials = test_credentials(None);
    let request = test_request();
    let last = UNIX_EPOCH + Duration::new(253_402_300_799, 999_999_999);
    let first = UNIX_EPOCH - Duration::from_secs(377_705_116_800);
    assert!(can_be_signed(&credentials, &request, last));
    assert!(!can_be_signed(&credentials, &request, last + Duration::from_nanos(1)));
    assert!(can_be_signed(&credentials, &request, first));
    assert!(!can_be_signed(&credentials, &request, first - Duration::from_nanos(1)));
}

/// A request for `/?` and a query, with the host among its headers.
fn request_with_query(query: String) -> AwsRequestToSign {
    let mut request = test_request();
    request.url = format!("/?{}", query);
    request.headers.insert("host", HeaderValue::from_static("example.com"));
    request
}

/// The signer takes `query` with `letters` letters at its end, which make it as long as it may
/// be, and the library says no to one letter more.
fn assert_longest(query: String, letters: usize) {
    let fitting = request_with_query(query.clone() + &"a".repeat(letters));
    assert!(sign_once(fitting, &test_credentials(None)).is_ok());
    let beyond = request_with_query(query + &"a".repeat(letters + 1));
    assert!(!can_be_signed(&test_credentials(None), &beyond, test_time()));
}

#[test]
fn queries_are_signed_as_long_as_they_fit_when_encoded() {
    assert_longest("a".repeat(65_531), 0);
    assert_longest("!".repeat(21_843), 2);
    assert_longest("+".repeat(21_843), 2);
    assert_longest("~-._".repeat(16_382), 3);
    assert_longest("\u{e9}".repeat(10_921), 5);
    assert_longest("%C3%A9".repeat(10_000), 5_531);
    assert_longest("%FF".repeat(7_281), 2);
    assert_longest("%E2%82".repeat(7_281), 2);
    assert_longest("%F0%9F%98".repeat(7_281), 2);
    assert_longest("%ED%A0%80".repeat(2_427), 2);
    assert_longest("%2".repeat(16_382), 5);
    assert_longest("a=a&".repeat(16_000), 1_531);
    assert_longest("a&".repeat(16_382), 16_385);
    assert_longest("==".repeat(10_000), 5_534);
}

#[test]
fn long_urls_are_signed() {
    let mut letters = test_request();
    letters.url = format!("https://example.com/{}?{}", "p".repeat(4_980), "q".repeat(25_000));
    assert!(sign_once(letters, &test_credentials(None)).is_ok());

    let mut escapes = test_request();
    escapes.url = format!("https://example.com/?{}#{}", "%20".repeat(21_000), "!".repeat(2_000));
    assert!(sign_once(escapes, &test_credentials(None)).is_ok());

    let mut path = test_request();
    path.url = format!("https://example.com/{}", "!".repeat(65_514));
    assert_eq!(path.url.len(), 65_534);
    assert!(sign_once(path.clone(), &test_credentials(None)).is_ok());
    path.url.push('!');
    let error = sign_once(path, &test_credentials(None)).unwrap_err();
    assert!(matches!(error, AwsAuthError::InvalidUri(_)));
}

#[test]
fn queries_are_measured() {
    assert_eq!(measure_query(b""), 0);
    assert_eq!(measure_query(b"&&"), 0);
    assert_eq!(measure_query(b"="), 2);
    assert_eq!(measure_query(b"a"), 3);
    assert_eq!(measure_query(b"a=b&c=d"), 8);
    assert_eq!(measure_query(b"a==&%4"), 2 + 1 + 3 + 2 + 3 + 1);
    assert_eq!(measure_query(b"%41%2f%2F"), 2 + 1 + 3 + 3);
    assert_eq!(measure_query(b"%F0%9F%98%80"), 2 + 12);
    assert_eq!(measure_query(b"%E2%82a"), 2 + 9 + 1);
    assert_eq!(measure_query(b"%C0%80"), 2 + 9 + 9);
    assert_eq!(measure_query(b"%C3=%A9"), 2 + 9 + 9);
}

/// The request with as many more headers, each of a name of its own.
fn request_with_names(more: usize) -> AwsRequestToSign {
    let mut request = test_request();
    request.headers.reserve(24_000);
    for i in 0..more {
        let name = HeaderName::from_bytes(format!("x-{i}").as_bytes()).unwrap();
        request.headers.insert(name, HeaderValue::from_static("1"));
    }
    request
}

#[test]
fn requests_with_many_headers_are_signed() {
    let mut many = request_with_names(6_549);
    assert_eq!(many.headers.keys_len(), 6_551);
    for _ in 0..18_025 {
        many.headers.append("x-test-header", HeaderValue::from_static("2"));
    }
    assert_eq!(many.headers.len(), 24_576);
    assert!(sign_once(many.clone(), &test_credentials(Some("token"))).is_ok());
    many.headers.append("x-test-header", HeaderValue::from_static("3"));
    assert!(!can_be_signed(&test_credentials(None), &many, test_time()));
}

#[test]
fn requests_with_many_names_are_signed() {
    for more in [6_550, 7_000, 10_000] {
        let signed = sign_once(request_with_names(more), &test_credentials(Some("token")));
        let headers = signed.unwrap().headers;
        assert_eq!(headers.len(), 2 + more + 3);
        assert_eq!(header_value(&headers, "x-6549"), Some("1".to_string()));
        assert!(header_value(&headers, "authorization").is_some());
    }
}

/// The slot that a header map first tries for a name.
fn slot(name: &str) -> u64 {
    let mut hash: u64 = 0xcbf29ce484222325;
    for byte in 1isize.to_ne_bytes().iter().chain(name.as_bytes()) {
        hash = (hash ^ u64::from(*byte)).wrapping_mul(0x100000001b3);
    }
    hash % 32_768
}

#[test]
fn names_that_collide_are_not_given_to_the_signer() {
    let mut headers = HeaderMap::with_capacity(24_000);
    let names: Vec<String> = (0..200_000).map(|i| format!("y-{i}")).collect();
    let close: Vec<&String> = names.iter().filter(|name| slot(name) < 1_024).take(5_500).collect();
    assert_eq!(close.len(), 5_500);
    let put = |headers: &mut HeaderMap, name: &str| {
        let name = HeaderName::from_bytes(name.as_bytes()).unwrap();
        headers.insert(name, HeaderValue::from_static("1"));
    };
    // The map itself gives up its fast hash while it is small. The signer meets the same names
    // late.
    for name in &close {
        put(&mut headers, name);
    }
    for i in 0..7_000 {
        put(&mut headers, &format!("x-{i}"));
    }
    for name in &close {
        headers.remove(name.as_str());
    }
    for name in &close {
        put(&mut headers, name);
    }
    assert_eq!(headers.len(), 12_500);
    let mut request = test_request();
    request.headers = headers;
    assert!(!can_be_signed(&test_credentials(None), &request, test_time()));
    let step = test_context().sign_with(&test_credentials(None), request, test_time());
    assert!(matches!(step, SignStep::Unsignable));
}

#[test]
fn refusals_come_before_what_the_signer_cannot_do() {
    let mut request = test_request();
    request.url = "/v1/responses".to_string();
    request.headers.insert(
        HeaderName::from_lowercase(b"a\"b").unwrap(),
        HeaderValue::from_static("quoted"),
    );
    let error = sign_once(request, &test_credentials(None)).unwrap_err();
    assert!(matches!(error, AwsAuthError::SigningFailure(_)));

    let long = request_with_query("!".repeat(40_000));
    let error = sign_once(long, &test_credentials(Some("line\nbreak"))).unwrap_err();
    assert!(matches!(error, AwsAuthError::SigningFailure(_)));
}

#[test]
fn the_first_and_last_times_can_be_signed_for() {
    let last = UNIX_EPOCH + Duration::new(253_402_300_799, 999_999_999);
    let signed =
        sign_request(&test_credentials(None), "us-east-1", "bedrock", test_request(), last);
    assert_eq!(
        header_value(&signed.unwrap().headers, "x-amz-date"),
        Some("99991231T235959Z".to_string())
    );
    let first = UNIX_EPOCH - Duration::from_secs(377_705_116_800);
    let signed =
        sign_request(&test_credentials(None), "us-east-1", "bedrock", test_request(), first);
    assert_eq!(
        header_value(&signed.unwrap().headers, "x-amz-date"),
        Some("-99990101T000000Z".to_string())
    );
}

#[test]
fn an_unsignable_request_is_reported() {
    let mut context = test_context();
    let mut request = test_request();
    request.url = "/v1/responses".to_string();
    let pending = match context.sign(request) {
        SignStep::FetchCredentials(pending) => pending,
        _ => panic!("credentials are needed first"),
    };
    let step = context.resume(pending, Ok(test_credentials(None)));
    assert!(matches!(step, SignStep::Unsignable));
}

#[test]
fn signing_headers_are_set_in_order() {
    let mut headers = HeaderMap::new();
    headers.insert("b", HeaderValue::from_static("old"));
    headers.insert("c", HeaderValue::from_static("kept"));
    let added = vec![
        SigningHeader { name: "a".to_string(), value: "1".to_string(), sensitive: true },
        SigningHeader { name: "b".to_string(), value: "\u{e9}".to_string(), sensitive: false },
    ];
    let set = apply_signing_headers(headers, &added).unwrap();
    let all: Vec<(&str, &[u8])> =
        set.iter().map(|(name, value)| (name.as_str(), value.as_bytes())).collect();
    let expected: Vec<(&str, &[u8])> = vec![("b", b"\xc3\xa9"), ("c", b"kept"), ("a", b"1")];
    assert_eq!(all, expected);

    let bad = vec![SigningHeader {
        name: "a".to_string(),
        value: "\u{1}".to_string(),
        sensitive: false,
    }];
    assert!(apply_signing_headers(HeaderMap::new(), &bad).is_err());
}

#[test]
fn headers_are_read_as_text() {
    let texts = text_headers(&test_request().headers).unwrap();
    assert_eq!(texts.len(), 2);
    assert_eq!((texts[0].name.as_str(), texts[0].value.as_str()), ("content-type", "application/json"));
    assert_eq!((texts[1].name.as_str(), texts[1].value.as_str()), ("x-test-header", "present"));
    let mut headers = HeaderMap::new();
    headers.insert("x-tab", HeaderValue::from_bytes(b"a\tb ~").unwrap());
    assert_eq!(text_headers(&headers).unwrap()[0].value, "a\tb ~");
    headers.insert("x-high", HeaderValue::from_bytes(b"\x80").unwrap());
    assert!(text_headers(&headers).is_err());
}

#[test]
fn validity_ends_five_minutes_before_expiry() {
    let mut credentials = test_credentials(None);
    assert!(credentials.is_valid_at(test_time()));
    credentials.expires_after = Some(test_time() + Duration::from_secs(300));
    assert!(!credentials.is_valid_at(test_time()));
    assert!(credentials.is_valid_at(test_time() - Duration::from_nanos(1)));
    credentials.expires_after = Some(test_time() + Duration::from_secs(301));
    assert!(credentials.is_valid_at(test_time()));
    credentials.expires_after = Some(test_time() - Duration::from_secs(1));
    assert!(!credentials.is_valid_at(test_time()));
    credentials.expires_after = Some(UNIX_EPOCH - Duration::from_secs(1));
    assert!(!credentials.is_valid_at(test_time()));
    assert!(credentials.is_valid_at(UNIX_EPOCH - Duration::from_secs(400)));
}

#[test]
fn validity_is_judged_by_the_clock() {
    let mut credentials = test_credentials(None);
    assert!(credentials_still_valid(&credentials));
    credentials.expires_after = Some(SystemTime::now() + Duration::from_secs(3600));
    assert!(credentials_still_valid(&credentials));
    credentials.expires_after = Some(SystemTime::now() + Duration::from_secs(200));
    assert!(!credentials_still_valid(&credentials));
    credentials.expires_after = Some(SystemTime::now() - Duration::from_secs(3600));
    assert!(!credentials_still_valid(&credentials));
}

#[test]
fn stale_credentials_are_fetched_again() {
    let mut context = test_context();
    let mut stale = test_credentials(None);
    stale.expires_after = Some(test_time() + Duration::from_secs(60));
    assert!(matches!(context.credentials_at(test_time()), CredentialsStep::Fetch));
    let given = context.refresh(Ok(stale.clone())).unwrap();
    assert!(given == stale);
    assert!(matches!(context.credentials_at(test_time()), CredentialsStep::Fetch));
    match context.credentials_at(test_time() - Duration::from_secs(3600)) {
        CredentialsStep::Ready(ready) => assert!(ready == stale),
        CredentialsStep::Fetch => panic!("the credentials were valid then"),
    }
}

#[test]
fn a_failed_fetch_keeps_the_cache() {
    let mut context = test_context();
    let mut cached = test_credentials(None);
    cached.expires_after = Some(test_time() + Duration::from_secs(3600));
    assert!(context.refresh(Ok(cached.clone())).is_ok());
    let error = match context.refresh(Err(CredentialsError::provider_error("down"))) {
        Ok(_) => panic!("the failure should be reported"),
        Err(error) => error,
    };
    assert!(error.is_retryable());
    match context.credentials_at(test_time()) {
        CredentialsStep::Ready(ready) => assert!(ready == cached),
        CredentialsStep::Fetch => panic!("the cached credentials are still valid"),
    }
}

#[test]
fn a_failed_fetch_fails_the_request() {
    let mut context = test_context();
    let pending = match context.sign_at_clock(test_request(), test_time(), test_time()) {
        SignStep::FetchCredentials(pending) => pending,
        _ => panic!("credentials are needed first"),
    };
    assert_eq!(pending.time, test_time());
    assert_eq!(pending.request, test_request());
    match context.resume(pending, Err(CredentialsError::not_loaded_no_source())) {
        SignStep::Done(Err(error)) => assert!(!error.is_retryable()),
        _ => panic!("the request should fail"),
    }
}

#[test]
fn access_keys_sign_without_a_provider() {
    let sdk_config = SdkConfig::builder()
        .region(Region::new("us-east-1"))
        .credentials_provider(SharedCredentialsProvider::new(
            aws_credential_types::Credentials::new("OTHER", "other", None, None, "unit-test"),
        ))
        .build();
    let keys = AwsAccessKeys {
        access_key_id: "AKIDEXAMPLE".to_string(),
        secret_access_key: "wJalrXUtnFEMI/K7MDENG+bPxRfiCYEXAMPLEKEY".to_string(),
        session_token: Some("session-token".to_string()),
    };
    let mut context =
        match AwsAuthContext::load_with_access_keys(test_config(), keys, &sdk_config) {
            Ok(context) => context,
            Err(error) => panic!("{}", error.to_string()),
        };
    match context.get_or_refresh_credentials() {
        CredentialsStep::Ready(ready) => {
            let mut expected = test_credentials(Some("session-token"));
            expected.provider_name = "codex-managed-bedrock-access-keys";
            assert!(ready == expected);
        }
        CredentialsStep::Fetch => panic!("the keys are at hand"),
    }
    match context.sign_at(test_request(), test_time()) {
        SignStep::Done(Ok(signed)) => assert_eq!(
            header_value(&signed.headers, "authorization"),
            Some(SIGNATURE_WITH_TOKEN.to_string())
        ),
        _ => panic!("the request should be signed"),
    }
}

#[test]
fn sign_uses_the_current_time() {
    let mut context = test_context();
    let before = SystemTime::now();
    let pending = match context.sign(test_request()) {
        SignStep::FetchCredentials(pending) => pending,
        _ => panic!("credentials are needed first"),
    };
    assert!(before <= pending.time && pending.time <= SystemTime::now());
}

#[test]
fn callers_that_take_turns_share_credentials() {
    let mut context = test_context();
    let mut waiting = Vec::new();
    for _ in 0..2 {
        match context.sign_at(test_request(), test_time()) {
            SignStep::FetchCredentials(pending) => waiting.push(pending),
            _ => panic!("nothing is cached yet"),
        }
    }
    let first = context.resume(waiting.remove(0), Ok(test_credentials(None)));
    assert!(matches!(first, SignStep::Done(Ok(_))));
    let third = context.sign_at(test_request(), test_time());
    assert!(matches!(third, SignStep::Done(Ok(_))));
    let second = context.resume(waiting.remove(0), Ok(test_credentials(Some("session-token"))));
    match second {
        SignStep::Done(Ok(signed)) => assert_eq!(
            header_value(&signed.headers, "authorization"),
            Some(SIGNATURE_WITH_TOKEN.to_string())
        ),
        _ => panic!("the request should be signed"),
    }
    match context.credentials_at(test_time()) {
        CredentialsStep::Ready(ready) => assert!(ready == test_credentials(Some("session-token"))),
        CredentialsStep::Fetch => panic!("the last answer is cached"),
    }
}

#[test]
fn credentials_come_and_go_but_the_context_stays() {
    let mut context = test_context();
    assert!(context.refresh(Ok(test_credentials(Some("session-token")))).is_ok());
    assert!(context.refresh(Err(CredentialsError::not_loaded_no_source())).is_err());
    assert_eq!((context.region(), context.service()), ("us-east-1", "bedrock"));
    assert!(matches!(context.credentials_source(), CredentialsSource::Provider(_)));
}

#[test]
fn credentials_at_hand_sign_at_once() {
    let context = test_context();
    match context.sign_with(&test_credentials(None), test_request(), test_time()) {
        SignStep::Done(Ok(signed)) => {
            assert_eq!(header_value(&signed.headers, "authorization"), Some(SIGNATURE.to_string()))
        }
        _ => panic!("the request should be signed"),
    }
}

#[test]
fn points_in_time_are_counted_from_the_epoch() {
    assert_eq!(nanos_since_epoch(UNIX_EPOCH), 0);
    assert_eq!(nanos_since_epoch(UNIX_EPOCH + Duration::new(1, 5)), 1_000_000_005);
    assert_eq!(nanos_since_epoch(UNIX_EPOCH - Duration::from_nanos(7)), -7);
}

#[test]
fn cached_credentials_are_judged_by_the_clock() {
    let mut context = test_context();
    let mut cached = test_credentials(None);
    cached.expires_after = Some(test_time() + Duration::from_secs(3600));
    assert!(context.refresh(Ok(cached)).is_ok());
    let step = context.sign_at(test_request(), test_time());
    assert!(matches!(step, SignStep::FetchCredentials(_)));
}

#[test]
fn callers_ask_until_the_first_answer() {
    let mut context = test_context();
    let mut asked = Vec::new();
    for _ in 0..3 {
        match context.sign_at(test_request(), test_time()) {
            SignStep::FetchCredentials(pending) => asked.push(pending),
            _ => panic!("nothing is cached yet"),
        }
    }
    let failed = context.resume(asked.remove(0), Err(CredentialsError::provider_error("down")));
    assert!(matches!(failed, SignStep::Done(Err(_))));
    match context.sign_at(test_request(), test_time()) {
        SignStep::FetchCredentials(pending) => asked.push(pending),
        _ => panic!("nothing is cached yet"),
    }
    let first = context.resume(asked.remove(0), Ok(test_credentials(None)));
    assert!(matches!(first, SignStep::Done(Ok(_))));
    let later = context.sign_at(test_request(), test_time());
    assert!(matches!(later, SignStep::Done(Ok(_))));
    assert_eq!(asked.len(), 2);
}
