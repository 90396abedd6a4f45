//! What holds of the library as a whole.
use crate::config::text_of;
use crate::context::is_load_outcome;
use crate::context::AwsAuthContext;
use crate::context::ContextView;
use crate::context::CredentialsSource;
use crate::context::SignStep;
use crate::credentials::Credentials;
use crate::error::credentials_error_kind_of;
use crate::error::AwsAuthError;
use crate::message::header_entries;
use crate::message::headers_named;
use crate::message::is_value_text;
use crate::message::law_set_header;
use crate::message::uri_parts;
use crate::message::with_header;
use crate::message::Entry;
use crate::signing::added_headers;
use crate::signing::all_named;
use crate::signing::all_visible;
use crate::signing::has_safe_names;
use crate::signing::is_sign_outcome;
use crate::signing::is_signed;
use crate::signing::is_token_text;
use crate::signing::names_key;
use crate::signing::signing_texts;
use crate::signing::text_pairs;
use crate::signing::with_headers;
use crate::signing::Added;
use crate::text::trimmed;
use crate::types::AwsAccessKeys;
use crate::types::AwsAuthConfig;
use crate::types::AwsRequestToSign;
use crate::types::AwsSignedRequest;
use aws_credential_types::provider::error::CredentialsError;
use aws_credential_types::provider::SharedCredentialsProvider;
use std::time::SystemTime;
use vstd::prelude::*;
use vstd::utf8::encode_utf8;

verus! {

/// The header with the date of a signature.
pub open spec fn date_entry(text: Seq<char>) -> Entry {
    ("x-amz-date"@, encode_utf8(text), false)
}

/// The header with the authorization of a signature.
pub open spec fn authorization_entry(text: Seq<char>) -> Entry {
    ("authorization"@, encode_utf8(text), false)
}

/// The header with the session token of a signature. The token is not to be shown.
pub open spec fn token_entry(token: Seq<char>) -> Entry {
    ("x-amz-security-token"@, encode_utf8(token), true)
}

/// The headers of a signature are set one after the other.
proof fn lemma_with_added(
    entries: Seq<Entry>,
    texts: (Seq<char>, Seq<char>),
    session_token: Option<Seq<char>>,
)
    ensures
        with_headers(entries, added_headers(texts, session_token)) == {
            let dated = with_header(entries, date_entry(texts.0));
            let authorized = with_header(dated, authorization_entry(texts.1));
            match session_token {
                Some(token) => with_header(authorized, token_entry(token)),
                None => authorized,
            }
        },
{
    let date = ("x-amz-date"@, texts.0, false);
    let authorization = ("authorization"@, texts.1, false);
    let always = seq![date, authorization];
    assert(always.drop_last() =~= seq![date]);
    assert(seq![date].drop_last() =~= Seq::<Added>::empty());
    reveal_with_fuel(with_headers, 4);
    if let Some(token) = session_token {
        assert(always.push(("x-amz-security-token"@, token, true)).drop_last() =~= always);
    }
}

/// The names of the headers of a signature differ.
proof fn lemma_added_names_differ()
    ensures
        "x-amz-date"@ != "authorization"@,
        "x-amz-date"@ != "x-amz-security-token"@,
        "authorization"@ != "x-amz-security-token"@,
{
    reveal_strlit("x-amz-date");
    reveal_strlit("authorization");
    reveal_strlit("x-amz-security-token");
    assert("x-amz-date"@.len() == 10);
    assert("authorization"@.len() == 13);
    assert("x-amz-security-token"@.len() == 20);
}

/// Signing preserves what the request has: its URL, and its headers of every name that is none
/// of the signature's.
pub proof fn law_signing_keeps_the_request(
    credentials: Credentials,
    region: Seq<char>,
    service: Seq<char>,
    request: AwsRequestToSign,
    time: SystemTime,
    signed: AwsSignedRequest,
    name: Seq<char>,
)
    requires
        is_signed(credentials, region, service, request, time, signed),
        name != "x-amz-date"@,
        name != "authorization"@,
        credentials.session_token is Some ==> name != "x-amz-security-token"@,
    ensures
        signed.url@ == request.url@,
        headers_named(header_entries(signed.headers), name) == headers_named(
            header_entries(request.headers),
            name,
        ),
{
    let entries = header_entries(request.headers);
    let texts = signing_texts(credentials, region, service, request, time);
    let token = text_of(credentials.session_token);
    lemma_with_added(entries, texts, token);
    let dated = with_header(entries, date_entry(texts.0));
    let authorized = with_header(dated, authorization_entry(texts.1));
    law_set_header(entries, date_entry(texts.0), name);
    law_set_header(dated, authorization_entry(texts.1), name);
    if let Some(text) = token {
        law_set_header(authorized, token_entry(text), name);
    }
}

/// Signing adds the headers of the signature: a signed request has exactly one date, exactly one
/// authorization, which names the algorithm and the access key, and exactly one session token, not
/// to be shown, if the credentials have one.
pub proof fn law_signing_adds_the_signature(
    credentials: Credentials,
    region: Seq<char>,
    service: Seq<char>,
    request: AwsRequestToSign,
    time: SystemTime,
    signed: AwsSignedRequest,
)
    requires
        is_signed(credentials, region, service, request, time, signed),
    ensures
        ({
            let entries = header_entries(signed.headers);
            let texts = signing_texts(credentials, region, service, request, time);
            &&& headers_named(entries, "x-amz-date"@) == seq![date_entry(texts.0)]
            &&& headers_named(entries, "authorization"@) == seq![authorization_entry(texts.1)]
            &&& names_key(texts.1, credentials.access_key_id@)
            &&& credentials.session_token matches Some(token) ==> headers_named(
                entries,
                "x-amz-security-token"@,
            ) == seq![token_entry(token@)]
        }),
{
    let entries = header_entries(request.headers);
    let texts = signing_texts(credentials, region, service, request, time);
    let token = text_of(credentials.session_token);
    lemma_with_added(entries, texts, token);
    lemma_added_names_differ();
    let dated = with_header(entries, date_entry(texts.0));
    let authorized = with_header(dated, authorization_entry(texts.1));
    law_set_header(entries, date_entry(texts.0), "authorization"@);
    law_set_header(dated, authorization_entry(texts.1), "x-amz-date"@);
    if let Some(text) = token {
        law_set_header(authorized, token_entry(text), "x-amz-date"@);
        law_set_header(authorized, token_entry(text), "authorization"@);
    }
}

/// The URL is a URI, the header values are visible ASCII, the header names are names, and the
/// credentials, the region and the service can stand in a header.
pub open spec fn is_signable(
    credentials: Credentials,
    region: Seq<char>,
    service: Seq<char>,
    request: AwsRequestToSign,
) -> bool {
    &&& uri_parts(request.url@) is Ok
    &&& all_visible(header_entries(request.headers))
    &&& all_named(text_pairs(header_entries(request.headers)))
    &&& is_token_text(text_of(credentials.session_token))
    &&& is_value_text(credentials.access_key_id@)
    &&& is_value_text(region)
    &&& is_value_text(service)
}

/// Only a request that is in order is signed, and it is signed unless it has so many names that
/// the table of its headers may have no room for those of the signature.
pub proof fn law_which_requests_are_signed(
    credentials: Credentials,
    region: Seq<char>,
    service: Seq<char>,
    request: AwsRequestToSign,
    time: SystemTime,
    outcome: Result<AwsSignedRequest, AwsAuthError>,
)
    requires
        is_sign_outcome(credentials, region, service, request, time, outcome),
    ensures
        outcome is Ok ==> is_signable(credentials, region, service, request),
        is_signable(credentials, region, service, request) && has_safe_names(
            header_entries(request.headers),
        ) ==> outcome is Ok,
        outcome matches Ok(signed) ==> is_signed(
            credentials,
            region,
            service,
            request,
            time,
            signed,
        ),
{
}

/// Signing the same request twice, with the same credentials and for the same time, gives the
/// same URL and the same headers.
pub proof fn law_signing_is_deterministic(
    credentials: Credentials,
    region: Seq<char>,
    service: Seq<char>,
    request: AwsRequestToSign,
    time: SystemTime,
    one: Result<AwsSignedRequest, AwsAuthError>,
    other: Result<AwsSignedRequest, AwsAuthError>,
)
    requires
        is_sign_outcome(credentials, region, service, request, time, one),
        is_sign_outcome(credentials, region, service, request, time, other),
    ensures
        has_safe_names(header_entries(request.headers)) ==> (one is Ok <==> other is Ok),
        one is Ok && other is Ok ==> one->Ok_0.url@ == other->Ok_0.url@ && header_entries(one->Ok_0.headers)
            == header_entries(other->Ok_0.headers),
{
}

/// Only a failure of the credentials provider can go away by itself: a retry helps with no other
/// error.
pub proof fn law_only_provider_failures_are_retryable(error: AwsAuthError)
    ensures
        error.is_transient() <==> (error matches AwsAuthError::Credentials(cause) && {
            ||| credentials_error_kind_of(cause) is ProviderTimedOut
            ||| credentials_error_kind_of(cause) is ProviderError
        }),
{
}

/// A request that cannot be signed is not worth a retry.
pub proof fn law_signing_errors_are_not_retryable(
    credentials: Credentials,
    region: Seq<char>,
    service: Seq<char>,
    request: AwsRequestToSign,
    time: SystemTime,
    error: AwsAuthError,
)
    requires
        is_sign_outcome(credentials, region, service, request, time, Err(error)),
    ensures
        !error.is_transient(),
{
}

/// Fresh credentials are used again as long as they are valid, without asking the provider.
pub proof fn law_cached_credentials_are_used_again(
    context: ContextView,
    fresh: Credentials,
    clock: SystemTime,
)
    requires
        fresh.valid_at(clock),
    ensures
        context.after_fetch(Ok(fresh)).usable_at(clock) == Some(fresh),
        context.after_fetch(Ok(fresh)).after_looking(clock) == context.after_fetch(Ok(fresh)),
{
}

/// Credentials that are not valid any more are never used: a context with a provider asks it.
pub proof fn law_stale_credentials_are_not_used(context: ContextView, clock: SystemTime)
    ensures
        context.usable_at(clock) matches Some(used) ==> used.valid_at(clock),
        context.source is Provider && (context.cached matches Some(cached) ==> !cached.valid_at(
            clock,
        )) ==> context.usable_at(clock) is None,
{
}

/// A provider that fails takes nothing from the cache.
pub proof fn law_failed_fetch_changes_nothing(context: ContextView, error: CredentialsError)
    ensures
        context.after_fetch(Err(error)) == context,
{
}

/// Whatever happens to its credentials, a context signs for one region and one service, and gets
/// its credentials from one source.
pub proof fn law_context_keeps_its_identity(
    context: ContextView,
    clock: SystemTime,
    fetched: Result<Credentials, CredentialsError>,
)
    ensures
        context.after_looking(clock).region == context.region,
        context.after_looking(clock).service == context.service,
        context.after_looking(clock).source == context.source,
        context.after_fetch(fetched).region == context.region,
        context.after_fetch(fetched).service == context.service,
        context.after_fetch(fetched).source == context.source,
{
}

/// A context that was loaded with static access keys and was never given other credentials signs
/// with those keys at any time, and asks no provider.
pub proof fn law_access_keys_need_no_provider(
    context: ContextView,
    keys: AwsAccessKeys,
    clock: SystemTime,
)
    requires
        context.source == CredentialsSource::AccessKeys(keys),
        context.cached matches Some(cached) ==> cached == Credentials::of_access_keys(keys),
    ensures
        context.usable_at(clock) == Some(Credentials::of_access_keys(keys)),
        context.after_looking(clock).cached == Some(Credentials::of_access_keys(keys)),
{
}

/// A request that had to wait for credentials is signed, once they are there, for the time that
/// it was to be signed for, and with the fresh credentials.
pub proof fn law_pending_request_is_signed_with_fresh_credentials(
    context: ContextView,
    request: AwsRequestToSign,
    time: SystemTime,
    clock: SystemTime,
    first: SignStep,
    fresh: Credentials,
    second: SignStep,
)
    requires
        context.is_sign_step(request, time, clock, first),
        first matches SignStep::FetchCredentials(pending) ==> context.after_looking(
            clock,
        ).is_signed_with(fresh, pending.request, pending.time, second),
    ensures
        first is FetchCredentials <==> context.usable_at(clock) is None,
        first is FetchCredentials ==> context.is_signed_with(fresh, request, time, second),
{
}

/// What happens to the credentials of a context that several callers share.
pub enum CredentialsEvent {
    /// A caller looks for credentials at this time.
    Look(SystemTime),
    /// The provider answers a caller that asked it.
    Answer(Result<Credentials, CredentialsError>),
}

/// How often the provider is asked while `events` happen, in whatever way the callers take turns:
/// once for each look that finds no credentials to use.
pub open spec fn asks(context: ContextView, events: Seq<CredentialsEvent>) -> nat
    decreases events.len(),
{
    if events.len() == 0 {
        0
    } else {
        let rest = events.drop_first();
        match events.first() {
            CredentialsEvent::Look(clock) => {
                let asked: nat = if context.usable_at(clock) is None {
                    1
                } else {
                    0
                };
                asked + asks(context.after_looking(clock), rest)
            },
            CredentialsEvent::Answer(fetched) => asks(context.after_fetch(fetched), rest),
        }
    }
}

/// What a context holds after `events` happened.
pub open spec fn after_events(context: ContextView, events: Seq<CredentialsEvent>) -> ContextView
    decreases events.len(),
{
    if events.len() == 0 {
        context
    } else {
        let before = after_events(context, events.drop_last());
        match events.last() {
            CredentialsEvent::Look(clock) => before.after_looking(clock),
            CredentialsEvent::Answer(fetched) => before.after_fetch(fetched),
        }
    }
}

/// Whatever happened since it was loaded, a context signs for the region that the SDK
/// configuration resolved, and for the configured service without the white space around it. If
/// the SDK configuration resolved the configured region, that is the region, character for
/// character.
pub proof fn law_loaded_region_and_service_stay(
    config: AwsAuthConfig,
    provider: Option<SharedCredentialsProvider>,
    region: Option<Seq<char>>,
    instead: Option<CredentialsSource>,
    context: AwsAuthContext,
    events: Seq<CredentialsEvent>,
)
    requires
        is_load_outcome(config, provider, region, instead, Ok(context)),
    ensures
        region == Some(after_events(context@, events).region),
        after_events(context@, events).service == trimmed(config.service@),
        region == text_of(config.region) ==> text_of(config.region) == Some(
            after_events(context@, events).region,
        ),
    decreases events.len(),
{
    if events.len() > 0 {
        law_loaded_region_and_service_stay(
            config,
            provider,
            region,
            instead,
            context,
            events.drop_last(),
        );
    }
}

/// The credentials are valid whenever a caller looks for some.
pub open spec fn valid_at_looks(credentials: Credentials, events: Seq<CredentialsEvent>) -> bool {
    forall|i: int|
        0 <= i < events.len() ==> ((#[trigger] events[i]) matches CredentialsEvent::Look(clock)
            ==> credentials.valid_at(clock))
}

/// All that the provider answers with is valid whenever a caller looks for credentials.
pub open spec fn answers_stay_valid(events: Seq<CredentialsEvent>) -> bool {
    forall|i: int|
        0 <= i < events.len() ==> ((#[trigger] events[i]) matches CredentialsEvent::Answer(Ok(fresh))
            ==> valid_at_looks(fresh, events))
}

/// What holds of all events holds of all but the first.
proof fn lemma_validity_of_rest(events: Seq<CredentialsEvent>)
    requires
        events.len() > 0,
        answers_stay_valid(events),
    ensures
        answers_stay_valid(events.drop_first()),
        forall|credentials: Credentials| #[trigger]
            valid_at_looks(credentials, events) ==> valid_at_looks(
                credentials,
                events.drop_first(),
            ),
{
    let rest = events.drop_first();
    assert forall|credentials: Credentials|
        #[trigger] valid_at_looks(credentials, events) implies valid_at_looks(
        credentials,
        rest,
    ) by {
        assert forall|i: int| 0 <= i < rest.len() implies ((
        #[trigger] rest[i]) matches CredentialsEvent::Look(clock) ==> credentials.valid_at(
            clock,
        )) by {
            assert(rest[i] == events[i + 1]);
        }
    }
    assert forall|i: int| 0 <= i < rest.len() implies ((
    #[trigger] rest[i]) matches CredentialsEvent::Answer(Ok(fresh)) ==> valid_at_looks(
        fresh,
        rest,
    )) by {
        assert(rest[i] == events[i + 1]);
    }
}

/// All callers share what one of them got: once credentials are cached, and as long as they and
/// all that the provider still answers with stay valid, no caller asks the provider again, in
/// whatever way the callers take turns.
pub proof fn law_callers_share_credentials(
    context: ContextView,
    cached: Credentials,
    events: Seq<CredentialsEvent>,
)
    requires
        context.cached == Some(cached),
        valid_at_looks(cached, events),
        answers_stay_valid(events),
    ensures
        asks(context, events) == 0,
    decreases events.len(),
{
    if events.len() > 0 {
        let rest = events.drop_first();
        lemma_validity_of_rest(events);
        match events[0] {
            CredentialsEvent::Look(clock) => {
                law_callers_share_credentials(context.after_looking(clock), cached, rest);
            },
            CredentialsEvent::Answer(Ok(fresh)) => {
                law_callers_share_credentials(context.after_fetch(Ok(fresh)), fresh, rest);
            },
            CredentialsEvent::Answer(Err(error)) => {
                law_callers_share_credentials(context.after_fetch(Err(error)), cached, rest);
            },
        }
    }
}

/// How many callers look for credentials before the provider first gives some.
pub open spec fn looks_before_answer(events: Seq<CredentialsEvent>) -> nat
    decreases events.len(),
{
    if events.len() == 0 {
        0
    } else {
        match events.first() {
            CredentialsEvent::Look(_) => 1 + looks_before_answer(events.drop_first()),
            CredentialsEvent::Answer(Ok(_)) => 0,
            CredentialsEvent::Answer(Err(_)) => looks_before_answer(events.drop_first()),
        }
    }
}

/// Callers that overlap ask the provider only until it first gives credentials: with nothing
/// cached before, and as long as what the provider gives stays valid, it is asked once for each
/// caller that looked before its first answer, and for no other.
pub proof fn law_overlapping_callers_ask_until_answered(
    context: ContextView,
    events: Seq<CredentialsEvent>,
)
    requires
        context.cached is None,
        context.source is Provider,
        answers_stay_valid(events),
    ensures
        asks(context, events) == looks_before_answer(events),
    decreases events.len(),
{
    if events.len() > 0 {
        let rest = events.drop_first();
        lemma_validity_of_rest(events);
        match events[0] {
            CredentialsEvent::Look(clock) => {
                law_overlapping_callers_ask_until_answered(context.after_looking(clock), rest);
            },
            CredentialsEvent::Answer(Ok(fresh)) => {
                assert(valid_at_looks(fresh, events));
                law_callers_share_credentials(context.after_fetch(Ok(fresh)), fresh, rest);
            },
            CredentialsEvent::Answer(Err(error)) => {
                law_overlapping_callers_ask_until_answered(context.after_fetch(Err(error)), rest);
            },
        }
    }
}

/// How often the provider is asked when requests are signed one after the other. `calls` gives
/// for each request what time it is, and the credentials that the provider would give then.
pub open spec fn fetches(context: ContextView, calls: Seq<(SystemTime, Credentials)>) -> nat
    decreases calls.len(),
{
    if calls.len() == 0 {
        0
    } else {
        let (clock, fresh) = calls.first();
        let looked = context.after_looking(clock);
        match context.usable_at(clock) {
            Some(_) => fetches(looked, calls.drop_first()),
            None => 1 + fetches(looked.after_fetch(Ok(fresh)), calls.drop_first()),
        }
    }
}

/// Cached credentials that stay valid keep the provider from being asked.
proof fn lemma_valid_cache_needs_no_fetch(
    context: ContextView,
    cached: Credentials,
    calls: Seq<(SystemTime, Credentials)>,
)
    requires
        context.cached == Some(cached),
        forall|i: int| 0 <= i < calls.len() ==> cached.valid_at((#[trigger] calls[i]).0),
    ensures
        fetches(context, calls) == 0,
    decreases calls.len(),
{
    if calls.len() > 0 {
        let rest = calls.drop_first();
        assert(cached.valid_at(calls[0].0));
        assert forall|i: int| 0 <= i < rest.len() implies cached.valid_at(
            (#[trigger] rest[i]).0,
        ) by {
            assert(rest[i] == calls[i + 1]);
        }
        lemma_valid_cache_needs_no_fetch(context.after_looking(calls[0].0), cached, rest);
    }
}

/// As long as the credentials that a provider gives stay valid, the provider is asked at most
/// once for all the requests of a context, and exactly once if nothing was cached before the
/// first one.
pub proof fn law_provider_is_asked_once(
    context: ContextView,
    calls: Seq<(SystemTime, Credentials)>,
)
    requires
        forall|i: int, j: int|
            0 <= i < calls.len() && 0 <= j < calls.len() ==> (#[trigger] calls[i]).1.valid_at(
                (#[trigger] calls[j]).0,
            ),
    ensures
        fetches(context, calls) <= 1,
        context.cached is None && context.source is Provider && calls.len() > 0 ==> fetches(
            context,
            calls,
        ) == 1,
    decreases calls.len(),
{
    if calls.len() > 0 {
        let (clock, fresh) = calls[0];
        let rest = calls.drop_first();
        let looked = context.after_looking(clock);
        assert forall|i: int, j: int| 0 <= i < rest.len() && 0 <= j < rest.len() implies (
        #[trigger] rest[i]).1.valid_at((#[trigger] rest[j]).0) by {
            assert(rest[i] == calls[i + 1]);
            assert(rest[j] == calls[j + 1]);
        }
        match context.usable_at(clock) {
            Some(_) => {
                law_provider_is_asked_once(looked, rest);
            },
            None => {
                assert forall|j: int| 0 <= j < rest.len() implies fresh.valid_at(
                    (#[trigger] rest[j]).0,
                ) by {
                    assert(rest[j] == calls[j + 1]);
                    assert(calls[0].1.valid_at(calls[j + 1].0));
                }
                lemma_valid_cache_needs_no_fetch(looked.after_fetch(Ok(fresh)), fresh, rest);
            },
        }
    }
}

} // verus!
