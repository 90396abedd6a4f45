//! What callers can rely on, said of the calls themselves.
//!
//! Each law takes the arguments of a call and what came back of it, and says how they relate. It
//! speaks of the fields of values and of what the trusted calls give, and of little else.
use crate::clock::nanos_since_epoch;
use crate::clock::read_clock;
use crate::clock::unix_nanos;
use crate::config::credentials_provider;
use crate::config::law_blank_services_are_white_space;
use crate::config::load_sdk_config;
use crate::config::require_provider;
use crate::config::require_region;
use crate::config::resolved_region;
use crate::config::sdk_provider;
use crate::config::sdk_region;
use crate::config::SdkConfigCache;
use crate::config::SdkConfigRequest;
use crate::config::SdkConfigStep;
use crate::context::AwsAuthContext;
use crate::context::ContextView;
use crate::context::CredentialsSource;
use crate::context::CredentialsStep;
use crate::context::PendingSign;
use crate::context::ProfileRequest;
use crate::context::SignStep;
use crate::credentials::credentials_still_valid;
use crate::credentials::Credentials;
use crate::error::credentials_error_kind_of;
use crate::error::AwsAuthError;
use crate::error::CredentialsErrorKind;
use crate::laws::law_signing_adds_the_signature;
use crate::laws::law_signing_keeps_the_request;
use crate::message::buffer_bytes;
use crate::message::header_entries;
use crate::message::headers_named;
use crate::message::is_lower_name;
use crate::message::is_name;
use crate::message::is_visible;
use crate::message::is_visible_byte;
use crate::message::law_set_header;
use crate::message::method_text;
use crate::message::name_count;
use crate::message::names_of;
use crate::message::uri_parts;
use crate::message::Entry;
use crate::message::TextHeader;
use crate::query::law_queries_grow_at_most_elevenfold;
use crate::query::query_len;
use crate::signing::added_of;
use crate::signing::all_lower_named;
use crate::signing::all_named;
use crate::signing::all_visible;
use crate::signing::apply_signing_headers;
use crate::signing::can_be_signed;
use crate::signing::has_pair;
use crate::signing::is_signed;
use crate::signing::pairs_of;
use crate::signing::sign_request;
use crate::signing::sigv4_texts;
use crate::signing::stage_error;
use crate::signing::text_headers;
use crate::signing::text_pairs;
use crate::signing::with_headers;
use crate::signing::Added;
use crate::signing::SigningHeader;
use crate::signing::SigningStageError;
use crate::text::is_white_space;
use crate::text::quoted;
use crate::text::trimmed;
use crate::types::AwsAccessKeys;
use crate::types::AwsAuthConfig;
use crate::types::AwsRequestToSign;
use crate::types::AwsSignedRequest;
use aws_config::profile::ProfileFileLoadError;
use aws_credential_types::provider::error::CredentialsError;
use aws_credential_types::provider::SharedCredentialsProvider;
use aws_sigv4::http_request::SigningError;
use aws_types::SdkConfig;
use http::header::ToStrError;
use http::uri::InvalidUri;
use http::HeaderMap;
use std::sync::Arc;
use std::time::SystemTime;
use vstd::prelude::*;
use vstd::std_specs::convert::FromSpec;
use vstd::string::to_string_from_display_ensures;
use vstd::utf8::encode_utf8;

verus! {

/// A blank service is refused, whatever is cached. For any other service, the configuration that
/// is cached for the profile and the region is used, and if none is, the order to load has the
/// configured profile and the configured region, both or either of which may be missing.
pub proof fn law_sdk_configs_are_found_by_profile_and_region(
    cache: SdkConfigCache,
    config: AwsAuthConfig,
    step: Result<SdkConfigStep<'_>, AwsAuthError>,
)
    requires
        call_ensures(load_sdk_config, (&cache, &config), step),
    ensures
        step is Err <==> (forall|i: int|
            0 <= i < config.service@.len() ==> is_white_space(#[trigger] config.service@[i])),
        step matches Err(error) ==> error is EmptyService,
        ({
            let profile: Option<Seq<char>> = match config.profile {
                Some(text) => Some(text@),
                None => None,
            };
            let region: Option<Seq<char>> = match config.region {
                Some(text) => Some(text@),
                None => None,
            };
            &&& step matches Ok(SdkConfigStep::Cached(found)) ==> cache@.contains_key(
                (profile, region),
            ) && cache@[(profile, region)] == *found
            &&& step matches Ok(SdkConfigStep::Load(_)) ==> !cache@.contains_key((profile, region))
        }),
        step matches Ok(SdkConfigStep::Load(request)) ==> request.profile == config.profile
            && request.region == config.region,
{
    law_blank_services_are_white_space(config);
}

/// What is stored for a profile and a region is found by them, in place of what was there before,
/// and what is stored for any other profile or region is found as before.
pub proof fn law_stored_config_is_found_by_profile_and_region(
    cache: &mut SdkConfigCache,
    request: SdkConfigRequest,
    sdk_config: Arc<SdkConfig>,
    profile: Option<String>,
    region: Option<String>,
    before: Option<&Arc<SdkConfig>>,
    after: Option<&Arc<SdkConfig>>,
)
    requires
        call_ensures(SdkConfigCache::store, (cache, request, sdk_config), ()),
        call_ensures(SdkConfigCache::get, (&*old(cache), &profile, &region), before),
        call_ensures(SdkConfigCache::get, (&*final(cache), &profile, &region), after),
    ensures
        ({
            &&& request.profile is Some <==> profile is Some
            &&& request.profile is Some ==> request.profile->0@ == profile->0@
            &&& request.region is Some <==> region is Some
            &&& request.region is Some ==> request.region->0@ == region->0@
        }) ==> after == Some(&sdk_config),
        !({
            &&& request.profile is Some <==> profile is Some
            &&& request.profile is Some ==> request.profile->0@ == profile->0@
            &&& request.region is Some <==> region is Some
            &&& request.region is Some ==> request.region->0@ == region->0@
        }) ==> after == before,
{
}

/// A new cache finds nothing.
pub proof fn law_new_cache_finds_nothing(
    cache: SdkConfigCache,
    profile: Option<String>,
    region: Option<String>,
    found: Option<&Arc<SdkConfig>>,
)
    requires
        call_ensures(SdkConfigCache::new, (), cache),
        call_ensures(SdkConfigCache::get, (&cache, &profile, &region), found),
    ensures
        found is None,
{
}

/// The provider and the region of an SDK configuration are handed out as they are, and their
/// absence is an error.
pub proof fn law_resolved_parts_are_handed_out(
    sdk_config: SdkConfig,
    provider: Result<SharedCredentialsProvider, AwsAuthError>,
    region: Result<String, AwsAuthError>,
)
    requires
        call_ensures(credentials_provider, (&sdk_config,), provider),
        call_ensures(resolved_region, (&sdk_config,), region),
    ensures
        sdk_provider(sdk_config) matches Some(found) ==> provider == Ok::<_, AwsAuthError>(found),
        sdk_provider(sdk_config) is None ==> (provider matches Err(error)
            && error is MissingCredentialsProvider),
        sdk_region(sdk_config) matches Some(name) ==> (region matches Ok(found) && found@ == name),
        sdk_region(sdk_config) is None ==> (region matches Err(error) && error is MissingRegion),
{
}

/// What is there is handed on, and what is missing is an error.
pub proof fn law_required_parts_are_handed_on(
    provider: Option<SharedCredentialsProvider>,
    region: Option<String>,
    provided: Result<SharedCredentialsProvider, AwsAuthError>,
    resolved: Result<String, AwsAuthError>,
)
    requires
        call_ensures(require_provider, (provider,), provided),
        call_ensures(require_region, (region,), resolved),
    ensures
        provider matches Some(found) ==> provided == Ok::<_, AwsAuthError>(found),
        provider is None ==> (provided matches Err(error) && error is MissingCredentialsProvider),
        region matches Some(found) ==> resolved == Ok::<_, AwsAuthError>(found),
        region is None ==> (resolved matches Err(error) && error is MissingRegion),
{
}

/// A loaded context asks the provider of the SDK configuration, starts with nothing cached, and
/// signs for the region of the SDK configuration and for the trimmed service. Loading fails for a
/// blank service, then for want of a provider, then for want of a region, and for no other
/// reason.
pub proof fn law_loaded_contexts_use_the_resolved_provider(
    config: AwsAuthConfig,
    sdk_config: SdkConfig,
    outcome: Result<AwsAuthContext, AwsAuthError>,
)
    requires
        call_ensures(AwsAuthContext::load, (config, &sdk_config), outcome),
    ensures
        outcome matches Ok(context) ==> {
            &&& context@.source == CredentialsSource::Provider(sdk_provider(sdk_config)->0)
            &&& context@.cached is None
            &&& sdk_region(sdk_config) == Some(context@.region)
            &&& context@.service == trimmed(config.service@)
        },
        outcome matches Err(error) ==> error is EmptyService || error is MissingCredentialsProvider
            || error is MissingRegion,
        (outcome matches Err(error) && error is EmptyService) <==> (forall|i: int|
            0 <= i < config.service@.len() ==> is_white_space(#[trigger] config.service@[i])),
        outcome is Ok <==> !(forall|i: int|
            0 <= i < config.service@.len() ==> is_white_space(#[trigger] config.service@[i])) && sdk_provider(sdk_config) is Some && sdk_region(sdk_config) is Some,
        (outcome matches Err(error) && error is MissingCredentialsProvider) <==> !(forall|i: int|
            0 <= i < config.service@.len() ==> is_white_space(#[trigger] config.service@[i]))
            && sdk_provider(sdk_config) is None,
{
    law_blank_services_are_white_space(config);
}

/// A context that is loaded with access keys uses exactly those keys, whatever they are, and not
/// the provider of the SDK configuration. In all else it is loaded as without them.
pub proof fn law_loaded_contexts_use_the_given_keys(
    config: AwsAuthConfig,
    keys: AwsAccessKeys,
    sdk_config: SdkConfig,
    outcome: Result<AwsAuthContext, AwsAuthError>,
)
    requires
        call_ensures(
            AwsAuthContext::load_with_access_keys,
            (config, keys, &sdk_config),
            outcome,
        ),
    ensures
        outcome matches Ok(context) ==> {
            &&& context@.source == CredentialsSource::AccessKeys(keys)
            &&& context@.cached is None
            &&& sdk_region(sdk_config) == Some(context@.region)
            &&& context@.service == trimmed(config.service@)
        },
        outcome matches Err(error) ==> error is EmptyService || error is MissingCredentialsProvider
            || error is MissingRegion,
        (outcome matches Err(error) && error is EmptyService) <==> (forall|i: int|
            0 <= i < config.service@.len() ==> is_white_space(#[trigger] config.service@[i])),
        outcome is Ok <==> !(forall|i: int|
            0 <= i < config.service@.len() ==> is_white_space(#[trigger] config.service@[i])) && sdk_provider(sdk_config) is Some && sdk_region(sdk_config) is Some,
        (outcome matches Err(error) && error is MissingCredentialsProvider) <==> !(forall|i: int|
            0 <= i < config.service@.len() ==> is_white_space(#[trigger] config.service@[i]))
            && sdk_provider(sdk_config) is None,
{
    law_blank_services_are_white_space(config);
}

/// A context that is loaded for a profile asks exactly the provider of that profile, and not the
/// provider of the SDK configuration. In all else it is loaded as any other.
pub proof fn law_loaded_contexts_use_the_profile_provider(
    config: AwsAuthConfig,
    profile_provider: SharedCredentialsProvider,
    sdk_config: SdkConfig,
    outcome: Result<AwsAuthContext, AwsAuthError>,
)
    requires
        call_ensures(
            AwsAuthContext::load_profile,
            (config, profile_provider, &sdk_config),
            outcome,
        ),
        config.profile is Some,
    ensures
        outcome matches Ok(context) ==> {
            &&& context@.source == CredentialsSource::Provider(profile_provider)
            &&& context@.cached is None
            &&& sdk_region(sdk_config) == Some(context@.region)
            &&& context@.service == trimmed(config.service@)
        },
        outcome matches Err(error) ==> error is EmptyService || error is MissingCredentialsProvider
            || error is MissingRegion,
        (outcome matches Err(error) && error is EmptyService) <==> (forall|i: int|
            0 <= i < config.service@.len() ==> is_white_space(#[trigger] config.service@[i])),
        outcome is Ok <==> !(forall|i: int|
            0 <= i < config.service@.len() ==> is_white_space(#[trigger] config.service@[i])) && sdk_provider(sdk_config) is Some && sdk_region(sdk_config) is Some,
        (outcome matches Err(error) && error is MissingCredentialsProvider) <==> !(forall|i: int|
            0 <= i < config.service@.len() ==> is_white_space(#[trigger] config.service@[i]))
            && sdk_provider(sdk_config) is None,
{
    law_blank_services_are_white_space(config);
}

/// A context that is made of a provider and a region has both.
pub proof fn law_contexts_are_made_of_what_was_resolved(
    config: AwsAuthConfig,
    provider: Option<SharedCredentialsProvider>,
    region: Option<String>,
    outcome: Result<AwsAuthContext, AwsAuthError>,
)
    requires
        call_ensures(AwsAuthContext::from_resolved, (config, provider, region), outcome),
    ensures
        outcome matches Ok(context) ==> {
            &&& context@.source == CredentialsSource::Provider(provider->0)
            &&& context@.cached is None
            &&& region is Some && context@.region == region->0@
            &&& context@.service == trimmed(config.service@)
        },
        outcome matches Err(error) ==> error is EmptyService || error is MissingCredentialsProvider
            || error is MissingRegion,
        (outcome matches Err(error) && error is EmptyService) <==> (forall|i: int|
            0 <= i < config.service@.len() ==> is_white_space(#[trigger] config.service@[i])),
        outcome is Ok <==> !(forall|i: int|
            0 <= i < config.service@.len() ==> is_white_space(#[trigger] config.service@[i])) && provider is Some && region is Some,
        (outcome matches Err(error) && error is MissingCredentialsProvider) <==> !(forall|i: int|
            0 <= i < config.service@.len() ==> is_white_space(#[trigger] config.service@[i]))
            && provider is None,
{
    law_blank_services_are_white_space(config);
}

/// Without a profile, none is loaded, and this comes before everything else.
pub proof fn law_profiles_must_be_configured(
    config: AwsAuthConfig,
    profile_provider: SharedCredentialsProvider,
    sdk_config: SdkConfig,
    request: Result<ProfileRequest, AwsAuthError>,
    outcome: Result<AwsAuthContext, AwsAuthError>,
)
    requires
        call_ensures(AwsAuthContext::profile_request, (&config,), request),
        call_ensures(
            AwsAuthContext::load_profile,
            (config, profile_provider, &sdk_config),
            outcome,
        ),
    ensures
        config.profile is None ==> (request matches Err(error) && error is MissingProfile),
        config.profile is None ==> (outcome matches Err(error) && error is MissingProfile),
        config.profile matches Some(profile) ==> (request matches Ok(asked) && asked.profile
            == profile && asked.region == config.region),
        outcome matches Err(error) ==> (error is MissingProfile <==> config.profile is None),
{
}

/// A context that was loaded with access keys signs with those keys, and its first look for
/// credentials finds them at any time, without a provider.
pub proof fn law_given_keys_are_found_at_once(
    config: AwsAuthConfig,
    keys: AwsAccessKeys,
    sdk_config: SdkConfig,
    loaded: AwsAuthContext,
    context: &mut AwsAuthContext,
    time: SystemTime,
    step: CredentialsStep,
)
    requires
        call_ensures(
            AwsAuthContext::load_with_access_keys,
            (config, keys, &sdk_config),
            Ok(loaded),
        ),
        *old(context) == loaded,
        call_ensures(AwsAuthContext::credentials_at, (context, time), step),
    ensures
        step matches CredentialsStep::Ready(found) && {
            &&& found.access_key_id == keys.access_key_id
            &&& found.secret_access_key == keys.secret_access_key
            &&& found.session_token == keys.session_token
            &&& found.expires_after is None
            &&& found.provider_name == "codex-managed-bedrock-access-keys"
        },
        loaded@.usable_at(time) matches Some(usable) && usable.access_key_id == keys.access_key_id
            && usable.secret_access_key == keys.secret_access_key && usable.session_token
            == keys.session_token,
{
}

/// A look for credentials gives the cached ones if they do not expire or have more than five
/// minutes left. If not, it gives the static access keys, and caches them, and without such keys
/// the provider has to be asked. Nothing else of the context changes.
pub proof fn law_look_for_credentials(
    context: &mut AwsAuthContext,
    time: SystemTime,
    step: CredentialsStep,
)
    requires
        call_ensures(AwsAuthContext::credentials_at, (context, time), step),
    ensures
        final(context)@.source == old(context)@.source,
        final(context)@.region == old(context)@.region,
        final(context)@.service == old(context)@.service,
        old(context)@.cached matches Some(cached) ==> (((cached.expires_after matches Some(expiry) ==> unix_nanos(expiry) - unix_nanos(time) > 300_000_000_000)) ==> step
            == CredentialsStep::Ready(cached) && final(context)@.cached == Some(cached)),
        !(old(context)@.cached matches Some(cached) && (cached.expires_after matches Some(expiry) ==> unix_nanos(expiry) - unix_nanos(time) > 300_000_000_000)) ==> match old(context)@.source {
            CredentialsSource::Provider(_) => step is Fetch && final(context)@.cached == old(context)@.cached,
            CredentialsSource::AccessKeys(keys) => {
                &&& step matches CredentialsStep::Ready(found) && {
                    &&& found.access_key_id == keys.access_key_id
                    &&& found.secret_access_key == keys.secret_access_key
                    &&& found.session_token == keys.session_token
                    &&& found.expires_after is None
                    &&& final(context)@.cached == Some(found)
                }
            },
        },
{
}

/// What a context can use at a time: its cached credentials if they do not expire or have more
/// than five minutes left, and if not, its access keys, if it has some.
pub proof fn law_usable_credentials(context: ContextView, time: SystemTime)
    ensures
        context.cached matches Some(cached) ==> (((cached.expires_after matches Some(expiry) ==> unix_nanos(expiry) - unix_nanos(time) > 300_000_000_000)) ==> context.usable_at(
            time,
        ) == Some(cached)),
        !(context.cached matches Some(cached) && (cached.expires_after matches Some(expiry) ==> unix_nanos(expiry) - unix_nanos(time) > 300_000_000_000)) ==> match context.source {
            CredentialsSource::Provider(_) => context.usable_at(time) is None,
            CredentialsSource::AccessKeys(keys) => context.usable_at(time) == Some(
                (Credentials {
                    access_key_id: keys.access_key_id,
                    secret_access_key: keys.secret_access_key,
                    session_token: keys.session_token,
                    expires_after: None,
                    provider_name: "codex-managed-bedrock-access-keys",
                }),
            ),
        },
{
}

/// Looking at the clock decides in the same way: credentials that do not expire are used again,
/// and an empty cache has the provider asked.
pub proof fn law_look_by_the_clock(context: &mut AwsAuthContext, step: CredentialsStep)
    requires
        call_ensures(AwsAuthContext::get_or_refresh_credentials, (context,), step),
    ensures
        final(context)@.source == old(context)@.source,
        final(context)@.region == old(context)@.region,
        final(context)@.service == old(context)@.service,
        old(context)@.cached matches Some(cached) ==> (cached.expires_after is None ==> step
            == CredentialsStep::Ready(cached) && final(context)@.cached == Some(cached)),
        old(context)@.cached is None && old(context)@.source is Provider ==> step is Fetch,
        step is Fetch ==> old(context)@.source is Provider && final(context)@.cached == old(context)@.cached,
        step matches CredentialsStep::Ready(found) ==> final(context)@.cached == Some(found),
        old(context)@.source is Provider ==> (step matches CredentialsStep::Ready(found) ==> old(context)@.cached == Some(found)),
        old(context)@.cached matches Some(cached) ==> (old(context)@.source is Provider ==> (
        step is Ready <==> step == CredentialsStep::Ready(cached))),
        old(context)@.source is Provider ==> (old(context)@.cached matches Some(cached) ==> (
        cached.expires_after matches Some(expiry) ==> exists|clock: SystemTime| #[trigger]
            call_ensures(read_clock, (), clock) && (step is Ready <==> unix_nanos(expiry) - unix_nanos(clock)
                > 300_000_000_000))),
{
    let before = old(context)@;
    let clock = choose|clock: SystemTime|
        #![trigger before.after_looking(clock)]
        call_ensures(read_clock, (), clock) && before.is_credentials_step(clock, step) && final(context)@
            == before.after_looking(clock);
    assert(call_ensures(read_clock, (), clock));
}

/// Credentials may be used as long as they have more than five minutes left, or if they do not
/// expire, whatever else they hold.
pub proof fn law_credentials_are_used_until_shortly_before_expiry(
    credentials: Credentials,
    time: SystemTime,
    valid: bool,
)
    requires
        call_ensures(Credentials::is_valid_at, (&credentials, time), valid),
    ensures
        valid <==> (credentials.expires_after matches Some(expiry) ==> unix_nanos(expiry) - unix_nanos(time) > 300_000_000_000),
{
}

/// By the clock, too, credentials may be used as long as they have more than five minutes left.
pub proof fn law_credentials_are_judged_by_a_reading(credentials: Credentials, valid: bool)
    requires
        call_ensures(credentials_still_valid, (&credentials,), valid),
    ensures
        credentials.expires_after is None ==> valid,
        credentials.expires_after matches Some(expiry) ==> exists|clock: SystemTime| #[trigger]
            call_ensures(read_clock, (), clock) && (valid <==> unix_nanos(expiry) - unix_nanos(clock)
                > 300_000_000_000),
{
    let clock = choose|clock: SystemTime|
        call_ensures(read_clock, (), clock) && valid == #[trigger] credentials.valid_at(clock);
    assert(call_ensures(read_clock, (), clock));
}

/// Access keys become credentials with the same keys and without an expiry.
pub proof fn law_keys_become_credentials(keys: AwsAccessKeys, credentials: Credentials)
    requires
        call_ensures(Credentials::from_access_keys, (keys,), credentials),
    ensures
        credentials.access_key_id == keys.access_key_id,
        credentials.secret_access_key == keys.secret_access_key,
        credentials.session_token == keys.session_token,
        credentials.expires_after is None,
        credentials.provider_name == "codex-managed-bedrock-access-keys",
{
}

/// Fresh credentials are cached as they are, and handed on. A failure is handed on as it is, and
/// changes nothing.
pub proof fn law_answers_are_cached(
    context: &mut AwsAuthContext,
    fetched: Result<Credentials, CredentialsError>,
    outcome: Result<Credentials, AwsAuthError>,
)
    requires
        call_ensures(AwsAuthContext::refresh, (context, fetched), outcome),
    ensures
        final(context)@.source == old(context)@.source,
        final(context)@.region == old(context)@.region,
        final(context)@.service == old(context)@.service,
        fetched matches Ok(fresh) ==> outcome == Ok::<_, AwsAuthError>(fresh) && final(context)@.cached == Some(fresh),
        fetched matches Err(error) ==> outcome == Err::<Credentials, _>(
            AwsAuthError::Credentials(error),
        ) && final(context)@.cached == old(context)@.cached,
{
}

/// The headers of a name are those that a filter for the name lets through.
proof fn lemma_named_is_filter(
    entries: Seq<Entry>,
    name: Seq<char>,
    named: spec_fn(Entry) -> bool,
)
    requires
        forall|entry: Entry| #[trigger] named(entry) <==> entry.0 == name,
    ensures
        headers_named(entries, name) == entries.filter(named),
    decreases entries.len(),
{
    reveal(Seq::filter);
    if entries.len() > 0 {
        lemma_named_is_filter(entries.drop_last(), name, named);
    }
}

/// Texts that agree with the headers in every character are the texts of the headers.
proof fn lemma_texts_of_headers(entries: Seq<Entry>, pairs: Seq<(Seq<char>, Seq<char>)>)
    requires
        pairs.len() == entries.len(),
        forall|i: int|
            0 <= i < pairs.len() ==> (#[trigger] pairs[i]).0 == entries[i].0 && pairs[i].1.len()
                == entries[i].1.len(),
        forall|i: int, k: int|
            0 <= i < pairs.len() && 0 <= k < pairs[i].1.len() ==> (#[trigger] pairs[i].1[k])
                == entries[i].1[k] as char,
    ensures
        text_pairs(entries) == pairs,
{
    assert forall|i: int| 0 <= i < pairs.len() implies text_pairs(entries)[i] == (
    #[trigger] pairs[i]) by {
        let text = text_pairs(entries)[i].1;
        assert forall|k: int| 0 <= k < text.len() implies text[k] == (#[trigger] pairs[i].1[k]) by {
            assert(pairs[i].1[k] == entries[i].1[k] as char);
        }
        assert(text =~= pairs[i].1);
    }
    assert(text_pairs(entries) =~= pairs);
}

/// What a signed request has for each name.
proof fn lemma_signature(
    credentials: Credentials,
    region: Seq<char>,
    service: Seq<char>,
    request: AwsRequestToSign,
    time: SystemTime,
    signed: AwsSignedRequest,
    pairs: Seq<(Seq<char>, Seq<char>)>,
    name: Seq<char>,
    named: spec_fn(Entry) -> bool,
)
    requires
        is_signed(credentials, region, service, request, time, signed),
        pairs.len() == header_entries(request.headers).len(),
        forall|i: int|
            0 <= i < pairs.len() ==> (#[trigger] pairs[i]).0 == header_entries(request.headers)[i].0
                && pairs[i].1.len() == header_entries(request.headers)[i].1.len(),
        forall|i: int, k: int|
            0 <= i < pairs.len() && 0 <= k < pairs[i].1.len() ==> (#[trigger] pairs[i].1[k])
                == header_entries(request.headers)[i].1[k] as char,
        forall|entry: Entry| #[trigger] named(entry) <==> entry.0 == name,
    ensures
        ({
            let texts = sigv4_texts(
                credentials.access_key_id@,
                credentials.secret_access_key@,
                match credentials.session_token {
                    Some(token) => Some(token@),
                    None => None,
                },
                region,
                service,
                unix_nanos(time),
                method_text(request.method),
                request.url@,
                pairs,
                buffer_bytes(request.body),
            );
            &&& signed.url@ == request.url@
            &&& header_entries(signed.headers).filter(named) == (if name == "x-amz-date"@ {
                seq![(name, encode_utf8(texts.0), false)]
            } else if name == "authorization"@ {
                seq![(name, encode_utf8(texts.1), false)]
            } else if name == "x-amz-security-token"@ && credentials.session_token is Some {
                seq![(name, encode_utf8(credentials.session_token->0@), true)]
            } else {
                header_entries(request.headers).filter(named)
            })
            &&& ("AWS4-HMAC-SHA256 Credential="@ + credentials.access_key_id@ + "/"@).is_prefix_of(texts.1)
        }),
{
    let entries = header_entries(request.headers);
    lemma_texts_of_headers(entries, pairs);
    lemma_named_is_filter(entries, name, named);
    lemma_named_is_filter(header_entries(signed.headers), name, named);
    law_signing_adds_the_signature(credentials, region, service, request, time, signed);
    if name != "x-amz-date"@ && name != "authorization"@ && !(name == "x-amz-security-token"@
        && credentials.session_token is Some) {
        law_signing_keeps_the_request(credentials, region, service, request, time, signed, name);
    }
}

/// A signed request keeps its URL, and for every name its headers of that name, but for those of
/// the signature. The date and the authorization are what the signer gives for the key, the
/// secret and the session token of the credentials, the region, the service, the time, the
/// method, the URL, every header with its whole value, and every byte of the body.
pub proof fn law_whole_request_is_signed(
    credentials: Credentials,
    region: &str,
    service: &str,
    request: AwsRequestToSign,
    time: SystemTime,
    signed: AwsSignedRequest,
    pairs: Seq<(Seq<char>, Seq<char>)>,
    name: Seq<char>,
    named: spec_fn(Entry) -> bool,
)
    requires
        call_ensures(
            sign_request,
            (&credentials, region, service, request, time),
            Ok(signed),
        ),
        pairs.len() == header_entries(request.headers).len(),
        forall|i: int|
            0 <= i < pairs.len() ==> (#[trigger] pairs[i]).0 == header_entries(request.headers)[i].0
                && pairs[i].1.len() == header_entries(request.headers)[i].1.len(),
        forall|i: int, k: int|
            0 <= i < pairs.len() && 0 <= k < pairs[i].1.len() ==> (#[trigger] pairs[i].1[k])
                == header_entries(request.headers)[i].1[k] as char,
        forall|entry: Entry| #[trigger] named(entry) <==> entry.0 == name,
    ensures
        ({
            let texts = sigv4_texts(
                credentials.access_key_id@,
                credentials.secret_access_key@,
                match credentials.session_token {
                    Some(token) => Some(token@),
                    None => None,
                },
                region@,
                service@,
                unix_nanos(time),
                method_text(request.method),
                request.url@,
                pairs,
                buffer_bytes(request.body),
            );
            &&& signed.url@ == request.url@
            &&& header_entries(signed.headers).filter(named) == (if name == "x-amz-date"@ {
                seq![(name, encode_utf8(texts.0), false)]
            } else if name == "authorization"@ {
                seq![(name, encode_utf8(texts.1), false)]
            } else if name == "x-amz-security-token"@ && credentials.session_token is Some {
                seq![(name, encode_utf8(credentials.session_token->0@), true)]
            } else {
                header_entries(request.headers).filter(named)
            })
            &&& ("AWS4-HMAC-SHA256 Credential="@ + credentials.access_key_id@ + "/"@).is_prefix_of(texts.1)
        }),
{
    lemma_signature(
        credentials,
        region@,
        service@,
        request,
        time,
        signed,
        pairs,
        name,
        named,
    );
}

/// A context signs the whole request with the credentials at hand, for its own region and its own
/// service.
pub proof fn law_context_signs_the_whole_request(
    context: AwsAuthContext,
    credentials: Credentials,
    request: AwsRequestToSign,
    time: SystemTime,
    signed: AwsSignedRequest,
    pairs: Seq<(Seq<char>, Seq<char>)>,
    name: Seq<char>,
    named: spec_fn(Entry) -> bool,
)
    requires
        call_ensures(
            AwsAuthContext::sign_with,
            (&context, &credentials, request, time),
            SignStep::Done(Ok(signed)),
        ),
        pairs.len() == header_entries(request.headers).len(),
        forall|i: int|
            0 <= i < pairs.len() ==> (#[trigger] pairs[i]).0 == header_entries(request.headers)[i].0
                && pairs[i].1.len() == header_entries(request.headers)[i].1.len(),
        forall|i: int, k: int|
            0 <= i < pairs.len() && 0 <= k < pairs[i].1.len() ==> (#[trigger] pairs[i].1[k])
                == header_entries(request.headers)[i].1[k] as char,
        forall|entry: Entry| #[trigger] named(entry) <==> entry.0 == name,
    ensures
        ({
            let texts = sigv4_texts(
                credentials.access_key_id@,
                credentials.secret_access_key@,
                match credentials.session_token {
                    Some(token) => Some(token@),
                    None => None,
                },
                context@.region,
                context@.service,
                unix_nanos(time),
                method_text(request.method),
                request.url@,
                pairs,
                buffer_bytes(request.body),
            );
            &&& signed.url@ == request.url@
            &&& header_entries(signed.headers).filter(named) == (if name == "x-amz-date"@ {
                seq![(name, encode_utf8(texts.0), false)]
            } else if name == "authorization"@ {
                seq![(name, encode_utf8(texts.1), false)]
            } else if name == "x-amz-security-token"@ && credentials.session_token is Some {
                seq![(name, encode_utf8(credentials.session_token->0@), true)]
            } else {
                header_entries(request.headers).filter(named)
            })
            &&& ("AWS4-HMAC-SHA256 Credential="@ + credentials.access_key_id@ + "/"@).is_prefix_of(texts.1)
        }),
{
    lemma_signature(credentials, context@.region, context@.service, request, time, signed, pairs, name, named);
}

/// A context that can sign at once signs the whole request with the credentials that it can use
/// by the clock, for the time that it was asked to sign for.
pub proof fn law_context_signs_with_usable_credentials(
    context: &mut AwsAuthContext,
    credentials: Credentials,
    request: AwsRequestToSign,
    time: SystemTime,
    clock: SystemTime,
    signed: AwsSignedRequest,
    pairs: Seq<(Seq<char>, Seq<char>)>,
    name: Seq<char>,
    named: spec_fn(Entry) -> bool,
)
    requires
        call_ensures(
            AwsAuthContext::sign_at_clock,
            (context, request, time, clock),
            SignStep::Done(Ok(signed)),
        ),
        old(context)@.usable_at(clock) == Some(credentials),
        pairs.len() == header_entries(request.headers).len(),
        forall|i: int|
            0 <= i < pairs.len() ==> (#[trigger] pairs[i]).0 == header_entries(request.headers)[i].0
                && pairs[i].1.len() == header_entries(request.headers)[i].1.len(),
        forall|i: int, k: int|
            0 <= i < pairs.len() && 0 <= k < pairs[i].1.len() ==> (#[trigger] pairs[i].1[k])
                == header_entries(request.headers)[i].1[k] as char,
        forall|entry: Entry| #[trigger] named(entry) <==> entry.0 == name,
    ensures
        ({
            let texts = sigv4_texts(
                credentials.access_key_id@,
                credentials.secret_access_key@,
                match credentials.session_token {
                    Some(token) => Some(token@),
                    None => None,
                },
                old(context)@.region,
                old(context)@.service,
                unix_nanos(time),
                method_text(request.method),
                request.url@,
                pairs,
                buffer_bytes(request.body),
            );
            &&& signed.url@ == request.url@
            &&& header_entries(signed.headers).filter(named) == (if name == "x-amz-date"@ {
                seq![(name, encode_utf8(texts.0), false)]
            } else if name == "authorization"@ {
                seq![(name, encode_utf8(texts.1), false)]
            } else if name == "x-amz-security-token"@ && credentials.session_token is Some {
                seq![(name, encode_utf8(credentials.session_token->0@), true)]
            } else {
                header_entries(request.headers).filter(named)
            })
            &&& ("AWS4-HMAC-SHA256 Credential="@ + credentials.access_key_id@ + "/"@).is_prefix_of(texts.1)
        }),
{
    lemma_signature(credentials, old(context)@.region, old(context)@.service, request, time, signed, pairs, name, named);
}

/// A context that signs at once signs the whole request, for the time that it is to be signed for.
/// It signs with its cached credentials if it has a provider or if they do not expire, and with
/// its access keys if nothing is cached.
pub proof fn law_context_signs_with_what_it_has(
    context: &mut AwsAuthContext,
    credentials: Credentials,
    request: AwsRequestToSign,
    time: SystemTime,
    signed: AwsSignedRequest,
    pairs: Seq<(Seq<char>, Seq<char>)>,
    name: Seq<char>,
    named: spec_fn(Entry) -> bool,
)
    requires
        call_ensures(
            AwsAuthContext::sign_at,
            (context, request, time),
            SignStep::Done(Ok(signed)),
        ),
        ({
            ||| old(context)@.cached == Some(credentials) && (credentials.expires_after is None
                || old(context)@.source is Provider)
            ||| old(context)@.cached is None && (old(context)@.source matches CredentialsSource::AccessKeys(keys) && {
                &&& credentials.access_key_id == keys.access_key_id
                &&& credentials.secret_access_key == keys.secret_access_key
                &&& credentials.session_token == keys.session_token
                &&& credentials.expires_after is None
                &&& credentials.provider_name == "codex-managed-bedrock-access-keys"
            })
        }),
        pairs.len() == header_entries(request.headers).len(),
        forall|i: int|
            0 <= i < pairs.len() ==> (#[trigger] pairs[i]).0 == header_entries(request.headers)[i].0
                && pairs[i].1.len() == header_entries(request.headers)[i].1.len(),
        forall|i: int, k: int|
            0 <= i < pairs.len() && 0 <= k < pairs[i].1.len() ==> (#[trigger] pairs[i].1[k])
                == header_entries(request.headers)[i].1[k] as char,
        forall|entry: Entry| #[trigger] named(entry) <==> entry.0 == name,
    ensures
        ({
            let texts = sigv4_texts(
                credentials.access_key_id@,
                credentials.secret_access_key@,
                match credentials.session_token {
                    Some(token) => Some(token@),
                    None => None,
                },
                old(context)@.region,
                old(context)@.service,
                unix_nanos(time),
                method_text(request.method),
                request.url@,
                pairs,
                buffer_bytes(request.body),
            );
            &&& signed.url@ == request.url@
            &&& header_entries(signed.headers).filter(named) == (if name == "x-amz-date"@ {
                seq![(name, encode_utf8(texts.0), false)]
            } else if name == "authorization"@ {
                seq![(name, encode_utf8(texts.1), false)]
            } else if name == "x-amz-security-token"@ && credentials.session_token is Some {
                seq![(name, encode_utf8(credentials.session_token->0@), true)]
            } else {
                header_entries(request.headers).filter(named)
            })
            &&& ("AWS4-HMAC-SHA256 Credential="@ + credentials.access_key_id@ + "/"@).is_prefix_of(texts.1)
        }),
{
    lemma_signature(credentials, old(context)@.region, old(context)@.service, request, time, signed, pairs, name, named);
}

/// A request that waited for credentials is signed whole with the fresh ones, for the time that
/// it was to be signed for, and for the region and the service of the context.
pub proof fn law_waiting_request_is_signed_whole(
    context: &mut AwsAuthContext,
    pending: PendingSign,
    fresh: Credentials,
    signed: AwsSignedRequest,
    pairs: Seq<(Seq<char>, Seq<char>)>,
    name: Seq<char>,
    named: spec_fn(Entry) -> bool,
)
    requires
        call_ensures(
            AwsAuthContext::resume,
            (context, pending, Ok(fresh)),
            SignStep::Done(Ok(signed)),
        ),
        pairs.len() == header_entries(pending.request.headers).len(),
        forall|i: int|
            0 <= i < pairs.len() ==> (#[trigger] pairs[i]).0 == header_entries(pending.request.headers)[i].0
                && pairs[i].1.len() == header_entries(pending.request.headers)[i].1.len(),
        forall|i: int, k: int|
            0 <= i < pairs.len() && 0 <= k < pairs[i].1.len() ==> (#[trigger] pairs[i].1[k])
                == header_entries(pending.request.headers)[i].1[k] as char,
        forall|entry: Entry| #[trigger] named(entry) <==> entry.0 == name,
    ensures
        ({
            let texts = sigv4_texts(
                fresh.access_key_id@,
                fresh.secret_access_key@,
                match fresh.session_token {
                    Some(token) => Some(token@),
                    None => None,
                },
                old(context)@.region,
                old(context)@.service,
                unix_nanos(pending.time),
                method_text(pending.request.method),
                pending.request.url@,
                pairs,
                buffer_bytes(pending.request.body),
            );
            &&& signed.url@ == pending.request.url@
            &&& header_entries(signed.headers).filter(named) == (if name == "x-amz-date"@ {
                seq![(name, encode_utf8(texts.0), false)]
            } else if name == "authorization"@ {
                seq![(name, encode_utf8(texts.1), false)]
            } else if name == "x-amz-security-token"@ && fresh.session_token is Some {
                seq![(name, encode_utf8(fresh.session_token->0@), true)]
            } else {
                header_entries(pending.request.headers).filter(named)
            })
            &&& ("AWS4-HMAC-SHA256 Credential="@ + fresh.access_key_id@ + "/"@).is_prefix_of(texts.1)
        }),
{
    lemma_signature(fresh, old(context)@.region, old(context)@.service, pending.request, pending.time, signed, pairs, name, named);
}

/// A request that is signed now is signed whole, for a time that the clock gave, with the cached
/// credentials or the access keys.
pub proof fn law_context_signs_for_the_current_time(
    context: &mut AwsAuthContext,
    credentials: Credentials,
    request: AwsRequestToSign,
    signed: AwsSignedRequest,
    pairs: Seq<(Seq<char>, Seq<char>)>,
    name: Seq<char>,
    named: spec_fn(Entry) -> bool,
)
    requires
        call_ensures(AwsAuthContext::sign, (context, request), SignStep::Done(Ok(signed))),
        ({
            ||| old(context)@.cached == Some(credentials) && (credentials.expires_after is None
                || old(context)@.source is Provider)
            ||| old(context)@.cached is None && (old(context)@.source matches CredentialsSource::AccessKeys(keys) && {
                &&& credentials.access_key_id == keys.access_key_id
                &&& credentials.secret_access_key == keys.secret_access_key
                &&& credentials.session_token == keys.session_token
                &&& credentials.expires_after is None
                &&& credentials.provider_name == "codex-managed-bedrock-access-keys"
            })
        }),
        pairs.len() == header_entries(request.headers).len(),
        forall|i: int|
            0 <= i < pairs.len() ==> (#[trigger] pairs[i]).0 == header_entries(request.headers)[i].0
                && pairs[i].1.len() == header_entries(request.headers)[i].1.len(),
        forall|i: int, k: int|
            0 <= i < pairs.len() && 0 <= k < pairs[i].1.len() ==> (#[trigger] pairs[i].1[k])
                == header_entries(request.headers)[i].1[k] as char,
        forall|entry: Entry| #[trigger] named(entry) <==> entry.0 == name,
    ensures
        exists|time: SystemTime| #[trigger]
            call_ensures(read_clock, (), time) && ({
                let texts = sigv4_texts(
                    credentials.access_key_id@,
                    credentials.secret_access_key@,
                    match credentials.session_token {
                        Some(token) => Some(token@),
                        None => None,
                    },
                    old(context)@.region,
                    old(context)@.service,
                    unix_nanos(time),
                    method_text(request.method),
                    request.url@,
                    pairs,
                    buffer_bytes(request.body),
                );
                &&& signed.url@ == request.url@
                &&& header_entries(signed.headers).filter(named) == (if name == "x-amz-date"@ {
                    seq![(name, encode_utf8(texts.0), false)]
                } else if name == "authorization"@ {
                    seq![(name, encode_utf8(texts.1), false)]
                } else if name == "x-amz-security-token"@ && credentials.session_token is Some {
                    seq![(name, encode_utf8(credentials.session_token->0@), true)]
                } else {
                    header_entries(request.headers).filter(named)
                })
                &&& ("AWS4-HMAC-SHA256 Credential="@ + credentials.access_key_id@ + "/"@).is_prefix_of(texts.1)
            }),
{
    let before = old(context)@;
    let step = SignStep::Done(Ok(signed));
    let (time, clock) = choose|time: SystemTime, clock: SystemTime|
        #![trigger before.is_sign_step(request, time, clock, step)]
        call_ensures(read_clock, (), time) && call_ensures(read_clock, (), clock) && before.is_sign_step(request, time, clock, step)
            && final(context)@ == before.after_looking(clock);
    lemma_signature(
        credentials,
        before.region,
        before.service,
        request,
        time,
        signed,
        pairs,
        name,
        named,
    );
    assert(call_ensures(read_clock, (), time));
}

/// A request that has to wait for credentials waits as it is, for the time that it is to be
/// signed for. It waits only if there is a provider to ask, and no credentials to use.
pub proof fn law_waiting_request_is_kept(
    context: &mut AwsAuthContext,
    request: AwsRequestToSign,
    time: SystemTime,
    clock: SystemTime,
    step: SignStep,
)
    requires
        call_ensures(AwsAuthContext::sign_at_clock, (context, request, time, clock), step),
    ensures
        final(context)@.source == old(context)@.source,
        final(context)@.region == old(context)@.region,
        final(context)@.service == old(context)@.service,
        step is FetchCredentials <==> old(context)@.source is Provider && !(old(context)@.cached matches Some(cached) && (cached.expires_after matches Some(expiry) ==> unix_nanos(expiry) - unix_nanos(clock) > 300_000_000_000)),
        step matches SignStep::FetchCredentials(pending) ==> pending.request == request
            && pending.time == time && final(context)@.cached == old(context)@.cached,
{
}

/// With nothing cached, a context with a provider has it asked, and keeps the request as it is.
pub proof fn law_empty_cache_has_the_provider_asked(
    context: &mut AwsAuthContext,
    request: AwsRequestToSign,
    time: SystemTime,
    step: SignStep,
)
    requires
        call_ensures(AwsAuthContext::sign_at, (context, request, time), step),
    ensures
        old(context)@.source is Provider && old(context)@.cached is None ==> step
            is FetchCredentials,
        step matches SignStep::FetchCredentials(pending) ==> pending.request == request
            && pending.time == time && old(context)@.source is Provider && final(context)@ == old(context)@,
        old(context)@.source is Provider ==> (old(context)@.cached matches Some(cached) ==> (
        cached.expires_after matches Some(expiry) ==> exists|clock: SystemTime| #[trigger]
            call_ensures(read_clock, (), clock) && (step is FetchCredentials <==> unix_nanos(expiry) - unix_nanos(
                clock,
            ) <= 300_000_000_000))),
{
    let before = old(context)@;
    let clock = choose|clock: SystemTime|
        #![trigger before.after_looking(clock)]
        call_ensures(read_clock, (), clock) && before.is_sign_step(request, time, clock, step) && final(context)@
            == before.after_looking(clock);
    assert(call_ensures(read_clock, (), clock));
}

/// A request that is to be signed now, and has to wait, waits as it is, for a time that the clock
/// gave.
pub proof fn law_waiting_request_keeps_its_time(
    context: &mut AwsAuthContext,
    request: AwsRequestToSign,
    pending: PendingSign,
)
    requires
        call_ensures(
            AwsAuthContext::sign,
            (context, request),
            SignStep::FetchCredentials(pending),
        ),
    ensures
        pending.request == request,
        call_ensures(read_clock, (), pending.time),
        old(context)@.source is Provider,
        final(context)@ == old(context)@,
{
}

/// A failed provider is the error of the request that waited for it, as it is, and leaves the
/// context as it was. Fresh credentials are cached as they are.
pub proof fn law_waiting_request_gets_the_answer(
    context: &mut AwsAuthContext,
    pending: PendingSign,
    fetched: Result<Credentials, CredentialsError>,
    step: SignStep,
)
    requires
        call_ensures(AwsAuthContext::resume, (context, pending, fetched), step),
    ensures
        final(context)@.source == old(context)@.source,
        final(context)@.region == old(context)@.region,
        final(context)@.service == old(context)@.service,
        fetched matches Err(error) ==> step == SignStep::Done(
            Err(AwsAuthError::Credentials(error)),
        ) && final(context)@.cached == old(context)@.cached,
        fetched matches Ok(fresh) ==> final(context)@.cached == Some(fresh),
        step !is FetchCredentials,
{
}

/// Visible header values are visible in every byte, and header names are names in every header.
proof fn lemma_headers_in_order(request: AwsRequestToSign)
    ensures
        all_visible(header_entries(request.headers)) <==> (forall|i: int, k: int|
                0 <= i < header_entries(request.headers).len() && 0 <= k < header_entries(
                    request.headers,
                )[i].1.len() ==> (32 <= (#[trigger] header_entries(request.headers)[i].1[k]) < 127
                    || header_entries(request.headers)[i].1[k] == 9)),
        all_named(text_pairs(header_entries(request.headers))) <==> (forall|i: int|
                0 <= i < header_entries(request.headers).len() ==> is_name(
                    (#[trigger] header_entries(request.headers)[i]).0,
                )),
{
    let entries = header_entries(request.headers);
    if all_visible(entries) {
        assert forall|i: int, k: int| 0 <= i < entries.len() && 0 <= k < entries[i].1.len() implies (
        32 <= (#[trigger] entries[i].1[k]) < 127 || entries[i].1[k] == 9) by {
            assert(is_visible(entries[i].1));
        }
    }
    if forall|i: int, k: int|
                0 <= i < entries.len() && 0 <= k < entries[i].1.len() ==> (32 <= (#[trigger] entries[i].1[k]) < 127
                    || entries[i].1[k] == 9) {
        assert forall|i: int| 0 <= i < entries.len() implies is_visible((#[trigger] entries[i]).1) by {
            assert forall|k: int| 0 <= k < entries[i].1.len() implies is_visible_byte(
                #[trigger] entries[i].1[k],
            ) by {}
        }
    }
    let pairs = text_pairs(entries);
    if all_named(pairs) {
        assert forall|i: int| 0 <= i < entries.len() implies is_name((#[trigger] entries[i]).0) by {
            assert(is_name(pairs[i].0));
        }
    }
    if forall|i: int|
                0 <= i < entries.len() ==> is_name(
                    (#[trigger] entries[i]).0,
                ) {
        assert forall|i: int| 0 <= i < pairs.len() implies is_name((#[trigger] pairs[i]).0) by {
            assert(is_name(entries[i].0));
        }
    }
}

/// Why a request is refused: its URL is no URI; or a byte of a header value is not visible; or a
/// header name or the session token is not in order; or the key, the region or the service is
/// not. A request that is in order is refused only if it has very many headers.
pub proof fn law_reasons_of_refusal(
    credentials: Credentials,
    region: &str,
    service: &str,
    request: AwsRequestToSign,
    time: SystemTime,
    outcome: Result<AwsSignedRequest, AwsAuthError>,
)
    requires
        call_ensures(sign_request, (&credentials, region, service, request, time), outcome),
    ensures
        uri_parts(request.url@) matches Err(error) ==> outcome == Err::<AwsSignedRequest, _>(
            AwsAuthError::InvalidUri(error),
        ),
        ({
            let visible = forall|i: int, k: int|
                0 <= i < header_entries(request.headers).len() && 0 <= k < header_entries(
                    request.headers,
                )[i].1.len() ==> (32 <= (#[trigger] header_entries(request.headers)[i].1[k]) < 127
                    || header_entries(request.headers)[i].1[k] == 9);
            let named = forall|i: int|
                0 <= i < header_entries(request.headers).len() ==> is_name(
                    (#[trigger] header_entries(request.headers)[i]).0,
                );
            let token_fits = credentials.session_token is None || (forall|k: int|
                0 <= k < credentials.session_token->0@.len() ==> ((#[trigger] credentials.session_token->0@[k]) as u32 == 9 || (credentials.session_token->0@[k] as u32 >= 32
                    && credentials.session_token->0@[k] as u32 != 127)));
            let rest_fits = (forall|k: int|
                0 <= k < credentials.access_key_id@.len() ==> ((#[trigger] credentials.access_key_id@[k]) as u32 == 9 || (credentials.access_key_id@[k] as u32 >= 32
                    && credentials.access_key_id@[k] as u32 != 127))) && (forall|k: int|
                0 <= k < region@.len() ==> ((#[trigger] region@[k]) as u32 == 9 || (region@[k] as u32 >= 32
                    && region@[k] as u32 != 127))) && (forall|k: int|
                0 <= k < service@.len() ==> ((#[trigger] service@[k]) as u32 == 9 || (service@[k] as u32 >= 32
                    && service@[k] as u32 != 127)));
            let few = header_entries(request.headers).len() <= 6551;
            uri_parts(request.url@) is Ok ==> {
                &&& !visible <==> (outcome matches Err(error) && error is InvalidHeaderValue)
                &&& visible && !(named && token_fits) <==> (outcome matches Err(error)
                    && error is SigningFailure)
                &&& visible && named && token_fits && !rest_fits ==> (outcome matches Err(error)
                    && error is BuildHttpRequest)
                &&& visible && named && token_fits && rest_fits && few ==> outcome is Ok
                &&& outcome is Ok ==> visible && named && token_fits && rest_fits
                &&& outcome matches Err(error) ==> error is InvalidHeaderValue || error
                    is SigningFailure || error is BuildHttpRequest
            }
        }),
{
    lemma_headers_in_order(request);
    lemma_count_bound(names_of(header_entries(request.headers)));
}

/// A context refuses a request for the same reasons, for its own region and its own service.
pub proof fn law_reasons_of_refusal_by_a_context(
    context: AwsAuthContext,
    credentials: Credentials,
    request: AwsRequestToSign,
    time: SystemTime,
    outcome: Result<AwsSignedRequest, AwsAuthError>,
)
    requires
        call_ensures(
            AwsAuthContext::sign_with,
            (&context, &credentials, request, time),
            SignStep::Done(outcome),
        ),
    ensures
        uri_parts(request.url@) matches Err(error) ==> outcome == Err::<AwsSignedRequest, _>(
            AwsAuthError::InvalidUri(error),
        ),
        ({
            let visible = forall|i: int, k: int|
                0 <= i < header_entries(request.headers).len() && 0 <= k < header_entries(
                    request.headers,
                )[i].1.len() ==> (32 <= (#[trigger] header_entries(request.headers)[i].1[k]) < 127
                    || header_entries(request.headers)[i].1[k] == 9);
            let named = forall|i: int|
                0 <= i < header_entries(request.headers).len() ==> is_name(
                    (#[trigger] header_entries(request.headers)[i]).0,
                );
            let token_fits = credentials.session_token is None || (forall|k: int|
                0 <= k < credentials.session_token->0@.len() ==> ((#[trigger] credentials.session_token->0@[k]) as u32 == 9 || (credentials.session_token->0@[k] as u32 >= 32
                    && credentials.session_token->0@[k] as u32 != 127)));
            let rest_fits = (forall|k: int|
                0 <= k < credentials.access_key_id@.len() ==> ((#[trigger] credentials.access_key_id@[k]) as u32 == 9 || (credentials.access_key_id@[k] as u32 >= 32
                    && credentials.access_key_id@[k] as u32 != 127))) && (forall|k: int|
                0 <= k < context@.region.len() ==> ((#[trigger] context@.region[k]) as u32 == 9 || (context@.region[k] as u32 >= 32
                    && context@.region[k] as u32 != 127))) && (forall|k: int|
                0 <= k < context@.service.len() ==> ((#[trigger] context@.service[k]) as u32 == 9 || (context@.service[k] as u32 >= 32
                    && context@.service[k] as u32 != 127)));
            let few = header_entries(request.headers).len() <= 6551;
            uri_parts(request.url@) is Ok ==> {
                &&& !visible <==> (outcome matches Err(error) && error is InvalidHeaderValue)
                &&& visible && !(named && token_fits) <==> (outcome matches Err(error)
                    && error is SigningFailure)
                &&& visible && named && token_fits && !rest_fits ==> (outcome matches Err(error)
                    && error is BuildHttpRequest)
                &&& visible && named && token_fits && rest_fits && few ==> outcome is Ok
                &&& outcome is Ok ==> visible && named && token_fits && rest_fits
                &&& outcome matches Err(error) ==> error is InvalidHeaderValue || error
                    is SigningFailure || error is BuildHttpRequest
            }
        }),
{
    lemma_headers_in_order(request);
    lemma_count_bound(names_of(header_entries(request.headers)));
}

/// A request that is refused at once is refused for the same reasons.
pub proof fn law_reasons_of_refusal_at_once(
    context: &mut AwsAuthContext,
    credentials: Credentials,
    request: AwsRequestToSign,
    time: SystemTime,
    clock: SystemTime,
    outcome: Result<AwsSignedRequest, AwsAuthError>,
)
    requires
        call_ensures(
            AwsAuthContext::sign_at_clock,
            (context, request, time, clock),
            SignStep::Done(outcome),
        ),
        old(context)@.usable_at(clock) == Some(credentials),
    ensures
        uri_parts(request.url@) matches Err(error) ==> outcome == Err::<AwsSignedRequest, _>(
            AwsAuthError::InvalidUri(error),
        ),
        ({
            let visible = forall|i: int, k: int|
                0 <= i < header_entries(request.headers).len() && 0 <= k < header_entries(
                    request.headers,
                )[i].1.len() ==> (32 <= (#[trigger] header_entries(request.headers)[i].1[k]) < 127
                    || header_entries(request.headers)[i].1[k] == 9);
            let named = forall|i: int|
                0 <= i < header_entries(request.headers).len() ==> is_name(
                    (#[trigger] header_entries(request.headers)[i]).0,
                );
            let token_fits = credentials.session_token is None || (forall|k: int|
                0 <= k < credentials.session_token->0@.len() ==> ((#[trigger] credentials.session_token->0@[k]) as u32 == 9 || (credentials.session_token->0@[k] as u32 >= 32
                    && credentials.session_token->0@[k] as u32 != 127)));
            let rest_fits = (forall|k: int|
                0 <= k < credentials.access_key_id@.len() ==> ((#[trigger] credentials.access_key_id@[k]) as u32 == 9 || (credentials.access_key_id@[k] as u32 >= 32
                    && credentials.access_key_id@[k] as u32 != 127))) && (forall|k: int|
                0 <= k < old(context)@.region.len() ==> ((#[trigger] old(context)@.region[k]) as u32 == 9 || (old(context)@.region[k] as u32 >= 32
                    && old(context)@.region[k] as u32 != 127))) && (forall|k: int|
                0 <= k < old(context)@.service.len() ==> ((#[trigger] old(context)@.service[k]) as u32 == 9 || (old(context)@.service[k] as u32 >= 32
                    && old(context)@.service[k] as u32 != 127)));
            let few = header_entries(request.headers).len() <= 6551;
            uri_parts(request.url@) is Ok ==> {
                &&& !visible <==> (outcome matches Err(error) && error is InvalidHeaderValue)
                &&& visible && !(named && token_fits) <==> (outcome matches Err(error)
                    && error is SigningFailure)
                &&& visible && named && token_fits && !rest_fits ==> (outcome matches Err(error)
                    && error is BuildHttpRequest)
                &&& visible && named && token_fits && rest_fits && few ==> outcome is Ok
                &&& outcome is Ok ==> visible && named && token_fits && rest_fits
                &&& outcome matches Err(error) ==> error is InvalidHeaderValue || error
                    is SigningFailure || error is BuildHttpRequest
            }
        }),
{
    lemma_headers_in_order(request);
    lemma_count_bound(names_of(header_entries(request.headers)));
}

/// A request that waited for credentials is refused for the same reasons.
pub proof fn law_reasons_of_refusal_after_waiting(
    context: &mut AwsAuthContext,
    pending: PendingSign,
    fresh: Credentials,
    outcome: Result<AwsSignedRequest, AwsAuthError>,
)
    requires
        call_ensures(
            AwsAuthContext::resume,
            (context, pending, Ok(fresh)),
            SignStep::Done(outcome),
        ),
    ensures
        uri_parts(pending.request.url@) matches Err(error) ==> outcome == Err::<AwsSignedRequest, _>(
            AwsAuthError::InvalidUri(error),
        ),
        ({
            let visible = forall|i: int, k: int|
                0 <= i < header_entries(pending.request.headers).len() && 0 <= k < header_entries(
                    pending.request.headers,
                )[i].1.len() ==> (32 <= (#[trigger] header_entries(pending.request.headers)[i].1[k]) < 127
                    || header_entries(pending.request.headers)[i].1[k] == 9);
            let named = forall|i: int|
                0 <= i < header_entries(pending.request.headers).len() ==> is_name(
                    (#[trigger] header_entries(pending.request.headers)[i]).0,
                );
            let token_fits = fresh.session_token is None || (forall|k: int|
                0 <= k < fresh.session_token->0@.len() ==> ((#[trigger] fresh.session_token->0@[k]) as u32 == 9 || (fresh.session_token->0@[k] as u32 >= 32
                    && fresh.session_token->0@[k] as u32 != 127)));
            let rest_fits = (forall|k: int|
                0 <= k < fresh.access_key_id@.len() ==> ((#[trigger] fresh.access_key_id@[k]) as u32 == 9 || (fresh.access_key_id@[k] as u32 >= 32
                    && fresh.access_key_id@[k] as u32 != 127))) && (forall|k: int|
                0 <= k < old(context)@.region.len() ==> ((#[trigger] old(context)@.region[k]) as u32 == 9 || (old(context)@.region[k] as u32 >= 32
                    && old(context)@.region[k] as u32 != 127))) && (forall|k: int|
                0 <= k < old(context)@.service.len() ==> ((#[trigger] old(context)@.service[k]) as u32 == 9 || (old(context)@.service[k] as u32 >= 32
                    && old(context)@.service[k] as u32 != 127)));
            let few = header_entries(pending.request.headers).len() <= 6551;
            uri_parts(pending.request.url@) is Ok ==> {
                &&& !visible <==> (outcome matches Err(error) && error is InvalidHeaderValue)
                &&& visible && !(named && token_fits) <==> (outcome matches Err(error)
                    && error is SigningFailure)
                &&& visible && named && token_fits && !rest_fits ==> (outcome matches Err(error)
                    && error is BuildHttpRequest)
                &&& visible && named && token_fits && rest_fits && few ==> outcome is Ok
                &&& outcome is Ok ==> visible && named && token_fits && rest_fits
                &&& outcome matches Err(error) ==> error is InvalidHeaderValue || error
                    is SigningFailure || error is BuildHttpRequest
            }
        }),
{
    lemma_headers_in_order(pending.request);
    lemma_count_bound(names_of(header_entries(pending.request.headers)));
}

/// Signing by the clock refuses a request for the same reasons.
pub proof fn law_reasons_of_refusal_by_the_clock(
    context: &mut AwsAuthContext,
    credentials: Credentials,
    request: AwsRequestToSign,
    time: SystemTime,
    outcome: Result<AwsSignedRequest, AwsAuthError>,
)
    requires
        call_ensures(AwsAuthContext::sign_at, (context, request, time), SignStep::Done(outcome)),
        ({
            ||| old(context)@.cached == Some(credentials) && (credentials.expires_after is None
                || old(context)@.source is Provider)
            ||| old(context)@.cached is None && (old(context)@.source matches CredentialsSource::AccessKeys(keys) && {
                &&& credentials.access_key_id == keys.access_key_id
                &&& credentials.secret_access_key == keys.secret_access_key
                &&& credentials.session_token == keys.session_token
                &&& credentials.expires_after is None
                &&& credentials.provider_name == "codex-managed-bedrock-access-keys"
            })
        }),
    ensures
        uri_parts(request.url@) matches Err(error) ==> outcome == Err::<AwsSignedRequest, _>(
            AwsAuthError::InvalidUri(error),
        ),
        ({
            let visible = forall|i: int, k: int|
                0 <= i < header_entries(request.headers).len() && 0 <= k < header_entries(
                    request.headers,
                )[i].1.len() ==> (32 <= (#[trigger] header_entries(request.headers)[i].1[k]) < 127
                    || header_entries(request.headers)[i].1[k] == 9);
            let named = forall|i: int|
                0 <= i < header_entries(request.headers).len() ==> is_name(
                    (#[trigger] header_entries(request.headers)[i]).0,
                );
            let token_fits = credentials.session_token is None || (forall|k: int|
                0 <= k < credentials.session_token->0@.len() ==> ((#[trigger] credentials.session_token->0@[k]) as u32 == 9 || (credentials.session_token->0@[k] as u32 >= 32
                    && credentials.session_token->0@[k] as u32 != 127)));
            let rest_fits = (forall|k: int|
                0 <= k < credentials.access_key_id@.len() ==> ((#[trigger] credentials.access_key_id@[k]) as u32 == 9 || (credentials.access_key_id@[k] as u32 >= 32
                    && credentials.access_key_id@[k] as u32 != 127))) && (forall|k: int|
                0 <= k < old(context)@.region.len() ==> ((#[trigger] old(context)@.region[k]) as u32 == 9 || (old(context)@.region[k] as u32 >= 32
                    && old(context)@.region[k] as u32 != 127))) && (forall|k: int|
                0 <= k < old(context)@.service.len() ==> ((#[trigger] old(context)@.service[k]) as u32 == 9 || (old(context)@.service[k] as u32 >= 32
                    && old(context)@.service[k] as u32 != 127)));
            let few = header_entries(request.headers).len() <= 6551;
            uri_parts(request.url@) is Ok ==> {
                &&& !visible <==> (outcome matches Err(error) && error is InvalidHeaderValue)
                &&& visible && !(named && token_fits) <==> (outcome matches Err(error)
                    && error is SigningFailure)
                &&& visible && named && token_fits && !rest_fits ==> (outcome matches Err(error)
                    && error is BuildHttpRequest)
                &&& visible && named && token_fits && rest_fits && few ==> outcome is Ok
                &&& outcome is Ok ==> visible && named && token_fits && rest_fits
                &&& outcome matches Err(error) ==> error is InvalidHeaderValue || error
                    is SigningFailure || error is BuildHttpRequest
            }
        }),
{
    lemma_headers_in_order(request);
    lemma_count_bound(names_of(header_entries(request.headers)));
}

/// Signing for the current time refuses a request for the same reasons.
pub proof fn law_reasons_of_refusal_now(
    context: &mut AwsAuthContext,
    credentials: Credentials,
    request: AwsRequestToSign,
    outcome: Result<AwsSignedRequest, AwsAuthError>,
)
    requires
        call_ensures(AwsAuthContext::sign, (context, request), SignStep::Done(outcome)),
        ({
            ||| old(context)@.cached == Some(credentials) && (credentials.expires_after is None
                || old(context)@.source is Provider)
            ||| old(context)@.cached is None && (old(context)@.source matches CredentialsSource::AccessKeys(keys) && {
                &&& credentials.access_key_id == keys.access_key_id
                &&& credentials.secret_access_key == keys.secret_access_key
                &&& credentials.session_token == keys.session_token
                &&& credentials.expires_after is None
                &&& credentials.provider_name == "codex-managed-bedrock-access-keys"
            })
        }),
    ensures
        uri_parts(request.url@) matches Err(error) ==> outcome == Err::<AwsSignedRequest, _>(
            AwsAuthError::InvalidUri(error),
        ),
        ({
            let visible = forall|i: int, k: int|
                0 <= i < header_entries(request.headers).len() && 0 <= k < header_entries(
                    request.headers,
                )[i].1.len() ==> (32 <= (#[trigger] header_entries(request.headers)[i].1[k]) < 127
                    || header_entries(request.headers)[i].1[k] == 9);
            let named = forall|i: int|
                0 <= i < header_entries(request.headers).len() ==> is_name(
                    (#[trigger] header_entries(request.headers)[i]).0,
                );
            let token_fits = credentials.session_token is None || (forall|k: int|
                0 <= k < credentials.session_token->0@.len() ==> ((#[trigger] credentials.session_token->0@[k]) as u32 == 9 || (credentials.session_token->0@[k] as u32 >= 32
                    && credentials.session_token->0@[k] as u32 != 127)));
            let rest_fits = (forall|k: int|
                0 <= k < credentials.access_key_id@.len() ==> ((#[trigger] credentials.access_key_id@[k]) as u32 == 9 || (credentials.access_key_id@[k] as u32 >= 32
                    && credentials.access_key_id@[k] as u32 != 127))) && (forall|k: int|
                0 <= k < old(context)@.region.len() ==> ((#[trigger] old(context)@.region[k]) as u32 == 9 || (old(context)@.region[k] as u32 >= 32
                    && old(context)@.region[k] as u32 != 127))) && (forall|k: int|
                0 <= k < old(context)@.service.len() ==> ((#[trigger] old(context)@.service[k]) as u32 == 9 || (old(context)@.service[k] as u32 >= 32
                    && old(context)@.service[k] as u32 != 127)));
            let few = header_entries(request.headers).len() <= 6551;
            uri_parts(request.url@) is Ok ==> {
                &&& !visible <==> (outcome matches Err(error) && error is InvalidHeaderValue)
                &&& visible && !(named && token_fits) <==> (outcome matches Err(error)
                    && error is SigningFailure)
                &&& visible && named && token_fits && !rest_fits ==> (outcome matches Err(error)
                    && error is BuildHttpRequest)
                &&& visible && named && token_fits && rest_fits && few ==> outcome is Ok
                &&& outcome is Ok ==> visible && named && token_fits && rest_fits
                &&& outcome matches Err(error) ==> error is InvalidHeaderValue || error
                    is SigningFailure || error is BuildHttpRequest
            }
        }),
{
    lemma_headers_in_order(request);
    lemma_count_bound(names_of(header_entries(request.headers)));
}

/// There are no more names than headers.
proof fn lemma_count_bound(names: Seq<Seq<char>>)
    ensures
        name_count(names) <= names.len(),
    decreases names.len(),
{
    if names.len() > 0 {
        lemma_count_bound(names.drop_last());
    }
}

/// Which requests the signer can be asked to sign: those that are refused before, and those for a
/// time with a year of four digits that have up to 24,576 headers, a host unless a name is not in
/// order, and a URL that still fits a URI when its query is encoded, unless the session token is
/// not in order. Up to 6,551 headers, nothing else matters.
pub proof fn law_what_the_signer_can_be_asked(
    context: AwsAuthContext,
    credentials: Credentials,
    request: AwsRequestToSign,
    time: SystemTime,
    acceptable: bool,
    step: SignStep,
)
    requires
        call_ensures(can_be_signed, (&credentials, &request, time), acceptable),
        call_ensures(AwsAuthContext::sign_with, (&context, &credentials, request, time), step),
    ensures
        ({
            let visible = forall|i: int, k: int|
                0 <= i < header_entries(request.headers).len() && 0 <= k < header_entries(
                    request.headers,
                )[i].1.len() ==> (32 <= (#[trigger] header_entries(request.headers)[i].1[k]) < 127
                    || header_entries(request.headers)[i].1[k] == 9);
            let named = forall|i: int|
                0 <= i < header_entries(request.headers).len() ==> is_name(
                    (#[trigger] header_entries(request.headers)[i]).0,
                );
            let token_fits = credentials.session_token is None || (forall|k: int|
                0 <= k < credentials.session_token->0@.len() ==> ((#[trigger] credentials.session_token->0@[k]) as u32 == 9 || (credentials.session_token->0@[k] as u32 >= 32
                    && credentials.session_token->0@[k] as u32 != 127)));
            let hosted = exists|i: int|
                0 <= i < header_entries(request.headers).len() && (#[trigger] header_entries(
                    request.headers,
                )[i]).0 == "host"@;
            let suitable = match uri_parts(request.url@) {
                Err(_) => true,
                Ok((scheme, authority, path, query)) => visible ==> {
                    &&& -377_705_116_800_000_000_000 <= unix_nanos(time)
                        <= 253_402_300_799_999_999_999
                    &&& header_entries(request.headers).len() <= 24_576
                    &&& named ==> authority || hosted
                    &&& named && token_fits ==> (scheme || !authority) && encode_utf8(path).len()
                        + query_len(
                        match query {
                            Some(text) => encode_utf8(text),
                            None => Seq::empty(),
                        },
                    ) <= 65_534
                },
            };
            &&& acceptable || step is Done ==> suitable
            &&& header_entries(request.headers).len() <= 6551 ==> acceptable == suitable
            &&& header_entries(request.headers).len() <= 6551 ==> (step is Done <==> suitable)
            &&& step is Done || step is Unsignable
        }),
{
    lemma_headers_in_order(request);
    let entries = header_entries(request.headers);
    let pairs = text_pairs(entries);
    lemma_count_bound(names_of(entries));
    assert(pairs.len() == entries.len());
    if has_pair(pairs, "host"@) {
        let i = choose|i: int| 0 <= i < pairs.len() && (#[trigger] pairs[i]).0 == "host"@;
        assert(entries[i].0 == "host"@);
    }
    if exists|i: int| 0 <= i < entries.len() && (#[trigger] entries[i]).0 == "host"@ {
        let i = choose|i: int| 0 <= i < entries.len() && (#[trigger] entries[i]).0 == "host"@;
        assert(pairs[i].0 == "host"@);
    }
}

/// An ordinary request is signed: one for an absolute URL of moderate length, with up to 6,551
/// headers that are in order, for a time with a year of four digits, and with credentials, a
/// region and a service that are in order.
pub proof fn law_ordinary_requests_are_signed(
    context: AwsAuthContext,
    credentials: Credentials,
    request: AwsRequestToSign,
    time: SystemTime,
    path: Seq<char>,
    query: Option<Seq<char>>,
    acceptable: bool,
    step: SignStep,
)
    requires
        call_ensures(can_be_signed, (&credentials, &request, time), acceptable),
        call_ensures(AwsAuthContext::sign_with, (&context, &credentials, request, time), step),
        uri_parts(request.url@) == Ok::<_, InvalidUri>((true, true, path, query)),
        encode_utf8(path).len() + (match query {
            Some(text) => 11 * encode_utf8(text).len(),
            None => 0,
        }) <= 65_534,
        -377_705_116_800_000_000_000 <= unix_nanos(time) <= 253_402_300_799_999_999_999,
        header_entries(request.headers).len() <= 6551,
        forall|i: int, k: int|
                0 <= i < header_entries(request.headers).len() && 0 <= k < header_entries(
                    request.headers,
                )[i].1.len() ==> (32 <= (#[trigger] header_entries(request.headers)[i].1[k]) < 127
                    || header_entries(request.headers)[i].1[k] == 9),
        forall|i: int|
                0 <= i < header_entries(request.headers).len() ==> is_name(
                    (#[trigger] header_entries(request.headers)[i]).0,
                ),
        credentials.session_token is Some ==> (forall|k: int|
                0 <= k < credentials.session_token->0@.len() ==> ((#[trigger] credentials.session_token->0@[k]) as u32 == 9 || (credentials.session_token->0@[k] as u32 >= 32
                    && credentials.session_token->0@[k] as u32 != 127))),
        forall|k: int|
                0 <= k < credentials.access_key_id@.len() ==> ((#[trigger] credentials.access_key_id@[k]) as u32 == 9 || (credentials.access_key_id@[k] as u32 >= 32
                    && credentials.access_key_id@[k] as u32 != 127)),
        forall|k: int|
                0 <= k < context@.region.len() ==> ((#[trigger] context@.region[k]) as u32 == 9 || (context@.region[k] as u32 >= 32
                    && context@.region[k] as u32 != 127)),
        forall|k: int|
                0 <= k < context@.service.len() ==> ((#[trigger] context@.service[k]) as u32 == 9 || (context@.service[k] as u32 >= 32
                    && context@.service[k] as u32 != 127)),
    ensures
        acceptable,
        step matches SignStep::Done(outcome) && outcome is Ok,
{
    lemma_headers_in_order(request);
    let entries = header_entries(request.headers);
    lemma_count_bound(names_of(entries));
    if let Some(text) = query {
        law_queries_grow_at_most_elevenfold(encode_utf8(text));
    }
    assert(query_len(Seq::<u8>::empty()) == 0);
    assert(text_pairs(entries).len() == entries.len());
}

/// Headers are read as text one by one, with their names and every byte of their values. They are
/// read exactly if every byte is visible.
pub proof fn law_headers_are_read_whole(
    headers: HeaderMap,
    outcome: Result<Vec<TextHeader>, ToStrError>,
)
    requires
        call_ensures(text_headers, (&headers,), outcome),
    ensures
        outcome matches Ok(texts) ==> {
            &&& texts@.len() == header_entries(headers).len()
            &&& forall|i: int|
                0 <= i < texts@.len() ==> (#[trigger] texts@[i]).name@ == header_entries(
                    headers,
                )[i].0 && texts@[i].value@.len() == header_entries(headers)[i].1.len()
            &&& forall|i: int, k: int|
                0 <= i < texts@.len() && 0 <= k < texts@[i].value@.len() ==> (
                #[trigger] texts@[i].value@[k]) == header_entries(headers)[i].1[k] as char
        },
        outcome is Ok <==> (forall|i: int|
            0 <= i < header_entries(headers).len() ==> is_visible(
                (#[trigger] header_entries(headers)[i]).1,
            )),
{
    if let Ok(texts) = outcome {
        let entries = header_entries(headers);
        let pairs = text_pairs(entries);
        assert(pairs_of(texts@).len() == texts@.len());
        assert forall|i: int| 0 <= i < texts@.len() implies (#[trigger] texts@[i]).name@
            == entries[i].0 && texts@[i].value@ == pairs[i].1 by {
            assert(pairs_of(texts@)[i] == texts@[i]@);
        }
        assert forall|i: int, k: int| 0 <= i < texts@.len() && 0 <= k < texts@[i].value@.len() implies (
        #[trigger] texts@[i].value@[k]) == entries[i].1[k] as char by {
            assert(texts@[i].value@ == pairs[i].1);
            assert(pairs[i].1[k] == entries[i].1[k] as char);
        }
    }
}

/// Setting headers leaves the headers of every other name as they are.
proof fn lemma_other_headers(entries: Seq<Entry>, added: Seq<Added>, name: Seq<char>)
    requires
        forall|i: int| 0 <= i < added.len() ==> (#[trigger] added[i]).0 != name,
    ensures
        headers_named(with_headers(entries, added), name) == headers_named(entries, name),
    decreases added.len(),
{
    if added.len() > 0 {
        let most = added.drop_last();
        let last = added[added.len() - 1];
        assert(last.0 != name);
        lemma_other_headers(entries, most, name);
        law_set_header(
            with_headers(entries, most),
            (last.0, encode_utf8(last.1), last.2),
            name,
        );
    }
}

/// Setting headers makes the last one of a name the only one of it.
proof fn lemma_last_header(
    entries: Seq<Entry>,
    added: Seq<Added>,
    name: Seq<char>,
    place: int,
)
    requires
        0 <= place < added.len(),
        added[place].0 == name,
        forall|i: int| place < i < added.len() ==> (#[trigger] added[i]).0 != name,
    ensures
        headers_named(with_headers(entries, added), name) == seq![
            (name, encode_utf8(added[place].1), added[place].2),
        ],
    decreases added.len(),
{
    let most = added.drop_last();
    let last = added[added.len() - 1];
    law_set_header(
        with_headers(entries, most),
        (last.0, encode_utf8(last.1), last.2),
        name,
    );
    if place < most.len() {
        assert(last.0 != name);
        assert(most[place] == added[place]);
        lemma_last_header(entries, most, name, place);
    }
}

/// The headers of a signature are set with their values and marks: the last one of a name is the
/// only one of it afterwards, and the headers of every other name stay as they are.
pub proof fn law_signature_headers_are_set(
    headers: HeaderMap,
    added: Vec<SigningHeader>,
    signed: HeaderMap,
    last: int,
    name: Seq<char>,
    named: spec_fn(Entry) -> bool,
)
    requires
        call_ensures(apply_signing_headers, (headers, &added), Ok(signed)),
        forall|i: int|
            0 <= i < added@.len() ==> is_lower_name((#[trigger] added@[i]).name@),
        forall|entry: Entry| #[trigger] named(entry) <==> entry.0 == name,
    ensures
        (forall|i: int| 0 <= i < added@.len() ==> (#[trigger] added@[i]).name@ != name)
            ==> header_entries(signed).filter(named) == header_entries(headers).filter(named),
        0 <= last < added@.len() && added@[last].name@ == name && (forall|i: int|
            last < i < added@.len() ==> (#[trigger] added@[i]).name@ != name) ==> header_entries(
            signed,
        ).filter(named) == seq![
            (name, encode_utf8(added@[last].value@), added@[last].sensitive),
        ],
{
    let set = added_of(added@);
    assert(set.len() == added@.len());
    assert forall|i: int| 0 <= i < set.len() implies (#[trigger] set[i]) == (
        added@[i].name@,
        added@[i].value@,
        added@[i].sensitive,
    ) by {}
    assert(all_lower_named(set));
    lemma_named_is_filter(header_entries(headers), name, named);
    lemma_named_is_filter(header_entries(signed), name, named);
    if forall|i: int| 0 <= i < added@.len() ==> (#[trigger] added@[i]).name@ != name {
        assert forall|i: int| 0 <= i < set.len() implies (#[trigger] set[i]).0 != name by {
            assert(added@[i].name@ != name);
        }
        lemma_other_headers(header_entries(headers), set, name);
    }
    if 0 <= last < added@.len() && added@[last].name@ == name && (forall|i: int|
        last < i < added@.len() ==> (#[trigger] added@[i]).name@ != name) {
        assert(set[last].0 == name);
        assert forall|i: int| last < i < set.len() implies (#[trigger] set[i]).0 != name by {
            assert(added@[i].name@ != name);
        }
        lemma_last_header(header_entries(headers), set, name, last);
    }
}

/// The stage at which the signer gave up is told by the error, with its cause.
pub proof fn law_signer_errors_name_the_stage(
    cause: SigningError,
    reason: String,
    request: AwsAuthError,
    params: AwsAuthError,
    signature: AwsAuthError,
)
    requires
        call_ensures(stage_error, (SigningStageError::Request(cause),), request),
        call_ensures(stage_error, (SigningStageError::Params(reason),), params),
        call_ensures(stage_error, (SigningStageError::Signature(cause),), signature),
    ensures
        request == AwsAuthError::SigningRequest(cause),
        params == AwsAuthError::SigningParams(reason),
        signature == AwsAuthError::SigningFailure(cause),
{
}

/// A retry can help exactly if the provider timed out or failed.
pub proof fn law_retries_are_for_provider_failures(error: AwsAuthError, retryable: bool)
    requires
        call_ensures(AwsAuthError::is_retryable, (&error,), retryable),
    ensures
        retryable <==> (error matches AwsAuthError::Credentials(cause) && (
        credentials_error_kind_of(cause) == CredentialsErrorKind::ProviderTimedOut
            || credentials_error_kind_of(cause) == CredentialsErrorKind::ProviderError)),
{
}

/// A kind of failure is worth a retry exactly if the provider timed out or failed.
pub proof fn law_kinds_worth_a_retry(
    cause: CredentialsError,
    kind: CredentialsErrorKind,
    retryable: bool,
)
    requires
        call_ensures(CredentialsErrorKind::of, (&cause,), kind),
        call_ensures(CredentialsErrorKind::is_retryable, (&kind,), retryable),
    ensures
        kind == credentials_error_kind_of(cause),
        retryable <==> kind == CredentialsErrorKind::ProviderTimedOut || kind
            == CredentialsErrorKind::ProviderError,
{
}

/// The message of an error says what went wrong, and then shows the cause, where there is one.
pub proof fn law_messages_show_the_cause(error: AwsAuthError, text: String)
    requires
        call_ensures(AwsAuthError::to_string, (&error,), text),
    ensures
        error is EmptyService ==> text@ == "AWS service name must not be empty"@,
        error is MissingProfile ==> text@ == "AWS profile must be configured"@,
        error is MissingCredentialsProvider ==> text@
            == "AWS SDK config did not resolve a credentials provider"@,
        error is MissingRegion ==> text@ == "AWS SDK config did not resolve a region"@,
        error matches AwsAuthError::SigningParams(reason) ==> text@
            == "failed to build SigV4 signing params: "@ + reason@,
        error matches AwsAuthError::ProfileLoad(cause) ==> exists|shown: String| #[trigger]
            to_string_from_display_ensures(&cause, shown) && text@ == "failed to load AWS profiles: "@ + shown@,
        error matches AwsAuthError::Credentials(cause) ==> exists|shown: String| #[trigger]
            to_string_from_display_ensures(&cause, shown) && text@ == "failed to load AWS credentials: "@ + shown@,
        error matches AwsAuthError::InvalidUri(cause) ==> exists|shown: String| #[trigger]
            to_string_from_display_ensures(&cause, shown) && text@ == "request URL is not a valid URI: "@ + shown@,
        error matches AwsAuthError::BuildHttpRequest(cause) ==> exists|shown: String| #[trigger]
            to_string_from_display_ensures(&cause, shown) && text@ == "failed to construct HTTP request for signing: "@ + shown@,
        error matches AwsAuthError::InvalidHeaderValue(cause) ==> exists|shown: String| #[trigger]
            to_string_from_display_ensures(&cause, shown) && text@ == "request contains a non-UTF8 header value: "@ + shown@,
        error matches AwsAuthError::SigningRequest(cause) ==> exists|shown: String| #[trigger]
            to_string_from_display_ensures(&cause, shown) && text@ == "failed to build signable request: "@ + shown@,
        error matches AwsAuthError::SigningFailure(cause) ==> exists|shown: String| #[trigger]
            to_string_from_display_ensures(&cause, shown) && text@ == "SigV4 signing failed: "@ + shown@,
{
}

/// Failures of the provider and of the profile files become errors that hold them as they are.
pub proof fn law_failures_become_errors(cause: CredentialsError, failure: ProfileFileLoadError)
    ensures
        <AwsAuthError as FromSpec<CredentialsError>>::from_spec(cause)
            == AwsAuthError::Credentials(cause),
        <AwsAuthError as FromSpec<ProfileFileLoadError>>::from_spec(failure)
            == AwsAuthError::ProfileLoad(failure),
{
}

/// The description of a context shows its region and its service, each in quotes, and depends on
/// nothing else.
pub proof fn law_context_shows_region_and_service(
    context: AwsAuthContext,
    text: String,
    lines: String,
)
    requires
        call_ensures(AwsAuthContext::debug_text, (&context,), text),
        call_ensures(AwsAuthContext::pretty_debug_text, (&context,), lines),
    ensures
        text@ == "AwsAuthContext { region: "@ + quoted(context@.region) + ", service: "@ + quoted(
            context@.service,
        ) + ", .. }"@,
        lines@ == "AwsAuthContext {\n    region: "@ + quoted(context@.region)
            + ",\n    service: "@ + quoted(context@.service) + ",\n    ..\n}"@,
{
}

/// The descriptions of two sets of access keys differ only if one has a session token and the
/// other has none.
pub proof fn law_keys_show_no_secret(
    one: AwsAccessKeys,
    other: AwsAccessKeys,
    shown: String,
    other_shown: String,
    lines: String,
    other_lines: String,
)
    requires
        call_ensures(AwsAccessKeys::debug_text, (&one,), shown),
        call_ensures(AwsAccessKeys::debug_text, (&other,), other_shown),
        call_ensures(AwsAccessKeys::pretty_debug_text, (&one,), lines),
        call_ensures(AwsAccessKeys::pretty_debug_text, (&other,), other_lines),
        one.session_token is Some <==> other.session_token is Some,
    ensures
        shown@ == other_shown@,
        lines@ == other_lines@,
{
}

/// The region, the service and the source of a context are handed out as they are.
pub proof fn law_context_tells_what_it_is(
    context: AwsAuthContext,
    region: &str,
    service: &str,
    source: &CredentialsSource,
)
    requires
        call_ensures(AwsAuthContext::region, (&context,), region),
        call_ensures(AwsAuthContext::service, (&context,), service),
        call_ensures(AwsAuthContext::credentials_source, (&context,), source),
    ensures
        region@ == context@.region,
        service@ == context@.service,
        *source == context@.source,
{
}

/// A header name has a letter, a digit or one of fifteen marks for each of its characters, and up
/// to 65,535 of them.
pub proof fn law_header_names(text: Seq<char>)
    ensures
        is_name(text) <==> 0 < text.len() <= 65_535 && (forall|i: int|
            0 <= i < text.len() ==> ({
                let c = #[trigger] text[i];
                ||| 'a' <= c <= 'z'
                ||| 'A' <= c <= 'Z'
                ||| '0' <= c <= '9'
                ||| c == '!' || c == '#' || c == '$' || c == '%' || c == '&' || c == '\'' || c == '*'
                ||| c == '+' || c == '-' || c == '.' || c == '^' || c == '_' || c == '`' || c == '|'
                ||| c == '~'
            })),
{
}

/// Copies are like what they were copied from.
pub proof fn law_copies_are_alike(
    config: AwsAuthConfig,
    config_copy: AwsAuthConfig,
    keys: AwsAccessKeys,
    keys_copy: AwsAccessKeys,
    credentials: Credentials,
    credentials_copy: Credentials,
    request: AwsRequestToSign,
    request_copy: AwsRequestToSign,
    signed: AwsSignedRequest,
    signed_copy: AwsSignedRequest,
)
    requires
        call_ensures(AwsAuthConfig::clone, (&config,), config_copy),
        call_ensures(AwsAccessKeys::clone, (&keys,), keys_copy),
        call_ensures(Credentials::clone, (&credentials,), credentials_copy),
        call_ensures(AwsRequestToSign::clone, (&request,), request_copy),
        call_ensures(AwsSignedRequest::clone, (&signed,), signed_copy),
    ensures
        config_copy == config,
        keys_copy == keys,
        credentials_copy == credentials,
        method_text(request_copy.method) == method_text(request.method),
        request_copy.url@ == request.url@,
        header_entries(request_copy.headers) == header_entries(request.headers),
        buffer_bytes(request_copy.body) == buffer_bytes(request.body),
        signed_copy.url@ == signed.url@,
        header_entries(signed_copy.headers) == header_entries(signed.headers),
{
}

/// A point in time is told by its distance from the epoch.
pub proof fn law_time_is_told_by_the_distance(time: SystemTime, nanos: i128)
    requires
        call_ensures(nanos_since_epoch, (time,), nanos),
    ensures
        nanos == unix_nanos(time),
{
}

} // verus!
