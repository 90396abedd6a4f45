//! A loaded AWS auth context, and the steps in which it signs requests.
//!
//! Nothing here waits for anything. Where a step needs credentials from a provider, it says so,
//! and the caller comes back with what the provider gave.
use crate::clock::is_reading;
use crate::clock::read_clock;
use crate::config::credentials_provider;
use crate::config::require_provider;
use crate::config::require_region;
use crate::config::resolved_region;
use crate::config::sdk_provider;
use crate::config::sdk_region;
use crate::config::text_of;
use crate::credentials::Credentials;
use crate::error::AwsAuthError;
use crate::message::header_entries;
use crate::signing::can_be_signed;
use crate::signing::has_safe_names;
use crate::signing::is_sign_outcome;
use crate::signing::is_suitable;
use crate::signing::sign_request;
use crate::text::law_trimming_is_idempotent;
use crate::text::quote;
use crate::text::quoted;
use crate::text::trimmed;
use crate::types::AwsAccessKeys;
use crate::types::AwsAuthConfig;
use crate::types::AwsRequestToSign;
use crate::types::AwsSignedRequest;
use aws_credential_types::provider::error::CredentialsError;
use aws_credential_types::provider::SharedCredentialsProvider;
use aws_types::SdkConfig;
use std::time::SystemTime;
use vstd::prelude::*;

verus! {

/// Where a context gets its credentials from.
pub enum CredentialsSource {
    /// A provider that has to be asked.
    Provider(SharedCredentialsProvider),
    /// Static access keys, which never expire.
    AccessKeys(AwsAccessKeys),
}

/// Loaded AWS auth context that can sign outbound HTTP requests.
pub struct AwsAuthContext {
    credentials_source: CredentialsSource,
    /// Cached credentials from the last successful call of the provider.
    /// This avoids re-invoking `credential_process` on every SigV4 signing
    /// operation within the same session.
    cached_credentials: Option<Credentials>,
    region: String,
    service: String,
}

/// What a context holds.
pub struct ContextView {
    pub source: CredentialsSource,
    pub cached: Option<Credentials>,
    pub region: Seq<char>,
    pub service: Seq<char>,
}

impl View for AwsAuthContext {
    type V = ContextView;

    closed spec fn view(&self) -> ContextView {
        ContextView {
            source: self.credentials_source,
            cached: self.cached_credentials,
            region: self.region@,
            service: self.service@,
        }
    }
}

/// The profile, and the region if there is one, that a provider has to be made for.
#[derive(Debug, PartialEq, Eq)]
pub struct ProfileRequest {
    pub profile: String,
    pub region: Option<String>,
}

/// How a context gets the credentials for a request.
pub enum CredentialsStep {
    /// It has them.
    Ready(Credentials),
    /// The provider has to be asked for them.
    Fetch,
}

/// A request that waits for credentials, and the time that it is signed for.
pub struct PendingSign {
    pub request: AwsRequestToSign,
    pub time: SystemTime,
}

/// How far the signing of a request got.
pub enum SignStep {
    /// The provider has to be asked for credentials first.
    FetchCredentials(PendingSign),
    /// The request is signed or refused.
    Done(Result<AwsSignedRequest, AwsAuthError>),
    /// The signer may panic on this request, so it was not asked.
    Unsignable,
}

impl ContextView {
    /// The credentials that can be used at `time` without asking a provider: the cached ones if
    /// they are still valid, and else those of static access keys.
    pub open spec fn usable_at(self, time: SystemTime) -> Option<Credentials> {
        match self.cached {
            Some(cached) if cached.valid_at(time) => Some(cached),
            _ => match self.source {
                CredentialsSource::AccessKeys(keys) => Some(Credentials::of_access_keys(keys)),
                CredentialsSource::Provider(_) => None,
            },
        }
    }

    /// The context with `credentials` in its cache.
    pub open spec fn with_cached(self, credentials: Credentials) -> ContextView {
        ContextView { cached: Some(credentials), ..self }
    }

    /// The context after it looked for credentials at `time`.
    pub open spec fn after_looking(self, time: SystemTime) -> ContextView {
        match self.usable_at(time) {
            Some(credentials) => self.with_cached(credentials),
            None => self,
        }
    }

    /// The context after the provider was asked.
    pub open spec fn after_fetch(self, fetched: Result<Credentials, CredentialsError>) -> ContextView {
        match fetched {
            Ok(fresh) => self.with_cached(fresh),
            Err(_) => self,
        }
    }

    /// `step` is how looking for credentials at `time` ends.
    pub open spec fn is_credentials_step(self, time: SystemTime, step: CredentialsStep) -> bool {
        match self.usable_at(time) {
            Some(credentials) => step matches CredentialsStep::Ready(ready) && ready == credentials,
            None => step is Fetch,
        }
    }

    /// `step` is how signing `request` for `time` with `credentials` ends. Of a request with very
    /// many names, the signer's table decides whether it can be signed.
    pub open spec fn is_signed_with(
        self,
        credentials: Credentials,
        request: AwsRequestToSign,
        time: SystemTime,
        step: SignStep,
    ) -> bool {
        let token = text_of(credentials.session_token);
        match step {
            SignStep::Done(outcome) => is_suitable(token, request, time) && is_sign_outcome(
                credentials,
                self.region,
                self.service,
                request,
                time,
                outcome,
            ),
            SignStep::Unsignable => !is_suitable(token, request, time) || !has_safe_names(
                header_entries(request.headers),
            ),
            SignStep::FetchCredentials(_) => false,
        }
    }

    /// `step` is how far signing `request` for `time` gets when it is `clock` o'clock.
    pub open spec fn is_sign_step(
        self,
        request: AwsRequestToSign,
        time: SystemTime,
        clock: SystemTime,
        step: SignStep,
    ) -> bool {
        match self.usable_at(clock) {
            Some(credentials) => self.is_signed_with(credentials, request, time, step),
            None => step matches SignStep::FetchCredentials(pending) && pending.request == request
                && pending.time == time,
        }
    }

    /// What the context shows of itself: its region and its service, and no credentials.
    pub open spec fn shown(self) -> Seq<char> {
        "AwsAuthContext { region: "@ + quoted(self.region) + ", service: "@ + quoted(self.service)
            + ", .. }"@
    }

    /// What the context shows of itself over several lines.
    pub open spec fn shown_in_lines(self) -> Seq<char> {
        "AwsAuthContext {\n    region: "@ + quoted(self.region) + ",\n    service: "@ + quoted(
            self.service,
        ) + ",\n    ..\n}"@
    }
}

/// The outcome of loading a context from the provider and the region that the SDK configuration
/// resolved. The context gets its credentials from `instead`, or from that provider if nothing
/// takes its place.
pub open spec fn is_load_outcome(
    config: AwsAuthConfig,
    provider: Option<SharedCredentialsProvider>,
    region: Option<Seq<char>>,
    instead: Option<CredentialsSource>,
    outcome: Result<AwsAuthContext, AwsAuthError>,
) -> bool {
    if config.has_blank_service() {
        outcome matches Err(error) && error is EmptyService
    } else {
        match (provider, region) {
            (None, _) => outcome matches Err(error) && error is MissingCredentialsProvider,
            (Some(_), None) => outcome matches Err(error) && error is MissingRegion,
            (Some(found), Some(name)) => outcome matches Ok(context) && context@ == (ContextView {
                source: match instead {
                    Some(source) => source,
                    None => CredentialsSource::Provider(found),
                },
                cached: None,
                region: name,
                service: trimmed(config.service@),
            }),
        }
    }
}

impl AwsAuthContext {
    /// The service name is not empty, and has no white space around it.
    #[verifier::type_invariant]
    spec fn service_is_trimmed(self) -> bool {
        self.service@.len() > 0 && trimmed(self.service@) == self.service@
    }

    /// Makes a context from what the SDK configuration resolved.
    pub fn from_resolved(
        config: AwsAuthConfig,
        provider: Option<SharedCredentialsProvider>,
        region: Option<String>,
    ) -> (outcome: Result<Self, AwsAuthError>)
        ensures
            is_load_outcome(
                config,
                provider,
                text_of(region),
                None,
                outcome,
            ),
    {
        let service = config.service.trim();
        if service.is_empty() {
            return Err(AwsAuthError::EmptyService);
        }
        let provider = match require_provider(provider) {
            Ok(provider) => provider,
            Err(error) => {
                return Err(error);
            },
        };
        let region = match require_region(region) {
            Ok(region) => region,
            Err(error) => {
                return Err(error);
            },
        };
        proof {
            law_trimming_is_idempotent(config.service@);
        }
        Ok(
            AwsAuthContext {
                credentials_source: CredentialsSource::Provider(provider),
                cached_credentials: None,
                region,
                service: service.to_owned(),
            },
        )
    }

    /// Loads a context that asks the credentials provider of the SDK configuration.
    pub fn load(config: AwsAuthConfig, sdk_config: &SdkConfig) -> (outcome: Result<
        Self,
        AwsAuthError,
    >)
        ensures
            is_load_outcome(
                config,
                sdk_provider(*sdk_config),
                sdk_region(*sdk_config),
                None,
                outcome,
            ),
    {
        if config.service.trim().is_empty() {
            return Err(AwsAuthError::EmptyService);
        }
        let provider = match credentials_provider(sdk_config) {
            Ok(provider) => provider,
            Err(error) => {
                return Err(error);
            },
        };
        let region = match resolved_region(sdk_config) {
            Ok(region) => region,
            Err(error) => {
                return Err(error);
            },
        };
        Self::from_resolved(config, Some(provider), Some(region))
    }

    /// Loads a context that uses static access keys in place of the credentials provider of the
    /// SDK configuration.
    pub fn load_with_access_keys(
        config: AwsAuthConfig,
        access_keys: AwsAccessKeys,
        sdk_config: &SdkConfig,
    ) -> (outcome: Result<Self, AwsAuthError>)
        ensures
            is_load_outcome(
                config,
                sdk_provider(*sdk_config),
                sdk_region(*sdk_config),
                Some(CredentialsSource::AccessKeys(access_keys)),
                outcome,
            ),
            outcome matches Ok(context) ==> context@.source == CredentialsSource::AccessKeys(
                access_keys,
            ),
    {
        match Self::load(config, sdk_config) {
            Ok(context) => {
                let mut context = context;
                proof {
                    use_type_invariant(&context);
                }
                context.credentials_source = CredentialsSource::AccessKeys(access_keys);
                Ok(context)
            },
            Err(error) => Err(error),
        }
    }

    /// Returns the profile that `load_profile` needs a provider for.
    pub fn profile_request(config: &AwsAuthConfig) -> (outcome: Result<
        ProfileRequest,
        AwsAuthError,
    >)
        ensures
            match config.profile {
                Some(profile) => outcome matches Ok(request) && request.profile == profile
                    && request.region == config.region,
                None => outcome matches Err(error) && error is MissingProfile,
            },
    {
        match &config.profile {
            Some(profile) => Ok(
                ProfileRequest { profile: profile.clone(), region: config.region.clone() },
            ),
            None => Err(AwsAuthError::MissingProfile),
        }
    }

    /// Loads a context that asks the provider of the configured profile in place of the
    /// credentials provider of the SDK configuration.
    pub fn load_profile(
        config: AwsAuthConfig,
        profile_provider: SharedCredentialsProvider,
        sdk_config: &SdkConfig,
    ) -> (outcome: Result<Self, AwsAuthError>)
        ensures
            if config.profile is None {
                outcome matches Err(error) && error is MissingProfile
            } else {
                is_load_outcome(
                    config,
                    sdk_provider(*sdk_config),
                    sdk_region(*sdk_config),
                    Some(CredentialsSource::Provider(profile_provider)),
                    outcome,
                )
            },
            outcome matches Ok(context) ==> context@.source == CredentialsSource::Provider(
                profile_provider,
            ),
    {
        if config.profile.is_none() {
            return Err(AwsAuthError::MissingProfile);
        }
        match Self::load(config, sdk_config) {
            Ok(context) => {
                let mut context = context;
                proof {
                    use_type_invariant(&context);
                }
                context.credentials_source = CredentialsSource::Provider(profile_provider);
                Ok(context)
            },
            Err(error) => Err(error),
        }
    }

    /// Returns the region that requests are signed for.
    pub fn region(&self) -> (region: &str)
        ensures
            region@ == self@.region,
    {
        self.region.as_str()
    }

    /// Returns the service that requests are signed for. It is never blank.
    pub fn service(&self) -> (service: &str)
        ensures
            service@ == self@.service,
            service@.len() > 0,
            trimmed(service@) == service@,
    {
        proof {
            use_type_invariant(self);
        }
        self.service.as_str()
    }

    /// Returns where the context gets its credentials from.
    pub fn credentials_source(&self) -> (source: &CredentialsSource)
        ensures
            *source == self@.source,
    {
        &self.credentials_source
    }

    /// Returns a description that can be logged: it shows no credentials.
    pub fn debug_text(&self) -> (text: String)
        ensures
            text@ == self@.shown(),
    {
        let text = "AwsAuthContext { region: ".to_owned();
        let text = text.concat(quote(self.region.as_str()).as_str());
        let text = text.concat(", service: ");
        let text = text.concat(quote(self.service.as_str()).as_str());
        text.concat(", .. }")
    }

    /// Returns a description over several lines that can be logged: it shows no credentials.
    pub fn pretty_debug_text(&self) -> (text: String)
        ensures
            text@ == self@.shown_in_lines(),
    {
        let text = "AwsAuthContext {\n    region: ".to_owned();
        let text = text.concat(quote(self.region.as_str()).as_str());
        let text = text.concat(",\n    service: ");
        let text = text.concat(quote(self.service.as_str()).as_str());
        text.concat(",\n    ..\n}")
    }

    /// Looks for credentials that are valid at `time`.
    pub fn credentials_at(&mut self, time: SystemTime) -> (step: CredentialsStep)
        ensures
            old(self)@.is_credentials_step(time, step),
            final(self)@ == old(self)@.after_looking(time),
    {
        proof {
            use_type_invariant(&*self);
        }
        match &self.cached_credentials {
            Some(cached) => {
                if cached.is_valid_at(time) {
                    return CredentialsStep::Ready(cached.clone());
                }
            },
            None => {},
        }
        match &self.credentials_source {
            CredentialsSource::AccessKeys(keys) => {
                let fresh = Credentials::from_access_keys(keys.clone());
                self.cached_credentials = Some(fresh.clone());
                CredentialsStep::Ready(fresh)
            },
            CredentialsSource::Provider(_) => CredentialsStep::Fetch,
        }
    }

    /// Returns cached credentials if they are still valid (more than 5 minutes
    /// until expiry), otherwise asks for fresh ones from the provider.
    pub fn get_or_refresh_credentials(&mut self) -> (step: CredentialsStep)
        ensures
            exists|clock: SystemTime|
                #![trigger old(self)@.after_looking(clock)]
                is_reading(clock) && old(self)@.is_credentials_step(clock, step) && final(self)@
                    == old(self)@.after_looking(clock),
    {
        self.credentials_at(read_clock())
    }

    /// Takes what the provider gave: fresh credentials are cached and returned, whatever their
    /// expiry, and a failure leaves the cache as it was.
    pub fn refresh(&mut self, fetched: Result<Credentials, CredentialsError>) -> (outcome: Result<
        Credentials,
        AwsAuthError,
    >)
        ensures
            final(self)@ == old(self)@.after_fetch(fetched),
            match fetched {
                Ok(fresh) => outcome matches Ok(credentials) && credentials == fresh,
                Err(error) => outcome matches Err(AwsAuthError::Credentials(cause)) && cause
                    == error,
            },
    {
        proof {
            use_type_invariant(&*self);
        }
        match fetched {
            Ok(fresh) => {
                self.cached_credentials = Some(fresh.clone());
                Ok(fresh)
            },
            Err(error) => Err(AwsAuthError::from(error)),
        }
    }

    /// Signs a request with credentials at hand.
    pub fn sign_with(
        &self,
        credentials: &Credentials,
        request: AwsRequestToSign,
        time: SystemTime,
    ) -> (step: SignStep)
        ensures
            self@.is_signed_with(*credentials, request, time, step),
    {
        if can_be_signed(credentials, &request, time) {
            SignStep::Done(
                sign_request(
                    credentials,
                    self.region.as_str(),
                    self.service.as_str(),
                    request,
                    time,
                ),
            )
        } else {
            SignStep::Unsignable
        }
    }

    /// Starts to sign a request for `time`, when it is `clock` o'clock.
    pub fn sign_at_clock(
        &mut self,
        request: AwsRequestToSign,
        time: SystemTime,
        clock: SystemTime,
    ) -> (step: SignStep)
        ensures
            old(self)@.is_sign_step(request, time, clock, step),
            final(self)@ == old(self)@.after_looking(clock),
    {
        match self.credentials_at(clock) {
            CredentialsStep::Ready(credentials) => self.sign_with(&credentials, request, time),
            CredentialsStep::Fetch => SignStep::FetchCredentials(PendingSign { request, time }),
        }
    }

    /// Starts to sign a request for `time`.
    pub fn sign_at(&mut self, request: AwsRequestToSign, time: SystemTime) -> (step: SignStep)
        ensures
            exists|clock: SystemTime|
                #![trigger old(self)@.after_looking(clock)]
                is_reading(clock) && old(self)@.is_sign_step(request, time, clock, step)
                    && final(self)@ == old(self)@.after_looking(clock),
    {
        self.sign_at_clock(request, time, read_clock())
    }

    /// Starts to sign a request for the current time.
    pub fn sign(&mut self, request: AwsRequestToSign) -> (step: SignStep)
        ensures
            exists|time: SystemTime, clock: SystemTime|
                #![trigger old(self)@.is_sign_step(request, time, clock, step)]
                is_reading(time) && is_reading(clock) && old(self)@.is_sign_step(
                    request,
                    time,
                    clock,
                    step,
                ) && final(self)@ == old(self)@.after_looking(clock),
    {
        let time = read_clock();
        self.sign_at(request, time)
    }

    /// Goes on with a request once the provider was asked: the fresh credentials are cached and
    /// sign the request, and a failure of the provider is the error of the request.
    pub fn resume(
        &mut self,
        pending: PendingSign,
        fetched: Result<Credentials, CredentialsError>,
    ) -> (step: SignStep)
        ensures
            final(self)@ == old(self)@.after_fetch(fetched),
            match fetched {
                Ok(fresh) => old(self)@.is_signed_with(fresh, pending.request, pending.time, step),
                Err(error) => step matches SignStep::Done(Err(AwsAuthError::Credentials(cause)))
                    && cause == error,
            },
    {
        match self.refresh(fetched) {
            Ok(credentials) => self.sign_with(&credentials, pending.request, pending.time),
            Err(error) => SignStep::Done(Err(error)),
        }
    }
}

} // verus!
