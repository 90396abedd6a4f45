//! SDK configurations: which one a caller needs, and the ones that were loaded before.
use crate::error::AwsAuthError;
use crate::text::is_white_space;
use crate::text::law_trimmed_has_no_outer_white_space;
use crate::text::trimmed;
use crate::types::AwsAuthConfig;
use aws_credential_types::provider::SharedCredentialsProvider;
use aws_types::SdkConfig;
use std::sync::Arc;
use vstd::prelude::*;

verus! {

/// What an SDK configuration is loaded for and found again by: a profile name and a region.
pub type Key = (Option<Seq<char>>, Option<Seq<char>>);

/// The text of an optional name.
pub open spec fn text_of(name: Option<String>) -> Option<Seq<char>> {
    match name {
        Some(text) => Some(text@),
        None => None,
    }
}

impl AwsAuthConfig {
    /// The SDK configuration that this configuration needs. Different services that use the same
    /// profile and region share one: the service only matters for signing.
    pub open spec fn key(self) -> Key {
        (text_of(self.profile), text_of(self.region))
    }

    /// The service name is empty or nothing but white space.
    pub open spec fn has_blank_service(self) -> bool {
        trimmed(self.service@).len() == 0
    }

    /// The SDK configuration that this configuration needs is not among the ones in `cache`.
    pub open spec fn must_load(self, cache: Map<Key, Arc<SdkConfig>>) -> bool {
        !self.has_blank_service() && !cache.contains_key(self.key())
    }
}

/// An order to load an SDK configuration: with this profile name if there is one, and with this
/// region if there is one.
#[derive(Debug, PartialEq, Eq)]
pub struct SdkConfigRequest {
    pub profile: Option<String>,
    pub region: Option<String>,
}

impl View for SdkConfigRequest {
    type V = Key;

    open spec fn view(&self) -> Key {
        (text_of(self.profile), text_of(self.region))
    }
}

/// How a caller gets its SDK configuration.
pub enum SdkConfigStep<'a> {
    /// It was loaded before.
    Cached(&'a Arc<SdkConfig>),
    /// It has to be loaded, and then to be stored in the cache.
    Load(SdkConfigRequest),
}

/// A loaded SDK configuration and what it was loaded for.
struct CacheEntry {
    request: SdkConfigRequest,
    sdk_config: Arc<SdkConfig>,
}

/// The SDK configurations that were loaded so far. This avoids invoking
/// `credential_process` (and the full provider chain walk) multiple times for
/// the same profile and region.
pub struct SdkConfigCache {
    entries: Vec<CacheEntry>,
}

impl SdkConfigCache {
    /// No two entries are for the same profile and region.
    #[verifier::type_invariant]
    spec fn keys_differ(self) -> bool {
        forall|i: int, j: int|
            0 <= i < j < self.entries@.len() ==> (#[trigger] self.entries@[i]).request@ != (
            #[trigger] self.entries@[j]).request@
    }

    /// The entry for `key` is at position `i`.
    spec fn is_at(self, key: Key, i: int) -> bool {
        0 <= i < self.entries@.len() && self.entries@[i].request@ == key
    }
}

impl View for SdkConfigCache {
    type V = Map<Key, Arc<SdkConfig>>;

    closed spec fn view(&self) -> Map<Key, Arc<SdkConfig>> {
        Map::new(
            |key: Key| exists|i: int| self.is_at(key, i),
            |key: Key| self.entries@[choose|i: int| self.is_at(key, i)].sdk_config,
        )
    }
}

/// Compares two optional names.
fn same_name(one: &Option<String>, other: &Option<String>) -> (same: bool)
    ensures
        same == (text_of(*one) == text_of(*other)),
{
    match (one, other) {
        (Some(one), Some(other)) => *one == *other,
        (None, None) => true,
        _ => false,
    }
}

impl SdkConfigCache {
    /// Makes a cache that holds nothing.
    pub fn new() -> (cache: Self)
        ensures
            cache@ == Map::<Key, Arc<SdkConfig>>::empty(),
    {
        let cache = SdkConfigCache { entries: Vec::new() };
        assert(cache@ =~= Map::<Key, Arc<SdkConfig>>::empty());
        cache
    }

    /// The entry for a key is the only one, so it is what the cache holds for the key.
    proof fn lemma_at(self, key: Key, i: int)
        requires
            self.keys_differ(),
            self.is_at(key, i),
        ensures
            self@.contains_key(key),
            self@[key] == self.entries@[i].sdk_config,
    {
        let j = choose|j: int| self.is_at(key, j);
        assert(self.is_at(key, j));
        assert(i == j);
    }

    /// A cache that differs from another one only in the entry for `key`, or that has it in
    /// addition, holds what the other one holds, and the configuration of the entry for `key`.
    proof fn lemma_stored(self, before: Self, key: Key, place: int)
        requires
            self.keys_differ(),
            before.keys_differ(),
            self.is_at(key, place),
            if before.is_at(key, place) {
                self.entries@ == before.entries@.update(place, self.entries@[place])
            } else {
                &&& place == before.entries@.len()
                &&& forall|i: int| !before.is_at(key, i)
                &&& self.entries@ == before.entries@.push(self.entries@[place])
            },
        ensures
            self@ == before@.insert(key, self.entries@[place].sdk_config),
    {
        assert forall|other: Key|
            #![trigger self@.contains_key(other)]
            self@.contains_key(other) == before@.insert(
                key,
                self.entries@[place].sdk_config,
            ).contains_key(other) && (self@.contains_key(other) ==> self@[other] == before@.insert(
                key,
                self.entries@[place].sdk_config,
            )[other]) by {
            if other == key {
                self.lemma_at(key, place);
            } else {
                if self@.contains_key(other) {
                    let i = choose|i: int| self.is_at(other, i);
                    assert(before.is_at(other, i));
                    self.lemma_at(other, i);
                    before.lemma_at(other, i);
                }
                if before@.contains_key(other) {
                    let i = choose|i: int| before.is_at(other, i);
                    assert(self.is_at(other, i));
                }
            }
        }
        assert(self@ =~= before@.insert(key, self.entries@[place].sdk_config));
    }

    /// Finds the position of the entry for a profile and region.
    fn position(&self, profile: &Option<String>, region: &Option<String>) -> (found: Option<usize>)
        ensures
            match found {
                Some(i) => self.is_at((text_of(*profile), text_of(*region)), i as int),
                None => forall|i: int| !self.is_at((text_of(*profile), text_of(*region)), i),
            },
    {
        let ghost key = (text_of(*profile), text_of(*region));
        let mut i: usize = 0;
        while i < self.entries.len()
            invariant
                i <= self.entries@.len(),
                key == (text_of(*profile), text_of(*region)),
                forall|j: int| 0 <= j < i ==> !self.is_at(key, j),
            decreases self.entries@.len() - i,
        {
            let request = &self.entries[i].request;
            if same_name(&request.profile, profile) && same_name(&request.region, region) {
                assert(self.is_at(key, i as int));
                return Some(i);
            }
            i += 1;
        }
        None
    }

    /// Returns the configuration that was stored for a profile and region.
    pub fn get(&self, profile: &Option<String>, region: &Option<String>) -> (found: Option<
        &Arc<SdkConfig>,
    >)
        ensures
            match found {
                Some(sdk_config) => self@.contains_key((text_of(*profile), text_of(*region)))
                    && self@[(text_of(*profile), text_of(*region))] == *sdk_config,
                None => !self@.contains_key((text_of(*profile), text_of(*region))),
            },
    {
        proof {
            use_type_invariant(self);
        }
        let ghost key = (text_of(*profile), text_of(*region));
        match self.position(profile, region) {
            Some(i) => {
                proof {
                    self.lemma_at(key, i as int);
                }
                Some(&self.entries[i].sdk_config)
            },
            None => None,
        }
    }

    /// Keeps a loaded configuration for later callers, in place of one that was kept before.
    pub fn store(&mut self, request: SdkConfigRequest, sdk_config: Arc<SdkConfig>)
        ensures
            final(self)@ == old(self)@.insert(request@, sdk_config),
    {
        proof {
            use_type_invariant(&*self);
        }
        let ghost before = *self;
        let ghost key = request@;
        let found = self.position(&request.profile, &request.region);
        let mut entries: Vec<CacheEntry> = Vec::new();
        std::mem::swap(&mut entries, &mut self.entries);
        let entry = CacheEntry { request, sdk_config };
        let ghost place = match found {
            Some(i) => i as int,
            None => before.entries@.len() as int,
        };
        match found {
            Some(i) => {
                entries.set(i, entry);
            },
            None => {
                assert forall|i: int| 0 <= i < before.entries@.len() implies (
                #[trigger] before.entries@[i]).request@ != key by {
                    assert(!before.is_at(key, i));
                }
                entries.push(entry);
            },
        }
        self.entries = entries;
        proof {
            self.lemma_stored(before, key, place);
        }
    }
}

/// The credentials provider that an SDK configuration resolved.
pub uninterp spec fn sdk_provider(sdk_config: SdkConfig) -> Option<SharedCredentialsProvider>;

/// The region that an SDK configuration resolved.
pub uninterp spec fn sdk_region(sdk_config: SdkConfig) -> Option<Seq<char>>;

/// Calls `SdkConfig::credentials_provider`.
///
/// Trusted: the provider is a function of the configuration alone.
#[verifier::external_body]
fn read_provider(sdk_config: &SdkConfig) -> (provider: Option<SharedCredentialsProvider>)
    ensures
        provider == sdk_provider(*sdk_config),
{
    sdk_config.credentials_provider()
}

/// Calls `SdkConfig::region`, and hands out the region as text.
///
/// Trusted: the text is a function of the configuration alone.
#[verifier::external_body]
fn read_region(sdk_config: &SdkConfig) -> (region: Option<String>)
    ensures
        text_of(region) == sdk_region(*sdk_config),
{
    sdk_config.region().map(ToString::to_string)
}

/// Decides how the caller gets the SDK configuration that `config` needs: a blank service name is
/// refused, a configuration that was loaded before is used again, and any other one has to be
/// loaded.
pub fn load_sdk_config<'a>(cache: &'a SdkConfigCache, config: &AwsAuthConfig) -> (step: Result<
    SdkConfigStep<'a>,
    AwsAuthError,
>)
    ensures
        match step {
            Err(error) => config.has_blank_service() && error is EmptyService,
            Ok(SdkConfigStep::Cached(sdk_config)) => !config.has_blank_service()
                && cache@.contains_key(config.key()) && cache@[config.key()] == *sdk_config,
            Ok(SdkConfigStep::Load(request)) => config.must_load(cache@) && request@
                == config.key(),
        },
        step matches Ok(SdkConfigStep::Load(request)) ==> request.profile == config.profile
            && request.region == config.region,
{
    if config.service.trim().is_empty() {
        return Err(AwsAuthError::EmptyService);
    }
    match cache.get(&config.profile, &config.region) {
        Some(sdk_config) => Ok(SdkConfigStep::Cached(sdk_config)),
        None => Ok(
            SdkConfigStep::Load(
                SdkConfigRequest { profile: config.profile.clone(), region: config.region.clone() },
            ),
        ),
    }
}

/// Insists on a credentials provider.
pub fn require_provider(provider: Option<SharedCredentialsProvider>) -> (outcome: Result<
    SharedCredentialsProvider,
    AwsAuthError,
>)
    ensures
        match outcome {
            Ok(found) => provider == Some(found),
            Err(error) => provider is None && error is MissingCredentialsProvider,
        },
{
    provider.ok_or(AwsAuthError::MissingCredentialsProvider)
}

/// Insists on a region.
pub fn require_region(region: Option<String>) -> (outcome: Result<String, AwsAuthError>)
    ensures
        match outcome {
            Ok(found) => region == Some(found),
            Err(error) => region is None && error is MissingRegion,
        },
{
    region.ok_or(AwsAuthError::MissingRegion)
}

/// Returns the credentials provider that the SDK configuration resolved.
pub fn credentials_provider(sdk_config: &SdkConfig) -> (outcome: Result<
    SharedCredentialsProvider,
    AwsAuthError,
>)
    ensures
        match outcome {
            Ok(found) => sdk_provider(*sdk_config) == Some(found),
            Err(error) => sdk_provider(*sdk_config) is None && error is MissingCredentialsProvider,
        },
{
    require_provider(read_provider(sdk_config))
}

/// Returns the region that the SDK configuration resolved.
pub fn resolved_region(sdk_config: &SdkConfig) -> (outcome: Result<String, AwsAuthError>)
    ensures
        match outcome {
            Ok(found) => sdk_region(*sdk_config) == Some(found@),
            Err(error) => sdk_region(*sdk_config) is None && error is MissingRegion,
        },
{
    require_region(read_region(sdk_config))
}

/// Configurations that differ in nothing but the service share an SDK configuration.
pub proof fn law_services_share_sdk_configs(one: AwsAuthConfig, other: AwsAuthConfig)
    requires
        text_of(one.profile) == text_of(other.profile),
        text_of(one.region) == text_of(other.region),
    ensures
        one.key() == other.key(),
{
}

/// Two configurations need the same SDK configuration only if neither their profiles nor their
/// regions differ: no profile is not the same as any profile, and no region not the same as any
/// region.
pub proof fn law_keys_tell_profiles_and_regions_apart(one: AwsAuthConfig, other: AwsAuthConfig)
    ensures
        one.key() == other.key() <==> {
            &&& one.profile is Some <==> other.profile is Some
            &&& one.profile is Some ==> one.profile->0@ == other.profile->0@
            &&& one.region is Some <==> other.region is Some
            &&& one.region is Some ==> one.region->0@ == other.region->0@
        },
{
}

/// An order to load that is for the key of a configuration names its profile and its region.
pub proof fn law_orders_name_profile_and_region(request: SdkConfigRequest, config: AwsAuthConfig)
    ensures
        request@ == config.key() <==> {
            &&& request.profile is Some <==> config.profile is Some
            &&& request.profile is Some ==> request.profile->0@ == config.profile->0@
            &&& request.region is Some <==> config.region is Some
            &&& request.region is Some ==> request.region->0@ == config.region->0@
        },
{
}

/// A service name is blank exactly if it holds nothing but white space.
pub proof fn law_blank_services_are_white_space(config: AwsAuthConfig)
    ensures
        config.has_blank_service() <==> (forall|i: int|
            0 <= i < config.service@.len() ==> is_white_space(#[trigger] config.service@[i])),
{
    law_trimmed_has_no_outer_white_space(config.service@);
}

/// What was stored is found again by every configuration that needs it, and what other
/// configurations find stays as it was.
pub proof fn law_stored_config_is_found_again(
    before: SdkConfigCache,
    after: SdkConfigCache,
    request: SdkConfigRequest,
    sdk_config: Arc<SdkConfig>,
    config: AwsAuthConfig,
)
    requires
        after@ == before@.insert(request@, sdk_config),
    ensures
        config.key() == request@ ==> after@.contains_key(config.key()) && after@[config.key()]
            == sdk_config,
        config.key() != request@ ==> (after@.contains_key(config.key()) <==> before@.contains_key(
            config.key(),
        )) && after@[config.key()] == before@[config.key()],
{
}

/// How often the SDK configuration for `key` is loaded when callers ask for one configuration
/// after the other. `asked` gives the configuration of each caller and the SDK configuration that
/// loading would give it: a caller that has to load stores what it got.
pub open spec fn loads(
    cache: Map<Key, Arc<SdkConfig>>,
    asked: Seq<(AwsAuthConfig, Arc<SdkConfig>)>,
    key: Key,
) -> nat
    decreases asked.len(),
{
    if asked.len() == 0 {
        0
    } else {
        let (config, loaded) = asked.first();
        if config.must_load(cache) {
            let here: nat = if config.key() == key {
                1
            } else {
                0
            };
            here + loads(cache.insert(config.key(), loaded), asked.drop_first(), key)
        } else {
            loads(cache, asked.drop_first(), key)
        }
    }
}

/// No SDK configuration is loaded twice, and none is loaded that the cache already holds.
pub proof fn law_sdk_configs_are_loaded_once(
    cache: Map<Key, Arc<SdkConfig>>,
    asked: Seq<(AwsAuthConfig, Arc<SdkConfig>)>,
    key: Key,
)
    ensures
        loads(cache, asked, key) <= 1,
        cache.contains_key(key) ==> loads(cache, asked, key) == 0,
    decreases asked.len(),
{
    if asked.len() > 0 {
        let (config, loaded) = asked.first();
        law_sdk_configs_are_loaded_once(cache, asked.drop_first(), key);
        law_sdk_configs_are_loaded_once(
            cache.insert(config.key(), loaded),
            asked.drop_first(),
            key,
        );
    }
}

} // verus!
