//! Credentials, and how long they may be used.
use crate::clock::is_reading;
use crate::clock::nanos_since_epoch;
use crate::clock::read_clock;
use crate::clock::unix_nanos;
use crate::types::AwsAccessKeys;
use std::time::SystemTime;
use vstd::prelude::*;

verus! {

/// Credentials are no longer used once this little time, five minutes, is left until they expire.
pub const EXPIRY_MARGIN_NANOS: i128 = 300_000_000_000;

/// Who static access keys are said to come from.
pub const ACCESS_KEYS_PROVIDER: &'static str = "codex-managed-bedrock-access-keys";

/// AWS credentials, as a provider gave them or as a caller supplied them.
#[derive(PartialEq, Eq)]
pub struct Credentials {
    pub access_key_id: String,
    pub secret_access_key: String,
    pub session_token: Option<String>,
    /// When the credentials expire. Static credentials never do.
    pub expires_after: Option<SystemTime>,
    /// Who gave the credentials. The signer is told, but no signature depends on it.
    pub provider_name: &'static str,
}

impl Clone for Credentials {
    fn clone(&self) -> (copy: Self)
        ensures
            copy == *self,
    {
        Credentials {
            access_key_id: self.access_key_id.clone(),
            secret_access_key: self.secret_access_key.clone(),
            session_token: self.session_token.clone(),
            expires_after: self.expires_after,
            provider_name: self.provider_name,
        }
    }
}

impl Credentials {
    /// The credentials may still be used at `time`: they never expire, or more than five minutes
    /// are left until they do.
    pub open spec fn valid_at(self, time: SystemTime) -> bool {
        match self.expires_after {
            Some(expiry) => unix_nanos(expiry) - unix_nanos(time) > EXPIRY_MARGIN_NANOS,
            None => true,
        }
    }

    /// The credentials that static access keys stand for: they never expire.
    pub open spec fn of_access_keys(keys: AwsAccessKeys) -> Credentials {
        Credentials {
            access_key_id: keys.access_key_id,
            secret_access_key: keys.secret_access_key,
            session_token: keys.session_token,
            expires_after: None,
            provider_name: ACCESS_KEYS_PROVIDER,
        }
    }

    /// Returns whether the credentials may still be used at `time`.
    pub fn is_valid_at(&self, time: SystemTime) -> (valid: bool)
        ensures
            valid == self.valid_at(time),
    {
        match self.expires_after {
            Some(expiry) => {
                nanos_since_epoch(expiry) - nanos_since_epoch(time) > EXPIRY_MARGIN_NANOS
            },
            // No expiry: static credentials, always valid.
            None => true,
        }
    }

    /// Turns static access keys into credentials that never expire.
    pub fn from_access_keys(keys: AwsAccessKeys) -> (credentials: Credentials)
        ensures
            credentials == Credentials::of_access_keys(keys),
    {
        Credentials {
            access_key_id: keys.access_key_id,
            secret_access_key: keys.secret_access_key,
            session_token: keys.session_token,
            expires_after: None,
            provider_name: ACCESS_KEYS_PROVIDER,
        }
    }
}

/// Returns `true` if the credentials are still usable now (more than 5 minutes
/// until expiry, or no expiry at all for static credentials).
pub fn credentials_still_valid(credentials: &Credentials) -> (valid: bool)
    ensures
        exists|time: SystemTime|
            is_reading(time) && valid == #[trigger] credentials.valid_at(time),
        credentials.expires_after is None ==> valid,
{
    credentials.is_valid_at(read_clock())
}

impl AwsAccessKeys {
    /// What the keys show of themselves: whether there is a session token, and nothing else.
    pub open spec fn shown(self) -> Seq<char> {
        if self.session_token is Some {
            "AwsAccessKeys { access_key_id: \"<redacted>\", secret_access_key: \"<redacted>\", session_token: Some(\"<redacted>\") }"@
        } else {
            "AwsAccessKeys { access_key_id: \"<redacted>\", secret_access_key: \"<redacted>\", session_token: None }"@
        }
    }

    /// What the keys show of themselves over several lines.
    pub open spec fn shown_in_lines(self) -> Seq<char> {
        if self.session_token is Some {
            "AwsAccessKeys {\n    access_key_id: \"<redacted>\",\n    secret_access_key: \"<redacted>\",\n    session_token: Some(\n        \"<redacted>\",\n    ),\n}"@
        } else {
            "AwsAccessKeys {\n    access_key_id: \"<redacted>\",\n    secret_access_key: \"<redacted>\",\n    session_token: None,\n}"@
        }
    }

    /// Returns a description over several lines that can be logged: every secret is redacted.
    pub fn pretty_debug_text(&self) -> (text: String)
        ensures
            text@ == self.shown_in_lines(),
    {
        if self.session_token.is_some() {
            "AwsAccessKeys {\n    access_key_id: \"<redacted>\",\n    secret_access_key: \"<redacted>\",\n    session_token: Some(\n        \"<redacted>\",\n    ),\n}".to_owned()
        } else {
            "AwsAccessKeys {\n    access_key_id: \"<redacted>\",\n    secret_access_key: \"<redacted>\",\n    session_token: None,\n}".to_owned()
        }
    }

    /// Returns a description that can be logged: every secret is redacted.
    pub fn debug_text(&self) -> (text: String)
        ensures
            text@ == self.shown(),
    {
        if self.session_token.is_some() {
            "AwsAccessKeys { access_key_id: \"<redacted>\", secret_access_key: \"<redacted>\", session_token: Some(\"<redacted>\") }".to_owned()
        } else {
            "AwsAccessKeys { access_key_id: \"<redacted>\", secret_access_key: \"<redacted>\", session_token: None }".to_owned()
        }
    }
}

/// Credentials that may be used at some time could be used at any earlier time, and credentials
/// without an expiry may be used at any time.
pub proof fn law_validity_only_runs_out(
    credentials: Credentials,
    earlier: SystemTime,
    later: SystemTime,
)
    requires
        unix_nanos(earlier) <= unix_nanos(later),
    ensures
        credentials.valid_at(later) ==> credentials.valid_at(earlier),
        credentials.expires_after is None ==> credentials.valid_at(later),
{
}

/// Credentials that expire may be used exactly as long as more than five minutes are left, and
/// credentials that do not may always be used: whose credentials they are and what else they hold
/// makes no difference.
pub proof fn law_validity_depends_on_the_expiry_alone(credentials: Credentials, time: SystemTime)
    ensures
        credentials.expires_after matches Some(expiry) ==> (credentials.valid_at(time)
            <==> unix_nanos(expiry) - unix_nanos(time) > 300_000_000_000),
        credentials.expires_after is None ==> credentials.valid_at(time),
{
}

/// The credentials of static access keys are those keys, and never expire.
pub proof fn law_access_keys_are_kept(keys: AwsAccessKeys)
    ensures
        Credentials::of_access_keys(keys).access_key_id == keys.access_key_id,
        Credentials::of_access_keys(keys).secret_access_key == keys.secret_access_key,
        Credentials::of_access_keys(keys).session_token == keys.session_token,
        Credentials::of_access_keys(keys).expires_after is None,
        Credentials::of_access_keys(keys).provider_name == "codex-managed-bedrock-access-keys",
{
}

/// Credentials are given up before they expire: none is used at or after its expiry, nor in the
/// five minutes before.
pub proof fn law_no_use_close_to_expiry(credentials: Credentials, expiry: SystemTime, time: SystemTime)
    requires
        credentials.expires_after == Some(expiry),
        unix_nanos(time) >= unix_nanos(expiry) - EXPIRY_MARGIN_NANOS,
    ensures
        !credentials.valid_at(time),
{
}

/// The descriptions of access keys tell two sets of keys apart only by whether they have a
/// session token: they depend on no secret.
pub proof fn law_shown_keys_hold_no_secret(one: AwsAccessKeys, other: AwsAccessKeys)
    requires
        one.session_token is Some <==> other.session_token is Some,
    ensures
        one.shown() == other.shown(),
        one.shown_in_lines() == other.shown_in_lines(),
{
}

} // verus!
