//! AWS request authentication: which SDK configuration a caller needs, which credentials it may
//! still use, and how a request is signed with them.
//!
//! The library decides and computes. It waits for nothing: where an SDK configuration has to be
//! loaded or a credentials provider has to be asked, a step says so, and its caller comes back
//! with the result.

pub mod clock;
pub mod config;
pub mod context;
pub mod credentials;
pub mod error;
pub mod laws;
pub mod message;
pub mod outside;
pub mod promises;
pub mod query;
pub mod signing;
pub mod text;
pub mod types;

pub use config::load_sdk_config;
pub use config::SdkConfigCache;
pub use config::SdkConfigRequest;
pub use config::SdkConfigStep;
pub use context::AwsAuthContext;
pub use context::CredentialsSource;
pub use context::CredentialsStep;
pub use context::PendingSign;
pub use context::ProfileRequest;
pub use context::SignStep;
pub use credentials::credentials_still_valid;
pub use credentials::Credentials;
pub use error::AwsAuthError;
pub use error::CredentialsErrorKind;
pub use types::AwsAccessKeys;
pub use types::AwsAuthConfig;
pub use types::AwsRequestToSign;
pub use types::AwsSignedRequest;
