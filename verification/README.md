# aws-auth

AWS request authentication. The crate decides which SDK configuration a caller needs, which
credentials a context may still use, and signs requests with SigV4. Every function of the library
has a contract that Verus proves, apart from the short wrappers around other crates: their doc
comments say what is trusted of the call.

| Path | What it holds |
| --- | --- |
| `src/types.rs`, `src/error.rs` | the values that callers hand over and get back, and the errors |
| `src/config.rs` | the cache of SDK configurations |
| `src/credentials.rs` | credentials, and how long they may be used |
| `src/context.rs` | the context, and the steps in which it signs a request |
| `src/signing.rs`, `src/message.rs` | the signing of one request, and the HTTP parts it reads and writes |
| `src/query.rs` | how long a query gets when the signer encodes it anew |
| `src/text.rs`, `src/clock.rs` | trimming and quoting of text, points in time |
| `src/laws.rs` | what holds of the library as a whole |
| `src/outside.rs` | the types of other crates that the proofs treat as opaque |
| `app/` | the asynchronous shell: it loads SDK configurations and asks credentials providers |

The library never waits. `load_sdk_config` and `AwsAuthContext::sign` return a step: either the
result, or what has to be fetched first. The shell fetches it and comes back with the answer, to
`SdkConfigCache::store` and to `AwsAuthContext::resume`.
