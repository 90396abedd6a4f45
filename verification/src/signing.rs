//! SigV4 signing of one request.
use crate::clock::nanos_since_epoch;
use crate::clock::unix_nanos;
use crate::config::text_of;
use crate::credentials::Credentials;
use crate::error::AwsAuthError;
use crate::message::append_name;
use crate::message::ascii_text;
use crate::message::buffer_bytes;
use crate::message::buffer_slice;
use crate::message::header_entries;
use crate::message::header_items;
use crate::message::insert_header;
use crate::message::is_filled_with;
use crate::message::is_lower_name;
use crate::message::is_name;
use crate::message::is_value_text;
use crate::message::is_visible;
use crate::message::lemma_count_of_first;
use crate::message::lemma_count_of_next;
use crate::message::lemma_with_header_count;
use crate::message::method_str;
use crate::message::method_text;
use crate::message::name_count;
use crate::message::names_of;
use crate::message::new_table;
use crate::message::parse_uri;
use crate::message::text_is_name;
use crate::message::text_is_value;
use crate::message::uri_parts;
use crate::message::value_bytes;
use crate::message::value_text;
use crate::message::with_header;
use crate::message::Entry;
use crate::message::Parts;
use crate::message::TextHeader;
use crate::message::UriParts;
use crate::message::MAX_TABLE_SIZE;
use crate::message::SAFE_NAME_COUNT;
use crate::query::measure_query;
use crate::query::query_len;
use crate::types::AwsRequestToSign;
use crate::types::AwsSignedRequest;
use aws_credential_types::Credentials as SdkCredentials;
use aws_sigv4::http_request::sign;
use aws_sigv4::http_request::SignableBody;
use aws_sigv4::http_request::SignableRequest;
use aws_sigv4::http_request::SigningError;
use aws_sigv4::http_request::SigningInstructions;
use aws_sigv4::http_request::SigningSettings;
use aws_sigv4::sign::v4;
use http::header::ToStrError;
use http::HeaderMap;
use std::time::SystemTime;
use vstd::prelude::*;
use vstd::utf8::encode_utf8;

verus! {

/// The first instant of the year -9999, in nanoseconds since the Unix epoch. No earlier time can
/// be signed for.
pub const MIN_SIGNING_NANOS: i128 = -377_705_116_800_000_000_000;

/// The last instant of the year 9999, in nanoseconds since the Unix epoch. No later time can be
/// signed for.
pub const MAX_SIGNING_NANOS: i128 = 253_402_300_799_999_999_999;

/// The most bytes that a URI has.
pub const MAX_URI_BYTES: usize = 65_534;

/// The most names that the headers of a request may have for a table of them to be sure of room
/// for the names that signing adds.
pub const MAX_SAFE_NAMES: usize = 6551;

/// A header that the signature adds to a request.
#[derive(PartialEq, Eq)]
pub struct SigningHeader {
    pub name: String,
    pub value: String,
    /// The value is not to be shown.
    pub sensitive: bool,
}

/// The name and the value of a header that the signature adds, and whether the value is not to be
/// shown.
pub type Added = (Seq<char>, Seq<char>, bool);

impl View for SigningHeader {
    type V = Added;

    open spec fn view(&self) -> Added {
        (self.name@, self.value@, self.sensitive)
    }
}

/// At which stage the signer gave up.
#[derive(Debug)]
pub enum SigningStageError {
    /// The request is none that can be signed.
    Request(SigningError),
    /// The parameters of the signature are incomplete.
    Params(String),
    /// The signature could not be made.
    Signature(SigningError),
}

/// The text of the date and the text of the authorization that sign a request.
pub uninterp spec fn sigv4_texts(
    access_key_id: Seq<char>,
    secret_access_key: Seq<char>,
    session_token: Option<Seq<char>>,
    region: Seq<char>,
    service: Seq<char>,
    time: int,
    method: Seq<char>,
    url: Seq<char>,
    headers: Seq<(Seq<char>, Seq<char>)>,
    body: Seq<u8>,
) -> (Seq<char>, Seq<char>);

/// The names and values of some headers.
pub open spec fn pairs_of(headers: Seq<TextHeader>) -> Seq<(Seq<char>, Seq<char>)> {
    headers.map_values(|header: TextHeader| header@)
}

/// The names, values and marks of the headers of a signature.
pub open spec fn added_of(headers: Seq<SigningHeader>) -> Seq<Added> {
    headers.map_values(|header: SigningHeader| header@)
}

/// All names are header names.
pub open spec fn all_named(headers: Seq<(Seq<char>, Seq<char>)>) -> bool {
    forall|i: int| 0 <= i < headers.len() ==> is_name((#[trigger] headers[i]).0)
}

/// All names are ASCII.
pub open spec fn all_names_ascii(headers: Seq<(Seq<char>, Seq<char>)>) -> bool {
    forall|i: int, k: int|
        0 <= i < headers.len() && 0 <= k < headers[i].0.len() ==> (
        #[trigger] headers[i].0[k]) as u32 <= 127
}

/// All values are visible ASCII, spaces or tabs.
pub open spec fn all_values_ascii(headers: Seq<(Seq<char>, Seq<char>)>) -> bool {
    forall|i: int, k: int|
        0 <= i < headers.len() && 0 <= k < headers[i].1.len() ==> (32 <= (
        #[trigger] headers[i].1[k]) as u32 <= 126 || headers[i].1[k] as u32 == 9)
}

/// A header of that name is among `headers`.
pub open spec fn has_pair(headers: Seq<(Seq<char>, Seq<char>)>, name: Seq<char>) -> bool {
    exists|i: int| 0 <= i < headers.len() && (#[trigger] headers[i]).0 == name
}

/// The session token can stand in a header, if there is one.
pub open spec fn is_token_text(token: Option<Seq<char>>) -> bool {
    token matches Some(text) ==> is_value_text(text)
}

/// The authorization names the algorithm, and then the access key.
pub open spec fn names_key(authorization: Seq<char>, access_key_id: Seq<char>) -> bool {
    ("AWS4-HMAC-SHA256 Credential="@ + access_key_id + "/"@).is_prefix_of(authorization)
}

/// The headers that sign a request: the date, the authorization, and the session token if the
/// credentials have one. Only the token is not to be shown.
pub open spec fn added_headers(
    texts: (Seq<char>, Seq<char>),
    session_token: Option<Seq<char>>,
) -> Seq<Added> {
    let always = seq![("x-amz-date"@, texts.0, false), ("authorization"@, texts.1, false)];
    match session_token {
        Some(token) => always.push(("x-amz-security-token"@, token, true)),
        None => always,
    }
}

/// The names of some headers.
pub open spec fn pair_names(headers: Seq<(Seq<char>, Seq<char>)>) -> Seq<Seq<char>> {
    headers.map_values(|header: (Seq<char>, Seq<char>)| header.0)
}

/// The signer finds a host: the URL has an authority, or the headers name the host.
pub open spec fn has_host(parts: Parts, headers: Seq<(Seq<char>, Seq<char>)>) -> bool {
    parts.1 || has_pair(headers, "host"@)
}

/// The path of a URL and its query fit a URI when the query is encoded anew.
pub open spec fn has_room(parts: Parts) -> bool {
    encode_utf8(parts.2).len() + query_len(
        match parts.3 {
            Some(query) => encode_utf8(query),
            None => Seq::empty(),
        },
    ) <= MAX_URI_BYTES
}

/// A URL whose query the signer can encode anew: it is no mere authority, and has room.
pub open spec fn has_encodable_query(parts: Parts) -> bool {
    (parts.0 || !parts.1) && has_room(parts)
}

/// How many names there are before the first one that is no header name.
pub open spec fn proper_len(names: Seq<Seq<char>>) -> nat
    decreases names.len(),
{
    if names.len() == 0 || !is_name(names.first()) {
        0
    } else {
        1 + proper_len(names.drop_first())
    }
}

/// The names that the signer puts into its table, in their order: those of the headers up to the
/// first one that is none, and if all are names, those that signing adds. The session token is
/// added if it can stand in a header.
pub open spec fn table_names(
    headers: Seq<(Seq<char>, Seq<char>)>,
    session_token: Option<Seq<char>>,
) -> Seq<Seq<char>> {
    let names = pair_names(headers);
    if proper_len(names) < names.len() {
        names.take(proper_len(names) as int)
    } else {
        let hosted = if has_pair(headers, "host"@) {
            names
        } else {
            names.push("host"@)
        };
        let dated = hosted.push("x-amz-date"@);
        if session_token is Some && is_token_text(session_token) {
            dated.push("x-amz-security-token"@)
        } else {
            dated
        }
    }
}

/// A table made for `size` headers has been seen to take these names.
pub open spec fn table_takes(size: nat, names: Seq<Seq<char>>) -> bool {
    exists|table: HeaderMap| #[trigger] is_filled_with(table, size, names)
}

/// The signer gets as far as it comes to the host and to the query. It comes to the host once all
/// names are in order, and to the query once the session token is.
pub open spec fn suits_signer(
    parts: Parts,
    headers: Seq<(Seq<char>, Seq<char>)>,
    session_token: Option<Seq<char>>,
) -> bool {
    &&& headers.len() <= MAX_TABLE_SIZE
    &&& all_named(headers) ==> has_host(parts, headers)
    &&& all_named(headers) && is_token_text(session_token) ==> has_encodable_query(parts)
}

/// What the instructions of a signature hold: the headers to add, in their order.
pub uninterp spec fn instructed_headers(instructions: SigningInstructions) -> Seq<Added>;

/// Calls `aws_sigv4::http_request::sign` with the default settings, for a `SignableRequest` and
/// `SigningParams` made from the arguments, and hands out its instructions.
///
/// Trusted: the date and the authorization are a function of the arguments. The instructions are
/// to add the date, the authorization, and the session token if there is one. The authorization
/// starts with the algorithm and the access key. The signer refuses a request exactly if one of
/// its header names is none, or if the session token cannot stand in a header: the URL is known
/// to parse, and no parameter is missing. The date can stand in a header, and so can the
/// authorization if the access key, the region and the service can. What the digits of the
/// signature are stays unsaid.
///
/// The signer panics on a time that has no four-digit year, on more headers than its table takes,
/// on a URL for which it finds no host, and on one that is a mere authority or whose query grows
/// too long when it is encoded. Its table is one that is made for as many headers as the request
/// has, and whether it takes their names depends on nothing but the names and their order on the
/// machine at hand: it takes what another such table took.
#[verifier::external_body]
fn sigv4_sign(
    credentials: &Credentials,
    region: &str,
    service: &str,
    time: SystemTime,
    method: &str,
    url: &str,
    headers: &Vec<TextHeader>,
    body: &[u8],
) -> (outcome: Result<SigningInstructions, SigningStageError>)
    requires
        MIN_SIGNING_NANOS <= unix_nanos(time) <= MAX_SIGNING_NANOS,
        uri_parts(url@) matches Ok(parts) && suits_signer(
            parts,
            pairs_of(headers@),
            text_of(credentials.session_token),
        ),
        table_takes(
            headers@.len(),
            table_names(pairs_of(headers@), text_of(credentials.session_token)),
        ),
        all_names_ascii(pairs_of(headers@)),
        all_values_ascii(pairs_of(headers@)),
    ensures
        match outcome {
            Ok(instructions) => {
                let texts = sigv4_texts(
                    credentials.access_key_id@,
                    credentials.secret_access_key@,
                    text_of(credentials.session_token),
                    region@,
                    service@,
                    unix_nanos(time),
                    method@,
                    url@,
                    pairs_of(headers@),
                    body@,
                );
                &&& all_named(pairs_of(headers@))
                &&& is_token_text(text_of(credentials.session_token))
                &&& instructed_headers(instructions) == added_headers(
                    texts,
                    text_of(credentials.session_token),
                )
                &&& names_key(texts.1, credentials.access_key_id@)
                &&& is_value_text(texts.0)
                &&& is_value_text(texts.1) <==> is_value_text(credentials.access_key_id@)
                    && is_value_text(region@) && is_value_text(service@)
            },
            Err(error) => error is Signature && !(all_named(pairs_of(headers@)) && is_token_text(
                text_of(credentials.session_token),
            )),
        },
{
    let keys = credentials.clone();
    let identity = SdkCredentials::new(
        keys.access_key_id,
        keys.secret_access_key,
        keys.session_token,
        keys.expires_after,
        keys.provider_name,
    ).into();
    let params = v4::SigningParams::builder().identity(&identity).region(region).name(service)
        .time(time).settings(SigningSettings::default()).build();
    let params = params.map_err(|error| SigningStageError::Params(error.to_string()))?.into();
    let pairs = headers.iter().map(|header| (header.name.as_str(), header.value.as_str()));
    let request = SignableRequest::new(method, url, pairs, SignableBody::Bytes(body))
        .map_err(SigningStageError::Request)?;
    Ok(sign(request, &params).map_err(SigningStageError::Signature)?.into_parts().0)
}

/// Calls `SigningInstructions::into_parts`, and hands out the headers.
///
/// Trusted: the headers are those of the instructions, in their order.
#[verifier::external_body]
fn instruction_headers(instructions: SigningInstructions) -> (headers: Vec<SigningHeader>)
    ensures
        added_of(headers@) == instructed_headers(instructions),
{
    let headers = instructions.into_parts().0.into_iter().map(|header| SigningHeader {
        name: header.name().to_owned(),
        value: header.value().to_owned(),
        sensitive: header.sensitive(),
    });
    headers.collect()
}

/// A header that the signature adds, as a header map holds it.
pub open spec fn entry_of(added: Added) -> Entry {
    (added.0, encode_utf8(added.1), added.2)
}

/// Some headers with further ones set, one after the other.
pub open spec fn with_headers(entries: Seq<Entry>, added: Seq<Added>) -> Seq<Entry>
    decreases added.len(),
{
    if added.len() == 0 {
        entries
    } else {
        with_header(with_headers(entries, added.drop_last()), entry_of(added.last()))
    }
}

/// All names are header names in lower case.
pub open spec fn all_lower_named(headers: Seq<Added>) -> bool {
    forall|i: int| 0 <= i < headers.len() ==> is_lower_name((#[trigger] headers[i]).0)
}

/// All values can stand in a header.
pub open spec fn all_value_texts(headers: Seq<Added>) -> bool {
    forall|i: int| 0 <= i < headers.len() ==> is_value_text((#[trigger] headers[i]).1)
}

/// Sets the headers of a signature on the headers of a request.
///
/// A value that cannot stand in a header is refused. Proper headers are not refused as long as
/// the map is sure to have room for them.
pub fn apply_signing_headers(headers: HeaderMap, added: &Vec<SigningHeader>) -> (outcome: Result<
    HeaderMap,
    http::Error,
>)
    ensures
        outcome is Ok ==> all_value_texts(added_of(added@)),
        outcome matches Ok(signed) ==> (all_lower_named(added_of(added@)) ==> header_entries(
            signed,
        ) == with_headers(header_entries(headers), added_of(added@))),
        all_lower_named(added_of(added@)) && all_value_texts(added_of(added@))
            && name_count(names_of(header_entries(headers))) + added@.len() <= SAFE_NAME_COUNT + 1
            ==> outcome is Ok,
{
    let ghost pairs = added_of(added@);
    let ghost before = header_entries(headers);
    let mut signed = headers;
    let mut i: usize = 0;
    assert(pairs.take(0) =~= Seq::<Added>::empty());
    while i < added.len()
        invariant
            i <= added@.len(),
            pairs == added_of(added@),
            before == header_entries(headers),
            forall|j: int| 0 <= j < i ==> is_value_text((#[trigger] pairs[j]).1),
            all_lower_named(pairs) ==> header_entries(signed) == with_headers(
                before,
                pairs.take(i as int),
            ),
            all_lower_named(pairs) ==> name_count(names_of(header_entries(signed))) <= name_count(
                names_of(before),
            ) + i,
        decreases added@.len() - i,
    {
        let header = &added[i];
        assert(pairs[i as int] == header@);
        let ghost so_far = header_entries(signed);
        proof {
            lemma_with_header_count(so_far, entry_of(header@));
        }
        match insert_header(
            &mut signed,
            header.name.as_str(),
            header.value.as_str(),
            header.sensitive,
        ) {
            Ok(()) => {},
            Err(error) => {
                return Err(error);
            },
        }
        proof {
            assert(pairs.take(i + 1).drop_last() =~= pairs.take(i as int));
            assert(pairs.take(i + 1).last() == pairs[i as int]);
        }
        i += 1;
    }
    assert(pairs.take(added@.len() as int) =~= pairs);
    Ok(signed)
}

/// Turns the failure of a stage of the signer into the error that callers see.
pub fn stage_error(error: SigningStageError) -> (converted: AwsAuthError)
    ensures
        converted == match error {
            SigningStageError::Request(cause) => AwsAuthError::SigningRequest(cause),
            SigningStageError::Params(reason) => AwsAuthError::SigningParams(reason),
            SigningStageError::Signature(cause) => AwsAuthError::SigningFailure(cause),
        },
{
    match error {
        SigningStageError::Request(cause) => AwsAuthError::SigningRequest(cause),
        SigningStageError::Params(reason) => AwsAuthError::SigningParams(reason),
        SigningStageError::Signature(cause) => AwsAuthError::SigningFailure(cause),
    }
}

/// All header values are visible ASCII, spaces or tabs.
pub open spec fn all_visible(entries: Seq<Entry>) -> bool {
    forall|i: int| 0 <= i < entries.len() ==> is_visible((#[trigger] entries[i]).1)
}

/// Some headers with their values as text.
pub open spec fn text_pairs(entries: Seq<Entry>) -> Seq<(Seq<char>, Seq<char>)> {
    entries.map_values(|entry: Entry| (entry.0, ascii_text(entry.1)))
}

/// Reads the headers of a request as text.
pub fn text_headers(headers: &HeaderMap) -> (outcome: Result<Vec<TextHeader>, ToStrError>)
    ensures
        outcome is Ok <==> all_visible(header_entries(*headers)),
        outcome matches Ok(texts) ==> pairs_of(texts@) == text_pairs(header_entries(*headers))
            && all_names_ascii(pairs_of(texts@)) && all_values_ascii(pairs_of(texts@)),
{
    let items = header_items(headers);
    let ghost entries = header_entries(*headers);
    let mut texts: Vec<TextHeader> = Vec::new();
    let mut i: usize = 0;
    while i < items.len()
        invariant
            i <= items@.len(),
            entries == header_entries(*headers),
            items@.len() == entries.len(),
            forall|j: int|
                0 <= j < items@.len() ==> entries[j].0 == (#[trigger] items@[j]).0@
                    && entries[j].1 == value_bytes(items@[j].1),
            forall|j: int, k: int|
                0 <= j < items@.len() && 0 <= k < items@[j].0@.len() ==> (
                #[trigger] items@[j].0@[k]) as u32 <= 127,
            texts@.len() == i,
            forall|j: int| 0 <= j < i ==> is_visible((#[trigger] entries[j]).1),
            forall|j: int|
                0 <= j < i ==> (#[trigger] texts@[j])@ == (entries[j].0, ascii_text(entries[j].1)),
        decreases items@.len() - i,
    {
        let (name, value) = &items[i];
        assert(entries[i as int].1 == value_bytes(items@[i as int].1));
        match value_text(value) {
            Ok(text) => {
                texts.push(TextHeader { name: name.clone(), value: text });
            },
            Err(error) => {
                return Err(error);
            },
        }
        i += 1;
    }
    assert(pairs_of(texts@) =~= text_pairs(entries));
    proof {
        let pairs = pairs_of(texts@);
        assert forall|j: int, k: int|
            0 <= j < pairs.len() && 0 <= k < pairs[j].0.len() implies (
        #[trigger] pairs[j].0[k]) as u32 <= 127 by {
            assert(pairs[j].0[k] == items@[j].0@[k]);
        }
        assert forall|j: int, k: int|
            0 <= j < pairs.len() && 0 <= k < pairs[j].1.len() implies (32 <= (
        #[trigger] pairs[j].1[k]) as u32 <= 126 || pairs[j].1[k] as u32 == 9) by {
            assert(is_visible(entries[j].1));
            assert(pairs[j].1[k] == entries[j].1[k] as char);
        }
    }
    Ok(texts)
}

/// The date and the authorization that sign `request`.
pub open spec fn signing_texts(
    credentials: Credentials,
    region: Seq<char>,
    service: Seq<char>,
    request: AwsRequestToSign,
    time: SystemTime,
) -> (Seq<char>, Seq<char>) {
    sigv4_texts(
        credentials.access_key_id@,
        credentials.secret_access_key@,
        text_of(credentials.session_token),
        region,
        service,
        unix_nanos(time),
        method_text(request.method),
        request.url@,
        text_pairs(header_entries(request.headers)),
        buffer_bytes(request.body),
    )
}

/// `signed` is `request` with the headers of its signature set, and with its URL.
pub open spec fn is_signed(
    credentials: Credentials,
    region: Seq<char>,
    service: Seq<char>,
    request: AwsRequestToSign,
    time: SystemTime,
    signed: AwsSignedRequest,
) -> bool {
    let texts = signing_texts(credentials, region, service, request, time);
    &&& signed.url@ == request.url@
    &&& header_entries(signed.headers) == with_headers(
        header_entries(request.headers),
        added_headers(texts, text_of(credentials.session_token)),
    )
    &&& names_key(texts.1, credentials.access_key_id@)
}

/// Some headers have few enough names for a table of them to be sure of room for the names that
/// signing adds. With more names, the table decides.
pub open spec fn has_safe_names(entries: Seq<Entry>) -> bool {
    name_count(names_of(entries)) <= MAX_SAFE_NAMES
}

/// What signing `request` comes to: each error, with the requests that it is for, and the signed
/// request for all others. Only a request with very many names may be refused for want of room.
pub open spec fn is_sign_outcome(
    credentials: Credentials,
    region: Seq<char>,
    service: Seq<char>,
    request: AwsRequestToSign,
    time: SystemTime,
    outcome: Result<AwsSignedRequest, AwsAuthError>,
) -> bool {
    let entries = header_entries(request.headers);
    match uri_parts(request.url@) {
        Err(error) => outcome matches Err(AwsAuthError::InvalidUri(cause)) && cause == error,
        Ok(_) => if !all_visible(entries) {
            outcome matches Err(AwsAuthError::InvalidHeaderValue(_))
        } else if !all_named(text_pairs(entries)) || !is_token_text(
            text_of(credentials.session_token),
        ) {
            outcome matches Err(AwsAuthError::SigningFailure(_))
        } else if !is_value_text(credentials.access_key_id@) || !is_value_text(region)
            || !is_value_text(service) {
            outcome matches Err(AwsAuthError::BuildHttpRequest(_))
        } else {
            match outcome {
                Ok(signed) => is_signed(credentials, region, service, request, time, signed),
                Err(error) => error is BuildHttpRequest && !has_safe_names(entries),
            }
        },
    }
}

/// The time, the URL and the headers of `request` suit the signer, unless the request is refused
/// before: the time has a year of four digits, there is a host, and the query can be encoded.
pub open spec fn is_suitable(
    session_token: Option<Seq<char>>,
    request: AwsRequestToSign,
    time: SystemTime,
) -> bool {
    let entries = header_entries(request.headers);
    uri_parts(request.url@) matches Ok(parts) ==> (all_visible(entries) ==> {
        &&& MIN_SIGNING_NANOS <= unix_nanos(time) <= MAX_SIGNING_NANOS
        &&& suits_signer(parts, text_pairs(entries), session_token)
    })
}

/// A table like the signer's takes the names of `request`, unless the request is refused before.
pub open spec fn has_table(session_token: Option<Seq<char>>, request: AwsRequestToSign) -> bool {
    let entries = header_entries(request.headers);
    uri_parts(request.url@) is Ok && all_visible(entries) ==> table_takes(
        entries.len(),
        table_names(text_pairs(entries), session_token),
    )
}

/// Returns whether a header of that name is among `headers`.
fn contains_name(headers: &Vec<TextHeader>, name: &String) -> (found: bool)
    ensures
        found == has_pair(pairs_of(headers@), name@),
{
    let ghost pairs = pairs_of(headers@);
    let mut i: usize = 0;
    while i < headers.len()
        invariant
            i <= headers@.len(),
            pairs == pairs_of(headers@),
            forall|j: int| 0 <= j < i ==> (#[trigger] pairs[j]).0 != name@,
        decreases headers@.len() - i,
    {
        assert(pairs[i as int] == headers@[i as int]@);
        if headers[i].name == *name {
            return true;
        }
        i += 1;
    }
    false
}

/// The names that signing adds to the signer's table are header names.
proof fn lemma_table_names()
    ensures
        is_name("host"@),
        is_name("x-amz-date"@),
        is_name("x-amz-security-token"@),
{
    reveal_strlit("host");
    reveal_strlit("x-amz-date");
    reveal_strlit("x-amz-security-token");
}

/// No more names are proper than there are.
proof fn lemma_proper_len(names: Seq<Seq<char>>)
    ensures
        proper_len(names) <= names.len(),
    decreases names.len(),
{
    if names.len() > 0 {
        lemma_proper_len(names.drop_first());
    }
}

/// Puts the names of the headers, up to the first one that is none, into a table. Returns whether
/// the table took them, and whether they were all.
fn fill_table(table: &mut HeaderMap, headers: &Vec<TextHeader>) -> (filled: (bool, bool))
    requires
        is_filled_with(*old(table), headers@.len(), Seq::empty()),
    ensures
        filled.1 == all_named(pairs_of(headers@)),
        filled.1 <==> proper_len(pair_names(pairs_of(headers@))) == headers@.len(),
        proper_len(pair_names(pairs_of(headers@))) <= headers@.len(),
        filled.0 ==> is_filled_with(
            *final(table),
            headers@.len(),
            pair_names(pairs_of(headers@)).take(
                proper_len(pair_names(pairs_of(headers@))) as int,
            ),
        ),
        name_count(pair_names(pairs_of(headers@))) <= SAFE_NAME_COUNT ==> filled.0,
{
    let ghost pairs = pairs_of(headers@);
    let ghost names = pair_names(pairs);
    let mut taken = true;
    let mut i: usize = 0;
    assert(names.take(0) =~= Seq::<Seq<char>>::empty());
    assert(names.skip(0) =~= names);
    proof {
        lemma_proper_len(names);
    }
    while i < headers.len()
        invariant
            i <= headers@.len(),
            pairs == pairs_of(headers@),
            names == pair_names(pairs),
            names.len() == headers@.len(),
            proper_len(names) == i + proper_len(names.skip(i as int)),
            proper_len(names) <= names.len(),
            forall|j: int| 0 <= j < i ==> is_name((#[trigger] pairs[j]).0),
            taken ==> is_filled_with(*table, headers@.len(), names.take(i as int)),
            name_count(names) <= SAFE_NAME_COUNT ==> taken,
        decreases headers@.len() - i,
    {
        assert(pairs[i as int] == headers@[i as int]@);
        assert(names[i as int] == headers@[i as int].name@);
        assert(names.skip(i as int).first() == names[i as int]);
        assert(names.skip(i as int).drop_first() =~= names.skip(i + 1));
        if !text_is_name(headers[i].name.as_str()) {
            return (taken, false);
        }
        proof {
            lemma_count_of_first(names, i as int);
            assert(names.take(i as int).push(names[i as int]) =~= names.take(i + 1));
        }
        taken = taken && append_name(table, headers[i].name.as_str());
        i += 1;
    }
    (taken, true)
}
/// Returns whether the path and the query of a URL fit a URI when the query is encoded anew.
fn url_has_room(parts: &UriParts) -> (room: bool)
    ensures
        room == has_room(parts@),
{
    let path_len: u128 = parts.path.as_str().as_bytes().len() as u128;
    let encoded: u128 = match &parts.query {
        Some(query) => {
            let bytes = query.as_str().as_bytes();
            let size = bytes.len();
            let total = measure_query(bytes);
            assert(total <= 11 * size);
            total
        },
        None => 0,
    };
    assert(query_len(Seq::<u8>::empty()) == 0);
    path_len + encoded <= MAX_URI_BYTES as u128
}

/// Returns whether the signer can be asked to sign `request` for `time`. It may panic on any
/// other request that gets that far.
///
/// The names of the headers are tried on a table like the signer's. Unless there are very many,
/// the table is sure to take them.
pub fn can_be_signed(
    credentials: &Credentials,
    request: &AwsRequestToSign,
    time: SystemTime,
) -> (acceptable: bool)
    ensures
        acceptable ==> is_suitable(text_of(credentials.session_token), *request, time),
        acceptable ==> has_table(text_of(credentials.session_token), *request),
        is_suitable(text_of(credentials.session_token), *request, time) && has_safe_names(
            header_entries(request.headers),
        ) ==> acceptable,
{
    let parts = match parse_uri(request.url.as_str()) {
        Ok(parts) => parts,
        Err(_) => {
            return true;
        },
    };
    let headers = match text_headers(&request.headers) {
        Ok(headers) => headers,
        Err(_) => {
            return true;
        },
    };
    let ghost names = pair_names(pairs_of(headers@));
    let ghost token = text_of(credentials.session_token);
    proof {
        assert(headers@.len() == pairs_of(headers@).len());
        lemma_text_names(header_entries(request.headers));
        lemma_table_names();
        lemma_count_of_next(names, "host"@);
    }
    let nanos = nanos_since_epoch(time);
    if nanos < MIN_SIGNING_NANOS || nanos > MAX_SIGNING_NANOS {
        return false;
    }
    let mut table = match new_table(headers.len()) {
        Some(table) => table,
        None => {
            return false;
        },
    };
    let (mut taken, all_proper) = fill_table(&mut table, &headers);
    if !all_proper {
        return taken;
    }
    assert(names.take(names.len() as int) =~= names);
    let host = "host".to_owned();
    let has_host = contains_name(&headers, &host);
    if !parts.has_authority && !has_host {
        return false;
    }
    if !has_host {
        taken = taken && append_name(&mut table, "host");
    }
    let ghost hosted = if has_host {
        names
    } else {
        names.push("host"@)
    };
    proof {
        lemma_count_of_next(hosted, "x-amz-date"@);
    }
    assert(taken ==> is_filled_with(table, headers@.len(), hosted));
    taken = taken && append_name(&mut table, "x-amz-date");
    if let Some(token) = &credentials.session_token {
        if !text_is_value(token.as_str()) {
            return taken;
        }
        taken = taken && append_name(&mut table, "x-amz-security-token");
    }
    assert(taken ==> is_filled_with(
        table,
        headers@.len(),
        table_names(pairs_of(headers@), token),
    ));
    taken && (parts.has_scheme || !parts.has_authority) && url_has_room(&parts)
}

/// The names of a request's headers are those of the headers as text.
proof fn lemma_text_names(entries: Seq<Entry>)
    ensures
        pair_names(text_pairs(entries)) == names_of(entries),
{
    assert(pair_names(text_pairs(entries)) =~= names_of(entries));
}

/// The names of the headers of a signature are header names in lower case.
proof fn lemma_added_names(texts: (Seq<char>, Seq<char>), session_token: Option<Seq<char>>)
    ensures
        all_lower_named(added_headers(texts, session_token)),
{
    reveal_strlit("x-amz-date");
    reveal_strlit("authorization");
    reveal_strlit("x-amz-security-token");
    assert(is_lower_name("x-amz-date"@));
    assert(is_lower_name("authorization"@));
    assert(is_lower_name("x-amz-security-token"@));
}

/// Signs a request with SigV4: the request keeps its URL and its headers, and gets the headers of
/// the signature.
pub fn sign_request(
    credentials: &Credentials,
    region: &str,
    service: &str,
    request: AwsRequestToSign,
    time: SystemTime,
) -> (outcome: Result<AwsSignedRequest, AwsAuthError>)
    requires
        is_suitable(text_of(credentials.session_token), request, time),
        has_table(text_of(credentials.session_token), request),
    ensures
        is_sign_outcome(*credentials, region@, service@, request, time, outcome),
{
    match parse_uri(request.url.as_str()) {
        Ok(_) => {},
        Err(error) => {
            return Err(AwsAuthError::InvalidUri(error));
        },
    }
    let headers = match text_headers(&request.headers) {
        Ok(headers) => headers,
        Err(error) => {
            return Err(AwsAuthError::InvalidHeaderValue(error));
        },
    };
    assert(headers@.len() == pairs_of(headers@).len());
    let instructions = match sigv4_sign(
        credentials,
        region,
        service,
        time,
        method_str(&request.method),
        request.url.as_str(),
        &headers,
        buffer_slice(&request.body),
    ) {
        Ok(instructions) => instructions,
        Err(error) => {
            return Err(stage_error(error));
        },
    };
    let added = instruction_headers(instructions);
    proof {
        let texts = signing_texts(*credentials, region@, service@, request, time);
        let token = text_of(credentials.session_token);
        lemma_text_names(header_entries(request.headers));
        lemma_added_names(texts, token);
        assert(added@.len() == added_of(added@).len());
        let pairs = added_headers(texts, token);
        assert(pairs[0].1 == texts.0);
        assert(pairs[1].1 == texts.1);
    }
    match apply_signing_headers(request.headers, &added) {
        Ok(headers) => Ok(AwsSignedRequest { url: request.url, headers }),
        Err(error) => Err(AwsAuthError::BuildHttpRequest(error)),
    }
}

} // verus!
