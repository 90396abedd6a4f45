//! The parts of an HTTP request that signing reads and writes.
//!
//! The functions of this module that are marked as trusted are the only ones that look inside
//! the values of the `http` and `bytes` crates.
use crate::config::text_of;
use bytes::Bytes;
use http::header::ToStrError;
use http::uri::InvalidUri;
use http::HeaderMap;
use http::HeaderName;
use http::HeaderValue;
use http::Method;
use vstd::prelude::*;
use vstd::utf8::encode_utf8;

verus! {

/// The name and the value of a header, the value as its bytes, and whether the value is marked as
/// one not to be shown.
pub type Entry = (Seq<char>, Seq<u8>, bool);

/// The name of a header, and its value as text.
#[derive(Debug, PartialEq, Eq)]
pub struct TextHeader {
    pub name: String,
    pub value: String,
}

impl View for TextHeader {
    type V = (Seq<char>, Seq<char>);

    open spec fn view(&self) -> (Seq<char>, Seq<char>) {
        (self.name@, self.value@)
    }
}

/// Whether a URI has a scheme, whether it has an authority, its path, and its query.
pub type Parts = (bool, bool, Seq<char>, Option<Seq<char>>);

/// The parts of a URI that signing depends on.
#[derive(Debug, PartialEq, Eq)]
pub struct UriParts {
    pub has_scheme: bool,
    pub has_authority: bool,
    pub path: String,
    pub query: Option<String>,
}

impl View for UriParts {
    type V = Parts;

    open spec fn view(&self) -> Parts {
        (self.has_scheme, self.has_authority, self.path@, text_of(self.query))
    }
}

/// What a header map holds: its headers in the order in which the map is walked. The values of
/// one name stand next to each other.
pub uninterp spec fn header_entries(headers: HeaderMap) -> Seq<Entry>;

/// How a header map was filled: it was made for `size` headers, and headers of these names were
/// appended to it in this order, none of them refused.
pub uninterp spec fn is_filled_with(headers: HeaderMap, size: nat, names: Seq<Seq<char>>) -> bool;

/// The bytes of a header value.
pub uninterp spec fn value_bytes(value: HeaderValue) -> Seq<u8>;

/// The bytes of a buffer.
pub uninterp spec fn buffer_bytes(buffer: Bytes) -> Seq<u8>;

/// The text of a method, such as `POST`.
pub uninterp spec fn method_text(method: Method) -> Seq<char>;

/// What parsing a text as a URI gives.
pub uninterp spec fn uri_parts(url: Seq<char>) -> Result<Parts, InvalidUri>;

/// A byte of visible ASCII, a space or a tab.
pub open spec fn is_visible_byte(byte: u8) -> bool {
    32 <= byte < 127 || byte == 9
}

/// All bytes are visible ASCII, spaces or tabs.
pub open spec fn is_visible(bytes: Seq<u8>) -> bool {
    forall|i: int| 0 <= i < bytes.len() ==> is_visible_byte(#[trigger] bytes[i])
}

/// The ASCII text of some bytes.
pub open spec fn ascii_text(bytes: Seq<u8>) -> Seq<char> {
    bytes.map_values(|byte: u8| byte as char)
}

/// A character that a header value may hold: any but the control characters, of which only the
/// tab is allowed.
pub open spec fn is_value_char(c: char) -> bool {
    c as u32 == 9 || (c as u32 >= 32 && c as u32 != 127)
}

/// A text that can stand in a header value.
pub open spec fn is_value_text(text: Seq<char>) -> bool {
    forall|i: int| 0 <= i < text.len() ==> is_value_char(#[trigger] text[i])
}

/// A character that a header name may hold.
pub open spec fn is_name_char(c: char) -> bool {
    ||| 'a' <= c <= 'z'
    ||| 'A' <= c <= 'Z'
    ||| '0' <= c <= '9'
    ||| c == '!' || c == '#' || c == '$' || c == '%' || c == '&' || c == '\'' || c == '*'
    ||| c == '+' || c == '-' || c == '.' || c == '^' || c == '_' || c == '`' || c == '|'
    ||| c == '~'
}

/// A text that is a header name, in whatever case.
pub open spec fn is_name(text: Seq<char>) -> bool {
    0 < text.len() <= 65535 && forall|i: int|
        0 <= i < text.len() ==> is_name_char(#[trigger] text[i])
}

/// A header name in lower case, as a header map holds it.
pub open spec fn is_lower_name(text: Seq<char>) -> bool {
    is_name(text) && forall|i: int|
        0 <= i < text.len() ==> !('A' <= #[trigger] text[i] <= 'Z')
}

/// A header of that name is among `entries`.
pub open spec fn has_name(entries: Seq<Entry>, name: Seq<char>) -> bool {
    exists|i: int| 0 <= i < entries.len() && (#[trigger] entries[i]).0 == name
}

/// The headers of that name, in their order.
pub open spec fn headers_named(entries: Seq<Entry>, name: Seq<char>) -> Seq<Entry>
    decreases entries.len(),
{
    if entries.len() == 0 {
        Seq::empty()
    } else if entries.last().0 == name {
        headers_named(entries.drop_last(), name).push(entries.last())
    } else {
        headers_named(entries.drop_last(), name)
    }
}

/// The headers of every other name, in their order.
pub open spec fn headers_but(entries: Seq<Entry>, name: Seq<char>) -> Seq<Entry>
    decreases entries.len(),
{
    if entries.len() == 0 {
        Seq::empty()
    } else if entries.last().0 != name {
        headers_but(entries.drop_last(), name).push(entries.last())
    } else {
        headers_but(entries.drop_last(), name)
    }
}

/// The position of the first header of that name.
pub open spec fn first_of(entries: Seq<Entry>, name: Seq<char>) -> int
    decreases entries.len(),
{
    if entries.len() == 0 || entries.first().0 == name {
        0
    } else {
        1 + first_of(entries.drop_first(), name)
    }
}

/// The names of some headers, in their order.
pub open spec fn names_of(entries: Seq<Entry>) -> Seq<Seq<char>> {
    entries.map_values(|entry: Entry| entry.0)
}

/// How many names there are, if equal names stand next to each other. In any other order it is
/// no fewer than there are.
pub open spec fn name_count(names: Seq<Seq<char>>) -> nat
    decreases names.len(),
{
    if names.len() == 0 {
        0
    } else {
        let repeated = names.len() >= 2 && names[names.len() - 2] == names.last();
        name_count(names.drop_last()) + (if repeated {
            0nat
        } else {
            1nat
        })
    }
}

/// `entries` with `set` as the only header of its name: in the place of the first header that had
/// the name, or at the end if none had it.
pub open spec fn with_header(entries: Seq<Entry>, set: Entry) -> Seq<Entry> {
    if has_name(entries, set.0) {
        let place = first_of(entries, set.0);
        entries.take(place).push(set) + headers_but(entries.skip(place + 1), set.0)
    } else {
        entries.push(set)
    }
}

/// The first header of a name is where `first_of` says.
proof fn lemma_first_of(entries: Seq<Entry>, name: Seq<char>)
    ensures
        has_name(entries, name) ==> 0 <= first_of(entries, name) < entries.len()
            && entries[first_of(entries, name)].0 == name && !has_name(
            entries.take(first_of(entries, name)),
            name,
        ),
    decreases entries.len(),
{
    if has_name(entries, name) && entries.first().0 != name {
        let rest = entries.drop_first();
        let i = choose|i: int| 0 <= i < entries.len() && (#[trigger] entries[i]).0 == name;
        assert(rest[i - 1].0 == name);
        lemma_first_of(rest, name);
        let place = first_of(entries, name);
        assert(entries[place] == rest[place - 1]);
        assert forall|j: int| 0 <= j < place implies (#[trigger] entries.take(place)[j]).0
            != name by {
            if j > 0 {
                assert(rest.take(place - 1)[j - 1] == entries[j]);
            }
        }
    }
}

/// The first ones of some names are no more names than all of them.
pub(crate) proof fn lemma_count_of_first(names: Seq<Seq<char>>, n: int)
    requires
        0 <= n <= names.len(),
    ensures
        name_count(names.take(n)) <= name_count(names),
    decreases names.len(),
{
    if n == names.len() {
        assert(names.take(n) =~= names);
    } else {
        lemma_count_of_first(names.drop_last(), n);
        assert(names.drop_last().take(n) =~= names.take(n));
    }
}

/// One more name is one more at most.
pub(crate) proof fn lemma_count_of_next(names: Seq<Seq<char>>, name: Seq<char>)
    ensures
        name_count(names.push(name)) <= name_count(names) + 1,
{
    assert(names.push(name).drop_last() =~= names);
}

/// One more header is one more name at most.
proof fn lemma_count_of_push(entries: Seq<Entry>, entry: Entry)
    ensures
        names_of(entries.push(entry)).drop_last() == names_of(entries),
        name_count(names_of(entries)) <= name_count(names_of(entries.push(entry)))
            <= name_count(names_of(entries)) + 1,
        entries.len() > 0 ==> (name_count(names_of(entries.push(entry))) == name_count(
            names_of(entries),
        ) <==> entries.last().0 == entry.0),
{
    assert(names_of(entries.push(entry)).drop_last() =~= names_of(entries));
    assert(names_of(entries.push(entry)).last() == entry.0);
    if entries.len() > 0 {
        assert(names_of(entries.push(entry))[entries.len() - 1] == entries.last().0);
    }
}

/// Leaving out headers adds no names.
proof fn lemma_count_but(before: Seq<Entry>, rest: Seq<Entry>, name: Seq<char>)
    requires
        before.len() > 0,
    ensures
        name_count(names_of(before + headers_but(rest, name))) <= name_count(
            names_of(before + rest),
        ),
    decreases rest.len(),
{
    if rest.len() > 0 {
        let most = rest.drop_last();
        let kept = headers_but(most, name);
        let last = rest.last();
        lemma_count_but(before, most, name);
        assert(before + rest =~= (before + most).push(last));
        lemma_count_of_push(before + most, last);
        if last.0 != name {
            assert(before + kept.push(last) =~= (before + kept).push(last));
            lemma_count_of_push(before + kept, last);
            if most.len() == 0 {
                assert(before + most =~= before + kept);
            } else if most.last().0 == last.0 {
                assert((before + kept).last() == most.last());
            }
        }
    } else {
        assert(headers_but(rest, name) =~= rest);
    }
}

/// Setting a header adds one name at most.
pub(crate) proof fn lemma_with_header_count(entries: Seq<Entry>, set: Entry)
    ensures
        name_count(names_of(with_header(entries, set))) <= name_count(names_of(entries)) + 1,
{
    if has_name(entries, set.0) {
        lemma_first_of(entries, set.0);
        let place = first_of(entries, set.0);
        let before = entries.take(place).push(set);
        let rest = entries.skip(place + 1);
        lemma_count_but(before, rest, set.0);
        assert(names_of(before + rest) =~= names_of(entries));
    } else {
        lemma_count_of_push(entries, set);
    }
}

/// The headers of a name in two parts of a request, one part after the other.
proof fn lemma_named_in_parts(one: Seq<Entry>, other: Seq<Entry>, name: Seq<char>)
    ensures
        headers_named(one + other, name) == headers_named(one, name) + headers_named(other, name),
    decreases other.len(),
{
    if other.len() == 0 {
        assert(one + other =~= one);
    } else {
        assert((one + other).drop_last() =~= one + other.drop_last());
        assert((one + other).last() == other.last());
        lemma_named_in_parts(one, other.drop_last(), name);
    }
}

/// A single header is the only one of its name, and of no other name.
proof fn lemma_named_in_one(entry: Entry, name: Seq<char>)
    ensures
        headers_named(seq![entry], name) == (if entry.0 == name {
            seq![entry]
        } else {
            Seq::<Entry>::empty()
        }),
{
    assert(seq![entry].drop_last() =~= Seq::<Entry>::empty());
    assert(headers_named(seq![entry].drop_last(), name) =~= Seq::<Entry>::empty());
}

/// Where no header has the name, there is none to find.
proof fn lemma_named_in_none(entries: Seq<Entry>, name: Seq<char>)
    requires
        !has_name(entries, name),
    ensures
        headers_named(entries, name) == Seq::<Entry>::empty(),
    decreases entries.len(),
{
    if entries.len() > 0 {
        let rest = entries.drop_last();
        assert forall|i: int| 0 <= i < rest.len() implies (#[trigger] rest[i]).0 != name by {
            assert(rest[i] == entries[i]);
        }
        lemma_named_in_none(rest, name);
        assert(entries[entries.len() - 1].0 != name);
    }
}

/// Leaving out the headers of one name leaves out those, and no others.
proof fn lemma_named_in_rest(entries: Seq<Entry>, name: Seq<char>, other: Seq<char>)
    ensures
        headers_named(headers_but(entries, name), name) == Seq::<Entry>::empty(),
        other != name ==> headers_named(headers_but(entries, name), other) == headers_named(
            entries,
            other,
        ),
    decreases entries.len(),
{
    if entries.len() > 0 {
        let rest = headers_but(entries.drop_last(), name);
        lemma_named_in_rest(entries.drop_last(), name, other);
        assert(rest.push(entries.last()).drop_last() =~= rest);
    }
}

/// Setting a header makes it the only one of its name, and leaves the headers of every other name
/// as they are.
pub proof fn law_set_header(entries: Seq<Entry>, set: Entry, other: Seq<char>)
    ensures
        headers_named(with_header(entries, set), set.0) == seq![set],
        other != set.0 ==> headers_named(with_header(entries, set), other) == headers_named(
            entries,
            other,
        ),
{
    let name = set.0;
    let added = seq![set];
    lemma_named_in_one(set, name);
    lemma_named_in_one(set, other);
    if has_name(entries, name) {
        let place = first_of(entries, name);
        lemma_first_of(entries, name);
        let before = entries.take(place);
        let replaced = seq![entries[place]];
        let rest = entries.skip(place + 1);
        let kept = headers_but(rest, name);
        assert(with_header(entries, set) =~= (before + added) + kept);
        assert(entries =~= (before + replaced) + rest);
        lemma_named_in_none(before, name);
        lemma_named_in_rest(rest, name, other);
        lemma_named_in_one(entries[place], other);
        lemma_named_in_parts(before + added, kept, name);
        lemma_named_in_parts(before, added, name);
        lemma_named_in_parts(before + added, kept, other);
        lemma_named_in_parts(before, added, other);
        lemma_named_in_parts(before + replaced, rest, other);
        lemma_named_in_parts(before, replaced, other);
    } else {
        assert(with_header(entries, set) =~= entries + added);
        lemma_named_in_none(entries, name);
        lemma_named_in_parts(entries, added, name);
        lemma_named_in_parts(entries, added, other);
    }
    assert(headers_named(with_header(entries, set), name) =~= added);
    assert(other != name ==> headers_named(with_header(entries, set), other) =~= headers_named(
        entries,
        other,
    ));
}

/// Returns whether a text can stand in a header value.
pub(crate) fn text_is_value(text: &str) -> (proper: bool)
    ensures
        proper == is_value_text(text@),
{
    for c in chars: text.chars()
        invariant
            chars.seq() == text@,
            forall|i: int| 0 <= i < chars.index() ==> is_value_char(#[trigger] text@[i]),
    {
        let code = c as u32;
        if !(code == 9 || (code >= 32 && code != 127)) {
            assert(!is_value_char(text@[chars.index() as int]));
            return false;
        }
    }
    true
}

/// Returns whether a text is a header name.
pub(crate) fn text_is_name(text: &str) -> (proper: bool)
    ensures
        proper == is_name(text@),
{
    let len = text.unicode_len();
    if len == 0 || len > 65535 {
        return false;
    }
    for c in chars: text.chars()
        invariant
            chars.seq() == text@,
            forall|i: int| 0 <= i < chars.index() ==> is_name_char(#[trigger] text@[i]),
    {
        let proper = ('a' <= c && c <= 'z') || ('A' <= c && c <= 'Z') || ('0' <= c && c <= '9')
            || c == '!' || c == '#' || c == '$' || c == '%' || c == '&' || c == '\'' || c == '*'
            || c == '+' || c == '-' || c == '.' || c == '^' || c == '_' || c == '`' || c == '|'
            || c == '~';
        if !proper {
            assert(!is_name_char(text@[chars.index() as int]));
            return false;
        }
    }
    true
}

/// The number of names up to which a header map never refuses a further one, however the names
/// collide in its table.
///
/// A table has 32,768 slots at most, one for each name, and gives up growing only when at least
/// a fifth of them are taken.
pub const SAFE_NAME_COUNT: usize = 6553;

/// Calls `HeaderMap::iter`, and hands out each header with its name as text.
///
/// Trusted: the headers come in the order in which the map is walked, and a name is ASCII.
#[verifier::external_body]
pub(crate) fn header_items(headers: &HeaderMap) -> (items: Vec<(String, HeaderValue)>)
    ensures
        items@.len() == header_entries(*headers).len(),
        forall|i: int|
            0 <= i < items@.len() ==> header_entries(*headers)[i].0 == (#[trigger] items@[i]).0@
                && header_entries(*headers)[i].1 == value_bytes(items@[i].1),
        forall|i: int, k: int|
            0 <= i < items@.len() && 0 <= k < items@[i].0@.len() ==> (#[trigger] items@[i].0@[k]) as u32
                <= 127,
{
    headers.iter().map(|(name, value)| (name.as_str().to_owned(), value.clone())).collect()
}

/// Calls `HeaderValue::to_str`.
///
/// Trusted: the value is read as text exactly if its bytes are all visible ASCII, spaces or
/// tabs, and the text is then those bytes.
#[verifier::external_body]
pub(crate) fn value_text(value: &HeaderValue) -> (text: Result<String, ToStrError>)
    ensures
        text is Ok <==> is_visible(value_bytes(*value)),
        text matches Ok(shown) ==> shown@ == ascii_text(value_bytes(*value)),
{
    value.to_str().map(|text| text.to_owned())
}

/// Calls `HeaderMap::try_insert`, with a name and a value made from text.
///
/// Trusted: on success the header is the only one of its name, and stands where the first header
/// of the name stood, or at the end. Its value is marked as one not to be shown if `sensitive`
/// says so. A refusal leaves the headers as they were. A value that no header can hold is
/// refused. A proper name and value are not refused as long as the map has few enough names to be
/// sure of room.
#[verifier::external_body]
pub(crate) fn insert_header(
    headers: &mut HeaderMap,
    name: &str,
    value: &str,
    sensitive: bool,
) -> (outcome: Result<(), http::Error>)
    ensures
        outcome is Ok ==> is_value_text(value@),
        outcome is Ok && is_lower_name(name@) ==> header_entries(*final(headers)) == with_header(
            header_entries(*old(headers)),
            (name@, encode_utf8(value@), sensitive),
        ),
        outcome is Err ==> header_entries(*final(headers)) == header_entries(*old(headers)),
        is_lower_name(name@) && is_value_text(value@) && name_count(
            names_of(header_entries(*old(headers))),
        ) <= SAFE_NAME_COUNT ==> outcome is Ok,
{
    let name = HeaderName::from_bytes(name.as_bytes())?;
    let mut value = HeaderValue::from_str(value)?;
    value.set_sensitive(sensitive);
    headers.try_insert(name, value)?;
    Ok(())
}

/// The most headers that a header map can be made for.
pub const MAX_TABLE_SIZE: usize = 24_576;

/// Calls `HeaderMap::try_with_capacity`.
///
/// Trusted: a map is made exactly if it is not for too many headers, and it starts out with no
/// names.
#[verifier::external_body]
pub(crate) fn new_table(size: usize) -> (table: Option<HeaderMap>)
    ensures
        table is Some <==> size <= MAX_TABLE_SIZE,
        table matches Some(made) ==> is_filled_with(made, size as nat, Seq::empty()),
{
    HeaderMap::try_with_capacity(size).ok()
}

/// Calls `HeaderMap::try_append`, with a name made from text and an empty value.
///
/// Trusted: a header that is not refused is one more in the way that the map was filled. A proper
/// name is not refused as long as the map has few enough names to be sure of room. With more
/// names it depends on how their hashes collide, and that stays unsaid: the hashes differ from
/// one kind of machine to another.
#[verifier::external_body]
pub(crate) fn append_name(table: &mut HeaderMap, name: &str) -> (taken: bool)
    ensures
        taken ==> forall|size: nat, names: Seq<Seq<char>>| #[trigger]
            is_filled_with(*old(table), size, names) ==> is_filled_with(
                *final(table),
                size,
                names.push(name@),
            ),
        is_name(name@) && (exists|size: nat, names: Seq<Seq<char>>| #[trigger]
            is_filled_with(*old(table), size, names) && name_count(names) <= SAFE_NAME_COUNT)
            ==> taken,
{
    let value = HeaderValue::from_static("");
    HeaderName::from_bytes(name.as_bytes()).is_ok_and(|name| table.try_append(name, value).is_ok())
}

/// Calls `str::parse` of `http::Uri`, and asks the URI for its parts.
///
/// Trusted: what comes back is a function of the text alone.
#[verifier::external_body]
pub(crate) fn parse_uri(url: &str) -> (outcome: Result<UriParts, InvalidUri>)
    ensures
        uri_parts(url@) == match outcome {
            Ok(parts) => Ok::<Parts, InvalidUri>(parts@),
            Err(error) => Err(error),
        },
{
    url.parse::<http::Uri>().map(|uri| UriParts {
        has_scheme: uri.scheme().is_some(),
        has_authority: uri.authority().is_some(),
        path: uri.path().to_owned(),
        query: uri.query().map(|query| query.to_owned()),
    })
}

/// Calls `Method::as_str`.
///
/// Trusted: the text is a function of the method alone.
#[verifier::external_body]
pub(crate) fn method_str(method: &Method) -> (text: &str)
    ensures
        text@ == method_text(*method),
{
    method.as_str()
}

/// Calls `Bytes::as_ref`.
///
/// Trusted: the slice holds the bytes of the buffer.
#[verifier::external_body]
pub(crate) fn buffer_slice(buffer: &Bytes) -> (bytes: &[u8])
    ensures
        bytes@ == buffer_bytes(*buffer),
{
    buffer.as_ref()
}

/// Calls `HeaderMap::clone`.
///
/// Trusted: the copy holds the same headers in the same order.
#[verifier::external_body]
pub(crate) fn copy_headers(headers: &HeaderMap) -> (copy: HeaderMap)
    ensures
        header_entries(copy) == header_entries(*headers),
{
    headers.clone()
}

/// Calls `Method::clone`.
///
/// Trusted: the copy has the text of the method.
#[verifier::external_body]
pub(crate) fn copy_method(method: &Method) -> (copy: Method)
    ensures
        method_text(copy) == method_text(*method),
{
    method.clone()
}

/// Calls `Bytes::clone`.
///
/// Trusted: the copy holds the bytes of the buffer.
#[verifier::external_body]
pub(crate) fn copy_buffer(buffer: &Bytes) -> (copy: Bytes)
    ensures
        buffer_bytes(copy) == buffer_bytes(*buffer),
{
    buffer.clone()
}

} // verus!
