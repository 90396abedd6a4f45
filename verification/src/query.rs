//! How long the query of a URL gets when the signer encodes it anew.
//!
//! The signer takes a query apart into names and values, decodes them as text, and percent-encodes
//! the text. The result has to fit a URI.
use vstd::prelude::*;
use vstd::slice::slice_subrange;
use vstd::utf8::length_of_first_scalar;
use vstd::utf8::valid_first_scalar;

verus! {

/// The byte between two parameters of a query.
pub const AMPERSAND: u8 = 0x26;

/// The byte between the name and the value of a parameter.
pub const EQUALS_SIGN: u8 = 0x3d;

/// The byte that starts an escaped byte.
pub const PERCENT_SIGN: u8 = 0x25;

/// The position of the first `mark`, or the length if there is none.
pub open spec fn position_of(bytes: Seq<u8>, mark: u8) -> int
    decreases bytes.len(),
{
    if bytes.len() == 0 || bytes.first() == mark {
        0
    } else {
        1 + position_of(bytes.drop_first(), mark)
    }
}

/// The value of a hexadecimal digit.
pub open spec fn hex_value(digit: u8) -> Option<u8> {
    if 0x30 <= digit <= 0x39 {
        Some((digit - 0x30) as u8)
    } else if 0x41 <= digit <= 0x46 {
        Some((digit - 0x37) as u8)
    } else if 0x61 <= digit <= 0x66 {
        Some((digit - 0x57) as u8)
    } else {
        None
    }
}

/// The byte that is escaped at the start of `bytes`, if one is.
pub open spec fn escaped_byte(bytes: Seq<u8>) -> Option<u8> {
    if bytes.len() >= 3 && bytes[0] == PERCENT_SIGN {
        match (hex_value(bytes[1]), hex_value(bytes[2])) {
            (Some(high), Some(low)) => Some((16 * high + low) as u8),
            _ => None,
        }
    } else {
        None
    }
}

/// Some bytes with every escaped byte in place of its escape. A plus sign stands for a space,
/// but both are as long when they are encoded, so it is left as it is.
pub open spec fn unescaped(bytes: Seq<u8>) -> Seq<u8>
    decreases bytes.len(),
{
    if bytes.len() == 0 {
        bytes
    } else {
        match escaped_byte(bytes) {
            Some(byte) => seq![byte] + unescaped(bytes.skip(3)),
            None => seq![bytes[0]] + unescaped(bytes.skip(1)),
        }
    }
}

/// There is a byte at `i`, and it is within the bounds.
pub open spec fn is_within(bytes: Seq<u8>, i: int, low: u8, high: u8) -> bool {
    0 <= i < bytes.len() && low <= bytes[i] <= high
}

/// How many bytes the first character takes, and whether it is a character in UTF-8. If it is
/// none, the bytes are those that one replacement character stands for: the longest start of a
/// character.
pub open spec fn first_character(bytes: Seq<u8>) -> (int, bool) {
    let first = bytes[0];
    let low: u8 = if first == 0xe0 {
        0xa0
    } else if first == 0xf0 {
        0x90
    } else {
        0x80
    };
    let high: u8 = if first == 0xed {
        0x9f
    } else if first == 0xf4 {
        0x8f
    } else {
        0xbf
    };
    let width: int = if first < 0x80 {
        1
    } else if 0xc2 <= first <= 0xdf {
        2
    } else if 0xe0 <= first <= 0xef {
        3
    } else if 0xf0 <= first <= 0xf4 {
        4
    } else {
        0
    };
    if width == 1 {
        (1, true)
    } else if width == 0 || !is_within(bytes, 1, low, high) {
        (1, false)
    } else if width == 2 {
        (2, true)
    } else if !is_within(bytes, 2, 0x80, 0xbf) {
        (2, false)
    } else if width == 3 {
        (3, true)
    } else if !is_within(bytes, 3, 0x80, 0xbf) {
        (3, false)
    } else {
        (4, true)
    }
}

/// A byte that stands for itself in an encoded query: a letter, a digit, or one of `-`, `.`, `_`
/// and `~`.
pub open spec fn is_unreserved(byte: u8) -> bool {
    ||| 0x30 <= byte <= 0x39
    ||| 0x41 <= byte <= 0x5a
    ||| 0x61 <= byte <= 0x7a
    ||| byte == 0x2d
    ||| byte == 0x2e
    ||| byte == 0x5f
    ||| byte == 0x7e
}

/// How many bytes the first character takes when it is encoded. A replacement character has three
/// bytes, and every byte but the unreserved ones is encoded in three.
pub open spec fn first_encoded_len(bytes: Seq<u8>) -> nat {
    let (width, is_character) = first_character(bytes);
    if !is_character {
        9
    } else if width == 1 && is_unreserved(bytes[0]) {
        1
    } else {
        (3 * width) as nat
    }
}

/// How many bytes some text takes when it is encoded.
pub open spec fn encoded_len(bytes: Seq<u8>) -> nat
    decreases bytes.len(),
{
    if bytes.len() == 0 {
        0
    } else {
        first_encoded_len(bytes) + encoded_len(bytes.skip(first_character(bytes).0))
    }
}

/// How many bytes a parameter takes when it is encoded: those of its name, its value, the equals
/// sign between them and the mark before them. An empty parameter is left out.
pub open spec fn parameter_len(parameter: Seq<u8>) -> nat {
    if parameter.len() == 0 {
        0
    } else {
        let end = position_of(parameter, EQUALS_SIGN);
        let value = if end < parameter.len() {
            parameter.skip(end + 1)
        } else {
            Seq::empty()
        };
        2 + encoded_len(unescaped(parameter.take(end))) + encoded_len(unescaped(value))
    }
}

/// How many bytes a query takes when it is encoded, with the question mark before it.
pub open spec fn query_len(query: Seq<u8>) -> nat
    decreases query.len(),
{
    let end = position_of(query, AMPERSAND);
    if 0 <= end < query.len() {
        parameter_len(query.take(end)) + query_len(query.skip(end + 1))
    } else {
        parameter_len(query)
    }
}

/// Returns the position of the first `mark`, or the length if there is none.
fn find(bytes: &[u8], mark: u8) -> (position: usize)
    ensures
        position == position_of(bytes@, mark),
        position <= bytes@.len(),
{
    let mut i: usize = 0;
    assert(bytes@.skip(0) =~= bytes@);
    while i < bytes.len() && bytes[i] != mark
        invariant
            i <= bytes@.len(),
            position_of(bytes@, mark) == i + position_of(bytes@.skip(i as int), mark),
        decreases bytes@.len() - i,
    {
        assert(bytes@.skip(i as int).first() == bytes@[i as int]);
        assert(bytes@.skip(i as int).drop_first() =~= bytes@.skip(i + 1));
        i += 1;
    }
    assert(i < bytes@.len() ==> bytes@.skip(i as int).first() == mark);
    i
}

/// Returns the value of a hexadecimal digit.
fn hex_digit(digit: u8) -> (value: Option<u8>)
    ensures
        value == hex_value(digit),
        value matches Some(number) ==> number < 16,
{
    if 0x30 <= digit && digit <= 0x39 {
        Some(digit - 0x30)
    } else if 0x41 <= digit && digit <= 0x46 {
        Some(digit - 0x37)
    } else if 0x61 <= digit && digit <= 0x66 {
        Some(digit - 0x57)
    } else {
        None
    }
}

/// Returns the byte that is escaped at the start of `bytes`, if one is.
fn read_escape(bytes: &[u8]) -> (byte: Option<u8>)
    ensures
        byte == escaped_byte(bytes@),
        byte is Some ==> bytes@.len() >= 3,
{
    if bytes.len() >= 3 && bytes[0] == PERCENT_SIGN {
        match (hex_digit(bytes[1]), hex_digit(bytes[2])) {
            (Some(high), Some(low)) => Some(16 * high + low),
            _ => None,
        }
    } else {
        None
    }
}

/// Puts every escaped byte in place of its escape.
fn unescape(bytes: &[u8]) -> (plain: Vec<u8>)
    ensures
        plain@ == unescaped(bytes@),
        plain@.len() <= bytes@.len(),
{
    let mut plain: Vec<u8> = Vec::new();
    let mut rest = bytes;
    while rest.len() > 0
        invariant
            unescaped(bytes@) =~= plain@ + unescaped(rest@),
            plain@.len() + rest@.len() <= bytes@.len(),
        decreases rest@.len(),
    {
        let ghost before = plain@;
        match read_escape(rest) {
            Some(byte) => {
                plain.push(byte);
                let next = slice_subrange(rest, 3, rest.len());
                assert(next@ =~= rest@.skip(3));
                assert(before + (seq![byte] + unescaped(next@)) =~= plain@ + unescaped(next@));
                rest = next;
            },
            None => {
                plain.push(rest[0]);
                let next = slice_subrange(rest, 1, rest.len());
                assert(next@ =~= rest@.skip(1));
                assert(before + (seq![rest@[0]] + unescaped(next@)) =~= plain@ + unescaped(next@));
                rest = next;
            },
        }
    }
    assert(plain@ + unescaped(rest@) =~= plain@);
    plain
}

/// Returns whether there is a byte at `i` within the bounds.
fn byte_within(bytes: &[u8], i: usize, low: u8, high: u8) -> (within: bool)
    ensures
        within == is_within(bytes@, i as int, low, high),
{
    i < bytes.len() && low <= bytes[i] && bytes[i] <= high
}

/// Measures the first character.
fn read_character(bytes: &[u8]) -> (measured: (usize, bool))
    requires
        bytes@.len() > 0,
    ensures
        (measured.0 as int, measured.1) == first_character(bytes@),
        1 <= measured.0 <= 4,
        measured.0 <= bytes@.len(),
{
    let first = bytes[0];
    let low: u8 = if first == 0xe0 {
        0xa0
    } else if first == 0xf0 {
        0x90
    } else {
        0x80
    };
    let high: u8 = if first == 0xed {
        0x9f
    } else if first == 0xf4 {
        0x8f
    } else {
        0xbf
    };
    let width: usize = if first < 0x80 {
        1
    } else if 0xc2 <= first && first <= 0xdf {
        2
    } else if 0xe0 <= first && first <= 0xef {
        3
    } else if 0xf0 <= first && first <= 0xf4 {
        4
    } else {
        0
    };
    if width == 1 {
        (1, true)
    } else if width == 0 || !byte_within(bytes, 1, low, high) {
        (1, false)
    } else if width == 2 {
        (2, true)
    } else if !byte_within(bytes, 2, 0x80, 0xbf) {
        (2, false)
    } else if width == 3 {
        (3, true)
    } else if !byte_within(bytes, 3, 0x80, 0xbf) {
        (3, false)
    } else {
        (4, true)
    }
}

/// Returns whether a byte stands for itself in an encoded query.
fn stands_for_itself(byte: u8) -> (plain: bool)
    ensures
        plain == is_unreserved(byte),
{
    (0x30 <= byte && byte <= 0x39) || (0x41 <= byte && byte <= 0x5a) || (0x61 <= byte && byte
        <= 0x7a) || byte == 0x2d || byte == 0x2e || byte == 0x5f || byte == 0x7e
}

/// Returns how many bytes some text takes when it is encoded.
fn measure_text(bytes: &[u8]) -> (total: u128)
    ensures
        total == encoded_len(bytes@),
        total <= 9 * bytes@.len(),
{
    let size = bytes.len();
    let mut total: u128 = 0;
    let mut rest = bytes;
    while rest.len() > 0
        invariant
            encoded_len(bytes@) == total + encoded_len(rest@),
            total + 9 * rest@.len() <= 9 * bytes@.len(),
            bytes@.len() == size,
        decreases rest@.len(),
    {
        let (width, is_character) = read_character(rest);
        let encoded: u128 = if !is_character {
            9
        } else if width == 1 && stands_for_itself(rest[0]) {
            1
        } else {
            3 * (width as u128)
        };
        let next = slice_subrange(rest, width, rest.len());
        assert(next@ =~= rest@.skip(width as int));
        assert(encoded == first_encoded_len(rest@));
        total += encoded;
        rest = next;
    }
    total
}

/// Returns how many bytes a parameter takes when it is encoded.
fn measure_parameter(parameter: &[u8]) -> (total: u128)
    ensures
        total == parameter_len(parameter@),
        total <= 11 * parameter@.len(),
{
    if parameter.len() == 0 {
        return 0;
    }
    let end = find(parameter, EQUALS_SIGN);
    let name = slice_subrange(parameter, 0, end);
    assert(name@ =~= parameter@.take(end as int));
    let name_len = measure_text(unescape(name).as_slice());
    if end < parameter.len() {
        let value = slice_subrange(parameter, end + 1, parameter.len());
        assert(value@ =~= parameter@.skip(end + 1));
        2 + name_len + measure_text(unescape(value).as_slice())
    } else {
        assert(encoded_len(unescaped(Seq::<u8>::empty())) == 0);
        2 + name_len
    }
}

/// Returns how many bytes a query takes when it is encoded, with the question mark before it.
pub fn measure_query(query: &[u8]) -> (total: u128)
    ensures
        total == query_len(query@),
        total <= 11 * query@.len(),
{
    let size = query.len();
    let mut total: u128 = 0;
    let mut rest = query;
    loop
        invariant
            query_len(query@) == total + query_len(rest@),
            total + 11 * rest@.len() <= 11 * query@.len(),
            query@.len() == size,
        decreases rest@.len(),
    {
        let end = find(rest, AMPERSAND);
        if end == rest.len() {
            return total + measure_parameter(rest);
        }
        let parameter = slice_subrange(rest, 0, end);
        assert(parameter@ =~= rest@.take(end as int));
        let next = slice_subrange(rest, end + 1, rest.len());
        assert(next@ =~= rest@.skip(end + 1));
        total += measure_parameter(parameter);
        rest = next;
    }
}

/// A query of nothing but unreserved bytes grows by two bytes at most: the question mark, and the
/// equals sign that is missing.
pub proof fn law_plain_queries_do_not_grow(query: Seq<u8>)
    requires
        forall|i: int| 0 <= i < query.len() ==> is_unreserved(#[trigger] query[i]),
    ensures
        query_len(query) <= query.len() + 2,
{
    lemma_no_mark(query, AMPERSAND);
    lemma_no_mark(query, EQUALS_SIGN);
    lemma_plain_text(query);
    assert(query.take(query.len() as int) =~= query);
    assert(encoded_len(unescaped(Seq::<u8>::empty())) == 0);
}

/// Unreserved bytes hold no mark.
proof fn lemma_no_mark(bytes: Seq<u8>, mark: u8)
    requires
        forall|i: int| 0 <= i < bytes.len() ==> is_unreserved(#[trigger] bytes[i]),
        !is_unreserved(mark),
    ensures
        position_of(bytes, mark) == bytes.len(),
    decreases bytes.len(),
{
    if bytes.len() > 0 {
        assert(is_unreserved(bytes[0]));
        lemma_no_mark(bytes.drop_first(), mark);
    }
}

/// Unreserved bytes are neither escaped nor encoded.
proof fn lemma_plain_text(bytes: Seq<u8>)
    requires
        forall|i: int| 0 <= i < bytes.len() ==> is_unreserved(#[trigger] bytes[i]),
    ensures
        unescaped(bytes) == bytes,
        encoded_len(bytes) == bytes.len(),
    decreases bytes.len(),
{
    if bytes.len() > 0 {
        assert(is_unreserved(bytes[0]));
        lemma_plain_text(bytes.skip(1));
        assert(seq![bytes[0]] + bytes.skip(1) =~= bytes);
    }
}

/// Text takes nine bytes at most for each of its bytes, and unescaping adds none.
proof fn lemma_text_bound(bytes: Seq<u8>)
    ensures
        encoded_len(bytes) <= 9 * bytes.len(),
        unescaped(bytes).len() <= bytes.len(),
    decreases bytes.len(),
{
    if bytes.len() > 0 {
        lemma_text_bound(bytes.skip(first_character(bytes).0));
        if escaped_byte(bytes) is Some {
            lemma_text_bound(bytes.skip(3));
        } else {
            lemma_text_bound(bytes.skip(1));
        }
    }
}

/// The first mark is within the bytes.
proof fn lemma_position(bytes: Seq<u8>, mark: u8)
    ensures
        0 <= position_of(bytes, mark) <= bytes.len(),
        position_of(bytes, mark) < bytes.len() ==> bytes[position_of(bytes, mark)] == mark,
    decreases bytes.len(),
{
    if bytes.len() > 0 {
        lemma_position(bytes.drop_first(), mark);
    }
}

/// A query takes eleven bytes at most for each of its bytes when it is encoded.
pub proof fn law_queries_grow_at_most_elevenfold(query: Seq<u8>)
    ensures
        query_len(query) <= 11 * query.len(),
    decreases query.len(),
{
    lemma_position(query, AMPERSAND);
    let end = position_of(query, AMPERSAND);
    if end < query.len() {
        lemma_parameter_bound(query.take(end));
        law_queries_grow_at_most_elevenfold(query.skip(end + 1));
    } else {
        lemma_parameter_bound(query);
    }
}

/// A parameter takes eleven bytes at most for each of its bytes.
proof fn lemma_parameter_bound(parameter: Seq<u8>)
    ensures
        parameter_len(parameter) <= 11 * parameter.len(),
{
    if parameter.len() > 0 {
        lemma_position(parameter, EQUALS_SIGN);
        let end = position_of(parameter, EQUALS_SIGN);
        let value = if end < parameter.len() {
            parameter.skip(end + 1)
        } else {
            Seq::empty()
        };
        lemma_text_bound(parameter.take(end));
        lemma_text_bound(unescaped(parameter.take(end)));
        lemma_text_bound(value);
        lemma_text_bound(unescaped(value));
    }
}

/// The bytes before the first mark stay before it whatever follows.
proof fn lemma_position_in_front(one: Seq<u8>, mark: u8, other: Seq<u8>)
    ensures
        position_of(one.push(mark) + other, mark) == position_of(one, mark),
    decreases one.len(),
{
    let all = one.push(mark) + other;
    if one.len() > 0 && one.first() != mark {
        lemma_position_in_front(one.drop_first(), mark, other);
        assert(all.drop_first() =~= one.drop_first().push(mark) + other);
    }
}

/// Two queries that are joined by an ampersand take as many bytes as both.
pub proof fn law_joined_queries_add_up(one: Seq<u8>, other: Seq<u8>)
    ensures
        query_len(one.push(0x26) + other) == query_len(one) + query_len(other),
    decreases one.len(),
{
    let all = one.push(AMPERSAND) + other;
    let end = position_of(one, AMPERSAND);
    lemma_position(one, AMPERSAND);
    lemma_position_in_front(one, AMPERSAND, other);
    assert(all.take(end) =~= one.take(end));
    if end < one.len() {
        law_joined_queries_add_up(one.skip(end + 1), other);
        assert(all.skip(end + 1) =~= one.skip(end + 1).push(AMPERSAND) + other);
    } else {
        assert(one.take(end) =~= one);
        assert(all.skip(end + 1) =~= other);
    }
}

/// A query of ASCII without marks and escapes takes one byte for each letter, digit, `-`, `.`,
/// `_` and `~`, and three for every other byte, and two more for the marks around it.
pub proof fn law_reserved_bytes_take_three(query: Seq<u8>, reserved: spec_fn(u8) -> bool)
    requires
        query.len() > 0,
        forall|i: int|
            0 <= i < query.len() ==> (#[trigger] query[i]) < 0x80 && query[i] != 0x25 && query[i]
                != 0x26 && query[i] != 0x3d,
        forall|byte: u8| #[trigger]
            reserved(byte) <==> !(0x30 <= byte <= 0x39 || 0x41 <= byte <= 0x5a || 0x61 <= byte
                <= 0x7a || byte == 0x2d || byte == 0x2e || byte == 0x5f || byte == 0x7e),
    ensures
        query_len(query) == 2 + query.len() + 2 * query.filter(reserved).len(),
{
    lemma_unmarked(query, AMPERSAND);
    lemma_unmarked(query, EQUALS_SIGN);
    lemma_ascii_text(query, reserved);
    assert(query.take(query.len() as int) =~= query);
    assert(encoded_len(unescaped(Seq::<u8>::empty())) == 0);
}

/// A mark that is not among the bytes is not found.
proof fn lemma_unmarked(bytes: Seq<u8>, mark: u8)
    requires
        forall|i: int| 0 <= i < bytes.len() ==> #[trigger] bytes[i] != mark,
    ensures
        position_of(bytes, mark) == bytes.len(),
    decreases bytes.len(),
{
    if bytes.len() > 0 {
        assert(bytes[0] != mark);
        lemma_unmarked(bytes.drop_first(), mark);
    }
}

/// ASCII without escapes is taken byte by byte.
proof fn lemma_ascii_text(bytes: Seq<u8>, reserved: spec_fn(u8) -> bool)
    requires
        forall|i: int|
            0 <= i < bytes.len() ==> (#[trigger] bytes[i]) < 0x80 && bytes[i] != PERCENT_SIGN,
        forall|byte: u8| #[trigger] reserved(byte) <==> !is_unreserved(byte),
    ensures
        unescaped(bytes) == bytes,
        encoded_len(bytes) == bytes.len() + 2 * bytes.filter(reserved).len(),
    decreases bytes.len(),
{
    reveal(Seq::filter);
    if bytes.len() > 0 {
        let rest = bytes.skip(1);
        assert(bytes[0] < 0x80 && bytes[0] != PERCENT_SIGN);
        lemma_ascii_text(rest, reserved);
        assert(seq![bytes[0]] + rest =~= bytes);
        Seq::filter_distributes_over_add(seq![bytes[0]], rest, reserved);
        Seq::<u8>::empty().lemma_filter_len_push(reserved, bytes[0]);
        assert(Seq::<u8>::empty().push(bytes[0]) =~= seq![bytes[0]]);
    }
}

/// What is taken for a character is one in UTF-8, and takes as many bytes as UTF-8 gives it.
pub proof fn law_characters_are_utf8(bytes: Seq<u8>)
    requires
        bytes.len() > 0,
    ensures
        first_character(bytes).1 <==> valid_first_scalar(bytes),
        first_character(bytes).1 ==> first_character(bytes).0 == length_of_first_scalar(bytes),
        1 <= first_character(bytes).0 <= bytes.len(),
        first_character(bytes).0 <= 4,
{
    let b1 = bytes[0];
    let b2 = bytes[1];
    let b3 = bytes[2];
    let b4 = bytes[3];
    assert((b1 & 0x7F) <= 0x7f) by (bit_vector);
    assert(0xc0 <= b1 <= 0xdf && 0x80 <= b2 <= 0xbf ==> {
        let point = (((b1 & 0x1F) as u32) << 6) | ((b2 & 0x3f) as u32);
        (0x80 <= point <==> 0xc2 <= b1) && point < 0xd800
    }) by (bit_vector);
    assert(0xe0 <= b1 <= 0xef && 0x80 <= b2 <= 0xbf && 0x80 <= b3 <= 0xbf ==> {
        let point = (((b1 & 0x0F) as u32) << 12) | (((b2 & 0x3f) as u32) << 6) | ((b3
            & 0x3f) as u32);
        (0x800 <= point <==> (b1 != 0xe0 || 0xa0 <= b2)) && (0xd800 <= point <= 0xdfff <==> b1
            == 0xed && 0xa0 <= b2)
    }) by (bit_vector);
    assert(0xf0 <= b1 <= 0xf7 && 0x80 <= b2 <= 0xbf && 0x80 <= b3 <= 0xbf && 0x80 <= b4 <= 0xbf
        ==> {
        let point = (((b1 & 0x07) as u32) << 18) | (((b2 & 0x3f) as u32) << 12) | (((b3
            & 0x3f) as u32) << 6) | ((b4 & 0x3f) as u32);
        0x10000 <= point <= 0x10ffff <==> b1 <= 0xf4 && (b1 != 0xf0 || 0x90 <= b2) && (b1 != 0xf4
            || b2 <= 0x8f)
    }) by (bit_vector);
}

/// Text is encoded character by character: an unreserved one in one byte, any other one in three
/// for each of its bytes, and what is no character in the nine of a replacement character.
pub proof fn law_text_is_encoded_by_character(bytes: Seq<u8>)
    requires
        bytes.len() > 0,
    ensures
        valid_first_scalar(bytes) ==> encoded_len(bytes) == encoded_len(
            bytes.skip(length_of_first_scalar(bytes)),
        ) + (if {
            let first = bytes[0];
            ||| 0x30 <= first <= 0x39
            ||| 0x41 <= first <= 0x5a
            ||| 0x61 <= first <= 0x7a
            ||| first == 0x2d
            ||| first == 0x2e
            ||| first == 0x5f
            ||| first == 0x7e
        } {
            1
        } else {
            3 * length_of_first_scalar(bytes)
        }),
        !valid_first_scalar(bytes) ==> exists|n: int|
            1 <= n <= 3 && n <= bytes.len() && encoded_len(bytes) == 9 + encoded_len(
                #[trigger] bytes.skip(n),
            ),
        encoded_len(Seq::empty()) == 0,
{
    law_characters_are_utf8(bytes);
    let n = first_character(bytes).0;
    assert(bytes.skip(n).len() == bytes.len() - n);
}

/// A percent sign and two hexadecimal digits stand for the byte that they name, and every other
/// byte stands for itself.
pub proof fn law_escapes_name_a_byte(bytes: Seq<u8>, high: int, low: int)
    ensures
        bytes.len() >= 3 && bytes[0] == 0x25 && 0 <= high < 16 && 0 <= low < 16 && (bytes[1] == (
        if high < 10 {
            0x30 + high
        } else {
            0x37 + high
        }) || high >= 10 && bytes[1] == 0x57 + high) && (bytes[2] == (if low < 10 {
            0x30 + low
        } else {
            0x37 + low
        }) || low >= 10 && bytes[2] == 0x57 + low) ==> unescaped(bytes) == seq![
            (16 * high + low) as u8,
        ] + unescaped(bytes.skip(3)),
        bytes.len() > 0 && bytes[0] != 0x25 ==> unescaped(bytes) == seq![bytes[0]] + unescaped(
            bytes.skip(1),
        ),
        unescaped(Seq::empty()).len() == 0,
{
}

/// A parameter takes what its name and its value take, which its first equals sign parts, and two
/// bytes more. Without an equals sign it has no value, and an empty parameter takes nothing.
pub proof fn law_parameters_have_names_and_values(name: Seq<u8>, value: Seq<u8>)
    requires
        forall|i: int|
            0 <= i < name.len() ==> #[trigger] name[i] != 0x3d && name[i] != 0x26,
        forall|i: int| 0 <= i < value.len() ==> #[trigger] value[i] != 0x26,
    ensures
        query_len(name.push(0x3d) + value) == 2 + encoded_len(unescaped(name)) + encoded_len(
            unescaped(value),
        ),
        name.len() > 0 ==> query_len(name) == 2 + encoded_len(unescaped(name)),
        query_len(Seq::empty()) == 0,
{
    let both = name.push(EQUALS_SIGN) + value;
    assert forall|i: int| 0 <= i < both.len() implies #[trigger] both[i] != AMPERSAND by {
        if i < name.len() {
            assert(both[i] == name[i]);
        } else if i > name.len() {
            assert(both[i] == value[i - name.len() - 1]);
        }
    }
    lemma_unmarked(both, AMPERSAND);
    lemma_unmarked(name, AMPERSAND);
    lemma_unmarked(name, EQUALS_SIGN);
    lemma_position_in_front(name, EQUALS_SIGN, value);
    assert(both.take(name.len() as int) =~= name);
    assert(both.skip(name.len() as int + 1) =~= value);
    assert(name.take(name.len() as int) =~= name);
    assert(encoded_len(unescaped(Seq::<u8>::empty())) == 0);
}

/// A measured query is as long as is said.
pub proof fn law_queries_are_measured(query: &[u8], total: u128)
    requires
        call_ensures(measure_query, (query,), total),
    ensures
        total == query_len(query@),
{
}

} // verus!
