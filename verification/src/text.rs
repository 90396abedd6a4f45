//! Trimming and quoting of text.
use vstd::prelude::*;

verus! {

/// A character with the Unicode property `White_Space`.
pub open spec fn is_white_space(c: char) -> bool {
    let code = c as u32;
    ||| 0x09 <= code <= 0x0d
    ||| code == 0x20
    ||| code == 0x85
    ||| code == 0xa0
    ||| code == 0x1680
    ||| 0x2000 <= code <= 0x200a
    ||| code == 0x2028
    ||| code == 0x2029
    ||| code == 0x202f
    ||| code == 0x205f
    ||| code == 0x3000
}

/// `text` without the white space at its start.
pub open spec fn trimmed_start(text: Seq<char>) -> Seq<char>
    decreases text.len(),
{
    if text.len() > 0 && is_white_space(text.first()) {
        trimmed_start(text.drop_first())
    } else {
        text
    }
}

/// `text` without the white space at its end.
pub open spec fn trimmed_end(text: Seq<char>) -> Seq<char>
    decreases text.len(),
{
    if text.len() > 0 && is_white_space(text.last()) {
        trimmed_end(text.drop_last())
    } else {
        text
    }
}

/// `text` without the white space at either end.
pub open spec fn trimmed(text: Seq<char>) -> Seq<char> {
    trimmed_end(trimmed_start(text))
}

/// `str::trim` removes the leading and trailing characters that have the Unicode property
/// `White_Space`, and nothing else.
pub assume_specification[ str::trim ](text: &str) -> (inner: &str)
    ensures
        inner@ == trimmed(text@),
;

/// What the `Debug` rendering of a text is.
pub uninterp spec fn quoted(text: Seq<char>) -> Seq<char>;

/// Calls the `Debug` rendering of `str`: the text between double quotes, with the characters
/// escaped that a string literal escapes.
///
/// Trusted: the rendering is a function of the text alone.
#[verifier::external_body]
pub(crate) fn quote(text: &str) -> (shown: String)
    ensures
        shown@ == quoted(text@),
{
    format!("{:?}", text)
}

/// What is left at the start of a trimmed text is no white space.
proof fn lemma_trimmed_start(text: Seq<char>)
    ensures
        trimmed_start(text).len() > 0 ==> !is_white_space(trimmed_start(text).first()),
        trimmed_start(text).len() <= text.len(),
        trimmed_start(text).len() == 0 <==> (forall|i: int|
            0 <= i < text.len() ==> is_white_space(#[trigger] text[i])),
    decreases text.len(),
{
    if text.len() > 0 && is_white_space(text.first()) {
        let rest = text.drop_first();
        lemma_trimmed_start(rest);
        if trimmed_start(rest).len() == 0 {
            assert forall|i: int| 0 <= i < text.len() implies is_white_space(#[trigger] text[i]) by {
                if i > 0 {
                    assert(rest[i - 1] == text[i]);
                }
            }
        } else {
            let j = choose|j: int| 0 <= j < rest.len() && !is_white_space(#[trigger] rest[j]);
            assert(text[j + 1] == rest[j]);
        }
    } else if text.len() > 0 {
        assert(!is_white_space(text[0]));
    }
}

/// Trimming the end keeps the start, unless all of the text is white space.
proof fn lemma_trimmed_end(text: Seq<char>)
    ensures
        trimmed_end(text).len() > 0 ==> !is_white_space(trimmed_end(text).last())
            && trimmed_end(text).first() == text.first(),
        trimmed_end(text).len() <= text.len(),
        text.len() > 0 && !is_white_space(text.first()) ==> trimmed_end(text).len() > 0,
    decreases text.len(),
{
    if text.len() > 0 && is_white_space(text.last()) {
        lemma_trimmed_end(text.drop_last());
    }
}

/// A trimmed text neither starts nor ends with white space, and it is empty exactly if the
/// text held nothing but white space.
pub proof fn law_trimmed_has_no_outer_white_space(text: Seq<char>)
    ensures
        trimmed(text).len() > 0 ==> !is_white_space(trimmed(text).first()) && !is_white_space(
            trimmed(text).last(),
        ),
        trimmed(text).len() == 0 <==> (forall|i: int|
            0 <= i < text.len() ==> is_white_space(#[trigger] text[i])),
{
    lemma_trimmed_start(text);
    lemma_trimmed_end(trimmed_start(text));
}

/// White space at the start is what trimming the start takes away.
proof fn lemma_start_is_white_space(text: Seq<char>)
    ensures
        trimmed_start(text).len() <= text.len(),
        trimmed_start(text) == text.skip(text.len() - trimmed_start(text).len()),
        forall|i: int|
            0 <= i < text.len() - trimmed_start(text).len() ==> is_white_space(#[trigger] text[i]),
    decreases text.len(),
{
    if text.len() > 0 && is_white_space(text.first()) {
        let rest = text.drop_first();
        lemma_start_is_white_space(rest);
        assert(trimmed_start(text) =~= text.skip(text.len() - trimmed_start(text).len()));
        assert forall|i: int| 0 <= i < text.len() - trimmed_start(text).len() implies is_white_space(
            #[trigger] text[i],
        ) by {
            if i > 0 {
                assert(text[i] == rest[i - 1]);
            }
        }
    } else {
        assert(text.skip(0) =~= text);
    }
}

/// White space at the end is what trimming the end takes away.
proof fn lemma_end_is_white_space(text: Seq<char>)
    ensures
        trimmed_end(text).len() <= text.len(),
        trimmed_end(text) == text.take(trimmed_end(text).len() as int),
        forall|i: int|
            trimmed_end(text).len() <= i < text.len() ==> is_white_space(#[trigger] text[i]),
    decreases text.len(),
{
    if text.len() > 0 && is_white_space(text.last()) {
        let rest = text.drop_last();
        lemma_end_is_white_space(rest);
        assert(trimmed_end(text) =~= text.take(trimmed_end(text).len() as int));
        assert forall|i: int| trimmed_end(text).len() <= i < text.len() implies is_white_space(
            #[trigger] text[i],
        ) by {
            if i < rest.len() {
                assert(text[i] == rest[i]);
            }
        }
    } else {
        assert(text.take(text.len() as int) =~= text);
    }
}

/// Trimming takes white space away at both ends, and nothing else: it leaves the part of the text
/// from the first to the last character that is no white space.
pub proof fn law_trimming_keeps_the_inner_text(text: Seq<char>, first: int, last: int)
    requires
        0 <= first <= last < text.len(),
        !is_white_space(text[first]),
        !is_white_space(text[last]),
        forall|i: int|
            0 <= i < first || last < i < text.len() ==> is_white_space(#[trigger] text[i]),
    ensures
        trimmed(text) == text.subrange(first, last + 1),
{
    let start = trimmed_start(text);
    let from = text.len() - start.len();
    lemma_start_is_white_space(text);
    lemma_trimmed_start(text);
    assert(from <= first);
    assert(start.len() > 0 && start.first() == text[from]);
    assert(from == first);
    lemma_end_is_white_space(start);
    lemma_trimmed_end(start);
    let inner = trimmed_end(start);
    assert(inner.len() >= last + 1 - first) by {
        assert(start[last - first] == text[last]);
    }
    assert(inner.last() == text[first + inner.len() - 1]);
    assert(inner =~= text.subrange(first, last + 1));
}

/// Which characters are white space.
pub proof fn law_white_space(c: char)
    ensures
        is_white_space(c) <==> {
            ||| 9 <= c as u32 <= 13
            ||| c as u32 == 32 || c as u32 == 133 || c as u32 == 160 || c as u32 == 5760
            ||| 8192 <= c as u32 <= 8202
            ||| c as u32 == 8232 || c as u32 == 8233 || c as u32 == 8239 || c as u32 == 8287
            ||| c as u32 == 12288
        },
{
}

/// Trimming a trimmed text changes nothing.
pub proof fn law_trimming_is_idempotent(text: Seq<char>)
    ensures
        trimmed(trimmed(text)) == trimmed(text),
{
    law_trimmed_has_no_outer_white_space(text);
}

} // verus!
