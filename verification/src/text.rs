//! Text as it comes out of a child process: bytes that are decoded, and
//! decoded text that is trimmed at its end.

use std::string::FromUtf8Error;
use vstd::prelude::*;
use vstd::utf8::{decode_utf8, valid_utf8};

verus! {

/// `std::string::FromUtf8Error`: why bytes are no UTF-8. It is handed on as
/// it came; nothing is known of what it holds.
#[verifier::external_type_specification]
#[verifier::external_body]
pub struct ExFromUtf8Error(FromUtf8Error);

/// Whether `str::trim_end` counts a character as whitespace: whether it
/// has Unicode's White_Space property.
pub uninterp spec fn white_space(c: char) -> bool;

/// A text without the whitespace at its end.
pub open spec fn trimmed_end(text: Seq<char>) -> Seq<char>
    decreases text.len(),
{
    if text.len() > 0 && white_space(text.last()) {
        trimmed_end(text.drop_last())
    } else {
        text
    }
}

/// `String::from_utf8` succeeds on the byte sequences that are UTF-8, on
/// no others, and gives the text that the bytes encode.
pub assume_specification[ String::from_utf8 ](vec: Vec<u8>) -> (result: Result<
    String,
    FromUtf8Error,
>)
    ensures
        result is Ok <==> valid_utf8(vec@),
        result matches Ok(text) ==> text@ == decode_utf8(vec@),
;

/// `str::trim_end` cuts the whitespace off the end of a text: what it
/// gives is the text's beginning, all that is cut off is whitespace, and what
/// it gives does not end in whitespace.
pub assume_specification[ str::trim_end ](text: &str) -> (kept: &str)
    ensures
        kept@.is_prefix_of(text@),
        forall|i: int| kept@.len() <= i < text@.len() ==> white_space(#[trigger] text@[i]),
        kept@.len() > 0 ==> !white_space(kept@.last()),
;

/// Only one beginning of a text is the text without the whitespace at its
/// end: the one that is followed by whitespace alone and does not end in
/// whitespace.
pub proof fn lemma_trimmed_end_unique(text: Seq<char>, kept: Seq<char>)
    requires
        kept.is_prefix_of(text),
        forall|i: int| kept.len() <= i < text.len() ==> white_space(#[trigger] text[i]),
        kept.len() > 0 ==> !white_space(kept.last()),
    ensures
        kept == trimmed_end(text),
    decreases text.len(),
{
    if kept.len() == text.len() {
        assert(kept =~= text);
    } else {
        assert(white_space(text[text.len() - 1]));
        assert(kept.is_prefix_of(text.drop_last()));
        assert forall|i: int| kept.len() <= i < text.drop_last().len() implies white_space(
            #[trigger] text.drop_last()[i],
        ) by {
            assert(text.drop_last()[i] == text[i]);
        }
        lemma_trimmed_end_unique(text.drop_last(), kept);
    }
}

} // verus!
