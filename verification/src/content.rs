//! From the bytes of a file to the text that the INI parser reads.
//!
//! A file is text when its bytes, after a leading UTF-8 byte-order mark is
//! left out, are valid UTF-8.

use vstd::prelude::*;
use vstd::slice::slice_subrange;
use vstd::utf8::{decode_utf8, encode_utf8, encode_utf8_decode_utf8, valid_utf8};

verus! {

/// `core::str::Utf8Error`, which `core::str::from_utf8` returns for bytes that
/// are not valid UTF-8. It is only passed through.
#[verifier::external_type_specification]
#[verifier::external_body]
pub struct ExUtf8Error(core::str::Utf8Error);

/// `core::str::from_utf8` checks that the bytes are valid UTF-8 and, if they
/// are, hands them back as a string slice over the same bytes; otherwise it
/// returns an error.
pub assume_specification[ core::str::from_utf8 ](bytes: &[u8]) -> (r: Result<
    &str,
    core::str::Utf8Error,
>)
    ensures
        r is Ok <==> valid_utf8(bytes@),
        r matches Ok(text) ==> encode_utf8(text@) == bytes@,
;

/// Whether the content starts with the UTF-8 byte-order mark `EF BB BF`.
pub open spec fn has_bom(content: Seq<u8>) -> bool {
    content.len() >= 3 && content[0] == 0xEF && content[1] == 0xBB && content[2] == 0xBF
}

/// The content without a leading byte-order mark.
pub open spec fn without_bom(content: Seq<u8>) -> Seq<u8> {
    if has_bom(content) {
        content.skip(3)
    } else {
        content
    }
}

/// The text that the content encodes, if it encodes one.
pub open spec fn text_of(content: Seq<u8>) -> Option<Seq<char>> {
    let body = without_bom(content);
    if valid_utf8(body) {
        Some(decode_utf8(body))
    } else {
        None
    }
}

/// Leaves out a leading byte-order mark.
pub fn strip_bom(content: &[u8]) -> (body: &[u8])
    ensures
        body@ == without_bom(content@),
{
    if content.len() >= 3 && content[0] == 0xEF && content[1] == 0xBB && content[2] == 0xBF {
        slice_subrange(content, 3, content.len())
    } else {
        content
    }
}

/// Reads the content as text: `Some` exactly when it is valid UTF-8 behind an
/// optional byte-order mark.
pub fn read_text(content: &[u8]) -> (r: Option<&str>)
    ensures
        match r {
            Some(text) => text_of(content@) == Some(text@),
            None => text_of(content@) is None,
        },
{
    match core::str::from_utf8(strip_bom(content)) {
        Ok(text) => {
            proof {
                encode_utf8_decode_utf8(text@);
            }
            Some(text)
        },
        Err(_) => None,
    }
}

} // verus!
