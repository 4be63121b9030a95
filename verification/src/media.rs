//! Small computations on what the pipeline's tools hand back.

use base64::Engine;
use vstd::prelude::*;
use vstd::string::*;

verus! {

/// The byte `{`, with which a JSON object starts.
pub const OPEN_BRACE: u8 = 0x7b;

/// `bytes` holds an opening brace.
pub open spec fn has_brace(bytes: Seq<u8>) -> bool {
    exists|i: int| 0 <= i < bytes.len() && bytes[i] == OPEN_BRACE
}

/// Where the JSON object starts in the output of the transcription tool,
/// which may print other lines first: at the first opening brace, or at 0
/// if there is none.
pub fn json_start(output: &[u8]) -> (start: usize)
    ensures
        has_brace(output@) ==> start < output@.len() && output@[start as int] == OPEN_BRACE,
        forall|i: int| 0 <= i < start ==> output@[i] != OPEN_BRACE,
        !has_brace(output@) ==> start == 0,
{
    let mut i: usize = 0;
    while i < output.len()
        invariant
            i <= output.len(),
            forall|j: int| 0 <= j < i ==> output@[j] != OPEN_BRACE,
        decreases output.len() - i,
    {
        if output[i] == OPEN_BRACE {
            return i;
        }
        i += 1;
    }
    0
}

/// The standard base64 text of `bytes` (RFC 4648, with padding), as
/// `base64::engine::general_purpose::STANDARD` encodes it.
pub uninterp spec fn base64_standard(bytes: Seq<u8>) -> Seq<char>;

/// An input of this length can be encoded: the encoded text, four
/// characters for every three bytes begun, is not longer than an
/// allocation may be.
pub open spec fn fits_base64(len: nat) -> bool {
    ((len + 2) / 3) * 4 <= isize::MAX
}

/// Encodes `bytes` with `Engine::encode` of the `base64` crate's `STANDARD`
/// engine. The text is a function of the bytes alone and is known here only
/// by its name. Longer inputs are left out because the crate panics when
/// the length of the text overflows.
#[verifier::external_body]
fn encode_base64(bytes: &[u8]) -> (text: String)
    requires
        fits_base64(bytes@.len()),
    ensures
        text@ == base64_standard(bytes@),
{
    base64::engine::general_purpose::STANDARD.encode(bytes)
}

/// What stands before the encoded image in the URI of a screenshot.
pub open spec fn png_uri_prefix() -> Seq<char> {
    "data:image/png;base64, "@
}

/// The `data:` URI that carries a PNG image, or `None` for an image too
/// long to encode.
pub fn png_data_uri(image: &[u8]) -> (uri: Option<String>)
    ensures
        match uri {
            Some(text) => fits_base64(image@.len()) && text@ == png_uri_prefix()
                + base64_standard(image@),
            None => !fits_base64(image@.len()),
        },
{
    let limit: usize = (isize::MAX as usize) / 4;
    let chunks: usize = image.len() / 3;
    let begun: usize = if image.len() % 3 == 0 {
        chunks
    } else {
        chunks + 1
    };
    if begun > limit {
        return None;
    }
    let encoded = encode_base64(image);
    Some(String::from_str("data:image/png;base64, ").concat(encoded.as_str()))
}

} // verus!
