use vstd::prelude::*;
use vstd::utf8::encode_utf8;
use data_encoding::BASE32;
use crate::bytes::optional_bytes;

verus! {

/// Longest input that `Encoding::encode` takes without a risk of panic on any
/// machine.
pub const BASE32_MAX_INPUT: usize = 8_388_607;

/// What `BASE32.encode` writes for a byte string.
pub uninterp spec fn base32_encoded(bytes: Seq<u8>) -> Seq<char>;

/// What `BASE32.decode` reads from a text; nothing when it is no padded
/// base32 text.
pub uninterp spec fn base32_decoded(text: Seq<char>) -> Option<Seq<u8>>;

/// A symbol of the base32 alphabet, or the padding sign.
pub open spec fn is_base32_symbol(c: char) -> bool {
    ('A' <= c <= 'Z') || ('2' <= c <= '7') || c == '='
}

/// `BASE32.encode`. Believed: the text is made of the 32 symbols `A` to `Z`,
/// `2` to `7` and the padding sign `=`, has 8 characters for every 5 bytes
/// begun, and decodes to the bytes it was made of.
#[verifier::external_body]
pub(crate) fn base32_encode(bytes: &[u8]) -> (text: String)
    requires
        bytes@.len() <= BASE32_MAX_INPUT,
    ensures
        text@ == base32_encoded(bytes@),
        text@.len() == 8 * ((bytes@.len() + 4) / 5),
        forall|i: int| 0 <= i < text@.len() ==> is_base32_symbol(#[trigger] text@[i]),
        base32_decoded(text@) == Some(bytes@),
{
    BASE32.encode(bytes)
}

/// `BASE32.decode` on the bytes of a text that is short enough for the
/// crate not to panic on any machine.
#[verifier::external_body]
pub(crate) fn base32_decode(text: &str) -> (bytes: Option<Vec<u8>>)
    requires
        encode_utf8(text@).len() <= BASE32_MAX_INPUT,
    ensures
        optional_bytes(bytes) == base32_decoded(text@),
{
    BASE32.decode(text.as_bytes()).ok()
}

} // verus!
