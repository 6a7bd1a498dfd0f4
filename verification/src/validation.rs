//! Names of organizations and users: what is accepted, and the standard form
//! that is used everywhere past the first boundary.

use vstd::prelude::*;
use vstd::utf8::{
    encode_utf8, encode_utf8_decode_utf8, encode_utf8_valid_utf8, is_ascii_chars,
    is_ascii_chars_encode_utf8,
};
use crate::error::VaultError;
use crate::primitives::text::string_from_utf8;

verus! {

/// Longest accepted name, in characters.
pub const NAME_MAX_LENGTH: usize = 100;

/// An ASCII letter or digit.
pub open spec fn is_ascii_alphanumeric(c: char) -> bool {
    ('0' <= c <= '9') || ('A' <= c <= 'Z') || ('a' <= c <= 'z')
}

/// The lower-case form of an ASCII letter; any other character unchanged.
pub open spec fn ascii_lowercase(c: char) -> char {
    if 'A' <= c <= 'Z' {
        ((c as u8) + 32) as u8 as char
    } else {
        c
    }
}

/// A name is accepted when it has 1 to 100 characters, all of them ASCII
/// letters or digits.
pub open spec fn is_acceptable_name(name: Seq<char>) -> bool {
    &&& 1 <= name.len() <= NAME_MAX_LENGTH
    &&& forall|i: int| 0 <= i < name.len() ==> is_ascii_alphanumeric(#[trigger] name[i])
}

/// The name with every letter in lower case.
pub open spec fn standard_form(name: Seq<char>) -> Seq<char> {
    Seq::new(name.len(), |i: int| ascii_lowercase(name[i]))
}

/// The standard form of an accepted name; nothing for a rejected one.
pub open spec fn normalized(name: Seq<char>) -> Option<Seq<char>> {
    if is_acceptable_name(name) {
        Some(standard_form(name))
    } else {
        None
    }
}

/// A name that is accepted and is its own standard form.
pub open spec fn is_standard_name(name: Seq<char>) -> bool {
    normalized(name) == Some(name)
}

/// The standard form of an accepted name is accepted, and is its own
/// standard form: normalizing twice is normalizing once.
pub proof fn lemma_standard_form_is_standard(name: Seq<char>)
    requires
        is_acceptable_name(name),
    ensures
        is_acceptable_name(standard_form(name)),
        standard_form(standard_form(name)) == standard_form(name),
        is_standard_name(standard_form(name)),
        normalized(normalized(name).unwrap()) == normalized(name),
{
    let standard = standard_form(name);
    assert forall|i: int| 0 <= i < standard.len() implies is_ascii_alphanumeric(
        #[trigger] standard[i],
    ) && ascii_lowercase(standard[i]) == standard[i] by {
        assert(is_ascii_alphanumeric(name[i]));
        lemma_lowercase_of_alphanumeric(name[i]);
    }
    assert(standard_form(standard) =~= standard);
}

/// The lower-case form of an ASCII letter or digit is an ASCII letter or
/// digit that is its own lower-case form.
proof fn lemma_lowercase_of_alphanumeric(c: char)
    requires
        is_ascii_alphanumeric(c),
    ensures
        is_ascii_alphanumeric(ascii_lowercase(c)),
        ascii_lowercase(ascii_lowercase(c)) == ascii_lowercase(c),
        !('A' <= ascii_lowercase(c) <= 'Z'),
{
}

/// A name that holds anything but ASCII letters and digits is rejected: a
/// path separator, a dot, a NUL, a space, a letter with an accent.
pub proof fn lemma_other_characters_are_rejected(name: Seq<char>, position: int)
    requires
        0 <= position < name.len(),
        !is_ascii_alphanumeric(name[position]),
    ensures
        normalized(name).is_none(),
        !is_standard_name(name),
{
}

/// No accepted name holds a dot, a slash, a backslash or a NUL: a name that
/// went through validation cannot name a parent folder or reach below
/// another folder.
pub proof fn lemma_names_cannot_leave_their_folder(name: Seq<char>, position: int)
    requires
        0 <= position < name.len(),
        name[position] == '.' || name[position] == '/' || name[position] == '\\'
            || name[position] == '\0',
    ensures
        normalized(name).is_none(),
        !is_standard_name(name),
{
}

/// The empty name and names of more than 100 characters are rejected.
pub proof fn lemma_length_is_bounded(name: Seq<char>)
    requires
        name.len() == 0 || name.len() > NAME_MAX_LENGTH,
    ensures
        normalized(name).is_none(),
{
}

spec fn lowercase_byte(b: u8) -> u8 {
    if 65 <= b <= 90 {
        (b + 32) as u8
    } else {
        b
    }
}

fn is_alphanumeric_byte(b: u8) -> (yes: bool)
    ensures
        yes == (b < 128 && is_ascii_alphanumeric(b as char)),
{
    (48 <= b && b <= 57) || (65 <= b && b <= 90) || (97 <= b && b <= 122)
}

/// Validates that a name is only alphanumerical and has a length between 1
/// and 100, and returns its lower-case version. Past this point only the
/// returned form of a name is used.
pub fn validate_and_standardize_name(name: &str) -> (result: Result<String, VaultError>)
    ensures
        is_acceptable_name(name@) ==> result.is_ok() && result.unwrap()@ == standard_form(name@)
            && is_standard_name(result.unwrap()@),
        !is_acceptable_name(name@) ==> result == Err::<String, VaultError>(
            VaultError::ValidationError,
        ),
{
    if !name.is_ascii() {
        return Err(VaultError::ValidationError);
    }
    let bytes = name.as_bytes();
    proof {
        is_ascii_chars_encode_utf8(name@);
    }
    let length: usize = bytes.len();
    if length < 1 || length > NAME_MAX_LENGTH {
        return Err(VaultError::ValidationError);
    }
    let mut lowered: Vec<u8> = Vec::new();
    let mut i: usize = 0;
    while i < length
        invariant
            i <= length,
            length == bytes@.len(),
            length == name@.len(),
            is_ascii_chars(name@),
            forall|k: int| 0 <= k < length ==> name@[k] as u8 == #[trigger] bytes@[k],
            lowered@.len() == i,
            forall|k: int| 0 <= k < i ==> is_ascii_alphanumeric(#[trigger] name@[k]),
            forall|k: int| 0 <= k < i ==> #[trigger] lowered@[k] == lowercase_byte(bytes@[k]),
        decreases length - i,
    {
        let b: u8 = bytes[i];
        assert(name@[i as int] as u8 == bytes@[i as int]);
        if !is_alphanumeric_byte(b) {
            assert(!is_ascii_alphanumeric(name@[i as int]));
            return Err(VaultError::ValidationError);
        }
        let low: u8 = if 65 <= b && b <= 90 {
            b + 32
        } else {
            b
        };
        lowered.push(low);
        i = i + 1;
    }
    proof {
        let standard = standard_form(name@);
        lemma_standard_form_is_standard(name@);
        assert(is_ascii_chars(standard));
        is_ascii_chars_encode_utf8(standard);
        assert(encode_utf8(standard) =~= lowered@);
        encode_utf8_valid_utf8(standard);
        encode_utf8_decode_utf8(standard);
    }
    match string_from_utf8(lowered) {
        Some(text) => Ok(text),
        None => Err(VaultError::ValidationError),
    }
}

} // verus!
