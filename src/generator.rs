//! Random passwords for new entries.
use vstd::prelude::*;

use crate::crypto::{random_below, utf8_decode};
use crate::error::VaultError;

verus! {

/// Length of a generated password.
pub const GENERATED_LEN: usize = 32;

/// First printable ASCII character (the space).
pub const FIRST_PRINTABLE: u8 = 0x20;

/// Number of printable ASCII characters, space to tilde.
pub const PRINTABLE_COUNT: usize = 95;

/// `c` is a printable ASCII character, space to tilde.
pub open spec fn is_printable_ascii(c: char) -> bool {
    ' ' <= c <= '~'
}

/// A password of `GENERATED_LEN` characters, each drawn at random from the
/// printable ASCII characters. Only the random generator can make it fail.
pub fn generate_random_password() -> (r: Result<String, VaultError>)
    ensures
        match r {
            Ok(s) => s@.len() == GENERATED_LEN && forall|i: int|
                0 <= i < s@.len() ==> is_printable_ascii(#[trigger] s@[i]),
            Err(e) => e == VaultError::RandomUnavailable,
        },
{
    let mut bytes: Vec<u8> = Vec::new();
    let mut i: usize = 0;
    while i < GENERATED_LEN
        invariant
            i <= GENERATED_LEN,
            bytes@.len() == i,
            forall|j: int| 0 <= j < i ==> 0x20 <= #[trigger] bytes@[j] <= 0x7e,
        decreases GENERATED_LEN - i,
    {
        let k = match random_below(PRINTABLE_COUNT) {
            Some(k) => k,
            None => {
                return Err(VaultError::RandomUnavailable);
            },
        };
        bytes.push(FIRST_PRINTABLE + k as u8);
        i = i + 1;
    }
    let ghost chars = bytes@.map_values(|b: u8| b as char);
    proof {
        assert(vstd::utf8::is_ascii_chars(chars));
        vstd::utf8::is_ascii_chars_encode_utf8(chars);
        assert forall|j: int| 0 <= j < chars.len() implies chars[j] as u8 == bytes@[j] by {
        }
        assert(vstd::utf8::encode_utf8(chars) =~= bytes@);
        vstd::utf8::encode_utf8_valid_utf8(chars);
        vstd::utf8::encode_utf8_decode_utf8(chars);
    }
    Ok(utf8_decode(bytes).unwrap())
}

} // verus!
