//! Fresh opaque payload hashes: 32 random bytes rendered as a
//! 0x-prefixed lowercase hexadecimal string.

use crate::numfmt::{append_hex_bytes, lemma_hex_bytes_form, spec_is_hex_digit};
use rand::Rng;
use vstd::prelude::*;

verus! {

/// Whether a character is an ASCII digit or a lowercase hexadecimal letter.
pub open spec fn spec_is_hex_digit_char(c: char) -> bool {
    (0x30 <= c as int <= 0x39) || (0x61 <= c as int <= 0x66)
}

/// Whether `s` has the shape of a payload hash: `0x` followed by 64
/// lowercase hexadecimal digits.
pub open spec fn spec_is_payload_hash(s: Seq<char>) -> bool {
    &&& s.len() == 66
    &&& s[0] == '0'
    &&& s[1] == 'x'
    &&& forall|i: int| 2 <= i < 66 ==> spec_is_hex_digit_char(#[trigger] s[i])
}

/// Relies on rand's thread_rng and Rng::gen: one random byte; nothing
/// can be promised of its value.
#[verifier::external_body]
fn random_byte() -> u8 {
    rand::thread_rng().gen::<u8>()
}

/// Relies on String::from_utf8: a buffer of ASCII bytes is valid UTF-8,
/// and converts to the string holding exactly those bytes as characters.
#[verifier::external_body]
fn ascii_string(b: Vec<u8>) -> (r: String)
    requires
        forall|i: int| 0 <= i < b@.len() ==> b@[i] < 0x80,
    ensures
        r@.len() == b@.len(),
        forall|i: int| 0 <= i < b@.len() ==> r@[i] == b@[i] as char,
{
    match String::from_utf8(b) {
        Ok(s) => s,
        Err(_) => String::new(),
    }
}

/// A fresh opaque payload: 32 random bytes as a 0x-prefixed lowercase
/// hexadecimal string of 64 digits.
pub fn generate_hash() -> (r: String)
    ensures
        spec_is_payload_hash(r@),
{
    let mut bytes: Vec<u8> = Vec::new();
    let mut i: usize = 0;
    while i < 32
        invariant
            bytes@.len() == i,
            i <= 32,
        decreases 32 - i,
    {
        bytes.push(random_byte());
        i = i + 1;
    }
    let mut out: Vec<u8> = Vec::new();
    out.push(0x30);
    out.push(0x78);
    append_hex_bytes(&mut out, bytes.as_slice());
    proof {
        lemma_hex_bytes_form(bytes@);
        assert(out@.len() == 66);
        assert forall|i: int| 0 <= i < out@.len() implies out@[i] < 0x80 by {
            if i >= 2 {
                assert(out@[i] == crate::numfmt::spec_hex_bytes(bytes@)[i - 2]);
                assert(spec_is_hex_digit(out@[i]));
            }
        }
    }
    let s = ascii_string(out);
    proof {
        assert(s@[0] == (0x30u8) as char);
        assert(s@[1] == (0x78u8) as char);
        assert(s@[0] == '0');
        assert(s@[1] == 'x');
        assert forall|i: int| 2 <= i < 66 implies spec_is_hex_digit_char(s@[i]) by {
            assert(s@[i] == out@[i] as char);
            assert(spec_is_hex_digit(out@[i]));
        }
    }
    s
}

} // verus!
