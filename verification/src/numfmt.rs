//! Formatting of numbers and byte strings as ASCII bytes: lowercase
//! hexadecimal for payload hashes and nonces, decimal for timestamps.

use vstd::prelude::*;

verus! {

/// The lowercase hexadecimal digit for a value below 16, as an ASCII byte.
pub open spec fn spec_hex_digit(d: u8) -> u8
    recommends
        d < 16,
{
    if d < 10 {
        (0x30 + d) as u8
    } else {
        (0x57 + d) as u8
    }
}

/// Whether a byte is an ASCII digit or a lowercase hexadecimal letter.
pub open spec fn spec_is_hex_digit(b: u8) -> bool {
    (0x30 <= b <= 0x39) || (0x61 <= b <= 0x66)
}

pub(crate) fn hex_digit(d: u8) -> (r: u8)
    requires
        d < 16,
    ensures
        r == spec_hex_digit(d),
        spec_is_hex_digit(r),
{
    if d < 10 {
        0x30 + d
    } else {
        0x57 + d
    }
}

/// The bytes of `b` rendered as lowercase hexadecimal, two digits per byte.
pub open spec fn spec_hex_bytes(b: Seq<u8>) -> Seq<u8>
    decreases b.len(),
{
    if b.len() == 0 {
        Seq::empty()
    } else {
        spec_hex_bytes(b.drop_last()) + seq![
            spec_hex_digit(b.last() / 16),
            spec_hex_digit(b.last() % 16),
        ]
    }
}

/// A hexadecimal rendering has two digits per byte, and nothing else.
pub proof fn lemma_hex_bytes_form(b: Seq<u8>)
    ensures
        spec_hex_bytes(b).len() == 2 * b.len(),
        forall|i: int|
            0 <= i < spec_hex_bytes(b).len() ==> spec_is_hex_digit(#[trigger] spec_hex_bytes(b)[i]),
    decreases b.len(),
{
    if b.len() > 0 {
        lemma_hex_bytes_form(b.drop_last());
    }
}

/// Append the lowercase hexadecimal rendering of `b` to `out`.
pub fn append_hex_bytes(out: &mut Vec<u8>, b: &[u8])
    ensures
        final(out)@ =~= old(out)@ + spec_hex_bytes(b@),
{
    let mut i: usize = 0;
    while i < b.len()
        invariant
            i <= b@.len(),
            out@ =~= old(out)@ + spec_hex_bytes(b@.subrange(0, i as int)),
        decreases b@.len() - i,
    {
        proof {
            assert(b@.subrange(0, i as int + 1).drop_last() =~= b@.subrange(0, i as int));
            assert(b@.subrange(0, i as int + 1).last() == b@[i as int]);
        }
        let x = b[i];
        out.push(hex_digit(x / 16));
        out.push(hex_digit(x % 16));
        i = i + 1;
    }
    proof {
        assert(b@.subrange(0, b@.len() as int) =~= b@);
    }
}

/// `n` rendered as minimal lowercase hexadecimal digits, as the `{:x}`
/// format does: no leading zeros, a single `0` for zero itself.
pub open spec fn spec_u64_hex(n: u64) -> Seq<u8>
    decreases n,
{
    if n < 16 {
        seq![spec_hex_digit(n as u8)]
    } else {
        spec_u64_hex((n / 16) as u64) + seq![spec_hex_digit((n % 16) as u8)]
    }
}

/// Append the minimal lowercase hexadecimal rendering of `n` to `out`.
pub fn append_u64_hex(out: &mut Vec<u8>, n: u64)
    ensures
        final(out)@ =~= old(out)@ + spec_u64_hex(n),
    decreases n,
{
    if n < 16 {
        out.push(hex_digit(n as u8));
    } else {
        append_u64_hex(out, n / 16);
        out.push(hex_digit((n % 16) as u8));
    }
}

/// The decimal digit for a value below 10, as an ASCII byte.
pub open spec fn spec_dec_digit(d: u8) -> u8
    recommends
        d < 10,
{
    (0x30 + d) as u8
}

/// `n` rendered as minimal decimal digits.
pub open spec fn spec_u64_dec(n: u64) -> Seq<u8>
    decreases n,
{
    if n < 10 {
        seq![spec_dec_digit(n as u8)]
    } else {
        spec_u64_dec((n / 10) as u64) + seq![spec_dec_digit((n % 10) as u8)]
    }
}

/// Append the minimal decimal rendering of `n` to `out`.
pub fn append_u64_dec(out: &mut Vec<u8>, n: u64)
    ensures
        final(out)@ =~= old(out)@ + spec_u64_dec(n),
    decreases n,
{
    if n < 10 {
        out.push(0x30 + n as u8);
    } else {
        append_u64_dec(out, n / 10);
        out.push(0x30 + (n % 10) as u8);
    }
}

} // verus!
