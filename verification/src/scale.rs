//! Fixed-width unsigned integers on the wire.
//!
//! The byte layout is stated here as plain arithmetic on base-256 digits; the
//! bytes themselves are produced and consumed by `parity_scale_codec`.

use parity_scale_codec::{Decode, Encode};
use vstd::prelude::*;
use vstd::slice::slice_subrange;

verus! {

/// The error of `parity_scale_codec`. Nothing is known of what it holds.
#[verifier::external_type_specification]
#[verifier::external_body]
pub struct ExCodecError(parity_scale_codec::Error);

/// `256` raised to the power `digits`.
pub open spec fn pow256(digits: nat) -> nat
    decreases digits,
{
    if digits == 0 {
        1
    } else {
        256 * pow256((digits - 1) as nat)
    }
}

/// The `width` low-order base-256 digits of `value`, least significant first.
pub open spec fn le_bytes(value: nat, width: nat) -> Seq<u8>
    decreases width,
{
    if width == 0 {
        Seq::empty()
    } else {
        seq![(value % 256) as u8] + le_bytes(value / 256, (width - 1) as nat)
    }
}

/// The number whose base-256 digits, least significant first, are `bytes`.
pub open spec fn le_value(bytes: Seq<u8>) -> nat
    decreases bytes.len(),
{
    if bytes.len() == 0 {
        0
    } else {
        bytes[0] as nat + 256 * le_value(bytes.skip(1))
    }
}

/// Four digits reach exactly the range of `u32`, eight that of `u64`.
pub proof fn lemma_pow256_widths()
    ensures
        pow256(4) == 0x1_0000_0000,
        pow256(8) == 0x1_0000_0000_0000_0000,
{
    reveal_with_fuel(pow256, 9);
}

/// An encoding has as many bytes as digits were asked for.
pub proof fn lemma_le_bytes_len(value: nat, width: nat)
    ensures
        le_bytes(value, width).len() == width,
    decreases width,
{
    if width > 0 {
        lemma_le_bytes_len(value / 256, (width - 1) as nat);
    }
}

/// A sequence of `n` bytes stands for a number below `256^n`.
pub proof fn lemma_le_value_bound(bytes: Seq<u8>)
    ensures
        le_value(bytes) < pow256(bytes.len()),
    decreases bytes.len(),
{
    if bytes.len() > 0 {
        lemma_le_value_bound(bytes.skip(1));
    }
}

/// Reading back the digits of a number that fits in `width` digits gives the
/// number.
pub proof fn lemma_le_value_of_bytes(value: nat, width: nat)
    requires
        value < pow256(width),
    ensures
        le_value(le_bytes(value, width)) == value,
    decreases width,
{
    if width > 0 {
        let rest = le_bytes(value / 256, (width - 1) as nat);
        let all = le_bytes(value, width);
        lemma_le_bytes_len(value, width);
        lemma_le_value_of_bytes(value / 256, (width - 1) as nat);
        assert(all.skip(1) =~= rest);
        assert(all[0] == (value % 256) as u8);
    }
}

/// Writing out the number that a byte sequence stands for gives the sequence.
pub proof fn lemma_le_bytes_of_value(bytes: Seq<u8>)
    ensures
        le_bytes(le_value(bytes), bytes.len()) == bytes,
    decreases bytes.len(),
{
    if bytes.len() > 0 {
        let tail = bytes.skip(1);
        lemma_le_bytes_of_value(tail);
        let value = le_value(bytes);
        assert(value % 256 == bytes[0] as nat);
        assert(value / 256 == le_value(tail));
        assert(le_bytes(value, bytes.len()) =~= bytes);
    }
}

/// `parity_scale_codec::Encode::encode_to` of `u64`, with a vector as the
/// output: the vector grows by the eight bytes of `value`, least significant
/// first, and what it held stays in front of them.
#[verifier::external_body]
pub(crate) fn put_u64(value: u64, dest: &mut Vec<u8>)
    ensures
        final(dest)@ == old(dest)@ + le_bytes(value as nat, 8),
{
    value.encode_to(dest)
}

/// `parity_scale_codec::Encode::encode_to` of `u32`, with a vector as the
/// output: the vector grows by the four bytes of `value`, least significant
/// first, and what it held stays in front of them.
#[verifier::external_body]
pub(crate) fn put_u32(value: u32, dest: &mut Vec<u8>)
    ensures
        final(dest)@ == old(dest)@ + le_bytes(value as nat, 4),
{
    value.encode_to(dest)
}

/// `parity_scale_codec::Decode::decode` of `u64`, with a byte slice as the
/// input: it fails exactly when the slice holds fewer than eight bytes, and
/// otherwise gives the number that the first eight stand for, least
/// significant first. Bytes after them are not looked at.
#[verifier::external_body]
pub(crate) fn take_u64(bytes: &[u8]) -> (taken: Result<u64, parity_scale_codec::Error>)
    ensures
        match taken {
            Ok(value) => bytes@.len() >= 8 && value as nat == le_value(bytes@.subrange(0, 8)),
            Err(_) => bytes@.len() < 8,
        },
{
    let mut input = bytes;
    u64::decode(&mut input)
}

/// `parity_scale_codec::Decode::decode` of `u32`, with a byte slice as the
/// input: it fails exactly when the slice holds fewer than four bytes, and
/// otherwise gives the number that the first four stand for, least
/// significant first. Bytes after them are not looked at.
#[verifier::external_body]
pub(crate) fn take_u32(bytes: &[u8]) -> (taken: Result<u32, parity_scale_codec::Error>)
    ensures
        match taken {
            Ok(value) => bytes@.len() >= 4 && value as nat == le_value(bytes@.subrange(0, 4)),
            Err(_) => bytes@.len() < 4,
        },
{
    let mut input = bytes;
    u32::decode(&mut input)
}

/// What `read_u64` finds in `bytes` at offset `at`.
pub open spec fn u64_at(bytes: Seq<u8>, at: int) -> Option<u64> {
    if 0 <= at && at + 8 <= bytes.len() {
        Some(le_value(bytes.subrange(at, at + 8)) as u64)
    } else {
        None
    }
}

/// What `read_u32` finds in `bytes` at offset `at`.
pub open spec fn u32_at(bytes: Seq<u8>, at: int) -> Option<u32> {
    if 0 <= at && at + 4 <= bytes.len() {
        Some(le_value(bytes.subrange(at, at + 4)) as u32)
    } else {
        None
    }
}

/// Decodes the `u64` that starts at offset `at`, or gives `None` where fewer
/// than eight bytes are left from there on.
pub fn read_u64(bytes: &[u8], at: usize) -> (found: Option<u64>)
    ensures
        found == u64_at(bytes@, at as int),
{
    if at > bytes.len() {
        return None;
    }
    let rest = slice_subrange(bytes, at, bytes.len());
    match take_u64(rest) {
        Ok(value) => {
            proof {
                let field = bytes@.subrange(at as int, at + 8);
                assert(rest@.subrange(0, 8) =~= field);
                lemma_le_value_bound(field);
                lemma_pow256_widths();
            }
            Some(value)
        },
        Err(_) => None,
    }
}

/// Decodes the `u32` that starts at offset `at`, or gives `None` where fewer
/// than four bytes are left from there on.
pub fn read_u32(bytes: &[u8], at: usize) -> (found: Option<u32>)
    ensures
        found == u32_at(bytes@, at as int),
{
    if at > bytes.len() {
        return None;
    }
    let rest = slice_subrange(bytes, at, bytes.len());
    match take_u32(rest) {
        Ok(value) => {
            proof {
                let field = bytes@.subrange(at as int, at + 4);
                assert(rest@.subrange(0, 4) =~= field);
                lemma_le_value_bound(field);
                lemma_pow256_widths();
            }
            Some(value)
        },
        Err(_) => None,
    }
}

} // verus!
