//! Checksummed formatting for Ethereum public addresses (EIP-55).

use crate::buffer::{
    self,
    ascii_text,
    ascii_upper,
    hex_spec,
    nibble_at,
    prefix_bytes,
    Alphabet,
    FormattingBuffer,
};
use sha3::{Digest, Keccak256};
use vstd::prelude::*;
use vstd::string::StringSliceAdditionalSpecFns;

verus! {

/// The Keccak-256 digest of `data`.
pub uninterp spec fn keccak256_of(data: Seq<u8>) -> Seq<u8>;

/// Relies on sha3's `Keccak256` (the Keccak-256 of Ethereum, not SHA3-256):
/// the 32-byte digest of `bytes`, which depends on the bytes alone.
#[verifier::external_body]
fn keccak256(bytes: &[u8]) -> (r: [u8; 32])
    ensures
        r@ == keccak256_of(bytes@),
{
    Keccak256::digest(bytes).into()
}

/// The lower case hex digits of the address `bytes`.
pub open spec fn lower_hex(bytes: Seq<u8>) -> Seq<u8> {
    hex_spec(bytes, Alphabet::Lower)
}

/// EIP-55 casing of the hex digits `hex`: the digit at `i` is upper-cased
/// where nibble `i` of `digest` is 8 or more.
pub open spec fn checksum_case(hex: Seq<u8>, digest: Seq<u8>) -> Seq<u8> {
    Seq::new(
        hex.len(),
        |i: int|
            if nibble_at(digest, i) >= 8 {
                ascii_upper(hex[i])
            } else {
                hex[i]
            },
    )
}

/// The EIP-55 checksummed hex digits of the address `bytes`, without prefix:
/// the casing comes from the digest of the lower case digits.
pub open spec fn checksummed_hex(bytes: Seq<u8>) -> Seq<u8> {
    checksum_case(lower_hex(bytes), keccak256_of(lower_hex(bytes)))
}

/// The canonical text of the address `bytes`: `0x`, then the checksummed
/// hex digits.
pub open spec fn checksummed_text(bytes: Seq<u8>) -> Seq<char> {
    ascii_text(prefix_bytes() + checksummed_hex(bytes))
}

/// Whether `s` starts with the lower case `0x` prefix.
pub open spec fn starts_with_0x(s: Seq<char>) -> bool {
    s.len() >= 2 && s[0] == '0' && s[1] == 'x'
}

/// `s` without its leading lower case `0x`, if it has one. An upper case
/// `0X` is part of the text that the checksum is compared with.
pub open spec fn strip_0x(s: Seq<char>) -> Seq<char> {
    if starts_with_0x(s) {
        s.subrange(2, s.len() as int)
    } else {
        s
    }
}

/// Whether `candidate` carries the checksum of `bytes`: without a lower
/// case `0x` prefix it equals the checksummed hex digits, case included.
pub open spec fn checksum_matches(bytes: Seq<u8>, candidate: Seq<char>) -> bool {
    strip_0x(candidate) == ascii_text(checksummed_hex(bytes))
}

/// Applies the EIP-55 casing of `digest` to the 40 hex digits that follow
/// the prefix of a formatted address.
pub fn apply_checksum(buffer: &mut FormattingBuffer, digest: &[u8; 32])
    requires
        old(buffer).wf(),
        old(buffer)@.len() == 42,
    ensures
        final(buffer).wf(),
        final(buffer)@ == old(buffer)@.subrange(0, 2) + checksum_case(
            old(buffer)@.subrange(2, 42),
            digest@,
        ),
{
    let ghost start = buffer@;
    let mut i: usize = 0;
    while i < 40
        invariant
            0 <= i <= 40,
            buffer.wf(),
            buffer@.len() == 42,
            start.len() == 42,
            buffer@.subrange(0, 2) == start.subrange(0, 2),
            forall|k: int|
                0 <= k < i ==> buffer@[k + 2] == #[trigger] checksum_case(
                    start.subrange(2, 42),
                    digest@,
                )[k],
            forall|k: int| i + 2 <= k < 42 ==> buffer@[k] == #[trigger] start[k],
        decreases 40 - i,
    {
        let byte = digest[i / 2];
        let nibble = if i % 2 == 0 {
            byte / 16
        } else {
            byte % 16
        };
        assert(nibble == nibble_at(digest@, i as int));
        let ghost prev = buffer@;
        if nibble >= 8 {
            buffer.make_ascii_uppercase_at(i + 2);
        }
        assert(buffer@[i + 2] == checksum_case(start.subrange(2, 42), digest@)[i as int]);
        assert(buffer@.subrange(0, 2) =~= prev.subrange(0, 2));
        i += 1;
    }
    assert(buffer@ =~= start.subrange(0, 2) + checksum_case(start.subrange(2, 42), digest@));
}

/// Format address bytes with EIP-55 checksum.
pub fn fmt(bytes: &[u8; 20]) -> (r: FormattingBuffer)
    ensures
        r.wf(),
        r@ == prefix_bytes() + checksummed_hex(bytes@),
        r.text() == checksummed_text(bytes@),
{
    let mut buffer = buffer::fmt(bytes, Alphabet::Lower);
    let ghost lower = buffer@;
    let digest = keccak256(buffer.as_bytes_str().as_bytes());
    assert(lower.subrange(2, 42) =~= lower_hex(bytes@));
    apply_checksum(&mut buffer, &digest);
    assert(buffer@ =~= prefix_bytes() + checksummed_hex(bytes@));
    buffer
}

/// Whether the text of `candidate` from `offset` on equals the text of
/// `expected` from its third byte on.
fn hex_text_eq(candidate: &str, offset: usize, expected: &FormattingBuffer) -> (r: bool)
    requires
        expected.wf(),
        expected@.len() >= 2,
        offset <= candidate@.len(),
    ensures
        r == (candidate@.subrange(offset as int, candidate@.len() as int) == expected.text().subrange(
            2,
            expected@.len() as int,
        )),
{
    let e = expected.as_bytes_str();
    let ghost c = candidate@.subrange(offset as int, candidate@.len() as int);
    let n = candidate.unicode_len();
    let m = e.unicode_len();
    if n - offset != m {
        assert(c.len() != e@.len());
        return false;
    }
    let mut i: usize = 0;
    while i < m
        invariant
            0 <= i <= m,
            n == candidate@.len(),
            m == e@.len(),
            e@ == expected.text().subrange(2, expected@.len() as int),
            n - offset == m,
            c == candidate@.subrange(offset as int, n as int),
            forall|k: int| 0 <= k < i ==> c[k] == e@[k],
        decreases m - i,
    {
        if candidate.get_char(offset + i) != e.get_char(i) {
            assert(c[i as int] != e@[i as int]);
            return false;
        }
        i += 1;
    }
    assert(c =~= e@);
    true
}

/// Verifies an address checksum: `checksum`, with or without a `0x` prefix,
/// must equal the checksummed hex digits of `bytes` exactly. On a mismatch
/// the expected text is returned.
pub fn verify(bytes: &[u8; 20], checksum: &str) -> (r: Result<(), FormattingBuffer>)
    ensures
        r is Ok <==> checksum_matches(bytes@, checksum@),
        r matches Err(expected) ==> expected.wf() && expected@ == prefix_bytes() + checksummed_hex(
            bytes@,
        ) && expected.text() == checksummed_text(bytes@),
{
    let expected = fmt(bytes);
    let n = checksum.unicode_len();
    let offset: usize = if n >= 2 && checksum.get_char(0) == '0' && checksum.get_char(1) == 'x' {
        2
    } else {
        0
    };
    assert(strip_0x(checksum@) =~= checksum@.subrange(offset as int, n as int));
    assert(expected.text().subrange(2, 42) =~= ascii_text(checksummed_hex(bytes@)));
    if hex_text_eq(checksum, offset, &expected) {
        Ok(())
    } else {
        Err(expected)
    }
}

} // verus!
