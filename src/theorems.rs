//! Laws that relate parsing and formatting of addresses.

use crate::buffer::{ascii_text, ascii_upper, nibble_at, Alphabet};
use crate::checksum::{checksum_matches, checksummed_hex, checksummed_text, lower_hex, strip_0x};
use crate::hex::{
    decode_spec,
    first_non_hex,
    has_prefix,
    hex_to_bytes,
    hex_value,
    is_hex_digit,
    strip_prefix,
};
use crate::parse_checksummed_spec;
use crate::ParseAddressError;
use vstd::prelude::*;

verus! {

/// Whether `c` is the hex digit of the nibble `n`, in either case.
pub open spec fn is_digit_of(c: char, n: int) -> bool {
    c == (Alphabet::Lower.digit(n) as char) || c == (Alphabet::Upper.digit(n) as char)
}

/// Whether `t` spells the bytes `b` in hex digits of any case mixture.
pub open spec fn spells(t: Seq<char>, b: Seq<u8>) -> bool {
    &&& t.len() == 2 * b.len()
    &&& forall|i: int| 0 <= i < t.len() ==> is_digit_of(#[trigger] t[i], nibble_at(b, i) as int)
}

proof fn lemma_digit_of(c: char, n: int)
    requires
        0 <= n < 16,
        is_digit_of(c, n),
    ensures
        is_hex_digit(c),
        hex_value(c) == n,
{
}

proof fn lemma_all_hex(t: Seq<char>, i: int)
    requires
        0 <= i <= t.len(),
        forall|k: int| i <= k < t.len() ==> is_hex_digit(#[trigger] t[k]),
    ensures
        first_non_hex(t, i) == t.len(),
    decreases t.len() - i,
{
    if i < t.len() {
        lemma_all_hex(t, i + 1);
    }
}

/// Decoding accepts the hex digits of a byte sequence in any mixture of
/// upper and lower case, with or without the `0x` prefix, and gives back
/// those bytes.
pub proof fn lemma_decode_any_case(t: Seq<char>, b: Seq<u8>)
    requires
        b.len() == 20,
        spells(t, b),
    ensures
        decode_spec(t) == Ok::<Seq<u8>, ParseAddressError>(b),
        decode_spec(seq!['0', 'x'] + t) == Ok::<Seq<u8>, ParseAddressError>(b),
{
    assert forall|k: int| 0 <= k < t.len() implies is_hex_digit(#[trigger] t[k])
        && hex_value(t[k]) == nibble_at(b, k) by {
        lemma_digit_of(t[k], nibble_at(b, k) as int);
    }
    assert(!has_prefix(t)) by {
        assert(is_hex_digit(t[1]));
    }
    lemma_all_hex(t, 0);
    assert forall|j: int| 0 <= j < 20 implies #[trigger] hex_to_bytes(t)[j] == b[j] by {
        assert(hex_value(t[2 * j]) == nibble_at(b, 2 * j));
        assert(hex_value(t[2 * j + 1]) == nibble_at(b, 2 * j + 1));
        assert((2 * j) / 2 == j);
        assert((2 * j + 1) / 2 == j);
        assert((2 * j) % 2 == 0);
        assert((2 * j + 1) % 2 == 1);
    }
    assert(hex_to_bytes(t) =~= b);
    lemma_prefix_optional(t);
}

/// The `0x` prefix is optional: text without a prefix decodes as it does
/// after `0x` is put in front of it.
pub proof fn lemma_prefix_optional(t: Seq<char>)
    requires
        !has_prefix(t),
    ensures
        decode_spec(seq!['0', 'x'] + t) == decode_spec(t),
{
    assert(strip_prefix(seq!['0', 'x'] + t) =~= t);
}

/// The checksummed hex digits of an address spell its bytes.
pub proof fn lemma_checksummed_spells(b: Seq<u8>)
    requires
        b.len() == 20,
    ensures
        spells(ascii_text(checksummed_hex(b)), b),
        strip_prefix(checksummed_text(b)) == ascii_text(checksummed_hex(b)),
        strip_0x(checksummed_text(b)) == ascii_text(checksummed_hex(b)),
{
    let t = ascii_text(checksummed_hex(b));
    assert forall|i: int| 0 <= i < t.len() implies is_digit_of(
        #[trigger] t[i],
        nibble_at(b, i) as int,
    ) by {
        let n = nibble_at(b, i) as int;
        assert(0 <= n < 16);
        let l = lower_hex(b)[i];
        assert(l == Alphabet::Lower.digit(n));
        assert(ascii_upper(l) == Alphabet::Lower.digit(n) || ascii_upper(l) == Alphabet::Upper.digit(
            n,
        ));
    }
    let s = checksummed_text(b);
    assert(s =~= seq!['0', 'x'] + t);
    assert(strip_prefix(s) =~= t);
    assert(strip_0x(s) =~= t);
}

/// Round trip: the canonical text of any address decodes to its bytes,
/// and it passes checksum verification.
pub proof fn lemma_round_trip(b: Seq<u8>)
    requires
        b.len() == 20,
    ensures
        decode_spec(checksummed_text(b)) == Ok::<Seq<u8>, ParseAddressError>(b),
        checksum_matches(b, checksummed_text(b)),
        parse_checksummed_spec(checksummed_text(b)) == Ok::<Seq<u8>, ParseAddressError>(b),
{
    let t = ascii_text(checksummed_hex(b));
    lemma_checksummed_spells(b);
    lemma_decode_any_case(t, b);
    assert(checksummed_text(b) =~= seq!['0', 'x'] + t);
}

/// Re-encoding the decoded canonical text of an address gives the same
/// text again.
pub proof fn lemma_reencode_identical(b: Seq<u8>)
    requires
        b.len() == 20,
    ensures
        decode_spec(checksummed_text(b)) is Ok,
        checksummed_text(decode_spec(checksummed_text(b))->Ok_0) == checksummed_text(b),
{
    lemma_round_trip(b);
}

/// Checksum verification is case-sensitive: text that differs from the
/// canonical text of an address in the case of a single hex digit still
/// decodes to the address, but fails with a checksum mismatch.
pub proof fn lemma_case_deviation_rejected(b: Seq<u8>, s: Seq<char>, i: int, c: char)
    requires
        b.len() == 20,
        0 <= i < 40,
        is_digit_of(c, nibble_at(b, i) as int),
        c != ascii_text(checksummed_hex(b))[i],
        s == seq!['0', 'x'] + ascii_text(checksummed_hex(b)).update(i, c)
            || s == ascii_text(checksummed_hex(b)).update(i, c),
    ensures
        decode_spec(s) == Ok::<Seq<u8>, ParseAddressError>(b),
        !checksum_matches(b, s),
        parse_checksummed_spec(s) == Err::<Seq<u8>, ParseAddressError>(
            ParseAddressError::ChecksumMismatch,
        ),
{
    let canon = ascii_text(checksummed_hex(b));
    lemma_checksummed_spells(b);
    lemma_single_deviation(b, canon, s, i, c);
}

/// Checksum verification is case-sensitive in the prefix too: the
/// canonical hex digits of an address after an upper case `0X` decode to
/// the address, but fail with a checksum mismatch.
pub proof fn lemma_upper_prefix_rejected(b: Seq<u8>)
    requires
        b.len() == 20,
    ensures
        decode_spec(seq!['0', 'X'] + ascii_text(checksummed_hex(b))) == Ok::<
            Seq<u8>,
            ParseAddressError,
        >(b),
        !checksum_matches(b, seq!['0', 'X'] + ascii_text(checksummed_hex(b))),
        parse_checksummed_spec(seq!['0', 'X'] + ascii_text(checksummed_hex(b))) == Err::<
            Seq<u8>,
            ParseAddressError,
        >(ParseAddressError::ChecksumMismatch),
{
    let t = ascii_text(checksummed_hex(b));
    let s = seq!['0', 'X'] + t;
    lemma_checksummed_spells(b);
    lemma_decode_any_case(t, b);
    lemma_strip_unprefixed(t, b);
    assert(strip_prefix(s) =~= t);
    assert(decode_spec(s) == decode_spec(t));
    assert(strip_0x(s) == s);
    assert(s.len() != t.len());
}

/// A text that changes one digit of a spelling of `b` into another digit of
/// the same nibble still spells `b`, and differs from the first spelling.
proof fn lemma_single_deviation(b: Seq<u8>, canon: Seq<char>, s: Seq<char>, i: int, c: char)
    requires
        b.len() == 20,
        spells(canon, b),
        0 <= i < 40,
        is_digit_of(c, nibble_at(b, i) as int),
        c != canon[i],
        s == seq!['0', 'x'] + canon.update(i, c) || s == canon.update(i, c),
    ensures
        decode_spec(s) == Ok::<Seq<u8>, ParseAddressError>(b),
        strip_0x(s) != canon,
{
    let t = canon.update(i, c);
    assert forall|k: int| 0 <= k < t.len() implies is_digit_of(
        #[trigger] t[k],
        nibble_at(b, k) as int,
    ) by {
        if k != i {
            assert(t[k] == canon[k]);
        }
    }
    lemma_decode_any_case(t, b);
    assert(t[i] != canon[i]);
    if s == seq!['0', 'x'] + t {
        lemma_strip_prefixed(t, b);
    } else {
        lemma_strip_unprefixed(t, b);
    }
}

proof fn lemma_strip_prefixed(t: Seq<char>, b: Seq<u8>)
    requires
        b.len() == 20,
        spells(t, b),
    ensures
        strip_0x(seq!['0', 'x'] + t) == t,
{
    assert(strip_0x(seq!['0', 'x'] + t) =~= t);
}

proof fn lemma_strip_unprefixed(t: Seq<char>, b: Seq<u8>)
    requires
        b.len() == 20,
        spells(t, b),
    ensures
        strip_0x(t) == t,
{
    lemma_digit_of(t[1], nibble_at(b, 1) as int);
}

} // verus!
