//! Ethereum public addresses: a 20-byte value with a hexadecimal text form
//! and the EIP-55 mixed-case checksum encoding.
//!
//! Addresses are by default printed with the EIP-55 checksum encoding.
//! Address checksums may optionally be verified when parsing with
//! [`Address::from_str_checksum`].

pub mod buffer;
pub mod checksum;
pub mod hex;
pub mod literal;
pub mod theorems;

pub use crate::buffer::{Alphabet, FormattingBuffer, OutOfSpace};
pub use crate::hex::ParseAddressError;

use crate::buffer::{ascii_text, hex_spec, prefix_bytes};
use crate::checksum::{checksum_matches, checksummed_text};
use crate::hex::decode_spec;
use vstd::prelude::*;

verus! {

/// An Ethereum public address.
#[derive(Copy, Clone, Debug, Default, PartialEq, Eq, Hash, PartialOrd, Ord)]
pub struct Address(pub [u8; 20]);

impl View for Address {
    type V = Seq<u8>;

    open spec fn view(&self) -> Seq<u8> {
        self.0@
    }
}

/// The bytes of a parsed address as a sequence.
pub open spec fn address_result(r: Result<Address, ParseAddressError>) -> Result<
    Seq<u8>,
    ParseAddressError,
> {
    match r {
        Ok(a) => Ok(a@),
        Err(e) => Err(e),
    }
}

/// The outcome of parsing `s` as an address whose checksum is verified:
/// decoding errors come first, then a checksum mismatch.
pub open spec fn parse_checksummed_spec(s: Seq<char>) -> Result<Seq<u8>, ParseAddressError> {
    match decode_spec(s) {
        Ok(b) => if checksum_matches(b, s) {
            Ok(b)
        } else {
            Err(ParseAddressError::ChecksumMismatch)
        },
        Err(e) => Err(e),
    }
}

/// The hex text of the address `bytes` in a fixed case, with or without the
/// `0x` prefix.
pub open spec fn hex_text(bytes: Seq<u8>, alphabet: Alphabet, prefixed: bool) -> Seq<char> {
    if prefixed {
        ascii_text(prefix_bytes() + hex_spec(bytes, alphabet))
    } else {
        ascii_text(hex_spec(bytes, alphabet))
    }
}

/// Why text could not be read as an address in its serialized form.
#[derive(Clone, Copy, Debug, PartialEq, Eq, Structural)]
pub enum DeserializeError {
    /// The text does not start with `0x`.
    MissingPrefix,
    /// The text after `0x` is not a hex address.
    Parse(ParseAddressError),
}

impl Address {
    /// Creates an address from a slice of exactly 20 bytes.
    pub fn from_slice(slice: &[u8]) -> (r: Self)
        requires
            slice@.len() == 20,
        ensures
            r@ == slice@,
    {
        let mut bytes = [0u8; 20];
        let mut i: usize = 0;
        while i < 20
            invariant
                0 <= i <= 20,
                slice@.len() == 20,
                forall|k: int| 0 <= k < i ==> bytes@[k] == slice@[k],
            decreases 20 - i,
        {
            bytes[i] = slice[i];
            i += 1;
        }
        assert(bytes@ =~= slice@);
        Address(bytes)
    }

    /// Creates an address from a slice, or `None` when the slice does not
    /// hold exactly 20 bytes.
    pub fn try_from_slice(slice: &[u8]) -> (r: Option<Self>)
        ensures
            r is Some <==> slice@.len() == 20,
            r matches Some(a) ==> a@ == slice@,
    {
        if slice.len() == 20 {
            Some(Address::from_slice(slice))
        } else {
            None
        }
    }

    /// Creates an address holding a copy of a 20-byte array.
    pub fn from_ref(array: &[u8; 20]) -> (r: Self)
        ensures
            r@ == array@,
    {
        Address(*array)
    }

    /// Parses an address from a hex string with an optional `0x` prefix, in
    /// any case; the checksum is not verified.
    pub fn parse_str(s: &str) -> (r: Result<Self, ParseAddressError>)
        ensures
            address_result(r) == decode_spec(s@),
    {
        match hex::decode(s) {
            Ok(bytes) => Ok(Address(bytes)),
            Err(e) => Err(e),
        }
    }

    /// Parses a checksummed `Address` from a string.
    pub fn from_str_checksum(s: &str) -> (r: Result<Self, ParseAddressError>)
        ensures
            address_result(r) == parse_checksummed_spec(s@),
    {
        let bytes = match hex::decode(s) {
            Ok(bytes) => bytes,
            Err(e) => {
                return Err(e);
            },
        };
        match checksum::verify(&bytes, s) {
            Ok(()) => Ok(Address(bytes)),
            Err(_) => Err(ParseAddressError::ChecksumMismatch),
        }
    }

    /// Parses an address in its serialized form: the `0x` prefix is
    /// required, the rest is parsed as by [`Address::parse_str`].
    pub fn deserialize_str(s: &str) -> (r: Result<Self, DeserializeError>)
        ensures
            !(s@.len() >= 2 && s@[0] == '0' && s@[1] == 'x') ==> r == Err::<Self, DeserializeError>(
                DeserializeError::MissingPrefix,
            ),
            s@.len() >= 2 && s@[0] == '0' && s@[1] == 'x' ==> match decode_spec(
                s@.subrange(2, s@.len() as int),
            ) {
                Ok(b) => r matches Ok(a) && a@ == b,
                Err(e) => r == Err::<Self, DeserializeError>(DeserializeError::Parse(e)),
            },
    {
        let n = s.unicode_len();
        if !(n >= 2 && s.get_char(0) == '0' && s.get_char(1) == 'x') {
            return Err(DeserializeError::MissingPrefix);
        }
        let rest = s.substring_char(2, n);
        match Address::parse_str(rest) {
            Ok(a) => Ok(a),
            Err(e) => Err(DeserializeError::Parse(e)),
        }
    }

    /// Default formatting method for an address: the EIP-55 checksummed
    /// text.
    pub fn fmt(&self) -> (r: FormattingBuffer)
        ensures
            r.wf(),
            r.text() == checksummed_text(self@),
    {
        checksum::fmt(&self.0)
    }

    /// The canonical text of the address: `0x` and the EIP-55 checksummed
    /// hex digits.
    pub fn to_string(&self) -> (r: String)
        ensures
            r@ == checksummed_text(self@),
    {
        let buffer = self.fmt();
        buffer.as_str().to_owned()
    }

    /// The hex text of the address in a fixed case, with or without the
    /// `0x` prefix.
    pub fn to_hex_string(&self, alphabet: Alphabet, prefixed: bool) -> (r: String)
        ensures
            r@ == hex_text(self@, alphabet, prefixed),
    {
        let buffer = buffer::fmt(&self.0, alphabet);
        if prefixed {
            buffer.as_str().to_owned()
        } else {
            let r = buffer.as_bytes_str().to_owned();
            assert(r@ =~= hex_text(self@, alphabet, prefixed));
            r
        }
    }
}

impl core::str::FromStr for Address {
    type Err = ParseAddressError;

    fn from_str(s: &str) -> Result<Self, Self::Err> {
        Address::parse_str(s)
    }
}

impl PartialEq<[u8; 20]> for Address {
    fn eq(&self, other: &[u8; 20]) -> (r: bool) {
        let mut i: usize = 0;
        while i < 20
            invariant
                0 <= i <= 20,
                forall|k: int| 0 <= k < i ==> self.0@[k] == other@[k],
            decreases 20 - i,
        {
            if self.0[i] != other[i] {
                return false;
            }
            i += 1;
        }
        assert(self.0@ =~= other@);
        true
    }
}

impl vstd::std_specs::cmp::PartialEqSpecImpl<[u8; 20]> for Address {
    open spec fn obeys_eq_spec() -> bool {
        true
    }

    /// An address equals the array of its bytes.
    open spec fn eq_spec(&self, other: &[u8; 20]) -> bool {
        self.0@ == other@
    }
}

} // verus!
