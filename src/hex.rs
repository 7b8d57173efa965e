//! Parsing of hexadecimal address strings.

use vstd::prelude::*;

verus! {

/// Represents an error parsing an address from a string.
#[derive(Clone, Copy, Debug, PartialEq, Eq, Structural)]
pub enum ParseAddressError {
    /// The hex string, without its prefix, does not have 40 characters.
    InvalidLength { len: usize },
    /// A character that is not a hex digit, at an index of the hex string
    /// without its prefix.
    InvalidHexCharacter { c: char, index: usize },
    /// The checksum encoded in the hex string's case does not match the
    /// address.
    ChecksumMismatch,
}

/// Number of hex characters in an address string without its prefix.
pub const HEX_LEN: usize = 40;

/// Whether `c` is an ASCII hex digit, in either case.
pub open spec fn is_hex_digit(c: char) -> bool {
    ('0' as u32 <= c as u32 && c as u32 <= '9' as u32)
    || ('a' as u32 <= c as u32 && c as u32 <= 'f' as u32)
    || ('A' as u32 <= c as u32 && c as u32 <= 'F' as u32)
}

/// The value of a hex digit.
pub open spec fn hex_value(c: char) -> int {
    if c as u32 <= '9' as u32 {
        c as u32 - '0' as u32
    } else if c as u32 <= 'F' as u32 {
        c as u32 - 'A' as u32 + 10
    } else {
        c as u32 - 'a' as u32 + 10
    }
}

/// Whether `s` starts with the `0x` (or `0X`) prefix.
pub open spec fn has_prefix(s: Seq<char>) -> bool {
    s.len() >= 2 && s[0] == '0' && (s[1] == 'x' || s[1] == 'X')
}

/// `s` without its leading `0x` prefix, if it has one.
pub open spec fn strip_prefix(s: Seq<char>) -> Seq<char> {
    if has_prefix(s) {
        s.subrange(2, s.len() as int)
    } else {
        s
    }
}

/// The index of the first character at or after `i` that is not a hex
/// digit, or the length of `t` when there is none.
pub open spec fn first_non_hex(t: Seq<char>, i: int) -> int
    decreases t.len() - i,
{
    if i >= t.len() {
        t.len() as int
    } else if !is_hex_digit(t[i]) {
        i
    } else {
        first_non_hex(t, i + 1)
    }
}

/// The bytes spelled by 40 hex digits, two digits per byte, high nibble
/// first.
pub open spec fn hex_to_bytes(t: Seq<char>) -> Seq<u8> {
    Seq::new(20, |i: int| (hex_value(t[2 * i]) * 16 + hex_value(t[2 * i + 1])) as u8)
}

/// The outcome of parsing `s` as an address: the prefix is optional, the
/// length is checked first, then each character in order.
pub open spec fn decode_spec(s: Seq<char>) -> Result<Seq<u8>, ParseAddressError> {
    let t = strip_prefix(s);
    if t.len() != HEX_LEN {
        Err(ParseAddressError::InvalidLength { len: t.len() as usize })
    } else if first_non_hex(t, 0) < HEX_LEN {
        let k = first_non_hex(t, 0);
        Err(ParseAddressError::InvalidHexCharacter { c: t[k], index: k as usize })
    } else {
        Ok(hex_to_bytes(t))
    }
}

/// The bytes of a decoding result as a sequence.
pub open spec fn bytes_result(r: Result<[u8; 20], ParseAddressError>) -> Result<
    Seq<u8>,
    ParseAddressError,
> {
    match r {
        Ok(b) => Ok(b@),
        Err(e) => Err(e),
    }
}

/// The value of a hex digit, or `None` for any other character.
fn nibble(c: char) -> (r: Option<u8>)
    ensures
        r == (if is_hex_digit(c) {
            Some(hex_value(c) as u8)
        } else {
            None::<u8>
        }),
        r matches Some(v) ==> v < 16,
{
    let u = c as u32;
    if '0' as u32 <= u && u <= '9' as u32 {
        Some((u - '0' as u32) as u8)
    } else if 'A' as u32 <= u && u <= 'F' as u32 {
        Some((u - 'A' as u32 + 10) as u8)
    } else if 'a' as u32 <= u && u <= 'f' as u32 {
        Some((u - 'a' as u32 + 10) as u8)
    } else {
        None
    }
}

/// Decode a hex string, with an optional `0x` prefix, into address bytes.
pub fn decode(s: &str) -> (r: Result<[u8; 20], ParseAddressError>)
    ensures
        bytes_result(r) == decode_spec(s@),
{
    let n = s.unicode_len();
    let offset: usize = if n >= 2 && s.get_char(0) == '0' && (s.get_char(1) == 'x' || s.get_char(
        1,
    ) == 'X') {
        2
    } else {
        0
    };
    let ghost t = strip_prefix(s@);
    assert(t =~= s@.subrange(offset as int, n as int));
    let len = n - offset;
    if len != HEX_LEN {
        return Err(ParseAddressError::InvalidLength { len });
    }
    let mut bytes = [0u8; 20];
    let mut i: usize = 0;
    while i < 20
        invariant
            0 <= i <= 20,
            t == strip_prefix(s@),
            t.len() == HEX_LEN,
            t =~= s@.subrange(offset as int, n as int),
            n == s@.len(),
            n == offset + HEX_LEN,
            first_non_hex(t, 0) == first_non_hex(t, 2 * i),
            forall|j: int| 0 <= j < i ==> bytes@[j] == hex_to_bytes(t)[j],
        decreases 20 - i,
    {
        let c_hi = s.get_char(offset + 2 * i);
        let hi = match nibble(c_hi) {
            Some(v) => v,
            None => {
                assert(c_hi == t[2 * i]);
                assert(first_non_hex(t, 2 * i) == 2 * i);
                return Err(ParseAddressError::InvalidHexCharacter { c: c_hi, index: 2 * i });
            },
        };
        let c_lo = s.get_char(offset + 2 * i + 1);
        let lo = match nibble(c_lo) {
            Some(v) => v,
            None => {
                assert(c_lo == t[2 * i + 1]);
                assert(first_non_hex(t, 2 * i) == first_non_hex(t, 2 * i + 1));
                assert(first_non_hex(t, 2 * i + 1) == 2 * i + 1);
                return Err(ParseAddressError::InvalidHexCharacter { c: c_lo, index: 2 * i + 1 });
            },
        };
        assert(first_non_hex(t, 2 * i) == first_non_hex(t, 2 * i + 2)) by {
            assert(first_non_hex(t, 2 * i) == first_non_hex(t, 2 * i + 1));
        }
        bytes[i] = hi * 16 + lo;
        i += 1;
    }
    assert(bytes@ =~= hex_to_bytes(t));
    Ok(bytes)
}

/// The decimal digit character of `d < 10`.
pub open spec fn digit_char(d: nat) -> char {
    ((d + 48) as u8) as char
}

/// The decimal text of `n`.
pub open spec fn decimal(n: nat) -> Seq<char>
    decreases n,
{
    if n < 10 {
        seq![digit_char(n)]
    } else {
        decimal(n / 10).push(digit_char(n % 10))
    }
}

/// The message of a parse error.
pub open spec fn error_text(e: ParseAddressError) -> Seq<char> {
    match e {
        ParseAddressError::InvalidLength { .. } => "invalid hex string length"@,
        ParseAddressError::InvalidHexCharacter { c, index } => "invalid character `"@ + seq![c]
            + "` at position "@ + decimal(index as nat),
        ParseAddressError::ChecksumMismatch => "address checksum does not match"@,
    }
}

/// Relies on String::push: appends one character.
#[verifier::external_body]
fn push_char(s: &mut String, c: char)
    ensures
        final(s)@ == old(s)@.push(c),
{
    s.push(c)
}

/// Appends the decimal text of `n`.
fn push_decimal(s: &mut String, n: usize)
    ensures
        final(s)@ == old(s)@ + decimal(n as nat),
    decreases n,
{
    if n >= 10 {
        push_decimal(s, n / 10);
    }
    let d = (n % 10) as u8;
    push_char(s, (d + 48) as char);
    assert(s@ =~= old(s)@ + decimal(n as nat));
}

impl ParseAddressError {
    /// The error message.
    pub fn message(&self) -> (r: String)
        ensures
            r@ == error_text(*self),
    {
        match self {
            ParseAddressError::InvalidLength { .. } => "invalid hex string length".to_owned(),
            ParseAddressError::InvalidHexCharacter { c, index } => {
                let mut m = "invalid character `".to_owned();
                push_char(&mut m, *c);
                m.append("` at position ");
                push_decimal(&mut m, *index);
                m
            },
            ParseAddressError::ChecksumMismatch => "address checksum does not match".to_owned(),
        }
    }
}

} // verus!
