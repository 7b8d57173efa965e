//! A fixed-capacity buffer that holds the text of an address, and the
//! hexadecimal rendering of address bytes into it.

use vstd::prelude::*;
use vstd::slice::slice_subrange;
use vstd::string::StringSliceAdditionalSpecFns;
use vstd::utf8::{
    decode_utf8,
    encode_utf8,
    encode_utf8_decode_utf8,
    encode_utf8_valid_utf8,
    is_ascii_chars,
    is_ascii_chars_encode_utf8,
    valid_utf8,
};

verus! {

/// Addresses are formatted as 0x-prefixed hex strings. This means they are
/// exactly 42 bytes long.
pub const LEN: usize = 42;

/// Whether every byte of `b` is an ASCII character.
pub open spec fn is_ascii_bytes(b: Seq<u8>) -> bool {
    forall|i: int| 0 <= i < b.len() ==> #[trigger] b[i] < 128
}

/// ASCII bytes read as characters.
pub open spec fn ascii_text(b: Seq<u8>) -> Seq<char> {
    Seq::new(b.len(), |i: int| b[i] as char)
}

/// The `0x` prefix, as bytes.
pub open spec fn prefix_bytes() -> Seq<u8> {
    seq![('0' as u8), ('x' as u8)]
}

/// Nibble `i` of `b`: the high nibble of `b[i / 2]` for even `i`, the low
/// nibble for odd `i`.
pub open spec fn nibble_at(b: Seq<u8>, i: int) -> u8 {
    if i % 2 == 0 {
        b[i / 2] / 16
    } else {
        b[i / 2] % 16
    }
}

/// The alphabet to use.
#[derive(Clone, Copy, Debug, PartialEq, Eq, Structural)]
pub enum Alphabet {
    Lower,
    Upper,
}

impl Alphabet {
    /// The ASCII code of the digit for the nibble `n`.
    pub open spec fn digit(self, n: int) -> u8 {
        if n < 10 {
            (('0' as u8) + n) as u8
        } else if self is Upper {
            (('A' as u8) + n - 10) as u8
        } else {
            (('a' as u8) + n - 10) as u8
        }
    }

    /// Returns the nibble lookup-table for the alphabet.
    fn lut(&self) -> (r: [u8; 16])
        ensures
            forall|n: int| 0 <= n < 16 ==> #[trigger] r@[n] == self.digit(n),
    {
        let r = match self {
            Alphabet::Lower => [
                ('0' as u8), ('1' as u8), ('2' as u8), ('3' as u8), ('4' as u8), ('5' as u8), ('6' as u8), ('7' as u8), ('8' as u8), ('9' as u8), ('a' as u8), ('b' as u8), ('c' as u8),
                ('d' as u8), ('e' as u8), ('f' as u8),
            ],
            Alphabet::Upper => [
                ('0' as u8), ('1' as u8), ('2' as u8), ('3' as u8), ('4' as u8), ('5' as u8), ('6' as u8), ('7' as u8), ('8' as u8), ('9' as u8), ('A' as u8), ('B' as u8), ('C' as u8),
                ('D' as u8), ('E' as u8), ('F' as u8),
            ],
        };
        assert forall|n: int| 0 <= n < 16 implies #[trigger] r@[n] == self.digit(n) by {
            assert(r@ =~= r@);
        }
        r
    }
}

/// The hex digits of `b` in the given alphabet, two per byte, high nibble
/// first.
pub open spec fn hex_spec(b: Seq<u8>, alphabet: Alphabet) -> Seq<u8> {
    Seq::new(2 * b.len(), |i: int| alphabet.digit(nibble_at(b, i) as int))
}

/// The error of a write that does not fit in the buffer.
#[derive(Clone, Copy, Debug, PartialEq, Eq, Structural)]
pub struct OutOfSpace;

/// A formatting buffer: up to 42 bytes of ASCII text, written in order.
pub struct FormattingBuffer {
    bytes: [u8; LEN],
    len: usize,
}

impl View for FormattingBuffer {
    type V = Seq<u8>;

    /// The bytes written so far.
    closed spec fn view(&self) -> Seq<u8> {
        self.bytes@.subrange(0, self.len as int)
    }
}

proof fn lemma_ascii_str(s: &str, b: Seq<u8>)
    requires
        is_ascii_bytes(b),
        s.spec_bytes() == b,
    ensures
        s@ == ascii_text(b),
{
    let c = ascii_text(b);
    assert(is_ascii_chars(c));
    is_ascii_chars_encode_utf8(c);
    assert(encode_utf8(c) =~= b);
    encode_utf8_decode_utf8(c);
    encode_utf8_decode_utf8(s@);
}

proof fn lemma_ascii_valid_utf8(b: Seq<u8>)
    requires
        is_ascii_bytes(b),
    ensures
        valid_utf8(b),
{
    let c = ascii_text(b);
    assert(is_ascii_chars(c));
    is_ascii_chars_encode_utf8(c);
    assert(encode_utf8(c) =~= b);
    encode_utf8_valid_utf8(c);
}

/// Relies on core::str::from_utf8: bytes that are valid UTF-8 are borrowed
/// as a string slice with the same bytes.
#[verifier::external_body]
fn str_from_utf8(b: &[u8]) -> (r: &str)
    requires
        valid_utf8(b@),
    ensures
        r.spec_bytes() == b@,
{
    core::str::from_utf8(b).unwrap()
}

impl FormattingBuffer {
    /// The buffer holds at most 42 bytes, all of them ASCII.
    pub closed spec fn wf(&self) -> bool {
        &&& self.len <= LEN
        &&& is_ascii_bytes(self@)
    }

    /// The text written so far.
    pub open spec fn text(&self) -> Seq<char> {
        ascii_text(self@)
    }

    /// Creates an empty buffer.
    pub fn new() -> (r: Self)
        ensures
            r.wf(),
            r@ == Seq::<u8>::empty(),
    {
        let r = FormattingBuffer { bytes: [0u8; LEN], len: 0 };
        assert(r@ =~= Seq::<u8>::empty());
        r
    }

    /// Number of bytes written so far.
    pub fn len(&self) -> (r: usize)
        requires
            self.wf(),
        ensures
            r == self@.len(),
    {
        self.len
    }

    /// Appends the ASCII text `text`, or fails and leaves the buffer as it
    /// was when it does not fit.
    pub fn write(&mut self, text: &str) -> (r: Result<(), OutOfSpace>)
        requires
            old(self).wf(),
            text.is_ascii(),
        ensures
            final(self).wf(),
            r is Ok <==> old(self)@.len() + text@.len() <= LEN,
            r is Ok ==> final(self)@ == old(self)@ + text.spec_bytes(),
            r is Ok ==> final(self).text() == old(self).text() + text@,
            r is Err ==> *final(self) == *old(self),
    {
        proof {
            vstd::string::is_ascii_spec_bytes(text);
        }
        let b = text.as_bytes();
        if b.len() > LEN - self.len {
            return Err(OutOfSpace);
        }
        let ghost start = self@;
        let mut i: usize = 0;
        while i < b.len()
            invariant
                0 <= i <= b@.len(),
                start.len() + b@.len() <= LEN,
                start.len() == old(self)@.len(),
                self.len == start.len() + i,
                self@ == start + b@.subrange(0, i as int),
                is_ascii_bytes(b@),
                is_ascii_bytes(start),
            decreases b@.len() - i,
        {
            let ghost prev = self@;
            self.bytes[self.len] = b[i];
            self.len = self.len + 1;
            assert(self@ =~= prev.push(b@[i as int]));
            i += 1;
            assert(b@.subrange(0, i as int) =~= b@.subrange(0, i - 1).push(b@[i - 1]));
            assert(self@ =~= start + b@.subrange(0, i as int));
        }
        assert(b@.subrange(0, b@.len() as int) =~= b@);
        proof {
            vstd::utf8::is_ascii_chars_nat_bound(text@);
            assert forall|k: int| 0 <= k < text@.len() implies (#[trigger] b@[k]) as char == text@[k] by {
                vstd::utf8::char_u32_cast(text@[k], text@[k] as u32);
            }
            assert(self.text() =~= old(self).text() + text@);
        }
        Ok(())
    }

    /// Appends one ASCII byte, which fits.
    fn push(&mut self, b: u8)
        requires
            old(self).wf(),
            old(self)@.len() < LEN,
            b < 128,
        ensures
            final(self).wf(),
            final(self)@ == old(self)@.push(b),
    {
        self.bytes[self.len] = b;
        self.len = self.len + 1;
        assert(self@ =~= old(self)@.push(b));
    }

    /// Makes the byte at `i` upper case if it is an ASCII lower case letter.
    pub fn make_ascii_uppercase_at(&mut self, i: usize)
        requires
            old(self).wf(),
            i < old(self)@.len(),
        ensures
            final(self).wf(),
            final(self)@ == old(self)@.update(i as int, ascii_upper(old(self)@[i as int])),
    {
        let c = self.bytes[i];
        self.bytes[i] = to_ascii_uppercase(c);
        assert(self@ =~= old(self)@.update(i as int, ascii_upper(old(self)@[i as int])));
    }

    /// Returns the buffered text.
    pub fn as_str(&self) -> (r: &str)
        requires
            self.wf(),
        ensures
            r@ == self.text(),
    {
        let b = slice_subrange(self.bytes.as_slice(), 0, self.len);
        proof {
            lemma_ascii_valid_utf8(b@);
        }
        let r = str_from_utf8(b);
        proof {
            lemma_ascii_str(r, b@);
        }
        r
    }

    /// Returns the buffered text after its first two bytes: the hex digits of
    /// an address without the 0x prefix.
    pub fn as_bytes_str(&self) -> (r: &str)
        requires
            self.wf(),
            self@.len() >= 2,
        ensures
            r@ == self.text().subrange(2, self@.len() as int),
            r.spec_bytes() == self@.subrange(2, self@.len() as int),
    {
        let b = slice_subrange(self.bytes.as_slice(), 2, self.len);
        assert(b@ =~= self@.subrange(2, self@.len() as int));
        assert(is_ascii_bytes(b@));
        proof {
            lemma_ascii_valid_utf8(b@);
        }
        let r = str_from_utf8(b);
        proof {
            lemma_ascii_str(r, b@);
        }
        assert(r@ =~= self.text().subrange(2, self@.len() as int));
        r
    }
}

/// `b` in upper case, if it is an ASCII lower case letter.
pub open spec fn ascii_upper(b: u8) -> u8 {
    if ('a' as u8) <= b && b <= ('z' as u8) {
        (b - 32) as u8
    } else {
        b
    }
}

/// Converts an ASCII lower case letter to upper case.
pub fn to_ascii_uppercase(b: u8) -> (r: u8)
    ensures
        r == ascii_upper(b),
{
    if ('a' as u8) <= b && b <= ('z' as u8) {
        b - 32
    } else {
        b
    }
}

/// Format address bytes onto a stack-allocated buffer: the 0x prefix, then
/// two hex digits per byte in the given alphabet.
pub fn fmt(bytes: &[u8; 20], alphabet: Alphabet) -> (r: FormattingBuffer)
    ensures
        r.wf(),
        r@ == prefix_bytes() + hex_spec(bytes@, alphabet),
{
    let mut buffer = FormattingBuffer::new();
    buffer.push(('0' as u8));
    buffer.push(('x' as u8));
    let lut = alphabet.lut();
    let mut i: usize = 0;
    while i < 20
        invariant
            0 <= i <= 20,
            buffer.wf(),
            buffer@ == prefix_bytes() + hex_spec(bytes@.subrange(0, i as int), alphabet),
            forall|n: int| 0 <= n < 16 ==> #[trigger] lut@[n] == alphabet.digit(n),
        decreases 20 - i,
    {
        let byte = bytes[i];
        let ghost before = buffer@;
        buffer.push(lut[(byte / 16) as usize]);
        buffer.push(lut[(byte % 16) as usize]);
        i += 1;
        proof {
            let sub = bytes@.subrange(0, i as int);
            let prev = bytes@.subrange(0, i - 1);
            assert forall|k: int| 0 <= k < 2 * (i - 1) implies nibble_at(sub, k) == nibble_at(
                prev,
                k,
            ) by {
                assert(sub[k / 2] == prev[k / 2]);
            }
            assert(nibble_at(sub, 2 * i - 2) == byte / 16);
            assert(nibble_at(sub, 2 * i - 1) == byte % 16);
            assert(buffer@ =~= prefix_bytes() + hex_spec(sub, alphabet));
        }
    }
    assert(bytes@.subrange(0, 20) =~= bytes@);
    buffer
}

} // verus!
