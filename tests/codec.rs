use ethaddr::buffer::{self, FormattingBuffer, OutOfSpace};
use ethaddr::checksum::{self, apply_checksum};
use ethaddr::hex::decode;
use ethaddr::{Alphabet, ParseAddressError};

#[test]
fn decode_reports_errors_and_bytes() {
    assert_eq!(decode("0x0102030405060708090a0b0c0d0e0f1011121314").unwrap()[19], 0x14);
    assert_eq!(decode("abc"), Err(ParseAddressError::InvalidLength { len: 3 }));
}

#[test]
fn lowercase_and_uppercase_rendering() {
    let bytes = [0xab; 20];
    let lower = buffer::fmt(&bytes, Alphabet::Lower);
    assert_eq!(lower.as_str(), format!("0x{}", "ab".repeat(20)));
    assert_eq!(lower.as_bytes_str(), "ab".repeat(20));
    let upper = buffer::fmt(&bytes, Alphabet::Upper);
    assert_eq!(upper.as_str(), format!("0x{}", "AB".repeat(20)));
    assert_eq!(upper.len(), 42);
}

#[test]
fn casing_follows_digest_nibbles() {
    let bytes = [0xee; 20];
    let mut all = buffer::fmt(&bytes, Alphabet::Lower);
    apply_checksum(&mut all, &[0xff; 32]);
    assert_eq!(all.as_str(), format!("0x{}", "E".repeat(40)));

    let mut odd = buffer::fmt(&bytes, Alphabet::Lower);
    apply_checksum(&mut odd, &[0x0f; 32]);
    assert_eq!(odd.as_str(), format!("0x{}", "eE".repeat(20)));

    let mut even = buffer::fmt(&bytes, Alphabet::Lower);
    apply_checksum(&mut even, &[0x87; 32]);
    assert_eq!(even.as_str(), format!("0x{}", "Ee".repeat(20)));

    let mut none = buffer::fmt(&[0x12; 20], Alphabet::Lower);
    apply_checksum(&mut none, &[0xff; 32]);
    assert_eq!(none.as_str(), format!("0x{}", "12".repeat(20)));
}

#[test]
fn checksummed_buffer_and_verify() {
    let bytes = [0xee; 20];
    let expected = "0xEeeeeEeeeEeEeeEeEeEeeEEEeeeeEeeeeeeeEEeE";
    assert_eq!(checksum::fmt(&bytes).as_str(), expected);
    assert!(checksum::verify(&bytes, expected).is_ok());
    assert!(checksum::verify(&bytes, &expected[2..]).is_ok());
    let err = checksum::verify(&bytes, "0xeeeeeeeeeeeeeeeeeeeeeeeeeeeeeeeeeeeeeeee").unwrap_err();
    assert_eq!(err.as_str(), expected);
    assert!(checksum::verify(&bytes, "0xEeee").is_err());
}

#[test]
fn buffer_writes_until_full() {
    let mut buffer = FormattingBuffer::new();
    assert_eq!(buffer.as_str(), "");
    assert_eq!(buffer.write("0x"), Ok(()));
    assert_eq!(buffer.write(&"a".repeat(40)), Ok(()));
    assert_eq!(buffer.len(), 42);
    assert_eq!(buffer.write("b"), Err(OutOfSpace));
    assert_eq!(buffer.as_str(), format!("0x{}", "a".repeat(40)));
    buffer.make_ascii_uppercase_at(2);
    assert_eq!(buffer.as_bytes_str(), format!("A{}", "a".repeat(39)));
}

#[test]
fn oversized_write_leaves_buffer_unchanged() {
    let mut buffer = FormattingBuffer::new();
    assert_eq!(buffer.write("abc"), Ok(()));
    assert_eq!(buffer.write(&"c".repeat(40)), Err(OutOfSpace));
    assert_eq!(buffer.as_str(), "abc");
    assert_eq!(buffer.write(&"c".repeat(39)), Ok(()));
    assert_eq!(buffer.len(), 42);
}

#[test]
fn ascii_uppercase_of_bytes() {
    assert_eq!(buffer::to_ascii_uppercase(b'a'), b'A');
    assert_eq!(buffer::to_ascii_uppercase(b'f'), b'F');
    assert_eq!(buffer::to_ascii_uppercase(b'7'), b'7');
    assert_eq!(buffer::to_ascii_uppercase(b'Z'), b'Z');
}

#[test]
fn upper_case_prefix_fails_checksum() {
    let bytes = [0xee; 20];
    let digits = "EeeeeEeeeEeEeeEeEeEeeEEEeeeeEeeeeeeeEEeE";
    let err = checksum::verify(&bytes, &format!("0X{digits}")).unwrap_err();
    assert_eq!(err.as_str(), format!("0x{digits}"));
    assert!(checksum::verify(&bytes, digits).is_ok());
}

#[test]
fn parse_error_messages() {
    assert_eq!(
        ParseAddressError::InvalidLength { len: 3 }.message(),
        "invalid hex string length"
    );
    assert_eq!(
        ParseAddressError::InvalidHexCharacter { c: 'z', index: 0 }.message(),
        "invalid character `z` at position 0"
    );
    assert_eq!(
        ParseAddressError::InvalidHexCharacter { c: 'é', index: 1234 }.message(),
        "invalid character `é` at position 1234"
    );
    assert_eq!(
        ParseAddressError::ChecksumMismatch.message(),
        "address checksum does not match"
    );
}
