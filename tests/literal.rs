use ethaddr::literal::{
    expansion, generate, parse_string, Input, LiteralError, LiteralToken, ParserState,
};
use ethaddr::{Address, ParseAddressError};

fn lit(s: &str) -> LiteralToken {
    LiteralToken::Literal(s.to_string())
}

#[test]
fn string_literal_contents() {
    assert_eq!(parse_string("\"0xee\""), Some("0xee".to_string()));
    assert_eq!(parse_string("\"\""), Some(String::new()));
    assert_eq!(parse_string("\""), None);
    assert_eq!(parse_string("r\"0xee\""), None);
    assert_eq!(parse_string("42"), None);
}

#[test]
fn tokens_with_and_without_tilde() {
    let input = Input::parse(&vec![lit("\"0xee\"")]).unwrap();
    assert_eq!(input, Input { checksum: true, value: "0xee".to_string() });
    let input = Input::parse(&vec![LiteralToken::Tilde, lit("\"ee\"")]).unwrap();
    assert_eq!(input, Input { checksum: false, value: "ee".to_string() });
}

#[test]
fn unexpected_tokens() {
    let err = Input::parse(&vec![]).unwrap_err();
    assert_eq!((err.expected, err.found.as_str(), err.index), (ParserState::TildeOrString, "<eof>", None));

    let err = Input::parse(&vec![LiteralToken::Tilde]).unwrap_err();
    assert_eq!((err.expected, err.found.as_str(), err.index), (ParserState::String, "<eof>", None));

    let err = Input::parse(&vec![LiteralToken::Tilde, LiteralToken::Tilde]).unwrap_err();
    assert_eq!((err.expected, err.found.as_str(), err.index), (ParserState::String, "~", Some(1)));

    let err = Input::parse(&vec![lit("\"a\""), LiteralToken::Other(",".to_string())]).unwrap_err();
    assert_eq!((err.expected, err.found.as_str(), err.index), (ParserState::Eof, ",", Some(1)));

    let err = Input::parse(&vec![lit("12")]).unwrap_err();
    assert_eq!((err.expected, err.found.as_str(), err.index), (ParserState::TildeOrString, "12", Some(0)));
}

#[test]
fn state_machine_steps() {
    let mut input = Input { checksum: true, value: String::new() };
    let state = ParserState::start();
    assert_eq!(state, ParserState::TildeOrString);
    let state = state.next(&LiteralToken::Tilde, 0, &mut input).unwrap();
    assert_eq!(state, ParserState::String);
    assert!(!input.checksum);
    assert!(state.end().is_err());
    let state = state.next(&lit("\"x\""), 1, &mut input).unwrap();
    assert_eq!(state, ParserState::Eof);
    assert_eq!(input.value, "x");
    assert_eq!(state.end(), Ok(()));
}

#[test]
fn literal_checksum_is_verified_unless_skipped() {
    let good = Input { checksum: true, value: "0xEeeeeEeeeEeEeeEeEeEeeEEEeeeeEeeeeeeeEEeE".to_string() };
    assert_eq!(generate(&good), Ok(Address([0xee; 20])));

    let bad = Input { checksum: true, value: "0xeeeeeeeeeeeeeeeeeeeeeeeeeeeeeeeeeeeeeeee".to_string() };
    assert_eq!(
        generate(&bad),
        Err(LiteralError::Checksum {
            suggestion: "0xEeeeeEeeeEeEeeEeEeEeeEEEeeeeEeeeeeeeEEeE".to_string()
        })
    );

    let bad_unprefixed = Input { checksum: true, value: "eeeeeeeeeeeeeeeeeeeeeeeeeeeeeeeeeeeeeeee".to_string() };
    assert_eq!(
        generate(&bad_unprefixed),
        Err(LiteralError::Checksum {
            suggestion: "EeeeeEeeeEeEeeEeEeEeeEEEeeeeEeeeeeeeEEeE".to_string()
        })
    );

    let skipped = Input { checksum: false, value: "0xeeeeeeeeeeeeeeeeeeeeeeeeeeeeeeeeeeeeeeee".to_string() };
    assert_eq!(generate(&skipped), Ok(Address([0xee; 20])));

    let short = Input { checksum: false, value: "0xee".to_string() };
    assert_eq!(
        generate(&short),
        Err(LiteralError::Parse(ParseAddressError::InvalidLength { len: 2 }))
    );
}

#[test]
fn unexpected_token_messages() {
    let err = Input::parse(&vec![]).unwrap_err();
    assert_eq!(err.message(), "expected `~` or string literal but found `<eof>`");
    let err = Input::parse(&vec![LiteralToken::Tilde, LiteralToken::Tilde]).unwrap_err();
    assert_eq!(err.message(), "expected string literal but found `~`");
    let err = Input::parse(&vec![lit("\"a\""), LiteralToken::Other("(".to_string())]).unwrap_err();
    assert_eq!(err.message(), "expected <eof> but found `(`");
    assert_eq!(ParserState::String.description(), "string literal");
}

#[test]
fn literal_error_messages() {
    let err = LiteralError::Parse(ParseAddressError::InvalidLength { len: 2 });
    assert_eq!(err.message(), "invalid address literal: invalid hex string length");
    let err = LiteralError::Checksum { suggestion: "0xAb".to_string() };
    assert_eq!(err.message(), "invalid address checksum; did you mean `0xAb`?");
}

#[test]
fn expansion_escapes_each_byte() {
    let mut bytes = [0u8; 20];
    bytes[0] = 0xab;
    bytes[19] = 0x01;
    let expected = format!(
        "::ethaddr::Address(*b\"\\xab{}\\x01\")",
        "\\x00".repeat(18)
    );
    assert_eq!(expansion(&Address(bytes)), expected);
}
