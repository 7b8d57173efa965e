//! Address literals: the tokens `"0x…"` or `~ "0x…"`, read into an address
//! that is checked when the literal is compiled. A leading `~` skips the
//! checksum verification.

use crate::checksum::{self, checksum_matches, checksummed_hex, checksummed_text, lower_hex, starts_with_0x};
use crate::buffer::{self, ascii_text, Alphabet};
use vstd::utf8::{char_u32_cast, is_ascii_chars};
use crate::hex::{self, decode_spec, error_text};
use crate::{Address, ParseAddressError};
use vstd::prelude::*;

verus! {

/// A token of an address literal, with the source text of the token.
#[derive(Clone, Debug, PartialEq, Eq)]
pub enum LiteralToken {
    /// The `~` punctuation.
    Tilde,
    /// A literal, as written in the source (a string literal keeps its
    /// quotes).
    Literal(String),
    /// Any other token.
    Other(String),
}

/// What the parser of an address literal expects next.
#[derive(Clone, Copy, Debug, PartialEq, Eq, Structural)]
pub enum ParserState {
    TildeOrString,
    String,
    Eof,
}

/// An address literal as read from its tokens.
#[derive(Clone, Debug, PartialEq, Eq)]
pub struct Input {
    /// Whether the checksum is to be verified.
    pub checksum: bool,
    /// The contents of the string literal.
    pub value: String,
}

/// An unexpected token, or an unexpected end of the tokens.
#[derive(Clone, Debug, PartialEq, Eq)]
pub struct Unexpected {
    /// What the parser expected.
    pub expected: ParserState,
    /// The text of what it found: the token, or `<eof>`.
    pub found: String,
    /// The index of the token, or `None` at the end of the tokens.
    pub index: Option<usize>,
}

/// Why an address literal is refused.
#[derive(Clone, Debug, PartialEq, Eq)]
pub enum LiteralError {
    /// The literal is not an address.
    Parse(ParseAddressError),
    /// The checksum does not match; `suggestion` is the literal with the
    /// right checksum.
    Checksum { suggestion: String },
}

/// The contents of a string literal written as `"…"`.
pub open spec fn quoted_inner(t: Seq<char>) -> Option<Seq<char>> {
    if t.len() >= 2 && t[0] == '"' && t[t.len() - 1] == '"' {
        Some(t.subrange(1, t.len() - 1))
    } else {
        None
    }
}

/// Whether `tok` is a string literal.
pub open spec fn is_string_token(tok: LiteralToken) -> bool {
    tok matches LiteralToken::Literal(l) && quoted_inner(l@) is Some
}

/// The state that follows `state` on the token `tok`, if `tok` is
/// expected there.
pub open spec fn step(state: ParserState, tok: LiteralToken) -> Option<ParserState> {
    match state {
        ParserState::TildeOrString => if tok is Tilde {
            Some(ParserState::String)
        } else if is_string_token(tok) {
            Some(ParserState::Eof)
        } else {
            None
        },
        ParserState::String => if is_string_token(tok) {
            Some(ParserState::Eof)
        } else {
            None
        },
        ParserState::Eof => None,
    }
}

/// The state after the first `i` tokens, or the state and index of the
/// first token that was not expected.
pub open spec fn run(toks: Seq<LiteralToken>, i: nat) -> Result<ParserState, (ParserState, nat)>
    decreases i,
{
    if i == 0 {
        Ok(ParserState::TildeOrString)
    } else {
        match run(toks, (i - 1) as nat) {
            Ok(st) => match step(st, toks[i - 1]) {
                Some(next) => Ok(next),
                None => Err((st, (i - 1) as nat)),
            },
            Err(e) => Err(e),
        }
    }
}

/// The text of a token as an error message shows it.
pub open spec fn token_text(tok: LiteralToken) -> Seq<char> {
    match tok {
        LiteralToken::Tilde => seq!['~'],
        LiteralToken::Literal(t) => t@,
        LiteralToken::Other(t) => t@,
    }
}

/// The text that stands for the end of the tokens.
pub open spec fn eof_text() -> Seq<char> {
    seq!['<', 'e', 'o', 'f', '>']
}

/// Returns the contents of a string literal written as `"…"`.
pub fn parse_string(literal: &str) -> (r: Option<String>)
    ensures
        r matches Some(v) ==> quoted_inner(literal@) == Some(v@),
        r is None ==> quoted_inner(literal@) is None,
{
    let n = literal.unicode_len();
    if n >= 2 && literal.get_char(0) == '"' && literal.get_char(n - 1) == '"' {
        Some(literal.substring_char(1, n - 1).to_owned())
    } else {
        None
    }
}

impl ParserState {
    /// The state before the first token.
    pub fn start() -> (r: Self)
        ensures
            r == ParserState::TildeOrString,
    {
        ParserState::TildeOrString
    }

    /// Reads the token `token`, at index `index`, into `result`.
    pub fn next(self, token: &LiteralToken, index: usize, result: &mut Input) -> (r: Result<
        Self,
        Unexpected,
    >)
        ensures
            match step(self, *token) {
                Some(next) => r == Ok::<Self, Unexpected>(next),
                None => (r matches Err(e) && e.expected == self && e.found@ == token_text(*token)
                    && e.index == Some(index)),
            },
            self is TildeOrString && token is Tilde ==> final(result).checksum == false
                && final(result).value == old(result).value,
            is_string_token(*token) && !(self is Eof) ==> final(result).checksum == old(
                result,
            ).checksum && quoted_inner(token_text(*token)) == Some(final(result).value@),
            step(self, *token) is None ==> *final(result) == *old(result),
    {
        match token {
            LiteralToken::Tilde => {
                if self == ParserState::TildeOrString {
                    result.checksum = false;
                    return Ok(ParserState::String);
                }
            },
            LiteralToken::Literal(l) => {
                if self != ParserState::Eof {
                    match parse_string(l.as_str()) {
                        Some(value) => {
                            result.value = value;
                            return Ok(ParserState::Eof);
                        },
                        None => {},
                    }
                }
            },
            LiteralToken::Other(_) => {},
        }
        Err(self.unexpected(Some(token), index))
    }

    /// Accepts the end of the tokens, if nothing more is expected.
    pub fn end(self) -> (r: Result<(), Unexpected>)
        ensures
            self is Eof ==> r is Ok,
            !(self is Eof) ==> (r matches Err(e) && e.expected == self && e.found@ == eof_text()
                && e.index is None),
    {
        match self {
            ParserState::Eof => Ok(()),
            _ => Err(self.unexpected(None, 0)),
        }
    }

    /// The error for an unexpected token, or for the unexpected end of the
    /// tokens when `token` is `None`.
    pub fn unexpected(self, token: Option<&LiteralToken>, index: usize) -> (r: Unexpected)
        ensures
            r.expected == self,
            token matches Some(t) ==> r.found@ == token_text(*t) && r.index == Some(index),
            token is None ==> r.found@ == eof_text() && r.index is None,
    {
        let (found, at) = match token {
            Some(LiteralToken::Tilde) => ("~".to_owned(), Some(index)),
            Some(LiteralToken::Literal(t)) => (t.clone(), Some(index)),
            Some(LiteralToken::Other(t)) => (t.clone(), Some(index)),
            None => ("<eof>".to_owned(), None),
        };
        proof {
            reveal_strlit("~");
            reveal_strlit("<eof>");
            if token is None {
                assert(found@ =~= eof_text());
            } else if token.unwrap() is Tilde {
                assert(found@ =~= seq!['~']);
            }
        }
        Unexpected { expected: self, found, index: at }
    }
}

/// How an error message names what the parser expected in `state`.
pub open spec fn expected_text(state: ParserState) -> Seq<char> {
    match state {
        ParserState::TildeOrString => "`~` or string literal"@,
        ParserState::String => "string literal"@,
        ParserState::Eof => "<eof>"@,
    }
}

/// The message of an unexpected token: what was expected, and what was
/// found.
pub open spec fn unexpected_text(expected: ParserState, found: Seq<char>) -> Seq<char> {
    "expected "@ + expected_text(expected) + " but found `"@ + found + "`"@
}

impl ParserState {
    /// How an error message names what the parser expects in this state.
    pub fn description(&self) -> (r: &'static str)
        ensures
            r@ == expected_text(*self),
    {
        match self {
            ParserState::TildeOrString => "`~` or string literal",
            ParserState::String => "string literal",
            ParserState::Eof => "<eof>",
        }
    }
}

impl Unexpected {
    /// The error message: `expected <what> but found `<token>``.
    pub fn message(&self) -> (r: String)
        ensures
            r@ == unexpected_text(self.expected, self.found@),
    {
        let mut m = "expected ".to_owned();
        m.append(self.expected.description());
        m.append(" but found `");
        m.append(self.found.as_str());
        m.append("`");
        m
    }
}

/// The hex digits `h` written as byte escapes, `\xHH` for each pair.
pub open spec fn escaped(h: Seq<char>) -> Seq<char>
    decreases h.len(),
{
    if h.len() < 2 {
        Seq::empty()
    } else {
        escaped(h.subrange(0, h.len() - 2)) + seq!['\\', 'x', h[h.len() - 2], h[h.len() - 1]]
    }
}

/// The Rust expression that an address literal expands to: the address
/// built from a byte string of escapes.
pub open spec fn expansion_text(bytes: Seq<u8>) -> Seq<char> {
    "::ethaddr::Address(*b\""@ + escaped(ascii_text(lower_hex(bytes))) + "\")"@
}

/// The Rust expression that an address literal expands to.
pub fn expansion(address: &Address) -> (r: String)
    ensures
        r@ == expansion_text(address@),
{
    let buffer = buffer::fmt(&address.0, Alphabet::Lower);
    let hex = buffer.as_bytes_str();
    let ghost h = ascii_text(lower_hex(address@));
    assert(hex@ =~= h);
    assert(is_ascii_chars(hex@)) by {
        assert forall|k: int| 0 <= k < hex@.len() implies '\0' <= #[trigger] hex@[k] <= '\u{7f}' by {
            char_u32_cast(hex@[k], hex@[k] as u32);
        }
    }
    let mut m = "::ethaddr::Address(*b\"".to_owned();
    let mut i: usize = 0;
    while i < 20
        invariant
            0 <= i <= 20,
            hex@ == h,
            h.len() == 40,
            hex.is_ascii(),
            m@ == "::ethaddr::Address(*b\""@ + escaped(h.subrange(0, 2 * i)),
        decreases 20 - i,
    {
        let ghost before = m@;
        m.append("\\x");
        let pair = hex.substring_ascii(2 * i, 2 * i + 2);
        m.append(pair);
        proof {
            reveal_strlit("\\x");
            assert("\\x"@ =~= seq!['\\', 'x']);
            assert(pair@ =~= seq![h[2 * i as int], h[2 * i + 1]]);
            assert(m@ =~= before + seq!['\\', 'x', h[2 * i as int], h[2 * i + 1]]);
            let next = h.subrange(0, 2 * i + 2);
            assert(next.subrange(0, next.len() - 2) =~= h.subrange(0, 2 * i));
            assert(escaped(next) == escaped(h.subrange(0, 2 * i)) + seq![
                '\\',
                'x',
                h[2 * i],
                h[2 * i + 1],
            ]);
        }
        i += 1;
        assert(m@ =~= "::ethaddr::Address(*b\""@ + escaped(h.subrange(0, 2 * i)));
    }
    assert(h.subrange(0, 40) =~= h);
    m.append("\")");
    m
}

/// The message of a refused address literal.
pub open spec fn literal_error_text(e: LiteralError) -> Seq<char> {
    match e {
        LiteralError::Parse(p) => "invalid address literal: "@ + error_text(p),
        LiteralError::Checksum { suggestion } => "invalid address checksum; did you mean `"@
            + suggestion@ + "`?"@,
    }
}

impl LiteralError {
    /// The error message.
    pub fn message(&self) -> (r: String)
        ensures
            r@ == literal_error_text(*self),
    {
        match self {
            LiteralError::Parse(p) => {
                let mut m = "invalid address literal: ".to_owned();
                m.append(p.message().as_str());
                m
            },
            LiteralError::Checksum { suggestion } => {
                let mut m = "invalid address checksum; did you mean `".to_owned();
                m.append(suggestion.as_str());
                m.append("`?");
                m
            },
        }
    }
}

proof fn lemma_run_stays_err(toks: Seq<LiteralToken>, i: nat, n: nat)
    requires
        i <= n,
        run(toks, i) is Err,
    ensures
        run(toks, n) == run(toks, i),
    decreases n - i,
{
    if i < n {
        lemma_run_stays_err(toks, i, (n - 1) as nat);
    }
}

impl Input {
    /// Reads an address literal from its tokens: a string literal, with an
    /// optional `~` before it.
    pub fn parse(tokens: &Vec<LiteralToken>) -> (r: Result<Input, Unexpected>)
        ensures
            match run(tokens@, tokens@.len()) {
                Ok(st) => if st is Eof {
                    r matches Ok(input) && input.checksum == !(tokens@[0] is Tilde) && quoted_inner(
                        token_text(tokens@[tokens@.len() - 1]),
                    ) == Some(input.value@)
                } else {
                    r matches Err(e) && e.expected == st && e.found@ == eof_text() && e.index is None
                },
                Err((st, k)) => r matches Err(e) && e.expected == st && e.found@ == token_text(
                    tokens@[k as int],
                ) && e.index == Some(k as usize),
            },
    {
        let mut result = Input { checksum: true, value: String::new() };
        let mut state = ParserState::start();
        let mut i: usize = 0;
        while i < tokens.len()
            invariant
                0 <= i <= tokens@.len(),
                run(tokens@, i as nat) == Ok::<ParserState, (ParserState, nat)>(state),
                state is TildeOrString ==> i == 0 && result.checksum,
                state is String ==> i == 1 && tokens@[0] is Tilde && !result.checksum,
                state is Eof ==> i >= 1 && result.checksum == !(tokens@[0] is Tilde)
                    && quoted_inner(token_text(tokens@[i - 1])) == Some(result.value@),
            decreases tokens@.len() - i,
        {
            let token = &tokens[i];
            match state.next(token, i, &mut result) {
                Ok(next) => {
                    state = next;
                },
                Err(e) => {
                    proof {
                        lemma_run_stays_err(tokens@, (i + 1) as nat, tokens@.len());
                    }
                    return Err(e);
                },
            }
            i += 1;
        }
        match state.end() {
            Ok(()) => Ok(result),
            Err(e) => Err(e),
        }
    }
}

/// Reads the address of a literal, and verifies its checksum unless the
/// literal asks not to.
pub fn generate(input: &Input) -> (r: Result<Address, LiteralError>)
    ensures
        match decode_spec(input.value@) {
            Err(e) => r matches Err(LiteralError::Parse(e2)) && e2 == e,
            Ok(b) => if input.checksum && !checksum_matches(b, input.value@) {
                r matches Err(LiteralError::Checksum { suggestion }) && suggestion@ == (
                if starts_with_0x(input.value@) {
                    checksummed_text(b)
                } else {
                    ascii_text(checksummed_hex(b))
                })
            } else {
                r matches Ok(a) && a@ == b
            },
        },
{
    let value = input.value.as_str();
    let bytes = match hex::decode(value) {
        Ok(bytes) => bytes,
        Err(e) => {
            return Err(LiteralError::Parse(e));
        },
    };
    if input.checksum {
        match checksum::verify(&bytes, value) {
            Ok(()) => {},
            Err(expected) => {
                let n = value.unicode_len();
                let suggestion = if n >= 2 && value.get_char(0) == '0' && value.get_char(1)
                    == 'x' {
                    expected.as_str().to_owned()
                } else {
                    let s = expected.as_bytes_str().to_owned();
                    assert(s@ =~= ascii_text(checksummed_hex(bytes@)));
                    s
                };
                return Err(LiteralError::Checksum { suggestion });
            },
        }
    }
    Ok(Address(bytes))
}

} // verus!
