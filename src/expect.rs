use vstd::prelude::*;
use crate::error::{fail, ParseError};
use crate::codegen::{dec, decimal};
use crate::token::{Lexeme, Token, TokenKind};
use vstd::string::StringExecFns;

verus! {

/// The quoted, escaped form of a text, as `{:?}` writes it.
pub uninterp spec fn debug_quoted(s: Seq<char>) -> Seq<char>;

/// Relies on `<str as Debug>::fmt`, through `format!("{:?}")`: the quoted,
/// escaped form depends on the text alone.
#[verifier::external_body]
fn quote_debug(s: &str) -> (r: String)
    ensures
        r@ == debug_quoted(s@),
{
    format!("{:?}", s)
}

/// The message for a missing kind that carries a value, as `{:?}` shows
/// it: `expected Variant { field: value }`.
pub open spec fn payload_msg(variant: Seq<char>, field: Seq<char>, value: Seq<char>) -> Seq<char> {
    "expected "@ + variant + " { "@ + field + ": "@ + value + " }"@
}

/// Builds the message for a missing kind that carries a value, from the
/// value's written form.
pub fn payload_message(variant: &str, field: &str, value: &str) -> (r: String)
    ensures
        r@ == payload_msg(variant@, field@, value@),
{
    let mut s = String::new();
    s.append("expected ");
    s.append(variant);
    s.append(" { ");
    s.append(field);
    s.append(": ");
    s.append(value);
    s.append(" }");
    assert(s@ =~= payload_msg(variant@, field@, value@));
    s
}

/// The message for a token of kind `k` that was owed and is missing, as
/// `expected {:?}` writes it.
pub open spec fn expected_msg(k: TokenKind) -> Seq<char> {
    match k {
        TokenKind::Number { num } => payload_msg("Number"@, "num"@, dec(num as nat)),
        TokenKind::Ident { name } => payload_msg("Ident"@, "name"@, debug_quoted(name@)),
        TokenKind::String { value } => payload_msg("String"@, "value"@, debug_quoted(value@)),
        TokenKind::Plus => "expected Plus"@,
        TokenKind::Minus => "expected Minus"@,
        TokenKind::Star => "expected Star"@,
        TokenKind::Slash => "expected Slash"@,
        TokenKind::EqEq => "expected EqEq"@,
        TokenKind::Ne => "expected Ne"@,
        TokenKind::Lt => "expected Lt"@,
        TokenKind::Le => "expected Le"@,
        TokenKind::Gt => "expected Gt"@,
        TokenKind::Ge => "expected Ge"@,
        TokenKind::Assign => "expected Assign"@,
        TokenKind::Semicolon => "expected Semicolon"@,
        TokenKind::Comma => "expected Comma"@,
        TokenKind::Colon => "expected Colon"@,
        TokenKind::LParen => "expected LParen"@,
        TokenKind::RParen => "expected RParen"@,
        TokenKind::Eof => "expected Eof"@,
        TokenKind::Return => "expected Return"@,
        TokenKind::If => "expected If"@,
        TokenKind::Else => "expected Else"@,
        TokenKind::While => "expected While"@,
        TokenKind::For => "expected For"@,
        TokenKind::Fn => "expected Fn"@,
        TokenKind::LBrace => "expected LBrace"@,
        TokenKind::RBrace => "expected RBrace"@,
        TokenKind::LBracket => "expected LBracket"@,
        TokenKind::RBracket => "expected RBracket"@,
        TokenKind::I32 => "expected I32"@,
        TokenKind::Arrow => "expected Arrow"@,
        TokenKind::Amp => "expected Amp"@,
        TokenKind::Let => "expected Let"@,
    }
}

fn fixed_message(k: &TokenKind) -> (r: &'static str)
    requires
        k@ == Lexeme::Fixed(*k),
    ensures
        r@ == expected_msg(*k),
{
    match k {
        TokenKind::Number { .. } | TokenKind::Ident { .. } | TokenKind::String { .. } => "",  // excluded by the precondition
        TokenKind::Plus => "expected Plus",
        TokenKind::Minus => "expected Minus",
        TokenKind::Star => "expected Star",
        TokenKind::Slash => "expected Slash",
        TokenKind::EqEq => "expected EqEq",
        TokenKind::Ne => "expected Ne",
        TokenKind::Lt => "expected Lt",
        TokenKind::Le => "expected Le",
        TokenKind::Gt => "expected Gt",
        TokenKind::Ge => "expected Ge",
        TokenKind::Assign => "expected Assign",
        TokenKind::Semicolon => "expected Semicolon",
        TokenKind::Comma => "expected Comma",
        TokenKind::Colon => "expected Colon",
        TokenKind::LParen => "expected LParen",
        TokenKind::RParen => "expected RParen",
        TokenKind::Eof => "expected Eof",
        TokenKind::Return => "expected Return",
        TokenKind::If => "expected If",
        TokenKind::Else => "expected Else",
        TokenKind::While => "expected While",
        TokenKind::For => "expected For",
        TokenKind::Fn => "expected Fn",
        TokenKind::LBrace => "expected LBrace",
        TokenKind::RBrace => "expected RBrace",
        TokenKind::LBracket => "expected LBracket",
        TokenKind::RBracket => "expected RBracket",
        TokenKind::I32 => "expected I32",
        TokenKind::Arrow => "expected Arrow",
        TokenKind::Amp => "expected Amp",
        TokenKind::Let => "expected Let",
    }
}

fn expected_message(k: &TokenKind) -> (r: String)
    ensures
        r@ == expected_msg(*k),
{
    match k {
        TokenKind::Number { num } => {
            let v = decimal(*num as u128);
            payload_message("Number", "num", v.as_str())
        },
        TokenKind::Ident { name } => {
            let v = quote_debug(name.as_str());
            payload_message("Ident", "name", v.as_str())
        },
        TokenKind::String { value } => {
            let v = quote_debug(value.as_str());
            payload_message("String", "value", v.as_str())
        },
        _ => fixed_message(k).to_owned(),
    }
}

/// Checks that `cur` is of the kind `expected`.
pub fn expect_token(cur: &Token, expected_kind: &TokenKind) -> (r: Result<(), ParseError>)
    ensures
        r is Ok <==> cur.kind@ == expected_kind@,
        r matches Err(e) ==> e@ == (expected_msg(*expected_kind), cur.pos),
{
    if cur.kind.same_kind(expected_kind) {
        Ok(())
    } else {
        Err(fail(expected_message(expected_kind).as_str(), cur.pos))
    }
}

/// An error with message `msg` at the token `cur`.
pub fn error_tok(cur: &Token, msg: &str) -> (r: ParseError)
    ensures
        r@ == (msg@, cur.pos),
{
    fail(msg, cur.pos)
}

/// Whether `cur` is the end of the tokens.
pub fn at_eof(cur: &Token) -> (r: bool)
    ensures
        r == (cur.kind@ == Lexeme::Fixed(TokenKind::Eof)),
{
    match cur.kind {
        TokenKind::Eof => true,
        _ => false,
    }
}

/// The value of a number token, or an error at any other token.
pub fn expect_number(cur: &Token) -> (r: Result<u64, ParseError>)
    ensures
        match cur.kind@ {
            Lexeme::Num(n) => r == Ok::<u64, ParseError>(n),
            _ => r matches Err(e) && e@ == ("expected a number"@, cur.pos),
        },
{
    match cur.kind {
        TokenKind::Number { num } => Ok(num),
        _ => Err(fail("expected a number", cur.pos)),
    }
}

} // verus!
