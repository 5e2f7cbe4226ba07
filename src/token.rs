use vstd::prelude::*;
use crate::error::{fail, ErrView, ParseError};
use vstd::string::StringSliceAdditionalSpecFns;

verus! {

/// The kind of a token. Keywords and punctuation each have their own tag.
#[derive(Debug, PartialEq, Eq, Clone)]
pub enum TokenKind {
    Number { num: u64 },
    Ident { name: String },
    String { value: String },
    Plus,
    Minus,
    Star,
    Slash,
    EqEq,
    Ne,
    Lt,
    Le,
    Gt,
    Ge,
    Assign,
    Semicolon,
    Comma,
    Colon,
    LParen,
    RParen,
    Eof,
    Return,
    If,
    Else,
    While,
    For,
    Fn,
    LBrace,
    RBrace,
    LBracket,
    RBracket,
    I32,
    Arrow,
    Amp,
    Let,
}

/// A token kind as a mathematical value: the kinds that carry text carry
/// it as a character sequence; every other kind stands for itself.
pub enum Lexeme {
    Num(u64),
    Ident(Seq<char>),
    Text(Seq<char>),
    Fixed(TokenKind),
}

impl View for TokenKind {
    type V = Lexeme;

    open spec fn view(&self) -> Lexeme {
        match self {
            TokenKind::Number { num } => Lexeme::Num(*num),
            TokenKind::Ident { name } => Lexeme::Ident(name@),
            TokenKind::String { value } => Lexeme::Text(value@),
            _ => Lexeme::Fixed(*self),
        }
    }
}

/// A numbering of the kinds; the three kinds with a payload come first.
pub open spec fn kind_tag(k: TokenKind) -> u8 {
    match k {
        TokenKind::Number { .. } => 0,
        TokenKind::Ident { .. } => 1,
        TokenKind::String { .. } => 2,
        TokenKind::Plus => 3,
        TokenKind::Minus => 4,
        TokenKind::Star => 5,
        TokenKind::Slash => 6,
        TokenKind::EqEq => 7,
        TokenKind::Ne => 8,
        TokenKind::Lt => 9,
        TokenKind::Le => 10,
        TokenKind::Gt => 11,
        TokenKind::Ge => 12,
        TokenKind::Assign => 13,
        TokenKind::Semicolon => 14,
        TokenKind::Comma => 15,
        TokenKind::Colon => 16,
        TokenKind::LParen => 17,
        TokenKind::RParen => 18,
        TokenKind::Eof => 19,
        TokenKind::Return => 20,
        TokenKind::If => 21,
        TokenKind::Else => 22,
        TokenKind::While => 23,
        TokenKind::For => 24,
        TokenKind::Fn => 25,
        TokenKind::LBrace => 26,
        TokenKind::RBrace => 27,
        TokenKind::LBracket => 28,
        TokenKind::RBracket => 29,
        TokenKind::I32 => 30,
        TokenKind::Arrow => 31,
        TokenKind::Amp => 32,
        TokenKind::Let => 33,
    }
}

impl TokenKind {
    pub fn tag(&self) -> (r: u8)
        ensures
            r == kind_tag(*self),
    {
        match self {
            TokenKind::Number { .. } => 0,
            TokenKind::Ident { .. } => 1,
            TokenKind::String { .. } => 2,
            TokenKind::Plus => 3,
            TokenKind::Minus => 4,
            TokenKind::Star => 5,
            TokenKind::Slash => 6,
            TokenKind::EqEq => 7,
            TokenKind::Ne => 8,
            TokenKind::Lt => 9,
            TokenKind::Le => 10,
            TokenKind::Gt => 11,
            TokenKind::Ge => 12,
            TokenKind::Assign => 13,
            TokenKind::Semicolon => 14,
            TokenKind::Comma => 15,
            TokenKind::Colon => 16,
            TokenKind::LParen => 17,
            TokenKind::RParen => 18,
            TokenKind::Eof => 19,
            TokenKind::Return => 20,
            TokenKind::If => 21,
            TokenKind::Else => 22,
            TokenKind::While => 23,
            TokenKind::For => 24,
            TokenKind::Fn => 25,
            TokenKind::LBrace => 26,
            TokenKind::RBrace => 27,
            TokenKind::LBracket => 28,
            TokenKind::RBracket => 29,
            TokenKind::I32 => 30,
            TokenKind::Arrow => 31,
            TokenKind::Amp => 32,
            TokenKind::Let => 33,
        }
    }

    /// Whether two kinds are the same, payload included.
    pub fn same_kind(&self, other: &TokenKind) -> (r: bool)
        ensures
            r == (self@ == other@),
    {
        match (self, other) {
            (TokenKind::Number { num: a }, TokenKind::Number { num: b }) => *a == *b,
            (TokenKind::Ident { name: a }, TokenKind::Ident { name: b }) => *a == *b,
            (TokenKind::String { value: a }, TokenKind::String { value: b }) => *a == *b,
            _ => self.tag() == other.tag(),
        }
    }
}

/// A token: its kind and the byte offset where it starts in the source.
#[derive(Debug, PartialEq, Eq, Clone)]
pub struct Token {
    pub kind: TokenKind,
    pub pos: usize,
}

impl View for Token {
    type V = (Lexeme, usize);

    open spec fn view(&self) -> (Lexeme, usize) {
        (self.kind@, self.pos)
    }
}

pub open spec fn tokens_view(ts: Seq<Token>) -> Seq<(Lexeme, usize)> {
    ts.map_values(|t: Token| t@)
}

pub type LexResult = Result<Seq<(Lexeme, usize)>, ErrView>;

// ---------------------------------------------------------------------
// Character classes, on bytes of the source.
pub open spec fn is_space(c: u8) -> bool {
    c == 32 || (9 <= c && c <= 13)
}

/// The byte length of the whitespace character at `i`, or 0 where none
/// starts: ASCII whitespace, and in UTF-8 U+0085, U+00A0, U+1680,
/// U+2000 to U+200A, U+2028, U+2029, U+202F, U+205F and U+3000.
pub open spec fn space_len(s: Seq<u8>, i: int) -> int {
    let c = s[i];
    let d: u8 = if i + 1 < s.len() { s[i + 1] } else { 0 };
    let e: u8 = if i + 2 < s.len() { s[i + 2] } else { 0 };
    if is_space(c) {
        1
    } else if c == 0xC2 && (d == 0x85 || d == 0xA0) {
        2
    } else if c == 0xE1 && d == 0x9A && e == 0x80 {
        3
    } else if c == 0xE2 && d == 0x80 && ((0x80 <= e && e <= 0x8A) || e == 0xA8 || e == 0xA9
        || e == 0xAF) {
        3
    } else if c == 0xE2 && d == 0x81 && e == 0x9F {
        3
    } else if c == 0xE3 && d == 0x80 && e == 0x80 {
        3
    } else {
        0
    }
}

pub open spec fn is_digit(c: u8) -> bool {
    48 <= c && c <= 57
}

pub open spec fn is_alpha(c: u8) -> bool {
    (65 <= c && c <= 90) || (97 <= c && c <= 122)
}

pub open spec fn is_alnum(c: u8) -> bool {
    is_digit(c) || is_alpha(c)
}

/// The characters that a run of ASCII bytes spells.
pub open spec fn ascii_chars(b: Seq<u8>) -> Seq<char> {
    b.map_values(|x: u8| x as char)
}

/// The text that a run of source bytes decodes to.
pub uninterp spec fn decoded_text(b: Seq<u8>) -> Seq<char>;

pub open spec fn all_ascii(b: Seq<u8>) -> bool {
    forall|k: int| 0 <= k < b.len() ==> b[k] < 128
}

/// The text of a string literal's bytes, read verbatim: an ASCII run spells
/// its characters one for one.
pub open spec fn literal_text(b: Seq<u8>) -> Seq<char> {
    if all_ascii(b) {
        ascii_chars(b)
    } else {
        decoded_text(b)
    }
}

// ---------------------------------------------------------------------
// The lexical grammar as spec functions.

/// Reads decimal digits from `k` on, onto `acc`; `None` once the value
/// no longer fits in a `u64`.
pub open spec fn scan_number(s: Seq<u8>, k: int, acc: nat) -> Option<(u64, int)>
    decreases s.len() - k,
{
    if 0 <= k < s.len() && is_digit(s[k]) {
        let a = acc * 10 + (s[k] - 48) as nat;
        if a > u64::MAX {
            None
        } else {
            scan_number(s, k + 1, a)
        }
    } else if acc <= u64::MAX {
        Some((acc as u64, k))
    } else {
        None
    }
}

/// The end of the run of letters and digits that starts at `k`.
pub open spec fn word_end(s: Seq<u8>, k: int) -> int
    decreases s.len() - k,
{
    if 0 <= k < s.len() && is_alnum(s[k]) {
        word_end(s, k + 1)
    } else {
        k
    }
}

/// Where the first `"` at or after `k` stands, if there is one.
pub open spec fn quote_end(s: Seq<u8>, k: int) -> Option<int>
    decreases s.len() - k,
{
    if k < 0 || k >= s.len() {
        None
    } else if s[k] == 34 {
        Some(k)
    } else {
        quote_end(s, k + 1)
    }
}

/// The index just past the first newline at or after `k` (or the end).
pub open spec fn line_end(s: Seq<u8>, k: int) -> int
    decreases s.len() - k,
{
    if k < 0 || k >= s.len() {
        s.len() as int
    } else if s[k] == 10 {
        k + 1
    } else {
        line_end(s, k + 1)
    }
}

/// The index just past the first `*/` at or after `k`, if there is one.
pub open spec fn block_end(s: Seq<u8>, k: int) -> Option<int>
    decreases s.len() - k,
{
    if k < 0 || k >= s.len() {
        None
    } else if k + 1 < s.len() && s[k] == 42 && s[k + 1] == 47 {
        Some(k + 2)
    } else {
        block_end(s, k + 1)
    }
}

pub open spec fn keyword_of(w: Seq<u8>) -> Option<TokenKind> {
    if w == seq![114u8, 101, 116, 117, 114, 110] {
        Some(TokenKind::Return)
    } else if w == seq![105u8, 102] {
        Some(TokenKind::If)
    } else if w == seq![101u8, 108, 115, 101] {
        Some(TokenKind::Else)
    } else if w == seq![119u8, 104, 105, 108, 101] {
        Some(TokenKind::While)
    } else if w == seq![102u8, 111, 114] {
        Some(TokenKind::For)
    } else if w == seq![102u8, 110] {
        Some(TokenKind::Fn)
    } else if w == seq![108u8, 101, 116] {
        Some(TokenKind::Let)
    } else if w == seq![105u8, 51, 50] {
        Some(TokenKind::I32)
    } else {
        None
    }
}

/// The operator or punctuation at `i`, longest lexeme first, with its length.
pub open spec fn operator_at(s: Seq<u8>, i: int) -> Option<(TokenKind, int)> {
    let c = s[i];
    let d: u8 = if i + 1 < s.len() { s[i + 1] } else { 0 };
    if c == 61 && d == 61 {
        Some((TokenKind::EqEq, 2))
    } else if c == 33 && d == 61 {
        Some((TokenKind::Ne, 2))
    } else if c == 60 && d == 61 {
        Some((TokenKind::Le, 2))
    } else if c == 62 && d == 61 {
        Some((TokenKind::Ge, 2))
    } else if c == 45 && d == 62 {
        Some((TokenKind::Arrow, 2))
    } else if c == 60 {
        Some((TokenKind::Lt, 1))
    } else if c == 62 {
        Some((TokenKind::Gt, 1))
    } else if c == 61 {
        Some((TokenKind::Assign, 1))
    } else if c == 43 {
        Some((TokenKind::Plus, 1))
    } else if c == 45 {
        Some((TokenKind::Minus, 1))
    } else if c == 42 {
        Some((TokenKind::Star, 1))
    } else if c == 47 {
        Some((TokenKind::Slash, 1))
    } else if c == 59 {
        Some((TokenKind::Semicolon, 1))
    } else if c == 44 {
        Some((TokenKind::Comma, 1))
    } else if c == 58 {
        Some((TokenKind::Colon, 1))
    } else if c == 40 {
        Some((TokenKind::LParen, 1))
    } else if c == 41 {
        Some((TokenKind::RParen, 1))
    } else if c == 123 {
        Some((TokenKind::LBrace, 1))
    } else if c == 125 {
        Some((TokenKind::RBrace, 1))
    } else if c == 91 {
        Some((TokenKind::LBracket, 1))
    } else if c == 93 {
        Some((TokenKind::RBracket, 1))
    } else if c == 38 {
        Some((TokenKind::Amp, 1))
    } else {
        None
    }
}

pub open spec fn prepend(t: (Lexeme, usize), r: LexResult) -> LexResult {
    match r {
        Ok(ts) => Ok(seq![t] + ts),
        Err(e) => Err(e),
    }
}

pub open spec fn glue(pre: Seq<(Lexeme, usize)>, r: LexResult) -> LexResult {
    match r {
        Ok(ts) => Ok(pre + ts),
        Err(e) => Err(e),
    }
}

/// The tokens of the source bytes from `i` on, ending with `Eof` at the
/// end of the source; or the first error.
pub open spec fn lex(s: Seq<u8>, i: int) -> LexResult
    decreases s.len() - i,
{
    if i < 0 || i >= s.len() {
        Ok(seq![(Lexeme::Fixed(TokenKind::Eof), s.len() as usize)])
    } else {
        let c = s[i];
        let d: u8 = if i + 1 < s.len() { s[i + 1] } else { 0 };
        if space_len(s, i) > 0 {
            lex(s, i + space_len(s, i))
        } else if c == 47 && d == 47 {
            proof { lemma_line_end(s, i + 2); }
            lex(s, line_end(s, i + 2))
        } else if c == 47 && d == 42 {
            proof { lemma_block_end(s, i + 2); }
            match block_end(s, i + 2) {
                Some(j) => lex(s, j),
                None => Err(("コメントの閉じタグ */ が見つかりませんでした"@, i as usize)),
            }
        } else if c == 34 {
            proof { lemma_quote_end(s, i + 1); }
            match quote_end(s, i + 1) {
                Some(j) => prepend(
                    (Lexeme::Text(literal_text(s.subrange(i + 1, j))), i as usize),
                    lex(s, j + 1),
                ),
                None => Err(("文字列が閉じられていません"@, i as usize)),
            }
        } else if is_digit(c) {
            proof { lemma_scan_number(s, i, 0); }
            match scan_number(s, i, 0) {
                Some((n, j)) => prepend((Lexeme::Num(n), i as usize), lex(s, j)),
                None => Err(("number too large"@, i as usize)),
            }
        } else if is_alpha(c) {
            let j = word_end(s, i + 1);
            proof { lemma_word_end(s, i + 1); }
            let w = s.subrange(i, j);
            let l = match keyword_of(w) {
                Some(k) => Lexeme::Fixed(k),
                None => Lexeme::Ident(ascii_chars(w)),
            };
            prepend((l, i as usize), lex(s, j))
        } else {
            match operator_at(s, i) {
                Some((k, n)) => prepend((Lexeme::Fixed(k), i as usize), lex(s, i + n)),
                None => Err(("invalid character"@, i as usize)),
            }
        }
    }
}

pub proof fn lemma_glue_push(pre: Seq<(Lexeme, usize)>, t: (Lexeme, usize), r: LexResult)
    ensures
        glue(pre, prepend(t, r)) == glue(pre + seq![t], r),
{
    if let Ok(ts) = r {
        assert(pre + (seq![t] + ts) =~= (pre + seq![t]) + ts);
    }
}

pub proof fn lemma_space_len(s: Seq<u8>, i: int)
    requires
        0 <= i < s.len(),
    ensures
        i + space_len(s, i) <= s.len(),
{
}

pub proof fn lemma_line_end(s: Seq<u8>, k: int)
    requires
        0 <= k,
    ensures
        k <= line_end(s, k) <= s.len() || (k > s.len() && line_end(s, k) == s.len()),
    decreases s.len() - k,
{
    if 0 <= k < s.len() && s[k] != 10 {
        lemma_line_end(s, k + 1);
    }
}

pub proof fn lemma_block_end(s: Seq<u8>, k: int)
    requires
        0 <= k,
    ensures
        block_end(s, k) matches Some(j) ==> k + 2 <= j <= s.len(),
    decreases s.len() - k,
{
    if 0 <= k < s.len() && !(k + 1 < s.len() && s[k] == 42 && s[k + 1] == 47) {
        lemma_block_end(s, k + 1);
    }
}

pub proof fn lemma_quote_end(s: Seq<u8>, k: int)
    requires
        0 <= k,
    ensures
        quote_end(s, k) matches Some(j) ==> k <= j < s.len() && s[j] == 34,
    decreases s.len() - k,
{
    if 0 <= k < s.len() && s[k] != 34 {
        lemma_quote_end(s, k + 1);
    }
}

pub proof fn lemma_scan_number(s: Seq<u8>, k: int, acc: nat)
    requires
        0 <= k <= s.len(),
    ensures
        scan_number(s, k, acc) matches Some((n, j)) ==> k <= j <= s.len() && (j == k
            ==> n == acc) && (j > k || k >= s.len() || !is_digit(s[k])),
    decreases s.len() - k,
{
    if 0 <= k < s.len() && is_digit(s[k]) {
        let a = acc * 10 + (s[k] - 48) as nat;
        if a <= u64::MAX {
            lemma_scan_number(s, k + 1, a);
        }
    }
}

pub proof fn lemma_word_end(s: Seq<u8>, k: int)
    requires
        0 <= k,
    ensures
        k <= word_end(s, k),
        word_end(s, k) <= s.len() || word_end(s, k) == k,
        forall|m: int| k <= m < word_end(s, k) ==> is_alnum(#[trigger] s[m]),
    decreases s.len() - k,
{
    if 0 <= k < s.len() && is_alnum(s[k]) {
        lemma_word_end(s, k + 1);
    }
}


/// Tokenizing is a function of the text alone: the same text always gives
/// the same tokens (or the same error).
pub proof fn tokens_depend_on_text_only(a: &str, b: &str)
    requires
        a@ == b@,
    ensures
        lex(a.spec_bytes(), 0) == lex(b.spec_bytes(), 0),
{
}

/// Where lexing meets a `"` with no closing quote after it, it fails with
/// the position of that opening quote, not at the end of the text.
pub proof fn unterminated_string_fails_at_its_quote(s: Seq<u8>, i: int)
    requires
        0 <= i < s.len(),
        s[i] == 34,
        forall|k: int| i < k < s.len() ==> s[k] != 34,
    ensures
        lex(s, i) == Err::<Seq<(Lexeme, usize)>, ErrView>(("文字列が閉じられていません"@, i as usize)),
{
    lemma_no_quote_from(s, i + 1);
}

proof fn lemma_no_quote_from(s: Seq<u8>, k: int)
    requires
        0 <= k,
        forall|m: int| k <= m < s.len() ==> s[m] != 34,
    ensures
        quote_end(s, k) is None,
    decreases s.len() - k,
{
    if k < s.len() {
        lemma_no_quote_from(s, k + 1);
    }
}

/// The decimal digits of `n`, as ASCII bytes.
pub open spec fn digits_of(n: nat) -> Seq<u8>
    decreases n,
{
    if n < 10 {
        seq![(48 + n) as u8]
    } else {
        digits_of(n / 10).push((48 + n % 10) as u8)
    }
}

/// The value of a run of ASCII digits.
pub open spec fn digits_value(d: Seq<u8>) -> nat
    decreases d.len(),
{
    if d.len() == 0 {
        0
    } else {
        digits_value(d.drop_last()) * 10 + (d.last() - 48) as nat
    }
}

pub proof fn lemma_digits_of(n: nat)
    ensures
        digits_value(digits_of(n)) == n,
        digits_of(n).len() >= 1,
        forall|k: int| 0 <= k < digits_of(n).len() ==> is_digit(#[trigger] digits_of(n)[k]),
    decreases n,
{
    let d = digits_of(n);
    if n >= 10 {
        lemma_digits_of(n / 10);
        assert(d.drop_last() =~= digits_of(n / 10));
        assert(d.last() == (48 + n % 10) as u8);
        assert((d.last() - 48) as nat == n % 10);
        assert(digits_value(d) == digits_value(d.drop_last()) * 10 + (d.last() - 48) as nat);
        assert(n == (n / 10) * 10 + n % 10);
        assert forall|k: int| 0 <= k < digits_of(n).len() implies is_digit(
            #[trigger] digits_of(n)[k],
        ) by {
            if k < digits_of(n).len() - 1 {
                assert(digits_of(n)[k] == digits_of(n / 10)[k]);
            }
        }
    } else {
        assert(d.drop_last() =~= Seq::<u8>::empty());
        assert(digits_value(d.drop_last()) == 0);
        assert(digits_value(d) == digits_value(d.drop_last()) * 10 + (d.last() - 48) as nat);
    }
}

/// Scanning a run of digits from `k` on, with `acc` the value of those
/// before, reads the value of the whole run, when that fits.
pub proof fn lemma_scan_digits(s: Seq<u8>, start: int, k: int, end: int)
    requires
        0 <= start <= k <= end <= s.len(),
        forall|m: int| start <= m < end ==> is_digit(#[trigger] s[m]),
        end == s.len() || !is_digit(s[end]),
        digits_value(s.subrange(start, end)) <= u64::MAX,
    ensures
        scan_number(s, k, digits_value(s.subrange(start, k))) == Some(
            (digits_value(s.subrange(start, end)) as u64, end),
        ),
    decreases end - k,
{
    if k < end {
        assert(s.subrange(start, k + 1).drop_last() =~= s.subrange(start, k));
        lemma_prefix_value_le(s.subrange(start, end), k + 1 - start);
        assert(s.subrange(start, end).subrange(0, k + 1 - start) =~= s.subrange(start, k + 1));
        lemma_scan_digits(s, start, k + 1, end);
    }
}

/// A prefix of a run of digits is worth no more than the whole run.
pub proof fn lemma_prefix_value_le(d: Seq<u8>, j: int)
    requires
        0 <= j <= d.len(),
        forall|m: int| 0 <= m < d.len() ==> is_digit(#[trigger] d[m]),
    ensures
        digits_value(d.subrange(0, j)) <= digits_value(d),
    decreases d.len(),
{
    if j < d.len() {
        assert(d.drop_last().subrange(0, j) =~= d.subrange(0, j));
        lemma_prefix_value_le(d.drop_last(), j);
    } else {
        assert(d.subrange(0, j) =~= d);
    }
}

/// The bytes of `fn main() { <n>; }`.
pub open spec fn number_program_text(n: u64) -> Seq<u8> {
    seq![102u8, 110, 32, 109, 97, 105, 110, 40, 41, 32, 123, 32] + digits_of(n as nat) + seq![
        59u8,
        32,
        125,
    ]
}

/// For every number `n`, the text `fn main() { <n>; }` lexes to the tokens
/// `fn`, `main`, `(`, `)`, `{`, `n`, `;`, `}` and the end.
proof fn number_program_scans(n: u64)
    ensures
        scan_number(number_program_text(n), 12, 0) == Some((n, 12 + digits_of(n as nat).len() as int)),
{
    let s = number_program_text(n);
    let d = digits_of(n as nat);
    lemma_digits_of(n as nat);
    let e = 12 + d.len() as int;
    assert(s.subrange(12, e) =~= d);
    assert(s[e] == 59u8);
    assert forall|m: int| 12 <= m < e implies is_digit(#[trigger] s[m]) by {
        assert(s[m] == d[m - 12]);
    }
    assert(s.subrange(12, 12) =~= Seq::<u8>::empty());
    lemma_scan_digits(s, 12, 12, e);
}

/// The tokens from the number on: the number, `;`, `}` and the end.
#[verifier::spinoff_prover]
proof fn number_program_lexes_tail(n: u64)
    ensures
        lex(number_program_text(n), 12) == Ok::<Seq<(Lexeme, usize)>, ErrView>(
            seq![
                (Lexeme::Num(n), 12usize),
                (Lexeme::Fixed(TokenKind::Semicolon), (12 + digits_of(n as nat).len()) as usize),
                (Lexeme::Fixed(TokenKind::RBrace), (14 + digits_of(n as nat).len()) as usize),
                (Lexeme::Fixed(TokenKind::Eof), (15 + digits_of(n as nat).len()) as usize),
            ],
        ),
{
    let s = number_program_text(n);
    let d = digits_of(n as nat);
    lemma_digits_of(n as nat);
    let len = d.len() as int;
    let e = 12 + len;
    assert(s.len() == 15 + len);
    assert(s[e] == 59u8);
    assert(s[e + 1] == 32u8);
    assert(s[e + 2] == 125u8);
    assert(s[12] == d[0]);
    number_program_scans(n);
    let eof = seq![(Lexeme::Fixed(TokenKind::Eof), (15 + len) as usize)];
    assert(lex(s, e + 3) == Ok::<Seq<(Lexeme, usize)>, ErrView>(eof));
    assert(lex(s, e + 2) == prepend((Lexeme::Fixed(TokenKind::RBrace), (e + 2) as usize), lex(s, e + 3)));
    assert(lex(s, e + 1) == lex(s, e + 2));
    assert(lex(s, e) == prepend((Lexeme::Fixed(TokenKind::Semicolon), e as usize), lex(s, e + 1)));
    assert(lex(s, 12) == prepend((Lexeme::Num(n), 12usize), lex(s, e)));
    assert(lex(s, 12) matches Ok(ts) && ts =~= seq![
        (Lexeme::Num(n), 12usize),
        (Lexeme::Fixed(TokenKind::Semicolon), e as usize),
        (Lexeme::Fixed(TokenKind::RBrace), (e + 2) as usize),
        (Lexeme::Fixed(TokenKind::Eof), (15 + len) as usize),
    ]);
}

/// For every number `n`, the text `fn main() { <n>; }` lexes to the tokens
/// `fn`, `main`, `(`, `)`, `{`, `n`, `;`, `}` and the end.
#[verifier::spinoff_prover]
pub proof fn number_program_lexes(n: u64)
    ensures
        lex(number_program_text(n), 0) == Ok::<Seq<(Lexeme, usize)>, ErrView>(
            seq![
                (Lexeme::Fixed(TokenKind::Fn), 0usize),
                (Lexeme::Ident(ascii_chars(seq![109u8, 97, 105, 110])), 3usize),
                (Lexeme::Fixed(TokenKind::LParen), 7usize),
                (Lexeme::Fixed(TokenKind::RParen), 8usize),
                (Lexeme::Fixed(TokenKind::LBrace), 10usize),
                (Lexeme::Num(n), 12usize),
                (Lexeme::Fixed(TokenKind::Semicolon), (12 + digits_of(n as nat).len()) as usize),
                (Lexeme::Fixed(TokenKind::RBrace), (14 + digits_of(n as nat).len()) as usize),
                (Lexeme::Fixed(TokenKind::Eof), (15 + digits_of(n as nat).len()) as usize),
            ],
        ),
{
    let s = number_program_text(n);
    lemma_digits_of(n as nat);
    let len = digits_of(n as nat).len() as int;
    number_program_lexes_tail(n);
    assert(s[0] == 102u8 && s[1] == 110u8 && s[2] == 32u8 && s[3] == 109u8);
    assert(s[4] == 97u8 && s[5] == 105u8 && s[6] == 110u8 && s[7] == 40u8);
    assert(s[8] == 41u8 && s[9] == 32u8 && s[10] == 123u8 && s[11] == 32u8);
    assert(lex(s, 11) == lex(s, 12));
    assert(lex(s, 10) == prepend((Lexeme::Fixed(TokenKind::LBrace), 10usize), lex(s, 11)));
    assert(lex(s, 9) == lex(s, 10));
    assert(lex(s, 8) == prepend((Lexeme::Fixed(TokenKind::RParen), 8usize), lex(s, 9)));
    assert(lex(s, 7) == prepend((Lexeme::Fixed(TokenKind::LParen), 7usize), lex(s, 8)));
    let main = seq![109u8, 97, 105, 110];
    assert(word_end(s, 7) == 7);
    assert(word_end(s, 6) == 7);
    assert(word_end(s, 5) == 7);
    assert(word_end(s, 4) == 7);
    assert(s.subrange(3, 7) =~= main);
    assert(main[0] == 109u8);
    assert(seq![101u8, 108, 115, 101][0] == 101u8);
    assert(keyword_of(main) is None);
    assert(lex(s, 3) == prepend((Lexeme::Ident(ascii_chars(main)), 3usize), lex(s, 7)));
    assert(lex(s, 2) == lex(s, 3));
    assert(word_end(s, 2) == 2);
    assert(word_end(s, 1) == 2);
    assert(s.subrange(0, 2) =~= seq![102u8, 110]);
    assert(lex(s, 0) == prepend((Lexeme::Fixed(TokenKind::Fn), 0usize), lex(s, 2)));
    assert(lex(s, 0) matches Ok(ts) && ts =~= seq![
        (Lexeme::Fixed(TokenKind::Fn), 0usize),
        (Lexeme::Ident(ascii_chars(main)), 3usize),
        (Lexeme::Fixed(TokenKind::LParen), 7usize),
        (Lexeme::Fixed(TokenKind::RParen), 8usize),
        (Lexeme::Fixed(TokenKind::LBrace), 10usize),
        (Lexeme::Num(n), 12usize),
        (Lexeme::Fixed(TokenKind::Semicolon), (12 + len) as usize),
        (Lexeme::Fixed(TokenKind::RBrace), (14 + len) as usize),
        (Lexeme::Fixed(TokenKind::Eof), (15 + len) as usize),
    ]);
}

// ---------------------------------------------------------------------
// The lexer.

/// Relies on `String::from_utf8_lossy`: the text depends on the bytes alone,
/// and a run of ASCII bytes decodes to those characters one for one.
#[verifier::external_body]
fn text_between(s: &[u8], start: usize, end: usize) -> (r: String)
    requires
        start <= end <= s@.len(),
    ensures
        r@ == decoded_text(s@.subrange(start as int, end as int)),
        all_ascii(s@.subrange(start as int, end as int)) ==> r@ == ascii_chars(
            s@.subrange(start as int, end as int),
        ),
{
    String::from_utf8_lossy(&s[start..end]).into_owned()
}

fn space_len_at(s: &[u8], i: usize) -> (r: usize)
    requires
        i < s@.len(),
    ensures
        r as int == space_len(s@, i as int),
        r <= 3,
{
    let c = s[i];
    let d: u8 = if i + 1 < s.len() { s[i + 1] } else { 0 };
    let e: u8 = if s.len() - i > 2 { s[i + 2] } else { 0 };
    if c == 32 || (9 <= c && c <= 13) {
        1
    } else if c == 0xC2 && (d == 0x85 || d == 0xA0) {
        2
    } else if c == 0xE1 && d == 0x9A && e == 0x80 {
        3
    } else if c == 0xE2 && d == 0x80 && ((0x80 <= e && e <= 0x8A) || e == 0xA8 || e == 0xA9
        || e == 0xAF) {
        3
    } else if c == 0xE2 && d == 0x81 && e == 0x9F {
        3
    } else if c == 0xE3 && d == 0x80 && e == 0x80 {
        3
    } else {
        0
    }
}

fn read_number(s: &[u8], start: usize) -> (r: Option<(u64, usize)>)
    requires
        start <= s@.len(),
    ensures
        r matches Some((n, j)) ==> scan_number(s@, start as int, 0) == Some((n, j as int)),
        r is None ==> scan_number(s@, start as int, 0) is None,
{
    let mut num: u64 = 0;
    let mut k: usize = start;
    while k < s.len() && 48 <= s[k] && s[k] <= 57
        invariant
            start <= k <= s@.len(),
            scan_number(s@, start as int, 0) == scan_number(s@, k as int, num as nat),
        decreases s@.len() - k,
    {
        let d = (s[k] - 48) as u64;
        if num > (u64::MAX - d) / 10 {
            assert(num * 10 + d > u64::MAX) by (nonlinear_arith)
                requires
                    num > (u64::MAX - d) / 10,
                    d <= 9,
            ;
            return None;
        }
        assert(num * 10 + d <= u64::MAX) by (nonlinear_arith)
            requires
                num <= (u64::MAX - d) / 10,
                d <= 9,
        ;
        num = num * 10 + d;
        k = k + 1;
    }
    Some((num, k))
}

fn read_ident_end(s: &[u8], start: usize) -> (r: usize)
    requires
        start <= s@.len(),
    ensures
        r as int == word_end(s@, start as int),
{
    let mut k: usize = start;
    while k < s.len() && (48 <= s[k] && s[k] <= 57 || 65 <= s[k] && s[k] <= 90 || 97 <= s[k]
        && s[k] <= 122)
        invariant
            start <= k <= s@.len(),
            word_end(s@, start as int) == word_end(s@, k as int),
        decreases s@.len() - k,
    {
        k = k + 1;
    }
    k
}

fn find_quote(s: &[u8], start: usize) -> (r: Option<usize>)
    requires
        start <= s@.len(),
    ensures
        r matches Some(j) ==> quote_end(s@, start as int) == Some(j as int),
        r is None ==> quote_end(s@, start as int) is None,
{
    let mut k: usize = start;
    while k < s.len()
        invariant
            start <= k <= s@.len(),
            quote_end(s@, start as int) == quote_end(s@, k as int),
        decreases s@.len() - k,
    {
        if s[k] == 34 {
            return Some(k);
        }
        k = k + 1;
    }
    None
}

fn skip_line_comment(s: &[u8], start: usize) -> (r: usize)
    requires
        start <= s@.len(),
    ensures
        r as int == line_end(s@, start as int),
{
    let mut k: usize = start;
    while k < s.len()
        invariant
            start <= k <= s@.len(),
            line_end(s@, start as int) == line_end(s@, k as int),
        decreases s@.len() - k,
    {
        if s[k] == 10 {
            return k + 1;
        }
        k = k + 1;
    }
    k
}

fn skip_block_comment(s: &[u8], start: usize) -> (r: Option<usize>)
    requires
        start <= s@.len(),
    ensures
        r matches Some(j) ==> block_end(s@, start as int) == Some(j as int),
        r is None ==> block_end(s@, start as int) is None,
{
    let mut k: usize = start;
    while k < s.len()
        invariant
            start <= k <= s@.len(),
            block_end(s@, start as int) == block_end(s@, k as int),
        decreases s@.len() - k,
    {
        if k + 1 < s.len() && s[k] == 42 && s[k + 1] == 47 {
            return Some(k + 2);
        }
        k = k + 1;
    }
    None
}

fn lookup_keyword(s: &[u8], start: usize, end: usize) -> (r: Option<TokenKind>)
    requires
        start <= end <= s@.len(),
    ensures
        r == keyword_of(s@.subrange(start as int, end as int)),
{
    let w = Ghost(s@.subrange(start as int, end as int));
    let n = end - start;
    if n == 6 && s[start] == 114 && s[start + 1] == 101 && s[start + 2] == 116 && s[start + 3]
        == 117 && s[start + 4] == 114 && s[start + 5] == 110 {
        assert(w@ =~= seq![114u8, 101, 116, 117, 114, 110]);
        return Some(TokenKind::Return);
    }
    if n == 2 && s[start] == 105 && s[start + 1] == 102 {
        assert(w@ =~= seq![105u8, 102]);
        return Some(TokenKind::If);
    }
    if n == 4 && s[start] == 101 && s[start + 1] == 108 && s[start + 2] == 115 && s[start + 3]
        == 101 {
        assert(w@ =~= seq![101u8, 108, 115, 101]);
        return Some(TokenKind::Else);
    }
    if n == 5 && s[start] == 119 && s[start + 1] == 104 && s[start + 2] == 105 && s[start + 3]
        == 108 && s[start + 4] == 101 {
        assert(w@ =~= seq![119u8, 104, 105, 108, 101]);
        return Some(TokenKind::While);
    }
    if n == 3 && s[start] == 102 && s[start + 1] == 111 && s[start + 2] == 114 {
        assert(w@ =~= seq![102u8, 111, 114]);
        return Some(TokenKind::For);
    }
    if n == 2 && s[start] == 102 && s[start + 1] == 110 {
        assert(w@ =~= seq![102u8, 110]);
        return Some(TokenKind::Fn);
    }
    if n == 3 && s[start] == 108 && s[start + 1] == 101 && s[start + 2] == 116 {
        assert(w@ =~= seq![108u8, 101, 116]);
        return Some(TokenKind::Let);
    }
    if n == 3 && s[start] == 105 && s[start + 1] == 51 && s[start + 2] == 50 {
        assert(w@ =~= seq![105u8, 51, 50]);
        return Some(TokenKind::I32);
    }
    assert(w@.len() == n);
    assert(n >= 1 ==> w@[0] == s@[start as int]);
    assert(n >= 2 ==> w@[1] == s@[start + 1]);
    assert(n >= 3 ==> w@[2] == s@[start + 2]);
    assert(n >= 4 ==> w@[3] == s@[start + 3]);
    assert(n >= 5 ==> w@[4] == s@[start + 4]);
    assert(n >= 6 ==> w@[5] == s@[start + 5]);
    None
}

fn read_operator(s: &[u8], i: usize) -> (r: Option<(TokenKind, usize)>)
    requires
        i < s@.len(),
    ensures
        r matches Some((k, n)) ==> operator_at(s@, i as int) == Some((k, n as int)),
        r is None ==> operator_at(s@, i as int) is None,
{
    let c = s[i];
    let d: u8 = if i + 1 < s.len() { s[i + 1] } else { 0 };
    if c == 61 && d == 61 {
        Some((TokenKind::EqEq, 2))
    } else if c == 33 && d == 61 {
        Some((TokenKind::Ne, 2))
    } else if c == 60 && d == 61 {
        Some((TokenKind::Le, 2))
    } else if c == 62 && d == 61 {
        Some((TokenKind::Ge, 2))
    } else if c == 45 && d == 62 {
        Some((TokenKind::Arrow, 2))
    } else if c == 60 {
        Some((TokenKind::Lt, 1))
    } else if c == 62 {
        Some((TokenKind::Gt, 1))
    } else if c == 61 {
        Some((TokenKind::Assign, 1))
    } else if c == 43 {
        Some((TokenKind::Plus, 1))
    } else if c == 45 {
        Some((TokenKind::Minus, 1))
    } else if c == 42 {
        Some((TokenKind::Star, 1))
    } else if c == 47 {
        Some((TokenKind::Slash, 1))
    } else if c == 59 {
        Some((TokenKind::Semicolon, 1))
    } else if c == 44 {
        Some((TokenKind::Comma, 1))
    } else if c == 58 {
        Some((TokenKind::Colon, 1))
    } else if c == 40 {
        Some((TokenKind::LParen, 1))
    } else if c == 41 {
        Some((TokenKind::RParen, 1))
    } else if c == 123 {
        Some((TokenKind::LBrace, 1))
    } else if c == 125 {
        Some((TokenKind::RBrace, 1))
    } else if c == 91 {
        Some((TokenKind::LBracket, 1))
    } else if c == 93 {
        Some((TokenKind::RBracket, 1))
    } else if c == 38 {
        Some((TokenKind::Amp, 1))
    } else {
        None
    }
}

/// Splits source text into tokens, ending with `Eof` at the source's
/// length in bytes. Whitespace and `//` and `/* */` comments are skipped.
#[verifier::spinoff_prover]
pub fn tokenize(exp: &str) -> (r: Result<Vec<Token>, ParseError>)
    ensures
        match lex(exp.spec_bytes(), 0) {
            Ok(ts) => r matches Ok(v) && tokens_view(v@) == ts,
            Err(e) => r matches Err(err) && err@ == e,
        },
{
    let s = exp.as_bytes();
    let mut out: Vec<Token> = Vec::new();
    let mut i: usize = 0;
    while i < s.len()
        invariant
            i <= s@.len(),
            s@ == exp.spec_bytes(),
            lex(s@, 0) == glue(tokens_view(out@), lex(s@, i as int)),
        decreases s@.len() - i,
    {
        let ghost before = tokens_view(out@);
        let c = s[i];
        let d: u8 = if i + 1 < s.len() { s[i + 1] } else { 0 };
        let w = space_len_at(s, i);
        if w > 0 {
            proof { lemma_space_len(s@, i as int); }
            i = i + w;
        } else if c == 47 && d == 47 {
            proof { lemma_line_end(s@, i + 2); }
            i = skip_line_comment(s, i + 2);
        } else if c == 47 && d == 42 {
            proof { lemma_block_end(s@, i + 2); }
            match skip_block_comment(s, i + 2) {
                Some(j) => { i = j; },
                None => { return Err(fail("コメントの閉じタグ */ が見つかりませんでした", i)); },
            }
        } else if c == 34 {
            proof { lemma_quote_end(s@, i + 1); }
            match find_quote(s, i + 1) {
                Some(j) => {
                    let value = text_between(s, i + 1, j);
                    out.push(Token { kind: TokenKind::String { value }, pos: i });
                    assert(tokens_view(out@) =~= before + seq![out@.last()@]);
                    proof { lemma_glue_push(before, out@.last()@, lex(s@, j + 1)); }
                    i = j + 1;
                },
                None => { return Err(fail("文字列が閉じられていません", i)); },
            }
        } else if 48 <= c && c <= 57 {
            proof { lemma_scan_number(s@, i as int, 0); }
            match read_number(s, i) {
                Some((num, j)) => {
                    out.push(Token { kind: TokenKind::Number { num }, pos: i });
                    assert(tokens_view(out@) =~= before + seq![out@.last()@]);
                    proof { lemma_glue_push(before, out@.last()@, lex(s@, j as int)); }
                    i = j;
                },
                None => { return Err(fail("number too large", i)); },
            }
        } else if (65 <= c && c <= 90) || (97 <= c && c <= 122) {
            let j = read_ident_end(s, i + 1);
            proof { lemma_word_end(s@, i + 1); }
            let kind = match lookup_keyword(s, i, j) {
                Some(k) => k,
                None => {
                    let name = text_between(s, i, j);
                    TokenKind::Ident { name }
                },
            };
            out.push(Token { kind, pos: i });
            assert(tokens_view(out@) =~= before + seq![out@.last()@]);
            proof { lemma_glue_push(before, out@.last()@, lex(s@, j as int)); }
            i = j;
        } else {
            match read_operator(s, i) {
                Some((kind, n)) => {
                    out.push(Token { kind, pos: i });
                    assert(tokens_view(out@) =~= before + seq![out@.last()@]);
                    proof { lemma_glue_push(before, out@.last()@, lex(s@, (i + n) as int)); }
                    i = i + n;
                },
                None => { return Err(fail("invalid character", i)); },
            }
        }
    }
    out.push(Token { kind: TokenKind::Eof, pos: s.len() });
    assert(tokens_view(out@) =~= tokens_view(out@.drop_last()) + seq![out@.last()@]);
    Ok(out)
}


// ---------------------------------------------------------------------
// The token stream the parser reads.

/// A forward stream of tokens that ends with `Eof`, read with one token of
/// lookahead. The tokens are held last-first, so that taking one is a pop.
pub struct TokenIter {
    rest: Vec<Token>,
}

impl View for TokenIter {
    type V = Seq<(Lexeme, usize)>;

    /// The tokens still to come, the next one first.
    closed spec fn view(&self) -> Seq<(Lexeme, usize)> {
        Seq::new(self.rest@.len(), |i: int| self.rest@[self.rest@.len() - 1 - i]@)
    }
}

impl TokenIter {
    /// The stream is never empty, and its last token is `Eof`.
    pub open spec fn wf(&self) -> bool {
        self@.len() > 0 && self@.last().0 == Lexeme::Fixed(TokenKind::Eof)
    }

    /// A stream over `tokens`, as `tokenize` gives them.
    pub fn new(tokens: Vec<Token>) -> (r: TokenIter)
        requires
            tokens@.len() > 0,
            tokens@.last().kind@ == Lexeme::Fixed(TokenKind::Eof),
        ensures
            r.wf(),
            r@ == tokens_view(tokens@),
    {
        let ghost all = tokens@;
        let mut src = tokens;
        let mut rest: Vec<Token> = Vec::new();
        while src.len() > 0
            invariant
                src@ == all.subrange(0, src@.len() as int),
                rest@.len() + src@.len() == all.len(),
                forall|k: int| 0 <= k < rest@.len() ==> rest@[k] == all[all.len() - 1 - k],
            decreases src@.len(),
        {
            let t = src.pop().unwrap();
            rest.push(t);
        }
        let r = TokenIter { rest };
        assert(r@ =~= tokens_view(all));
        r
    }

    /// The next token.
    pub fn peek(&self) -> (r: &Token)
        requires
            self.wf(),
        ensures
            r@ == self@[0],
    {
        &self.rest[self.rest.len() - 1]
    }

    /// Whether the next token is of kind `k`.
    pub fn at(&self, k: &TokenKind) -> (r: bool)
        requires
            self.wf(),
        ensures
            r == (self@[0].0 == k@),
    {
        self.peek().kind.same_kind(k)
    }

    /// Takes the next token, which is not `Eof`.
    pub fn advance(&mut self) -> (r: Token)
        requires
            old(self).wf(),
            old(self)@[0].0 != Lexeme::Fixed(TokenKind::Eof),
        ensures
            final(self).wf(),
            r@ == old(self)@[0],
            final(self)@ == old(self)@.drop_first(),
    {
        let r = self.rest.pop().unwrap();
        assert(self@ =~= old(self)@.drop_first());
        r
    }

    /// Takes the next token if it is an identifier, with its name and position.
    pub fn take_ident(&mut self) -> (r: Option<(String, usize)>)
        requires
            old(self).wf(),
        ensures
            final(self).wf(),
            old(self)@[0].0 is Ident ==> (r matches Some((name, pos)) && Lexeme::Ident(name@)
                == old(self)@[0].0 && pos == old(self)@[0].1 && final(self)@ == old(self)@.drop_first()),
            !(old(self)@[0].0 is Ident) ==> r is None && final(self)@ == old(self)@,
    {
        let is_ident = match &self.peek().kind {
            TokenKind::Ident { .. } => true,
            _ => false,
        };
        if !is_ident {
            return None;
        }
        let t = self.advance();
        match t.kind {
            TokenKind::Ident { name } => Some((name, t.pos)),
            _ => None,
        }
    }
}

} // verus!
