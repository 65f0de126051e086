//! Tokens, spans and the ASCII case-insensitive keyword comparison.
use vstd::prelude::*;

verus! {

/// A range of byte offsets into the source text.
#[derive(Clone, Copy, Debug, PartialEq, Eq, Structural)]
pub struct Span {
    pub lo: u32,
    pub hi: u32,
}

impl Span {
    /// `inner` is a well-formed span that lies within `self`.
    pub open spec fn encloses(self, inner: Span) -> bool {
        self.lo <= inner.lo && inner.lo <= inner.hi && inner.hi <= self.hi
    }
}

/// A token as produced by the tokenizer. Textual tokens keep the original
/// spelling in `raw`; numbers are kept as their source text.
#[derive(Debug, PartialEq, Eq)]
pub enum Token {
    AtKeyword { value: String, raw: String },
    Ident { value: String, raw: String },
    Function { value: String, raw: String },
    Str { value: String, raw: String },
    Url { value: String, raw: String },
    Number { raw: String },
    Percentage { raw: String },
    Dimension { value: String, unit: String },
    Delim(char),
    Comma,
    Colon,
    Semicolon,
    LBrace,
    RBrace,
    LParen,
    RParen,
    LBracket,
    RBracket,
    WhiteSpace,
}

#[derive(Debug, PartialEq, Eq)]
pub struct TokenAndSpan {
    pub token: Token,
    pub span: Span,
}

/// A copy of a token that is equal to it.
pub fn copy_token(t: &Token) -> (r: Token)
    ensures
        r == *t,
{
    match t {
        Token::AtKeyword { value, raw } => Token::AtKeyword { value: value.clone(), raw: raw.clone() },
        Token::Ident { value, raw } => Token::Ident { value: value.clone(), raw: raw.clone() },
        Token::Function { value, raw } => Token::Function { value: value.clone(), raw: raw.clone() },
        Token::Str { value, raw } => Token::Str { value: value.clone(), raw: raw.clone() },
        Token::Url { value, raw } => Token::Url { value: value.clone(), raw: raw.clone() },
        Token::Number { raw } => Token::Number { raw: raw.clone() },
        Token::Percentage { raw } => Token::Percentage { raw: raw.clone() },
        Token::Dimension { value, unit } => Token::Dimension { value: value.clone(), unit: unit.clone() },
        Token::Delim(value) => Token::Delim(*value),
        Token::Comma => Token::Comma,
        Token::Colon => Token::Colon,
        Token::Semicolon => Token::Semicolon,
        Token::LBrace => Token::LBrace,
        Token::RBrace => Token::RBrace,
        Token::LParen => Token::LParen,
        Token::RParen => Token::RParen,
        Token::LBracket => Token::LBracket,
        Token::RBracket => Token::RBracket,
        Token::WhiteSpace => Token::WhiteSpace,
    }
}

/// A copy of a token with its span.
pub fn copy_token_and_span(t: &TokenAndSpan) -> (r: TokenAndSpan)
    ensures
        r == *t,
{
    TokenAndSpan { token: copy_token(&t.token), span: t.span }
}

/// `c` equals the lower-case ASCII letter or other character `k`, ignoring
/// ASCII case in `c`.
pub open spec fn ci_char_eq(c: char, k: char) -> bool {
    c == k || ('A' <= c && c <= 'Z' && c as u32 + 32 == k as u32)
}

/// `s` spells the lower-case keyword `kw`, ignoring ASCII case; other
/// characters compare exactly.
pub open spec fn keyword_eq(s: Seq<char>, kw: Seq<char>) -> bool {
    &&& s.len() == kw.len()
    &&& forall|i: int| 0 <= i < s.len() ==> ci_char_eq(#[trigger] s[i], kw[i])
}

/// `s` begins with two hyphens.
pub open spec fn is_dashed(s: Seq<char>) -> bool {
    s.len() >= 2 && s[0] == '-' && s[1] == '-'
}

/// Compares `s` with the lower-case keyword `kw`, ignoring ASCII case.
pub fn matches_keyword(s: &str, kw: &str) -> (r: bool)
    ensures
        r == keyword_eq(s@, kw@),
{
    let n = s.unicode_len();
    if n != kw.unicode_len() {
        return false;
    }
    let mut i: usize = 0;
    while i < n
        invariant
            n == s@.len(),
            n == kw@.len(),
            i <= n,
            forall|j: int| 0 <= j < i ==> ci_char_eq(#[trigger] s@[j], kw@[j]),
        decreases n - i,
    {
        let c = s.get_char(i);
        let k = kw.get_char(i);
        let same = c == k || ('A' <= c && c <= 'Z' && (c as u32) + 32 == k as u32);
        if !same {
            return false;
        }
        i += 1;
    }
    true
}

/// Whether `s` begins with two hyphens.
pub fn starts_with_dashes(s: &str) -> (r: bool)
    ensures
        r == is_dashed(s@),
{
    let n = s.unicode_len();
    n >= 2 && s.get_char(0) == '-' && s.get_char(1) == '-'
}

} // verus!
