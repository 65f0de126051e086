//! The token cursor: a parser over a vector of tokens, where a position is
//! an index and restoring a saved state is reusing an earlier index.
use vstd::prelude::*;
use crate::token::{Span, Token, TokenAndSpan, keyword_eq, matches_keyword};
use crate::ast::{Ident, ParseError, ErrorKind};

verus! {

/// Every token covers a non-empty range, and tokens follow one another
/// without overlapping.
pub open spec fn tokens_wf(s: Seq<TokenAndSpan>) -> bool {
    &&& s.len() <= usize::MAX
    &&& forall|i: int| 0 <= i < s.len() ==> (#[trigger] s[i]).span.lo < s[i].span.hi
    &&& forall|i: int, j: int|
        0 <= i < j < s.len() ==> (#[trigger] s[i]).span.hi <= (#[trigger] s[j]).span.lo
}

/// No diagnostic after the first `n` is the internal `Ignore` signal, and the
/// first `n` are those of `before`.
pub open spec fn diagnostics_extend(before: Seq<ParseError>, after: Seq<ParseError>) -> bool {
    &&& before.len() <= after.len()
    &&& forall|i: int| 0 <= i < before.len() ==> after[i] == before[i]
    &&& forall|i: int| before.len() <= i < after.len() ==> !((#[trigger] after[i]).kind is Ignore)
}

pub proof fn lemma_diagnostics_extend_trans(a: Seq<ParseError>, b: Seq<ParseError>, c: Seq<ParseError>)
    requires
        diagnostics_extend(a, b),
        diagnostics_extend(b, c),
    ensures
        diagnostics_extend(a, c),
{
    assert forall|i: int| a.len() <= i < c.len() implies !((#[trigger] c[i]).kind is Ignore) by {
        if i < b.len() {
            assert(c[i] == b[i]);
        }
    }
}

pub struct Parser {
    pub input: Vec<TokenAndSpan>,
    /// Enables the `:local` / `:global` forms of keyframes names.
    pub css_modules: bool,
}

impl Parser {
    pub open spec fn wf(&self) -> bool {
        tokens_wf(self.input@)
    }

    pub open spec fn len(&self) -> int {
        self.input@.len() as int
    }

    pub open spec fn tok(&self, i: int) -> Token {
        self.input@[i].token
    }

    /// The token at `i` is of the given kind (false at the end of input).
    pub open spec fn is_ident_at(&self, i: int) -> bool {
        0 <= i < self.len() && self.tok(i) is Ident
    }

    pub open spec fn is_ws_at(&self, i: int) -> bool {
        0 <= i < self.len() && self.tok(i) is WhiteSpace
    }

    /// The token at `i` is an identifier spelling the keyword `kw`.
    pub open spec fn is_keyword_at(&self, i: int, kw: Seq<char>) -> bool {
        &&& 0 <= i < self.len()
        &&& self.tok(i) matches Token::Ident { value, .. }
        &&& keyword_eq(value@, kw)
    }

    /// The offset where the input ends.
    pub open spec fn end_of_input(&self) -> u32 {
        if self.len() == 0 {
            0
        } else {
            self.input@[self.len() - 1].span.hi
        }
    }

    /// The start of the token at `pos`, or the end of input there.
    pub open spec fn lo_at(&self, pos: int) -> u32 {
        if 0 <= pos < self.len() {
            self.input@[pos].span.lo
        } else {
            self.end_of_input()
        }
    }

    /// The first position at or after `pos` that does not hold whitespace.
    pub open spec fn next_significant(&self, pos: int) -> int
        decreases self.len() - pos,
    {
        if 0 <= pos < self.len() && self.is_ws_at(pos) {
            self.next_significant(pos + 1)
        } else {
            pos
        }
    }

    /// The span of the token at `i`, or an empty span at the end of input.
    pub open spec fn span_at(&self, i: int) -> Span {
        if 0 <= i < self.len() {
            self.input@[i].span
        } else {
            Span { lo: self.end_of_input(), hi: self.end_of_input() }
        }
    }

    /// The token at `i` is the delimiter `c`.
    pub open spec fn is_delim_at(&self, i: int, c: char) -> bool {
        0 <= i < self.len() && self.tok(i) == Token::Delim(c)
    }

    pub proof fn lemma_next_significant(&self, i: int)
        requires
            0 <= i <= self.len(),
        ensures
            i <= self.next_significant(i) <= self.len(),
            forall|k: int| i <= k < self.next_significant(i) ==> self.is_ws_at(k),
            !self.is_ws_at(self.next_significant(i)),
        decreases self.len() - i,
    {
        if 0 <= i < self.len() && self.is_ws_at(i) {
            self.lemma_next_significant(i + 1);
        }
    }

    /// The end of the last token before `e`.
    pub open spec fn end_at(&self, e: int) -> u32 {
        if 0 < e <= self.len() {
            self.input@[e - 1].span.hi
        } else {
            self.lo_at(0)
        }
    }

    /// `s` is a well-formed span within the tokens from `pos` up to `e`.
    pub open spec fn within(&self, s: Span, pos: int, e: int) -> bool {
        self.lo_at(pos) <= s.lo && s.lo <= s.hi && s.hi <= self.end_at(e)
    }

    /// The span from the token at `start` to the last token before `e`.
    pub open spec fn span_of(&self, start: int, e: int) -> Span {
        Span { lo: self.lo_at(start), hi: self.end_at(e) }
    }

    /// The span of a function token's name: the token without its `(`.
    pub open spec fn function_name_span(&self, i: int) -> Span {
        Span { lo: self.input@[i].span.lo, hi: (self.input@[i].span.hi - 1) as u32 }
    }

    pub fn function_name_span_exec(&self, pos: usize) -> (r: Span)
        requires
            self.wf(),
            pos < self.len(),
        ensures
            r == self.function_name_span(pos as int),
            self.within(r, pos as int, pos + 1),
    {
        proof {
            self.lemma_span_of(pos as int, pos + 1);
        }
        let sp = self.input[pos].span;
        Span { lo: sp.lo, hi: sp.hi - 1 }
    }

    /// The identifier node for the identifier token at `i`.
    pub open spec fn ident_at(&self, i: int) -> Ident {
        match self.tok(i) {
            Token::Ident { value, raw } => Ident { span: self.input@[i].span, value, raw },
            _ => Ident { span: self.input@[i].span, value: arbitrary(), raw: arbitrary() },
        }
    }

    pub proof fn lemma_order(&self, a: int, b: int)
        requires
            self.wf(),
            0 <= a <= b <= self.len(),
        ensures
            self.lo_at(a) <= self.lo_at(b),
            self.end_at(a) <= self.end_at(b),
            self.end_at(b) <= self.lo_at(b),
            a < b ==> self.lo_at(a) < self.end_at(b),
    {
        let s = self.input@;
        if a < b && b - 1 > a {
            assert(s[a].span.hi <= s[b - 1].span.lo);
        }
        if a < b && b < self.len() {
            assert(s[a].span.hi <= s[b].span.lo);
        }
        if 0 < a && a < b {
            assert(s[a - 1].span.hi <= s[b - 1].span.lo);
        }
        if 0 < b && b < self.len() {
            assert(s[b - 1].span.hi <= s[b].span.lo);
        }
        if 0 < a && a < self.len() {
            assert(s[a - 1].span.hi <= s[a].span.lo);
        }
        if b > 0 && self.len() > 0 && b - 1 < self.len() - 1 {
            assert(s[b - 1].span.hi <= s[self.len() - 1].span.lo);
        }
        if a < self.len() && a < self.len() - 1 {
            assert(s[a].span.hi <= s[self.len() - 1].span.lo);
        }
        if self.len() > 0 && 0 < self.len() - 1 {
            assert(s[0].span.hi <= s[self.len() - 1].span.lo);
        }
        if 0 < b - 1 && b <= self.len() {
            assert(s[0].span.hi <= s[b - 1].span.lo);
        }
    }

    /// A span that lies within a range lies within any range around it.
    pub proof fn lemma_within_widen(&self, s: Span, inner_pos: int, inner_end: int, p: int, e: int)
        requires
            self.wf(),
            self.within(s, inner_pos, inner_end),
            0 <= p <= inner_pos,
            inner_pos <= inner_end <= e <= self.len(),
        ensures
            self.within(s, p, e),
    {
        self.lemma_order(p, inner_pos);
        self.lemma_order(inner_end, e);
        self.lemma_order(inner_pos, inner_end);
    }

    /// The span of a non-empty run of tokens lies within it.
    pub proof fn lemma_span_of(&self, start: int, e: int)
        requires
            self.wf(),
            0 <= start < e <= self.len(),
        ensures
            self.within(self.span_of(start, e), start, e),
    {
        self.lemma_order(start, e);
    }

    pub fn cur_lo(&self, pos: usize) -> (r: u32)
        requires
            pos <= self.len(),
        ensures
            r == self.lo_at(pos as int),
    {
        if pos < self.input.len() {
            self.input[pos].span.lo
        } else if self.input.len() == 0 {
            0
        } else {
            self.input[self.input.len() - 1].span.hi
        }
    }

    pub fn last_end(&self, e: usize) -> (r: u32)
        requires
            e <= self.len(),
        ensures
            r == self.end_at(e as int),
    {
        if e > 0 {
            self.input[e - 1].span.hi
        } else {
            self.cur_lo(0)
        }
    }

    /// The span of the current token (empty at the end of input).
    pub fn cur_span(&self, pos: usize) -> (r: Span)
        requires
            pos <= self.len(),
        ensures
            pos < self.len() ==> r == self.input@[pos as int].span,
            pos == self.len() ==> r == (Span { lo: self.end_of_input(), hi: self.end_of_input() }),
    {
        if pos < self.input.len() {
            self.input[pos].span
        } else {
            let end = self.cur_lo(pos);
            Span { lo: end, hi: end }
        }
    }

    /// The span from the token at `start` to the end of the token before `e`.
    pub fn span_from(&self, start: usize, e: usize) -> (r: Span)
        requires
            self.wf(),
            start < e <= self.len(),
        ensures
            r == self.span_of(start as int, e as int),
            self.within(r, start as int, e as int),
    {
        proof {
            self.lemma_span_of(start as int, e as int);
        }
        Span { lo: self.cur_lo(start), hi: self.last_end(e) }
    }

    pub fn is_ident(&self, pos: usize) -> (r: bool)
        requires
            pos <= self.len(),
        ensures
            r == self.is_ident_at(pos as int),
    {
        pos < self.input.len() && matches!(self.input[pos].token, Token::Ident { .. })
    }

    /// Whether the token at `pos` is the identifier `kw`, in any ASCII case.
    pub fn is_keyword(&self, pos: usize, kw: &str) -> (r: bool)
        requires
            pos <= self.len(),
        ensures
            r == self.is_keyword_at(pos as int, kw@),
    {
        if pos < self.input.len() {
            match &self.input[pos].token {
                Token::Ident { value, .. } => matches_keyword(value.as_str(), kw),
                _ => false,
            }
        } else {
            false
        }
    }

    pub fn is_delim(&self, pos: usize, c: char) -> (r: bool)
        requires
            pos <= self.len(),
        ensures
            r == (pos < self.len() && self.tok(pos as int) == Token::Delim(c)),
    {
        if pos < self.input.len() {
            match &self.input[pos].token {
                Token::Delim(value) => *value == c,
                _ => false,
            }
        } else {
            false
        }
    }

    pub fn is_comma(&self, pos: usize) -> (r: bool)
        requires
            pos <= self.len(),
        ensures
            r == (pos < self.len() && self.tok(pos as int) is Comma),
    {
        pos < self.input.len() && matches!(self.input[pos].token, Token::Comma)
    }

    pub fn is_colon(&self, pos: usize) -> (r: bool)
        requires
            pos <= self.len(),
        ensures
            r == (pos < self.len() && self.tok(pos as int) is Colon),
    {
        pos < self.input.len() && matches!(self.input[pos].token, Token::Colon)
    }

    pub fn is_semicolon(&self, pos: usize) -> (r: bool)
        requires
            pos <= self.len(),
        ensures
            r == (pos < self.len() && self.tok(pos as int) is Semicolon),
    {
        pos < self.input.len() && matches!(self.input[pos].token, Token::Semicolon)
    }

    pub fn is_lbrace(&self, pos: usize) -> (r: bool)
        requires
            pos <= self.len(),
        ensures
            r == (pos < self.len() && self.tok(pos as int) is LBrace),
    {
        pos < self.input.len() && matches!(self.input[pos].token, Token::LBrace)
    }

    pub fn is_rparen(&self, pos: usize) -> (r: bool)
        requires
            pos <= self.len(),
        ensures
            r == (pos < self.len() && self.tok(pos as int) is RParen),
    {
        pos < self.input.len() && matches!(self.input[pos].token, Token::RParen)
    }

    /// Skips whitespace tokens.
    pub fn skip_ws(&self, pos: usize) -> (e: usize)
        requires
            pos <= self.len(),
        ensures
            pos <= e <= self.len(),
            !self.is_ws_at(e as int),
            forall|k: int| pos <= k < e ==> self.is_ws_at(k),
            e == self.next_significant(pos as int),
    {
        let mut e = pos;
        while e < self.input.len() && matches!(self.input[e].token, Token::WhiteSpace)
            invariant
                pos <= e <= self.len(),
                self.next_significant(e as int) == self.next_significant(pos as int),
                forall|k: int| pos <= k < e ==> self.is_ws_at(k),
            decreases self.len() - e,
        {
            e += 1;
        }
        e
    }

    /// An error of the given kind at the current token.
    pub fn error_here(&self, pos: usize, kind: ErrorKind) -> (r: ParseError)
        requires
            pos <= self.len(),
        ensures
            r.kind == kind,
            r.span == self.span_at(pos as int),
    {
        ParseError { span: self.cur_span(pos), kind }
    }

    /// The identifier node for the identifier token at `pos`.
    pub fn ident_node(&self, pos: usize) -> (r: Ident)
        requires
            self.wf(),
            self.is_ident_at(pos as int),
        ensures
            r == self.ident_at(pos as int),
            self.within(r.span, pos as int, pos + 1),
    {
        proof {
            self.lemma_span_of(pos as int, pos + 1);
        }
        match &self.input[pos].token {
            Token::Ident { value, raw } => Ident { span: self.input[pos].span, value: value.clone(), raw: raw.clone() },
            _ => {
                proof {
                    assert(false);
                }
                Ident { span: self.input[pos].span, value: String::new(), raw: String::new() }
            }
        }
    }

    /// A parser over `input`, or `None` when its tokens overlap, are out of
    /// order or cover empty ranges.
    pub fn new(input: Vec<TokenAndSpan>, css_modules: bool) -> (r: Option<Parser>)
        ensures
            r is Some <==> tokens_wf(input@),
            r matches Some(p) ==> p.input@ == input@ && p.css_modules == css_modules && p.wf(),
    {
        if Self::tokens_are_ordered(&input) {
            Some(Parser { input, css_modules })
        } else {
            None
        }
    }

    /// Each identifier, at-keyword and function token spells, in `raw`,
    /// the source text of its span: an identifier the whole span, an
    /// at-keyword the span after its `@`, a function the span before its
    /// `(`.
    pub open spec fn raw_matches_source(&self, src: Seq<char>) -> bool {
        forall|i: int| 0 <= i < self.len() ==> match #[trigger] self.tok(i) {
            Token::Ident { raw, .. } => raw@ == src.subrange(
                self.input@[i].span.lo as int,
                self.input@[i].span.hi as int,
            ),
            Token::AtKeyword { raw, .. } => raw@ == src.subrange(
                self.input@[i].span.lo + 1,
                self.input@[i].span.hi as int,
            ),
            Token::Function { raw, .. } => raw@ == src.subrange(
                self.input@[i].span.lo as int,
                self.input@[i].span.hi - 1,
            ),
            _ => true,
        }
    }

    /// `i` was copied from an input token: an identifier token, a function
    /// token's name (without its `(`), or an at-keyword's name (without its
    /// `@`).
    pub open spec fn ident_spelled(&self, i: Ident) -> bool {
        exists|k: int| #![trigger self.tok(k)] 0 <= k < self.len() && {
            ||| self.tok(k) is Ident && i == self.ident_at(k)
            ||| (self.tok(k) matches Token::Function { value, raw } && i.value == value && i.raw == raw
                && i.span == self.function_name_span(k))
            ||| (self.tok(k) matches Token::AtKeyword { value, raw } && i.value == value && i.raw == raw
                && i.span == (Span { lo: (self.input@[k].span.lo + 1) as u32, hi: self.input@[k].span.hi }))
        }
    }

    /// Checks that tokens cover non-empty, ordered ranges.
    pub fn tokens_are_ordered(input: &Vec<TokenAndSpan>) -> (r: bool)
        ensures
            r == tokens_wf(input@),
    {
        let n = input.len();
        let mut i: usize = 0;
        while i < n
            invariant
                n == input@.len(),
                n <= usize::MAX,
                i <= n,
                tokens_wf(input@.subrange(0, i as int)),
            decreases n - i,
        {
            let sp = input[i].span;
            if !(sp.lo < sp.hi) {
                assert(!tokens_wf(input@));
                return false;
            }
            if i > 0 && !(input[i - 1].span.hi <= sp.lo) {
                assert(!tokens_wf(input@));
                return false;
            }
            proof {
                let s = input@;
                let t = s.subrange(0, i + 1);
                let p = s.subrange(0, i as int);
                assert forall|a: int, b: int| 0 <= a < b < t.len() implies (#[trigger] t[a]).span.hi <= (#[trigger] t[b]).span.lo by {
                    if b < i {
                        assert(p[a] == t[a] && p[b] == t[b]);
                    } else if a < i - 1 {
                        assert(p[a] == t[a] && p[i - 1] == t[i - 1]);
                        assert(p[a].span.hi <= p[i - 1].span.lo);
                        assert(p[i - 1].span.lo < p[i - 1].span.hi);
                    }
                }
                assert forall|a: int| 0 <= a < t.len() implies (#[trigger] t[a]).span.lo < t[a].span.hi by {
                    if a < i {
                        assert(p[a] == t[a]);
                    }
                }
            }
            i += 1;
        }
        assert(input@.subrange(0, n as int) =~= input@);
        assert(input@.len() <= usize::MAX);
        true
    }
}


/// Round trip: where the tokens spell their source, an identifier node built
/// from the identifier token at `k` holds, in `raw`, exactly the source text
/// of its span.
pub proof fn lemma_ident_round_trip(p: &Parser, src: Seq<char>, k: int)
    requires
        p.raw_matches_source(src),
        p.is_ident_at(k),
    ensures
        p.ident_at(k).raw@ == src.subrange(p.ident_at(k).span.lo as int, p.ident_at(k).span.hi as int),
{
    assert(p.tok(k) is Ident);
}

/// Round trip: where the tokens spell their source, every identifier node
/// copied from an input token holds, in `raw`, exactly the source text of
/// its span.
pub proof fn lemma_spelled_round_trip(p: &Parser, src: Seq<char>, i: Ident)
    requires
        p.wf(),
        p.raw_matches_source(src),
        p.ident_spelled(i),
    ensures
        i.raw@ == src.subrange(i.span.lo as int, i.span.hi as int),
{
    let k = choose|k: int| #![trigger p.tok(k)] 0 <= k < p.len() && {
        ||| p.tok(k) is Ident && i == p.ident_at(k)
        ||| (p.tok(k) matches Token::Function { value, raw } && i.value == value && i.raw == raw
            && i.span == p.function_name_span(k))
        ||| (p.tok(k) matches Token::AtKeyword { value, raw } && i.value == value && i.raw == raw
            && i.span == (Span { lo: (p.input@[k].span.lo + 1) as u32, hi: p.input@[k].span.hi }))
    };
    assert(p.input@[k].span.lo < p.input@[k].span.hi);
    assert(match p.tok(k) {
        Token::Ident { raw, .. } => raw@ == src.subrange(p.input@[k].span.lo as int, p.input@[k].span.hi as int),
        Token::AtKeyword { raw, .. } => raw@ == src.subrange(p.input@[k].span.lo + 1, p.input@[k].span.hi as int),
        Token::Function { raw, .. } => raw@ == src.subrange(p.input@[k].span.lo as int, p.input@[k].span.hi - 1),
        _ => true,
    });
}

/// Round trip: where the tokens spell their source, a function's name,
/// whose span is the function token without its `(`, holds exactly the
/// source text of its span.
pub proof fn lemma_function_name_round_trip(p: &Parser, src: Seq<char>, k: int, name: Ident)
    requires
        p.wf(),
        p.raw_matches_source(src),
        0 <= k < p.len(),
        p.tok(k) matches Token::Function { raw, .. } && name.raw == raw,
        name.span == p.function_name_span(k),
    ensures
        name.raw@ == src.subrange(name.span.lo as int, name.span.hi as int),
{
    assert(p.tok(k) is Function);
    assert(p.input@[k].span.lo < p.input@[k].span.hi);
}

/// Round trip: where the tokens spell their source, an at-rule name whose
/// span starts one past the at-keyword at `k` and ends with it, and whose
/// `raw` is the keyword's, holds exactly the source text of its span.
pub proof fn lemma_at_rule_name_round_trip(p: &Parser, src: Seq<char>, k: int, name: Ident)
    requires
        p.raw_matches_source(src),
        0 <= k < p.len(),
        p.tok(k) matches Token::AtKeyword { raw, .. } && name.raw == raw,
        name.span.lo == p.input@[k].span.lo + 1,
        name.span.hi == p.input@[k].span.hi,
    ensures
        name.raw@ == src.subrange(name.span.lo as int, name.span.hi as int),
{
    assert(p.tok(k) is AtKeyword);
}

} // verus!
