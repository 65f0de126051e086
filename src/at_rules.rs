//! The at-rule dispatcher, the prelude grammar of each at-rule family, and
//! the blocks, functions and component values that at-rules contain.
use vstd::prelude::*;
use crate::token::{Span, Token, copy_token_and_span, is_dashed, keyword_eq, matches_keyword, starts_with_dashes};
use crate::conditions::is_media_type_keyword;
use crate::ast::{
    AtRule, AtRuleName, AtRulePrelude, BlockContentsGrammar, ColorProfileName, ComponentValue,
    Condition, ConditionFamily, Ctx, CustomMediaQuery, CustomMediaType, Declaration,
    DocumentMatchingFunction, DocumentPrelude, ErrorKind, Function, GeneralEnclosed, Ident,
    ImportLayerName, ImportPrelude, ImportSupports, KeyframeBlock, KeyframeSelector, LayerName,
    LayerNameList, LayerPrelude, ListOfComponentValues, MediaQueryList, NamespacePrelude,
    ParseError, SimpleBlock, UrlOrStr, prelude_conditions_wf, component_nested, block_nested, function_nested,
    prelude_nested, at_rule_nested,
};
use crate::family::{AtRuleFamily, block_ctx, block_context, classify, family_of, needs_block, needs_semicolon, prelude_optional};
use crate::parser::{Parser, diagnostics_extend, lemma_diagnostics_extend_trans};
use crate::names::{PResult, is_reserved_ident};

verus! {

/// The token that closes a block opened by `open`.
pub open spec fn closes(open: Token, close: Token) -> bool {
    ||| open is LBrace && close is RBrace
    ||| open is LParen && close is RParen
    ||| open is LBracket && close is RBracket
}

pub open spec fn is_block_opener(t: Token) -> bool {
    t is LBrace || t is LParen || t is LBracket
}

/// Whether a grammar reads nested at-rules in a block.
pub open spec fn reads_at_rules(g: BlockContentsGrammar) -> bool {
    g is Stylesheet || g is StyleBlock || g is DeclarationList
}

/// A kept whitespace token.
pub open spec fn is_ws_value(v: ComponentValue) -> bool {
    v matches ComponentValue::PreservedToken(t) && t.token is WhiteSpace
}

/// A kept identifier token.
pub open spec fn is_ident_value(v: ComponentValue) -> bool {
    v matches ComponentValue::PreservedToken(t) && t.token is Ident
}

/// The first value that is not whitespace, if any, is an identifier.
pub open spec fn first_significant_ident(values: Seq<ComponentValue>) -> bool {
    forall|j: int| 0 <= j < values.len() && !is_ws_value(#[trigger] values[j])
        && (forall|k: int| 0 <= k < j ==> is_ws_value(values[k])) ==> is_ident_value(values[j])
}

/// The context for generic component values: no grammar.
pub open spec fn no_grammar(ctx: Ctx) -> Ctx {
    Ctx { block_contents_grammar: BlockContentsGrammar::NoGrammar, ..ctx }
}

fn with_no_grammar(ctx: Ctx) -> (r: Ctx)
    ensures
        r == no_grammar(ctx),
{
    Ctx { block_contents_grammar: BlockContentsGrammar::NoGrammar, ..ctx }
}

impl Parser {
    /// The first position from `i` that holds a token closing `open`, a
    /// nested block or function, an at-keyword, or the end of input.
    pub open spec fn flat_run_end(&self, open: Token, i: int) -> int
        decreases self.len() - i,
    {
        if 0 <= i < self.len() && !closes(open, self.tok(i)) && !is_block_opener(self.tok(i))
            && !(self.tok(i) is Function) && !(self.tok(i) is AtKeyword) {
            self.flat_run_end(open, i + 1)
        } else {
            i
        }
    }

    pub proof fn lemma_flat_run_end(&self, open: Token, i: int)
        requires
            0 <= i <= self.len(),
        ensures
            i <= self.flat_run_end(open, i) <= self.len(),
        decreases self.len() - i,
    {
        if 0 <= i < self.len() && !closes(open, self.tok(i)) && !is_block_opener(self.tok(i))
            && !(self.tok(i) is Function) && !(self.tok(i) is AtKeyword) {
            self.lemma_flat_run_end(open, i + 1);
        }
    }

    /// Whether the token at `pos` closes a block opened by `open`.
    fn is_closing(&self, pos: usize, open: &Token) -> (r: bool)
        requires
            pos < self.len(),
        ensures
            r == closes(*open, self.tok(pos as int)),
    {
        match (open, &self.input[pos].token) {
            (Token::LBrace, Token::RBrace) => true,
            (Token::LParen, Token::RParen) => true,
            (Token::LBracket, Token::RBracket) => true,
            _ => false,
        }
    }

    /// A component value: a block, a function, or a single preserved token.
    /// It always consumes at least one token.
    pub fn parse_component_value(&self, pos: usize, errors: &mut Vec<ParseError>) -> (r: (ComponentValue, usize))
        requires
            self.wf(),
            pos < self.len(),
        ensures
            pos < r.1 <= self.len(),
            self.within(r.0.span(), pos as int, r.1 as int),
            !is_block_opener(self.tok(pos as int)) && !(self.tok(pos as int) is Function)
                ==> r.1 == pos + 1 && r.0 == ComponentValue::PreservedToken(self.input@[pos as int]),
            component_nested(r.0),
            final(errors)@ == old(errors)@,
        decreases self.len() - pos, 3nat,
    {
        match &self.input[pos].token {
            Token::LBrace | Token::LParen | Token::LBracket => {
                let ctx = with_no_grammar(Ctx::top_level());
                let (b, e) = self.parse_simple_block(pos, ctx, errors);
                (ComponentValue::SimpleBlock(Box::new(b)), e)
            },
            Token::Function { .. } => {
                let (f, e) = self.parse_function(pos, errors);
                (ComponentValue::Function(Box::new(f)), e)
            },
            _ => {
                proof {
                    self.lemma_span_of(pos as int, pos + 1);
                }
                (ComponentValue::PreservedToken(copy_token_and_span(&self.input[pos])), pos + 1)
            },
        }
    }

    /// A simple block, read up to its closing token or the end of input.
    /// Under a grammar that reads rules, at-keywords start nested at-rules
    /// and whitespace is dropped; otherwise every token is kept.
    pub fn parse_simple_block(&self, pos: usize, ctx: Ctx, errors: &mut Vec<ParseError>) -> (r: (SimpleBlock, usize))
        requires
            self.wf(),
            pos < self.len(),
            is_block_opener(self.tok(pos as int)),
        ensures
            pos < r.1 <= self.len(),
            r.1 == self.len() || closes(self.tok(pos as int), self.tok(r.1 - 1)),
            r.0.span == self.span_of(pos as int, r.1 as int),
            self.within(r.0.span, pos as int, r.1 as int),
            r.0.grammar == ctx.block_contents_grammar,
            r.0.name == self.input@[pos as int],
            forall|k: int| 0 <= k < r.0.value@.len() ==> r.0.span.encloses(#[trigger] r.0.value@[k].span()),
            block_nested(r.0),
            ({
                let j = self.flat_run_end(self.tok(pos as int), pos + 1);
                j < self.len() && closes(self.tok(pos as int), self.tok(j))
            }) ==> ({
                let j = self.flat_run_end(self.tok(pos as int), pos + 1);
                &&& r.1 == j + 1
                &&& !reads_at_rules(ctx.block_contents_grammar) ==> r.0.value@ == self.preserved_run(pos + 1, j)
            }),
            diagnostics_extend(old(errors)@, final(errors)@),
            !reads_at_rules(ctx.block_contents_grammar) ==> final(errors)@ == old(errors)@,
            ({
                let t = self.next_significant(pos + 1);
                !reads_at_rules(ctx.block_contents_grammar) && self.is_ident_at(t)
            }) ==> ({
                let t = self.next_significant(pos + 1);
                &&& r.0.value@.len() >= t - pos
                &&& forall|k: int| 0 <= k < t - pos ==> #[trigger] r.0.value@[k] == ComponentValue::PreservedToken(self.input@[pos + 1 + k])
            }),
        decreases self.len() - pos, 2nat,
    {
        let name = copy_token_and_span(&self.input[pos]);
        let grammar = ctx.block_contents_grammar;
        let keep_ws = !matches!(grammar, BlockContentsGrammar::Stylesheet | BlockContentsGrammar::StyleBlock | BlockContentsGrammar::DeclarationList);
        let mut value: Vec<ComponentValue> = Vec::new();
        let mut i = pos + 1;
        let ghost t = self.next_significant(pos + 1);
        let ghost target = keep_ws && self.is_ident_at(t);
        let ghost flat_end = self.flat_run_end(self.tok(pos as int), pos + 1);
        let ghost flat = flat_end < self.len() && closes(self.tok(pos as int), self.tok(flat_end));
        proof {
            self.lemma_next_significant(pos + 1);
            self.lemma_flat_run_end(self.tok(pos as int), pos + 1);
            assert(self.preserved_run(pos + 1, pos + 1) =~= Seq::<ComponentValue>::empty());
        }
        while i < self.input.len() && !self.is_closing(i, &name.token)
            invariant
                self.wf(),
                pos < i <= self.len(),
                name == self.input@[pos as int],
                forall|k: int| 0 <= k < value@.len() ==> self.within(#[trigger] value@[k].span(), pos + 1, i as int),
                forall|k: int| 0 <= k < value@.len() ==> component_nested(#[trigger] value@[k]),
                diagnostics_extend(old(errors)@, errors@),
                !reads_at_rules(grammar) ==> errors@ == old(errors)@,
                keep_ws == !reads_at_rules(grammar),
                target == (keep_ws && self.is_ident_at(t)),
                flat_end == self.flat_run_end(self.tok(pos as int), pos + 1),
                flat ==> i <= flat_end && self.flat_run_end(self.tok(pos as int), i as int) == flat_end,
                flat && keep_ws ==> value@ == self.preserved_run(pos + 1, i as int),
                flat == ({
                    let j = self.flat_run_end(self.tok(pos as int), pos + 1);
                    j < self.len() && closes(self.tok(pos as int), self.tok(j))
                }),
                t == self.next_significant(pos + 1),
                pos + 1 <= t <= self.len(),
                forall|k: int| pos + 1 <= k < t ==> self.is_ws_at(k),
                target && i <= t + 1 ==> value@.len() == i - pos - 1,
                target ==> value@.len() >= (if i <= t + 1 { i - pos - 1 } else { t - pos }),
                target ==> forall|k: int| 0 <= k < value@.len() && k < t - pos ==> #[trigger] value@[k]
                    == ComponentValue::PreservedToken(self.input@[pos + 1 + k]),
            decreases self.len() - i,
        {
            if !keep_ws && matches!(self.input[i].token, Token::WhiteSpace) {
                i = i + 1;
            } else if !keep_ws && matches!(self.input[i].token, Token::AtKeyword { .. }) {
                let ghost before = errors@;
                let (rule, e) = self.parse_at_rule(i, ctx, errors);
                proof {
                    lemma_diagnostics_extend_trans(old(errors)@, before, errors@);
                    assert forall|k: int| 0 <= k < value@.len() implies self.within(#[trigger] value@[k].span(), pos + 1, e as int) by {
                        self.lemma_within_widen(value@[k].span(), pos + 1, i as int, pos + 1, e as int);
                    }
                    self.lemma_within_widen(rule.span, i as int, e as int, pos + 1, e as int);
                }
                value.push(ComponentValue::AtRule(Box::new(rule)));
                i = e;
            } else {
                let (cv, e) = self.parse_component_value(i, errors);
                proof {
                    if target && i < t {
                        assert(self.is_ws_at(i as int));
                    }
                    if target && i <= t {
                        assert(!is_block_opener(self.tok(i as int)));
                        assert(e == i + 1);
                        assert(cv == ComponentValue::PreservedToken(self.input@[i as int]));
                    }
                    assert forall|k: int| 0 <= k < value@.len() implies self.within(#[trigger] value@[k].span(), pos + 1, e as int) by {
                        self.lemma_within_widen(value@[k].span(), pos + 1, i as int, pos + 1, e as int);
                    }
                    self.lemma_within_widen(cv.span(), i as int, e as int, pos + 1, e as int);
                    if flat {
                        assert(i < flat_end);
                        assert(e == i + 1);
                    }
                }
                let ghost prev = value@;
                value.push(cv);
                proof {
                    if flat && keep_ws {
                        assert(value@ =~= self.preserved_run(pos + 1, e as int));
                    }
                }
                i = e;
            }
        }
        proof {
            if target && i <= t && i < t {
                assert(self.is_ws_at(i as int));
            }
        }
        let e = if i < self.input.len() { i + 1 } else { i };
        let span = self.span_from(pos, e);
        proof {
            assert forall|k: int| 0 <= k < value@.len() implies span.encloses(#[trigger] value@[k].span()) by {
                self.lemma_within_widen(value@[k].span(), pos + 1, i as int, pos as int, e as int);
                self.lemma_order(pos as int, pos + 1);
            }
        }
        (SimpleBlock { span, name, grammar, value }, e)
    }

    /// A function: its name token, then component values up to `)` or the
    /// end of input.
    pub fn parse_function(&self, pos: usize, errors: &mut Vec<ParseError>) -> (r: (Function, usize))
        requires
            self.wf(),
            pos < self.len(),
            self.tok(pos as int) is Function,
        ensures
            pos < r.1 <= self.len(),
            r.1 == self.len() || self.tok(r.1 - 1) is RParen,
            self.within(r.0.span, pos as int, r.1 as int),
            self.tok(pos as int) matches Token::Function { value, raw }
                && r.0.name.value == value && r.0.name.raw == raw,
            function_nested(r.0),
            self.ident_spelled(r.0.name),
            ({
                let j = self.flat_run_end(Token::LParen, pos + 1);
                j < self.len() && self.tok(j) is RParen
            }) ==> (r.1 == self.flat_run_end(Token::LParen, pos + 1) + 1
                && r.0.value@ == self.preserved_run(pos + 1, self.flat_run_end(Token::LParen, pos + 1))),
            final(errors)@ == old(errors)@,
        decreases self.len() - pos, 2nat,
    {
        let name = self.function_name(pos);
        let mut value: Vec<ComponentValue> = Vec::new();
        let mut i = pos + 1;
        let ghost flat_end = self.flat_run_end(Token::LParen, pos + 1);
        let ghost flat = flat_end < self.len() && self.tok(flat_end) is RParen;
        proof {
            self.lemma_flat_run_end(Token::LParen, pos + 1);
            assert(self.preserved_run(pos + 1, pos + 1) =~= Seq::<ComponentValue>::empty());
        }
        while i < self.input.len() && !self.is_rparen(i)
            invariant
                self.wf(),
                pos < i <= self.len(),
                errors@ == old(errors)@,
                flat_end == self.flat_run_end(Token::LParen, pos + 1),
                flat == (flat_end < self.len() && self.tok(flat_end) is RParen),
                flat ==> i <= flat_end && self.flat_run_end(Token::LParen, i as int) == flat_end,
                flat ==> value@ == self.preserved_run(pos + 1, i as int),
                forall|k: int| 0 <= k < value@.len() ==> self.within(#[trigger] value@[k].span(), pos + 1, i as int),
                forall|k: int| 0 <= k < value@.len() ==> component_nested(#[trigger] value@[k]),
            decreases self.len() - i,
        {
            let (cv, e) = self.parse_component_value(i, errors);
            proof {
                assert forall|k: int| 0 <= k < value@.len() implies self.within(#[trigger] value@[k].span(), pos + 1, e as int) by {
                    self.lemma_within_widen(value@[k].span(), pos + 1, i as int, pos + 1, e as int);
                }
                self.lemma_within_widen(cv.span(), i as int, e as int, pos + 1, e as int);
                if flat {
                    assert(i < flat_end);
                    assert(e == i + 1);
                }
            }
            value.push(cv);
            proof {
                if flat {
                    assert(value@ =~= self.preserved_run(pos + 1, e as int));
                }
            }
            i = e;
        }
        let e = if i < self.input.len() { i + 1 } else { i };
        let span = self.span_from(pos, e);
        proof {
            self.lemma_order(pos as int, pos + 1);
            self.lemma_order(pos + 1, e as int);
            assert forall|k: int| 0 <= k < value@.len() implies span.encloses(#[trigger] value@[k].span()) by {
                self.lemma_within_widen(value@[k].span(), pos + 1, i as int, pos as int, e as int);
            }
        }
        (Function { span, name, value }, e)
    }

    /// The name of the function token at `pos`, as an identifier.
    pub fn function_name(&self, pos: usize) -> (r: Ident)
        requires
            self.wf(),
            pos < self.len(),
            self.tok(pos as int) is Function,
        ensures
            r.span == self.function_name_span(pos as int),
            self.within(r.span, pos as int, pos + 1),
            self.tok(pos as int) matches Token::Function { value, raw } && r.value == value && r.raw == raw,
    {
        proof {
            self.lemma_span_of(pos as int, pos + 1);
        }
        match &self.input[pos].token {
            Token::Function { value, raw } => Ident { span: self.function_name_span_exec(pos), value: value.clone(), raw: raw.clone() },
            _ => Ident { span: self.function_name_span_exec(pos), value: String::new(), raw: String::new() },
        }
    }

    /// `name: value`, where the value runs up to `)`, `;`, `}` or the end
    /// of input, whitespace between its parts dropped.
    pub fn parse_declaration(&self, pos: usize, errors: &mut Vec<ParseError>) -> (r: PResult<Declaration>)
        requires
            self.wf(),
            pos <= self.len(),
        ensures
            r matches Ok((v, e)) ==> pos < e <= self.len() && self.within(v.span, pos as int, e as int),
            r is Ok ==> self.is_ident_at(pos as int),
            r matches Ok((v, _)) ==> v.name == self.ident_at(pos as int),
            self.is_ident_at(pos as int) && self.next_significant(pos + 1) < self.len()
                && self.tok(self.next_significant(pos + 1)) is Colon ==> r is Ok,
            ({
                let c = self.next_significant(self.next_significant(pos + 1) + 1);
                self.is_ident_at(pos as int) && self.next_significant(pos + 1) < self.len()
                    && self.tok(self.next_significant(pos + 1)) is Colon && self.is_single_value_at(c)
                    && self.is_rparen_at(self.next_significant(c + 1))
            }) ==> (r matches Ok((_, e)) && e == self.next_significant(self.next_significant(pos + 1) + 1) + 1),
            final(errors)@ == old(errors)@,
        decreases self.len() - pos, 3nat,
    {
        if !self.is_ident(pos) {
            return Err(self.error_here(pos, ErrorKind::Expected("ident")));
        }
        let name = self.ident_node(pos);
        let p = self.skip_ws(pos + 1);
        if !self.is_colon(p) {
            return Err(self.error_here(p, ErrorKind::Expected("':' token")));
        }
        let mut value: Vec<ComponentValue> = Vec::new();
        let mut e = p + 1;
        let ghost c = self.next_significant(p + 1);
        let ghost single = self.is_single_value_at(c) && self.is_rparen_at(self.next_significant(c + 1));
        loop
            invariant
                self.wf(),
                pos < e <= self.len(),
                errors@ == old(errors)@,
                p < e,
                c == self.next_significant(p + 1),
                single == (self.is_single_value_at(c) && self.is_rparen_at(self.next_significant(c + 1))),
                single ==> e == p + 1 || e == c + 1,
            ensures
                single ==> e == c + 1,
            decreases self.len() - e,
        {
            let q = self.skip_ws(e);
            if q == self.input.len() {
                break;
            }
            if matches!(self.input[q].token, Token::RParen | Token::Semicolon | Token::RBrace) {
                break;
            }
            let (cv, n) = self.parse_component_value(q, errors);
            value.push(cv);
            e = n;
        }
        let span = self.span_from(pos, e);
        Ok((Declaration { span, name, value }, e))
    }

    /// `<general-enclosed>`: a function, or a parenthesised block whose
    /// first significant token is an identifier.
    pub fn parse_general_enclosed(&self, pos: usize, errors: &mut Vec<ParseError>) -> (r: PResult<GeneralEnclosed>)
        requires
            self.wf(),
            pos <= self.len(),
        ensures
            r matches Ok((v, e)) ==> pos < e <= self.len() && self.within(v.span(), pos as int, e as int),
            r matches Ok((v, _)) ==> match v {
                GeneralEnclosed::Function(_) => self.tok(pos as int) is Function,
                GeneralEnclosed::SimpleBlock(_) => self.tok(pos as int) is LParen,
            },
            pos < self.len() && self.tok(pos as int) is Function ==> r is Ok,
            r matches Ok((GeneralEnclosed::SimpleBlock(b), _)) ==> first_significant_ident(b.value@),
            pos < self.len() && self.tok(pos as int) is LParen && self.is_ident_at(self.next_significant(pos + 1)) ==> r is Ok,
            final(errors)@ == old(errors)@,
        decreases self.len() - pos, 3nat,
    {
        if pos < self.input.len() {
            match &self.input[pos].token {
                Token::Function { .. } => {
                    let (f, e) = self.parse_function(pos, errors);
                    return Ok((GeneralEnclosed::Function(f), e));
                },
                Token::LParen => {
                    let ctx = with_no_grammar(Ctx::top_level());
                    let (b, e) = self.parse_simple_block(pos, ctx, errors);
                    proof {
                        let t = self.next_significant(pos + 1);
                        self.lemma_next_significant(pos + 1);
                        if self.is_ident_at(t) {
                            let vs = b.value@;
                            assert forall|j: int| 0 <= j < vs.len() && !is_ws_value(#[trigger] vs[j])
                                && (forall|k: int| 0 <= k < j ==> is_ws_value(vs[k])) implies is_ident_value(vs[j]) by {
                                if j > t - pos - 1 {
                                    assert(is_ws_value(vs[t - pos - 1]));
                                } else if j < t - pos - 1 {
                                    assert(self.is_ws_at(pos + 1 + j));
                                }
                            }
                        }
                    }
                    if !Self::first_significant_is_ident(&b.value) {
                        return Err(ParseError {
                            span: b.span,
                            kind: ErrorKind::Expected("ident token at first position in <general-enclosed>"),
                        });
                    }
                    return Ok((GeneralEnclosed::SimpleBlock(b), e));
                },
                _ => {},
            }
        }
        Err(self.error_here(pos, ErrorKind::Expected("function or '(' token")))
    }

    /// Whether the first value that is not whitespace is a preserved
    /// identifier token (true of an empty list).
    fn first_significant_is_ident(values: &Vec<ComponentValue>) -> (r: bool)
        ensures
            r == first_significant_ident(values@),
    {
        let mut i: usize = 0;
        while i < values.len()
            invariant
                i <= values@.len(),
                forall|k: int| 0 <= k < i ==> is_ws_value(#[trigger] values@[k]),
            decreases values@.len() - i,
        {
            let is_ws = match &values[i] {
                ComponentValue::PreservedToken(t) => matches!(t.token, Token::WhiteSpace),
                _ => false,
            };
            if !is_ws {
                let is_ident = match &values[i] {
                    ComponentValue::PreservedToken(t) => matches!(t.token, Token::Ident { .. }),
                    _ => false,
                };
                proof {
                    assert forall|j: int| 0 <= j < values@.len() && !is_ws_value(#[trigger] values@[j])
                        && (forall|k: int| 0 <= k < j ==> is_ws_value(values@[k])) implies j == i by {
                        if j > i {
                            assert(is_ws_value(values@[i as int]));
                        }
                    }
                }
                return is_ident;
            }
            i += 1;
        }
        true
    }
}


impl Parser {
    /// The name of the at-keyword at `pos`.
    pub open spec fn at_keyword_value(&self, pos: int) -> Seq<char> {
        match self.tok(pos) {
            Token::AtKeyword { value, .. } => value@,
            _ => Seq::empty(),
        }
    }

    /// The family of the at-rule whose at-keyword is at `pos`.
    pub open spec fn family_at(&self, pos: int) -> AtRuleFamily {
        family_of(self.at_keyword_value(pos))
    }

    /// A `@charset` prelude from `pos`: a string, then `;`.
    pub open spec fn charset_ok(&self, pos: int) -> bool {
        let p = self.next_significant(pos);
        &&& self.is_str_at(p)
        &&& self.next_significant(p + 1) < self.len()
        &&& self.tok(self.next_significant(p + 1)) is Semicolon
    }

    /// Where the `;` of a well-formed `@charset` prelude from `pos` stands.
    pub open spec fn charset_end(&self, pos: int) -> int {
        self.next_significant(self.next_significant(pos) + 1)
    }

    /// The diagnostic for a malformed `@charset` prelude from `pos`.
    pub open spec fn charset_error(&self, pos: int) -> ParseError {
        if !self.is_str_at(self.next_significant(pos)) {
            ParseError { span: self.span_at(self.next_significant(pos)), kind: ErrorKind::InvalidCharsetAtRule }
        } else {
            ParseError { span: self.span_at(self.charset_end(pos)), kind: ErrorKind::Expected("';' token") }
        }
    }

    /// The diagnostic for a keyframes name `none` at the first significant
    /// token from `pos`.
    pub open spec fn keyframes_none_error(&self, pos: int) -> ParseError {
        let p = self.next_significant(pos);
        ParseError { span: self.input@[p].span, kind: ErrorKind::InvalidCustomIdent(self.ident_at(p).value) }
    }

    /// The first position from `i` that holds no token a generic prelude
    /// keeps as it is: a block opener, a function, `;` or the end of input.
    pub open spec fn plain_run_end(&self, i: int) -> int
        decreases self.len() - i,
    {
        if 0 <= i < self.len() && !is_block_opener(self.tok(i)) && !(self.tok(i) is Function)
            && !(self.tok(i) is Semicolon) {
            self.plain_run_end(i + 1)
        } else {
            i
        }
    }

    pub proof fn lemma_plain_run_end(&self, i: int)
        requires
            0 <= i <= self.len(),
        ensures
            i <= self.plain_run_end(i) <= self.len(),
        decreases self.len() - i,
    {
        if 0 <= i < self.len() && !is_block_opener(self.tok(i)) && !(self.tok(i) is Function)
            && !(self.tok(i) is Semicolon) {
            self.lemma_plain_run_end(i + 1);
        }
    }

    /// The tokens from `from` up to `to`, each kept as a component value.
    pub open spec fn preserved_run(&self, from: int, to: int) -> Seq<ComponentValue> {
        Seq::new((to - from) as nat, |k: int| ComponentValue::PreservedToken(self.input@[from + k]))
    }

    /// The prelude grammar is tried after the at-keyword at `pos`: what
    /// follows it is neither `;`, `{` nor the end of input.
    pub open spec fn prelude_attempted(&self, pos: int) -> bool {
        pos + 1 < self.len() && !(self.tok(pos + 1) is Semicolon) && !(self.tok(pos + 1) is LBrace)
    }

    /// Whether the token at `pos` is `{`, as an error if not.
    fn expect_lbrace(&self, pos: usize) -> (r: Result<(), ParseError>)
        requires
            pos <= self.len(),
        ensures
            r matches Err(err) ==> !(err.kind is Ignore),
            r is Ok <==> (pos < self.len() && self.tok(pos as int) is LBrace),
            r is Err ==> r == Err::<(), ParseError>(ParseError { span: self.span_at(pos as int), kind: ErrorKind::Expected("'{' token") }),
    {
        if self.is_lbrace(pos) {
            Ok(())
        } else {
            Err(self.error_here(pos, ErrorKind::Expected("'{' token")))
        }
    }

    fn expect_semicolon(&self, pos: usize) -> (r: Result<(), ParseError>)
        requires
            pos <= self.len(),
        ensures
            r matches Err(err) ==> !(err.kind is Ignore),
            r is Ok <==> (pos < self.len() && self.tok(pos as int) is Semicolon),
            r is Err ==> r == Err::<(), ParseError>(ParseError { span: self.span_at(pos as int), kind: ErrorKind::Expected("';' token") }),
    {
        if self.is_semicolon(pos) {
            Ok(())
        } else {
            Err(self.error_here(pos, ErrorKind::Expected("';' token")))
        }
    }

    /// `@charset`: one string, then `;`.
    pub fn parse_charset_prelude(&self, pos: usize) -> (r: PResult<AtRulePrelude>)
        requires
            self.wf(),
            pos <= self.len(),
        ensures
            r matches Err(err) ==> !(err.kind is Ignore),
            r is Ok <==> self.charset_ok(pos as int),
            !self.is_str_at(self.next_significant(pos as int)) ==> r == Err::<(AtRulePrelude, usize), ParseError>(
                ParseError { span: self.span_at(self.next_significant(pos as int)), kind: ErrorKind::InvalidCharsetAtRule }),
            self.is_str_at(self.next_significant(pos as int)) && !self.charset_ok(pos as int) ==> r == Err::<(AtRulePrelude, usize), ParseError>(
                ParseError { span: self.span_at(self.charset_end(pos as int)), kind: ErrorKind::Expected("';' token") }),
            r matches Ok((v, e)) ==> pos < e < self.len() && e == self.charset_end(pos as int)
                && v == AtRulePrelude::CharsetPrelude(self.str_at(self.next_significant(pos as int)))
                && self.within(v.span(), pos as int, e as int),
    {
        let p = self.skip_ws(pos);
        if !(p < self.input.len() && matches!(self.input[p].token, Token::Str { .. })) {
            return Err(self.error_here(p, ErrorKind::InvalidCharsetAtRule));
        }
        let (charset, e) = self.parse_str(p)?;
        let q = self.skip_ws(e);
        self.expect_semicolon(q)?;
        proof {
            self.lemma_within_widen(charset.span, p as int, e as int, pos as int, q as int);
        }
        Ok((AtRulePrelude::CharsetPrelude(charset), q))
    }

    /// Layer names of one identifier each, separated by commas, from `i`:
    /// where the identifiers stand, and the first significant position
    /// after the last of them.
    pub open spec fn layer_list(&self, i: int) -> Option<(Seq<int>, int)>
        decreases self.len() - i,
    {
        if self.is_ident_at(i) && !self.is_delim_at(i + 1, '.') && !self.is_ident_at(i + 1) {
            let q = self.next_significant(i + 1);
            if q < self.len() && self.tok(q) is Comma {
                let r = self.next_significant(q + 1);
                if r > i && self.is_ident_at(r) {
                    match self.layer_list(r) {
                        Some((ps, end)) => Some((seq![i] + ps, end)),
                        None => None,
                    }
                } else {
                    None
                }
            } else {
                Some((seq![i], q))
            }
        } else {
            None
        }
    }

    /// A well-formed `@layer` prelude from `pos`: one or more single-identifier
    /// names, then `;`, or one name then `{`.
    pub open spec fn layer_ok(&self, pos: int) -> bool {
        self.layer_list(self.next_significant(pos)) matches Some((ps, end)) && end < self.len()
            && (self.tok(end) is Semicolon || (ps.len() == 1 && self.tok(end) is LBrace))
    }

    /// The identifiers' positions of the `@layer` list from `pos`.
    pub open spec fn layer_names_at(&self, pos: int) -> Seq<int> {
        self.layer_list(self.next_significant(pos))->Some_0.0
    }

    /// Where the `@layer` list from `pos` ends.
    pub open spec fn layer_end(&self, pos: int) -> int {
        self.layer_list(self.next_significant(pos))->Some_0.1
    }

    /// `v` is the layer prelude for the names at `ps`: one name, or a list.
    pub open spec fn layer_prelude_matches(&self, v: Option<AtRulePrelude>, ps: Seq<int>) -> bool {
        if ps.len() == 1 {
            v matches Some(AtRulePrelude::LayerPrelude(LayerPrelude::Name(n))) && n.name@ == self.single_layer_name(ps[0])
        } else {
            &&& v matches Some(AtRulePrelude::LayerPrelude(LayerPrelude::NameList(l)))
            &&& l.name_list@.len() == ps.len()
            &&& forall|k: int| 0 <= k < ps.len() ==> (#[trigger] l.name_list@[k]).name@ == self.single_layer_name(ps[k])
        }
    }

    /// The layer name of one identifier, at `i`.
    pub open spec fn single_layer_name(&self, i: int) -> Seq<Ident> {
        seq![self.ident_at(i)]
    }

    /// `@layer`: nothing, one layer name, or a comma-separated list of them.
    /// One name may be followed by `{` or `;`, a list only by `;`, and
    /// nothing only by `{`.
    pub fn parse_layer_prelude(&self, pos: usize) -> (r: PResult<Option<AtRulePrelude>>)
        requires
            self.wf(),
            pos <= self.len(),
        ensures
            r matches Ok((v, e)) ==> pos <= e < self.len() && match v {
                None => self.tok(e as int) is LBrace && !self.is_ident_at(self.next_significant(pos as int)),
                Some(AtRulePrelude::LayerPrelude(LayerPrelude::Name(n))) => (self.tok(e as int) is LBrace
                    || self.tok(e as int) is Semicolon) && self.within(n.span, pos as int, e as int),
                Some(AtRulePrelude::LayerPrelude(LayerPrelude::NameList(l))) => self.tok(e as int) is Semicolon
                    && l.name_list@.len() >= 2 && self.within(l.span, pos as int, e as int),
                _ => false,
            },
            self.is_ident_at(self.next_significant(pos as int)) && r is Ok ==> r->Ok_0.0 is Some,
            !self.is_ident_at(self.next_significant(pos as int)) ==> (r is Ok <==> (self.next_significant(pos as int) < self.len()
                && self.tok(self.next_significant(pos as int)) is LBrace)),
            self.layer_list(self.next_significant(pos as int)) matches Some((ps, end)) ==> {
                &&& (ps.len() == 1 && end < self.len() && (self.tok(end) is LBrace || self.tok(end) is Semicolon))
                    ==> (r matches Ok((Some(AtRulePrelude::LayerPrelude(LayerPrelude::Name(n))), e))
                    && e == end && n.name@ == self.single_layer_name(ps[0]))
                &&& (ps.len() >= 2 && end < self.len() && self.tok(end) is Semicolon)
                    ==> (r matches Ok((Some(AtRulePrelude::LayerPrelude(LayerPrelude::NameList(l))), e))
                    && e == end && l.name_list@.len() == ps.len()
                    && forall|k: int| 0 <= k < ps.len() ==> (#[trigger] l.name_list@[k]).name@ == self.single_layer_name(ps[k]))
                &&& (ps.len() >= 2 && !(end < self.len() && self.tok(end) is Semicolon))
                    ==> r == Err::<(Option<AtRulePrelude>, usize), ParseError>(
                    ParseError { span: self.span_at(end), kind: ErrorKind::Expected("';' token") })
                &&& (ps.len() == 1 && !(end < self.len() && (self.tok(end) is LBrace || self.tok(end) is Semicolon)))
                    ==> r == Err::<(Option<AtRulePrelude>, usize), ParseError>(
                    ParseError { span: self.span_at(end), kind: ErrorKind::Expected("';' token") })
            },
            self.layer_ok(pos as int) ==> (r matches Ok((v, e)) && e == self.layer_end(pos as int)
                && self.layer_prelude_matches(v, self.layer_names_at(pos as int))),
            self.layer_list(self.next_significant(pos as int)) is Some && !self.layer_ok(pos as int)
                ==> r == Err::<(Option<AtRulePrelude>, usize), ParseError>(ParseError {
                    span: self.span_at(self.layer_end(pos as int)), kind: ErrorKind::Expected("';' token") }),
    {
        let p = self.skip_ws(pos);
        if !self.is_ident(p) {
            self.expect_lbrace(p)?;
            return Ok((None, p));
        }
        let ghost chain = self.layer_list(p as int);
        let mut names: Vec<LayerName> = Vec::new();
        let mut cur = p;
        let mut lo: u32 = 0;
        let mut hi: u32 = 0;
        loop
            invariant_except_break
                self.is_ident_at(cur as int),
                chain matches Some((ps, end)) ==> names@.len() < ps.len() && cur == ps[names@.len() as int]
                    && self.layer_list(cur as int) == Some((ps.subrange(names@.len() as int, ps.len() as int), end)),
            invariant
                self.wf(),
                p <= cur <= self.len(),
                self.is_ident_at(p as int),
                chain == self.layer_list(p as int),
                p == self.next_significant(pos as int),
                pos <= p,
                names@.len() == 0 <==> cur == p,
                names@.len() > 0 ==> lo == self.lo_at(p as int) && lo <= hi <= self.end_at(cur as int),
                chain matches Some((ps, end)) ==> forall|k: int| 0 <= k < names@.len() ==> (#[trigger] names@[k]).name@
                    == self.single_layer_name(ps[k]),
            ensures
                names@.len() > 0,
                !(cur < self.len() && self.tok(cur as int) is Comma),
                chain matches Some((ps, end)) ==> names@.len() == ps.len() && cur == end,
            decreases self.len() - cur,
        {
            let ghost k = names@.len() as int;
            proof {
                if chain is Some {
                    assert(self.layer_list(cur as int) is Some);
                    assert(!self.is_delim_at(cur + 1, '.') && !self.is_ident_at(cur + 1));
                }
            }
            let (name, n) = self.parse_layer_name(cur);
            proof {
                self.lemma_order(p as int, cur as int);
                self.lemma_order(cur as int, n as int);
            }
            if names.len() == 0 {
                lo = name.span.lo;
            }
            hi = name.span.hi;
            names.push(name);
            let next = self.skip_ws(n);
            proof {
                self.lemma_order(n as int, next as int);
            }
            if self.is_comma(next) {
                let after = self.skip_ws(next + 1);
                if !self.is_ident(after) {
                    proof {
                        if chain is Some {
                            assert(n == cur + 1);
                            assert(self.layer_list(cur as int) is Some);
                            assert(false);
                        }
                    }
                    return Err(self.error_here(after, ErrorKind::Expected("ident")));
                }
                proof {
                    self.lemma_order(next as int, after as int);
                    if chain is Some {
                        let ps = chain->Some_0.0;
                        let end = chain->Some_0.1;
                        let rest = ps.subrange(k, ps.len() as int);
                        assert(rest[0] == cur);
                        let tail = self.layer_list(after as int)->Some_0.0;
                        assert(rest == seq![cur as int] + tail);
                        assert(tail =~= rest.subrange(1, rest.len() as int));
                        assert(rest.subrange(1, rest.len() as int) =~= ps.subrange(k + 1, ps.len() as int));
                        assert(ps[k + 1] == tail[0]);
                    }
                }
                cur = after;
            } else {
                proof {
                    if chain is Some {
                        let ps = chain->Some_0.0;
                        let rest = ps.subrange(k, ps.len() as int);
                        assert(rest =~= seq![cur as int]);
                        assert(rest.len() == 1);
                    }
                }
                cur = next;
                break;
            }
        }
        proof {
            self.lemma_order(pos as int, p as int);
        }
        if names.len() == 1 {
            if !self.is_lbrace(cur) && !self.is_semicolon(cur) {
                return Err(self.error_here(cur, ErrorKind::Expected("';' token")));
            }
            match names.pop() {
                Some(name) => {
                    let span = Span { lo, hi };
                    return Ok((Some(AtRulePrelude::LayerPrelude(LayerPrelude::Name(LayerName { span, name: name.name }))), cur));
                },
                None => {
                    return Err(self.error_here(cur, ErrorKind::Expected("layer name")));
                },
            }
        }
        self.expect_semicolon(cur)?;
        let span = Span { lo, hi };
        Ok((Some(AtRulePrelude::LayerPrelude(LayerPrelude::NameList(LayerNameList { span, name_list: names }))), cur))
    }

    /// A `@document` matching function: a URL, or any other function.
    fn parse_document_matching_function(&self, pos: usize, errors: &mut Vec<ParseError>) -> (r: PResult<DocumentMatchingFunction>)
        requires
            self.wf(),
            pos <= self.len(),
        ensures
            r matches Ok((v, e)) ==> pos < e <= self.len() && self.within(match v {
                DocumentMatchingFunction::Url(u) => u.span,
                DocumentMatchingFunction::Function(f) => f.span,
            }, pos as int, e as int),
            final(errors)@ == old(errors)@,
        decreases self.len() - pos, 3nat,
    {
        if pos < self.input.len() {
            match &self.input[pos].token {
                Token::Url { .. } => {
                    let (u, e) = self.parse_url(pos)?;
                    return Ok((DocumentMatchingFunction::Url(u), e));
                },
                Token::Function { value, .. } => {
                    if matches_keyword(value.as_str(), "url") || matches_keyword(value.as_str(), "src") {
                        let (u, e) = self.parse_url(pos)?;
                        return Ok((DocumentMatchingFunction::Url(u), e));
                    }
                    let (f, e) = self.parse_function(pos, errors);
                    return Ok((DocumentMatchingFunction::Function(f), e));
                },
                _ => {},
            }
        }
        Err(self.error_here(pos, ErrorKind::Expected("url or function")))
    }

    /// `@document`: comma-separated matching functions.
    fn parse_document_prelude(&self, pos: usize, errors: &mut Vec<ParseError>) -> (r: PResult<DocumentPrelude>)
        requires
            self.wf(),
            pos <= self.len(),
        ensures
            r matches Ok((v, e)) ==> pos < e <= self.len() && self.within(v.span, pos as int, e as int),
            final(errors)@ == old(errors)@,
        decreases self.len() - pos, 4nat,
    {
        let (first, mut e) = self.parse_document_matching_function(pos, errors)?;
        let mut matching_functions: Vec<DocumentMatchingFunction> = Vec::new();
        matching_functions.push(first);
        loop
            invariant
                self.wf(),
                pos < e <= self.len(),
                errors@ == old(errors)@,
            decreases self.len() - e,
        {
            let p = self.skip_ws(e);
            if !self.is_comma(p) {
                break;
            }
            let q = self.skip_ws(p + 1);
            let (f, next) = self.parse_document_matching_function(q, errors)?;
            matching_functions.push(f);
            e = next;
        }
        let span = self.span_from(pos, e);
        Ok((DocumentPrelude { span, matching_functions }, e))
    }

    /// A string, a `url` token, or a URL function.
    fn parse_url_or_str(&self, pos: usize) -> (r: PResult<UrlOrStr>)
        requires
            self.wf(),
            pos <= self.len(),
        ensures
            r matches Ok((v, e)) ==> pos < e <= self.len() && self.within(v.span(), pos as int, e as int),
            self.is_str_at(pos as int) || (pos < self.len() && self.tok(pos as int) is Url)
                ==> (r matches Ok((_, e)) && e == pos + 1),
    {
        if self.is_str_at_exec(pos) {
            let (s, e) = self.parse_str(pos)?;
            return Ok((UrlOrStr::Str(s), e));
        }
        if pos < self.input.len() && matches!(self.input[pos].token, Token::Url { .. } | Token::Function { .. }) {
            let (u, e) = self.parse_url(pos)?;
            return Ok((UrlOrStr::Url(u), e));
        }
        Err(self.error_here(pos, ErrorKind::Expected("string, url or function token")))
    }

    fn is_str_at_exec(&self, pos: usize) -> (r: bool)
        requires
            pos <= self.len(),
        ensures
            r == self.is_str_at(pos as int),
    {
        pos < self.input.len() && matches!(self.input[pos].token, Token::Str { .. })
    }

    /// `@namespace`: an optional prefix, then a string or URL, then `;`.
    fn parse_namespace_prelude(&self, pos: usize) -> (r: PResult<NamespacePrelude>)
        requires
            self.wf(),
            pos <= self.len(),
        ensures
            r matches Ok((v, e)) ==> pos < e < self.len() && self.tok(e as int) is Semicolon
                && self.within(v.span, pos as int, e as int),
    {
        let mut p = pos;
        let mut prefix: Option<Ident> = None;
        if self.is_ident(pos) {
            prefix = Some(self.ident_node(pos));
            p = self.skip_ws(pos + 1);
        }
        let (uri, e) = self.parse_url_or_str(p)?;
        let span = self.span_from(pos, e);
        let q = self.skip_ws(e);
        self.expect_semicolon(q)?;
        proof {
            self.lemma_within_widen(span, pos as int, e as int, pos as int, q as int);
        }
        Ok((NamespacePrelude { span, prefix, uri }, q))
    }

    /// The `layer(...)` function of `@import`. It is kept only when it
    /// holds exactly one non-empty layer name; otherwise a diagnostic is
    /// recorded and it is dropped. Either way it is consumed.
    fn parse_import_layer_function(&self, pos: usize, errors: &mut Vec<ParseError>) -> (r: (Option<Function>, usize))
        requires
            self.wf(),
            pos < self.len(),
            self.tok(pos as int) is Function,
        ensures
            pos < r.1 <= self.len(),
            r.0 matches Some(f) ==> self.within(f.span, pos as int, r.1 as int),
            diagnostics_extend(old(errors)@, final(errors)@),
        decreases self.len() - pos, 3nat,
    {
        let name = self.function_name(pos);
        let p = self.skip_ws(pos + 1);
        if self.is_ident(p) {
            let (layer, n) = self.parse_layer_name(p);
            let q = self.skip_ws(n);
            if self.is_rparen(q) {
                let span = self.span_from(pos, q + 1);
                let mut value: Vec<ComponentValue> = Vec::new();
                value.push(ComponentValue::LayerName(layer));
                return (Some(Function { span, name, value }), q + 1);
            }
        }
        let (f, e) = self.parse_function(pos, errors);
        errors.push(ParseError {
            span: f.span,
            kind: ErrorKind::Expected("layer function inside @import expected to have exactly one ident argument"),
        });
        (None, e)
    }

    /// `@import`: a string or URL, then optionally `layer` or `layer(name)`,
    /// then optionally `supports(...)`, then optionally a media query list,
    /// then `;`.
    #[verifier::rlimit(100)]
    pub fn parse_import_prelude(&self, pos: usize, errors: &mut Vec<ParseError>) -> (r: PResult<ImportPrelude>)
        requires
            self.wf(),
            pos <= self.len(),
        ensures
            r matches Ok((v, e)) ==> pos < e < self.len() && self.tok(e as int) is Semicolon
                && self.within(v.span, pos as int, e as int),
            r matches Ok((v, _)) ==> prelude_conditions_wf(AtRulePrelude::ImportPrelude(v))
                && prelude_nested(AtRulePrelude::ImportPrelude(v)),
            (self.is_str_at(pos as int) || (pos < self.len() && self.tok(pos as int) is Url))
                && self.next_significant(pos + 1) < self.len() && self.tok(self.next_significant(pos + 1)) is Semicolon
                ==> (r matches Ok((v, e)) && e == self.next_significant(pos + 1) && v.layer_name is None
                && v.supports is None && v.media is None),
            (self.is_str_at(pos as int) || (pos < self.len() && self.tok(pos as int) is Url))
                ==> (self.simple_media_query(self.next_significant(pos + 1)) matches Some(e1)
                ==> (self.query_chain(e1) matches Some((end, _))
                ==> (self.next_significant(end) < self.len() && self.tok(self.next_significant(end)) is Semicolon
                ==> (r matches Ok((v, e)) && e == self.next_significant(end) && v.media is Some
                && v.layer_name is None && v.supports is None)))),
            diagnostics_extend(old(errors)@, final(errors)@),
        decreases self.len() - pos, 8nat,
    {
        let (href, e0) = self.parse_url_or_str(pos)?;
        let mut p = self.skip_ws(e0);
        proof {
            if (self.is_str_at(pos as int) || (pos < self.len() && self.tok(pos as int) is Url))
                && self.simple_media_query(p as int) is Some {
                reveal_strlit("layer");
                reveal_strlit("not");
                reveal_strlit("only");
                if self.is_keyword_at(p as int, "layer"@) {
                    assert(!self.is_keyword_at(p as int, "not"@));
                    assert(!self.is_keyword_at(p as int, "only"@));
                    assert(is_media_type_keyword(self.ident_value_at(p as int)));
                }
                assert(!self.is_keyword_at(p as int, "layer"@));
                assert(!(p < self.len() && self.tok(p as int) is Function));
                assert(!(p < self.len() && self.tok(p as int) is Semicolon));
            }
        }
        let mut layer_name: Option<ImportLayerName> = None;
        if self.is_keyword(p, "layer") {
            layer_name = Some(ImportLayerName::Ident(self.ident_node(p)));
            p = self.skip_ws(p + 1);
        } else if p < self.input.len() {
            let is_layer_fn = match &self.input[p].token {
                Token::Function { value, .. } => matches_keyword(value.as_str(), "layer"),
                _ => false,
            };
            if is_layer_fn {
                let (f, n) = self.parse_import_layer_function(p, errors);
                if let Some(f) = f {
                    layer_name = Some(ImportLayerName::Function(f));
                }
                p = self.skip_ws(n);
            }
        }
        let mut supports: Option<ImportSupports> = None;
        let is_supports_fn = p < self.input.len() && match &self.input[p].token {
            Token::Function { value, .. } => matches_keyword(value.as_str(), "supports"),
            _ => false,
        };
        if is_supports_fn {
            let q = self.skip_ws(p + 1);
            let (found, n) = if self.is_keyword(q, "not") || (q < self.input.len() && matches!(self.input[q].token, Token::LParen)) {
                let (c, n) = self.parse_condition(q, ConditionFamily::Supports, errors)?;
                (ImportSupports::Condition(c), n)
            } else {
                let (d, n) = self.parse_declaration(q, errors)?;
                (ImportSupports::Declaration(d), n)
            };
            let q2 = self.skip_ws(n);
            if !self.is_rparen(q2) {
                return Err(self.error_here(q2, ErrorKind::Expected("')' token")));
            }
            supports = Some(found);
            p = self.skip_ws(q2 + 1);
        }
        let mut media: Option<MediaQueryList> = None;
        if !self.is_semicolon(p) {
            let (m, n) = self.parse_media_query_list(p, errors)?;
            media = Some(m);
            p = self.skip_ws(n);
        }
        self.expect_semicolon(p)?;
        let span = self.span_from(pos, p);
        Ok((ImportPrelude { span, href, layer_name, supports, media }, p))
    }

    /// `@custom-media`: an extension name, then `true`, `false` or a media
    /// query list.
    fn parse_custom_media_query(&self, pos: usize, errors: &mut Vec<ParseError>) -> (r: PResult<CustomMediaQuery>)
        requires
            self.wf(),
            pos <= self.len(),
        ensures
            r matches Ok((v, e)) ==> pos < e <= self.len() && self.within(v.span, pos as int, e as int),
            r matches Ok((v, _)) ==> prelude_conditions_wf(AtRulePrelude::CustomMediaPrelude(v)),
            final(errors)@ == old(errors)@,
        decreases self.len() - pos, 8nat,
    {
        let (name, e) = self.parse_extension_name(pos)?;
        let p = self.skip_ws(e);
        let (media, n) = if self.is_keyword(p, "true") || self.is_keyword(p, "false") {
            (CustomMediaType::Ident(self.ident_node(p)), p + 1)
        } else {
            let (m, n) = self.parse_media_query_list(p, errors)?;
            (CustomMediaType::MediaQueryList(m), n)
        };
        let span = self.span_from(pos, n);
        Ok((CustomMediaQuery { span, name, media }, n))
    }

    /// The stand-in for `@nest`'s selector list: the component values up
    /// to `{`, `;` or the end of input, whitespace dropped; at least one.
    fn parse_nest_prelude(&self, pos: usize, errors: &mut Vec<ParseError>) -> (r: PResult<ListOfComponentValues>)
        requires
            self.wf(),
            pos <= self.len(),
        ensures
            r matches Ok((v, e)) ==> pos < e <= self.len() && self.within(v.span, pos as int, e as int),
            final(errors)@ == old(errors)@,
        decreases self.len() - pos, 4nat,
    {
        let mut children: Vec<ComponentValue> = Vec::new();
        let mut e = pos;
        loop
            invariant
                self.wf(),
                pos <= e <= self.len(),
                children@.len() == 0 <==> e == pos,
                errors@ == old(errors)@,
            decreases self.len() - e,
        {
            let q = self.skip_ws(e);
            if q == self.input.len() || matches!(self.input[q].token, Token::LBrace | Token::Semicolon) {
                break;
            }
            let (cv, n) = self.parse_component_value(q, errors);
            children.push(cv);
            e = n;
        }
        if e == pos {
            return Err(self.error_here(pos, ErrorKind::Expected("selector")));
        }
        let span = self.span_from(pos, e);
        Ok((ListOfComponentValues { span, children }, e))
    }

    /// `{` expected after the whitespace at `e`; returns where it stands.
    fn block_follows(&self, pos: usize, e: usize) -> (r: Result<usize, ParseError>)
        requires
            pos <= e <= self.len(),
        ensures
            r matches Err(err) ==> !(err.kind is Ignore),
            r matches Ok(q) ==> e <= q < self.len() && self.tok(q as int) is LBrace,
            r matches Ok(q) ==> q == self.next_significant(e as int),
            r is Ok <==> (self.next_significant(e as int) < self.len() && self.tok(self.next_significant(e as int)) is LBrace),
    {
        let q = self.skip_ws(e);
        self.expect_lbrace(q)?;
        Ok(q)
    }

    /// The prelude grammar of an at-rule's family, from just after its
    /// name. `Ignore` signals a name not recognised here.
    #[verifier::rlimit(100)]
    pub fn parse_prelude(&self, pos: usize, family: AtRuleFamily, ctx: Ctx, errors: &mut Vec<ParseError>) -> (r: PResult<Option<AtRulePrelude>>)
        requires
            self.wf(),
            pos <= self.len(),
        ensures
            r matches Ok((v, e)) ==> pos <= e <= self.len() && (v matches Some(p) ==> self.within(p.span(), pos as int, e as int)),
            r matches Ok((v, e)) ==> !(family is CustomMedia) ==> e < self.len(),
            r matches Ok((v, _)) ==> (v matches Some(p) ==> prelude_conditions_wf(p) && prelude_nested(p)),
            r matches Ok((v, e)) ==> needs_block(family) ==> (self.tok(e as int) is LBrace
                || (prelude_optional(family) && v is None && self.tok(e as int) is Semicolon)),
            r matches Ok((v, e)) ==> needs_semicolon(family) ==> self.tok(e as int) is Semicolon,
            r matches Ok((v, e)) ==> family is Layer ==> match v {
                None => self.tok(e as int) is LBrace,
                Some(AtRulePrelude::LayerPrelude(LayerPrelude::Name(_))) => self.tok(e as int) is LBrace
                    || self.tok(e as int) is Semicolon,
                Some(AtRulePrelude::LayerPrelude(LayerPrelude::NameList(l))) => self.tok(e as int) is Semicolon
                    && l.name_list@.len() >= 2,
                _ => false,
            },
            family is Charset ==> (r is Ok <==> self.charset_ok(pos as int)),
            family is Keyframes && self.is_keyword_at(self.next_significant(pos as int), "none"@)
                ==> r == Err::<(Option<AtRulePrelude>, usize), ParseError>(self.keyframes_none_error(pos as int)),
            family is Charset ==> (r matches Err(err) ==> err == self.charset_error(pos as int)),
            family is Layer && self.layer_ok(pos as int) ==> (r matches Ok((v, e)) && e == self.layer_end(pos as int)
                && self.layer_prelude_matches(v, self.layer_names_at(pos as int))),
            family is Layer && self.layer_list(self.next_significant(pos as int)) is Some && !self.layer_ok(pos as int)
                ==> r == Err::<(Option<AtRulePrelude>, usize), ParseError>(ParseError {
                    span: self.span_at(self.layer_end(pos as int)), kind: ErrorKind::Expected("';' token") }),
            family is Charset ==> (r matches Ok((v, e)) ==> pos < e && e == self.charset_end(pos as int) && v == Some(
                AtRulePrelude::CharsetPrelude(self.str_at(self.next_significant(pos as int))))),
            family is Unknown ==> (r matches Err(err) && err.kind is Ignore),
            (family is Viewport || family is FontFace) && self.next_significant(pos as int) < self.len()
                && self.tok(self.next_significant(pos as int)) is LBrace
                ==> (r matches Ok((None, e)) && e == self.next_significant(pos as int)),
            family is Keyframes ==> ({
                let p = self.next_significant(pos as int);
                ((self.is_ident_at(p) && !keyword_eq(self.ident_value_at(p), "none"@)
                    && !is_reserved_ident(self.ident_value_at(p))) || self.is_str_at(p))
                    && self.next_significant(p + 1) < self.len() && self.tok(self.next_significant(p + 1)) is LBrace
            } ==> (r matches Ok((Some(AtRulePrelude::KeyframesPrelude(_)), e))
                && e == self.next_significant(self.next_significant(pos as int) + 1))),
            family is CounterStyle ==> ({
                let p = self.next_significant(pos as int);
                self.is_ident_at(p) && !is_reserved_ident(self.ident_value_at(p))
                    && self.next_significant(p + 1) < self.len() && self.tok(self.next_significant(p + 1)) is LBrace
            } ==> (r matches Ok((Some(AtRulePrelude::CounterStylePrelude(i)), _))
                && i == self.ident_at(self.next_significant(pos as int)))),
            family is Property ==> ({
                let p = self.next_significant(pos as int);
                self.is_ident_at(p) && is_dashed(self.ident_value_at(p))
                    && self.next_significant(p + 1) < self.len() && self.tok(self.next_significant(p + 1)) is LBrace
            } ==> (r matches Ok((Some(AtRulePrelude::PropertyPrelude(i)), _))
                && i == self.ident_at(self.next_significant(pos as int)))),
            diagnostics_extend(old(errors)@, final(errors)@),
            family is Unknown || family is Charset || family is Keyframes || family is Layer ==> final(errors)@ == old(errors)@,
        decreases self.len() - pos, 9nat,
    {
        let p = self.skip_ws(pos);
        proof {
            self.lemma_order(pos as int, p as int);
        }
        match family {
            AtRuleFamily::Viewport | AtRuleFamily::FontFace => {
                self.expect_lbrace(p)?;
                Ok((None, p))
            },
            AtRuleFamily::FontFeatureValuesSub | AtRuleFamily::PageMargin => {
                let allowed = if matches!(family, AtRuleFamily::PageMargin) {
                    ctx.in_page_at_rule
                } else {
                    ctx.in_font_feature_values_at_rule
                };
                if !allowed {
                    return Err(self.error_here(pos, ErrorKind::Ignore));
                }
                self.expect_lbrace(p)?;
                Ok((None, p))
            },
            AtRuleFamily::Charset => {
                let (v, e) = self.parse_charset_prelude(pos)?;
                Ok((Some(v), e))
            },
            AtRuleFamily::Container => {
                let (c, e) = self.parse_container_condition(p, errors)?;
                let q = self.block_follows(p, e)?;
                proof {
                    self.lemma_within_widen(c.span, p as int, e as int, pos as int, q as int);
                }
                Ok((Some(AtRulePrelude::ContainerPrelude(c)), q))
            },
            AtRuleFamily::CounterStyle => {
                let (i, e) = self.parse_custom_ident(p)?;
                let q = self.block_follows(p, e)?;
                proof {
                    self.lemma_within_widen(i.span, p as int, e as int, pos as int, q as int);
                }
                Ok((Some(AtRulePrelude::CounterStylePrelude(i)), q))
            },
            AtRuleFamily::FontPaletteValues | AtRuleFamily::Property => {
                let (i, e) = self.parse_dashed_ident(p)?;
                let q = self.block_follows(p, e)?;
                proof {
                    self.lemma_within_widen(i.span, p as int, e as int, pos as int, q as int);
                }
                if matches!(family, AtRuleFamily::Property) {
                    Ok((Some(AtRulePrelude::PropertyPrelude(i)), q))
                } else {
                    Ok((Some(AtRulePrelude::FontPaletteValuesPrelude(i)), q))
                }
            },
            AtRuleFamily::FontFeatureValues => {
                let (f, e) = self.parse_font_feature_values_prelude(p)?;
                let q = self.block_follows(p, e)?;
                proof {
                    self.lemma_within_widen(f.span, p as int, e as int, pos as int, q as int);
                }
                Ok((Some(AtRulePrelude::FontFeatureValuesPrelude(f)), q))
            },
            AtRuleFamily::Layer => self.parse_layer_prelude(pos),
            AtRuleFamily::Document => {
                let (d, e) = self.parse_document_prelude(p, errors)?;
                let q = self.block_follows(p, e)?;
                proof {
                    self.lemma_within_widen(d.span, p as int, e as int, pos as int, q as int);
                }
                Ok((Some(AtRulePrelude::DocumentPrelude(d)), q))
            },
            AtRuleFamily::Page => {
                if self.is_lbrace(p) || self.is_semicolon(p) {
                    return Ok((None, p));
                }
                let (l, e) = self.parse_page_selector_list(p)?;
                let q = self.block_follows(p, e)?;
                proof {
                    self.lemma_within_widen(l.span, p as int, e as int, pos as int, q as int);
                }
                Ok((Some(AtRulePrelude::PagePrelude(l)), q))
            },
            AtRuleFamily::Namespace => {
                let (n, e) = self.parse_namespace_prelude(p)?;
                proof {
                    self.lemma_within_widen(n.span, p as int, e as int, pos as int, e as int);
                }
                Ok((Some(AtRulePrelude::NamespacePrelude(n)), e))
            },
            AtRuleFamily::ColorProfile => {
                let (i, e) = self.parse_ident(p)?;
                let q = self.block_follows(p, e)?;
                proof {
                    self.lemma_within_widen(i.span, p as int, e as int, pos as int, q as int);
                }
                if starts_with_dashes(i.value.as_str()) {
                    Ok((Some(AtRulePrelude::ColorProfilePrelude(ColorProfileName::DashedIdent(i))), q))
                } else {
                    Ok((Some(AtRulePrelude::ColorProfilePrelude(ColorProfileName::Ident(i))), q))
                }
            },
            AtRuleFamily::Nest => {
                let (l, e) = self.parse_nest_prelude(p, errors)?;
                let q = self.block_follows(p, e)?;
                proof {
                    self.lemma_within_widen(l.span, p as int, e as int, pos as int, q as int);
                }
                Ok((Some(AtRulePrelude::NestPrelude(l)), q))
            },
            AtRuleFamily::Media => {
                if self.is_lbrace(p) || self.is_semicolon(p) {
                    return Ok((None, p));
                }
                let (m, e) = self.parse_media_query_list(p, errors)?;
                let q = self.block_follows(p, e)?;
                proof {
                    self.lemma_within_widen(m.span, p as int, e as int, pos as int, q as int);
                }
                Ok((Some(AtRulePrelude::MediaPrelude(m)), q))
            },
            AtRuleFamily::Supports => {
                let (c, e) = self.parse_condition(p, ConditionFamily::Supports, errors)?;
                let q = self.block_follows(p, e)?;
                proof {
                    self.lemma_within_widen(c.span, p as int, e as int, pos as int, q as int);
                }
                Ok((Some(AtRulePrelude::SupportsPrelude(c)), q))
            },
            AtRuleFamily::Import => {
                let (i, e) = self.parse_import_prelude(p, errors)?;
                proof {
                    self.lemma_within_widen(i.span, p as int, e as int, pos as int, e as int);
                }
                Ok((Some(AtRulePrelude::ImportPrelude(i)), e))
            },
            AtRuleFamily::Keyframes => {
                let (k, e) = self.parse_keyframes_name(p)?;
                let q = self.block_follows(p, e)?;
                proof {
                    self.lemma_within_widen(k.span(), p as int, e as int, pos as int, q as int);
                }
                Ok((Some(AtRulePrelude::KeyframesPrelude(k)), q))
            },
            AtRuleFamily::CustomMedia => {
                let (c, e) = self.parse_custom_media_query(p, errors)?;
                let q = self.skip_ws(e);
                proof {
                    self.lemma_within_widen(c.span, p as int, e as int, pos as int, q as int);
                }
                Ok((Some(AtRulePrelude::CustomMediaPrelude(c)), q))
            },
            AtRuleFamily::Unknown => Err(self.error_here(pos, ErrorKind::Ignore)),
        }
    }
}


impl Parser {
    /// `<keyframe-block>`: comma-separated keyframe selectors, then a block
    /// of declarations.
    pub fn parse_keyframe_block(&self, pos: usize, ctx: Ctx, errors: &mut Vec<ParseError>) -> (r: PResult<KeyframeBlock>)
        requires
            self.wf(),
            pos <= self.len(),
        ensures
            r matches Ok((v, e)) ==> pos < e <= self.len() && self.within(v.span, pos as int, e as int)
                && v.prelude@.len() > 0 && v.block.grammar is DeclarationList
                && v.span.encloses(v.block.span) && block_nested(v.block),
            (self.is_keyword_at(pos as int, "from"@) || self.is_keyword_at(pos as int, "to"@) || self.is_percentage_at(pos as int))
                && self.next_significant(pos + 1) < self.len() && self.tok(self.next_significant(pos + 1)) is LBrace
                ==> (r matches Ok((v, _)) && v.prelude@.len() == 1),
            diagnostics_extend(old(errors)@, final(errors)@),
        decreases self.len() - pos, 3nat,
    {
        let ghost single = (self.is_keyword_at(pos as int, "from"@) || self.is_keyword_at(pos as int, "to"@)
            || self.is_percentage_at(pos as int))
            && self.next_significant(pos + 1) < self.len() && self.tok(self.next_significant(pos + 1)) is LBrace;
        let (first, mut e) = self.parse_keyframe_selector(pos)?;
        let mut prelude: Vec<KeyframeSelector> = Vec::new();
        prelude.push(first);
        loop
            invariant
                self.wf(),
                pos < e <= self.len(),
                prelude@.len() > 0,
                single == ((self.is_keyword_at(pos as int, "from"@) || self.is_keyword_at(pos as int, "to"@)
                    || self.is_percentage_at(pos as int))
                    && self.next_significant(pos + 1) < self.len() && self.tok(self.next_significant(pos + 1)) is LBrace),
                single ==> e == pos + 1 && prelude@.len() == 1,
            decreases self.len() - e,
        {
            let p = self.skip_ws(e);
            if !self.is_comma(p) {
                break;
            }
            let q = self.skip_ws(p + 1);
            let (sel, next) = self.parse_keyframe_selector(q)?;
            prelude.push(sel);
            e = next;
        }
        let p = self.skip_ws(e);
        if !(p < self.input.len() && matches!(self.input[p].token, Token::LBrace)) {
            return Err(self.error_here(p, ErrorKind::Expected("'{' token")));
        }
        let block_ctx = Ctx { block_contents_grammar: BlockContentsGrammar::DeclarationList, ..ctx };
        let (block, n) = self.parse_simple_block(p, block_ctx, errors);
        let span = self.span_from(pos, n);
        proof {
            self.lemma_within_widen(block.span, p as int, n as int, pos as int, n as int);
        }
        Ok((KeyframeBlock { span, prelude, block }, n))
    }

    /// The block of `@keyframes`: keyframe blocks separated by whitespace,
    /// up to `}`.
    pub fn parse_keyframes_block(&self, pos: usize, ctx: Ctx, errors: &mut Vec<ParseError>) -> (r: PResult<SimpleBlock>)
        requires
            self.wf(),
            pos < self.len(),
            self.tok(pos as int) is LBrace,
        ensures
            r matches Ok((v, e)) ==> pos < e <= self.len() && self.tok(e - 1) is RBrace
                && self.within(v.span, pos as int, e as int) && v.grammar == ctx.block_contents_grammar
                && v.span.hi == self.end_at(e as int)
                && v.name == self.input@[pos as int] && block_nested(v),
            self.next_significant(pos + 1) < self.len() && self.tok(self.next_significant(pos + 1)) is RBrace
                ==> (r matches Ok((v, e)) && e == self.next_significant(pos + 1) + 1 && v.value@.len() == 0),
            diagnostics_extend(old(errors)@, final(errors)@),
        decreases self.len() - pos, 3nat,
    {
        let name = copy_token_and_span(&self.input[pos]);
        let mut value: Vec<ComponentValue> = Vec::new();
        let mut p = self.skip_ws(pos + 1);
        let ghost first = p;
        while !(p < self.input.len() && matches!(self.input[p].token, Token::RBrace))
            invariant
                self.wf(),
                pos < p <= self.len(),
                diagnostics_extend(old(errors)@, errors@),
                first <= p,
                first == self.next_significant(pos + 1),
                value@.len() == 0 <==> p == first,
                first < self.len() && self.tok(first as int) is RBrace ==> p == first,
                forall|k: int| 0 <= k < value@.len() ==> self.within(#[trigger] value@[k].span(), pos + 1, p as int),
                forall|k: int| 0 <= k < value@.len() ==> component_nested(#[trigger] value@[k]),
            decreases self.len() - p,
        {
            let ghost before = errors@;
            let (kb, n) = self.parse_keyframe_block(p, ctx, errors)?;
            let next = self.skip_ws(n);
            proof {
                lemma_diagnostics_extend_trans(old(errors)@, before, errors@);
                self.lemma_order(n as int, next as int);
                assert forall|k: int| 0 <= k < value@.len() implies self.within(#[trigger] value@[k].span(), pos + 1, next as int) by {
                    self.lemma_within_widen(value@[k].span(), pos + 1, p as int, pos + 1, next as int);
                }
                self.lemma_within_widen(kb.span, p as int, n as int, pos + 1, next as int);
            }
            value.push(ComponentValue::KeyframeBlock(Box::new(kb)));
            p = next;
        }
        let span = self.span_from(pos, p + 1);
        proof {
            self.lemma_order(pos as int, pos + 1);
            assert forall|k: int| 0 <= k < value@.len() implies span.encloses(#[trigger] value@[k].span()) by {
                self.lemma_within_widen(value@[k].span(), pos + 1, p as int, pos as int, p + 1);
            }
        }
        Ok((SimpleBlock { span, name, grammar: ctx.block_contents_grammar, value }, p + 1))
    }

    /// The block of an at-rule, read under its family's context. When the
    /// `@keyframes` grammar fails, the diagnostic is recorded and the block
    /// is read again under no grammar.
    pub fn parse_at_rule_block(&self, pos: usize, family: AtRuleFamily, ctx: Ctx, errors: &mut Vec<ParseError>) -> (r: (SimpleBlock, usize))
        requires
            self.wf(),
            pos < self.len(),
            self.tok(pos as int) is LBrace,
        ensures
            pos < r.1 <= self.len(),
            r.1 == self.len() || self.tok(r.1 - 1) is RBrace,
            self.within(r.0.span, pos as int, r.1 as int),
            r.0.grammar == block_ctx(family, ctx).block_contents_grammar || r.0.grammar is NoGrammar,
            !(family is Keyframes) ==> r.0.grammar == block_ctx(family, ctx).block_contents_grammar,
            r.0.span.hi == self.end_at(r.1 as int),
            block_nested(r.0),
            !(family is Keyframes) && !reads_at_rules(block_ctx(family, ctx).block_contents_grammar)
                ==> final(errors)@ == old(errors)@,
            diagnostics_extend(old(errors)@, final(errors)@),
            family is Unknown ==> final(errors)@ == old(errors)@,
        decreases self.len() - pos, 4nat,
    {
        let inner = block_context(family, ctx);
        if matches!(family, AtRuleFamily::Keyframes) {
            match self.parse_keyframes_block(pos, inner, errors) {
                Ok(found) => {
                    return found;
                },
                Err(err) => {
                    let ghost mid = errors@;
                    if !matches!(err.kind, ErrorKind::Ignore) {
                        errors.push(err);
                    }
                    let (b, e) = self.parse_simple_block(pos, with_no_grammar(ctx), errors);
                    proof {
                        lemma_diagnostics_extend_trans(old(errors)@, mid, errors@);
                    }
                    return (b, e);
                },
            }
        }
        self.parse_simple_block(pos, inner, errors)
    }

    /// An at-rule, from its at-keyword: the prelude of its family, then
    /// either `;`, a block, or the end of input. Where the prelude grammar
    /// fails, or the name is not recognised here, its diagnostic (never the
    /// `Ignore` signal) is recorded once, and the tokens up to the
    /// terminator are kept one component value at a time in a generic
    /// prelude.
    #[verifier::rlimit(60)]
    pub fn parse_at_rule(&self, pos: usize, ctx: Ctx, errors: &mut Vec<ParseError>) -> (r: (AtRule, usize))
        requires
            self.wf(),
            pos < self.len(),
            self.tok(pos as int) is AtKeyword,
        ensures
            pos < r.1 <= self.len(),
            r.1 == self.len() || self.tok(r.1 - 1) is Semicolon || self.tok(r.1 - 1) is RBrace,
            r.0.span == self.span_of(pos as int, r.1 as int),
            r.0.span.lo <= r.0.span.hi,
            r.0.name.ident().span.lo == r.0.span.lo + 1,
            r.0.name.ident().span.hi == self.input@[pos as int].span.hi,
            self.tok(pos as int) matches Token::AtKeyword { value, raw }
                && r.0.name.ident().value == value && r.0.name.ident().raw == raw,
            r.0.span.encloses(r.0.name.ident().span),
            r.0.prelude matches Some(p) ==> r.0.span.encloses(p.span()),
            r.0.prelude matches Some(p) ==> prelude_conditions_wf(p),
            r.0.block matches Some(b) ==> r.0.span.encloses(b.span),
            at_rule_nested(r.0),
            self.ident_spelled(r.0.name.ident()),
            r.0.block matches Some(b) ==> (b.grammar == block_ctx(self.family_at(pos as int), ctx).block_contents_grammar
                || (self.family_at(pos as int) is Keyframes && b.grammar is NoGrammar)),
            diagnostics_extend(old(errors)@, final(errors)@),
            self.family_at(pos as int) is Unknown ==> final(errors)@ == old(errors)@
                && (r.0.prelude is None || r.0.prelude matches Some(AtRulePrelude::ListOfComponentValues(_))),
            (r.0.name is DashedIdent) <==> is_dashed(self.at_keyword_value(pos as int)),
            r.0.block matches Some(b) ==> (r.1 == self.len() || self.tok(r.1 - 1) is RBrace) && b.span.hi == r.0.span.hi,
            r.0.block is None ==> r.1 == self.len() || self.tok(r.1 - 1) is Semicolon,
            self.family_at(pos as int) is Keyframes && self.is_keyword_at(self.next_significant(pos + 1), "none"@)
                ==> final(errors)@.len() > old(errors)@.len()
                && final(errors)@[old(errors)@.len() as int] == self.keyframes_none_error(pos + 1)
                && (r.0.prelude matches Some(AtRulePrelude::ListOfComponentValues(_)))
                && ({
                    let t = self.plain_run_end(pos + 1);
                    t < self.len() && self.tok(t) is LBrace ==> (r.0.block matches Some(b) && b.grammar is NoGrammar)
                }),
            ({
                let t = self.plain_run_end(pos + 1);
                self.family_at(pos as int) is Unknown && (t == self.len() || self.tok(t) is Semicolon || self.tok(t) is LBrace)
            }) ==> ({
                let t = self.plain_run_end(pos + 1);
                &&& t == pos + 1 ==> r.0.prelude is None
                &&& t > pos + 1 ==> (r.0.prelude matches Some(AtRulePrelude::ListOfComponentValues(l))
                    && l.children@ == self.preserved_run(pos + 1, t))
                &&& (t < self.len() && self.tok(t) is LBrace) ==> (r.0.block matches Some(b) && b.grammar is NoGrammar)
            }),
            self.family_at(pos as int) is Charset && self.charset_ok(pos + 1) ==> final(errors)@ == old(errors)@
                && r.0.prelude == Some(AtRulePrelude::CharsetPrelude(self.str_at(self.next_significant(pos + 1))))
                && r.1 == self.charset_end(pos + 1) + 1 && r.0.block is None,
            (self.family_at(pos as int) is Layer && r.0.prelude matches Some(AtRulePrelude::LayerPrelude(LayerPrelude::NameList(_))))
                ==> r.0.block is None && self.tok(r.1 - 1) is Semicolon,
            self.family_at(pos as int) is Layer && self.layer_ok(pos + 1) ==> {
                &&& self.layer_prelude_matches(r.0.prelude, self.layer_names_at(pos + 1))
                &&& self.tok(self.layer_end(pos + 1)) is Semicolon ==> r.1 == self.layer_end(pos + 1) + 1
                    && r.0.block is None && final(errors)@ == old(errors)@
                &&& self.tok(self.layer_end(pos + 1)) is LBrace ==> (r.0.block matches Some(b) && b.grammar is Stylesheet)
            },
            self.family_at(pos as int) is Layer && self.layer_list(self.next_significant(pos + 1)) is Some
                && !self.layer_ok(pos + 1) ==> final(errors)@.len() > old(errors)@.len()
                && final(errors)@[old(errors)@.len() as int] == (ParseError {
                    span: self.span_at(self.layer_end(pos + 1)), kind: ErrorKind::Expected("';' token") })
                && r.0.prelude matches Some(AtRulePrelude::ListOfComponentValues(_)),
            self.family_at(pos as int) is Charset && !self.charset_ok(pos + 1) && self.prelude_attempted(pos as int)
                ==> final(errors)@.len() == old(errors)@.len() + 1
                && final(errors)@[old(errors)@.len() as int] == self.charset_error(pos + 1)
                && r.0.prelude matches Some(AtRulePrelude::ListOfComponentValues(_)),
        decreases self.len() - pos, 10nat,
    {
        let tok_span = self.input[pos].span;
        let (value, raw) = match &self.input[pos].token {
            Token::AtKeyword { value, raw } => (value.clone(), raw.clone()),
            _ => (String::new(), String::new()),
        };
        let family = classify(value.as_str());
        let dashed = starts_with_dashes(value.as_str());
        let name_ident = Ident { span: Span { lo: tok_span.lo + 1, hi: tok_span.hi }, value, raw };
        let name = if dashed { AtRuleName::DashedIdent(name_ident) } else { AtRuleName::Ident(name_ident) };
        let mut prelude: Option<AtRulePrelude> = None;
        let mut recovering = false;
        let mut e = pos + 1;
        let ghost run_end = self.plain_run_end(pos + 1);
        let ghost unknown_run = (family is Unknown
            || (family is Keyframes && self.is_keyword_at(self.next_significant(pos + 1), "none"@)))
            && (run_end == self.len() || self.tok(run_end) is Semicolon || self.tok(run_end) is LBrace);
        proof {
            self.lemma_span_of(pos as int, pos + 1);
            self.lemma_plain_run_end(pos + 1);
        }
        loop
            invariant_except_break
                (family is Layer && prelude matches Some(AtRulePrelude::LayerPrelude(LayerPrelude::NameList(_))))
                    ==> e < self.len() && self.tok(e as int) is Semicolon,
                family is Charset && self.charset_ok(pos + 1) ==> e == pos + 1 || (!recovering
                    && errors@ == old(errors)@ && e == self.charset_end(pos + 1) && prelude == Some(
                    AtRulePrelude::CharsetPrelude(self.str_at(self.next_significant(pos + 1))))),
                unknown_run ==> e <= run_end && self.plain_run_end(e as int) == run_end,
                family is Layer && self.layer_ok(pos + 1) ==> e == pos + 1 || (!recovering
                    && errors@ == old(errors)@ && e == self.layer_end(pos + 1)
                    && self.layer_prelude_matches(prelude, self.layer_names_at(pos + 1))),
                unknown_run ==> (e == pos + 1 ==> prelude is None) && (e > pos + 1 ==> (prelude matches
                    Some(AtRulePrelude::ListOfComponentValues(l)) && l.children@ == self.preserved_run(pos + 1, e as int))),
            invariant
                self.wf(),
                pos < e <= self.len(),
                family == family_of(name.ident().value@),
                tok_span == self.input@[pos as int].span,
                name.ident().span == (Span { lo: (tok_span.lo + 1) as u32, hi: tok_span.hi }),
                self.tok(pos as int) matches Token::AtKeyword { value, raw }
                    && name.ident().value == value && name.ident().raw == raw,
                prelude matches Some(p) ==> self.within(p.span(), pos + 1, e as int),
                prelude matches Some(p) ==> prelude_conditions_wf(p),
                prelude matches Some(p) ==> prelude_nested(p),
                diagnostics_extend(old(errors)@, errors@),
                family is Unknown ==> errors@ == old(errors)@,
                e == pos + 1 ==> !recovering && errors@ == old(errors)@ && prelude is None,
                recovering ==> prelude matches Some(AtRulePrelude::ListOfComponentValues(_)),
                family is Unknown ==> prelude is None || recovering,
                (name is DashedIdent) <==> is_dashed(self.at_keyword_value(pos as int)),
                family is Layer && self.layer_list(self.next_significant(pos + 1)) is Some && !self.layer_ok(pos + 1)
                    ==> e == pos + 1 || (recovering && errors@.len() > old(errors)@.len()
                    && errors@[old(errors)@.len() as int] == (ParseError {
                        span: self.span_at(self.layer_end(pos + 1)), kind: ErrorKind::Expected("';' token") })),
                family is Keyframes && self.is_keyword_at(self.next_significant(pos + 1), "none"@)
                    ==> e == pos + 1 || (recovering && errors@.len() > old(errors)@.len()
                    && errors@[old(errors)@.len() as int] == self.keyframes_none_error(pos + 1)),
                family is Charset && !self.charset_ok(pos + 1) && self.prelude_attempted(pos as int)
                    ==> e == pos + 1 || (recovering && errors@.len() == old(errors)@.len() + 1
                    && errors@[old(errors)@.len() as int] == self.charset_error(pos + 1)),
                unknown_run == ({
                    let t = self.plain_run_end(pos + 1);
                    (family is Unknown || (family is Keyframes && self.is_keyword_at(self.next_significant(pos + 1), "none"@)))
                        && (t == self.len() || self.tok(t) is Semicolon || self.tok(t) is LBrace)
                }),
                run_end == self.plain_run_end(pos + 1),
            ensures
                e == self.len() || self.tok(e - 1) is Semicolon,
                (family is Layer && prelude matches Some(AtRulePrelude::LayerPrelude(LayerPrelude::NameList(_))))
                    ==> e > 0 && self.tok(e - 1) is Semicolon,
                family is Charset && self.charset_ok(pos + 1) ==> !recovering && errors@ == old(errors)@
                    && e == self.charset_end(pos + 1) + 1 && prelude == Some(
                    AtRulePrelude::CharsetPrelude(self.str_at(self.next_significant(pos + 1)))),
                unknown_run ==> !(run_end < self.len() && self.tok(run_end) is LBrace),
                family is Layer && self.layer_ok(pos + 1) ==> !(self.tok(self.layer_end(pos + 1)) is LBrace)
                    && e == self.layer_end(pos + 1) + 1 && !recovering && errors@ == old(errors)@
                    && self.layer_prelude_matches(prelude, self.layer_names_at(pos + 1)),
                unknown_run ==> (run_end == pos + 1 ==> prelude is None) && (run_end > pos + 1 ==> (prelude matches
                    Some(AtRulePrelude::ListOfComponentValues(l)) && l.children@ == self.preserved_run(pos + 1, run_end))),
            decreases self.len() - e,
        {
            if e == self.input.len() {
                break;
            }
            if self.is_semicolon(e) {
                e = e + 1;
                break;
            }
            if self.is_lbrace(e) {
                let ghost before = errors@;
                let (block, n) = self.parse_at_rule_block(e, family, ctx, errors);
                proof {
                    lemma_diagnostics_extend_trans(old(errors)@, before, errors@);
                }
                let span = self.span_from(pos, n);
                proof {
                    self.lemma_order(pos + 1, e as int);
                    self.lemma_order(e as int, n as int);
                    self.lemma_order(pos as int, pos + 1);
                    self.lemma_order(pos + 1, n as int);
                    if prelude is Some {
                        self.lemma_within_widen(prelude->Some_0.span(), pos + 1, e as int, pos as int, n as int);
                    }
                    self.lemma_within_widen(block.span, e as int, n as int, pos as int, n as int);
                }
                return (AtRule { span, name, prelude, block: Some(block) }, n);
            }
            let ghost before = errors@;
            let attempt = if recovering {
                None
            } else {
                Some(self.parse_prelude(e, family, ctx, errors))
            };
            proof {
                lemma_diagnostics_extend_trans(old(errors)@, before, errors@);
            }
            match attempt {
                Some(Ok((found, n))) if n > e => {
                    if let Some(p) = found {
                        prelude = Some(p);
                    } else {
                        proof {
                            if prelude is Some {
                                self.lemma_within_widen(prelude->Some_0.span(), pos + 1, e as int, pos + 1, n as int);
                            }
                        }
                    }
                    proof {
                        if prelude is Some && n > e {
                            self.lemma_order(pos + 1, e as int);
                        }
                    }
                    e = n;
                },
                other => {
                    let ghost mid = errors@;
                    if let Some(Err(err)) = other {
                        if !matches!(err.kind, ErrorKind::Ignore) {
                            errors.push(err);
                        }
                    }
                    recovering = true;
                    proof {
                        lemma_diagnostics_extend_trans(old(errors)@, mid, errors@);
                    }
                    let (cv, n) = self.parse_component_value(e, errors);
                    let list = match prelude {
                        Some(AtRulePrelude::ListOfComponentValues(mut list)) => {
                            proof {
                                self.lemma_within_widen(list.span, pos + 1, e as int, pos + 1, n as int);
                            }
                            list.span = Span { lo: list.span.lo, hi: self.last_end(n) };
                            let ghost before_children = list.children@;
                            list.children.push(cv);
                            proof {
                                if unknown_run {
                                    assert(list.children@ =~= self.preserved_run(pos + 1, n as int));
                                }
                            }
                            proof {
                                self.lemma_order(e as int, n as int);
                                self.lemma_order(pos + 1, n as int);
                            }
                            list
                        },
                        _ => {
                            let mut children: Vec<ComponentValue> = Vec::new();
                            children.push(cv);
                            proof {
                                if unknown_run {
                                    assert(children@ =~= self.preserved_run(pos + 1, n as int));
                                }
                            }
                            proof {
                                self.lemma_order(pos + 1, e as int);
                            }
                            let span = self.span_from(e, n);
                            proof {
                                self.lemma_within_widen(span, e as int, n as int, pos + 1, n as int);
                            }
                            ListOfComponentValues { span, children }
                        },
                    };
                    prelude = Some(AtRulePrelude::ListOfComponentValues(list));
                    e = n;
                },
            }
        }
        let span = self.span_from(pos, e);
        proof {
            self.lemma_order(pos as int, pos + 1);
            self.lemma_order(pos + 1, e as int);
            if prelude is Some {
                self.lemma_within_widen(prelude->Some_0.span(), pos + 1, e as int, pos as int, e as int);
            }
        }
        (AtRule { span, name, prelude, block: None }, e)
    }
}

} // verus!
