//! Grammars for names and selectors inside preludes: layer names, keyframes
//! names and selectors, extension names, page selectors, family names, and
//! the single-token values (strings, URLs, numbers).
use vstd::prelude::*;
use crate::token::{Token, keyword_eq, is_dashed, matches_keyword, starts_with_dashes};
use crate::ast::{Dimension, ErrorKind, FamilyName, FontFeatureValuesPrelude, Ident, KeyframeSelector, KeyframesName, LayerName, Numeric, PageSelector, PageSelectorList, PageSelectorPseudo, ParseError, Str, Url};
use crate::parser::Parser;

verus! {

/// A parsed node and the position after it, or an error.
pub type PResult<T> = Result<(T, usize), ParseError>;

/// Identifiers that cannot be used where an author-defined name is expected.
pub open spec fn is_reserved_ident(v: Seq<char>) -> bool {
    ||| keyword_eq(v, "initial"@)
    ||| keyword_eq(v, "inherit"@)
    ||| keyword_eq(v, "unset"@)
    ||| keyword_eq(v, "revert"@)
    ||| keyword_eq(v, "revert-layer"@)
    ||| keyword_eq(v, "default"@)
}

pub open spec fn is_page_pseudo_name(v: Seq<char>) -> bool {
    ||| keyword_eq(v, "left"@)
    ||| keyword_eq(v, "right"@)
    ||| keyword_eq(v, "first"@)
    ||| keyword_eq(v, "blank"@)
}

impl Parser {
    pub open spec fn ident_value_at(&self, i: int) -> Seq<char> {
        self.ident_at(i).value@
    }

    pub open spec fn is_str_at(&self, i: int) -> bool {
        0 <= i < self.len() && self.tok(i) is Str
    }

    pub open spec fn is_percentage_at(&self, i: int) -> bool {
        0 <= i < self.len() && self.tok(i) is Percentage
    }

    /// The string node for the string token at `i`.
    pub open spec fn str_at(&self, i: int) -> Str {
        match self.tok(i) {
            Token::Str { value, raw } => Str { span: self.input@[i].span, value, raw },
            _ => Str { span: self.input@[i].span, value: arbitrary(), raw: arbitrary() },
        }
    }

    fn is_reserved(v: &str) -> (r: bool)
        ensures
            r == is_reserved_ident(v@),
    {
        matches_keyword(v, "initial") || matches_keyword(v, "inherit") || matches_keyword(v, "unset")
            || matches_keyword(v, "revert") || matches_keyword(v, "revert-layer")
            || matches_keyword(v, "default")
    }

    /// `<ident>`
    pub fn parse_ident(&self, pos: usize) -> (r: PResult<Ident>)
        requires
            self.wf(),
            pos <= self.len(),
        ensures
            r matches Ok((v, _)) ==> self.ident_spelled(v),
            r matches Err(err) ==> !(err.kind is Ignore),
            r is Ok <==> self.is_ident_at(pos as int),
            r matches Ok((v, e)) ==> e == pos + 1 && v == self.ident_at(pos as int)
                && self.within(v.span, pos as int, e as int),
    {
        if self.is_ident(pos) {
            Ok((self.ident_node(pos), pos + 1))
        } else {
            Err(self.error_here(pos, ErrorKind::Expected("ident")))
        }
    }

    /// `<string>`
    pub fn parse_str(&self, pos: usize) -> (r: PResult<Str>)
        requires
            self.wf(),
            pos <= self.len(),
        ensures
            r matches Err(err) ==> !(err.kind is Ignore),
            r is Ok <==> self.is_str_at(pos as int),
            r matches Ok((v, e)) ==> e == pos + 1 && v == self.str_at(pos as int)
                && self.within(v.span, pos as int, e as int),
    {
        if pos < self.input.len() {
            proof {
                self.lemma_span_of(pos as int, pos + 1);
            }
            match &self.input[pos].token {
                Token::Str { value, raw } => {
                    return Ok((Str { span: self.input[pos].span, value: value.clone(), raw: raw.clone() }, pos + 1));
                },
                _ => {},
            }
        }
        Err(self.error_here(pos, ErrorKind::Expected("string token")))
    }

    /// A number, percentage or dimension token, as written.
    pub fn parse_numeric(&self, pos: usize) -> (r: PResult<Numeric>)
        requires
            self.wf(),
            pos <= self.len(),
        ensures
            r is Ok <==> (pos < self.len() && (self.tok(pos as int) is Number || self.tok(pos as int) is Percentage)),
            r matches Ok((v, e)) ==> e == pos + 1 && v.span == self.input@[pos as int].span
                && self.within(v.span, pos as int, e as int),
    {
        if pos < self.input.len() {
            proof {
                self.lemma_span_of(pos as int, pos + 1);
            }
            match &self.input[pos].token {
                Token::Number { raw } => {
                    return Ok((Numeric { span: self.input[pos].span, raw: raw.clone() }, pos + 1));
                },
                Token::Percentage { raw } => {
                    return Ok((Numeric { span: self.input[pos].span, raw: raw.clone() }, pos + 1));
                },
                _ => {},
            }
        }
        Err(self.error_here(pos, ErrorKind::Expected("number or percentage token")))
    }

    pub fn parse_dimension(&self, pos: usize) -> (r: PResult<Dimension>)
        requires
            self.wf(),
            pos <= self.len(),
        ensures
            r matches Err(err) ==> !(err.kind is Ignore),
            r is Ok <==> (pos < self.len() && self.tok(pos as int) is Dimension),
            r matches Ok((v, e)) ==> e == pos + 1 && self.within(v.span, pos as int, e as int),
    {
        if pos < self.input.len() {
            proof {
                self.lemma_span_of(pos as int, pos + 1);
            }
            match &self.input[pos].token {
                Token::Dimension { value, unit } => {
                    return Ok((Dimension { span: self.input[pos].span, value: value.clone(), unit: unit.clone() }, pos + 1));
                },
                _ => {},
            }
        }
        Err(self.error_here(pos, ErrorKind::Expected("dimension token")))
    }

    /// A `url` token, or `url("...")` / `src("...")` with a quoted string.
    pub fn parse_url(&self, pos: usize) -> (r: PResult<Url>)
        requires
            self.wf(),
            pos <= self.len(),
        ensures
            r matches Err(err) ==> !(err.kind is Ignore),
            (pos < self.len() && self.tok(pos as int) is Url) ==> r is Ok,
            pos < self.len() ==> (self.tok(pos as int) matches Token::Url { value, .. } ==> (r matches Ok((u, e))
                && u.value == value && u.span == self.input@[pos as int].span && e == pos + 1)),
            r is Ok ==> pos < self.len() && (self.tok(pos as int) is Url || self.tok(pos as int) is Function),
            r matches Ok((v, e)) ==> pos < e <= self.len() && self.within(v.span, pos as int, e as int),
    {
        if pos < self.input.len() {
            proof {
                self.lemma_span_of(pos as int, pos + 1);
            }
            match &self.input[pos].token {
                Token::Url { value, .. } => {
                    return Ok((Url { span: self.input[pos].span, value: value.clone() }, pos + 1));
                },
                Token::Function { value, .. } => {
                    if matches_keyword(value.as_str(), "url") || matches_keyword(value.as_str(), "src") {
                        let p = self.skip_ws(pos + 1);
                        if p < self.input.len() {
                            match &self.input[p].token {
                                Token::Str { value: text, .. } => {
                                    let q = self.skip_ws(p + 1);
                                    if self.is_rparen(q) {
                                        let span = self.span_from(pos, q + 1);
                                        return Ok((Url { span, value: text.clone() }, q + 1));
                                    }
                                },
                                _ => {},
                            }
                        }
                    }
                },
                _ => {},
            }
        }
        Err(self.error_here(pos, ErrorKind::Expected("url or function token")))
    }

    /// `<custom-ident>`: an identifier other than the reserved ones.
    pub fn parse_custom_ident(&self, pos: usize) -> (r: PResult<Ident>)
        requires
            self.wf(),
            pos <= self.len(),
        ensures
            r matches Ok((v, _)) ==> self.ident_spelled(v),
            r matches Err(err) ==> !(err.kind is Ignore),
            r is Ok <==> (self.is_ident_at(pos as int) && !is_reserved_ident(self.ident_value_at(pos as int))),
            r matches Ok((v, e)) ==> e == pos + 1 && v == self.ident_at(pos as int)
                && self.within(v.span, pos as int, e as int),
    {
        let (ident, e) = self.parse_ident(pos)?;
        if Self::is_reserved(ident.value.as_str()) {
            let span = ident.span;
            return Err(ParseError { span, kind: ErrorKind::InvalidCustomIdent(ident.value) });
        }
        Ok((ident, e))
    }

    /// `<dashed-ident>`: an identifier starting with `--`.
    pub fn parse_dashed_ident(&self, pos: usize) -> (r: PResult<Ident>)
        requires
            self.wf(),
            pos <= self.len(),
        ensures
            r matches Ok((v, _)) ==> self.ident_spelled(v),
            r is Ok <==> (self.is_ident_at(pos as int) && is_dashed(self.ident_value_at(pos as int))),
            r matches Ok((v, e)) ==> e == pos + 1 && v == self.ident_at(pos as int)
                && self.within(v.span, pos as int, e as int),
    {
        let (ident, e) = self.parse_ident(pos)?;
        if !starts_with_dashes(ident.value.as_str()) {
            return Err(ParseError { span: ident.span, kind: ErrorKind::Expected("dashed ident") });
        }
        Ok((ident, e))
    }

    /// `<extension-name>`: exactly one identifier whose value starts with `--`.
    pub fn parse_extension_name(&self, pos: usize) -> (r: PResult<Ident>)
        requires
            self.wf(),
            pos <= self.len(),
        ensures
            r matches Ok((v, _)) ==> self.ident_spelled(v),
            r is Ok <==> (self.is_ident_at(pos as int) && is_dashed(self.ident_value_at(pos as int))),
            r matches Ok((v, e)) ==> e == pos + 1 && v == self.ident_at(pos as int)
                && self.within(v.span, pos as int, e as int),
    {
        if !self.is_ident(pos) {
            return Err(self.error_here(pos, ErrorKind::Expected("ident token")));
        }
        let ident = self.ident_node(pos);
        if !starts_with_dashes(ident.value.as_str()) {
            return Err(ParseError { span: ident.span, kind: ErrorKind::Expected("Extension name should start with '--'") });
        }
        Ok((ident, pos + 1))
    }

    /// `<keyframe-selector>`: `from`, `to` (any ASCII case) or a percentage.
    pub fn parse_keyframe_selector(&self, pos: usize) -> (r: PResult<KeyframeSelector>)
        requires
            self.wf(),
            pos <= self.len(),
        ensures
            r is Ok <==> (self.is_keyword_at(pos as int, "from"@) || self.is_keyword_at(pos as int, "to"@)
                || self.is_percentage_at(pos as int)),
            r matches Ok((v, e)) ==> e == pos + 1 && match v {
                KeyframeSelector::Ident(i) => i == self.ident_at(pos as int),
                KeyframeSelector::Percentage(n) => self.is_percentage_at(pos as int)
                    && n.span == self.input@[pos as int].span,
            },
    {
        if self.is_ident(pos) {
            let ident = self.ident_node(pos);
            if !matches_keyword(ident.value.as_str(), "from") && !matches_keyword(ident.value.as_str(), "to") {
                return Err(ParseError { span: ident.span, kind: ErrorKind::Expected("'from' or 'to' idents") });
            }
            return Ok((KeyframeSelector::Ident(ident), pos + 1));
        }
        if pos < self.input.len() {
            match &self.input[pos].token {
                Token::Percentage { raw } => {
                    let n = Numeric { span: self.input[pos].span, raw: raw.clone() };
                    return Ok((KeyframeSelector::Percentage(n), pos + 1));
                },
                _ => {},
            }
        }
        Err(self.error_here(pos, ErrorKind::Expected("ident or percentage token")))
    }

    /// `<layer-name>`: `.`-separated identifiers. When the first token is
    /// not an identifier one token is still consumed, so callers that loop
    /// on this grammar always make progress.
    pub fn parse_layer_name(&self, pos: usize) -> (r: (LayerName, usize))
        requires
            self.wf(),
            pos <= self.len(),
        ensures
            pos < self.len() ==> pos < r.1,
            r.1 <= self.len(),
            self.is_ident_at(pos as int) <==> r.0.name@.len() > 0,
            self.is_ident_at(pos as int) ==> r.0.name@[0] == self.ident_at(pos as int),
            !self.is_ident_at(r.1 as int) || !self.is_ident_at(pos as int),
            forall|k: int| 0 <= k < r.0.name@.len() ==> exists|i: int| pos <= i < r.1
                && self.is_ident_at(i) && #[trigger] r.0.name@[k] == self.ident_at(i),
            pos < self.len() ==> self.within(r.0.span, pos as int, r.1 as int)
                && r.0.span == self.span_of(pos as int, r.1 as int),
            self.is_ident_at(pos as int) && !self.is_delim_at(pos + 1, '.') && !self.is_ident_at(pos + 1)
                ==> r.1 == pos + 1 && r.0.name@ == seq![self.ident_at(pos as int)],
    {
        let entered = self.is_ident(pos);
        let mut name: Vec<Ident> = Vec::new();
        let mut e = pos;
        while self.is_ident(e)
            invariant
                self.wf(),
                pos <= e <= self.len(),
                entered == self.is_ident_at(pos as int),
                entered ==> (name@.len() == 0 <==> e == pos),
                name@.len() > 0 ==> name@[0] == self.ident_at(pos as int),
                name@.len() > 0 ==> entered,
                !entered ==> e == pos && name@.len() == 0,
                e == pos ==> name@.len() == 0,
                entered && !self.is_delim_at(pos + 1, '.') && !self.is_ident_at(pos + 1) && e > pos
                    ==> e == pos + 1 && name@ == seq![self.ident_at(pos as int)],
                forall|k: int| 0 <= k < name@.len() ==> exists|i: int| pos <= i < e
                    && self.is_ident_at(i) && #[trigger] name@[k] == self.ident_at(i),
            decreases self.len() - e,
        {
            let ident = self.ident_node(e);
            let ghost old_name = name@;
            name.push(ident);
            proof {
                assert forall|k: int| 0 <= k < name@.len() implies exists|i: int| pos <= i < e + 1
                    && self.is_ident_at(i) && #[trigger] name@[k] == self.ident_at(i) by {
                    if k < old_name.len() {
                        assert(name@[k] == old_name[k]);
                    } else {
                        assert(name@[k] == self.ident_at(e as int));
                    }
                }
            }
            e = e + 1;
            if self.is_delim(e, '.') {
                e = e + 1;
            }
        }
        if !entered && e < self.input.len() {
            e = e + 1;
        }
        if e == pos {
            let lo = self.cur_lo(pos);
            return (LayerName { span: crate::token::Span { lo, hi: lo }, name }, e);
        }
        let span = self.span_from(pos, e);
        (LayerName { span, name }, e)
    }

    /// `<keyframes-name>`: a custom identifier other than `none`, a string,
    /// or, with CSS modules, `:local(name)`, `:global(name)`,
    /// `:local name` or `:global name`.
    pub fn parse_keyframes_name(&self, pos: usize) -> (r: PResult<KeyframesName>)
        requires
            self.wf(),
            pos <= self.len(),
        ensures
            r matches Err(err) ==> !(err.kind is Ignore),
            self.is_keyword_at(pos as int, "none"@) && !(pos < self.len() && self.tok(pos as int) is Colon)
                ==> r == Err::<(KeyframesName, usize), ParseError>(ParseError {
                    span: self.input@[pos as int].span,
                    kind: ErrorKind::InvalidCustomIdent(self.ident_at(pos as int).value),
                }),
            self.is_ident_at(pos as int) ==> (r is Ok <==> (!keyword_eq(self.ident_value_at(pos as int), "none"@)
                && !is_reserved_ident(self.ident_value_at(pos as int)))),
            self.is_ident_at(pos as int) && r is Ok ==> r->Ok_0 == (KeyframesName::CustomIdent(self.ident_at(pos as int)), (pos + 1) as usize),
            self.is_str_at(pos as int) ==> r is Ok && r->Ok_0 == (KeyframesName::Str(self.str_at(pos as int)), (pos + 1) as usize),
            r is Ok ==> self.is_ident_at(pos as int) || self.is_str_at(pos as int)
                || (self.css_modules && pos < self.len() && self.tok(pos as int) is Colon),
            r matches Ok((v, e)) ==> pos < e <= self.len() && self.within(v.span(), pos as int, e as int),
    {
        if self.css_modules && self.is_colon(pos) {
            let p = pos + 1;
            if p < self.input.len() {
                match &self.input[p].token {
                    Token::Function { value, raw } => {
                        if matches_keyword(value.as_str(), "local") || matches_keyword(value.as_str(), "global") {
                            let pseudo = Ident { span: self.function_name_span_exec(p), value: value.clone(), raw: raw.clone() };
                            let q = self.skip_ws(p + 1);
                            let (name, e) = self.parse_custom_ident(q)?;
                            let q2 = self.skip_ws(e);
                            if !self.is_rparen(q2) {
                                return Err(self.error_here(q2, ErrorKind::Expected("')' token")));
                            }
                            let span = self.span_from(pos, q2 + 1);
                            return Ok((KeyframesName::PseudoFunction { span, pseudo, name }, q2 + 1));
                        }
                    },
                    Token::Ident { value, .. } => {
                        if matches_keyword(value.as_str(), "local") || matches_keyword(value.as_str(), "global") {
                            let pseudo = self.ident_node(p);
                            let q = self.skip_ws(p + 1);
                            let (name, e) = self.parse_custom_ident(q)?;
                            let span = self.span_from(pos, e);
                            return Ok((KeyframesName::PseudoPrefix { span, pseudo, name }, e));
                        }
                    },
                    _ => {},
                }
            }
            return Err(self.error_here(p, ErrorKind::Expected("ident or function (local or scope) token")));
        }
        if self.is_ident(pos) {
            let ident = self.ident_node(pos);
            if matches_keyword(ident.value.as_str(), "none") {
                let span = ident.span;
                return Err(ParseError { span, kind: ErrorKind::InvalidCustomIdent(ident.value) });
            }
            let (ident, e) = self.parse_custom_ident(pos)?;
            return Ok((KeyframesName::CustomIdent(ident), e));
        }
        if pos < self.input.len() && matches!(self.input[pos].token, Token::Str { .. }) {
            let (s, e) = self.parse_str(pos)?;
            return Ok((KeyframesName::Str(s), e));
        }
        Err(self.error_here(pos, ErrorKind::Expected("ident or string")))
    }

    /// `:left`, `:right`, `:first` or `:blank`.
    pub fn parse_page_selector_pseudo(&self, pos: usize) -> (r: PResult<PageSelectorPseudo>)
        requires
            self.wf(),
            pos <= self.len(),
        ensures
            r is Ok <==> (pos < self.len() && self.tok(pos as int) is Colon && self.is_ident_at(pos + 1)
                && is_page_pseudo_name(self.ident_value_at(pos + 1))),
            r matches Ok((v, e)) ==> e == pos + 2 && v.value == self.ident_at(pos + 1)
                && self.within(v.span, pos as int, e as int),
    {
        if !self.is_colon(pos) {
            return Err(self.error_here(pos, ErrorKind::Expected("':' token")));
        }
        let p = pos + 1;
        if self.is_ident(p) {
            let value = self.ident_node(p);
            let v = value.value.as_str();
            if matches_keyword(v, "left") || matches_keyword(v, "right") || matches_keyword(v, "first")
                || matches_keyword(v, "blank") {
                let span = self.span_from(pos, p + 1);
                return Ok((PageSelectorPseudo { span, value }, p + 1));
            }
        }
        Err(self.error_here(p, ErrorKind::Expected("'left', 'right', 'first' or 'blank' ident")))
    }

    /// `<page-selector>`: an optional page type, then pseudo-pages. It must
    /// consume at least one token.
    pub fn parse_page_selector(&self, pos: usize) -> (r: PResult<PageSelector>)
        requires
            self.wf(),
            pos <= self.len(),
        ensures
            r matches Ok((v, e)) ==> pos < e <= self.len() && self.within(v.span, pos as int, e as int)
                && (v.page_type is Some || v.pseudos is Some),
            ({
                let s = self.next_significant(pos as int);
                self.is_ident_at(s) && !(s + 1 < self.len() && self.tok(s + 1) is Colon)
            }) ==> (r matches Ok((v, e)) && e == self.next_significant(pos as int) + 1
                && v.page_type == Some(self.ident_at(self.next_significant(pos as int))) && v.pseudos is None),
            ({
                let s = self.next_significant(pos as int);
                s < self.len() && self.tok(s) is Colon && self.is_ident_at(s + 1)
                    && is_page_pseudo_name(self.ident_value_at(s + 1)) && !(s + 2 < self.len() && self.tok(s + 2) is Colon)
            }) ==> (r matches Ok((v, e)) && e == self.next_significant(pos as int) + 2 && v.page_type is None
                && (v.pseudos matches Some(ps) && ps@.len() == 1)),
    {
        let start = self.skip_ws(pos);
        let mut e = start;
        let mut page_type: Option<Ident> = None;
        if self.is_ident(start) {
            page_type = Some(self.ident_node(start));
            e = start + 1;
        }
        let mut pseudos: Option<Vec<PageSelectorPseudo>> = None;
        let ghost type_form = self.is_ident_at(start as int) && !(start + 1 < self.len() && self.tok(start + 1) is Colon);
        let ghost pseudo_form = {
            let s = start as int;
            s < self.len() && self.tok(s) is Colon && self.is_ident_at(s + 1)
                && is_page_pseudo_name(self.ident_value_at(s + 1)) && !(s + 2 < self.len() && self.tok(s + 2) is Colon)
        };
        if self.is_colon(e) {
            let mut list: Vec<PageSelectorPseudo> = Vec::new();
            while self.is_colon(e)
                invariant
                    self.wf(),
                    start <= e <= self.len(),
                    page_type is None && e == start ==> list@.len() == 0,
                    page_type is None && e == start + 2 ==> list@.len() == 1,
                    page_type is None ==> e == start || e >= start + 2,
                    start == self.next_significant(pos as int),
                    page_type is Some ==> page_type == Some(self.ident_at(start as int)) && e >= start + 1,
                    page_type is None ==> !self.is_ident_at(start as int),
                    pseudo_form ==> e == start || e == start + 2,
                    type_form ==> e == start + 1,
                    type_form == (self.is_ident_at(start as int) && !(start + 1 < self.len() && self.tok(start + 1) is Colon)),
                    pseudo_form == ({
                        let s = start as int;
                        s < self.len() && self.tok(s) is Colon && self.is_ident_at(s + 1)
                            && is_page_pseudo_name(self.ident_value_at(s + 1)) && !(s + 2 < self.len() && self.tok(s + 2) is Colon)
                    }),
                decreases self.len() - e,
            {
                let (pseudo, next) = self.parse_page_selector_pseudo(e)?;
                list.push(pseudo);
                e = next;
            }
            pseudos = Some(list);
        }
        if e == start {
            return Err(self.error_here(start, ErrorKind::Expected("page type or pseudo-page")));
        }
        let span = self.span_from(start, e);
        proof {
            self.lemma_within_widen(span, start as int, e as int, pos as int, e as int);
        }
        Ok((PageSelector { span, page_type, pseudos }, e))
    }

    /// `<page-selector-list>`: comma-separated page selectors.
    pub fn parse_page_selector_list(&self, pos: usize) -> (r: PResult<PageSelectorList>)
        requires
            self.wf(),
            pos <= self.len(),
        ensures
            r matches Ok((v, e)) ==> pos < e <= self.len() && self.within(v.span, pos as int, e as int)
                && v.selectors@.len() > 0
                && forall|k: int| 0 <= k < v.selectors@.len() ==> v.span.encloses(#[trigger] v.selectors@[k].span),
            ({
                let s = self.next_significant(pos as int);
                self.is_ident_at(s) && !(s + 1 < self.len() && self.tok(s + 1) is Colon)
                    && !(self.next_significant(s + 1) < self.len() && self.tok(self.next_significant(s + 1)) is Comma)
            }) ==> (r matches Ok((v, e)) && e == self.next_significant(pos as int) + 1 && v.selectors@.len() == 1),
    {
        let ghost s = self.next_significant(pos as int);
        let ghost single = self.is_ident_at(s) && !(s + 1 < self.len() && self.tok(s + 1) is Colon)
            && !(self.next_significant(s + 1) < self.len() && self.tok(self.next_significant(s + 1)) is Comma);
        let (first, mut e) = self.parse_page_selector(pos)?;
        let lo = first.span.lo;
        let mut hi = first.span.hi;
        let mut selectors: Vec<PageSelector> = Vec::new();
        selectors.push(first);
        loop
            invariant
                self.wf(),
                pos < e <= self.len(),
                selectors@.len() > 0,
                self.lo_at(pos as int) <= lo <= hi <= self.end_at(e as int),
                forall|k: int| 0 <= k < selectors@.len() ==> lo <= (#[trigger] selectors@[k]).span.lo
                    && selectors@[k].span.lo <= selectors@[k].span.hi && selectors@[k].span.hi <= hi,
                single ==> e == s + 1 && selectors@.len() == 1,
                single == (self.is_ident_at(s) && !(s + 1 < self.len() && self.tok(s + 1) is Colon)
                    && !(self.next_significant(s + 1) < self.len() && self.tok(self.next_significant(s + 1)) is Comma)),
                s == self.next_significant(pos as int),
            decreases self.len() - e,
        {
            let p = self.skip_ws(e);
            if !self.is_comma(p) {
                break;
            }
            let q = self.skip_ws(p + 1);
            let (sel, next) = self.parse_page_selector(q)?;
            proof {
                self.lemma_order(e as int, q as int);
                self.lemma_order(pos as int, e as int);
                self.lemma_order(q as int, next as int);
                self.lemma_order(e as int, next as int);
            }
            hi = sel.span.hi;
            selectors.push(sel);
            e = next;
        }
        Ok((PageSelectorList { span: crate::token::Span { lo, hi }, selectors }, e))
    }

    /// A family name: a string, or identifiers separated by whitespace.
    pub fn parse_family_name(&self, pos: usize) -> (r: PResult<FamilyName>)
        requires
            self.wf(),
            pos <= self.len(),
        ensures
            r is Ok <==> (self.is_str_at(pos as int) || self.is_ident_at(pos as int)),
            r matches Ok((v, e)) ==> pos < e <= self.len() && match v {
                FamilyName::Str(s) => self.is_str_at(pos as int) && s == self.str_at(pos as int) && e == pos + 1,
                FamilyName::Idents { value, .. } => self.is_ident_at(pos as int) && value@.len() > 0
                    && value@[0] == self.ident_at(pos as int),
            },
            self.is_ident_at(pos as int) && !self.is_ident_at(self.next_significant(pos + 1))
                ==> (r matches Ok((_, e)) && e == pos + 1),
    {
        if self.is_ident(pos) {
            let mut value: Vec<Ident> = Vec::new();
            value.push(self.ident_node(pos));
            let mut e = pos + 1;
            loop
                invariant
                    self.wf(),
                    pos < e <= self.len(),
                    value@.len() > 0,
                    value@[0] == self.ident_at(pos as int),
                    !self.is_ident_at(self.next_significant(pos + 1)) ==> e == pos + 1,
                decreases self.len() - e,
            {
                let p = self.skip_ws(e);
                if !self.is_ident(p) {
                    break;
                }
                value.push(self.ident_node(p));
                e = p + 1;
            }
            let span = self.span_from(pos, e);
            return Ok((FamilyName::Idents { span, value }, e));
        }
        let (s, e) = self.parse_str(pos)?;
        Ok((FamilyName::Str(s), e))
    }

    /// Comma-separated family names.
    pub fn parse_font_feature_values_prelude(&self, pos: usize) -> (r: PResult<FontFeatureValuesPrelude>)
        requires
            self.wf(),
            pos <= self.len(),
        ensures
            r matches Ok((v, e)) ==> pos < e <= self.len() && v.font_family@.len() > 0
                && self.within(v.span, pos as int, e as int),
            (self.is_str_at(pos as int) || (self.is_ident_at(pos as int) && !self.is_ident_at(self.next_significant(pos + 1))))
                && !(self.next_significant(pos + 1) < self.len() && self.tok(self.next_significant(pos + 1)) is Comma)
                ==> (r matches Ok((v, e)) && v.font_family@.len() == 1),
    {
        let ghost single = (self.is_str_at(pos as int) || (self.is_ident_at(pos as int)
            && !self.is_ident_at(self.next_significant(pos + 1))))
            && !(self.next_significant(pos + 1) < self.len() && self.tok(self.next_significant(pos + 1)) is Comma);
        let (first, mut e) = self.parse_family_name(pos)?;
        let mut font_family: Vec<FamilyName> = Vec::new();
        font_family.push(first);
        loop
            invariant
                self.wf(),
                pos < e <= self.len(),
                font_family@.len() > 0,
                single ==> font_family@.len() == 1 && e == pos + 1,
                single == ((self.is_str_at(pos as int) || (self.is_ident_at(pos as int)
                    && !self.is_ident_at(self.next_significant(pos + 1))))
                    && !(self.next_significant(pos + 1) < self.len() && self.tok(self.next_significant(pos + 1)) is Comma)),
            decreases self.len() - e,
        {
            let p = self.skip_ws(e);
            if !self.is_comma(p) {
                break;
            }
            let q = self.skip_ws(p + 1);
            let (name, next) = self.parse_family_name(q)?;
            font_family.push(name);
            e = next;
        }
        let span = self.span_from(pos, e);
        Ok((FontFeatureValuesPrelude { span, font_family }, e))
    }
}

} // verus!
