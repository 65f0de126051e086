//! Condition grammars: media, supports and container conditions, the
//! features inside them, media queries and media query lists.
use vstd::prelude::*;
use crate::token::{Span, Token, keyword_eq, matches_keyword};
use crate::ast::{
    CombinedCondition, Condition, ConditionFamily, ConditionItem, ContainerCondition, Declaration,
    ErrorKind, Feature, FeatureValue, GeneralEnclosed, Ident, InParens, MediaQuery, MediaQueryList,
    Numeric, ParseError, RangeComparison, Ratio, SupportsFeature, combinators_pure, condition_wf,
    in_parens_wf, item_wf, media_queries_wf, same_direction, condition_spans_nested,
    in_parens_spans_nested, item_spans_nested,
};
use crate::parser::Parser;
use crate::names::{PResult, is_reserved_ident};

verus! {

/// The mathematical functions accepted as media feature values.
pub open spec fn is_math_function(v: Seq<char>) -> bool {
    ||| keyword_eq(v, "calc"@) ||| keyword_eq(v, "-moz-calc"@) ||| keyword_eq(v, "-webkit-calc"@)
    ||| keyword_eq(v, "min"@) ||| keyword_eq(v, "max"@) ||| keyword_eq(v, "clamp"@)
    ||| keyword_eq(v, "round"@) ||| keyword_eq(v, "mod"@) ||| keyword_eq(v, "rem"@)
    ||| keyword_eq(v, "sin"@) ||| keyword_eq(v, "cos"@) ||| keyword_eq(v, "tan"@)
    ||| keyword_eq(v, "asin"@) ||| keyword_eq(v, "acos"@) ||| keyword_eq(v, "atan"@)
    ||| keyword_eq(v, "atan2"@) ||| keyword_eq(v, "pow"@) ||| keyword_eq(v, "sqrt"@)
    ||| keyword_eq(v, "hypot"@) ||| keyword_eq(v, "log"@) ||| keyword_eq(v, "exp"@)
    ||| keyword_eq(v, "abs"@) ||| keyword_eq(v, "sign"@)
}

fn math_function(v: &str) -> (r: bool)
    ensures
        r == is_math_function(v@),
{
    matches_keyword(v, "calc") || matches_keyword(v, "-moz-calc") || matches_keyword(v, "-webkit-calc")
        || matches_keyword(v, "min") || matches_keyword(v, "max") || matches_keyword(v, "clamp")
        || matches_keyword(v, "round") || matches_keyword(v, "mod") || matches_keyword(v, "rem")
        || matches_keyword(v, "sin") || matches_keyword(v, "cos") || matches_keyword(v, "tan")
        || matches_keyword(v, "asin") || matches_keyword(v, "acos") || matches_keyword(v, "atan")
        || matches_keyword(v, "atan2") || matches_keyword(v, "pow") || matches_keyword(v, "sqrt")
        || matches_keyword(v, "hypot") || matches_keyword(v, "log") || matches_keyword(v, "exp")
        || matches_keyword(v, "abs") || matches_keyword(v, "sign")
}

/// Whether `<` / `<=` and `>` / `>=` pairs point the same way.
pub fn comparisons_agree(a: RangeComparison, b: RangeComparison) -> (r: bool)
    ensures
        r == same_direction(a, b),
{
    match (a, b) {
        (RangeComparison::Lt, RangeComparison::Lt) | (RangeComparison::Lt, RangeComparison::Le)
        | (RangeComparison::Le, RangeComparison::Lt) | (RangeComparison::Le, RangeComparison::Le)
        | (RangeComparison::Gt, RangeComparison::Gt) | (RangeComparison::Gt, RangeComparison::Ge)
        | (RangeComparison::Ge, RangeComparison::Gt) | (RangeComparison::Ge, RangeComparison::Ge) => true,
        _ => false,
    }
}

/// Identifiers that cannot be a media type.
pub open spec fn is_media_type_keyword(v: Seq<char>) -> bool {
    ||| keyword_eq(v, "not"@) ||| keyword_eq(v, "and"@) ||| keyword_eq(v, "or"@)
    ||| keyword_eq(v, "only"@) ||| keyword_eq(v, "layer"@)
}

/// The grammar a parenthesised condition is read under inside a condition
/// of the given family.
pub open spec fn inner_family(f: ConditionFamily) -> ConditionFamily {
    match f {
        ConditionFamily::MediaWithoutOr => ConditionFamily::Media,
        _ => f,
    }
}

impl Parser {
    /// A feature value of one token: an identifier or a dimension.
    pub open spec fn is_single_value_at(&self, i: int) -> bool {
        self.is_ident_at(i) || (0 <= i < self.len() && self.tok(i) is Dimension)
    }

    pub open spec fn is_lparen_at(&self, i: int) -> bool {
        0 <= i < self.len() && self.tok(i) is LParen
    }

    pub open spec fn is_rparen_at(&self, i: int) -> bool {
        0 <= i < self.len() && self.tok(i) is RParen
    }

    /// The comparison written at `i`, and the position after it.
    pub open spec fn comparison_at(&self, i: int, allow_eq: bool) -> Option<(RangeComparison, int)> {
        if self.is_delim_at(i, '<') {
            if self.is_delim_at(i + 1, '=') { Some((RangeComparison::Le, i + 2)) } else { Some((RangeComparison::Lt, i + 1)) }
        } else if self.is_delim_at(i, '>') {
            if self.is_delim_at(i + 1, '=') { Some((RangeComparison::Ge, i + 2)) } else { Some((RangeComparison::Gt, i + 1)) }
        } else if allow_eq && self.is_delim_at(i, '=') {
            Some((RangeComparison::Eq, i + 1))
        } else {
            None
        }
    }

    /// `( name )`: the position after its `)`.
    pub open spec fn boolean_feature_end(&self, pos: int) -> Option<int> {
        let a = self.next_significant(pos + 1);
        let b = self.next_significant(a + 1);
        if self.is_lparen_at(pos) && self.is_ident_at(a) && self.is_rparen_at(b) { Some(b + 1) } else { None }
    }

    /// `( name : value )` with a one-token value.
    pub open spec fn plain_feature_end(&self, pos: int) -> Option<int> {
        let a = self.next_significant(pos + 1);
        let b = self.next_significant(a + 1);
        let c = self.next_significant(b + 1);
        let d = self.next_significant(c + 1);
        if self.is_lparen_at(pos) && self.is_ident_at(a) && 0 <= b < self.len() && self.tok(b) is Colon
            && self.is_single_value_at(c) && self.is_rparen_at(d) { Some(d + 1) } else { None }
    }

    /// `( value op value )` with one-token values: the operator and the end.
    pub open spec fn range_feature(&self, pos: int) -> Option<(RangeComparison, int)> {
        let a = self.next_significant(pos + 1);
        let b = self.next_significant(a + 1);
        match self.comparison_at(b, true) {
            Some((c, j)) => {
                let m = self.next_significant(j);
                let d = self.next_significant(m + 1);
                if self.is_lparen_at(pos) && self.is_single_value_at(a) && self.is_single_value_at(m)
                    && self.is_rparen_at(d) { Some((c, d + 1)) } else { None }
            },
            None => None,
        }
    }

    /// `( value op name op value )` with one-token values: both operators,
    /// where the name stands, and the end.
    pub open spec fn interval_feature(&self, pos: int) -> Option<(RangeComparison, RangeComparison, int, int)> {
        let a = self.next_significant(pos + 1);
        let b = self.next_significant(a + 1);
        match self.comparison_at(b, true) {
            Some((c1, j)) => {
                let m = self.next_significant(j);
                let f = self.next_significant(m + 1);
                match self.comparison_at(f, false) {
                    Some((c2, k)) => {
                        let g = self.next_significant(k);
                        let h = self.next_significant(g + 1);
                        if self.is_lparen_at(pos) && self.is_single_value_at(a) && self.is_ident_at(m)
                            && self.is_single_value_at(g) && self.is_rparen_at(h) { Some((c1, c2, m, h + 1)) } else { None }
                    },
                    None => None,
                }
            },
            None => None,
        }
    }

    /// One of the simple feature forms above: where it ends.
    pub open spec fn simple_feature_end(&self, pos: int) -> Option<int> {
        if self.boolean_feature_end(pos) is Some {
            self.boolean_feature_end(pos)
        } else if self.plain_feature_end(pos) is Some {
            self.plain_feature_end(pos)
        } else if self.range_feature(pos) is Some {
            Some(self.range_feature(pos)->Some_0.1)
        } else {
            match self.interval_feature(pos) {
                Some((c1, c2, _, end)) => if same_direction(c1, c2) { Some(end) } else { None },
                None => None,
            }
        }
    }

    /// `( name : value )` with a one-token value, read as a declaration.
    pub open spec fn supports_declaration_end(&self, pos: int) -> Option<int> {
        let a = self.next_significant(pos + 1);
        let b = self.next_significant(a + 1);
        let c = self.next_significant(b + 1);
        let d = self.next_significant(c + 1);
        if self.is_lparen_at(pos) && self.is_ident_at(a) && 0 <= b < self.len() && self.tok(b) is Colon
            && self.is_single_value_at(c) && self.is_rparen_at(d) { Some(d + 1) } else { None }
    }

    /// A simple parenthesised operand of a condition of the family.
    pub open spec fn simple_operand_end(&self, pos: int, family: ConditionFamily) -> Option<int> {
        if family is Supports { self.supports_declaration_end(pos) } else { self.simple_feature_end(pos) }
    }

    /// `kw` operand, `kw` operand, ... from `cur`, each operand simple:
    /// where the chain ends and how many operands it has.
    pub open spec fn operand_chain(&self, cur: int, kw: Seq<char>, family: ConditionFamily) -> Option<(int, nat)>
        decreases self.len() - cur,
    {
        if self.is_keyword_at(cur, kw) {
            match self.simple_operand_end(self.next_significant(cur + 1), family) {
                Some(e) => if cur < self.next_significant(e) <= self.len() {
                    match self.operand_chain(self.next_significant(e), kw, family) {
                        Some((end, n)) => Some((end, n + 1)),
                        None => None,
                    }
                } else {
                    None
                },
                None => None,
            }
        } else {
            Some((cur, 0))
        }
    }

    /// A condition of simple operands from `pos`: where it ends, and how
    /// many items it has.
    pub open spec fn simple_condition(&self, pos: int, family: ConditionFamily) -> Option<(int, nat)> {
        let start = self.next_significant(pos);
        if self.is_keyword_at(start, "not"@) {
            match self.simple_operand_end(self.next_significant(start + 1), family) {
                Some(e) => Some((e, 1)),
                None => None,
            }
        } else {
            match self.simple_operand_end(start, family) {
                Some(e1) => {
                    let c = self.next_significant(e1);
                    if self.is_keyword_at(c, "and"@) {
                        match self.operand_chain(c, "and"@, family) { Some((end, n)) => Some((end, n + 1)), None => None }
                    } else if self.is_keyword_at(c, "or"@) && !(family is MediaWithoutOr) {
                        match self.operand_chain(c, "or"@, family) { Some((end, n)) => Some((end, n + 1)), None => None }
                    } else {
                        Some((c, 1))
                    }
                },
                None => None,
            }
        }
    }

    /// A media query of simple parts from `pos`: an optional `not` / `only`,
    /// a media type and an optional `and` condition, or a condition; where
    /// it ends.
    pub open spec fn simple_media_query(&self, pos: int) -> Option<int> {
        let modified = self.is_keyword_at(pos, "not"@) || self.is_keyword_at(pos, "only"@);
        let p = if modified { self.next_significant(pos + 1) } else { pos };
        if self.is_ident_at(p) {
            if is_media_type_keyword(self.ident_value_at(p)) {
                None
            } else {
                let q = self.next_significant(p + 1);
                if self.is_keyword_at(q, "and"@) {
                    match self.simple_condition(self.next_significant(q + 1), ConditionFamily::MediaWithoutOr) {
                        Some((end, _)) => Some(end),
                        None => None,
                    }
                } else {
                    Some(p + 1)
                }
            }
        } else {
            let from = if self.is_keyword_at(pos, "not"@) { pos } else { p };
            match self.simple_condition(from, ConditionFamily::Media) {
                Some((end, _)) => Some(end),
                None => None,
            }
        }
    }

    /// `, query , query ...` after `e`, each query simple: where the list
    /// ends and how many queries follow.
    pub open spec fn query_chain(&self, e: int) -> Option<(int, nat)>
        decreases self.len() - e,
    {
        let p = self.next_significant(e);
        if p < self.len() && self.tok(p) is Comma {
            match self.simple_media_query(self.next_significant(p + 1)) {
                Some(e2) => if e < e2 <= self.len() {
                    match self.query_chain(e2) {
                        Some((end, n)) => Some((end, n + 1)),
                        None => None,
                    }
                } else {
                    None
                },
                None => None,
            }
        } else {
            Some((e, 0))
        }
    }

    /// A container condition of simple parts from `pos`: where it ends.
    pub open spec fn simple_container_condition(&self, pos: int) -> Option<int> {
        if self.is_ident_at(pos) && !self.is_keyword_at(pos, "not"@) {
            if is_reserved_ident(self.ident_value_at(pos)) {
                None
            } else {
                match self.simple_condition(self.next_significant(pos + 1), ConditionFamily::Container) {
                    Some((end, _)) => Some(end),
                    None => None,
                }
            }
        } else {
            match self.simple_condition(pos, ConditionFamily::Container) {
                Some((end, _)) => Some(end),
                None => None,
            }
        }
    }

    /// A comparison operator at `pos`: `<`, `<=`, `>`, `>=`, or, where
    /// `allow_eq`, `=`.
    fn parse_comparison(&self, pos: usize, allow_eq: bool) -> (r: Option<(RangeComparison, usize)>)
        requires
            self.wf(),
            pos <= self.len(),
        ensures
            r matches Some((c, e)) ==> pos < e <= self.len() && (allow_eq || !(c is Eq)),
            match r {
                Some((c, e)) => self.comparison_at(pos as int, allow_eq) == Some((c, e as int)),
                None => self.comparison_at(pos as int, allow_eq) is None,
            },
    {
        if self.is_delim(pos, '<') {
            if self.is_delim(pos + 1, '=') {
                Some((RangeComparison::Le, pos + 2))
            } else {
                Some((RangeComparison::Lt, pos + 1))
            }
        } else if self.is_delim(pos, '>') {
            if self.is_delim(pos + 1, '=') {
                Some((RangeComparison::Ge, pos + 2))
            } else {
                Some((RangeComparison::Gt, pos + 1))
            }
        } else if allow_eq && self.is_delim(pos, '=') {
            Some((RangeComparison::Eq, pos + 1))
        } else {
            None
        }
    }

    /// A media feature value: a number, a ratio `<number> / <number>`, an
    /// identifier, a dimension, or a call of a mathematical function.
    pub fn parse_feature_value(&self, pos: usize, errors: &mut Vec<ParseError>) -> (r: PResult<FeatureValue>)
        requires
            self.wf(),
            pos <= self.len(),
        ensures
            r matches Ok((v, e)) ==> pos < e <= self.len() && self.within(v.span(), pos as int, e as int),
            self.is_ident_at(pos as int) ==> r is Ok && r->Ok_0 == (FeatureValue::Ident(self.ident_at(pos as int)), (pos + 1) as usize),
            r matches Ok((FeatureValue::Ident(_), _)) ==> self.is_ident_at(pos as int),
            self.is_single_value_at(pos as int) ==> (r matches Ok((_, e)) && e == pos + 1),
            final(errors)@ == old(errors)@,
        decreases self.len() - pos, 3nat,
    {
        if pos < self.input.len() {
            match &self.input[pos].token {
                Token::Number { raw } => {
                    let left = Numeric { span: self.input[pos].span, raw: raw.clone() };
                    proof {
                        self.lemma_span_of(pos as int, pos + 1);
                    }
                    let p = self.skip_ws(pos + 1);
                    if self.is_delim(p, '/') {
                        let q = self.skip_ws(p + 1);
                        if q < self.input.len() {
                            match &self.input[q].token {
                                Token::Number { raw: right_raw } => {
                                    let right = Numeric { span: self.input[q].span, raw: right_raw.clone() };
                                    let span = self.span_from(pos, q + 1);
                                    return Ok((FeatureValue::Ratio(Ratio { span, left, right }), q + 1));
                                },
                                _ => {},
                            }
                        }
                        return Err(self.error_here(q, ErrorKind::Expected("number token")));
                    }
                    return Ok((FeatureValue::Number(left), pos + 1));
                },
                Token::Ident { .. } => {
                    return Ok((FeatureValue::Ident(self.ident_node(pos)), pos + 1));
                },
                Token::Dimension { .. } => {
                    let (d, e) = self.parse_dimension(pos)?;
                    return Ok((FeatureValue::Dimension(d), e));
                },
                Token::Function { value, .. } => {
                    if math_function(value.as_str()) {
                        let (f, e) = self.parse_function(pos, errors);
                        return Ok((FeatureValue::Function(Box::new(f)), e));
                    }
                },
                _ => {},
            }
        }
        Err(self.error_here(pos, ErrorKind::Expected("number, ident, dimension or function token")))
    }

    /// `<media-feature>` / `<size-feature>`: `(name)`, `(name: value)`,
    /// `(value op value)` or `(value op name op value)`, where the two
    /// operators of the last form point the same way.
    #[verifier::rlimit(80)]
    pub fn parse_feature(&self, pos: usize, errors: &mut Vec<ParseError>) -> (r: PResult<Feature>)
        requires
            self.wf(),
            pos <= self.len(),
        ensures
            r matches Ok((v, e)) ==> pos < e <= self.len() && self.within(v.span(), pos as int, e as int)
                && v.well_directed() && self.tok(e - 1) is RParen,
            r is Ok ==> pos < self.len() && self.tok(pos as int) is LParen,
            r matches Ok((Feature::Boolean { name, .. }, _)) ==> name == self.ident_at(self.next_significant(pos + 1)),
            r matches Ok((Feature::Plain { name, .. }, _)) ==> name == self.ident_at(self.next_significant(pos + 1)),
            self.boolean_feature_end(pos as int) matches Some(end) ==> (r matches Ok((Feature::Boolean { name, .. }, e))
                && e == end && name == self.ident_at(self.next_significant(pos + 1))),
            self.plain_feature_end(pos as int) matches Some(end) ==> (r matches Ok((Feature::Plain { name, .. }, e))
                && e == end && name == self.ident_at(self.next_significant(pos + 1))),
            self.range_feature(pos as int) matches Some((c, end)) ==> (r matches Ok((Feature::Range { comparison, .. }, e))
                && e == end && comparison == c),
            self.interval_feature(pos as int) matches Some((c1, c2, m, end)) ==> if same_direction(c1, c2) {
                r matches Ok((Feature::RangeInterval { left_comparison, name, right_comparison, .. }, e))
                    && e == end && left_comparison == c1 && right_comparison == c2 && name == self.ident_at(m)
            } else {
                r == Err::<(Feature, usize), ParseError>(ParseError {
                    span: self.input@[pos as int].span,
                    kind: ErrorKind::Expected("left comparison operator should be equal right comparison operator"),
                })
            },
            final(errors)@ == old(errors)@,
        decreases self.len() - pos, 1nat,
    {
        if !(pos < self.input.len() && matches!(self.input[pos].token, Token::LParen)) {
            return Err(self.error_here(pos, ErrorKind::Expected("'(' token")));
        }
        let fail_span = self.input[pos].span;
        let p = self.skip_ws(pos + 1);
        let (left, e1) = self.parse_feature_value(p, errors)?;
        let after_left = self.skip_ws(e1);
        if self.is_rparen(after_left) {
            let span = self.span_from(pos, after_left + 1);
            return match left {
                FeatureValue::Ident(name) => Ok((Feature::Boolean { span, name }, after_left + 1)),
                _ => Err(ParseError { span: fail_span, kind: ErrorKind::Expected("identifier value") }),
            };
        }
        if self.is_colon(after_left) {
            let name = match left {
                FeatureValue::Ident(name) => name,
                _ => {
                    return Err(ParseError { span: fail_span, kind: ErrorKind::Expected("identifier value") });
                },
            };
            let value_at = self.skip_ws(after_left + 1);
            let (value, e3) = self.parse_feature_value(value_at, errors)?;
            let plain_close = self.skip_ws(e3);
            if !self.is_rparen(plain_close) {
                return Err(self.error_here(plain_close, ErrorKind::Expected("')' token")));
            }
            let span = self.span_from(pos, plain_close + 1);
            return Ok((Feature::Plain { span, name, value }, plain_close + 1));
        }
        let (comparison, c1) = match self.parse_comparison(after_left, true) {
            Some(found) => found,
            None => {
                return Err(ParseError { span: fail_span, kind: ErrorKind::Expected("identifier value") });
            },
        };
        let center_at = self.skip_ws(c1);
        let (center, e5) = self.parse_feature_value(center_at, errors)?;
        let after_center = self.skip_ws(e5);
        if self.is_rparen(after_center) {
            let span = self.span_from(pos, after_center + 1);
            return Ok((Feature::Range { span, left, comparison, right: center }, after_center + 1));
        }
        let (right_comparison, c2) = match self.parse_comparison(after_center, false) {
            Some(found) => found,
            None => {
                return Err(ParseError { span: fail_span, kind: ErrorKind::Expected("'>' or '<' operators") });
            },
        };
        let right_at = self.skip_ws(c2);
        let (right, e7) = self.parse_feature_value(right_at, errors)?;
        let interval_close = self.skip_ws(e7);
        if !self.is_rparen(interval_close) {
            return Err(self.error_here(interval_close, ErrorKind::Expected("')' token")));
        }
        let name = match center {
            FeatureValue::Ident(name) => name,
            _ => {
                return Err(ParseError { span: fail_span, kind: ErrorKind::Expected("identifier value") });
            },
        };
        if !comparisons_agree(comparison, right_comparison) {
            return Err(ParseError {
                span: fail_span,
                kind: ErrorKind::Expected("left comparison operator should be equal right comparison operator"),
            });
        }
        let span = self.span_from(pos, interval_close + 1);
        Ok((Feature::RangeInterval { span, left, left_comparison: comparison, name, right_comparison, right }, interval_close + 1))
    }

    /// `<supports-feature>`: `( <declaration> )` or `selector( ... )`.
    pub fn parse_supports_feature(&self, pos: usize, errors: &mut Vec<ParseError>) -> (r: PResult<SupportsFeature>)
        requires
            self.wf(),
            pos <= self.len(),
        ensures
            r matches Ok((v, e)) ==> pos < e <= self.len() && self.within(v.span(), pos as int, e as int),
            r matches Ok((v, _)) ==> match v {
                SupportsFeature::Declaration(_) => self.tok(pos as int) is LParen,
                SupportsFeature::Function(f) => self.tok(pos as int) is Function
                    && keyword_eq(f.name.value@, "selector"@),
            },
            self.supports_declaration_end(pos as int) matches Some(end) ==> (r matches Ok((SupportsFeature::Declaration(_), e)) && e == end),
            final(errors)@ == old(errors)@,
        decreases self.len() - pos, 3nat,
    {
        if pos < self.input.len() {
            match &self.input[pos].token {
                Token::LParen => {
                    let p = self.skip_ws(pos + 1);
                    let (decl, e) = self.parse_declaration(p, errors)?;
                    let q = self.skip_ws(e);
                    if !self.is_rparen(q) {
                        return Err(self.error_here(q, ErrorKind::Expected("')' token")));
                    }
                    let span = self.span_from(pos, q + 1);
                    return Ok((SupportsFeature::Declaration(Declaration { span, ..decl }), q + 1));
                },
                Token::Function { value, .. } => {
                    if matches_keyword(value.as_str(), "selector") {
                        let (f, e) = self.parse_function(pos, errors);
                        return Ok((SupportsFeature::Function(f), e));
                    }
                },
                _ => {},
            }
        }
        Err(self.error_here(pos, ErrorKind::Expected("'(' or 'function' token")))
    }

    /// `<media-in-parens>`, `<supports-in-parens>` or `<query-in-parens>`:
    /// tries the feature grammar, then `( <condition> )`, then
    /// `<general-enclosed>`, each from the same position.
    pub fn parse_in_parens(&self, pos: usize, family: ConditionFamily, errors: &mut Vec<ParseError>) -> (r: PResult<InParens>)
        requires
            self.wf(),
            pos <= self.len(),
        ensures
            r matches Ok((v, e)) ==> pos < e <= self.len() && self.within(v.span(), pos as int, e as int),
            r matches Ok((v, _)) ==> in_parens_wf(v) && in_parens_spans_nested(v),
            self.simple_operand_end(pos as int, family) matches Some(end) ==> (r matches Ok((_, e)) && e == end),
            pos < self.len() && self.tok(pos as int) is Function ==> r is Ok,
            final(errors)@ == old(errors)@,
        decreases self.len() - pos, 4nat,
    {
        if matches!(family, ConditionFamily::Supports) {
            if let Ok((f, e)) = self.parse_supports_feature(pos, errors) {
                return Ok((InParens::SupportsFeature(f), e));
            }
        } else {
            if let Ok((f, e)) = self.parse_feature(pos, errors) {
                return Ok((InParens::Feature(f), e));
            }
        }
        if pos < self.input.len() && matches!(self.input[pos].token, Token::LParen) {
            let inner = match family {
                ConditionFamily::MediaWithoutOr => ConditionFamily::Media,
                _ => family,
            };
            if let Ok((c, e)) = self.parse_condition(pos + 1, inner, errors) {
                if self.is_rparen(e) {
                    proof {
                        self.lemma_within_widen(c.span, pos + 1, e as int, pos as int, e + 1);
                    }
                    return Ok((InParens::Condition(Box::new(c)), e + 1));
                }
            }
        }
        let (g, e) = self.parse_general_enclosed(pos, errors)?;
        Ok((InParens::GeneralEnclosed(g), e))
    }

    /// `not`, `and` or `or` (the keyword `kw`), then its operand.
    pub fn parse_combined(&self, pos: usize, kw: &str, family: ConditionFamily, errors: &mut Vec<ParseError>) -> (r: PResult<CombinedCondition>)
        requires
            self.wf(),
            pos <= self.len(),
        ensures
            r matches Ok((v, e)) ==> pos < e <= self.len() && self.within(v.span, pos as int, e as int),
            r is Ok ==> self.is_keyword_at(pos as int, kw@),
            r matches Ok((v, _)) ==> v.keyword == self.ident_at(pos as int) && in_parens_wf(v.condition)
                && in_parens_spans_nested(v.condition) && v.span.encloses(v.condition.span()),
            self.is_keyword_at(pos as int, kw@) ==> (self.simple_operand_end(self.next_significant(pos + 1), family) matches Some(end)
                ==> (r matches Ok((_, e)) && e == end)),
            final(errors)@ == old(errors)@,
        decreases self.len() - pos, 5nat,
    {
        if !self.is_keyword(pos, kw) {
            return Err(self.error_here(pos, ErrorKind::Expected("ident (with 'not', 'and' or 'or' value) token")));
        }
        let keyword = self.ident_node(pos);
        let p = self.skip_ws(pos + 1);
        let (condition, e) = self.parse_in_parens(p, family, errors)?;
        let span = self.span_from(pos, e);
        proof {
            self.lemma_order(pos as int, p as int);
        }
        Ok((CombinedCondition { span, keyword, condition }, e))
    }

    /// A condition of the given family: `not X`, or `X` followed by `and`
    /// items only or by `or` items only (never `or` without it). The
    /// position returned is after any whitespace that follows.
    #[verifier::rlimit(60)]
    pub fn parse_condition(&self, pos: usize, family: ConditionFamily, errors: &mut Vec<ParseError>) -> (r: PResult<Condition>)
        requires
            self.wf(),
            pos <= self.len(),
        ensures
            r matches Ok((v, e)) ==> pos < e <= self.len() && self.within(v.span, pos as int, e as int)
                && combinators_pure(v.conditions@)
                && (family is MediaWithoutOr ==> forall|i: int| 0 <= i < v.conditions@.len() ==> !((#[trigger] v.conditions@[i]) is Or))
                && forall|i: int| 0 <= i < v.conditions@.len() ==> v.span.encloses(#[trigger] v.conditions@[i].span()),
            r matches Ok((v, _)) ==> (v.conditions@[0] is Not <==> self.is_keyword_at(self.next_significant(pos as int), "not"@)),
            r matches Ok((v, _)) ==> condition_wf(v) && condition_spans_nested(v),
            self.simple_condition(pos as int, family) matches Some((end, n)) ==> (r matches Ok((v, e)) && e == end
                && v.conditions@.len() == n),
            r matches Ok((v, _)) ==> forall|i: int| 0 <= i < v.conditions@.len() ==> match #[trigger] v.conditions@[i] {
                ConditionItem::Not(c) => keyword_eq(c.keyword.value@, "not"@),
                ConditionItem::And(c) => keyword_eq(c.keyword.value@, "and"@),
                ConditionItem::Or(c) => keyword_eq(c.keyword.value@, "or"@),
                ConditionItem::InParens(_) => true,
            },
            final(errors)@ == old(errors)@,
        decreases self.len() - pos, 6nat,
    {
        let start = self.skip_ws(pos);
        let mut conditions: Vec<ConditionItem> = Vec::new();
        if self.is_keyword(start, "not") {
            let (not, e) = self.parse_combined(start, "not", family, errors)?;
            let span = Span { lo: self.cur_lo(start), hi: not.span.hi };
            proof {
                self.lemma_order(pos as int, start as int);
                self.lemma_order(start as int, e as int);
            }
            conditions.push(ConditionItem::Not(Box::new(not)));
            return Ok((Condition { span, conditions }, e));
        }
        let (first, e) = self.parse_in_parens(start, family, errors)?;
        let lo = self.cur_lo(start);
        let mut hi = first.get_span().hi;
        conditions.push(ConditionItem::InParens(first));
        let mut cur = self.skip_ws(e);
        proof {
            self.lemma_order(pos as int, start as int);
            self.lemma_order(start as int, e as int);
            self.lemma_order(e as int, cur as int);
        }
        let ghost sc = self.simple_condition(pos as int, family);
        let is_and = self.is_keyword(cur, "and");
        let is_or = !is_and && !matches!(family, ConditionFamily::MediaWithoutOr) && self.is_keyword(cur, "or");
        proof {
            if sc is Some {
                assert(start == self.next_significant(pos as int));
                assert(cur == self.next_significant(e as int));
            }
        }
        if is_and || is_or {
            let kw = if is_and { "and" } else { "or" };
            while self.is_keyword(cur, kw)
                invariant
                    self.wf(),
                    pos <= start < cur <= self.len(),
                    self.lo_at(pos as int) <= lo == self.lo_at(start as int),
                    lo <= hi <= self.end_at(cur as int),
                    conditions@.len() >= 1,
                    conditions@[0] is InParens,
                    is_and ==> forall|i: int| 1 <= i < conditions@.len() ==> (#[trigger] conditions@[i]) is And,
                    kw@ == (if is_and { "and"@ } else { "or"@ }),
                    forall|i: int| 0 <= i < conditions@.len() ==> match #[trigger] conditions@[i] {
                        ConditionItem::Not(c) => keyword_eq(c.keyword.value@, "not"@),
                        ConditionItem::And(c) => keyword_eq(c.keyword.value@, "and"@),
                        ConditionItem::Or(c) => keyword_eq(c.keyword.value@, "or"@),
                        ConditionItem::InParens(_) => true,
                    },
                    !self.is_keyword_at(start as int, "not"@),
                    forall|i: int| 0 <= i < conditions@.len() ==> item_wf(#[trigger] conditions@[i]),
                    forall|i: int| 0 <= i < conditions@.len() ==> item_spans_nested(#[trigger] conditions@[i]),
                    !is_and ==> forall|i: int| 1 <= i < conditions@.len() ==> (#[trigger] conditions@[i]) is Or,
                    forall|i: int| 0 <= i < conditions@.len() ==> lo <= (#[trigger] conditions@[i]).span().lo
                        && conditions@[i].span().lo <= conditions@[i].span().hi && conditions@[i].span().hi <= hi,
                    errors@ == old(errors)@,
                    sc == self.simple_condition(pos as int, family),
                    sc matches Some((end, n)) ==> (self.operand_chain(cur as int, kw@, family) matches Some((end1, n1))
                        && end1 == end && n1 + conditions@.len() == n),
                decreases self.len() - cur,
            {
                let (item, e2) = self.parse_combined(cur, kw, family, errors)?;
                proof {
                    self.lemma_order(start as int, cur as int);
                    self.lemma_order(cur as int, e2 as int);
                }
                hi = item.span.hi;
                if is_and {
                    conditions.push(ConditionItem::And(Box::new(item)));
                } else {
                    conditions.push(ConditionItem::Or(Box::new(item)));
                }
                let next = self.skip_ws(e2);
                proof {
                    self.lemma_order(e2 as int, next as int);
                }
                cur = next;
            }
        }
        proof {
            self.lemma_order(start as int, cur as int);
        }
        Ok((Condition { span: Span { lo, hi }, conditions }, cur))
    }

    /// `<media-query>`: an optional `not` / `only`, a media type and an
    /// optional `and <media-condition-without-or>`; or a media condition.
    pub fn parse_media_query(&self, pos: usize, errors: &mut Vec<ParseError>) -> (r: PResult<MediaQuery>)
        requires
            self.wf(),
            pos <= self.len(),
        ensures
            r matches Ok((v, e)) ==> pos < e <= self.len() && self.within(v.span, pos as int, e as int),
            r matches Ok((v, _)) ==> (v.modifier matches Some(m) ==> m == self.ident_at(pos as int)
                && (keyword_eq(m.value@, "not"@) || keyword_eq(m.value@, "only"@))),
            r matches Ok((v, _)) ==> (v.media_type matches Some(t) ==> !is_media_type_keyword(t.value@)),
            r matches Ok((v, _)) ==> (v.media_type is None ==> v.condition is Some && v.modifier is None),
            r matches Ok((v, _)) ==> (v.keyword is Some <==> (v.media_type is Some && v.condition is Some)),
            r matches Ok((v, _)) ==> (v.condition matches Some(c) ==> condition_wf(c) && condition_spans_nested(c)),
            self.simple_media_query(pos as int) matches Some(end) ==> (r matches Ok((_, e)) && e == end),
            self.is_ident_at(pos as int) && !is_media_type_keyword(self.ident_value_at(pos as int))
                && !self.is_keyword_at(self.next_significant(pos + 1), "and"@) ==> (r matches Ok((v, e)) && e == pos + 1
                && v.media_type == Some(self.ident_at(pos as int)) && v.modifier is None && v.condition is None),
            ({
                let a = self.next_significant(pos + 1);
                (self.is_keyword_at(pos as int, "not"@) || self.is_keyword_at(pos as int, "only"@)) && self.is_ident_at(a)
                    && !is_media_type_keyword(self.ident_value_at(a)) && !self.is_keyword_at(self.next_significant(a + 1), "and"@)
            }) ==> (r matches Ok((v, e)) && e == self.next_significant(pos + 1) + 1
                && v.media_type == Some(self.ident_at(self.next_significant(pos + 1)))
                && v.modifier == Some(self.ident_at(pos as int)) && v.condition is None),
            final(errors)@ == old(errors)@,
        decreases self.len() - pos, 7nat,
    {
        let is_not = self.is_keyword(pos, "not");
        let mut p = pos;
        let mut modifier: Option<Ident> = None;
        if is_not || self.is_keyword(pos, "only") {
            modifier = Some(self.ident_node(pos));
            p = self.skip_ws(pos + 1);
        }
        if self.is_ident(p) {
            let v = match &self.input[p].token {
                Token::Ident { value, .. } => value.as_str(),
                _ => "",
            };
            if matches_keyword(v, "not") || matches_keyword(v, "and") || matches_keyword(v, "or")
                || matches_keyword(v, "only") || matches_keyword(v, "layer") {
                return Err(self.error_here(p, ErrorKind::Expected(
                    "ident (exclude the keywords 'only', 'not', 'and', 'or' and 'layer')",
                )));
            }
            let media_type = self.ident_node(p);
            let q = self.skip_ws(p + 1);
            if self.is_keyword(q, "and") {
                let keyword = self.ident_node(q);
                let q2 = self.skip_ws(q + 1);
                let (condition, e) = self.parse_condition(q2, ConditionFamily::MediaWithoutOr, errors)?;
                proof {
                    self.lemma_order(pos as int, q2 as int);
                    self.lemma_order(q2 as int, e as int);
                }
                let span = Span { lo: self.cur_lo(pos), hi: condition.span.hi };
                return Ok((MediaQuery {
                    span,
                    modifier,
                    media_type: Some(media_type),
                    keyword: Some(keyword),
                    condition: Some(condition),
                }, e));
            }
            let span = self.span_from(pos, p + 1);
            return Ok((MediaQuery { span, modifier, media_type: Some(media_type), keyword: None, condition: None }, p + 1));
        }
        if is_not {
            p = pos;
        }
        let (condition, e) = self.parse_condition(p, ConditionFamily::Media, errors)?;
        proof {
            self.lemma_order(pos as int, p as int);
            self.lemma_order(p as int, e as int);
        }
        let span = Span { lo: self.cur_lo(pos), hi: condition.span.hi };
        Ok((MediaQuery { span, modifier: None, media_type: None, keyword: None, condition: Some(condition) }, e))
    }

    /// `<media-query-list>`: comma-separated media queries.
    pub fn parse_media_query_list(&self, pos: usize, errors: &mut Vec<ParseError>) -> (r: PResult<MediaQueryList>)
        requires
            self.wf(),
            pos <= self.len(),
        ensures
            r matches Ok((v, e)) ==> pos < e <= self.len() && self.within(v.span, pos as int, e as int)
                && v.queries@.len() > 0
                && forall|k: int| 0 <= k < v.queries@.len() ==> v.span.encloses(#[trigger] v.queries@[k].span),
            r matches Ok((v, _)) ==> media_queries_wf(v),
            self.simple_media_query(self.next_significant(pos as int)) matches Some(e1) ==> (self.query_chain(e1) matches Some((end, n))
                ==> (r matches Ok((v, e)) && e == end && v.queries@.len() == n + 1)),
            final(errors)@ == old(errors)@,
        decreases self.len() - pos, 8nat,
    {
        let start = self.skip_ws(pos);
        let (first, mut e) = self.parse_media_query(start, errors)?;
        proof {
            self.lemma_order(pos as int, start as int);
            self.lemma_order(start as int, e as int);
        }
        let lo = first.span.lo;
        let mut hi = first.span.hi;
        let ghost chain = if self.simple_media_query(self.next_significant(pos as int)) is Some {
            self.query_chain(self.simple_media_query(self.next_significant(pos as int))->Some_0)
        } else {
            None
        };
        let mut queries: Vec<MediaQuery> = Vec::new();
        queries.push(first);
        loop
            invariant
                self.wf(),
                pos < e <= self.len(),
                queries@.len() > 0,
                self.lo_at(pos as int) <= lo <= hi <= self.end_at(e as int),
                forall|k: int| 0 <= k < queries@.len() ==> lo <= (#[trigger] queries@[k]).span.lo
                    && queries@[k].span.lo <= queries@[k].span.hi && queries@[k].span.hi <= hi,
                forall|k: int| 0 <= k < queries@.len() ==> ((#[trigger] queries@[k]).condition matches Some(c)
                    ==> condition_wf(c) && condition_spans_nested(c)),
                errors@ == old(errors)@,
                chain == (if self.simple_media_query(self.next_significant(pos as int)) is Some {
                    self.query_chain(self.simple_media_query(self.next_significant(pos as int))->Some_0) } else { None }),
                chain matches Some((end, n)) ==> (self.query_chain(e as int) matches Some((end1, n1))
                    && end1 == end && n1 + queries@.len() == n + 1),
            ensures
                !(self.next_significant(e as int) < self.len() && self.tok(self.next_significant(e as int)) is Comma),
            decreases self.len() - e,
        {
            let p = self.skip_ws(e);
            if !self.is_comma(p) {
                break;
            }
            let q = self.skip_ws(p + 1);
            let (query, next) = self.parse_media_query(q, errors)?;
            proof {
                self.lemma_order(e as int, q as int);
                self.lemma_order(pos as int, e as int);
                self.lemma_order(q as int, next as int);
                self.lemma_order(e as int, next as int);
            }
            hi = query.span.hi;
            queries.push(query);
            e = next;
        }
        Ok((MediaQueryList { span: Span { lo, hi }, queries }, e))
    }

    /// `@container` prelude: an optional container name (not `not`), then
    /// a container query.
    pub fn parse_container_condition(&self, pos: usize, errors: &mut Vec<ParseError>) -> (r: PResult<ContainerCondition>)
        requires
            self.wf(),
            pos <= self.len(),
        ensures
            r matches Ok((v, e)) ==> pos < e <= self.len() && self.within(v.span, pos as int, e as int),
            r matches Ok((v, _)) ==> condition_wf(v.query) && condition_spans_nested(v.query),
            self.simple_container_condition(pos as int) matches Some(end) ==> (r matches Ok((_, e)) && e == end),
            final(errors)@ == old(errors)@,
        decreases self.len() - pos, 7nat,
    {
        let mut p = pos;
        let mut name: Option<Ident> = None;
        if self.is_ident(pos) && !self.is_keyword(pos, "not") {
            let (n, e) = self.parse_custom_ident(pos)?;
            name = Some(n);
            p = self.skip_ws(e);
        }
        let (query, e) = self.parse_condition(p, ConditionFamily::Container, errors)?;
        proof {
            self.lemma_order(pos as int, p as int);
            self.lemma_order(p as int, e as int);
        }
        let span = Span { lo: self.cur_lo(pos), hi: query.span.hi };
        Ok((ContainerCondition { span, name, query }, e))
    }
}


} // verus!
