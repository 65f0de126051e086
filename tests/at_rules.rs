use css_at_rules::ast::{
    AtRule, AtRuleName, AtRulePrelude, BlockContentsGrammar, ComponentValue, ConditionItem, Ctx, ErrorKind,
    Feature, FeatureValue, ImportLayerName, ImportSupports, InParens, KeyframeSelector, KeyframesName,
    LayerPrelude, ParseError, RangeComparison, SupportsFeature, UrlOrStr,
};
use css_at_rules::parser::Parser;
use css_at_rules::token::{Span, Token, TokenAndSpan};

fn is_name_char(c: char) -> bool {
    c.is_ascii_alphanumeric() || c == '-' || c == '_'
}

/// A small tokenizer for ASCII test input.
fn tokenize(src: &str) -> Vec<TokenAndSpan> {
    let chars: Vec<char> = src.chars().collect();
    let n = chars.len();
    let mut out = Vec::new();
    let mut i = 0;
    while i < n {
        let start = i;
        let c = chars[i];
        let token = if c.is_whitespace() {
            while i < n && chars[i].is_whitespace() {
                i += 1;
            }
            Token::WhiteSpace
        } else if c == '@' {
            i += 1;
            while i < n && is_name_char(chars[i]) {
                i += 1;
            }
            let name: String = chars[start + 1..i].iter().collect();
            Token::AtKeyword { value: name.clone(), raw: name }
        } else if c == '"' || c == '\'' {
            i += 1;
            while i < n && chars[i] != c {
                i += 1;
            }
            i += 1;
            let raw: String = chars[start..i].iter().collect();
            let value: String = chars[start + 1..i - 1].iter().collect();
            Token::Str { value, raw }
        } else if c.is_ascii_digit() || (c == '.' && i + 1 < n && chars[i + 1].is_ascii_digit()) {
            while i < n && (chars[i].is_ascii_digit() || chars[i] == '.') {
                i += 1;
            }
            let num: String = chars[start..i].iter().collect();
            if i < n && chars[i] == '%' {
                i += 1;
                Token::Percentage { raw: format!("{}%", num) }
            } else if i < n && chars[i].is_ascii_alphabetic() {
                let u = i;
                while i < n && is_name_char(chars[i]) {
                    i += 1;
                }
                Token::Dimension { value: num, unit: chars[u..i].iter().collect() }
            } else {
                Token::Number { raw: num }
            }
        } else if c.is_ascii_alphabetic() || c == '_' || (c == '-' && i + 1 < n && (chars[i + 1].is_ascii_alphabetic() || chars[i + 1] == '-')) {
            while i < n && is_name_char(chars[i]) {
                i += 1;
            }
            let name: String = chars[start..i].iter().collect();
            if i < n && chars[i] == '(' {
                i += 1;
                let mut j = i;
                while j < n && chars[j].is_whitespace() {
                    j += 1;
                }
                if name.eq_ignore_ascii_case("url") && j < n && chars[j] != '"' && chars[j] != '\'' {
                    while i < n && chars[i] != ')' {
                        i += 1;
                    }
                    let value: String = chars[j..i].iter().collect();
                    i += 1;
                    Token::Url { value: value.trim().to_string(), raw: chars[start..i].iter().collect() }
                } else {
                    Token::Function { value: name.clone(), raw: name }
                }
            } else {
                Token::Ident { value: name.clone(), raw: name }
            }
        } else {
            i += 1;
            match c {
                ',' => Token::Comma,
                ':' => Token::Colon,
                ';' => Token::Semicolon,
                '{' => Token::LBrace,
                '}' => Token::RBrace,
                '(' => Token::LParen,
                ')' => Token::RParen,
                '[' => Token::LBracket,
                ']' => Token::RBracket,
                other => Token::Delim(other),
            }
        };
        out.push(TokenAndSpan { token, span: Span { lo: start as u32, hi: i as u32 } });
    }
    out
}

fn parser_for(src: &str, css_modules: bool) -> Parser {
    Parser::new(tokenize(src), css_modules).expect("tokens are ordered")
}

fn parse_with(src: &str, css_modules: bool) -> (AtRule, usize, Vec<ParseError>, usize) {
    let parser = parser_for(src, css_modules);
    let mut errors = Vec::new();
    let (rule, end) = parser.parse_at_rule(0, Ctx::top_level(), &mut errors);
    (rule, end, errors, parser.input.len())
}

fn parse(src: &str) -> (AtRule, Vec<ParseError>) {
    let (rule, _, errors, _) = parse_with(src, false);
    (rule, errors)
}

fn name_of(rule: &AtRule) -> &str {
    match &rule.name {
        AtRuleName::Ident(i) | AtRuleName::DashedIdent(i) => i.value.as_str(),
    }
}

fn significant(values: &[ComponentValue]) -> Vec<&ComponentValue> {
    values
        .iter()
        .filter(|v| !matches!(v, ComponentValue::PreservedToken(TokenAndSpan { token: Token::WhiteSpace, .. })))
        .collect()
}

fn ident_value(v: &FeatureValue) -> Option<&str> {
    match v {
        FeatureValue::Ident(i) => Some(i.value.as_str()),
        _ => None,
    }
}

#[test]
fn media_with_two_plain_features() {
    let (rule, errors) = parse("@media (min-width: 100px) and (max-width: 200px) { }");
    assert!(errors.is_empty());
    assert_eq!(name_of(&rule), "media");
    let list = match rule.prelude {
        Some(AtRulePrelude::MediaPrelude(list)) => list,
        other => panic!("unexpected prelude {:?}", other),
    };
    assert_eq!(list.queries.len(), 1);
    let cond = list.queries[0].condition.as_ref().expect("a condition");
    assert_eq!(cond.conditions.len(), 2);
    match &cond.conditions[0] {
        ConditionItem::InParens(InParens::Feature(Feature::Plain { name, value, .. })) => {
            assert_eq!(name.value, "min-width");
            match value {
                FeatureValue::Dimension(d) => {
                    assert_eq!(d.value, "100");
                    assert_eq!(d.unit, "px");
                }
                other => panic!("unexpected value {:?}", other),
            }
        }
        other => panic!("unexpected item {:?}", other),
    }
    match &cond.conditions[1] {
        ConditionItem::And(and) => match &and.condition {
            InParens::Feature(Feature::Plain { name, .. }) => assert_eq!(name.value, "max-width"),
            other => panic!("unexpected operand {:?}", other),
        },
        other => panic!("unexpected item {:?}", other),
    }
    let block = rule.block.expect("a block");
    assert_eq!(block.grammar, BlockContentsGrammar::Stylesheet);
}

#[test]
fn import_with_layer_supports_and_media() {
    let (rule, errors) =
        parse("@import \"a.css\" layer(base) supports(display: grid) screen and (min-width: 10px);");
    assert!(errors.is_empty(), "{:?}", errors);
    let import = match rule.prelude {
        Some(AtRulePrelude::ImportPrelude(i)) => i,
        other => panic!("unexpected prelude {:?}", other),
    };
    match &import.href {
        UrlOrStr::Str(s) => assert_eq!(s.value, "a.css"),
        other => panic!("unexpected href {:?}", other),
    }
    match &import.layer_name {
        Some(ImportLayerName::Function(f)) => {
            assert_eq!(f.name.value, "layer");
            assert_eq!(f.value.len(), 1);
            match &f.value[0] {
                ComponentValue::LayerName(l) => {
                    assert_eq!(l.name.len(), 1);
                    assert_eq!(l.name[0].value, "base");
                }
                other => panic!("unexpected layer value {:?}", other),
            }
        }
        other => panic!("unexpected layer {:?}", other),
    }
    match &import.supports {
        Some(ImportSupports::Declaration(d)) => {
            assert_eq!(d.name.value, "display");
            assert_eq!(d.value.len(), 1);
        }
        other => panic!("unexpected supports {:?}", other),
    }
    let media = import.media.expect("media queries");
    assert_eq!(media.queries.len(), 1);
    let q = &media.queries[0];
    assert_eq!(q.media_type.as_ref().map(|i| i.value.as_str()), Some("screen"));
    assert_eq!(q.keyword.as_ref().map(|i| i.value.as_str()), Some("and"));
    assert!(q.condition.is_some());
    assert!(rule.block.is_none());
}

#[test]
fn supports_with_or() {
    let (rule, errors) = parse("@supports (display: grid) or (display: flex) { }");
    assert!(errors.is_empty());
    let cond = match rule.prelude {
        Some(AtRulePrelude::SupportsPrelude(c)) => c,
        other => panic!("unexpected prelude {:?}", other),
    };
    assert_eq!(cond.conditions.len(), 2);
    assert!(matches!(
        &cond.conditions[0],
        ConditionItem::InParens(InParens::SupportsFeature(SupportsFeature::Declaration(_)))
    ));
    match &cond.conditions[1] {
        ConditionItem::Or(or) => match &or.condition {
            InParens::SupportsFeature(SupportsFeature::Declaration(d)) => assert_eq!(d.name.value, "display"),
            other => panic!("unexpected operand {:?}", other),
        },
        other => panic!("unexpected item {:?}", other),
    }
}

#[test]
fn keyframes_with_three_blocks() {
    let (rule, errors) = parse("@keyframes spin { from { x: 0 } 50% { x: 1 } to { x: 2 } }");
    assert!(errors.is_empty());
    match &rule.prelude {
        Some(AtRulePrelude::KeyframesPrelude(KeyframesName::CustomIdent(i))) => assert_eq!(i.value, "spin"),
        other => panic!("unexpected prelude {:?}", other),
    }
    let block = rule.block.expect("a block");
    assert_eq!(block.value.len(), 3);
    let selectors: Vec<String> = block
        .value
        .iter()
        .map(|v| match v {
            ComponentValue::KeyframeBlock(kb) => match &kb.prelude[0] {
                KeyframeSelector::Ident(i) => i.value.clone(),
                KeyframeSelector::Percentage(p) => p.raw.clone(),
            },
            other => panic!("unexpected value {:?}", other),
        })
        .collect();
    assert_eq!(selectors, vec!["from", "50%", "to"]);
    match &block.value[1] {
        ComponentValue::KeyframeBlock(kb) => {
            assert!(matches!(kb.prelude[0], KeyframeSelector::Percentage(_)));
            assert_eq!(kb.block.grammar, BlockContentsGrammar::DeclarationList);
        }
        _ => unreachable!(),
    }
}

#[test]
fn layer_dotted_name_with_semicolon() {
    let (rule, end, errors, len) = parse_with("@layer a.b.c;", false);
    assert!(errors.is_empty());
    assert_eq!(end, len);
    match &rule.prelude {
        Some(AtRulePrelude::LayerPrelude(LayerPrelude::Name(n))) => {
            let names: Vec<&str> = n.name.iter().map(|i| i.value.as_str()).collect();
            assert_eq!(names, vec!["a", "b", "c"]);
        }
        other => panic!("unexpected prelude {:?}", other),
    }
    assert!(rule.block.is_none());
}

#[test]
fn container_with_two_ranges() {
    let (rule, errors) = parse("@container (width > 400px) and (width < 800px) { }");
    assert!(errors.is_empty());
    let cc = match rule.prelude {
        Some(AtRulePrelude::ContainerPrelude(c)) => c,
        other => panic!("unexpected prelude {:?}", other),
    };
    assert!(cc.name.is_none());
    assert_eq!(cc.query.conditions.len(), 2);
    match &cc.query.conditions[0] {
        ConditionItem::InParens(InParens::Feature(Feature::Range { left, comparison, .. })) => {
            assert_eq!(ident_value(left), Some("width"));
            assert_eq!(*comparison, RangeComparison::Gt);
        }
        other => panic!("unexpected item {:?}", other),
    }
    match &cc.query.conditions[1] {
        ConditionItem::And(and) => match &and.condition {
            InParens::Feature(Feature::Range { comparison, .. }) => assert_eq!(*comparison, RangeComparison::Lt),
            other => panic!("unexpected operand {:?}", other),
        },
        other => panic!("unexpected item {:?}", other),
    }
    let block = rule.block.expect("a block");
    assert_eq!(block.grammar, BlockContentsGrammar::Stylesheet);
}

#[test]
fn container_range_interval() {
    let (rule, errors) = parse("@container (400px < width < 800px) { }");
    assert!(errors.is_empty());
    let cc = match rule.prelude {
        Some(AtRulePrelude::ContainerPrelude(c)) => c,
        other => panic!("unexpected prelude {:?}", other),
    };
    match &cc.query.conditions[0] {
        ConditionItem::InParens(InParens::Feature(Feature::RangeInterval {
            left_comparison, name, right_comparison, ..
        })) => {
            assert_eq!(name.value, "width");
            assert_eq!(*left_comparison, RangeComparison::Lt);
            assert_eq!(*right_comparison, RangeComparison::Lt);
        }
        other => panic!("unexpected item {:?}", other),
    }
}

#[test]
fn unknown_at_rule_keeps_component_values() {
    let (rule, errors) = parse("@unknown foo bar { baz }");
    assert!(errors.is_empty());
    assert_eq!(name_of(&rule), "unknown");
    let list = match &rule.prelude {
        Some(AtRulePrelude::ListOfComponentValues(l)) => l,
        other => panic!("unexpected prelude {:?}", other),
    };
    let values: Vec<String> = significant(&list.children)
        .iter()
        .map(|v| match v {
            ComponentValue::PreservedToken(TokenAndSpan { token: Token::Ident { value, .. }, .. }) => value.clone(),
            other => panic!("unexpected value {:?}", other),
        })
        .collect();
    assert_eq!(values, vec!["foo", "bar"]);
    let block = rule.block.as_ref().expect("a block");
    assert_eq!(block.grammar, BlockContentsGrammar::NoGrammar);
    let inner = significant(&block.value);
    assert_eq!(inner.len(), 1);
    assert!(matches!(
        inner[0],
        ComponentValue::PreservedToken(TokenAndSpan { token: Token::Ident { value, .. }, .. }) if value == "baz"
    ));
}

#[test]
fn keyframes_named_none_is_rejected() {
    let (rule, errors) = parse("@keyframes none { from { x: 0 } }");
    assert_eq!(errors.len(), 1);
    assert_eq!(errors[0].kind, ErrorKind::InvalidCustomIdent("none".to_string()));
    assert!(matches!(rule.prelude, Some(AtRulePrelude::ListOfComponentValues(_))));
    let (_, errors) = parse("@keyframes NONE { }");
    assert!(!errors.is_empty());
}

#[test]
fn charset_with_string_and_semicolon() {
    let (rule, errors) = parse("@charset \"utf-8\";");
    assert!(errors.is_empty());
    match &rule.prelude {
        Some(AtRulePrelude::CharsetPrelude(s)) => assert_eq!(s.value, "utf-8"),
        other => panic!("unexpected prelude {:?}", other),
    }
}

#[test]
fn charset_with_ident_is_an_error() {
    let (rule, errors) = parse("@charset x;");
    assert_eq!(errors.len(), 1);
    assert_eq!(errors[0].kind, ErrorKind::InvalidCharsetAtRule);
    assert!(matches!(rule.prelude, Some(AtRulePrelude::ListOfComponentValues(_))));
}

#[test]
fn charset_without_semicolon_is_an_error() {
    let (_, errors) = parse("@charset \"x\"");
    assert_eq!(errors.len(), 1);
    assert_eq!(errors[0].kind, ErrorKind::Expected("';' token"));
}

#[test]
fn layer_list_with_semicolon() {
    let (rule, errors) = parse("@layer a, b, c ;");
    assert!(errors.is_empty());
    match &rule.prelude {
        Some(AtRulePrelude::LayerPrelude(LayerPrelude::NameList(l))) => assert_eq!(l.name_list.len(), 3),
        other => panic!("unexpected prelude {:?}", other),
    }
    assert!(rule.block.is_none());
}

#[test]
fn layer_single_name_with_block() {
    let (rule, errors) = parse("@layer a { }");
    assert!(errors.is_empty());
    assert!(matches!(rule.prelude, Some(AtRulePrelude::LayerPrelude(LayerPrelude::Name(_)))));
    assert_eq!(rule.block.expect("a block").grammar, BlockContentsGrammar::Stylesheet);
}

#[test]
fn layer_list_with_block_is_an_error() {
    let (rule, errors) = parse("@layer a, b { }");
    assert_eq!(errors.len(), 1);
    assert_eq!(errors[0].kind, ErrorKind::Expected("';' token"));
    assert!(!matches!(rule.prelude, Some(AtRulePrelude::LayerPrelude(_))));
}

#[test]
fn layer_names_without_terminator_are_an_error() {
    let (_, errors) = parse("@layer a b");
    assert!(!errors.is_empty());
}

#[test]
fn layer_without_ident_terminates() {
    let (rule, end, _, len) = parse_with("@layer .foo;", false);
    assert_eq!(end, len);
    assert!(rule.block.is_none());
}

#[test]
fn at_rule_name_span_skips_the_at_sign() {
    let (rule, _) = parse("@media screen { }");
    let name = match &rule.name {
        AtRuleName::Ident(i) => i,
        _ => panic!("expected a plain name"),
    };
    assert_eq!(rule.span.lo, 0);
    assert_eq!(name.span.lo, rule.span.lo + 1);
    assert_eq!(name.span, Span { lo: 1, hi: 6 });
    assert_eq!(name.raw, "media");
    assert_eq!(rule.span.hi, 17);
}

#[test]
fn dashed_at_rule_name() {
    let (rule, _) = parse("@--custom x;");
    assert!(matches!(rule.name, AtRuleName::DashedIdent(_)));
}

#[test]
fn every_at_rule_ends_at_a_terminator() {
    for src in ["@media screen", "@foo bar;", "@page { margin: 0 }", "@import \"a\"", "@supports (", "@media {"] {
        let parser = parser_for(src, false);
        let mut errors = Vec::new();
        let (_, end) = parser.parse_at_rule(0, Ctx::top_level(), &mut errors);
        assert!(end > 0);
        assert!(
            end == parser.input.len()
                || matches!(parser.input[end - 1].token, Token::Semicolon | Token::RBrace),
            "{}",
            src
        );
    }
}

#[test]
fn mixed_combinators_are_an_error() {
    let (rule, errors) = parse("@media (color) and (hover) or (grid) { }");
    assert_eq!(errors.len(), 1);
    assert!(matches!(rule.prelude, Some(AtRulePrelude::ListOfComponentValues(_))));
}

#[test]
fn range_interval_with_mixed_directions_is_an_error() {
    let (_, errors) = parse("@media (100px < width > 200px) { }");
    assert_eq!(errors.len(), 1);
    let (rule, errors) = parse("@media (100px <= width < 200px) { }");
    assert!(errors.is_empty());
    assert!(matches!(rule.prelude, Some(AtRulePrelude::MediaPrelude(_))));
}

#[test]
fn page_with_pseudo_and_margin_box() {
    let (rule, errors) = parse("@page :first { @top-left { content: x } }");
    assert!(errors.is_empty(), "{:?}", errors);
    match &rule.prelude {
        Some(AtRulePrelude::PagePrelude(l)) => {
            assert_eq!(l.selectors.len(), 1);
            let pseudos = l.selectors[0].pseudos.as_ref().expect("pseudos");
            assert_eq!(pseudos[0].value.value, "first");
        }
        other => panic!("unexpected prelude {:?}", other),
    }
    let block = rule.block.expect("a block");
    assert_eq!(block.grammar, BlockContentsGrammar::DeclarationList);
    match &block.value[0] {
        ComponentValue::AtRule(inner) => {
            assert_eq!(name_of(inner), "top-left");
            assert!(inner.prelude.is_none());
            assert_eq!(inner.block.as_ref().expect("a block").grammar, BlockContentsGrammar::DeclarationList);
        }
        other => panic!("unexpected value {:?}", other),
    }
}

#[test]
fn margin_box_outside_page_is_not_recognised() {
    let (rule, errors) = parse("@top-left x { }");
    assert!(errors.is_empty());
    assert!(matches!(rule.prelude, Some(AtRulePrelude::ListOfComponentValues(_))));
    assert_eq!(rule.block.expect("a block").grammar, BlockContentsGrammar::DeclarationList);
}

#[test]
fn font_feature_values_with_sub_rule() {
    let (rule, errors) = parse("@font-feature-values Font One { @styleset { nice: 12 } }");
    assert!(errors.is_empty(), "{:?}", errors);
    assert!(matches!(rule.prelude, Some(AtRulePrelude::FontFeatureValuesPrelude(_))));
    let block = rule.block.expect("a block");
    match &block.value[0] {
        ComponentValue::AtRule(inner) => {
            assert_eq!(name_of(inner), "styleset");
            assert!(inner.prelude.is_none());
        }
        other => panic!("unexpected value {:?}", other),
    }
}

#[test]
fn import_layer_without_argument_is_dropped() {
    let (rule, errors) = parse("@import \"a.css\" layer();");
    assert_eq!(errors.len(), 1);
    match &rule.prelude {
        Some(AtRulePrelude::ImportPrelude(i)) => assert!(i.layer_name.is_none()),
        other => panic!("unexpected prelude {:?}", other),
    }
}

#[test]
fn import_with_url_and_layer_keyword() {
    let (rule, errors) = parse("@import url(foo.css) layer;");
    assert!(errors.is_empty());
    match &rule.prelude {
        Some(AtRulePrelude::ImportPrelude(i)) => {
            assert!(matches!(&i.href, UrlOrStr::Url(u) if u.value == "foo.css"));
            assert!(matches!(i.layer_name, Some(ImportLayerName::Ident(_))));
        }
        other => panic!("unexpected prelude {:?}", other),
    }
}

#[test]
fn namespace_with_prefix() {
    let (rule, errors) = parse("@namespace svg url(http://www.w3.org/2000/svg);");
    assert!(errors.is_empty());
    match &rule.prelude {
        Some(AtRulePrelude::NamespacePrelude(n)) => {
            assert_eq!(n.prefix.as_ref().map(|i| i.value.as_str()), Some("svg"));
            assert!(matches!(&n.uri, UrlOrStr::Url(u) if u.value == "http://www.w3.org/2000/svg"));
        }
        other => panic!("unexpected prelude {:?}", other),
    }
}

#[test]
fn custom_media_with_query() {
    let (rule, errors) = parse("@custom-media --small (max-width: 30em);");
    assert!(errors.is_empty());
    match &rule.prelude {
        Some(AtRulePrelude::CustomMediaPrelude(c)) => assert_eq!(c.name.value, "--small"),
        other => panic!("unexpected prelude {:?}", other),
    }
    let (_, errors) = parse("@custom-media small (max-width: 30em);");
    assert_eq!(errors.len(), 1);
}

#[test]
fn media_not_and_only() {
    let (rule, errors) = parse("@media not all and (monochrome) { }");
    assert!(errors.is_empty());
    match &rule.prelude {
        Some(AtRulePrelude::MediaPrelude(l)) => {
            let q = &l.queries[0];
            assert_eq!(q.modifier.as_ref().map(|i| i.value.as_str()), Some("not"));
            assert_eq!(q.media_type.as_ref().map(|i| i.value.as_str()), Some("all"));
        }
        other => panic!("unexpected prelude {:?}", other),
    }
    let (rule, errors) = parse("@media not (color) { }");
    assert!(errors.is_empty());
    match &rule.prelude {
        Some(AtRulePrelude::MediaPrelude(l)) => {
            let c = l.queries[0].condition.as_ref().expect("a condition");
            assert!(matches!(c.conditions[0], ConditionItem::Not(_)));
        }
        other => panic!("unexpected prelude {:?}", other),
    }
}

#[test]
fn at_rule_names_ignore_ascii_case() {
    let (rule, errors) = parse("@MEDIA screen, print { }");
    assert!(errors.is_empty());
    match &rule.prelude {
        Some(AtRulePrelude::MediaPrelude(l)) => assert_eq!(l.queries.len(), 2),
        other => panic!("unexpected prelude {:?}", other),
    }
    assert_eq!(name_of(&rule), "MEDIA");
}

#[test]
fn media_ratio_value() {
    let (rule, errors) = parse("@media (aspect-ratio: 16 / 9) { }");
    assert!(errors.is_empty());
    match &rule.prelude {
        Some(AtRulePrelude::MediaPrelude(l)) => {
            let c = l.queries[0].condition.as_ref().expect("a condition");
            match &c.conditions[0] {
                ConditionItem::InParens(InParens::Feature(Feature::Plain { value: FeatureValue::Ratio(r), .. })) => {
                    assert_eq!(r.left.raw, "16");
                    assert_eq!(r.right.raw, "9");
                }
                other => panic!("unexpected item {:?}", other),
            }
        }
        other => panic!("unexpected prelude {:?}", other),
    }
}

#[test]
fn general_enclosed_needs_an_ident() {
    let (rule, errors) = parse("@media (foo bar baz) { }");
    assert!(errors.is_empty());
    match &rule.prelude {
        Some(AtRulePrelude::MediaPrelude(l)) => {
            let c = l.queries[0].condition.as_ref().expect("a condition");
            assert!(matches!(c.conditions[0], ConditionItem::InParens(InParens::GeneralEnclosed(_))));
        }
        other => panic!("unexpected prelude {:?}", other),
    }
    let (_, errors) = parse("@media (1 2 3) { }");
    assert_eq!(errors.len(), 1);
}

#[test]
fn nested_media_in_style_block_keeps_style_block() {
    let parser = parser_for("@media screen { }", false);
    let mut errors = Vec::new();
    let ctx = Ctx { block_contents_grammar: BlockContentsGrammar::StyleBlock, ..Ctx::top_level() };
    let (rule, _) = parser.parse_at_rule(0, ctx, &mut errors);
    assert_eq!(rule.block.expect("a block").grammar, BlockContentsGrammar::StyleBlock);
}

#[test]
fn block_grammars_by_family() {
    let cases = [
        ("@font-face { }", BlockContentsGrammar::DeclarationList),
        ("@property --x { }", BlockContentsGrammar::DeclarationList),
        ("@counter-style thumbs { }", BlockContentsGrammar::DeclarationList),
        ("@color-profile --swop { }", BlockContentsGrammar::DeclarationList),
        ("@font-palette-values --p { }", BlockContentsGrammar::DeclarationList),
        ("@viewport { }", BlockContentsGrammar::DeclarationList),
        ("@nest .a & { }", BlockContentsGrammar::StyleBlock),
        ("@-moz-document url-prefix(x) { }", BlockContentsGrammar::Stylesheet),
        ("@supports not (display: grid) { }", BlockContentsGrammar::Stylesheet),
    ];
    for (src, grammar) in cases {
        let (rule, errors) = parse(src);
        assert!(errors.is_empty(), "{}: {:?}", src, errors);
        assert!(rule.prelude.is_none() || !matches!(rule.prelude, Some(AtRulePrelude::ListOfComponentValues(_))), "{}", src);
        assert_eq!(rule.block.expect("a block").grammar, grammar, "{}", src);
    }
}

#[test]
fn css_modules_keyframes_names() {
    let (rule, _, errors, _) = parse_with("@keyframes :local(spin) { }", true);
    assert!(errors.is_empty());
    match &rule.prelude {
        Some(AtRulePrelude::KeyframesPrelude(KeyframesName::PseudoFunction { pseudo, name, .. })) => {
            assert_eq!(pseudo.value, "local");
            assert_eq!(name.value, "spin");
        }
        other => panic!("unexpected prelude {:?}", other),
    }
    let (rule, _, errors, _) = parse_with("@keyframes :global spin { }", true);
    assert!(errors.is_empty());
    assert!(matches!(rule.prelude, Some(AtRulePrelude::KeyframesPrelude(KeyframesName::PseudoPrefix { .. }))));
    let (_, _, errors, _) = parse_with("@keyframes :local(spin) { }", false);
    assert_eq!(errors.len(), 1);
}

#[test]
fn keyframe_selectors() {
    let parser = parser_for("FROM to 10% middle", false);
    assert!(matches!(parser.parse_keyframe_selector(0), Ok((KeyframeSelector::Ident(_), 1))));
    assert!(matches!(parser.parse_keyframe_selector(2), Ok((KeyframeSelector::Ident(_), 3))));
    assert!(matches!(parser.parse_keyframe_selector(4), Ok((KeyframeSelector::Percentage(_), 5))));
    assert!(parser.parse_keyframe_selector(6).is_err());
}

#[test]
fn extension_names() {
    let parser = parser_for("--foo foo", false);
    assert!(matches!(parser.parse_extension_name(0), Ok((ref i, 1)) if i.value == "--foo"));
    assert!(parser.parse_extension_name(2).is_err());
}

#[test]
fn layer_name_consumes_a_token_when_no_ident() {
    let parser = parser_for(".foo", false);
    let (name, end) = parser.parse_layer_name(0);
    assert!(name.name.is_empty());
    assert_eq!(end, 1);
}

#[test]
fn spans_nest_within_the_rule() {
    let (rule, errors) = parse("@media (min-width: 1px) { a }");
    assert!(errors.is_empty());
    let prelude_span = match &rule.prelude {
        Some(AtRulePrelude::MediaPrelude(l)) => l.span,
        other => panic!("unexpected prelude {:?}", other),
    };
    let block = rule.block.as_ref().expect("a block");
    assert!(rule.span.lo <= prelude_span.lo && prelude_span.hi <= rule.span.hi);
    assert!(prelude_span.lo <= prelude_span.hi);
    assert!(rule.span.lo <= block.span.lo && block.span.hi <= rule.span.hi);
    assert_eq!(prelude_span, Span { lo: 7, hi: 23 });
    assert_eq!(block.span, Span { lo: 24, hi: 29 });
}

#[test]
fn unordered_tokens_are_refused() {
    let tokens = vec![
        TokenAndSpan { token: Token::Comma, span: Span { lo: 3, hi: 4 } },
        TokenAndSpan { token: Token::Colon, span: Span { lo: 1, hi: 2 } },
    ];
    assert!(Parser::new(tokens, false).is_none());
    let empty = vec![TokenAndSpan { token: Token::Comma, span: Span { lo: 3, hi: 3 } }];
    assert!(Parser::new(empty, false).is_none());
    assert!(Parser::new(Vec::new(), false).is_some());
}

#[test]
fn nested_conditions_must_not_mix_combinators() {
    let (_, errors) = parse("@media ((color) and (hover) or (grid)) { }");
    assert_eq!(errors.len(), 1);
    let (rule, errors) = parse("@supports ((display: grid) and (gap: 1px)) or (display: flex) { }");
    assert!(errors.is_empty());
    match &rule.prelude {
        Some(AtRulePrelude::SupportsPrelude(c)) => match &c.conditions[0] {
            ConditionItem::InParens(InParens::Condition(inner)) => {
                assert_eq!(inner.conditions.len(), 2);
                assert!(matches!(inner.conditions[1], ConditionItem::And(_)));
            }
            other => panic!("unexpected item {:?}", other),
        },
        other => panic!("unexpected prelude {:?}", other),
    }
}

#[test]
fn equals_range_has_no_interval_form() {
    let (rule, errors) = parse("@media (width = 600px) { }");
    assert!(errors.is_empty());
    match &rule.prelude {
        Some(AtRulePrelude::MediaPrelude(l)) => {
            let c = l.queries[0].condition.as_ref().expect("a condition");
            assert!(matches!(
                c.conditions[0],
                ConditionItem::InParens(InParens::Feature(Feature::Range { comparison: RangeComparison::Eq, .. }))
            ));
        }
        other => panic!("unexpected prelude {:?}", other),
    }
    let (_, errors) = parse("@media (1px = width < 2px) { }");
    assert_eq!(errors.len(), 1);
}

#[test]
fn custom_media_needs_no_terminator() {
    let (rule, end, errors, len) = parse_with("@custom-media --narrow screen", false);
    assert!(errors.is_empty());
    assert_eq!(end, len);
    match &rule.prelude {
        Some(AtRulePrelude::CustomMediaPrelude(c)) => assert_eq!(c.name.value, "--narrow"),
        other => panic!("unexpected prelude {:?}", other),
    }
    let (rule, errors) = parse("@custom-media --on true;");
    assert!(errors.is_empty());
    assert!(matches!(
        rule.prelude,
        Some(AtRulePrelude::CustomMediaPrelude(css_at_rules::ast::CustomMediaQuery {
            media: css_at_rules::ast::CustomMediaType::Ident(_),
            ..
        }))
    ));
}

#[test]
fn layer_names_need_commas() {
    let (rule, errors) = parse("@layer a b;");
    assert_eq!(errors.len(), 1);
    assert_eq!(errors[0].kind, ErrorKind::Expected("';' token"));
    assert_eq!(errors[0].span, Span { lo: 9, hi: 10 });
    assert!(matches!(rule.prelude, Some(AtRulePrelude::ListOfComponentValues(_))));
    let (_, errors) = parse("@layer a, ;");
    assert_eq!(errors.len(), 1);
    let (rule, errors) = parse("@layer a,b;");
    assert!(errors.is_empty());
    match &rule.prelude {
        Some(AtRulePrelude::LayerPrelude(LayerPrelude::NameList(l))) => {
            let names: Vec<&str> = l.name_list.iter().map(|n| n.name[0].value.as_str()).collect();
            assert_eq!(names, vec!["a", "b"]);
        }
        other => panic!("unexpected prelude {:?}", other),
    }
}

#[test]
fn diagnostics_carry_the_offending_span() {
    let (_, errors) = parse("@charset x;");
    assert_eq!(errors, vec![ParseError { span: Span { lo: 9, hi: 10 }, kind: ErrorKind::InvalidCharsetAtRule }]);
    let (_, errors) = parse("@charset \"x\"");
    assert_eq!(errors, vec![ParseError { span: Span { lo: 12, hi: 12 }, kind: ErrorKind::Expected("';' token") }]);
    let (rule, errors) = parse("@keyframes NONE { }");
    assert_eq!(
        errors,
        vec![ParseError { span: Span { lo: 11, hi: 15 }, kind: ErrorKind::InvalidCustomIdent("NONE".to_string()) }]
    );
    assert!(rule.block.is_some());
    let (_, errors) = parse("@media (1px > width < 2px) { }");
    assert_eq!(errors.len(), 1);
}

#[test]
fn function_names_end_before_the_paren() {
    let (rule, _, errors, _) = parse_with("@keyframes :local(spin) { }", true);
    assert!(errors.is_empty());
    match &rule.prelude {
        Some(AtRulePrelude::KeyframesPrelude(KeyframesName::PseudoFunction { pseudo, .. })) => {
            assert_eq!(pseudo.span, Span { lo: 12, hi: 17 });
            assert_eq!(pseudo.raw, "local");
        }
        other => panic!("unexpected prelude {:?}", other),
    }
    let (rule, errors) = parse("@import \"a\" layer(x);");
    assert!(errors.is_empty());
    match &rule.prelude {
        Some(AtRulePrelude::ImportPrelude(i)) => match &i.layer_name {
            Some(ImportLayerName::Function(f)) => assert_eq!(f.name.span, Span { lo: 12, hi: 17 }),
            other => panic!("unexpected layer {:?}", other),
        },
        other => panic!("unexpected prelude {:?}", other),
    }
}

#[test]
fn block_ends_the_rule() {
    let (rule, end, _, len) = parse_with("@media screen { a } b", false);
    let block = rule.block.expect("a block");
    assert_eq!(block.span.hi, rule.span.hi);
    assert_eq!(end, len - 2);
    let (rule, _) = parse("@unknown x;");
    assert!(rule.block.is_none());
}
