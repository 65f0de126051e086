use css_at_rules::ast::{ComponentValue, Declaration, Ident};
use css_at_rules::lint::{
    font_family_no_duplicate_names, trim_white_space, FontFamilyNoDuplicateNamesConfig, FontNameKind,
};
use css_at_rules::token::{Span, Token, TokenAndSpan};

fn tok(token: Token, lo: u32, hi: u32) -> ComponentValue {
    ComponentValue::PreservedToken(TokenAndSpan { token, span: Span { lo, hi } })
}

/// Component values for a comma-separated family list written as words:
/// quoted items become strings, numbers numeric tokens, the rest idents.
fn values(src: &str) -> Vec<ComponentValue> {
    let mut out = Vec::new();
    let mut pos = 0u32;
    for (k, item) in src.split(',').enumerate() {
        if k > 0 {
            out.push(tok(Token::Comma, pos, pos + 1));
            pos += 1;
        }
        let item = item.trim();
        if item.starts_with('"') || item.starts_with('\'') {
            let len = item.len() as u32;
            let value = item[1..item.len() - 1].to_string();
            out.push(tok(Token::Str { value, raw: item.to_string() }, pos, pos + len));
            pos += len;
            continue;
        }
        for (w, word) in item.split_whitespace().enumerate() {
            if w > 0 {
                out.push(tok(Token::WhiteSpace, pos, pos + 1));
                pos += 1;
            }
            let len = word.len() as u32;
            let token = if word.chars().next().map_or(false, |c| c.is_ascii_digit()) {
                if word.ends_with("px") {
                    Token::Dimension { value: word[..word.len() - 2].to_string(), unit: "px".to_string() }
                } else {
                    Token::Number { raw: word.to_string() }
                }
            } else {
                Token::Ident { value: word.to_string(), raw: word.to_string() }
            };
            out.push(tok(token, pos, pos + len));
            pos += len;
        }
    }
    out
}

fn declaration(name: &str, src: &str) -> Declaration {
    Declaration {
        span: Span { lo: 0, hi: 1 },
        name: Ident { span: Span { lo: 0, hi: 1 }, value: name.to_string(), raw: name.to_string() },
        value: values(src),
    }
}

fn rule(ignored: Option<Vec<&str>>) -> css_at_rules::lint::FontFamilyNoDuplicateNames {
    let config = FontFamilyNoDuplicateNamesConfig {
        ignore_font_family_names: ignored.map(|v| v.into_iter().map(String::from).collect()),
    };
    font_family_no_duplicate_names(&config)
}

fn reported(name: &str, src: &str, ignored: Option<Vec<&str>>) -> Vec<String> {
    rule(ignored).visit_declaration(&declaration(name, src)).into_iter().map(|r| r.name).collect()
}

#[test]
fn repeated_family_is_reported_once() {
    let reports = rule(None).visit_declaration(&declaration("font-family", "a, b, a"));
    assert_eq!(reports.len(), 1);
    assert_eq!(reports[0].name, "a");
    assert_eq!(reports[0].message, "Unexpected duplicate name 'a'.");
    assert_eq!(reports[0].span, Span { lo: 4, hi: 5 });
}

#[test]
fn words_make_one_name() {
    assert_eq!(reported("font-family", "Times New Roman, \"Times New Roman\"", None), vec!["Times New Roman"]);
    assert!(reported("font-family", "Times New, Times Roman", None).is_empty());
}

#[test]
fn quoted_keyword_differs_from_bare_word() {
    assert!(reported("font-family", "serif, \"serif\"", None).is_empty());
    assert_eq!(reported("font-family", "\"serif\", 'serif'", None), vec!["serif"]);
}

#[test]
fn ignored_names_are_not_reported() {
    assert!(reported("font-family", "a, a", Some(vec!["a"])).is_empty());
    assert_eq!(reported("font-family", "a, a, b, b", Some(vec!["a"])), vec!["b"]);
}

#[test]
fn font_shorthand_checks_after_last_number() {
    assert_eq!(reported("font", "12px a, a", None), vec!["a"]);
    assert!(reported("font", "a, a", None).is_empty());
    assert!(reported("font", "a, a 12px b", None).is_empty());
}

#[test]
fn property_names_ignore_ascii_case() {
    assert_eq!(reported("FONT-FAMILY", "x, x, x", None), vec!["x", "x"]);
    assert!(reported("color", "x, x", None).is_empty());
}

#[test]
fn font_names_strip_quotes_and_space() {
    assert!(matches!(FontNameKind::from("' monospace '"), FontNameKind::Keyword(ref n) if n == "monospace"));
    assert!(matches!(FontNameKind::from("\"Arial\""), FontNameKind::Normal(ref n) if n == "Arial"));
    assert!(matches!(FontNameKind::from("  Arial "), FontNameKind::Normal(ref n) if n == "Arial"));
    assert!(matches!(FontNameKind::from("'"), FontNameKind::Normal(ref n) if n == "'"));
    assert_eq!(FontNameKind::from("\"a\"").name(), "a");
    assert_eq!(trim_white_space("\t x y \n"), "x y");
    assert_eq!(trim_white_space("   "), "");
}

#[test]
fn config_without_names_ignores_nothing() {
    assert!(rule(None).ignored.is_empty());
    assert_eq!(rule(Some(vec!["a", "b"])).ignored, vec!["a".to_string(), "b".to_string()]);
}
