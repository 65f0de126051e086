//! A lint over declarations: `font-family` (and the family part of the
//! `font` shorthand) must not name the same font twice.
use vstd::prelude::*;
use vstd::string::StringExecFns;
use ahash::AHashSet;
use crate::token::{Span, Token, TokenAndSpan, keyword_eq, matches_keyword};
use crate::ast::{ComponentValue, Declaration};

verus! {

#[verifier::external_type_specification]
#[verifier::external_body]
#[verifier::reject_recursive_types(T)]
#[verifier::reject_recursive_types(S)]
pub struct ExAHashSet<T, S>(AHashSet<T, S>);

#[verifier::external_type_specification]
#[verifier::external_body]
pub struct ExRandomState(ahash::RandomState);

/// The font names a set holds: whether the name is a generic keyword, and
/// its characters.
pub uninterp spec fn font_names_held(s: AHashSet<(bool, String)>) -> Set<(bool, Seq<char>)>;

/// Relies on ahash's `AHashSet::with_capacity`: a new set is empty.
#[verifier::external_body]
fn new_font_set(capacity: usize) -> (r: AHashSet<(bool, String)>)
    ensures
        font_names_held(r) == Set::<(bool, Seq<char>)>::empty(),
{
    AHashSet::with_capacity(capacity)
}

/// Relies on `HashSet::contains`, reached through `AHashSet`'s `Deref`:
/// whether an equal pair is held. Two pairs are equal when their flags and
/// their strings' characters are.
#[verifier::external_body]
fn font_set_contains(s: &AHashSet<(bool, String)>, key: &(bool, String)) -> (r: bool)
    ensures
        r == font_names_held(*s).contains((key.0, key.1@)),
{
    s.contains(key)
}

/// Relies on `HashSet::insert`, reached through `AHashSet`'s `DerefMut`:
/// afterwards the pair is held, besides what was.
#[verifier::external_body]
fn font_set_insert(s: &mut AHashSet<(bool, String)>, key: (bool, String))
    ensures
        font_names_held(*final(s)) == font_names_held(*old(s)).insert((key.0, key.1@)),
{
    s.insert(key);
}

/// The characters that have the Unicode `White_Space` property, which
/// `str::trim` removes.
pub open spec fn is_white_space(c: char) -> bool {
    ||| '\u{9}' <= c <= '\u{d}'
    ||| c == ' ' ||| c == '\u{85}' ||| c == '\u{a0}' ||| c == '\u{1680}'
    ||| '\u{2000}' <= c <= '\u{200a}'
    ||| c == '\u{2028}' ||| c == '\u{2029}' ||| c == '\u{202f}' ||| c == '\u{205f}' ||| c == '\u{3000}'
}

fn white_space(c: char) -> (r: bool)
    ensures
        r == is_white_space(c),
{
    ('\u{9}' <= c && c <= '\u{d}') || c == ' ' || c == '\u{85}' || c == '\u{a0}' || c == '\u{1680}'
        || ('\u{2000}' <= c && c <= '\u{200a}') || c == '\u{2028}' || c == '\u{2029}' || c == '\u{202f}'
        || c == '\u{205f}' || c == '\u{3000}'
}

/// `s` without the white space at either end.
pub open spec fn trim(s: Seq<char>) -> Seq<char>
    decreases s.len(),
{
    if s.len() > 0 && is_white_space(s[0]) {
        trim(s.drop_first())
    } else if s.len() > 0 && is_white_space(s.last()) {
        trim(s.drop_last())
    } else {
        s
    }
}

/// The generic font family keywords.
pub open spec fn is_generic_font_keyword(s: Seq<char>) -> bool {
    ||| s == "serif"@ ||| s == "sans-serif"@ ||| s == "cursive"@ ||| s == "fantasy"@
    ||| s == "monospace"@ ||| s == "system-ui"@ ||| s == "ui-serif"@ ||| s == "ui-sans-serif"@
    ||| s == "ui-monospace"@ ||| s == "ui-rounded"@ ||| s == "emoji"@ ||| s == "math"@
    ||| s == "fangsong"@
}

fn str_eq(a: &str, b: &str) -> (r: bool)
    ensures
        r == (a@ == b@),
{
    let n = a.unicode_len();
    if n != b.unicode_len() {
        return false;
    }
    let mut i: usize = 0;
    while i < n
        invariant
            n == a@.len(),
            n == b@.len(),
            i <= n,
            forall|j: int| 0 <= j < i ==> a@[j] == b@[j],
        decreases n - i,
    {
        if a.get_char(i) != b.get_char(i) {
            return false;
        }
        i += 1;
    }
    assert(a@ =~= b@);
    true
}

fn generic_font_keyword(s: &str) -> (r: bool)
    ensures
        r == is_generic_font_keyword(s@),
{
    str_eq(s, "serif") || str_eq(s, "sans-serif") || str_eq(s, "cursive") || str_eq(s, "fantasy")
        || str_eq(s, "monospace") || str_eq(s, "system-ui") || str_eq(s, "ui-serif")
        || str_eq(s, "ui-sans-serif") || str_eq(s, "ui-monospace") || str_eq(s, "ui-rounded")
        || str_eq(s, "emoji") || str_eq(s, "math") || str_eq(s, "fangsong")
}

/// `s` without the white space at either end.
pub fn trim_white_space(s: &str) -> (r: String)
    ensures
        r@ == trim(s@),
{
    let n = s.unicode_len();
    let mut lo: usize = 0;
    let mut hi: usize = n;
    assert(s@.subrange(0, n as int) =~= s@);
    while lo < hi && (white_space(s.get_char(lo)) || white_space(s.get_char(hi - 1)))
        invariant
            n == s@.len(),
            lo <= hi <= n,
            trim(s@.subrange(lo as int, hi as int)) == trim(s@),
        decreases hi - lo,
    {
        let ghost t = s@.subrange(lo as int, hi as int);
        if white_space(s.get_char(lo)) {
            assert(t.drop_first() =~= s@.subrange(lo + 1, hi as int));
            lo += 1;
        } else {
            assert(t.drop_last() =~= s@.subrange(lo as int, hi - 1));
            hi -= 1;
        }
    }
    let t = s.substring_char(lo, hi);
    String::from_str(t)
}

/// A font name from a `font-family` value: a quoted name whose inner text
/// is a generic keyword, or any other name.
#[derive(Debug, PartialEq, Eq, Hash)]
pub enum FontNameKind {
    Normal(String),
    Keyword(String),
}

/// The font name that `raw` denotes: quotes (`'` or `"`) around it are
/// removed, then white space at either end; a quoted generic keyword is a
/// keyword. The flag tells a keyword.
pub open spec fn font_key(raw: Seq<char>) -> (bool, Seq<char>) {
    if raw.len() >= 2 && ((raw[0] == '\'' && raw.last() == '\'') || (raw[0] == '"' && raw.last() == '"')) {
        let inner = trim(raw.subrange(1, raw.len() - 1));
        (is_generic_font_keyword(inner), inner)
    } else {
        (false, trim(raw))
    }
}

impl FontNameKind {
    pub open spec fn key(&self) -> (bool, Seq<char>) {
        match self {
            FontNameKind::Normal(n) => (false, n@),
            FontNameKind::Keyword(n) => (true, n@),
        }
    }

    /// The font name, without its kind.
    pub fn name(&self) -> (r: &str)
        ensures
            r@ == self.key().1,
    {
        match self {
            FontNameKind::Normal(name) => name.as_str(),
            FontNameKind::Keyword(name) => name.as_str(),
        }
    }

    /// The font name that `name` denotes, quoted or not.
    pub fn from(name: &str) -> (r: FontNameKind)
        ensures
            r.key() == font_key(name@),
    {
        let n = name.unicode_len();
        if n >= 2 {
            let first = name.get_char(0);
            let last = name.get_char(n - 1);
            if (first == '\'' && last == '\'') || (first == '"' && last == '"') {
                let inner = trim_white_space(name.substring_char(1, n - 1));
                if generic_font_keyword(inner.as_str()) {
                    return FontNameKind::Keyword(inner);
                } else {
                    return FontNameKind::Normal(inner);
                }
            }
        }
        FontNameKind::Normal(trim_white_space(name))
    }

    fn into_key(self) -> (r: (bool, String))
        ensures
            (r.0, r.1@) == self.key(),
    {
        match self {
            FontNameKind::Normal(n) => (false, n),
            FontNameKind::Keyword(n) => (true, n),
        }
    }
}

/// What a value of a font family list contributes.
pub enum FamilyPart {
    /// An identifier: names of several words are written as several.
    Word(Seq<char>, Span),
    /// A quoted name, with its quotes.
    Quoted(Seq<char>, Span),
    Comma,
    Other,
}

pub open spec fn family_part(v: ComponentValue) -> FamilyPart {
    match v {
        ComponentValue::PreservedToken(TokenAndSpan { token: Token::Ident { value, .. }, span }) => FamilyPart::Word(value@, span),
        ComponentValue::PreservedToken(TokenAndSpan { token: Token::Str { raw, .. }, span }) => FamilyPart::Quoted(raw@, span),
        ComponentValue::PreservedToken(TokenAndSpan { token: Token::Comma, .. }) => FamilyPart::Comma,
        _ => FamilyPart::Other,
    }
}

/// The fonts named by `values` (with their spans), and the words of a name
/// not yet closed by a comma: consecutive identifiers make one name, words
/// joined by a space.
pub open spec fn scan_fonts(values: Seq<ComponentValue>) -> (Seq<((bool, Seq<char>), Span)>, Option<(Seq<char>, Span)>)
    decreases values.len(),
{
    if values.len() == 0 {
        (Seq::empty(), None)
    } else {
        let (fonts, last) = scan_fonts(values.drop_last());
        match family_part(values.last()) {
            FamilyPart::Word(w, sp) => match last {
                Some((id, lsp)) => (fonts, Some((id + " "@ + w, Span { lo: lsp.lo, hi: sp.hi }))),
                None => (fonts, Some((w, sp))),
            },
            FamilyPart::Quoted(raw, sp) => (fonts.push((font_key(raw), sp)), None),
            FamilyPart::Comma => match last {
                Some((id, lsp)) => (fonts.push((font_key(id), lsp)), None),
                None => (fonts, None),
            },
            FamilyPart::Other => (fonts, last),
        }
    }
}

/// The fonts that a family list names, in order.
pub open spec fn fonts_of(values: Seq<ComponentValue>) -> Seq<((bool, Seq<char>), Span)> {
    let (fonts, last) = scan_fonts(values);
    match last {
        Some((id, sp)) => fonts.push((font_key(id), sp)),
        None => fonts,
    }
}

/// The font at `k` repeats an earlier one and its name is not ignored.
pub open spec fn is_reported(fonts: Seq<((bool, Seq<char>), Span)>, ignored: Seq<Seq<char>>, k: int) -> bool {
    &&& exists|j: int| 0 <= j < k && #[trigger] fonts[j].0 == fonts[k].0
    &&& !ignored.contains(fonts[k].0.1)
}

/// The reports for the first `n` fonts: name and span of each repeat.
pub open spec fn reports_upto(fonts: Seq<((bool, Seq<char>), Span)>, ignored: Seq<Seq<char>>, n: int) -> Seq<(Seq<char>, Span)>
    decreases n,
{
    if n <= 0 {
        Seq::empty()
    } else if is_reported(fonts, ignored, n - 1) {
        reports_upto(fonts, ignored, n - 1).push((fonts[n - 1].0.1, fonts[n - 1].1))
    } else {
        reports_upto(fonts, ignored, n - 1)
    }
}

pub open spec fn duplicate_reports(fonts: Seq<((bool, Seq<char>), Span)>, ignored: Seq<Seq<char>>) -> Seq<(Seq<char>, Span)> {
    reports_upto(fonts, ignored, fonts.len() as int)
}

/// One finding of the lint.
#[derive(Debug, PartialEq, Eq)]
pub struct Report {
    pub span: Span,
    pub name: String,
    pub message: String,
}

/// The message for a repeated font name.
pub open spec fn duplicate_message(name: Seq<char>) -> Seq<char> {
    "Unexpected duplicate name '"@ + name + "'."@
}

#[derive(Debug, Clone, Default)]
pub struct FontFamilyNoDuplicateNamesConfig {
    pub ignore_font_family_names: Option<Vec<String>>,
}

#[derive(Debug)]
pub struct FontFamilyNoDuplicateNames {
    pub ignored: Vec<String>,
}

/// Two lists of strings with the same characters, in order.
pub open spec fn same_names(a: Seq<String>, b: Seq<String>) -> bool {
    a.len() == b.len() && forall|k: int| 0 <= k < a.len() ==> (#[trigger] a[k])@ == b[k]@
}

/// The rule for a configuration: names it should not report.
pub fn font_family_no_duplicate_names(config: &FontFamilyNoDuplicateNamesConfig) -> (r: FontFamilyNoDuplicateNames)
    ensures
        match config.ignore_font_family_names {
            Some(v) => same_names(r.ignored@, v@),
            None => r.ignored@.len() == 0,
        },
{
    let mut ignored: Vec<String> = Vec::new();
    match &config.ignore_font_family_names {
        Some(names) => {
            let mut i: usize = 0;
            while i < names.len()
                invariant
                    i <= names@.len(),
                    same_names(ignored@, names@.subrange(0, i as int)),
                decreases names@.len() - i,
            {
                ignored.push(names[i].clone());
                i += 1;
            }
            assert(names@.subrange(0, names@.len() as int) =~= names@);
        },
        None => {},
    }
    FontFamilyNoDuplicateNames { ignored }
}

/// The fonts held in a list, as keys and spans.
pub open spec fn fonts_view(v: Seq<(FontNameKind, Span)>) -> Seq<((bool, Seq<char>), Span)> {
    Seq::new(v.len(), |k: int| (v[k].0.key(), v[k].1))
}

pub open spec fn last_view(l: Option<(String, Span)>) -> Option<(Seq<char>, Span)> {
    match l {
        Some((id, sp)) => Some((id@, sp)),
        None => None,
    }
}

/// The names and spans of reports, in order.
pub open spec fn reports_view(r: Seq<Report>) -> Seq<(Seq<char>, Span)> {
    Seq::new(r.len(), |k: int| (r[k].name@, r[k].span))
}

pub open spec fn messages_match(r: Seq<Report>) -> bool {
    forall|k: int| 0 <= k < r.len() ==> (#[trigger] r[k]).message@ == duplicate_message(r[k].name@)
}

pub open spec fn ignored_view(v: Seq<String>) -> Seq<Seq<char>> {
    Seq::new(v.len(), |k: int| v[k]@)
}

/// A number, percentage or dimension.
pub open spec fn is_numeric_value(v: ComponentValue) -> bool {
    v matches ComponentValue::PreservedToken(t)
        && (t.token is Number || t.token is Percentage || t.token is Dimension)
}

/// The last position before `n` that holds a numeric value.
pub open spec fn last_numeric(values: Seq<ComponentValue>, n: int) -> Option<int>
    decreases n,
{
    if n <= 0 {
        None
    } else if is_numeric_value(values[n - 1]) {
        Some(n - 1)
    } else {
        last_numeric(values, n - 1)
    }
}

/// The reports for a declaration: its whole value for `font-family`; for
/// `font`, what follows the last numeric value, if any; nothing otherwise.
pub open spec fn declaration_reports(name: Seq<char>, values: Seq<ComponentValue>, ignored: Seq<Seq<char>>) -> Seq<(Seq<char>, Span)> {
    if keyword_eq(name, "font-family"@) {
        duplicate_reports(fonts_of(values), ignored)
    } else if keyword_eq(name, "font"@) {
        match last_numeric(values, values.len() as int) {
            Some(i) => duplicate_reports(fonts_of(values.subrange(i + 1, values.len() as int)), ignored),
            None => Seq::empty(),
        }
    } else {
        Seq::empty()
    }
}

fn is_numeric(v: &ComponentValue) -> (r: bool)
    ensures
        r == is_numeric_value(*v),
{
    match v {
        ComponentValue::PreservedToken(t) => matches!(t.token, Token::Number { .. } | Token::Percentage { .. } | Token::Dimension { .. }),
        _ => false,
    }
}

impl FontFamilyNoDuplicateNames {
    /// Whether `name` is none of the names to ignore.
    fn not_ignored(&self, name: &str) -> (r: bool)
        ensures
            r == !ignored_view(self.ignored@).contains(name@),
    {
        let mut i: usize = 0;
        while i < self.ignored.len()
            invariant
                i <= self.ignored@.len(),
                forall|j: int| 0 <= j < i ==> (#[trigger] self.ignored@[j])@ != name@,
            decreases self.ignored@.len() - i,
        {
            if str_eq(self.ignored[i].as_str(), name) {
                assert(ignored_view(self.ignored@)[i as int] == name@);
                return false;
            }
            i += 1;
        }
        proof {
            if ignored_view(self.ignored@).contains(name@) {
                let j = choose|j: int| 0 <= j < ignored_view(self.ignored@).len() && ignored_view(self.ignored@)[j] == name@;
                assert(self.ignored@[j]@ == name@);
            }
        }
        true
    }

    /// The fonts that `values` from `start` on name, in order.
    fn collect_fonts(values: &Vec<ComponentValue>, start: usize) -> (r: Vec<(FontNameKind, Span)>)
        requires
            start <= values@.len(),
        ensures
            fonts_view(r@) == fonts_of(values@.subrange(start as int, values@.len() as int)),
    {
        let mut fonts: Vec<(FontNameKind, Span)> = Vec::new();
        let mut last: Option<(String, Span)> = None;
        let mut i = start;
        while i < values.len()
            invariant
                start <= i <= values@.len(),
                (fonts_view(fonts@), last_view(last)) == scan_fonts(values@.subrange(start as int, i as int)),
            decreases values@.len() - i,
        {
            let ghost seen = values@.subrange(start as int, i + 1);
            assert(seen.drop_last() =~= values@.subrange(start as int, i as int));
            assert(seen.last() == values@[i as int]);
            let ghost prev = fonts@;
            match &values[i] {
                ComponentValue::PreservedToken(TokenAndSpan { token: Token::Ident { value, .. }, span }) => {
                    last = match last {
                        Some((mut id, lsp)) => {
                            id.append(" ");
                            id.append(value.as_str());
                            Some((id, Span { lo: lsp.lo, hi: span.hi }))
                        },
                        None => Some((value.clone(), *span)),
                    };
                },
                ComponentValue::PreservedToken(TokenAndSpan { token: Token::Str { raw, .. }, span }) => {
                    fonts.push((FontNameKind::from(raw.as_str()), *span));
                    assert(fonts_view(fonts@) =~= fonts_view(prev).push((font_key(raw@), *span)));
                    last = None;
                },
                ComponentValue::PreservedToken(TokenAndSpan { token: Token::Comma, .. }) => {
                    match last {
                        Some((id, lsp)) => {
                            fonts.push((FontNameKind::from(id.as_str()), lsp));
                            assert(fonts_view(fonts@) =~= fonts_view(prev).push((font_key(id@), lsp)));
                        },
                        None => {},
                    }
                    last = None;
                },
                _ => {},
            }
            i += 1;
        }
        let ghost prev = fonts@;
        match last {
            Some((id, lsp)) => {
                fonts.push((FontNameKind::from(id.as_str()), lsp));
                assert(fonts_view(fonts@) =~= fonts_view(prev).push((font_key(id@), lsp)));
            },
            None => {},
        }
        fonts
    }

    /// Reports each font of `values` (from `start` on) that repeats an
    /// earlier one, unless its name is ignored.
    pub fn check_component_values(&self, values: &Vec<ComponentValue>, start: usize) -> (r: Vec<Report>)
        requires
            start <= values@.len(),
        ensures
            reports_view(r@) == duplicate_reports(
                fonts_of(values@.subrange(start as int, values@.len() as int)),
                ignored_view(self.ignored@),
            ),
            messages_match(r@),
    {
        let fonts = Self::collect_fonts(values, start);
        let ghost fv = fonts_view(fonts@);
        let ghost ign = ignored_view(self.ignored@);
        let mut seen = new_font_set(values.len());
        let mut reports: Vec<Report> = Vec::new();
        let mut k: usize = 0;
        while k < fonts.len()
            invariant
                k <= fonts@.len(),
                fv == fonts_view(fonts@),
                ign == ignored_view(self.ignored@),
                forall|x: (bool, Seq<char>)| font_names_held(seen).contains(x) <==> exists|j: int| 0 <= j < k && #[trigger] fv[j].0 == x,
                reports_view(reports@) == reports_upto(fv, ign, k as int),
                messages_match(reports@),
            decreases fonts@.len() - k,
        {
            let font = &fonts[k].0;
            let span = fonts[k].1;
            let name = font.name();
            let key: (bool, String) = match font {
                FontNameKind::Normal(n) => (false, n.clone()),
                FontNameKind::Keyword(n) => (true, n.clone()),
            };
            assert((key.0, key.1@) == fv[k as int].0);
            let repeated = font_set_contains(&seen, &key);
            let reported = repeated && self.not_ignored(name);
            proof {
                if repeated {
                    let j = choose|j: int| 0 <= j < k && #[trigger] fv[j].0 == fv[k as int].0;
                    assert(0 <= j < k && fv[j].0 == fv[k as int].0);
                } else {
                    assert forall|j: int| 0 <= j < k implies #[trigger] fv[j].0 != fv[k as int].0 by {
                        if fv[j].0 == fv[k as int].0 {
                            assert(font_names_held(seen).contains(fv[j].0));
                        }
                    }
                }
                assert(reported == is_reported(fv, ign, k as int));
            }
            if reported {
                let message = String::from_str("Unexpected duplicate name '").concat(name).concat("'.");
                let ghost prev = reports@;
                reports.push(Report { span, name: name.to_owned(), message });
                assert(reports_view(reports@) =~= reports_view(prev).push((fv[k as int].0.1, fv[k as int].1)));
            }
            font_set_insert(&mut seen, key);
            proof {
                assert forall|x: (bool, Seq<char>)| font_names_held(seen).contains(x) <==> exists|j: int| 0 <= j < k + 1 && #[trigger] fv[j].0 == x by {
                    if x == fv[k as int].0 {
                        assert(fv[k as int].0 == x);
                    }
                }
            }
            k += 1;
        }
        reports
    }

    /// Checks a declaration: the whole value of `font-family`, or the part
    /// of a `font` value after its last number, percentage or dimension.
    pub fn visit_declaration(&self, declaration: &Declaration) -> (r: Vec<Report>)
        ensures
            reports_view(r@) == declaration_reports(
                declaration.name.value@,
                declaration.value@,
                ignored_view(self.ignored@),
            ),
            messages_match(r@),
    {
        let values = &declaration.value;
        let name = declaration.name.value.as_str();
        if matches_keyword(name, "font-family") {
            assert(values@.subrange(0, values@.len() as int) =~= values@);
            return self.check_component_values(values, 0);
        }
        if matches_keyword(name, "font") {
            let mut n = values.len();
            while n > 0 && !is_numeric(&values[n - 1])
                invariant
                    n <= values@.len(),
                    last_numeric(values@, values@.len() as int) == last_numeric(values@, n as int),
                decreases n,
            {
                n -= 1;
            }
            if n > 0 {
                return self.check_component_values(values, n);
            }
            let empty: Vec<Report> = Vec::new();
            assert(reports_view(empty@) =~= Seq::<(Seq<char>, Span)>::empty());
            return empty;
        }
        let empty: Vec<Report> = Vec::new();
        assert(reports_view(empty@) =~= Seq::<(Seq<char>, Span)>::empty());
        empty
    }
}

} // verus!
