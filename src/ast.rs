//! The syntax tree produced for at-rules. Every node carries the span of the
//! tokens it was built from.
use vstd::prelude::*;
use crate::token::{Span, TokenAndSpan};

verus! {

/// An identifier as written: `value` is its meaning, `raw` its spelling.
#[derive(Debug, PartialEq, Eq)]
pub struct Ident {
    pub span: Span,
    pub value: String,
    pub raw: String,
}

/// A quoted string.
#[derive(Debug, PartialEq, Eq)]
pub struct Str {
    pub span: Span,
    pub value: String,
    pub raw: String,
}

/// A URL, written as a `url` token or as `url("...")` / `src("...")`.
#[derive(Debug, PartialEq, Eq)]
pub struct Url {
    pub span: Span,
    pub value: String,
}

/// A number, percentage or dimension, kept as its source text.
#[derive(Debug, PartialEq, Eq)]
pub struct Numeric {
    pub span: Span,
    pub raw: String,
}

#[derive(Debug, PartialEq, Eq)]
pub struct Dimension {
    pub span: Span,
    pub value: String,
    pub unit: String,
}

/// Which grammar the contents of a `{ ... }` block were read under.
#[derive(Clone, Copy, Debug, PartialEq, Eq, Structural)]
pub enum BlockContentsGrammar {
    Stylesheet,
    StyleBlock,
    DeclarationList,
    DeclarationValue,
    NoGrammar,
}

/// The parse context threaded through nested constructs, by value.
#[derive(Clone, Copy, Debug, PartialEq, Eq, Structural)]
pub struct Ctx {
    pub in_page_at_rule: bool,
    pub in_font_feature_values_at_rule: bool,
    pub in_container_at_rule: bool,
    pub in_import_at_rule: bool,
    pub in_supports_at_rule: bool,
    pub block_contents_grammar: BlockContentsGrammar,
}

impl Ctx {
    /// The context at the top of a stylesheet.
    pub fn top_level() -> (r: Ctx)
        ensures
            !r.in_page_at_rule,
            !r.in_font_feature_values_at_rule,
            !r.in_container_at_rule,
            !r.in_import_at_rule,
            !r.in_supports_at_rule,
            r.block_contents_grammar == BlockContentsGrammar::Stylesheet,
    {
        Ctx {
            in_page_at_rule: false,
            in_font_feature_values_at_rule: false,
            in_container_at_rule: false,
            in_import_at_rule: false,
            in_supports_at_rule: false,
            block_contents_grammar: BlockContentsGrammar::Stylesheet,
        }
    }
}

#[derive(Debug, PartialEq, Eq)]
pub enum ComponentValue {
    PreservedToken(TokenAndSpan),
    SimpleBlock(Box<SimpleBlock>),
    Function(Box<Function>),
    LayerName(LayerName),
    KeyframeBlock(Box<KeyframeBlock>),
    AtRule(Box<AtRule>),
}

/// A block opened by `{`, `(` or `[`, with the grammar its contents were
/// read under.
#[derive(Debug, PartialEq, Eq)]
pub struct SimpleBlock {
    pub span: Span,
    pub name: TokenAndSpan,
    pub grammar: BlockContentsGrammar,
    pub value: Vec<ComponentValue>,
}

/// A function call `name( ... )`.
#[derive(Debug, PartialEq, Eq)]
pub struct Function {
    pub span: Span,
    pub name: Ident,
    pub value: Vec<ComponentValue>,
}

/// `name: value`.
#[derive(Debug, PartialEq, Eq)]
pub struct Declaration {
    pub span: Span,
    pub name: Ident,
    pub value: Vec<ComponentValue>,
}

#[derive(Debug, PartialEq, Eq)]
pub struct ListOfComponentValues {
    pub span: Span,
    pub children: Vec<ComponentValue>,
}

/// One or more `.`-separated identifiers.
#[derive(Debug, PartialEq, Eq)]
pub struct LayerName {
    pub span: Span,
    pub name: Vec<Ident>,
}

#[derive(Debug, PartialEq, Eq)]
pub struct LayerNameList {
    pub span: Span,
    pub name_list: Vec<LayerName>,
}

#[derive(Debug, PartialEq, Eq)]
pub enum LayerPrelude {
    Name(LayerName),
    NameList(LayerNameList),
}

#[derive(Clone, Copy, Debug, PartialEq, Eq, Structural)]
pub enum RangeComparison {
    Lt,
    Le,
    Gt,
    Ge,
    Eq,
}

#[derive(Debug, PartialEq, Eq)]
pub struct Ratio {
    pub span: Span,
    pub left: Numeric,
    pub right: Numeric,
}

/// A value inside a media or size feature.
#[derive(Debug, PartialEq, Eq)]
pub enum FeatureValue {
    Number(Numeric),
    Ratio(Ratio),
    Ident(Ident),
    Dimension(Dimension),
    Function(Box<Function>),
}

/// A parenthesised media feature (also used for container size features):
/// `(name)`, `(name: value)`, `(a op b)` or `(a op name op b)`.
#[derive(Debug, PartialEq, Eq)]
pub enum Feature {
    Boolean { span: Span, name: Ident },
    Plain { span: Span, name: Ident, value: FeatureValue },
    Range { span: Span, left: FeatureValue, comparison: RangeComparison, right: FeatureValue },
    RangeInterval {
        span: Span,
        left: FeatureValue,
        left_comparison: RangeComparison,
        name: Ident,
        right_comparison: RangeComparison,
        right: FeatureValue,
    },
}

#[derive(Debug, PartialEq, Eq)]
pub enum SupportsFeature {
    Declaration(Declaration),
    Function(Function),
}

#[derive(Debug, PartialEq, Eq)]
pub enum GeneralEnclosed {
    Function(Function),
    SimpleBlock(SimpleBlock),
}

/// Which condition grammar a condition was read under.
#[derive(Clone, Copy, Debug, PartialEq, Eq, Structural)]
pub enum ConditionFamily {
    /// `<media-condition>`
    Media,
    /// `<media-condition-without-or>`
    MediaWithoutOr,
    /// `<supports-condition>`
    Supports,
    /// `<container-query>`
    Container,
}

#[derive(Debug, PartialEq, Eq)]
pub enum InParens {
    Feature(Feature),
    SupportsFeature(SupportsFeature),
    Condition(Box<Condition>),
    GeneralEnclosed(GeneralEnclosed),
}

/// `not`, `and` or `or` followed by its operand.
#[derive(Debug, PartialEq, Eq)]
pub struct CombinedCondition {
    pub span: Span,
    pub keyword: Ident,
    pub condition: InParens,
}

#[derive(Debug, PartialEq, Eq)]
pub enum ConditionItem {
    Not(Box<CombinedCondition>),
    InParens(InParens),
    And(Box<CombinedCondition>),
    Or(Box<CombinedCondition>),
}

/// A media condition, supports condition or container query.
#[derive(Debug, PartialEq, Eq)]
pub struct Condition {
    pub span: Span,
    pub conditions: Vec<ConditionItem>,
}

#[derive(Debug, PartialEq, Eq)]
pub struct MediaQuery {
    pub span: Span,
    pub modifier: Option<Ident>,
    pub media_type: Option<Ident>,
    pub keyword: Option<Ident>,
    pub condition: Option<Condition>,
}

#[derive(Debug, PartialEq, Eq)]
pub struct MediaQueryList {
    pub span: Span,
    pub queries: Vec<MediaQuery>,
}

#[derive(Debug, PartialEq, Eq)]
pub struct ContainerCondition {
    pub span: Span,
    pub name: Option<Ident>,
    pub query: Condition,
}

#[derive(Debug, PartialEq, Eq)]
pub enum UrlOrStr {
    Str(Str),
    Url(Url),
}

#[derive(Debug, PartialEq, Eq)]
pub enum ImportLayerName {
    Ident(Ident),
    Function(Function),
}

#[derive(Debug, PartialEq, Eq)]
pub enum ImportSupports {
    Condition(Condition),
    Declaration(Declaration),
}

#[derive(Debug, PartialEq, Eq)]
pub struct ImportPrelude {
    pub span: Span,
    pub href: UrlOrStr,
    pub layer_name: Option<ImportLayerName>,
    pub supports: Option<ImportSupports>,
    pub media: Option<MediaQueryList>,
}

#[derive(Debug, PartialEq, Eq)]
pub struct NamespacePrelude {
    pub span: Span,
    pub prefix: Option<Ident>,
    pub uri: UrlOrStr,
}

#[derive(Debug, PartialEq, Eq)]
pub enum KeyframesName {
    CustomIdent(Ident),
    Str(Str),
    /// `:local(name)` or `:global(name)`
    PseudoFunction { span: Span, pseudo: Ident, name: Ident },
    /// `:local name` or `:global name`
    PseudoPrefix { span: Span, pseudo: Ident, name: Ident },
}

#[derive(Debug, PartialEq, Eq)]
pub enum KeyframeSelector {
    Ident(Ident),
    Percentage(Numeric),
}

#[derive(Debug, PartialEq, Eq)]
pub struct KeyframeBlock {
    pub span: Span,
    pub prelude: Vec<KeyframeSelector>,
    pub block: SimpleBlock,
}

#[derive(Debug, PartialEq, Eq)]
pub enum DocumentMatchingFunction {
    Url(Url),
    Function(Function),
}

#[derive(Debug, PartialEq, Eq)]
pub struct DocumentPrelude {
    pub span: Span,
    pub matching_functions: Vec<DocumentMatchingFunction>,
}

#[derive(Debug, PartialEq, Eq)]
pub struct PageSelectorPseudo {
    pub span: Span,
    pub value: Ident,
}

#[derive(Debug, PartialEq, Eq)]
pub struct PageSelector {
    pub span: Span,
    pub page_type: Option<Ident>,
    pub pseudos: Option<Vec<PageSelectorPseudo>>,
}

#[derive(Debug, PartialEq, Eq)]
pub struct PageSelectorList {
    pub span: Span,
    pub selectors: Vec<PageSelector>,
}

/// A font family name: a string, or a sequence of identifiers.
#[derive(Debug, PartialEq, Eq)]
pub enum FamilyName {
    Str(Str),
    Idents { span: Span, value: Vec<Ident> },
}

#[derive(Debug, PartialEq, Eq)]
pub struct FontFeatureValuesPrelude {
    pub span: Span,
    pub font_family: Vec<FamilyName>,
}

#[derive(Debug, PartialEq, Eq)]
pub enum ColorProfileName {
    DashedIdent(Ident),
    Ident(Ident),
}

#[derive(Debug, PartialEq, Eq)]
pub enum CustomMediaType {
    Ident(Ident),
    MediaQueryList(MediaQueryList),
}

#[derive(Debug, PartialEq, Eq)]
pub struct CustomMediaQuery {
    pub span: Span,
    pub name: Ident,
    pub media: CustomMediaType,
}

#[derive(Debug, PartialEq, Eq)]
pub enum AtRulePrelude {
    CharsetPrelude(Str),
    ContainerPrelude(ContainerCondition),
    CounterStylePrelude(Ident),
    FontPaletteValuesPrelude(Ident),
    FontFeatureValuesPrelude(FontFeatureValuesPrelude),
    LayerPrelude(LayerPrelude),
    DocumentPrelude(DocumentPrelude),
    PagePrelude(PageSelectorList),
    PropertyPrelude(Ident),
    NamespacePrelude(NamespacePrelude),
    ColorProfilePrelude(ColorProfileName),
    NestPrelude(ListOfComponentValues),
    MediaPrelude(MediaQueryList),
    SupportsPrelude(Condition),
    ImportPrelude(ImportPrelude),
    KeyframesPrelude(KeyframesName),
    CustomMediaPrelude(CustomMediaQuery),
    ListOfComponentValues(ListOfComponentValues),
}

#[derive(Debug, PartialEq, Eq)]
pub enum AtRuleName {
    Ident(Ident),
    DashedIdent(Ident),
}

#[derive(Debug, PartialEq, Eq)]
pub struct AtRule {
    pub span: Span,
    pub name: AtRuleName,
    pub prelude: Option<AtRulePrelude>,
    pub block: Option<SimpleBlock>,
}

impl AtRuleName {
    pub open spec fn ident(self) -> Ident {
        match self {
            AtRuleName::Ident(i) => i,
            AtRuleName::DashedIdent(i) => i,
        }
    }
}

/// What went wrong, or the signal that an at-rule is not recognised here.
#[derive(Debug, PartialEq, Eq)]
pub enum ErrorKind {
    Expected(&'static str),
    InvalidCharsetAtRule,
    InvalidCustomIdent(String),
    /// Not a diagnostic: the at-rule's prelude falls back to component values.
    Ignore,
}

#[derive(Debug, PartialEq, Eq)]
pub struct ParseError {
    pub span: Span,
    pub kind: ErrorKind,
}

} // verus!

verus! {

impl ComponentValue {
    pub open spec fn span(&self) -> Span {
        match self {
            ComponentValue::PreservedToken(t) => t.span,
            ComponentValue::SimpleBlock(b) => b.span,
            ComponentValue::Function(f) => f.span,
            ComponentValue::LayerName(l) => l.span,
            ComponentValue::KeyframeBlock(k) => k.span,
            ComponentValue::AtRule(a) => a.span,
        }
    }
}

impl FeatureValue {
    pub open spec fn span(&self) -> Span {
        match self {
            FeatureValue::Number(n) => n.span,
            FeatureValue::Ratio(r) => r.span,
            FeatureValue::Ident(i) => i.span,
            FeatureValue::Dimension(d) => d.span,
            FeatureValue::Function(f) => f.span,
        }
    }
}

impl Feature {
    pub open spec fn span(&self) -> Span {
        match self {
            Feature::Boolean { span, .. } => *span,
            Feature::Plain { span, .. } => *span,
            Feature::Range { span, .. } => *span,
            Feature::RangeInterval { span, .. } => *span,
        }
    }
}

impl SupportsFeature {
    pub open spec fn span(&self) -> Span {
        match self {
            SupportsFeature::Declaration(d) => d.span,
            SupportsFeature::Function(f) => f.span,
        }
    }
}

impl GeneralEnclosed {
    pub open spec fn span(&self) -> Span {
        match self {
            GeneralEnclosed::Function(f) => f.span,
            GeneralEnclosed::SimpleBlock(b) => b.span,
        }
    }
}

impl InParens {
    pub open spec fn span(&self) -> Span {
        match self {
            InParens::Feature(f) => f.span(),
            InParens::SupportsFeature(f) => f.span(),
            InParens::Condition(c) => c.span,
            InParens::GeneralEnclosed(g) => g.span(),
        }
    }
}

impl ConditionItem {
    pub open spec fn span(&self) -> Span {
        match self {
            ConditionItem::Not(c) => c.span,
            ConditionItem::InParens(p) => p.span(),
            ConditionItem::And(c) => c.span,
            ConditionItem::Or(c) => c.span,
        }
    }
}

impl UrlOrStr {
    pub open spec fn span(&self) -> Span {
        match self {
            UrlOrStr::Str(s) => s.span,
            UrlOrStr::Url(u) => u.span,
        }
    }
}

impl KeyframesName {
    pub open spec fn span(&self) -> Span {
        match self {
            KeyframesName::CustomIdent(i) => i.span,
            KeyframesName::Str(s) => s.span,
            KeyframesName::PseudoFunction { span, .. } => *span,
            KeyframesName::PseudoPrefix { span, .. } => *span,
        }
    }
}

impl KeyframeSelector {
    pub open spec fn span(&self) -> Span {
        match self {
            KeyframeSelector::Ident(i) => i.span,
            KeyframeSelector::Percentage(n) => n.span,
        }
    }
}

impl LayerPrelude {
    pub open spec fn span(&self) -> Span {
        match self {
            LayerPrelude::Name(n) => n.span,
            LayerPrelude::NameList(l) => l.span,
        }
    }
}

impl ColorProfileName {
    pub open spec fn span(&self) -> Span {
        match self {
            ColorProfileName::DashedIdent(i) => i.span,
            ColorProfileName::Ident(i) => i.span,
        }
    }
}

impl AtRulePrelude {
    pub open spec fn span(&self) -> Span {
        match self {
            AtRulePrelude::CharsetPrelude(s) => s.span,
            AtRulePrelude::ContainerPrelude(c) => c.span,
            AtRulePrelude::CounterStylePrelude(i) => i.span,
            AtRulePrelude::FontPaletteValuesPrelude(i) => i.span,
            AtRulePrelude::FontFeatureValuesPrelude(f) => f.span,
            AtRulePrelude::LayerPrelude(l) => l.span(),
            AtRulePrelude::DocumentPrelude(d) => d.span,
            AtRulePrelude::PagePrelude(p) => p.span,
            AtRulePrelude::PropertyPrelude(i) => i.span,
            AtRulePrelude::NamespacePrelude(n) => n.span,
            AtRulePrelude::ColorProfilePrelude(c) => c.span(),
            AtRulePrelude::NestPrelude(l) => l.span,
            AtRulePrelude::MediaPrelude(m) => m.span,
            AtRulePrelude::SupportsPrelude(c) => c.span,
            AtRulePrelude::ImportPrelude(i) => i.span,
            AtRulePrelude::KeyframesPrelude(k) => k.span(),
            AtRulePrelude::CustomMediaPrelude(c) => c.span,
            AtRulePrelude::ListOfComponentValues(l) => l.span,
        }
    }
}

/// The two comparisons of a range interval point the same way.
pub open spec fn same_direction(a: RangeComparison, b: RangeComparison) -> bool {
    ||| (a is Lt || a is Le) && (b is Lt || b is Le)
    ||| (a is Gt || a is Ge) && (b is Gt || b is Ge)
}

impl Feature {
    /// A range interval's comparisons point the same way.
    pub open spec fn well_directed(&self) -> bool {
        self matches Feature::RangeInterval { left_comparison, right_comparison, .. }
            ==> same_direction(*left_comparison, *right_comparison)
    }
}

/// One list of a condition: `not X` alone, or `X` followed only by `and`
/// items or only by `or` items.
pub open spec fn combinators_pure(items: Seq<ConditionItem>) -> bool {
    &&& items.len() >= 1
    &&& {
        ||| items[0] is Not && items.len() == 1
        ||| items[0] is InParens && forall|i: int| 1 <= i < items.len() ==> (#[trigger] items[i]) is And
        ||| items[0] is InParens && forall|i: int| 1 <= i < items.len() ==> (#[trigger] items[i]) is Or
    }
}

} // verus!

verus! {

impl Feature {
    pub fn get_span(&self) -> (r: Span)
        ensures
            r == self.span(),
    {
        match self {
            Feature::Boolean { span, .. } => *span,
            Feature::Plain { span, .. } => *span,
            Feature::Range { span, .. } => *span,
            Feature::RangeInterval { span, .. } => *span,
        }
    }
}

impl InParens {
    pub fn get_span(&self) -> (r: Span)
        ensures
            r == self.span(),
    {
        match self {
            InParens::Feature(f) => f.get_span(),
            InParens::SupportsFeature(SupportsFeature::Declaration(d)) => d.span,
            InParens::SupportsFeature(SupportsFeature::Function(f)) => f.span,
            InParens::Condition(c) => c.span,
            InParens::GeneralEnclosed(GeneralEnclosed::Function(f)) => f.span,
            InParens::GeneralEnclosed(GeneralEnclosed::SimpleBlock(b)) => b.span,
        }
    }
}

} // verus!

verus! {

broadcast use vstd::std_specs::vec::axiom_vec_decreases_to_view;

/// Every list of a condition tree obeys `combinators_pure`, and every
/// range interval in it is well directed.
pub open spec fn condition_wf(c: Condition) -> bool
    decreases c,
{
    &&& combinators_pure(c.conditions@)
    &&& forall|i: int| 0 <= i < c.conditions@.len() ==> item_wf(#[trigger] c.conditions@[i])
}

pub open spec fn item_wf(item: ConditionItem) -> bool
    decreases item,
{
    match item {
        ConditionItem::Not(c) => in_parens_wf(c.condition),
        ConditionItem::InParens(p) => in_parens_wf(p),
        ConditionItem::And(c) => in_parens_wf(c.condition),
        ConditionItem::Or(c) => in_parens_wf(c.condition),
    }
}

pub open spec fn in_parens_wf(p: InParens) -> bool
    decreases p,
{
    match p {
        InParens::Feature(f) => f.well_directed(),
        InParens::Condition(c) => condition_wf(*c),
        _ => true,
    }
}

} // verus!

verus! {

/// Every query of a list has a well-formed condition, if any, whose spans
/// nest.
pub open spec fn media_queries_wf(l: MediaQueryList) -> bool {
    forall|k: int| 0 <= k < l.queries@.len() ==> ((#[trigger] l.queries@[k]).condition matches Some(c)
        ==> condition_wf(c) && condition_spans_nested(c))
}

/// Every condition in a prelude is well-formed and its spans nest.
pub open spec fn prelude_conditions_wf(p: AtRulePrelude) -> bool {
    match p {
        AtRulePrelude::MediaPrelude(l) => media_queries_wf(l),
        AtRulePrelude::SupportsPrelude(c) => condition_wf(c) && condition_spans_nested(c),
        AtRulePrelude::ContainerPrelude(cc) => condition_wf(cc.query) && condition_spans_nested(cc.query),
        AtRulePrelude::ImportPrelude(i) => {
            &&& (i.supports matches Some(ImportSupports::Condition(c)) ==> condition_wf(c)
                && condition_spans_nested(c))
            &&& (i.media matches Some(l) ==> media_queries_wf(l))
        },
        AtRulePrelude::CustomMediaPrelude(c) => c.media matches CustomMediaType::MediaQueryList(l)
            ==> media_queries_wf(l),
        _ => true,
    }
}

} // verus!

verus! {

/// Spans nest through a condition tree: each item lies within its list's
/// span and each operand within its `not` / `and` / `or`.
pub open spec fn condition_spans_nested(c: Condition) -> bool
    decreases c,
{
    &&& c.span.lo <= c.span.hi
    &&& forall|i: int| 0 <= i < c.conditions@.len() ==> c.span.encloses((#[trigger] c.conditions@[i]).span())
        && item_spans_nested(c.conditions@[i])
}

pub open spec fn item_spans_nested(item: ConditionItem) -> bool
    decreases item,
{
    match item {
        ConditionItem::InParens(p) => in_parens_spans_nested(p),
        ConditionItem::Not(c) => c.span.encloses(c.condition.span()) && in_parens_spans_nested(c.condition),
        ConditionItem::And(c) => c.span.encloses(c.condition.span()) && in_parens_spans_nested(c.condition),
        ConditionItem::Or(c) => c.span.encloses(c.condition.span()) && in_parens_spans_nested(c.condition),
    }
}

pub open spec fn in_parens_spans_nested(p: InParens) -> bool
    decreases p,
{
    match p {
        InParens::Condition(c) => condition_spans_nested(*c),
        _ => p.span().lo <= p.span().hi,
    }
}

} // verus!

verus! {

/// Spans nest through a component value: every node's span is well formed
/// and each child lies within its parent.
pub open spec fn component_nested(v: ComponentValue) -> bool
    decreases v,
{
    match v {
        ComponentValue::PreservedToken(t) => t.span.lo <= t.span.hi,
        ComponentValue::SimpleBlock(b) => block_nested(*b),
        ComponentValue::Function(f) => function_nested(*f),
        ComponentValue::LayerName(l) => l.span.lo <= l.span.hi,
        ComponentValue::KeyframeBlock(k) => k.span.encloses(k.block.span) && block_nested(k.block),
        ComponentValue::AtRule(a) => at_rule_nested(*a),
    }
}

pub open spec fn block_nested(b: SimpleBlock) -> bool
    decreases b,
{
    &&& b.span.lo <= b.span.hi
    &&& forall|k: int| 0 <= k < b.value@.len() ==> b.span.encloses((#[trigger] b.value@[k]).span())
        && component_nested(b.value@[k])
}

pub open spec fn function_nested(f: Function) -> bool
    decreases f,
{
    &&& f.span.encloses(f.name.span)
    &&& forall|k: int| 0 <= k < f.value@.len() ==> f.span.encloses((#[trigger] f.value@[k]).span())
        && component_nested(f.value@[k])
}

pub open spec fn prelude_nested(p: AtRulePrelude) -> bool
    decreases p,
{
    match p {
        AtRulePrelude::ListOfComponentValues(l) => forall|k: int| 0 <= k < l.children@.len()
            ==> l.span.encloses((#[trigger] l.children@[k]).span()) && component_nested(l.children@[k]),
        AtRulePrelude::MediaPrelude(m) => forall|k: int| 0 <= k < m.queries@.len()
            ==> m.span.encloses((#[trigger] m.queries@[k]).span),
        AtRulePrelude::ImportPrelude(i) => {
            &&& i.span.encloses(i.href.span())
            &&& (i.media matches Some(m) ==> i.span.encloses(m.span))
        },
        _ => true,
    }
}

pub open spec fn at_rule_nested(a: AtRule) -> bool
    decreases a,
{
    &&& a.span.encloses(a.name.ident().span)
    &&& (a.prelude matches Some(p) ==> a.span.encloses(p.span()) && prelude_nested(p))
    &&& (a.block matches Some(b) ==> a.span.encloses(b.span) && block_nested(b))
}

} // verus!
