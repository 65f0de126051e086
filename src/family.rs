//! At-rule families: which grammar an at-rule's name selects for its
//! prelude, which terminator must follow, and which context its block is
//! read under.
use vstd::prelude::*;
use crate::token::{keyword_eq, matches_keyword};
use crate::ast::{BlockContentsGrammar, Ctx};

verus! {

#[derive(Clone, Copy, Debug, PartialEq, Eq, Structural)]
pub enum AtRuleFamily {
    /// `@viewport`, `@-ms-viewport`, `@-o-viewport`
    Viewport,
    FontFace,
    Charset,
    Container,
    CounterStyle,
    FontPaletteValues,
    FontFeatureValues,
    /// `@stylistic`, `@historical-forms`, `@styleset`, `@character-variant`,
    /// `@swash`, `@ornaments`, `@annotation`
    FontFeatureValuesSub,
    Layer,
    /// `@document`, `@-moz-document`
    Document,
    Page,
    /// The sixteen page margin boxes, `@top-left-corner` to `@right-bottom`.
    PageMargin,
    Property,
    Namespace,
    ColorProfile,
    Nest,
    Media,
    Supports,
    Import,
    /// `@keyframes` and its vendor-prefixed forms.
    Keyframes,
    CustomMedia,
    Unknown,
}

pub open spec fn is_page_margin_name(n: Seq<char>) -> bool {
    ||| keyword_eq(n, "top-left-corner"@) ||| keyword_eq(n, "top-left"@)
    ||| keyword_eq(n, "top-center"@) ||| keyword_eq(n, "top-right"@)
    ||| keyword_eq(n, "top-right-corner"@) ||| keyword_eq(n, "bottom-left-corner"@)
    ||| keyword_eq(n, "bottom-left"@) ||| keyword_eq(n, "bottom-center"@)
    ||| keyword_eq(n, "bottom-right"@) ||| keyword_eq(n, "bottom-right-corner"@)
    ||| keyword_eq(n, "left-top"@) ||| keyword_eq(n, "left-middle"@)
    ||| keyword_eq(n, "left-bottom"@) ||| keyword_eq(n, "right-top"@)
    ||| keyword_eq(n, "right-middle"@) ||| keyword_eq(n, "right-bottom"@)
}

pub open spec fn is_font_feature_values_sub_name(n: Seq<char>) -> bool {
    ||| keyword_eq(n, "stylistic"@) ||| keyword_eq(n, "historical-forms"@)
    ||| keyword_eq(n, "styleset"@) ||| keyword_eq(n, "character-variant"@)
    ||| keyword_eq(n, "swash"@) ||| keyword_eq(n, "ornaments"@)
    ||| keyword_eq(n, "annotation"@)
}

pub open spec fn is_keyframes_name(n: Seq<char>) -> bool {
    ||| keyword_eq(n, "keyframes"@) ||| keyword_eq(n, "-webkit-keyframes"@)
    ||| keyword_eq(n, "-moz-keyframes"@) ||| keyword_eq(n, "-o-keyframes"@)
    ||| keyword_eq(n, "-ms-keyframes"@)
}

/// The family selected by an at-rule's name, compared without ASCII case.
pub open spec fn family_of(n: Seq<char>) -> AtRuleFamily {
    if keyword_eq(n, "viewport"@) || keyword_eq(n, "-ms-viewport"@) || keyword_eq(n, "-o-viewport"@) {
        AtRuleFamily::Viewport
    } else if keyword_eq(n, "font-face"@) {
        AtRuleFamily::FontFace
    } else if keyword_eq(n, "charset"@) {
        AtRuleFamily::Charset
    } else if keyword_eq(n, "container"@) {
        AtRuleFamily::Container
    } else if keyword_eq(n, "counter-style"@) {
        AtRuleFamily::CounterStyle
    } else if keyword_eq(n, "font-palette-values"@) {
        AtRuleFamily::FontPaletteValues
    } else if keyword_eq(n, "font-feature-values"@) {
        AtRuleFamily::FontFeatureValues
    } else if is_font_feature_values_sub_name(n) {
        AtRuleFamily::FontFeatureValuesSub
    } else if keyword_eq(n, "layer"@) {
        AtRuleFamily::Layer
    } else if keyword_eq(n, "document"@) || keyword_eq(n, "-moz-document"@) {
        AtRuleFamily::Document
    } else if keyword_eq(n, "page"@) {
        AtRuleFamily::Page
    } else if is_page_margin_name(n) {
        AtRuleFamily::PageMargin
    } else if keyword_eq(n, "property"@) {
        AtRuleFamily::Property
    } else if keyword_eq(n, "namespace"@) {
        AtRuleFamily::Namespace
    } else if keyword_eq(n, "color-profile"@) {
        AtRuleFamily::ColorProfile
    } else if keyword_eq(n, "nest"@) {
        AtRuleFamily::Nest
    } else if keyword_eq(n, "media"@) {
        AtRuleFamily::Media
    } else if keyword_eq(n, "supports"@) {
        AtRuleFamily::Supports
    } else if keyword_eq(n, "import"@) {
        AtRuleFamily::Import
    } else if is_keyframes_name(n) {
        AtRuleFamily::Keyframes
    } else if keyword_eq(n, "custom-media"@) {
        AtRuleFamily::CustomMedia
    } else {
        AtRuleFamily::Unknown
    }
}

/// Families whose prelude must be followed by a block.
pub open spec fn needs_block(f: AtRuleFamily) -> bool {
    !(f is Charset || f is Import || f is Namespace || f is Layer || f is CustomMedia || f is Unknown)
}

/// Families whose prelude must be followed by `;`.
pub open spec fn needs_semicolon(f: AtRuleFamily) -> bool {
    f is Charset || f is Import || f is Namespace
}

/// Families whose prelude may be missing before `{` or `;`.
pub open spec fn prelude_optional(f: AtRuleFamily) -> bool {
    f is Media || f is Page
}

/// The context an at-rule's block is read under, given the enclosing one.
pub open spec fn block_ctx(f: AtRuleFamily, ctx: Ctx) -> Ctx {
    match f {
        AtRuleFamily::Viewport | AtRuleFamily::FontFace | AtRuleFamily::FontPaletteValues
        | AtRuleFamily::FontFeatureValuesSub | AtRuleFamily::Property | AtRuleFamily::ColorProfile
        | AtRuleFamily::CounterStyle | AtRuleFamily::PageMargin => Ctx {
            block_contents_grammar: BlockContentsGrammar::DeclarationList,
            ..ctx
        },
        AtRuleFamily::FontFeatureValues => Ctx {
            in_font_feature_values_at_rule: true,
            block_contents_grammar: BlockContentsGrammar::DeclarationList,
            ..ctx
        },
        AtRuleFamily::Page => Ctx {
            in_page_at_rule: true,
            block_contents_grammar: BlockContentsGrammar::DeclarationList,
            ..ctx
        },
        AtRuleFamily::Layer => Ctx { block_contents_grammar: BlockContentsGrammar::Stylesheet, ..ctx },
        AtRuleFamily::Media | AtRuleFamily::Supports | AtRuleFamily::Container | AtRuleFamily::Document => Ctx {
            in_container_at_rule: f is Container,
            block_contents_grammar: if ctx.block_contents_grammar is StyleBlock {
                BlockContentsGrammar::StyleBlock
            } else {
                BlockContentsGrammar::Stylesheet
            },
            ..ctx
        },
        AtRuleFamily::Nest => Ctx { block_contents_grammar: BlockContentsGrammar::StyleBlock, ..ctx },
        _ => Ctx { block_contents_grammar: BlockContentsGrammar::NoGrammar, ..ctx },
    }
}

fn page_margin_name(n: &str) -> (r: bool)
    ensures
        r == is_page_margin_name(n@),
{
    matches_keyword(n, "top-left-corner") || matches_keyword(n, "top-left")
        || matches_keyword(n, "top-center") || matches_keyword(n, "top-right")
        || matches_keyword(n, "top-right-corner") || matches_keyword(n, "bottom-left-corner")
        || matches_keyword(n, "bottom-left") || matches_keyword(n, "bottom-center")
        || matches_keyword(n, "bottom-right") || matches_keyword(n, "bottom-right-corner")
        || matches_keyword(n, "left-top") || matches_keyword(n, "left-middle")
        || matches_keyword(n, "left-bottom") || matches_keyword(n, "right-top")
        || matches_keyword(n, "right-middle") || matches_keyword(n, "right-bottom")
}

fn font_feature_values_sub_name(n: &str) -> (r: bool)
    ensures
        r == is_font_feature_values_sub_name(n@),
{
    matches_keyword(n, "stylistic") || matches_keyword(n, "historical-forms")
        || matches_keyword(n, "styleset") || matches_keyword(n, "character-variant")
        || matches_keyword(n, "swash") || matches_keyword(n, "ornaments")
        || matches_keyword(n, "annotation")
}

fn keyframes_name(n: &str) -> (r: bool)
    ensures
        r == is_keyframes_name(n@),
{
    matches_keyword(n, "keyframes") || matches_keyword(n, "-webkit-keyframes")
        || matches_keyword(n, "-moz-keyframes") || matches_keyword(n, "-o-keyframes")
        || matches_keyword(n, "-ms-keyframes")
}

/// The family an at-rule's name selects.
pub fn classify(n: &str) -> (r: AtRuleFamily)
    ensures
        r == family_of(n@),
{
    if matches_keyword(n, "viewport") || matches_keyword(n, "-ms-viewport") || matches_keyword(n, "-o-viewport") {
        AtRuleFamily::Viewport
    } else if matches_keyword(n, "font-face") {
        AtRuleFamily::FontFace
    } else if matches_keyword(n, "charset") {
        AtRuleFamily::Charset
    } else if matches_keyword(n, "container") {
        AtRuleFamily::Container
    } else if matches_keyword(n, "counter-style") {
        AtRuleFamily::CounterStyle
    } else if matches_keyword(n, "font-palette-values") {
        AtRuleFamily::FontPaletteValues
    } else if matches_keyword(n, "font-feature-values") {
        AtRuleFamily::FontFeatureValues
    } else if font_feature_values_sub_name(n) {
        AtRuleFamily::FontFeatureValuesSub
    } else if matches_keyword(n, "layer") {
        AtRuleFamily::Layer
    } else if matches_keyword(n, "document") || matches_keyword(n, "-moz-document") {
        AtRuleFamily::Document
    } else if matches_keyword(n, "page") {
        AtRuleFamily::Page
    } else if page_margin_name(n) {
        AtRuleFamily::PageMargin
    } else if matches_keyword(n, "property") {
        AtRuleFamily::Property
    } else if matches_keyword(n, "namespace") {
        AtRuleFamily::Namespace
    } else if matches_keyword(n, "color-profile") {
        AtRuleFamily::ColorProfile
    } else if matches_keyword(n, "nest") {
        AtRuleFamily::Nest
    } else if matches_keyword(n, "media") {
        AtRuleFamily::Media
    } else if matches_keyword(n, "supports") {
        AtRuleFamily::Supports
    } else if matches_keyword(n, "import") {
        AtRuleFamily::Import
    } else if keyframes_name(n) {
        AtRuleFamily::Keyframes
    } else if matches_keyword(n, "custom-media") {
        AtRuleFamily::CustomMedia
    } else {
        AtRuleFamily::Unknown
    }
}

/// The context an at-rule's block is read under.
pub fn block_context(f: AtRuleFamily, ctx: Ctx) -> (r: Ctx)
    ensures
        r == block_ctx(f, ctx),
{
    match f {
        AtRuleFamily::Viewport | AtRuleFamily::FontFace | AtRuleFamily::FontPaletteValues
        | AtRuleFamily::FontFeatureValuesSub | AtRuleFamily::Property | AtRuleFamily::ColorProfile
        | AtRuleFamily::CounterStyle | AtRuleFamily::PageMargin => Ctx {
            block_contents_grammar: BlockContentsGrammar::DeclarationList,
            ..ctx
        },
        AtRuleFamily::FontFeatureValues => Ctx {
            in_font_feature_values_at_rule: true,
            block_contents_grammar: BlockContentsGrammar::DeclarationList,
            ..ctx
        },
        AtRuleFamily::Page => Ctx {
            in_page_at_rule: true,
            block_contents_grammar: BlockContentsGrammar::DeclarationList,
            ..ctx
        },
        AtRuleFamily::Layer => Ctx { block_contents_grammar: BlockContentsGrammar::Stylesheet, ..ctx },
        AtRuleFamily::Media | AtRuleFamily::Supports | AtRuleFamily::Container | AtRuleFamily::Document => Ctx {
            in_container_at_rule: matches!(f, AtRuleFamily::Container),
            block_contents_grammar: if matches!(ctx.block_contents_grammar, BlockContentsGrammar::StyleBlock) {
                BlockContentsGrammar::StyleBlock
            } else {
                BlockContentsGrammar::Stylesheet
            },
            ..ctx
        },
        AtRuleFamily::Nest => Ctx { block_contents_grammar: BlockContentsGrammar::StyleBlock, ..ctx },
        _ => Ctx { block_contents_grammar: BlockContentsGrammar::NoGrammar, ..ctx },
    }
}

} // verus!
