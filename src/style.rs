//! Styles of the field's cells. They are crossterm's styles, carried through
//! unchanged; what a style holds is crossterm's business.
use vstd::prelude::*;
use crossterm::style::{Attribute, Color, ContentStyle};

verus! {

#[verifier::external_type_specification]
#[verifier::external_body]
pub struct ExContentStyle(ContentStyle);

#[verifier::external_type_specification]
#[verifier::external_body]
pub struct ExColor(Color);

/// Relies on crossterm's `ContentStyle::new`: a style with no color and no attribute.
#[verifier::external_body]
pub(crate) fn plain_style() -> (r: ContentStyle) {
    ContentStyle::new()
}

/// The style with the reverse-video attribute added.
pub uninterp spec fn reversed_of(s: ContentStyle) -> ContentStyle;

/// The background of a style, if it has one.
pub uninterp spec fn bg_of(s: ContentStyle) -> Option<Color>;

/// The style with its background replaced.
pub uninterp spec fn with_bg_of(s: ContentStyle, c: Color) -> ContentStyle;

/// Relies on crossterm's `Attributes::set`: the style with the reverse-video attribute added.
#[verifier::external_body]
pub(crate) fn reversed(style: ContentStyle) -> (r: ContentStyle)
    ensures
        r == reversed_of(style),
{
    let mut r = style;
    r.attributes.set(Attribute::Reverse);
    r
}

/// Relies on crossterm's `ContentStyle::background_color` field: the style's background, if set.
#[verifier::external_body]
pub(crate) fn background_of(style: &ContentStyle) -> (r: Option<Color>)
    ensures
        r == bg_of(*style),
{
    style.background_color
}

/// Relies on crossterm's `ContentStyle::background_color` field: the style with this background.
#[verifier::external_body]
pub(crate) fn with_background(style: ContentStyle, bg: Color) -> (r: ContentStyle)
    ensures
        r == with_bg_of(style, bg),
{
    let mut r = style;
    r.background_color = Some(bg);
    r
}

/// A glyph and the style it is drawn with.
#[derive(Debug, Clone, Copy)]
pub struct StyledChar {
    pub ch: char,
    pub style: ContentStyle,
}

/// How a scrollbar is drawn: its thumb and its track.
#[derive(Debug, Clone, Copy)]
pub struct ScrollBarStyle {
    pub thumb: StyledChar,
    pub track: StyledChar,
}

} // verus!
