//! Brushes for text: the paint of the glyphs, and whether they are hinted.

use vello::peniko::{Brush, Color, Gradient};
use vstd::prelude::*;

verus! {

/// The paint of a shape, from `vello::peniko`.
#[verifier::external_type_specification]
#[verifier::external_body]
pub struct ExBrush(Brush);

/// A 32-bit RGBA colour, from `vello::peniko`.
#[verifier::external_type_specification]
#[verifier::external_body]
pub struct ExColor(Color);

/// A colour gradient, from `vello::peniko`.
#[verifier::external_type_specification]
#[verifier::external_body]
pub struct ExGradient(Gradient);

/// `<peniko::Brush as Clone>::clone`, which the derived `Clone` of
/// `TextBrush` calls.
///
/// Nothing is stated of the copy: a brush is opaque to the proofs, and its
/// gradient stops may be stored differently in the copy.
pub assume_specification[ <Brush as Clone>::clone ](b: &Brush) -> Brush;

/// Whether a section of text should be hinted.
#[derive(Copy, Clone, PartialEq, Eq, Hash, Debug, Structural)]
pub enum Hinting {
    Yes,
    No,
}

impl Hinting {
    /// Whether text drawn with this setting should be hinted.
    pub fn should_hint(self) -> (r: bool)
        ensures
            r <==> self == Hinting::Yes,
    {
        match self {
            Hinting::Yes => true,
            Hinting::No => false,
        }
    }
}

impl Default for Hinting {
    fn default() -> (r: Self)
        ensures
            r == Hinting::Yes,
    {
        Hinting::Yes
    }
}

/// A brush for laid-out text, which can mark glyphs as selected/highlighted.
#[derive(Clone, Debug)]
pub enum TextBrush {
    Normal(Brush, Hinting),
    Highlight { text: Brush, fill: Brush, hinting: Hinting },
}

/// The colour that `peniko::Color::rgba8` makes of the four channels.
pub uninterp spec fn rgba_color(r: u8, g: u8, b: u8, a: u8) -> Color;

/// Calls `peniko::Color::rgba8`.
///
/// Trusted: the result is the colour that `rgba_color` names.
#[verifier::external_body]
fn color_rgba8(r: u8, g: u8, b: u8, a: u8) -> (c: Color)
    ensures
        c == rgba_color(r, g, b, a),
{
    Color::rgba8(r, g, b, a)
}

/// The brush that `<peniko::Brush as From<Color>>::from` makes of `c`: the
/// solid brush of that colour.
pub uninterp spec fn solid_brush(c: Color) -> Brush;

/// The brush that `<peniko::Brush as From<Gradient>>::from` makes of `g`: the
/// gradient brush of that gradient.
pub uninterp spec fn gradient_brush(g: Gradient) -> Brush;

/// Whether `<peniko::Brush as PartialEq>::eq` finds `a` and `b` equal: same
/// kind, and equal colour, gradient or image. Gradient geometry compares as
/// floats, gradient stop offsets by their bit patterns, and image data by the
/// identity of its blob.
pub uninterp spec fn brushes_equal(a: Brush, b: Brush) -> bool;

/// Calls `<peniko::Brush as From<Color>>::from`.
///
/// Trusted: the result is the brush that `solid_brush` names.
#[verifier::external_body]
fn brush_from_color(c: Color) -> (r: Brush)
    ensures
        r == solid_brush(c),
{
    Brush::from(c)
}

/// Calls `<peniko::Brush as From<Gradient>>::from`.
///
/// Trusted: the result is the brush that `gradient_brush` names.
#[verifier::external_body]
fn brush_from_gradient(g: Gradient) -> (r: Brush)
    ensures
        r == gradient_brush(g),
{
    Brush::from(g)
}

/// Calls `<peniko::Brush as PartialEq>::eq`.
///
/// Trusted: the result is the one that `brushes_equal` names.
#[verifier::external_body]
fn brush_eq(a: &Brush, b: &Brush) -> (r: bool)
    ensures
        r == brushes_equal(*a, *b),
{
    a == b
}

impl TextBrush {
    /// The hinting setting of the brush.
    pub open spec fn hinting_of(self) -> Hinting {
        match self {
            TextBrush::Normal(_, h) => h,
            TextBrush::Highlight { hinting, .. } => hinting,
        }
    }

    /// Sets the hinting of the brush, keeping its paint.
    pub fn set_hinting(&mut self, hinting: Hinting)
        ensures
            *final(self) == match *old(self) {
                TextBrush::Normal(b, _) => TextBrush::Normal(b, hinting),
                TextBrush::Highlight { text, fill, .. } => TextBrush::Highlight {
                    text,
                    fill,
                    hinting,
                },
            },
    {
        match self {
            TextBrush::Normal(_, should_hint) => *should_hint = hinting,
            TextBrush::Highlight { hinting: should_hint, .. } => *should_hint = hinting,
        }
    }

    /// The paint of the glyphs: the brush of a normal brush, the text brush of
    /// a highlight.
    pub open spec fn text_paint(self) -> Brush {
        match self {
            TextBrush::Normal(b, _) => b,
            TextBrush::Highlight { text, .. } => text,
        }
    }

    /// The paint behind highlighted glyphs, if the brush highlights.
    pub open spec fn fill_paint(self) -> Option<Brush> {
        match self {
            TextBrush::Normal(..) => None,
            TextBrush::Highlight { fill, .. } => Some(fill),
        }
    }

    /// Equality of text brushes: same kind, same hinting, and paints that
    /// `peniko` finds equal.
    pub open spec fn same_spec(self, other: TextBrush) -> bool {
        match (self, other) {
            (TextBrush::Normal(a, ha), TextBrush::Normal(b, hb)) => brushes_equal(a, b) && ha == hb,
            (
                TextBrush::Highlight { text: ta, fill: fa, hinting: ha },
                TextBrush::Highlight { text: tb, fill: fb, hinting: hb },
            ) => brushes_equal(ta, tb) && brushes_equal(fa, fb) && ha == hb,
            _ => false,
        }
    }

    /// Compares two brushes as `==` on them does.
    pub fn same_as(&self, other: &TextBrush) -> (r: bool)
        ensures
            r == self.same_spec(*other),
    {
        match (self, other) {
            (TextBrush::Normal(a, ha), TextBrush::Normal(b, hb)) => brush_eq(a, b) && *ha == *hb,
            (
                TextBrush::Highlight { text: ta, fill: fa, hinting: ha },
                TextBrush::Highlight { text: tb, fill: fb, hinting: hb },
            ) => brush_eq(ta, tb) && brush_eq(fa, fb) && *ha == *hb,
            _ => false,
        }
    }

    /// A normal, hinted brush painting with the colour `value`.
    pub fn from_color(value: Color) -> (r: TextBrush)
        ensures
            r == TextBrush::Normal(solid_brush(value), Hinting::Yes),
    {
        TextBrush::Normal(brush_from_color(value), Hinting::default())
    }

    /// A normal, hinted brush painting with the gradient `value`.
    pub fn from_gradient(value: Gradient) -> (r: TextBrush)
        ensures
            r == TextBrush::Normal(gradient_brush(value), Hinting::Yes),
    {
        TextBrush::Normal(brush_from_gradient(value), Hinting::default())
    }
}

/// Two text brushes are equal exactly when they are of the same kind, have the
/// same hinting, and peniko finds every paint of one equal to the matching
/// paint of the other (the glyph paint, and for highlights the fill too).
pub proof fn lemma_brush_equality_components(x: TextBrush, y: TextBrush)
    ensures
        x.same_spec(y) <==> {
            &&& (x is Normal <==> y is Normal)
            &&& x.hinting_of() == y.hinting_of()
            &&& brushes_equal(x.text_paint(), y.text_paint())
            &&& (x.fill_paint() is Some && y.fill_paint() is Some) ==> brushes_equal(
                x.fill_paint().unwrap(),
                y.fill_paint().unwrap(),
            )
        },
{
}

impl PartialEq for TextBrush {
    fn eq(&self, other: &Self) -> (r: bool) {
        self.same_as(other)
    }
}

impl vstd::std_specs::cmp::PartialEqSpecImpl for TextBrush {
    open spec fn obeys_eq_spec() -> bool {
        true
    }

    open spec fn eq_spec(&self, other: &TextBrush) -> bool {
        self.same_spec(*other)
    }
}

impl From<Brush> for TextBrush {
    fn from(value: Brush) -> (r: Self) {
        TextBrush::Normal(value, Hinting::Yes)
    }
}

impl vstd::std_specs::convert::FromSpecImpl<Brush> for TextBrush {
    open spec fn obeys_from_spec() -> bool {
        true
    }

    open spec fn from_spec(v: Brush) -> Self {
        TextBrush::Normal(v, Hinting::Yes)
    }
}

impl Default for TextBrush {
    /// A normal, hinted brush painting with peniko's default brush: the solid
    /// brush of the all-zero (transparent black) colour, which is what
    /// `<peniko::Brush as Default>::default` is.
    fn default() -> (r: Self)
        ensures
            r == TextBrush::Normal(solid_brush(rgba_color(0, 0, 0, 0)), Hinting::Yes),
    {
        TextBrush::Normal(brush_from_color(color_rgba8(0, 0, 0, 0)), Hinting::default())
    }
}

} // verus!
