//! Style attributes of a text layout, as plain values.
//!
//! Single-precision float attributes (scale, size, weight, slant) are held as
//! their IEEE-754 bit patterns and compared as floats compare.

use vstd::prelude::*;

verus! {

/// The bit pattern of the single-precision float 1.0.
pub const ONE_BITS: u32 = 0x3f80_0000;

/// The bit pattern of the single-precision float 400.0, the normal font weight.
pub const NORMAL_WEIGHT_BITS: u32 = 0x43c8_0000;

/// Whether the single-precision float with bit pattern `bits` is a NaN.
pub open spec fn is_nan_bits(bits: u32) -> bool {
    (bits & 0x7f80_0000u32) == 0x7f80_0000u32 && (bits & 0x007f_ffffu32) != 0u32
}

/// IEEE-754 equality of two single-precision floats given by their bit patterns:
/// no NaN equals anything, the two zeros are equal, and otherwise equal floats
/// have equal bits.
pub open spec fn single_eq_spec(a: u32, b: u32) -> bool {
    &&& !is_nan_bits(a)
    &&& !is_nan_bits(b)
    &&& (a == b || (a | b) & 0x7fff_ffffu32 == 0u32)
}

/// Compares two single-precision floats, given by their bit patterns, with `==`.
pub fn single_eq(a: u32, b: u32) -> (r: bool)
    ensures
        r == single_eq_spec(a, b),
{
    let a_nan = (a & 0x7f80_0000u32) == 0x7f80_0000u32 && (a & 0x007f_ffffu32) != 0u32;
    let b_nan = (b & 0x7f80_0000u32) == 0x7f80_0000u32 && (b & 0x007f_ffffu32) != 0u32;
    !a_nan && !b_nan && (a == b || (a | b) & 0x7fff_ffffu32 == 0u32)
}

/// Float equality is exact apart from zeros and NaN: two patterns compare
/// equal only if they are the same pattern or both zeros; a pattern that is
/// not a NaN equals itself; the two zeros are equal; a NaN equals nothing.
pub proof fn lemma_single_eq_exact(a: u32, b: u32)
    ensures
        single_eq_spec(a, b) ==> a == b || (a & 0x7fff_ffffu32 == 0u32 && b & 0x7fff_ffffu32 == 0u32),
        !(a & 0x7f80_0000u32 == 0x7f80_0000u32 && a & 0x007f_ffffu32 != 0u32) ==> single_eq_spec(a, a),
        (a & 0x7fff_ffffu32 == 0u32 && b & 0x7fff_ffffu32 == 0u32) ==> single_eq_spec(a, b),
        (a & 0x7f80_0000u32 == 0x7f80_0000u32 && a & 0x007f_ffffu32 != 0u32) ==> !single_eq_spec(a, b) && !single_eq_spec(b, a),
        single_eq_spec(a, b) == single_eq_spec(b, a),
{
    assert((a & 0x7fff_ffffu32 == 0u32 && b & 0x7fff_ffffu32 == 0u32) <==> ((a | b) & 0x7fff_ffffu32 == 0u32)) by (bit_vector);
    assert((a & 0x7fff_ffffu32 == 0u32) ==> (a & 0x7f80_0000u32 == 0u32)) by (bit_vector);
    assert((b & 0x7fff_ffffu32 == 0u32) ==> (b & 0x7f80_0000u32 == 0u32)) by (bit_vector);
    assert((a | b) == (b | a)) by (bit_vector);
}

/// Generic font families.
#[derive(Copy, Clone, PartialEq, Eq, Debug, Structural)]
pub enum GenericFamily {
    Serif,
    SansSerif,
    Monospace,
    Cursive,
    Fantasy,
    SystemUi,
    UiSerif,
    UiSansSerif,
    UiMonospace,
    UiRounded,
    Emoji,
    Math,
    FangSong,
}

/// A named or generic font family.
#[derive(Clone, Debug)]
pub enum FontFamily {
    Named(String),
    Generic(GenericFamily),
}

/// A font family as a plain value.
pub enum FontFamilyView {
    Named(Seq<char>),
    Generic(GenericFamily),
}

impl View for FontFamily {
    type V = FontFamilyView;

    open spec fn view(&self) -> FontFamilyView {
        match self {
            FontFamily::Named(name) => FontFamilyView::Named(name@),
            FontFamily::Generic(g) => FontFamilyView::Generic(*g),
        }
    }
}

/// A stack of font families to select from.
#[derive(Clone, Debug)]
pub enum FontStack {
    /// A font family list in CSS format.
    Source(String),
    /// A single font family.
    Single(FontFamily),
    /// An ordered list of font families.
    List(Vec<FontFamily>),
}

/// A font stack as a plain value.
pub enum FontStackView {
    Source(Seq<char>),
    Single(FontFamilyView),
    List(Seq<FontFamilyView>),
}

impl View for FontStack {
    type V = FontStackView;

    open spec fn view(&self) -> FontStackView {
        match self {
            FontStack::Source(s) => FontStackView::Source(s@),
            FontStack::Single(f) => FontStackView::Single(f@),
            FontStack::List(fs) => FontStackView::List(fs@.map_values(|f: FontFamily| f@)),
        }
    }
}

impl FontFamily {
    /// Compares two font families with `==`.
    pub fn same_as(&self, other: &FontFamily) -> (r: bool)
        ensures
            r == (self@ == other@),
    {
        match (self, other) {
            (FontFamily::Named(a), FontFamily::Named(b)) => *a == *b,
            (FontFamily::Generic(a), FontFamily::Generic(b)) => *a == *b,
            _ => false,
        }
    }
}

impl FontStack {
    /// The default font stack: the generic sans-serif family.
    pub fn sans_serif() -> (r: FontStack)
        ensures
            r@ == FontStackView::Single(FontFamilyView::Generic(GenericFamily::SansSerif)),
    {
        FontStack::Single(FontFamily::Generic(GenericFamily::SansSerif))
    }

    /// Compares two font stacks with `==`.
    pub fn same_as(&self, other: &FontStack) -> (r: bool)
        ensures
            r == (self@ == other@),
    {
        match (self, other) {
            (FontStack::Source(a), FontStack::Source(b)) => *a == *b,
            (FontStack::Single(a), FontStack::Single(b)) => a.same_as(b),
            (FontStack::List(a), FontStack::List(b)) => {
                let ghost va = a@.map_values(|f: FontFamily| f@);
                let ghost vb = b@.map_values(|f: FontFamily| f@);
                if a.len() != b.len() {
                    proof {
                        assert(va.len() != vb.len());
                    }
                    return false;
                }
                proof {
                    assert(self@ == FontStackView::List(va));
                    assert(other@ == FontStackView::List(vb));
                }
                let mut i: usize = 0;
                while i < a.len()
                    invariant
                        self@ == FontStackView::List(va),
                        other@ == FontStackView::List(vb),
                        a@.len() == b@.len(),
                        va == a@.map_values(|f: FontFamily| f@),
                        vb == b@.map_values(|f: FontFamily| f@),
                        0 <= i <= a@.len(),
                        forall|j: int| 0 <= j < i ==> #[trigger] va[j] == vb[j],
                    decreases a@.len() - i,
                {
                    if !a[i].same_as(&b[i]) {
                        proof {
                            assert(va[i as int] != vb[i as int]);
                        }
                        return false;
                    }
                    i = i + 1;
                }
                proof {
                    assert(va =~= vb);
                }
                true
            },
            _ => false,
        }
    }
}

/// The style of a font: upright, italic, or oblique with an optional angle
/// (the bit pattern of a single-precision float, in degrees).
#[derive(Copy, Clone, Debug)]
pub enum FontStyle {
    Normal,
    Italic,
    Oblique(Option<u32>),
}

/// Equality of font styles, with the angles compared as floats.
pub open spec fn style_eq_spec(a: FontStyle, b: FontStyle) -> bool {
    match (a, b) {
        (FontStyle::Normal, FontStyle::Normal) => true,
        (FontStyle::Italic, FontStyle::Italic) => true,
        (FontStyle::Oblique(None), FontStyle::Oblique(None)) => true,
        (FontStyle::Oblique(Some(x)), FontStyle::Oblique(Some(y))) => single_eq_spec(x, y),
        _ => false,
    }
}

impl FontStyle {
    /// Compares two font styles with `==`.
    pub fn same_as(&self, other: &FontStyle) -> (r: bool)
        ensures
            r == style_eq_spec(*self, *other),
    {
        match (self, other) {
            (FontStyle::Normal, FontStyle::Normal) => true,
            (FontStyle::Italic, FontStyle::Italic) => true,
            (FontStyle::Oblique(None), FontStyle::Oblique(None)) => true,
            (FontStyle::Oblique(Some(x)), FontStyle::Oblique(Some(y))) => single_eq(*x, *y),
            _ => false,
        }
    }
}

/// The alignment of the lines of a layout.
#[derive(Copy, Clone, PartialEq, Eq, Debug, Structural)]
pub enum Alignment {
    Start,
    Middle,
    End,
    Justified,
}

impl Default for Alignment {
    fn default() -> (r: Self)
        ensures
            r == Alignment::Start,
    {
        Alignment::Start
    }
}

} // verus!
