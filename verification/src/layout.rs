//! The state of a text layout: the text, its style attributes, whether the
//! underlying layout must be rebuilt, and the accessibility ids of its runs.
//!
//! The underlying layout object is built by the caller: `rebuild` says which of
//! its two stages (shaping the text, breaking it into lines) must run again.

use crate::access::{
    fresh_count, ids_below, ranges_of, valid_run_ranges, AccessIds, AccessView, InlineTextBox,
};
use crate::brush::TextBrush;
use crate::style::{
    is_nan_bits, single_eq, single_eq_spec, style_eq_spec, Alignment, FontStack, FontStackView, FontStyle,
    NORMAL_WEIGHT_BITS, ONE_BITS,
};
use vstd::prelude::*;

verus! {

/// A component for displaying text on screen: the text and its styling, and the
/// state of the layout built from them.
///
/// The layout is not valid until `rebuild` has been called and its steps run.
/// Changing the text or a style attribute to a different value marks the
/// layout as needing a rebuild.
#[derive(Clone, Debug)]
pub struct TextLayout {
    text: String,
    scale: u32,
    brush: TextBrush,
    font: FontStack,
    text_size: u32,
    weight: u32,
    style: FontStyle,
    alignment: Alignment,
    max_advance: Option<u32>,
    needs_layout: bool,
    needs_line_breaks: bool,
    access: AccessIds,
}

/// A text layout as plain values. Float attributes are bit patterns.
pub struct TextLayoutView {
    pub text: Seq<char>,
    pub scale: u32,
    pub brush: TextBrush,
    pub font: FontStackView,
    pub text_size: u32,
    pub weight: u32,
    pub style: FontStyle,
    pub alignment: Alignment,
    pub max_advance: Option<u32>,
    pub needs_layout: bool,
    pub needs_line_breaks: bool,
    pub access: AccessView,
}

impl View for TextLayout {
    type V = TextLayoutView;

    closed spec fn view(&self) -> TextLayoutView {
        TextLayoutView {
            text: self.text@,
            scale: self.scale,
            brush: self.brush,
            font: self.font@,
            text_size: self.text_size,
            weight: self.weight,
            style: self.style,
            alignment: self.alignment,
            max_advance: self.max_advance,
            needs_layout: self.needs_layout,
            needs_line_breaks: self.needs_line_breaks,
            access: self.access@,
        }
    }
}

/// Which stages of the underlying layout must run, in this order: building
/// (shaping) the layout from the text and its attributes, then breaking it
/// into lines with the maximum advance and the alignment.
#[derive(Copy, Clone, PartialEq, Eq, Debug, Structural)]
pub struct RebuildSteps {
    pub build_layout: bool,
    pub break_lines: bool,
}

/// The layout with both stages marked as needed.
pub open spec fn invalidated(v: TextLayoutView) -> TextLayoutView {
    TextLayoutView { needs_layout: true, needs_line_breaks: true, ..v }
}

/// Whether the layout must be rebuilt.
pub open spec fn needs_rebuild_spec(v: TextLayoutView) -> bool {
    v.needs_layout || v.needs_line_breaks
}

/// The stages that a rebuild of `v` runs: a layout that is built again is
/// broken into lines again.
pub open spec fn rebuild_steps(v: TextLayoutView) -> RebuildSteps {
    RebuildSteps {
        build_layout: v.needs_layout,
        break_lines: v.needs_layout || v.needs_line_breaks,
    }
}

/// The layout after a rebuild: nothing left to do.
pub open spec fn rebuilt(v: TextLayoutView) -> TextLayoutView {
    TextLayoutView { needs_layout: false, needs_line_breaks: false, ..v }
}

/// The layout after setting the scale factor.
pub open spec fn with_scale(v: TextLayoutView, scale: u32) -> TextLayoutView {
    if single_eq_spec(scale, v.scale) {
        v
    } else {
        invalidated(TextLayoutView { scale, ..v })
    }
}

/// The layout after setting the default brush.
pub open spec fn with_brush(v: TextLayoutView, brush: TextBrush) -> TextLayoutView {
    if brush.same_spec(v.brush) {
        v
    } else {
        invalidated(TextLayoutView { brush, ..v })
    }
}

/// The layout after setting the font size.
pub open spec fn with_text_size(v: TextLayoutView, size: u32) -> TextLayoutView {
    if single_eq_spec(size, v.text_size) {
        v
    } else {
        invalidated(TextLayoutView { text_size: size, ..v })
    }
}

/// The layout after setting the font weight.
pub open spec fn with_weight(v: TextLayoutView, weight: u32) -> TextLayoutView {
    if single_eq_spec(weight, v.weight) {
        v
    } else {
        invalidated(TextLayoutView { weight, ..v })
    }
}

/// The layout after setting the font style.
pub open spec fn with_style(v: TextLayoutView, style: FontStyle) -> TextLayoutView {
    if style_eq_spec(style, v.style) {
        v
    } else {
        invalidated(TextLayoutView { style, ..v })
    }
}

/// The layout after setting the alignment.
pub open spec fn with_alignment(v: TextLayoutView, alignment: Alignment) -> TextLayoutView {
    if alignment == v.alignment {
        v
    } else {
        invalidated(TextLayoutView { alignment, ..v })
    }
}

/// The layout after setting the font stack.
pub open spec fn with_font(v: TextLayoutView, font: FontStackView) -> TextLayoutView {
    if font == v.font {
        v
    } else {
        invalidated(TextLayoutView { font, ..v })
    }
}

/// The layout after setting the text.
pub open spec fn with_text(v: TextLayoutView, text: Seq<char>) -> TextLayoutView {
    if text == v.text {
        v
    } else {
        invalidated(TextLayoutView { text, ..v })
    }
}

/// Whether setting the maximum advance from `old` to `new` must break the
/// lines again: wrapping is switched on or off, or the width moved by at least
/// the re-wrap threshold (`far_apart`).
pub open spec fn max_advance_changes(old: Option<u32>, new: Option<u32>, far_apart: bool) -> bool {
    (old is Some) != (new is Some) || (old is Some && new is Some && far_apart)
}

/// The layout after setting the maximum advance: only the line breaks are
/// invalidated.
pub open spec fn with_max_advance(
    v: TextLayoutView,
    max_advance: Option<u32>,
    far_apart: bool,
) -> TextLayoutView {
    if max_advance_changes(v.max_advance, max_advance, far_apart) {
        TextLayoutView { max_advance, needs_line_breaks: true, ..v }
    } else {
        v
    }
}

/// A freshly made layout of `text` with size `text_size`, painted with `brush`.
pub open spec fn new_layout(text: Seq<char>, text_size: u32, brush: TextBrush) -> TextLayoutView {
    TextLayoutView {
        text,
        scale: ONE_BITS,
        brush,
        font: FontStackView::Single(
            crate::style::FontFamilyView::Generic(crate::style::GenericFamily::SansSerif),
        ),
        text_size,
        weight: NORMAL_WEIGHT_BITS,
        style: FontStyle::Normal,
        alignment: Alignment::Start,
        max_advance: None,
        needs_layout: true,
        needs_line_breaks: true,
        access: Seq::empty(),
    }
}

/// Whether `a` and `b` are the bit patterns of two zeros (of either sign).
pub open spec fn both_zeros(a: u32, b: u32) -> bool {
    a & 0x7fff_ffffu32 == 0u32 && b & 0x7fff_ffffu32 == 0u32
}

/// Whether `a` is the bit pattern of a NaN: all exponent bits set and a
/// non-zero mantissa.
pub open spec fn nan_pattern(a: u32) -> bool {
    a & 0x7f80_0000u32 == 0x7f80_0000u32 && a & 0x007f_ffffu32 != 0u32
}

/// A setter stores the value it is given, unless the stored value already
/// equals it; and a value that differs makes the layout need a rebuild. For
/// floats, a value differs unless it has the same bits as the stored one or
/// both are zeros, and a NaN always differs.
pub proof fn lemma_setters_store(v: TextLayoutView, bits: u32, style: FontStyle, alignment: Alignment, font: FontStackView, text: Seq<char>)
    ensures
        with_alignment(v, alignment).alignment == alignment,
        with_font(v, font).font == font,
        with_text(v, text).text == text,
        (bits != v.scale && !both_zeros(bits, v.scale)) || nan_pattern(bits) ==> with_scale(v, bits).scale == bits && needs_rebuild_spec(with_scale(v, bits)),
        (bits != v.text_size && !both_zeros(bits, v.text_size)) || nan_pattern(bits) ==> with_text_size(v, bits).text_size == bits && needs_rebuild_spec(with_text_size(v, bits)),
        (bits != v.weight && !both_zeros(bits, v.weight)) || nan_pattern(bits) ==> with_weight(v, bits).weight == bits && needs_rebuild_spec(with_weight(v, bits)),
        with_style(v, style).style == style || style_eq_spec(style, v.style),
        alignment != v.alignment ==> needs_rebuild_spec(with_alignment(v, alignment)),
        font != v.font ==> needs_rebuild_spec(with_font(v, font)),
        text != v.text ==> needs_rebuild_spec(with_text(v, text)),
        forall|b: TextBrush| !b.same_spec(v.brush) ==> #[trigger] with_brush(v, b).brush == b && needs_rebuild_spec(with_brush(v, b)),
        forall|m: Option<u32>, far: bool| (m is Some) != (v.max_advance is Some) ==> #[trigger] with_max_advance(v, m, far).max_advance == m && with_max_advance(v, m, far).needs_line_breaks,
        forall|m: Option<u32>| (m is Some && v.max_advance is Some) ==> #[trigger] with_max_advance(v, m, true).max_advance == m && with_max_advance(v, m, true).needs_line_breaks,
        forall|m: Option<u32>| (m is Some && v.max_advance is Some) ==> #[trigger] with_max_advance(v, m, false) == v,
{
    crate::style::lemma_single_eq_exact(bits, v.scale);
    crate::style::lemma_single_eq_exact(bits, v.text_size);
    crate::style::lemma_single_eq_exact(bits, v.weight);
}

/// A setter changes nothing but its own attribute and the rebuild flags.
pub proof fn lemma_setters_keep_the_rest(v: TextLayoutView, bits: u32, style: FontStyle, alignment: Alignment, font: FontStackView, text: Seq<char>, brush: TextBrush)
    ensures
        (TextLayoutView { alignment: v.alignment, needs_layout: v.needs_layout, needs_line_breaks: v.needs_line_breaks, ..with_alignment(v, alignment) }) == v,
        (TextLayoutView { font: v.font, needs_layout: v.needs_layout, needs_line_breaks: v.needs_line_breaks, ..with_font(v, font) }) == v,
        (TextLayoutView { text: v.text, needs_layout: v.needs_layout, needs_line_breaks: v.needs_line_breaks, ..with_text(v, text) }) == v,
        (TextLayoutView { scale: v.scale, needs_layout: v.needs_layout, needs_line_breaks: v.needs_line_breaks, ..with_scale(v, bits) }) == v,
        (TextLayoutView { text_size: v.text_size, needs_layout: v.needs_layout, needs_line_breaks: v.needs_line_breaks, ..with_text_size(v, bits) }) == v,
        (TextLayoutView { weight: v.weight, needs_layout: v.needs_layout, needs_line_breaks: v.needs_line_breaks, ..with_weight(v, bits) }) == v,
        (TextLayoutView { style: v.style, needs_layout: v.needs_layout, needs_line_breaks: v.needs_line_breaks, ..with_style(v, style) }) == v,
        (TextLayoutView { brush: v.brush, needs_layout: v.needs_layout, needs_line_breaks: v.needs_line_breaks, ..with_brush(v, brush) }) == v,
{
}

/// A rebuild leaves nothing to do: afterwards the layout needs no rebuild, and
/// a second rebuild runs no step and changes nothing.
pub proof fn lemma_rebuild_settles(v: TextLayoutView)
    ensures
        !needs_rebuild_spec(rebuilt(v)),
        rebuild_steps(rebuilt(v)) == (RebuildSteps { build_layout: false, break_lines: false }),
        rebuilt(rebuilt(v)) == rebuilt(v),
{
}

/// A rebuild that builds the layout again also breaks it into lines again, and
/// a rebuild runs a step exactly when the layout needs a rebuild.
pub proof fn lemma_rebuild_steps_consistent(v: TextLayoutView)
    ensures
        rebuild_steps(v).build_layout ==> rebuild_steps(v).break_lines,
        rebuild_steps(v).break_lines <==> needs_rebuild_spec(v),
{
}

/// After `invalidate`, the next rebuild runs both steps.
pub proof fn lemma_invalidate_rebuilds_all(v: TextLayoutView)
    ensures
        rebuild_steps(invalidated(v)) == (RebuildSteps { build_layout: true, break_lines: true }),
{
}

/// Changing the text or a style attribute to a different value makes the next
/// rebuild build the layout again (and break it into lines).
pub proof fn lemma_change_rebuilds(v: TextLayoutView)
    ensures
        forall|s: u32| !single_eq_spec(s, v.scale) ==> #[trigger] rebuild_steps(with_scale(v, s)) == (RebuildSteps { build_layout: true, break_lines: true }),
        forall|s: u32| !single_eq_spec(s, v.text_size) ==> #[trigger] rebuild_steps(with_text_size(v, s)) == (RebuildSteps { build_layout: true, break_lines: true }),
        forall|w: u32| !single_eq_spec(w, v.weight) ==> #[trigger] rebuild_steps(with_weight(v, w)) == (RebuildSteps { build_layout: true, break_lines: true }),
        forall|st: FontStyle| !style_eq_spec(st, v.style) ==> #[trigger] rebuild_steps(with_style(v, st)) == (RebuildSteps { build_layout: true, break_lines: true }),
        forall|a: Alignment| a != v.alignment ==> #[trigger] rebuild_steps(with_alignment(v, a)) == (RebuildSteps { build_layout: true, break_lines: true }),
        forall|f: FontStackView| f != v.font ==> #[trigger] rebuild_steps(with_font(v, f)) == (RebuildSteps { build_layout: true, break_lines: true }),
        forall|t: Seq<char>| t != v.text ==> #[trigger] rebuild_steps(with_text(v, t)) == (RebuildSteps { build_layout: true, break_lines: true }),
        forall|b: TextBrush| !b.same_spec(v.brush) ==> #[trigger] rebuild_steps(with_brush(v, b)) == (RebuildSteps { build_layout: true, break_lines: true }),
{
}

/// Setting the text or a style attribute to a value equal to the current one
/// changes nothing (for floats, equal as floats compare).
pub proof fn lemma_same_value_keeps_layout(v: TextLayoutView)
    ensures
        forall|s: u32| single_eq_spec(s, v.scale) ==> #[trigger] with_scale(v, s) == v,
        forall|s: u32| single_eq_spec(s, v.text_size) ==> #[trigger] with_text_size(v, s) == v,
        forall|w: u32| single_eq_spec(w, v.weight) ==> #[trigger] with_weight(v, w) == v,
        forall|st: FontStyle| style_eq_spec(st, v.style) ==> #[trigger] with_style(v, st) == v,
        with_alignment(v, v.alignment) == v,
        with_font(v, v.font) == v,
        with_text(v, v.text) == v,
        forall|b: TextBrush| b.same_spec(v.brush) ==> #[trigger] with_brush(v, b) == v,
{
}

/// Setting the same value twice is the same as setting it once. For float
/// attributes this needs a value that is not a NaN: a NaN never equals the
/// current value, so each setting invalidates the layout again. Likewise a
/// brush must equal itself (a gradient with a NaN point does not).
pub proof fn lemma_set_twice(v: TextLayoutView, bits: u32, style: FontStyle, alignment: Alignment, font: FontStackView, text: Seq<char>, brush: TextBrush)
    requires
        !is_nan_bits(bits),
        !(style matches FontStyle::Oblique(Some(a)) && is_nan_bits(a)),
        brush.same_spec(brush),
    ensures
        with_scale(with_scale(v, bits), bits) == with_scale(v, bits),
        with_text_size(with_text_size(v, bits), bits) == with_text_size(v, bits),
        with_weight(with_weight(v, bits), bits) == with_weight(v, bits),
        with_style(with_style(v, style), style) == with_style(v, style),
        with_alignment(with_alignment(v, alignment), alignment) == with_alignment(v, alignment),
        with_font(with_font(v, font), font) == with_font(v, font),
        with_text(with_text(v, text), text) == with_text(v, text),
        with_brush(with_brush(v, brush), brush) == with_brush(v, brush),
{
}

/// Changing only the wrapping width of a rebuilt layout makes the next rebuild
/// break the lines again without building the layout again.
pub proof fn lemma_max_advance_only_rebreaks(v: TextLayoutView, max_advance: Option<u32>, far_apart: bool)
    ensures
        !rebuild_steps(with_max_advance(rebuilt(v), max_advance, far_apart)).build_layout,
        rebuild_steps(with_max_advance(rebuilt(v), max_advance, far_apart)).break_lines
            == max_advance_changes(v.max_advance, max_advance, far_apart),
{
}

/// Setting the stored wrapping width again, with the widths not far apart
/// (as equal widths never are), changes nothing; so setting a width, then
/// setting the same width again, is the same as setting it once.
pub proof fn lemma_max_advance_repeat(v: TextLayoutView, max_advance: Option<u32>, far_apart: bool)
    ensures
        with_max_advance(v, v.max_advance, false) == v,
        with_max_advance(with_max_advance(v, max_advance, far_apart), max_advance, false)
            == with_max_advance(v, max_advance, far_apart),
        !needs_rebuild_spec(with_max_advance(rebuilt(v), v.max_advance, false)),
{
}

/// Editing the layout (any setter, `invalidate`, `rebuild`) keeps the
/// accessibility records.
pub proof fn lemma_edits_keep_access(v: TextLayoutView, bits: u32, style: FontStyle, alignment: Alignment, font: FontStackView, text: Seq<char>, max_advance: Option<u32>, far_apart: bool, brush: TextBrush)
    ensures
        with_brush(v, brush).access == v.access,
        with_scale(v, bits).access == v.access,
        with_text_size(v, bits).access == v.access,
        with_weight(v, bits).access == v.access,
        with_style(v, style).access == v.access,
        with_alignment(v, alignment).access == v.access,
        with_font(v, font).access == v.access,
        with_text(v, text).access == v.access,
        with_max_advance(v, max_advance, far_apart).access == v.access,
        invalidated(v).access == v.access,
        rebuilt(v).access == v.access,
{
}

/// A call on a text layout, with its arguments as plain values.
pub enum LayoutCall {
    Invalidate,
    SetScale(u32),
    SetBrush(TextBrush),
    SetFont(FontStackView),
    SetTextSize(u32),
    SetWeight(u32),
    SetStyle(FontStyle),
    SetTextAlignment(Alignment),
    SetMaxAdvance(Option<u32>, bool),
    SetText(Seq<char>),
    /// `text_mut`, after which the text reads as given.
    TextMut(Seq<char>),
    Rebuild,
    /// `accessibility`, after which the records read as given.
    Accessibility(AccessView),
}

/// The layout after the call `c`, as the call's `ensures` states it.
pub open spec fn apply_call(v: TextLayoutView, c: LayoutCall) -> TextLayoutView {
    match c {
        LayoutCall::Invalidate => invalidated(v),
        LayoutCall::SetScale(s) => with_scale(v, s),
        LayoutCall::SetBrush(b) => with_brush(v, b),
        LayoutCall::SetFont(f) => with_font(v, f),
        LayoutCall::SetTextSize(s) => with_text_size(v, s),
        LayoutCall::SetWeight(w) => with_weight(v, w),
        LayoutCall::SetStyle(st) => with_style(v, st),
        LayoutCall::SetTextAlignment(a) => with_alignment(v, a),
        LayoutCall::SetMaxAdvance(m, far_apart) => with_max_advance(v, m, far_apart),
        LayoutCall::SetText(t) => with_text(v, t),
        LayoutCall::TextMut(t) => invalidated(TextLayoutView { text: t, ..v }),
        LayoutCall::Rebuild => rebuilt(v),
        LayoutCall::Accessibility(a) => TextLayoutView { access: a, ..v },
    }
}

/// The layout after the calls `calls`, in order.
pub open spec fn apply_calls(v: TextLayoutView, calls: Seq<LayoutCall>) -> TextLayoutView
    decreases calls.len(),
{
    if calls.len() == 0 {
        v
    } else {
        apply_call(apply_calls(v, calls.drop_last()), calls.last())
    }
}

/// Whether the call `c` made on `v` invalidates the layout or changes a stored
/// setting (`invalidate` and `text_mut` always do; a setter does when the new
/// value differs from the stored one).
pub open spec fn call_changes(v: TextLayoutView, c: LayoutCall) -> bool {
    match c {
        LayoutCall::Invalidate => true,
        LayoutCall::TextMut(_) => true,
        LayoutCall::Rebuild => false,
        LayoutCall::Accessibility(_) => false,
        _ => apply_call(v, c) != v,
    }
}

/// Whether the layout is up to date after `calls` made on `v`: since the last
/// `rebuild` among them no call changed anything; or, with no `rebuild` among
/// them, `v` was up to date and no call changed anything.
pub open spec fn up_to_date_after(v: TextLayoutView, calls: Seq<LayoutCall>) -> bool
    decreases calls.len(),
{
    if calls.len() == 0 {
        !needs_rebuild_spec(v)
    } else if calls.last() is Rebuild {
        true
    } else if call_changes(apply_calls(v, calls.drop_last()), calls.last()) {
        false
    } else {
        up_to_date_after(v, calls.drop_last())
    }
}

/// After any sequence of calls, the layout needs a rebuild exactly when it is
/// not up to date: for a new layout, when no `rebuild` happened yet, or when
/// since the last one `invalidate` or `text_mut` was called or a setter
/// changed a stored value.
pub proof fn lemma_needs_rebuild_after_calls(v: TextLayoutView, calls: Seq<LayoutCall>)
    ensures
        needs_rebuild_spec(apply_calls(v, calls)) == !up_to_date_after(v, calls),
    decreases calls.len(),
{
    if calls.len() > 0 {
        lemma_needs_rebuild_after_calls(v, calls.drop_last());
    }
}

/// A new layout needs a rebuild until one happens.
pub proof fn lemma_new_layout_needs_rebuild(text: Seq<char>, text_size: u32, brush: TextBrush, calls: Seq<LayoutCall>)
    requires
        forall|i: int| 0 <= i < calls.len() ==> !(#[trigger] calls[i] is Rebuild),
    ensures
        needs_rebuild_spec(apply_calls(new_layout(text, text_size, brush), calls)),
{
    lemma_needs_rebuild_after_calls(new_layout(text, text_size, brush), calls);
    lemma_up_to_date_needs_rebuild(new_layout(text, text_size, brush), calls);
}

proof fn lemma_up_to_date_needs_rebuild(v: TextLayoutView, calls: Seq<LayoutCall>)
    requires
        needs_rebuild_spec(v),
        forall|i: int| 0 <= i < calls.len() ==> !(#[trigger] calls[i] is Rebuild),
    ensures
        !up_to_date_after(v, calls),
    decreases calls.len(),
{
    if calls.len() > 0 {
        assert(!(calls[calls.len() - 1] is Rebuild));
        assert forall|i: int| 0 <= i < calls.drop_last().len() implies !(#[trigger] calls.drop_last()[i] is Rebuild) by {
            assert(calls.drop_last()[i] == calls[i]);
        }
        lemma_up_to_date_needs_rebuild(v, calls.drop_last());
    }
}

impl TextLayout {
    /// Creates a layout of `text` at font size `text_size` (the bit pattern of a
    /// single-precision float), painted with `brush`, with scale 1, the
    /// sans-serif font stack, normal weight and style, start alignment and no
    /// wrapping. It needs a rebuild.
    pub fn new(text: String, text_size: u32, brush: TextBrush) -> (s: Self)
        ensures
            s@ == new_layout(text@, text_size, brush),
    {
        let s = TextLayout {
            text,
            scale: ONE_BITS,
            brush,
            font: FontStack::sans_serif(),
            text_size,
            weight: NORMAL_WEIGHT_BITS,
            style: FontStyle::Normal,
            alignment: Alignment::Start,
            max_advance: None,
            needs_layout: true,
            needs_line_breaks: true,
            access: AccessIds::new(),
        };
        proof {
            assert(s@ == new_layout(text@, text_size, brush));
        }
        s
    }

    /// Marks the inner layout as needing to be updated.
    pub fn invalidate(&mut self)
        ensures
            final(self)@ == invalidated(old(self)@),
    {
        self.needs_layout = true;
        self.needs_line_breaks = true;
    }

    /// Sets the scaling factor (the bit pattern of a single-precision float).
    pub fn set_scale(&mut self, scale: u32)
        ensures
            final(self)@ == with_scale(old(self)@, scale),
            final(self)@.scale == if single_eq_spec(scale, old(self)@.scale) {
                old(self)@.scale
            } else {
                scale
            },
    {
        if !single_eq(scale, self.scale) {
            self.scale = scale;
            self.invalidate();
        }
    }

    /// Sets the default brush used for the layout: a brush that differs from the
    /// current one (see `TextBrush::same_spec`) replaces it and invalidates the
    /// layout.
    pub fn set_brush(&mut self, brush: TextBrush)
        ensures
            final(self)@ == with_brush(old(self)@, brush),
            final(self)@.brush == brush || brush.same_spec(old(self)@.brush),
    {
        if !brush.same_as(&self.brush) {
            self.brush = brush;
            self.invalidate();
        }
    }

    /// Sets the default font stack.
    pub fn set_font(&mut self, font: FontStack)
        ensures
            final(self)@ == with_font(old(self)@, font@),
            final(self)@.font == font@,
    {
        if !font.same_as(&self.font) {
            self.font = font;
            self.invalidate();
        }
    }

    /// Sets the font size (the bit pattern of a single-precision float).
    pub fn set_text_size(&mut self, size: u32)
        ensures
            final(self)@ == with_text_size(old(self)@, size),
            final(self)@.text_size == if single_eq_spec(size, old(self)@.text_size) {
                old(self)@.text_size
            } else {
                size
            },
    {
        if !single_eq(size, self.text_size) {
            self.text_size = size;
            self.invalidate();
        }
    }

    /// Sets the font weight (the bit pattern of a single-precision float).
    pub fn set_weight(&mut self, weight: u32)
        ensures
            final(self)@ == with_weight(old(self)@, weight),
            final(self)@.weight == if single_eq_spec(weight, old(self)@.weight) {
                old(self)@.weight
            } else {
                weight
            },
    {
        if !single_eq(weight, self.weight) {
            self.weight = weight;
            self.invalidate();
        }
    }

    /// Sets the font style.
    pub fn set_style(&mut self, style: FontStyle)
        ensures
            final(self)@ == with_style(old(self)@, style),
            final(self)@.style == style || style_eq_spec(style, old(self)@.style),
    {
        if !style.same_as(&self.style) {
            self.style = style;
            self.invalidate();
        }
    }

    /// Sets the alignment of the lines.
    pub fn set_text_alignment(&mut self, alignment: Alignment)
        ensures
            final(self)@ == with_alignment(old(self)@, alignment),
            final(self)@.alignment == alignment,
    {
        if self.alignment != alignment {
            self.alignment = alignment;
            self.invalidate();
        }
    }

    /// Sets the width at which to wrap words, `None` for no wrapping.
    ///
    /// `max_advance` is the bit pattern of the width, already clamped to be
    /// non-negative; `far_apart` says whether it differs from the current width
    /// by at least the re-wrap threshold (when both are set). Only the line
    /// breaks are invalidated.
    pub fn set_max_advance(&mut self, max_advance: Option<u32>, far_apart: bool)
        ensures
            final(self)@ == with_max_advance(old(self)@, max_advance, far_apart),
            max_advance_changes(old(self)@.max_advance, max_advance, far_apart) ==> final(self)@.max_advance == max_advance,
    {
        if self.max_advance.is_some() != max_advance.is_some() || (self.max_advance.is_some()
            && max_advance.is_some() && far_apart) {
            self.max_advance = max_advance;
            self.needs_line_breaks = true;
        }
    }

    /// Returns `true` if this layout needs to be rebuilt.
    ///
    /// This happens (for instance) after style attributes are modified. It does
    /// not account for changes that the layout is not told about.
    pub fn needs_rebuild(&self) -> (r: bool)
        ensures
            r == needs_rebuild_spec(self@),
    {
        self.needs_layout || self.needs_line_breaks
    }

    /// Sets the text to display.
    pub fn set_text(&mut self, text: String)
        ensures
            final(self)@ == with_text(old(self)@, text@),
            final(self)@.text == text@,
    {
        if !(self.text == text) {
            self.text = text;
            self.invalidate();
        }
    }

    /// Returns the text of this layout.
    pub fn text(&self) -> (r: &String)
        ensures
            r@ == self@.text,
    {
        &self.text
    }

    /// Returns the text of this layout for editing, and invalidates the layout.
    pub fn text_mut(&mut self) -> (r: &mut String)
        ensures
            r@ == old(self)@.text,
            final(self)@ == invalidated(TextLayoutView { text: final(r)@, ..old(self)@ }),
    {
        self.invalidate();
        &mut self.text
    }

    /// Runs an accessibility pass over the runs of the rebuilt layout, given
    /// the byte range in the text of every run, line by line. Runs keep their
    /// node ids across passes by (line, run) position; new runs take fresh ids
    /// from `next_id`. Returns the inline text box node of every run.
    pub fn accessibility(
        &mut self,
        lines: &Vec<Vec<(usize, usize)>>,
        next_id: &mut u64,
    ) -> (nodes: Vec<Vec<InlineTextBox>>)
        requires
            valid_run_ranges(old(self)@.text, ranges_of(lines@)),
            ids_below(old(self)@.access, *old(next_id)),
            *old(next_id) + fresh_count(old(self)@.access, ranges_of(lines@)) <= u64::MAX,
        ensures
            crate::access::records_after(
                old(self)@.access,
                old(self)@.text,
                ranges_of(lines@),
                *old(next_id),
                final(self)@.access,
            ),
            final(self)@ == (TextLayoutView { access: final(self)@.access, ..old(self)@ }),
            *final(next_id) == *old(next_id) + fresh_count(old(self)@.access, ranges_of(lines@)),
            crate::access::ids_distinct(final(self)@.access),
            ids_below(final(self)@.access, *final(next_id)),
            nodes@.len() == lines@.len(),
            forall|l: int| 0 <= l < nodes@.len() ==> #[trigger] nodes@[l]@.len() == lines@[l]@.len(),
            forall|l: int, r: int|
                0 <= l < nodes@.len() && 0 <= r < nodes@[l]@.len() ==> crate::access::box_matches(
                    #[trigger] nodes@[l]@[r],
                    old(self)@.access,
                    old(self)@.text,
                    ranges_of(lines@),
                    *old(next_id),
                    l,
                    r,
                ),
            forall|l: int, r: int|
                0 <= l < nodes@.len() && 0 < r < nodes@[l]@.len() ==> (#[trigger] nodes@[l]@[r]).previous_on_line
                    == Some(nodes@[l]@[r - 1].id) && nodes@[l]@[r - 1].next_on_line == Some(
                    nodes@[l]@[r].id,
                ),
            forall|l: int|
                0 <= l < nodes@.len() && nodes@[l]@.len() > 0 ==> (#[trigger] nodes@[l]@[0]).previous_on_line is None
                    && nodes@[l]@.last().next_on_line is None,
    {
        self.access.update(self.text.as_str(), lines, next_id)
    }

    /// Whether every accessibility id of the layout is below `bound`.
    pub fn access_ids_below(&self, bound: u64) -> (r: bool)
        ensures
            r == ids_below(self@.access, bound),
    {
        self.access.all_ids_below(bound)
    }

    /// The scale factor (bit pattern).
    pub fn scale(&self) -> (r: u32)
        ensures
            r == self@.scale,
    {
        self.scale
    }

    /// The default brush.
    pub fn brush(&self) -> (r: &TextBrush)
        ensures
            *r == self@.brush,
    {
        &self.brush
    }

    /// The default font stack.
    pub fn font(&self) -> (r: &FontStack)
        ensures
            r@ == self@.font,
    {
        &self.font
    }

    /// The font size (bit pattern).
    pub fn text_size(&self) -> (r: u32)
        ensures
            r == self@.text_size,
    {
        self.text_size
    }

    /// The font weight (bit pattern).
    pub fn weight(&self) -> (r: u32)
        ensures
            r == self@.weight,
    {
        self.weight
    }

    /// The font style.
    pub fn style(&self) -> (r: FontStyle)
        ensures
            r == self@.style,
    {
        self.style
    }

    /// The alignment of the lines.
    pub fn alignment(&self) -> (r: Alignment)
        ensures
            r == self@.alignment,
    {
        self.alignment
    }

    /// The wrapping width (bit pattern), if any.
    pub fn max_advance(&self) -> (r: Option<u32>)
        ensures
            r == self@.max_advance,
    {
        self.max_advance
    }

    /// Decides the rebuild of the inner layout and marks it as done: the caller
    /// runs the returned steps on the layout object, in order.
    pub fn rebuild(&mut self) -> (steps: RebuildSteps)
        ensures
            steps == rebuild_steps(old(self)@),
            final(self)@ == rebuilt(old(self)@),
            steps.build_layout == old(self)@.needs_layout,
            steps.break_lines == (old(self)@.needs_layout || old(self)@.needs_line_breaks),
            !final(self)@.needs_layout && !final(self)@.needs_line_breaks,
            (TextLayoutView { needs_layout: old(self)@.needs_layout, needs_line_breaks: old(self)@.needs_line_breaks, ..final(self)@ }) == old(self)@,
    {
        let mut steps = RebuildSteps { build_layout: false, break_lines: false };
        if self.needs_layout {
            self.needs_layout = false;
            steps.build_layout = true;
            self.needs_line_breaks = true;
        }
        if self.needs_line_breaks {
            self.needs_line_breaks = false;
            steps.break_lines = true;
        }
        steps
    }
}

} // verus!
