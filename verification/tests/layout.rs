use masonry::style::{Alignment, FontFamily, FontStack, FontStyle, GenericFamily};
use masonry::{RebuildSteps, TextBrush, TextLayout};
use vello::peniko::Color;

const ALL: RebuildSteps = RebuildSteps { build_layout: true, break_lines: true };
const LINES: RebuildSteps = RebuildSteps { build_layout: false, break_lines: true };
const NONE: RebuildSteps = RebuildSteps { build_layout: false, break_lines: false };

fn fresh(text: &str) -> TextLayout {
    let mut layout = TextLayout::new(
        text.to_string(),
        15.0f32.to_bits(),
        TextBrush::from_color(Color::rgb8(0xf0, 0xf0, 0xea)),
    );
    assert_eq!(layout.rebuild(), ALL);
    layout
}

#[test]
fn new_layout_defaults() {
    let layout = TextLayout::new(String::from("hi"), 15.0f32.to_bits(), TextBrush::default());
    assert!(layout.needs_rebuild());
    assert_eq!(layout.text(), "hi");
    assert_eq!(f32::from_bits(layout.scale()), 1.0);
    assert_eq!(f32::from_bits(layout.text_size()), 15.0);
    assert_eq!(f32::from_bits(layout.weight()), 400.0);
    assert!(matches!(layout.style(), FontStyle::Normal));
    assert_eq!(layout.alignment(), Alignment::Start);
    assert_eq!(layout.max_advance(), None);
    assert!(matches!(
        layout.font(),
        FontStack::Single(FontFamily::Generic(GenericFamily::SansSerif))
    ));
}

#[test]
fn rebuild_settles() {
    let mut layout = fresh("text");
    assert!(!layout.needs_rebuild());
    assert_eq!(layout.rebuild(), NONE);
    assert_eq!(layout.rebuild(), NONE);
}

#[test]
fn invalidate_rebuilds_everything() {
    let mut layout = fresh("text");
    layout.invalidate();
    assert!(layout.needs_rebuild());
    assert_eq!(layout.rebuild(), ALL);
}

#[test]
fn changed_attributes_rebuild_the_layout() {
    let mut layout = fresh("text");
    layout.set_scale(2.0f32.to_bits());
    assert_eq!(f32::from_bits(layout.scale()), 2.0);
    assert_eq!(layout.rebuild(), ALL);

    layout.set_text_size(20.0f32.to_bits());
    assert_eq!(layout.rebuild(), ALL);

    layout.set_weight(700.0f32.to_bits());
    assert_eq!(f32::from_bits(layout.weight()), 700.0);
    assert_eq!(layout.rebuild(), ALL);

    layout.set_style(FontStyle::Italic);
    assert_eq!(layout.rebuild(), ALL);

    layout.set_style(FontStyle::Oblique(Some(14.0f32.to_bits())));
    assert_eq!(layout.rebuild(), ALL);

    layout.set_text_alignment(Alignment::Justified);
    assert_eq!(layout.alignment(), Alignment::Justified);
    assert_eq!(layout.rebuild(), ALL);

    layout.set_font(FontStack::Single(FontFamily::Named(String::from("Inter"))));
    assert_eq!(layout.rebuild(), ALL);

    layout.set_text(String::from("other"));
    assert_eq!(layout.text(), "other");
    assert_eq!(layout.rebuild(), ALL);
}

#[test]
fn same_attributes_keep_the_layout() {
    let mut layout = fresh("text");
    layout.set_scale(1.0f32.to_bits());
    layout.set_text_size(15.0f32.to_bits());
    layout.set_weight(400.0f32.to_bits());
    layout.set_style(FontStyle::Normal);
    layout.set_text_alignment(Alignment::Start);
    layout.set_font(FontStack::Single(FontFamily::Generic(GenericFamily::SansSerif)));
    layout.set_text(String::from("text"));
    assert!(!layout.needs_rebuild());
    assert_eq!(layout.rebuild(), NONE);
}

#[test]
fn setting_twice_is_setting_once() {
    let mut layout = fresh("text");
    layout.set_text_size(30.0f32.to_bits());
    layout.set_text_size(30.0f32.to_bits());
    assert_eq!(layout.rebuild(), ALL);
    layout.set_text_size(30.0f32.to_bits());
    assert_eq!(layout.rebuild(), NONE);
}

#[test]
fn a_nan_scale_always_invalidates() {
    let mut layout = fresh("text");
    layout.set_scale(f32::NAN.to_bits());
    assert_eq!(layout.rebuild(), ALL);
    layout.set_scale(f32::NAN.to_bits());
    assert_eq!(layout.rebuild(), ALL);
}

#[test]
fn zero_and_negative_zero_are_the_same_size() {
    let mut layout = fresh("text");
    layout.set_text_size(0.0f32.to_bits());
    assert_eq!(layout.rebuild(), ALL);
    layout.set_text_size((-0.0f32).to_bits());
    assert_eq!(layout.rebuild(), NONE);
    assert_eq!(layout.text_size(), 0.0f32.to_bits());
}

#[test]
fn oblique_angles_compare_as_floats() {
    let mut layout = fresh("text");
    layout.set_style(FontStyle::Oblique(None));
    assert_eq!(layout.rebuild(), ALL);
    layout.set_style(FontStyle::Oblique(None));
    assert_eq!(layout.rebuild(), NONE);
    layout.set_style(FontStyle::Oblique(Some(10.0f32.to_bits())));
    assert_eq!(layout.rebuild(), ALL);
    layout.set_style(FontStyle::Oblique(Some(10.0f32.to_bits())));
    assert_eq!(layout.rebuild(), NONE);
    layout.set_style(FontStyle::Oblique(Some(f32::NAN.to_bits())));
    assert_eq!(layout.rebuild(), ALL);
    layout.set_style(FontStyle::Oblique(Some(f32::NAN.to_bits())));
    assert_eq!(layout.rebuild(), ALL);
}

#[test]
fn font_lists_compare_element_by_element() {
    let list = || {
        FontStack::List(vec![
            FontFamily::Named(String::from("Inter")),
            FontFamily::Generic(GenericFamily::Monospace),
        ])
    };
    let mut layout = fresh("text");
    layout.set_font(list());
    assert_eq!(layout.rebuild(), ALL);
    layout.set_font(list());
    assert_eq!(layout.rebuild(), NONE);
    layout.set_font(FontStack::List(vec![FontFamily::Named(String::from("Inter"))]));
    assert_eq!(layout.rebuild(), ALL);
    layout.set_font(FontStack::Source(String::from("Inter, monospace")));
    assert_eq!(layout.rebuild(), ALL);
    layout.set_font(FontStack::Source(String::from("Inter, monospace")));
    assert_eq!(layout.rebuild(), NONE);
}

#[test]
fn brush_of_other_hinting_invalidates() {
    let mut layout = fresh("text");
    let mut brush = TextBrush::from_color(Color::rgb8(0xf0, 0xf0, 0xea));
    layout.set_brush(TextBrush::from_color(Color::rgb8(0xf0, 0xf0, 0xea)));
    assert_eq!(layout.rebuild(), NONE);
    brush.set_hinting(masonry::Hinting::No);
    layout.set_brush(brush);
    assert_eq!(layout.rebuild(), ALL);
    layout.set_brush(TextBrush::from_color(Color::rgb8(0, 0, 0)));
    assert_eq!(layout.rebuild(), ALL);
}

#[test]
fn max_advance_only_rebreaks_lines() {
    let mut layout = fresh("text");
    layout.set_max_advance(Some(100.0f32.to_bits()), true);
    assert_eq!(layout.max_advance(), Some(100.0f32.to_bits()));
    assert_eq!(layout.rebuild(), LINES);
    // Both set and not far apart: kept.
    layout.set_max_advance(Some(100.00001f32.to_bits()), false);
    assert_eq!(layout.max_advance(), Some(100.0f32.to_bits()));
    assert_eq!(layout.rebuild(), NONE);
    // Both set and far apart: replaced.
    layout.set_max_advance(Some(50.0f32.to_bits()), true);
    assert_eq!(layout.rebuild(), LINES);
    // Switching wrapping off always rebreaks.
    layout.set_max_advance(None, false);
    assert_eq!(layout.max_advance(), None);
    assert_eq!(layout.rebuild(), LINES);
    layout.set_max_advance(None, true);
    assert_eq!(layout.rebuild(), NONE);
}

#[test]
fn text_mut_invalidates_and_edits() {
    let mut layout = fresh("abc");
    layout.text_mut().push_str("def");
    assert_eq!(layout.text(), "abcdef");
    assert_eq!(layout.rebuild(), ALL);
}

#[test]
fn same_width_twice_is_a_no_op() {
    let mut layout = fresh("text");
    layout.set_max_advance(Some(80.0f32.to_bits()), true);
    assert_eq!(layout.rebuild(), LINES);
    layout.set_max_advance(Some(80.0f32.to_bits()), false);
    assert_eq!(layout.rebuild(), NONE);
    assert!(!layout.needs_rebuild());
}

#[test]
fn cloned_layout_keeps_its_state() {
    let mut layout = fresh("clone me");
    layout.set_text_size(22.0f32.to_bits());
    let mut copy = layout.clone();
    assert_eq!(copy.text(), "clone me");
    assert_eq!(copy.text_size(), 22.0f32.to_bits());
    assert_eq!(copy.rebuild(), ALL);
    assert_eq!(layout.rebuild(), ALL);
}
