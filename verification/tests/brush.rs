use masonry::{Hinting, TextBrush};
use vello::peniko::{Brush, Color};

#[test]
fn hinting_yes_hints() {
    assert!(Hinting::Yes.should_hint());
    assert!(!Hinting::No.should_hint());
}

#[test]
fn hinting_default_is_yes() {
    assert_eq!(Hinting::default(), Hinting::Yes);
    assert!(Hinting::default().should_hint());
}

#[test]
fn brush_default_is_normal_and_hinted() {
    match TextBrush::default() {
        TextBrush::Normal(b, h) => {
            assert_eq!(h, Hinting::Yes);
            assert_eq!(b, Brush::default());
        }
        TextBrush::Highlight { .. } => panic!("default brush should be normal"),
    }
}

#[test]
fn brush_from_peniko_brush_is_normal_and_hinted() {
    let red = Brush::Solid(Color::rgb8(255, 0, 0));
    match TextBrush::from(red.clone()) {
        TextBrush::Normal(b, h) => {
            assert_eq!(b, red);
            assert_eq!(h, Hinting::Yes);
        }
        TextBrush::Highlight { .. } => panic!("brush from a peniko brush should be normal"),
    }
}

#[test]
fn brush_from_color_paints_that_color() {
    match TextBrush::from_color(Color::rgb8(1, 2, 3)) {
        TextBrush::Normal(b, h) => {
            assert_eq!(b, Brush::Solid(Color::rgb8(1, 2, 3)));
            assert_eq!(h, Hinting::Yes);
        }
        TextBrush::Highlight { .. } => panic!("brush from a colour should be normal"),
    }
}

#[test]
fn set_hinting_keeps_paint() {
    let mut b = TextBrush::from_color(Color::rgb8(9, 9, 9));
    b.set_hinting(Hinting::No);
    match b {
        TextBrush::Normal(p, h) => {
            assert_eq!(p, Brush::Solid(Color::rgb8(9, 9, 9)));
            assert_eq!(h, Hinting::No);
        }
        TextBrush::Highlight { .. } => panic!("kind changed"),
    }
    let mut hl = TextBrush::Highlight {
        text: Brush::Solid(Color::rgb8(1, 1, 1)),
        fill: Brush::Solid(Color::rgb8(2, 2, 2)),
        hinting: Hinting::Yes,
    };
    hl.set_hinting(Hinting::No);
    match hl {
        TextBrush::Highlight { text, fill, hinting } => {
            assert_eq!(text, Brush::Solid(Color::rgb8(1, 1, 1)));
            assert_eq!(fill, Brush::Solid(Color::rgb8(2, 2, 2)));
            assert_eq!(hinting, Hinting::No);
        }
        TextBrush::Normal(..) => panic!("kind changed"),
    }
}

#[test]
fn same_as_compares_paint_kind_and_hinting() {
    let a = TextBrush::from_color(Color::rgb8(1, 2, 3));
    let b = TextBrush::from_color(Color::rgb8(1, 2, 3));
    let c = TextBrush::from_color(Color::rgb8(3, 2, 1));
    let mut d = TextBrush::from_color(Color::rgb8(1, 2, 3));
    d.set_hinting(Hinting::No);
    let e = TextBrush::Highlight {
        text: Brush::Solid(Color::rgb8(1, 2, 3)),
        fill: Brush::Solid(Color::rgb8(1, 2, 3)),
        hinting: Hinting::Yes,
    };
    assert!(a.same_as(&b));
    assert!(!a.same_as(&c));
    assert!(!a.same_as(&d));
    assert!(!a.same_as(&e));
    assert!(e.same_as(&e));
}

#[test]
fn text_brush_eq_and_clone() {
    let a = TextBrush::from_color(Color::rgb8(4, 5, 6));
    let b = a.clone();
    assert!(a == b);
    assert!(a != TextBrush::from_color(Color::rgb8(6, 5, 4)));
    assert!(TextBrush::default() == TextBrush::from(Brush::Solid(Color::rgba8(0, 0, 0, 0))));
}
