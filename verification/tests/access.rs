use masonry::{InlineTextBox, TextBrush, TextLayout};

fn layout(text: &str) -> TextLayout {
    let mut layout = TextLayout::new(text.to_string(), 15.0f32.to_bits(), TextBrush::default());
    let _ = layout.rebuild();
    layout
}

fn ids(nodes: &[Vec<InlineTextBox>]) -> Vec<Vec<u64>> {
    nodes.iter().map(|line| line.iter().map(|b| b.id).collect()).collect()
}

#[test]
fn runs_get_linked_nodes() {
    let mut l = layout("hello world");
    let mut next = 100u64;
    let nodes = l.accessibility(&vec![vec![(0, 6), (6, 11)]], &mut next);
    assert_eq!(next, 102);
    assert_eq!(ids(&nodes), vec![vec![100, 101]]);
    let a = &nodes[0][0];
    let b = &nodes[0][1];
    assert_eq!(a.value, "hello ");
    assert_eq!(b.value, "world");
    assert_eq!(a.character_lengths, vec![1u8; 6]);
    assert_eq!(a.word_lengths, vec![6u8]);
    assert_eq!(b.word_lengths, vec![5u8]);
    assert_eq!(a.previous_on_line, None);
    assert_eq!(a.next_on_line, Some(101));
    assert_eq!(b.previous_on_line, Some(100));
    assert_eq!(b.next_on_line, None);
}

#[test]
fn second_pass_keeps_ids() {
    let mut l = layout("one two\nthree");
    let runs = vec![vec![(0, 4), (4, 8)], vec![(8, 13)]];
    let mut next = 1u64;
    let first = l.accessibility(&runs, &mut next);
    assert_eq!(ids(&first), vec![vec![1, 2], vec![3]]);
    assert_eq!(next, 4);
    let second = l.accessibility(&runs, &mut next);
    assert_eq!(ids(&second), vec![vec![1, 2], vec![3]]);
    assert_eq!(next, 4);
    assert_eq!(second[1][0].value, "three");
}

#[test]
fn new_runs_take_fresh_ids_in_line_order() {
    let mut l = layout("aaaa bbbb cccc");
    let mut next = 10u64;
    let _ = l.accessibility(&vec![vec![(0, 5)]], &mut next);
    assert_eq!(next, 11);
    let nodes = l.accessibility(&vec![vec![(0, 5), (5, 10)], vec![(10, 14)]], &mut next);
    assert_eq!(ids(&nodes), vec![vec![10, 11], vec![12]]);
    assert_eq!(next, 13);
    assert!(l.access_ids_below(13));
    assert!(!l.access_ids_below(12));
}

#[test]
fn vanished_runs_lose_their_ids() {
    let mut l = layout("aaaa bbbb");
    let mut next = 0u64;
    let _ = l.accessibility(&vec![vec![(0, 5), (5, 9)]], &mut next);
    let _ = l.accessibility(&vec![vec![(0, 9)]], &mut next);
    assert_eq!(next, 2);
    // The run at (0, 1) came back: it is new, so it takes a fresh id.
    let nodes = l.accessibility(&vec![vec![(0, 5), (5, 9)]], &mut next);
    assert_eq!(ids(&nodes), vec![vec![0, 2]]);
    assert_eq!(next, 3);
}

#[test]
fn empty_layout_has_no_nodes() {
    let mut l = layout("");
    let mut next = 5u64;
    let nodes = l.accessibility(&vec![], &mut next);
    assert!(nodes.is_empty());
    assert_eq!(next, 5);
    assert!(l.access_ids_below(0));
}

#[test]
fn multibyte_runs_slice_on_character_boundaries() {
    let text = "h\u{e9}llo w\u{f6}rld";
    let mut l = layout(text);
    let mut next = 0u64;
    let nodes = l.accessibility(&vec![vec![(0, 7), (7, text.len())]], &mut next);
    assert_eq!(nodes[0][0].value, "h\u{e9}llo ");
    assert_eq!(nodes[0][0].character_lengths, vec![1u8, 2, 1, 1, 1, 1]);
    assert_eq!(nodes[0][1].value, "w\u{f6}rld");
    assert_eq!(nodes[0][1].character_lengths, vec![1u8, 2, 1, 1, 1]);
}

#[test]
fn edits_keep_access_ids() {
    let mut l = layout("aaaa bbbb");
    let runs = vec![vec![(0, 5), (5, 9)]];
    let mut next = 40u64;
    let first = l.accessibility(&runs, &mut next);
    l.set_scale(2.0f32.to_bits());
    l.set_text_size(30.0f32.to_bits());
    l.invalidate();
    let _ = l.rebuild();
    let second = l.accessibility(&runs, &mut next);
    assert_eq!(ids(&first), ids(&second));
    assert_eq!(next, 42);
}

#[test]
fn cloned_layout_keeps_access_ids() {
    let mut l = layout("aaaa bbbb");
    let runs = vec![vec![(0, 5), (5, 9)]];
    let mut next = 7u64;
    let first = l.accessibility(&runs, &mut next);
    let mut copy = l.clone();
    let second = copy.accessibility(&runs, &mut next);
    assert_eq!(ids(&first), ids(&second));
    assert_eq!(next, 9);
}
