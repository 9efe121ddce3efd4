use masonry::runs::run_lengths;

fn sum(v: &[u8]) -> usize {
    v.iter().map(|&x| x as usize).sum()
}

#[test]
fn ascii_words() {
    let (chars, words) = run_lengths("hello, world");
    assert_eq!(chars, vec![1u8; 12]);
    assert_eq!(words, vec![7u8, 5]);
    assert_eq!(sum(&words), chars.len());
    assert_eq!(sum(&chars), "hello, world".len());
}

#[test]
fn combining_marks_form_one_character() {
    let text = "a\u{310}e\u{301}o\u{308}\u{332}";
    let (chars, words) = run_lengths(text);
    assert_eq!(chars, vec![3u8, 3, 5]);
    assert_eq!(words, vec![3u8]);
    assert_eq!(sum(&chars), text.len());
}

#[test]
fn crlf_and_flags() {
    let (chars, words) = run_lengths("a\r\nb");
    assert_eq!(chars, vec![1u8, 2, 1]);
    assert_eq!(words, vec![2u8, 1]);
    let (chars, words) = run_lengths("\u{1F1F7}\u{1F1FA}\u{1F1F8}\u{1F1F9}");
    assert_eq!(chars, vec![8u8, 8]);
    assert_eq!(words, vec![2u8]);
}

#[test]
fn empty_run_has_one_empty_word() {
    let (chars, words) = run_lengths("");
    assert!(chars.is_empty());
    assert_eq!(words, vec![0u8]);
}

#[test]
fn leading_separators_count_as_a_word() {
    let (chars, words) = run_lengths("  ab cd");
    assert_eq!(chars.len(), 7);
    assert_eq!(words, vec![2u8, 3, 2]);
}

#[test]
fn digits_are_word_characters() {
    let (_, words) = run_lengths("x1 2y");
    assert_eq!(words, vec![3u8, 2]);
}

#[test]
fn long_cluster_length_wraps_in_a_byte() {
    let mut text = String::from("e");
    for _ in 0..200 {
        text.push('\u{301}');
    }
    assert_eq!(text.len(), 401);
    let (chars, words) = run_lengths(&text);
    assert_eq!(chars, vec![(401usize % 256) as u8]);
    assert_eq!(words, vec![1u8]);
}

#[test]
fn many_short_words_still_tile_the_run() {
    let text = "ab ".repeat(120);
    let (chars, words) = run_lengths(&text);
    assert_eq!(chars.len(), 360);
    assert_eq!(words.len(), 120);
    assert_eq!(sum(&words), 360);
}
