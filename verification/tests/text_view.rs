use masonry::text_view::{
    build_signed_node, build_text_node, build_unsigned_node, rebuild_signed_node,
    rebuild_text_node, rebuild_unsigned_node, TextNodeBuild,
};

#[test]
fn text_node_is_created_with_the_text() {
    match build_text_node("hello", false) {
        TextNodeBuild::Create(data) => assert_eq!(data, "hello"),
        TextNodeBuild::Hydrate => panic!("should create"),
    }
    assert!(matches!(build_text_node("hello", true), TextNodeBuild::Hydrate));
}

#[test]
fn text_node_is_updated_only_on_change() {
    assert_eq!(rebuild_text_node("new", "old"), Some(String::from("new")));
    assert_eq!(rebuild_text_node("same", "same"), None);
    assert_eq!(rebuild_text_node("", "x"), Some(String::new()));
}

#[test]
fn unsigned_numbers_show_in_decimal() {
    match build_unsigned_node(1234, false) {
        TextNodeBuild::Create(data) => assert_eq!(data, "1234"),
        TextNodeBuild::Hydrate => panic!("should create"),
    }
    assert!(matches!(build_unsigned_node(7, true), TextNodeBuild::Hydrate));
    assert_eq!(rebuild_unsigned_node(0, 5), Some(String::from("0")));
    assert_eq!(rebuild_unsigned_node(5, 5), None);
    assert_eq!(
        rebuild_unsigned_node(u128::MAX, 0),
        Some(String::from("340282366920938463463374607431768211455"))
    );
}

#[test]
fn signed_numbers_show_with_sign() {
    match build_signed_node(-42, false) {
        TextNodeBuild::Create(data) => assert_eq!(data, "-42"),
        TextNodeBuild::Hydrate => panic!("should create"),
    }
    assert_eq!(rebuild_signed_node(-7, 7), Some(String::from("-7")));
    assert_eq!(rebuild_signed_node(90, -90), Some(String::from("90")));
    assert_eq!(rebuild_signed_node(-3, -3), None);
}
