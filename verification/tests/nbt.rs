use shovel::nbt::Tag;

fn sample() -> Tag {
    Tag::compound_tag(vec![
        ("list".to_string(), Tag::TagList((8, vec![Tag::string("a".to_string())]))),
        ("int".to_string(), Tag::TagInt(-5)),
        ("bytes".to_string(), Tag::TagByteArray(vec![1, 2])),
    ])
}

#[test]
fn tags_have_their_known_bits() {
    assert_eq!(Tag::TagEnd.get_tag_bit(), 0);
    assert_eq!(Tag::TagByte(0).get_tag_bit(), 1);
    assert_eq!(Tag::TagShort(0).get_tag_bit(), 2);
    assert_eq!(Tag::TagInt(0).get_tag_bit(), 3);
    assert_eq!(Tag::TagLong(0).get_tag_bit(), 4);
    assert_eq!(Tag::TagFloat(0).get_tag_bit(), 5);
    assert_eq!(Tag::TagDouble(0).get_tag_bit(), 6);
    assert_eq!(Tag::TagByteArray(vec![]).get_tag_bit(), 7);
    assert_eq!(Tag::string(String::new()).get_tag_bit(), 8);
    assert_eq!(Tag::TagList((0, vec![])).get_tag_bit(), 9);
    assert_eq!(Tag::compound_tag(vec![]).get_tag_bit(), 10);
    assert_eq!(Tag::TagIntArray(vec![]).get_tag_bit(), 11);
    assert_eq!(Tag::TagLongArray(vec![]).get_tag_bit(), 12);
}

#[test]
fn copies_of_tags_are_equal() {
    assert!(sample() == sample().clone());
    assert!(sample().same(&sample()));
}

#[test]
fn tags_that_differ_are_told_apart() {
    assert!(sample() != Tag::compound_tag(vec![]));
    assert!(Tag::TagInt(1) != Tag::TagInt(2));
    assert!(Tag::TagInt(1) != Tag::TagLong(1));
    assert!(Tag::TagList((1, vec![])) != Tag::TagList((2, vec![])));
    assert!(
        Tag::compound_tag(vec![("a".to_string(), Tag::TagEnd)])
            != Tag::compound_tag(vec![("b".to_string(), Tag::TagEnd)])
    );
}

#[test]
fn numbers_in_tags_compare_as_numbers() {
    assert!(Tag::TagFloat(0.0f32.to_bits()) == Tag::TagFloat((-0.0f32).to_bits()));
    assert!(Tag::TagFloat(f32::NAN.to_bits()) != Tag::TagFloat(f32::NAN.to_bits()));
    assert!(Tag::TagDouble(0.0f64.to_bits()) == Tag::TagDouble((-0.0f64).to_bits()));
    assert!(Tag::TagDouble(f64::NAN.to_bits()) != Tag::TagDouble(f64::NAN.to_bits()));
    assert!(Tag::TagDouble(1.5f64.to_bits()) != Tag::TagDouble(2.5f64.to_bits()));
}
