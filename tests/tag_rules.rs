use dioxus_web_component::tag::{check_tag, valid_chars, InvalidTagError, Tag};

#[test]
fn should_accept_valid_tag() {
    for tag in ["a-a", "my-custom-tag", "i-love-🦀"] {
        assert!(check_tag(tag).is_ok(), "{tag}");
    }
}

#[test]
fn should_reject_invalid_tag() {
    let cases = [
        "",
        "-",
        "1",
        "_",
        "my-CustomTag",
        "my-custom tag",
        "annotation-xml",
        "color-profile",
        "font-face",
        "font-face-src",
        "font-face-uri",
        "font-face-format",
        "font-face-name",
        "missing-glyph",
    ];
    for tag in cases {
        assert!(check_tag(tag).is_err(), "{tag}");
    }
}

#[test]
fn empty_tag_is_reported_as_empty() {
    assert!(matches!(check_tag(""), Err(InvalidTagError::Empty)));
}

#[test]
fn bad_first_letter_is_reported() {
    match check_tag("1-a") {
        Err(InvalidTagError::InvalidStartingLetter(t)) => assert_eq!(t, "1-a"),
        other => panic!("unexpected {other:?}"),
    }
}

#[test]
fn missing_hyphen_is_reported() {
    match check_tag("abc") {
        Err(InvalidTagError::NoHyphen(t)) => assert_eq!(t, "abc"),
        other => panic!("unexpected {other:?}"),
    }
}

#[test]
fn first_upper_case_letter_is_reported() {
    match check_tag("my-CustomTag") {
        Err(InvalidTagError::HasUpperCase(c, t)) => {
            assert_eq!(c, 'C');
            assert_eq!(t, "my-CustomTag");
        }
        other => panic!("unexpected {other:?}"),
    }
}

#[test]
fn first_invalid_char_is_reported() {
    match check_tag("my-custom tag_x") {
        Err(InvalidTagError::InvalidChar(c, _)) => assert_eq!(c, ' '),
        other => panic!("unexpected {other:?}"),
    }
}

#[test]
fn reserved_name_is_reported() {
    match check_tag("font-face") {
        Err(InvalidTagError::ForbiddenName(t)) => assert_eq!(t, "font-face"),
        other => panic!("unexpected {other:?}"),
    }
}

#[test]
fn reserved_name_prefix_is_accepted() {
    assert!(check_tag("font-face-x").is_ok());
}

#[test]
fn valid_chars_follow_the_standard() {
    assert!(valid_chars('-'));
    assert!(valid_chars('.'));
    assert!(valid_chars('7'));
    assert!(valid_chars('z'));
    assert!(valid_chars('\u{00B7}'));
    assert!(valid_chars('🦀'));
    assert!(!valid_chars('A'));
    assert!(!valid_chars('_'));
    assert!(!valid_chars(' '));
    assert!(!valid_chars('\u{00D7}'));
}

#[test]
fn tag_keeps_its_text() {
    let tag = Tag::from_str("my-tag").unwrap();
    assert_eq!(tag.0, "my-tag");
    assert!(Tag::from_str("MyTag").is_err());
}

#[test]
fn component_name_gives_its_tag() {
    let tag = Tag::from_component_name("MyCounter").unwrap();
    assert_eq!(tag.0, "my-counter");
    let tag = Tag::from_component_name("r#my_counter").unwrap();
    assert_eq!(tag.0, "my-counter");
    assert!(matches!(Tag::from_component_name("counter"), Err(InvalidTagError::NoHyphen(_))));
}
