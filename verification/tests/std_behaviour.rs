use nano9::api::{print_text, sub};

#[test]
fn mod_test_suffix_match() {
    let s = "a\\0";
    assert_eq!(s.len(), 3);
    assert!(s.ends_with("\\0"));
}

#[test]
fn pico8_test_suffix_match() {
    let s = "a\\0";
    assert_eq!(s.len(), 3);
    assert!(s.ends_with("\\0"));
}

#[test]
fn cart_test_string_find() {
    let s = String::from("Hello World");
    assert_eq!(s.find('o'), Some(4));
    assert_eq!(s[5..].find('o'), Some(2));
}

#[test]
fn mod_test_string_find() {
    let s = String::from("Hello World");
    assert_eq!(s.find('o'), Some(4));
    assert_eq!(s[5..].find('o'), Some(2));
}

#[test]
fn cart_test_non_marking_space() {
    let s = "➡️ o";
    assert_eq!(s.len(), 8);
    assert_eq!(s.chars().count(), 4);
}

#[test]
fn mod_test_non_marking_space() {
    let s = "➡️ o";
    assert_eq!(s.len(), 8);
    assert_eq!(s.chars().count(), 4);
}

#[test]
fn test_flat_map() {
    let a = 0..3;
    let b = 3..6;
    let c = 6..9;
    let v = [a, b, c];
    let _ = v.iter().flat_map(|it| it.clone());
}

#[test]
fn test_flat_map2() {
    let a = 0..3;
    let b = 3..6;
    let c = 6..9;
    let v = vec![a, b, c];
    let w = v.into_iter().flatten();
    assert_eq!((0..9).collect::<Vec<_>>(), w.collect::<Vec<_>>());
}

#[test]
fn sub_counts_characters_from_one() {
    assert_eq!(sub("hello", 2, Some(4)), "ell");
    assert_eq!(sub("hello", 1, None), "hello");
    assert_eq!(sub("hello", 3, None), "llo");
    assert_eq!(sub("➡️ o", 1, Some(2)), "➡️");
}

#[test]
fn sub_edge_cases() {
    // A start of zero selects nothing.
    assert_eq!(sub("hello", 0, None), "");
    // An end before the start gives nothing.
    assert_eq!(sub("hello", 4, Some(2)), "");
    // Bounds past the end are clamped.
    assert_eq!(sub("hello", 2, Some(50)), "ello");
    // Negative positions count back from the end, -1 being the last character.
    assert_eq!(sub("hello", -3, None), "llo");
    assert_eq!(sub("hello", 1, Some(-2)), "hell");
    assert_eq!(sub("hello", 1, Some(-1)), "hello");
    assert_eq!(sub("hello", -1, None), "o");
    assert_eq!(sub("hello", -2, Some(-2)), "l");
    // Before the first character a negative start stays at the first.
    assert_eq!(sub("hello", -10, Some(2)), "he");
    assert_eq!(sub("hello", 1, Some(-10)), "");
}

#[test]
fn print_text_strips_a_final_nul() {
    assert_eq!(print_text("hi\0"), ("hi".to_string(), false));
    assert_eq!(print_text("hi"), ("hi".to_string(), true));
    assert_eq!(print_text(""), ("".to_string(), true));
}
