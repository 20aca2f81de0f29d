use nano9::p8scii::{char_to_utf8, vec_to_utf8};

#[test]
fn test_x() {
    let mut v: Vec<u8> = Vec::new();
    v.extend(b"hit");
    v.push(145);
    v.extend(b" or ");
    v.push(151);
    v.extend(b" to go to next");
    let s = vec_to_utf8(v);
    assert_eq!("hit➡\u{fe0f} or ❎ to go to next", s);
}

#[test]
fn glyphs() {
    assert_eq!(char_to_utf8(0), Some("\x00"));
    assert_eq!(char_to_utf8(16), Some("▮"));
    assert_eq!(char_to_utf8(65), None);
    assert_eq!(char_to_utf8(127), Some("○"));
    assert_eq!(char_to_utf8(154), Some("あ"));
    assert_eq!(char_to_utf8(255), Some("◝"));
}

#[test]
fn plain_bytes_stay_characters() {
    assert_eq!(vec_to_utf8(b"print(1)".to_vec()), "print(1)");
    assert_eq!(vec_to_utf8(vec![]), "");
}
