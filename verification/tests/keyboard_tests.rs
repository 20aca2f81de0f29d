use nano9::keyboard::{stat, StatAnswer};
use nano9::api::Error;
use nano9::keyboard::{mouse_buttons, KeyInput, LogicalKey};

#[test]
fn typed_keys() {
    let mut input = KeyInput::new();
    input.record(vec![LogicalKey::Enter]);
    assert_eq!(input.pop().unwrap(), None);
    input.enabled = true;
    input.record(vec![LogicalKey::Character("a".to_string()), LogicalKey::Enter, LogicalKey::Other("F1".to_string())]);
    assert_eq!(input.pop().unwrap(), Some("a".to_string()));
    assert_eq!(input.pop().unwrap(), Some("\r".to_string()));
    match input.pop() {
        Err(Error::Unsupported(s)) => assert_eq!(s, "stat 31 key F1"),
        _ => panic!("expected an unsupported key"),
    }
    input.record(vec![LogicalKey::Space]);
    input.clear();
    assert_eq!(input.pop().unwrap(), None);
}

#[test]
fn mouse_button_bits() {
    assert_eq!(mouse_buttons(true, false, true), 5);
    assert_eq!(mouse_buttons(false, true, false), 2);
    assert_eq!(mouse_buttons(false, false, false), 0);
}

#[test]
fn stat_answers() {
    let mut keys = KeyInput::new();
    assert!(matches!(stat(30, &mut keys, 0), Ok(StatAnswer::Bool(false))));
    keys.enabled = true;
    keys.record(vec![LogicalKey::Character("a".to_string())]);
    assert!(matches!(stat(30, &mut keys, 0), Ok(StatAnswer::Bool(true))));
    assert!(matches!(stat(31, &mut keys, 0), Ok(StatAnswer::Text(Some(ref s))) if s == "a"));
    assert!(matches!(stat(31, &mut keys, 0), Ok(StatAnswer::Text(None))));
    assert!(matches!(stat(34, &mut keys, 5), Ok(StatAnswer::Integer(5))));
    assert!(matches!(stat(32, &mut keys, 0), Ok(StatAnswer::MouseX)));
    assert!(stat(7, &mut keys, 0).is_err());
}
