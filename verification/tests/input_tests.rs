use nano9::input::held_buttons;
use nano9::api::Error;
use nano9::input::{button_keys, held_bits, pad_binding, Buttons, Key, PadButton, PlayerInputs, StickDir};

#[test]
fn input_test_buttons() {
    let mut b = Buttons::new();
    assert!(!b.btn(None).unwrap());
    assert!(!b.btnp(None).unwrap());
    b.set_curr(0, true);
    assert!(b.btn(None).unwrap());
    assert!(b.btnp(None).unwrap());
    b.set_last(1, true);
    assert!(b.btn(None).unwrap());
    assert!(b.btnp(None).unwrap());
    b.set_curr(1, true);
    assert!(b.btn(None).unwrap());
    assert!(b.btnp(None).unwrap());
    b.last = b.curr;
    assert!(b.btn(None).unwrap());
    assert!(!b.btnp(None).unwrap());
    b.set_curr(0, false);
    b.set_curr(1, false);
    b.set_last(1, false);
    assert!(!b.btn(None).unwrap());
    assert!(!b.btnp(None).unwrap());
}

#[test]
fn pico8_test_buttons() {
    let mut b = Buttons::new();
    assert!(!b.btn(None).unwrap());
    assert!(!b.btnp(None).unwrap());
    b.set_curr(0, true);
    assert!(b.btn(None).unwrap());
    assert!(b.btnp(None).unwrap());
    b.set_last(1, true);
    assert!(b.btn(None).unwrap());
    assert!(b.btnp(None).unwrap());
    b.set_curr(1, true);
    assert!(b.btn(None).unwrap());
    assert!(b.btnp(None).unwrap());
    b.last = b.curr;
    assert!(b.btn(None).unwrap());
    assert!(!b.btnp(None).unwrap());
    b.set_curr(0, false);
    b.set_curr(1, false);
    b.set_last(1, false);
    assert!(!b.btn(None).unwrap());
    assert!(!b.btnp(None).unwrap());
}

#[test]
fn single_buttons_and_errors() {
    let mut b = Buttons::new();
    b.set_curr(4, true);
    assert!(b.btn(Some(4)).unwrap());
    assert!(b.btnp(Some(4)).unwrap());
    assert!(!b.btn(Some(5)).unwrap());
    assert!(matches!(b.btn(Some(8)), Err(Error::NoSuchButton(8))));
    assert!(matches!(b.btnp(Some(9)), Err(Error::NoSuchButton(9))));
    b.advance(0b1_0000);
    assert!(b.btn(Some(4)).unwrap());
    assert!(!b.btnp(Some(4)).unwrap());
}

#[test]
fn gamepads_claim_players() {
    let mut inputs = PlayerInputs::default();
    assert_eq!(inputs.players.len(), 2);
    inputs.connect(7);
    inputs.connect(8);
    inputs.connect(9);
    assert_eq!(inputs.players.len(), 3);
    assert_eq!(inputs.players[0].from, Some(7));
    assert_eq!(inputs.players[2].from, Some(9));
    assert!(inputs.disconnect(8));
    assert_eq!(inputs.players[1].from, None);
    assert!(!inputs.disconnect(8));
    inputs.connect(10);
    assert_eq!(inputs.players[1].from, Some(10));
    inputs.advance(&vec![1, 2, 3]);
    assert_eq!(inputs.players[2].curr, 3);
    assert_eq!(inputs.players[2].last, 0);
}

#[test]
fn key_bindings() {
    assert_eq!(button_keys(0, 0), vec![Key::ArrowLeft]);
    assert_eq!(button_keys(0, 4), vec![Key::KeyZ, Key::KeyC, Key::KeyN, Key::NumpadSubtract]);
    assert_eq!(button_keys(1, 5), vec![Key::KeyA, Key::KeyQ]);
    assert!(button_keys(2, 0).is_empty());
    assert_eq!(pad_binding(3), (PadButton::DPadDown, Some(StickDir::Down)));
    assert_eq!(pad_binding(5), (PadButton::East, None));
    assert_eq!(held_bits(&[true, false, true, false, false, true]), 0b10_0101);
}

#[test]
fn keys_or_pad_hold_a_button() {
    let keys = [true, false, false, false, true, false];
    let pads = [false, true, false, false, true, false];
    assert_eq!(held_buttons(&keys, &pads), 0b010011);
    assert_eq!(held_buttons(&[false; 6], &[false; 6]), 0);
    assert_eq!(held_buttons(&[true; 6], &[false; 6]), 63);
}
