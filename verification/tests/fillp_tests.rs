use nano9::fillp::{fillp, FillPat};

#[test]
fn pattern_bits_first_pixel_high() {
    let p = FillPat::from(0b1000_0000_0000_0001);
    assert!(p.get(0, 0));
    assert!(p.get(3, 3));
    assert!(!p.get(1, 0));
    assert!(p.get(4, 4));
    assert_eq!(p.to_u16(), 0b1000_0000_0000_0001);
}

#[test]
fn pattern_set_and_image() {
    let mut p = FillPat::default();
    p.set(1, 0, true);
    assert_eq!(p.to_u16(), 0b0100_0000_0000_0000);
    assert!(p.get(5, 4));
    let bits = p.pattern_bits(8, 2);
    assert_eq!(bits.len(), 16);
    assert!(bits[1] && bits[5]);
    assert!(!bits[0] && !bits[8 + 1]);
}

#[test]
fn fillp_returns_previous() {
    let mut current = None;
    assert_eq!(fillp(&mut current, Some(0x5a5a)), 0);
    assert_eq!(current, Some(FillPat::from(0x5a5a)));
    assert_eq!(fillp(&mut current, None), 0x5a5a);
    assert_eq!(fillp(&mut current, Some(0)), 0x5a5a);
    assert_eq!(current, None);
}
