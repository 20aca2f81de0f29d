use nano9::gfx::Gfx;

#[test]
fn gfx_ex0() {
    let mut a = Gfx::<4>::new(8, 8);
    assert_eq!(0, a.get(0, 0));
    a.set(0, 0, 15);
    assert_eq!(15, a.get(0, 0));
}

#[test]
fn create_image() {
    let mut a = Gfx::<4>::new(8, 8);
    assert_eq!(0, a.get(0, 0));
    a.set(0, 0, 15);
    let indices = a.color_indices();
    assert_eq!(indices.len(), 64);
    assert_eq!(indices[0], 15);
}

#[test]
fn create_1bit_image() {
    let a = Gfx::<1>::from_vec(
        8,
        8,
        vec![
            0b00000001, 0b00000010, 0b00000100, 0b00001000, 0b00010000, 0b00100000, 0b01000000,
            0b10000000,
        ],
    );
    let indices = a.color_indices();
    // Pixel (0, 0) is the most significant bit of the first byte: black.
    assert_eq!(indices[0], 0);
    // Pixel (0, 7) is the most significant bit of the last byte: white.
    assert_eq!(indices[7 * 8], 1);
    assert_eq!(a.get(0, 7), 1);
    assert_eq!(a.get(7, 0), 1);
}

#[test]
fn set_keeps_other_pixels() {
    let mut a = Gfx::<4>::new(4, 4);
    a.set(1, 2, 9);
    a.set(2, 1, 6);
    assert_eq!(a.get(1, 2), 9);
    assert_eq!(a.get(2, 1), 6);
    assert_eq!(a.get(0, 0), 0);
    // Only the low four bits are kept.
    a.set(3, 3, 0x1f);
    assert_eq!(a.get(3, 3), 0xf);
}

#[test]
fn low_nybble_first() {
    let a = Gfx::<4>::from_vec(2, 1, vec![0x3a]);
    assert_eq!(a.get(0, 0), 0xa);
    assert_eq!(a.get(1, 0), 0x3);
}

#[test]
fn mirror_rows() {
    let a = Gfx::<1>::from_vec(8, 1, vec![0b0000_0001]);
    assert_eq!(a.get(7, 0), 1);
    let m = a.mirror_horizontal();
    assert_eq!(m.get(0, 0), 1);
    assert_eq!(m.get(7, 0), 0);
}
