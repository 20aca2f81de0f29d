use nano9::bit_ops::{lshr, rotl, rotr, shl, shr};

fn fixed(a: f32) -> i32 {
    (a as f64 * 65536.0) as i32
}

fn float(bits: i32) -> f32 {
    (bits as f64 / 65536.0) as f32
}

#[test]
fn bit_ops_test_shr() {
    assert_eq!(0.5, float(shr(fixed(1.0), 1)));
    assert_eq!(-0.5, float(shr(fixed(-1.0), 1)));
}

#[test]
fn bit_ops_test_lshr() {
    assert_eq!(0.5, float(lshr(fixed(1.0), 1)));
    assert_eq!(32767.5, float(lshr(fixed(-1.0), 1)));
    assert_eq!(8191.875, float(lshr(fixed(-1.0), 3)));
}

#[test]
fn bit_ops_test_shl() {
    assert_eq!(2.0, float(shl(fixed(1.0), 1)));
}

#[test]
fn bit_ops_test_rotr() {
    assert_eq!(float(rotr(fixed(64.0), 3)), 8.0);
    assert_eq!(float(rotr(fixed(1.0), 3)), 0.125);
    assert_eq!(float(rotr(fixed(-4096.0), 12)), 15.0);
}

#[test]
fn bit_ops_test_rotl() {
    assert_eq!(float(rotl(fixed(8.0), 3)), 64.0);
    assert_eq!(float(rotl(fixed(0.125), 3)), 1.0);
    assert_eq!(float(rotl(fixed(-4096.0), 12)), 0.05859375);
}

#[test]
fn pico8_test_shr() {
    assert_eq!(0.5, float(shr(fixed(1.0), 1)));
    assert_eq!(-0.5, float(shr(fixed(-1.0), 1)));
}

#[test]
fn pico8_test_lshr() {
    assert_eq!(0.5, float(lshr(fixed(1.0), 1)));
    assert_eq!(32767.5, float(lshr(fixed(-1.0), 1)));
    assert_eq!(8191.875, float(lshr(fixed(-1.0), 3)));
}

#[test]
fn pico8_test_shl() {
    assert_eq!(2.0, float(shl(fixed(1.0), 1)));
}

#[test]
fn pico8_test_rotr() {
    assert_eq!(float(rotr(fixed(64.0), 3)), 8.0);
    assert_eq!(float(rotr(fixed(1.0), 3)), 0.125);
    assert_eq!(float(rotr(fixed(-4096.0), 12)), 15.0);
}

#[test]
fn pico8_test_rotl() {
    assert_eq!(float(rotl(fixed(8.0), 3)), 64.0);
    assert_eq!(float(rotl(fixed(0.125), 3)), 1.0);
    assert_eq!(float(rotl(fixed(-4096.0), 12)), 0.05859375);
}

#[test]
fn rotations_undo_each_other() {
    let x = 0x1234_5678;
    assert_eq!(rotl(rotr(x, 7), 7), x);
    assert_eq!(rotl(x, 0), x);
    assert_eq!(rotr(x, 0), x);
    assert_eq!(rotr(rotl(x, 31), 31), x);
}

#[test]
fn raw_bits() {
    assert_eq!(shl(1, 31), i32::MIN);
    assert_eq!(shr(i32::MIN, 31), -1);
    assert_eq!(lshr(i32::MIN, 31), 1);
}
