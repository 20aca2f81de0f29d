use nano9::gfx_handles::GfxHandles;
use nano9::hex::{to_byte, to_nybble};

#[test]
fn images_last_two_frames() {
    let mut cache: GfxHandles<u32> = GfxHandles::new();
    assert_eq!(cache.lookup(1), None);
    cache.insert(1, 10);
    assert_eq!(cache.lookup(1), Some(10));
    cache.tick();
    assert_eq!(cache.lookup(1), Some(10));
    cache.tick();
    assert_eq!(cache.lookup(1), Some(10));
    cache.tick();
    cache.tick();
    assert_eq!(cache.lookup(1), None);
}

#[test]
fn hex_digits() {
    assert_eq!(to_nybble(b'7'), Some(7));
    assert_eq!(to_nybble(b'f'), Some(15));
    assert_eq!(to_nybble(b'F'), Some(15));
    assert_eq!(to_nybble(b'g'), None);
    assert_eq!(to_byte(b'1', b'b'), Some(0x1b));
    assert_eq!(to_byte(b'x', b'0'), None);
}

#[test]
fn get_or_create_makes_once() {
    let mut cache: GfxHandles<u32> = GfxHandles::new();
    let mut made = 0;
    let r: Result<(u32, bool), ()> = cache.get_or_create(7, || {
        made += 1;
        Ok(70)
    });
    assert_eq!(r, Ok((70, true)));
    cache.tick();
    let r: Result<(u32, bool), ()> = cache.get_or_create(7, || Ok(71));
    assert_eq!(r, Ok((70, false)));
    assert_eq!(made, 1);
    cache.tick();
    cache.tick();
    let r: Result<(u32, bool), ()> = cache.get_or_create(7, || Ok(72));
    assert_eq!(r, Ok((72, true)));
    let e: Result<(u32, bool), &str> = cache.get_or_create(8, || Err("no image"));
    assert_eq!(e, Err("no image"));
    assert_eq!(cache.lookup(8), None);
}
