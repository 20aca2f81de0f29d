use nano9::palette::{color, Pen};
use nano9::gfx::Gfx;
use nano9::palette::image_bytes;
use nano9::api::Error;
use nano9::palette::Palette;

#[test]
fn palette_colors() {
    let p = Palette::pico8();
    assert_eq!(p.data.len(), 16);
    assert_eq!(p.get_color(8).unwrap(), [0xff, 0x00, 0x4d, 0xff]);
    let mut bytes = [0u8; 3];
    assert!(p.write_color(7, &mut bytes).is_ok());
    assert_eq!(bytes, [0xff, 0xf1, 0xe8]);
    match p.get_color(16) {
        Err(Error::NoSuch(s)) => assert_eq!(s, "palette color 16"),
        _ => panic!("expected no such colour"),
    }
    let q = Palette::from_slice(&[[1, 2, 3, 4]]);
    assert_eq!(q.data, vec![[1, 2, 3, 4]]);
}

#[test]
fn image_bytes_of_an_indexed_image() {
    let mut g = Gfx::<4>::new(2, 1);
    g.set(1, 0, 7);
    let bytes = image_bytes(&g, &Palette::pico8()).unwrap();
    assert_eq!(bytes, vec![0x00, 0x00, 0x00, 0xff, 0xff, 0xf1, 0xe8, 0xff]);
    let two = Palette::from_slice(&[[1, 2, 3, 4], [5, 6, 7, 8]]);
    assert!(image_bytes(&g, &two).is_err());
}

#[test]
fn pen_must_be_in_the_palette() {
    let p = Palette::pico8();
    assert!(p.check_color_index(15).is_ok());
    assert!(matches!(p.check_color_index(16), Err(Error::NoSuch(ref s)) if s == "palette color index"));
}

#[test]
fn color_sets_the_pen() {
    let p = Palette::pico8();
    let mut pen = Pen::Palette(6);
    assert_eq!(color(&mut pen, Some(Pen::Palette(8)), &p).unwrap(), Pen::Palette(6));
    assert_eq!(pen, Pen::Palette(8));
    assert_eq!(color(&mut pen, None, &p).unwrap(), Pen::Palette(8));
    assert!(color(&mut pen, Some(Pen::Palette(16)), &p).is_err());
    assert_eq!(pen, Pen::Palette(8));
    assert_eq!(color(&mut pen, Some(Pen::Color(1, 2, 3, 255)), &p).unwrap(), Pen::Palette(8));
    assert_eq!(pen, Pen::Color(1, 2, 3, 255));
}
