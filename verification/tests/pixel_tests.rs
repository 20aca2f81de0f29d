use nano9::pixel::{FormatClass, PixelColor, PixelError, PixelImage, PixelLoc};

#[test]
fn locations() {
    assert_eq!(PixelLoc::Cartesian { x: 1, y: 2 }.index(4, 3), Some(9));
    assert_eq!(PixelLoc::Cartesian { x: 4, y: 0 }.index(4, 3), None);
    assert_eq!(PixelLoc::Linear { index: 11 }.index(4, 3), Some(11));
    assert_eq!(PixelLoc::Linear { index: 12 }.index(4, 3), None);
    assert_eq!(PixelLoc::from(3usize), PixelLoc::Linear { index: 3 });
    assert_eq!(PixelLoc::from((1usize, 2usize)), PixelLoc::Cartesian { x: 1, y: 2 });
}

#[test]
fn read_and_write() {
    let mut image = PixelImage { format: FormatClass::Rgba8UnormSrgb, width: 2, height: 2, pixel_size: 4, data: vec![0; 16] };
    let color = PixelColor { linear: [1, 2, 3, 4], srgb: [5, 6, 7, 8] };
    let mut wide = PixelImage { format: FormatClass::Rgba8Unorm, width: 2, height: 1, pixel_size: 4, data: vec![0; 8] };
    let nines = PixelColor { linear: [9, 9, 9, 9], srgb: [9, 9, 9, 9] };
    assert!(wide.set_pixel(PixelLoc::Linear { index: 1 }, nines).is_ok());
    assert_eq!(wide.get_pixel(PixelLoc::Linear { index: 1 }).unwrap(), [9, 9, 9, 9]);
    assert_eq!(wide.get_pixel(PixelLoc::Linear { index: 0 }).unwrap(), [0, 0, 0, 0]);
    assert!(image.set_pixel(PixelLoc::Cartesian { x: 1, y: 0 }, color).is_ok());
    assert_eq!(&image.data[4..8], &[5, 6, 7, 8]);
    // A read gives back what the write put there.
    assert_eq!(image.get_pixel(PixelLoc::Cartesian { x: 1, y: 0 }).unwrap(), [5, 6, 7, 8]);
    assert_eq!(image.get_pixel(PixelLoc::Linear { index: 1 }).unwrap(), [5, 6, 7, 8]);
    assert_eq!(image.get_pixel(PixelLoc::Linear { index: 2 }).unwrap(), [0, 0, 0, 0]);
    assert_eq!(image.get_pixel(PixelLoc::Linear { index: 4 }).unwrap_err(), PixelError::InvalidLocation);
    assert!(image.set_pixel(PixelLoc::Linear { index: 0 }, color).is_ok());
    assert_eq!(image.get_pixel(PixelLoc::Linear { index: 0 }).unwrap(), [5, 6, 7, 8]);
    assert_eq!(image.set_pixel(PixelLoc::Cartesian { x: 2, y: 0 }, color), Err(PixelError::InvalidLocation));
}

#[test]
fn unsupported_formats() {
    let image = PixelImage { format: FormatClass::Depth, width: 1, height: 1, pixel_size: 4, data: vec![] };
    assert_eq!(image.get_pixel(PixelLoc::Linear { index: 0 }), Err(PixelError::DepthNotSupported));
    assert_eq!(PixelError::InvalidRange.message(), "invalid range");
}
