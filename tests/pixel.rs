use olive_rs::Pixel;

fn check_packed_pixel() {
    let raw = 0x44332211;
    let pixel = Pixel::from(raw);
    assert_eq!(pixel.r(), 0x11);
    assert_eq!(pixel.g(), 0x22);
    assert_eq!(pixel.b(), 0x33);
    assert_eq!(pixel.a(), 0x44);
    assert_eq!(pixel.to_u32(), 0x44332211);
}

#[test]
fn canvas_pixel() {
    check_packed_pixel();
}

#[test]
fn pixel_pixel() {
    check_packed_pixel();
}

#[test]
fn pixels_pixel() {
    check_packed_pixel();
}

#[test]
fn packed_round_trip() {
    for &(r, g, b, a) in &[(0u8, 0u8, 0u8, 0u8), (0xff, 0, 0x80, 0x01), (1, 2, 3, 4), (0xff, 0xff, 0xff, 0xff)] {
        let p = Pixel::new(r, g, b, a);
        let q = Pixel::from(p.to_u32());
        assert_eq!(q, p);
    }
    assert_eq!(Pixel::new(0x11, 0x22, 0x33, 0x44).to_u32(), 0x44332211);
}

#[test]
fn opaque_source_replaces_destination() {
    let src = Pixel::new(0x12, 0x34, 0x56, 0xff);
    for &dst in &[Pixel::new(0, 0, 0, 0), Pixel::new(0xff, 0xff, 0xff, 0xff), Pixel::new(9, 8, 7, 0x40)] {
        assert_eq!(src.over(dst), src);
    }
}

#[test]
fn transparent_source_keeps_destination() {
    let src = Pixel::new(0xaa, 0xbb, 0xcc, 0);
    for &dst in &[Pixel::new(0, 0, 0, 0), Pixel::new(0xff, 0x10, 0x20, 0xff), Pixel::new(9, 8, 7, 0x40)] {
        assert_eq!(src.over(dst), dst);
    }
}

#[test]
fn transparent_over_transparent_is_zero() {
    let src = Pixel::new(0xaa, 0xbb, 0xcc, 0);
    let dst = Pixel::new(1, 2, 3, 0);
    assert_eq!(src.over(dst), Pixel::new(0, 0, 0, 0));
}

#[test]
fn green_over_red_blend() {
    let src = Pixel::new(0, 0xaa, 0, 0x55);
    let dst = Pixel::new(0xff, 0, 0, 0xff);
    let p = src.over(dst);
    assert_eq!(p.r(), 170);
    assert_eq!(p.g(), 56);
    assert_eq!(p.b(), 0);
    assert_eq!(p.a(), 198);
}

#[test]
fn half_alpha_blend() {
    // 128/255 of white over opaque black.
    let p = Pixel::new(0xff, 0xff, 0xff, 0x80).over(Pixel::new(0, 0, 0, 0xff));
    assert_eq!(p, Pixel::new(128, 128, 128, 191));
}
