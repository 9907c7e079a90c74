use olive_rs::{default_font, png_bytes, ppm_bytes, rgba_bytes, Canvas, PngError, HeapPixels2D, Pixel, Pixels2D, Point, PointF, StackPixels2D};

const BACKGROUND_COLOR: Pixel = Pixel { r: 0x20, g: 0x20, b: 0x20, a: 0xff };
const RED_COLOR: Pixel = Pixel { r: 0xff, g: 0, b: 0, a: 0xff };
const GREEN_COLOR: Pixel = Pixel { r: 0, g: 0xff, b: 0, a: 0xff };
const BLUE_COLOR: Pixel = Pixel { r: 0, g: 0, b: 0xff, a: 0xff };

fn at(pixels: &HeapPixels2D, x: usize, y: usize) -> Pixel {
    pixels.pixels()[y * pixels.width() + x]
}

/// Sub-pixel units in a pixel.
const UNIT: i64 = 256;

#[test]
fn fill_rect() {
    let w = 128;
    let h = 128;
    let mut pixels = HeapPixels2D::new(w, h, Pixel::new(0, 0, 0, 0));
    let mut canvas = Canvas::new(&mut pixels);
    canvas.fill(BACKGROUND_COLOR);
    let w = w as isize;
    let h = h as isize;
    {
        let p = Point { x: w / 2 - w / 8, y: h / 2 - h / 8 };
        canvas.fill_rect(p, w / 4, h / 4, RED_COLOR);
    }
    {
        let p = Point { x: w - 1, y: h - 1 };
        canvas.fill_rect(p, -w / 2, -h / 2, GREEN_COLOR);
    }
    {
        let p = Point { x: -w / 4, y: -h / 4 };
        canvas.fill_rect(p, w / 2, h / 2, BLUE_COLOR);
    }
    // Red covers [48, 79]^2, green [64, 127]^2 on top, blue [0, 31]^2.
    assert_eq!(at(&pixels, 48, 48), RED_COLOR);
    assert_eq!(at(&pixels, 63, 79), RED_COLOR);
    assert_eq!(at(&pixels, 64, 64), GREEN_COLOR);
    assert_eq!(at(&pixels, 127, 127), GREEN_COLOR);
    assert_eq!(at(&pixels, 63, 63), RED_COLOR);
    assert_eq!(at(&pixels, 0, 0), BLUE_COLOR);
    assert_eq!(at(&pixels, 31, 31), BLUE_COLOR);
    assert_eq!(at(&pixels, 32, 31), BACKGROUND_COLOR);
    assert_eq!(at(&pixels, 47, 48), BACKGROUND_COLOR);
    assert_eq!(at(&pixels, 80, 50), BACKGROUND_COLOR);
    let bytes = ppm_bytes(&pixels);
    assert_eq!(&bytes[..15], b"P6\n128 128 255\n");
    assert_eq!(bytes.len(), 15 + 128 * 128 * 3);
}

#[test]
fn zero_size_rect() {
    let w = 1;
    let h = 1;
    let mut pixels = HeapPixels2D::new(w, h, Pixel::new(0, 0, 0, 0));
    let mut canvas = Canvas::new(&mut pixels);
    canvas.fill(BACKGROUND_COLOR);
    {
        let p = Point { x: 0, y: 0 };
        canvas.fill_rect(p, 0, 0, RED_COLOR);
    }
    assert_eq!(pixels.pixels(), [BACKGROUND_COLOR]);
}

#[test]
fn fill_circle() {
    let w = 128;
    let h = 128;
    let mut pixels = HeapPixels2D::new(w, h, Pixel::new(0, 0, 0, 0));
    let mut canvas = Canvas::new(&mut pixels);
    canvas.fill(BACKGROUND_COLOR);
    let w = w as isize;
    let h = h as isize;
    {
        let c = PointF::from_int(0, 0);
        let r = (w / 2) as i64 * UNIT;
        canvas.fill_circle(c, r, RED_COLOR);
    }
    {
        let c = PointF::from_int(w / 2, h / 2);
        let r = (w / 4) as i64 * UNIT;
        canvas.fill_circle(c, r, BLUE_COLOR);
    }
    {
        let c = PointF::from_int(w * 3 / 4, h * 3 / 4);
        let r = (-w / 4) as i64 * UNIT;
        canvas.fill_circle(c, r, GREEN_COLOR);
    }
    assert_eq!(at(&pixels, 0, 0), RED_COLOR);
    assert_eq!(at(&pixels, 40, 10), RED_COLOR);
    assert_eq!(at(&pixels, 64, 64), BLUE_COLOR);
    assert_eq!(at(&pixels, 96, 96), GREEN_COLOR);
    assert_eq!(at(&pixels, 127, 0), BACKGROUND_COLOR);
    assert_eq!(at(&pixels, 0, 127), BACKGROUND_COLOR);
    // A rim pixel of the red disc is a blend of red and the background.
    let rim = at(&pixels, 64, 0);
    // Two of its four samples fall inside: red at half alpha over the background.
    assert_eq!(rim, Pixel::new(0xff, 0, 0, 127).over(BACKGROUND_COLOR));
    assert_eq!(rim, Pixel::new(143, 16, 16, 191));
}

#[test]
fn zero_radius_circle() {
    let w = 1;
    let h = 1;
    let mut pixels = HeapPixels2D::new(w, h, Pixel::new(0, 0, 0, 0));
    let mut canvas = Canvas::new(&mut pixels);
    canvas.fill(BACKGROUND_COLOR);
    {
        let c = PointF::from_int(0, 0);
        let r = 0;
        canvas.fill_circle(c, r, RED_COLOR);
    }
    assert_eq!(pixels.pixels(), [BACKGROUND_COLOR]);
}

#[test]
fn zero_radius_circle_keeps_transparent_pixels() {
    let mut pixels = HeapPixels2D::new(2, 2, Pixel::new(1, 2, 3, 0));
    let mut canvas = Canvas::new(&mut pixels);
    canvas.fill_circle(PointF::from_int(1, 1), 0, RED_COLOR);
    assert_eq!(pixels.pixels(), [Pixel::new(1, 2, 3, 0); 4]);
}

#[test]
fn draw_line() {
    let w = 128;
    let h = 128;
    let mut pixels = HeapPixels2D::new(w, h, Pixel::new(0, 0, 0, 0));
    let mut canvas = Canvas::new(&mut pixels);
    canvas.fill(BACKGROUND_COLOR);
    let w = w as isize;
    let h = h as isize;
    {
        let p1 = Point { x: 0, y: 0 };
        let p2 = Point { x: w, y: h };
        canvas.draw_line(p1, p2, RED_COLOR);
    }
    {
        let p1 = Point { x: w, y: 0 };
        let p2 = Point { x: 0, y: h };
        canvas.draw_line(p1, p2, BLUE_COLOR);
    }
    {
        let p1 = Point { x: w / 2, y: 0 };
        let p2 = Point { x: w / 2, y: h };
        canvas.draw_line(p1, p2, GREEN_COLOR);
    }
    assert_eq!(at(&pixels, 0, 0), RED_COLOR);
    assert_eq!(at(&pixels, 0, 1), RED_COLOR);
    assert_eq!(at(&pixels, 10, 10), RED_COLOR);
    assert_eq!(at(&pixels, 10, 11), RED_COLOR);
    assert_eq!(at(&pixels, 10, 12), BACKGROUND_COLOR);
    assert_eq!(at(&pixels, 127, 0), BLUE_COLOR);
    assert_eq!(at(&pixels, 0, 127), BLUE_COLOR);
    assert_eq!(at(&pixels, 64, 0), GREEN_COLOR);
    assert_eq!(at(&pixels, 64, 127), GREEN_COLOR);
    assert_eq!(at(&pixels, 65, 30), BACKGROUND_COLOR);
}

#[test]
fn line_off_canvas_draws_nothing() {
    let mut pixels = HeapPixels2D::new(4, 4, BACKGROUND_COLOR);
    let mut canvas = Canvas::new(&mut pixels);
    canvas.draw_line(Point { x: 0, y: -10 }, Point { x: 3, y: -5 }, RED_COLOR);
    canvas.draw_line(Point { x: -3, y: 0 }, Point { x: -3, y: 3 }, RED_COLOR);
    canvas.draw_line(Point { x: isize::MIN, y: isize::MIN }, Point { x: isize::MAX, y: isize::MAX }, RED_COLOR);
    assert_eq!(at(&pixels, 0, 0), RED_COLOR);
    assert_eq!(at(&pixels, 1, 0), BACKGROUND_COLOR);
}

#[test]
fn fill_triangle() {
    let w = 128;
    let h = 128;
    let mut pixels = HeapPixels2D::new(w, h, Pixel::new(0, 0, 0, 0));
    let mut canvas = Canvas::new(&mut pixels);
    canvas.fill(BACKGROUND_COLOR);
    let w = w as isize;
    let h = h as isize;
    {
        let v1 = PointF::from_int(w / 2, h / 8);
        let v2 = PointF::from_int(w / 8, h / 2);
        let v3 = PointF::from_int(w * 7 / 8, h * 7 / 8);
        canvas.fill_triangle(v1, v2, v3, RED_COLOR);
    }
    {
        let v1 = PointF::from_int(w / 2, h * 2 / 8);
        let v2 = PointF::from_int(w * 2 / 8, h / 2);
        let v3 = PointF::from_int(w * 6 / 8, h / 2);
        canvas.fill_triangle(v1, v2, v3, GREEN_COLOR);
    }
    {
        let v1 = PointF::from_int(w / 8, h / 8);
        let v2 = PointF::from_int(w / 8, h * 3 / 8);
        let v3 = PointF::from_int(w * 3 / 8, h * 3 / 8);
        canvas.fill_triangle(v1, v2, v3, BLUE_COLOR);
    }
    assert_eq!(at(&pixels, 64, 16), RED_COLOR);
    assert_eq!(at(&pixels, 112, 112), RED_COLOR);
    assert_eq!(at(&pixels, 64, 40), GREEN_COLOR);
    assert_eq!(at(&pixels, 20, 40), BLUE_COLOR);
    assert_eq!(at(&pixels, 16, 16), BLUE_COLOR);
    assert_eq!(at(&pixels, 120, 10), BACKGROUND_COLOR);
    assert_eq!(at(&pixels, 10, 120), BACKGROUND_COLOR);
}

#[test]
fn opaque_triangle_over_rect() {
    let mut pixels = HeapPixels2D::new(128, 128, Pixel::new(0, 0, 0, 0));
    let mut canvas = Canvas::new(&mut pixels);
    canvas.fill(BACKGROUND_COLOR);
    canvas.fill_rect(Point { x: 48, y: 48 }, 32, 32, RED_COLOR);
    canvas.fill_triangle(
        PointF::from_int(40, 40),
        PointF::from_int(100, 40),
        PointF::from_int(40, 100),
        BLUE_COLOR,
    );
    // Inside both shapes the later, opaque color wins outright.
    assert_eq!(at(&pixels, 50, 50), BLUE_COLOR);
    assert_eq!(at(&pixels, 60, 60), BLUE_COLOR);
    // Inside the rectangle only.
    assert_eq!(at(&pixels, 79, 79), RED_COLOR);
    // Outside both.
    assert_eq!(at(&pixels, 100, 100), BACKGROUND_COLOR);
}

#[test]
fn alpha_blending() {
    let w = 128;
    let h = 128;
    let mut pixels = HeapPixels2D::new(w, h, Pixel::new(0, 0, 0, 0));
    let mut canvas = Canvas::new(&mut pixels);
    canvas.fill(BACKGROUND_COLOR);
    let w = w as isize;
    let h = h as isize;
    {
        let p = Point { x: 0, y: 0 };
        canvas.fill_rect(p, w * 3 / 4, h * 3 / 4, RED_COLOR);
    }
    {
        let p = Point { x: w - 1, y: h - 1 };
        canvas.fill_rect(p, -w * 3 / 4, -h * 3 / 4, Pixel::new(0, 0xaa, 0, 0x55));
    }
    // Green over red, where the two rectangles overlap.
    let p = canvas.pixels()[40 * 128 + 40];
    assert_eq!((p.r(), p.g(), p.b(), p.a()), (170, 56, 0, 198));
    // Green over the background alone.
    assert_eq!(canvas.pixels()[120 * 128 + 120], Pixel::new(0, 0xaa, 0, 0x55).over(BACKGROUND_COLOR));
    {
        let c = PointF::from_int(w / 2, h / 2);
        let r = (w / 4) as i64 * UNIT;
        canvas.fill_circle(c, r, Pixel::new(0, 0, 0xaa, 0xbb));
    }
    {
        let v1 = PointF::from_int(0, h - 1);
        let v2 = PointF::from_int(w - 1, h - 1);
        let v3 = PointF::from_int(w / 2, 0);
        canvas.fill_triangle(v1, v2, v3, Pixel::new(0xaa, 0xaa, 0, 0xbb));
    }
    let blue = Pixel::new(0, 0, 0xaa, 0xbb);
    let yellow = Pixel::new(0xaa, 0xaa, 0, 0xbb);
    let overlap = Pixel::new(0, 0xaa, 0, 0x55).over(RED_COLOR);
    assert_eq!(at(&pixels, 64, 64), yellow.over(blue.over(overlap)));
    assert_eq!(at(&pixels, 2, 2), RED_COLOR);
}

#[test]
fn stack_buffer_draws_like_heap_buffer() {
    let mut stack = StackPixels2D::<16>::new(4, 4, BACKGROUND_COLOR);
    let mut heap = HeapPixels2D::new(4, 4, BACKGROUND_COLOR);
    {
        let mut canvas = Canvas::new(&mut stack);
        canvas.fill_rect(Point { x: 1, y: 1 }, 2, -2, RED_COLOR);
    }
    {
        let mut canvas = Canvas::new(&mut heap);
        canvas.fill_rect(Point { x: 1, y: 1 }, 2, -2, RED_COLOR);
    }
    assert_eq!(stack.pixels(), heap.pixels());
    assert_eq!(at(&heap, 1, 0), RED_COLOR);
    assert_eq!(at(&heap, 2, 1), RED_COLOR);
    assert_eq!(at(&heap, 1, 2), BACKGROUND_COLOR);
}

#[test]
fn text() {
    let w = 128 * 5;
    let h = 128 * 2;
    let mut pixels = HeapPixels2D::new(w, h, Pixel::new(0, 0, 0, 0));
    let mut canvas = Canvas::new(&mut pixels);
    canvas.fill(BACKGROUND_COLOR);
    let font = default_font();
    let text = "AaBbCcDdEeFfGgHhIiJjKkLlMmNnOoPpQqRrSsTtUuVvWwXxYyZz
Aa 0123456789
Aa !?.,\'\"()[]{}<>:;/\\-_=+*&^%$#@`~|
Hello, world!
";
    let pos = Point { x: 0, y: 0 };
    canvas.text(text, pos, &font, 1, RED_COLOR);
    let pos = Point { x: 0, y: 32 };
    canvas.text(text, pos, &font, 2, RED_COLOR);
    let pos = Point { x: 0, y: 32 * 3 };
    canvas.text(text, pos, &font, 3, RED_COLOR);

    let text = "// Out of canvas";
    let pos = Point { x: -16, y: 32 * 6 };
    canvas.text(text, pos, &font, 14, GREEN_COLOR);

    // The apex of the first 'A' is its only point on the top row.
    assert_eq!(at(&pixels, 0, 0), BACKGROUND_COLOR);
    assert_eq!(at(&pixels, 1, 0), RED_COLOR);
    assert_eq!(at(&pixels, 2, 0), BACKGROUND_COLOR);
    assert_eq!(at(&pixels, 0, 1), RED_COLOR);
    // At scale 2 the same point is a 2 by 2 square.
    assert_eq!(at(&pixels, 2, 32), RED_COLOR);
    assert_eq!(at(&pixels, 3, 33), RED_COLOR);
    assert_eq!(at(&pixels, 1, 32), BACKGROUND_COLOR);
    assert_eq!(at(&pixels, 4, 32), BACKGROUND_COLOR);
}

#[test]
fn text_unknown_character_is_a_block() {
    let mut pixels = HeapPixels2D::new(8, 8, BACKGROUND_COLOR);
    let mut canvas = Canvas::new(&mut pixels);
    let font = default_font();
    canvas.text("\u{e9}", Point { x: 1, y: 1 }, &font, 1, RED_COLOR);
    for y in 0..8 {
        for x in 0..8 {
            let inside = (1..4).contains(&x) && (1..6).contains(&y);
            let expected = if inside { RED_COLOR } else { BACKGROUND_COLOR };
            assert_eq!(at(&pixels, x, y), expected);
        }
    }
}

#[test]
fn png_encoding() {
    let mut pixels = HeapPixels2D::new(2, 1, Pixel::new(1, 2, 3, 4));
    {
        let mut canvas = Canvas::new(&mut pixels);
        canvas.fill_rect(Point { x: 1, y: 0 }, 1, 1, RED_COLOR);
    }
    let png = png_bytes(&pixels).unwrap();
    assert_eq!(&png[..8], &[0x89, b'P', b'N', b'G', 0x0d, 0x0a, 0x1a, 0x0a]);
    assert_eq!(&png[12..16], b"IHDR");
    assert_eq!(&png[16..24], &[0, 0, 0, 2, 0, 0, 0, 1]);
    assert_eq!(rgba_bytes(&pixels), vec![1, 2, 3, 4, 0xff, 0, 0, 0xff]);

    let empty = HeapPixels2D::new(0, 0, RED_COLOR);
    assert_eq!(png_bytes(&empty), Err(PngError::Encoding));
}

#[test]
fn ppm_encoding() {
    let pixels = HeapPixels2D::new(2, 1, Pixel::new(0xff, 0x80, 0x10, 0x80));
    let bytes = ppm_bytes(&pixels);
    let mut expected = b"P6\n2 1 255\n".to_vec();
    expected.extend_from_slice(&[0x80, 0x40, 0x08, 0x80, 0x40, 0x08]);
    assert_eq!(bytes, expected);
}

#[test]
fn zero_extent_rect_changes_nothing() {
    let mut pixels = HeapPixels2D::new(5, 4, Pixel::new(7, 8, 9, 0));
    let before = pixels.pixels().to_vec();
    let mut canvas = Canvas::new(&mut pixels);
    canvas.fill_rect(Point { x: 1, y: 1 }, 0, 3, RED_COLOR);
    canvas.fill_rect(Point { x: 1, y: 1 }, -3, 0, RED_COLOR);
    canvas.fill_rect(Point { x: 0, y: 0 }, 0, 0, RED_COLOR);
    assert_eq!(pixels.pixels(), &before[..]);
}

#[test]
fn shapes_outside_the_buffer_change_nothing() {
    let mut pixels = HeapPixels2D::new(6, 5, BACKGROUND_COLOR);
    let mut canvas = Canvas::new(&mut pixels);
    canvas.fill_rect(Point { x: -10, y: 0 }, 5, 3, RED_COLOR);
    canvas.fill_rect(Point { x: isize::MAX, y: isize::MIN }, isize::MIN, isize::MAX, RED_COLOR);
    canvas.fill_rect(Point { x: 6, y: 5 }, 100, 100, RED_COLOR);
    canvas.fill_circle(PointF::from_int(-100, 2), 50 * UNIT, RED_COLOR);
    canvas.fill_circle(PointF::from_int(isize::MIN, isize::MAX), i64::MIN, RED_COLOR);
    canvas.draw_line(Point { x: 6, y: 0 }, Point { x: 6, y: 4 }, RED_COLOR);
    canvas.draw_line(Point { x: 10, y: -3 }, Point { x: 20, y: 30 }, RED_COLOR);
    canvas.fill_triangle(
        PointF::from_int(-50, -50),
        PointF::from_int(-40, -50),
        PointF::from_int(-50, -40),
        RED_COLOR,
    );
    assert_eq!(pixels.pixels(), [BACKGROUND_COLOR; 30]);
}

#[test]
fn rect_partly_outside_is_clipped() {
    let mut pixels = HeapPixels2D::new(4, 3, BACKGROUND_COLOR);
    let mut canvas = Canvas::new(&mut pixels);
    canvas.fill_rect(Point { x: 2, y: 1 }, 10, -10, RED_COLOR);
    for y in 0..3 {
        for x in 0..4 {
            let expected = if x >= 2 && y <= 1 { RED_COLOR } else { BACKGROUND_COLOR };
            assert_eq!(at(&pixels, x, y), expected);
        }
    }
}

#[test]
fn pixel_access() {
    let mut pixels = HeapPixels2D::new(3, 2, BACKGROUND_COLOR);
    let mut canvas = Canvas::new(&mut pixels);
    *canvas.pixel_mut(2, 1) = RED_COLOR;
    canvas.pixel_over_by(0, 1, Pixel::new(0, 0, 0xff, 0xff));
    assert_eq!(canvas.width(), 3);
    assert_eq!(canvas.height(), 2);
    assert_eq!(canvas.inner().pixels()[5], RED_COLOR);
    assert_eq!(canvas.pixels()[3], BLUE_COLOR);
    assert_eq!(at(&pixels, 2, 1), RED_COLOR);
    assert_eq!(at(&pixels, 1, 1), BACKGROUND_COLOR);
}

#[test]
fn huge_triangle_covers_the_buffer() {
    let mut pixels = HeapPixels2D::new(4, 4, BACKGROUND_COLOR);
    let mut canvas = Canvas::new(&mut pixels);
    canvas.fill_triangle(
        PointF::from_int(isize::MIN, isize::MIN),
        PointF::from_int(isize::MAX, isize::MIN),
        PointF::from_int(0, isize::MAX),
        RED_COLOR,
    );
    assert_eq!(pixels.pixels(), [RED_COLOR; 16]);
}

#[test]
fn huge_circle_covers_the_buffer() {
    let mut pixels = HeapPixels2D::new(3, 3, BACKGROUND_COLOR);
    let mut canvas = Canvas::new(&mut pixels);
    canvas.fill_circle(PointF::from_int(1, 1), i64::MAX, RED_COLOR);
    assert_eq!(pixels.pixels(), [RED_COLOR; 9]);
    let mut canvas = Canvas::new(&mut pixels);
    canvas.fill_circle(PointF::from_int(isize::MIN, 1), i64::MIN, BLUE_COLOR);
    assert_eq!(pixels.pixels(), [RED_COLOR; 9]);
}

#[test]
fn text_at_large_or_zero_scale() {
    let mut pixels = HeapPixels2D::new(4, 4, BACKGROUND_COLOR);
    let mut canvas = Canvas::new(&mut pixels);
    let font = default_font();
    canvas.text("A", Point { x: 0, y: 0 }, &font, 1 << 31, RED_COLOR);
    canvas.text("Hello\nworld", Point { x: 0, y: 0 }, &font, 0, RED_COLOR);
    canvas.text("", Point { x: 0, y: 0 }, &font, 3, RED_COLOR);
    assert_eq!(pixels.pixels(), [BACKGROUND_COLOR; 16]);
}
