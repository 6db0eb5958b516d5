use ultra_crustaceous::buffer::{DrawError, OutputBuffer, RgbaBuffer};
use ultra_crustaceous::checker;
use ultra_crustaceous::color::{Color, PaletteBuffer};
use ultra_crustaceous::pixel;
use ultra_crustaceous::pixel::PixelBuffer;
use ultra_crustaceous::vec2::IVec2;

const WIDTH: usize = 320;
const HEIGHT: usize = 240;

#[test]
fn basic_usage() {
    let mut buffer = OutputBuffer::default();

    PixelBuffer::set_pixel(&mut buffer, 0, 0, 123);

    assert_eq!(PixelBuffer::get_pixel(&buffer, 0, 0), 123);
    assert_eq!(PixelBuffer::get_pixel(&buffer, 1, 1), 0);
    assert_eq!(PixelBuffer::width(&buffer), 320);
    assert_eq!(PixelBuffer::height(&buffer), 240);
}

#[test]
fn set_pixel_touches_only_its_pixel() {
    let mut buffer = OutputBuffer::default();
    buffer.set_pixel(17, 29, 9);

    let mut changed = 0;
    for y in 0..HEIGHT {
        for x in 0..WIDTH {
            if buffer.get_pixel(x, y) != 0 {
                assert_eq!((x, y), (17, 29));
                assert_eq!(buffer.get_pixel(x, y), 9);
                changed += 1;
            }
        }
    }
    assert_eq!(changed, 1);
}

#[test]
fn checked_pixel_accessors_reject_out_of_range() {
    let mut buffer = OutputBuffer::default();
    assert_eq!(buffer.try_set_pixel(5, 5, 3), Ok(()));
    assert_eq!(buffer.try_get_pixel(5, 5), Ok(3));
    assert_eq!(buffer.try_set_pixel(320, 0, 3), Err(DrawError::IndexOutOfRange));
    assert_eq!(buffer.try_set_pixel(0, 240, 3), Err(DrawError::IndexOutOfRange));
    assert_eq!(buffer.try_get_pixel(320, 239), Err(DrawError::IndexOutOfRange));
}

#[test]
fn draw_rect_clips_to_buffer() {
    let mut buffer = OutputBuffer::default();
    pixel::draw_rect(&mut buffer, IVec2::new(318, 238), IVec2::new(10, 10), 5);

    let mut colored = 0;
    for y in 0..HEIGHT {
        for x in 0..WIDTH {
            if buffer.get_pixel(x, y) == 5 {
                assert!(x >= 318 && y >= 238);
                colored += 1;
            }
        }
    }
    assert_eq!(colored, 4);
}

#[test]
fn draw_rect_negative_corner_clips() {
    let mut buffer = OutputBuffer::default();
    pixel::draw_rect(&mut buffer, IVec2::new(-3, -3), IVec2::new(5, 5), 7);

    let mut colored = 0;
    for y in 0..HEIGHT {
        for x in 0..WIDTH {
            if buffer.get_pixel(x, y) == 7 {
                assert!(x < 2 && y < 2);
                colored += 1;
            }
        }
    }
    assert_eq!(colored, 4);
}

#[test]
fn clear_fills_every_pixel() {
    let mut buffer = OutputBuffer::default();
    pixel::clear(&mut buffer, 11);
    for y in 0..HEIGHT {
        for x in 0..WIDTH {
            assert_eq!(buffer.get_pixel(x, y), 11);
        }
    }
}

#[test]
fn draw_circle_fills_strictly_inside() {
    let mut buffer = OutputBuffer::default();
    pixel::draw_circle(&mut buffer, IVec2::new(5, 5), 3, 2);

    // the disc is centered on (4.5, 4.5): a pixel is filled exactly when its
    // squared distance from there is strictly below 3^2 (scaled by 4 below)
    for y in 0..16usize {
        for x in 0..16usize {
            let dx = 2 * (x as i64) - 9;
            let dy = 2 * (y as i64) - 9;
            let inside = dx * dx + dy * dy < 36;
            let filled = buffer.get_pixel(x, y) == 2;
            assert_eq!(filled, inside, "pixel ({x}, {y})");
        }
    }
    // nothing outside the bounding box is touched
    let mut colored = 0;
    for y in 0..HEIGHT {
        for x in 0..WIDTH {
            if buffer.get_pixel(x, y) != 0 {
                colored += 1;
            }
        }
    }
    assert_eq!(colored, 32);
}

#[test]
fn draw_circle_clips_at_corner() {
    let mut buffer = OutputBuffer::default();
    pixel::draw_circle(&mut buffer, IVec2::new(0, 0), 4, 6);
    for y in 0..HEIGHT {
        for x in 0..WIDTH {
            if buffer.get_pixel(x, y) == 6 {
                assert!(x < 4 && y < 4);
            }
        }
    }
    // the pixel nearest the adjusted center is filled
    assert_eq!(buffer.get_pixel(0, 0), 6);
}

#[test]
fn draw_rect_with_computes_per_pixel_colors() {
    let mut buffer = OutputBuffer::default();
    pixel::draw_rect_with(&mut buffer, IVec2::new(10, 20), IVec2::new(4, 3), |p: IVec2| {
        (p.x + p.y) as u8
    });
    for y in 20..23usize {
        for x in 10..14usize {
            assert_eq!(buffer.get_pixel(x, y), (x + y) as u8);
        }
    }
    assert_eq!(buffer.get_pixel(14, 20), 0);
    assert_eq!(buffer.get_pixel(10, 23), 0);
}

#[test]
fn modify_rect_with_rewrites_existing_colors() {
    let mut buffer = OutputBuffer::default();
    pixel::draw_rect(&mut buffer, IVec2::new(0, 0), IVec2::new(8, 8), 10);
    pixel::modify_rect_with(&mut buffer, IVec2::new(4, 4), IVec2::new(8, 8), |_p: IVec2, c: u8| {
        c + 1
    });
    // overlap of the two rects is incremented, the rest of the second rect
    // was background
    assert_eq!(buffer.get_pixel(3, 3), 10);
    assert_eq!(buffer.get_pixel(4, 4), 11);
    assert_eq!(buffer.get_pixel(7, 7), 11);
    assert_eq!(buffer.get_pixel(8, 8), 1);
    assert_eq!(buffer.get_pixel(12, 12), 0);
}

#[test]
fn color_from_rgb_quantizes_channels() {
    // full white quantizes to 4-bit maxima, not 8-bit ones
    let c = Color::from_rgb(0xffffff);
    assert_eq!(c, Color(0x0f, 0xff));
    assert_eq!(c.0 & 0x0f, 0x0f);
    assert_eq!(c.1 >> 4, 0x0f);
    assert_eq!(c.1 & 0x0f, 0x0f);

    let d = Color::from_rgb(0x302c2e);
    assert_eq!(d, Color(0x03, 0x22));

    let black = Color::from_rgb(0x000000);
    assert_eq!(black, Color(0x00, 0x00));
}

#[test]
fn palette_default_is_black_and_settable() {
    let mut palette = PaletteBuffer::default();
    for i in 0..32 {
        assert_eq!(palette.get(i), Color(0, 0));
    }
    palette.set(31, Color(1, 2));
    assert_eq!(palette.get(31), Color(1, 2));
    assert_eq!(palette.get(30), Color(0, 0));
}

#[test]
fn checker_demo_pattern_and_palette() {
    let mut buffer = OutputBuffer::default();
    let mut palette = PaletteBuffer::default();
    checker::update(&mut buffer, &mut palette);

    for y in 0..HEIGHT {
        for x in 0..WIDTH {
            let expected = if (y / 10) % 2 != (x / 10) % 2 { 0 } else { 1 };
            assert_eq!(buffer.get_pixel(x, y), expected);
        }
    }
    assert_eq!(palette.get(0), Color(0x00, 0x06));
    assert_eq!(palette.get(1), Color(0x06, 0x00));
    assert_eq!(palette.get(2), Color(0x00, 0x00));
}

#[test]
fn rgba_buffer() {
    let mut buffer = RgbaBuffer::default();

    PixelBuffer::set_pixel(&mut buffer, 0, 0, [0xff, 0x00, 0xff, 0xff]);

    assert_eq!(PixelBuffer::get_pixel(&buffer, 0, 0), [0xff, 0x00, 0xff, 0xff]);
}

#[test]
fn drawing_is_generic_over_pixel_format() {
    let mut buffer = RgbaBuffer::default();
    pixel::draw_rect(&mut buffer, IVec2::new(2, 2), IVec2::new(3, 3), [1, 2, 3, 4]);
    assert_eq!(PixelBuffer::get_pixel(&buffer, 2, 2), [1, 2, 3, 4]);
    assert_eq!(PixelBuffer::get_pixel(&buffer, 4, 4), [1, 2, 3, 4]);
    assert_eq!(PixelBuffer::get_pixel(&buffer, 5, 5), [0, 0, 0, 0]);
}
