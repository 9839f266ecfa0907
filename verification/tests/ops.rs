use rusty_herbarium::buffer::GrayBuf;
use rusty_herbarium::buffer::ImageBuf;
use rusty_herbarium::error::PipelineError;
use rusty_herbarium::ops::brighten_image;
use rusty_herbarium::ops::crop_image;
use rusty_herbarium::ops::flip_horizontal;
use rusty_herbarium::ops::flip_vertical;
use rusty_herbarium::ops::invert_image;
use rusty_herbarium::ops::rotate180;
use rusty_herbarium::ops::rotate270;
use rusty_herbarium::ops::rotate90;
use rusty_herbarium::pixel::PixelColor;
use rusty_herbarium::pixel::Rgba;

fn px(red: u8, green: u8, blue: u8) -> Rgba {
    Rgba { red, green, blue, alpha: 255 }
}

fn gradient_image(width: usize, height: usize) -> ImageBuf {
    let mut pixels = Vec::new();
    for y in 0..height {
        for x in 0..width {
            pixels.push(px((x * 7 % 256) as u8, (y * 11 % 256) as u8, ((x + y) % 256) as u8));
        }
    }
    ImageBuf { width, height, pixels }
}

#[test]
fn pixel_constructors_split_color_and_alpha() {
    let p = Rgba::opaque(1, 2, 3);
    assert_eq!(p.alpha, 255);
    assert_eq!(p.color(), PixelColor { red: 1, green: 2, blue: 3 });
}

#[test]
fn crop_dimensions_match_margins() {
    let img = gradient_image(20, 15);
    let out = crop_image(&img, 3, 4, 5, 2).unwrap();
    assert_eq!(out.width, 20 - 3 - 4);
    assert_eq!(out.height, 15 - 5 - 2);
    for y in 0..out.height {
        for x in 0..out.width {
            assert_eq!(out.pixels[y * out.width + x], img.pixels[(y + 5) * 20 + (x + 3)]);
        }
    }
}

#[test]
fn crop_rejects_margins_that_leave_nothing() {
    let img = gradient_image(10, 10);
    assert_eq!(crop_image(&img, 5, 5, 0, 0).unwrap_err(), PipelineError::Geometry);
    assert_eq!(crop_image(&img, 0, 0, 9, 1).unwrap_err(), PipelineError::Geometry);
    assert_eq!(crop_image(&img, 12, 0, 0, 0).unwrap_err(), PipelineError::Geometry);
    assert!(crop_image(&img, 5, 4, 5, 4).is_ok());
}

#[test]
fn invert_twice_restores_the_buffer() {
    let img = gradient_image(13, 9);
    let back = invert_image(&invert_image(&img));
    assert_eq!(back.width, img.width);
    assert_eq!(back.height, img.height);
    assert_eq!(back.pixels, img.pixels);
}

#[test]
fn invert_keeps_alpha_and_flips_colors() {
    let img = ImageBuf {
        width: 1,
        height: 1,
        pixels: vec![Rgba { red: 10, green: 200, blue: 0, alpha: 77 }],
    };
    let out = invert_image(&img);
    assert_eq!(out.pixels[0], Rgba { red: 245, green: 55, blue: 255, alpha: 77 });
}

#[test]
fn brighten_clamps_at_both_ends() {
    let img = ImageBuf {
        width: 2,
        height: 1,
        pixels: vec![
            Rgba { red: 250, green: 10, blue: 128, alpha: 3 },
            Rgba { red: 0, green: 255, blue: 30, alpha: 9 },
        ],
    };
    let up = brighten_image(&img, 30);
    assert_eq!(up.pixels[0], Rgba { red: 255, green: 40, blue: 158, alpha: 3 });
    assert_eq!(up.pixels[1], Rgba { red: 30, green: 255, blue: 60, alpha: 9 });
    let down = brighten_image(&img, -30);
    assert_eq!(down.pixels[0], Rgba { red: 220, green: 0, blue: 98, alpha: 3 });
    assert_eq!(down.pixels[1], Rgba { red: 0, green: 225, blue: 0, alpha: 9 });
}

#[test]
fn flips_mirror_the_expected_axis() {
    let img = gradient_image(6, 4);
    let h = flip_horizontal(&img);
    let v = flip_vertical(&img);
    for y in 0..4 {
        for x in 0..6 {
            assert_eq!(h.pixels[y * 6 + x], img.pixels[y * 6 + (5 - x)]);
            assert_eq!(v.pixels[y * 6 + x], img.pixels[(3 - y) * 6 + x]);
        }
    }
    let hh = flip_horizontal(&h);
    assert_eq!(hh.pixels, img.pixels);
}

#[test]
fn rotations_follow_the_clockwise_convention() {
    // 2 wide, 3 tall:
    //   a b
    //   c d
    //   e f
    let g = GrayBuf { width: 2, height: 3, data: vec![1, 2, 3, 4, 5, 6] };
    let q = rotate90(&g);
    assert_eq!((q.width, q.height), (3, 2));
    // quarter turn clockwise:
    //   e c a
    //   f d b
    assert_eq!(q.data, vec![5, 3, 1, 6, 4, 2]);
    let h = rotate180(&g);
    assert_eq!((h.width, h.height), (2, 3));
    assert_eq!(h.data, vec![6, 5, 4, 3, 2, 1]);
    let t = rotate270(&g);
    assert_eq!((t.width, t.height), (3, 2));
    //   b d f
    //   a c e
    assert_eq!(t.data, vec![2, 4, 6, 1, 3, 5]);
}

#[test]
fn crop_with_zero_margins_is_identity() {
    let img = gradient_image(5, 4);
    let out = crop_image(&img, 0, 0, 0, 0).unwrap();
    assert_eq!(out.width, 5);
    assert_eq!(out.height, 4);
    assert_eq!(out.pixels, img.pixels);
}

#[test]
fn single_pixel_image_survives_the_transforms() {
    let img = ImageBuf {
        width: 1,
        height: 1,
        pixels: vec![Rgba { red: 9, green: 18, blue: 27, alpha: 36 }],
    };
    assert_eq!(invert_image(&img).pixels[0], Rgba { red: 246, green: 237, blue: 228, alpha: 36 });
    assert_eq!(flip_horizontal(&img).pixels, img.pixels);
    assert_eq!(flip_vertical(&img).pixels, img.pixels);
    assert!(crop_image(&img, 0, 1, 0, 0).is_err());
}

#[test]
fn filled_buffer_holds_the_fill_color() {
    let fill = Rgba { red: 3, green: 5, blue: 7, alpha: 11 };
    let img = ImageBuf::new(4, 3, fill);
    assert_eq!(img.width, 4);
    assert_eq!(img.height, 3);
    assert_eq!(img.pixels.len(), 12);
    for p in &img.pixels {
        assert_eq!(*p, fill);
    }
}
