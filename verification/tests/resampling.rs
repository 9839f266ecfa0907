use rusty_herbarium::buffer::ImageBuf;
use rusty_herbarium::pixel::Rgba;
use rusty_herbarium::resample::contrast_image;
use rusty_herbarium::resample::grayscale_image;
use rusty_herbarium::resample::resize_image;
use rusty_herbarium::resample::ResampleFilter;

fn sample_image(width: usize, height: usize) -> ImageBuf {
    let mut pixels = Vec::new();
    for y in 0..height {
        for x in 0..width {
            pixels.push(Rgba {
                red: ((x * 29 + y * 13) % 256) as u8,
                green: ((x * 7 + y * 23) % 256) as u8,
                blue: ((3 * x + 5 * y) % 256) as u8,
                alpha: 255,
            });
        }
    }
    ImageBuf { width, height, pixels }
}

fn as_raw(img: &ImageBuf) -> image::RgbaImage {
    let mut bytes = Vec::new();
    for p in &img.pixels {
        bytes.push(p.red);
        bytes.push(p.green);
        bytes.push(p.blue);
        bytes.push(p.alpha);
    }
    image::RgbaImage::from_raw(img.width as u32, img.height as u32, bytes).unwrap()
}

#[test]
fn contrast_matches_the_reference_tone_curve() {
    let img = sample_image(9, 7);
    let ours = contrast_image(&img, 60);
    let reference = image::imageops::contrast(&as_raw(&img), 60.0);
    assert_eq!(ours.width, 9);
    assert_eq!(ours.height, 7);
    let theirs = reference.into_raw();
    let mut flat = Vec::new();
    for p in &ours.pixels {
        flat.push(p.red);
        flat.push(p.green);
        flat.push(p.blue);
        flat.push(p.alpha);
    }
    assert_eq!(flat, theirs);
    // A mid-gray pixel moves under a positive contrast adjustment, so the
    // transform cannot be the identity.
    let gray = ImageBuf {
        width: 1,
        height: 1,
        pixels: vec![Rgba { red: 100, green: 100, blue: 100, alpha: 255 }],
    };
    let adjusted = contrast_image(&gray, 60);
    assert_ne!(adjusted.pixels[0].red, 100);
}

#[test]
fn resize_matches_the_reference_resampler() {
    let img = sample_image(16, 12);
    let ours = resize_image(&img, 8, 6, ResampleFilter::Gaussian).unwrap();
    assert_eq!(ours.width, 8);
    assert_eq!(ours.height, 6);
    let reference =
        image::imageops::resize(&as_raw(&img), 8, 6, image::imageops::FilterType::Gaussian)
            .into_raw();
    let mut flat = Vec::new();
    for p in &ours.pixels {
        flat.push(p.red);
        flat.push(p.green);
        flat.push(p.blue);
        flat.push(p.alpha);
    }
    assert_eq!(flat, reference);
    let sharper = resize_image(&img, 8, 6, ResampleFilter::CatmullRom).unwrap();
    let reference_sharper =
        image::imageops::resize(&as_raw(&img), 8, 6, image::imageops::FilterType::CatmullRom)
            .into_raw();
    let mut flat_sharper = Vec::new();
    for p in &sharper.pixels {
        flat_sharper.push(p.red);
        flat_sharper.push(p.green);
        flat_sharper.push(p.blue);
        flat_sharper.push(p.alpha);
    }
    assert_eq!(flat_sharper, reference_sharper);
}

#[test]
fn resize_rejects_an_empty_target() {
    let img = sample_image(16, 12);
    assert!(resize_image(&img, 0, 6, ResampleFilter::Gaussian).is_err());
    assert!(resize_image(&img, 8, 0, ResampleFilter::CatmullRom).is_err());
}

#[test]
fn grayscale_uses_the_srgb_weights() {
    let img = ImageBuf {
        width: 3,
        height: 1,
        pixels: vec![
            Rgba { red: 255, green: 0, blue: 0, alpha: 255 },
            Rgba { red: 0, green: 255, blue: 0, alpha: 255 },
            Rgba { red: 10, green: 200, blue: 30, alpha: 255 },
        ],
    };
    let gray = grayscale_image(&img);
    assert_eq!(gray.width, 3);
    assert_eq!(gray.height, 1);
    assert_eq!(gray.data[0], ((2126u32 * 255) / 10000) as u8);
    assert_eq!(gray.data[1], ((7152u32 * 255) / 10000) as u8);
    assert_eq!(gray.data[2], ((2126u32 * 10 + 7152 * 200 + 722 * 30) / 10000) as u8);
    // And the crate's own grayscale agrees.
    let reference = image::imageops::grayscale(&as_raw(&img)).into_raw();
    assert_eq!(gray.data, reference);
}
