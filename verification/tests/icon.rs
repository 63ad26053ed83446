//! Pixels, images, and icon files.

use ezrama::icon::{
    alpha, channels, from_channels, ico_bytes, opaque, premultiply, unpremultiply, Image,
    EMBEDDED_SIZE,
};

/// Artwork of the right size: an opaque disc on a transparent ground.
fn artwork() -> Vec<u8> {
    let mut bytes = Vec::new();
    for y in 0..EMBEDDED_SIZE as i32 {
        for x in 0..EMBEDDED_SIZE as i32 {
            let (dx, dy) = (2 * x - 63, 2 * y - 63);
            let pixel = if dx * dx + dy * dy < 3600 { opaque(10, 20, 30) } else { 0 };
            bytes.extend_from_slice(&pixel.to_le_bytes());
        }
    }
    bytes
}

#[test]
fn unpremultiplication_undoes_premultiplication() {
    assert_eq!(unpremultiply(0x8080_8000), 0x80ff_ff00);
    assert_eq!(unpremultiply(opaque(10, 20, 30)), opaque(10, 20, 30));
    assert_eq!(unpremultiply(0), 0);
    for &straight in &[0x40c0_8020u32, 0x01ff_0000, 0xfe12_3456, 0x7f00_00ff] {
        let back = unpremultiply(premultiply(straight));
        let [a, r, g, b] = channels(back);
        let [ea, er, eg, eb] = channels(straight);
        assert_eq!(a, ea);
        let tolerance = 255 / ea.max(1) + 1;
        assert!(r.abs_diff(er) <= tolerance && g.abs_diff(eg) <= tolerance && b.abs_diff(eb) <= tolerance);
    }
}

#[test]
fn the_icon_file_has_the_expected_layout() {
    let mut image = Image::blank(8);
    image.pixels[0] = opaque(1, 2, 3);
    image.pixels[63] = 0x8040_2010;
    let bytes = ico_bytes(&image);
    assert_eq!(&bytes[..6], &[0, 0, 1, 0, 1, 0]);
    assert_eq!(&bytes[6..10], &[8, 8, 0, 0]);
    assert_eq!(&bytes[10..14], &[1, 0, 32, 0]);
    let entry_bytes = 40 + 8 * 8 * 4 + 4 * 8;
    assert_eq!(&bytes[14..18], &(entry_bytes as u32).to_le_bytes());
    assert_eq!(&bytes[18..22], &22u32.to_le_bytes());
    assert_eq!(&bytes[22..26], &40u32.to_le_bytes());
    assert_eq!(&bytes[26..30], &8i32.to_le_bytes());
    assert_eq!(&bytes[30..34], &16i32.to_le_bytes());
    assert_eq!(bytes.len(), 22 + entry_bytes);
    let pixels = &bytes[62..62 + 256];
    let last_row_first = &pixels[..4];
    assert_eq!(last_row_first, &0u32.to_le_bytes(), "rows are stored bottom-up");
    let first_row_first = &pixels[7 * 32..7 * 32 + 4];
    assert_eq!(first_row_first, &opaque(1, 2, 3).to_le_bytes());
    let bottom_right = &pixels[28..32];
    assert_eq!(bottom_right, &unpremultiply(0x8040_2010).to_le_bytes());
    let mask = &bytes[62 + 256..];
    assert_eq!(mask.len(), 32);
    assert_eq!(mask[0], 0b1111_1110, "bottom row: only the last pixel is opaque");
    assert_eq!(mask[28], 0b0111_1111, "top row: only the first pixel is opaque");
    let full = ico_bytes(&Image::embedded(&artwork()).unwrap());
    assert_eq!(full.len(), 22 + 40 + 64 * 64 * 4 + 8 * 64);
}

#[test]
fn images_need_a_square_number_of_pixels() {
    assert!(Image::from_pixels(2, vec![0; 4]).is_some());
    assert!(Image::from_pixels(2, vec![0; 3]).is_none());
}

#[test]
fn artwork_is_read_pixel_by_pixel() {
    let image = Image::embedded(&artwork()).unwrap();
    assert_eq!(image.size, EMBEDDED_SIZE);
    assert!(image.has_alpha());
    assert_eq!(image.get(0, 0), 0);
    assert_eq!(image.get(32, 32), opaque(10, 20, 30));
    assert!(Image::embedded(&[]).is_none());
    assert!(!Image::blank(3).has_alpha());
}

#[test]
fn channels_are_held_at_their_largest_value() {
    assert_eq!(channels(0x1234_5678), [0x12, 0x34, 0x56, 0x78]);
    assert_eq!(from_channels([0x12, 0x34, 0x56, 0x78]), 0x1234_5678);
    assert_eq!(from_channels([300, 256, 255, 0]), 0xffff_ff00);
    assert_eq!(alpha(0x7f00_0000), 0x7f);
    assert_eq!(premultiply(0x80ff_0040), 0x8080_0020);
}

#[test]
fn a_mask_becomes_the_alpha_channel() {
    let color = Image::from_pixels(2, vec![0x0001_0203, 0x00ff_ffff, 0, 0x0012_3456]).unwrap();
    let mask = Image::from_pixels(2, vec![0, 0x00ff_ffff, 0, 0xff00_0000]).unwrap();
    let masked = color.with_mask(&mask);
    assert_eq!(masked.pixels, [0xff01_0203, 0, 0xff00_0000, 0xff12_3456]);
}

fn fill(image: &mut Image, x0: usize, y0: usize, x1: usize, y1: usize, pixel: u32) {
    for y in y0..y1 {
        for x in x0..x1 {
            image.pixels[y * image.size + x] = pixel;
        }
    }
}

#[test]
fn the_embedded_artwork_is_premultiplied_with_transparent_corners() {
    let image = Image::embedded(&artwork()).unwrap();
    assert_eq!(image.size, EMBEDDED_SIZE);
    assert!(image.has_alpha());
    assert_eq!(image.get(0, 0), 0);
    assert_eq!(image.get(EMBEDDED_SIZE - 1, EMBEDDED_SIZE - 1), 0);
    assert!(image.pixels.iter().all(|&p| {
        let [a, r, g, b] = channels(p);
        r <= a && g <= a && b <= a
    }));
    let opaque_pixels = image.pixels.iter().filter(|&&p| alpha(p) == 255).count();
    assert!(opaque_pixels > EMBEDDED_SIZE * EMBEDDED_SIZE / 4);
}

#[test]
fn resampling_averages_areas_and_keeps_alpha() {
    let mut source = Image::blank(4);
    fill(&mut source, 0, 0, 2, 4, opaque(200, 0, 0));
    fill(&mut source, 2, 0, 4, 4, opaque(0, 0, 100));
    let half = source.resample(2);
    assert_eq!(half.get(0, 0), opaque(200, 0, 0));
    assert_eq!(half.get(1, 1), opaque(0, 0, 100));
    let one = source.resample(1);
    assert_eq!(one.get(0, 0), opaque(100, 0, 50));
    let three = source.resample(3);
    assert_eq!(three.get(0, 0), opaque(200, 0, 0));
    assert_eq!(three.get(2, 2), opaque(0, 0, 100));
    assert_eq!(three.get(1, 1), opaque(100, 0, 50));
    assert_eq!(source.resample(4), source);
    let transparent = Image::blank(4).resample(2);
    assert!(transparent.pixels.iter().all(|&p| p == 0));
}

#[test]
fn the_artwork_survives_scaling_to_tray_sizes() {
    let image = Image::embedded(&artwork()).unwrap();
    for size in [16usize, 20, 24, 32, 48] {
        let scaled = image.resample(size);
        assert_eq!(scaled.size, size);
        assert_eq!(scaled.get(0, 0), 0);
        assert!(scaled.pixels.iter().filter(|&&p| alpha(p) == 255).count() > size * size / 4);
    }
}

#[test]
fn an_even_image_stays_even() {
    let image = Image::from_pixels(3, vec![0x8040_2010; 9]).unwrap();
    for size in [1usize, 2, 4, 5, 7] {
        assert!(image.resample(size).pixels.iter().all(|&p| p == 0x8040_2010));
    }
}

#[test]
fn an_empty_image_becomes_transparent() {
    let grown = Image::blank(0).resample(2);
    assert_eq!(grown.size, 2);
    assert!(grown.pixels.iter().all(|&p| p == 0));
    assert!(Image::blank(2).resample(0).pixels.is_empty());
}

#[test]
fn averages_are_rounded_to_the_nearest() {
    let image = Image::from_pixels(2, vec![0, 0, 1, 2]).unwrap();
    assert_eq!(image.resample(1).get(0, 0), 1);
    let image = Image::from_pixels(2, vec![0, 0, 0, 2]).unwrap();
    assert_eq!(image.resample(1).get(0, 0), 1);
    let image = Image::from_pixels(2, vec![0, 0, 0, 1]).unwrap();
    assert_eq!(image.resample(1).get(0, 0), 0);
}

#[test]
fn resampling_keeps_pixels_premultiplied() {
    let pixels = (0..25u32).map(|i| premultiply(i * 0x0a13_1d2b)).collect();
    let image = Image::from_pixels(5, pixels).unwrap();
    for size in [1usize, 2, 3, 4, 6, 9] {
        assert!(image.resample(size).pixels.iter().all(|&p| {
            let [a, r, g, b] = channels(p);
            r <= a && g <= a && b <= a
        }));
    }
}

#[test]
fn premultiplication_undoes_unpremultiplication() {
    for p in [0u32, 0x0101_0001, 0x8080_4001, 0x7f7f_0040, 0xff12_3456, 0x0302_0103] {
        assert_eq!(premultiply(unpremultiply(p)), p);
    }
}

/// The same average with the language's own single-precision numbers.
fn resampled(image: &Image, size: usize) -> Vec<u32> {
    let scale = image.size as f32 / size as f32;
    let overlap = |start: usize, low: f32, high: f32| -> f32 {
        ((start as f32 + 1.0).min(high) - (start as f32).max(low)).max(0.0)
    };
    let mut pixels = Vec::new();
    for y in 0..size {
        let (y0, y1) = (y as f32 * scale, (y + 1) as f32 * scale);
        for x in 0..size {
            let (x0, x1) = (x as f32 * scale, (x + 1) as f32 * scale);
            let mut total = [0f32; 4];
            let mut weight = 0f32;
            for sy in (y0.floor() as usize)..(y1.ceil() as usize).min(image.size) {
                for sx in (x0.floor() as usize)..(x1.ceil() as usize).min(image.size) {
                    let part = overlap(sy, y0, y1) * overlap(sx, x0, x1);
                    let parts = channels(image.get(sx, sy));
                    for i in 0..4 {
                        total[i] += parts[i] as f32 * part;
                    }
                    weight += part;
                }
            }
            let value = |i: usize| (total[i] / weight.max(f32::EPSILON) + 0.5) as u32;
            pixels.push(from_channels([value(0), value(1), value(2), value(3)]));
        }
    }
    pixels
}

#[test]
fn averages_are_single_precision() {
    let mut state: u32 = 12345;
    for from in [1usize, 2, 3, 4, 5, 6, 7, 10, 13, 16, 20, 31] {
        let mut pixels = Vec::new();
        for _ in 0..from * from {
            state = state.wrapping_mul(1_664_525).wrapping_add(1_013_904_223);
            pixels.push(state ^ (state >> 15));
        }
        let image = Image::from_pixels(from, pixels).unwrap();
        for size in [1usize, 2, 3, 4, 5, 7, 9, 11, 16, 23, 24] {
            if size != from {
                assert_eq!(image.resample(size).pixels, resampled(&image, size));
            }
        }
    }
}

#[test]
fn the_artwork_is_averaged_in_single_precision() {
    let image = Image::embedded(&artwork()).unwrap();
    for size in [16usize, 20, 24, 48] {
        assert_eq!(image.resample(size).pixels, resampled(&image, size));
    }
}

#[test]
fn halves_fall_as_single_precision_has_them() {
    let image =
        Image::from_pixels(2, vec![opaque(255, 0, 0), opaque(0, 0, 0), opaque(255, 0, 0), opaque(0, 0, 0)])
            .unwrap();
    assert_eq!(image.resample(3).get(1, 1), opaque(127, 0, 0));
}
