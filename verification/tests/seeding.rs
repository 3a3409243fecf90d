use std::io::Cursor;

use cgol::{Cell, Universe};
use image::{DynamicImage, GrayImage, ImageFormat, RgbImage, RgbaImage};

const A: Cell = Cell::Alive;
const D: Cell = Cell::Dead;

fn encoded(image: DynamicImage, format: ImageFormat) -> Vec<u8> {
    let mut bytes = Vec::new();
    image.write_to(&mut Cursor::new(&mut bytes), format).unwrap();
    bytes
}

#[test]
fn pixels_seed_cells_by_the_threshold() {
    let data = [200, 0, 0, 255, 0, 0, 0, 255, 128, 128, 128, 255, 0, 129, 0, 0];
    let u = Universe::from_pixels(2, 2, 4, &data).unwrap();
    assert_eq!(2, u.get_width());
    assert_eq!(2, u.get_height());
    assert_eq!(&vec![A, D, D, A], u.get_cells());
}

#[test]
fn pixels_are_placed_row_after_row() {
    let mut data = vec![0u8; 3 * 2 * 3];
    data[3 * 2] = 255;
    data[3 * 3 + 2] = 255;
    let u = Universe::from_pixels(3, 2, 3, &data).unwrap();
    assert_eq!(3, u.get_width());
    assert_eq!(2, u.get_height());
    assert_eq!(&vec![D, D, A, A, D, D], u.get_cells());
    assert_eq!(A, u.cell_at(0, 2));
    assert_eq!(A, u.cell_at(1, 0));
}

#[test]
fn channels_beyond_the_third_are_ignored() {
    let data = [0, 0, 0, 255, 255, 9, 9, 9, 0, 0];
    let u = Universe::from_pixels(2, 1, 5, &data).unwrap();
    assert_eq!(&vec![D, D], u.get_cells());
}

#[test]
fn fewer_than_three_channels_are_refused() {
    assert!(Universe::from_pixels(2, 1, 2, &[255, 255, 255, 255]).is_none());
    assert!(Universe::from_pixels(2, 1, 1, &[255, 255]).is_none());
    assert!(Universe::from_pixels(2, 1, 0, &[]).is_none());
    assert!(Universe::from_pixels(0, 0, 2, &[]).is_none());
}

#[test]
fn data_of_another_length_is_refused() {
    assert!(Universe::from_pixels(2, 2, 3, &[0; 11]).is_none());
    assert!(Universe::from_pixels(2, 2, 3, &[0; 13]).is_none());
    assert!(Universe::from_pixels(2, 2, 4, &[0; 12]).is_none());
    assert!(Universe::from_pixels(u32::MAX, u32::MAX, usize::MAX, &[0; 3]).is_none());
    assert!(Universe::from_pixels(u32::MAX, u32::MAX, 3, &[]).is_none());
    assert!(Universe::from_pixels(2, 2, 3, &[0; 12]).is_some());
}

#[test]
fn image_without_pixels_seeds_a_universe_without_cells() {
    let u = Universe::from_pixels(0, 7, 3, &[]).unwrap();
    assert_eq!(0, u.get_width());
    assert_eq!(7, u.get_height());
    assert!(u.get_cells().is_empty());
}

#[test]
fn encoded_image_seeds_the_universe_of_its_pixels() {
    let mut image = RgbImage::new(3, 2);
    image.put_pixel(2, 0, image::Rgb([255, 255, 255]));
    image.put_pixel(0, 1, image::Rgb([0, 129, 0]));
    image.put_pixel(1, 1, image::Rgb([128, 128, 128]));
    let bytes = encoded(DynamicImage::ImageRgb8(image), ImageFormat::Png);
    let u = Universe::from_image(&bytes).unwrap();
    assert_eq!(3, u.get_width());
    assert_eq!(2, u.get_height());
    assert_eq!(&vec![D, D, A, A, D, D], u.get_cells());
}

#[test]
fn pixel_in_column_x_and_row_y_seeds_the_cell_in_row_y_and_column_x() {
    let mut image = RgbaImage::new(4, 4);
    image.put_pixel(3, 1, image::Rgba([0, 0, 200, 255]));
    let bytes = encoded(DynamicImage::ImageRgba8(image), ImageFormat::Bmp);
    let u = Universe::from_image(&bytes).unwrap();
    assert_eq!(A, u.cell_at(1, 3));
    assert_eq!(D, u.cell_at(3, 1));
    assert_eq!(1, u.get_cells().iter().filter(|&&cell| cell == A).count());
}

#[test]
fn alpha_does_not_seed_a_cell() {
    let mut image = RgbaImage::new(2, 1);
    image.put_pixel(0, 0, image::Rgba([0, 0, 0, 255]));
    image.put_pixel(1, 0, image::Rgba([130, 0, 0, 0]));
    let bytes = encoded(DynamicImage::ImageRgba8(image), ImageFormat::Png);
    let u = Universe::from_image(&bytes).unwrap();
    assert_eq!(&vec![D, A], u.get_cells());
}

#[test]
fn gray_image_seeds_by_its_brightness() {
    let image = GrayImage::from_raw(4, 1, vec![0, 128, 129, 255]).unwrap();
    let bytes = encoded(DynamicImage::ImageLuma8(image), ImageFormat::Png);
    let u = Universe::from_image(&bytes).unwrap();
    assert_eq!(4, u.get_width());
    assert_eq!(1, u.get_height());
    assert_eq!(&vec![D, D, A, A], u.get_cells());
}

#[test]
fn plain_pixmap_is_decoded() {
    let mut bytes = b"P6\n2 3\n255\n".to_vec();
    bytes.extend_from_slice(&[0, 0, 0, 129, 0, 0]);
    bytes.extend_from_slice(&[0, 0, 255, 0, 0, 0]);
    bytes.extend_from_slice(&[128, 128, 128, 10, 200, 10]);
    let u = Universe::from_image(&bytes).unwrap();
    assert_eq!(2, u.get_width());
    assert_eq!(3, u.get_height());
    assert_eq!(&vec![D, A, A, D, D, A], u.get_cells());
}

#[test]
fn seeded_universe_steps_like_any_other() {
    let mut image = RgbImage::new(6, 6);
    for (row, col) in [(1, 2), (2, 3), (3, 1), (3, 2), (3, 3)] {
        image.put_pixel(col, row, image::Rgb([255, 255, 255]));
    }
    let bytes = encoded(DynamicImage::ImageRgb8(image), ImageFormat::Png);
    let mut seeded = Universe::from_image(&bytes).unwrap();
    let mut expected = Universe::new(6, 6);
    expected.set_cells_alive(&[1, 2, 3, 3, 3], &[2, 3, 1, 2, 3]);
    assert_eq!(expected.get_cells(), seeded.get_cells());
    seeded.tick();
    expected.tick();
    assert_eq!(expected.get_cells(), seeded.get_cells());
}

#[test]
fn bytes_that_are_no_image_seed_nothing() {
    assert!(Universe::from_image(&[]).is_none());
    assert!(Universe::from_image(b"not an image at all").is_none());
    assert!(Universe::from_image(&[0x89, b'P', b'N', b'G', 0x0d, 0x0a, 0x1a, 0x0a, 1, 2, 3]).is_none());
}

#[test]
fn decoded_image_seeds_the_universe_of_its_pixels() {
    let mut image = RgbImage::new(3, 2);
    image.put_pixel(1, 0, image::Rgb([0, 0, 129]));
    image.put_pixel(2, 1, image::Rgb([255, 0, 0]));
    image.put_pixel(0, 0, image::Rgb([128, 128, 128]));
    let u = Universe::from_decoded(&DynamicImage::ImageRgb8(image)).unwrap();
    assert_eq!(3, u.get_width());
    assert_eq!(2, u.get_height());
    assert_eq!(&vec![D, A, D, D, D, A], u.get_cells());
}

#[test]
fn decoded_image_without_pixels_seeds_a_universe_without_cells() {
    let u = Universe::from_decoded(&DynamicImage::ImageRgba8(RgbaImage::new(0, 3))).unwrap();
    assert_eq!(0, u.get_width());
    assert_eq!(3, u.get_height());
    assert!(u.get_cells().is_empty());
}

#[test]
fn encoded_and_decoded_image_seed_the_same_universe() {
    let mut image = RgbImage::new(4, 3);
    image.put_pixel(3, 0, image::Rgb([200, 200, 200]));
    image.put_pixel(1, 2, image::Rgb([0, 130, 0]));
    let decoded = DynamicImage::ImageRgb8(image);
    let bytes = encoded(decoded.clone(), ImageFormat::Png);
    let from_bytes = Universe::from_image(&bytes).unwrap();
    let from_pixels = Universe::from_decoded(&decoded).unwrap();
    assert_eq!(from_pixels.get_cells(), from_bytes.get_cells());
    assert_eq!(from_pixels.get_width(), from_bytes.get_width());
    assert_eq!(from_pixels.get_height(), from_bytes.get_height());
}
