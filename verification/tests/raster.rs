use cube_file_converter::raster::Raster;
use image::{DynamicImage, GrayImage, ImageBuffer, ImageFormat, Luma, RgbImage, RgbaImage};
use std::io::Cursor;

fn png_of(image: DynamicImage) -> Vec<u8> {
    let mut file = Cursor::new(Vec::new());
    image.write_to(&mut file, ImageFormat::Png).unwrap();
    file.into_inner()
}

fn rgba_2_by_3() -> (Vec<u8>, Vec<u8>) {
    let pixels: Vec<u8> = (1..=24).collect();
    let image = RgbaImage::from_raw(2, 3, pixels.clone()).unwrap();
    (png_of(DynamicImage::ImageRgba8(image)), pixels)
}

#[test]
fn decoding_gives_the_pixels_and_the_shape() {
    let (file, pixels) = rgba_2_by_3();
    let raster = Raster::decode(&file, "png").unwrap();
    assert_eq!(raster.width, 2);
    assert_eq!(raster.height, 3);
    assert_eq!(raster.bytes_per_pixel, 4);
    assert_eq!(raster.bytes, pixels);
}

#[test]
fn decoding_does_not_hand_back_the_file() {
    let (file, _) = rgba_2_by_3();
    let raster = Raster::decode(&file, "png").unwrap();
    assert_ne!(raster.bytes, file);
    assert_eq!(raster.bytes.len(), 24);
}

#[test]
fn decoded_bytes_are_as_many_as_the_shape_asks_for() {
    let (file, _) = rgba_2_by_3();
    let raster = Raster::decode(&file, "png").unwrap();
    assert!(raster.is_well_formed());
    assert_eq!(
        raster.bytes.len(),
        raster.width as usize * raster.height as usize * raster.bytes_per_pixel as usize
    );
}

#[test]
fn decoding_an_image_of_three_channels() {
    let pixels: Vec<u8> = (0..5 * 2 * 3).collect();
    let image = RgbImage::from_raw(5, 2, pixels.clone()).unwrap();
    let raster = Raster::decode(&png_of(DynamicImage::ImageRgb8(image)), "png").unwrap();
    assert_eq!((raster.width, raster.height, raster.bytes_per_pixel), (5, 2, 3));
    assert_eq!(raster.bytes, pixels);
}

#[test]
fn decoding_a_grey_image() {
    let pixels: Vec<u8> = vec![0, 50, 100, 150, 200, 250, 255];
    let image = GrayImage::from_raw(7, 1, pixels.clone()).unwrap();
    let raster = Raster::decode(&png_of(DynamicImage::ImageLuma8(image)), "png").unwrap();
    assert_eq!((raster.width, raster.height, raster.bytes_per_pixel), (7, 1, 1));
    assert_eq!(raster.bytes, pixels);
}

#[test]
fn decoding_samples_of_two_bytes() {
    let samples: Vec<u16> = vec![1, 256, 65535, 0];
    let image = ImageBuffer::<Luma<u16>, Vec<u16>>::from_raw(2, 2, samples.clone()).unwrap();
    let raster = Raster::decode(&png_of(DynamicImage::ImageLuma16(image)), "png").unwrap();
    assert_eq!((raster.width, raster.height, raster.bytes_per_pixel), (2, 2, 2));
    assert_eq!(raster.bytes.len(), 8);
    let expected: Vec<u8> = samples.iter().flat_map(|s| s.to_ne_bytes()).collect();
    assert_eq!(raster.bytes, expected);
    assert!(raster.is_well_formed());
}

#[test]
fn decoding_twice_gives_the_same() {
    let (file, _) = rgba_2_by_3();
    let first = Raster::decode(&file, "png").unwrap();
    let second = Raster::decode(&file, "png").unwrap();
    assert_eq!(first.width, second.width);
    assert_eq!(first.height, second.height);
    assert_eq!(first.bytes_per_pixel, second.bytes_per_pixel);
    assert_eq!(first.bytes.len(), second.bytes.len());
    assert_eq!(first.bytes, second.bytes);
}

#[test]
fn the_extension_is_read_without_regard_to_case() {
    let (file, pixels) = rgba_2_by_3();
    assert_eq!(Raster::decode(&file, "PNG").unwrap().bytes, pixels);
}

#[test]
fn data_that_is_no_image_is_refused() {
    assert!(Raster::decode(b"this is no image", "png").is_none());
    assert!(Raster::decode(&[], "png").is_none());
}

#[test]
fn a_cut_off_image_is_refused() {
    let (file, _) = rgba_2_by_3();
    assert!(Raster::decode(&file[..file.len() / 2], "png").is_none());
}

#[test]
fn an_extension_that_names_no_image_format_is_refused() {
    let (file, _) = rgba_2_by_3();
    assert!(Raster::decode(&file, "txt").is_none());
    assert!(Raster::decode(&file, "").is_none());
}

#[test]
fn an_extension_of_another_format_is_refused() {
    let (file, _) = rgba_2_by_3();
    assert!(Raster::decode(&file, "jpg").is_none());
}

#[test]
fn well_formedness_compares_the_bytes_with_the_shape() {
    let fits = Raster { bytes: vec![0; 24], width: 2, height: 3, bytes_per_pixel: 4 };
    assert!(fits.is_well_formed());
    let short = Raster { bytes: vec![0; 23], width: 2, height: 3, bytes_per_pixel: 4 };
    assert!(!short.is_well_formed());
    let empty = Raster { bytes: vec![], width: 0, height: 9, bytes_per_pixel: 4 };
    assert!(empty.is_well_formed());
    let huge = Raster { bytes: vec![], width: u32::MAX, height: u32::MAX, bytes_per_pixel: 255 };
    assert!(!huge.is_well_formed());
}
