use game_state::texture::{diffuse_pixels, group_rgba};
use image::{DynamicImage, GrayImage, ImageBuffer, Luma, Rgb, RgbImage, Rgba, RgbaImage};

#[test]
fn group_rgba_takes_four_bytes_per_pixel() {
    assert_eq!(group_rgba(&vec![]), Some(vec![]));
    assert_eq!(group_rgba(&vec![1, 2, 3, 4]), Some(vec![[1, 2, 3, 4]]));
    assert_eq!(
        group_rgba(&vec![1, 2, 3, 4, 5, 6, 7, 8, 9, 10, 11, 12]),
        Some(vec![[1, 2, 3, 4], [5, 6, 7, 8], [9, 10, 11, 12]])
    );
}

#[test]
fn bytes_that_do_not_fall_into_fours_are_refused() {
    assert_eq!(group_rgba(&vec![1]), None);
    assert_eq!(group_rgba(&vec![1, 2, 3]), None);
    assert_eq!(group_rgba(&vec![1, 2, 3, 4, 5]), None);
    assert_eq!(group_rgba(&vec![1, 2, 3, 4, 5, 6, 7]), None);
}

#[test]
fn rgba_pixels_come_out_as_they_are() {
    let mut image = RgbaImage::new(2, 2);
    image.put_pixel(0, 0, Rgba([1, 2, 3, 4]));
    image.put_pixel(1, 0, Rgba([5, 6, 7, 8]));
    image.put_pixel(0, 1, Rgba([9, 10, 11, 12]));
    image.put_pixel(1, 1, Rgba([13, 14, 15, 16]));
    let pixels = diffuse_pixels(&DynamicImage::ImageRgba8(image));
    assert_eq!(
        pixels,
        Some(vec![[1, 2, 3, 4], [5, 6, 7, 8], [9, 10, 11, 12], [13, 14, 15, 16]])
    );
}

#[test]
fn rgb_pixels_become_opaque() {
    let mut image = RgbImage::new(2, 1);
    image.put_pixel(0, 0, Rgb([10, 20, 30]));
    image.put_pixel(1, 0, Rgb([40, 50, 60]));
    let pixels = diffuse_pixels(&DynamicImage::ImageRgb8(image));
    assert_eq!(pixels, Some(vec![[10, 20, 30, 255], [40, 50, 60, 255]]));
}

#[test]
fn gray_pixels_are_spread_over_the_channels() {
    let mut image = GrayImage::new(1, 2);
    image.put_pixel(0, 0, Luma([7]));
    image.put_pixel(0, 1, Luma([200]));
    let pixels = diffuse_pixels(&DynamicImage::ImageLuma8(image));
    assert_eq!(pixels, Some(vec![[7, 7, 7, 255], [200, 200, 200, 255]]));
}

#[test]
fn an_empty_image_has_no_pixels() {
    let pixels = diffuse_pixels(&DynamicImage::new_rgba8(0, 0));
    assert_eq!(pixels, Some(vec![]));
}

#[test]
fn a_buffer_that_does_not_fall_into_pixels_is_refused() {
    // One pixel, wrapped around a buffer of seven bytes.
    let image: RgbaImage = ImageBuffer::from_raw(1, 1, vec![1, 2, 3, 4, 5, 6, 7]).unwrap();
    assert_eq!(diffuse_pixels(&DynamicImage::ImageRgba8(image)), None);
}

#[test]
fn a_longer_buffer_is_handed_out_whole() {
    // One pixel, wrapped around a buffer of eight bytes.
    let image: RgbaImage = ImageBuffer::from_raw(1, 1, vec![1, 2, 3, 4, 5, 6, 7, 8]).unwrap();
    assert_eq!(
        diffuse_pixels(&DynamicImage::ImageRgba8(image)),
        Some(vec![[1, 2, 3, 4], [5, 6, 7, 8]])
    );
}
