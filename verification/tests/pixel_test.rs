use camera_merger::pixel::hwc_to_chw;
use camera_merger::FromPixel;

#[test]
fn u8_pixels_are_kept() {
    assert_eq!(<u8 as FromPixel>::from_pixel(200), 200);
}

#[test]
fn interleaved_to_planar() {
    // 1 row, 2 columns, channels r g b per pixel.
    let data = [1u8, 2, 3, 4, 5, 6];
    let out: Vec<u8> = hwc_to_chw(&data, 1, 2);
    assert_eq!(out, vec![1, 4, 2, 5, 3, 6]);
}

#[test]
fn two_by_two_image() {
    let data: Vec<u8> = (0..12).collect();
    let out: Vec<u8> = hwc_to_chw(&data, 2, 2);
    assert_eq!(out, vec![0, 3, 6, 9, 1, 4, 7, 10, 2, 5, 8, 11]);
}

#[test]
fn empty_image() {
    let out: Vec<u8> = hwc_to_chw(&[], 0, 5);
    assert!(out.is_empty());
}
