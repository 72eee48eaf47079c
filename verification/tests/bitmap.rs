use celestial_overlay::bitmap::Bitmap;

fn png(width: u32, height: u32, rgba: Vec<u8>) -> Vec<u8> {
    let picture = image::RgbaImage::from_raw(width, height, rgba).unwrap();
    let mut bytes: Vec<u8> = Vec::new();
    image::DynamicImage::ImageRgba8(picture)
        .write_to(&mut std::io::Cursor::new(&mut bytes), image::ImageFormat::Png)
        .unwrap();
    bytes
}

#[test]
fn a_bitmap_takes_four_bytes_for_each_pixel() {
    let bitmap = Bitmap::new(2, 1, vec![1, 2, 3, 4, 5, 6, 7, 8]).unwrap();
    assert_eq!(bitmap.width(), 2);
    assert_eq!(bitmap.height(), 1);
    assert_eq!(bitmap.rgba(), &vec![1, 2, 3, 4, 5, 6, 7, 8]);
    assert!(Bitmap::new(0, 0, vec![]).is_some());
    assert!(Bitmap::new(0, 7, vec![]).is_some());
}

#[test]
fn a_bitmap_refuses_pixels_that_do_not_fill_the_size() {
    assert!(Bitmap::new(2, 1, vec![1, 2, 3, 4]).is_none());
    assert!(Bitmap::new(1, 1, vec![1, 2, 3, 4, 5]).is_none());
    assert!(Bitmap::new(1, 1, vec![]).is_none());
    assert!(Bitmap::new(0, 0, vec![0]).is_none());
    assert!(Bitmap::new(u32::MAX, u32::MAX, vec![0; 4]).is_none());
}

#[test]
fn decode_reads_a_png() {
    let pixels = vec![255, 0, 0, 255, 0, 255, 0, 128, 0, 0, 255, 0, 9, 8, 7, 6, 1, 1, 1, 1, 2, 2, 2, 2];
    let bitmap = Bitmap::decode(&png(3, 2, pixels.clone())).unwrap();
    assert_eq!(bitmap.width(), 3);
    assert_eq!(bitmap.height(), 2);
    assert_eq!(bitmap.rgba(), &pixels);
}

#[test]
fn decode_refuses_what_is_no_image() {
    assert!(Bitmap::decode(b"not an image").is_none());
    assert!(Bitmap::decode(&[]).is_none());
}
