use image_buffer::color::{Gray, Rgb, Rgba};
use image_buffer::{Color, GrayImage, ImageBuffer, ImageView, RgbImage};

#[test]
fn slice_buffer() {
    let data = [0u8; 9];
    let buf: ImageBuffer<Gray<u8>> = ImageBuffer::from_raw(3, 3, data.to_vec()).unwrap();
    assert_eq!(&buf.into_raw()[..], &data[..]);
}

#[test]
fn test_get_pixel() {
    let a: RgbImage = ImageBuffer::new(10, 10);
    let mut raw = a.into_raw();
    raw[3 * 10] = 255;
    let a: RgbImage = ImageBuffer::from_raw(10, 10, raw).unwrap();
    assert_eq!(a.get_pixel(0, 1).channels()[0], 255)
}

#[test]
fn new_is_zero_filled_with_exact_length() {
    let a: RgbImage = ImageBuffer::new(7, 5);
    assert_eq!(a.dimensions(), (7, 5));
    let raw = a.into_raw();
    assert_eq!(raw.len(), 7 * 5 * 3);
    assert!(raw.iter().all(|&v| v == 0));
}

#[test]
fn new_empty_image() {
    let a: GrayImage = ImageBuffer::new(0, 4);
    assert_eq!(a.width(), 0);
    assert_eq!(a.height(), 4);
    assert_eq!(a.into_raw().len(), 0);
}

#[test]
fn put_then_get_returns_written_pixel() {
    let mut a: RgbImage = ImageBuffer::new(4, 3);
    a.put_pixel(2, 1, Rgb([9, 8, 7]));
    assert_eq!(a.get_pixel(2, 1), Rgb([9, 8, 7]));
    assert_eq!(a.get_pixel(1, 1), Rgb([0, 0, 0]));
    assert_eq!(a.get_pixel(3, 1), Rgb([0, 0, 0]));
    let raw = a.into_raw();
    let start = 3 * (1 * 4 + 2);
    assert_eq!(&raw[start..start + 3], &[9, 8, 7]);
}

#[test]
fn from_raw_at_threshold() {
    let exact: Option<RgbImage> = ImageBuffer::from_raw(2, 3, vec![0; 18]);
    assert!(exact.is_some());
    let short: Option<RgbImage> = ImageBuffer::from_raw(2, 3, vec![0; 17]);
    assert!(short.is_none());
    let longer: Option<RgbImage> = ImageBuffer::from_raw(2, 3, vec![1; 19]);
    assert_eq!(longer.unwrap().into_raw(), vec![1; 19]);
}

#[test]
fn from_raw_huge_dimensions() {
    let r: Option<RgbImage> = ImageBuffer::from_raw(u32::MAX, u32::MAX, vec![0; 3]);
    assert!(r.is_none());
}

#[test]
fn from_pixel_fills_every_pixel() {
    let a: RgbImage = ImageBuffer::from_pixel(3, 2, Rgb([1, 2, 3]));
    assert_eq!(a.into_raw(), vec![1, 2, 3, 1, 2, 3, 1, 2, 3, 1, 2, 3, 1, 2, 3, 1, 2, 3]);
}

#[test]
fn from_fn_row_major() {
    let a: RgbImage = ImageBuffer::from_fn(100, 100, |x, y| Rgb([(x % 256) as u8, (y % 256) as u8, 0]));
    assert_eq!(a.get_pixel(10, 10), Rgb([10, 10, 0]));
    assert_eq!(a.get_pixel(99, 3), Rgb([99, 3, 0]));
    let raw = a.into_raw();
    assert_eq!(&raw[0..6], &[0, 0, 0, 1, 0, 0]);
    assert_eq!(&raw[300..303], &[0, 1, 0]);
}

#[test]
fn convert_rgb_to_rgba_and_back() {
    let a: RgbImage = ImageBuffer::from_fn(3, 2, |x, y| Rgb([x as u8, y as u8, 5]));
    let b: ImageBuffer<Rgba<u8>> = a.convert_buffer();
    assert_eq!(b.dimensions(), (3, 2));
    assert_eq!(b.get_pixel(2, 1).channels(), &[2, 1, 5, 255]);
    let c: RgbImage = b.convert_buffer();
    assert_eq!(c.into_raw(), a.into_raw());
}

#[test]
fn convert_gray_to_rgb_replicates() {
    let g: GrayImage = ImageBuffer::from_raw(2, 1, vec![17, 200]).unwrap();
    let rgb: RgbImage = g.convert_buffer();
    assert_eq!(rgb.into_raw(), vec![17, 17, 17, 200, 200, 200]);
}

#[test]
fn pixels_from_both_ends() {
    let g: GrayImage = ImageBuffer::from_raw(2, 2, vec![1, 2, 3, 4, 99]).unwrap();
    let mut it = g.pixels();
    assert_eq!(it.next(), Some(Gray([1])));
    assert_eq!(it.next_back(), Some(Gray([4])));
    assert_eq!(it.next(), Some(Gray([2])));
    assert_eq!(it.next_back(), Some(Gray([3])));
    assert_eq!(it.next(), None);
    assert_eq!(it.next_back(), None);
}

#[test]
fn enumerate_pixels_coordinates() {
    let g: GrayImage = ImageBuffer::from_fn(3, 2, |x, y| Gray([(10 * y + x) as u8]));
    let mut it = g.enumerate_pixels();
    let mut seen = Vec::new();
    while let Some((x, y, p)) = it.next() {
        seen.push((x, y, p.channels()[0]));
    }
    assert_eq!(seen, vec![(0, 0, 0), (1, 0, 1), (2, 0, 2), (0, 1, 10), (1, 1, 11), (2, 1, 12)]);
    assert_eq!(it.next(), None);
}

#[test]
fn enumerate_pixels_column_sum() {
    let buffer: GrayImage = ImageBuffer::from_pixel(4, 3, Gray([2]));
    let mut column_sum = vec![0u32; 3];
    let mut it = buffer.enumerate_pixels();
    while let Some((_, y, pixel)) = it.next() {
        column_sum[y as usize] += pixel.channels()[0] as u32;
    }
    assert_eq!(column_sum, vec![8, 8, 8]);
}

#[test]
fn image_view_reads_and_writes_pixels() {
    let mut a: ImageBuffer<Rgba<u8>> = ImageBuffer::new(2, 2);
    a.set_pixel(1, 0, Rgba::new([1, 2, 3, 4]));
    assert_eq!(a.view_dimensions(), (2, 2));
    assert_eq!(a.pixel(1, 0).channels(), &[1, 2, 3, 4]);
    assert_eq!(a.pixel(0, 1).channels(), &[0, 0, 0, 0]);
    let b = a.clone();
    assert_eq!(b.into_raw(), a.into_raw());
}
