use image_buffer::color::{Alpha, Gray, GrayA, Indexed, Lab, Rgb, Rgba, Xyz};
use image_buffer::{clamp, ChannelMax, Color, ColorMathOps};

const VAL_RGB_U8: Rgb<u8> = Rgb([241, 251, 0xFF]);

#[test]
fn test_rgb_conversions() {
    let val: Rgba<u8> = VAL_RGB_U8.into();
    assert_eq!(val.channels()[3], 255);
    let val: Rgb<u8> = val.into();
    assert_eq!(val.channels()[1], 251);
}

#[test]
fn test_add() {
    let a: Alpha<Rgb<u8>> = Alpha::new([0, 0, 0, 0]);
    let b = 1u8.add(a);
    assert_eq!(&[1, 1, 1, 1], b.channels());
    assert_eq!(&[2, 2, 2, 2], b.add(b).channels());
}

#[test]
fn alpha_round_trip_keeps_channels() {
    let g = Gray([77u16]);
    let ga: GrayA<u16> = g.into();
    assert_eq!(ga.channels(), &[77, 65535]);
    assert_eq!(ga.channels()[1], 65535);
    let back: Gray<u16> = ga.into();
    assert_eq!(back, g);
    let x = Xyz([1u32, 2, 3]);
    let xa: Alpha<Xyz<u32>> = x.into();
    assert_eq!(xa.channels(), &[1, 2, 3, u32::MAX]);
    let x2: Xyz<u32> = xa.into();
    assert_eq!(x2, x);
}

#[test]
fn dropping_alpha_discards_last_channel() {
    let a: Rgba<u8> = Alpha::new([10, 20, 30, 40]);
    let rgb: Rgb<u8> = a.into();
    assert_eq!(rgb, Rgb([10, 20, 30]));
}

#[test]
fn gray_to_rgb_replicates() {
    let rgb: Rgb<u8> = Gray([42u8]).into();
    assert_eq!(rgb, Rgb([42, 42, 42]));
}

#[test]
fn channel_counts_and_models() {
    assert_eq!(Rgb::<u8>::channel_count(), 3);
    assert_eq!(Gray::<u8>::channel_count(), 1);
    assert_eq!(Rgba::<u8>::channel_count(), 4);
    assert_eq!(GrayA::<u8>::channel_count(), 2);
    assert_eq!(Rgb::<u8>::color_model(), "RGB");
    assert_eq!(Xyz::<u8>::color_model(), "XYZ");
    assert_eq!(Lab::<u8>::color_model(), "CIE Lab");
    assert_eq!(Gray::<u8>::color_model(), "Y");
    assert_eq!(Indexed::<u8>::color_model(), "Idx");
    assert_eq!(Rgba::<u8>::color_model(), "RGB");
    assert_eq!(GrayA::<u8>::color_model(), "Y");
}

#[test]
fn from_slice_and_from_channels() {
    let p = Rgb::<u8>::from_slice(&[4, 5, 6]);
    assert_eq!(p, Rgb([4, 5, 6]));
    let q = Rgb::<u8>::from_channels([4, 5, 6]);
    assert_eq!(q.channels(), &[4, 5, 6]);
    let a = Rgba::<u8>::from_slice(&[1, 2, 3, 4]);
    assert_eq!(a.channels(), &[1, 2, 3, 4]);
}

#[test]
fn channels_mut_writes_through() {
    let mut p = Rgb([1u8, 2, 3]);
    p.channels_mut()[1] = 9;
    assert_eq!(p, Rgb([1, 9, 3]));
}

#[test]
fn map_and_apply() {
    let p = Rgb([1u8, 2, 3]);
    assert_eq!(p.map(|v| v * 2), Rgb([2, 4, 6]));
    let mut q = p;
    q.apply(|v| v + 10);
    assert_eq!(q, Rgb([11, 12, 13]));
}

#[test]
fn map_with_alpha_routes_last_channel() {
    let a: Rgba<u8> = Alpha::new([1, 2, 3, 4]);
    let b = a.map_with_alpha(|v| v + 1, |v| v * 10);
    assert_eq!(b.channels(), &[2, 3, 4, 40]);
    let mut c = a;
    c.apply_with_alpha(|v| v, |_| 0);
    assert_eq!(c.channels(), &[1, 2, 3, 0]);
}

#[test]
fn map2_and_apply2() {
    let a = Rgb([1u8, 2, 3]);
    let b = Rgb([10u8, 20, 30]);
    assert_eq!(a.map2(&b, |x, y| y - x), Rgb([9, 18, 27]));
    let mut c = a;
    c.apply2(&b, |x, y| x + y);
    assert_eq!(c, Rgb([11, 22, 33]));
}

#[test]
fn arithmetic_wraps() {
    let a = Rgb([250u8, 3, 100]);
    assert_eq!(10u8.add(a), Rgb([4, 13, 110]));
    assert_eq!(5u8.sub(a), Rgb([245, 254, 95]));
    assert_eq!(2u8.mul(a), Rgb([244, 6, 200]));
    assert_eq!(3u8.div(a), Rgb([83, 1, 33]));
    let b = Rgb([10u8, 5, 200]);
    assert_eq!(b.add(a), Rgb([4, 8, 44]));
    assert_eq!(b.sub(a), Rgb([240, 254, 156]));
    assert_eq!(b.mul(a), Rgb([196, 15, 32]));
    assert_eq!(b.div(a), Rgb([25, 0, 0]));
}

#[test]
fn channel_max_values() {
    assert_eq!(<u8 as ChannelMax>::channel_max(), 255);
    assert_eq!(<u16 as ChannelMax>::channel_max(), 65535);
    assert_eq!(<u32 as ChannelMax>::channel_max(), u32::MAX);
    assert_eq!(<u64 as ChannelMax>::channel_max(), u64::MAX);
    assert_eq!(<usize as ChannelMax>::channel_max(), usize::MAX);
}

#[test]
fn clamp_to_range() {
    assert_eq!(clamp(5u8, 10, 20), 10);
    assert_eq!(clamp(25u8, 10, 20), 20);
    assert_eq!(clamp(15u8, 10, 20), 15);
    assert_eq!(clamp(10u16, 10, 20), 10);
    assert_eq!(clamp(20u32, 10, 20), 20);
}
