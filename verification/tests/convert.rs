//! Regions and the conversion to NV12.

use screenlite::convert::{
    bgra_to_nv12, bgra_to_nv12_region, even_dimensions, rgb_to_cb, rgb_to_cr, rgb_to_y,
    BgraImageView, Region,
};
use screenlite::share::{to_span, Share};

fn bgra(pixels: &[(u8, u8, u8)]) -> Vec<u8> {
    let mut v = Vec::with_capacity(pixels.len() * 4);
    for &(r, g, b) in pixels {
        v.extend_from_slice(&[b, g, r, 255]);
    }
    v
}

#[test]
fn test_bgra_to_nv12_2x2_known_values() {
    let px = bgra(&[(255, 0, 0); 4]);
    let view = BgraImageView { data: &px, pitch: 8, width: 2, height: 2 };
    let nv12 = bgra_to_nv12(&view).unwrap();
    assert_eq!(nv12.stride, 2);
    assert_eq!(&nv12.data[0..4], &[63, 63, 63, 63]);
    assert_eq!(&nv12.data[4..6], &[102, 240]);
}

#[test]
fn test_bgra_to_nv12_4x4_black_and_white() {
    let black = bgra(&[(0, 0, 0); 16]);
    let v = BgraImageView { data: &black, pitch: 16, width: 4, height: 4 };
    let nv12 = bgra_to_nv12(&v).unwrap();
    assert!(nv12.data[0..16].iter().all(|&y| y == 16));
    assert!(nv12.data[16..24].iter().all(|&c| c == 128));

    let white = bgra(&[(255, 255, 255); 16]);
    let v = BgraImageView { data: &white, pitch: 16, width: 4, height: 4 };
    let nv12 = bgra_to_nv12(&v).unwrap();
    assert!(nv12.data[0..16].iter().all(|&y| y == 235));
    assert!(nv12.data[16..24].iter().all(|&c| c == 128));
}

#[test]
fn test_bgra_to_nv12_rowpitch_greater_than_width() {
    let w = 4u32;
    let mut padded = Vec::new();
    let row_red = bgra(&[(255, 0, 0); 4]);
    for _ in 0..4 {
        padded.extend_from_slice(&row_red);
        padded.extend_from_slice(&[0xAB; 12]);
    }
    let view = BgraImageView { data: &padded, pitch: 28, width: w, height: 4 };
    let nv12 = bgra_to_nv12(&view).unwrap();
    assert!(nv12.data[0..16].iter().all(|&y| y == 63));
    assert_eq!(&nv12.data[16..24], &[102, 240, 102, 240, 102, 240, 102, 240]);
}

#[test]
fn test_bgra_to_nv12_odd_size_cropped() {
    assert_eq!(even_dimensions(1921, 1081), (1920, 1080));
    assert_eq!(even_dimensions(1920, 1080), (1920, 1080));

    let px = bgra(&[(0, 0, 0); 9]);
    let view = BgraImageView { data: &px, pitch: 12, width: 3, height: 3 };
    let err = bgra_to_nv12(&view).unwrap_err();
    assert_eq!(err.code(), "FrameConversionFailed");
}

#[test]
fn test_pitch_smaller_than_width_is_rejected() {
    let px = bgra(&[(0, 0, 0); 4]);
    let view = BgraImageView { data: &px, pitch: 4, width: 2, height: 2 };
    assert!(bgra_to_nv12(&view).is_err());
}

#[test]
fn test_short_buffer_is_rejected() {
    let px = bgra(&[(0, 0, 0); 4]);
    let view = BgraImageView { data: &px[..8], pitch: 8, width: 2, height: 2 };
    assert!(bgra_to_nv12(&view).is_err());
}

#[test]
fn test_region_crop_reads_correct_offsets() {
    let mut px = Vec::new();
    for _ in 0..2 {
        px.extend_from_slice(&bgra(&[(255, 0, 0); 4]));
    }
    for _ in 0..2 {
        px.extend_from_slice(&bgra(&[(0, 0, 255); 4]));
    }
    let view = BgraImageView { data: &px, pitch: 16, width: 4, height: 4 };

    let red = bgra_to_nv12_region(&view, Region { x: 0, y: 0, width: 2, height: 2 })
        .expect("裁剪左上角");
    assert_eq!(red.width, 2);
    assert_eq!(red.data[0], 63, "左上角应为红：Y=63");
    assert_eq!(&red.data[4..6], &[102, 240], "左上角应为红：Cb/Cr=102/240");

    let blue = bgra_to_nv12_region(&view, Region { x: 2, y: 2, width: 2, height: 2 })
        .expect("裁剪右下角");
    assert_eq!(blue.data[0], 32, "右下角应为蓝：Y=32");
    assert_eq!(&blue.data[4..6], &[240, 118], "右下角应为蓝：Cb/Cr=240/118");

    let full = bgra_to_nv12(&view).unwrap();
    let explicit =
        bgra_to_nv12_region(&view, Region { x: 0, y: 0, width: 4, height: 4 }).unwrap();
    assert_eq!(full.data, explicit.data);
    assert_eq!(full.width, 4);
}

#[test]
fn test_region_out_of_bounds_is_rejected() {
    let px = bgra(&[(0, 0, 0); 16]);
    let view = BgraImageView { data: &px, pitch: 16, width: 4, height: 4 };
    let err =
        bgra_to_nv12_region(&view, Region { x: 2, y: 0, width: 4, height: 2 }).unwrap_err();
    assert_eq!(err.code(), "FrameConversionFailed");
    assert!(bgra_to_nv12_region(&view, Region { x: 0, y: 0, width: 3, height: 2 }).is_err());
}

#[test]
fn test_region_clamp_to_frame_and_even() {
    let r = Region { x: 100, y: 100, width: 200, height: 100 };
    assert_eq!(r.clamp_to(2560, 1600), Some(r));

    let r = Region { x: 2500, y: 1500, width: 200, height: 200 };
    assert_eq!(
        r.clamp_to(2560, 1600),
        Some(Region { x: 2500, y: 1500, width: 60, height: 100 })
    );

    let r = Region { x: 0, y: 0, width: 101, height: 101 };
    assert_eq!(r.clamp_to(2560, 1600), Some(Region { x: 0, y: 0, width: 100, height: 100 }));

    let r = Region { x: 3000, y: 0, width: 10, height: 10 };
    assert_eq!(r.clamp_to(2560, 1600), None);

    assert!(Region { x: 0, y: 0, width: 2560, height: 1600 }.is_full_frame(2560, 1600));
    assert!(!Region { x: 1, y: 0, width: 2559, height: 1600 }.is_full_frame(2560, 1600));
}

#[test]
fn region_without_a_frame_is_nothing() {
    let r = Region { x: 0, y: 0, width: 10, height: 10 };
    assert_eq!(r.clamp_to(0, 1600), None);
    assert_eq!(r.clamp_to(2560, 0), None);
    let cut = Region { x: 7, y: 9, width: 5000, height: 5000 }.clamp_to(100, 50).unwrap();
    assert_eq!(cut, Region { x: 7, y: 9, width: 92, height: 40 });
    assert_eq!(cut.clamp_to(100, 50), Some(cut));
}

#[test]
fn grey_has_no_colour_and_luma_grows() {
    let mut before = 0;
    for v in 0..=255i32 {
        assert_eq!(rgb_to_cb(v, v, v), 128);
        assert_eq!(rgb_to_cr(v, v, v), 128);
        let y = rgb_to_y(v, v, v);
        assert!(y >= before && (16..=235).contains(&y));
        before = y;
    }
    assert_eq!(rgb_to_y(0, 255, 0), 172);
    assert_eq!(rgb_to_cb(0, 0, 255), 240);
    assert_eq!(rgb_to_cr(0, 255, 0), 26);
}

#[test]
fn alpha_and_padding_do_not_matter() {
    let mut a = Vec::new();
    let mut b = Vec::new();
    for row in 0..4u8 {
        for col in 0..4u8 {
            a.extend_from_slice(&[row * 10, col * 20, 77, 0]);
            b.extend_from_slice(&[row * 10, col * 20, 77, 255]);
        }
        a.extend_from_slice(&[1; 8]);
        b.extend_from_slice(&[2; 8]);
    }
    let left = bgra_to_nv12(&BgraImageView { data: &a, pitch: 24, width: 4, height: 4 }).unwrap();
    let right = bgra_to_nv12(&BgraImageView { data: &b, pitch: 24, width: 4, height: 4 }).unwrap();
    assert_eq!(left.data, right.data);
    assert_eq!(left.data.len(), 24);
}

#[test]
fn chroma_is_the_mean_of_a_block() {
    // Two red and two blue pixels share one chroma pair.
    let px = bgra(&[(255, 0, 0), (0, 0, 255), (0, 0, 255), (255, 0, 0)]);
    let view = BgraImageView { data: &px, pitch: 8, width: 2, height: 2 };
    let nv12 = bgra_to_nv12(&view).unwrap();
    assert_eq!(nv12.data[0..4], [63, 32, 32, 63]);
    // The mean of 255, 0, 0, 255 is 127.
    assert_eq!(nv12.data[4], rgb_to_cb(127, 0, 127));
    assert_eq!(nv12.data[5], rgb_to_cr(127, 0, 127));
}

#[test]
fn conversion_errors_say_why() {
    let px = bgra(&[(0, 0, 0); 4]);
    let view = BgraImageView { data: &px, pitch: 4, width: 2, height: 2 };
    let text = bgra_to_nv12(&view).unwrap_err().message();
    assert!(text.starts_with("帧格式转换失败："), "{}", text);
    let view = BgraImageView { data: &px[..8], pitch: 8, width: 2, height: 2 };
    let short = bgra_to_nv12(&view).unwrap_err().message();
    assert_ne!(text, short);
}

fn from_normalized(nx: f64, ny: f64, nw: f64, nh: f64, w: u32, h: u32) -> Option<Region> {
    let sh = |v: f64| Share(v.to_bits());
    Region::from_normalized(sh(nx), sh(ny), sh(nw), sh(nh), w, h)
}

#[test]
fn test_region_from_normalized() {
    assert_eq!(
        from_normalized(0.25, 0.25, 0.75, 0.75, 2560, 1600),
        Some(Region { x: 640, y: 400, width: 1280, height: 800 })
    );
    assert_eq!(
        from_normalized(0.75, 0.75, 0.25, 0.25, 2560, 1600),
        Some(Region { x: 640, y: 400, width: 1280, height: 800 })
    );
    assert_eq!(
        from_normalized(0.0, 0.0, 1.0, 1.0, 2560, 1600),
        Some(Region { x: 0, y: 0, width: 2560, height: 1600 })
    );
    assert_eq!(
        from_normalized(-0.5, -0.5, 1.5, 1.5, 2560, 1600),
        Some(Region { x: 0, y: 0, width: 2560, height: 1600 })
    );
    assert_eq!(
        from_normalized(0.9, 0.9, 1.0, 1.0, 2560, 1600),
        Some(Region { x: 2304, y: 1440, width: 256, height: 160 })
    );
    assert_eq!(from_normalized(0.5, 0.5, 0.5, 0.5, 2560, 1600), None);
    assert_eq!(from_normalized(0.0, 0.0, 1.0, 1.0, 0, 0), None);
}

#[test]
fn shares_are_rounded_as_the_hardware_rounds_them() {
    // A fixed sequence of bit patterns that reaches tiny numbers, numbers beyond the display,
    // infinities and patterns that are no numbers.
    let mut x: u64 = 0x9e37_79b9_7f4a_7c15;
    let mut next = || {
        x ^= x << 13;
        x ^= x >> 7;
        x ^= x << 17;
        x
    };
    for i in 0..60_000u32 {
        let (p, q) = (next(), next());
        let (a, b) = match i % 6 {
            0 => (f64::from_bits(p), f64::from_bits(q)),
            1 => (f64::from_bits(p % 0x3ff0_0000_0000_0001), f64::from_bits(q % 0x3ff0_0000_0000_0001)),
            2 => ((p >> 11) as f64 / (1u64 << 53) as f64, (q >> 11) as f64 / (1u64 << 53) as f64),
            3 => ((p % 2561) as f64 / 2560.0, (q % 2561) as f64 / 2560.0),
            4 => (0.5, f64::from_bits(0x3fe0_0000_0000_0000 - q % 4096)),
            _ => (f64::from_bits(p % 4096), (q >> 11) as f64 / (1u64 << 53) as f64),
        };
        let len = if i % 5 == 0 { next() as u32 } else { (next() % 5000) as u32 };
        let c = |v: f64| v.clamp(0.0, 1.0);
        let (low, high) = (c(a).min(c(b)), c(a).max(c(b)));
        let at = (low * len as f64).round() as u32;
        let length = ((high - low) * len as f64).round() as u32;
        assert_eq!(
            to_span(Share(a.to_bits()), Share(b.to_bits()), len),
            (at, length),
            "{a:e} {b:e} {len}"
        );
    }
}
