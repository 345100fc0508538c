//! Normalizing images.

use std::io::Cursor;

use base64::Engine;
use image::{DynamicImage, ImageBuffer, Rgba, RgbaImage};
use tamako::vision::{
    flatten, normalize_image, normalize_raster, scaled_dimensions, to_base64_data_uri,
    ImageMediaType, MediaKind, Raster, VisionError,
};

fn to_png_bytes(rgba: &RgbaImage) -> Vec<u8> {
    let mut bytes = Vec::new();
    DynamicImage::ImageRgba8(rgba.clone())
        .write_to(&mut Cursor::new(&mut bytes), image::ImageFormat::Png)
        .expect("PNG encode of in-code fixture must succeed");
    bytes
}

fn solid_rgba(width: u32, height: u32, pixel: Rgba<u8>) -> RgbaImage {
    ImageBuffer::from_pixel(width, height, pixel)
}

struct XorShift(u32);

impl XorShift {
    fn next(&mut self) -> u32 {
        self.0 ^= self.0 << 13;
        self.0 ^= self.0 >> 17;
        self.0 ^= self.0 << 5;
        self.0
    }
}

fn garbage(len: usize, seed: u32) -> Vec<u8> {
    let mut rng = XorShift(seed.max(1));
    (0..len).map(|_| (rng.next() & 0xff) as u8).collect()
}

#[test]
fn transparent_pixels_composite_to_white() {
    let mut rgba = ImageBuffer::from_pixel(4, 4, Rgba([200, 0, 0, 255]));
    for y in 0..4 {
        for x in 0..2 {
            rgba.put_pixel(x, y, Rgba([0, 0, 255, 0])); // fully transparent blue
        }
    }
    let png = to_png_bytes(&rgba);

    let out = normalize_image(&png, MediaKind::Image).expect("normalize must succeed");
    let decoded =
        image::load_from_memory_with_format(&out.jpeg_bytes, image::ImageFormat::Jpeg)
            .expect("output must decode as JPEG")
            .into_rgb8();

    for y in 0..out.height {
        for x in 0..(out.width / 2) {
            let p = decoded.get_pixel(x, y);
            assert!(
                p[0] >= 250 && p[1] >= 250 && p[2] >= 250,
                "transparent region must composite to white, got {p:?} at ({x},{y})"
            );
        }
    }
    let p = decoded.get_pixel(out.width - 1, out.height - 1);
    assert!(
        p[0] > 150 && p[1] < 80 && p[2] < 80,
        "opaque red must survive, got {p:?}"
    );
}

#[test]
fn long_edge_is_capped_and_aspect_preserved() {
    let big = to_png_bytes(&solid_rgba(4096, 1024, Rgba([10, 200, 30, 255])));
    let out = normalize_image(&big, MediaKind::Image).expect("normalize must succeed");
    assert_eq!((out.width, out.height), (2048, 512));
}

#[test]
fn small_image_is_never_upscaled() {
    let small = to_png_bytes(&solid_rgba(100, 100, Rgba([10, 200, 30, 255])));
    let out = normalize_image(&small, MediaKind::Image).expect("normalize must succeed");
    assert_eq!((out.width, out.height), (100, 100));
}

#[test]
fn portrait_long_edge_is_capped() {
    let tall = to_png_bytes(&solid_rgba(1024, 4096, Rgba([10, 200, 30, 255])));
    let out = normalize_image(&tall, MediaKind::Image).expect("normalize must succeed");
    assert_eq!((out.width, out.height), (512, 2048));
}

#[test]
fn output_is_valid_jpeg() {
    let png = to_png_bytes(&solid_rgba(64, 48, Rgba([1, 2, 3, 255])));
    let out = normalize_image(&png, MediaKind::Sticker).expect("normalize must succeed");
    assert_eq!(out.media_type, ImageMediaType::Jpeg);
    assert_eq!(
        image::guess_format(&out.jpeg_bytes).expect("output must sniff"),
        image::ImageFormat::Jpeg
    );
    let decoded =
        image::load_from_memory_with_format(&out.jpeg_bytes, image::ImageFormat::Jpeg)
            .expect("output must decode as JPEG");
    assert_eq!((decoded.width(), decoded.height()), (out.width, out.height));
}

#[test]
fn unsupported_kinds_are_rejected_before_decoding() {
    for kind in [MediaKind::Video, MediaKind::Animated] {
        match normalize_image(&garbage(64, 7), kind) {
            Err(VisionError::Unsupported { kind: got }) => assert_eq!(got, kind),
            other => panic!("expected Unsupported for {kind:?}, got {other:?}"),
        }
    }
}

#[test]
fn garbage_bytes_error_without_panicking() {
    for len in [0usize, 1, 7, 32, 255, 1024, 4096] {
        for seed in 1..=40u32 {
            let bytes = garbage(len, seed.wrapping_mul(0x9e37_79b9).wrapping_add(len as u32));
            match normalize_image(&bytes, MediaKind::Image) {
                Err(VisionError::Decode(_)) => {}
                Err(other) => panic!("expected Decode error for garbage, got {other:?}"),
                Ok(_) => panic!("garbage bytes must not normalize (len={len}, seed={seed})"),
            }
        }
    }
}

#[test]
fn webp_sticker_decodes_and_composites() {
    let mut sticker = solid_rgba(64, 64, Rgba([200, 0, 0, 255]));
    for y in 0..32 {
        for x in 0..32 {
            sticker.put_pixel(x, y, Rgba([0, 0, 255, 0]));
        }
    }
    let mut webp = Vec::new();
    DynamicImage::ImageRgba8(sticker)
        .write_to(&mut Cursor::new(&mut webp), image::ImageFormat::WebP)
        .expect("the sticker must encode");
    assert_eq!(
        image::guess_format(&webp).expect("fixture must sniff as WebP"),
        image::ImageFormat::WebP
    );
    let out = normalize_image(&webp, MediaKind::Sticker).expect("webp must normalize");
    let decoded =
        image::load_from_memory_with_format(&out.jpeg_bytes, image::ImageFormat::Jpeg)
            .expect("output must decode as JPEG")
            .into_rgb8();
    let p = decoded.get_pixel(0, 0);
    assert!(
        p[0] >= 250 && p[1] >= 250 && p[2] >= 250,
        "webp alpha must composite to white, got {p:?}"
    );
}

#[test]
fn data_uri_round_trips() {
    let payload = b"\xff\xd8\xff\xe0 pretend jpeg \xff\xd9";
    let uri = to_base64_data_uri(payload);
    assert!(uri.starts_with("data:image/jpeg;base64,"));
    let body = &uri["data:image/jpeg;base64,".len()..];
    let decoded = base64::engine::general_purpose::STANDARD
        .decode(body)
        .expect("base64 body must decode");
    assert_eq!(decoded, payload);
}

#[test]
fn scaled_dimensions_hit_the_cap_exactly() {
    assert_eq!(scaled_dimensions(4096, 1024), (2048, 512));
    assert_eq!(scaled_dimensions(1024, 4096), (512, 2048));
    assert_eq!(scaled_dimensions(2049, 2049), (2048, 2048));
    let (w, h) = scaled_dimensions(1_000_000, 1);
    assert_eq!(w, 2048);
    assert_eq!(h, 1);
}

#[test]
fn an_image_at_the_cap_keeps_its_size() {
    let wide = to_png_bytes(&solid_rgba(2048, 3, Rgba([10, 200, 30, 255])));
    let out = normalize_image(&wide, MediaKind::Image).expect("normalize must succeed");
    assert_eq!((out.width, out.height), (2048, 3));
    let wider = to_png_bytes(&solid_rgba(2049, 3, Rgba([10, 200, 30, 255])));
    let out = normalize_image(&wider, MediaKind::Image).expect("normalize must succeed");
    assert_eq!((out.width, out.height), (2048, 2));
}

#[test]
fn a_raster_without_pixels_is_a_decode_error() {
    for (width, height) in [(0, 0), (0, 5), (5, 0)] {
        let raster = Raster { width, height, rgba: Vec::new() };
        assert!(matches!(normalize_raster(raster), Err(VisionError::Decode(_))));
    }
}

#[test]
fn flattening_keeps_opaque_pixels_and_whitens_transparent_ones() {
    let raster = Raster {
        width: 3,
        height: 1,
        rgba: vec![1, 2, 3, 255, 9, 9, 9, 0, 0, 0, 0, 128],
    };
    let rgb = flatten(raster);
    assert_eq!(rgb.len(), 9);
    assert_eq!(&rgb[..6], &[1, 2, 3, 255, 255, 255]);
    assert!(rgb[6] > 100 && rgb[6] < 155, "half-transparent black is grey: {}", rgb[6]);
}

#[test]
fn scaled_dimensions_keep_the_aspect_and_round_down() {
    assert_eq!(scaled_dimensions(3000, 1000), (2048, 682));
    assert_eq!(scaled_dimensions(4294967295, 4294967295), (2048, 2048));
}

#[test]
fn data_uri_of_known_bytes() {
    assert_eq!(to_base64_data_uri(b""), "data:image/jpeg;base64,");
    assert_eq!(to_base64_data_uri(b"hello"), "data:image/jpeg;base64,aGVsbG8=");
}
