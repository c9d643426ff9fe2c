use std::io::Cursor;

use base64::Engine;
use new_media::codec::{
    data_url, encoded_image_data_url, frame_data_url, ImageEncoding, RgbaFrame,
};
use new_media::frame_capture::{image_to_browser_base64, white_img_placeholder};
use new_media::headless::{self, base64_browser_img, CurrImage};

fn encode_with_image(pixels: &[u8], w: u32, h: u32, fmt: image::ImageOutputFormat) -> Vec<u8> {
    let img = image::RgbaImage::from_raw(w, h, pixels.to_vec()).unwrap();
    let mut out = Vec::new();
    img.write_to(&mut Cursor::new(&mut out), fmt).unwrap();
    out
}

fn b64(bytes: &[u8]) -> String {
    base64::engine::general_purpose::STANDARD.encode(bytes)
}

#[test]
fn data_url_framing() {
    assert_eq!(data_url("image/png", "QUJD"), "data:image/png;base64,QUJD");
}

#[test]
fn base64_of_encoded_file() {
    assert_eq!(
        encoded_image_data_url(ImageEncoding::Png, &[1, 2, 3]),
        "data:image/png;base64,AQID"
    );
    assert_eq!(
        encoded_image_data_url(ImageEncoding::WebP, b"hello"),
        "data:image/webp;base64,aGVsbG8="
    );
    assert_eq!(encoded_image_data_url(ImageEncoding::Png, &[]), "data:image/png;base64,");
}

#[test]
fn from_raw_checks_length() {
    assert!(RgbaFrame::from_raw(2, 2, vec![0; 15]).is_none());
    let f = RgbaFrame::from_raw(2, 2, vec![7; 20]).unwrap();
    assert_eq!(f.dimensions(), (2, 2));
    assert_eq!(f.pixel_bytes().len(), 16);
    assert!(RgbaFrame::from_raw(0, 5, vec![]).is_some());
    assert!(image::RgbaImage::from_raw(2, 2, vec![0u8; 15]).is_none());
}

#[test]
fn png_url_matches_image_crate() {
    let pixels: Vec<u8> = (0..(3 * 2 * 4)).map(|i| i as u8).collect();
    let frame = RgbaFrame::from_raw(3, 2, pixels.clone()).unwrap();
    let expected = format!(
        "data:image/png;base64,{}",
        b64(&encode_with_image(&pixels, 3, 2, image::ImageOutputFormat::Png))
    );
    assert_eq!(image_to_browser_base64(&frame).unwrap(), expected);
    assert_eq!(frame_data_url(&frame, ImageEncoding::Png).unwrap(), expected);
}

#[test]
fn webp_url_matches_image_crate() {
    let pixels: Vec<u8> = (0..(3 * 2 * 4)).map(|i| (i * 7) as u8).collect();
    let frame = RgbaFrame::from_raw(3, 2, pixels.clone()).unwrap();
    let expected = format!(
        "data:image/webp;base64,{}",
        b64(&encode_with_image(&pixels, 3, 2, image::ImageOutputFormat::WebP))
    );
    assert_eq!(base64_browser_img(&frame).unwrap(), expected);
}

#[test]
fn placeholder_is_blank_png() {
    let blank = vec![0u8; 4 * 4 * 3];
    let expected = format!(
        "data:image/png;base64,{}",
        b64(&encode_with_image(&blank, 4, 3, image::ImageOutputFormat::Png))
    );
    assert_eq!(white_img_placeholder(4, 3).unwrap(), expected);
    assert!(headless::white_img_placeholder(4, 3).unwrap().starts_with("data:image/webp;base64,"));
}

#[test]
fn webp_rejects_empty_frame() {
    let frame = RgbaFrame::new(0, 0);
    assert!(base64_browser_img(&frame).is_err());
}

#[test]
fn curr_image_update_and_path() {
    let mut c = CurrImage::default();
    assert_eq!(c.extension, "");
    assert!(c.update_data(7, 2, 1, &[1, 2, 3, 4, 5, 6, 7, 8], String::from("png")));
    assert_eq!(c.frame_id, 7);
    assert_eq!(c.img_buffer.dimensions(), (2, 1));
    assert_eq!(c.create_path("out"), "out/000007.png");
    assert!(!c.update_data(1234567, 9, 9, &[1, 2, 3], String::from("jpeg")));
    assert_eq!(c.frame_id, 1234567);
    assert_eq!(c.img_buffer.dimensions(), (2, 1));
    assert_eq!(c.create_path("dir"), "dir/1234567.jpeg");
    assert!(c.to_web_base64().unwrap().starts_with("data:image/webp;base64,"));
}

#[test]
fn headless_scene_size() {
    let s = headless::SceneInfo::new(640, 480);
    assert_eq!(s.dimensions(), (640, 480));
    assert_eq!(headless::SceneInfo::default().dimensions(), (0, 0));
}

#[test]
fn frame_paths_sort_by_frame_number() {
    let path = |id: u64| {
        let mut c = CurrImage::default();
        c.update_data(id, 0, 0, &[], String::from("png"));
        c.create_path("out")
    };
    let ids = [0u64, 1, 9, 10, 99, 100, 12345, 999_999];
    for w in ids.windows(2) {
        assert!(path(w[0]) < path(w[1]));
    }
    assert_eq!(path(999_999), "out/999999.png");
    assert_eq!(path(1_000_000), "out/1000000.png");
}

#[test]
fn encoder_error_is_handed_back() {
    let frame = RgbaFrame::new(0, 3);
    let err = base64_browser_img(&frame).unwrap_err();
    assert!(matches!(err, image::ImageError::Parameter(_)));
}
