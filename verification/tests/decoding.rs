use std::io::Cursor;

use image::codecs::gif::GifEncoder;
use image::{Delay, DynamicImage, Frame, ImageFormat, RgbaImage};
use riv::decode::{
    decode_animated_gif, decode_animated_webp, decode_bytes, decode_from_zip, decode_generic, decode_image,
    frame_delay_ms, is_jpeg, is_jpeg_name, lower_ext, lowered_extension, pdf_dpi, plan_decode, raw_output_path,
    raw_thumb_path, raw_tool_args, rotated_bytes, RotateError, unpremultiply_alpha, AnimatedKind, DecodePlan, DecodeRequest, DecodedImage,
    StaticKind, WorkQueue,
};
use riv::dir::ZipSource;

fn pixels(w: u32, h: u32) -> Vec<u8> {
    (0..w * h * 4).map(|i| (i * 7 % 251) as u8).collect()
}

fn png_bytes(w: u32, h: u32) -> Vec<u8> {
    let img = RgbaImage::from_raw(w, h, pixels(w, h)).unwrap();
    let mut buf = Vec::new();
    DynamicImage::ImageRgba8(img).write_to(&mut Cursor::new(&mut buf), ImageFormat::Png).unwrap();
    buf
}

fn gif_bytes(delays_ms: &[u32]) -> Vec<u8> {
    let mut buf = Vec::new();
    {
        let mut enc = GifEncoder::new(&mut buf);
        let frames: Vec<Frame> = delays_ms
            .iter()
            .enumerate()
            .map(|(k, d)| {
                let img = RgbaImage::from_pixel(3, 2, image::Rgba([(k * 80) as u8, 10, 20, 255]));
                Frame::from_parts(img, 0, 0, Delay::from_numer_denom_ms(*d, 1))
            })
            .collect();
        enc.encode_frames(frames).unwrap();
    }
    buf
}

fn request(path: &str, is_thumbnail: bool, generation: u64, zipped: bool) -> DecodeRequest {
    DecodeRequest {
        path: path.to_string(),
        is_thumbnail,
        generation,
        zip_source: if zipped {
            Some(ZipSource { archive_path: "/a.zip".to_string(), entry_name: path.to_string() })
        } else {
            None
        },
        thumb_size: 160,
    }
}

#[test]
fn queue_is_last_in_first_out() {
    let mut q = WorkQueue::new();
    assert!(q.pop().is_none());
    q.push(request("/a.png", false, 1, false));
    q.push(request("/b.png", false, 2, false));
    q.push(request("/c.png", true, 1, false));
    assert_eq!(q.pop().unwrap().path, "/c.png");
    assert_eq!(q.pop().unwrap().path, "/b.png");
    assert_eq!(q.stack.len(), 1);
}

#[test]
fn drain_stale_keeps_current_in_order() {
    let mut q = WorkQueue::new();
    q.push(request("/a.png", false, 1, false));
    q.push(request("/b.png", false, 3, false));
    q.push(request("/c.png", false, 2, false));
    q.push(request("/d.png", false, 5, false));
    q.drain_stale(3);
    let left: Vec<&str> = q.stack.iter().map(|r| r.path.as_str()).collect();
    assert_eq!(left, vec!["/b.png", "/d.png"]);
}

#[test]
fn plans_by_extension_and_origin() {
    assert_eq!(plan_decode(&request("/a.png", false, 1, false), 2), DecodePlan::Skip);
    assert_eq!(
        plan_decode(&request("/a.GIF", false, 2, false), 2),
        DecodePlan::Decode { first: Some(AnimatedKind::Gif), then: StaticKind::Image }
    );
    assert_eq!(
        plan_decode(&request("/a.gif", true, 2, false), 2),
        DecodePlan::Decode { first: None, then: StaticKind::Image }
    );
    assert_eq!(
        plan_decode(&request("/a.webp", false, 3, false), 2),
        DecodePlan::Decode { first: Some(AnimatedKind::WebP), then: StaticKind::Image }
    );
    assert_eq!(
        plan_decode(&request("a.gif", false, 2, true), 2),
        DecodePlan::Decode { first: None, then: StaticKind::Zip }
    );
    assert_eq!(plan_decode(&request("/a.SVGZ", false, 0, false), 0), DecodePlan::Decode { first: None, then: StaticKind::Svg });
    assert_eq!(plan_decode(&request("/a.pdf", true, 0, false), 0), DecodePlan::Decode { first: None, then: StaticKind::Pdf });
    assert_eq!(plan_decode(&request("/a.Cr3", false, 0, false), 0), DecodePlan::Decode { first: None, then: StaticKind::Raw });
    assert_eq!(plan_decode(&request("/noext", false, 0, false), 0), DecodePlan::Decode { first: None, then: StaticKind::Image });
}

#[test]
fn extensions_lower_cased() {
    assert_eq!(lower_ext("/x/A.JpEg"), Some("jpeg".chars().collect()));
    assert_eq!(lower_ext("/x/noext"), None);
    assert_eq!(lowered_extension("/x/B.PNG"), "png".chars().collect::<Vec<char>>());
    assert_eq!(lowered_extension("/x/none"), Vec::<char>::new());
    assert!(is_jpeg("/x/a.JPG"));
    assert!(is_jpeg("a.jpeg"));
    assert!(!is_jpeg("a.png"));
    assert!(is_jpeg_name("dir/A.Jpg"));
    assert!(!is_jpeg_name("dir/a.jpgx"));
}

#[test]
fn unpremultiply_examples() {
    let data = [128u8, 64, 0, 128, 0, 0, 0, 0, 10, 20, 30, 255, 200, 0, 0, 100, 9, 9];
    assert_eq!(
        unpremultiply_alpha(&data),
        vec![255, 128, 0, 128, 0, 0, 0, 0, 10, 20, 30, 255, 255, 0, 0, 100]
    );
    assert!(unpremultiply_alpha(&[1, 2, 3]).is_empty());
}

#[test]
fn frame_delays() {
    assert_eq!(frame_delay_ms(0, 0), 100);
    assert_eq!(frame_delay_ms(200, 1), 200);
    assert_eq!(frame_delay_ms(5, 10), 100);
    assert_eq!(frame_delay_ms(1000, 3), 333);
}

#[test]
fn external_decoder_settings() {
    assert_eq!(pdf_dpi(true), 36);
    assert_eq!(pdf_dpi(false), 150);
    assert_eq!(raw_tool_args(true), vec!["-e", "-T"]);
    assert_eq!(raw_tool_args(false), vec!["-T", "-w"]);
    assert_eq!(raw_thumb_path("/x/a.NEF"), "/x/a.thumb.jpg");
    assert_eq!(raw_output_path("/x/a.NEF", true, true), "/x/a.thumb.jpg");
    assert_eq!(raw_output_path("/x/a.NEF", true, false), "/x/a.tiff");
    assert_eq!(raw_output_path("/x/a.NEF", false, true), "/x/a.tiff");
}

#[test]
fn generic_decode_by_extension() {
    let png = png_bytes(4, 2);
    let img = decode_generic("/x/a.png", &png, false, 160).unwrap();
    assert_eq!((img.width, img.height), (4, 2));
    assert_eq!(img.rgba, pixels(4, 2));
    let thumb = decode_generic("/x/a.PNG", &png, true, 2).unwrap();
    assert_eq!((thumb.width, thumb.height), (2, 1));
    assert_eq!(thumb.rgba.len(), 8);
    assert!(decode_generic("/x/a.xyz", &png, false, 160).is_none());
    assert!(decode_generic("/x/noext", &png, false, 160).is_none());
    assert!(decode_generic("/x/a.gif", &png, false, 160).is_none());
}

#[test]
fn decode_guessing_format() {
    let png = png_bytes(3, 3);
    let img = decode_bytes(&png, false, 160).unwrap();
    assert_eq!((img.width, img.height), (3, 3));
    assert!(decode_bytes(&[1, 2, 3, 4], false, 160).is_none());
}

#[test]
fn decode_image_prefers_jpeg_result_for_jpegs() {
    let png = png_bytes(2, 2);
    let given = DecodedImage { rgba: vec![1, 2, 3, 4], width: 1, height: 1 };
    let r = decode_image("/x/a.JPG", &png, Some(given), false, 160).unwrap();
    assert_eq!((r.width, r.height, r.rgba.clone()), (1, 1, vec![1, 2, 3, 4]));
    let given = DecodedImage { rgba: vec![1, 2, 3, 4], width: 1, height: 1 };
    let r = decode_image("/x/a.png", &png, Some(given), false, 160).unwrap();
    assert_eq!((r.width, r.height), (2, 2));
    assert!(decode_image("/x/a.jpg", &png, None, false, 160).is_none());
}

#[test]
fn decode_from_zip_guesses_format() {
    let png = png_bytes(2, 3);
    let z = ZipSource { archive_path: "/a.zip".to_string(), entry_name: "in/pic.jpg".to_string() };
    let r = decode_from_zip(&z, &png, None, false, 160).unwrap();
    assert_eq!((r.width, r.height), (2, 3));
    let given = DecodedImage { rgba: vec![9, 9, 9, 9], width: 1, height: 1 };
    let r = decode_from_zip(&z, &png, Some(given), false, 160).unwrap();
    assert_eq!(r.rgba, vec![9, 9, 9, 9]);
    let p = ZipSource { archive_path: "/a.zip".to_string(), entry_name: "in/pic.png".to_string() };
    let given = DecodedImage { rgba: vec![9, 9, 9, 9], width: 1, height: 1 };
    let r = decode_from_zip(&p, &png, Some(given), false, 160).unwrap();
    assert_eq!((r.width, r.height), (2, 3));
}

#[test]
fn animated_gif_frames_and_delays() {
    let bytes = gif_bytes(&[200, 0, 50]);
    let a = decode_animated_gif(bytes).unwrap();
    assert_eq!(a.frames.len(), 3);
    assert_eq!(a.delays, vec![200, 100, 50]);
    assert_eq!((a.frames[0].width, a.frames[0].height), (3, 2));
    assert_eq!(a.frames[0].rgba.len(), 24);
    assert!(decode_animated_gif(vec![0, 1, 2]).is_none());
}

#[test]
fn webp_decoder_refuses_other_files() {
    assert!(decode_animated_webp(gif_bytes(&[100])).is_none());
    assert!(decode_animated_webp(png_bytes(2, 2)).is_none());
}

#[test]
fn still_webp_is_not_an_animation_but_decodes() {
    let mut buf = Vec::new();
    image::codecs::webp::WebPEncoder::new_lossless(&mut buf)
        .encode(&pixels(2, 2), 2, 2, image::ExtendedColorType::Rgba8)
        .unwrap();
    assert!(decode_animated_webp(buf.clone()).is_none());
    let img = decode_generic("/x/still.webp", &buf, false, 160).unwrap();
    assert_eq!((img.width, img.height), (2, 2));
    assert_eq!(img.rgba, pixels(2, 2));
}

#[test]
fn rotating_turns_a_quarter_and_keeps_the_format() {
    let src = png_bytes(3, 2);
    let right = rotated_bytes("/p/a.png", &src, true).unwrap();
    let turned = image::load_from_memory_with_format(&right, ImageFormat::Png).unwrap().to_rgba8();
    assert_eq!(turned.dimensions(), (2, 3));
    let original = image::load_from_memory(&src).unwrap().to_rgba8();
    // the top-left pixel of the original ends at the top-right when turned clockwise
    assert_eq!(turned.get_pixel(1, 0), original.get_pixel(0, 0));
    let left = rotated_bytes("/p/a.PNG", &src, false).unwrap();
    let turned = image::load_from_memory_with_format(&left, ImageFormat::Png).unwrap().to_rgba8();
    assert_eq!(turned.get_pixel(0, 2), original.get_pixel(0, 0));
    let back = rotated_bytes("/p/a.png", &right, false).unwrap();
    let back = image::load_from_memory(&back).unwrap().to_rgba8();
    assert_eq!(back, original);
}

#[test]
fn rotating_reports_what_failed() {
    let src = png_bytes(2, 2);
    assert_eq!(rotated_bytes("/p/a", &src, true), Err(RotateError::Open));
    assert_eq!(rotated_bytes("/p/a.txt", &src, true), Err(RotateError::Open));
    assert_eq!(rotated_bytes("/p/a.png", b"not an image", true), Err(RotateError::Open));
    assert_eq!(rotated_bytes("/p/a.jpg", &src, true), Err(RotateError::Open));
}
