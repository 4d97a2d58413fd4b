use dropslim::animation::{
    avif_is_animated, ensure_not_animated, is_animated, png_is_animated, webp_is_animated,
};
use dropslim::formats::ImageFormat;
use dropslim::payloads::ErrorPayload;

fn apng_fixture_bytes() -> Vec<u8> {
    let mut data = Vec::new();
    data.extend_from_slice(b"\x89PNG\r\n\x1a\n");
    data.extend_from_slice(&[
        0x00, 0x00, 0x00, 0x0d, b'I', b'H', b'D', b'R', 0x00, 0x00, 0x00, 0x01, 0x00, 0x00, 0x00,
        0x01, 0x08, 0x06, 0x00, 0x00, 0x00, 0x1f, 0x15, 0xc4, 0x89,
    ]);
    data.extend_from_slice(&[
        0x00, 0x00, 0x00, 0x08, b'a', b'c', b'T', b'L', 0x00, 0x00, 0x00, 0x02, 0x00, 0x00, 0x00,
        0x00, 0x00, 0x00, 0x00, 0x00,
    ]);
    data.extend_from_slice(&[0x00, 0x00, 0x00, 0x00, b'I', b'E', b'N', b'D', 0xae, 0x42, 0x60, 0x82]);
    data
}

fn static_png_bytes() -> Vec<u8> {
    vec![
        0x89, 0x50, 0x4e, 0x47, 0x0d, 0x0a, 0x1a, 0x0a, 0x00, 0x00, 0x00, 0x0d, 0x49, 0x48, 0x44,
        0x52, 0x00, 0x00, 0x00, 0x01, 0x00, 0x00, 0x00, 0x01, 0x08, 0x06, 0x00, 0x00, 0x00, 0x1f,
        0x15, 0xc4, 0x89, 0x00, 0x00, 0x00, 0x00, 0x49, 0x45, 0x4e, 0x44, 0xae, 0x42, 0x60, 0x82,
    ]
}

#[test]
fn detects_apng_chunk() {
    assert!(png_is_animated(&apng_fixture_bytes()));
}

#[test]
fn static_png_is_not_animated() {
    assert!(!png_is_animated(&static_png_bytes()));
}

#[test]
fn detects_vp8x_animation_flag() {
    let data = [
        b'R', b'I', b'F', b'F', 0x1a, 0x00, 0x00, 0x00, b'W', b'E', b'B', b'P', b'V', b'P', b'8',
        b'X', 0x0a, 0x00, 0x00, 0x00, 0x02, 0x00, 0x00, 0x00, 0x01, 0x00, 0x00, 0x00, 0x01, 0x00,
    ];
    assert!(webp_is_animated(&data));
}

#[test]
fn static_webp_is_not_animated() {
    let data = [
        b'R', b'I', b'F', b'F', 0x0c, 0x00, 0x00, 0x00, b'W', b'E', b'B', b'P', b'V', b'P', b'8',
        b' ', 0x04, 0x00, 0x00, 0x00, 0x00, 0x00, 0x00, 0x00,
    ];
    assert!(!webp_is_animated(&data));
}

#[test]
fn actl_after_iend_does_not_count() {
    let mut data = static_png_bytes();
    data.extend_from_slice(&[0, 0, 0, 0, b'a', b'c', b'T', b'L', 0, 0, 0, 0]);
    assert!(!png_is_animated(&data));
}

#[test]
fn data_without_png_signature_is_not_animated() {
    let mut data = apng_fixture_bytes();
    data[1] = b'X';
    assert!(!png_is_animated(&data));
    assert!(!png_is_animated(&[]));
    assert!(!png_is_animated(b"\x89PNG\r\n\x1a"));
}

#[test]
fn chunk_running_past_the_end_stops_the_walk() {
    let mut data = b"\x89PNG\r\n\x1a\n".to_vec();
    data.extend_from_slice(&[0xff, 0xff, 0xff, 0xff, b'I', b'D', b'A', b'T', 0, 0, 0, 0]);
    data.extend_from_slice(&[0, 0, 0, 0, b'a', b'c', b'T', b'L', 0, 0, 0, 0]);
    assert!(!png_is_animated(&data));
}

#[test]
fn anim_and_anmf_chunks_mark_webp_animation() {
    let mut data = b"RIFF\x00\x00\x00\x00WEBP".to_vec();
    data.extend_from_slice(b"VP8 \x03\x00\x00\x00abc\x00");
    data.extend_from_slice(b"ANMF\x00\x00\x00\x00");
    assert!(webp_is_animated(&data));
    let mut anim = b"RIFF\x00\x00\x00\x00WEBPANIM\x06\x00\x00\x00".to_vec();
    anim.extend_from_slice(&[0; 6]);
    assert!(webp_is_animated(&anim));
    assert!(!webp_is_animated(b"RIFF\x00\x00\x00\x00WEBQANIM\x00\x00\x00\x00"));
}

#[test]
fn non_avif_bytes_are_not_an_image_sequence() {
    assert!(!avif_is_animated(b"not an avif file"));
    assert!(!avif_is_animated(&[]));
}

#[test]
fn animated_images_are_refused() {
    let apng = apng_fixture_bytes();
    assert_eq!(
        ensure_not_animated("a.png", ImageFormat::Png, &apng),
        Err(ErrorPayload::animated_not_supported())
    );
    assert_eq!(ensure_not_animated("b.png", ImageFormat::Png, &static_png_bytes()), Ok(()));
    assert_eq!(is_animated("c.heic", ImageFormat::Heic, &[]), Ok(false));
    assert_eq!(is_animated("d.gif", ImageFormat::Gif, &apng), Ok(false));
}
