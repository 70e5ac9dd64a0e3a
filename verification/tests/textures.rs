use radiance_cascades::texture::{
    load_image, texture_from_decoded, Decoded, PixelFormat, TextureError,
};

const RGBA_2X2: [u8; 78] = [
    137, 80, 78, 71, 13, 10, 26, 10, 0, 0, 0, 13, 73, 72, 68, 82, 0, 0, 0, 2, 0, 0, 0, 2, 8, 6, 0,
    0, 0, 114, 182, 13, 36, 0, 0, 0, 21, 73, 68, 65, 84, 120, 156, 99, 248, 207, 192, 240, 31, 12,
    129, 244, 127, 46, 17, 57, 13, 0, 64, 154, 6, 95, 17, 64, 255, 160, 0, 0, 0, 0, 73, 69, 78,
    68, 174, 66, 96, 130,
];

const GRAY_3X1: [u8; 69] = [
    137, 80, 78, 71, 13, 10, 26, 10, 0, 0, 0, 13, 73, 72, 68, 82, 0, 0, 0, 3, 0, 0, 0, 1, 8, 0, 0,
    0, 0, 62, 139, 75, 104, 0, 0, 0, 12, 73, 68, 65, 84, 120, 156, 99, 96, 104, 248, 15, 0, 2, 3,
    1, 128, 36, 97, 245, 151, 0, 0, 0, 0, 73, 69, 78, 68, 174, 66, 96, 130,
];

#[test]
fn a_colour_image_is_decoded() {
    let image = load_image(&RGBA_2X2).unwrap();
    assert_eq!((image.width, image.height), (2, 2));
    assert_eq!(image.format, PixelFormat::Rgba);
    assert_eq!(
        image.data,
        vec![255, 0, 0, 255, 0, 255, 0, 255, 0, 0, 255, 255, 10, 20, 30, 40]
    );
}

#[test]
fn a_grey_image_is_decoded() {
    let image = load_image(&GRAY_3X1).unwrap();
    assert_eq!((image.width, image.height), (3, 1));
    assert_eq!(image.format, PixelFormat::Red);
    assert_eq!(image.data, vec![0, 128, 255]);
}

#[test]
fn a_portable_pixmap_is_decoded() {
    // The header of a binary pixmap: magic number, sides, greatest value.
    let mut data = vec![0x50, 0x36, b'\n'];
    data.extend_from_slice(b"2 1\n255\n");
    data.extend_from_slice(&[1, 2, 3, 4, 5, 6]);
    let image = load_image(&data).unwrap();
    assert_eq!((image.width, image.height), (2, 1));
    assert_eq!(image.format, PixelFormat::Rgb);
    assert_eq!(image.data, vec![1, 2, 3, 4, 5, 6]);
}

#[test]
fn what_is_no_image_is_refused() {
    assert!(matches!(load_image(b"this is no image"), Err(TextureError::Decode(_))));
    assert!(matches!(load_image(&[]), Err(TextureError::Decode(_))));
    assert!(matches!(load_image(&RGBA_2X2[..40]), Err(TextureError::Decode(_))));
}

#[test]
fn decoded_bytes_become_a_texture_image() {
    let image = texture_from_decoded(Decoded::Bytes {
        width: 2,
        height: 3,
        depth: 2,
        data: vec![7; 12],
    })
    .unwrap();
    assert_eq!((image.width, image.height), (2, 3));
    assert_eq!(image.format, PixelFormat::Rg);
    assert_eq!(image.data, vec![7; 12]);
    let empty = texture_from_decoded(Decoded::Bytes { width: 0, height: 5, depth: 4, data: vec![] }).unwrap();
    assert_eq!((empty.width, empty.height, empty.format), (0, 5, PixelFormat::Rgba));
}

#[test]
fn decoded_faults_are_reported() {
    let failed = texture_from_decoded(Decoded::Failed(String::from("bad magic")));
    assert!(matches!(failed, Err(TextureError::Decode(reason)) if reason == "bad magic"));
    let floats = texture_from_decoded(Decoded::Floats { width: 1, height: 1, depth: 3 });
    assert!(matches!(floats, Err(TextureError::FloatChannels)));
    let deep = texture_from_decoded(Decoded::Bytes { width: 1, height: 1, depth: 5, data: vec![0; 5] });
    assert!(matches!(deep, Err(TextureError::UnsupportedDepth(5))));
    let flat = texture_from_decoded(Decoded::Bytes { width: 1, height: 1, depth: 0, data: vec![] });
    assert!(matches!(flat, Err(TextureError::UnsupportedDepth(0))));
    let wide = texture_from_decoded(Decoded::Bytes {
        width: 0x8000_0000,
        height: 1,
        depth: 1,
        data: vec![],
    });
    assert!(matches!(wide, Err(TextureError::TooLarge)));
    let short = texture_from_decoded(Decoded::Bytes { width: 2, height: 2, depth: 3, data: vec![0; 11] });
    assert!(matches!(short, Err(TextureError::Truncated)));
    let long = texture_from_decoded(Decoded::Bytes { width: 2, height: 2, depth: 3, data: vec![0; 13] });
    assert!(matches!(long, Err(TextureError::Truncated)));
}

#[test]
fn formats_follow_the_depth() {
    assert_eq!(PixelFormat::for_depth(1), Some(PixelFormat::Red));
    assert_eq!(PixelFormat::for_depth(2), Some(PixelFormat::Rg));
    assert_eq!(PixelFormat::for_depth(3), Some(PixelFormat::Rgb));
    assert_eq!(PixelFormat::for_depth(4), Some(PixelFormat::Rgba));
    assert_eq!(PixelFormat::for_depth(0), None);
    assert_eq!(PixelFormat::for_depth(5), None);
    for depth in 1..=4 {
        assert_eq!(PixelFormat::for_depth(depth).unwrap().channels(), depth);
    }
}

#[test]
fn a_buffer_too_long_for_the_decoder_is_refused() {
    let data = vec![0u8; 0x8000_0000];
    assert!(matches!(load_image(&data), Err(TextureError::BufferTooLong)));
}
