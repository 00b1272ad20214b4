use capybara::photo::{encode_photo, PhotoError};

#[test]
fn photo_is_a_webp_file() {
    let rgb: Vec<u8> = (0..2 * 3 * 3).map(|i| (i * 13) as u8).collect();
    let webp = encode_photo(2, 3, &rgb).unwrap();
    assert_eq!(&webp[0..4], b"RIFF");
    assert_eq!(&webp[8..12], b"WEBP");
    assert_ne!(webp, rgb);
    assert_eq!(encode_photo(2, 3, &rgb).unwrap(), webp);
}

#[test]
fn photo_size_must_match() {
    assert_eq!(encode_photo(2, 2, &vec![0u8; 11]), Err(PhotoError::Size));
    assert_eq!(encode_photo(2, 2, &vec![0u8; 13]), Err(PhotoError::Size));
}

#[test]
fn photo_sides_must_suit_webp() {
    assert_eq!(encode_photo(0, 0, &vec![]), Err(PhotoError::Dimensions));
    assert_eq!(encode_photo(0, 5, &vec![]), Err(PhotoError::Dimensions));
    assert_eq!(encode_photo(16385, 1, &vec![0u8; 16385 * 3]), Err(PhotoError::Dimensions));
    assert!(encode_photo(16384, 1, &vec![0u8; 16384 * 3]).is_ok());
}

#[test]
fn full_frame_photo_encodes() {
    let rgb = vec![100u8; 640 * 480 * 3];
    let webp = encode_photo(640, 480, &rgb).unwrap();
    assert_eq!(&webp[0..4], b"RIFF");
}
