use adb_push::icon::{load_icon, Icon, IconError};

const PNG_2X2_RGBA: [u8; 79] = [
    0x89, 0x50, 0x4e, 0x47, 0x0d, 0x0a, 0x1a, 0x0a, 0x00, 0x00, 0x00, 0x0d,
    0x49, 0x48, 0x44, 0x52, 0x00, 0x00, 0x00, 0x02, 0x00, 0x00, 0x00, 0x02,
    0x08, 0x06, 0x00, 0x00, 0x00, 0x72, 0xb6, 0x0d, 0x24, 0x00, 0x00, 0x00,
    0x16, 0x49, 0x44, 0x41, 0x54, 0x78, 0xda, 0x63, 0xf8, 0xcf, 0xc0, 0xf0,
    0x1f, 0x08, 0x1b, 0x18, 0x40, 0x34, 0x97, 0x88, 0x9c, 0x06, 0x00, 0x36,
    0xa9, 0x04, 0xe1, 0x64, 0xdb, 0x4d, 0x7e, 0x00, 0x00, 0x00, 0x00, 0x49,
    0x45, 0x4e, 0x44, 0xae, 0x42, 0x60, 0x82,
];

const PNG_2X1_RGB: [u8; 72] = [
    0x89, 0x50, 0x4e, 0x47, 0x0d, 0x0a, 0x1a, 0x0a, 0x00, 0x00, 0x00, 0x0d,
    0x49, 0x48, 0x44, 0x52, 0x00, 0x00, 0x00, 0x02, 0x00, 0x00, 0x00, 0x01,
    0x08, 0x02, 0x00, 0x00, 0x00, 0x7b, 0x40, 0xe8, 0xdd, 0x00, 0x00, 0x00,
    0x0f, 0x49, 0x44, 0x41, 0x54, 0x78, 0xda, 0x63, 0x60, 0x64, 0x62, 0x66,
    0x61, 0x65, 0x03, 0x00, 0x00, 0x3f, 0x00, 0x16, 0x98, 0xc1, 0x68, 0x13,
    0x00, 0x00, 0x00, 0x00, 0x49, 0x45, 0x4e, 0x44, 0xae, 0x42, 0x60, 0x82,
];

#[test]
fn rgba_picture_is_decoded_row_after_row() {
    let icon = load_icon(&PNG_2X2_RGBA).unwrap();
    assert_eq!(icon.width(), 2);
    assert_eq!(icon.height(), 2);
    assert_eq!(
        icon.rgba(),
        &vec![255, 0, 0, 255, 0, 255, 0, 128, 0, 0, 255, 0, 10, 20, 30, 40]
    );
}

#[test]
fn picture_without_alpha_becomes_opaque() {
    let icon = load_icon(&PNG_2X1_RGB).unwrap();
    assert_eq!(icon.width(), 2);
    assert_eq!(icon.height(), 1);
    assert_eq!(icon.rgba(), &vec![1, 2, 3, 255, 4, 5, 6, 255]);
}

#[test]
fn bytes_that_are_no_picture_are_undecodable() {
    assert_eq!(load_icon(&[]).err(), Some(IconError::Undecodable));
    assert_eq!(load_icon(b"not a picture").err(), Some(IconError::Undecodable));
    assert_eq!(load_icon(&[1, 2, 3, 4]).err(), Some(IconError::Undecodable));
}

#[test]
fn truncated_picture_is_undecodable() {
    assert_eq!(load_icon(&PNG_2X2_RGBA[..40]).err(), Some(IconError::Undecodable));
}

#[test]
fn icon_of_fitting_pixels_is_made() {
    let icon = Icon::from_rgba(vec![9, 8, 7, 6, 5, 4, 3, 2], 1, 2).unwrap();
    assert_eq!(icon.width(), 1);
    assert_eq!(icon.height(), 2);
    assert_eq!(icon.rgba(), &vec![9, 8, 7, 6, 5, 4, 3, 2]);
}

#[test]
fn icon_without_pixels_is_made_for_an_empty_size() {
    assert!(Icon::from_rgba(Vec::new(), 0, 0).is_ok());
    assert!(Icon::from_rgba(Vec::new(), 0, 7).is_ok());
    assert!(Icon::from_rgba(Vec::new(), u32::MAX, 0).is_ok());
}

#[test]
fn pixels_that_do_not_fit_the_size_are_refused() {
    assert_eq!(Icon::from_rgba(vec![1, 2, 3], 1, 1).err(), Some(IconError::SizeMismatch));
    assert_eq!(Icon::from_rgba(vec![1, 2, 3, 4, 5], 1, 1).err(), Some(IconError::SizeMismatch));
    assert_eq!(Icon::from_rgba(vec![1, 2, 3, 4], 2, 1).err(), Some(IconError::SizeMismatch));
    assert_eq!(Icon::from_rgba(Vec::new(), 1, 1).err(), Some(IconError::SizeMismatch));
    assert_eq!(
        Icon::from_rgba(vec![0; 4], u32::MAX, u32::MAX).err(),
        Some(IconError::SizeMismatch)
    );
}
