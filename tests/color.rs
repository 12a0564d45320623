use skelanim::color::{Color, ColorBuffer};

#[test]
fn from_hex_splits_channels() {
    let c = Color::from_hex(0x8011_2233);
    assert_eq!(c, Color::new(0x11, 0x22, 0x33, 0x80));
}

#[test]
fn to_hex_packs_argb() {
    let c = Color::new(1, 2, 3, 4);
    assert_eq!(c.to_hex(), 0x0401_0203);
    assert_eq!(Color::from_hex(c.to_hex()), c);
}

#[test]
fn new_buffer_is_filled() {
    let c = Color::new(9, 8, 7, 6);
    let cb = ColorBuffer::new(2, 3, &c);
    assert_eq!(cb.buffer.len(), 6);
    assert!(cb.buffer.iter().all(|x| *x == c));
    assert_eq!((cb.width, cb.height), (2, 3));
}

#[test]
fn byte_round_trip() {
    let bytes: Vec<u8> = (0u8..16).collect();
    let cb = ColorBuffer::from_byte_vec(2, 2, &bytes);
    assert_eq!(cb.buffer[1], Color::new(4, 5, 6, 7));
    assert_eq!(cb.to_byte_vec(), bytes);
}

#[test]
fn pixel_access_uses_stride_four() {
    let mut cb = ColorBuffer::new(4, 4, &Color::new(0, 0, 0, 0));
    let red = Color::new(255, 0, 0, 255);
    cb.set_color_at_pixel(1, 2, &red);
    assert_eq!(cb.buffer[9], red);
    assert_eq!(cb.get_color_at_pixel(1, 2), red);
    assert_eq!(cb.get_color_at_pixel(2, 1), Color::new(0, 0, 0, 0));
}
