use telemetryforge::protocol::{
    bitmap_command, brightness_command, classify_revision, command, encode_rgb565, hello_request,
    orientation_payload, rgb565_le, screen_on_command, DisplayRevision, FrameError, DISPLAY_BITMAP, HELLO,
    SET_BRIGHTNESS, SET_ORIENTATION,
};
use telemetryforge::schema::Orientation;

#[test]
fn encodes_bitmap_command_like_upstream() {
    assert_eq!(command(DISPLAY_BITMAP, 0, 0, 479, 319), [0, 0, 7, 125, 63, 197]);
}

#[test]
fn rgb565_is_little_endian() {
    let mut image = image::RgbImage::new(1, 1);
    image.put_pixel(0, 0, image::Rgb([255, 0, 0]));
    let [r, g, b] = image.get_pixel(0, 0).0;
    assert_eq!(rgb565_le(r, g, b), [0x00, 0xF8]);
}

#[test]
fn hello_command_matches_upstream() {
    assert_eq!([HELLO; 6], [69, 69, 69, 69, 69, 69]);
    assert_eq!(hello_request(), [69, 69, 69, 69, 69, 69]);
}

#[test]
fn screen_on_is_a_bare_command() {
    assert_eq!(screen_on_command(), [0, 0, 0, 0, 0, 109]);
}

#[test]
fn brightness_command_inverts_the_percentage() {
    assert_eq!(brightness_command(0), command(SET_BRIGHTNESS, 255, 0, 0, 0));
    assert_eq!(brightness_command(100), command(SET_BRIGHTNESS, 0, 0, 0, 0));
    assert_eq!(brightness_command(200), brightness_command(100));
    assert_eq!(brightness_command(50), command(SET_BRIGHTNESS, 128, 0, 0, 0));
}

#[test]
fn brightness_matches_the_floating_point_formula() {
    for percent in 0..=255u8 {
        let clamped = percent.min(100);
        let absolute = 255 - ((clamped as f32 / 100.0) * 255.0) as u16;
        assert_eq!(brightness_command(percent), command(SET_BRIGHTNESS, absolute, 0, 0, 0));
    }
}

#[test]
fn brightness_never_dims_when_the_percentage_grows() {
    for a in 0..=255u8 {
        for b in a..=255u8 {
            let x = brightness_command(a);
            let y = brightness_command(b);
            let level = |c: [u8; 6]| ((c[0] as u16) << 2) | ((c[1] as u16) >> 6);
            assert!(level(x) >= level(y));
        }
    }
}

#[test]
fn orientation_payload_carries_code_and_size() {
    let payload = orientation_payload(Orientation::Landscape, 480, 320);
    let head = command(SET_ORIENTATION, 0, 0, 0, 0);
    assert_eq!(&payload[..6], &head[..]);
    assert_eq!(&payload[6..], &[102, 1, 224, 1, 64, 0, 0, 0, 0, 0]);
    let portrait = orientation_payload(Orientation::Portrait, 320, 480);
    assert_eq!(portrait[6], 100);
    assert_eq!(orientation_payload(Orientation::ReversePortrait, 1, 1)[6], 101);
    assert_eq!(orientation_payload(Orientation::ReverseLandscape, 1, 1)[6], 103);
}

#[test]
fn revision_follows_the_hello_answer() {
    assert_eq!(classify_revision(&[1; 6], 6), DisplayRevision::UsbMonitor35);
    assert_eq!(classify_revision(&[2; 6], 6), DisplayRevision::UsbMonitor5);
    assert_eq!(classify_revision(&[3; 6], 6), DisplayRevision::UsbMonitor7);
    assert_eq!(classify_revision(&[0; 6], 0), DisplayRevision::Turing35);
    assert_eq!(classify_revision(&[9, 0, 0, 0, 0, 0], 1), DisplayRevision::Unknown);
    assert_eq!(classify_revision(&[1; 6], 0), DisplayRevision::UsbMonitor35);
}

#[test]
fn rgb565_stream_packs_each_pixel() {
    let stream = encode_rgb565(&[255, 0, 0, 0, 255, 0, 0, 0, 255, 255, 255, 255]);
    assert_eq!(stream, vec![0x00, 0xF8, 0xE0, 0x07, 0x1F, 0x00, 0xFF, 0xFF]);
}

#[test]
fn bitmap_command_covers_the_region() {
    assert_eq!(bitmap_command(0, 0, 480, 320), Ok(command(DISPLAY_BITMAP, 0, 0, 479, 319)));
    assert_eq!(bitmap_command(10, 20, 5, 6), Ok(command(DISPLAY_BITMAP, 10, 20, 14, 25)));
    assert_eq!(bitmap_command(0, 0, 0, 10), Err(FrameError::InvalidDimensions));
    assert_eq!(bitmap_command(0, 0, 70000, 10), Err(FrameError::InvalidDimensions));
}
