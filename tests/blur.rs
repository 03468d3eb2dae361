use box_blur::{blur, blur_checked, BlurError};

fn pixel(buf: &[u8], width: u32, x: u32, y: u32) -> [u8; 4] {
    let i = ((y * width + x) * 4) as usize;
    [buf[i], buf[i + 1], buf[i + 2], buf[i + 3]]
}

fn varied_image(width: u32, height: u32) -> Vec<u8> {
    let mut buf = Vec::new();
    for k in 0..width * height {
        buf.push((k * 37 % 256) as u8);
        buf.push((k * 11 % 256) as u8);
        buf.push((255 - k * 5 % 256) as u8);
        buf.push((k % 2 * 200) as u8);
    }
    buf
}

#[test]
fn radius_zero_is_identity() {
    let original = varied_image(5, 4);
    let mut buf = original.clone();
    blur(&mut buf, 5, 4, 0);
    assert_eq!(buf, original);
}

#[test]
fn blurring_twice_is_stronger_than_once() {
    let mut once = vec![0, 0, 0, 255, 90, 90, 90, 255, 0, 0, 0, 255];
    blur(&mut once, 3, 1, 1);
    assert_eq!(once, vec![45, 45, 45, 255, 30, 30, 30, 255, 45, 45, 45, 255]);
    let mut twice = once.clone();
    blur(&mut twice, 3, 1, 1);
    assert_eq!(twice, vec![37, 37, 37, 255, 40, 40, 40, 255, 37, 37, 37, 255]);
    assert_ne!(once, twice);
}

#[test]
fn uniform_input_is_unchanged() {
    let mut buf = Vec::new();
    for _ in 0..6 * 5 {
        buf.extend_from_slice(&[12, 200, 7, 99]);
    }
    let original = buf.clone();
    for radius in 0..8 {
        blur(&mut buf, 6, 5, radius);
        assert_eq!(buf, original);
    }
}

#[test]
fn single_pixel_with_large_radius_is_unchanged() {
    let mut buf = vec![17, 34, 51, 68];
    blur(&mut buf, 1, 1, 5);
    assert_eq!(buf, vec![17, 34, 51, 68]);
}

#[test]
fn corner_edge_and_centre_counts() {
    // Pixel k of a 3x3 image holds (3k, k*k, 100 + k, 255).
    let mut buf = Vec::new();
    for k in 0..9u32 {
        buf.extend_from_slice(&[(3 * k) as u8, (k * k) as u8, (100 + k) as u8, 255]);
    }
    blur(&mut buf, 3, 3, 1);
    // Top-left: pixels 0, 1, 3, 4.
    // R = (0+3+9+12)/4 = 6, G = (0+1+9+16)/4 = 6, B = (100+101+103+104)/4 = 102.
    assert_eq!(pixel(&buf, 3, 0, 0), [6, 6, 102, 255]);
    // Top edge: pixels 0, 1, 2, 3, 4, 5.
    // R = 45/6 = 7, G = 55/6 = 9, B = 615/6 = 102.
    assert_eq!(pixel(&buf, 3, 1, 0), [7, 9, 102, 255]);
    // Centre: all nine pixels. R = 108/9 = 12, G = 204/9 = 22, B = 936/9 = 104.
    assert_eq!(pixel(&buf, 3, 1, 1), [12, 22, 104, 255]);
    // Bottom-right: pixels 4, 5, 7, 8.
    // R = 72/4 = 18, G = (16+25+49+64)/4 = 38, B = 424/4 = 106.
    assert_eq!(pixel(&buf, 3, 2, 2), [18, 38, 106, 255]);
}

#[test]
fn channels_are_averaged_independently() {
    let mut buf = vec![10, 20, 30, 255, 50, 60, 70, 0];
    blur(&mut buf, 2, 1, 1);
    assert_eq!(buf, vec![30, 40, 50, 127, 30, 40, 50, 127]);
}

#[test]
fn large_saturated_image_does_not_overflow() {
    let mut buf = vec![255u8; 1000 * 1000 * 4];
    blur(&mut buf, 1000, 1000, 10);
    assert!(buf.iter().all(|&v| v == 255));
}

#[test]
fn radius_larger_than_image_averages_everything() {
    // Every window covers the whole 2x2 image.
    let mut buf = vec![0, 4, 8, 1, 1, 5, 9, 2, 2, 6, 10, 3, 3, 7, 11, 4];
    blur(&mut buf, 2, 2, 100);
    for y in 0..2 {
        for x in 0..2 {
            assert_eq!(pixel(&buf, 2, x, y), [1, 5, 9, 2]);
        }
    }
}

#[test]
fn reads_come_from_the_original_pixels() {
    // A later pixel must see the earlier pixel's original value, not its blurred one.
    let mut buf = vec![200, 0, 0, 0, 0, 0, 0, 0, 0, 0, 0, 0, 0, 0, 0, 0];
    blur(&mut buf, 4, 1, 1);
    assert_eq!(buf, vec![100, 0, 0, 0, 66, 0, 0, 0, 0, 0, 0, 0, 0, 0, 0, 0]);
}

#[test]
fn empty_image_is_accepted() {
    let mut buf: Vec<u8> = Vec::new();
    blur(&mut buf, 0, 7, 3);
    assert!(buf.is_empty());
    assert_eq!(blur_checked(&mut buf, 7, 0, 3), Ok(()));
}

#[test]
fn checked_blur_matches_blur_on_valid_buffers() {
    let mut expected = varied_image(4, 3);
    let mut buf = expected.clone();
    blur(&mut expected, 4, 3, 2);
    assert_eq!(blur_checked(&mut buf, 4, 3, 2), Ok(()));
    assert_eq!(buf, expected);
}

#[test]
fn checked_blur_refuses_wrong_length() {
    let original = varied_image(3, 3);
    let mut buf = original.clone();
    assert_eq!(blur_checked(&mut buf, 4, 3, 1), Err(BlurError::InvalidBufferLength));
    assert_eq!(buf, original);
    let mut short = original[..original.len() - 1].to_vec();
    assert_eq!(blur_checked(&mut short, 3, 3, 1), Err(BlurError::InvalidBufferLength));
    assert_eq!(short, original[..original.len() - 1].to_vec());
}
