use base64::Engine;
use desk_collector::config::{Config, RawSettings};
use desk_collector::screenshot::{downscale_if_needed, store_in_buffer, swap_red_blue, RING_BUFFER_SIZE};
use desk_collector::{capture_screenshot, encode_raw_to_base64, init_screenshot_buffer};

fn config_with_screenshots() -> Config {
    let mut c = Config::from_settings(&RawSettings::empty());
    c.enable_screenshot = true;
    c
}

#[test]
fn test_downscale_no_change_needed() {
    let pixels = vec![255u8; 300];
    let (new_w, new_h, new_pixels) = downscale_if_needed(10, 10, pixels.clone(), 100, 100);
    assert_eq!(new_w, 10);
    assert_eq!(new_h, 10);
    assert_eq!(new_pixels, pixels);
}

#[test]
fn test_downscale_width_exceeds() {
    let pixels = vec![255u8; 6000];
    let (new_w, new_h, _new_pixels) = downscale_if_needed(100, 20, pixels, 50, 100);
    assert_eq!(new_w, 50);
    assert_eq!(new_h, 10);
}

#[test]
fn test_downscale_height_exceeds() {
    let pixels = vec![255u8; 6000];
    let (new_w, new_h, _new_pixels) = downscale_if_needed(20, 100, pixels, 100, 50);
    assert_eq!(new_w, 10);
    assert_eq!(new_h, 50);
}

#[test]
fn downscale_samples_nearest_pixels() {
    // 4x2 image, pixel i has bytes (i, 10+i, 20+i); halve it.
    let pixels: Vec<u8> = (0..8u8).flat_map(|i| [i, 10 + i, 20 + i]).collect();
    let (w, h, out) = downscale_if_needed(4, 2, pixels, 2, 1);
    assert_eq!((w, h), (2, 1));
    assert_eq!(out, vec![0, 10, 20, 2, 12, 22]);
}

#[test]
fn downscale_keeps_budget_and_aspect() {
    let pixels = vec![7u8; 1920 * 1080 * 3];
    let (w, h, out) = downscale_if_needed(1920, 1080, pixels, 1024, 768);
    assert_eq!((w, h), (1024, 576));
    assert_eq!(out.len(), 1024 * 576 * 3);
    assert!(out.iter().all(|&b| b == 7));
}

#[test]
fn downscale_short_buffer_leaves_zeros() {
    let (w, h, out) = downscale_if_needed(4, 4, vec![9u8; 6], 2, 2);
    assert_eq!((w, h), (2, 2));
    assert_eq!(&out[0..3], &[9, 9, 9]);
    assert!(out[3..].iter().all(|&b| b == 0));
}

#[test]
fn swap_exchanges_first_and_third_byte() {
    assert_eq!(swap_red_blue(&vec![1, 2, 3, 4, 5, 6]), vec![3, 2, 1, 6, 5, 4]);
}

#[test]
fn test_init_screenshot_buffer() {
    let buffer = init_screenshot_buffer();
    assert!(buffer.frames.is_empty());
}

#[test]
fn test_store_in_buffer() {
    let mut buffer = init_screenshot_buffer();
    for i in 0..7 {
        store_in_buffer(&mut buffer, vec![i; 100]);
    }
    assert_eq!(buffer.frames.len(), RING_BUFFER_SIZE);
    assert_eq!(buffer.frames[0][0], 2);
    assert_eq!(buffer.frames[4][0], 6);
}

#[test]
fn test_base64_encode() {
    let mut buffer = init_screenshot_buffer();
    let config = config_with_screenshots();
    let encoded = encode_raw_to_base64(&config, 2, 2, vec![1, 2, 3, 4, 5, 6, 7, 8, 9, 10, 11, 12], &mut buffer).unwrap();
    assert!(!encoded.is_empty());
    assert!(encoded.chars().all(|c| c.is_ascii()));
    assert!(encoded.starts_with("/9j/"));
    assert_eq!(buffer.frames.len(), 1);
    assert_eq!(buffer.frames[0][0], 0xFF);
    assert_eq!(buffer.frames[0][1], 0xD8);
    check_standard_base64(&encoded, &buffer.frames[0]);
}

fn check_standard_base64(encoded: &str, bytes: &[u8]) {
    let decoded = base64::engine::general_purpose::STANDARD.decode(encoded).unwrap();
    assert_eq!(decoded, bytes);
    assert_eq!(encoded.len() % 4, 0);
}

#[test]
fn capture_encodes_a_frame_within_budget() {
    let mut buffer = init_screenshot_buffer();
    let frame = Some((4u32, 2u32, vec![10u8; 24]));
    let text = capture_screenshot(&config_with_screenshots(), frame, &mut buffer).unwrap();
    assert!(text.starts_with("/9j/"));
    assert_eq!(buffer.frames.len(), 1);
}

#[test]
fn capture_disabled_gives_nothing() {
    let mut buffer = init_screenshot_buffer();
    let config = Config::from_settings(&RawSettings::empty());
    assert!(capture_screenshot(&config, Some((2, 2, vec![0; 12])), &mut buffer).is_none());
    assert!(buffer.frames.is_empty());
}

#[test]
fn capture_without_frame_gives_nothing() {
    let mut buffer = init_screenshot_buffer();
    assert!(capture_screenshot(&config_with_screenshots(), None, &mut buffer).is_none());
}

#[test]
fn encoding_rejects_partial_pixels() {
    let mut buffer = init_screenshot_buffer();
    assert!(encode_raw_to_base64(&config_with_screenshots(), 2, 2, vec![0; 11], &mut buffer).is_none());
    assert!(buffer.frames.is_empty());
}
