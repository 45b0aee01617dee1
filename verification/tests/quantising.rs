use cvitek::error::NnError;
use cvitek::quantise::{
    can_read_i8, can_read_u8, dequantise_i8, dequantise_u8, quantise_into_i8, quantise_into_u8,
    quotients_fit, read_words, write_words,
};

fn inference_text(done: Result<(), NnError>) -> String {
    match done {
        Err(NnError::Inference(text)) => text,
        other => panic!("unexpected: {:?}", other),
    }
}

fn quotient(value: f32, scale: f32) -> i32 {
    (value / scale).round() as i32
}

#[test]
fn signed_bytes_are_moved_and_saturated() {
    let mut dst = vec![9u8; 7];
    let done = quantise_into_i8(&[0, 1, -1, 200, -200], &mut dst, 0, "x");
    assert!(done.is_ok());
    assert_eq!(dst, vec![0, 1, 0xff, 0x7f, 0x80, 9, 9]);
    assert!(quantise_into_i8(&[0, 120, -121], &mut dst, 10, "x").is_ok());
    assert_eq!(dst, vec![10, 127, 0x91, 0x7f, 0x80, 9, 9]);
}

#[test]
fn unsigned_bytes_are_moved_and_saturated() {
    let mut dst = vec![9u8; 6];
    let done = quantise_into_u8(&[0, 1, -1, 200, 300], &mut dst, 0, "x");
    assert!(done.is_ok());
    assert_eq!(dst, vec![0, 1, 0, 200, 255, 9]);
    assert!(quantise_into_u8(&[-128, -129, 127], &mut dst, 128, "x").is_ok());
    assert_eq!(dst, vec![0, 0, 255, 200, 255, 9]);
}

#[test]
fn quantising_follows_the_float_formula() {
    let values = [0.0f32, 0.5, -0.5, 0.26, 1.0, -1.0, 3.75, -64.0, 63.4, 1000.0, -1000.0];
    for (scale, zero_point) in [(0.5f32, 0i32), (0.01, -3), (0.25, 17)] {
        let quotients: Vec<i32> = values.iter().map(|v| quotient(*v, scale)).collect();
        assert!(quotients_fit(&quotients, zero_point));
        let mut signed = vec![0u8; values.len()];
        let mut unsigned = vec![0u8; values.len()];
        assert!(quantise_into_i8(&quotients, &mut signed, zero_point, "x").is_ok());
        assert!(quantise_into_u8(&quotients, &mut unsigned, zero_point, "x").is_ok());
        for (i, v) in values.iter().enumerate() {
            let q = (*v / scale).round() as i32 + zero_point;
            assert_eq!(signed[i], q.clamp(i8::MIN as i32, i8::MAX as i32) as i8 as u8);
            assert_eq!(unsigned[i], q.clamp(u8::MIN as i32, u8::MAX as i32) as u8);
        }
    }
}

#[test]
fn short_buffers_are_refused_and_kept() {
    let mut dst = vec![5u8; 2];
    assert_eq!(
        inference_text(quantise_into_i8(&[1, 2, 3], &mut dst, 0, "data")),
        "input 'data' int8 buffer too small (2 < 3)"
    );
    assert_eq!(
        inference_text(quantise_into_u8(&[1, 2, 3], &mut dst, 0, "data")),
        "input 'data' uint8 buffer too small (2 < 3)"
    );
    assert_eq!(dst, vec![5, 5]);
    let mut empty: Vec<u8> = vec![];
    let many = vec![0i32; 1205];
    assert_eq!(
        inference_text(quantise_into_u8(&many, &mut empty, 0, "")),
        "input '' uint8 buffer too small (0 < 1205)"
    );
}

#[test]
fn sums_are_checked() {
    assert!(quotients_fit(&[i32::MAX, 0], 0));
    assert!(quotients_fit(&[i32::MAX], -1));
    assert!(!quotients_fit(&[0, i32::MAX], 1));
    assert!(!quotients_fit(&[i32::MIN], -1));
    assert!(quotients_fit(&[], i32::MAX));
}

#[test]
fn bytes_become_distances() {
    let bytes = vec![0u8, 1, 127, 128, 255];
    assert!(can_read_i8(&bytes, 5, 3));
    assert_eq!(dequantise_i8(&bytes, 5, 3), vec![-3, -2, 124, -131, -4]);
    assert!(can_read_u8(&bytes, 5, 3));
    assert_eq!(dequantise_u8(&bytes, 5, 3), vec![-3, -2, 124, 125, 252]);
    assert_eq!(dequantise_u8(&bytes, 2, 0), vec![0, 1]);
}

#[test]
fn unreadable_bytes_are_noticed() {
    assert!(!can_read_i8(&vec![1, 2], 3, 0));
    assert!(!can_read_u8(&vec![1, 2], 3, 0));
    assert!(can_read_u8(&vec![1], 1, i32::MAX));
    assert!(!can_read_u8(&vec![0], 1, i32::MIN));
    assert!(!can_read_i8(&vec![0], 1, i32::MIN));
    assert!(can_read_i8(&vec![0xff], 1, i32::MIN));
    assert!(can_read_i8(&vec![0xff], 1, i32::MAX));
    assert!(!can_read_i8(&vec![0xfe], 1, i32::MAX));
}

#[test]
fn quotients_come_back_saturated() {
    let quotients = [-140, -128, -1, 0, 100, 127, 140];
    let mut dst = vec![0u8; 7];
    assert!(quantise_into_i8(&quotients, &mut dst, 5, "x").is_ok());
    assert_eq!(dequantise_i8(&dst, 7, 5), vec![-133, -128, -1, 0, 100, 122, 122]);
    assert!(quantise_into_u8(&quotients, &mut dst, 130, "x").is_ok());
    assert_eq!(dequantise_u8(&dst, 7, 130), vec![-130, -128, -1, 0, 100, 125, 125]);
}

#[test]
fn bytes_survive_requantising() {
    let bytes: Vec<u8> = (0u8..=255).collect();
    for zero_point in [-200, -1, 0, 3, 128] {
        let mut dst = vec![0u8; 256];
        let signed = dequantise_i8(&bytes, 256, zero_point);
        assert!(quantise_into_i8(&signed, &mut dst, zero_point, "x").is_ok());
        assert_eq!(dst, bytes);
        let unsigned = dequantise_u8(&bytes, 256, zero_point);
        assert!(quantise_into_u8(&unsigned, &mut dst, zero_point, "x").is_ok());
        assert_eq!(dst, bytes);
    }
}

#[test]
fn larger_quotients_give_no_smaller_bytes() {
    let quotients: Vec<i32> = (-300..=300).collect();
    let mut signed = vec![0u8; quotients.len()];
    let mut unsigned = vec![0u8; quotients.len()];
    assert!(quantise_into_i8(&quotients, &mut signed, 7, "x").is_ok());
    assert!(quantise_into_u8(&quotients, &mut unsigned, 7, "x").is_ok());
    for i in 1..quotients.len() {
        assert!(signed[i - 1] as i8 <= signed[i] as i8);
        assert!(unsigned[i - 1] <= unsigned[i]);
    }
}

#[test]
fn words_are_little_endian_and_come_back() {
    let values = [0.0f32, 1.0, -2.5, f32::MAX, f32::NAN];
    let words: Vec<u32> = values.iter().map(|v| v.to_bits()).collect();
    let mut dst = vec![7u8; 22];
    write_words(&words, &mut dst);
    for (i, v) in values.iter().enumerate() {
        assert_eq!(&dst[4 * i..4 * i + 4], &v.to_le_bytes());
    }
    assert_eq!(&dst[20..], &[7, 7]);
    assert_eq!(read_words(&dst, 5), words);
    assert_eq!(read_words(&dst, 1), vec![0]);
}
