use kokoro_sapi::voices::{voice_file_name, VoiceBank, VoiceError, STYLE_DIM, STYLE_ROW_BYTES};

fn rows(n: usize) -> Vec<u8> {
    // row r is filled with byte r
    let mut v = Vec::new();
    for r in 0..n {
        v.extend(std::iter::repeat(r as u8).take(STYLE_ROW_BYTES));
    }
    v
}

#[test]
fn row_size_matches_f32_rows() {
    assert_eq!(STYLE_ROW_BYTES, STYLE_DIM * 4);
}

#[test]
fn new_bank_is_empty() {
    let bank = VoiceBank::new("C:\\assets\\voices".to_string());
    assert_eq!(bank.dir(), "C:\\assets\\voices");
    assert!(!bank.is_loaded("af_heart"));
}

#[test]
fn load_refuses_partial_rows() {
    let mut bank = VoiceBank::new("v".to_string());
    let r = bank.load("af_heart", vec![0u8; 1000]);
    assert!(matches!(r, Err(VoiceError::BadSize { len: 1000 })));
    assert!(!bank.is_loaded("af_heart"));
    let r = bank.load("af_heart", vec![0u8; STYLE_ROW_BYTES + 4]);
    assert!(matches!(r, Err(VoiceError::BadSize { len: 1028 })));
}

#[test]
fn style_row_follows_token_count() {
    let mut bank = VoiceBank::new("v".to_string());
    bank.load("af_heart", rows(5)).unwrap();
    assert!(bank.is_loaded("af_heart"));
    assert!(!bank.is_loaded("af_bella"));
    for n in 0..5 {
        let row = bank.style("af_heart", n);
        assert_eq!(row.len(), STYLE_ROW_BYTES);
        assert!(row.iter().all(|b| *b == n as u8));
    }
    // clamped to the last row
    assert!(bank.style("af_heart", 4).iter().all(|b| *b == 4));
    assert!(bank.style("af_heart", 510).iter().all(|b| *b == 4));
    assert!(bank.style("af_heart", usize::MAX).iter().all(|b| *b == 4));
}

#[test]
fn single_row_voice() {
    let mut bank = VoiceBank::new("v".to_string());
    bank.load("bf_emma", rows(1)).unwrap();
    assert!(bank.style("bf_emma", 0).iter().all(|b| *b == 0));
    assert!(bank.style("bf_emma", 100).iter().all(|b| *b == 0));
}

#[test]
fn voices_are_kept_apart_and_reload_replaces() {
    let mut bank = VoiceBank::new("v".to_string());
    bank.load("a", rows(2)).unwrap();
    let mut other = rows(3);
    for b in other.iter_mut() {
        *b += 100;
    }
    bank.load("b", other).unwrap();
    assert!(bank.style("a", 1).iter().all(|b| *b == 1));
    assert!(bank.style("b", 1).iter().all(|b| *b == 101));
    bank.load("a", rows(4)).unwrap();
    assert!(bank.style("a", 3).iter().all(|b| *b == 3));
    assert!(bank.style("b", 9).iter().all(|b| *b == 102));
}

#[test]
fn style_bytes_are_the_row_slice() {
    let mut data = Vec::new();
    for i in 0..(3 * STYLE_ROW_BYTES) {
        data.push((i % 251) as u8);
    }
    let mut bank = VoiceBank::new("v".to_string());
    bank.load("x", data.clone()).unwrap();
    assert_eq!(bank.style("x", 1), data[STYLE_ROW_BYTES..2 * STYLE_ROW_BYTES].to_vec());
    let floats: Vec<f32> = bank
        .style("x", 2)
        .chunks_exact(4)
        .map(|b| f32::from_le_bytes([b[0], b[1], b[2], b[3]]))
        .collect();
    assert_eq!(floats.len(), STYLE_DIM);
}

#[test]
fn voice_file_names() {
    assert_eq!(voice_file_name("af_heart"), "af_heart.bin");
    assert_eq!(voice_file_name(""), ".bin");
}
