use kokoro_sapi::synth::{model_token_ids, padded_input, select_input_names, SynthError, MAX_TOKENS, SAMPLE_RATE};

fn v(list: &[&str]) -> Vec<String> {
    list.iter().map(|s| s.to_string()).collect()
}

#[test]
fn constants() {
    assert_eq!(SAMPLE_RATE, 24000);
    assert_eq!(MAX_TOKENS, 510);
}

#[test]
fn input_names_of_common_exports() {
    let n = select_input_names(&v(&["input_ids", "style", "speed"]));
    assert_eq!((n.ids.as_str(), n.style.as_str(), n.speed.as_str()), ("input_ids", "style", "speed"));
    let n = select_input_names(&v(&["tokens", "style", "speed"]));
    assert_eq!(n.ids, "tokens");
    let n = select_input_names(&v(&["speed_factor", "ref_style", "token_ids"]));
    assert_eq!((n.ids.as_str(), n.style.as_str(), n.speed.as_str()), ("token_ids", "ref_style", "speed_factor"));
}

#[test]
fn input_names_fall_back() {
    let n = select_input_names(&Vec::new());
    assert_eq!((n.ids.as_str(), n.style.as_str(), n.speed.as_str()), ("input_ids", "style", "speed"));
    let n = select_input_names(&v(&["a", "b"]));
    assert_eq!((n.ids.as_str(), n.style.as_str(), n.speed.as_str()), ("input_ids", "style", "speed"));
}

#[test]
fn first_matching_name_wins() {
    let n = select_input_names(&v(&["valid", "tokens"]));
    assert_eq!(n.ids, "valid");
}

#[test]
fn token_ids_are_limited() {
    assert!(matches!(model_token_ids(Vec::new()), Err(SynthError::NoTokens)));
    assert_eq!(model_token_ids(vec![1, 2, 3]).unwrap(), vec![1, 2, 3]);
    let long: Vec<i64> = (0..600).collect();
    let ids = model_token_ids(long.clone()).unwrap();
    assert_eq!(ids.len(), 510);
    assert_eq!(ids, long[..510].to_vec());
    let exact: Vec<i64> = (0..510).collect();
    assert_eq!(model_token_ids(exact.clone()).unwrap(), exact);
}

#[test]
fn input_is_padded_with_zeros() {
    assert_eq!(padded_input(&vec![5, 6]), vec![0, 5, 6, 0]);
    assert_eq!(padded_input(&Vec::new()), vec![0, 0]);
    let ids = model_token_ids((1..=1000).collect()).unwrap();
    assert_eq!(padded_input(&ids).len(), 512);
}
