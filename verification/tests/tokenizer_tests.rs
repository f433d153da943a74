use kokoro_sapi::tokenizer::{single_char, Tokenizer, TokenizerError};

fn entries(list: &[(&str, Option<i64>)]) -> Vec<(String, Option<i64>)> {
    list.iter().map(|(k, v)| (k.to_string(), *v)).collect()
}

#[test]
fn single_char_accepts_exactly_one_char() {
    assert_eq!(single_char("a"), Some('a'));
    assert_eq!(single_char("ə"), Some('ə'));
    assert_eq!(single_char("ˈ"), Some('ˈ'));
    assert_eq!(single_char(""), None);
    assert_eq!(single_char("ab"), None);
    assert_eq!(single_char("$ "), None);
}

#[test]
fn vocab_keeps_single_char_integer_entries() {
    let t = Tokenizer::from_vocab_entries(&entries(&[
        ("a", Some(43)),
        ("ab", Some(7)),
        ("b", None),
        ("ə", Some(83)),
    ]))
    .unwrap();
    assert_eq!(t.encode("a"), vec![43]);
    assert_eq!(t.encode("ab"), vec![43]);
    assert_eq!(t.encode("əa"), vec![83, 43]);
}

#[test]
fn later_entry_overrides_earlier() {
    let t = Tokenizer::from_vocab_entries(&entries(&[("a", Some(1)), ("a", Some(2))])).unwrap();
    assert_eq!(t.encode("aa"), vec![2, 2]);
}

#[test]
fn empty_vocab_is_refused() {
    let r = Tokenizer::from_vocab_entries(&entries(&[("ab", Some(1)), ("c", None)]));
    assert!(matches!(r, Err(TokenizerError::EmptyVocab)));
    let r = Tokenizer::from_vocab_entries(&Vec::new());
    assert!(matches!(r, Err(TokenizerError::EmptyVocab)));
}

#[test]
fn encode_drops_unknown_phonemes() {
    let t = Tokenizer::from_vocab_entries(&entries(&[("h", Some(50)), ("ə", Some(83)), (" ", Some(16))])).unwrap();
    assert_eq!(t.encode("hə‿ lˈoʊ"), vec![50, 83, 16]);
    assert_eq!(t.encode(""), Vec::<i64>::new());
    assert_eq!(t.encode("xyz"), Vec::<i64>::new());
}

#[test]
fn encode_of_concatenation_is_concatenation() {
    let t = Tokenizer::from_vocab_entries(&entries(&[("a", Some(1)), ("b", Some(2))])).unwrap();
    let mut joined = t.encode("abx");
    joined.extend(t.encode("ba"));
    assert_eq!(t.encode("abxba"), joined);
}

const TOKENIZER_JSON: &str = r#"{
  "version": "1.0",
  "truncation": null,
  "added_tokens": [],
  "model": {
    "vocab": {
      "$": 0,
      ";": 1,
      " ": 16,
      "a": 43,
      "ə": 83,
      "ab": 99,
      "x": "not a number",
      "y": 1.5
    }
  }
}"#;

#[test]
fn from_json_reads_model_vocab() {
    let t = Tokenizer::from_json(TOKENIZER_JSON).unwrap();
    assert_eq!(t.encode("$; aəb xy"), vec![0, 1, 16, 43, 83, 16]);
}

#[test]
fn from_json_errors() {
    assert!(matches!(Tokenizer::from_json("{not json"), Err(TokenizerError::InvalidJson(_))));
    assert!(matches!(Tokenizer::from_json(r#"{"model": {}}"#), Err(TokenizerError::NoVocab)));
    assert!(matches!(Tokenizer::from_json(r#"{"model": {"vocab": [1, 2]}}"#), Err(TokenizerError::NoVocab)));
    assert!(matches!(Tokenizer::from_json(r#"{"other": 1}"#), Err(TokenizerError::NoVocab)));
    assert!(matches!(Tokenizer::from_json(r#"{"model": {"vocab": {"ab": 1}}}"#), Err(TokenizerError::EmptyVocab)));
    assert!(matches!(Tokenizer::from_json(r#"{"model": {"vocab": {}}}"#), Err(TokenizerError::EmptyVocab)));
}

#[test]
fn from_json_reads_only_the_object_at_model_vocab() {
    let t = Tokenizer::from_json(
        r#"{"vocab": {"z": 9}, "model": {"vocab": {"b": 2, "a": 1, "c": -5, "d": 18446744073709551615}}}"#,
    )
    .unwrap();
    assert_eq!(t.encode("abcdz"), vec![1, 2, -5]);
    assert!(matches!(Tokenizer::from_json(r#"{"model": {"vocab": "a"}}"#), Err(TokenizerError::NoVocab)));
    assert!(matches!(Tokenizer::from_json(r#"{"model": 3}"#), Err(TokenizerError::NoVocab)));
    assert!(matches!(Tokenizer::from_json(""), Err(TokenizerError::InvalidJson(_))));
}
