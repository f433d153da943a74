use kokoro_sapi::text::{chars_of, trim_bounds, wide_nul};
use kokoro_sapi::g2p::{assemble_phonemes, is_clause_punct, join_clauses, trailing_punctuation};

fn v(list: &[&str]) -> Vec<String> {
    list.iter().map(|s| s.to_string()).collect()
}

#[test]
fn trailing_punctuation_after_white_space() {
    assert_eq!(trailing_punctuation("Hello world."), Some('.'));
    assert_eq!(trailing_punctuation("Really?  \n"), Some('?'));
    assert_eq!(trailing_punctuation("Wait…"), Some('…'));
    assert_eq!(trailing_punctuation("a, b;"), Some(';'));
    assert_eq!(trailing_punctuation("Yes:\u{3000}"), Some(':'));
    assert_eq!(trailing_punctuation("no mark"), None);
    assert_eq!(trailing_punctuation("quote.\""), None);
    assert_eq!(trailing_punctuation(""), None);
    assert_eq!(trailing_punctuation("   "), None);
}

#[test]
fn punctuation_set() {
    for c in ['.', '!', '?', '…', ';', ':', ','] {
        assert!(is_clause_punct(c));
    }
    for c in ['-', '"', 'a', ' ', '\u{2025}'] {
        assert!(!is_clause_punct(c));
    }
}

#[test]
fn clauses_are_trimmed_and_spaced() {
    assert_eq!(join_clauses(&v(&[" həlˈoʊ ", "wˈɜːld"])), "həlˈoʊ wˈɜːld");
    assert_eq!(join_clauses(&v(&[])), "");
    assert_eq!(join_clauses(&v(&["", "a", "", "b"])), "a b");
    // a blank clause still earns its separating space
    assert_eq!(join_clauses(&v(&["a", "  ", "b"])), "a  b");
}

#[test]
fn phonemes_end_with_the_sentence_mark() {
    assert_eq!(assemble_phonemes("Hello, world!", &v(&["həlˈoʊ", "wˈɜːld"])), "həlˈoʊ wˈɜːld!");
    assert_eq!(assemble_phonemes("Hello world", &v(&["həlˈoʊ wˈɜːld"])), "həlˈoʊ wˈɜːld");
    assert_eq!(assemble_phonemes("Hi. ", &v(&[])), ".");
}

#[test]
fn trim_matches_std() {
    for s in ["  a b  ", "\u{00A0}x\u{2009}", "\t\n", "", "é\u{3000}", "\u{85}y\u{200B}"] {
        let cs = chars_of(s);
        let (a, b) = trim_bounds(&cs);
        let got: String = cs[a..b].iter().collect();
        assert_eq!(got, s.trim());
    }
}

#[test]
fn wide_strings_match_std_utf16() {
    for s in ["", "setup.exe", "machine-register \"C:\\Users\\José\\KokoroSapi\"", "😀 ü \u{10FFFF}", "\u{FFFF}\u{10000}"] {
        let mut expected: Vec<u16> = s.encode_utf16().collect();
        expected.push(0);
        assert_eq!(wide_nul(s), expected);
    }
}
