use kokoro_sapi::guid::clsid_braced;
use kokoro_sapi::registry::{
    available_tokens, com_class_key, inproc_server_key, is_known_token, onecore_default_token_id,
    points_at_kokoro_token, sapi_default_token_id, token_attributes, token_key, token_values, voices,
    KOKORO_TOKEN_MARKER, ONECORE_TOKENS, ONECORE_VOICES, SAPI_TOKENS, SAPI_VOICES,
};

#[test]
fn four_voices() {
    let vs = voices();
    let tokens: Vec<&str> = vs.iter().map(|v| v.token).collect();
    assert_eq!(tokens, ["KokoroHeart", "KokoroBella", "KokoroMichael", "KokoroEmma"]);
    let names: Vec<&str> = vs.iter().map(|v| v.voice_name).collect();
    assert_eq!(names, ["af_heart", "af_bella", "am_michael", "bf_emma"]);
    assert_eq!(vs[3].display, "Kokoro Emma (en-GB)");
    assert_eq!(vs[3].language, "809");
    assert_eq!(vs[2].gender, "Male");
}

#[test]
fn key_paths() {
    let clsid = clsid_braced();
    assert_eq!(com_class_key(&clsid), "Software\\Classes\\CLSID\\{6A2C7F52-3B19-4E5D-9C01-8F4A2D7B61E3}");
    assert_eq!(
        inproc_server_key(&clsid),
        "Software\\Classes\\CLSID\\{6A2C7F52-3B19-4E5D-9C01-8F4A2D7B61E3}\\InprocServer32"
    );
    assert_eq!(token_key(SAPI_TOKENS, "KokoroHeart"), "SOFTWARE\\Microsoft\\Speech\\Voices\\Tokens\\KokoroHeart");
    assert_eq!(
        token_key(ONECORE_TOKENS, "KokoroEmma"),
        "SOFTWARE\\Microsoft\\Speech_OneCore\\Voices\\Tokens\\KokoroEmma"
    );
}

#[test]
fn token_values_and_attributes() {
    let v = voices()[0];
    let vals: Vec<(String, String)> = token_values(&v, "{C}", "C:\\a").into_iter().map(|r| (r.name, r.data)).collect();
    assert_eq!(
        vals,
        vec![
            ("".to_string(), "Kokoro Heart (en-US)".to_string()),
            ("CLSID".to_string(), "{C}".to_string()),
            ("VoiceName".to_string(), "af_heart".to_string()),
            ("AssetsDir".to_string(), "C:\\a".to_string()),
        ]
    );
    let attrs: Vec<(String, String)> = token_attributes(&v).into_iter().map(|r| (r.name, r.data)).collect();
    assert_eq!(
        attrs,
        vec![
            ("Name".to_string(), "Kokoro Heart (en-US)".to_string()),
            ("Gender".to_string(), "Female".to_string()),
            ("Age".to_string(), "Adult".to_string()),
            ("Vendor".to_string(), "Kokoro".to_string()),
            ("Language".to_string(), "409".to_string()),
        ]
    );
}

#[test]
fn known_tokens() {
    for t in ["KokoroHeart", "KokoroBella", "KokoroMichael", "KokoroEmma"] {
        assert!(is_known_token(t));
    }
    for t in ["", "Kokoro", "kokoroheart", "KokoroHeart ", "Microsoft David"] {
        assert!(!is_known_token(t));
    }
    assert_eq!(available_tokens(), "KokoroHeart, KokoroBella, KokoroMichael, KokoroEmma");
}

#[test]
fn default_token_ids() {
    assert_eq!(
        sapi_default_token_id("KokoroBella"),
        "HKEY_CURRENT_USER\\SOFTWARE\\Microsoft\\Speech\\Voices\\Tokens\\KokoroBella"
    );
    assert_eq!(
        onecore_default_token_id("KokoroEmma"),
        "HKEY_LOCAL_MACHINE\\SOFTWARE\\Microsoft\\Speech_OneCore\\Voices\\Tokens\\KokoroEmma"
    );
}

#[test]
fn unregister_recognizes_what_set_default_wrote() {
    for v in voices() {
        assert!(points_at_kokoro_token(&sapi_default_token_id(v.token)));
        assert!(points_at_kokoro_token(&onecore_default_token_id(v.token)));
    }
    assert!(!points_at_kokoro_token(
        "HKEY_LOCAL_MACHINE\\SOFTWARE\\Microsoft\\Speech\\Voices\\Tokens\\TTS_MS_EN-US_ZIRA_11.0"
    ));
    assert!(!points_at_kokoro_token(""));
    assert_eq!(KOKORO_TOKEN_MARKER, "\\Tokens\\Kokoro");
    assert_eq!(SAPI_VOICES, "SOFTWARE\\Microsoft\\Speech\\Voices");
    assert_eq!(ONECORE_VOICES, "SOFTWARE\\Microsoft\\Speech_OneCore\\Voices");
}
