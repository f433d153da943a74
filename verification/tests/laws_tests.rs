use kokoro_sapi::assets::asset_downloads;
use kokoro_sapi::cli::DEFAULT_TOKEN;
use kokoro_sapi::guid::Guid;
use kokoro_sapi::registry::{is_known_token, token_values, voices};
use kokoro_sapi::voices::voice_file_name;

#[test]
fn default_token_is_a_registered_voice() {
    assert!(is_known_token(DEFAULT_TOKEN));
}

#[test]
fn registered_voices_have_their_style_files_downloaded() {
    let downloads = asset_downloads(false);
    for (i, v) in voices().iter().enumerate() {
        let values = token_values(v, "{C}", "A");
        assert_eq!(values[2].name, "VoiceName");
        let d = &downloads[i + 2];
        assert!(d.in_voices);
        assert_eq!(d.file, voice_file_name(&values[2].data));
    }
}

#[test]
fn registry_forms_of_different_guids_differ() {
    let a = Guid::from_u128(0x1111_2222_3333_4444_5555_6666_7777_8888);
    let b = Guid::from_u128(0x1111_2222_3333_4444_5555_6666_7777_8889);
    assert_ne!(a.registry_form(), b.registry_form());
    let c = Guid::from_u128(0x1111_2222_3333_4444_5555_6666_7777_8888);
    assert_eq!(a.registry_form(), c.registry_form());
}
