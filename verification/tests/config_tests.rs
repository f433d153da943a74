use kokoro_sapi::config::{assets_dir, AssetsDir, ASSETS_FOLDER};

fn s(x: &str) -> Option<String> {
    Some(x.to_string())
}

#[test]
fn token_value_comes_first() {
    let d = assets_dir(s("D:\\voices"), s("E:\\env"), s("C:\\Users\\me\\AppData\\Local"));
    assert!(matches!(d, AssetsDir::Given(ref p) if p == "D:\\voices"));
}

#[test]
fn empty_token_value_is_ignored() {
    let d = assets_dir(s(""), s("E:\\env"), s("C:\\L"));
    assert!(matches!(d, AssetsDir::Given(ref p) if p == "E:\\env"));
}

#[test]
fn default_install_location() {
    let d = assets_dir(None, s(""), s("C:\\L"));
    assert!(matches!(d, AssetsDir::InBase(ref p) if p == "C:\\L"));
    let d = assets_dir(None, None, None);
    assert!(matches!(d, AssetsDir::InBase(ref p) if p == "."));
    let d = assets_dir(None, None, s(""));
    assert!(matches!(d, AssetsDir::InBase(ref p) if p.is_empty()));
    assert_eq!(ASSETS_FOLDER, "KokoroSapi");
}
