use kokoro_sapi::assets::{asset_downloads, espeak_patterns, ort_files, ort_lib_prefix, ort_zip_url, tree_entry_target, PIPER_PREFIX, PIPER_ZIP};

const HF_BASE: &str = "https://huggingface.co/onnx-community/Kokoro-82M-v1.0-ONNX/resolve/main";

#[test]
fn export_downloads() {
    let d = asset_downloads(false);
    assert_eq!(d.len(), 6);
    assert_eq!(d[0].url, format!("{HF_BASE}/onnx/model.onnx"));
    assert_eq!((d[0].in_voices, d[0].file.as_str()), (false, "model.onnx"));
    assert_eq!(d[1].url, format!("{HF_BASE}/tokenizer.json"));
    assert_eq!(d[1].file, "tokenizer.json");
    assert_eq!(d[2].url, format!("{HF_BASE}/voices/af_heart.bin"));
    assert_eq!((d[2].in_voices, d[2].file.as_str()), (true, "af_heart.bin"));
    assert_eq!(d[5].url, format!("{HF_BASE}/voices/bf_emma.bin"));
    let q = asset_downloads(true);
    assert_eq!(q[0].url, format!("{HF_BASE}/onnx/model_quantized.onnx"));
    assert_eq!(q[0].file, "model.onnx");
}

#[test]
fn ort_release() {
    assert_eq!(
        ort_zip_url(),
        "https://github.com/microsoft/onnxruntime/releases/download/v1.26.0/onnxruntime-win-x64-1.26.0.zip"
    );
    assert_eq!(ort_lib_prefix(), "onnxruntime-win-x64-1.26.0/lib/");
    assert_eq!(ort_files(), vec!["onnxruntime.dll", "onnxruntime_providers_shared.dll"]);
    assert_eq!(espeak_patterns(), vec!["espeak-ng.dll", "espeak-ng-data/"]);
    assert_eq!(PIPER_PREFIX, "piper/");
    assert!(PIPER_ZIP.ends_with("piper_windows_amd64.zip"));
}

#[test]
fn tree_entries() {
    let pats = espeak_patterns();
    assert_eq!(tree_entry_target("piper/espeak-ng.dll", "piper/", &pats).as_deref(), Some("espeak-ng.dll"));
    assert_eq!(
        tree_entry_target("piper/espeak-ng-data/voices/en", "piper/", &pats).as_deref(),
        Some("espeak-ng-data/voices/en")
    );
    assert_eq!(tree_entry_target("piper/piper.exe", "piper/", &pats), None);
    assert_eq!(tree_entry_target("other/espeak-ng.dll", "piper/", &pats), None);
    assert_eq!(tree_entry_target("piper/espeak-ng.dll.bak", "piper/", &pats), None);
    assert_eq!(tree_entry_target("piper/espeak-ng-data/../../evil", "piper/", &pats), None);
    assert_eq!(tree_entry_target("piper/espeak-ng-data", "piper/", &pats), None);
    assert_eq!(tree_entry_target("piper/", "piper/", &pats), None);
}
