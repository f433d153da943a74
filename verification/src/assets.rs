//! The runtime assets and where they come from: the Kokoro model, tokenizer
//! and voice styles from Hugging Face, `onnxruntime.dll` from the Microsoft
//! release zip, and `espeak-ng.dll` with its data from the piper release zip
//! (which bundles a ready-to-use Windows build).

use vstd::prelude::*;

use crate::registry::{spec_voices, voices};
use crate::text::{chars_of, has_infix, matches_at, contains_seq, push_str, string_from_range};

verus! {

/// Where the Kokoro ONNX export is downloaded from.
pub const HF: &'static str = "https://huggingface.co/onnx-community/Kokoro-82M-v1.0-ONNX/resolve/main";

/// The ONNX Runtime release that is installed; 1.26 or later is required,
/// since older releases deadlock in `CreateEnv` on ETW telemetry registration.
pub const ORT_VERSION: &'static str = "1.26.0";

/// The piper release zip that carries a Windows build of espeak-ng.
pub const PIPER_ZIP: &'static str = "https://github.com/rhasspy/piper/releases/download/2023.11.14-2/piper_windows_amd64.zip";

/// The folder of the piper zip that holds espeak-ng.
pub const PIPER_PREFIX: &'static str = "piper/";

/// A file to download: from `url` into the assets directory, inside its
/// `voices` folder when `in_voices` holds, under the name `file`.
#[derive(Debug)]
pub struct Download {
    pub url: String,
    pub in_voices: bool,
    pub file: String,
}

/// The abstract form of a download: url, whether it goes to `voices`, file name.
pub open spec fn download_view(d: Download) -> (Seq<char>, bool, Seq<char>) {
    (d.url@, d.in_voices, d.file@)
}

/// The abstract form of a list of downloads.
pub open spec fn downloads_view(ds: Seq<Download>) -> Seq<(Seq<char>, bool, Seq<char>)> {
    ds.map_values(|d: Download| download_view(d))
}

/// The model file of the export: the quantized one (about 150 MB) or the
/// full one (about 400 MB).
pub open spec fn model_file_spec(quantized: bool) -> Seq<char> {
    if quantized {
        "model_quantized.onnx"@
    } else {
        "model.onnx"@
    }
}

/// The url of the voice style file of the Kokoro voice `voice_name`.
pub open spec fn voice_url_spec(voice_name: Seq<char>) -> Seq<char> {
    HF@ + "/voices/"@ + voice_name + ".bin"@
}

/// The files of the Kokoro export to download, in order: the model (saved as
/// `model.onnx` either way), the tokenizer, then the style file of every voice.
pub open spec fn asset_downloads_spec(quantized: bool) -> Seq<(Seq<char>, bool, Seq<char>)> {
    seq![
        (HF@ + "/onnx/"@ + model_file_spec(quantized), false, "model.onnx"@),
        (HF@ + "/tokenizer.json"@, false, "tokenizer.json"@),
    ] + spec_voices().map_values(
        |v: crate::registry::VoiceDef|
            (voice_url_spec(v.voice_name@), true, v.voice_name@ + ".bin"@),
    )
}

/// A `String` with the characters of `s`.
fn owned(s: &str) -> (r: String)
    ensures
        r@ == s@,
{
    let mut r = String::new();
    push_str(&mut r, s);
    r
}

/// The files of the Kokoro export to download: the model (the quantized one
/// when `quantized` holds, saved as `model.onnx` either way), the tokenizer,
/// and the style file of every registered voice.
pub fn asset_downloads(quantized: bool) -> (r: Vec<Download>)
    ensures
        downloads_view(r@) == asset_downloads_spec(quantized),
{
    let mut out: Vec<Download> = Vec::new();
    let mut model_url = owned(HF);
    push_str(&mut model_url, "/onnx/");
    if quantized {
        push_str(&mut model_url, "model_quantized.onnx");
    } else {
        push_str(&mut model_url, "model.onnx");
    }
    out.push(Download { url: model_url, in_voices: false, file: owned("model.onnx") });
    let mut tokenizer_url = owned(HF);
    push_str(&mut tokenizer_url, "/tokenizer.json");
    out.push(Download { url: tokenizer_url, in_voices: false, file: owned("tokenizer.json") });
    let ghost head = downloads_view(out@);
    let ghost tail = spec_voices().map_values(
        |v: crate::registry::VoiceDef|
            (voice_url_spec(v.voice_name@), true, v.voice_name@ + ".bin"@),
    );
    assert(head =~= asset_downloads_spec(quantized).take(2));
    let vs = voices();
    let mut i: usize = 0;
    while i < vs.len()
        invariant
            vs@ == spec_voices(),
            i <= vs@.len(),
            tail == spec_voices().map_values(
                |v: crate::registry::VoiceDef|
                    (voice_url_spec(v.voice_name@), true, v.voice_name@ + ".bin"@),
            ),
            downloads_view(out@) == head + tail.take(i as int),
        decreases vs@.len() - i,
    {
        let name = vs[i].voice_name;
        let mut url = owned(HF);
        push_str(&mut url, "/voices/");
        push_str(&mut url, name);
        push_str(&mut url, ".bin");
        let mut file = owned(name);
        push_str(&mut file, ".bin");
        let ghost before = out@;
        let d = Download { url, in_voices: true, file };
        assert(download_view(d) == tail[i as int]);
        out.push(d);
        assert(out@ == before.push(d));
        assert(downloads_view(out@) =~= downloads_view(before).push(download_view(d)));
        assert(tail.take(i + 1) =~= tail.take(i as int).push(tail[i as int]));
        assert(downloads_view(out@) =~= head + tail.take(i + 1));
        i = i + 1;
    }
    assert(tail.take(vs@.len() as int) =~= tail);
    assert(downloads_view(out@) =~= asset_downloads_spec(quantized));
    out
}

/// The download list follows the voice list: the style file of every
/// registered voice is downloaded into the `voices` folder.
pub proof fn lemma_every_voice_downloaded(quantized: bool, i: int)
    requires
        0 <= i < spec_voices().len(),
    ensures
        asset_downloads_spec(quantized)[i + 2] == (
            voice_url_spec(spec_voices()[i].voice_name@),
            true,
            spec_voices()[i].voice_name@ + ".bin"@,
        ),
        asset_downloads_spec(quantized).len() == spec_voices().len() + 2,
{
}

/// Every voice that the registry announces can be spoken: the `VoiceName`
/// value of its token names a Kokoro voice whose style file is downloaded
/// into the `voices` folder under exactly the name the engine reads.
pub proof fn lemma_registered_voices_have_style_files(
    quantized: bool,
    i: int,
    clsid: Seq<char>,
    assets: Seq<char>,
)
    requires
        0 <= i < spec_voices().len(),
    ensures
        ({
            let name = crate::registry::token_values_spec(spec_voices()[i], clsid, assets)[2];
            let d = asset_downloads_spec(quantized)[i + 2];
            &&& name.0 == "VoiceName"@
            &&& d.1
            &&& d.2 == crate::voices::voice_file_name_spec(name.1)
        }),
{
    reveal_strlit(".bin");
    let n = spec_voices()[i].voice_name@;
    assert(crate::voices::voice_file_name_spec(n) =~= n + ".bin"@);
}

/// Whether `file` is the style file name `<voice>.bin` of a registered voice.
pub open spec fn is_voice_style_file(file: Seq<char>) -> bool {
    exists|i: int| 0 <= i < spec_voices().len() && file == #[trigger] spec_voices()[i].voice_name@ + ".bin"@
}

/// A file name that ends otherwise than `.bin` is no voice's style file.
proof fn lemma_not_style_file(file: Seq<char>, k: int)
    requires
        4 <= file.len(),
        k == file.len() - 4,
        file[k] != '.',
    ensures
        !is_voice_style_file(file),
{
    reveal_strlit(".bin");
    if is_voice_style_file(file) {
        let i = choose|i: int|
            0 <= i < spec_voices().len() && file == #[trigger] spec_voices()[i].voice_name@ + ".bin"@;
        let n = spec_voices()[i].voice_name@;
        assert((n + ".bin"@)[k] == '.');
    }
}

/// Only voice style files go into the `voices` folder: a download goes there
/// exactly when its file is a registered voice's `<voice>.bin`. The model and
/// the tokenizer are downloaded, into the assets directory itself.
pub proof fn lemma_only_style_files_in_voices(quantized: bool)
    ensures
        ({
            let ds = asset_downloads_spec(quantized);
            &&& forall|k: int| 0 <= k < ds.len() ==> (#[trigger] ds[k].1 <==> is_voice_style_file(ds[k].2))
            &&& exists|k: int| 0 <= k < ds.len() && ds[k].2 == "model.onnx"@ && !ds[k].1
            &&& exists|k: int| 0 <= k < ds.len() && ds[k].2 == "tokenizer.json"@ && !ds[k].1
        }),
{
    reveal_strlit("model.onnx");
    reveal_strlit("tokenizer.json");
    let ds = asset_downloads_spec(quantized);
    lemma_not_style_file("model.onnx"@, 6);
    lemma_not_style_file("tokenizer.json"@, 10);
    assert forall|k: int| 0 <= k < ds.len() implies (#[trigger] ds[k].1 <==> is_voice_style_file(ds[k].2)) by {
        if k >= 2 {
            lemma_every_voice_downloaded(quantized, k - 2);
            assert(ds[k].2 == spec_voices()[k - 2].voice_name@ + ".bin"@);
        }
    }
    assert(ds[0].2 == "model.onnx"@ && !ds[0].1);
    assert(ds[1].2 == "tokenizer.json"@ && !ds[1].1);
}

/// The url of the ONNX Runtime release zip for Windows x64.
pub open spec fn ort_zip_url_spec() -> Seq<char> {
    "https://github.com/microsoft/onnxruntime/releases/download/v"@ + ORT_VERSION@
        + "/onnxruntime-win-x64-"@ + ORT_VERSION@ + ".zip"@
}

/// The url of the ONNX Runtime release zip for Windows x64.
pub fn ort_zip_url() -> (r: String)
    ensures
        r@ == ort_zip_url_spec(),
{
    let mut s = owned("https://github.com/microsoft/onnxruntime/releases/download/v");
    push_str(&mut s, ORT_VERSION);
    push_str(&mut s, "/onnxruntime-win-x64-");
    push_str(&mut s, ORT_VERSION);
    push_str(&mut s, ".zip");
    s
}

/// The folder of the ONNX Runtime zip that holds the DLLs.
pub fn ort_lib_prefix() -> (r: String)
    ensures
        r@ == "onnxruntime-win-x64-"@ + ORT_VERSION@ + "/lib/"@,
{
    let mut s = owned("onnxruntime-win-x64-");
    push_str(&mut s, ORT_VERSION);
    push_str(&mut s, "/lib/");
    s
}

/// The DLLs taken from the ONNX Runtime zip; the second one may be absent.
pub fn ort_files() -> (r: Vec<&'static str>)
    ensures
        r@ == seq!["onnxruntime.dll", "onnxruntime_providers_shared.dll"],
{
    let r = vec!["onnxruntime.dll", "onnxruntime_providers_shared.dll"];
    assert(r@ =~= seq!["onnxruntime.dll", "onnxruntime_providers_shared.dll"]);
    r
}

/// What is taken from the piper zip: `espeak-ng.dll` and the whole
/// `espeak-ng-data/` tree.
pub fn espeak_patterns() -> (r: Vec<&'static str>)
    ensures
        r@ == seq!["espeak-ng.dll", "espeak-ng-data/"],
{
    let r = vec!["espeak-ng.dll", "espeak-ng-data/"];
    assert(r@ =~= seq!["espeak-ng.dll", "espeak-ng-data/"]);
    r
}

/// Whether the path `rel` is selected by `pattern`: a pattern that ends in
/// `/` selects the whole tree below it, any other pattern that one path.
pub open spec fn pattern_selects(pattern: Seq<char>, rel: Seq<char>) -> bool {
    if pattern.len() > 0 && pattern.last() == '/' {
        pattern.is_prefix_of(rel)
    } else {
        rel == pattern
    }
}

/// Whether some pattern selects `rel`.
pub open spec fn any_pattern_selects(patterns: Seq<Seq<char>>, rel: Seq<char>) -> bool {
    exists|i: int| 0 <= i < patterns.len() && pattern_selects(#[trigger] patterns[i], rel)
}

/// The views of a list of string slices.
pub open spec fn strs_view(v: Seq<&str>) -> Seq<Seq<char>> {
    v.map_values(|s: &str| s@)
}

/// Where the zip entry `name` is extracted to, relative to the assets
/// directory: its path below `prefix`, if it is below `prefix`, selected by a
/// pattern and free of `..`; otherwise it is skipped.
pub open spec fn tree_target_spec(name: Seq<char>, prefix: Seq<char>, patterns: Seq<Seq<char>>) -> Option<
    Seq<char>,
> {
    if prefix.is_prefix_of(name) {
        let rel = name.skip(prefix.len() as int);
        if any_pattern_selects(patterns, rel) && !has_infix(rel, ".."@) {
            Some(rel)
        } else {
            None
        }
    } else {
        None
    }
}

/// The view of an optional string.
pub open spec fn opt_string_view(s: Option<String>) -> Option<Seq<char>> {
    match s {
        Some(s) => Some(s@),
        None => None,
    }
}

/// Whether `pattern` selects `rel`.
fn selects(pattern: &str, rel: &Vec<char>) -> (r: bool)
    ensures
        r == pattern_selects(pattern@, rel@),
{
    let p = chars_of(pattern);
    if p.len() > 0 && p[p.len() - 1] == '/' {
        matches_at(rel, &p, 0)
    } else {
        if p.len() != rel.len() {
            return false;
        }
        let r = matches_at(rel, &p, 0);
        assert(rel@.subrange(0, p@.len() as int) == rel@);
        r
    }
}

/// Where the zip entry `name` is extracted to, relative to the assets
/// directory, keeping its path below `prefix`; `None` when the entry is not
/// below `prefix`, no pattern selects it, or its path holds `..`.
pub fn tree_entry_target(name: &str, prefix: &str, patterns: &[&str]) -> (r: Option<String>)
    ensures
        opt_string_view(r) == tree_target_spec(name@, prefix@, strs_view(patterns@)),
{
    let n = chars_of(name);
    let p = chars_of(prefix);
    if !matches_at(&n, &p, 0) {
        return None;
    }
    let rel = string_from_range(&n, p.len(), n.len());
    let rv = chars_of(rel.as_str());
    assert(rv@ == name@.skip(prefix@.len() as int));
    let ghost ps = strs_view(patterns@);
    let mut selected = false;
    let mut i: usize = 0;
    while i < patterns.len()
        invariant
            i <= patterns@.len(),
            ps == strs_view(patterns@),
            selected == exists|j: int| 0 <= j < i && pattern_selects(#[trigger] ps[j], rv@),
        decreases patterns@.len() - i,
    {
        assert(ps[i as int] == patterns@[i as int]@);
        if selects(patterns[i], &rv) {
            selected = true;
        }
        i = i + 1;
    }
    let dots = chars_of("..");
    if !selected || contains_seq(&rv, &dots) {
        return None;
    }
    Some(rel)
}

/// An entry that is extracted lands below the assets directory: its target
/// never holds `..`, and it is the entry's own path with `prefix` removed.
pub proof fn lemma_tree_target_stays_inside(name: Seq<char>, prefix: Seq<char>, patterns: Seq<Seq<char>>)
    requires
        tree_target_spec(name, prefix, patterns) is Some,
    ensures
        !has_infix(tree_target_spec(name, prefix, patterns)->Some_0, ".."@),
        prefix + tree_target_spec(name, prefix, patterns)->Some_0 == name,
{
    let rel = tree_target_spec(name, prefix, patterns)->Some_0;
    assert(prefix + rel =~= name);
}

} // verus!
