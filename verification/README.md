# kokoro_sapi

Kokoro neural text-to-speech as a Windows SAPI5 voice, split into a verified
core and the code that touches the machine.

## `src/`: the verified library (Verus)

| module      | what it decides |
|-------------|-----------------|
| `tokenizer` | phoneme character to token id; building the vocabulary from `tokenizer.json` (parsed by `serde_json`) |
| `voices`    | the voice bank: whole-row voice files, the style row selected by the token count |
| `g2p`       | assembling espeak-ng's clauses into phonemes, re-appending the final punctuation mark |
| `synth`     | which ONNX inputs take ids, style and speed; the token ids the model receives (at most 510, zero-padded) |
| `guid`      | the engine's COM class id, its registry form, the `DllGetClassObject` decision |
| `config`    | where the assets live: voice token, `KOKORO_SAPI_ASSETS`, or `%LOCALAPPDATA%\KokoroSapi` |
| `registry`  | the voices, registry key paths, token values, default-voice values |
| `assets`    | what is downloaded from where; which zip entries are extracted and where |
| `cli`       | the setup program's command line and install decisions |
| `text`      | character-level helpers: white space, trimming, substring search |

Every public function states its result exactly in its `ensures`; the
`lemma_*` proof functions state the laws that tie functions together (what
`set_default` writes is what uninstall recognizes, every registered voice has
its style file downloaded, the registry form of a GUID identifies it, ...).

## `app/`: the rest (ordinary Rust)

File and registry I/O, espeak-ng through `libloading`, ONNX Runtime through
`ort` (which runs on `f32` tensors), UAC elevation through `windows`, and the
setup program's console. It hands the library plain values and acts on what
comes back.
