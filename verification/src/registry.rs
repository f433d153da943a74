//! The registry layout of the voice: COM class, SAPI and OneCore voice
//! tokens, default voice.
//!
//! - COM class: `HKCU\Software\Classes\CLSID\{clsid}` (per user, no admin)
//! - Voice tokens: under HKCU SAPI always; under HKLM SAPI and HKLM OneCore
//!   through the elevated machine step (Chrome only reads the OneCore list)
//! - Defaults: `DefaultTokenId` under HKCU `Speech\Voices` (classic SAPI) and
//!   HKCU `Speech_OneCore\Voices` (Chrome picks the default OneCore token)
//!
//! This module computes the key paths and values; writing them is the
//! setup program's part.

use vstd::prelude::*;

use crate::text::{has_infix, push_str, str_contains, str_eq};

verus! {

/// A voice that the engine offers.
#[derive(Clone, Copy, Debug)]
pub struct VoiceDef {
    /// The name of its registry token.
    pub token: &'static str,
    /// The name shown to users.
    pub display: &'static str,
    /// The Kokoro voice whose style file it uses.
    pub voice_name: &'static str,
    pub gender: &'static str,
    /// LANGID hex string: 409 = en-US, 809 = en-GB.
    pub language: &'static str,
}

/// Where classic SAPI lists voice tokens.
pub const SAPI_TOKENS: &'static str = "SOFTWARE\\Microsoft\\Speech\\Voices\\Tokens";

/// Where OneCore lists voice tokens (the list Chrome reads).
pub const ONECORE_TOKENS: &'static str = "SOFTWARE\\Microsoft\\Speech_OneCore\\Voices\\Tokens";

/// The key under which classic SAPI keeps the per-user default voice.
pub const SAPI_VOICES: &'static str = "SOFTWARE\\Microsoft\\Speech\\Voices";

/// The key under which OneCore keeps the per-user default voice.
pub const ONECORE_VOICES: &'static str = "SOFTWARE\\Microsoft\\Speech_OneCore\\Voices";

/// The part of a `DefaultTokenId` value that marks one of this engine's tokens.
pub const KOKORO_TOKEN_MARKER: &'static str = "\\Tokens\\Kokoro";

/// The voices, in the order they are registered.
pub open spec fn spec_voices() -> Seq<VoiceDef> {
    seq![
        VoiceDef {
            token: "KokoroHeart",
            display: "Kokoro Heart (en-US)",
            voice_name: "af_heart",
            gender: "Female",
            language: "409",
        },
        VoiceDef {
            token: "KokoroBella",
            display: "Kokoro Bella (en-US)",
            voice_name: "af_bella",
            gender: "Female",
            language: "409",
        },
        VoiceDef {
            token: "KokoroMichael",
            display: "Kokoro Michael (en-US)",
            voice_name: "am_michael",
            gender: "Male",
            language: "409",
        },
        VoiceDef {
            token: "KokoroEmma",
            display: "Kokoro Emma (en-GB)",
            voice_name: "bf_emma",
            gender: "Female",
            language: "809",
        },
    ]
}

/// The voices, in the order they are registered.
pub fn voices() -> (r: Vec<VoiceDef>)
    ensures
        r@ == spec_voices(),
{
    let r = vec![
        VoiceDef {
            token: "KokoroHeart",
            display: "Kokoro Heart (en-US)",
            voice_name: "af_heart",
            gender: "Female",
            language: "409",
        },
        VoiceDef {
            token: "KokoroBella",
            display: "Kokoro Bella (en-US)",
            voice_name: "af_bella",
            gender: "Female",
            language: "409",
        },
        VoiceDef {
            token: "KokoroMichael",
            display: "Kokoro Michael (en-US)",
            voice_name: "am_michael",
            gender: "Male",
            language: "409",
        },
        VoiceDef {
            token: "KokoroEmma",
            display: "Kokoro Emma (en-GB)",
            voice_name: "bf_emma",
            gender: "Female",
            language: "809",
        },
    ];
    assert(r@ =~= spec_voices());
    r
}

/// A value to write under a registry key: its name and its string data.
#[derive(Debug)]
pub struct RegValue {
    pub name: String,
    pub data: String,
}

/// The abstract form of a registry value: name and data.
pub open spec fn reg_value_view(v: RegValue) -> (Seq<char>, Seq<char>) {
    (v.name@, v.data@)
}

/// The abstract form of a list of registry values.
pub open spec fn reg_values_view(vs: Seq<RegValue>) -> Seq<(Seq<char>, Seq<char>)> {
    vs.map_values(|v: RegValue| reg_value_view(v))
}

/// The path of the subkey `child` of `parent`.
pub open spec fn subkey_spec(parent: Seq<char>, child: Seq<char>) -> Seq<char> {
    parent + seq!['\\'] + child
}

/// The path of the subkey `child` of `parent`: `parent\child`.
pub fn subkey(parent: &str, child: &str) -> (r: String)
    ensures
        r@ == subkey_spec(parent@, child@),
{
    let mut s = String::new();
    push_str(&mut s, parent);
    crate::text::push_char(&mut s, '\\');
    push_str(&mut s, child);
    assert(s@ =~= subkey_spec(parent@, child@));
    s
}

/// The key of the COM class with registry-form id `clsid`:
/// `Software\Classes\CLSID\{clsid}` (per user).
pub fn com_class_key(clsid: &str) -> (r: String)
    ensures
        r@ == subkey_spec("Software\\Classes\\CLSID"@, clsid@),
{
    subkey("Software\\Classes\\CLSID", clsid)
}

/// The key that names the engine DLL of the COM class `clsid`:
/// `Software\Classes\CLSID\{clsid}\InprocServer32`.
pub fn inproc_server_key(clsid: &str) -> (r: String)
    ensures
        r@ == subkey_spec(subkey_spec("Software\\Classes\\CLSID"@, clsid@), "InprocServer32"@),
{
    let class_key = com_class_key(clsid);
    subkey(class_key.as_str(), "InprocServer32")
}

/// The key of a voice token under a token list.
pub fn token_key(tokens_path: &str, token: &str) -> (r: String)
    ensures
        r@ == subkey_spec(tokens_path@, token@),
{
    subkey(tokens_path, token)
}

/// The values of a voice token key: the display name as default value, the
/// COM class, the Kokoro voice and the assets directory.
pub open spec fn token_values_spec(v: VoiceDef, clsid: Seq<char>, assets: Seq<char>) -> Seq<
    (Seq<char>, Seq<char>),
> {
    seq![
        (Seq::empty(), v.display@),
        ("CLSID"@, clsid),
        ("VoiceName"@, v.voice_name@),
        ("AssetsDir"@, assets),
    ]
}

/// The values of the `Attributes` subkey of a voice token. Chrome skips
/// tokens without a `Language` attribute.
pub open spec fn token_attributes_spec(v: VoiceDef) -> Seq<(Seq<char>, Seq<char>)> {
    seq![
        ("Name"@, v.display@),
        ("Gender"@, v.gender@),
        ("Age"@, "Adult"@),
        ("Vendor"@, "Kokoro"@),
        ("Language"@, v.language@),
    ]
}

/// A registry value with the given name and data.
fn reg_value(name: &str, data: &str) -> (r: RegValue)
    ensures
        reg_value_view(r) == (name@, data@),
{
    let mut n = String::new();
    push_str(&mut n, name);
    let mut d = String::new();
    push_str(&mut d, data);
    RegValue { name: n, data: d }
}

/// The values of the token key of voice `v`, for the COM class `clsid` and
/// the assets directory `assets`.
pub fn token_values(v: &VoiceDef, clsid: &str, assets: &str) -> (r: Vec<RegValue>)
    ensures
        reg_values_view(r@) == token_values_spec(*v, clsid@, assets@),
{
    let mut r: Vec<RegValue> = Vec::new();
    r.push(reg_value("", v.display));
    r.push(reg_value("CLSID", clsid));
    r.push(reg_value("VoiceName", v.voice_name));
    r.push(reg_value("AssetsDir", assets));
    proof {
        reveal_strlit("");
        assert(""@ =~= Seq::<char>::empty());
    }
    assert(reg_values_view(r@) =~= token_values_spec(*v, clsid@, assets@));
    r
}

/// The values of the `Attributes` subkey of the token of voice `v`.
pub fn token_attributes(v: &VoiceDef) -> (r: Vec<RegValue>)
    ensures
        reg_values_view(r@) == token_attributes_spec(*v),
{
    let mut r: Vec<RegValue> = Vec::new();
    r.push(reg_value("Name", v.display));
    r.push(reg_value("Gender", v.gender));
    r.push(reg_value("Age", "Adult"));
    r.push(reg_value("Vendor", "Kokoro"));
    r.push(reg_value("Language", v.language));
    assert(reg_values_view(r@) =~= token_attributes_spec(*v));
    r
}

/// Whether `t` names one of the voices.
pub open spec fn is_voice_token(t: Seq<char>) -> bool {
    exists|i: int| 0 <= i < spec_voices().len() && #[trigger] spec_voices()[i].token@ == t
}

/// Whether `token` names one of the voices (the only tokens that can become
/// the default voice).
pub fn is_known_token(token: &str) -> (r: bool)
    ensures
        r == is_voice_token(token@),
{
    let vs = voices();
    let mut i: usize = 0;
    while i < vs.len()
        invariant
            vs@ == spec_voices(),
            i <= vs@.len(),
            forall|j: int| 0 <= j < i ==> spec_voices()[j].token@ != token@,
        decreases vs@.len() - i,
    {
        if str_eq(vs[i].token, token) {
            return true;
        }
        i = i + 1;
    }
    false
}

/// `parts` joined with `sep` between consecutive parts.
pub open spec fn join_spec(parts: Seq<Seq<char>>, sep: Seq<char>) -> Seq<char>
    decreases parts.len(),
{
    if parts.len() == 0 {
        Seq::empty()
    } else if parts.len() == 1 {
        parts[0]
    } else {
        join_spec(parts.drop_last(), sep) + sep + parts.last()
    }
}

/// The tokens of the voices, in order.
pub open spec fn voice_tokens() -> Seq<Seq<char>> {
    spec_voices().map_values(|v: VoiceDef| v.token@)
}

/// The tokens of all voices, separated by `, `, for the message that
/// refuses an unknown token.
pub fn available_tokens() -> (r: String)
    ensures
        r@ == join_spec(voice_tokens(), ", "@),
{
    let vs = voices();
    let ghost ts = voice_tokens();
    let mut out = String::new();
    let mut i: usize = 0;
    while i < vs.len()
        invariant
            vs@ == spec_voices(),
            ts == voice_tokens(),
            i <= vs@.len(),
            out@ == join_spec(ts.take(i as int), ", "@),
        decreases vs@.len() - i,
    {
        assert(ts.take(i + 1).drop_last() == ts.take(i as int));
        if i > 0 {
            push_str(&mut out, ", ");
        }
        push_str(&mut out, vs[i].token);
        assert(ts.take(i + 1).last() == vs@[i as int].token@);
        if i == 0 {
            assert(out@ == ts.take(1)[0]);
        }
        i = i + 1;
    }
    assert(ts.take(vs@.len() as int) == ts);
    out
}

/// The `DefaultTokenId` value that makes `token` the classic-SAPI default voice.
pub open spec fn sapi_default_spec(token: Seq<char>) -> Seq<char> {
    subkey_spec(subkey_spec("HKEY_CURRENT_USER"@, SAPI_TOKENS@), token)
}

/// The `DefaultTokenId` value that makes `token` the OneCore default voice.
pub open spec fn onecore_default_spec(token: Seq<char>) -> Seq<char> {
    subkey_spec(subkey_spec("HKEY_LOCAL_MACHINE"@, ONECORE_TOKENS@), token)
}

/// The `DefaultTokenId` value that makes `token` the classic-SAPI default
/// voice: the per-user token key.
pub fn sapi_default_token_id(token: &str) -> (r: String)
    ensures
        r@ == sapi_default_spec(token@),
{
    let list = subkey("HKEY_CURRENT_USER", SAPI_TOKENS);
    subkey(list.as_str(), token)
}

/// The `DefaultTokenId` value that makes `token` the OneCore default voice:
/// the machine-wide token key.
pub fn onecore_default_token_id(token: &str) -> (r: String)
    ensures
        r@ == onecore_default_spec(token@),
{
    let list = subkey("HKEY_LOCAL_MACHINE", ONECORE_TOKENS);
    subkey(list.as_str(), token)
}

/// Whether a `DefaultTokenId` value points at one of this engine's tokens.
pub fn points_at_kokoro_token(default_token_id: &str) -> (r: bool)
    ensures
        r == has_infix(default_token_id@, KOKORO_TOKEN_MARKER@),
{
    str_contains(default_token_id, KOKORO_TOKEN_MARKER)
}

/// Every voice token starts with `Kokoro`.
proof fn lemma_voice_tokens_start_with_kokoro(t: Seq<char>)
    requires
        is_voice_token(t),
    ensures
        "Kokoro"@.is_prefix_of(t),
{
    reveal_strlit("Kokoro");
    reveal_strlit("KokoroHeart");
    reveal_strlit("KokoroBella");
    reveal_strlit("KokoroMichael");
    reveal_strlit("KokoroEmma");
    let i = choose|i: int| 0 <= i < spec_voices().len() && #[trigger] spec_voices()[i].token@ == t;
    assert("Kokoro"@ =~= t.subrange(0, 6));
}

/// What `set_default` writes is what `unregister_user` clears: the
/// `DefaultTokenId` value of every voice, classic SAPI and OneCore, is
/// recognized as pointing at one of this engine's tokens.
pub proof fn lemma_default_token_ids_point_at_kokoro(token: Seq<char>)
    requires
        is_voice_token(token),
    ensures
        has_infix(sapi_default_spec(token), KOKORO_TOKEN_MARKER@),
        has_infix(onecore_default_spec(token), KOKORO_TOKEN_MARKER@),
{
    lemma_voice_tokens_start_with_kokoro(token);
    reveal_strlit("Kokoro");
    reveal_strlit("\\Tokens\\Kokoro");
    reveal_strlit("HKEY_CURRENT_USER");
    reveal_strlit("HKEY_LOCAL_MACHINE");
    reveal_strlit("SOFTWARE\\Microsoft\\Speech\\Voices\\Tokens");
    reveal_strlit("SOFTWARE\\Microsoft\\Speech_OneCore\\Voices\\Tokens");
    let s = sapi_default_spec(token);
    reveal_strlit("\\Tokens");
    assert(KOKORO_TOKEN_MARKER@ =~= "\\Tokens"@ + seq!['\\'] + "Kokoro"@);
    assert(SAPI_TOKENS@.subrange(32, 39) =~= "\\Tokens"@);
    assert(s.subrange(50, 57) =~= SAPI_TOKENS@.subrange(32, 39));
    assert(s.subrange(58, 64) =~= token.subrange(0, 6));
    assert(s.subrange(50, 64) =~= KOKORO_TOKEN_MARKER@);
    assert(crate::text::occurs_at(s, KOKORO_TOKEN_MARKER@, 50));
    let o = onecore_default_spec(token);
    assert(ONECORE_TOKENS@.subrange(40, 47) =~= "\\Tokens"@);
    assert(o.subrange(59, 66) =~= ONECORE_TOKENS@.subrange(40, 47));
    assert(o.subrange(67, 73) =~= token.subrange(0, 6));
    assert(o.subrange(59, 73) =~= KOKORO_TOKEN_MARKER@);
    assert(crate::text::occurs_at(o, KOKORO_TOKEN_MARKER@, 59));
}

/// Every voice's token describes that voice: its `Attributes` carry the
/// voice's own name, gender and language (each attribute of that name, and
/// there is one, has the voice's value), and the token's values carry its
/// display name, its Kokoro voice and the given assets directory.
pub proof fn lemma_attributes_describe_voice(v: VoiceDef, clsid: Seq<char>, assets: Seq<char>)
    ensures
        ({
            let attrs = token_attributes_spec(v);
            &&& exists|k: int| 0 <= k < attrs.len() && attrs[k].0 == "Language"@
            &&& forall|k: int|
                0 <= k < attrs.len() && attrs[k].0 == "Language"@ ==> attrs[k].1 == v.language@
            &&& exists|k: int| 0 <= k < attrs.len() && attrs[k].0 == "Name"@
            &&& forall|k: int| 0 <= k < attrs.len() && attrs[k].0 == "Name"@ ==> attrs[k].1 == v.display@
            &&& exists|k: int| 0 <= k < attrs.len() && attrs[k].0 == "Gender"@
            &&& forall|k: int| 0 <= k < attrs.len() && attrs[k].0 == "Gender"@ ==> attrs[k].1 == v.gender@
        }),
        token_values_spec(v, clsid, assets)[0] == (Seq::<char>::empty(), v.display@),
        token_values_spec(v, clsid, assets)[2] == ("VoiceName"@, v.voice_name@),
        token_values_spec(v, clsid, assets)[3] == ("AssetsDir"@, assets),
{
    reveal_strlit("Name");
    reveal_strlit("Gender");
    reveal_strlit("Age");
    reveal_strlit("Vendor");
    reveal_strlit("Language");
    let attrs = token_attributes_spec(v);
    assert(attrs[4].0 == "Language"@);
    assert(attrs[0].0 == "Name"@);
    assert(attrs[1].0 == "Gender"@);
    assert("Gender"@ != "Vendor"@) by {
        assert("Gender"@[0] != "Vendor"@[0]);
    }
}

/// Each voice's language id agrees with the region in its display name:
/// `409` (en-US) for a name ending in `(en-US)`, `809` (en-GB) for one ending
/// in `(en-GB)`, and every display name ends in one of the two.
pub proof fn lemma_voice_language_matches_display(i: int)
    requires
        0 <= i < spec_voices().len(),
    ensures
        ({
            let v = spec_voices()[i];
            &&& "(en-US)"@.is_suffix_of(v.display@) || "(en-GB)"@.is_suffix_of(v.display@)
            &&& "(en-US)"@.is_suffix_of(v.display@) ==> v.language@ == "409"@
            &&& "(en-GB)"@.is_suffix_of(v.display@) ==> v.language@ == "809"@
        }),
{
    reveal_strlit("(en-US)");
    reveal_strlit("(en-GB)");
    reveal_strlit("409");
    reveal_strlit("809");
    reveal_strlit("Kokoro Heart (en-US)");
    reveal_strlit("Kokoro Bella (en-US)");
    reveal_strlit("Kokoro Michael (en-US)");
    reveal_strlit("Kokoro Emma (en-GB)");
    let d = spec_voices()[i].display@;
    let n = d.len();
    if i == 3 {
        assert("(en-GB)"@ =~= d.subrange(n - 7, n as int));
        assert(!("(en-US)"@ =~= d.subrange(n - 7, n as int))) by {
            assert(d[n - 3] != "(en-US)"@[4]);
        }
    } else {
        assert("(en-US)"@ =~= d.subrange(n - 7, n as int));
        assert(!("(en-GB)"@ =~= d.subrange(n - 7, n as int))) by {
            assert(d[n - 3] != "(en-GB)"@[4]);
        }
    }
}

} // verus!
