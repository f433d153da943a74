//! Phoneme to token-id mapping, read from the `model.vocab` object of the
//! Hugging Face `tokenizer.json` that ships with the Kokoro ONNX export
//! (each phoneme character maps to an id).

use std::collections::HashMap;

use vstd::prelude::*;

use crate::text::chars_of;

verus! {

broadcast use vstd::std_specs::hash::group_hash_axioms;

/// The one character of `s`, if `s` holds exactly one character.
pub open spec fn spec_single_char(s: Seq<char>) -> Option<char> {
    if s.len() == 1 {
        Some(s[0])
    } else {
        None
    }
}

/// Returns the character of `s` when `s` is exactly one character long.
pub fn single_char(s: &str) -> (r: Option<char>)
    ensures
        r == spec_single_char(s@),
{
    broadcast use vstd::string::group_string_axioms;

    let mut it = s.chars();
    let first = it.next();
    match first {
        None => None,
        Some(c) => {
            let second = it.next();
            match second {
                None => Some(c),
                Some(_) => None,
            }
        },
    }
}

/// Why a vocabulary could not be built.
#[derive(Debug)]
pub enum TokenizerError {
    /// The document is not JSON; the text is the parser's message.
    InvalidJson(String),
    /// The document has no object at `model.vocab`.
    NoVocab,
    /// No entry of `model.vocab` maps a single character to an integer id.
    EmptyVocab,
}

/// A phoneme tokenizer: each phoneme character (keyed by its code point)
/// maps to a token id.
pub struct Tokenizer {
    vocab: HashMap<u32, i64>,
}

impl View for Tokenizer {
    type V = Map<u32, i64>;

    closed spec fn view(&self) -> Map<u32, i64> {
        self.vocab@
    }
}

/// The ids of the characters of `s` that the vocabulary knows, in order;
/// characters outside the vocabulary are dropped.
pub open spec fn encode_seq(vocab: Map<u32, i64>, s: Seq<char>) -> Seq<i64>
    decreases s.len(),
{
    if s.len() == 0 {
        Seq::empty()
    } else {
        let rest = encode_seq(vocab, s.drop_last());
        let c = s.last();
        if vocab.contains_key(c as u32) {
            rest.push(vocab[c as u32])
        } else {
            rest
        }
    }
}

/// The abstract form of vocabulary entries: key characters and integer value, if any.
pub open spec fn entries_view(es: Seq<(String, Option<i64>)>) -> Seq<(Seq<char>, Option<i64>)> {
    es.map_values(|e: (String, Option<i64>)| (e.0@, e.1))
}

/// The vocabulary that a sequence of `model.vocab` entries describes: every
/// entry whose key is a single character and whose value is an integer sets
/// that character's id, later entries overriding earlier ones; other entries
/// are skipped.
pub open spec fn vocab_of(es: Seq<(Seq<char>, Option<i64>)>) -> Map<u32, i64>
    decreases es.len(),
{
    if es.len() == 0 {
        Map::empty()
    } else {
        let m = vocab_of(es.drop_last());
        let e = es.last();
        match (spec_single_char(e.0), e.1) {
            (Some(c), Some(id)) => m.insert(c as u32, id),
            _ => m,
        }
    }
}

/// The entries of an optional JSON object, in their abstract form.
pub open spec fn entries_option_view(o: Option<Vec<(String, Option<i64>)>>) -> Option<
    Seq<(Seq<char>, Option<i64>)>,
> {
    match o {
        Some(es) => Some(entries_view(es@)),
        None => None,
    }
}

/// No key occurs twice among the entries.
pub open spec fn keys_distinct(es: Seq<(Seq<char>, Option<i64>)>) -> bool {
    forall|i: int, j: int| 0 <= i < j < es.len() ==> #[trigger] es[i].0 != #[trigger] es[j].0
}

/// Trusted: `serde_json::Error`, the error of a failed parse, carried through opaquely.
#[verifier::external_type_specification]
#[verifier::external_body]
pub struct ExJsonError(serde_json::Error);

/// Whether `serde_json` accepts `raw` as one JSON document (a function of the
/// text alone).
pub uninterp spec fn json_text_parses(raw: Seq<char>) -> bool;

/// For a text that `serde_json` accepts: the entries of the object that the
/// JSON pointer `pointer` addresses in it, each key with its value read as an
/// `i64` (`None` where the value is not an integer that fits), in the order in
/// which `serde_json` iterates the object; `None` where the pointer addresses
/// nothing or something other than an object. A function of the text and the
/// pointer alone.
pub uninterp spec fn json_object_entries_at(raw: Seq<char>, pointer: Seq<char>) -> Option<
    Seq<(Seq<char>, Option<i64>)>,
>;

/// Parses `raw` as a JSON document and reads the object that the JSON pointer
/// `pointer` addresses in it.
///
/// Trusted: calls `serde_json::from_str::<serde_json::Value>`, then
/// `Value::pointer` and `Value::as_object` on the result, and hands out each
/// entry of the object (`Map::iter`) as its key and `Value::as_i64` of its
/// value. The parse succeeds or fails by the text alone
/// (`json_text_parses`); the entries are named (`json_object_entries_at`), a
/// function of the text and the pointer. Keys are distinct, as in any
/// `serde_json::Map`. Not stated: that the entries come in key order (the map
/// is a `BTreeMap` in this build), which no caller needs.
#[verifier::external_body]
fn json_object_at(raw: &str, pointer: &str) -> (r: Result<Option<Vec<(String, Option<i64>)>>, serde_json::Error>)
    ensures
        r is Ok <==> json_text_parses(raw@),
        r matches Ok(o) ==> entries_option_view(o) == json_object_entries_at(raw@, pointer@),
        r matches Ok(Some(es)) ==> keys_distinct(entries_view(es@)),
{
    let v: serde_json::Value = serde_json::from_str(raw)?;
    let Some(m) = v.pointer(pointer).and_then(serde_json::Value::as_object) else {
        return Ok(None);
    };
    Ok(Some(m.iter().map(|(k, x)| (k.clone(), x.as_i64())).collect()))
}

/// The message of a JSON parse error.
///
/// Trusted: formats the error with its `Display` impl. Nothing is claimed of the text.
#[verifier::external_body]
fn json_error_text(e: &serde_json::Error) -> (r: String) {
    format!("{e}")
}

impl Tokenizer {
    /// Builds the vocabulary from the entries of a `model.vocab` object:
    /// single-character keys with integer values become ids, the rest are
    /// skipped. Fails when nothing is left.
    pub fn from_vocab_entries(entries: &Vec<(String, Option<i64>)>) -> (r: Result<
        Tokenizer,
        TokenizerError,
    >)
        ensures
            match r {
                Ok(t) => t@ == vocab_of(entries_view(entries@)) && !t@.is_empty(),
                Err(e) => e is EmptyVocab && vocab_of(entries_view(entries@)).is_empty(),
            },
    {
        let ghost es = entries_view(entries@);
        let mut vocab: HashMap<u32, i64> = HashMap::new();
        let mut i: usize = 0;
        while i < entries.len()
            invariant
                i <= entries@.len(),
                es == entries_view(entries@),
                vocab@ == vocab_of(es.take(i as int)),
            decreases entries@.len() - i,
        {
            assert(es.take(i + 1).drop_last() == es.take(i as int));
            let key = single_char(entries[i].0.as_str());
            let value = entries[i].1;
            match (key, value) {
                (Some(c), Some(id)) => {
                    vocab.insert(c as u32, id);
                },
                _ => {},
            }
            i = i + 1;
        }
        assert(es.take(entries@.len() as int) == es);
        if vocab.is_empty() {
            Err(TokenizerError::EmptyVocab)
        } else {
            Ok(Tokenizer { vocab })
        }
    }

    /// Builds the vocabulary from the text of a `tokenizer.json` document,
    /// from the entries of its `model.vocab` object.
    ///
    /// Fails with `InvalidJson` when `serde_json` refuses the text, with
    /// `NoVocab` when the document has no object at `/model/vocab`, and with
    /// `EmptyVocab` when no entry of that object gives a vocabulary entry;
    /// otherwise the vocabulary is the one those entries describe
    /// (`vocab_of`, as for `from_vocab_entries`).
    pub fn from_json(raw: &str) -> (r: Result<Tokenizer, TokenizerError>)
        ensures
            !json_text_parses(raw@) ==> r matches Err(TokenizerError::InvalidJson(_)),
            json_text_parses(raw@) ==> match json_object_entries_at(raw@, "/model/vocab"@) {
                None => r matches Err(TokenizerError::NoVocab),
                Some(es) => if vocab_of(es).is_empty() {
                    r matches Err(TokenizerError::EmptyVocab)
                } else {
                    r matches Ok(t) && t@ == vocab_of(es)
                },
            },
    {
        match json_object_at(raw, "/model/vocab") {
            Err(e) => Err(TokenizerError::InvalidJson(json_error_text(&e))),
            Ok(None) => Err(TokenizerError::NoVocab),
            Ok(Some(entries)) => Self::from_vocab_entries(&entries),
        }
    }

    /// The token ids of `phonemes`, in order. Phonemes outside the
    /// vocabulary are dropped (espeak emits a few symbols that Kokoro was not
    /// trained on, such as ties and stress variants).
    pub fn encode(&self, phonemes: &str) -> (r: Vec<i64>)
        ensures
            r@ == encode_seq(self@, phonemes@),
    {
        let cs = chars_of(phonemes);
        let mut out: Vec<i64> = Vec::new();
        let mut i: usize = 0;
        while i < cs.len()
            invariant
                i <= cs@.len(),
                out@ == encode_seq(self@, cs@.take(i as int)),
            decreases cs@.len() - i,
        {
            assert(cs@.take(i + 1).drop_last() == cs@.take(i as int));
            let code: u32 = cs[i] as u32;
            match self.vocab.get(&code) {
                Some(id) => {
                    out.push(*id);
                },
                None => {},
            }
            i = i + 1;
        }
        assert(cs@.take(cs@.len() as int) == cs@);
        out
    }
}

/// Encoding works character by character: the ids of a concatenation are
/// the ids of its parts, concatenated.
pub proof fn lemma_encode_concat(vocab: Map<u32, i64>, a: Seq<char>, b: Seq<char>)
    ensures
        encode_seq(vocab, a + b) == encode_seq(vocab, a) + encode_seq(vocab, b),
    decreases b.len(),
{
    if b.len() == 0 {
        assert(a + b =~= a);
        assert(encode_seq(vocab, a) + encode_seq(vocab, b) =~= encode_seq(vocab, a));
    } else {
        assert((a + b).drop_last() =~= a + b.drop_last());
        assert((a + b).last() == b.last());
        lemma_encode_concat(vocab, a, b.drop_last());
        let c = b.last();
        if vocab.contains_key(c as u32) {
            assert(encode_seq(vocab, a) + encode_seq(vocab, b) =~= (encode_seq(vocab, a)
                + encode_seq(vocab, b.drop_last())).push(vocab[c as u32]));
        }
    }
}

/// Whether `id` is the vocabulary's id of some character of `s`.
pub open spec fn is_id_of_some_char(vocab: Map<u32, i64>, s: Seq<char>, id: i64) -> bool {
    exists|i: int| 0 <= i < s.len() && vocab.contains_key(#[trigger] s[i] as u32) && vocab[s[i] as u32] == id
}

/// No phoneme yields more than one id, and every id is the vocabulary's id
/// of some phoneme of the input.
pub proof fn lemma_encode_ids_from_vocab(vocab: Map<u32, i64>, s: Seq<char>)
    ensures
        encode_seq(vocab, s).len() <= s.len(),
        forall|k: int|
            0 <= k < encode_seq(vocab, s).len() ==> is_id_of_some_char(
                vocab,
                s,
                #[trigger] encode_seq(vocab, s)[k],
            ),
    decreases s.len(),
{
    if s.len() > 0 {
        let t = s.drop_last();
        lemma_encode_ids_from_vocab(vocab, t);
        let e = encode_seq(vocab, s);
        let r = encode_seq(vocab, t);
        let c = s.last();
        assert forall|k: int| 0 <= k < e.len() implies is_id_of_some_char(vocab, s, #[trigger] e[k]) by {
            if k < r.len() {
                assert(e[k] == r[k]);
                assert(is_id_of_some_char(vocab, t, r[k]));
                let i = choose|i: int|
                    0 <= i < t.len() && vocab.contains_key(#[trigger] t[i] as u32) && vocab[t[i] as u32]
                        == r[k];
                assert(s[i] == t[i]);
            } else {
                let i: int = s.len() - 1;
                assert(s[i] == c);
            }
        }
    }
}

/// A phoneme outside the vocabulary is dropped without a trace: removing it
/// from the input does not change the ids.
pub proof fn lemma_encode_drops_unknown(vocab: Map<u32, i64>, a: Seq<char>, c: char, b: Seq<char>)
    requires
        !vocab.contains_key(c as u32),
    ensures
        encode_seq(vocab, a + seq![c] + b) == encode_seq(vocab, a + b),
{
    lemma_encode_concat(vocab, a + seq![c], b);
    lemma_encode_concat(vocab, a, seq![c]);
    lemma_encode_concat(vocab, a, b);
    assert(seq![c].drop_last() =~= Seq::<char>::empty());
    assert(encode_seq(vocab, Seq::<char>::empty()) =~= Seq::<i64>::empty());
    assert(seq![c].last() == c);
    assert(encode_seq(vocab, seq![c]) =~= Seq::<i64>::empty());
    assert(encode_seq(vocab, a) + Seq::<i64>::empty() =~= encode_seq(vocab, a));
}

/// Entries whose key is not a single character, or whose value is not an
/// integer, leave the vocabulary as it is.
pub proof fn lemma_vocab_skips_other_entries(es: Seq<(Seq<char>, Option<i64>)>, e: (Seq<char>, Option<i64>))
    requires
        e.0.len() != 1 || e.1 is None,
    ensures
        vocab_of(es.push(e)) == vocab_of(es),
{
    assert(es.push(e).drop_last() =~= es);
}

/// A single-character key with an integer value sets that character's id,
/// unless a later entry sets it again.
pub proof fn lemma_vocab_entry_sets_id(es: Seq<(Seq<char>, Option<i64>)>, i: int)
    requires
        0 <= i < es.len(),
        es[i].0.len() == 1,
        es[i].1 is Some,
        forall|j: int| i < j < es.len() ==> !(es[j].0 == es[i].0 && es[j].1 is Some),
    ensures
        vocab_of(es).contains_key(es[i].0[0] as u32),
        vocab_of(es)[es[i].0[0] as u32] == es[i].1->Some_0,
    decreases es.len(),
{
    if i < es.len() - 1 {
        lemma_vocab_entry_sets_id(es.drop_last(), i);
        let e = es.last();
        assert(es.drop_last()[i] == es[i]);
        if e.0.len() == 1 && e.1 is Some {
            assert(e.0 != es[i].0);
            assert(e.0 =~= seq![e.0[0]]);
            assert(es[i].0 =~= seq![es[i].0[0]]);
            assert(e.0[0] != es[i].0[0]);
            vstd::utf8::char_u32_cast(e.0[0], e.0[0] as u32);
            vstd::utf8::char_u32_cast(es[i].0[0], es[i].0[0] as u32);
            assert((e.0[0] as u32) != (es[i].0[0] as u32));
        }
    }
}

/// Whether the vocabulary knows the character `c`.
pub open spec fn is_known(vocab: Map<u32, i64>, c: char) -> bool {
    vocab.contains_key(c as u32)
}

/// Every phoneme the vocabulary knows is kept: on its own it encodes to
/// exactly its id.
pub proof fn lemma_encode_known_char(vocab: Map<u32, i64>, c: char)
    requires
        vocab.contains_key(c as u32),
    ensures
        encode_seq(vocab, seq![c]) == seq![vocab[c as u32]],
{
    assert(seq![c].drop_last() =~= Seq::<char>::empty());
    assert(seq![c].last() == c);
    assert(encode_seq(vocab, Seq::<char>::empty()) =~= Seq::<i64>::empty());
    assert(Seq::<i64>::empty().push(vocab[c as u32]) =~= seq![vocab[c as u32]]);
}

/// The ids are the ids of exactly the characters the vocabulary knows, in
/// input order: one id per known character, none for the others.
pub proof fn lemma_encode_keeps_known_chars(vocab: Map<u32, i64>, s: Seq<char>)
    ensures
        encode_seq(vocab, s) == s.filter(|c: char| is_known(vocab, c)).map_values(
            |c: char| vocab[c as u32],
        ),
        encode_seq(vocab, s).len() == s.filter(|c: char| is_known(vocab, c)).len(),
    decreases s.len(),
{
    reveal(Seq::filter);
    let known = |c: char| is_known(vocab, c);
    let id = |c: char| vocab[c as u32];
    if s.len() == 0 {
        assert(s.filter(known) =~= Seq::<char>::empty());
        assert(s.filter(known).map_values(id) =~= Seq::<i64>::empty());
    } else {
        lemma_encode_keeps_known_chars(vocab, s.drop_last());
        let f = s.drop_last().filter(known);
        if known(s.last()) {
            assert(s.filter(known) == f.push(s.last()));
            assert(f.push(s.last()).map_values(id) =~= f.map_values(id).push(id(s.last())));
        } else {
            assert(s.filter(known) == f);
        }
    }
}

} // verus!
