//! The decisions of the Kokoro inference pipeline (text, espeak-ng phonemes,
//! token ids, ONNX, PCM): which model inputs carry what, and the token ids
//! that the model receives.

use vstd::prelude::*;

use crate::text::{chars_of, contains_seq, has_infix};

verus! {

/// The sample rate of the model's output, in Hz.
pub const SAMPLE_RATE: u32 = 24000;

/// Kokoro's context limit: 510 phoneme tokens plus two padding zeros.
pub const MAX_TOKENS: usize = 510;

/// Why a text could not be synthesized.
#[derive(Debug, Clone, Copy)]
pub enum SynthError {
    /// No phoneme of the text is in the vocabulary.
    NoTokens,
}

/// The names of the model inputs that take the token ids, the style vector
/// and the speed.
pub struct InputNames {
    pub ids: String,
    pub style: String,
    pub speed: String,
}

/// The first name that contains `needle`, or `fallback` when none does.
pub open spec fn pick_spec(names: Seq<Seq<char>>, needle: Seq<char>, fallback: Seq<char>) -> Seq<
    char,
>
    decreases names.len(),
{
    if names.len() == 0 {
        fallback
    } else if has_infix(names[0], needle) {
        names[0]
    } else {
        pick_spec(names.drop_first(), needle, fallback)
    }
}

/// The first name that contains `a` or `b`, or `fallback` when none does.
pub open spec fn pick_either_spec(
    names: Seq<Seq<char>>,
    a: Seq<char>,
    b: Seq<char>,
    fallback: Seq<char>,
) -> Seq<char>
    decreases names.len(),
{
    if names.len() == 0 {
        fallback
    } else if has_infix(names[0], a) || has_infix(names[0], b) {
        names[0]
    } else {
        pick_either_spec(names.drop_first(), a, b, fallback)
    }
}

/// The views of a list of strings.
pub open spec fn names_view(v: Seq<String>) -> Seq<Seq<char>> {
    v.map_values(|s: String| s@)
}

/// The first of `names` that contains `a` or (when `b` is given) `b`,
/// or `fallback` when none does.
fn pick(names: &Vec<String>, a: &str, b: Option<&str>, fallback: &str) -> (r: String)
    ensures
        b is None ==> r@ == pick_spec(names_view(names@), a@, fallback@),
        b matches Some(b) ==> r@ == pick_either_spec(names_view(names@), a@, b@, fallback@),
{
    let ghost ns = names_view(names@);
    let av = chars_of(a);
    let bv = match b {
        Some(b) => chars_of(b),
        None => Vec::new(),
    };
    let mut i: usize = 0;
    assert(ns.skip(0) == ns);
    while i < names.len()
        invariant
            i <= names@.len(),
            ns == names_view(names@),
            av@ == a@,
            b matches Some(b) ==> bv@ == b@,
            b is None ==> pick_spec(ns, a@, fallback@) == pick_spec(ns.skip(i as int), a@, fallback@),
            b matches Some(b) ==> pick_either_spec(ns, a@, b@, fallback@) == pick_either_spec(
                ns.skip(i as int),
                a@,
                b@,
                fallback@,
            ),
        decreases names@.len() - i,
    {
        assert(ns.skip(i as int)[0] == names@[i as int]@);
        assert(ns.skip(i as int).drop_first() == ns.skip(i + 1));
        let name = chars_of(names[i].as_str());
        let hit = if contains_seq(&name, &av) {
            true
        } else {
            match b {
                Some(_) => contains_seq(&name, &bv),
                None => false,
            }
        };
        if hit {
            return names[i].clone();
        }
        i = i + 1;
    }
    assert(ns.skip(i as int) == Seq::<Seq<char>>::empty());
    crate::text::string_from_chars(&chars_of(fallback))
}

/// Chooses the model inputs by name, since Kokoro ONNX exports differ
/// (`input_ids` or `tokens`): the token ids go to the first input whose name
/// contains `id` or `token` (else `input_ids`), the style vector to the first
/// containing `style` (else `style`), the speed to the first containing
/// `speed` (else `speed`).
pub fn select_input_names(names: &Vec<String>) -> (r: InputNames)
    ensures
        r.ids@ == pick_either_spec(names_view(names@), "id"@, "token"@, "input_ids"@),
        r.style@ == pick_spec(names_view(names@), "style"@, "style"@),
        r.speed@ == pick_spec(names_view(names@), "speed"@, "speed"@),
{
    let ids = pick(names, "id", Some("token"), "input_ids");
    let style = pick(names, "style", None, "style");
    let speed = pick(names, "speed", None, "speed");
    InputNames { ids, style, speed }
}

/// The token ids the model receives for a text: at most `MAX_TOKENS` of
/// them, the first ones. A text without known phonemes is refused.
pub fn model_token_ids(ids: Vec<i64>) -> (r: Result<Vec<i64>, SynthError>)
    ensures
        ids@.len() == 0 ==> r is Err,
        ids@.len() > 0 ==> (r matches Ok(v) && v@ == ids@.take(
            if ids@.len() < MAX_TOKENS {
                ids@.len() as int
            } else {
                MAX_TOKENS as int
            },
        )),
{
    if ids.len() == 0 {
        return Err(SynthError::NoTokens);
    }
    let mut ids = ids;
    if ids.len() > MAX_TOKENS {
        ids.truncate(MAX_TOKENS);
    } else {
        assert(ids@.take(ids@.len() as int) == ids@);
    }
    Ok(ids)
}

/// The model's `input_ids` tensor data: the token ids with a zero on each side.
pub fn padded_input(ids: &Vec<i64>) -> (r: Vec<i64>)
    requires
        ids@.len() + 2 <= usize::MAX,
    ensures
        r@ == seq![0i64] + ids@ + seq![0i64],
{
    let mut input: Vec<i64> = Vec::new();
    input.push(0);
    let mut i: usize = 0;
    while i < ids.len()
        invariant
            i <= ids@.len(),
            input@ == seq![0i64] + ids@.take(i as int),
        decreases ids@.len() - i,
    {
        input.push(ids[i]);
        assert(ids@.take(i + 1) == ids@.take(i as int).push(ids@[i as int]));
        assert(input@ == seq![0i64] + ids@.take(i + 1));
        i = i + 1;
    }
    input.push(0);
    assert(ids@.take(ids@.len() as int) == ids@);
    assert(input@ == seq![0i64] + ids@ + seq![0i64]);
    input
}

/// What the model receives never exceeds its context: at most `MAX_TOKENS`
/// token ids plus the two padding zeros.
pub proof fn lemma_model_input_fits(ids: Seq<i64>, taken: Seq<i64>)
    requires
        ids.len() > 0,
        taken == ids.take(
            if ids.len() < MAX_TOKENS {
                ids.len() as int
            } else {
                MAX_TOKENS as int
            },
        ),
    ensures
        (seq![0i64] + taken + seq![0i64]).len() <= MAX_TOKENS + 2,
        (seq![0i64] + taken + seq![0i64])[0] == 0,
        (seq![0i64] + taken + seq![0i64]).last() == 0,
{
}

} // verus!
