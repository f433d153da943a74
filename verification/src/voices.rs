//! Kokoro voice style vectors. Each `<voice>.bin` (from the voices folder of
//! the Hugging Face ONNX export) is a raw little-endian `f32` array of shape
//! `(N, 1, 256)`; the row index is the number of phoneme tokens, so prosody
//! scales with the input length. The bank keeps the raw bytes of each voice;
//! a style row is handed out as its 1024 bytes.

use vstd::prelude::*;

use crate::text::{push_str, str_eq};

verus! {

/// Number of `f32` values in one style row.
pub const STYLE_DIM: usize = 256;

/// Number of bytes in one style row (`STYLE_DIM` little-endian `f32` values).
pub const STYLE_ROW_BYTES: usize = 1024;

/// Why a voice file was not accepted.
#[derive(Debug, Clone, Copy)]
pub enum VoiceError {
    /// The file holds `len` bytes, which is not a whole number of style rows.
    BadSize { len: usize },
}

/// The abstract state of a voice bank.
pub struct VoiceBankView {
    /// The directory the voice files are read from.
    pub dir: Seq<char>,
    /// The raw bytes of each loaded voice, by voice name.
    pub voices: Map<Seq<char>, Seq<u8>>,
}

/// A cache of voice style files, read from one directory.
///
/// The cache is a list of (name, bytes) pairs searched by name, with each
/// name at most once in effect (a reload replaces the entry in place). It is
/// not a `HashMap<String, _>`: vstd specifies what a `HashMap` holds only for
/// keys that obey its key model (integers, `bool` and boxes of them), so
/// with `String` keys no lookup or insert could be proved.
pub struct VoiceBank {
    dir: String,
    cache: Vec<(String, Vec<u8>)>,
}

/// The voices that a cache holds: for each name its latest bytes.
pub open spec fn cache_map(s: Seq<(String, Vec<u8>)>) -> Map<Seq<char>, Seq<u8>>
    decreases s.len(),
{
    if s.len() == 0 {
        Map::empty()
    } else {
        cache_map(s.drop_last()).insert(s.last().0@, s.last().1@)
    }
}

/// The style row that `token_len` tokens select from `data`: row
/// `min(token_len, rows - 1)`, where `rows` is the number of whole rows.
pub open spec fn style_row(data: Seq<u8>, token_len: nat) -> Seq<u8> {
    let rows: nat = data.len() / (STYLE_ROW_BYTES as nat);
    let idx: int = if token_len < rows - 1 {
        token_len as int
    } else {
        rows - 1
    };
    data.subrange(idx * STYLE_ROW_BYTES, idx * STYLE_ROW_BYTES + STYLE_ROW_BYTES)
}

/// The file name of a voice: `<voice>.bin`.
pub open spec fn voice_file_name_spec(voice: Seq<char>) -> Seq<char> {
    voice + seq!['.', 'b', 'i', 'n']
}

/// When no entry after position `i` has the name of entry `i`, the map holds
/// entry `i`'s bytes under that name.
proof fn lemma_cache_map_last(s: Seq<(String, Vec<u8>)>, i: int)
    requires
        0 <= i < s.len(),
        forall|j: int| i < j < s.len() ==> s[j].0@ != s[i].0@,
    ensures
        cache_map(s).contains_key(s[i].0@),
        cache_map(s)[s[i].0@] == s[i].1@,
    decreases s.len(),
{
    if i < s.len() - 1 {
        lemma_cache_map_last(s.drop_last(), i);
    }
}

/// Replacing the bytes of the last entry named `k` replaces the bytes of `k`.
proof fn lemma_cache_map_update_last(s: Seq<(String, Vec<u8>)>, i: int, e: (String, Vec<u8>))
    requires
        0 <= i < s.len(),
        e.0@ == s[i].0@,
        forall|j: int| i < j < s.len() ==> s[j].0@ != s[i].0@,
    ensures
        cache_map(s.update(i, e)) == cache_map(s).insert(e.0@, e.1@),
    decreases s.len(),
{
    let u = s.update(i, e);
    if i == s.len() - 1 {
        assert(u.drop_last() =~= s.drop_last());
        assert(cache_map(u) =~= cache_map(s).insert(e.0@, e.1@));
    } else {
        lemma_cache_map_update_last(s.drop_last(), i, e);
        assert(u.drop_last() =~= s.drop_last().update(i, e));
        assert(cache_map(u) =~= cache_map(s).insert(e.0@, e.1@));
    }
}

/// A name that no entry has is not in the map.
proof fn lemma_cache_map_absent(s: Seq<(String, Vec<u8>)>, k: Seq<char>)
    requires
        forall|j: int| 0 <= j < s.len() ==> s[j].0@ != k,
    ensures
        !cache_map(s).contains_key(k),
    decreases s.len(),
{
    if s.len() > 0 {
        lemma_cache_map_absent(s.drop_last(), k);
    }
}

/// Every byte string in the map is the bytes of some entry.
proof fn lemma_cache_map_from_entry(s: Seq<(String, Vec<u8>)>, k: Seq<char>)
    requires
        cache_map(s).contains_key(k),
    ensures
        exists|j: int| 0 <= j < s.len() && s[j].0@ == k && #[trigger] s[j].1@ == cache_map(s)[k],
    decreases s.len(),
{
    if s.last().0@ != k {
        lemma_cache_map_from_entry(s.drop_last(), k);
        let j = choose|j: int|
            0 <= j < s.drop_last().len() && s.drop_last()[j].0@ == k && #[trigger] s.drop_last()[j].1@
                == cache_map(s.drop_last())[k];
        assert(s[j].1@ == cache_map(s)[k]);
    } else {
        assert(s[s.len() - 1].1@ == cache_map(s)[k]);
    }
}

/// When every entry holds whole rows, so does every voice of the map.
proof fn lemma_cache_map_whole_rows(s: Seq<(String, Vec<u8>)>, k: Seq<char>)
    requires
        cache_map(s).contains_key(k),
        forall|i: int| 0 <= i < s.len() ==> (#[trigger] s[i]).1@.len() % (STYLE_ROW_BYTES as nat) == 0,
    ensures
        cache_map(s)[k].len() % (STYLE_ROW_BYTES as nat) == 0,
{
    lemma_cache_map_from_entry(s, k);
    let j = choose|j: int| 0 <= j < s.len() && s[j].0@ == k && #[trigger] s[j].1@ == cache_map(s)[k];
    assert(s[j].1@.len() % (STYLE_ROW_BYTES as nat) == 0);
}

impl View for VoiceBank {
    type V = VoiceBankView;

    closed spec fn view(&self) -> VoiceBankView {
        VoiceBankView { dir: self.dir@, voices: cache_map(self.cache@) }
    }
}

impl VoiceBank {
    /// Every cached voice holds a whole number of style rows.
    #[verifier::type_invariant]
    closed spec fn whole_rows(self) -> bool {
        forall|i: int|
            0 <= i < self.cache@.len() ==> (#[trigger] self.cache@[i]).1@.len() % (
            STYLE_ROW_BYTES as nat) == 0
    }

    /// An empty bank reading from `dir`.
    pub fn new(dir: String) -> (r: VoiceBank)
        ensures
            r@.dir == dir@,
            r@.voices == Map::<Seq<char>, Seq<u8>>::empty(),
    {
        VoiceBank { dir, cache: Vec::new() }
    }

    /// The directory the voice files are read from.
    pub fn dir(&self) -> (r: &str)
        ensures
            r@ == self@.dir,
    {
        self.dir.as_str()
    }

    /// The position of the last cache entry named `voice`, if any.
    fn find(&self, voice: &str) -> (r: Option<usize>)
        ensures
            match r {
                Some(i) => i < self.cache@.len() && self.cache@[i as int].0@ == voice@ && forall|
                    j: int,
                | i < j < self.cache@.len() ==> self.cache@[j].0@ != voice@,
                None => forall|j: int| 0 <= j < self.cache@.len() ==> self.cache@[j].0@ != voice@,
            },
    {
        let mut i: usize = self.cache.len();
        while i > 0
            invariant
                i <= self.cache@.len(),
                forall|j: int| i <= j < self.cache@.len() ==> self.cache@[j].0@ != voice@,
            decreases i,
        {
            if str_eq(self.cache[i - 1].0.as_str(), voice) {
                return Some(i - 1);
            }
            i = i - 1;
        }
        None
    }

    /// Whether the bytes of `voice` are in the bank.
    pub fn is_loaded(&self, voice: &str) -> (r: bool)
        ensures
            r == self@.voices.contains_key(voice@),
    {
        match self.find(voice) {
            Some(i) => {
                proof {
                    lemma_cache_map_last(self.cache@, i as int);
                }
                true
            },
            None => {
                proof {
                    lemma_cache_map_absent(self.cache@, voice@);
                }
                false
            },
        }
    }

    /// The number of style rows of `voice`, if it is loaded.
    pub fn row_count(&self, voice: &str) -> (r: Option<usize>)
        ensures
            self@.voices.contains_key(voice@) ==> r == Some(
                (self@.voices[voice@].len() / (STYLE_ROW_BYTES as nat)) as usize,
            ),
            !self@.voices.contains_key(voice@) ==> r is None,
    {
        match self.find(voice) {
            Some(i) => {
                proof {
                    lemma_cache_map_last(self.cache@, i as int);
                }
                Some(self.cache[i].1.len() / STYLE_ROW_BYTES)
            },
            None => {
                proof {
                    lemma_cache_map_absent(self.cache@, voice@);
                }
                None
            },
        }
    }

    /// Stores the bytes of a voice file. A file that is not a whole number of
    /// style rows (1024 bytes each) is refused and the bank is left as it was.
    pub fn load(&mut self, voice: &str, bytes: Vec<u8>) -> (r: Result<(), VoiceError>)
        ensures
            final(self)@.dir == old(self)@.dir,
            bytes@.len() % (STYLE_ROW_BYTES as nat) == 0 ==> r is Ok && final(self)@.voices == old(
                self,
            )@.voices.insert(voice@, bytes@),
            bytes@.len() % (STYLE_ROW_BYTES as nat) != 0 ==> r == Err::<(), VoiceError>(
                VoiceError::BadSize { len: bytes.len() },
            ) && final(self)@.voices == old(self)@.voices,
    {
        let len: usize = bytes.len();
        if len % STYLE_ROW_BYTES != 0 {
            return Err(VoiceError::BadSize { len });
        }
        proof {
            use_type_invariant(&*self);
        }
        let found = self.find(voice);
        let mut cache: Vec<(String, Vec<u8>)> = Vec::new();
        std::mem::swap(&mut cache, &mut self.cache);
        let name = crate::text::string_from_chars(&crate::text::chars_of(voice));
        match found {
            Some(i) => {
                proof {
                    lemma_cache_map_update_last(cache@, i as int, (name, bytes));
                }
                cache.set(i, (name, bytes));
            },
            None => {
                cache.push((name, bytes));
                assert(cache@.drop_last() == old(self).cache@);
            },
        }
        self.cache = cache;
        Ok(())
    }

    /// The style row of `voice` for an input of `token_len` phoneme tokens:
    /// the 1024 bytes of row `min(token_len, rows - 1)`.
    pub fn style(&self, voice: &str, token_len: usize) -> (r: Vec<u8>)
        requires
            self@.voices.contains_key(voice@),
            self@.voices[voice@].len() > 0,
        ensures
            r@ == style_row(self@.voices[voice@], token_len as nat),
            r@.len() == STYLE_ROW_BYTES,
    {
        proof {
            use_type_invariant(self);
            lemma_cache_map_whole_rows(self.cache@, voice@);
        }
        let i: usize = match self.find(voice) {
            Some(i) => i,
            None => {
                proof {
                    lemma_cache_map_absent(self.cache@, voice@);
                }
                return Vec::new();
            },
        };
        proof {
            lemma_cache_map_last(self.cache@, i as int);
        }
        let data = &self.cache[i].1;
        let rows: usize = data.len() / STYLE_ROW_BYTES;
        let idx: usize = if token_len < rows - 1 {
            token_len
        } else {
            rows - 1
        };
        let start: usize = idx * STYLE_ROW_BYTES;
        let mut out: Vec<u8> = Vec::new();
        let mut k: usize = 0;
        while k < STYLE_ROW_BYTES
            invariant
                k <= STYLE_ROW_BYTES,
                start + STYLE_ROW_BYTES <= data@.len() <= usize::MAX,
                out@ == data@.subrange(start as int, start + k),
            decreases STYLE_ROW_BYTES - k,
        {
            out.push(data[start + k]);
            assert(data@.subrange(start as int, start + k + 1) == data@.subrange(
                start as int,
                start + k,
            ).push(data@[start + k]));
            k = k + 1;
        }
        out
    }
}

/// The row index is the number of phoneme tokens: for fewer tokens than the
/// voice has rows, the style is row `token_len`; for more, the last row.
/// Either way it is one whole row of the voice.
pub proof fn lemma_style_row_index(data: Seq<u8>, token_len: nat)
    requires
        data.len() > 0,
        data.len() % (STYLE_ROW_BYTES as nat) == 0,
    ensures
        style_row(data, token_len).len() == STYLE_ROW_BYTES,
        ({
            let rows: nat = data.len() / (STYLE_ROW_BYTES as nat);
            &&& token_len < rows ==> style_row(data, token_len) == data.subrange(
                token_len * STYLE_ROW_BYTES,
                token_len * STYLE_ROW_BYTES + STYLE_ROW_BYTES,
            )
            &&& token_len >= rows ==> style_row(data, token_len) == style_row(data, (rows - 1) as nat)
        }),
{
    let rows: nat = data.len() / (STYLE_ROW_BYTES as nat);
    assert(rows >= 1);
    assert(rows * STYLE_ROW_BYTES == data.len());
}

/// The file name of a voice: `<voice>.bin`.
pub fn voice_file_name(voice: &str) -> (r: String)
    ensures
        r@ == voice_file_name_spec(voice@),
{
    let mut s = crate::text::string_from_chars(&crate::text::chars_of(voice));
    push_str(&mut s, ".bin");
    proof {
        reveal_strlit(".bin");
    }
    s
}

} // verus!
