//! Character-level text helpers shared by the rest of the crate.

use vstd::prelude::*;

verus! {

/// Appends one character to the end of `s`.
///
/// Trusted: the body calls `String::push`, which std documents as appending
/// the given `char` to the end of the string. The contract claims exactly that.
#[verifier::external_body]
pub(crate) fn push_char(s: &mut String, c: char)
    ensures
        final(s)@ == old(s)@.push(c),
{
    s.push(c);
}

/// The characters of `s`, in order.
pub fn chars_of(s: &str) -> (r: Vec<char>)
    ensures
        r@ == s@,
{
    broadcast use vstd::string::group_string_axioms;

    let mut out: Vec<char> = Vec::new();
    for c in iter: s.chars()
        invariant
            iter.seq() == s@,
            out@ == iter.seq().take(iter.index() as int),
    {
        assert(iter.seq().take(iter.index() + 1) == iter.seq().take(iter.index() as int).push(c));
        out.push(c);
    }
    assert(s@.take(s@.len() as int) == s@);
    out
}

/// A `String` holding the characters `cs[from..to]`.
pub fn string_from_range(cs: &Vec<char>, from: usize, to: usize) -> (r: String)
    requires
        from <= to <= cs@.len(),
    ensures
        r@ == cs@.subrange(from as int, to as int),
{
    let mut out = String::new();
    let mut i: usize = from;
    while i < to
        invariant
            from <= i <= to <= cs@.len(),
            out@ == cs@.subrange(from as int, i as int),
        decreases to - i,
    {
        push_char(&mut out, cs[i]);
        assert(cs@.subrange(from as int, i + 1) == cs@.subrange(from as int, i as int).push(cs@[i as int]));
        i = i + 1;
    }
    out
}

/// A `String` holding the characters `cs`.
pub fn string_from_chars(cs: &Vec<char>) -> (r: String)
    ensures
        r@ == cs@,
{
    let r = string_from_range(cs, 0, cs.len());
    assert(cs@.subrange(0, cs@.len() as int) == cs@);
    r
}

/// Appends the characters of `t` to `s`.
pub fn push_str(s: &mut String, t: &str)
    ensures
        final(s)@ == old(s)@ + t@,
{
    s.append(t);
}

/// Unicode `White_Space`, the property that `char::is_whitespace` and the
/// `trim` family of `str` test.
pub open spec fn is_white_space(c: char) -> bool {
    let u: u32 = c as u32;
    ||| u == 0x20
    ||| 0x09 <= u <= 0x0D
    ||| u == 0x85
    ||| u == 0xA0
    ||| u == 0x1680
    ||| 0x2000 <= u <= 0x200A
    ||| u == 0x2028
    ||| u == 0x2029
    ||| u == 0x202F
    ||| u == 0x205F
    ||| u == 0x3000
}

/// Whether `c` is Unicode white space.
pub fn is_whitespace(c: char) -> (r: bool)
    ensures
        r == is_white_space(c),
{
    let u: u32 = c as u32;
    u == 0x20 || (0x09 <= u && u <= 0x0D) || u == 0x85 || u == 0xA0 || u == 0x1680 || (0x2000
        <= u && u <= 0x200A) || u == 0x2028 || u == 0x2029 || u == 0x202F || u == 0x205F || u
        == 0x3000
}

/// `s` without its trailing white space.
pub open spec fn trim_end(s: Seq<char>) -> Seq<char>
    decreases s.len(),
{
    if s.len() > 0 && is_white_space(s.last()) {
        trim_end(s.drop_last())
    } else {
        s
    }
}

/// `s` without its leading white space.
pub open spec fn trim_start(s: Seq<char>) -> Seq<char>
    decreases s.len(),
{
    if s.len() > 0 && is_white_space(s[0]) {
        trim_start(s.drop_first())
    } else {
        s
    }
}

/// `s` without leading and trailing white space.
pub open spec fn trim(s: Seq<char>) -> Seq<char> {
    trim_start(trim_end(s))
}

/// The length of `cs` once its trailing white space is cut off.
pub fn trim_end_len(cs: &Vec<char>) -> (end: usize)
    ensures
        end <= cs@.len(),
        cs@.take(end as int) == trim_end(cs@),
{
    let mut end: usize = cs.len();
    assert(cs@.take(end as int) == cs@);
    while end > 0 && is_whitespace(cs[end - 1])
        invariant
            end <= cs@.len(),
            trim_end(cs@.take(end as int)) == trim_end(cs@),
        decreases end,
    {
        assert(cs@.take(end as int).drop_last() == cs@.take(end - 1));
        end = end - 1;
    }
    end
}

/// The bounds `(start, end)` of `cs` without leading and trailing white space.
pub fn trim_bounds(cs: &Vec<char>) -> (r: (usize, usize))
    ensures
        r.0 <= r.1 <= cs@.len(),
        cs@.subrange(r.0 as int, r.1 as int) == trim(cs@),
{
    let end: usize = trim_end_len(cs);
    let ghost t = cs@.take(end as int);
    let mut start: usize = 0;
    assert(t.subrange(0, end as int) == t);
    while start < end && is_whitespace(cs[start])
        invariant
            start <= end <= cs@.len(),
            t == cs@.take(end as int),
            trim_start(t.subrange(start as int, end as int)) == trim_start(t),
        decreases end - start,
    {
        assert(t.subrange(start as int, end as int).drop_first() == t.subrange(
            start + 1,
            end as int,
        ));
        start = start + 1;
    }
    assert(t.subrange(start as int, end as int) == cs@.subrange(start as int, end as int));
    (start, end)
}

/// Whether `n` occurs in `h` at position `i`.
pub open spec fn occurs_at(h: Seq<char>, n: Seq<char>, i: int) -> bool {
    0 <= i && i + n.len() <= h.len() && h.subrange(i, i + n.len()) == n
}

/// Whether `n` occurs somewhere in `h`.
pub open spec fn has_infix(h: Seq<char>, n: Seq<char>) -> bool {
    exists|i: int| occurs_at(h, n, i)
}

/// Whether `n` occurs in `h` at position `i`.
pub fn matches_at(h: &Vec<char>, n: &Vec<char>, i: usize) -> (r: bool)
    ensures
        r == occurs_at(h@, n@, i as int),
{
    if i > h.len() || n.len() > h.len() - i {
        return false;
    }
    let mut k: usize = 0;
    while k < n.len()
        invariant
            i + n@.len() <= h@.len(),
            h@.len() <= usize::MAX,
            k <= n@.len(),
            forall|j: int| 0 <= j < k ==> h@[i + j] == n@[j],
        decreases n@.len() - k,
    {
        if h[i + k] != n[k] {
            assert(h@.subrange(i as int, i + n@.len())[k as int] != n@[k as int]);
            return false;
        }
        k = k + 1;
    }
    assert(h@.subrange(i as int, i + n@.len()) == n@);
    true
}

/// Whether `n` occurs somewhere in `h`.
pub fn contains_seq(h: &Vec<char>, n: &Vec<char>) -> (r: bool)
    ensures
        r == has_infix(h@, n@),
{
    if n.len() > h.len() {
        assert forall|i: int| !occurs_at(h@, n@, i) by {}
        return false;
    }
    if n.len() == 0 {
        assert(h@.subrange(0, 0) == n@);
        assert(occurs_at(h@, n@, 0));
        return true;
    }
    let last: usize = h.len() - n.len();
    let mut i: usize = 0;
    while i <= last
        invariant
            last == h@.len() - n@.len(),
            last < h@.len() <= usize::MAX,
            i <= last + 1,
            forall|j: int| 0 <= j < i ==> !occurs_at(h@, n@, j),
        decreases last + 1 - i,
    {
        if matches_at(h, n, i) {
            return true;
        }
        i = i + 1;
    }
    assert forall|j: int| !occurs_at(h@, n@, j) by {
        if 0 <= j && j < i {
        }
    }
    false
}

/// Whether `n` occurs somewhere in `h`.
pub fn str_contains(h: &str, n: &str) -> (r: bool)
    ensures
        r == has_infix(h@, n@),
{
    let hv = chars_of(h);
    let nv = chars_of(n);
    contains_seq(&hv, &nv)
}

/// Whether `p` is a prefix of `s`.
pub fn str_starts_with(s: &str, p: &str) -> (r: bool)
    ensures
        r == p@.is_prefix_of(s@),
{
    let sv = chars_of(s);
    let pv = chars_of(p);
    let r = matches_at(&sv, &pv, 0);
    assert(r == p@.is_prefix_of(s@));
    r
}

/// Whether `a` and `b` hold the same characters.
pub fn str_eq(a: &str, b: &str) -> (r: bool)
    ensures
        r == (a@ == b@),
{
    let av = chars_of(a);
    let bv = chars_of(b);
    if av.len() != bv.len() {
        return false;
    }
    let r = matches_at(&av, &bv, 0);
    assert(av@.subrange(0, bv@.len() as int) == av@);
    r
}

/// The UTF-16 code units of `c`: one unit below U+10000, else a surrogate pair.
pub open spec fn utf16_units(c: char) -> Seq<u16> {
    let u = c as u32;
    if u < 0x10000 {
        seq![u as u16]
    } else {
        let v = u - 0x10000;
        seq![(0xD800 + v / 0x400) as u16, (0xDC00 + v % 0x400) as u16]
    }
}

/// The UTF-16 encoding of `s`.
pub open spec fn utf16_of(s: Seq<char>) -> Seq<u16>
    decreases s.len(),
{
    if s.len() == 0 {
        Seq::empty()
    } else {
        utf16_of(s.drop_last()) + utf16_units(s.last())
    }
}

/// `s` in UTF-16 with a terminating zero, the form Win32 wide-string
/// parameters take.
pub fn wide_nul(s: &str) -> (r: Vec<u16>)
    ensures
        r@ == utf16_of(s@).push(0u16),
{
    let cs = chars_of(s);
    let mut out: Vec<u16> = Vec::new();
    let mut i: usize = 0;
    while i < cs.len()
        invariant
            i <= cs@.len(),
            out@ == utf16_of(cs@.take(i as int)),
        decreases cs@.len() - i,
    {
        assert(cs@.take(i + 1).drop_last() == cs@.take(i as int));
        let c = cs[i];
        let u: u32 = c as u32;
        if u < 0x10000 {
            out.push(u as u16);
        } else {
            proof {
                vstd::utf8::char_is_scalar(c);
            }
            assert(u <= 0x10FFFF);
            let v: u32 = u - 0x10000;
            out.push((0xD800 + v / 0x400) as u16);
            out.push((0xDC00 + v % 0x400) as u16);
        }
        assert(out@ =~= utf16_of(cs@.take(i + 1)));
        i = i + 1;
    }
    assert(cs@.take(cs@.len() as int) == cs@);
    out.push(0);
    out
}

/// A text without NUL characters encodes without zero units, so a Win32 call
/// reads the whole text up to the terminating zero that `wide_nul` appends.
pub proof fn lemma_utf16_no_interior_nul(s: Seq<char>)
    requires
        forall|i: int| 0 <= i < s.len() ==> s[i] != '\0',
    ensures
        forall|k: int| 0 <= k < utf16_of(s).len() ==> utf16_of(s)[k] != 0u16,
    decreases s.len(),
{
    if s.len() > 0 {
        lemma_utf16_no_interior_nul(s.drop_last());
        let c = s.last();
        assert(c != '\0');
        vstd::utf8::char_is_scalar(c);
        let units = utf16_units(c);
        assert forall|k: int| 0 <= k < units.len() implies units[k] != 0u16 by {
            let u = c as u32;
            if u < 0x10000 {
                if u == 0 {
                    vstd::utf8::char_u32_cast(c, u);
                    assert((0u32 as char) == '\0');
                }
                assert(u != 0);
                assert(u as u16 == u) by (bit_vector)
                    requires
                        u < 0x10000u32,
                ;
            }
        }
        let rest = utf16_of(s.drop_last());
        assert(utf16_of(s) == rest + units);
        assert forall|k: int| 0 <= k < utf16_of(s).len() implies utf16_of(s)[k] != 0u16 by {
            if k < rest.len() {
                assert(utf16_of(s)[k] == rest[k]);
            } else {
                assert(utf16_of(s)[k] == units[k - rest.len()]);
            }
        }
    }
}

} // verus!
