//! Globally unique identifiers: the engine's COM class id and its registry form.

use vstd::prelude::*;

use crate::text::push_char;

verus! {

broadcast use vstd::array::group_array_axioms;

/// A GUID in the layout Windows uses: a 32-bit, two 16-bit fields and eight bytes.
#[derive(Clone, Copy, Debug)]
pub struct Guid {
    pub data1: u32,
    pub data2: u16,
    pub data3: u16,
    pub data4: [u8; 8],
}

/// The eight bytes of `x`, most significant first.
pub open spec fn be_bytes(x: u64) -> Seq<u8> {
    seq![
        (x >> 56u64) as u8,
        (x >> 48u64) as u8,
        (x >> 40u64) as u8,
        (x >> 32u64) as u8,
        (x >> 24u64) as u8,
        (x >> 16u64) as u8,
        (x >> 8u64) as u8,
        x as u8,
    ]
}

/// `g` is the GUID whose 128-bit value is `v`: the top 32 bits, the next two
/// 16-bit groups, then the low 64 bits as big-endian bytes.
pub open spec fn is_from_u128(g: Guid, v: u128) -> bool {
    &&& g.data1 == (v >> 96u128) as u32
    &&& g.data2 == ((v >> 80u128) & 0xffffu128) as u16
    &&& g.data3 == ((v >> 64u128) & 0xffffu128) as u16
    &&& g.data4@ == be_bytes(v as u64)
}

/// The upper-case hexadecimal digit of `d` (`d < 16`).
pub open spec fn hex_digit(d: nat) -> char {
    if d < 10 {
        (48 + d) as char
    } else {
        (55 + d) as char
    }
}

/// Whether `c` is one of `0-9`, `A-F`.
pub open spec fn is_upper_hex_digit(c: char) -> bool {
    ('0' <= c <= '9') || ('A' <= c <= 'F')
}

/// The last `width` hexadecimal digits of `v`, upper case, most significant first.
pub open spec fn hex(v: nat, width: nat) -> Seq<char>
    decreases width,
{
    if width == 0 {
        Seq::empty()
    } else {
        hex(v / 16, (width - 1) as nat).push(hex_digit(v % 16))
    }
}

/// The registry form of `g`: `{XXXXXXXX-XXXX-XXXX-XXXX-XXXXXXXXXXXX}`, upper case.
pub open spec fn registry_form(g: Guid) -> Seq<char> {
    seq!['{'] + hex(g.data1 as nat, 8) + seq!['-'] + hex(g.data2 as nat, 4) + seq!['-'] + hex(
        g.data3 as nat,
        4,
    ) + seq!['-'] + hex(g.data4[0] as nat, 2) + hex(g.data4[1] as nat, 2) + seq!['-'] + hex(
        g.data4[2] as nat,
        2,
    ) + hex(g.data4[3] as nat, 2) + hex(g.data4[4] as nat, 2) + hex(g.data4[5] as nat, 2) + hex(
        g.data4[6] as nat,
        2,
    ) + hex(g.data4[7] as nat, 2) + seq!['}']
}

/// The 128-bit value of the engine's COM class id.
pub const CLSID_KOKORO_ENGINE_VALUE: u128 = 0x6a2c7f52_3b19_4e5d_9c01_8f4a2d7b61e3u128;

/// The engine's COM class id.
pub open spec fn spec_clsid_kokoro_engine() -> Guid {
    Guid {
        data1: 0x6a2c7f52,
        data2: 0x3b19,
        data3: 0x4e5d,
        data4: [0x9c, 0x01, 0x8f, 0x4a, 0x2d, 0x7b, 0x61, 0xe3],
    }
}

impl Guid {
    /// The GUID whose 128-bit value is `v`.
    pub fn from_u128(v: u128) -> (g: Guid)
        ensures
            is_from_u128(g, v),
    {
        let x: u64 = v as u64;
        let data4: [u8; 8] = [
            (x >> 56u64) as u8,
            (x >> 48u64) as u8,
            (x >> 40u64) as u8,
            (x >> 32u64) as u8,
            (x >> 24u64) as u8,
            (x >> 16u64) as u8,
            (x >> 8u64) as u8,
            x as u8,
        ];
        let g = Guid {
            data1: (v >> 96u128) as u32,
            data2: ((v >> 80u128) & 0xffffu128) as u16,
            data3: ((v >> 64u128) & 0xffffu128) as u16,
            data4,
        };
        assert(g.data4@ == be_bytes(x));
        g
    }

    /// Whether `self` and `other` are the same GUID.
    pub fn same_as(&self, other: &Guid) -> (r: bool)
        ensures
            r == (*self == *other),
    {
        if self.data1 != other.data1 || self.data2 != other.data2 || self.data3 != other.data3 {
            return false;
        }
        let mut i: usize = 0;
        while i < 8
            invariant
                i <= 8,
                forall|j: int| 0 <= j < i ==> self.data4[j] == other.data4[j],
            decreases 8 - i,
        {
            if self.data4[i] != other.data4[i] {
                return false;
            }
            i = i + 1;
        }
        assert(self.data4@ =~= other.data4@);
        assert(self.data4 == other.data4);
        true
    }

    /// The registry form of this GUID: `{XXXXXXXX-XXXX-XXXX-XXXX-XXXXXXXXXXXX}`.
    pub fn registry_form(&self) -> (r: String)
        ensures
            r@ == registry_form(*self),
    {
        let mut s = String::new();
        push_char(&mut s, '{');
        push_hex(&mut s, self.data1 as u64, 8);
        push_char(&mut s, '-');
        push_hex(&mut s, self.data2 as u64, 4);
        push_char(&mut s, '-');
        push_hex(&mut s, self.data3 as u64, 4);
        push_char(&mut s, '-');
        push_hex(&mut s, self.data4[0] as u64, 2);
        push_hex(&mut s, self.data4[1] as u64, 2);
        push_char(&mut s, '-');
        push_hex(&mut s, self.data4[2] as u64, 2);
        push_hex(&mut s, self.data4[3] as u64, 2);
        push_hex(&mut s, self.data4[4] as u64, 2);
        push_hex(&mut s, self.data4[5] as u64, 2);
        push_hex(&mut s, self.data4[6] as u64, 2);
        push_hex(&mut s, self.data4[7] as u64, 2);
        push_char(&mut s, '}');
        s
    }
}

/// The upper-case hexadecimal digit of `d`.
fn hex_char(d: u64) -> (c: char)
    requires
        d < 16,
    ensures
        c == hex_digit(d as nat),
{
    if d < 10 {
        ((48 + d) as u8) as char
    } else {
        ((55 + d) as u8) as char
    }
}

/// Appends the last `width` hexadecimal digits of `v` to `s`.
fn push_hex(s: &mut String, v: u64, width: usize)
    ensures
        final(s)@ == old(s)@ + hex(v as nat, width as nat),
    decreases width,
{
    if width > 0 {
        push_hex(s, v / 16, width - 1);
        push_char(s, hex_char(v % 16));
        assert(final(s)@ =~= old(s)@ + hex(v as nat, width as nat));
    } else {
        assert(final(s)@ =~= old(s)@ + hex(v as nat, width as nat));
    }
}

/// The engine's COM class id.
pub fn clsid_kokoro_engine() -> (g: Guid)
    ensures
        g == spec_clsid_kokoro_engine(),
        is_from_u128(g, CLSID_KOKORO_ENGINE_VALUE),
{
    let g = Guid::from_u128(CLSID_KOKORO_ENGINE_VALUE);
    let ghost v = CLSID_KOKORO_ENGINE_VALUE;
    assert(v == 0x6a2c7f52_3b19_4e5d_9c01_8f4a2d7b61e3u128);
    assert((v >> 96u128) as u32 == 0x6a2c7f52u32 && ((v >> 80u128) & 0xffffu128) as u16
        == 0x3b19u16 && ((v >> 64u128) & 0xffffu128) as u16 == 0x4e5du16) by (bit_vector)
        requires
            v == 0x6a2c7f52_3b19_4e5d_9c01_8f4a2d7b61e3u128,
    ;
    let ghost x = v as u64;
    assert(x == 0x9c01_8f4a2d7b61e3u64) by (bit_vector)
        requires
            v == 0x6a2c7f52_3b19_4e5d_9c01_8f4a2d7b61e3u128,
            x == v as u64,
    ;
    assert((x >> 56u64) as u8 == 0x9cu8 && (x >> 48u64) as u8 == 0x01u8 && (x >> 40u64) as u8
        == 0x8fu8 && (x >> 32u64) as u8 == 0x4au8 && (x >> 24u64) as u8 == 0x2du8 && (x
        >> 16u64) as u8 == 0x7bu8 && (x >> 8u64) as u8 == 0x61u8 && x as u8 == 0xe3u8)
        by (bit_vector)
        requires
            x == 0x9c01_8f4a2d7b61e3u64,
    ;
    assert(g.data4@ =~= spec_clsid_kokoro_engine().data4@);
    assert(g.data4 =~= spec_clsid_kokoro_engine().data4);
    g
}

/// The engine's CLSID in registry form: `{XXXXXXXX-XXXX-XXXX-XXXX-XXXXXXXXXXXX}`.
/// The setup program derives every registry string from it, so the class id
/// has a single source.
pub fn clsid_braced() -> (r: String)
    ensures
        r@ == registry_form(spec_clsid_kokoro_engine()),
{
    clsid_kokoro_engine().registry_form()
}

/// What `DllGetClassObject` does with a request.
pub enum ClassObjectRequest {
    /// A pointer argument is null: `E_POINTER`.
    InvalidPointer,
    /// The requested class is not this engine: `CLASS_E_CLASSNOTAVAILABLE`.
    ClassNotAvailable,
    /// Hand out the engine's class factory.
    Provide,
}

/// Decides a `DllGetClassObject` request from whether all its pointers are
/// non-null and from the class id it asks for.
pub fn class_object_request(pointers_present: bool, requested: &Guid) -> (r: ClassObjectRequest)
    ensures
        !pointers_present ==> r is InvalidPointer,
        pointers_present && *requested != spec_clsid_kokoro_engine() ==> r is ClassNotAvailable,
        pointers_present && *requested == spec_clsid_kokoro_engine() ==> r is Provide,
{
    if !pointers_present {
        return ClassObjectRequest::InvalidPointer;
    }
    let engine = clsid_kokoro_engine();
    if requested.same_as(&engine) {
        ClassObjectRequest::Provide
    } else {
        ClassObjectRequest::ClassNotAvailable
    }
}

/// `hex(v, width)` has `width` characters, each an upper-case hexadecimal digit.
pub proof fn lemma_hex_digits(v: nat, width: nat)
    ensures
        hex(v, width).len() == width,
        forall|i: int| 0 <= i < width ==> is_upper_hex_digit(#[trigger] hex(v, width)[i]),
    decreases width,
{
    if width > 0 {
        lemma_hex_digits(v / 16, (width - 1) as nat);
        let d: nat = v % 16;
        assert(is_upper_hex_digit(hex_digit(d)));
        let h = hex(v, width);
        assert forall|i: int| 0 <= i < width implies is_upper_hex_digit(#[trigger] h[i]) by {
            if i < width - 1 {
                assert(h[i] == hex(v / 16, (width - 1) as nat)[i]);
            }
        }
    }
}

/// The shape of a GUID's registry form: 38 characters, braces at both ends,
/// dashes at positions 9, 14, 19 and 24, upper-case hexadecimal digits
/// everywhere else.
pub open spec fn has_registry_shape(s: Seq<char>) -> bool {
    &&& s.len() == 38
    &&& s[0] == '{'
    &&& s[37] == '}'
    &&& s[9] == '-'
    &&& s[14] == '-'
    &&& s[19] == '-'
    &&& s[24] == '-'
    &&& forall|i: int|
        0 < i < 37 && i != 9 && i != 14 && i != 19 && i != 24 ==> is_upper_hex_digit(
            #[trigger] s[i],
        )
}

/// Every GUID's registry form is `{XXXXXXXX-XXXX-XXXX-XXXX-XXXXXXXXXXXX}`
/// with upper-case hexadecimal digits.
pub proof fn lemma_registry_form_shape(g: Guid)
    ensures
        has_registry_shape(registry_form(g)),
{
    let h1 = hex(g.data1 as nat, 8);
    let h2 = hex(g.data2 as nat, 4);
    let h3 = hex(g.data3 as nat, 4);
    let b0 = hex(g.data4[0] as nat, 2);
    let b1 = hex(g.data4[1] as nat, 2);
    let b2 = hex(g.data4[2] as nat, 2);
    let b3 = hex(g.data4[3] as nat, 2);
    let b4 = hex(g.data4[4] as nat, 2);
    let b5 = hex(g.data4[5] as nat, 2);
    let b6 = hex(g.data4[6] as nat, 2);
    let b7 = hex(g.data4[7] as nat, 2);
    lemma_hex_digits(g.data1 as nat, 8);
    lemma_hex_digits(g.data2 as nat, 4);
    lemma_hex_digits(g.data3 as nat, 4);
    lemma_hex_digits(g.data4[0] as nat, 2);
    lemma_hex_digits(g.data4[1] as nat, 2);
    lemma_hex_digits(g.data4[2] as nat, 2);
    lemma_hex_digits(g.data4[3] as nat, 2);
    lemma_hex_digits(g.data4[4] as nat, 2);
    lemma_hex_digits(g.data4[5] as nat, 2);
    lemma_hex_digits(g.data4[6] as nat, 2);
    lemma_hex_digits(g.data4[7] as nat, 2);
    let s = registry_form(g);
    let tail = b2 + b3 + b4 + b5 + b6 + b7;
    assert(tail.len() == 12);
    assert forall|i: int| 0 <= i < 12 implies is_upper_hex_digit(#[trigger] tail[i]) by {
        if i < 2 {
            assert(tail[i] == b2[i]);
        } else if i < 4 {
            assert(tail[i] == b3[i - 2]);
        } else if i < 6 {
            assert(tail[i] == b4[i - 4]);
        } else if i < 8 {
            assert(tail[i] == b5[i - 6]);
        } else if i < 10 {
            assert(tail[i] == b6[i - 8]);
        } else {
            assert(tail[i] == b7[i - 10]);
        }
    }
    assert(s =~= seq!['{'] + h1 + seq!['-'] + h2 + seq!['-'] + h3 + seq!['-'] + b0 + b1 + seq![
        '-',
    ] + tail + seq!['}']);
    assert(s.len() == 38);
    assert forall|i: int|
        0 < i < 37 && i != 9 && i != 14 && i != 19 && i != 24 implies is_upper_hex_digit(
        #[trigger] s[i],
    ) by {
        if i < 9 {
            assert(s[i] == h1[i - 1]);
        } else if i < 14 {
            assert(s[i] == h2[i - 10]);
        } else if i < 19 {
            assert(s[i] == h3[i - 15]);
        } else if i < 22 {
            assert(s[i] == b0[i - 20]);
        } else if i < 24 {
            assert(s[i] == b1[i - 22]);
        } else {
            assert(s[i] == tail[i - 25]);
        }
    }
}

/// `16` to the power `w`.
pub open spec fn pow16(w: nat) -> nat
    decreases w,
{
    if w == 0 {
        1
    } else {
        16 * pow16((w - 1) as nat)
    }
}

/// Different digits have different characters.
proof fn lemma_hex_digit_injective(a: nat, b: nat)
    requires
        a < 16,
        b < 16,
        hex_digit(a) == hex_digit(b),
    ensures
        a == b,
{
    let ca = hex_digit(a);
    let cb = hex_digit(b);
    assert(ca as u32 == if a < 10 { 48 + a } else { 55 + a });
    assert(cb as u32 == if b < 10 { 48 + b } else { 55 + b });
}

/// Below `16^w`, the last `w` hexadecimal digits determine the number.
proof fn lemma_hex_determines(v: nat, u: nat, w: nat)
    requires
        v < pow16(w),
        u < pow16(w),
        hex(v, w) == hex(u, w),
    ensures
        v == u,
    decreases w,
{
    if w > 0 {
        let p: nat = pow16((w - 1) as nat);
        assert(hex(v, w).drop_last() == hex(v / 16, (w - 1) as nat));
        assert(hex(u, w).drop_last() == hex(u / 16, (w - 1) as nat));
        assert(hex(v, w).last() == hex_digit(v % 16));
        assert(hex(u, w).last() == hex_digit(u % 16));
        lemma_hex_digit_injective(v % 16, u % 16);
        assert(v / 16 < p) by (nonlinear_arith)
            requires
                v < 16 * p,
        ;
        assert(u / 16 < p) by (nonlinear_arith)
            requires
                u < 16 * p,
        ;
        lemma_hex_determines(v / 16, u / 16, (w - 1) as nat);
        assert(v == 16 * (v / 16) + v % 16) by (nonlinear_arith);
        assert(u == 16 * (u / 16) + u % 16) by (nonlinear_arith);
    }
}

/// The registry form names exactly one GUID: two GUIDs with the same
/// registry form are the same GUID, so the string the setup program writes
/// identifies the engine's class.
pub proof fn lemma_registry_form_injective(g1: Guid, g2: Guid)
    requires
        registry_form(g1) == registry_form(g2),
    ensures
        g1 == g2,
{
    reveal_with_fuel(pow16, 9);
    assert(pow16(2) == 256);
    assert(pow16(4) == 65536);
    assert(pow16(8) == 0x1_0000_0000);
    lemma_registry_form_shape(g1);
    let s1 = registry_form(g1);
    let s2 = registry_form(g2);
    lemma_hex_digits(g1.data1 as nat, 8);
    lemma_hex_digits(g2.data1 as nat, 8);
    lemma_hex_digits(g1.data2 as nat, 4);
    lemma_hex_digits(g2.data2 as nat, 4);
    lemma_hex_digits(g1.data3 as nat, 4);
    lemma_hex_digits(g2.data3 as nat, 4);
    assert(s1.subrange(1, 9) == hex(g1.data1 as nat, 8));
    assert(s2.subrange(1, 9) == hex(g2.data1 as nat, 8));
    lemma_hex_determines(g1.data1 as nat, g2.data1 as nat, 8);
    assert(s1.subrange(10, 14) == hex(g1.data2 as nat, 4));
    assert(s2.subrange(10, 14) == hex(g2.data2 as nat, 4));
    lemma_hex_determines(g1.data2 as nat, g2.data2 as nat, 4);
    assert(s1.subrange(15, 19) == hex(g1.data3 as nat, 4));
    assert(s2.subrange(15, 19) == hex(g2.data3 as nat, 4));
    lemma_hex_determines(g1.data3 as nat, g2.data3 as nat, 4);
    lemma_hex_digits(g1.data4[0] as nat, 2);
    lemma_hex_digits(g2.data4[0] as nat, 2);
    assert(s1.subrange(20, 22) == hex(g1.data4[0] as nat, 2));
    assert(s2.subrange(20, 22) == hex(g2.data4[0] as nat, 2));
    lemma_hex_determines(g1.data4[0] as nat, g2.data4[0] as nat, 2);
    lemma_hex_digits(g1.data4[1] as nat, 2);
    lemma_hex_digits(g2.data4[1] as nat, 2);
    assert(s1.subrange(22, 24) == hex(g1.data4[1] as nat, 2));
    assert(s2.subrange(22, 24) == hex(g2.data4[1] as nat, 2));
    lemma_hex_determines(g1.data4[1] as nat, g2.data4[1] as nat, 2);
    lemma_hex_digits(g1.data4[2] as nat, 2);
    lemma_hex_digits(g2.data4[2] as nat, 2);
    assert(s1.subrange(25, 27) == hex(g1.data4[2] as nat, 2));
    assert(s2.subrange(25, 27) == hex(g2.data4[2] as nat, 2));
    lemma_hex_determines(g1.data4[2] as nat, g2.data4[2] as nat, 2);
    lemma_hex_digits(g1.data4[3] as nat, 2);
    lemma_hex_digits(g2.data4[3] as nat, 2);
    assert(s1.subrange(27, 29) == hex(g1.data4[3] as nat, 2));
    assert(s2.subrange(27, 29) == hex(g2.data4[3] as nat, 2));
    lemma_hex_determines(g1.data4[3] as nat, g2.data4[3] as nat, 2);
    lemma_hex_digits(g1.data4[4] as nat, 2);
    lemma_hex_digits(g2.data4[4] as nat, 2);
    assert(s1.subrange(29, 31) == hex(g1.data4[4] as nat, 2));
    assert(s2.subrange(29, 31) == hex(g2.data4[4] as nat, 2));
    lemma_hex_determines(g1.data4[4] as nat, g2.data4[4] as nat, 2);
    lemma_hex_digits(g1.data4[5] as nat, 2);
    lemma_hex_digits(g2.data4[5] as nat, 2);
    assert(s1.subrange(31, 33) == hex(g1.data4[5] as nat, 2));
    assert(s2.subrange(31, 33) == hex(g2.data4[5] as nat, 2));
    lemma_hex_determines(g1.data4[5] as nat, g2.data4[5] as nat, 2);
    lemma_hex_digits(g1.data4[6] as nat, 2);
    lemma_hex_digits(g2.data4[6] as nat, 2);
    assert(s1.subrange(33, 35) == hex(g1.data4[6] as nat, 2));
    assert(s2.subrange(33, 35) == hex(g2.data4[6] as nat, 2));
    lemma_hex_determines(g1.data4[6] as nat, g2.data4[6] as nat, 2);
    lemma_hex_digits(g1.data4[7] as nat, 2);
    lemma_hex_digits(g2.data4[7] as nat, 2);
    assert(s1.subrange(35, 37) == hex(g1.data4[7] as nat, 2));
    assert(s2.subrange(35, 37) == hex(g2.data4[7] as nat, 2));
    lemma_hex_determines(g1.data4[7] as nat, g2.data4[7] as nat, 2);
    assert(g1.data4 =~= g2.data4);
}

} // verus!
