//! The fields of a mesh network PDU header: IVI, CTL, TTL, NID, 24-bit numbers,
//! sequence numbers and message integrity checks.
use crate::bytes::{
    be_bytes,
    be_value,
    le_bytes,
    le_value,
    lemma_be_roundtrip,
    lemma_le_roundtrip,
    pow256,
    ToFromBytesEndian,
};
use vstd::prelude::*;
use vstd::string::StringSliceAdditionalSpecFns;

verus! {

/// The value of an ASCII hexadecimal digit, upper or lower case.
pub open spec fn hex_digit_value(c: u8) -> Option<u8> {
    if 48 <= c <= 57 {
        Some((c - 48) as u8)
    } else if 97 <= c <= 102 {
        Some((c - 87) as u8)
    } else if 65 <= c <= 70 {
        Some((c - 55) as u8)
    } else {
        None
    }
}

/// The bytes that a string of hexadecimal digit pairs spells, most significant
/// digit first in each pair; `None` for an odd length or a non-digit.
pub open spec fn hex_decode(s: Seq<u8>) -> Option<Seq<u8>>
    decreases s.len(),
{
    if s.len() == 0 {
        Some(Seq::empty())
    } else if s.len() == 1 {
        None
    } else {
        match (hex_digit_value(s[0]), hex_digit_value(s[1]), hex_decode(s.skip(2))) {
            (Some(hi), Some(lo), Some(rest)) => Some(seq![(hi * 16 + lo) as u8] + rest),
            _ => None,
        }
    }
}

fn hex_digit(c: u8) -> (r: Option<u8>)
    ensures
        r == hex_digit_value(c),
{
    if 48 <= c && c <= 57 {
        Some(c - 48)
    } else if 97 <= c && c <= 102 {
        Some(c - 87)
    } else if 65 <= c && c <= 70 {
        Some(c - 55)
    } else {
        None
    }
}

/// The ASCII character of the hexadecimal digit `d` (below 16), upper case or not.
pub open spec fn hex_char(d: nat, upper: bool) -> u8 {
    if d < 10 {
        (48 + d) as u8
    } else if upper {
        (65 + d - 10) as u8
    } else {
        (97 + d - 10) as u8
    }
}

/// Bytes spelled as pairs of hexadecimal digits, high digit first.
pub open spec fn hex_encode(bytes: Seq<u8>, upper: bool) -> Seq<u8>
    decreases bytes.len(),
{
    if bytes.len() == 0 {
        Seq::empty()
    } else {
        seq![hex_char((bytes[0] / 16) as nat, upper), hex_char((bytes[0] % 16) as nat, upper)] + hex_encode(
            bytes.drop_first(),
            upper,
        )
    }
}

/// Every digit `0`-`9`, `a`-`f` and `A`-`F` has its value, and nothing else is a
/// digit; so any bytes spelled in hexadecimal, in upper or in lower case, decode
/// back to themselves.
pub proof fn lemma_hex_roundtrip(bytes: Seq<u8>, upper: bool)
    ensures
        hex_decode(hex_encode(bytes, upper)) == Some(bytes),
        forall|c: u8|
            #![trigger hex_digit_value(c)]
            (hex_digit_value(c) is Some) <==> (48 <= c <= 57 || 65 <= c <= 70 || 97 <= c <= 102),
        forall|d: nat| #![trigger hex_char(d, upper)] d < 16 ==> hex_digit_value(hex_char(d, upper)) == Some(d as u8),
    decreases bytes.len(),
{
    assert forall|d: nat| #![trigger hex_char(d, upper)] d < 16 implies hex_digit_value(hex_char(d, upper)) == Some(d as u8) by {
    }
    if bytes.len() > 0 {
        lemma_hex_roundtrip(bytes.drop_first(), upper);
        let e = hex_encode(bytes, upper);
        let hi = bytes[0] / 16;
        let lo = bytes[0] % 16;
        assert(hex_digit_value(hex_char(hi as nat, upper)) == Some(hi));
        assert(hex_digit_value(hex_char(lo as nat, upper)) == Some(lo));
        assert(e.skip(2) =~= hex_encode(bytes.drop_first(), upper));
        assert(e[0] == hex_char(hi as nat, upper) && e[1] == hex_char(lo as nat, upper));
        assert(seq![(hi * 16 + lo) as u8] + bytes.drop_first() =~= bytes);
    } else {
        assert(hex_encode(bytes, upper) =~= Seq::<u8>::empty());
    }
}

/// Decodes a string of hexadecimal digit pairs into the bytes it spells.
pub fn bytes_str_to_buf(s: &str) -> (r: Option<Vec<u8>>)
    ensures
        r matches Some(v) ==> hex_decode(s.spec_bytes()) == Some(v@),
        r is None ==> hex_decode(s.spec_bytes()) is None,
{
    let b = s.as_bytes();
    let n = b.len();
    let mut out: Vec<u8> = Vec::new();
    let mut i: usize = 0;
    assert(b@.skip(0) =~= b@);
    while i + 1 < n
        invariant
            n == b@.len(),
            i % 2 == 0,
            i <= n,
            b@ == s.spec_bytes(),
            hex_decode(b@) == (match hex_decode(b@.skip(i as int)) {
                Some(rest) => Some(out@ + rest),
                None => None,
            }),
        decreases n - i,
    {
        let ghost t = b@.skip(i as int);
        assert(t.skip(2) =~= b@.skip(i + 2));
        assert(t[0] == b@[i as int] && t[1] == b@[i + 1]);
        let hi = hex_digit(b[i]);
        let lo = hex_digit(b[i + 1]);
        match (hi, lo) {
            (Some(h), Some(l)) => {
                let ghost old_out = out@;
                out.push(h * 16 + l);
                assert(old_out + (seq![(h * 16 + l) as u8] + b@.skip(i + 2).skip(0)) =~= out@
                    + b@.skip(i + 2).skip(0)) by {
                    assert(b@.skip(i + 2).skip(0) =~= b@.skip(i + 2));
                }
                proof {
                    match hex_decode(b@.skip(i + 2)) {
                        Some(rest) => {
                            assert(old_out + (seq![(h * 16 + l) as u8] + rest) =~= out@ + rest);
                        },
                        None => {},
                    }
                }
                i = i + 2;
            },
            _ => {
                return None;
            },
        }
    }
    if i == n {
        assert(b@.skip(i as int) =~= Seq::<u8>::empty());
        assert(out@ + Seq::<u8>::empty() =~= out@);
        Some(out)
    } else {
        None
    }
}


/// IV Index flag: the least significant bit of the IV index.
#[derive(Copy, Clone, Ord, PartialOrd, Eq, PartialEq, Structural, Hash, Debug)]
pub struct IVI(pub bool);

impl From<IVI> for bool {
    fn from(i: IVI) -> (b: bool) {
        i.0
    }
}

impl vstd::std_specs::convert::FromSpecImpl<IVI> for bool {
    open spec fn obeys_from_spec() -> bool {
        true
    }

    open spec fn from_spec(i: IVI) -> bool {
        i.0
    }
}

impl From<bool> for IVI {
    fn from(b: bool) -> (i: IVI) {
        IVI(b)
    }
}

impl vstd::std_specs::convert::FromSpecImpl<bool> for IVI {
    open spec fn obeys_from_spec() -> bool {
        true
    }

    open spec fn from_spec(b: bool) -> IVI {
        IVI(b)
    }
}

/// Network control flag: set for control messages, clear for access messages.
#[derive(Copy, Clone, Ord, PartialOrd, Eq, PartialEq, Structural, Hash, Debug)]
pub struct CTL(pub bool);

impl From<CTL> for bool {
    fn from(c: CTL) -> (b: bool) {
        c.0
    }
}

impl vstd::std_specs::convert::FromSpecImpl<CTL> for bool {
    open spec fn obeys_from_spec() -> bool {
        true
    }

    open spec fn from_spec(c: CTL) -> bool {
        c.0
    }
}

impl From<bool> for CTL {
    fn from(b: bool) -> (c: CTL) {
        CTL(b)
    }
}

impl vstd::std_specs::convert::FromSpecImpl<bool> for CTL {
    open spec fn obeys_from_spec() -> bool {
        true
    }

    open spec fn from_spec(b: bool) -> CTL {
        CTL(b)
    }
}

/// The largest time to live, and the largest network identifier.
pub const TTL_MAX: u8 = 127;

/// The byte that holds a 7-bit field in its low bits and a flag in its high bit.
pub open spec fn with_flag_byte(v: u8, flag: bool) -> u8 {
    (v + if flag { 128int } else { 0int }) as u8
}

proof fn lemma_flag_byte(v: u8, flag: bool)
    requires
        v <= 127,
    ensures
        v | ((if flag { 1u8 } else { 0u8 }) << 7u8) == with_flag_byte(v, flag),
{
    if flag {
        assert(v <= 127 ==> v | (1u8 << 7u8) == v + 128) by (bit_vector);
    } else {
        assert(v | (0u8 << 7u8) == v) by (bit_vector);
    }
}

proof fn lemma_split_byte(v: u8)
    ensures
        v & 0x7F == v % 128,
        (v & 0x80 != 0) == (v >= 128),
{
    assert(v & 0x7F == v % 128) by (bit_vector);
    assert((v & 0x80 != 0) == (v >= 128)) by (bit_vector);
}

/// Time to live: a 7-bit hop count.
#[derive(Copy, Clone, Ord, PartialOrd, Eq, PartialEq, Hash, Debug)]
pub struct TTL(u8);

impl View for TTL {
    type V = u8;

    closed spec fn view(&self) -> u8 {
        self.0
    }
}

impl TTL {
    #[verifier::type_invariant]
    spec fn inv(self) -> bool {
        self.0 <= TTL_MAX
    }

    /// A TTL of `v`, which must fit in 7 bits.
    pub fn new(v: u8) -> (t: TTL)
        requires
            v <= TTL_MAX,
        ensures
            t@ == v,
    {
        TTL(v)
    }

    /// The TTL in the low 7 bits of a byte whose high bit is `flag`.
    pub fn with_flag(&self, flag: bool) -> (r: u8)
        ensures
            self@ <= TTL_MAX,
            r == with_flag_byte(self@, flag),
    {
        proof {
            use_type_invariant(self);
            lemma_flag_byte(self.0, flag);
        }
        self.0 | ((flag as u8) << 7)
    }

    /// Splits a byte into its low 7 bits as a TTL and its high bit as a flag.
    pub fn new_with_flag(v: u8) -> (r: (TTL, bool))
        ensures
            r.0@ == v % 128,
            r.1 == (v >= 128),
    {
        proof {
            lemma_split_byte(v);
        }
        (TTL(v & 0x7F), v & 0x80 != 0)
    }

    /// The TTL in the low 7 bits of `v`; the high bit is dropped.
    pub fn from_masked_u8(v: u8) -> (t: TTL)
        ensures
            t@ == v % 128,
    {
        proof {
            lemma_split_byte(v);
        }
        TTL(v & 0x7F)
    }

    /// Whether a message with this TTL is to be relayed: TTL 0 and 1 are not.
    pub fn should_relay(&self) -> (r: bool)
        ensures
            self@ <= TTL_MAX,
            r == (self@ >= 2),
    {
        proof {
            use_type_invariant(self);
        }
        match self.0 {
            2..=127 => true,
            _ => false,
        }
    }
}

/// The largest network identifier.
pub const NID_MAX: u8 = 127;

/// Network identifier: a 7-bit value derived from the network key.
#[derive(Copy, Clone, Ord, PartialOrd, Eq, PartialEq, Hash, Debug)]
pub struct NID(u8);

impl View for NID {
    type V = u8;

    closed spec fn view(&self) -> u8 {
        self.0
    }
}

impl NID {
    #[verifier::type_invariant]
    spec fn inv(self) -> bool {
        self.0 <= NID_MAX
    }

    /// A NID of `v`, which must fit in 7 bits.
    pub fn new(v: u8) -> (n: NID)
        requires
            v <= NID_MAX,
        ensures
            n@ == v,
    {
        NID(v)
    }

    /// The NID in the low 7 bits of a byte whose high bit is `flag`.
    pub fn with_flag(&self, flag: bool) -> (r: u8)
        ensures
            self@ <= NID_MAX,
            r == with_flag_byte(self@, flag),
    {
        proof {
            use_type_invariant(self);
            lemma_flag_byte(self.0, flag);
        }
        self.0 | ((flag as u8) << 7)
    }

    /// The NID in the low 7 bits of `v`; the high bit is dropped.
    pub fn from_masked_u8(v: u8) -> (n: NID)
        ensures
            n@ == v % 128,
    {
        proof {
            lemma_split_byte(v);
        }
        NID(v & 0x7F)
    }

    /// Splits a byte into its low 7 bits as a NID and its high bit as a flag.
    pub fn new_with_flag(v: u8) -> (r: (NID, bool))
        ensures
            r.0@ == v % 128,
            r.1 == (v >= 128),
    {
        proof {
            lemma_split_byte(v);
        }
        (NID(v & 0x7F), v & 0x80 != 0)
    }
}

/// Splitting the byte that `with_flag` builds gives back the 7-bit value and
/// the flag (for TTL and NID alike).
pub proof fn lemma_flag_byte_roundtrip(v: u8, flag: bool)
    requires
        v <= 127,
    ensures
        with_flag_byte(v, flag) % 128 == v,
        (with_flag_byte(v, flag) >= 128) == flag,
{
}

/// Joining a byte's low 7 bits with its high bit as the flag gives the byte back.
pub proof fn lemma_split_byte_roundtrip(b: u8)
    ensures
        with_flag_byte(b % 128, b >= 128) == b,
{
}


/// The largest number that 24 bits hold.
pub const U24_MAX: u32 = 16777215;

/// A 24-bit unsigned number, held in a `u32`.
#[derive(Copy, Clone, Ord, PartialOrd, Eq, PartialEq, Hash, Debug)]
pub struct U24(u32);

impl View for U24 {
    type V = u32;

    closed spec fn view(&self) -> u32 {
        self.0
    }
}

impl Default for U24 {
    fn default() -> (u: U24)
        ensures
            u@ == 0,
    {
        U24(0)
    }
}

impl U24 {
    /// The number `v`, which must fit in 24 bits.
    pub fn new(v: u32) -> (u: U24)
        requires
            v <= U24_MAX,
        ensures
            u@ == v,
    {
        U24(v)
    }

    /// The low 24 bits of `v`; the fourth byte is dropped.
    pub fn new_masked(v: u32) -> (u: U24)
        ensures
            u@ == v % 0x1000000,
    {
        assert(v & 0xFFFFFF == v % 0x1000000) by (bit_vector);
        U24(v & 0xFFFFFF)
    }

    /// The number as a `u32`.
    pub fn value(&self) -> (v: u32)
        ensures
            v == self@,
    {
        self.0
    }
}

impl From<(u8, u8, u8)> for U24 {
    /// The number whose little endian bytes are `b.0`, `b.1`, `b.2`.
    fn from(b: (u8, u8, u8)) -> (u: U24)
        ensures
            u@ == b.0 + 256 * b.1 + 65536 * b.2,
    {
        let (b0, b1, b2) = b;
        assert((b0 as u32) | ((b1 as u32) << 8u32) | ((b2 as u32) << 16u32) == (b0 as u32) + 256
            * (b1 as u32) + 65536 * (b2 as u32)) by (bit_vector);
        U24(b0 as u32 | ((b1 as u32) << 8) | ((b2 as u32) << 16))
    }
}

impl vstd::std_specs::convert::FromSpecImpl<(u8, u8, u8)> for U24 {
    open spec fn obeys_from_spec() -> bool {
        true
    }

    closed spec fn from_spec(b: (u8, u8, u8)) -> U24 {
        U24((b.0 + 256 * b.1 + 65536 * b.2) as u32)
    }
}

impl ToFromBytesEndian for U24 {
    type AsBytesType = [u8; 3];

    /// The low three bytes of the number, least significant first.
    fn to_bytes_le(&self) -> (r: [u8; 3])
        ensures
            r@ == le_bytes(self@ as nat, 3),
    {
        let b = (self.0).to_bytes_le();
        proof {
            reveal_with_fuel(le_bytes, 5);
        }
        let r = [b[0], b[1], b[2]];
        assert(r@ =~= le_bytes(self@ as nat, 3));
        r
    }

    /// The three most significant bytes of the number's four, most significant
    /// first: the bytes of `self / 256`.
    fn to_bytes_be(&self) -> (r: [u8; 3])
        ensures
            r@ == be_bytes(self@ as nat / 256, 3),
    {
        let b = (self.0).to_bytes_be();
        proof {
            reveal_with_fuel(be_bytes, 5);
        }
        let r = [b[0], b[1], b[2]];
        assert(r@ =~= be_bytes(self@ as nat / 256, 3));
        r
    }

    /// The number whose little endian bytes are `bytes`, which must be three.
    fn from_bytes_le(bytes: &[u8]) -> (r: Option<U24>)
        ensures
            r is Some <==> bytes@.len() == 3,
            r matches Some(u) ==> u@ == le_value(bytes@),
    {
        if bytes.len() != 3 {
            None
        } else {
            let four = [bytes[0], bytes[1], bytes[2], 0];
            let v = u32::from_bytes_le(&four).unwrap();
            proof {
                reveal_with_fuel(le_value, 5);
                assert(four@.drop_first().drop_first().drop_first().drop_first() =~= Seq::<u8>::empty());
                assert(bytes@.drop_first().drop_first().drop_first() =~= Seq::<u8>::empty());
            }
            Some(U24(v))
        }
    }

    /// The three bytes, most significant first, followed by a zero byte, read as
    /// a big endian `u32`: `256` times the number they spell.
    fn from_bytes_be(bytes: &[u8]) -> (r: Option<U24>)
        ensures
            r is Some <==> bytes@.len() == 3,
            r matches Some(u) ==> u@ == be_value(bytes@) * 256,
    {
        if bytes.len() != 3 {
            None
        } else {
            let four = [bytes[0], bytes[1], bytes[2], 0];
            let v = u32::from_bytes_be(&four).unwrap();
            proof {
                reveal_with_fuel(be_value, 5);
                assert(four@.drop_last() =~= bytes@);
            }
            Some(U24(v))
        }
    }
}

/// A 24-bit sequence number.
#[derive(Copy, Clone, Eq, Ord, PartialOrd, PartialEq, Debug, Hash)]
pub struct SequenceNumber(pub U24);

impl ToFromBytesEndian for SequenceNumber {
    type AsBytesType = [u8; 3];

    fn to_bytes_le(&self) -> (r: [u8; 3])
        ensures
            r@ == le_bytes(self.0@ as nat, 3),
    {
        (self.0).to_bytes_le()
    }

    fn to_bytes_be(&self) -> (r: [u8; 3])
        ensures
            r@ == be_bytes(self.0@ as nat / 256, 3),
    {
        (self.0).to_bytes_be()
    }

    fn from_bytes_le(bytes: &[u8]) -> (r: Option<SequenceNumber>)
        ensures
            r is Some <==> bytes@.len() == 3,
            r matches Some(n) ==> n.0@ == le_value(bytes@),
    {
        Some(SequenceNumber(U24::from_bytes_le(bytes)?))
    }

    fn from_bytes_be(bytes: &[u8]) -> (r: Option<SequenceNumber>)
        ensures
            r is Some <==> bytes@.len() == 3,
            r matches Some(n) ==> n.0@ == be_value(bytes@) * 256,
    {
        Some(SequenceNumber(U24::from_bytes_be(bytes)?))
    }
}

/// Message integrity check: 64 bits (big) or 32 bits (small).
#[derive(Copy, Clone, Eq, PartialEq, Structural, Debug, Hash)]
pub enum MIC {
    Big(u64),
    Small(u32),
}

impl MIC {
    /// The number of bytes of a MIC of this kind.
    pub open spec fn spec_byte_size(self) -> nat {
        match self {
            MIC::Big(_) => 8,
            MIC::Small(_) => 4,
        }
    }

    /// A small MIC from 4 big endian bytes, a big one from 8; `None` for any
    /// other length.
    pub fn try_from_bytes_be(bytes: &[u8]) -> (r: Option<MIC>)
        ensures
            r == (if bytes@.len() == 4 {
                Some(MIC::Small(be_value(bytes@) as u32))
            } else if bytes@.len() == 8 {
                Some(MIC::Big(be_value(bytes@) as u64))
            } else {
                None::<MIC>
            }),
    {
        match bytes.len() {
            4 => Some(MIC::Small(u32::from_bytes_be(bytes)?)),
            8 => Some(MIC::Big(u64::from_bytes_be(bytes)?)),
            _ => None,
        }
    }

    /// A small MIC from 4 little endian bytes, a big one from 8; `None` for any
    /// other length.
    pub fn try_from_bytes_le(bytes: &[u8]) -> (r: Option<MIC>)
        ensures
            r == (if bytes@.len() == 4 {
                Some(MIC::Small(le_value(bytes@) as u32))
            } else if bytes@.len() == 8 {
                Some(MIC::Big(le_value(bytes@) as u64))
            } else {
                None::<MIC>
            }),
    {
        match bytes.len() {
            4 => Some(MIC::Small(u32::from_bytes_le(bytes)?)),
            8 => Some(MIC::Big(u64::from_bytes_le(bytes)?)),
            _ => None,
        }
    }

    /// The MIC as a `u64`.
    pub fn mic(&self) -> (v: u64)
        ensures
            v == (match *self {
                MIC::Big(b) => b,
                MIC::Small(s) => s as u64,
            }),
    {
        match self {
            MIC::Big(b) => *b,
            MIC::Small(s) => *s as u64,
        }
    }

    /// Whether this is a 64-bit MIC.
    pub fn is_big(&self) -> (r: bool)
        ensures
            r == (*self is Big),
    {
        match self {
            MIC::Big(_) => true,
            MIC::Small(_) => false,
        }
    }

    /// The number of bytes of this MIC.
    pub fn byte_size(&self) -> (n: usize)
        ensures
            n == self.spec_byte_size(),
    {
        if self.is_big() {
            8
        } else {
            4
        }
    }
}

/// Reading back the little endian bytes of a 24-bit number gives the number.
pub proof fn lemma_u24_le_roundtrip(v: u32)
    requires
        v <= U24_MAX,
    ensures
        le_value(le_bytes(v as nat, 3)) == v,
{
    reveal_with_fuel(pow256, 4);
    lemma_le_roundtrip(v as nat, 3);
}

/// `to_bytes_be` keeps the three high bytes of the four and `from_bytes_be`
/// puts them back there, so reading back gives the number exactly when its low
/// byte is zero.
pub proof fn lemma_u24_be_roundtrip(v: u32)
    ensures
        be_value(be_bytes(v as nat / 256, 3)) * 256 == v - v % 256,
        v % 256 == 0 ==> be_value(be_bytes(v as nat / 256, 3)) * 256 == v,
{
    reveal_with_fuel(pow256, 4);
    lemma_be_roundtrip(v as nat / 256, 3);
}

/// A MIC read from bytes is as many bytes long as were read.
pub proof fn lemma_mic_size(bytes: Seq<u8>)
    ensures
        bytes.len() == 4 ==> MIC::Small(be_value(bytes) as u32).spec_byte_size() == bytes.len()
            && MIC::Small(le_value(bytes) as u32).spec_byte_size() == bytes.len(),
        bytes.len() == 8 ==> MIC::Big(be_value(bytes) as u64).spec_byte_size() == bytes.len()
            && MIC::Big(le_value(bytes) as u64).spec_byte_size() == bytes.len(),
{
}

/// The largest key index: key indexes are 12 bits wide.
pub const KEY_INDEX_MAX: u16 = 0xFFF;


/// Whether every byte is an ASCII decimal digit.
pub open spec fn all_digits(s: Seq<u8>) -> bool {
    forall|i: int| 0 <= i < s.len() ==> 48 <= #[trigger] s[i] <= 57
}

/// The number that a string of ASCII decimal digits spells.
pub open spec fn digits_value(s: Seq<u8>) -> nat
    decreases s.len(),
{
    if s.len() == 0 {
        0
    } else {
        digits_value(s.drop_last()) * 10 + (s.last() - 48) as nat
    }
}

/// What `u16::from_str` reads: an optional `+` and at least one decimal digit,
/// of a value that fits in 16 bits.
pub open spec fn spec_parse_u16(s: Seq<u8>) -> Option<u16> {
    let d = if s.len() > 0 && s[0] == 43 {
        s.skip(1)
    } else {
        s
    };
    if d.len() > 0 && all_digits(d) && digits_value(d) <= u16::MAX {
        Some(digits_value(d) as u16)
    } else {
        None
    }
}

proof fn lemma_digits_prefix(s: Seq<u8>, i: int)
    requires
        all_digits(s),
        0 <= i <= s.len(),
    ensures
        digits_value(s.take(i)) <= digits_value(s),
    decreases s.len(),
{
    if i < s.len() {
        let t = s.drop_last();
        assert(t.take(i) =~= s.take(i));
        assert(all_digits(t));
        lemma_digits_prefix(t, i);
    } else {
        assert(s.take(i) =~= s);
    }
}

/// The decimal spelling of `n`, most significant digit first, without leading
/// zeros.
pub open spec fn decimal(n: nat) -> Seq<u8>
    decreases n,
{
    if n < 10 {
        seq![(48 + n) as u8]
    } else {
        decimal(n / 10).push((48 + n % 10) as u8)
    }
}

proof fn lemma_decimal_digits(n: nat)
    ensures
        decimal(n).len() > 0,
        all_digits(decimal(n)),
        digits_value(decimal(n)) == n,
    decreases n,
{
    if n >= 10 {
        lemma_decimal_digits(n / 10);
        let d = decimal(n);
        assert(d.drop_last() =~= decimal(n / 10));
        assert forall|i: int| 0 <= i < d.len() implies 48 <= #[trigger] d[i] <= 57 by {
            if i < d.len() - 1 {
                assert(d[i] == decimal(n / 10)[i]);
            }
        }
    } else {
        reveal_with_fuel(digits_value, 2);
        assert(decimal(n).drop_last() =~= Seq::<u8>::empty());
    }
}

/// A byte is a decimal digit exactly when it is one of `0` to `9` (0x30 to 0x39),
/// and every number of 16 bits, written in decimal, reads back as itself: so every
/// key index up to 4095 parses to itself, and every larger 16-bit number to none.
pub proof fn lemma_decimal_roundtrip(n: nat)
    requires
        n <= u16::MAX,
    ensures
        forall|c: u8| #![trigger seq![c]] all_digits(seq![c]) <==> 48 <= c <= 57,
        spec_parse_u16(decimal(n)) == Some(n as u16),
        spec_parse_u16(seq![43u8] + decimal(n)) == Some(n as u16),
{
    assert forall|c: u8| #![trigger seq![c]] all_digits(seq![c]) <==> 48 <= c <= 57 by {
        if all_digits(seq![c]) {
            assert(seq![c][0] == c);
        }
    }
    lemma_decimal_digits(n);
    let d = decimal(n);
    assert(48 <= d[0] <= 57);
    assert((seq![43u8] + d).skip(1) =~= d);
}

/// The key index that a decimal string names, as `u16::from_str` reads it;
/// `None` when it is no number of 16 bits or is above the largest key index.
pub fn parse_key_index(index: &str) -> (r: Option<u16>)
    ensures
        r == (match spec_parse_u16(index.spec_bytes()) {
            Some(v) => if v <= KEY_INDEX_MAX {
                Some(v)
            } else {
                None::<u16>
            },
            None => None::<u16>,
        }),
{
    let b = index.as_bytes();
    let ghost s = b@;
    let n = b.len();
    let start: usize = if n > 0 && b[0] == 43 { 1 } else { 0 };
    let ghost d = if s.len() > 0 && s[0] == 43 { s.skip(1) } else { s };
    assert(d =~= s.skip(start as int));
    if start == n {
        return None;
    }
    let mut value: u32 = 0;
    let mut i: usize = start;
    while i < n
        invariant
            n == s.len(),
            s == b@,
            b@ == index.spec_bytes(),
            d == (if s.len() > 0 && s[0] == 43 {
                s.skip(1)
            } else {
                s
            }),
            d == s.skip(start as int),
            start <= i <= n,
            all_digits(s.subrange(start as int, i as int)),
            value == digits_value(s.subrange(start as int, i as int)),
            value <= u16::MAX,
        decreases n - i,
    {
        let c = b[i];
        if c < 48 || c > 57 {
            assert(d[i - start] == c);
            return None;
        }
        let ghost prev = s.subrange(start as int, i as int);
        let ghost next = s.subrange(start as int, i + 1);
        assert(next.drop_last() =~= prev);
        assert(all_digits(next));
        let v = value * 10 + (c - 48) as u32;
        assert(v == digits_value(next));
        if v > 65535 {
            proof {
                assert(d.take(i + 1 - start) =~= next);
                if all_digits(d) {
                    lemma_digits_prefix(d, i + 1 - start);
                }
            }
            return None;
        }
        value = v;
        i = i + 1;
    }
    assert(s.subrange(start as int, n as int) =~= d);
    if value <= KEY_INDEX_MAX as u32 {
        Some(value as u16)
    } else {
        None
    }
}

/// A TTL is its value: two TTLs of equal value are equal.
pub proof fn lemma_ttl_view_injective(a: TTL, b: TTL)
    ensures
        a@ == b@ <==> a == b,
{
}

/// A NID is its value: two NIDs of equal value are equal.
pub proof fn lemma_nid_view_injective(a: NID, b: NID)
    ensures
        a@ == b@ <==> a == b,
{
}

/// A U24 is its value: two U24s of equal value are equal.
pub proof fn lemma_u24_view_injective(a: U24, b: U24)
    ensures
        a@ == b@ <==> a == b,
{
}

} // verus!
