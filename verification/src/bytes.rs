//! Big and little endian encodings of fixed width unsigned integers.
use vstd::prelude::*;

verus! {

/// The number that a big endian byte string denotes.
pub open spec fn be_value(s: Seq<u8>) -> nat
    decreases s.len(),
{
    if s.len() == 0 {
        0
    } else {
        be_value(s.drop_last()) * 256 + s.last() as nat
    }
}

/// The number that a little endian byte string denotes.
pub open spec fn le_value(s: Seq<u8>) -> nat
    decreases s.len(),
{
    if s.len() == 0 {
        0
    } else {
        s.first() as nat + 256 * le_value(s.drop_first())
    }
}

/// The `n` low bytes of `v`, most significant first.
pub open spec fn be_bytes(v: nat, n: nat) -> Seq<u8>
    decreases n,
{
    if n == 0 {
        Seq::empty()
    } else {
        be_bytes(v / 256, (n - 1) as nat).push((v % 256) as u8)
    }
}

/// The `n` low bytes of `v`, least significant first.
pub open spec fn le_bytes(v: nat, n: nat) -> Seq<u8>
    decreases n,
{
    if n == 0 {
        Seq::empty()
    } else {
        seq![(v % 256) as u8] + le_bytes(v / 256, (n - 1) as nat)
    }
}

/// `256` to the power `n`: one more than the largest number that `n` bytes hold.
pub open spec fn pow256(n: nat) -> nat
    decreases n,
{
    if n == 0 {
        1
    } else {
        256 * pow256((n - 1) as nat)
    }
}

/// The encodings have exactly the number of bytes asked for.
pub proof fn lemma_bytes_len(v: nat, n: nat)
    ensures
        be_bytes(v, n).len() == n,
        le_bytes(v, n).len() == n,
    decreases n,
{
    if n > 0 {
        lemma_bytes_len(v / 256, (n - 1) as nat);
    }
}

/// `pow256` is positive.
pub proof fn lemma_pow256_pos(n: nat)
    ensures
        pow256(n) > 0,
    decreases n,
{
    if n > 0 {
        lemma_pow256_pos((n - 1) as nat);
    }
}

/// Decoding the big endian encoding of `v` in `n` bytes gives `v` modulo `256^n`,
/// so `v` itself whenever it fits.
pub proof fn lemma_be_roundtrip(v: nat, n: nat)
    ensures
        be_value(be_bytes(v, n)) == v % pow256(n),
        v < pow256(n) ==> be_value(be_bytes(v, n)) == v,
    decreases n,
{
    if n > 0 {
        let m = (n - 1) as nat;
        lemma_be_roundtrip(v / 256, m);
        lemma_pow256_pos(m);
        assert(be_bytes(v, n).drop_last() =~= be_bytes(v / 256, m));
        vstd::arithmetic::div_mod::lemma_mod_breakdown(v as int, 256, pow256(m) as int);
    }
}

/// Decoding the little endian encoding of `v` in `n` bytes gives `v` modulo `256^n`,
/// so `v` itself whenever it fits.
pub proof fn lemma_le_roundtrip(v: nat, n: nat)
    ensures
        le_value(le_bytes(v, n)) == v % pow256(n),
        v < pow256(n) ==> le_value(le_bytes(v, n)) == v,
    decreases n,
{
    if n > 0 {
        let m = (n - 1) as nat;
        lemma_le_roundtrip(v / 256, m);
        lemma_pow256_pos(m);
        assert(le_bytes(v, n).drop_first() =~= le_bytes(v / 256, m));
        vstd::arithmetic::div_mod::lemma_mod_breakdown(v as int, 256, pow256(m) as int);
    }
}

/// Encoding the number that a big endian byte string denotes, in as many bytes,
/// gives the byte string back.
pub proof fn lemma_be_value_roundtrip(s: Seq<u8>)
    ensures
        be_bytes(be_value(s), s.len()) == s,
        be_value(s) < pow256(s.len()),
    decreases s.len(),
{
    if s.len() > 0 {
        let t = s.drop_last();
        lemma_be_value_roundtrip(t);
        let x = be_value(t);
        vstd::arithmetic::div_mod::lemma_fundamental_div_mod_converse(
            x * 256 + s.last(),
            256,
            x as int,
            s.last() as int,
        );
        assert(be_bytes(be_value(s), s.len()) =~= t.push(s.last()));
        assert(t.push(s.last()) =~= s);
    }
}

/// Encoding the number that a little endian byte string denotes, in as many bytes,
/// gives the byte string back.
pub proof fn lemma_le_value_roundtrip(s: Seq<u8>)
    ensures
        le_bytes(le_value(s), s.len()) == s,
        le_value(s) < pow256(s.len()),
    decreases s.len(),
{
    if s.len() > 0 {
        let t = s.drop_first();
        lemma_le_value_roundtrip(t);
        let x = le_value(t);
        vstd::arithmetic::div_mod::lemma_fundamental_div_mod_converse(
            s.first() + 256 * x,
            256,
            x as int,
            s.first() as int,
        );
        assert(le_bytes(le_value(s), s.len()) =~= seq![s.first()] + t);
        assert(seq![s.first()] + t =~= s);
    }
}

/// Conversion between an integer and its byte string in either order.
pub trait ToFromBytesEndian: Sized {
    type AsBytesType;

    fn to_bytes_le(&self) -> Self::AsBytesType;

    fn to_bytes_be(&self) -> Self::AsBytesType;

    fn from_bytes_le(bytes: &[u8]) -> Option<Self>;

    fn from_bytes_be(bytes: &[u8]) -> Option<Self>;
}

impl ToFromBytesEndian for u16 {
    type AsBytesType = [u8; 2];

    fn to_bytes_le(&self) -> (r: [u8; 2])
        ensures
            r@ == le_bytes(*self as nat, 2),
    {
        let v = *self;
        proof {
            reveal_with_fuel(le_bytes, 3);
        }
        let r = [(v % 256) as u8, (v / 256) as u8];
        assert(r@ =~= le_bytes(v as nat, 2));
        r
    }

    fn to_bytes_be(&self) -> (r: [u8; 2])
        ensures
            r@ == be_bytes(*self as nat, 2),
    {
        let v = *self;
        proof {
            reveal_with_fuel(be_bytes, 3);
        }
        let r = [(v / 256) as u8, (v % 256) as u8];
        assert(r@ =~= be_bytes(v as nat, 2));
        r
    }

    fn from_bytes_le(bytes: &[u8]) -> (r: Option<u16>)
        ensures
            r == (if bytes@.len() == 2 {
                Some(le_value(bytes@) as u16)
            } else {
                None::<u16>
            }),
    {
        if bytes.len() != 2 {
            None
        } else {
            proof {
                reveal_with_fuel(le_value, 3);
                assert(bytes@.drop_first().drop_first() =~= Seq::<u8>::empty());
            }
            Some(bytes[0] as u16 + 256 * (bytes[1] as u16))
        }
    }

    fn from_bytes_be(bytes: &[u8]) -> (r: Option<u16>)
        ensures
            r == (if bytes@.len() == 2 {
                Some(be_value(bytes@) as u16)
            } else {
                None::<u16>
            }),
    {
        if bytes.len() != 2 {
            None
        } else {
            proof {
                reveal_with_fuel(be_value, 3);
                assert(bytes@.drop_last().drop_last() =~= Seq::<u8>::empty());
            }
            Some(256 * (bytes[0] as u16) + bytes[1] as u16)
        }
    }
}


impl ToFromBytesEndian for u32 {
    type AsBytesType = [u8; 4];

    fn to_bytes_le(&self) -> (r: [u8; 4])
        ensures
            r@ == le_bytes(*self as nat, 4),
    {
        let v = *self;
        proof {
            reveal_with_fuel(le_bytes, 5);
        }
        let r = [(v % 256) as u8, (v / 256 % 256) as u8, (v / 65536 % 256) as u8, (v / 16777216) as u8];
        assert(r@ =~= le_bytes(v as nat, 4));
        r
    }

    fn to_bytes_be(&self) -> (r: [u8; 4])
        ensures
            r@ == be_bytes(*self as nat, 4),
    {
        let v = *self;
        proof {
            reveal_with_fuel(be_bytes, 5);
        }
        let r = [(v / 16777216) as u8, (v / 65536 % 256) as u8, (v / 256 % 256) as u8, (v % 256) as u8];
        assert(r@ =~= be_bytes(v as nat, 4));
        r
    }

    fn from_bytes_le(bytes: &[u8]) -> (r: Option<u32>)
        ensures
            r == (if bytes@.len() == 4 {
                Some(le_value(bytes@) as u32)
            } else {
                None::<u32>
            }),
    {
        if bytes.len() != 4 {
            None
        } else {
            proof {
                reveal_with_fuel(le_value, 5);
                assert(bytes@.drop_first().drop_first().drop_first().drop_first() =~= Seq::<u8>::empty());
            }
            Some(bytes[0] as u32 + 256 * (bytes[1] as u32) + 65536 * (bytes[2] as u32) + 16777216 * (bytes[3] as u32))
        }
    }

    fn from_bytes_be(bytes: &[u8]) -> (r: Option<u32>)
        ensures
            r == (if bytes@.len() == 4 {
                Some(be_value(bytes@) as u32)
            } else {
                None::<u32>
            }),
    {
        if bytes.len() != 4 {
            None
        } else {
            proof {
                reveal_with_fuel(be_value, 5);
                assert(bytes@.drop_last().drop_last().drop_last().drop_last() =~= Seq::<u8>::empty());
            }
            Some(16777216 * (bytes[0] as u32) + 65536 * (bytes[1] as u32) + 256 * (bytes[2] as u32) + bytes[3] as u32)
        }
    }
}


impl ToFromBytesEndian for u64 {
    type AsBytesType = [u8; 8];

    #[verifier::spinoff_prover]
    #[verifier::rlimit(40)]
    fn to_bytes_le(&self) -> (r: [u8; 8])
        ensures
            r@ == le_bytes(*self as nat, 8),
    {
        let v = *self;
        proof {
            reveal_with_fuel(le_bytes, 9);
        }
        let r = [(v % 256) as u8, (v / 256 % 256) as u8, (v / 65536 % 256) as u8, (v / 16777216 % 256) as u8, (v / 4294967296 % 256) as u8, (v / 1099511627776 % 256) as u8, (v / 281474976710656 % 256) as u8, (v / 72057594037927936) as u8];
        assert(r@ =~= le_bytes(v as nat, 8));
        r
    }

    #[verifier::spinoff_prover]
    #[verifier::rlimit(40)]
    fn to_bytes_be(&self) -> (r: [u8; 8])
        ensures
            r@ == be_bytes(*self as nat, 8),
    {
        let v = *self;
        proof {
            reveal_with_fuel(be_bytes, 9);
        }
        let r = [(v / 72057594037927936) as u8, (v / 281474976710656 % 256) as u8, (v / 1099511627776 % 256) as u8, (v / 4294967296 % 256) as u8, (v / 16777216 % 256) as u8, (v / 65536 % 256) as u8, (v / 256 % 256) as u8, (v % 256) as u8];
        assert(r@ =~= be_bytes(v as nat, 8));
        r
    }

    #[verifier::spinoff_prover]
    #[verifier::rlimit(40)]
    fn from_bytes_le(bytes: &[u8]) -> (r: Option<u64>)
        ensures
            r == (if bytes@.len() == 8 {
                Some(le_value(bytes@) as u64)
            } else {
                None::<u64>
            }),
    {
        if bytes.len() != 8 {
            None
        } else {
            proof {
                reveal_with_fuel(le_value, 9);
                assert(bytes@.drop_first().drop_first().drop_first().drop_first().drop_first().drop_first().drop_first().drop_first() =~= Seq::<u8>::empty());
            }
            Some(bytes[0] as u64 + 256 * (bytes[1] as u64) + 65536 * (bytes[2] as u64) + 16777216 * (bytes[3] as u64) + 4294967296 * (bytes[4] as u64) + 1099511627776 * (bytes[5] as u64) + 281474976710656 * (bytes[6] as u64) + 72057594037927936 * (bytes[7] as u64))
        }
    }

    #[verifier::spinoff_prover]
    #[verifier::rlimit(40)]
    fn from_bytes_be(bytes: &[u8]) -> (r: Option<u64>)
        ensures
            r == (if bytes@.len() == 8 {
                Some(be_value(bytes@) as u64)
            } else {
                None::<u64>
            }),
    {
        if bytes.len() != 8 {
            None
        } else {
            proof {
                reveal_with_fuel(be_value, 9);
                assert(bytes@.drop_last().drop_last().drop_last().drop_last().drop_last().drop_last().drop_last().drop_last() =~= Seq::<u8>::empty());
            }
            Some(72057594037927936 * (bytes[0] as u64) + 281474976710656 * (bytes[1] as u64) + 1099511627776 * (bytes[2] as u64) + 4294967296 * (bytes[3] as u64) + 16777216 * (bytes[4] as u64) + 65536 * (bytes[5] as u64) + 256 * (bytes[6] as u64) + bytes[7] as u64)
        }
    }
}

} // verus!
