use vstd::prelude::*;

verus! {

/// The number of distinct serial ids: the class id fills the high 32 bits.
pub open spec fn class_shift() -> int {
    0x1_0000_0000
}

/// The 64-bit key of a (class, serial) pair.
pub open spec fn encode(class_id: u32, serial_id: u32) -> int {
    class_id as int * class_shift() + serial_id as int
}

/// The (class, serial) pair a 64-bit key stands for.
pub open spec fn decode(v: u64) -> (u32, u32) {
    ((v as int / class_shift()) as u32, (v as int % class_shift()) as u32)
}

/// Lexicographic order on (class, serial) pairs.
pub open spec fn id_lt(a: (u32, u32), b: (u32, u32)) -> bool {
    a.0 < b.0 || (a.0 == b.0 && a.1 < b.1)
}

/// A composite token identifier: (class id, serial id). Ids start at 1.
#[derive(Clone, Copy, Debug, PartialEq, Eq, Structural)]
pub struct TokenId(pub u32, pub u32);

impl TokenId {
    pub open spec fn key(self) -> int {
        encode(self.0, self.1)
    }

    /// The smallest valid identifier, (1, 1).
    pub fn min_id() -> (r: TokenId)
        ensures
            r == TokenId(1, 1),
    {
        TokenId(1, 1)
    }

    /// Packs the pair into one ordered 64-bit key, class id in the high bits.
    pub fn to_u64(&self) -> (r: u64)
        ensures
            r == self.key(),
    {
        proof {
            lemma_encode_bounds(self.0, self.1);
        }
        self.0 as u64 * 0x1_0000_0000u64 + self.1 as u64
    }

    /// Unpacks a 64-bit key.
    pub fn from_u64(v: u64) -> (r: TokenId)
        ensures
            (r.0, r.1) == decode(v),
            r.key() == v,
    {
        let r = TokenId((v / 0x1_0000_0000u64) as u32, (v % 0x1_0000_0000u64) as u32);
        proof {
            assert(v as int == (v as int / class_shift()) * class_shift() + v as int % class_shift())
                by (nonlinear_arith);
        }
        r
    }

    /// Zero-based position of the class in the catalog.
    pub fn token_index(&self) -> (r: u32)
        requires
            self.0 >= 1,
        ensures
            r == self.0 - 1,
    {
        self.0 - 1
    }

    /// The identifier that follows this one: the next serial, or serial 0 of the
    /// next class once the serial space is exhausted. The largest id has no successor
    /// and is returned unchanged.
    pub fn next(&self) -> (r: TokenId)
        ensures
            self.key() < u64::MAX ==> r.key() == self.key() + 1,
            self.key() == u64::MAX ==> r == *self,
    {
        if self.1 < u32::MAX {
            TokenId(self.0, self.1 + 1)
        } else if self.0 < u32::MAX {
            TokenId(self.0 + 1, 0)
        } else {
            *self
        }
    }
}

pub proof fn lemma_encode_bounds(c: u32, s: u32)
    ensures
        0 <= encode(c, s) <= u64::MAX,
{
    assert(c as int * class_shift() <= (u32::MAX as int) * class_shift()) by (nonlinear_arith)
        requires
            c as int <= u32::MAX as int,
            class_shift() > 0,
    ;
}

/// Decoding an encoded identifier gives back its class and serial.
pub proof fn lemma_id_round_trip(c: u32, s: u32)
    ensures
        0 <= encode(c, s) <= u64::MAX,
        decode(encode(c, s) as u64) == (c, s),
{
    lemma_encode_bounds(c, s);
    let v = encode(c, s);
    assert(v / class_shift() == c as int && v % class_shift() == s as int) by (nonlinear_arith)
        requires
            v == c as int * class_shift() + s as int,
            0 <= s < class_shift(),
            class_shift() == 0x1_0000_0000,
    ;
}

/// The 64-bit key orders identifiers lexicographically by (class, serial).
pub proof fn lemma_encode_order(a: (u32, u32), b: (u32, u32))
    ensures
        encode(a.0, a.1) < encode(b.0, b.1) <==> id_lt(a, b),
        encode(a.0, a.1) == encode(b.0, b.1) <==> a == b,
{
    lemma_id_round_trip(a.0, a.1);
    lemma_id_round_trip(b.0, b.1);
    if a.0 < b.0 {
        assert(a.0 as int * class_shift() + class_shift() <= b.0 as int * class_shift())
            by (nonlinear_arith)
            requires
                a.0 < b.0,
                class_shift() > 0,
        ;
    } else if a.0 > b.0 {
        assert(b.0 as int * class_shift() + class_shift() <= a.0 as int * class_shift())
            by (nonlinear_arith)
            requires
                b.0 < a.0,
                class_shift() > 0,
        ;
    }
}

} // verus!

verus! {

/// Every 64-bit key is the encoding of the pair it decodes to.
pub proof fn lemma_decode_encode(v: u64)
    ensures
        encode(decode(v).0, decode(v).1) == v,
{
    assert(v as int == (v as int / class_shift()) * class_shift() + v as int % class_shift())
        by (nonlinear_arith);
    assert(0 <= v as int / class_shift() <= u32::MAX) by (nonlinear_arith)
        requires
            0 <= v <= u64::MAX,
            class_shift() == 0x1_0000_0000,
    ;
}

} // verus!
