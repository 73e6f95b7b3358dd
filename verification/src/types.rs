//! The values that a mint permit is made of: account addresses, 32-byte
//! hashes and 256-bit unsigned numbers.

use vstd::prelude::*;
use vstd::string::StringSliceAdditionalSpecFns;
use vstd::slice::slice_subrange;
use crate::bigend::{
    be_u128, be_value, lemma_be_value_bound, lemma_be_value_concat, lemma_be_value_of_bytes,
    lemma_pow256_16, lemma_pow256_monotonic, lemma_pow256_split, lemma_split_value_injective,
    pow256, u128_be_bytes,
};
use crate::text::{
    dec_decoding, dec_encoding, hex_decode, hex_decoding, lenient_hex_decoding, prefixed_hex,
    strip_0x, to_prefixed_hex,
};

verus! {

/// A 20-byte account address.
#[derive(Clone, Copy, Debug, PartialEq, Eq)]
pub struct Address(pub [u8; 20]);

/// A 32-byte hash.
#[derive(Clone, Copy, Debug, PartialEq, Eq)]
pub struct H256(pub [u8; 32]);

/// An unsigned number below 2^256, held as its 32 bytes, the most
/// significant first.
#[derive(Clone, Copy, Debug, PartialEq, Eq)]
pub struct U256(pub [u8; 32]);

impl View for Address {
    type V = Seq<u8>;

    open spec fn view(&self) -> Seq<u8> {
        self.0@
    }
}

impl View for H256 {
    type V = Seq<u8>;

    open spec fn view(&self) -> Seq<u8> {
        self.0@
    }
}

impl View for U256 {
    type V = nat;

    open spec fn view(&self) -> nat {
        be_value(self.0@)
    }
}

/// The address that text names: 40 hexadecimal digits after an optional
/// `0x`, with blanks allowed among the digits.
pub open spec fn address_text_value(text: Seq<u8>) -> Option<Seq<u8>> {
    match lenient_hex_decoding(text) {
        Some(bytes) => if bytes.len() == 20 {
            Some(bytes)
        } else {
            None
        },
        None => None,
    }
}

/// The hash that text names: 64 hexadecimal digits after an optional `0x`.
pub open spec fn h256_text_value(text: Seq<u8>) -> Option<Seq<u8>> {
    match hex_decoding(strip_0x(text)) {
        Some(bytes) => if bytes.len() == 32 {
            Some(bytes)
        } else {
            None
        },
        None => None,
    }
}

/// The two numbers by which an address is filed in an ordered collection:
/// what its first four bytes write, and what the other sixteen write.
pub open spec fn address_key(address: Seq<u8>) -> (u128, u128) {
    (be_value(address.subrange(0, 4)) as u128, be_value(address.subrange(4, 20)) as u128)
}

/// The two numbers by which a hash is filed in an ordered collection: what
/// its first sixteen bytes write, and what the other sixteen write.
pub open spec fn h256_key(hash: Seq<u8>) -> (u128, u128) {
    (be_value(hash.subrange(0, 16)) as u128, be_value(hash.subrange(16, 32)) as u128)
}

/// Different addresses are filed under different keys.
pub proof fn lemma_address_key_injective(a: Seq<u8>, b: Seq<u8>)
    requires
        a.len() == 20,
        b.len() == 20,
        address_key(a) == address_key(b),
    ensures
        a == b,
{
    lemma_pow256_16();
    lemma_be_value_bound(a.subrange(0, 4));
    lemma_be_value_bound(b.subrange(0, 4));
    lemma_pow256_monotonic(4, 16);
    lemma_be_value_bound(a.subrange(4, 20));
    lemma_be_value_bound(b.subrange(4, 20));
    lemma_split_value_injective(a, b, 4);
}

/// Different hashes are filed under different keys.
pub proof fn lemma_h256_key_injective(a: Seq<u8>, b: Seq<u8>)
    requires
        a.len() == 32,
        b.len() == 32,
        h256_key(a) == h256_key(b),
    ensures
        a == b,
{
    lemma_pow256_16();
    lemma_be_value_bound(a.subrange(0, 16));
    lemma_be_value_bound(b.subrange(0, 16));
    lemma_be_value_bound(a.subrange(16, 32));
    lemma_be_value_bound(b.subrange(16, 32));
    lemma_split_value_injective(a, b, 16);
}

/// `<H160 as FromStr>::from_str` of fixed-hash, reached as `str::parse`: it
/// drops one leading `0x`, reads hexadecimal digits of either case, passes
/// over blanks, carriage returns, line feeds and tabs, and gives the address
/// where exactly 40 digits and nothing else were found, else an error.
#[verifier::external_body]
fn address_from_str(s: &str) -> (r: Option<[u8; 20]>)
    ensures
        match r {
            Some(bytes) => address_text_value(s.spec_bytes()) == Some(bytes@),
            None => address_text_value(s.spec_bytes()) is None,
        },
{
    s.parse::<ethers::types::Address>().ok().map(|a| a.0)
}

/// `U256::from_dec_str` of uint: the number that the text writes where every
/// byte is a decimal digit and the number is below 2^256, else an error. The
/// empty text writes zero. The number comes back as its 32 bytes.
#[verifier::external_body]
fn u256_from_dec_str(s: &str) -> (r: Option<[u8; 32]>)
    ensures
        match r {
            Some(bytes) => dec_decoding(s.spec_bytes(), pow256(32)) == Some(be_value(bytes@)),
            None => dec_decoding(s.spec_bytes(), pow256(32)) is None,
        },
{
    match ethers::types::U256::from_dec_str(s) {
        Ok(v) => {
            let mut bytes = [0u8; 32];
            v.to_big_endian(&mut bytes);
            Some(bytes)
        },
        Err(_) => None,
    }
}

/// `Display` of uint's `U256`, reached as `to_string`: the number in decimal
/// without leading zeros. The number goes in as its 32 bytes.
#[verifier::external_body]
fn u256_to_dec_string(bytes: &[u8; 32]) -> (r: String)
    ensures
        r@ == dec_encoding(be_value(bytes@)),
{
    ethers::types::U256::from_big_endian(bytes).to_string()
}

impl Address {
    /// Reads an address from text.
    pub fn parse(s: &str) -> (r: Option<Address>)
        ensures
            match r {
                Some(a) => address_text_value(s.spec_bytes()) == Some(a@),
                None => address_text_value(s.spec_bytes()) is None,
            },
    {
        match address_from_str(s) {
            Some(bytes) => Some(Address(bytes)),
            None => None,
        }
    }

    /// The key under which the address is filed.
    pub fn key(&self) -> (k: (u128, u128))
        ensures
            k == address_key(self@),
    {
        (be_u128(&self.0, 0, 4), be_u128(&self.0, 4, 20))
    }

    /// `0x` and the 40 lower-case hexadecimal digits of the address.
    pub fn to_hex(&self) -> (r: String)
        ensures
            r@ == prefixed_hex(self@),
    {
        to_prefixed_hex(&self.0)
    }
}

impl H256 {
    /// The key under which the hash is filed.
    pub fn key(&self) -> (k: (u128, u128))
        ensures
            k == h256_key(self@),
    {
        (be_u128(&self.0, 0, 16), be_u128(&self.0, 16, 32))
    }

    /// `0x` and the 64 lower-case hexadecimal digits of the hash.
    pub fn to_hex(&self) -> (r: String)
        ensures
            r@ == prefixed_hex(self@),
    {
        to_prefixed_hex(&self.0)
    }
}

/// The 32 bytes of a slice as an array.
fn array32_of(bytes: &[u8]) -> (r: [u8; 32])
    requires
        bytes@.len() == 32,
    ensures
        r@ == bytes@,
{
    let mut out: [u8; 32] = [0u8; 32];
    let mut i: usize = 0;
    while i < 32
        invariant
            i <= 32,
            bytes@.len() == 32,
            forall|j: int| 0 <= j < i ==> out@[j] == bytes@[j],
        decreases 32 - i,
    {
        out[i] = bytes[i];
        i = i + 1;
    }
    out
}

/// Two runs of sixteen bytes, one after the other.
fn join16(upper: &[u8; 16], lower: &[u8; 16]) -> (r: [u8; 32])
    ensures
        r@ == upper@ + lower@,
{
    let mut out: [u8; 32] = [0u8; 32];
    let mut i: usize = 0;
    while i < 16
        invariant
            i <= 16,
            forall|j: int| 0 <= j < i ==> out@[j] == upper@[j],
            forall|j: int| 0 <= j < i ==> out@[16 + j] == lower@[j],
        decreases 16 - i,
    {
        out[i] = upper[i];
        out[i + 16] = lower[i];
        i = i + 1;
    }
    assert forall|j: int| 0 <= j < 32 implies out@[j] == (upper@ + lower@)[j] by {
        if j >= 16 {
            assert(out@[16 + (j - 16)] == lower@[j - 16]);
        }
    }
    out
}

/// Reads a 32-byte hash from text: 64 hexadecimal digits of either case after
/// an optional `0x`.
pub fn parse_h256(s: &str) -> (r: Option<H256>)
    ensures
        match r {
            Some(h) => h256_text_value(s.spec_bytes()) == Some(h@),
            None => h256_text_value(s.spec_bytes()) is None,
        },
{
    let text = s.as_bytes();
    let n: usize = text.len();
    let body = if n >= 2 && text[0] == 0x30 && text[1] == 0x78 {
        slice_subrange(text, 2, n)
    } else {
        text
    };
    match hex_decode(body) {
        None => None,
        Some(bytes) => {
            if bytes.len() != 32 {
                None
            } else {
                Some(H256(array32_of(bytes.as_slice())))
            }
        },
    }
}

impl U256 {
    /// One more than the largest number: 2^256.
    pub open spec fn limit() -> nat {
        pow256(32)
    }

    /// The number whose upper 128 bits are `high` and whose lower are `low`.
    pub fn from_parts(high: u128, low: u128) -> (r: U256)
        ensures
            r@ == high * pow256(16) + low,
    {
        let upper = u128_be_bytes(high);
        let lower = u128_be_bytes(low);
        let out = join16(&upper, &lower);
        proof {
            lemma_be_value_concat(upper@, lower@);
            lemma_pow256_16();
            lemma_be_value_of_bytes(high as nat, 16);
            lemma_be_value_of_bytes(low as nat, 16);
        }
        U256(out)
    }

    /// The upper and the lower 128 bits.
    pub fn parts(&self) -> (r: (u128, u128))
        ensures
            self@ == r.0 * pow256(16) + r.1,
    {
        let high = be_u128(&self.0, 0, 16);
        let low = be_u128(&self.0, 16, 32);
        proof {
            let upper = self.0@.subrange(0, 16);
            let lower = self.0@.subrange(16, 32);
            assert(self.0@ =~= upper + lower);
            lemma_be_value_concat(upper, lower);
        }
        (high, low)
    }

    /// The number zero.
    pub fn zero() -> (r: U256)
        ensures
            r@ == 0,
    {
        proof {
            lemma_pow256_16();
        }
        U256::from_parts(0, 0)
    }

    /// The number `x`.
    pub fn from_u64(x: u64) -> (r: U256)
        ensures
            r@ == x,
    {
        proof {
            lemma_pow256_16();
        }
        U256::from_parts(0, x as u128)
    }

    /// Whether this is the largest number, which has no successor.
    pub fn is_max(&self) -> (r: bool)
        ensures
            r == (self@ + 1 == U256::limit()),
            self@ < U256::limit(),
    {
        let (high, low) = self.parts();
        proof {
            lemma_pow256_16();
            lemma_limit_is_square();
            lemma_be_value_bound(self.0@);
        }
        high == u128::MAX && low == u128::MAX
    }

    /// The next number.
    pub fn succ(&self) -> (r: U256)
        requires
            self@ + 1 < U256::limit(),
        ensures
            r@ == self@ + 1,
    {
        let (high, low) = self.parts();
        proof {
            lemma_pow256_16();
            lemma_limit_is_square();
        }
        if low < u128::MAX {
            U256::from_parts(high, low + 1)
        } else {
            U256::from_parts(high + 1, 0)
        }
    }

    /// Reads a number from decimal text. There is none where a byte is not a
    /// digit or the number does not fit.
    pub fn from_dec_str(s: &str) -> (r: Option<U256>)
        ensures
            match r {
                Some(v) => dec_decoding(s.spec_bytes(), U256::limit()) == Some(v@),
                None => dec_decoding(s.spec_bytes(), U256::limit()) is None,
            },
    {
        match u256_from_dec_str(s) {
            Some(bytes) => Some(U256(bytes)),
            None => None,
        }
    }

    /// The number in decimal, without leading zeros.
    pub fn to_dec_string(&self) -> (r: String)
        ensures
            r@ == dec_encoding(self@),
    {
        u256_to_dec_string(&self.0)
    }
}

/// 2^256 is the square of 2^128.
pub proof fn lemma_limit_is_square()
    ensures
        U256::limit() == pow256(16) * pow256(16),
{
    lemma_pow256_split(16, 16);
}

} // verus!
