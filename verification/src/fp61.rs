//! A small arithmetic hasher over the field of `2^61 - 1` elements.
//!
//! It meets every law of the interfaces with plain modular arithmetic, so
//! that code written against them has an instance to run on. It makes no
//! claim of collision resistance and is not meant to protect anything.
use crate::domain::Domain;
use crate::encoding::{le_bytes, lemma_le_bytes_len, lemma_u64_fits_eight_bytes, push_le, read_le};
use crate::error::Error;
use crate::hash_function::{leaf_hash, node_hash, HashFunction, Hashable};
use crate::hasher::Hasher;
use vstd::prelude::*;

verus! {

/// The number of elements of the field: the prime `2^61 - 1`.
pub const MODULUS: u64 = 0x1FFF_FFFF_FFFF_FFFF;

/// The width of an encoded element.
pub const BYTE_LEN: usize = 8;

/// An element of the field, held as its canonical integer.
#[derive(Clone, Copy, Debug, PartialEq, Eq, PartialOrd, Ord, Hash, Structural)]
pub struct Fp61 {
    v: u64,
}

impl Fp61 {
    /// The element that `v` is congruent to.
    pub fn from_u64(v: u64) -> (d: Self)
        ensures
            d.value() == v as nat % (MODULUS as nat),
            d.value() < Self::modulus(),
    {
        Fp61 { v: v % MODULUS }
    }

    /// The canonical integer of this element.
    pub fn to_u64(&self) -> (v: u64)
        ensures
            v == self.value(),
    {
        self.v
    }
}

impl Default for Fp61 {
    /// The zero of the field.
    fn default() -> (d: Self)
        ensures
            d.value() == 0,
    {
        Fp61 { v: 0 }
    }
}

impl Domain for Fp61 {
    open spec fn modulus() -> nat {
        MODULUS as nat
    }

    open spec fn byte_len() -> nat {
        BYTE_LEN as nat
    }

    closed spec fn value(&self) -> nat {
        self.v as nat
    }

    closed spec fn from_value(v: nat) -> Self {
        Fp61 { v: v as u64 }
    }

    proof fn lemma_modulus_fits() {
        lemma_u64_fits_eight_bytes(MODULUS);
    }

    proof fn lemma_value_of_from_value(v: nat) {
    }

    proof fn lemma_from_value_of_value(d: Self) {
    }

    fn serialize(&self) -> (out: Vec<u8>) {
        self.into_bytes()
    }

    fn into_bytes(&self) -> (out: Vec<u8>) {
        let mut out: Vec<u8> = Vec::new();
        push_le(&mut out, self.v, BYTE_LEN);
        out
    }

    fn try_from_bytes(raw: &[u8]) -> (r: Result<Self, Error>) {
        if raw.len() != BYTE_LEN {
            return Err(Error::Deserialization);
        }
        let v = read_le(raw);
        if v >= MODULUS {
            return Err(Error::Deserialization);
        }
        Ok(Fp61 { v })
    }

    fn write_bytes(&self, dest: &mut [u8]) -> (r: Result<(), Error>) {
        if dest.len() < BYTE_LEN {
            return Err(Error::BufferTooSmall);
        }
        let bytes = self.into_bytes();
        proof {
            lemma_le_bytes_len(self.v as nat, BYTE_LEN as nat);
        }
        let ghost before = dest@;
        let mut i: usize = 0;
        while i < BYTE_LEN
            invariant
                i <= BYTE_LEN,
                bytes@.len() == BYTE_LEN,
                dest@.len() == before.len(),
                before.len() >= BYTE_LEN,
                forall|t: int| 0 <= t < i ==> dest@[t] == bytes@[t],
                forall|t: int| i <= t < before.len() ==> dest@[t] == before[t],
            decreases BYTE_LEN - i,
        {
            dest[i] = bytes[i];
            i += 1;
        }
        assert(dest@ =~= bytes@ + before.skip(BYTE_LEN as int));
        Ok(())
    }
}

/// What one more byte makes of the running value of the hash: the value
/// times 257, plus the byte, plus one, in the field.
pub open spec fn absorb_byte(acc: nat, b: u8) -> nat {
    (acc * 257 + b as nat + 1) % (MODULUS as nat)
}

/// What `bytes`, taken in order, make of the running value `acc`.
pub open spec fn absorbed(acc: nat, bytes: Seq<u8>) -> nat
    decreases bytes.len(),
{
    if bytes.len() == 0 {
        acc
    } else {
        absorb_byte(absorbed(acc, bytes.drop_last()), bytes.last())
    }
}

/// The accumulator of the polynomial hash: its running value.
#[derive(Clone, Copy, Debug, PartialEq, Eq, Structural)]
pub struct Fp61Function {
    acc: u64,
}

impl Default for Fp61Function {
    /// The fresh accumulator.
    fn default() -> (a: Self)
        ensures
            a == Self::spec_fresh(),
    {
        Fp61Function { acc: 0 }
    }
}

impl Fp61Function {
    /// The digest of bytes fed into a fresh accumulator is their hash.
    pub proof fn lemma_digest_of_written(bytes: Seq<u8>)
        ensures
            Self::spec_fresh().spec_write(bytes).spec_finish() == Self::spec_hash(bytes),
    {
        Self::lemma_absorbed_fits(0, bytes);
    }

    /// Feeding bytes in two parts is feeding them at once.
    pub proof fn lemma_write_in_parts(state: Self, first: Seq<u8>, second: Seq<u8>)
        ensures
            state.spec_write(first).spec_write(second) == state.spec_write(first + second),
    {
        Self::lemma_absorbed_fits(state.acc as nat, first);
        Self::lemma_absorbed_in_parts(state.acc as nat, first, second);
    }

    /// The leaf transform moves every element of the field.
    pub proof fn lemma_leaf_moves(digest: Fp61)
        requires
            digest.value() < Fp61::modulus(),
        ensures
            Self::spec_leaf(digest) != digest,
    {
    }

    /// Whatever is hashed, as a leaf and as an inner node, the two hashes
    /// differ.
    pub proof fn lemma_leaf_hash_is_no_node_hash<D: Hashable<Fp61Function>>(data: D)
        ensures
            leaf_hash::<Fp61, Fp61Function, D>(data) != node_hash::<Fp61, Fp61Function, D>(data),
    {
        let node = node_hash::<Fp61, Fp61Function, D>(data);
        Self::lemma_finish_in_field(data.fed(Self::spec_fresh()));
        Self::lemma_leaf_moves(node);
    }

    /// Taking bytes in two parts is taking them at once.
    proof fn lemma_absorbed_in_parts(acc: nat, first: Seq<u8>, second: Seq<u8>)
        ensures
            absorbed(absorbed(acc, first), second) == absorbed(acc, first + second),
        decreases second.len(),
    {
        if second.len() == 0 {
            assert(first + second =~= first);
        } else {
            Self::lemma_absorbed_in_parts(acc, first, second.drop_last());
            assert((first + second).drop_last() =~= first + second.drop_last());
        }
    }

    /// A running value that fits a `u64` still does after more bytes.
    proof fn lemma_absorbed_fits(acc: nat, bytes: Seq<u8>)
        requires
            acc <= u64::MAX,
        ensures
            absorbed(acc, bytes) <= u64::MAX,
            acc < MODULUS ==> absorbed(acc, bytes) < MODULUS,
        decreases bytes.len(),
    {
        if bytes.len() > 0 {
            Self::lemma_absorbed_fits(acc, bytes.drop_last());
        }
    }
}

impl HashFunction<Fp61> for Fp61Function {
    open spec fn spec_hash(data: Seq<u8>) -> Fp61 {
        Fp61::from_value(absorbed(0, data))
    }

    closed spec fn spec_fresh() -> Self {
        Fp61Function { acc: 0 }
    }

    closed spec fn spec_write(self, bytes: Seq<u8>) -> Self {
        Fp61Function { acc: absorbed(self.acc as nat, bytes) as u64 }
    }

    closed spec fn spec_finish(self) -> Fp61 {
        Fp61 { v: self.acc % MODULUS }
    }

    open spec fn spec_leaf(digest: Fp61) -> Fp61 {
        Fp61::from_value(((digest.value() % (MODULUS as nat)) + 1) % (MODULUS as nat))
    }

    proof fn lemma_hash_in_field(data: Seq<u8>) {
        Self::lemma_absorbed_fits(0, data);
    }

    proof fn lemma_finish_in_field(state: Self) {
    }

    proof fn lemma_leaf_in_field(digest: Fp61) {
    }

    fn hash(data: &[u8]) -> (d: Fp61) {
        let mut a = Self::fresh();
        a.write(data);
        proof {
            Self::lemma_digest_of_written(data@);
        }
        a.finish()
    }

    fn fresh() -> (a: Self) {
        Fp61Function { acc: 0 }
    }

    fn write(&mut self, bytes: &[u8]) {
        let ghost start = self.acc as nat;
        let mut i: usize = 0;
        while i < bytes.len()
            invariant
                i <= bytes@.len(),
                self.acc == absorbed(start, bytes@.take(i as int)),
            decreases bytes@.len() - i,
        {
            assert(bytes@.take(i + 1).drop_last() =~= bytes@.take(i as int));
            let wide: u128 = self.acc as u128 * 257 + bytes[i] as u128 + 1;
            self.acc = (wide % (MODULUS as u128)) as u64;
            i += 1;
        }
        assert(bytes@.take(i as int) =~= bytes@);
    }

    fn finish(self) -> (d: Fp61) {
        Fp61 { v: self.acc % MODULUS }
    }

    fn leaf(digest: Fp61) -> (d: Fp61) {
        Fp61 { v: (digest.v % MODULUS + 1) % MODULUS }
    }
}

/// A field element is fed as its canonical encoding.
impl Hashable<Fp61Function> for Fp61 {
    open spec fn fed(&self, state: Fp61Function) -> Fp61Function {
        state.spec_write(le_bytes(self.value(), BYTE_LEN as nat))
    }

    fn hash(&self, state: &mut Fp61Function) {
        let bytes = self.into_bytes();
        state.write(bytes.as_slice());
    }
}

/// A byte string is fed as it is.
impl Hashable<Fp61Function> for Vec<u8> {
    open spec fn fed(&self, state: Fp61Function) -> Fp61Function {
        state.spec_write(self@)
    }

    fn hash(&self, state: &mut Fp61Function) {
        state.write(self.as_slice());
    }
}

/// Half of the field, rounded up: `2^60`.
pub const HALF: u64 = 0x1000_0000_0000_0000;

/// The lower half of the field in reverse order, the upper half as it is.
pub open spec fn mirrored(t: nat) -> nat {
    if t < HALF {
        (HALF - 1 - t) as nat
    } else {
        t
    }
}

/// Twice `t`, in the field.
pub open spec fn doubled(t: nat) -> nat {
    (2 * t) % (MODULUS as nat)
}

/// The element of the field whose double is `y`.
pub open spec fn halved(y: nat) -> nat {
    if y % 2 == 0 {
        y / 2
    } else {
        (y + MODULUS as nat) / 2
    }
}

/// The hasher over the field of `2^61 - 1` elements. A round of its delay
/// encoding adds the key, doubles, and puts the lower half of the field in
/// reverse order.
#[derive(Clone, Copy, Debug, PartialEq, Eq, Structural)]
pub struct Fp61Hasher {}

impl Default for Fp61Hasher {
    fn default() -> (h: Self)
        ensures
            h == (Fp61Hasher {  }),
    {
        Fp61Hasher {  }
    }
}

/// The lower half of the field in reverse order, the upper half as it is.
fn mirror(t: u64) -> (r: u64)
    ensures
        r == mirrored(t as nat),
{
    if t < HALF {
        HALF - 1 - t
    } else {
        t
    }
}

impl Hasher for Fp61Hasher {
    type Domain = Fp61;

    type Function = Fp61Function;

    open spec fn spec_name() -> Seq<char> {
        "fp61"@
    }

    open spec fn spec_sloth_round(key: Fp61, x: Fp61) -> Fp61 {
        Fp61::from_value(mirrored(doubled((x.value() + key.value()) % (MODULUS as nat))))
    }

    open spec fn spec_sloth_unround(key: Fp61, y: Fp61) -> Fp61 {
        Fp61::from_value(
            ((halved(mirrored(y.value() % (MODULUS as nat))) + MODULUS - key.value() % (
            MODULUS as nat)) as nat) % (MODULUS as nat),
        )
    }

    proof fn lemma_sloth_round_in_field(key: Fp61, x: Fp61) {
    }

    proof fn lemma_sloth_unround_round(key: Fp61, x: Fp61) {
    }

    fn sloth_round(key: &Fp61, x: &Fp61) -> (y: Fp61) {
        let sum: u128 = (x.v as u128 + key.v as u128) % (MODULUS as u128);
        let twice: u64 = (2 * (sum as u64)) % MODULUS;
        Fp61 { v: mirror(twice) }
    }

    fn sloth_unround(key: &Fp61, y: &Fp61) -> (x: Fp61) {
        let t: u64 = mirror(y.v % MODULUS);
        let half: u64 = if t % 2 == 0 {
            t / 2
        } else {
            (t + MODULUS) / 2
        };
        let wide: u128 = (half as u128 + MODULUS as u128 - (key.v % MODULUS) as u128) % (
        MODULUS as u128);
        Fp61 { v: wide as u64 }
    }

    fn name() -> (s: String) {
        "fp61".to_owned()
    }
}

} // verus!
