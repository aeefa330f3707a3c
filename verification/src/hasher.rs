//! The hasher: one domain bound to one hash algorithm, with the key
//! derivation and the sequential delay encoding built on them.
use crate::domain::{in_field, Domain};
use crate::encoding::{
    le_bytes, lemma_le_bytes_len, lemma_le_value_of_le_bytes, lemma_u64_fits_eight_bytes, push_le,
};
use crate::hash_function::{HashFunction, Hashable};
use vstd::prelude::*;

verus! {

/// `step` applied `n` times in a row, starting from `x`.
pub open spec fn iterated<D>(step: spec_fn(D) -> D, x: D, n: nat) -> D
    decreases n,
{
    if n == 0 {
        x
    } else {
        step(iterated(step, x, (n - 1) as nat))
    }
}

/// The bytes that the key derivation hashes: the data, then the parameter
/// on eight bytes, least significant first.
pub open spec fn kdf_input(data: Seq<u8>, m: nat) -> Seq<u8> {
    data + le_bytes(m, 8)
}

/// One domain bound to one hash algorithm, with a key derivation and a
/// delay encoding. The encoding is a keyed round applied again and again;
/// an implementation supplies the round and its inverse.
pub trait Hasher: Clone + core::fmt::Debug + Eq + Default + Send + Sync {
    /// The values that this hasher produces.
    type Domain: Domain + Hashable<Self::Function>;

    /// The hash algorithm that this hasher uses.
    type Function: HashFunction<Self::Domain>;

    /// The name of this hasher.
    spec fn spec_name() -> Seq<char>;

    /// One round of the delay encoding under `key`.
    spec fn spec_sloth_round(key: Self::Domain, x: Self::Domain) -> Self::Domain;

    /// One round of the delay decoding under `key`.
    spec fn spec_sloth_unround(key: Self::Domain, y: Self::Domain) -> Self::Domain;

    /// A round of encoding stays in the field.
    proof fn lemma_sloth_round_in_field(key: Self::Domain, x: Self::Domain)
        requires
            key.value() < Self::Domain::modulus(),
            x.value() < Self::Domain::modulus(),
        ensures
            Self::spec_sloth_round(key, x).value() < Self::Domain::modulus(),
    ;

    /// A round of decoding undoes a round of encoding under the same key.
    proof fn lemma_sloth_unround_round(key: Self::Domain, x: Self::Domain)
        requires
            key.value() < Self::Domain::modulus(),
            x.value() < Self::Domain::modulus(),
        ensures
            Self::spec_sloth_unround(key, Self::spec_sloth_round(key, x)) == x,
    ;

    /// One round of the delay encoding under `key`.
    fn sloth_round(key: &Self::Domain, x: &Self::Domain) -> (y: Self::Domain)
        ensures
            y == Self::spec_sloth_round(*key, *x),
    ;

    /// One round of the delay decoding under `key`.
    fn sloth_unround(key: &Self::Domain, y: &Self::Domain) -> (x: Self::Domain)
        ensures
            x == Self::spec_sloth_unround(*key, *y),
    ;

    /// A stable name for this hasher.
    fn name() -> (s: String)
        ensures
            s@ == Self::spec_name(),
    ;

    /// Derives one value from `data` and the parameter `m`: the hash, by
    /// this hasher's algorithm, of the data followed by `m`.
    fn kdf(data: &[u8], m: usize) -> (d: Self::Domain)
        ensures
            d == Self::Function::spec_hash(kdf_input(data@, m as nat)),
    {
        let mut input: Vec<u8> = Vec::new();
        let mut i: usize = 0;
        while i < data.len()
            invariant
                i <= data@.len(),
                input@ == data@.take(i as int),
            decreases data@.len() - i,
        {
            input.push(data[i]);
            i += 1;
        }
        assert(data@.take(i as int) =~= data@);
        push_le(&mut input, m as u64, 8);
        Self::Function::hash(input.as_slice())
    }

    /// Encodes `ciphertext` under `key`: `rounds` rounds, one after the
    /// other.
    fn sloth_encode(key: &Self::Domain, ciphertext: &Self::Domain, rounds: usize) -> (d:
        Self::Domain)
        ensures
            d == iterated(
                |x: Self::Domain| Self::spec_sloth_round(*key, x),
                *ciphertext,
                rounds as nat,
            ),
    {
        let ghost step = |x: Self::Domain| Self::spec_sloth_round(*key, x);
        let mut d = *ciphertext;
        let mut i: usize = 0;
        while i < rounds
            invariant
                i <= rounds,
                step == |x: Self::Domain| Self::spec_sloth_round(*key, x),
                d == iterated(step, *ciphertext, i as nat),
            decreases rounds - i,
        {
            d = Self::sloth_round(key, &d);
            i += 1;
        }
        d
    }

    /// Decodes `ciphertext` under `key`: `rounds` rounds, one after the
    /// other.
    fn sloth_decode(key: &Self::Domain, ciphertext: &Self::Domain, rounds: usize) -> (d:
        Self::Domain)
        ensures
            d == iterated(
                |y: Self::Domain| Self::spec_sloth_unround(*key, y),
                *ciphertext,
                rounds as nat,
            ),
    {
        let ghost step = |y: Self::Domain| Self::spec_sloth_unround(*key, y);
        let mut d = *ciphertext;
        let mut i: usize = 0;
        while i < rounds
            invariant
                i <= rounds,
                step == |y: Self::Domain| Self::spec_sloth_unround(*key, y),
                d == iterated(step, *ciphertext, i as nat),
            decreases rounds - i,
        {
            d = Self::sloth_unround(key, &d);
            i += 1;
        }
        d
    }
}

/// What [`Hasher::sloth_encode`] returns.
pub open spec fn sloth_encoded<H: Hasher>(key: H::Domain, x: H::Domain, rounds: nat) -> H::Domain {
    iterated(|v: H::Domain| H::spec_sloth_round(key, v), x, rounds)
}

/// What [`Hasher::sloth_decode`] returns.
pub open spec fn sloth_decoded<H: Hasher>(key: H::Domain, y: H::Domain, rounds: nat) -> H::Domain {
    iterated(|v: H::Domain| H::spec_sloth_unround(key, v), y, rounds)
}

/// What [`Hasher::kdf`] returns.
pub open spec fn derived_key<H: Hasher>(data: Seq<u8>, m: nat) -> H::Domain {
    H::Function::spec_hash(kdf_input(data, m))
}

/// Derived keys are elements of the field.
pub proof fn lemma_derived_key_in_field<H: Hasher>(data: Seq<u8>, m: nat)
    ensures
        in_field(derived_key::<H>(data, m)),
{
    H::Function::lemma_hash_in_field(kdf_input(data, m));
}

/// Applying a step first or last makes no difference.
proof fn lemma_iterated_shift<D>(step: spec_fn(D) -> D, x: D, n: nat)
    ensures
        iterated(step, step(x), n) == step(iterated(step, x, n)),
    decreases n,
{
    if n > 0 {
        lemma_iterated_shift(step, x, (n - 1) as nat);
    }
}

/// Without rounds, encoding and decoding change nothing.
pub proof fn lemma_sloth_zero_rounds<H: Hasher>(key: H::Domain, x: H::Domain)
    ensures
        sloth_encoded::<H>(key, x, 0) == x,
        sloth_decoded::<H>(key, x, 0) == x,
{
}

/// Encoding a field element under a key of the field gives a field element.
pub proof fn lemma_sloth_encoded_in_field<H: Hasher>(key: H::Domain, x: H::Domain, rounds: nat)
    requires
        in_field(key),
        in_field(x),
    ensures
        in_field(sloth_encoded::<H>(key, x, rounds)),
    decreases rounds,
{
    if rounds > 0 {
        lemma_sloth_encoded_in_field::<H>(key, x, (rounds - 1) as nat);
        H::lemma_sloth_round_in_field(key, sloth_encoded::<H>(key, x, (rounds - 1) as nat));
    }
}

/// Decoding, with the same key and as many rounds, gives back what was
/// encoded.
pub proof fn lemma_sloth_round_trip<H: Hasher>(key: H::Domain, x: H::Domain, rounds: nat)
    requires
        in_field(key),
        in_field(x),
    ensures
        sloth_decoded::<H>(key, sloth_encoded::<H>(key, x, rounds), rounds) == x,
    decreases rounds,
{
    if rounds > 0 {
        let n = (rounds - 1) as nat;
        let enc = |v: H::Domain| H::spec_sloth_round(key, v);
        let dec = |v: H::Domain| H::spec_sloth_unround(key, v);
        let before = sloth_encoded::<H>(key, x, n);
        lemma_sloth_encoded_in_field::<H>(key, x, n);
        H::lemma_sloth_unround_round(key, before);
        assert(sloth_encoded::<H>(key, x, rounds) == enc(before));
        lemma_iterated_shift(dec, enc(before), n);
        assert(dec(enc(before)) == before);
        lemma_sloth_round_trip::<H>(key, x, n);
    }
}

/// The key derivation hashes different bytes for different data or a
/// different parameter.
pub proof fn lemma_kdf_input_injective(data1: Seq<u8>, m1: usize, data2: Seq<u8>, m2: usize)
    requires
        kdf_input(data1, m1 as nat) == kdf_input(data2, m2 as nat),
    ensures
        data1 == data2,
        m1 == m2,
{
    let input = kdf_input(data1, m1 as nat);
    lemma_le_bytes_len(m1 as nat, 8);
    lemma_le_bytes_len(m2 as nat, 8);
    assert(data1 =~= input.take(data1.len() as int));
    assert(data2 =~= input.take(data2.len() as int));
    assert(le_bytes(m1 as nat, 8) =~= input.skip(data1.len() as int));
    assert(le_bytes(m2 as nat, 8) =~= input.skip(data2.len() as int));
    lemma_u64_fits_eight_bytes(m1 as u64);
    lemma_u64_fits_eight_bytes(m2 as u64);
    lemma_le_value_of_le_bytes(m1 as nat, 8);
    lemma_le_value_of_le_bytes(m2 as nat, 8);
}

} // verus!
