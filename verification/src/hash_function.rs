//! The hash algorithm: one function of bytes, in a native form and in the
//! form that a circuit assigns to its output.
use crate::bits::{
    all_assigned, assigned, bits_to_bytes, collect_witness, lemma_packed_unpacked,
    lemma_witness_assigned, packed, unpacked, witness,
};
use crate::domain::{in_field, Domain};
use crate::error::Error;
use vstd::prelude::*;

verus! {

/// A structured value that knows how to feed itself into an accumulator.
pub trait Hashable<H> {
    /// The accumulator after this value was fed into `state`.
    spec fn fed(&self, state: H) -> H;

    /// Feeds this value into `state`.
    fn hash(&self, state: &mut H)
        ensures
            *final(state) == self.fed(*old(state)),
    ;
}

/// Two values, fed one after the other: the children of an inner node.
impl<H, A: Hashable<H>, B: Hashable<H>> Hashable<H> for (A, B) {
    open spec fn fed(&self, state: H) -> H {
        self.1.fed(self.0.fed(state))
    }

    fn hash(&self, state: &mut H) {
        self.0.hash(state);
        self.1.hash(state);
    }
}

/// A hash algorithm over the domain `T`. A value of the implementing type is
/// the accumulator of one computation in progress: made fresh, fed, and
/// consumed when the digest is taken.
pub trait HashFunction<T: Domain>: Clone + core::fmt::Debug + Eq + Send + Sync + Default + Sized {
    /// The hash of a byte string.
    spec fn spec_hash(data: Seq<u8>) -> T;

    /// The accumulator that every computation starts from.
    spec fn spec_fresh() -> Self;

    /// The accumulator after `bytes` were fed into it.
    spec fn spec_write(self, bytes: Seq<u8>) -> Self;

    /// The digest of what was fed into the accumulator.
    spec fn spec_finish(self) -> T;

    /// The transform that marks a digest as that of a leaf.
    spec fn spec_leaf(digest: T) -> T;

    /// Hashes are elements of the field.
    proof fn lemma_hash_in_field(data: Seq<u8>)
        ensures
            Self::spec_hash(data).value() < T::modulus(),
    ;

    /// Digests are elements of the field.
    proof fn lemma_finish_in_field(state: Self)
        ensures
            state.spec_finish().value() < T::modulus(),
    ;

    /// The leaf transform stays in the field.
    proof fn lemma_leaf_in_field(digest: T)
        requires
            digest.value() < T::modulus(),
        ensures
            Self::spec_leaf(digest).value() < T::modulus(),
    ;

    /// Hashes a byte string.
    fn hash(data: &[u8]) -> (d: T)
        ensures
            d == Self::spec_hash(data@),
    ;

    /// A fresh accumulator.
    fn fresh() -> (a: Self)
        ensures
            a == Self::spec_fresh(),
    ;

    /// Feeds raw bytes into the accumulator.
    fn write(&mut self, bytes: &[u8])
        ensures
            *final(self) == old(self).spec_write(bytes@),
    ;

    /// Consumes the accumulator and gives the digest of what it was fed.
    fn finish(self) -> (d: T)
        ensures
            d == self.spec_finish(),
    ;

    /// Marks a digest as that of a leaf.
    fn leaf(digest: T) -> (d: T)
        ensures
            d == Self::spec_leaf(digest),
    ;

    /// Hashes a structured value as a leaf of a Merkle tree: the digest of
    /// the value fed into a fresh accumulator, under the leaf transform.
    fn hash_leaf<D: Hashable<Self>>(data: &D) -> (d: T)
        ensures
            d == Self::spec_leaf(data.fed(Self::spec_fresh()).spec_finish()),
    {
        let mut a = Self::fresh();
        data.hash(&mut a);
        let item_hash = a.finish();
        Self::leaf(item_hash)
    }

    /// Hashes a structured value as an inner node of a Merkle tree: the
    /// digest of the value fed into a fresh accumulator, as it is.
    fn hash_single_node<D: Hashable<Self>>(data: &D) -> (d: T)
        ensures
            d == data.fed(Self::spec_fresh()).spec_finish(),
    {
        let mut a = Self::fresh();
        data.hash(&mut a);
        a.finish()
    }

    /// The value that the circuit form of the leaf hash assigns to its
    /// output, for the two halves of its input, at any height: the native
    /// leaf hash of the bytes that the bits of both halves, one after the
    /// other, are read as. Without a value for every bit there is none.
    #[allow(unused_variables)]
    fn hash_leaf_circuit(left: &[Option<bool>], right: &[Option<bool>], height: usize) -> (r:
        Result<T, Error>)
        ensures
            all_assigned(left@) && all_assigned(right@) ==> r == Ok::<T, Error>(
                Self::spec_leaf(
                    Self::spec_fresh().spec_write(
                        packed(witness(left@) + witness(right@)),
                    ).spec_finish(),
                ),
            ),
            !(all_assigned(left@) && all_assigned(right@)) ==> r == Err::<T, Error>(
                Error::ConstraintSynthesis,
            ),
    {
        let mut bits: Vec<bool> = Vec::new();
        if !collect_witness(left, &mut bits) {
            return Err(Error::ConstraintSynthesis);
        }
        if !collect_witness(right, &mut bits) {
            return Err(Error::ConstraintSynthesis);
        }
        assert(bits@ =~= witness(left@) + witness(right@));
        let bytes = bits_to_bytes(bits.as_slice());
        let mut a = Self::fresh();
        a.write(bytes.as_slice());
        let item_hash = a.finish();
        Ok(Self::leaf(item_hash))
    }

    /// The value that the circuit form of the hash assigns to its output:
    /// the native hash of the bytes that the bits are read as. Without a
    /// value for every bit there is none.
    fn hash_circuit(bits: &[Option<bool>]) -> (r: Result<T, Error>)
        ensures
            all_assigned(bits@) ==> r == Ok::<T, Error>(Self::spec_hash(packed(witness(bits@)))),
            !all_assigned(bits@) ==> r == Err::<T, Error>(Error::ConstraintSynthesis),
    {
        let mut values: Vec<bool> = Vec::new();
        if !collect_witness(bits, &mut values) {
            return Err(Error::ConstraintSynthesis);
        }
        assert(values@ =~= witness(bits@));
        let bytes = bits_to_bytes(values.as_slice());
        Ok(Self::hash(bytes.as_slice()))
    }
}

/// What [`HashFunction::hash_leaf`] returns on `data`.
pub open spec fn leaf_hash<T: Domain, H: HashFunction<T>, D: Hashable<H>>(data: D) -> T {
    H::spec_leaf(data.fed(H::spec_fresh()).spec_finish())
}

/// What [`HashFunction::hash_single_node`] returns on `data`.
pub open spec fn node_hash<T: Domain, H: HashFunction<T>, D: Hashable<H>>(data: D) -> T {
    data.fed(H::spec_fresh()).spec_finish()
}

/// What [`HashFunction::hash_circuit`] returns on `bits`.
pub open spec fn circuit_hash<T: Domain, H: HashFunction<T>>(bits: Seq<Option<bool>>) -> Result<
    T,
    Error,
> {
    if all_assigned(bits) {
        Ok(H::spec_hash(packed(witness(bits))))
    } else {
        Err(Error::ConstraintSynthesis)
    }
}

/// What [`HashFunction::hash_leaf_circuit`] returns on `left` and `right`,
/// at every height.
pub open spec fn circuit_leaf_hash<T: Domain, H: HashFunction<T>>(
    left: Seq<Option<bool>>,
    right: Seq<Option<bool>>,
) -> Result<T, Error> {
    if all_assigned(left) && all_assigned(right) {
        Ok(
            H::spec_leaf(
                H::spec_fresh().spec_write(packed(witness(left) + witness(right))).spec_finish(),
            ),
        )
    } else {
        Err(Error::ConstraintSynthesis)
    }
}

/// The leaf hash of a value is the leaf transform of its node hash, so the
/// two differ wherever the leaf transform moves the node hash.
pub proof fn lemma_leaf_differs_from_node<T: Domain, H: HashFunction<T>, D: Hashable<H>>(data: D)
    requires
        H::spec_leaf(node_hash::<T, H, D>(data)) != node_hash::<T, H, D>(data),
    ensures
        leaf_hash::<T, H, D>(data) == H::spec_leaf(node_hash::<T, H, D>(data)),
        leaf_hash::<T, H, D>(data) != node_hash::<T, H, D>(data),
{
}

/// Leaf and node hashes are elements of the field.
pub proof fn lemma_tree_hashes_in_field<T: Domain, H: HashFunction<T>, D: Hashable<H>>(data: D)
    ensures
        in_field(node_hash::<T, H, D>(data)),
        in_field(leaf_hash::<T, H, D>(data)),
{
    H::lemma_finish_in_field(data.fed(H::spec_fresh()));
    H::lemma_leaf_in_field(node_hash::<T, H, D>(data));
}

/// Under a witness for every bit, the circuit form of the hash assigns to
/// its output the native hash of the bytes that the bits are read as.
pub proof fn lemma_circuit_hash_is_native<T: Domain, H: HashFunction<T>>(bits: Seq<Option<bool>>)
    requires
        all_assigned(bits),
    ensures
        circuit_hash::<T, H>(bits) == Ok::<T, Error>(H::spec_hash(packed(witness(bits)))),
{
}

/// Over the bits of a byte string, the circuit form of the hash assigns to
/// its output the native hash of that byte string.
pub proof fn lemma_circuit_hash_of_bytes<T: Domain, H: HashFunction<T>>(bytes: Seq<u8>)
    ensures
        circuit_hash::<T, H>(assigned(unpacked(bytes))) == Ok::<T, Error>(H::spec_hash(bytes)),
{
    lemma_witness_assigned(unpacked(bytes));
    lemma_packed_unpacked(bytes);
}

/// Under a witness for every bit, and at every height, the circuit form of
/// the leaf hash assigns to its output the native leaf hash of a value that
/// feeds the accumulator the bytes that the bits are read as.
pub proof fn lemma_circuit_leaf_hash_is_native<T: Domain, H: HashFunction<T>, D: Hashable<H>>(
    left: Seq<Option<bool>>,
    right: Seq<Option<bool>>,
    data: D,
)
    requires
        all_assigned(left),
        all_assigned(right),
        data.fed(H::spec_fresh()) == H::spec_fresh().spec_write(
            packed(witness(left) + witness(right)),
        ),
    ensures
        circuit_leaf_hash::<T, H>(left, right) == Ok::<T, Error>(leaf_hash::<T, H, D>(data)),
{
}

} // verus!
