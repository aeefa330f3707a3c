//! The value that hashing produces and Merkle trees store: an element of a
//! prime field with one canonical, fixed-width byte encoding.
use crate::encoding::{
    le_bytes, le_value, lemma_le_bytes_len, lemma_le_bytes_of_le_value, lemma_le_value_of_le_bytes,
    radix_pow,
};
use crate::error::Error;
use vstd::prelude::*;

verus! {

/// A hash output, shaped like a field element.
///
/// The model of a value is its canonical integer, [`Domain::value`]. A value
/// is *in the field* when that integer is below [`Domain::modulus`]; every
/// value that the functions of this crate hand out is. The byte encoding is
/// the integer written least significant byte first on
/// [`Domain::byte_len`] bytes.
pub trait Domain: Ord + Copy + Clone + Default + core::fmt::Debug + Eq + Send + Sync + Sized {
    /// The number of elements of the field.
    spec fn modulus() -> nat;

    /// The width of the byte encoding.
    spec fn byte_len() -> nat;

    /// The canonical integer of this value.
    spec fn value(&self) -> nat;

    /// The value whose canonical integer is `v`.
    spec fn from_value(v: nat) -> Self;

    /// The field is not empty and every element fits the encoding.
    proof fn lemma_modulus_fits()
        ensures
            0 < Self::modulus() <= radix_pow(Self::byte_len()),
    ;

    /// Every integer of the field is the canonical integer of a value.
    proof fn lemma_value_of_from_value(v: nat)
        requires
            v < Self::modulus(),
        ensures
            Self::from_value(v).value() == v,
    ;

    /// A value in the field is determined by its canonical integer.
    proof fn lemma_from_value_of_value(d: Self)
        requires
            d.value() < Self::modulus(),
        ensures
            Self::from_value(d.value()) == d,
    ;

    /// The canonical encoding, as a fresh vector.
    fn serialize(&self) -> (out: Vec<u8>)
        ensures
            out@ == le_bytes(self.value(), Self::byte_len()),
    ;

    /// The canonical encoding, as a fresh vector.
    fn into_bytes(&self) -> (out: Vec<u8>)
        ensures
            out@ == le_bytes(self.value(), Self::byte_len()),
    ;

    /// Reads a value from its canonical encoding. Bytes of the wrong number,
    /// or that spell an integer outside the field, are refused.
    fn try_from_bytes(raw: &[u8]) -> (r: Result<Self, Error>)
        ensures
            raw@.len() == Self::byte_len() && le_value(raw@) < Self::modulus() ==> r == Ok::<
                Self,
                Error,
            >(Self::from_value(le_value(raw@))),
            raw@.len() != Self::byte_len() || le_value(raw@) >= Self::modulus() ==> r == Err::<
                Self,
                Error,
            >(Error::Deserialization),
    ;

    /// Writes the canonical encoding over the first bytes of `dest` and
    /// leaves the others as they were. A destination that is too short is
    /// left untouched.
    fn write_bytes(&self, dest: &mut [u8]) -> (r: Result<(), Error>)
        ensures
            old(dest)@.len() < Self::byte_len() ==> r == Err::<(), Error>(Error::BufferTooSmall)
                && final(dest)@ == old(dest)@,
            old(dest)@.len() >= Self::byte_len() ==> r == Ok::<(), Error>(()) && final(dest)@
                == le_bytes(self.value(), Self::byte_len()) + old(dest)@.skip(
                Self::byte_len() as int,
            ),
    ;
}

/// Whether `d` is an element of the field.
pub open spec fn in_field<D: Domain>(d: D) -> bool {
    d.value() < D::modulus()
}

/// The canonical byte encoding of `d`: what [`Domain::serialize`],
/// [`Domain::into_bytes`] and [`Domain::write_bytes`] produce.
pub open spec fn encoding<D: Domain>(d: D) -> Seq<u8> {
    le_bytes(d.value(), D::byte_len())
}

/// Whether `raw` is the canonical encoding of an element of the field.
pub open spec fn is_encoding<D: Domain>(raw: Seq<u8>) -> bool {
    raw.len() == D::byte_len() && le_value(raw) < D::modulus()
}

/// What [`Domain::try_from_bytes`] returns on `raw`: the encoded value, or
/// the refusal.
pub open spec fn decoded<D: Domain>(raw: Seq<u8>) -> Result<D, Error> {
    if is_encoding::<D>(raw) {
        Ok(D::from_value(le_value(raw)))
    } else {
        Err(Error::Deserialization)
    }
}

/// What is read is in the field.
pub proof fn lemma_decoded_in_field<D: Domain>(raw: Seq<u8>)
    requires
        is_encoding::<D>(raw),
    ensures
        decoded::<D>(raw) is Ok,
        in_field(decoded::<D>(raw).unwrap()),
        decoded::<D>(raw).unwrap().value() == le_value(raw),
{
    D::lemma_value_of_from_value(le_value(raw));
}

/// Reading the encoding of a field element gives that element back.
pub proof fn lemma_decode_encoding<D: Domain>(d: D)
    requires
        in_field(d),
    ensures
        encoding(d).len() == D::byte_len(),
        is_encoding::<D>(encoding(d)),
        decoded::<D>(encoding(d)) == Ok::<D, Error>(d),
{
    D::lemma_modulus_fits();
    lemma_le_bytes_len(d.value(), D::byte_len());
    lemma_le_value_of_le_bytes(d.value(), D::byte_len());
    D::lemma_from_value_of_value(d);
}

/// Encoding what was read gives the bytes back: reading and encoding are
/// inverse bijections between the field and its encodings.
pub proof fn lemma_encode_decoded<D: Domain>(raw: Seq<u8>)
    requires
        is_encoding::<D>(raw),
    ensures
        decoded::<D>(raw) is Ok,
        encoding(decoded::<D>(raw).unwrap()) == raw,
{
    D::lemma_value_of_from_value(le_value(raw));
    lemma_le_bytes_of_le_value(raw);
}

/// Bytes of the wrong number, or that spell an integer outside the field,
/// are never read as a value.
pub proof fn lemma_decode_refuses<D: Domain>(raw: Seq<u8>)
    requires
        raw.len() != D::byte_len() || le_value(raw) >= D::modulus(),
    ensures
        decoded::<D>(raw) == Err::<D, Error>(Error::Deserialization),
{
}

/// Two field elements with the same encoding are the same element.
pub proof fn lemma_encoding_injective<D: Domain>(a: D, b: D)
    requires
        in_field(a),
        in_field(b),
        encoding(a) == encoding(b),
    ensures
        a == b,
{
    lemma_decode_encoding(a);
    lemma_decode_encoding(b);
}

} // verus!
