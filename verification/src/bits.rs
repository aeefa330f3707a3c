//! Bit strings and the bytes that they are read as.
//!
//! A circuit sees its input as a sequence of bits; the hash sees bytes. Bit
//! `8 * j + k` of a bit string is bit `k` of byte `j`, counted from the least
//! significant one, and a last byte that is not full is filled with zeros.
use vstd::prelude::*;

verus! {

/// `w` if bit `i` of `bits` is there and set, else zero.
pub open spec fn bit_weight(bits: Seq<bool>, i: int, w: nat) -> nat {
    if 0 <= i < bits.len() && bits[i] {
        w
    } else {
        0
    }
}

/// Byte `j` of the bytes that `bits` are read as.
pub open spec fn packed_byte(bits: Seq<bool>, j: int) -> nat {
    bit_weight(bits, 8 * j, 1) + bit_weight(bits, 8 * j + 1, 2) + bit_weight(bits, 8 * j + 2, 4)
        + bit_weight(bits, 8 * j + 3, 8) + bit_weight(bits, 8 * j + 4, 16) + bit_weight(
        bits,
        8 * j + 5,
        32,
    ) + bit_weight(bits, 8 * j + 6, 64) + bit_weight(bits, 8 * j + 7, 128)
}

/// The number of bytes that hold `n` bits.
pub open spec fn packed_len(n: nat) -> nat {
    (n + 7) / 8
}

/// The bytes that `bits` are read as.
pub open spec fn packed(bits: Seq<bool>) -> Seq<u8> {
    Seq::new(packed_len(bits.len()), |j: int| packed_byte(bits, j) as u8)
}

/// Bit `k` of the byte `b`, counted from the least significant one.
pub open spec fn bit_of(b: u8, k: int) -> bool {
    if k == 0 {
        b % 2 == 1
    } else if k == 1 {
        (b / 2) % 2 == 1
    } else if k == 2 {
        (b / 4) % 2 == 1
    } else if k == 3 {
        (b / 8) % 2 == 1
    } else if k == 4 {
        (b / 16) % 2 == 1
    } else if k == 5 {
        (b / 32) % 2 == 1
    } else if k == 6 {
        (b / 64) % 2 == 1
    } else {
        (b / 128) % 2 == 1
    }
}

/// The bits of `bytes`, eight for each byte.
pub open spec fn unpacked(bytes: Seq<u8>) -> Seq<bool> {
    Seq::new(8 * bytes.len(), |i: int| bit_of(bytes[i / 8], i % 8))
}

/// A byte is the sum of its bits, each with its weight.
proof fn lemma_byte_is_sum_of_bits(b: u8)
    ensures
        b == b % 2 + 2 * ((b / 2) % 2) + 4 * ((b / 4) % 2) + 8 * ((b / 8) % 2) + 16 * ((b / 16) % 2)
            + 32 * ((b / 32) % 2) + 64 * ((b / 64) % 2) + 128 * ((b / 128) % 2),
{
    assert(b / 4 == (b / 2) / 2 && b / 8 == (b / 4) / 2 && b / 16 == (b / 8) / 2);
    assert(b / 32 == (b / 16) / 2 && b / 64 == (b / 32) / 2 && b / 128 == (b / 64) / 2);
    assert(b / 128 < 2);
}

/// Reading the bits of a byte string as bytes gives the byte string back.
pub proof fn lemma_packed_unpacked(bytes: Seq<u8>)
    ensures
        packed(unpacked(bytes)) == bytes,
{
    let bits = unpacked(bytes);
    assert(packed_len(bits.len()) == bytes.len());
    assert forall|j: int| 0 <= j < bytes.len() implies packed_byte(bits, j) == bytes[j] as nat by {
        let b = bytes[j];
        assert forall|k: int| 0 <= k < 8 implies #[trigger] bits[8 * j + k] == bit_of(b, k) by {
            assert((8 * j + k) / 8 == j && (8 * j + k) % 8 == k);
        }
        assert(bits[8 * j] == bits[8 * j + 0]);
        assert(bit_weight(bits, 8 * j, 1) == b % 2);
        assert(bit_weight(bits, 8 * j + 1, 2) == 2 * ((b / 2) % 2));
        assert(bit_weight(bits, 8 * j + 2, 4) == 4 * ((b / 4) % 2));
        assert(bit_weight(bits, 8 * j + 3, 8) == 8 * ((b / 8) % 2));
        assert(bit_weight(bits, 8 * j + 4, 16) == 16 * ((b / 16) % 2));
        assert(bit_weight(bits, 8 * j + 5, 32) == 32 * ((b / 32) % 2));
        assert(bit_weight(bits, 8 * j + 6, 64) == 64 * ((b / 64) % 2));
        assert(bit_weight(bits, 8 * j + 7, 128) == 128 * ((b / 128) % 2));
        lemma_byte_is_sum_of_bits(b);
    }
    assert(packed(bits) =~= bytes);
}

/// Whether every bit of a circuit input has a value assigned to it.
pub open spec fn all_assigned(bits: Seq<Option<bool>>) -> bool {
    forall|i: int| 0 <= i < bits.len() ==> (#[trigger] bits[i]) is Some
}

/// The values assigned to the bits of a circuit input.
pub open spec fn witness(bits: Seq<Option<bool>>) -> Seq<bool> {
    Seq::new(bits.len(), |i: int| bits[i] == Some(true))
}

/// The circuit input whose bits are assigned the values `bits`.
pub open spec fn assigned(bits: Seq<bool>) -> Seq<Option<bool>> {
    Seq::new(bits.len(), |i: int| Some(bits[i]))
}

/// A circuit input made of given values has them all, unchanged.
pub proof fn lemma_witness_assigned(bits: Seq<bool>)
    ensures
        all_assigned(assigned(bits)),
        witness(assigned(bits)) == bits,
{
    assert(witness(assigned(bits)) =~= bits);
}

/// Appends to `into` the values assigned to `bits`, if every bit has one;
/// else `into` stays as it was. Says whether every bit had one.
pub fn collect_witness(bits: &[Option<bool>], into: &mut Vec<bool>) -> (ok: bool)
    ensures
        ok == all_assigned(bits@),
        ok ==> final(into)@ == old(into)@ + witness(bits@),
        !ok ==> final(into)@ == old(into)@,
{
    let mut k: usize = 0;
    while k < bits.len()
        invariant
            k <= bits@.len(),
            forall|t: int| 0 <= t < k ==> (#[trigger] bits@[t]) is Some,
        decreases bits@.len() - k,
    {
        if bits[k].is_none() {
            return false;
        }
        k += 1;
    }
    let ghost before = into@;
    let mut i: usize = 0;
    while i < bits.len()
        invariant
            i <= bits@.len(),
            all_assigned(bits@),
            into@ == before + witness(bits@).take(i as int),
        decreases bits@.len() - i,
    {
        into.push(bits[i] == Some(true));
        i += 1;
        assert(into@ =~= before + witness(bits@).take(i as int));
    }
    assert(witness(bits@).take(i as int) =~= witness(bits@));
    true
}

/// `w` if bit `base + k` of `bits` is there and set, else zero.
fn weight_at(bits: &[bool], base: usize, k: usize, w: u8) -> (r: u8)
    requires
        base <= bits@.len(),
    ensures
        r as nat == bit_weight(bits@, base + k, w as nat),
{
    if k < bits.len() - base && bits[base + k] {
        w
    } else {
        0
    }
}

/// Reads a bit string as bytes.
pub fn bits_to_bytes(bits: &[bool]) -> (out: Vec<u8>)
    ensures
        out@ == packed(bits@),
{
    let n: usize = bits.len();
    let count: usize = if n % 8 == 0 {
        n / 8
    } else {
        n / 8 + 1
    };
    let mut out: Vec<u8> = Vec::new();
    let mut j: usize = 0;
    while j < count
        invariant
            j <= count,
            count == packed_len(n as nat),
            n == bits@.len(),
            out@.len() == j,
            forall|i: int| 0 <= i < j ==> out@[i] == packed_byte(bits@, i) as u8,
        decreases count - j,
    {
        let base: usize = 8 * j;
        let b0: u8 = weight_at(bits, base, 0, 1);
        let b1: u8 = weight_at(bits, base, 1, 2);
        let b2: u8 = weight_at(bits, base, 2, 4);
        let b3: u8 = weight_at(bits, base, 3, 8);
        let b4: u8 = weight_at(bits, base, 4, 16);
        let b5: u8 = weight_at(bits, base, 5, 32);
        let b6: u8 = weight_at(bits, base, 6, 64);
        let b7: u8 = weight_at(bits, base, 7, 128);
        let b: u8 = b0 + b1 + b2 + b3 + b4 + b5 + b6 + b7;
        assert(b as nat == packed_byte(bits@, j as int));
        out.push(b);
        j += 1;
    }
    assert(out@ =~= packed(bits@));
    out
}

/// The bits of a byte string, eight for each byte.
pub fn bytes_into_bits(bytes: &[u8]) -> (out: Vec<bool>)
    ensures
        out@ == unpacked(bytes@),
{
    let mut out: Vec<bool> = Vec::new();
    let mut i: usize = 0;
    while i < bytes.len()
        invariant
            i <= bytes@.len(),
            out@.len() == 8 * i,
            forall|t: int| 0 <= t < 8 * i ==> out@[t] == bit_of(bytes@[t / 8], t % 8),
        decreases bytes@.len() - i,
    {
        let b: u8 = bytes[i];
        out.push(b % 2 == 1);
        out.push((b / 2) % 2 == 1);
        out.push((b / 4) % 2 == 1);
        out.push((b / 8) % 2 == 1);
        out.push((b / 16) % 2 == 1);
        out.push((b / 32) % 2 == 1);
        out.push((b / 64) % 2 == 1);
        out.push((b / 128) % 2 == 1);
        i += 1;
    }
    assert(out@ =~= unpacked(bytes@));
    out
}

} // verus!
