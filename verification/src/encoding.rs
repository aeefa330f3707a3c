//! Little-endian integers and bit strings as sequences of bytes.
use vstd::prelude::*;

verus! {

/// `256` to the power `n`: the number of byte strings of length `n`.
pub open spec fn radix_pow(n: nat) -> nat
    decreases n,
{
    if n == 0 {
        1
    } else {
        256 * radix_pow((n - 1) as nat)
    }
}

/// The integer that `bytes` spell, least significant byte first.
pub open spec fn le_value(bytes: Seq<u8>) -> nat
    decreases bytes.len(),
{
    if bytes.len() == 0 {
        0
    } else {
        bytes[0] as nat + 256 * le_value(bytes.skip(1))
    }
}

/// The `len` low bytes of `v`, least significant byte first.
pub open spec fn le_bytes(v: nat, len: nat) -> Seq<u8>
    decreases len,
{
    if len == 0 {
        Seq::empty()
    } else {
        seq![(v % 256) as u8] + le_bytes(v / 256, (len - 1) as nat)
    }
}

/// `le_bytes` yields exactly `len` bytes.
pub proof fn lemma_le_bytes_len(v: nat, len: nat)
    ensures
        le_bytes(v, len).len() == len,
    decreases len,
{
    if len > 0 {
        lemma_le_bytes_len(v / 256, (len - 1) as nat);
    }
}

/// A byte string of length `n` spells an integer below `256^n`.
pub proof fn lemma_le_value_bound(bytes: Seq<u8>)
    ensures
        le_value(bytes) < radix_pow(bytes.len()),
    decreases bytes.len(),
{
    if bytes.len() > 0 {
        lemma_le_value_bound(bytes.skip(1));
    }
}

/// Decoding undoes encoding for every integer that fits in `len` bytes.
pub proof fn lemma_le_value_of_le_bytes(v: nat, len: nat)
    requires
        v < radix_pow(len),
    ensures
        le_value(le_bytes(v, len)) == v,
    decreases len,
{
    if len > 0 {
        let rest = le_bytes(v / 256, (len - 1) as nat);
        let all = le_bytes(v, len);
        lemma_le_value_of_le_bytes(v / 256, (len - 1) as nat);
        assert(all.skip(1) =~= rest);
        assert(all[0] == (v % 256) as u8);
    }
}

/// Encoding undoes decoding for every byte string.
pub proof fn lemma_le_bytes_of_le_value(bytes: Seq<u8>)
    ensures
        le_bytes(le_value(bytes), bytes.len()) == bytes,
    decreases bytes.len(),
{
    if bytes.len() > 0 {
        let tail = bytes.skip(1);
        let v = le_value(bytes);
        lemma_le_bytes_of_le_value(tail);
        assert(v % 256 == bytes[0] as nat && v / 256 == le_value(tail));
        assert(le_bytes(v, bytes.len()) =~= seq![bytes[0]] + tail);
        assert(seq![bytes[0]] + tail =~= bytes);
    } else {
        assert(le_bytes(le_value(bytes), 0) =~= bytes);
    }
}

/// In eight bytes there is room for every `u64`.
pub proof fn lemma_u64_fits_eight_bytes(v: u64)
    ensures
        radix_pow(8) == 0x1_0000_0000_0000_0000,
        v < radix_pow(8),
{
    reveal_with_fuel(radix_pow, 9);
}

/// Appends to `out` the `len` low bytes of `v`, least significant first.
pub fn push_le(out: &mut Vec<u8>, v: u64, len: usize)
    ensures
        final(out)@ == old(out)@ + le_bytes(v as nat, len as nat),
{
    let ghost before = out@;
    let mut rest: u64 = v;
    let mut i: usize = 0;
    while i < len
        invariant
            i <= len,
            before + le_bytes(v as nat, len as nat) == out@ + le_bytes(
                rest as nat,
                (len - i) as nat,
            ),
        decreases len - i,
    {
        let ghost tail = le_bytes(rest as nat / 256, (len - i - 1) as nat);
        assert(le_bytes(rest as nat, (len - i) as nat) == seq![(rest as nat % 256) as u8] + tail);
        assert(out@.push((rest % 256) as u8) + tail =~= out@ + (seq![(rest as nat % 256) as u8]
            + tail));
        out.push((rest % 256) as u8);
        rest = rest / 256;
        i += 1;
    }
    assert(out@ + le_bytes(rest as nat, 0) =~= out@);
}

/// The integer that at most eight bytes spell, least significant first.
pub fn read_le(raw: &[u8]) -> (v: u64)
    requires
        raw@.len() <= 8,
    ensures
        v == le_value(raw@),
{
    let mut v: u64 = 0;
    let mut i: usize = raw.len();
    while i > 0
        invariant
            i <= raw@.len() <= 8,
            v == le_value(raw@.skip(i as int)),
        decreases i,
    {
        i -= 1;
        proof {
            let tail = raw@.skip(i as int);
            assert(tail.skip(1) =~= raw@.skip(i + 1));
            lemma_le_value_bound(tail.skip(1));
            lemma_le_value_bound(tail);
            lemma_radix_pow_monotonic(tail.len(), 8);
            lemma_u64_fits_eight_bytes(0);
        }
        v = v * 256 + raw[i] as u64;
    }
    assert(raw@.skip(0) =~= raw@);
    v
}

/// Longer byte strings have more room.
pub proof fn lemma_radix_pow_monotonic(a: nat, b: nat)
    requires
        a <= b,
    ensures
        radix_pow(a) <= radix_pow(b),
    decreases b,
{
    if a < b {
        lemma_radix_pow_monotonic(a, (b - 1) as nat);
    }
}

} // verus!
