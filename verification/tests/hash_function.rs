use storage_hasher::bits::bytes_into_bits;
use storage_hasher::{Domain, Error, Fp61, Fp61Function, HashFunction, Hashable};

const P: u64 = 0x1FFF_FFFF_FFFF_FFFF;

fn assigned(bytes: &[u8]) -> Vec<Option<bool>> {
    bytes_into_bits(bytes).into_iter().map(Some).collect()
}

#[test]
fn hash_of_known_inputs() {
    assert_eq!(Fp61Function::hash(b"").to_u64(), 0);
    assert_eq!(Fp61Function::hash(b"a").to_u64(), 98);
    assert_eq!(Fp61Function::hash(b"abc").to_u64(), 6498345);
    assert_eq!(Fp61Function::hash(&[5]).to_u64(), 6);
}

#[test]
fn hash_is_deterministic() {
    let data: Vec<u8> = (0..200).map(|i| (i * 7 % 256) as u8).collect();
    let first = Fp61Function::hash(&data);
    for _ in 0..5 {
        assert_eq!(Fp61Function::hash(&data), first);
    }
    assert!(first.to_u64() < P);
}

#[test]
fn accumulator_digest_is_the_hash() {
    let mut a = Fp61Function::fresh();
    a.write(b"ab");
    a.write(b"");
    a.write(b"c");
    assert_eq!(a.finish(), Fp61Function::hash(b"abc"));
    assert_eq!(Fp61Function::fresh().finish().to_u64(), 0);
    assert_eq!(Fp61Function::default(), Fp61Function::fresh());
}

#[test]
fn node_hash_of_bytes_is_their_hash() {
    let data = b"abc".to_vec();
    assert_eq!(Fp61Function::hash_single_node(&data).to_u64(), 6498345);
    assert_eq!(Fp61Function::hash_single_node(&Vec::<u8>::new()).to_u64(), 0);
}

#[test]
fn leaf_hash_is_the_leaf_transform_of_the_node_hash() {
    let data = b"abc".to_vec();
    assert_eq!(Fp61Function::hash_leaf(&data).to_u64(), 6498346);
    let node = Fp61Function::hash_single_node(&data);
    assert_eq!(Fp61Function::hash_leaf(&data), Fp61Function::leaf(node));
}

#[test]
fn leaf_and_node_hashes_differ() {
    let inputs: Vec<Vec<u8>> =
        vec![vec![], b"a".to_vec(), b"abc".to_vec(), vec![0; 64], vec![255; 9]];
    for data in &inputs {
        assert_ne!(Fp61Function::hash_leaf(data), Fp61Function::hash_single_node(data));
    }
    let element = Fp61::from_u64(5);
    assert_ne!(Fp61Function::hash_leaf(&element), Fp61Function::hash_single_node(&element));
}

#[test]
fn leaf_transform_wraps_at_the_top_of_the_field() {
    assert_eq!(Fp61Function::leaf(Fp61::from_u64(P - 1)).to_u64(), 0);
    assert_eq!(Fp61Function::leaf(Fp61::from_u64(0)).to_u64(), 1);
}

#[test]
fn field_element_is_fed_as_its_encoding() {
    let element = Fp61::from_u64(5);
    assert_eq!(Fp61Function::hash_single_node(&element).to_u64(), 444596219531050765);
    assert_eq!(
        Fp61Function::hash_single_node(&element),
        Fp61Function::hash(&element.into_bytes())
    );
    let mut a = Fp61Function::fresh();
    element.hash(&mut a);
    assert_eq!(a.finish().to_u64(), 444596219531050765);
}

#[test]
fn pair_is_fed_first_then_second() {
    let children = (Fp61::from_u64(5), Fp61::from_u64(9));
    assert_eq!(Fp61Function::hash_single_node(&children).to_u64(), 2303409436867207835);
    let mut bytes = Fp61::from_u64(5).into_bytes();
    bytes.extend(Fp61::from_u64(9).into_bytes());
    assert_eq!(Fp61Function::hash_single_node(&children), Fp61Function::hash(&bytes));
    let swapped = (Fp61::from_u64(9), Fp61::from_u64(5));
    assert_ne!(
        Fp61Function::hash_single_node(&children),
        Fp61Function::hash_single_node(&swapped)
    );
}

#[test]
fn circuit_hash_equals_native_hash() {
    for data in [&b""[..], &b"a"[..], &b"abc"[..], &[0u8, 255, 17][..]] {
        assert_eq!(Fp61Function::hash_circuit(&assigned(data)), Ok(Fp61Function::hash(data)));
    }
    assert_eq!(Fp61Function::hash_circuit(&assigned(b"abc")).map(|d| d.to_u64()), Ok(6498345));
}

#[test]
fn circuit_hash_pads_a_last_byte_that_is_not_full() {
    let bits = [Some(true), Some(false), Some(true)];
    assert_eq!(Fp61Function::hash_circuit(&bits), Ok(Fp61Function::hash(&[5])));
    assert_eq!(Fp61Function::hash_circuit(&bits).map(|d| d.to_u64()), Ok(6));
}

#[test]
fn circuit_hash_needs_every_bit() {
    let mut bits = assigned(b"abc");
    bits[13] = None;
    assert_eq!(Fp61Function::hash_circuit(&bits), Err(Error::ConstraintSynthesis));
    assert_eq!(Fp61Function::hash_circuit(&[None]), Err(Error::ConstraintSynthesis));
}

#[test]
fn circuit_leaf_hash_equals_native_leaf_hash_at_every_height() {
    let left = assigned(b"ab");
    let right = assigned(b"c");
    let native = Fp61Function::hash_leaf(&b"abc".to_vec());
    for height in [0usize, 1, 2, 3, 31, 1 << 20, usize::MAX] {
        assert_eq!(Fp61Function::hash_leaf_circuit(&left, &right, height), Ok(native));
    }
    assert_eq!(
        Fp61Function::hash_leaf_circuit(&left, &right, 3).map(|d| d.to_u64()),
        Ok(6498346)
    );
}

#[test]
fn circuit_leaf_hash_joins_the_halves_bit_by_bit() {
    let left = [Some(true), Some(true), Some(false), Some(false)];
    let right = [Some(true), Some(false), Some(true), Some(false), Some(true)];
    assert_eq!(
        Fp61Function::hash_leaf_circuit(&left, &right, 0).map(|d| d.to_u64()),
        Ok(21591)
    );
    assert_eq!(
        Fp61Function::hash_leaf_circuit(&left, &right, 0),
        Ok(Fp61Function::hash_leaf(&vec![83u8, 1]))
    );
    assert_eq!(
        Fp61Function::hash_leaf_circuit(&[], &[], 1),
        Ok(Fp61Function::hash_leaf(&Vec::<u8>::new()))
    );
}

#[test]
fn circuit_leaf_hash_needs_every_bit() {
    let whole = assigned(b"a");
    let mut holed = assigned(b"b");
    holed[0] = None;
    assert_eq!(
        Fp61Function::hash_leaf_circuit(&holed, &whole, 0),
        Err(Error::ConstraintSynthesis)
    );
    assert_eq!(
        Fp61Function::hash_leaf_circuit(&whole, &holed, 1),
        Err(Error::ConstraintSynthesis)
    );
    assert_eq!(
        Fp61Function::hash_leaf_circuit(&holed, &holed, 40),
        Err(Error::ConstraintSynthesis)
    );
}
