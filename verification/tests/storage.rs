//! The stored form of the auxiliary data, and the difficulties in it.
use sc_pow::auxiliary::{aux_key, PowAux, PowIntermediate, INTERMEDIATE_KEY, POW_AUX_PREFIX};
use sc_pow::difficulty::{Difficulty, U256};
use sc_pow::error::Error;
use sc_pow::scale::is_encodable_len;

fn sample() -> PowAux<u128> {
    PowAux { difficulty: 1, total_difficulty: 0x0102, policy: Some(vec![9, 8]), steps: Some(5) }
}

fn sample_bytes() -> Vec<u8> {
    let mut bytes = vec![1u8];
    bytes.extend(vec![0u8; 15]);
    bytes.extend(vec![2u8, 1]);
    bytes.extend(vec![0u8; 14]);
    bytes.extend(vec![1u8, 8, 9, 8]);
    bytes.extend(vec![1u8, 5, 0, 0, 0, 0, 0, 0, 0]);
    bytes
}

fn assert_same(a: &PowAux<u128>, b: &PowAux<u128>) {
    assert_eq!(a.difficulty, b.difficulty);
    assert_eq!(a.total_difficulty, b.total_difficulty);
    assert_eq!(a.policy, b.policy);
    assert_eq!(a.steps, b.steps);
}

fn codec_error(bytes: Vec<u8>) -> String {
    match PowAux::<u128>::read(Ok(Some(bytes))) {
        Err(Error::Codec(e)) => e,
        _ => panic!("not a decoding error"),
    }
}

#[test]
fn key_is_prefix_then_hash() {
    let hash = [7u8; 32];
    let key = aux_key(&hash);
    assert_eq!(&key[..4], b"PoW:");
    assert_eq!(&key[4..], &hash[..]);
    assert_eq!(aux_key(b"ab"), b"PoW:ab");
    assert_eq!(&POW_AUX_PREFIX, b"PoW:");
    assert_eq!(&INTERMEDIATE_KEY, b"pow1");
}

#[test]
fn keys_of_different_blocks_differ() {
    assert_ne!(aux_key(&[1u8; 32]), aux_key(&[2u8; 32]));
}

#[test]
fn encoding_is_field_after_field() {
    assert_eq!(sample().encode(), sample_bytes());
    let plain = PowAux::<u128>::default();
    assert_eq!(plain.encode(), vec![0u8; 34]);
}

#[test]
fn encoding_is_that_of_the_codec() {
    let aux = sample();
    let tuple = (aux.difficulty, aux.total_difficulty, aux.policy.clone(), aux.steps);
    assert_eq!(aux.encode(), parity_scale_codec::Encode::encode(&tuple));
}

#[test]
fn long_policies_are_read_back() {
    for len in [0usize, 63, 64, 16383, 16384, 70000] {
        let aux = PowAux::<u128> { policy: Some(vec![0xabu8; len]), ..sample() };
        let back = PowAux::<u128>::read(Ok(Some(aux.encode()))).unwrap();
        assert_same(&aux, &back);
    }
}

#[test]
fn stored_data_is_read_back() {
    let back = PowAux::<u128>::read(Ok(Some(sample().encode()))).unwrap();
    assert_same(&sample(), &back);
    let mut longer = sample().encode();
    longer.push(77);
    assert_same(&sample(), &PowAux::<u128>::decode(longer.as_slice()).unwrap());
}

#[test]
fn nothing_stored_reads_as_default() {
    let aux = PowAux::<u128>::read(Ok(None)).unwrap();
    assert_same(
        &aux,
        &PowAux { difficulty: 0, total_difficulty: 0, policy: None, steps: None },
    );
}

#[test]
fn client_error_is_passed_on() {
    match PowAux::<u128>::read(Err("disk".to_string())) {
        Err(Error::Client(e)) => assert_eq!(e, "disk"),
        _ => panic!("not a client error"),
    }
}

#[test]
fn first_unreadable_field_is_named() {
    let bytes = sample_bytes();
    assert_eq!(codec_error(bytes[..15].to_vec()), "Error decoding field PowAux.difficulty");
    assert_eq!(codec_error(bytes[..31].to_vec()), "Error decoding field PowAux.total_difficulty");
    assert_eq!(codec_error(bytes[..35].to_vec()), "Error decoding field PowAux.policy");
    assert_eq!(codec_error(bytes[..44].to_vec()), "Error decoding field PowAux.steps");
    let mut bad = bytes.clone();
    bad[32] = 2;
    assert_eq!(codec_error(bad), "Error decoding field PowAux.policy");
    // A length in more bytes than it takes.
    let mut padded = bytes[..33].to_vec();
    padded.extend(vec![9u8, 0, 9, 8, 0]);
    assert_eq!(codec_error(padded), "Error decoding field PowAux.policy");
}

#[test]
fn extending_adds_the_difficulty() {
    let mut aux = sample();
    aux.extend(10, None);
    assert_same(
        &aux,
        &PowAux { difficulty: 10, total_difficulty: 0x010c, policy: None, steps: Some(5) },
    );
}

#[test]
fn clones_say_the_same() {
    assert_same(&sample(), &sample().clone());
    let value = PowIntermediate::<u128> { difficulty: Some(3), policy: Some(vec![1]) };
    let copy = value.clone();
    assert_eq!(copy.difficulty, Some(3));
    assert_eq!(copy.policy, Some(vec![1]));
    let plain = PowIntermediate::<u128>::default();
    assert!(plain.difficulty.is_none() && plain.policy.is_none());
}

#[test]
fn u128_difficulty_saturates() {
    let mut total: u128 = 40;
    Difficulty::increment(&mut total, 2);
    assert_eq!(total, 42);
    Difficulty::increment(&mut total, u128::MAX - 10);
    assert_eq!(total, u128::MAX);
    assert!(Difficulty::exceeds(&5u128, &4u128));
    assert!(!Difficulty::exceeds(&5u128, &5u128));
}

#[test]
fn u256_difficulty_carries_and_saturates() {
    let max = U256 { w0: u64::MAX, w1: u64::MAX, w2: u64::MAX, w3: u64::MAX };
    let one = U256 { w0: 1, w1: 0, w2: 0, w3: 0 };
    let mut total = U256 { w0: u64::MAX, w1: u64::MAX, w2: 3, w3: 0 };
    total.increment(one);
    assert_eq!(total, U256 { w0: 0, w1: 0, w2: 4, w3: 0 });
    total.increment(max);
    assert_eq!(total, max);
    assert_eq!(total.words(), [u64::MAX; 4]);
}

#[test]
fn u256_difficulties_are_ordered_by_value() {
    let low = U256 { w0: u64::MAX, w1: 5, w2: 0, w3: 1 };
    let high = U256 { w0: 0, w1: 6, w2: 0, w3: 1 };
    assert!(high.exceeds(&low));
    assert!(!low.exceeds(&high));
    assert!(!low.exceeds(&low));
    assert!(U256 { w0: 0, w1: 0, w2: 0, w3: 2 }.exceeds(&high));
}

#[test]
fn u256_data_is_read_back() {
    let d = U256 { w0: 0x0102, w1: 3, w2: 4, w3: 5 };
    let total = U256 { w0: 9, w1: 8, w2: 7, w3: 6 };
    let aux = PowAux { difficulty: d, total_difficulty: total, policy: None, steps: None };
    let bytes = aux.encode();
    assert_eq!(bytes.len(), 66);
    assert_eq!(&bytes[..3], &[2u8, 1, 0]);
    assert_eq!(bytes[8], 3);
    let back = PowAux::<U256>::read(Ok(Some(bytes))).unwrap();
    assert_eq!(back.difficulty, d);
    assert_eq!(back.total_difficulty, total);
    assert_eq!(PowAux::<U256>::read(Ok(None)).unwrap().difficulty, U256::initial());
}

#[test]
fn order_of_blocks_does_not_matter_for_the_total() {
    let mut a: u128 = 1;
    let mut b: u128 = 1;
    for d in [u128::MAX / 2, 7, u128::MAX / 2] {
        Difficulty::increment(&mut a, d);
    }
    for d in [7, u128::MAX / 2, u128::MAX / 2] {
        Difficulty::increment(&mut b, d);
    }
    assert_eq!(a, b);
}

#[test]
fn lengths_beyond_32_bits_are_not_encodable() {
    assert!(is_encodable_len(0xffff_ffff));
    assert!(!is_encodable_len(0x1_0000_0000));
}

#[test]
fn intermediate_values_are_read_back() {
    let value = PowIntermediate::<u128> { difficulty: Some(3), policy: Some(vec![1]) };
    let bytes = value.encode();
    assert_eq!(bytes, parity_scale_codec::Encode::encode(&(value.difficulty, value.policy.clone())));
    let back = PowIntermediate::<u128>::decode(&bytes).unwrap();
    assert_eq!((back.difficulty, back.policy), (Some(3), Some(vec![1])));
    let plain = PowIntermediate::<u128>::default();
    assert_eq!(plain.encode(), vec![0, 0]);
    let error = |bytes: &[u8]| PowIntermediate::<u128>::decode(bytes).unwrap_err().to_string();
    assert_eq!(error(&[]), "Error decoding field PowIntermediate.difficulty");
    assert_eq!(error(&[2, 0]), "Error decoding field PowIntermediate.difficulty");
    assert_eq!(error(&[1, 0]), "Error decoding field PowIntermediate.difficulty");
    assert_eq!(error(&[0]), "Error decoding field PowIntermediate.policy");
}

#[test]
fn the_total_is_the_work_of_the_chain() {
    let mut aux = PowAux::<u128>::default();
    for d in [5u128, 7, 11] {
        aux.extend(d, None);
    }
    assert_eq!((aux.difficulty, aux.total_difficulty), (11, 23));
    aux.extend(u128::MAX, None);
    assert_eq!(aux.total_difficulty, u128::MAX);
}
