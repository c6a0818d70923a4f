//! Headers: digests and hashes.
use sc_pow::header::{BlakeTwo256, DigestItem, Hashing, Header};

fn plain() -> Header {
    Header {
        parent_hash: [1; 32],
        number: 42,
        state_root: [2; 32],
        extrinsics_root: [3; 32],
        digest: vec![],
    }
}

#[test]
fn hash_of_a_plain_header() {
    assert_eq!(
        BlakeTwo256::hash(&plain()),
        [
            131, 35, 72, 7, 211, 189, 96, 68, 59, 73, 82, 239, 110, 119, 185, 215, 179, 10, 1, 162,
            187, 12, 72, 211, 127, 28, 41, 108, 32, 135, 134, 35,
        ],
    );
}

#[test]
fn hash_covers_every_kind_of_digest_entry() {
    let mut header = plain();
    header.push_digest(DigestItem::ChangesTrieRoot([7; 32]));
    header.push_digest(DigestItem::PreRuntime(*b"pow_", b"abc".to_vec()));
    header.push_digest(DigestItem::Consensus(*b"aura", vec![1]));
    header.push_digest(DigestItem::Seal(*b"pow_", vec![9, 9]));
    header.push_digest(DigestItem::ChangesTrieSignal(Some((4, 2))));
    header.push_digest(DigestItem::ChangesTrieSignal(None));
    header.push_digest(DigestItem::Other(vec![5]));
    let expected = [
        207, 232, 111, 227, 143, 188, 249, 43, 223, 242, 103, 204, 188, 39, 94, 147, 52, 139, 21,
        158, 75, 9, 22, 50, 58, 96, 73, 150, 204, 36, 66, 216,
    ];
    assert_eq!(BlakeTwo256::hash(&header), expected);
    assert_eq!(BlakeTwo256::hash(&header.clone()), expected);
    assert!(header.is_encodable());
}

#[test]
fn hash_depends_on_every_field() {
    let base = BlakeTwo256::hash(&plain());
    assert_ne!(base, BlakeTwo256::hash(&Header { parent_hash: [9; 32], ..plain() }));
    assert_ne!(base, BlakeTwo256::hash(&Header { number: 43, ..plain() }));
    assert_ne!(base, BlakeTwo256::hash(&Header { state_root: [9; 32], ..plain() }));
    assert_ne!(base, BlakeTwo256::hash(&Header { extrinsics_root: [9; 32], ..plain() }));
    assert_ne!(base, BlakeTwo256::hash(&Header { digest: vec![DigestItem::Other(vec![])], ..plain() }));
}

#[test]
fn popping_undoes_pushing() {
    let mut header = plain();
    assert!(header.pop_digest().is_none());
    header.push_digest(DigestItem::Other(vec![1]));
    header.push_digest(DigestItem::Seal(*b"pow_", vec![2]));
    match header.pop_digest() {
        Some(DigestItem::Seal(id, data)) => {
            assert_eq!(&id, b"pow_");
            assert_eq!(data, vec![2]);
        },
        _ => panic!("not the seal"),
    }
    assert_eq!(header.digest.len(), 1);
}
