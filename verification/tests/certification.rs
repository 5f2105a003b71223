use canistore_core::certificate::MusicCertificate;
use canistore_core::certified::{verify_witness, CertStore, CertTree};
use canistore_core::digest::{crc32, hex_encode, leaf_digest};
use canistore_core::principal::PrincipalId;

fn leaf(data: &[u8]) -> Vec<u8> {
    leaf_digest(data)
}

#[test]
fn witness_verifies_against_root_published_after_last_mutation() {
    let mut tree = CertTree::new();
    tree.insert("a".to_string(), leaf(b"payload-a"));
    tree.insert("b".to_string(), leaf(b"payload-b"));
    tree.insert("c".to_string(), leaf(b"payload-c"));
    let r1 = tree.root();

    let (leaf_b, witness_b) = tree.get_with_witness(&"b".to_string()).expect("b is recorded");
    assert_eq!(leaf_b, leaf(b"payload-b"));
    assert!(verify_witness(&"b".to_string(), &leaf_b, &witness_b, &r1));

    // Delete another entry: the root moves on, but the old witness still
    // verifies against the root it was issued under.
    assert!(tree.delete(&"a".to_string()));
    let r2 = tree.root();
    assert_ne!(r1, r2);
    assert!(verify_witness(&"b".to_string(), &leaf_b, &witness_b, &r1));
    assert!(!verify_witness(&"b".to_string(), &leaf_b, &witness_b, &r2));

    // A fresh witness verifies against the new root.
    let (leaf_b2, witness_b2) = tree.get_with_witness(&"b".to_string()).expect("b survives");
    assert!(verify_witness(&"b".to_string(), &leaf_b2, &witness_b2, &r2));
}

#[test]
fn witness_for_wrong_key_or_leaf_fails() {
    let mut tree = CertTree::new();
    tree.insert("a".to_string(), leaf(b"payload-a"));
    tree.insert("b".to_string(), leaf(b"payload-b"));
    let root = tree.root();
    let (leaf_a, witness_a) = tree.get_with_witness(&"a".to_string()).unwrap();
    assert!(verify_witness(&"a".to_string(), &leaf_a, &witness_a, &root));
    assert!(!verify_witness(&"b".to_string(), &leaf_a, &witness_a, &root));
    assert!(!verify_witness(&"a".to_string(), &leaf(b"payload-b"), &witness_a, &root));
}

#[test]
fn missing_key_yields_no_witness() {
    let mut tree = CertTree::new();
    tree.insert("a".to_string(), leaf(b"payload-a"));
    assert!(tree.get_with_witness(&"missing".to_string()).is_none());
    assert!(tree.delete(&"a".to_string()));
    assert!(tree.get_with_witness(&"a".to_string()).is_none());
}

#[test]
fn upsert_replaces_the_leaf_under_a_key() {
    let mut tree = CertTree::new();
    tree.insert("k".to_string(), leaf(b"one"));
    let r1 = tree.root();
    tree.insert("k".to_string(), leaf(b"two"));
    let r2 = tree.root();
    assert_ne!(r1, r2);
    let (l, w) = tree.get_with_witness(&"k".to_string()).unwrap();
    assert_eq!(l, leaf(b"two"));
    assert!(verify_witness(&"k".to_string(), &l, &w, &r2));
}

#[test]
fn leaf_digest_matches_the_hash_tree_leaf_hash() {
    let d = leaf_digest(b"hello");
    assert_eq!(d.as_slice(), &ic_certified_map::leaf_hash(b"hello")[..]);
    assert_eq!(d.len(), 32);
}

#[test]
fn hex_encode_matches_the_reference_encoder() {
    let bytes = vec![0x00u8, 0x01, 0x0f, 0x10, 0xab, 0xff];
    assert_eq!(hex_encode(&bytes), hex::encode(&bytes));
    assert_eq!(hex_encode(&bytes), "00010f10abff");
}

#[test]
fn crc32_matches_the_reference_checksum() {
    let data = b"The quick brown fox jumps over the lazy dog";
    assert_eq!(crc32(data), crc32fast::hash(data));
    assert_eq!(crc32(data), 0x414FA339);
}

#[test]
fn store_certificate_files_record_under_sequential_keys() {
    let mut store = CertStore::new();
    let cert = MusicCertificate {
        title: "Title".to_string(),
        artist: "Artist".to_string(),
        owner: PrincipalId::new(7),
        unique_id: "7_1".to_string(),
    };
    let serialized = b"encoded certificate bytes";
    let resp = store.store_certificate(cert, serialized).expect("stores");
    assert_eq!(resp.key, "cani_cert_1");
    assert_eq!(resp.music_cert_hex, hex::encode(ic_certified_map::leaf_hash(serialized)));
    assert_eq!(store.cert_counter, 1);

    let cert2 = MusicCertificate {
        title: "Other".to_string(),
        artist: "Artist".to_string(),
        owner: PrincipalId::new(8),
        unique_id: "8_2".to_string(),
    };
    let resp2 = store.store_certificate(cert2, b"other bytes").expect("stores");
    assert_eq!(resp2.key, "cani_cert_2");

    let info = store.get_cret_info(&"cani_cert_1".to_string()).expect("kept out of band");
    assert_eq!(info.cert_hex, resp.music_cert_hex);

    // The record can be authenticated once a signed digest exists.
    let signed = vec![0xaau8; 4];
    let copyright = store
        .get_certificate(&"cani_cert_1".to_string(), Some(signed.clone()))
        .expect("record exists and a digest is published");
    assert_eq!(copyright.count, 2);
    assert_eq!(copyright.certificate, signed);
    let root = store.tree.root();
    assert!(verify_witness(
        &"cani_cert_1".to_string(),
        &leaf(serialized),
        &copyright.witness,
        &root
    ));

    // Without a published digest the query reports the record as not yet
    // certified; an unknown key is not found.
    assert!(store.get_certificate(&"cani_cert_1".to_string(), None).is_err());
    assert!(store.get_certificate(&"cani_cert_9".to_string(), Some(signed)).is_err());
}
