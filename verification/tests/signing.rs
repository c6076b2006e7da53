use std::collections::BTreeMap;

use parity_scale_codec::Encode;
use phala_types::key_map::KeyMap;
use phala_types::messaging::{BatchRotateMasterKeyEvent, EncryptedKey};
use phala_types::primitives::Public;
use phala_types::{wrap_content_to_sign, SignedContentType};

fn key(first: u8, last: u8) -> Public {
    let mut bytes = [7u8; 32];
    bytes[0] = first;
    bytes[31] = last;
    Public(bytes)
}

fn encrypted(tag: u8, len: usize) -> EncryptedKey {
    EncryptedKey {
        ecdh_pubkey: Public([tag; 32]),
        encrypted_key: (0..len).map(|i| (i as u8) ^ tag).collect(),
        iv: [tag.wrapping_add(1); 12],
    }
}

/// The encoding that the codec crate derives for the same fields, laid out as
/// a tuple of plain values.
fn codec_reference(
    rotation_id: u64,
    entries: &[(Public, EncryptedKey)],
    sender: Public,
) -> Vec<u8> {
    let mut map: BTreeMap<[u8; 32], ([u8; 32], Vec<u8>, [u8; 12])> = BTreeMap::new();
    for (k, v) in entries {
        map.insert(k.0, (v.ecdh_pubkey.0, v.encrypted_key.clone(), v.iv));
    }
    (rotation_id, map, sender.0).encode()
}

fn event(rotation_id: u64, entries: &[(Public, EncryptedKey)], sender: Public, sig: Vec<u8>) -> BatchRotateMasterKeyEvent {
    let mut secret_keys = KeyMap::new();
    for (k, v) in entries {
        secret_keys.insert(*k, v.clone());
    }
    BatchRotateMasterKeyEvent { rotation_id, secret_keys, sender, sig }
}

#[test]
fn data_be_signed_of_empty_batch() {
    let e = event(0x0102030405060708, &[], key(9, 9), vec![1, 2, 3]);
    let data = e.data_be_signed();
    let mut expected = vec![8u8, 7, 6, 5, 4, 3, 2, 1, 0];
    expected.extend_from_slice(&key(9, 9).0);
    assert_eq!(data, expected);
    assert_eq!(data, codec_reference(0x0102030405060708, &[], key(9, 9)));
}

#[test]
fn data_be_signed_matches_codec_and_sorts_keys() {
    let entries = vec![
        (key(200, 1), encrypted(3, 5)),
        (key(1, 250), encrypted(4, 0)),
        (key(1, 2), encrypted(5, 70)),
    ];
    let e = event(42, &entries, key(5, 5), vec![]);
    let data = e.data_be_signed();
    assert_eq!(data, codec_reference(42, &entries, key(5, 5)));
    // rotation id, then one compact byte for three entries
    assert_eq!(&data[0..9], &[42, 0, 0, 0, 0, 0, 0, 0, 12]);
    // the smallest key comes first, whatever the insertion order
    assert_eq!(&data[9..41], &key(1, 2).0);
}

#[test]
fn data_be_signed_uses_two_byte_and_four_byte_lengths() {
    let entries = vec![(key(1, 1), encrypted(1, 64)), (key(2, 2), encrypted(2, 16384))];
    let e = event(7, &entries, key(3, 3), vec![]);
    let data = e.data_be_signed();
    assert_eq!(data, codec_reference(7, &entries, key(3, 3)));
    // 64 bytes: two-byte compact length 64 * 4 + 1 = 0x0101
    assert_eq!(&data[9 + 64..9 + 66], &[0x01, 0x01]);
    let second = 9 + 64 + 2 + 64 + 12;
    // 16384 bytes: four-byte compact length 16384 * 4 + 2 = 0x0001_0002
    assert_eq!(&data[second + 64..second + 68], &[0x02, 0x00, 0x01, 0x00]);
}

#[test]
fn data_be_signed_ignores_signature() {
    let entries = vec![(key(1, 1), encrypted(1, 3))];
    let a = event(1, &entries, key(2, 2), vec![1]);
    let b = event(1, &entries, key(2, 2), vec![2, 3]);
    assert_eq!(a.data_be_signed(), b.data_be_signed());
}

#[test]
fn data_be_signed_differs_when_fields_differ() {
    let entries = vec![(key(1, 1), encrypted(1, 3))];
    let base = event(1, &entries, key(2, 2), vec![]).data_be_signed();
    assert_ne!(base, event(2, &entries, key(2, 2), vec![]).data_be_signed());
    assert_ne!(base, event(1, &entries, key(2, 3), vec![]).data_be_signed());
    let other = vec![(key(1, 1), encrypted(1, 4))];
    assert_ne!(base, event(1, &other, key(2, 2), vec![]).data_be_signed());
    assert_ne!(base, event(1, &[], key(2, 2), vec![]).data_be_signed());
}

#[test]
fn wrap_mq_message_is_unchanged() {
    let data = [1u8, 2, 3];
    let wrapped = wrap_content_to_sign(&data, SignedContentType::MqMessage);
    assert_eq!(&wrapped[..], &data[..]);
    match wrapped {
        std::borrow::Cow::Borrowed(b) => assert_eq!(b.as_ptr(), data.as_ptr()),
        std::borrow::Cow::Owned(_) => panic!("queue message was copied"),
    }
}

#[test]
fn wrap_other_content_is_a_new_buffer() {
    let data = [1u8, 2, 3];
    match wrap_content_to_sign(&data, SignedContentType::MasterKeyStore) {
        std::borrow::Cow::Owned(v) => assert_eq!(v, vec![0xff, 4, 1, 2, 3]),
        std::borrow::Cow::Borrowed(_) => panic!("wrapped content was borrowed"),
    }
}

#[test]
fn wrap_other_content_adds_origin_and_kind() {
    let data = [9u8, 8];
    let cases = [
        (SignedContentType::RpcResponse, 1u8),
        (SignedContentType::EndpointInfo, 2),
        (SignedContentType::MasterKeyRotation, 3),
        (SignedContentType::MasterKeyStore, 4),
        (SignedContentType::ClusterStateRequest, 5),
    ];
    for (kind, byte) in cases {
        let wrapped = wrap_content_to_sign(&data, kind);
        assert_eq!(&wrapped[..], &[0xff, byte, 9, 8][..]);
    }
    let empty = wrap_content_to_sign(&[], SignedContentType::RpcResponse);
    assert_eq!(&empty[..], &[0xff, 1][..]);
}

#[test]
fn wrapped_kinds_never_collide() {
    let a = wrap_content_to_sign(&[1, 2], SignedContentType::RpcResponse).into_owned();
    let b = wrap_content_to_sign(&[1, 2], SignedContentType::EndpointInfo).into_owned();
    let c = wrap_content_to_sign(&[1, 3], SignedContentType::RpcResponse).into_owned();
    assert_ne!(a, b);
    assert_ne!(a, c);
    let m = wrap_content_to_sign(&[0xfe, 1, 1, 2], SignedContentType::MqMessage).into_owned();
    assert_ne!(a, m);
}
