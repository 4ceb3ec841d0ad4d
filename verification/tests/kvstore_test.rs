use lucid::kvstore::{CryptoError, Encryption, KvElement, MemoryStore};

const CIPHER: &str = "123456789012345678901234123456789012345678901234";

const DATA: [u8; 512] = [42u8; 512];

const KEY: &str = "test_value";

fn init_kv() -> MemoryStore {
    let mut kv = MemoryStore::new(Some(Encryption::serpent(hex::decode(CIPHER).unwrap())));
    kv.set(KEY.to_string(), DATA.to_vec());
    kv
}

#[test]
fn get_returns_a_value() {
    let kv = init_kv();
    let value = kv.get(KEY.to_string());

    match value {
        Some(v) => assert_eq!(v.data, DATA.to_vec()),
        None => panic!("No value found"),
    }
}

fn serpent_cipher() -> Encryption {
    Encryption::serpent(hex::decode(CIPHER).unwrap())
}

#[test]
fn round_trip_aligned_value() {
    let enc = serpent_cipher();
    let iv = [7u8; 16];
    let plain: Vec<u8> = (1..=32u8).collect();
    let cipher = enc.encrypt_vec(&plain, &iv).unwrap();
    assert_eq!(cipher.len(), 32);
    assert_ne!(cipher, plain);
    let back = enc.decrypt_vec(&cipher, &iv).unwrap();
    assert_eq!(back, plain);
}

#[test]
fn round_trip_strips_trailing_zeros() {
    let enc = serpent_cipher();
    let iv = [9u8; 16];
    let mut plain = vec![1u8, 2, 3];
    plain.resize(16, 0u8);
    let cipher = enc.encrypt_vec(&plain, &iv).unwrap();
    let back = enc.decrypt_vec(&cipher, &iv).unwrap();
    assert_eq!(back, vec![1u8, 2, 3]);
}

#[test]
fn round_trip_unaligned_value() {
    let enc = serpent_cipher();
    let iv = [3u8; 16];
    let plain = b"hello".to_vec();
    let cipher = enc.encrypt_vec(&plain, &iv).unwrap();
    assert_eq!(cipher.len(), 16);
    let back = enc.decrypt_vec(&cipher, &iv).unwrap();
    assert_eq!(back, plain);
}

#[test]
fn round_trip_all_zero_block() {
    let enc = serpent_cipher();
    let iv = [5u8; 16];
    let plain = vec![0u8; 16];
    let cipher = enc.encrypt_vec(&plain, &iv).unwrap();
    let back = enc.decrypt_vec(&cipher, &iv).unwrap();
    assert_eq!(back, vec![0u8]);
}

#[test]
fn encrypt_rejects_bad_key_and_iv() {
    let short_key = Encryption::serpent(vec![1u8; 8]);
    assert_eq!(
        short_key.encrypt_vec(b"abc", &[0u8; 16]),
        Err(CryptoError::InvalidKeyIvLength)
    );
    let enc = serpent_cipher();
    assert_eq!(
        enc.encrypt_vec(b"abc", &[0u8; 8]),
        Err(CryptoError::InvalidKeyIvLength)
    );
}

#[test]
fn decrypt_rejects_partial_blocks() {
    let enc = serpent_cipher();
    assert_eq!(
        enc.decrypt_vec(&[1u8; 17], &[0u8; 16]),
        Err(CryptoError::BlockMode)
    );
}

#[test]
fn get_set_consistency_without_encryption() {
    let mut kv = MemoryStore::new(None);
    kv.set("k".to_string(), b"value".to_vec());
    let e = kv.get("k".to_string()).expect("value must be there");
    assert_eq!(e.data, b"value".to_vec());
    assert_eq!(e.update_count, 1);
    assert!(!e.locked);
    assert!(e.iv.is_none());
}

#[test]
fn get_set_consistency_with_encryption() {
    let mut kv = MemoryStore::new(Some(serpent_cipher()));
    kv.set("k".to_string(), b"sixteen byte val".to_vec());
    let e = kv.get("k".to_string()).expect("value must be there");
    assert_eq!(e.data, b"sixteen byte val".to_vec());
    assert_eq!(e.iv.as_ref().map(|iv| iv.len()), Some(16));
}

#[test]
fn lock_prevents_data_mutation_but_allows_touch() {
    let mut kv = MemoryStore::new(None);
    kv.set("k".to_string(), b"v1".to_vec());
    let first = kv.get("k".to_string()).unwrap();
    assert!(kv.switch_lock("k".to_string(), true));
    let echoed = kv.set("k".to_string(), b"v2".to_vec()).unwrap();
    let second = kv.get("k".to_string()).unwrap();
    assert_eq!(second.data, b"v1".to_vec());
    assert_eq!(second.update_count, first.update_count + 1);
    assert_eq!(echoed.data, b"v1".to_vec());
    assert!(second.locked);
}

/// The numeric step the store leaves to its caller: decode as text, add as
/// a floating-point number, re-encode. `None` when the data does not parse.
fn numeric_outcome(element: Option<KvElement>, addend: f64) -> Option<Vec<u8>> {
    let data = element?.data;
    let text = String::from_utf8(data).ok()?;
    let number: f64 = text.trim().parse().ok()?;
    Some((number + addend).to_string().into_bytes())
}

#[test]
fn unlocked_increment() {
    let mut kv = MemoryStore::new(None);
    kv.set("n".to_string(), b"10".to_vec());
    let outcome = numeric_outcome(kv.get("n".to_string()), 5.0);
    assert!(kv.increment_or_decrement("n".to_string(), outcome));
    let e = kv.get("n".to_string()).unwrap();
    assert_eq!(e.data, b"15".to_vec());
    assert_eq!(e.update_count, 2);
}

#[test]
fn increment_under_encryption() {
    let mut kv = MemoryStore::new(Some(serpent_cipher()));
    kv.set("n".to_string(), b"2.5".to_vec());
    let outcome = numeric_outcome(kv.get("n".to_string()), -1.0);
    assert!(kv.increment_or_decrement("n".to_string(), outcome));
    let e = kv.get("n".to_string()).unwrap();
    assert_eq!(e.data, b"1.5".to_vec());
}

#[test]
fn non_numeric_increment_fails_closed() {
    let mut kv = MemoryStore::new(None);
    kv.set("k".to_string(), b"not-a-number".to_vec());
    let outcome = numeric_outcome(kv.get("k".to_string()), 1.0);
    assert_eq!(outcome, None);
    assert!(!kv.increment_or_decrement("k".to_string(), outcome));
    let e = kv.get("k".to_string()).unwrap();
    assert_eq!(e.data, b"not-a-number".to_vec());
    assert_eq!(e.update_count, 1);
}

#[test]
fn delete_removes_regardless_of_lock() {
    let mut kv = MemoryStore::new(None);
    kv.set("k".to_string(), b"v".to_vec());
    assert!(kv.switch_lock("k".to_string(), true));
    kv.drop("k".to_string());
    assert!(kv.get("k".to_string()).is_none());
}

#[test]
fn repeated_sets_count_every_write() {
    let mut kv = MemoryStore::new(None);
    for i in 0..5u8 {
        kv.set("k".to_string(), vec![i]);
    }
    let e = kv.get("k".to_string()).unwrap();
    assert_eq!(e.update_count, 5);
    assert_eq!(e.data, vec![4u8]);
}

#[test]
fn unknown_key_operations() {
    let mut kv = MemoryStore::new(None);
    assert!(!kv.switch_lock("absent".to_string(), true));
    assert!(!kv.increment_or_decrement("absent".to_string(), Some(b"1".to_vec())));
    assert!(kv.get("absent".to_string()).is_none());
    kv.drop("absent".to_string());
    assert!(kv.get("absent".to_string()).is_none());
}

#[test]
fn set_echoes_previous_state() {
    let mut kv = MemoryStore::new(None);
    assert!(kv.set("k".to_string(), b"a".to_vec()).is_none());
    let echoed = kv.set("k".to_string(), b"b".to_vec()).unwrap();
    assert_eq!(echoed.data, b"b".to_vec());
    assert_eq!(echoed.update_count, 2);
}

#[test]
fn mime_type_is_sniffed_from_the_value() {
    let mut kv = MemoryStore::new(None);
    kv.set("k".to_string(), b"hello".to_vec());
    let e = kv.get("k".to_string()).unwrap();
    assert!(e.mime_type.contains('/'));
    assert_ne!(e.mime_type.as_bytes(), b"hello");
}
