use lightning_cluster::cache::TtlCache;
use lightning_cluster::cluster::ClusterError;
use lightning_cluster::encoding::{decimal, hex_text, is_canonical, parse_u64, to_hex};

const HASH_BASE64: &str = "AAECAwQFBgcICQoLDA0ODxAREhMUFRYXGBkaGxwdHh8=";
const HASH_HEX: &str = "000102030405060708090a0b0c0d0e0f101112131415161718191a1b1c1d1e1f";

#[test]
fn hex_text_of_bytes() {
    assert_eq!(hex_text(&vec![1, 2, 3, 15, 16]), "0102030f10");
    assert_eq!(hex_text(&vec![]), "");
    assert_eq!(hex_text(&vec![0xde, 0xad, 0xbe, 0xef]), "deadbeef");
}

#[test]
fn base64_field_becomes_hex() {
    assert_eq!(to_hex(HASH_BASE64), Ok(HASH_HEX.to_string()));
    assert_eq!(to_hex("EjRW"), Ok("123456".to_string()));
}

#[test]
fn hex_field_is_kept() {
    assert_eq!(to_hex(HASH_HEX), Ok(HASH_HEX.to_string()));
    assert_eq!(to_hex(""), Ok(String::new()));
}

#[test]
fn both_encodings_give_one_form() {
    let from_base64 = to_hex("3q2+796tvu/erb7v3q2+796tvu/erb7v3q2+796tvu8=").unwrap();
    let from_hex = to_hex("deadbeefdeadbeefdeadbeefdeadbeefdeadbeefdeadbeefdeadbeefdeadbeef").unwrap();
    assert_eq!(from_base64, from_hex);
    assert_eq!(to_hex(&from_base64), Ok(from_base64.clone()));
}

#[test]
fn field_in_neither_encoding_is_refused() {
    assert_eq!(to_hex("not base64!"), Err(ClusterError::EncodingError));
    assert_eq!(to_hex("abc"), Err(ClusterError::EncodingError));
}

#[test]
fn canonical_form_is_even_lowercase_hex() {
    assert!(is_canonical("00ff"));
    assert!(is_canonical(""));
    assert!(!is_canonical("00FF"));
    assert!(!is_canonical("0f0"));
    assert!(!is_canonical("zz"));
}

#[test]
fn decimal_text_of_numbers() {
    assert_eq!(decimal(0), "0");
    assert_eq!(decimal(7), "7");
    assert_eq!(decimal(1000), "1000");
    assert_eq!(decimal(u64::MAX), "18446744073709551615");
}

#[test]
fn decimal_text_is_read() {
    assert_eq!(parse_u64("0"), Some(0));
    assert_eq!(parse_u64("1500"), Some(1500));
    assert_eq!(parse_u64("+42"), Some(42));
    assert_eq!(parse_u64("007"), Some(7));
    assert_eq!(parse_u64("18446744073709551615"), Some(u64::MAX));
}

#[test]
fn bad_decimal_text_is_refused() {
    assert_eq!(parse_u64(""), None);
    assert_eq!(parse_u64("+"), None);
    assert_eq!(parse_u64("-1"), None);
    assert_eq!(parse_u64(" 1"), None);
    assert_eq!(parse_u64("1_000"), None);
    assert_eq!(parse_u64("12a"), None);
    assert_eq!(parse_u64("18446744073709551616"), None);
    assert_eq!(parse_u64("99999999999999999999x"), None);
}

#[test]
fn cache_entry_lives_until_its_lifetime_ends() {
    let mut cache: TtlCache<u64> = TtlCache::new();
    let key = "k".to_string();
    assert_eq!(cache.get(&key, 0), None);
    cache.set(key.clone(), 5, 10, 100);
    assert_eq!(cache.get(&key, 100), Some(&5));
    assert_eq!(cache.get(&key, 109), Some(&5));
    assert_eq!(cache.get(&key, 110), None);
    assert_eq!(cache.get(&key, 111), None);
}

#[test]
fn reading_does_not_renew_an_entry() {
    let mut cache: TtlCache<u64> = TtlCache::new();
    let key = "k".to_string();
    cache.set(key.clone(), 1, 5, 0);
    assert_eq!(cache.get(&key, 4), Some(&1));
    assert_eq!(cache.get(&key, 5), None);
}

#[test]
fn storing_again_replaces_value_and_lifetime() {
    let mut cache: TtlCache<u64> = TtlCache::new();
    let a = "a".to_string();
    let b = "b".to_string();
    cache.set(a.clone(), 1, 5, 0);
    cache.set(b.clone(), 2, 100, 0);
    cache.set(a.clone(), 3, 50, 10);
    assert_eq!(cache.get(&a, 12), Some(&3));
    assert_eq!(cache.get(&a, 59), Some(&3));
    assert_eq!(cache.get(&a, 60), None);
    assert_eq!(cache.get(&b, 60), Some(&2));
}

#[test]
fn lifetime_at_the_end_of_the_clock() {
    let mut cache: TtlCache<u64> = TtlCache::new();
    let key = "k".to_string();
    cache.set(key.clone(), 9, u64::MAX, u64::MAX);
    assert_eq!(cache.get(&key, u64::MAX), Some(&9));
}
