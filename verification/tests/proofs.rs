use base64::engine::general_purpose::URL_SAFE_NO_PAD as B64;
use base64::Engine;
use solid::clock::seconds_at;
use solid::{
    can_be_key, dpop_proof, dpop_proof_at, gen_key, key_from_b64, now, rand_b64, s256, DpopKey,
    SolidError,
};
use std::time::{Duration, UNIX_EPOCH};

const SCALAR: [u8; 32] = [
    0xC9, 0xAF, 0xA9, 0xD8, 0x45, 0xBA, 0x75, 0x16, 0x6B, 0x5C, 0x21, 0x57, 0x67, 0xB1, 0xD6, 0x93,
    0x4E, 0x50, 0xC3, 0xDB, 0x36, 0xE8, 0x9B, 0x12, 0x7B, 0x8A, 0x62, 0x2B, 0x12, 0x0F, 0x67, 0x21,
];
const X: [u8; 32] = [
    0x60, 0xFE, 0xD4, 0xBA, 0x25, 0x5A, 0x9D, 0x31, 0xC9, 0x61, 0xEB, 0x74, 0xC6, 0x35, 0x6D, 0x68,
    0xC0, 0x49, 0xB8, 0x92, 0x3B, 0x61, 0xFA, 0x6C, 0xE6, 0x69, 0x62, 0x2E, 0x60, 0xF2, 0x9F, 0xB6,
];
const Y: [u8; 32] = [
    0x79, 0x03, 0xFE, 0x10, 0x08, 0xB8, 0xBC, 0x99, 0xA4, 0x1A, 0xE9, 0xE9, 0x56, 0x28, 0xBC, 0x64,
    0xF2, 0xF1, 0xB2, 0x0C, 0x2D, 0x7E, 0x9F, 0x51, 0x77, 0xA3, 0xC2, 0x94, 0xD4, 0x46, 0x22, 0x99,
];
const SAMPLE_SIGNATURE: [u8; 64] = [
    0xEF, 0xD4, 0x8B, 0x2A, 0xAC, 0xB6, 0xA8, 0xFD, 0x11, 0x40, 0xDD, 0x9C, 0xD4, 0x5E, 0x81, 0xD6,
    0x9D, 0x2C, 0x87, 0x7B, 0x56, 0xAA, 0xF9, 0x91, 0xC3, 0x4D, 0x0E, 0xA8, 0x4E, 0xAF, 0x37, 0x16,
    0xF7, 0xCB, 0x1C, 0x94, 0x2D, 0x65, 0x7C, 0x41, 0xD4, 0x36, 0xC7, 0xA1, 0xB6, 0xE2, 0x9F, 0x65,
    0xF3, 0xE9, 0x00, 0xDB, 0xB9, 0xAF, 0xF4, 0x06, 0x4D, 0xC4, 0xAB, 0x2F, 0x84, 0x3A, 0xCD, 0xA8,
];

fn known_key() -> DpopKey {
    let b64 = B64.encode(SCALAR);
    assert!(can_be_key(&b64));
    key_from_b64(&b64).unwrap()
}

fn segment(jwt: &str, i: usize) -> String {
    let part = jwt.split('.').nth(i).unwrap();
    String::from_utf8(B64.decode(part).unwrap()).unwrap()
}

#[test]
fn the_clock_is_past_the_epoch() {
    assert!(now().unwrap() > 1_600_000_000);
}

#[test]
fn a_reading_is_taken_in_whole_seconds() {
    assert_eq!(seconds_at(UNIX_EPOCH), Ok(0));
    assert_eq!(seconds_at(UNIX_EPOCH + Duration::from_millis(5999)), Ok(5));
    assert_eq!(seconds_at(UNIX_EPOCH + Duration::from_secs(1_700_000_000)), Ok(1_700_000_000));
}

#[test]
fn a_reading_before_the_epoch_is_refused() {
    let t = UNIX_EPOCH - Duration::from_secs(1);
    assert_eq!(seconds_at(t), Err(SolidError::ClockBeforeEpoch));
}

#[test]
fn random_text_has_the_length_of_its_bytes() {
    assert_eq!(rand_b64(0), "");
    assert_eq!(rand_b64(1).len(), 2);
    assert_eq!(rand_b64(16).len(), 22);
    assert_eq!(rand_b64(32).len(), 43);
    assert_eq!(B64.decode(rand_b64(17)).unwrap().len(), 17);
    assert_ne!(rand_b64(16), rand_b64(16));
}

#[test]
fn digests_are_known() {
    assert_eq!(s256(""), "47DEQpj8HBSa-_TImW-5JCeuQeRkm5NMpJWZG3hSuFU");
    assert_eq!(s256("abc").len(), 43);
}

#[test]
fn a_key_is_read_back_as_it_was_written() {
    let (key, text) = gen_key();
    assert_eq!(key.to_b64(), text);
    assert_eq!(text.len(), 43);
    assert!(can_be_key(&text));
    assert_eq!(key_from_b64(&text).unwrap().to_b64(), text);
    assert_ne!(DpopKey::generate().to_b64(), text);
}

fn refusal(text: &str) -> Option<SolidError> {
    key_from_b64(text).err()
}

fn invalid() -> Option<SolidError> {
    Some(SolidError::KeyInvalid("signature error".to_string()))
}

fn badly_encoded(said: &str) -> Option<SolidError> {
    Some(SolidError::KeyEncoding(said.to_string()))
}

#[test]
fn what_is_no_key_is_refused() {
    assert_eq!(refusal(&B64.encode([0u8; 32])), invalid());
    assert_eq!(refusal(&B64.encode([0xffu8; 32])), invalid());
    assert_eq!(refusal("not base64!"), badly_encoded("Invalid symbol 32, offset 3."));
    assert_eq!(refusal("AA=="), badly_encoded("Invalid padding"));
    assert_eq!(refusal("A"), badly_encoded("Invalid input length: 1"));
    let mut stray = "A".repeat(42);
    stray.push('B');
    assert_eq!(refusal(&stray), badly_encoded("Invalid last symbol 66, offset 42."));
}

#[test]
fn refusals_are_in_the_words_of_the_decoder() {
    for text in ["!", "A A", "AA=", "AAAAA", "é", "AB"] {
        let said = B64.decode(text).unwrap_err().to_string();
        assert_eq!(refusal(text), badly_encoded(&said));
        assert_eq!(refusal(text).unwrap().message(), said);
    }
}

#[test]
fn the_group_order_is_the_first_number_that_is_no_key() {
    let mut order: [u8; 32] = [
        0xff, 0xff, 0xff, 0xff, 0x00, 0x00, 0x00, 0x00, 0xff, 0xff, 0xff, 0xff, 0xff, 0xff, 0xff,
        0xff, 0xbc, 0xe6, 0xfa, 0xad, 0xa7, 0x17, 0x9e, 0x84, 0xf3, 0xb9, 0xca, 0xc2, 0xfc, 0x63,
        0x25, 0x51,
    ];
    assert_eq!(refusal(&B64.encode(order)), invalid());
    order[31] = 0x50;
    assert!(key_from_b64(&B64.encode(order)).is_ok());
}

#[test]
fn a_key_of_another_length_is_told_apart() {
    assert!(!can_be_key(""));
    assert!(!can_be_key("AAAA"));
    assert!(!can_be_key(&B64.encode([1u8; 33])));
    assert!(can_be_key("!"));
    assert!(can_be_key(&B64.encode([1u8; 32])));
}

#[test]
fn a_known_signature_is_accepted() {
    let key = known_key();
    assert!(key.verifies(b"sample", &SAMPLE_SIGNATURE));
    assert!(!key.verifies(b"sampled", &SAMPLE_SIGNATURE));
    assert!(!key.verifies(b"sample", &SAMPLE_SIGNATURE[..63]));
    assert!(!key.verifies(b"sample", &[0u8; 64]));
    assert!(!DpopKey::generate().verifies(b"sample", &SAMPLE_SIGNATURE));
}

#[test]
fn a_proof_is_written_exactly() {
    let key = known_key();
    let p = dpop_proof_at(&key, "PUT", "https://pod/a\"b", Some("tok"), "id", 1234567890).unwrap();
    assert_eq!(
        segment(&p, 0),
        format!(
            "{{\"alg\":\"ES256\",\"jwk\":{{\"crv\":\"P-256\",\"kty\":\"EC\",\"x\":\"{}\",\"y\":\"{}\"}},\"typ\":\"dpop+jwt\"}}",
            B64.encode(X),
            B64.encode(Y)
        )
    );
    assert_eq!(
        segment(&p, 1),
        format!(
            "{{\"ath\":\"{}\",\"htm\":\"PUT\",\"htu\":\"https://pod/a\\\"b\",\"iat\":1234567890,\"jti\":\"id\"}}",
            s256("tok")
        )
    );
    let again =
        dpop_proof_at(&key, "PUT", "https://pod/a\"b", Some("tok"), "id", 1234567890).unwrap();
    assert_eq!(p, again);
}

#[test]
fn a_proof_without_a_token_is_written_exactly() {
    let p = dpop_proof_at(&known_key(), "\u{1}\t\\é", "u", None, "", 0).unwrap();
    assert_eq!(
        segment(&p, 1),
        "{\"htm\":\"\\u0001\\t\\\\é\",\"htu\":\"u\",\"iat\":0,\"jti\":\"\"}"
    );
}

#[test]
fn the_signature_covers_the_first_two_parts() {
    let key = known_key();
    let p = dpop_proof_at(&key, "GET", "https://pod/x", None, "id", 7).unwrap();
    let cut = p.rfind('.').unwrap();
    let sig = B64.decode(&p[cut + 1..]).unwrap();
    assert_eq!(sig.len(), 64);
    assert!(key.verifies(p[..cut].as_bytes(), &sig));
    assert!(!key.verifies(p[..cut - 1].as_bytes(), &sig));
}

#[test]
fn each_proof_has_its_own_identifier_and_time() {
    let key = DpopKey::generate();
    let before = now().unwrap();
    let a = key.prove("GET", "https://pod/x", None).unwrap();
    let b = dpop_proof(&key, "GET", "https://pod/x", None).unwrap();
    let after = now().unwrap();
    let pa: serde_json::Value = serde_json::from_str(&segment(&a, 1)).unwrap();
    let pb: serde_json::Value = serde_json::from_str(&segment(&b, 1)).unwrap();
    assert_ne!(pa["jti"], pb["jti"]);
    assert_eq!(B64.decode(pa["jti"].as_str().unwrap()).unwrap().len(), 16);
    let iat = pa["iat"].as_u64().unwrap();
    assert!(before <= iat && iat <= after);
}

#[test]
fn a_proof_is_for_one_request_only() {
    let key = known_key();
    let p = dpop_proof_at(&key, "GET", "https://pod/x", Some("a"), "id", 1).unwrap();
    for other in [
        dpop_proof_at(&key, "PUT", "https://pod/x", Some("a"), "id", 1).unwrap(),
        dpop_proof_at(&key, "GET", "https://pod/y", Some("a"), "id", 1).unwrap(),
        dpop_proof_at(&key, "GET", "https://pod/x", Some("b"), "id", 1).unwrap(),
        dpop_proof_at(&key, "GET", "https://pod/x", None, "id", 1).unwrap(),
        dpop_proof_at(&DpopKey::generate(), "GET", "https://pod/x", Some("a"), "id", 1).unwrap(),
    ] {
        assert_ne!(p, other);
        assert_eq!(other.split('.').count(), 3);
    }
}
