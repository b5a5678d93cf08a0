use base64::engine::general_purpose::URL_SAFE_NO_PAD as B64;
use base64::Engine;
use p256::ecdsa::signature::Verifier;
use p256::ecdsa::{Signature, SigningKey, VerifyingKey};
use solid::{
    dpop_proof, gen_key, guess_type, parse_contains, resolve, s256, urldec, urlenc,
};

#[test]
fn dpop_is_valid_es256_with_claims() {
    let (key, secret) = gen_key();
    let jwt = dpop_proof(&key, "GET", "https://pod/x", Some("tok")).unwrap();
    let parts: Vec<&str> = jwt.split('.').collect();
    assert_eq!(parts.len(), 3);

    let header: serde_json::Value =
        serde_json::from_slice(&B64.decode(parts[0]).unwrap()).unwrap();
    assert_eq!(header["typ"], "dpop+jwt");
    assert_eq!(header["alg"], "ES256");
    assert_eq!(header["jwk"]["crv"], "P-256");

    let payload: serde_json::Value =
        serde_json::from_slice(&B64.decode(parts[1]).unwrap()).unwrap();
    assert_eq!(payload["htm"], "GET");
    assert_eq!(payload["htu"], "https://pod/x");
    assert_eq!(payload["ath"], s256("tok")); // bound to access token

    // signature verifies against the embedded public key
    let sig = Signature::from_slice(&B64.decode(parts[2]).unwrap()).unwrap();
    let scalar = B64.decode(&secret).unwrap();
    let vk = VerifyingKey::from(&SigningKey::from_bytes(scalar.as_slice().into()).unwrap());
    let signing_input = format!("{}.{}", parts[0], parts[1]);
    assert!(vk.verify(signing_input.as_bytes(), &sig).is_ok());

    let point = vk.to_encoded_point(false);
    assert_eq!(header["jwk"]["x"], B64.encode(point.x().unwrap()));
    assert_eq!(header["jwk"]["y"], B64.encode(point.y().unwrap()));
    assert!(key.verifies(signing_input.as_bytes(), &B64.decode(parts[2]).unwrap()));
}

#[test]
fn no_ath_without_token() {
    let (key, _) = gen_key();
    let jwt = dpop_proof(&key, "POST", "https://idp/token", None).unwrap();
    let payload: serde_json::Value =
        serde_json::from_slice(&B64.decode(jwt.split('.').nth(1).unwrap()).unwrap()).unwrap();
    assert!(payload.get("ath").is_none());
}

#[test]
fn pkce_challenge_is_sha256_of_verifier() {
    // S256: challenge == base64url(sha256(verifier))
    assert_eq!(s256("abc"), "ungWv48Bz-pBQUDeXa4iI7ADYaOWF3qctBD_YfIAFa0");
}

#[test]
fn resolve_relative_and_absolute() {
    assert_eq!(resolve("http://h/test", "a.ttl"), "http://h/test/a.ttl");
    assert_eq!(resolve("http://h/test/", "/a.ttl"), "http://h/test/a.ttl");
    assert_eq!(resolve("http://h/test", "https://other/x"), "https://other/x");
}

#[test]
fn parse_contains_extracts_children() {
    let ttl = r#"
            @prefix ldp: <http://www.w3.org/ns/ldp#> .
            <http://h/test/> a ldp:Container ;
                ldp:contains <http://h/test/a.ttl>, <http://h/test/sub/> .
        "#;
    let kids = parse_contains(ttl);
    assert_eq!(kids, vec!["http://h/test/a.ttl", "http://h/test/sub/"]);
}

#[test]
fn parse_contains_handles_full_iri_predicate() {
    let ttl = "<#> <http://www.w3.org/ns/ldp#contains> <http://h/test/x> .";
    assert_eq!(parse_contains(ttl), vec!["http://h/test/x"]);
}

#[test]
fn guess_type_by_ext() {
    assert_eq!(guess_type("http://h/a.ttl"), "text/turtle");
    assert_eq!(guess_type("http://h/a.json"), "application/json");
    assert_eq!(guess_type("http://h/blob"), "application/octet-stream");
}

#[test]
fn url_roundtrip() {
    let s = "a b/c?d=e&f";
    assert_eq!(urldec(&urlenc(s)), s);
}
