use base64::engine::general_purpose::URL_SAFE_NO_PAD as B64;
use base64::Engine;
use solid::session::{
    accept_refresh, accept_refresh_at, proved_refresh, TokenReply, TokenRequest, TokenStep, SCOPE,
};
use solid::{
    apply_token, apply_token_at, fresh_token, fresh_token_at, gen_key, key_from_b64, now, Session,
    SolidError, TokenResp,
};

fn session() -> Session {
    Session {
        issuer: "https://idp".to_string(),
        base: "https://pod".to_string(),
        token_endpoint: "https://idp/token".to_string(),
        client_id: "cid".to_string(),
        client_secret: None,
        refresh_token: Some("r0".to_string()),
        access_token: "a0".to_string(),
        expires_at: 1000,
        key: gen_key().1,
    }
}

fn tokens(expires_in: Option<u64>, refresh_token: Option<&str>) -> TokenResp {
    TokenResp {
        access_token: "a1".to_string(),
        expires_in,
        refresh_token: refresh_token.map(str::to_string),
    }
}

fn refresh_of(step: TokenStep) -> TokenRequest {
    match step {
        TokenStep::Refresh(req) => req,
        TokenStep::Fresh => panic!("the token is not fresh"),
    }
}

#[test]
fn tokens_are_taken_over() {
    let mut s = session();
    let key = s.key.clone();
    apply_token_at(&mut s, tokens(Some(600), Some("r1")), 5000).unwrap();
    assert_eq!(s.access_token, "a1");
    assert_eq!(s.expires_at, 5570);
    assert_eq!(s.refresh_token.as_deref(), Some("r1"));
    assert_eq!(s.issuer, "https://idp");
    assert_eq!(s.base, "https://pod");
    assert_eq!(s.token_endpoint, "https://idp/token");
    assert_eq!(s.client_id, "cid");
    assert_eq!(s.client_secret, None);
    assert_eq!(s.key, key);
}

#[test]
fn the_refresh_token_is_kept_where_none_is_granted() {
    let mut s = session();
    apply_token_at(&mut s, tokens(None, None), 5000).unwrap();
    assert_eq!(s.refresh_token.as_deref(), Some("r0"));
    assert_eq!(s.expires_at, 5000 + 3570);
}

#[test]
fn short_lifetimes_do_not_go_below_zero() {
    let mut s = session();
    apply_token_at(&mut s, tokens(Some(30), None), 5000).unwrap();
    assert_eq!(s.expires_at, 5000);
    apply_token_at(&mut s, tokens(Some(0), None), 5000).unwrap();
    assert_eq!(s.expires_at, 5000);
    apply_token_at(&mut s, tokens(Some(31), None), 5000).unwrap();
    assert_eq!(s.expires_at, 5001);
    apply_token_at(&mut s, tokens(Some(u64::MAX), None), 30).unwrap();
    assert_eq!(s.expires_at, u64::MAX);
    assert!(matches!(fresh_token_at(&s, u64::MAX - 1), Ok(TokenStep::Fresh)));
}

#[test]
fn tokens_granted_now_expire_later() {
    let mut s = session();
    let before = now().unwrap();
    apply_token(&mut s, tokens(Some(100), None)).unwrap();
    let after = now().unwrap();
    assert!(before + 70 <= s.expires_at && s.expires_at <= after + 70);
    assert_eq!(s.access_token, "a1");
}

#[test]
fn an_expiry_out_of_range_leaves_the_session_alone() {
    let mut s = session();
    let r = apply_token(&mut s, tokens(Some(u64::MAX), Some("r1")));
    assert_eq!(r, Err(SolidError::ExpiryOverflow));
    assert_eq!(s.access_token, "a0");
    assert_eq!(s.expires_at, 1000);
    assert_eq!(s.refresh_token.as_deref(), Some("r0"));
}

#[test]
fn the_first_expiry_out_of_range_is_refused() {
    let mut s = session();
    let r = apply_token_at(&mut s, tokens(Some(u64::MAX), Some("r1")), 31);
    assert_eq!(r, Err(SolidError::ExpiryOverflow));
    assert_eq!(s.access_token, "a0");
    assert_eq!(s.refresh_token.as_deref(), Some("r0"));
    let r = apply_token_at(&mut s, tokens(Some(30), None), u64::MAX);
    assert_eq!(r, Ok(()));
    assert_eq!(s.expires_at, u64::MAX);
}

#[test]
fn a_short_grant_is_over_at_once() {
    let mut s = session();
    for granted in [0, 1, 30] {
        apply_token_at(&mut s, tokens(Some(granted), None), 7000).unwrap();
        assert_eq!(s.expires_at, 7000);
        assert!(matches!(fresh_token_at(&s, 7000), Ok(TokenStep::Refresh(_))));
    }
    let before = now().unwrap();
    apply_token(&mut s, tokens(Some(30), None)).unwrap();
    assert!(before <= s.expires_at && s.expires_at <= now().unwrap());
}

#[test]
fn a_refresh_carries_the_proof_it_is_given() {
    let s = session();
    let req = proved_refresh(&s, "r9", "the proof".to_string());
    assert_eq!(req.dpop, "the proof");
    assert_eq!(req.endpoint, "https://idp/token");
    assert_eq!(req.form[1], ("refresh_token".to_string(), "r9".to_string()));
    assert_eq!(req.form.len(), 4);
    assert_eq!(req.basic, None);
}

#[test]
fn an_answer_is_taken_over_as_of_its_time() {
    let mut s = session();
    accept_refresh_at(&mut s, TokenReply::Granted(tokens(Some(100), Some("r1"))), 500).unwrap();
    assert_eq!(s.expires_at, 570);
    assert_eq!(s.refresh_token.as_deref(), Some("r1"));
    let r = accept_refresh_at(&mut s, TokenReply::Refused("no".to_string()), 600);
    assert_eq!(r, Err(SolidError::RefreshFailed("no".to_string())));
    assert_eq!(s.expires_at, 570);
}

#[test]
fn a_key_of_the_wrong_length_is_reported_when_it_is_needed() {
    let mut s = session();
    s.key = "AAAA".to_string();
    assert!(matches!(fresh_token(&s), Err(SolidError::KeyLength)));
    s.expires_at = u64::MAX;
    assert!(matches!(fresh_token(&s), Ok(TokenStep::Fresh)));
    s.expires_at = 0;
    s.refresh_token = None;
    assert!(matches!(fresh_token(&s), Err(SolidError::TokenExpired)));
}

#[test]
fn of_two_grants_the_later_one_counts() {
    let mut s = session();
    apply_token_at(&mut s, tokens(Some(600), Some("r1")), 1).unwrap();
    let mut last = tokens(Some(60), None);
    last.access_token = "a2".to_string();
    apply_token_at(&mut s, last, 2).unwrap();
    assert_eq!(s.access_token, "a2");
    assert_eq!(s.expires_at, 32);
    assert_eq!(s.refresh_token.as_deref(), Some("r1"));
}

#[test]
fn a_token_is_fresh_until_it_expires() {
    let s = session();
    assert!(matches!(fresh_token_at(&s, 0), Ok(TokenStep::Fresh)));
    assert!(matches!(fresh_token_at(&s, 999), Ok(TokenStep::Fresh)));
    assert!(matches!(fresh_token_at(&s, 1000), Ok(TokenStep::Refresh(_))));
}

#[test]
fn an_expired_token_without_a_refresh_token_is_an_error() {
    let mut s = session();
    s.refresh_token = None;
    assert!(matches!(fresh_token_at(&s, 1000), Err(SolidError::TokenExpired)));
    assert!(matches!(fresh_token(&s), Err(SolidError::TokenExpired)));
    assert!(matches!(fresh_token_at(&s, 999), Ok(TokenStep::Fresh)));
    s.expires_at = u64::MAX;
    assert!(matches!(fresh_token(&s), Ok(TokenStep::Fresh)));
}

#[test]
fn a_refresh_carries_the_refresh_token_and_a_proof() {
    let s = session();
    let req = refresh_of(fresh_token(&s).unwrap());
    assert_eq!(req.endpoint, "https://idp/token");
    let fields: Vec<(&str, &str)> =
        req.form.iter().map(|f| (f.0.as_str(), f.1.as_str())).collect();
    assert_eq!(
        fields,
        vec![
            ("grant_type", "refresh_token"),
            ("refresh_token", "r0"),
            ("scope", "openid webid offline_access"),
            ("client_id", "cid"),
        ]
    );
    assert_eq!(SCOPE, "openid webid offline_access");
    assert_eq!(req.basic, None);

    let cut = req.dpop.rfind('.').unwrap();
    let sig = B64.decode(&req.dpop[cut + 1..]).unwrap();
    assert!(key_from_b64(&s.key).unwrap().verifies(req.dpop[..cut].as_bytes(), &sig));
    let payload = B64.decode(req.dpop.split('.').nth(1).unwrap()).unwrap();
    let payload: serde_json::Value = serde_json::from_slice(&payload).unwrap();
    assert_eq!(payload["htm"], "POST");
    assert_eq!(payload["htu"], "https://idp/token");
    assert!(payload.get("ath").is_none());
}

#[test]
fn a_client_with_a_secret_authenticates() {
    let mut s = session();
    s.client_secret = Some("sec".to_string());
    let req = refresh_of(fresh_token_at(&s, 2000).unwrap());
    assert_eq!(req.basic, Some(("cid".to_string(), "sec".to_string())));
}

#[test]
fn a_broken_key_is_reported_when_it_is_needed() {
    let mut s = session();
    s.key = "not a key".to_string();
    assert!(matches!(fresh_token_at(&s, 0), Ok(TokenStep::Fresh)));
    let said = "Invalid symbol 32, offset 3.".to_string();
    assert_eq!(fresh_token_at(&s, 2000).err(), Some(SolidError::KeyEncoding(said)));
    s.key = B64.encode([0u8; 32]);
    let said = "signature error".to_string();
    assert_eq!(fresh_token_at(&s, 2000).err(), Some(SolidError::KeyInvalid(said)));
}

#[test]
fn a_refused_refresh_leaves_the_session_alone() {
    let mut s = session();
    let r = accept_refresh(&mut s, TokenReply::Refused("nope".to_string()));
    assert_eq!(r, Err(SolidError::RefreshFailed("nope".to_string())));
    assert_eq!(s.access_token, "a0");
    assert_eq!(s.refresh_token.as_deref(), Some("r0"));
}

#[test]
fn a_granted_refresh_makes_the_token_fresh() {
    let mut s = session();
    assert!(matches!(fresh_token(&s), Ok(TokenStep::Refresh(_))));
    accept_refresh(&mut s, TokenReply::Granted(tokens(Some(600), None))).unwrap();
    assert_eq!(s.access_token, "a1");
    assert_eq!(s.refresh_token.as_deref(), Some("r0"));
    assert!(matches!(fresh_token(&s), Ok(TokenStep::Fresh)));
}

#[test]
fn a_clone_is_the_same_session() {
    let s = session();
    let c = s.clone();
    assert_eq!(c.key, s.key);
    assert_eq!(c.refresh_token, s.refresh_token);
    assert_eq!(c.expires_at, s.expires_at);
}
