use base64::engine::general_purpose::URL_SAFE_NO_PAD as B64;
use base64::Engine;
use solid::request::{
    authed, authed_with, cat_reply, cat_request, expect_success, ls_reply, ls_request,
    proved_request, put_request, rm_request, Request,
};
use solid::{gen_key, key_from_b64, s256, Session, SolidError};

fn session() -> Session {
    Session {
        issuer: "https://idp".to_string(),
        base: "https://pod/me".to_string(),
        token_endpoint: "https://idp/token".to_string(),
        client_id: "cid".to_string(),
        client_secret: None,
        refresh_token: None,
        access_token: "tok".to_string(),
        expires_at: u64::MAX,
        key: gen_key().1,
    }
}

fn ok(r: Result<Request, SolidError>) -> Request {
    match r {
        Ok(req) => req,
        Err(e) => panic!("{}", e.message()),
    }
}

/// Checks the two headers that every request has, and hands out the others.
fn others(s: &Session, req: &Request) -> Vec<(String, String)> {
    assert_eq!(req.headers[0], ("Authorization".to_string(), "DPoP tok".to_string()));
    assert_eq!(req.headers[1].0, "DPoP");
    let p = &req.headers[1].1;
    let cut = p.rfind('.').unwrap();
    let sig = B64.decode(&p[cut + 1..]).unwrap();
    assert!(key_from_b64(&s.key).unwrap().verifies(p[..cut].as_bytes(), &sig));
    let payload = B64.decode(p.split('.').nth(1).unwrap()).unwrap();
    let payload: serde_json::Value = serde_json::from_slice(&payload).unwrap();
    assert_eq!(payload["htm"], req.method);
    assert_eq!(payload["htu"], req.url);
    assert_eq!(payload["ath"], s256("tok"));
    req.headers[2..].to_vec()
}

#[test]
fn a_listing_asks_for_turtle() {
    let s = session();
    let req = ok(ls_request(&s, "/notes"));
    assert_eq!((req.method.as_str(), req.url.as_str()), ("GET", "https://pod/me/notes/"));
    assert_eq!(others(&s, &req), vec![("Accept".to_string(), "text/turtle".to_string())]);
}

#[test]
fn reading_and_deleting_need_no_more_headers() {
    let s = session();
    let req = ok(cat_request(&s, "a.txt"));
    assert_eq!((req.method.as_str(), req.url.as_str()), ("GET", "https://pod/me/a.txt"));
    assert_eq!(others(&s, &req), vec![]);
    let req = ok(rm_request(&s, "https://other/x"));
    assert_eq!((req.method.as_str(), req.url.as_str()), ("DELETE", "https://other/x"));
    assert_eq!(others(&s, &req), vec![]);
}

#[test]
fn writing_says_what_is_written() {
    let s = session();
    let req = ok(put_request(&s, "profile/me.ttl", None));
    assert_eq!((req.method.as_str(), req.url.as_str()), ("PUT", "https://pod/me/profile/me.ttl"));
    assert_eq!(others(&s, &req), vec![("Content-Type".to_string(), "text/turtle".to_string())]);
    let req = ok(put_request(&s, "photo.png", Some("image/png".to_string())));
    assert_eq!(others(&s, &req), vec![("Content-Type".to_string(), "image/png".to_string())]);
}

#[test]
fn the_accept_header_is_optional() {
    let s = session();
    let req = ok(authed_with(&s, "HEAD", "https://pod/x", Some("a/b")));
    assert_eq!(others(&s, &req), vec![("Accept".to_string(), "a/b".to_string())]);
    let req = ok(authed(&s, "HEAD", "https://pod/x"));
    assert_eq!(req.method, "HEAD");
    assert_eq!(others(&s, &req), vec![]);
}

#[test]
fn a_request_carries_the_proof_it_is_given() {
    let s = session();
    let pair = |a: &str, b: &str| (a.to_string(), b.to_string());
    let req = proved_request(&s, "GET", "u", Some(pair("X", "y")), "p".to_string());
    assert_eq!((req.method.as_str(), req.url.as_str()), ("GET", "u"));
    assert_eq!(
        req.headers,
        vec![pair("Authorization", "DPoP tok"), pair("DPoP", "p"), pair("X", "y")]
    );
    let req = proved_request(&s, "PUT", "v", None, "q".to_string());
    assert_eq!(req.headers, vec![pair("Authorization", "DPoP tok"), pair("DPoP", "q")]);
}

#[test]
fn a_broken_key_makes_no_request() {
    let mut s = session();
    s.key = "???".to_string();
    let e = cat_request(&s, "x").err().unwrap();
    assert_eq!(e, SolidError::KeyEncoding("Invalid symbol 63, offset 0.".to_string()));
    assert_eq!(e.message(), "Invalid symbol 63, offset 0.");
    s.key = B64.encode([0xffu8; 32]);
    let e = put_request(&s, "x", None).err().unwrap();
    assert_eq!(e, SolidError::KeyInvalid("signature error".to_string()));
    assert_eq!(e.message(), "signature error");
}

#[test]
fn a_failure_is_reported_with_status_and_body() {
    let st = || "404 Not Found".to_string();
    assert_eq!(expect_success(true, st(), "b".to_string()), Ok("b".to_string()));
    let e = expect_success(false, st(), "gone".to_string()).unwrap_err();
    assert_eq!(e.message(), "404 Not Found: gone");
    assert_eq!(
        ls_reply("https://pod/", false, st(), "gone".to_string()),
        Err(SolidError::Status { status: st(), body: "gone".to_string() })
    );
    assert_eq!(
        ls_reply("https://pod/", true, st(), "ldp:contains <https://pod/a.txt>.".to_string()),
        Ok(vec!["a.txt".to_string()])
    );
}

#[test]
fn bytes_come_through_and_failures_become_text() {
    let st = || "500".to_string();
    assert_eq!(cat_reply(true, st(), vec![0xff, 0x00]), Ok(vec![0xff, 0x00]));
    assert_eq!(
        cat_reply(false, st(), vec![0x61, 0xff]),
        Err(SolidError::Status { status: st(), body: "a\u{FFFD}".to_string() })
    );
}

#[test]
fn every_failure_has_its_message() {
    let cases = [
        (SolidError::NotLoggedIn, "not logged in — run `solid login`"),
        (SolidError::NoConfigDir, "no config dir"),
        (SolidError::ConfigInvalid, "config.json is not JSON"),
        (SolidError::TokenExpired, "token expired, no refresh — re-login"),
        (SolidError::RefreshFailed("x".to_string()), "refresh failed: x"),
        (SolidError::ExchangeFailed("x".to_string()), "token exchange failed: x"),
        (SolidError::DiscoveryFailed("x".to_string()), "OIDC discovery failed"),
        (SolidError::RegistrationFailed("x".to_string()), "client registration failed"),
        (SolidError::NoAuthorizationEndpoint, "no authorization_endpoint"),
        (SolidError::NoTokenEndpoint, "no token_endpoint"),
        (SolidError::NoRegistrationEndpoint, "no registration_endpoint"),
        (SolidError::NoClientId, "no client_id"),
        (SolidError::StateMismatch, "state mismatch"),
        (SolidError::NoCode, "no code in callback"),
        (SolidError::CallbackClosed, "callback server closed"),
        (SolidError::KeyEncoding("Invalid padding".to_string()), "Invalid padding"),
        (SolidError::KeyInvalid("signature error".to_string()), "signature error"),
        (SolidError::KeyLength, "key has the wrong length"),
        (SolidError::ClockBeforeEpoch, "clock is before the Unix epoch"),
        (SolidError::ExpiryOverflow, "token lifetime is out of range"),
        (SolidError::Signing, "signature operation failed"),
        (SolidError::Json, "value cannot be written as JSON"),
    ];
    for (e, text) in cases {
        assert_eq!(e.message(), text);
    }
}
