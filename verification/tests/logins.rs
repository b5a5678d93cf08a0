use base64::engine::general_purpose::URL_SAFE_NO_PAD as B64;
use base64::Engine;
use solid::login::{
    authorization_url, begin, client, discover, discovery_url, endpoints, exchange_request,
    finish_login, finish_login_at, issuer_of, new_session, proved_exchange, register, registration_body, Client, Discovery,
    Registration, REDIRECT,
};
use solid::prompt::{answer, question};
use solid::session::TokenReply;
use solid::{
    callback_code, can_read_callback, key_from_b64, resolve, s256, urlenc, SolidError, TokenResp,
};

fn some(s: &str) -> Option<String> {
    Some(s.to_string())
}

#[test]
fn the_discovery_document_is_below_the_issuer() {
    assert_eq!(issuer_of("https://idp//"), "https://idp");
    assert_eq!(
        discovery_url("https://idp"),
        "https://idp/.well-known/openid-configuration"
    );
}

#[test]
fn the_first_missing_endpoint_is_reported() {
    let d = |a: Option<String>, t: Option<String>, r: Option<String>| Discovery {
        authorization_endpoint: a,
        token_endpoint: t,
        registration_endpoint: r,
    };
    let found = endpoints(d(some("a"), some("t"), some("r"))).ok().unwrap();
    assert_eq!((found.authorization, found.token, found.registration), ("a".into(), "t".into(), "r".into()));
    assert_eq!(endpoints(d(None, None, None)).err(), Some(SolidError::NoAuthorizationEndpoint));
    assert_eq!(endpoints(d(some("a"), None, None)).err(), Some(SolidError::NoTokenEndpoint));
    assert_eq!(
        endpoints(d(some("a"), some("t"), None)).err(),
        Some(SolidError::NoRegistrationEndpoint)
    );
}

#[test]
fn endpoints_are_read_from_the_document() {
    let body = r#"{"issuer":"i","authorization_endpoint":"https:\/\/a","token_endpoint":"té","registration_endpoint":"r","x":[1]}"#;
    let found = discover(body.as_bytes()).ok().unwrap();
    assert_eq!(found.authorization, "https://a");
    assert_eq!(found.token, "té");
    assert_eq!(found.registration, "r");
    assert_eq!(
        discover(b"not json").err(),
        Some(SolidError::DiscoveryFailed("expected ident at line 1 column 2".to_string()))
    );
    assert_eq!(discover(b"[1, 2]").err(), Some(SolidError::NoAuthorizationEndpoint));
    assert_eq!(
        discover(br#"{"authorization_endpoint":"a","token_endpoint":1}"#).err(),
        Some(SolidError::NoTokenEndpoint)
    );
}

#[test]
fn the_client_is_read_from_the_registration() {
    let c = register(br#"{"client_id":"cid","client_secret":"sec"}"#).ok().unwrap();
    assert_eq!((c.id, c.secret), ("cid".to_string(), some("sec")));
    let c = register(br#"{"client_id":"cid","client_secret":null}"#).ok().unwrap();
    assert_eq!((c.id, c.secret), ("cid".to_string(), None));
    assert_eq!(register(br#"{"client_secret":"sec"}"#).err(), Some(SolidError::NoClientId));
    assert_eq!(
        register(b"").err(),
        Some(SolidError::RegistrationFailed(
            "EOF while parsing a value at line 1 column 0".to_string()
        ))
    );
    let c = client(Registration { client_id: some("x"), client_secret: None }).ok().unwrap();
    assert_eq!((c.id, c.secret), ("x".to_string(), None));
    assert_eq!(
        client(Registration { client_id: None, client_secret: some("s") }).err(),
        Some(SolidError::NoClientId)
    );
}

#[test]
fn the_registration_says_what_the_client_is() {
    assert_eq!(
        String::from_utf8(registration_body().unwrap()).unwrap(),
        "{\"client_name\":\"solid-cli\",\
         \"grant_types\":[\"authorization_code\",\"refresh_token\"],\
         \"redirect_uris\":[\"http://localhost:9876/callback\"],\
         \"response_types\":[\"code\"],\
         \"scope\":\"openid webid offline_access\",\
         \"token_endpoint_auth_method\":\"client_secret_basic\"}"
    );
}

#[test]
fn the_browser_is_sent_to_an_exact_address() {
    assert_eq!(
        authorization_url("https://idp/auth", "https://c/id#x", "s+t", "abc"),
        "https://idp/auth?response_type=code&client_id=https%3A%2F%2Fc%2Fid%23x\
         &redirect_uri=http%3A%2F%2Flocalhost%3A9876%2Fcallback\
         &scope=openid%20webid%20offline_access&state=s%2Bt\
         &code_challenge=ungWv48Bz-pBQUDeXa4iI7ADYaOWF3qctBD_YfIAFa0\
         &code_challenge_method=S256&prompt=consent"
    );
}

#[test]
fn attempts_differ() {
    let a = begin();
    let b = begin();
    assert_eq!(a.verifier.len(), 43);
    assert_eq!(a.state.len(), 22);
    assert_ne!(a.verifier, b.verifier);
    assert_ne!(a.state, b.state);
    assert_ne!(a.key.to_b64(), b.key.to_b64());
}

#[test]
fn a_callback_that_answers_gives_its_code() {
    assert_eq!(callback_code("/callback?code=a%2Fb&state=s", "s"), Ok("a/b".to_string()));
    assert_eq!(callback_code("/callback?state=s&iss=x&code=c+d", "s"), Ok("c d".to_string()));
    assert_eq!(callback_code("?state=s&code=", "s"), Ok("".to_string()));
    assert_eq!(callback_code("?state=s&code", "s"), Ok("".to_string()));
}

#[test]
fn the_last_of_several_values_counts() {
    assert_eq!(callback_code("?code=1&state=x&code=2&state=s", "s"), Ok("2".to_string()));
    assert_eq!(callback_code("?state=s&code=1&state=x", "s"), Err(SolidError::StateMismatch));
}

#[test]
fn only_the_first_marks_split() {
    assert_eq!(callback_code("/a?state=s&code=x=y?z", "s"), Ok("x=y?z".to_string()));
    assert_eq!(callback_code("/a?b?state=s&code=1", "s"), Err(SolidError::StateMismatch));
}

#[test]
fn another_state_is_refused_before_anything_else() {
    assert_eq!(callback_code("/callback?code=c&state=t", "s"), Err(SolidError::StateMismatch));
    assert_eq!(callback_code("/callback?code=c", "s"), Err(SolidError::StateMismatch));
    assert_eq!(callback_code("/favicon.ico", "s"), Err(SolidError::StateMismatch));
    assert_eq!(callback_code("/callback?error=denied&state=s", "s"), Err(SolidError::NoCode));
}

#[test]
fn callbacks_that_cannot_be_decoded_are_told_apart() {
    assert!(can_read_callback("/callback?code=%41&state=s"));
    assert!(!can_read_callback("/callback?code=%aé&state=s"));
    assert!(!can_read_callback("/callback?state=%aé&state=s"));
    assert!(can_read_callback("/callback?other=%aé&state=s"));
    assert!(can_read_callback("/%aé"));
}

#[test]
fn a_callback_is_read_as_it_was_written() {
    for (code, state) in [("a&b=c?d", "x y"), ("", ""), ("é%41+", "日本")] {
        let url = format!("/callback?code={}&state={}", urlenc(code), urlenc(state));
        assert!(can_read_callback(&url));
        assert_eq!(callback_code(&url, state), Ok(code.to_string()));
        assert_eq!(callback_code(&url, "other"), Err(SolidError::StateMismatch));
    }
}

#[test]
fn the_authorization_address_carries_the_state() {
    let a = begin();
    let url = authorization_url("https://idp/auth", "cid", &a.state, &a.verifier);
    // a provider that sends the query back with a code is answered with the code
    let back = format!("{}&code=c", url);
    assert_eq!(callback_code(&back, &a.state), Ok("c".to_string()));
    assert!(url.contains(&s256(&a.verifier)));
    assert!(!url.contains(&a.verifier));
}

#[test]
fn the_exchange_carries_the_code_and_the_verifier() {
    let a = begin();
    let c = Client { id: "cid".to_string(), secret: some("sec") };
    let req = exchange_request(&a, "https://idp/token", &c, "the code").unwrap_or_else(|e| {
        panic!("{}", e.message())
    });
    assert_eq!(req.endpoint, "https://idp/token");
    let fields: Vec<(&str, &str)> =
        req.form.iter().map(|f| (f.0.as_str(), f.1.as_str())).collect();
    assert_eq!(
        fields,
        vec![
            ("grant_type", "authorization_code"),
            ("code", "the code"),
            ("redirect_uri", "http://localhost:9876/callback"),
            ("code_verifier", a.verifier.as_str()),
            ("client_id", "cid"),
        ]
    );
    assert_eq!(REDIRECT, "http://localhost:9876/callback");
    assert_eq!(req.basic, Some(("cid".to_string(), "sec".to_string())));
    let payload = B64.decode(req.dpop.split('.').nth(1).unwrap()).unwrap();
    let payload: serde_json::Value = serde_json::from_slice(&payload).unwrap();
    assert_eq!(payload["htm"], "POST");
    assert_eq!(payload["htu"], "https://idp/token");
    assert!(payload.get("ath").is_none());

    let public = Client { id: "cid".to_string(), secret: None };
    let req = exchange_request(&a, "https://idp/token", &public, "c").ok().unwrap();
    assert_eq!(req.basic, None);
}

#[test]
fn a_new_session_has_no_tokens() {
    let a = begin();
    let c = Client { id: "cid".to_string(), secret: some("sec") };
    let s = new_session("https://idp", "https://pod/me//", "https://idp/token", c, &a.key);
    assert_eq!(s.issuer, "https://idp");
    assert_eq!(s.base, "https://pod/me");
    assert_eq!(s.token_endpoint, "https://idp/token");
    assert_eq!(s.client_id, "cid");
    assert_eq!(s.client_secret.as_deref(), Some("sec"));
    assert_eq!(s.refresh_token, None);
    assert_eq!(s.access_token, "");
    assert_eq!(s.expires_at, 0);
    assert_eq!(s.key, a.key.to_b64());
}

#[test]
fn a_login_ends_with_a_usable_session() {
    let a = begin();
    let c = Client { id: "cid".to_string(), secret: None };
    let t = TokenResp { access_token: "tok".to_string(), expires_in: None, refresh_token: some("r") };
    let s = finish_login("i", "https://pod/", "t", c, &a.key, TokenReply::Granted(t)).ok().unwrap();
    assert_eq!(s.access_token, "tok");
    assert_eq!(s.refresh_token.as_deref(), Some("r"));
    assert_eq!(key_from_b64(&s.key).unwrap().to_b64(), a.key.to_b64());
    assert_eq!(resolve(&s.base, "x"), resolve("https://pod/", "x"));
}

#[test]
fn a_login_counts_from_the_time_of_the_answer() {
    let a = begin();
    let client = || Client { id: "cid".to_string(), secret: None };
    let granted = |expires_in: Option<u64>| {
        TokenReply::Granted(TokenResp {
            access_token: "tok".to_string(),
            expires_in,
            refresh_token: None,
        })
    };
    let s = finish_login_at("i", "b/", "t", client(), &a.key, granted(Some(130)), 1000);
    let s = s.ok().unwrap();
    assert_eq!(s.expires_at, 1100);
    assert_eq!(s.base, "b");
    assert_eq!(s.refresh_token, None);
    let r = finish_login_at("i", "b", "t", client(), &a.key, granted(Some(u64::MAX)), 31);
    assert_eq!(r.err(), Some(SolidError::ExpiryOverflow));
    let no = TokenReply::Refused("no".to_string());
    let r = finish_login_at("i", "b", "t", client(), &a.key, no, 0);
    assert_eq!(r.err(), Some(SolidError::ExchangeFailed("no".to_string())));
}

#[test]
fn an_exchange_carries_the_proof_it_is_given() {
    let c = Client { id: "cid".to_string(), secret: None };
    let req = proved_exchange("ver", "https://idp/token", &c, "code", "p".to_string());
    assert_eq!(req.dpop, "p");
    assert_eq!(req.endpoint, "https://idp/token");
    assert_eq!(req.form[1], ("code".to_string(), "code".to_string()));
    assert_eq!(req.form[3], ("code_verifier".to_string(), "ver".to_string()));
    assert_eq!(req.form.len(), 5);
    assert_eq!(req.basic, None);
}

#[test]
fn white_space_is_what_unicode_says() {
    let listed = "\u{9}\u{a}\u{b}\u{c}\u{d}\u{20}\u{85}\u{a0}\u{1680}\u{2000}\u{2001}\u{2002}\
                  \u{2003}\u{2004}\u{2005}\u{2006}\u{2007}\u{2008}\u{2009}\u{200a}\u{2028}\u{2029}\
                  \u{202f}\u{205f}\u{3000}";
    let all: String = ('\0'..=char::MAX).filter(|c| c.is_whitespace()).collect();
    assert_eq!(all, listed);
    assert_eq!(answer(listed, "d"), "d");
    for c in ['\u{8}', '\u{e}', '\u{180e}', '\u{200b}', '\u{feff}'] {
        assert_eq!(answer(&format!("\n{c} "), "d"), c.to_string());
    }
}

#[test]
fn a_refused_exchange_ends_the_login() {
    let a = begin();
    let c = Client { id: "cid".to_string(), secret: None };
    let r = finish_login("i", "b", "t", c, &a.key, TokenReply::Refused("bad".to_string()));
    assert_eq!(r.err(), Some(SolidError::ExchangeFailed("bad".to_string())));
    let c = Client { id: "cid".to_string(), secret: None };
    let t = TokenResp {
        access_token: "tok".to_string(),
        expires_in: Some(u64::MAX),
        refresh_token: None,
    };
    let r = finish_login("i", "b", "t", c, &a.key, TokenReply::Granted(t));
    assert_eq!(r.err(), Some(SolidError::ExpiryOverflow));
}

#[test]
fn an_empty_answer_is_the_default() {
    assert_eq!(answer("\n", "d"), "d");
    assert_eq!(answer("", "d"), "d");
    assert_eq!(answer(" \t\r\n", "d"), "d");
    assert_eq!(answer("  a b \r\n", "d"), "a b");
    assert_eq!(answer("\u{a0}x\u{2003}", "d"), "x");
}

#[test]
fn a_question_shows_the_default() {
    assert_eq!(question("Pod base URL", "https://h"), "Pod base URL [https://h]: ");
}
