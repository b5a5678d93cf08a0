//! Logging in: discovery, client registration, the authorization request, and
//! the exchange of its code for tokens.
use vstd::prelude::*;
use vstd::utf8;
use std::time::SystemTime;
use crate::b64;
use crate::callback;
use crate::clock;
use crate::crypto;
use crate::dpop;
use crate::error::SolidError;
use crate::json;
use crate::key;
use crate::key::DpopKey;
use crate::percent;
use crate::resource;
use crate::session;
use crate::session::{Session, TokenReply, TokenRequest, TokenResp, SCOPE};
use crate::text;

verus! {

/// Where the provider sends the browser back to.
pub const REDIRECT: &'static str = "http://localhost:9876/callback";

/// What a discovery document says of the endpoints that a login needs.
pub struct Discovery {
    pub authorization_endpoint: Option<String>,
    pub token_endpoint: Option<String>,
    pub registration_endpoint: Option<String>,
}

/// The endpoints of a provider.
pub struct Endpoints {
    pub authorization: String,
    pub token: String,
    pub registration: String,
}

/// What the answer to a client registration says of the client.
pub struct Registration {
    pub client_id: Option<String>,
    pub client_secret: Option<String>,
}

/// A registered client.
pub struct Client {
    pub id: String,
    pub secret: Option<String>,
}

/// What one login attempt keeps to itself: the code verifier, the state, and
/// the key that the tokens will be bound to.
pub struct Attempt {
    pub verifier: String,
    pub state: String,
    pub key: DpopKey,
}

/// The endpoints that a discovery document names; the first one missing is
/// reported.
pub open spec fn found_endpoints(d: Discovery) -> Result<Endpoints, SolidError> {
    match (d.authorization_endpoint, d.token_endpoint, d.registration_endpoint) {
        (None, _, _) => Err(SolidError::NoAuthorizationEndpoint),
        (_, None, _) => Err(SolidError::NoTokenEndpoint),
        (_, _, None) => Err(SolidError::NoRegistrationEndpoint),
        (Some(authorization), Some(token), Some(registration)) => Ok(
            Endpoints { authorization, token, registration },
        ),
    }
}

/// The endpoints that the string members of a discovery document name; the
/// first one missing is reported.
pub open spec fn are_endpoints_in(
    r: Result<Endpoints, SolidError>,
    members: Map<Seq<char>, Seq<char>>,
) -> bool {
    let authorization = members.get("authorization_endpoint"@);
    let token = members.get("token_endpoint"@);
    let registration = members.get("registration_endpoint"@);
    match r {
        Ok(e) => {
            &&& authorization == Some(e.authorization@)
            &&& token == Some(e.token@)
            &&& registration == Some(e.registration@)
        },
        Err(SolidError::NoAuthorizationEndpoint) => authorization is None,
        Err(SolidError::NoTokenEndpoint) => authorization is Some && token is None,
        Err(SolidError::NoRegistrationEndpoint) => authorization is Some && token is Some
            && registration is None,
        Err(_) => false,
    }
}

/// The client that a registration names.
pub open spec fn registered_client(r: Registration) -> Result<Client, SolidError> {
    match r.client_id {
        Some(id) => Ok(Client { id, secret: r.client_secret }),
        None => Err(SolidError::NoClientId),
    }
}

/// The client that the string members of an answer to a registration name.
pub open spec fn is_client_in(
    r: Result<Client, SolidError>,
    members: Map<Seq<char>, Seq<char>>,
) -> bool {
    match r {
        Ok(c) => {
            &&& members.get("client_id"@) == Some(c.id@)
            &&& members.get("client_secret"@) == text::opt_text(c.secret)
        },
        Err(e) => e == SolidError::NoClientId && members.get("client_id"@) is None,
    }
}

/// Where the discovery document of an issuer is.
pub open spec fn discovery_address(issuer: Seq<char>) -> Seq<char> {
    issuer + "/.well-known/openid-configuration"@
}

/// What a client tells the provider about itself.
pub open spec fn client_metadata() -> Seq<(Seq<char>, Seq<char>)> {
    seq![
        ("client_name"@, json::quoted("solid-cli"@)),
        ("grant_types"@, json::list_text(seq!["authorization_code"@, "refresh_token"@])),
        ("redirect_uris"@, json::list_text(seq![REDIRECT@])),
        ("response_types"@, json::list_text(seq!["code"@])),
        ("scope"@, json::quoted(SCOPE@)),
        ("token_endpoint_auth_method"@, json::quoted("client_secret_basic"@)),
    ]
}

/// The address that the browser is sent to.
pub open spec fn authorization_address(
    endpoint: Seq<char>,
    client_id: Seq<char>,
    state: Seq<char>,
    challenge: Seq<char>,
) -> Seq<char> {
    endpoint + "?response_type=code&client_id="@ + percent::url_encoded(client_id)
        + "&redirect_uri="@ + percent::url_encoded(REDIRECT@) + "&scope="@ + percent::url_encoded(
        SCOPE@,
    ) + "&state="@ + percent::url_encoded(state) + "&code_challenge="@ + challenge
        + "&code_challenge_method=S256&prompt=consent"@
}

/// The form that asks for tokens in exchange for an authorization code.
pub open spec fn exchange_form(
    code: Seq<char>,
    verifier: Seq<char>,
    client_id: Seq<char>,
) -> Seq<(Seq<char>, Seq<char>)> {
    seq![
        ("grant_type"@, "authorization_code"@),
        ("code"@, code),
        ("redirect_uri"@, REDIRECT@),
        ("code_verifier"@, verifier),
        ("client_id"@, client_id),
    ]
}

/// `req` asks for tokens in exchange for a code: it goes to the token endpoint,
/// with the code, a code verifier and a given proof.
pub open spec fn is_proved_exchange(
    req: TokenRequest,
    verifier: Seq<char>,
    token_endpoint: Seq<char>,
    client: Client,
    code: Seq<char>,
    dpop: Seq<char>,
) -> bool {
    &&& req.endpoint@ == token_endpoint
    &&& req.dpop@ == dpop
    &&& session::form_texts(req.form@) == exchange_form(code, verifier, client.id@)
    &&& session::is_client_auth(req.basic, client.id@, text::opt_text(client.secret))
}

/// `req` exchanges the code of an attempt: it carries the attempt's verifier,
/// and is proved with the attempt's key.
pub open spec fn is_exchange_request(
    req: TokenRequest,
    attempt: Attempt,
    token_endpoint: Seq<char>,
    client: Client,
    code: Seq<char>,
) -> bool {
    &&& is_proved_exchange(req, attempt.verifier@, token_endpoint, client, code, req.dpop@)
    &&& dpop::is_proof(req.dpop@, attempt.key@, "POST"@, token_endpoint, None)
}

/// `s` is a session that has been set up and has no tokens yet. The base is
/// kept without trailing slashes.
pub open spec fn is_new_session(
    s: Session,
    issuer: Seq<char>,
    base: Seq<char>,
    token_endpoint: Seq<char>,
    client: Client,
    scalar: Seq<u8>,
) -> bool {
    &&& s.issuer@ == issuer
    &&& s.base@ == text::trimmed_end(base, '/')
    &&& s.token_endpoint@ == token_endpoint
    &&& s.client_id == client.id
    &&& s.client_secret == client.secret
    &&& s.refresh_token is None
    &&& s.access_token@ == Seq::<char>::empty()
    &&& s.expires_at == 0
    &&& s.key@ == b64::b64url(scalar)
}

/// The issuer that an answer names: without trailing slashes.
pub fn issuer_of(answer: &str) -> (issuer: String)
    ensures
        issuer@ == text::trimmed_end(answer@, '/'),
{
    text::trim_end(answer, '/')
}

/// Where the discovery document of an issuer is.
pub fn discovery_url(issuer: &str) -> (url: String)
    ensures
        url@ == discovery_address(issuer@),
{
    issuer.to_owned().concat("/.well-known/openid-configuration")
}

/// The endpoints that a discovery document names.
pub fn endpoints(d: Discovery) -> (r: Result<Endpoints, SolidError>)
    ensures
        r == found_endpoints(d),
{
    match d.authorization_endpoint {
        None => Err(SolidError::NoAuthorizationEndpoint),
        Some(authorization) => match d.token_endpoint {
            None => Err(SolidError::NoTokenEndpoint),
            Some(token) => match d.registration_endpoint {
                None => Err(SolidError::NoRegistrationEndpoint),
                Some(registration) => Ok(Endpoints { authorization, token, registration }),
            },
        },
    }
}

/// The endpoints that the body of a discovery document names.
pub fn discover(body: &[u8]) -> (r: Result<Endpoints, SolidError>)
    ensures
        match json::parsed_strings(body@) {
            None => r matches Err(SolidError::DiscoveryFailed(cause)) && cause@
                == json::json_refusal(body@),
            Some(members) => are_endpoints_in(r, members),
        },
{
    match json::parse(body) {
        Err(e) => Err(SolidError::DiscoveryFailed(json::error_text(&e))),
        Ok(value) => {
            let d = Discovery {
                authorization_endpoint: json::string_member(&value, "authorization_endpoint"),
                token_endpoint: json::string_member(&value, "token_endpoint"),
                registration_endpoint: json::string_member(&value, "registration_endpoint"),
            };
            endpoints(d)
        },
    }
}

/// The client that a registration names.
pub fn client(reg: Registration) -> (r: Result<Client, SolidError>)
    ensures
        r == registered_client(reg),
{
    match reg.client_id {
        None => Err(SolidError::NoClientId),
        Some(id) => Ok(Client { id, secret: reg.client_secret }),
    }
}

/// The client that the body of an answer to a registration names.
pub fn register(body: &[u8]) -> (r: Result<Client, SolidError>)
    ensures
        match json::parsed_strings(body@) {
            None => r matches Err(SolidError::RegistrationFailed(cause)) && cause@
                == json::json_refusal(body@),
            Some(members) => is_client_in(r, members),
        },
{
    match json::parse(body) {
        Err(e) => Err(SolidError::RegistrationFailed(json::error_text(&e))),
        Ok(value) => {
            let reg = Registration {
                client_id: json::string_member(&value, "client_id"),
                client_secret: json::string_member(&value, "client_secret"),
            };
            client(reg)
        },
    }
}

/// The order of the member names of the client metadata.
proof fn lemma_metadata_names()
    ensures
        "client_name"@[0] == 'c' && "client_name"@.len() > 0,
        "grant_types"@[0] == 'g' && "grant_types"@.len() > 0,
        "redirect_uris"@[0] == 'r' && "redirect_uris"@.len() > 0,
        "response_types"@[0] == 'r' && "response_types"@.len() > 0,
        "scope"@[0] == 's' && "scope"@.len() > 0,
        "token_endpoint_auth_method"@[0] == 't' && "token_endpoint_auth_method"@.len() > 0,
        "response_types"@ != "redirect_uris"@,
        !json::before("response_types"@, "redirect_uris"@),
{
    reveal_strlit("client_name");
    reveal_strlit("grant_types");
    reveal_strlit("redirect_uris");
    reveal_strlit("response_types");
    reveal_strlit("scope");
    reveal_strlit("token_endpoint_auth_method");
    let a = "response_types"@;
    let b = "redirect_uris"@;
    assert(a[0] == 'r' && a[1] == 'e' && a[2] == 's');
    assert(b[0] == 'r' && b[1] == 'e' && b[2] == 'd');
    let a1 = a.drop_first();
    let b1 = b.drop_first();
    assert(a1[0] == 'e' && b1[0] == 'e');
    let a2 = a1.drop_first();
    let b2 = b1.drop_first();
    assert(a2[0] == 's' && b2[0] == 'd');
    assert(!json::before(a2, b2));
    assert(!json::before(a1, b1));
}

/// What a client tells the provider about itself, as the body of a registration.
pub fn registration_body() -> (r: Result<Vec<u8>, SolidError>)
    ensures
        r is Ok,
        r->Ok_0@ == utf8::encode_utf8(json::object_text(client_metadata())),
{
    let mut grants: Vec<String> = Vec::new();
    grants.push("authorization_code".to_owned());
    grants.push("refresh_token".to_owned());
    let mut uris: Vec<String> = Vec::new();
    uris.push(REDIRECT.to_owned());
    let mut responses: Vec<String> = Vec::new();
    responses.push("code".to_owned());
    assert(text::texts(grants@) =~= seq!["authorization_code"@, "refresh_token"@]);
    assert(text::texts(uris@) =~= seq![REDIRECT@]);
    assert(text::texts(responses@) =~= seq!["code"@]);
    let mut o = json::object();
    json::put_str(&mut o, "client_name", "solid-cli");
    json::put_list(&mut o, "grant_types", grants);
    json::put_list(&mut o, "redirect_uris", uris);
    json::put_list(&mut o, "response_types", responses);
    json::put_str(&mut o, "scope", SCOPE);
    json::put_str(&mut o, "token_endpoint_auth_method", "client_secret_basic");
    proof {
        lemma_metadata_names();
        let m = client_metadata();
        json::lemma_new_entry(m.take(0), 0, m[0].0, m[0].1);
        assert(m.take(0).insert(0, m[0]) =~= m.take(1));
        json::lemma_new_entry(m.take(1), 1, m[1].0, m[1].1);
        assert(m.take(1).insert(1, m[1]) =~= m.take(2));
        json::lemma_new_entry(m.take(2), 2, m[2].0, m[2].1);
        assert(m.take(2).insert(2, m[2]) =~= m.take(3));
        json::lemma_new_entry(m.take(3), 3, m[3].0, m[3].1);
        assert(m.take(3).insert(3, m[3]) =~= m.take(4));
        json::lemma_new_entry(m.take(4), 4, m[4].0, m[4].1);
        assert(m.take(4).insert(4, m[4]) =~= m.take(5));
        json::lemma_new_entry(m.take(5), 5, m[5].0, m[5].1);
        assert(m.take(5).insert(5, m[5]) =~= m);
        assert(m.take(0) =~= Seq::empty());
    }
    match json::object_bytes(&o) {
        Ok(bytes) => Ok(bytes),
        Err(_) => Err(SolidError::Json),
    }
}

/// A fresh login attempt.
pub fn begin() -> (attempt: Attempt)
    ensures
        crypto::is_random_text(attempt.verifier@, 32),
        crypto::is_random_text(attempt.state@, 16),
        key::is_secret_scalar(attempt.key@),
{
    Attempt {
        verifier: crypto::rand_b64(32),
        state: crypto::rand_b64(16),
        key: DpopKey::generate(),
    }
}

/// The address that the browser is sent to, given the state and the code
/// verifier of an attempt. It carries the verifier's hash only.
pub fn authorization_url(
    endpoint: &str,
    client_id: &str,
    state: &str,
    verifier: &str,
) -> (url: String)
    ensures
        url@ == authorization_address(
            endpoint@,
            client_id@,
            state@,
            crypto::s256_text(verifier@),
        ),
{
    let mut url = endpoint.to_owned();
    url.append("?response_type=code&client_id=");
    url.append(percent::urlenc(client_id).as_str());
    url.append("&redirect_uri=");
    url.append(percent::urlenc(REDIRECT).as_str());
    url.append("&scope=");
    url.append(percent::urlenc(SCOPE).as_str());
    url.append("&state=");
    url.append(percent::urlenc(state).as_str());
    url.append("&code_challenge=");
    url.append(crypto::s256(verifier).as_str());
    url.append("&code_challenge_method=S256&prompt=consent");
    url
}

/// The request that exchanges a code for tokens, with a given proof.
pub fn proved_exchange(
    verifier: &str,
    token_endpoint: &str,
    client: &Client,
    code: &str,
    dpop: String,
) -> (req: TokenRequest)
    ensures
        is_proved_exchange(req, verifier@, token_endpoint@, *client, code@, dpop@),
{
    let mut form: Vec<(String, String)> = Vec::new();
    form.push(session::field("grant_type", "authorization_code"));
    form.push(session::field("code", code));
    form.push(session::field("redirect_uri", REDIRECT));
    form.push(session::field("code_verifier", verifier));
    form.push(session::field("client_id", client.id.as_str()));
    assert(session::form_texts(form@) =~= exchange_form(code@, verifier@, client.id@));
    TokenRequest {
        endpoint: token_endpoint.to_owned(),
        dpop,
        form,
        basic: session::client_auth(&client.id, &client.secret),
    }
}

/// The request that exchanges the code of an attempt for tokens.
pub fn exchange_request(
    attempt: &Attempt,
    token_endpoint: &str,
    client: &Client,
    code: &str,
) -> (r: Result<TokenRequest, SolidError>)
    ensures
        match r {
            Ok(req) => is_exchange_request(req, *attempt, token_endpoint@, *client, code@),
            Err(e) => dpop::is_proof_failure(e, attempt.key@, "POST"@, token_endpoint@, None),
        },
{
    let dpop = dpop::dpop_proof(&attempt.key, "POST", token_endpoint, None)?;
    Ok(proved_exchange(attempt.verifier.as_str(), token_endpoint, client, code, dpop))
}

/// A session that has no tokens yet.
pub fn new_session(
    issuer: &str,
    base: &str,
    token_endpoint: &str,
    client: Client,
    key: &DpopKey,
) -> (s: Session)
    ensures
        is_new_session(s, issuer@, base@, token_endpoint@, client, key@),
{
    Session {
        issuer: issuer.to_owned(),
        base: text::trim_end(base, '/'),
        token_endpoint: token_endpoint.to_owned(),
        client_id: client.id,
        client_secret: client.secret,
        refresh_token: None,
        access_token: String::new(),
        expires_at: 0,
        key: key.to_b64(),
    }
}

/// How a login ends whose tokens were granted at a given time: with a session
/// that holds the tokens, or without one where the expiry cannot be written
/// down.
pub open spec fn is_login_result_at(
    r: Result<Session, SolidError>,
    t: TokenResp,
    now: u64,
    issuer: Seq<char>,
    base: Seq<char>,
    token_endpoint: Seq<char>,
    client: Client,
    scalar: Seq<u8>,
) -> bool {
    if now + session::token_lifetime(t.expires_in) <= u64::MAX {
        r matches Ok(s) && exists|fresh: Session|
            is_new_session(fresh, issuer, base, token_endpoint, client, scalar) && s
                == #[trigger] session::with_token(fresh, t, now)
    } else {
        r == Err::<Session, SolidError>(SolidError::ExpiryOverflow)
    }
}

/// How a login ends whose tokens were granted at the time that the clock shows;
/// it ends without a session where the clock stands before the epoch.
pub open spec fn is_login_result(
    r: Result<Session, SolidError>,
    t: TokenResp,
    issuer: Seq<char>,
    base: Seq<char>,
    token_endpoint: Seq<char>,
    client: Client,
    scalar: Seq<u8>,
) -> bool {
    exists|at: SystemTime|
        match #[trigger] clock::epoch_seconds(at) {
            Ok(now) => is_login_result_at(
                r,
                t,
                now,
                issuer,
                base,
                token_endpoint,
                client,
                scalar,
            ),
            Err(c) => r == Err::<Session, SolidError>(c),
        }
}

/// How a login ends, given the answer to the exchange and the time that it came:
/// with a session that holds the tokens, or with the provider's refusal.
pub fn finish_login_at(
    issuer: &str,
    base: &str,
    token_endpoint: &str,
    client: Client,
    key: &DpopKey,
    reply: TokenReply,
    now: u64,
) -> (r: Result<Session, SolidError>)
    ensures
        match reply {
            TokenReply::Refused(body) => r == Err::<Session, SolidError>(
                SolidError::ExchangeFailed(body),
            ),
            TokenReply::Granted(t) => is_login_result_at(
                r,
                t,
                now,
                issuer@,
                base@,
                token_endpoint@,
                client,
                key@,
            ),
        },
{
    match reply {
        TokenReply::Refused(body) => Err(SolidError::ExchangeFailed(body)),
        TokenReply::Granted(t) => {
            let mut s = new_session(issuer, base, token_endpoint, client, key);
            match session::apply_token_at(&mut s, t, now) {
                Ok(_) => Ok(s),
                Err(e) => Err(e),
            }
        },
    }
}

/// How a login ends, given the answer that the exchange got just now.
pub fn finish_login(
    issuer: &str,
    base: &str,
    token_endpoint: &str,
    client: Client,
    key: &DpopKey,
    reply: TokenReply,
) -> (r: Result<Session, SolidError>)
    ensures
        match reply {
            TokenReply::Refused(body) => r == Err::<Session, SolidError>(
                SolidError::ExchangeFailed(body),
            ),
            TokenReply::Granted(t) => is_login_result(
                r,
                t,
                issuer@,
                base@,
                token_endpoint@,
                client,
                key@,
            ),
        },
{
    match reply {
        TokenReply::Refused(body) => Err(SolidError::ExchangeFailed(body)),
        TokenReply::Granted(t) => match clock::now() {
            Err(e) => Err(e),
            Ok(now) => finish_login_at(
                issuer,
                base,
                token_endpoint,
                client,
                key,
                TokenReply::Granted(t),
                now,
            ),
        },
    }
}

/// The parameters of an authorization request.
pub open spec fn authorization_params(
    client_id: Seq<char>,
    state: Seq<char>,
    challenge: Seq<char>,
) -> Seq<(Seq<char>, Seq<char>)> {
    seq![
        ("response_type"@, "code"@),
        ("client_id"@, client_id),
        ("redirect_uri"@, REDIRECT@),
        ("scope"@, SCOPE@),
        ("state"@, state),
        ("code_challenge"@, challenge),
        ("code_challenge_method"@, "S256"@),
        ("prompt"@, "consent"@),
    ]
}

/// The parameter names of an authorization request can stand in a query, and
/// no two are the same.
proof fn lemma_param_names(client_id: Seq<char>, state: Seq<char>, challenge: Seq<char>)
    ensures
        ({
            let pairs = authorization_params(client_id, state, challenge);
            &&& forall|i: int| 0 <= i < 8 ==> callback::is_param_name(#[trigger] pairs[i].0)
            &&& forall|i: int, j: int|
                0 <= i < j < 8 ==> #[trigger] pairs[i].0 != #[trigger] pairs[j].0
        }),
{
    reveal_strlit("response_type");
    reveal_strlit("client_id");
    reveal_strlit("redirect_uri");
    reveal_strlit("scope");
    reveal_strlit("state");
    reveal_strlit("code_challenge");
    reveal_strlit("code_challenge_method");
    reveal_strlit("prompt");
    assert("scope"@[1] == 'c');
    assert("state"@[1] == 't');
}

/// Values without anything to encode are written as they are.
proof fn lemma_fixed_values(digest: Seq<u8>)
    ensures
        percent::url_encoded("code"@) == "code"@,
        percent::url_encoded("S256"@) == "S256"@,
        percent::url_encoded("consent"@) == "consent"@,
        percent::url_encoded(b64::b64url(digest)) == b64::b64url(digest),
{
    reveal_strlit("code");
    reveal_strlit("S256");
    reveal_strlit("consent");
    percent::law_unreserved_is_kept("code"@);
    percent::law_unreserved_is_kept("S256"@);
    percent::law_unreserved_is_kept("consent"@);
    b64::law_b64url_is_symbols(digest);
    percent::law_unreserved_is_kept(b64::b64url(digest));
}

/// The fixed parts of an authorization address, taken apart.
proof fn lemma_address_parts()
    ensures
        "?response_type=code&client_id="@ == seq!['?'] + ("response_type"@ + seq!['='] + "code"@) + (
        seq!['&'] + "client_id"@ + seq!['=']),
        "&redirect_uri="@ == seq!['&'] + "redirect_uri"@ + seq!['='],
        "&scope="@ == seq!['&'] + "scope"@ + seq!['='],
        "&state="@ == seq!['&'] + "state"@ + seq!['='],
        "&code_challenge="@ == seq!['&'] + "code_challenge"@ + seq!['='],
        "&code_challenge_method=S256&prompt=consent"@ == (seq!['&'] + "code_challenge_method"@
            + seq!['=']) + ("S256"@ + (seq!['&'] + ("prompt"@ + seq!['='] + "consent"@))),
{
    reveal_strlit("?response_type=code&client_id=");
    reveal_strlit("&redirect_uri=");
    reveal_strlit("&scope=");
    reveal_strlit("&state=");
    reveal_strlit("&code_challenge=");
    reveal_strlit("&code_challenge_method=S256&prompt=consent");
    reveal_strlit("response_type");
    reveal_strlit("code");
    reveal_strlit("client_id");
    reveal_strlit("redirect_uri");
    reveal_strlit("scope");
    reveal_strlit("state");
    reveal_strlit("code_challenge");
    reveal_strlit("code_challenge_method");
    reveal_strlit("S256");
    reveal_strlit("prompt");
    reveal_strlit("consent");
    assert("?response_type=code&client_id="@ =~= seq!['?'] + ("response_type"@ + seq!['='] + "code"@)
        + (seq!['&'] + "client_id"@ + seq!['=']));
    assert("&redirect_uri="@ =~= seq!['&'] + "redirect_uri"@ + seq!['=']);
    assert("&scope="@ =~= seq!['&'] + "scope"@ + seq!['=']);
    assert("&state="@ =~= seq!['&'] + "state"@ + seq!['=']);
    assert("&code_challenge="@ =~= seq!['&'] + "code_challenge"@ + seq!['=']);
    assert("&code_challenge_method=S256&prompt=consent"@ =~= (seq!['&'] + "code_challenge_method"@
        + seq!['=']) + ("S256"@ + (seq!['&'] + ("prompt"@ + seq!['='] + "consent"@))));
}

/// Written parameters from one of them on, with an ampersand in front.
spec fn query_from(pairs: Seq<(Seq<char>, Seq<char>)>, k: int) -> Seq<char> {
    seq!['&'] + text::joined(
        pairs.map_values(|pair: (Seq<char>, Seq<char>)| callback::written_param(pair)).skip(k),
        '&',
    )
}

proof fn lemma_query_from(pairs: Seq<(Seq<char>, Seq<char>)>, k: int)
    requires
        0 <= k < pairs.len(),
    ensures
        query_from(pairs, k) == (seq!['&'] + pairs[k].0 + seq!['=']) + if k + 1 == pairs.len() {
            percent::url_encoded(pairs[k].1)
        } else {
            percent::url_encoded(pairs[k].1) + query_from(pairs, k + 1)
        },
{
    let written = pairs.map_values(|pair: (Seq<char>, Seq<char>)| callback::written_param(pair));
    let here = written.skip(k);
    let value = percent::url_encoded(pairs[k].1);
    let name = seq!['&'] + pairs[k].0 + seq!['='];
    assert(here[0] == pairs[k].0 + seq!['='] + value);
    if k + 1 == pairs.len() {
        assert(seq!['&'] + (pairs[k].0 + seq!['='] + value) =~= name + value);
    } else {
        assert(here.drop_first() =~= written.skip(k + 1));
        let rest = text::joined(written.skip(k + 1), '&');
        assert(seq!['&'] + (pairs[k].0 + seq!['='] + value + seq!['&'] + rest) =~= name + (value + (
        seq!['&'] + rest)));
    }
}

/// An authorization address is the endpoint with the request's parameters as
/// its query.
pub proof fn law_address_is_a_query(
    endpoint: Seq<char>,
    client_id: Seq<char>,
    state: Seq<char>,
    verifier: Seq<char>,
)
    ensures
        ({
            let challenge = crypto::s256_text(verifier);
            authorization_address(endpoint, client_id, state, challenge) == callback::with_query(
                endpoint,
                authorization_params(client_id, state, challenge),
            )
        }),
{
    let digest = crypto::sha256_digest(utf8::encode_utf8(verifier));
    let challenge = crypto::s256_text(verifier);
    let pairs = authorization_params(client_id, state, challenge);
    let written = pairs.map_values(|pair: (Seq<char>, Seq<char>)| callback::written_param(pair));
    lemma_fixed_values(digest);
    lemma_address_parts();
    lemma_query_from(pairs, 1);
    lemma_query_from(pairs, 2);
    lemma_query_from(pairs, 3);
    lemma_query_from(pairs, 4);
    lemma_query_from(pairs, 5);
    lemma_query_from(pairs, 6);
    lemma_query_from(pairs, 7);
    assert("&code_challenge_method=S256&prompt=consent"@ == query_from(pairs, 6)) by {
        assert(seq!['&'] + "prompt"@ + seq!['='] + "consent"@ =~= seq!['&'] + ("prompt"@ + seq!['=']
            + "consent"@));
    }
    let e1 = percent::url_encoded(client_id);
    let e2 = percent::url_encoded(REDIRECT@);
    let e3 = percent::url_encoded(SCOPE@);
    let e4 = percent::url_encoded(state);
    let q2 = query_from(pairs, 2);
    let q3 = query_from(pairs, 3);
    let q4 = query_from(pairs, 4);
    let q5 = query_from(pairs, 5);
    let q6 = query_from(pairs, 6);
    let a0 = endpoint + "?response_type=code&client_id="@;
    let a1 = a0 + e1;
    let a2 = a1 + "&redirect_uri="@;
    let a3 = a2 + e2;
    let a4 = a3 + "&scope="@;
    let a5 = a4 + e3;
    let a6 = a5 + "&state="@;
    let a7 = a6 + e4;
    let a8 = a7 + "&code_challenge="@;
    lemma_regroup(a8, challenge, q6);
    lemma_regroup(a7, "&code_challenge="@, challenge + q6);
    lemma_regroup(a6, e4, q5);
    lemma_regroup(a5, "&state="@, e4 + q5);
    lemma_regroup(a4, e3, q4);
    lemma_regroup(a3, "&scope="@, e3 + q4);
    lemma_regroup(a2, e2, q3);
    lemma_regroup(a1, "&redirect_uri="@, e2 + q3);
    lemma_regroup(a0, e1, q2);
    let mark = seq!['?'];
    let first = "response_type"@ + seq!['='] + "code"@;
    let second = seq!['&'] + "client_id"@ + seq!['='];
    let rest = text::joined(written.skip(1), '&');
    lemma_regroup(endpoint, mark + first, second);
    lemma_regroup(endpoint + (mark + first), second, e1 + q2);
    lemma_regroup(endpoint, mark, first);
    lemma_regroup(endpoint + mark, first, seq!['&'] + rest);
    lemma_regroup(first, seq!['&'], rest);
    assert(written[0] == first);
    assert(written.drop_first() =~= written.skip(1));
}

/// Whoever reads the query of an authorization address gets every parameter of
/// the request as it was meant, the state among them, and of the code verifier
/// its hash.
pub proof fn law_provider_reads_the_request(
    endpoint: Seq<char>,
    client_id: Seq<char>,
    state: Seq<char>,
    verifier: Seq<char>,
)
    requires
        !endpoint.contains('?'),
    ensures
        ({
            let challenge = crypto::s256_text(verifier);
            let read = callback::params(
                authorization_address(endpoint, client_id, state, challenge),
            );
            &&& callback::decoded_param(read, "response_type"@) == Some("code"@)
            &&& callback::decoded_param(read, "client_id"@) == Some(client_id)
            &&& callback::decoded_param(read, "redirect_uri"@) == Some(REDIRECT@)
            &&& callback::decoded_param(read, "scope"@) == Some(SCOPE@)
            &&& callback::decoded_param(read, "state"@) == Some(state)
            &&& callback::decoded_param(read, "code_challenge"@) == Some(challenge)
            &&& callback::decoded_param(read, "code_challenge_method"@) == Some("S256"@)
            &&& callback::decoded_param(read, "prompt"@) == Some("consent"@)
        }),
{
    let challenge = crypto::s256_text(verifier);
    let pairs = authorization_params(client_id, state, challenge);
    law_address_is_a_query(endpoint, client_id, state, verifier);
    lemma_param_names(client_id, state, challenge);
    callback::law_params_are_those_written(endpoint, pairs);
    assert forall|i: int| 0 <= i < 8 implies callback::last_value(pairs, (#[trigger] pairs[i]).0)
        == Some(pairs[i].1) by {
        assert forall|j: int| i < j < pairs.len() implies (#[trigger] pairs[j]).0 != pairs[i].0 by {
            assert(pairs[i].0 != pairs[j].0);
        }
        callback::lemma_last_value(pairs, i);
    }
    callback::lemma_decoded_param(pairs, pairs[0].0);
    callback::lemma_decoded_param(pairs, pairs[1].0);
    callback::lemma_decoded_param(pairs, pairs[2].0);
    callback::lemma_decoded_param(pairs, pairs[3].0);
    callback::lemma_decoded_param(pairs, pairs[4].0);
    callback::lemma_decoded_param(pairs, pairs[5].0);
    callback::lemma_decoded_param(pairs, pairs[6].0);
    callback::lemma_decoded_param(pairs, pairs[7].0);
}

/// The exchange goes with the authorization request: the form names the client
/// and the redirect address that the request named, and its code verifier is
/// the one whose hash the request carried.
pub proof fn law_exchange_matches_the_request(
    endpoint: Seq<char>,
    client_id: Seq<char>,
    state: Seq<char>,
    verifier: Seq<char>,
    code: Seq<char>,
)
    requires
        !endpoint.contains('?'),
    ensures
        ({
            let read = callback::params(
                authorization_address(endpoint, client_id, state, crypto::s256_text(verifier)),
            );
            let form = exchange_form(code, verifier, client_id);
            &&& callback::last_value(form, "client_id"@) == callback::decoded_param(
                read,
                "client_id"@,
            )
            &&& callback::last_value(form, "redirect_uri"@) == callback::decoded_param(
                read,
                "redirect_uri"@,
            )
            &&& callback::last_value(form, "code_verifier"@) == Some(verifier)
            &&& callback::decoded_param(read, "code_challenge"@) == Some(
                crypto::s256_text(verifier),
            )
        }),
{
    law_provider_reads_the_request(endpoint, client_id, state, verifier);
    reveal_strlit("grant_type");
    reveal_strlit("code");
    reveal_strlit("redirect_uri");
    reveal_strlit("code_verifier");
    reveal_strlit("client_id");
    assert("redirect_uri"@.len() == 12 && "code_verifier"@.len() == 13 && "client_id"@.len() == 9);
    let form = exchange_form(code, verifier, client_id);
    assert(form[2].0 == "redirect_uri"@ && form[3].0 == "code_verifier"@);
    assert(form[4].0 == "client_id"@);
    callback::lemma_last_value(form, 4);
    callback::lemma_last_value(form, 3);
    callback::lemma_last_value(form, 2);
}

/// A login leaves a session that can be worked with: its key is the one that
/// the tokens were bound to, and paths resolve as against the base that was
/// given. Taking over tokens does not change that.
pub proof fn law_login_leaves_a_usable_session(
    r: Result<Session, SolidError>,
    t: TokenResp,
    issuer: Seq<char>,
    base: Seq<char>,
    token_endpoint: Seq<char>,
    client: Client,
    scalar: Seq<u8>,
    path: Seq<char>,
)
    requires
        key::is_secret_scalar(scalar),
        r is Ok,
        is_login_result(r, t, issuer, base, token_endpoint, client, scalar),
    ensures
        ({
            let s = r->Ok_0;
            &&& key::is_key_sized(s.key@)
            &&& session::is_key_of(scalar, s.key@)
            &&& s.access_token == t.access_token
            &&& s.refresh_token == t.refresh_token
            &&& resource::resolved(s.base@, path) == resource::resolved(base, path)
        }),
{
    key::law_key_round_trip(scalar, scalar);
    resource::law_base_needs_no_slash(base, path);
}

proof fn lemma_regroup(a: Seq<char>, b: Seq<char>, c: Seq<char>)
    ensures
        a + b + c == a + (b + c),
{
    assert(a + b + c =~= a + (b + c));
}

/// The discovery document stands at a fixed path below the issuer.
pub proof fn law_discovery_address(issuer: Seq<char>)
    ensures
        discovery_address(issuer) == issuer + "/.well-known/openid-configuration"@,
{
}

/// The endpoints come out as the document names them, and the first one that it
/// does not name is what is missing.
pub proof fn law_endpoints(d: Discovery, r: Result<Endpoints, SolidError>)
    requires
        r == found_endpoints(d),
    ensures
        r matches Ok(e) ==> d.authorization_endpoint == Some(e.authorization) && d.token_endpoint
            == Some(e.token) && d.registration_endpoint == Some(e.registration),
        d.authorization_endpoint is Some && d.token_endpoint is Some && d.registration_endpoint
            is Some ==> r is Ok,
        d.authorization_endpoint is None ==> r == Err::<Endpoints, SolidError>(
            SolidError::NoAuthorizationEndpoint,
        ),
        d.authorization_endpoint is Some && d.token_endpoint is None ==> r == Err::<
            Endpoints,
            SolidError,
        >(SolidError::NoTokenEndpoint),
        d.authorization_endpoint is Some && d.token_endpoint is Some && d.registration_endpoint
            is None ==> r == Err::<Endpoints, SolidError>(SolidError::NoRegistrationEndpoint),
{
}

/// The endpoints of a document that names them are what its members say.
pub proof fn law_endpoints_in_a_document(
    r: Result<Endpoints, SolidError>,
    members: Map<Seq<char>, Seq<char>>,
)
    requires
        are_endpoints_in(r, members),
    ensures
        members.contains_key("authorization_endpoint"@) && members.contains_key("token_endpoint"@)
            && members.contains_key("registration_endpoint"@) ==> {
            &&& r is Ok
            &&& r->Ok_0.authorization@ == members["authorization_endpoint"@]
            &&& r->Ok_0.token@ == members["token_endpoint"@]
            &&& r->Ok_0.registration@ == members["registration_endpoint"@]
        },
        !members.contains_key("authorization_endpoint"@) ==> r == Err::<Endpoints, SolidError>(
            SolidError::NoAuthorizationEndpoint,
        ),
        members.contains_key("authorization_endpoint"@) && !members.contains_key("token_endpoint"@)
            ==> r == Err::<Endpoints, SolidError>(SolidError::NoTokenEndpoint),
        members.contains_key("authorization_endpoint"@) && members.contains_key("token_endpoint"@)
            && !members.contains_key("registration_endpoint"@) ==> r == Err::<
            Endpoints,
            SolidError,
        >(SolidError::NoRegistrationEndpoint),
{
}

/// The client comes out as the answer to the registration names it.
pub proof fn law_client(
    reg: Registration,
    r: Result<Client, SolidError>,
    members: Map<Seq<char>, Seq<char>>,
)
    ensures
        r == registered_client(reg) ==> match reg.client_id {
            Some(id) => r is Ok && r->Ok_0.id == id && r->Ok_0.secret == reg.client_secret,
            None => r == Err::<Client, SolidError>(SolidError::NoClientId),
        },
        is_client_in(r, members) ==> if members.contains_key("client_id"@) {
            &&& r is Ok
            &&& r->Ok_0.id@ == members["client_id"@]
            &&& r->Ok_0.secret is Some <==> members.contains_key("client_secret"@)
            &&& r->Ok_0.secret is Some ==> r->Ok_0.secret->0@ == members["client_secret"@]
        } else {
            r == Err::<Client, SolidError>(SolidError::NoClientId)
        },
{
}

/// What an exchange sends: the code, the redirect address, the code verifier and
/// the client to the token endpoint, with the proof, and the client's secret if
/// it has one.
pub proof fn law_exchange_sends(
    req: TokenRequest,
    verifier: Seq<char>,
    token_endpoint: Seq<char>,
    client: Client,
    code: Seq<char>,
    dpop: Seq<char>,
)
    requires
        is_proved_exchange(req, verifier, token_endpoint, client, code, dpop),
    ensures
        req.endpoint@ == token_endpoint,
        req.dpop@ == dpop,
        req.form@.len() == 5,
        req.form@[0].0@ == "grant_type"@ && req.form@[0].1@ == "authorization_code"@,
        req.form@[1].0@ == "code"@ && req.form@[1].1@ == code,
        req.form@[2].0@ == "redirect_uri"@ && req.form@[2].1@ == "http://localhost:9876/callback"@,
        req.form@[3].0@ == "code_verifier"@ && req.form@[3].1@ == verifier,
        req.form@[4].0@ == "client_id"@ && req.form@[4].1@ == client.id@,
        match (req.basic, client.secret) {
            (Some((user, password)), Some(secret)) => user@ == client.id@ && password@ == secret@,
            (None, None) => true,
            _ => false,
        },
{
    session::law_form_texts(req.form@);
    let sent = session::form_texts(req.form@);
    assert(sent[0] == ("grant_type"@, "authorization_code"@));
    assert(sent[1] == ("code"@, code));
    assert(sent[2] == ("redirect_uri"@, REDIRECT@));
    assert(sent[3] == ("code_verifier"@, verifier));
    assert(sent[4] == ("client_id"@, client.id@));
}

/// The code that the provider wrote into the redirect is the one that is sent
/// back to it, with the verifier of the attempt, proved by the attempt's key.
pub proof fn law_code_travels(
    path: Seq<char>,
    pairs: Seq<(Seq<char>, Seq<char>)>,
    written: Seq<char>,
    read: Seq<char>,
    attempt: Attempt,
    token_endpoint: Seq<char>,
    client: Client,
    req: TokenRequest,
)
    requires
        !path.contains('?'),
        pairs.len() > 0,
        forall|i: int| 0 <= i < pairs.len() ==> callback::is_param_name(#[trigger] pairs[i].0),
        callback::last_value(pairs, "state"@) == Some(attempt.state@),
        callback::last_value(pairs, "code"@) == Some(written),
        callback::callback_answer(callback::with_query(path, pairs), attempt.state@) == Ok::<
            Seq<char>,
            SolidError,
        >(read),
        is_exchange_request(req, attempt, token_endpoint, client, read),
    ensures
        req.form@.len() == 5,
        req.form@[1].0@ == "code"@,
        req.form@[1].1@ == written,
        req.form@[3].0@ == "code_verifier"@,
        req.form@[3].1@ == attempt.verifier@,
        req.endpoint@ == token_endpoint,
        dpop::is_proof(req.dpop@, attempt.key@, "POST"@, token_endpoint, None),
{
    callback::law_callback_reads_back(path, pairs, attempt.state@);
    law_exchange_sends(req, attempt.verifier@, token_endpoint, client, read, req.dpop@);
}

/// What a login leaves behind, told from what it was given: the issuer, the base
/// without trailing slashes, the endpoint, the client, the tokens with their
/// expiry, and the key.
pub proof fn law_login_session(
    r: Result<Session, SolidError>,
    t: TokenResp,
    now: u64,
    issuer: Seq<char>,
    base: Seq<char>,
    slashes: Seq<char>,
    token_endpoint: Seq<char>,
    client: Client,
    scalar: Seq<u8>,
)
    requires
        forall|k: int| 0 <= k < slashes.len() ==> #[trigger] slashes[k] == '/',
        base.len() > 0 ==> base[base.len() - 1] != '/',
        is_login_result_at(r, t, now, issuer, base + slashes, token_endpoint, client, scalar),
    ensures
        ({
            let n = match t.expires_in {
                Some(n) => n as int,
                None => 3600,
            };
            let end = if n > 30 {
                now + n - 30
            } else {
                now as int
            };
            &&& end <= u64::MAX ==> {
                &&& r is Ok
                &&& r->Ok_0.issuer@ == issuer
                &&& r->Ok_0.base@ == base
                &&& r->Ok_0.token_endpoint@ == token_endpoint
                &&& r->Ok_0.client_id == client.id
                &&& r->Ok_0.client_secret == client.secret
                &&& r->Ok_0.access_token == t.access_token
                &&& r->Ok_0.refresh_token == t.refresh_token
                &&& r->Ok_0.expires_at == end
                &&& r->Ok_0.key@ == b64::b64url(scalar)
            }
            &&& end > u64::MAX ==> r == Err::<Session, SolidError>(SolidError::ExpiryOverflow)
        }),
{
    let given = base + slashes;
    text::law_trimmed_end(given, '/');
    let kept = text::trimmed_end(given, '/');
    if kept.len() < base.len() {
        assert(given[base.len() - 1] == base[base.len() - 1]);
    }
    if kept.len() > base.len() {
        assert(given[kept.len() - 1] == slashes[kept.len() - 1 - base.len()]);
    }
    assert(kept =~= base);
}

/// A new session holds what it was given, and no tokens.
pub proof fn law_new_session(
    s: Session,
    issuer: Seq<char>,
    base: Seq<char>,
    token_endpoint: Seq<char>,
    client: Client,
    scalar: Seq<u8>,
)
    requires
        is_new_session(s, issuer, base, token_endpoint, client, scalar),
    ensures
        s.issuer@ == issuer,
        s.base@ == text::trimmed_end(base, '/'),
        s.token_endpoint@ == token_endpoint,
        s.client_id == client.id && s.client_secret == client.secret,
        s.refresh_token is None && s.access_token@.len() == 0 && s.expires_at == 0,
        s.key@ == b64::b64url(scalar),
{
}

/// A login ends at the time that the clock shows, if it shows one.
pub proof fn law_login_ends_now(
    r: Result<Session, SolidError>,
    t: TokenResp,
    issuer: Seq<char>,
    base: Seq<char>,
    token_endpoint: Seq<char>,
    client: Client,
    scalar: Seq<u8>,
)
    requires
        is_login_result(r, t, issuer, base, token_endpoint, client, scalar),
    ensures
        exists|at: SystemTime|
            match #[trigger] clock::epoch_distance(at) {
                Some(d) => is_login_result_at(
                    r,
                    t,
                    clock::whole_seconds(d),
                    issuer,
                    base,
                    token_endpoint,
                    client,
                    scalar,
                ),
                None => r == Err::<Session, SolidError>(SolidError::ClockBeforeEpoch),
            },
{
    let at = choose|at: SystemTime|
        match #[trigger] clock::epoch_seconds(at) {
            Ok(now) => is_login_result_at(
                r,
                t,
                now,
                issuer,
                base,
                token_endpoint,
                client,
                scalar,
            ),
            Err(c) => r == Err::<Session, SolidError>(c),
        };
    assert(clock::epoch_distance(at) is Some || clock::epoch_distance(at) is None);
}

/// The browser is sent to the authorization endpoint, whatever its address, with
/// the parameters of the request behind it.
pub proof fn law_browser_goes_to_the_endpoint(
    endpoint: Seq<char>,
    client_id: Seq<char>,
    state: Seq<char>,
    verifier: Seq<char>,
)
    ensures
        ({
            let challenge = b64::b64url(
                crypto::sha256_digest(utf8::encode_utf8(verifier)),
            );
            authorization_address(endpoint, client_id, state, crypto::s256_text(verifier))
                == endpoint + "?response_type=code&client_id="@ + percent::url_encoded(client_id)
                + "&redirect_uri="@ + percent::url_encoded("http://localhost:9876/callback"@)
                + "&scope="@ + percent::url_encoded("openid webid offline_access"@) + "&state="@
                + percent::url_encoded(state) + "&code_challenge="@ + challenge
                + "&code_challenge_method=S256&prompt=consent"@
        }),
{
}

} // verus!
