//! Sessions: what a login leaves behind, and keeping its access token fresh.
use vstd::prelude::*;
use std::time::SystemTime;
use crate::b64;
use crate::clock;
use crate::dpop;
use crate::error::SolidError;
use crate::key;
use crate::text;

verus! {

/// The scopes asked for.
pub const SCOPE: &'static str = "openid webid offline_access";

/// What a login leaves behind.
pub struct Session {
    pub issuer: String,
    pub base: String,
    pub token_endpoint: String,
    pub client_id: String,
    pub client_secret: Option<String>,
    pub refresh_token: Option<String>,
    pub access_token: String,
    /// When the access token stops being used, in seconds since the Unix epoch.
    pub expires_at: u64,
    /// The secret scalar of the P-256 key, in base64url.
    pub key: String,
}

fn copy_of(s: &Option<String>) -> (r: Option<String>)
    ensures
        r == *s,
{
    match s {
        Some(s) => Some(s.clone()),
        None => None,
    }
}

impl Clone for Session {
    fn clone(&self) -> (r: Self)
        ensures
            r == *self,
    {
        Session {
            issuer: self.issuer.clone(),
            base: self.base.clone(),
            token_endpoint: self.token_endpoint.clone(),
            client_id: self.client_id.clone(),
            client_secret: copy_of(&self.client_secret),
            refresh_token: copy_of(&self.refresh_token),
            access_token: self.access_token.clone(),
            expires_at: self.expires_at,
            key: self.key.clone(),
        }
    }
}

/// The tokens that a provider grants.
pub struct TokenResp {
    pub access_token: String,
    pub expires_in: Option<u64>,
    pub refresh_token: Option<String>,
}

/// What a provider answers to a request for tokens.
pub enum TokenReply {
    Granted(TokenResp),
    /// The body of an answer whose status is a failure.
    Refused(String),
}

/// A request to a token endpoint.
pub struct TokenRequest {
    pub endpoint: String,
    /// The proof of possession that goes with the request.
    pub dpop: String,
    pub form: Vec<(String, String)>,
    /// The user name and password for basic authentication.
    pub basic: Option<(String, String)>,
}

/// What is to be done before the access token can be used.
pub enum TokenStep {
    Fresh,
    Refresh(TokenRequest),
}

/// How long a granted token is used, in seconds: thirty seconds less than the
/// provider says, which is an hour where it says nothing.
pub open spec fn token_lifetime(expires_in: Option<u64>) -> int {
    let granted = match expires_in {
        Some(n) => n as int,
        None => 3600,
    };
    if granted > 30 {
        granted - 30
    } else {
        0
    }
}

/// The session after tokens were granted at a given time. Without a new refresh
/// token the old one is kept.
pub open spec fn with_token(s: Session, t: TokenResp, now: u64) -> Session {
    Session {
        access_token: t.access_token,
        expires_at: (now + token_lifetime(t.expires_in)) as u64,
        refresh_token: match t.refresh_token {
            Some(r) => Some(r),
            None => s.refresh_token,
        },
        ..s
    }
}

/// The access token can be used at this time.
pub open spec fn is_fresh(s: Session, now: u64) -> bool {
    now < s.expires_at
}

/// The fields of a form.
pub open spec fn form_texts(form: Seq<(String, String)>) -> Seq<(Seq<char>, Seq<char>)> {
    form.map_values(|f: (String, String)| (f.0@, f.1@))
}

/// The basic authentication of a client: its identifier and secret if it has a
/// secret, none otherwise.
pub open spec fn is_client_auth(
    basic: Option<(String, String)>,
    id: Seq<char>,
    secret: Option<Seq<char>>,
) -> bool {
    match (basic, secret) {
        (Some((user, password)), Some(sec)) => user@ == id && password@ == sec,
        (None, None) => true,
        _ => false,
    }
}

/// The form that asks for tokens in exchange for a refresh token.
pub open spec fn refresh_form(
    refresh_token: Seq<char>,
    client_id: Seq<char>,
) -> Seq<(Seq<char>, Seq<char>)> {
    seq![
        ("grant_type"@, "refresh_token"@),
        ("refresh_token"@, refresh_token),
        ("scope"@, SCOPE@),
        ("client_id"@, client_id),
    ]
}

/// `req` asks to renew the access token of the session: it goes to the session's
/// token endpoint, with a given refresh token and a given proof.
pub open spec fn is_proved_refresh(
    req: TokenRequest,
    s: Session,
    refresh_token: Seq<char>,
    dpop: Seq<char>,
) -> bool {
    &&& req.endpoint@ == s.token_endpoint@
    &&& req.dpop@ == dpop
    &&& form_texts(req.form@) == refresh_form(refresh_token, s.client_id@)
    &&& is_client_auth(req.basic, s.client_id@, text::opt_text(s.client_secret))
}

/// `req` renews the access token of the session: it carries the session's
/// refresh token, and is proved with the session's key.
pub open spec fn is_refresh_request(req: TokenRequest, s: Session, scalar: Seq<u8>) -> bool {
    &&& s.refresh_token is Some
    &&& is_proved_refresh(req, s, s.refresh_token->0@, req.dpop@)
    &&& dpop::is_proof(req.dpop@, scalar, "POST"@, s.token_endpoint@, None)
}

/// `scalar` is the key that the text stands for.
pub open spec fn is_key_of(scalar: Seq<u8>, key_text: Seq<char>) -> bool {
    key::is_secret_scalar(scalar) && b64::b64url(scalar) == key_text
}

/// Why a proof with a stored key could not be made: the text is no key, or the
/// key is there and the proof failed.
pub open spec fn is_stored_key_failure(
    e: SolidError,
    key_text: Seq<char>,
    method: Seq<char>,
    url: Seq<char>,
    token: Option<Seq<char>>,
) -> bool {
    ||| key::is_key_refusal(e, key_text)
    ||| exists|scalar: Seq<u8>| #[trigger]
        is_key_of(scalar, key_text) && dpop::is_proof_failure(e, scalar, method, url, token)
}

/// What is to be done at a given time before the access token can be used.
pub open spec fn is_token_step(r: Result<TokenStep, SolidError>, s: Session, now: u64) -> bool {
    if is_fresh(s, now) {
        r matches Ok(TokenStep::Fresh)
    } else if s.refresh_token is None {
        r == Err::<TokenStep, SolidError>(SolidError::TokenExpired)
    } else {
        match r {
            Ok(TokenStep::Fresh) => false,
            Ok(TokenStep::Refresh(req)) => exists|scalar: Seq<u8>| #[trigger]
                is_key_of(scalar, s.key@) && is_refresh_request(req, s, scalar),
            Err(e) => is_stored_key_failure(e, s.key@, "POST"@, s.token_endpoint@, None),
        }
    }
}

/// How a session comes out of taking over tokens granted at a given time: with
/// the tokens, or as it was where the expiry cannot be written down.
pub open spec fn is_token_taken_at(
    before: Session,
    t: TokenResp,
    now: u64,
    r: Result<(), SolidError>,
    after: Session,
) -> bool {
    if now + token_lifetime(t.expires_in) <= u64::MAX {
        r is Ok && after == with_token(before, t, now)
    } else {
        r == Err::<(), SolidError>(SolidError::ExpiryOverflow) && after == before
    }
}

/// How a session comes out of taking over tokens granted at the time that the
/// clock shows; it stays as it was where the clock stands before the epoch.
pub open spec fn is_token_taken(
    before: Session,
    t: TokenResp,
    r: Result<(), SolidError>,
    after: Session,
) -> bool {
    exists|at: SystemTime|
        match #[trigger] clock::epoch_seconds(at) {
            Ok(now) => is_token_taken_at(before, t, now, r, after),
            Err(c) => r == Err::<(), SolidError>(c) && after == before,
        }
}

/// Take over granted tokens at a given time.
pub fn apply_token_at(s: &mut Session, t: TokenResp, now: u64) -> (r: Result<(), SolidError>)
    ensures
        is_token_taken_at(*old(s), t, now, r, *final(s)),
{
    let granted: u64 = match t.expires_in {
        Some(n) => n,
        None => 3600,
    };
    let lifetime: u64 = if granted > 30 {
        granted - 30
    } else {
        0
    };
    if lifetime > u64::MAX - now {
        return Err(SolidError::ExpiryOverflow);
    }
    s.access_token = t.access_token;
    s.expires_at = now + lifetime;
    if t.refresh_token.is_some() {
        s.refresh_token = t.refresh_token;
    }
    Ok(())
}

/// Take over tokens granted just now.
pub fn apply_token(s: &mut Session, t: TokenResp) -> (r: Result<(), SolidError>)
    ensures
        is_token_taken(*old(s), t, r, *final(s)),
{
    match clock::now() {
        Err(e) => Err(e),
        Ok(now) => apply_token_at(s, t, now),
    }
}

/// A field of a form.
pub(crate) fn field(name: &str, value: &str) -> (f: (String, String))
    ensures
        f.0@ == name@,
        f.1@ == value@,
{
    (name.to_owned(), value.to_owned())
}

/// The basic authentication of a client.
pub(crate) fn client_auth(id: &String, secret: &Option<String>) -> (basic: Option<
    (String, String),
>)
    ensures
        is_client_auth(basic, id@, text::opt_text(*secret)),
{
    match secret {
        Some(sec) => Some((id.clone(), sec.clone())),
        None => None,
    }
}

/// A proof for a request with a key that is kept as text.
pub(crate) fn prove_with(
    key_text: &str,
    method: &str,
    url: &str,
    token: Option<&str>,
) -> (r: Result<String, SolidError>)
    requires
        key::is_key_sized(key_text@),
    ensures
        match r {
            Ok(p) => exists|scalar: Seq<u8>| #[trigger]
                is_key_of(scalar, key_text@) && dpop::is_proof(
                    p@,
                    scalar,
                    method@,
                    url@,
                    text::opt_str(token),
                ),
            Err(e) => is_stored_key_failure(e, key_text@, method@, url@, text::opt_str(token)),
        },
{
    match key::key_from_b64(key_text) {
        Err(e) => Err(e),
        Ok(k) => {
            assert(is_key_of(k@, key_text@));
            dpop::dpop_proof(&k, method, url, token)
        },
    }
}

/// The request that asks to renew the access token of a session, with a given
/// refresh token and a given proof.
pub fn proved_refresh(s: &Session, refresh_token: &str, dpop: String) -> (req: TokenRequest)
    ensures
        is_proved_refresh(req, *s, refresh_token@, dpop@),
{
    let mut form: Vec<(String, String)> = Vec::new();
    form.push(field("grant_type", "refresh_token"));
    form.push(field("refresh_token", refresh_token));
    form.push(field("scope", SCOPE));
    form.push(field("client_id", s.client_id.as_str()));
    assert(form_texts(form@) =~= refresh_form(refresh_token@, s.client_id@));
    TokenRequest {
        endpoint: s.token_endpoint.clone(),
        dpop,
        form,
        basic: client_auth(&s.client_id, &s.client_secret),
    }
}

/// A new token is to be asked for at this time, and can be.
pub open spec fn is_refresh_due(s: Session, now: u64) -> bool {
    !is_fresh(s, now) && s.refresh_token is Some
}

/// What is to be done at a given time before the access token can be used:
/// nothing while it is fresh, else to ask for a new one. A stored key of the
/// wrong length is only a concern where a new token is to be asked for.
pub fn fresh_token_at(s: &Session, now: u64) -> (r: Result<TokenStep, SolidError>)
    requires
        is_refresh_due(*s, now) ==> key::is_key_sized(s.key@),
    ensures
        is_token_step(r, *s, now),
{
    if now < s.expires_at {
        return Ok(TokenStep::Fresh);
    }
    match &s.refresh_token {
        None => Err(SolidError::TokenExpired),
        Some(refresh_token) => {
            let dpop = prove_with(s.key.as_str(), "POST", s.token_endpoint.as_str(), None)?;
            Ok(TokenStep::Refresh(proved_refresh(s, refresh_token.as_str(), dpop)))
        },
    }
}

/// What is to be done before the access token can be used, at the time that the
/// clock shows. A stored key of the wrong length is an error where a new token
/// is to be asked for.
pub fn fresh_token(s: &Session) -> (r: Result<TokenStep, SolidError>)
    ensures
        exists|at: SystemTime|
            match #[trigger] clock::epoch_seconds(at) {
                Ok(now) => if is_refresh_due(*s, now) && !key::is_key_sized(s.key@) {
                    r == Err::<TokenStep, SolidError>(SolidError::KeyLength)
                } else {
                    is_token_step(r, *s, now)
                },
                Err(c) => r == Err::<TokenStep, SolidError>(c),
            },
{
    match clock::now() {
        Err(e) => Err(e),
        Ok(now) => {
            if now >= s.expires_at && s.refresh_token.is_some() && !key::can_be_key(
                s.key.as_str(),
            ) {
                return Err(SolidError::KeyLength);
            }
            fresh_token_at(s, now)
        },
    }
}

/// Take over the answer that a refresh got at a given time: a refusal leaves the
/// session as it was.
pub fn accept_refresh_at(
    s: &mut Session,
    reply: TokenReply,
    now: u64,
) -> (r: Result<(), SolidError>)
    ensures
        match reply {
            TokenReply::Granted(t) => is_token_taken_at(*old(s), t, now, r, *final(s)),
            TokenReply::Refused(body) => {
                &&& r == Err::<(), SolidError>(SolidError::RefreshFailed(body))
                &&& *final(s) == *old(s)
            },
        },
{
    match reply {
        TokenReply::Granted(t) => apply_token_at(s, t, now),
        TokenReply::Refused(body) => Err(SolidError::RefreshFailed(body)),
    }
}

/// Take over the answer that a refresh got just now: a refusal leaves the
/// session as it was.
pub fn accept_refresh(s: &mut Session, reply: TokenReply) -> (r: Result<(), SolidError>)
    ensures
        match reply {
            TokenReply::Granted(t) => is_token_taken(*old(s), t, r, *final(s)),
            TokenReply::Refused(body) => {
                &&& r == Err::<(), SolidError>(SolidError::RefreshFailed(body))
                &&& *final(s) == *old(s)
            },
        },
{
    match reply {
        TokenReply::Granted(t) => apply_token(s, t),
        TokenReply::Refused(body) => Err(SolidError::RefreshFailed(body)),
    }
}

/// Where the stored text is a key, nothing but the proof itself can fail.
pub proof fn law_good_key_fails_only_in_the_proof(
    e: SolidError,
    key_text: Seq<char>,
    scalar: Seq<u8>,
    method: Seq<char>,
    url: Seq<char>,
    token: Option<Seq<char>>,
)
    requires
        is_key_of(scalar, key_text),
        is_stored_key_failure(e, key_text, method, url, token),
    ensures
        dpop::is_proof_failure(e, scalar, method, url, token),
{
    assert(b64::b64url(scalar) == key_text);
    let k = choose|k: Seq<u8>| #[trigger]
        is_key_of(k, key_text) && dpop::is_proof_failure(e, k, method, url, token);
    b64::law_b64url_injective(k, scalar);
}

/// An expired token is renewed: with a refresh token and a good key a refresh is
/// asked for, unless the proof itself fails.
pub proof fn law_expired_token_is_renewed(
    r: Result<TokenStep, SolidError>,
    s: Session,
    now: u64,
    scalar: Seq<u8>,
)
    requires
        is_refresh_due(s, now),
        is_key_of(scalar, s.key@),
        is_token_step(r, s, now),
    ensures
        match r {
            Ok(TokenStep::Fresh) => false,
            Ok(TokenStep::Refresh(req)) => is_refresh_request(req, s, scalar),
            Err(e) => dpop::is_proof_failure(e, scalar, "POST"@, s.token_endpoint@, None),
        },
{
    match r {
        Ok(TokenStep::Fresh) => {},
        Ok(TokenStep::Refresh(req)) => {
            let k = choose|k: Seq<u8>| #[trigger]
                is_key_of(k, s.key@) && is_refresh_request(req, s, k);
            b64::law_b64url_injective(k, scalar);
        },
        Err(e) => {
            law_good_key_fails_only_in_the_proof(
                e,
                s.key@,
                scalar,
                "POST"@,
                s.token_endpoint@,
                None,
            );
        },
    }
}

/// A token that was taken over is fresh for exactly its lifetime, and then no
/// more.
pub proof fn law_fresh_for_its_lifetime(s: Session, t: TokenResp, now: u64, later: u64)
    requires
        now + token_lifetime(t.expires_in) <= u64::MAX,
    ensures
        is_fresh(with_token(s, t, now), later) <==> later < now + token_lifetime(t.expires_in),
{
}

/// A token is never used in the last thirty seconds of the time it was granted
/// for.
pub proof fn law_never_used_late(s: Session, t: TokenResp, now: u64, later: u64)
    requires
        now + token_lifetime(t.expires_in) <= u64::MAX,
        t.expires_in is Some,
        now <= later,
        is_fresh(with_token(s, t, now), later),
    ensures
        later + 30 < now + t.expires_in->0,
{
}

/// A token that was granted for thirty seconds or less is over at once.
pub proof fn law_short_grant_is_over_at_once(s: Session, t: TokenResp, now: u64)
    requires
        t.expires_in is Some,
        t.expires_in->0 <= 30,
    ensures
        with_token(s, t, now).expires_at == now,
        !is_fresh(with_token(s, t, now), now),
{
}

/// Taking over tokens changes nothing but the tokens and their expiry, and once
/// a session can be renewed it stays so.
pub proof fn law_token_changes_nothing_else(s: Session, t: TokenResp, now: u64)
    ensures
        ({
            let after = with_token(s, t, now);
            &&& after.issuer == s.issuer
            &&& after.base == s.base
            &&& after.token_endpoint == s.token_endpoint
            &&& after.client_id == s.client_id
            &&& after.client_secret == s.client_secret
            &&& after.key == s.key
            &&& t.refresh_token is None ==> after.refresh_token == s.refresh_token
            &&& s.refresh_token is Some ==> after.refresh_token is Some
        }),
{
}

/// Of two grants only the later one counts, but for the refresh token, which is
/// the last one that was granted.
pub proof fn law_last_grant_counts(s: Session, a: TokenResp, b: TokenResp, t0: u64, t1: u64)
    ensures
        b.refresh_token is Some ==> with_token(with_token(s, a, t0), b, t1) == with_token(s, b, t1),
        b.refresh_token is None ==> with_token(with_token(s, a, t0), b, t1) == with_token(
            s,
            (TokenResp { refresh_token: a.refresh_token, ..b }),
            t1,
        ),
{
}

/// How granted tokens change a session, told from what was granted: a token that
/// was granted for a number of seconds, or for an hour where none is given,
/// expires thirty seconds before its time is up, but not before now.
pub proof fn law_tokens_are_taken_over(
    before: Session,
    t: TokenResp,
    now: u64,
    r: Result<(), SolidError>,
    after: Session,
)
    requires
        is_token_taken_at(before, t, now, r, after),
    ensures
        ({
            let n = match t.expires_in {
                Some(n) => n as int,
                None => 3600,
            };
            let end = if n > 30 {
                now + n - 30
            } else {
                now as int
            };
            &&& end <= u64::MAX ==> {
                &&& r is Ok
                &&& after.expires_at == end
                &&& after.access_token == t.access_token
                &&& t.refresh_token is Some ==> after.refresh_token == t.refresh_token
                &&& t.refresh_token is None ==> after.refresh_token == before.refresh_token
                &&& after.issuer == before.issuer
                &&& after.base == before.base
                &&& after.token_endpoint == before.token_endpoint
                &&& after.client_id == before.client_id
                &&& after.client_secret == before.client_secret
                &&& after.key == before.key
            }
            &&& end > u64::MAX ==> r == Err::<(), SolidError>(SolidError::ExpiryOverflow) && after
                == before
        }),
{
}

/// A token is used for as long as it should be: one that was granted for `n`
/// seconds can be used from the grant on until thirty seconds before the `n`
/// seconds are over, and one that was granted without a time for an hour less
/// thirty seconds.
pub proof fn law_token_is_used_while_it_lasts(
    before: Session,
    t: TokenResp,
    now: u64,
    r: Result<(), SolidError>,
    after: Session,
    step: Result<TokenStep, SolidError>,
    later: u64,
)
    requires
        is_token_taken_at(before, t, now, r, after),
        r is Ok,
        is_token_step(step, after, later),
    ensures
        t.expires_in is Some && t.expires_in->0 > 30 ==> (step matches Ok(TokenStep::Fresh)
            <==> later < now + t.expires_in->0 - 30),
        t.expires_in is Some && t.expires_in->0 <= 30 && now <= later ==> !(step matches Ok(
            TokenStep::Fresh,
        )),
        t.expires_in is None ==> (step matches Ok(TokenStep::Fresh) <==> later < now + 3570),
{
}

/// Tokens are taken over as of the time that the clock shows, if it shows one.
pub proof fn law_tokens_are_taken_over_now(
    before: Session,
    t: TokenResp,
    r: Result<(), SolidError>,
    after: Session,
)
    requires
        is_token_taken(before, t, r, after),
    ensures
        exists|at: SystemTime|
            match #[trigger] clock::epoch_distance(at) {
                Some(d) => is_token_taken_at(before, t, clock::whole_seconds(d), r, after),
                None => r == Err::<(), SolidError>(SolidError::ClockBeforeEpoch) && after == before,
            },
{
    let at = choose|at: SystemTime|
        match #[trigger] clock::epoch_seconds(at) {
            Ok(now) => is_token_taken_at(before, t, now, r, after),
            Err(c) => r == Err::<(), SolidError>(c) && after == before,
        };
    assert(clock::epoch_distance(at) is Some || clock::epoch_distance(at) is None);
}

/// What is to be done before the access token is used: nothing before it expires;
/// then to log in again where there is no refresh token; and else to renew it.
pub proof fn law_token_step(r: Result<TokenStep, SolidError>, s: Session, now: u64)
    requires
        is_token_step(r, s, now),
    ensures
        now < s.expires_at ==> r matches Ok(TokenStep::Fresh),
        now >= s.expires_at ==> !(r matches Ok(TokenStep::Fresh)),
        now >= s.expires_at && s.refresh_token is None ==> r == Err::<TokenStep, SolidError>(
            SolidError::TokenExpired,
        ),
        is_refresh_due(s, now) <==> now >= s.expires_at && s.refresh_token is Some,
        is_fresh(s, now) <==> now < s.expires_at,
        r matches Ok(TokenStep::Refresh(req)) ==> s.refresh_token is Some && is_proved_refresh(
            req,
            s,
            s.refresh_token->0@,
            req.dpop@,
        ),
        r matches Err(e) ==> s.refresh_token is None || is_stored_key_failure(
            e,
            s.key@,
            "POST"@,
            s.token_endpoint@,
            None,
        ),
{
}

/// A refresh is proved with the key of the session, for the token endpoint, and
/// is not bound to the token that it replaces.
pub proof fn law_refresh_is_proved(r: Result<TokenStep, SolidError>, s: Session, now: u64)
    requires
        is_token_step(r, s, now),
    ensures
        r matches Ok(TokenStep::Refresh(req)) ==> exists|scalar: Seq<u8>|
            b64::b64url(scalar) == s.key@ && #[trigger] dpop::is_proof(
                req.dpop@,
                scalar,
                "POST"@,
                s.token_endpoint@,
                None,
            ),
{
}

/// What a refresh sends: the refresh token and the client to the token endpoint,
/// with the proof, and the client's secret if it has one.
pub proof fn law_refresh_sends(
    req: TokenRequest,
    s: Session,
    refresh_token: Seq<char>,
    dpop: Seq<char>,
)
    requires
        is_proved_refresh(req, s, refresh_token, dpop),
    ensures
        req.endpoint@ == s.token_endpoint@,
        req.dpop@ == dpop,
        req.form@.len() == 4,
        req.form@[0].0@ == "grant_type"@ && req.form@[0].1@ == "refresh_token"@,
        req.form@[1].0@ == "refresh_token"@ && req.form@[1].1@ == refresh_token,
        req.form@[2].0@ == "scope"@ && req.form@[2].1@ == "openid webid offline_access"@,
        req.form@[3].0@ == "client_id"@ && req.form@[3].1@ == s.client_id@,
        match (req.basic, s.client_secret) {
            (Some((user, password)), Some(secret)) => user@ == s.client_id@ && password@ == secret@,
            (None, None) => true,
            _ => false,
        },
{
    law_form_texts(req.form@);
    let sent = form_texts(req.form@);
    assert(sent[0] == ("grant_type"@, "refresh_token"@));
    assert(sent[1] == ("refresh_token"@, refresh_token));
    assert(sent[2] == ("scope"@, SCOPE@));
    assert(sent[3] == ("client_id"@, s.client_id@));
}

/// The fields of a form are those of its pairs, in order.
pub proof fn law_form_texts(form: Seq<(String, String)>)
    ensures
        form_texts(form).len() == form.len(),
        forall|i: int|
            0 <= i < form.len() ==> #[trigger] form_texts(form)[i] == (form[i].0@, form[i].1@),
{
}

/// A stored text that is no key makes every proof fail, in the words of whoever
/// refuses it.
pub proof fn law_bad_key_is_refused(
    e: SolidError,
    key_text: Seq<char>,
    method: Seq<char>,
    url: Seq<char>,
    token: Option<Seq<char>>,
)
    requires
        is_stored_key_failure(e, key_text, method, url, token),
        !key::is_key_text(key_text),
    ensures
        e.text() == if b64::is_b64url(key_text) {
            "signature error"@
        } else {
            b64::decode_refusal(key_text)
        },
{
    key::law_key_text(key_text, Seq::empty(), e);
    assert forall|scalar: Seq<u8>| !#[trigger] is_key_of(scalar, key_text) by {
        if is_key_of(scalar, key_text) {
            assert(b64::b64url(scalar) == key_text);
        }
    }
}

} // verus!
