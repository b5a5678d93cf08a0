//! Requests to a pod, and what is made of its answers.
use vstd::prelude::*;
use crate::b64;
use crate::dpop;
use crate::error::SolidError;
use crate::key;
use crate::percent;
use crate::resource;
use crate::session;
use crate::session::Session;
use crate::text;
use crate::turtle;

verus! {

/// A request, but for its body.
pub struct Request {
    pub method: String,
    pub url: String,
    pub headers: Vec<(String, String)>,
}

/// The headers of a request in the name of a session: the access token, a proof,
/// and one more header if there is one.
pub open spec fn authed_headers(
    token: Seq<char>,
    dpop: Seq<char>,
    extra: Option<(Seq<char>, Seq<char>)>,
) -> Seq<(Seq<char>, Seq<char>)> {
    let both = seq![("Authorization"@, "DPoP "@ + token), ("DPoP"@, dpop)];
    match extra {
        Some(header) => both.push(header),
        None => both,
    }
}

/// The texts of an optional header.
pub open spec fn header_texts(header: Option<(String, String)>) -> Option<
    (Seq<char>, Seq<char>),
> {
    match header {
        Some((name, value)) => Some((name@, value@)),
        None => None,
    }
}

/// How a request in the name of a session comes out: with a proof by the
/// session's key that is bound to the request and to the access token, or with
/// the reason why there is no such proof.
pub open spec fn is_authed(
    r: Result<Request, SolidError>,
    s: Session,
    method: Seq<char>,
    url: Seq<char>,
    extra: Option<(Seq<char>, Seq<char>)>,
) -> bool {
    match r {
        Ok(req) => {
            &&& req.method@ == method
            &&& req.url@ == url
            &&& exists|scalar: Seq<u8>, p: Seq<char>|
                session::is_key_of(scalar, s.key@) && session::form_texts(req.headers@)
                    == authed_headers(s.access_token@, p, extra) && #[trigger] dpop::is_proof(
                    p,
                    scalar,
                    method,
                    url,
                    Some(s.access_token@),
                )
        },
        Err(e) => session::is_stored_key_failure(
            e,
            s.key@,
            method,
            url,
            Some(s.access_token@),
        ),
    }
}

/// A request in the name of a session, with a given proof and one more header.
pub fn proved_request(
    s: &Session,
    method: &str,
    url: &str,
    extra: Option<(String, String)>,
    dpop: String,
) -> (req: Request)
    ensures
        req.method@ == method@,
        req.url@ == url@,
        session::form_texts(req.headers@) == authed_headers(
            s.access_token@,
            dpop@,
            header_texts(extra),
        ),
{
    let mut headers: Vec<(String, String)> = Vec::new();
    headers.push(
        ("Authorization".to_owned(), "DPoP ".to_owned().concat(s.access_token.as_str())),
    );
    headers.push(("DPoP".to_owned(), dpop));
    if let Some(header) = extra {
        headers.push(header);
    }
    assert(session::form_texts(headers@) =~= authed_headers(
        s.access_token@,
        dpop@,
        header_texts(extra),
    ));
    Request { method: method.to_owned(), url: url.to_owned(), headers }
}

/// A request in the name of a session, with one more header.
fn request_with(
    s: &Session,
    method: &str,
    url: &str,
    extra: Option<(String, String)>,
) -> (r: Result<Request, SolidError>)
    requires
        key::is_key_sized(s.key@),
    ensures
        is_authed(r, *s, method@, url@, header_texts(extra)),
{
    let dpop = session::prove_with(s.key.as_str(), method, url, Some(s.access_token.as_str()))?;
    Ok(proved_request(s, method, url, extra, dpop))
}

/// A request in the name of a session, with an optional `Accept` header.
pub fn authed_with(
    s: &Session,
    method: &str,
    url: &str,
    accept: Option<&str>,
) -> (r: Result<Request, SolidError>)
    requires
        key::is_key_sized(s.key@),
    ensures
        is_authed(
            r,
            *s,
            method@,
            url@,
            match accept {
                Some(a) => Some(("Accept"@, a@)),
                None => None,
            },
        ),
{
    let extra: Option<(String, String)> = match accept {
        Some(a) => Some(session::field("Accept", a)),
        None => None,
    };
    request_with(s, method, url, extra)
}

/// A request in the name of a session.
pub fn authed(s: &Session, method: &str, url: &str) -> (r: Result<Request, SolidError>)
    requires
        key::is_key_sized(s.key@),
    ensures
        is_authed(r, *s, method@, url@, None),
{
    authed_with(s, method, url, None)
}

/// The request that lists a container.
pub fn ls_request(s: &Session, path: &str) -> (r: Result<Request, SolidError>)
    requires
        key::is_key_sized(s.key@),
    ensures
        is_authed(
            r,
            *s,
            "GET"@,
            resource::container(resource::resolved(s.base@, path@)),
            Some(("Accept"@, "text/turtle"@)),
        ),
{
    let url = resource::container_url(s.base.as_str(), path);
    authed_with(s, "GET", url.as_str(), Some("text/turtle"))
}

/// The request that reads a resource.
pub fn cat_request(s: &Session, path: &str) -> (r: Result<Request, SolidError>)
    requires
        key::is_key_sized(s.key@),
    ensures
        is_authed(r, *s, "GET"@, resource::resolved(s.base@, path@), None),
{
    let url = resource::resolve(s.base.as_str(), path);
    authed(s, "GET", url.as_str())
}

/// The request that writes a resource, with the media type given or guessed.
pub fn put_request(
    s: &Session,
    path: &str,
    content_type: Option<String>,
) -> (r: Result<Request, SolidError>)
    requires
        key::is_key_sized(s.key@),
    ensures
        ({
            let url = resource::resolved(s.base@, path@);
            is_authed(
                r,
                *s,
                "PUT"@,
                url,
                Some(
                    (
                        "Content-Type"@,
                        match content_type {
                            Some(given) => given@,
                            None => resource::media_type(text::after_last(url, '.')),
                        },
                    ),
                ),
            )
        }),
{
    let url = resource::resolve(s.base.as_str(), path);
    let ct = resource::content_type(content_type, url.as_str());
    request_with(s, "PUT", url.as_str(), Some(session::field("Content-Type", ct.as_str())))
}

/// The request that deletes a resource.
pub fn rm_request(s: &Session, path: &str) -> (r: Result<Request, SolidError>)
    requires
        key::is_key_sized(s.key@),
    ensures
        is_authed(r, *s, "DELETE"@, resource::resolved(s.base@, path@), None),
{
    let url = resource::resolve(s.base.as_str(), path);
    authed(s, "DELETE", url.as_str())
}

/// The body of an answer, if the answer is a success.
pub fn expect_success(
    success: bool,
    status: String,
    body: String,
) -> (r: Result<String, SolidError>)
    ensures
        r == if success {
            Ok::<String, SolidError>(body)
        } else {
            Err(SolidError::Status { status, body })
        },
{
    if success {
        Ok(body)
    } else {
        Err(SolidError::Status { status, body })
    }
}

/// What is shown for a container, given its URL and the answer to its listing.
pub fn ls_reply(
    url: &str,
    success: bool,
    status: String,
    body: String,
) -> (r: Result<Vec<String>, SolidError>)
    ensures
        match r {
            Ok(lines) => success && text::texts(lines@) == turtle::children(body@).map_values(
                |child: Seq<char>| resource::shown_name(url@, child),
            ),
            Err(e) => !success && e == (SolidError::Status { status, body }),
        },
{
    match expect_success(success, status, body) {
        Ok(ttl) => Ok(resource::listing(url, ttl.as_str())),
        Err(e) => Err(e),
    }
}

/// The bytes of a resource, given the answer to its request. The bytes of a
/// failure are shown as text.
pub fn cat_reply(
    success: bool,
    status: String,
    bytes: Vec<u8>,
) -> (r: Result<Vec<u8>, SolidError>)
    ensures
        match r {
            Ok(b) => success && b == bytes,
            Err(SolidError::Status { status: st, body }) => !success && st == status && body@
                == percent::utf8_lossy(bytes@),
            Err(_) => false,
        },
{
    if success {
        Ok(bytes)
    } else {
        Err(SolidError::Status { status, body: percent::from_utf8_lossy(&bytes) })
    }
}

/// A session with a good key gets its request, with a proof by that key, unless
/// the proof itself fails.
pub proof fn law_good_key_gets_its_request(
    r: Result<Request, SolidError>,
    s: Session,
    method: Seq<char>,
    url: Seq<char>,
    extra: Option<(Seq<char>, Seq<char>)>,
    scalar: Seq<u8>,
)
    requires
        session::is_key_of(scalar, s.key@),
        is_authed(r, s, method, url, extra),
    ensures
        match r {
            Ok(req) => exists|p: Seq<char>|
                session::form_texts(req.headers@) == authed_headers(s.access_token@, p, extra)
                    && #[trigger] dpop::is_proof(p, scalar, method, url, Some(s.access_token@)),
            Err(e) => dpop::is_proof_failure(e, scalar, method, url, Some(s.access_token@)),
        },
{
    match r {
        Ok(req) => {
            let (k, p) = choose|k: Seq<u8>, p: Seq<char>|
                session::is_key_of(k, s.key@) && session::form_texts(req.headers@)
                    == authed_headers(s.access_token@, p, extra) && #[trigger] dpop::is_proof(
                    p,
                    k,
                    method,
                    url,
                    Some(s.access_token@),
                );
            b64::law_b64url_injective(k, scalar);
        },
        Err(e) => {
            session::law_good_key_fails_only_in_the_proof(
                e,
                s.key@,
                scalar,
                method,
                url,
                Some(s.access_token@),
            );
        },
    }
}

/// The headers of a request: the access token, the proof, and the one more header
/// if there is one.
pub proof fn law_headers(
    headers: Seq<(String, String)>,
    token: Seq<char>,
    dpop: Seq<char>,
    extra: Option<(String, String)>,
)
    requires
        session::form_texts(headers) == authed_headers(token, dpop, header_texts(extra)),
    ensures
        headers.len() == if extra is Some {
            3int
        } else {
            2
        },
        headers[0].0@ == "Authorization"@ && headers[0].1@ == "DPoP "@ + token,
        headers[1].0@ == "DPoP"@ && headers[1].1@ == dpop,
        match extra {
            Some((name, value)) => headers[2].0@ == name@ && headers[2].1@ == value@,
            None => true,
        },
{
    session::law_form_texts(headers);
    let sent = session::form_texts(headers);
    assert(sent[0] == ("Authorization"@, "DPoP "@ + token));
    assert(sent[1] == ("DPoP"@, dpop));
    if let Some((name, value)) = extra {
        assert(sent[2] == (name@, value@));
    }
}

/// A request goes where it should with the method that it should have, carries
/// the session's access token, a proof for exactly this method, URL and token by
/// the session's key, and the one more header if there is one.
pub proof fn law_request_carries(
    r: Result<Request, SolidError>,
    s: Session,
    method: Seq<char>,
    url: Seq<char>,
    extra: Option<(Seq<char>, Seq<char>)>,
)
    requires
        is_authed(r, s, method, url, extra),
    ensures
        r matches Ok(req) ==> {
            &&& req.method@ == method
            &&& req.url@ == url
            &&& req.headers@.len() == if extra is Some {
                3int
            } else {
                2
            }
            &&& req.headers@[0].0@ == "Authorization"@
            &&& req.headers@[0].1@ == "DPoP "@ + s.access_token@
            &&& req.headers@[1].0@ == "DPoP"@
            &&& exists|scalar: Seq<u8>|
                b64::b64url(scalar) == s.key@ && #[trigger] dpop::is_proof(
                    req.headers@[1].1@,
                    scalar,
                    method,
                    url,
                    Some(s.access_token@),
                )
            &&& extra matches Some((name, value)) ==> req.headers@[2].0@ == name
                && req.headers@[2].1@ == value
        },
        r matches Err(e) ==> session::is_stored_key_failure(
            e,
            s.key@,
            method,
            url,
            Some(s.access_token@),
        ),
{
    if let Ok(req) = r {
        session::law_form_texts(req.headers@);
        let sent = session::form_texts(req.headers@);
        let (scalar, p) = choose|scalar: Seq<u8>, p: Seq<char>|
            session::is_key_of(scalar, s.key@) && sent == authed_headers(
                s.access_token@,
                p,
                extra,
            ) && #[trigger] dpop::is_proof(p, scalar, method, url, Some(s.access_token@));
        assert(sent[0] == ("Authorization"@, "DPoP "@ + s.access_token@));
        assert(sent[1] == ("DPoP"@, p));
        if let Some(header) = extra {
            assert(sent[2] == header);
        }
        assert(dpop::is_proof(
            req.headers@[1].1@,
            scalar,
            method,
            url,
            Some(s.access_token@),
        ));
    }
}

} // verus!
