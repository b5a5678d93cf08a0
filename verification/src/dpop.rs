//! Proofs of possession: the signed statements that bind a request, and
//! optionally an access token, to a key.
use vstd::prelude::*;
use vstd::utf8;
use crate::b64;
use crate::clock;
use crate::crypto;
use crate::error::SolidError;
use crate::json;
use crate::key;
use crate::key::DpopKey;
use crate::text;

verus! {

/// The public key of a proof, as the entries of a JSON Web Key.
pub open spec fn jwk(point: (Seq<u8>, Seq<u8>)) -> Seq<(Seq<char>, Seq<char>)> {
    seq![
        ("crv"@, json::quoted("P-256"@)),
        ("kty"@, json::quoted("EC"@)),
        ("x"@, json::quoted(b64::b64url(point.0))),
        ("y"@, json::quoted(b64::b64url(point.1))),
    ]
}

/// The entries of a proof's header.
pub open spec fn header(point: (Seq<u8>, Seq<u8>)) -> Seq<(Seq<char>, Seq<char>)> {
    seq![
        ("alg"@, json::quoted("ES256"@)),
        ("jwk"@, json::object_text(jwk(point))),
        ("typ"@, json::quoted("dpop+jwt"@)),
    ]
}

/// The entries of a proof's payload: the request's method and URL, when the
/// proof was made, its identifier, and the hash of the access token if it is
/// bound to one.
pub open spec fn claims(
    method: Seq<char>,
    url: Seq<char>,
    token: Option<Seq<char>>,
    jti: Seq<char>,
    iat: u64,
) -> Seq<(Seq<char>, Seq<char>)> {
    let unbound = seq![
        ("htm"@, json::quoted(method)),
        ("htu"@, json::quoted(url)),
        ("iat"@, json::decimal(iat as nat)),
        ("jti"@, json::quoted(jti)),
    ];
    match token {
        Some(t) => seq![("ath"@, json::quoted(crypto::s256_text(t)))] + unbound,
        None => unbound,
    }
}

/// A JSON object as a segment of a token.
pub open spec fn segment(entries: Seq<(Seq<char>, Seq<char>)>) -> Seq<char> {
    b64::b64url(utf8::encode_utf8(json::object_text(entries)))
}

/// What is signed: the header and the payload, with a dot between them.
pub open spec fn signing_input(
    scalar: Seq<u8>,
    method: Seq<char>,
    url: Seq<char>,
    token: Option<Seq<char>>,
    jti: Seq<char>,
    iat: u64,
) -> Seq<char> {
    segment(header(key::public_point(scalar))) + seq!['.'] + segment(
        claims(method, url, token, jti, iat),
    )
}

/// The signature of a proof, if there is one.
pub open spec fn signature(
    scalar: Seq<u8>,
    method: Seq<char>,
    url: Seq<char>,
    token: Option<Seq<char>>,
    jti: Seq<char>,
    iat: u64,
) -> Option<Seq<u8>> {
    key::es256_signature(
        scalar,
        utf8::encode_utf8(signing_input(scalar, method, url, token, jti, iat)),
    )
}

/// `p` is the proof for a request with a given identifier and time: what is
/// signed, a dot, and the signature of sixty-four bytes, which is accepted under the key that the
/// header carries.
pub open spec fn is_proof_at(
    p: Seq<char>,
    scalar: Seq<u8>,
    method: Seq<char>,
    url: Seq<char>,
    token: Option<Seq<char>>,
    jti: Seq<char>,
    iat: u64,
) -> bool {
    let input = signing_input(scalar, method, url, token, jti, iat);
    &&& signature(scalar, method, url, token, jti, iat) matches Some(sig)
    &&& sig.len() == 64
    &&& p == input + seq!['.'] + b64::b64url(sig)
    &&& key::es256_accepts(key::public_point(scalar), utf8::encode_utf8(input), sig)
}

/// `p` is a proof for a request, with an identifier of sixteen random bytes and
/// the time that the clock showed.
pub open spec fn is_proof(
    p: Seq<char>,
    scalar: Seq<u8>,
    method: Seq<char>,
    url: Seq<char>,
    token: Option<Seq<char>>,
) -> bool {
    exists|jti: Seq<char>, iat: u64|
        crypto::is_random_text(jti, 16) && clock::is_reading(iat) && #[trigger] is_proof_at(
            p,
            scalar,
            method,
            url,
            token,
            jti,
            iat,
        )
}

/// Why no proof could be made: the clock stood before the epoch, or there is no
/// signature for the identifier drawn and the time that the clock showed.
pub open spec fn is_proof_failure(
    e: SolidError,
    scalar: Seq<u8>,
    method: Seq<char>,
    url: Seq<char>,
    token: Option<Seq<char>>,
) -> bool {
    ||| clock::is_clock_failure(e)
    ||| e == SolidError::Signing && exists|jti: Seq<char>, iat: u64|
        crypto::is_random_text(jti, 16) && clock::is_reading(iat) && #[trigger] signature(
            scalar,
            method,
            url,
            token,
            jti,
            iat,
        ) is None
}

/// The order of the member names of a proof's header.
proof fn lemma_header_names()
    ensures
        json::before("crv"@, "kty"@) && "crv"@ != "kty"@,
        !json::before("x"@, "crv"@) && "x"@ != "crv"@,
        !json::before("x"@, "kty"@) && "x"@ != "kty"@,
        !json::before("y"@, "crv"@) && "y"@ != "crv"@,
        !json::before("y"@, "kty"@) && "y"@ != "kty"@,
        !json::before("y"@, "x"@) && "y"@ != "x"@,
        json::before("alg"@, "typ"@) && "alg"@ != "typ"@,
        !json::before("jwk"@, "alg"@) && "jwk"@ != "alg"@,
        json::before("jwk"@, "typ"@) && "jwk"@ != "typ"@,
{
    reveal_strlit("crv");
    reveal_strlit("kty");
    reveal_strlit("x");
    reveal_strlit("y");
    reveal_strlit("alg");
    reveal_strlit("typ");
    reveal_strlit("jwk");
    assert("crv"@[0] == 'c');
    assert("kty"@[0] == 'k');
    assert("x"@[0] == 'x');
    assert("y"@[0] == 'y');
    assert("alg"@[0] == 'a');
    assert("typ"@[0] == 't');
    assert("jwk"@[0] == 'j');
}

/// The order of the claim names of a proof's payload.
proof fn lemma_claim_names()
    ensures
        json::before("htm"@, "htu"@) && "htm"@ != "htu"@,
        !json::before("jti"@, "htm"@) && "jti"@ != "htm"@,
        !json::before("jti"@, "htu"@) && "jti"@ != "htu"@,
        !json::before("iat"@, "htm"@) && "iat"@ != "htm"@,
        !json::before("iat"@, "htu"@) && "iat"@ != "htu"@,
        json::before("iat"@, "jti"@) && "iat"@ != "jti"@,
        json::before("ath"@, "htm"@) && "ath"@ != "htm"@,
        "ath"@ != "htu"@ && "ath"@ != "iat"@ && "ath"@ != "jti"@,
{
    reveal_strlit("htm");
    reveal_strlit("htu");
    reveal_strlit("jti");
    reveal_strlit("iat");
    reveal_strlit("ath");
    assert("jti"@[0] == 'j');
    assert("iat"@[0] == 'i');
    assert("ath"@[0] == 'a');
    assert("htm"@[0] == 'h' && "htm"@[1] == 't' && "htm"@[2] == 'm');
    assert("htu"@[0] == 'h' && "htu"@[1] == 't' && "htu"@[2] == 'u');
    let a = "htm"@.drop_first();
    let b = "htu"@.drop_first();
    assert(json::before(a.drop_first(), b.drop_first()));
    assert(json::before(a, b));
}

/// A JSON object as a segment of a token.
fn segment_of(
    o: &serde_json::Map<String, serde_json::Value>,
) -> (r: Result<String, SolidError>)
    ensures
        r is Ok,
        r->Ok_0@ == segment(json::json_entries(*o)),
{
    match json::object_bytes(o) {
        Ok(bytes) => Ok(b64::encode(bytes.as_slice())),
        Err(_) => Err(SolidError::Json),
    }
}

/// The header of a proof by this key.
fn header_of(key: &DpopKey) -> (o: serde_json::Map<String, serde_json::Value>)
    ensures
        json::json_entries(o) == header(key::public_point(key@)),
{
    let (x, y) = key.coordinates();
    let mut jwk = json::object();
    json::put_str(&mut jwk, "kty", "EC");
    json::put_str(&mut jwk, "crv", "P-256");
    json::put_str(&mut jwk, "x", b64::encode(x.as_slice()).as_str());
    json::put_str(&mut jwk, "y", b64::encode(y.as_slice()).as_str());
    proof {
        lemma_header_names();
        let e0 = Seq::<(Seq<char>, Seq<char>)>::empty();
        json::lemma_new_entry(e0, 0, "kty"@, json::quoted("EC"@));
        let e1 = e0.insert(0, ("kty"@, json::quoted("EC"@)));
        json::lemma_new_entry(e1, 0, "crv"@, json::quoted("P-256"@));
        let e2 = e1.insert(0, ("crv"@, json::quoted("P-256"@)));
        json::lemma_new_entry(e2, 2, "x"@, json::quoted(b64::b64url(x@)));
        let e3 = e2.insert(2, ("x"@, json::quoted(b64::b64url(x@))));
        json::lemma_new_entry(e3, 3, "y"@, json::quoted(b64::b64url(y@)));
        assert(e3.insert(3, ("y"@, json::quoted(b64::b64url(y@)))) =~= self::jwk((x@, y@)));
    }
    let mut header = json::object();
    json::put_str(&mut header, "typ", "dpop+jwt");
    json::put_str(&mut header, "alg", "ES256");
    json::put_object(&mut header, "jwk", jwk);
    proof {
        let e0 = Seq::<(Seq<char>, Seq<char>)>::empty();
        let inner = json::object_text(self::jwk((x@, y@)));
        json::lemma_new_entry(e0, 0, "typ"@, json::quoted("dpop+jwt"@));
        let e1 = e0.insert(0, ("typ"@, json::quoted("dpop+jwt"@)));
        json::lemma_new_entry(e1, 0, "alg"@, json::quoted("ES256"@));
        let e2 = e1.insert(0, ("alg"@, json::quoted("ES256"@)));
        json::lemma_new_entry(e2, 1, "jwk"@, inner);
        assert(e2.insert(1, ("jwk"@, inner)) =~= self::header((x@, y@)));
    }
    header
}

/// The payload of a proof.
fn claims_of(
    method: &str,
    url: &str,
    token: Option<&str>,
    jti: &str,
    iat: u64,
) -> (o: serde_json::Map<String, serde_json::Value>)
    ensures
        json::json_entries(o) == claims(method@, url@, text::opt_str(token), jti@, iat),
{
    let mut payload = json::object();
    json::put_str(&mut payload, "htu", url);
    json::put_str(&mut payload, "htm", method);
    json::put_str(&mut payload, "jti", jti);
    json::put_u64(&mut payload, "iat", iat);
    proof {
        lemma_claim_names();
        let e0 = Seq::<(Seq<char>, Seq<char>)>::empty();
        json::lemma_new_entry(e0, 0, "htu"@, json::quoted(url@));
        let e1 = e0.insert(0, ("htu"@, json::quoted(url@)));
        json::lemma_new_entry(e1, 0, "htm"@, json::quoted(method@));
        let e2 = e1.insert(0, ("htm"@, json::quoted(method@)));
        json::lemma_new_entry(e2, 2, "jti"@, json::quoted(jti@));
        let e3 = e2.insert(2, ("jti"@, json::quoted(jti@)));
        json::lemma_new_entry(e3, 2, "iat"@, json::decimal(iat as nat));
        let e4 = e3.insert(2, ("iat"@, json::decimal(iat as nat)));
        assert(e4 =~= claims(method@, url@, None, jti@, iat));
        if let Some(t) = token {
            let ath = json::quoted(crypto::s256_text(t@));
            json::lemma_new_entry(e4, 0, "ath"@, ath);
            assert(e4.insert(0, ("ath"@, ath)) =~= claims(method@, url@, Some(t@), jti@, iat));
        }
    }
    if let Some(t) = token {
        json::put_str(&mut payload, "ath", crypto::s256(t).as_str());
    }
    payload
}

/// The proof for a request with a given identifier and time.
pub fn dpop_proof_at(
    key: &DpopKey,
    method: &str,
    url: &str,
    token: Option<&str>,
    jti: &str,
    iat: u64,
) -> (r: Result<String, SolidError>)
    ensures
        match r {
            Ok(p) => is_proof_at(p@, key@, method@, url@, text::opt_str(token), jti@, iat),
            Err(e) => e == SolidError::Signing && signature(
                key@,
                method@,
                url@,
                text::opt_str(token),
                jti@,
                iat,
            ) is None,
        },
{
    let mut proof_text = segment_of(&header_of(key))?;
    proof_text.push('.');
    proof_text.append(segment_of(&claims_of(method, url, token, jti, iat))?.as_str());
    let ghost input = signing_input(key@, method@, url@, text::opt_str(token), jti@, iat);
    assert(proof_text@ =~= input);
    match key.signature(proof_text.as_str().as_bytes()) {
        Ok(sig) => {
            proof_text.push('.');
            proof_text.append(b64::encode(sig.as_slice()).as_str());
            assert(proof_text@ =~= input + seq!['.'] + b64::b64url(sig@));
            Ok(proof_text)
        },
        Err(e) => Err(e),
    }
}

/// A proof for a request made now, with a fresh identifier, optionally bound to
/// an access token.
pub fn dpop_proof(
    key: &DpopKey,
    method: &str,
    url: &str,
    token: Option<&str>,
) -> (r: Result<String, SolidError>)
    ensures
        match r {
            Ok(p) => is_proof(p@, key@, method@, url@, text::opt_str(token)),
            Err(e) => is_proof_failure(e, key@, method@, url@, text::opt_str(token)),
        },
{
    let jti = crypto::rand_b64(16);
    let iat: u64 = match clock::now() {
        Ok(secs) => secs,
        Err(e) => {
            return Err(e);
        },
    };
    dpop_proof_at(key, method, url, token, jti.as_str(), iat)
}

impl DpopKey {
    /// A proof by this key for a request made now.
    pub fn prove(
        &self,
        method: &str,
        url: &str,
        token: Option<&str>,
    ) -> (r: Result<String, SolidError>)
        ensures
            match r {
                Ok(p) => is_proof(p@, self@, method@, url@, text::opt_str(token)),
                Err(e) => is_proof_failure(e, self@, method@, url@, text::opt_str(token)),
            },
    {
        dpop_proof(self, method, url, token)
    }
}

/// A proof has three parts between its dots: the header, the payload and the
/// signature. The signature has sixty-four bytes, is one of the first two parts with the dot between
/// them, and is accepted under the public key of the key that made the proof.
pub proof fn law_proof_has_three_parts(
    p: Seq<char>,
    scalar: Seq<u8>,
    method: Seq<char>,
    url: Seq<char>,
    token: Option<Seq<char>>,
    jti: Seq<char>,
    iat: u64,
)
    requires
        is_proof_at(p, scalar, method, url, token, jti, iat),
    ensures
        ({
            let parts = text::pieces(p, '.');
            let point = key::public_point(scalar);
            let sig = signature(scalar, method, url, token, jti, iat)->0;
            &&& parts.len() == 3
            &&& parts[0] == segment(header(point))
            &&& parts[1] == segment(claims(method, url, token, jti, iat))
            &&& parts[2] == b64::b64url(sig)
            &&& sig.len() == 64
            &&& key::es256_accepts(
                point,
                utf8::encode_utf8(parts[0] + seq!['.'] + parts[1]),
                sig,
            )
        }),
{
    let point = key::public_point(scalar);
    let head = segment(header(point));
    let body = segment(claims(method, url, token, jti, iat));
    let sig = b64::b64url(signature(scalar, method, url, token, jti, iat)->0);
    b64::law_b64url_has_no_dot(utf8::encode_utf8(json::object_text(header(point))));
    b64::law_b64url_has_no_dot(
        utf8::encode_utf8(json::object_text(claims(method, url, token, jti, iat))),
    );
    b64::law_b64url_has_no_dot(signature(scalar, method, url, token, jti, iat)->0);
    let rest = body + seq!['.'] + sig;
    assert(p =~= head + seq!['.'] + rest);
    text::lemma_first_piece(head, rest, '.');
    text::lemma_first_piece(body, sig, '.');
    text::lemma_only_piece(sig, '.');
}

/// Whoever decodes a segment gets the JSON text that was put into it, and
/// nothing else decodes to it.
pub proof fn law_segment_decodes(entries: Seq<(Seq<char>, Seq<char>)>, bytes: Seq<u8>)
    ensures
        b64::is_b64url(segment(entries)),
        b64::b64url(bytes) == segment(entries) ==> bytes == utf8::encode_utf8(
            json::object_text(entries),
        ) && utf8::valid_utf8(bytes) && utf8::decode_utf8(bytes) == json::object_text(entries),
{
    let text = json::object_text(entries);
    if b64::b64url(bytes) == segment(entries) {
        b64::law_b64url_injective(bytes, utf8::encode_utf8(text));
        utf8::encode_utf8_valid_utf8(text);
        utf8::encode_utf8_decode_utf8(text);
    }
}

/// A proof carries the hash of the access token if it is bound to one, and no
/// token hash otherwise.
pub proof fn law_ath_iff_bound(
    method: Seq<char>,
    url: Seq<char>,
    token: Option<Seq<char>>,
    jti: Seq<char>,
    iat: u64,
)
    ensures
        token is None ==> forall|i: int|
            0 <= i < claims(method, url, token, jti, iat).len() ==> (#[trigger] claims(
                method,
                url,
                token,
                jti,
                iat,
            )[i]).0 != "ath"@,
        token matches Some(t) ==> claims(method, url, token, jti, iat).contains(
            ("ath"@, json::quoted(crypto::s256_text(t))),
        ),
{
    lemma_claim_names();
    let all = claims(method, url, token, jti, iat);
    if let Some(t) = token {
        assert(all[0] == ("ath"@, json::quoted(crypto::s256_text(t))));
    }
}

/// Members with string values, one after the other.
spec fn string_member(name: Seq<char>, value: Seq<char>, rest: Seq<char>) -> Seq<char> {
    json::quoted(name) + (seq![':'] + (json::quoted(value) + rest))
}

proof fn lemma_string_member(
    name: Seq<char>,
    v: Seq<char>,
    w: Seq<char>,
    x: Seq<char>,
    y: Seq<char>,
)
    requires
        string_member(name, v, x) == string_member(name, w, y),
    ensures
        v == w,
        x == y,
{
    let a = seq![':'] + (json::quoted(v) + x);
    let b = seq![':'] + (json::quoted(w) + y);
    json::law_quoted_is_unambiguous(name, name, a, b);
    assert(a.skip(1) =~= json::quoted(v) + x);
    assert(b.skip(1) =~= json::quoted(w) + y);
    json::law_quoted_is_unambiguous(v, w, x, y);
}

/// The members of a payload that carry no token hash.
spec fn unbound_text(
    method: Seq<char>,
    url: Seq<char>,
    jti: Seq<char>,
    iat: u64,
) -> Seq<char> {
    string_member(
        "htm"@,
        method,
        seq![','] + string_member(
            "htu"@,
            url,
            seq![','] + (json::quoted("iat"@) + (seq![':'] + (json::decimal(iat as nat) + (seq![',']
                + string_member("jti"@, jti, seq!['}']))))),
        ),
    )
}

proof fn lemma_payload_text(
    method: Seq<char>,
    url: Seq<char>,
    token: Option<Seq<char>>,
    jti: Seq<char>,
    iat: u64,
)
    ensures
        json::object_text(claims(method, url, token, jti, iat)) == seq!['{'] + match token {
            Some(t) => string_member(
                "ath"@,
                crypto::s256_text(t),
                seq![','] + unbound_text(method, url, jti, iat),
            ),
            None => unbound_text(method, url, jti, iat),
        },
{
    let c = claims(method, url, None, jti, iat);
    let c1 = c.drop_first();
    let c2 = c1.drop_first();
    let c3 = c2.drop_first();
    assert(c1[0] == c[1] && c2[0] == c[2] && c3[0] == c[3]);
    let close = seq!['}'];
    json::lemma_members(c3, close);
    json::lemma_members(c2, close);
    json::lemma_members(c1, close);
    json::lemma_members(c, close);
    assert(json::members(c) + close == unbound_text(method, url, jti, iat));
    if let Some(t) = token {
        let b = claims(method, url, token, jti, iat);
        assert(b.drop_first() =~= c);
        json::lemma_members(b, close);
        assert(json::object_text(b) =~= seq!['{'] + (json::members(b) + close));
    } else {
        assert(json::object_text(c) =~= seq!['{'] + (json::members(c) + close));
    }
}

proof fn lemma_unbound_text(
    m1: Seq<char>,
    u1: Seq<char>,
    j1: Seq<char>,
    i1: u64,
    m2: Seq<char>,
    u2: Seq<char>,
    j2: Seq<char>,
    i2: u64,
)
    requires
        unbound_text(m1, u1, j1, i1) == unbound_text(m2, u2, j2, i2),
    ensures
        m1 == m2,
        u1 == u2,
        j1 == j2,
        i1 == i2,
{
    let close = seq!['}'];
    let d1 = string_member("jti"@, j1, close);
    let d2 = string_member("jti"@, j2, close);
    let n1 = json::decimal(i1 as nat) + (seq![','] + d1);
    let n2 = json::decimal(i2 as nat) + (seq![','] + d2);
    let c1 = json::quoted("iat"@) + (seq![':'] + n1);
    let c2 = json::quoted("iat"@) + (seq![':'] + n2);
    let b1 = string_member("htu"@, u1, seq![','] + c1);
    let b2 = string_member("htu"@, u2, seq![','] + c2);
    lemma_string_member("htm"@, m1, m2, seq![','] + b1, seq![','] + b2);
    assert((seq![','] + b1).skip(1) =~= b1);
    assert((seq![','] + b2).skip(1) =~= b2);
    lemma_string_member("htu"@, u1, u2, seq![','] + c1, seq![','] + c2);
    assert((seq![','] + c1).skip(1) =~= c1);
    assert((seq![','] + c2).skip(1) =~= c2);
    json::law_quoted_is_unambiguous("iat"@, "iat"@, seq![':'] + n1, seq![':'] + n2);
    assert((seq![':'] + n1).skip(1) =~= n1);
    assert((seq![':'] + n2).skip(1) =~= n2);
    json::law_decimal_is_unambiguous(i1 as nat, i2 as nat, ',', d1, d2);
    lemma_string_member("jti"@, j1, j2, close, close);
}

/// A payload speaks of one request only: proofs with the same payload are for
/// the same method and URL, with the same identifier and time, and are bound to
/// tokens with the same hash, or both to none.
pub proof fn law_payload_binds_the_request(
    m1: Seq<char>,
    u1: Seq<char>,
    t1: Option<Seq<char>>,
    j1: Seq<char>,
    i1: u64,
    m2: Seq<char>,
    u2: Seq<char>,
    t2: Option<Seq<char>>,
    j2: Seq<char>,
    i2: u64,
)
    requires
        segment(claims(m1, u1, t1, j1, i1)) == segment(claims(m2, u2, t2, j2, i2)),
    ensures
        m1 == m2,
        u1 == u2,
        j1 == j2,
        i1 == i2,
        t1 is Some <==> t2 is Some,
        t1 is Some ==> crypto::s256_text(t1->0) == crypto::s256_text(t2->0),
{
    let p1 = json::object_text(claims(m1, u1, t1, j1, i1));
    let p2 = json::object_text(claims(m2, u2, t2, j2, i2));
    law_segment_decodes(claims(m2, u2, t2, j2, i2), utf8::encode_utf8(p1));
    utf8::encode_utf8_decode_utf8(p1);
    assert(p1 == p2);
    lemma_payload_text(m1, u1, t1, j1, i1);
    lemma_payload_text(m2, u2, t2, j2, i2);
    let w1 = unbound_text(m1, u1, j1, i1);
    let w2 = unbound_text(m2, u2, j2, i2);
    let r1 = p1.skip(1);
    let r2 = p2.skip(1);
    lemma_claim_names();
    match (t1, t2) {
        (Some(a), Some(b)) => {
            let x = string_member("ath"@, crypto::s256_text(a), seq![','] + w1);
            let y = string_member("ath"@, crypto::s256_text(b), seq![','] + w2);
            assert(r1 =~= x && r2 =~= y);
            lemma_string_member(
                "ath"@,
                crypto::s256_text(a),
                crypto::s256_text(b),
                seq![','] + w1,
                seq![','] + w2,
            );
            assert((seq![','] + w1).skip(1) =~= w1);
            assert((seq![','] + w2).skip(1) =~= w2);
        },
        (None, None) => {
            assert(r1 =~= w1 && r2 =~= w2);
        },
        (Some(a), None) => {
            let rest = seq![':'] + (json::quoted(crypto::s256_text(a)) + (seq![','] + w1));
            assert(r1 =~= json::quoted("ath"@) + rest);
            assert(r2 =~= w2);
            lemma_other_name("ath"@, rest, m2, u2, j2, i2);
        },
        (None, Some(b)) => {
            let rest = seq![':'] + (json::quoted(crypto::s256_text(b)) + (seq![','] + w2));
            assert(r2 =~= json::quoted("ath"@) + rest);
            assert(r1 =~= w1);
            lemma_other_name("ath"@, rest, m1, u1, j1, i1);
        },
    }
    lemma_unbound_text(m1, u1, j1, i1, m2, u2, j2, i2);
}

/// The text of a header, up to and behind the coordinates of its key.
spec fn header_text(point: (Seq<u8>, Seq<u8>)) -> Seq<char> {
    string_member(
        "alg"@,
        "ES256"@,
        seq![','] + (json::quoted("jwk"@) + (seq![':'] + (seq!['{'] + string_member(
            "crv"@,
            "P-256"@,
            seq![','] + string_member(
                "kty"@,
                "EC"@,
                seq![','] + string_member(
                    "x"@,
                    b64::b64url(point.0),
                    seq![','] + string_member(
                        "y"@,
                        b64::b64url(point.1),
                        seq!['}'] + (seq![','] + string_member("typ"@, "dpop+jwt"@, seq!['}'])),
                    ),
                ),
            ),
        )))),
    )
}

proof fn lemma_header_text(point: (Seq<u8>, Seq<u8>))
    ensures
        json::object_text(header(point)) == seq!['{'] + header_text(point),
{
    let close = seq!['}'];
    let h = header(point);
    let h1 = h.drop_first();
    let h2 = h1.drop_first();
    assert(h1[0] == h[1] && h2[0] == h[2]);
    json::lemma_members(h2, close);
    json::lemma_members(h1, close);
    json::lemma_members(h, close);
    let rest = seq![','] + (json::members(h2) + close);
    let j = jwk(point);
    let j1 = j.drop_first();
    let j2 = j1.drop_first();
    let j3 = j2.drop_first();
    assert(j1[0] == j[1] && j2[0] == j[2] && j3[0] == j[3]);
    let tail = close + rest;
    json::lemma_members(j3, tail);
    json::lemma_members(j2, tail);
    json::lemma_members(j1, tail);
    json::lemma_members(j, tail);
    assert(json::object_text(j) + rest =~= seq!['{'] + (json::members(j) + tail));
    assert(json::object_text(h) =~= seq!['{'] + (json::members(h) + close));
}

/// A header speaks of one public key only.
proof fn lemma_header_binds_the_key(a: (Seq<u8>, Seq<u8>), b: (Seq<u8>, Seq<u8>))
    requires
        header_text(a) == header_text(b),
    ensures
        a == b,
{
    let end = seq!['}'] + (seq![','] + string_member("typ"@, "dpop+jwt"@, seq!['}']));
    let y1 = string_member("y"@, b64::b64url(a.1), end);
    let y2 = string_member("y"@, b64::b64url(b.1), end);
    let x1 = string_member("x"@, b64::b64url(a.0), seq![','] + y1);
    let x2 = string_member("x"@, b64::b64url(b.0), seq![','] + y2);
    let k1 = string_member("kty"@, "EC"@, seq![','] + x1);
    let k2 = string_member("kty"@, "EC"@, seq![','] + x2);
    let c1 = string_member("crv"@, "P-256"@, seq![','] + k1);
    let c2 = string_member("crv"@, "P-256"@, seq![','] + k2);
    let q = json::quoted("jwk"@);
    let j1 = seq![':'] + (seq!['{'] + c1);
    let j2 = seq![':'] + (seq!['{'] + c2);
    lemma_string_member("alg"@, "ES256"@, "ES256"@, seq![','] + (q + j1), seq![','] + (q + j2));
    assert((seq![','] + (q + j1)).skip(1) =~= q + j1);
    assert((seq![','] + (q + j2)).skip(1) =~= q + j2);
    json::law_quoted_is_unambiguous("jwk"@, "jwk"@, j1, j2);
    assert(j1.skip(2) =~= c1);
    assert(j2.skip(2) =~= c2);
    lemma_string_member("crv"@, "P-256"@, "P-256"@, seq![','] + k1, seq![','] + k2);
    assert((seq![','] + k1).skip(1) =~= k1);
    assert((seq![','] + k2).skip(1) =~= k2);
    lemma_string_member("kty"@, "EC"@, "EC"@, seq![','] + x1, seq![','] + x2);
    assert((seq![','] + x1).skip(1) =~= x1);
    assert((seq![','] + x2).skip(1) =~= x2);
    lemma_string_member("x"@, b64::b64url(a.0), b64::b64url(b.0), seq![','] + y1, seq![','] + y2);
    assert((seq![','] + y1).skip(1) =~= y1);
    assert((seq![','] + y2).skip(1) =~= y2);
    lemma_string_member("y"@, b64::b64url(a.1), b64::b64url(b.1), end, end);
    b64::law_b64url_injective(a.0, b.0);
    b64::law_b64url_injective(a.1, b.1);
}

/// A proof is good for one request only: whatever else it is a proof of is by
/// the same public key, for the same method and URL, and bound to a token with
/// the same hash, or to none.
pub proof fn law_proof_is_for_one_request(
    p: Seq<char>,
    k1: Seq<u8>,
    m1: Seq<char>,
    u1: Seq<char>,
    t1: Option<Seq<char>>,
    k2: Seq<u8>,
    m2: Seq<char>,
    u2: Seq<char>,
    t2: Option<Seq<char>>,
)
    requires
        is_proof(p, k1, m1, u1, t1),
        is_proof(p, k2, m2, u2, t2),
    ensures
        key::public_point(k1) == key::public_point(k2),
        m1 == m2,
        u1 == u2,
        t1 is Some <==> t2 is Some,
        t1 is Some ==> crypto::s256_text(t1->0) == crypto::s256_text(t2->0),
{
    let (j1, i1) = choose|jti: Seq<char>, iat: u64|
        crypto::is_random_text(jti, 16) && clock::is_reading(iat) && #[trigger] is_proof_at(
            p,
            k1,
            m1,
            u1,
            t1,
            jti,
            iat,
        );
    let (j2, i2) = choose|jti: Seq<char>, iat: u64|
        crypto::is_random_text(jti, 16) && clock::is_reading(iat) && #[trigger] is_proof_at(
            p,
            k2,
            m2,
            u2,
            t2,
            jti,
            iat,
        );
    law_proof_has_three_parts(p, k1, m1, u1, t1, j1, i1);
    law_proof_has_three_parts(p, k2, m2, u2, t2, j2, i2);
    law_payload_binds_the_request(m1, u1, t1, j1, i1, m2, u2, t2, j2, i2);
    let a = key::public_point(k1);
    let b = key::public_point(k2);
    let h1 = json::object_text(header(a));
    let h2 = json::object_text(header(b));
    law_segment_decodes(header(b), utf8::encode_utf8(h1));
    utf8::encode_utf8_decode_utf8(h1);
    lemma_header_text(a);
    lemma_header_text(b);
    assert(h1.skip(1) =~= header_text(a));
    assert(h2.skip(1) =~= header_text(b));
    lemma_header_binds_the_key(a, b);
}

/// A text that starts with another member name is no unbound payload.
proof fn lemma_other_name(
    name: Seq<char>,
    rest: Seq<char>,
    method: Seq<char>,
    url: Seq<char>,
    jti: Seq<char>,
    iat: u64,
)
    requires
        name != "htm"@,
    ensures
        json::quoted(name) + rest != unbound_text(method, url, jti, iat),
{
    let w = unbound_text(method, url, jti, iat);
    if json::quoted(name) + rest == w {
        let tail = w.skip(json::quoted("htm"@).len() as int);
        assert(w =~= json::quoted("htm"@) + tail);
        json::law_quoted_is_unambiguous(name, "htm"@, rest, tail);
    }
}

proof fn lemma_absorb(a: Seq<char>, b: Seq<char>, c: Seq<char>)
    ensures
        a + (b + c) == (a + b) + c,
{
    assert(a + (b + c) =~= (a + b) + c);
}

/// The member names and fixed values of a proof, as JSON strings.
proof fn lemma_quoted_names()
    ensures
        json::quoted("htm"@) == "\"htm\""@,
        json::quoted("htu"@) == "\"htu\""@,
        json::quoted("iat"@) == "\"iat\""@,
        json::quoted("jti"@) == "\"jti\""@,
        json::quoted("ath"@) == "\"ath\""@,
        json::quoted("alg"@) == "\"alg\""@,
        json::quoted("ES256"@) == "\"ES256\""@,
        json::quoted("jwk"@) == "\"jwk\""@,
        json::quoted("crv"@) == "\"crv\""@,
        json::quoted("P-256"@) == "\"P-256\""@,
        json::quoted("kty"@) == "\"kty\""@,
        json::quoted("EC"@) == "\"EC\""@,
        json::quoted("x"@) == "\"x\""@,
        json::quoted("y"@) == "\"y\""@,
        json::quoted("typ"@) == "\"typ\""@,
        json::quoted("dpop+jwt"@) == "\"dpop+jwt\""@,
{
    reveal_strlit("htm");
    reveal_strlit("\"htm\"");
    json::law_plain_text_is_quoted_as_it_is("htm"@);
    assert(json::quoted("htm"@) =~= "\"htm\""@);
    reveal_strlit("htu");
    reveal_strlit("\"htu\"");
    json::law_plain_text_is_quoted_as_it_is("htu"@);
    assert(json::quoted("htu"@) =~= "\"htu\""@);
    reveal_strlit("iat");
    reveal_strlit("\"iat\"");
    json::law_plain_text_is_quoted_as_it_is("iat"@);
    assert(json::quoted("iat"@) =~= "\"iat\""@);
    reveal_strlit("jti");
    reveal_strlit("\"jti\"");
    json::law_plain_text_is_quoted_as_it_is("jti"@);
    assert(json::quoted("jti"@) =~= "\"jti\""@);
    reveal_strlit("ath");
    reveal_strlit("\"ath\"");
    json::law_plain_text_is_quoted_as_it_is("ath"@);
    assert(json::quoted("ath"@) =~= "\"ath\""@);
    reveal_strlit("alg");
    reveal_strlit("\"alg\"");
    json::law_plain_text_is_quoted_as_it_is("alg"@);
    assert(json::quoted("alg"@) =~= "\"alg\""@);
    reveal_strlit("ES256");
    reveal_strlit("\"ES256\"");
    json::law_plain_text_is_quoted_as_it_is("ES256"@);
    assert(json::quoted("ES256"@) =~= "\"ES256\""@);
    reveal_strlit("jwk");
    reveal_strlit("\"jwk\"");
    json::law_plain_text_is_quoted_as_it_is("jwk"@);
    assert(json::quoted("jwk"@) =~= "\"jwk\""@);
    reveal_strlit("crv");
    reveal_strlit("\"crv\"");
    json::law_plain_text_is_quoted_as_it_is("crv"@);
    assert(json::quoted("crv"@) =~= "\"crv\""@);
    reveal_strlit("P-256");
    reveal_strlit("\"P-256\"");
    json::law_plain_text_is_quoted_as_it_is("P-256"@);
    assert(json::quoted("P-256"@) =~= "\"P-256\""@);
    reveal_strlit("kty");
    reveal_strlit("\"kty\"");
    json::law_plain_text_is_quoted_as_it_is("kty"@);
    assert(json::quoted("kty"@) =~= "\"kty\""@);
    reveal_strlit("EC");
    reveal_strlit("\"EC\"");
    json::law_plain_text_is_quoted_as_it_is("EC"@);
    assert(json::quoted("EC"@) =~= "\"EC\""@);
    reveal_strlit("x");
    reveal_strlit("\"x\"");
    json::law_plain_text_is_quoted_as_it_is("x"@);
    assert(json::quoted("x"@) =~= "\"x\""@);
    reveal_strlit("y");
    reveal_strlit("\"y\"");
    json::law_plain_text_is_quoted_as_it_is("y"@);
    assert(json::quoted("y"@) =~= "\"y\""@);
    reveal_strlit("typ");
    reveal_strlit("\"typ\"");
    json::law_plain_text_is_quoted_as_it_is("typ"@);
    assert(json::quoted("typ"@) =~= "\"typ\""@);
    reveal_strlit("dpop+jwt");
    reveal_strlit("\"dpop+jwt\"");
    json::law_plain_text_is_quoted_as_it_is("dpop+jwt"@);
    assert(json::quoted("dpop+jwt"@) =~= "\"dpop+jwt\""@);
}

/// The payload of a proof, word for word: the method, the URL, the time and the
/// identifier, each as it was given, and in front of them the hash of the access
/// token if the proof is bound to one.
pub proof fn law_payload_is_written_out(
    method: Seq<char>,
    url: Seq<char>,
    token: Seq<char>,
    jti: Seq<char>,
    iat: u64,
)
    ensures
        json::object_text(claims(method, url, None, jti, iat)) == "{\"htm\":"@ + json::quoted(method)
            + ",\"htu\":"@ + json::quoted(url) + ",\"iat\":"@ + json::decimal(iat as nat)
            + ",\"jti\":"@ + json::quoted(jti) + "}"@,
        json::object_text(claims(method, url, Some(token), jti, iat)) == "{\"ath\":"@
            + json::quoted(crypto::s256_text(token)) + ",\"htm\":"@ + json::quoted(method)
            + ",\"htu\":"@ + json::quoted(url) + ",\"iat\":"@ + json::decimal(iat as nat)
            + ",\"jti\":"@ + json::quoted(jti) + "}"@,
{
    lemma_payload_text(method, url, None, jti, iat);
    lemma_payload_text(method, url, Some(token), jti, iat);
    let hash = json::quoted(crypto::s256_text(token));
    let m = json::quoted(method);
    let u = json::quoted(url);
    let n = json::decimal(iat as nat);
    let j = json::quoted(jti);
    lemma_payload_names();
    let colon = seq![':'];
    let comma = seq![','];
    let end = "}"@;
    // from the identifier backwards
    let t1 = j + end;
    let t2 = comma + (json::quoted("jti"@) + (colon + t1));
    lemma_name(comma, json::quoted("jti"@), colon, t1);
    let t3 = n + t2;
    let t4 = comma + (json::quoted("iat"@) + (colon + t3));
    lemma_name(comma, json::quoted("iat"@), colon, t3);
    let t5 = u + t4;
    let t6 = comma + (json::quoted("htu"@) + (colon + t5));
    lemma_name(comma, json::quoted("htu"@), colon, t5);
    let t7 = m + t6;
    let unbound = json::quoted("htm"@) + (colon + t7);
    assert(unbound == unbound_text(method, url, jti, iat));
    lemma_name(seq!['{'], json::quoted("htm"@), colon, t7);
    lemma_name(comma, json::quoted("htm"@), colon, t7);
    let b1 = hash + (comma + unbound);
    lemma_name(seq!['{'], json::quoted("ath"@), colon, b1);
    // and forwards again
    let open = "{\"htm\":"@;
    lemma_chain(open, m, u, n, j, end);
    let bound = "{\"ath\":"@;
    lemma_absorb(bound, hash, ",\"htm\":"@ + t7);
    lemma_absorb(bound + hash, ",\"htm\":"@, t7);
    lemma_chain(bound + hash + ",\"htm\":"@, m, u, n, j, end);
}

proof fn lemma_chain(
    open: Seq<char>,
    m: Seq<char>,
    u: Seq<char>,
    n: Seq<char>,
    j: Seq<char>,
    end: Seq<char>,
)
    ensures
        open + (m + (",\"htu\":"@ + (u + (",\"iat\":"@ + (n + (",\"jti\":"@ + (j + end))))))) == open
            + m + ",\"htu\":"@ + u + ",\"iat\":"@ + n + ",\"jti\":"@ + j + end,
{
    let t1 = j + end;
    let t2 = ",\"jti\":"@ + t1;
    let t3 = n + t2;
    let t4 = ",\"iat\":"@ + t3;
    let t5 = u + t4;
    let t6 = ",\"htu\":"@ + t5;
    let a1 = open + m;
    let a2 = a1 + ",\"htu\":"@;
    let a3 = a2 + u;
    let a4 = a3 + ",\"iat\":"@;
    let a5 = a4 + n;
    let a6 = a5 + ",\"jti\":"@;
    lemma_absorb(open, m, t6);
    lemma_absorb(a1, ",\"htu\":"@, t5);
    lemma_absorb(a2, u, t4);
    lemma_absorb(a3, ",\"iat\":"@, t3);
    lemma_absorb(a4, n, t2);
    lemma_absorb(a5, ",\"jti\":"@, t1);
    lemma_absorb(a6, j, end);
}

proof fn lemma_name(mark: Seq<char>, name: Seq<char>, colon: Seq<char>, rest: Seq<char>)
    ensures
        mark + (name + (colon + rest)) == (mark + name + colon) + rest,
{
    lemma_absorb(name, colon, rest);
    lemma_absorb(mark, name + colon, rest);
    lemma_absorb(mark, name, colon);
}

/// The marks and names between the values of a payload.
proof fn lemma_payload_names()
    ensures
        "}"@ == seq!['}'],
        seq!['{'] + json::quoted("htm"@) + seq![':'] == "{\"htm\":"@,
        seq!['{'] + json::quoted("ath"@) + seq![':'] == "{\"ath\":"@,
        seq![','] + json::quoted("htm"@) + seq![':'] == ",\"htm\":"@,
        seq![','] + json::quoted("htu"@) + seq![':'] == ",\"htu\":"@,
        seq![','] + json::quoted("iat"@) + seq![':'] == ",\"iat\":"@,
        seq![','] + json::quoted("jti"@) + seq![':'] == ",\"jti\":"@,
{
    lemma_quoted_names();
    reveal_strlit("}");
    reveal_strlit("\"htm\"");
    reveal_strlit("\"htu\"");
    reveal_strlit("\"iat\"");
    reveal_strlit("\"jti\"");
    reveal_strlit("\"ath\"");
    reveal_strlit("{\"htm\":");
    reveal_strlit("{\"ath\":");
    reveal_strlit(",\"htm\":");
    reveal_strlit(",\"htu\":");
    reveal_strlit(",\"iat\":");
    reveal_strlit(",\"jti\":");
    assert("}"@ =~= seq!['}']);
    assert(seq!['{'] + json::quoted("htm"@) + seq![':'] =~= "{\"htm\":"@);
    assert(seq!['{'] + json::quoted("ath"@) + seq![':'] =~= "{\"ath\":"@);
    assert(seq![','] + json::quoted("htm"@) + seq![':'] =~= ",\"htm\":"@);
    assert(seq![','] + json::quoted("htu"@) + seq![':'] =~= ",\"htu\":"@);
    assert(seq![','] + json::quoted("iat"@) + seq![':'] =~= ",\"iat\":"@);
    assert(seq![','] + json::quoted("jti"@) + seq![':'] =~= ",\"jti\":"@);
}

/// The fixed parts of a header.
proof fn lemma_header_parts()
    ensures
        ({
            let colon = seq![':'];
            let comma = seq![','];
            let quote = seq!['"'];
            let open = seq!['{'];
            let close = seq!['}'];
            &&& open + json::quoted("alg"@) + colon + json::quoted("ES256"@) + comma + json::quoted(
                "jwk"@,
            ) + colon + open + json::quoted("crv"@) + colon + json::quoted("P-256"@) + comma
                + json::quoted("kty"@) + colon + json::quoted("EC"@) + comma + json::quoted("x"@)
                + colon + quote
                == "{\"alg\":\"ES256\",\"jwk\":{\"crv\":\"P-256\",\"kty\":\"EC\",\"x\":\""@
            &&& quote + comma + json::quoted("y"@) + colon + quote == "\",\"y\":\""@
            &&& quote + (close + (comma + (json::quoted("typ"@) + (colon + (json::quoted(
                "dpop+jwt"@,
            ) + close))))) == "\"},\"typ\":\"dpop+jwt\"}"@
        }),
{
    lemma_quoted_names();
    reveal_strlit("\"alg\"");
    reveal_strlit("\"ES256\"");
    reveal_strlit("\"jwk\"");
    reveal_strlit("\"crv\"");
    reveal_strlit("\"P-256\"");
    reveal_strlit("\"kty\"");
    reveal_strlit("\"EC\"");
    reveal_strlit("\"x\"");
    reveal_strlit("\"y\"");
    reveal_strlit("\"typ\"");
    reveal_strlit("\"dpop+jwt\"");
    reveal_strlit("{\"alg\":\"ES256\",\"jwk\":{\"crv\":\"P-256\",\"kty\":\"EC\",\"x\":\"");
    reveal_strlit("\",\"y\":\"");
    reveal_strlit("\"},\"typ\":\"dpop+jwt\"}");
    let colon = seq![':'];
    let comma = seq![','];
    let quote = seq!['"'];
    let open = seq!['{'];
    let close = seq!['}'];
    let a = open + "\"alg\""@ + colon + "\"ES256\""@ + comma + "\"jwk\""@ + colon + open;
    reveal_strlit("{\"alg\":\"ES256\",\"jwk\":{");
    assert(a =~= "{\"alg\":\"ES256\",\"jwk\":{"@);
    let b = a + "\"crv\""@ + colon + "\"P-256\""@ + comma;
    reveal_strlit("{\"alg\":\"ES256\",\"jwk\":{\"crv\":\"P-256\",");
    assert(b =~= "{\"alg\":\"ES256\",\"jwk\":{\"crv\":\"P-256\","@);
    let c = b + "\"kty\""@ + colon + "\"EC\""@ + comma + "\"x\""@ + colon + quote;
    assert(c =~= "{\"alg\":\"ES256\",\"jwk\":{\"crv\":\"P-256\",\"kty\":\"EC\",\"x\":\""@);
    assert(quote + comma + "\"y\""@ + colon + quote =~= "\",\"y\":\""@);
    assert(quote + (close + (comma + ("\"typ\""@ + (colon + ("\"dpop+jwt\""@ + close)))))
        =~= "\"},\"typ\":\"dpop+jwt\"}"@);
}

/// A coordinate in base64url is quoted as it is.
proof fn lemma_quoted_coordinate(bytes: Seq<u8>, rest: Seq<char>)
    ensures
        json::quoted(b64::b64url(bytes)) + rest == seq!['"'] + (b64::b64url(bytes) + (seq!['"']
            + rest)),
{
    let s = b64::b64url(bytes);
    b64::law_b64url_is_symbols(bytes);
    assert forall|i: int| 0 <= i < s.len() implies #[trigger] s[i] != '"' && s[i] != '\\' && s[i] as int
        >= 0x20 by {
        assert(b64::is_symbol(s[i]));
    }
    json::law_plain_text_is_quoted_as_it_is(s);
    assert(seq!['"'] + s + seq!['"'] + rest =~= seq!['"'] + (s + (seq!['"'] + rest)));
}

/// The header of a proof, word for word: the algorithm, the public key with its
/// two coordinates and nothing of the secret, and the type.
pub proof fn law_header_is_written_out(point: (Seq<u8>, Seq<u8>))
    ensures
        json::object_text(header(point))
            == "{\"alg\":\"ES256\",\"jwk\":{\"crv\":\"P-256\",\"kty\":\"EC\",\"x\":\""@ + b64::b64url(
            point.0,
        ) + "\",\"y\":\""@ + b64::b64url(point.1) + "\"},\"typ\":\"dpop+jwt\"}"@,
{
    lemma_header_text(point);
    lemma_header_parts();
    let colon = seq![':'];
    let comma = seq![','];
    let quote = seq!['"'];
    let open = seq!['{'];
    let close = seq!['}'];
    let x = b64::b64url(point.0);
    let y = b64::b64url(point.1);
    let end = close + (comma + (json::quoted("typ"@) + (colon + (json::quoted("dpop+jwt"@)
        + close))));
    let r_y = json::quoted(y) + end;
    let y_member = json::quoted("y"@) + (colon + r_y);
    let r_x = json::quoted(x) + (comma + y_member);
    let x_member = json::quoted("x"@) + (colon + r_x);
    let r_k = json::quoted("EC"@) + (comma + x_member);
    let k_member = json::quoted("kty"@) + (colon + r_k);
    let r_c = json::quoted("P-256"@) + (comma + k_member);
    let c_member = json::quoted("crv"@) + (colon + r_c);
    let r_j = open + c_member;
    let j_member = json::quoted("jwk"@) + (colon + r_j);
    let r_a = json::quoted("ES256"@) + (comma + j_member);
    let a1 = open + json::quoted("alg"@) + colon;
    lemma_name(open, json::quoted("alg"@), colon, r_a);
    let a2 = a1 + json::quoted("ES256"@);
    lemma_absorb(a1, json::quoted("ES256"@), comma + j_member);
    let a3 = a2 + comma;
    lemma_absorb(a2, comma, j_member);
    let a4 = a3 + json::quoted("jwk"@) + colon;
    lemma_name(a3, json::quoted("jwk"@), colon, r_j);
    let a5 = a4 + open;
    lemma_absorb(a4, open, c_member);
    let a6 = a5 + json::quoted("crv"@) + colon;
    lemma_name(a5, json::quoted("crv"@), colon, r_c);
    let a7 = a6 + json::quoted("P-256"@);
    lemma_absorb(a6, json::quoted("P-256"@), comma + k_member);
    let a8 = a7 + comma;
    lemma_absorb(a7, comma, k_member);
    let a9 = a8 + json::quoted("kty"@) + colon;
    lemma_name(a8, json::quoted("kty"@), colon, r_k);
    let a10 = a9 + json::quoted("EC"@);
    lemma_absorb(a9, json::quoted("EC"@), comma + x_member);
    let a11 = a10 + comma;
    lemma_absorb(a10, comma, x_member);
    let a12 = a11 + json::quoted("x"@) + colon;
    lemma_name(a11, json::quoted("x"@), colon, r_x);
    lemma_quoted_coordinate(point.0, comma + y_member);
    let mid = quote + (comma + y_member);
    lemma_absorb(a12, quote, x + mid);
    let first = a12 + quote;
    lemma_absorb(first, x, mid);
    lemma_absorb(quote, comma, y_member);
    lemma_name(quote + comma, json::quoted("y"@), colon, r_y);
    lemma_quoted_coordinate(point.1, end);
    let m1 = quote + comma + json::quoted("y"@) + colon;
    lemma_absorb(m1, quote, y + (quote + end));
    lemma_absorb(first + x, m1 + quote, y + (quote + end));
    lemma_absorb(first + x + (m1 + quote), y, quote + end);
}

/// The payload of a proof holds one member of each name, and its value is what
/// was given: the method, the URL, the time, the identifier, and of the access
/// token its hash.
pub proof fn law_payload_members(
    method: Seq<char>,
    url: Seq<char>,
    token: Option<Seq<char>>,
    jti: Seq<char>,
    iat: u64,
    name: Seq<char>,
    value: Seq<char>,
)
    ensures
        ({
            let all = claims(method, url, token, jti, iat);
            &&& all.contains((name, value)) <==> {
                ||| name == "htm"@ && value == json::quoted(method)
                ||| name == "htu"@ && value == json::quoted(url)
                ||| name == "iat"@ && value == json::decimal(iat as nat)
                ||| name == "jti"@ && value == json::quoted(jti)
                ||| token is Some && name == "ath"@ && value == json::quoted(
                    b64::b64url(crypto::sha256_digest(utf8::encode_utf8(token->0))),
                )
            }
            &&& forall|i: int, j: int|
                0 <= i < j < all.len() ==> (#[trigger] all[i]).0 != (#[trigger] all[j]).0
        }),
{
    lemma_claim_names();
    let all = claims(method, url, token, jti, iat);
    assert("htm"@ != "iat"@ && "htm"@ != "jti"@ && "htu"@ != "iat"@ && "htu"@ != "jti"@);
    let k: int = if token is Some {
        1
    } else {
        0
    };
    assert(all[k] == ("htm"@, json::quoted(method)));
    assert(all[k + 1] == ("htu"@, json::quoted(url)));
    assert(all[k + 2] == ("iat"@, json::decimal(iat as nat)));
    assert(all[k + 3] == ("jti"@, json::quoted(jti)));
    assert(all.len() == k + 4);
    if token is Some {
        assert(all[0] == ("ath"@, json::quoted(crypto::s256_text(token->0))));
    }
}

/// A proof, word for word: the header, the payload and the signature of the two,
/// each in base64url, with dots between them.
pub proof fn law_proof_is_written_out(
    p: Seq<char>,
    scalar: Seq<u8>,
    method: Seq<char>,
    url: Seq<char>,
    token: Option<Seq<char>>,
    jti: Seq<char>,
    iat: u64,
)
    requires
        is_proof_at(p, scalar, method, url, token, jti, iat),
    ensures
        ({
            let point = key::public_point(scalar);
            let head = b64::b64url(
                utf8::encode_utf8(
                    "{\"alg\":\"ES256\",\"jwk\":{\"crv\":\"P-256\",\"kty\":\"EC\",\"x\":\""@
                        + b64::b64url(point.0) + "\",\"y\":\""@ + b64::b64url(point.1)
                        + "\"},\"typ\":\"dpop+jwt\"}"@,
                ),
            );
            let lead = match token {
                Some(t) => "{\"ath\":"@ + json::quoted(
                    b64::b64url(crypto::sha256_digest(utf8::encode_utf8(t))),
                ) + ",\"htm\":"@,
                None => "{\"htm\":"@,
            };
            let body = b64::b64url(
                utf8::encode_utf8(
                    lead + json::quoted(method) + ",\"htu\":"@ + json::quoted(url) + ",\"iat\":"@
                        + json::decimal(iat as nat) + ",\"jti\":"@ + json::quoted(jti) + "}"@,
                ),
            );
            let signed = utf8::encode_utf8(head + seq!['.'] + body);
            &&& key::es256_signature(scalar, signed) is Some
            &&& p == head + seq!['.'] + body + seq!['.'] + b64::b64url(
                key::es256_signature(scalar, signed)->0,
            )
            &&& key::es256_accepts(point, signed, key::es256_signature(scalar, signed)->0)
        }),
{
    law_header_is_written_out(key::public_point(scalar));
    match token {
        Some(t) => {
            law_payload_is_written_out(method, url, t, jti, iat);
        },
        None => {
            law_payload_is_written_out(method, url, method, jti, iat);
        },
    }
}

/// A proof made now has an identifier of sixteen bytes and a time that the clock
/// showed.
pub proof fn law_proof_is_made_now(
    p: Seq<char>,
    scalar: Seq<u8>,
    method: Seq<char>,
    url: Seq<char>,
    token: Option<Seq<char>>,
)
    requires
        is_proof(p, scalar, method, url, token),
    ensures
        exists|drawn: Seq<u8>, at: std::time::SystemTime|
            drawn.len() == 16 && #[trigger] clock::epoch_distance(at) is Some && is_proof_at(
                p,
                scalar,
                method,
                url,
                token,
                #[trigger] b64::b64url(drawn),
                clock::whole_seconds(clock::epoch_distance(at)->0),
            ),
{
    let (jti, iat) = choose|jti: Seq<char>, iat: u64|
        crypto::is_random_text(jti, 16) && clock::is_reading(iat) && #[trigger] is_proof_at(
            p,
            scalar,
            method,
            url,
            token,
            jti,
            iat,
        );
    let drawn = choose|drawn: Seq<u8>| drawn.len() == 16 && #[trigger] b64::b64url(drawn) == jti;
    let at = choose|at: std::time::SystemTime| #[trigger]
        clock::epoch_seconds(at) == Ok::<u64, SolidError>(iat);
    assert(clock::epoch_distance(at) is Some && b64::b64url(drawn) == jti);
}

/// A proof fails only where the clock stood before the epoch, or where there is no
/// signature of what was to be signed.
pub proof fn law_proof_failure(
    e: SolidError,
    scalar: Seq<u8>,
    method: Seq<char>,
    url: Seq<char>,
    token: Option<Seq<char>>,
)
    requires
        is_proof_failure(e, scalar, method, url, token),
    ensures
        e == SolidError::ClockBeforeEpoch || e == SolidError::Signing,
        e == SolidError::ClockBeforeEpoch ==> exists|at: std::time::SystemTime|
            #[trigger] clock::epoch_distance(at) is None,
        e == SolidError::Signing ==> exists|jti: Seq<char>, iat: u64|
            clock::is_reading(iat) && #[trigger] key::es256_signature(
                scalar,
                utf8::encode_utf8(signing_input(scalar, method, url, token, jti, iat)),
            ) is None,
{
    if clock::is_clock_failure(e) {
        let at = choose|at: std::time::SystemTime| #[trigger]
            clock::epoch_seconds(at) == Err::<u64, SolidError>(e);
        assert(clock::epoch_distance(at) is None);
    } else {
        let (jti, iat) = choose|jti: Seq<char>, iat: u64|
            crypto::is_random_text(jti, 16) && clock::is_reading(iat) && #[trigger] signature(
                scalar,
                method,
                url,
                token,
                jti,
                iat,
            ) is None;
        assert(key::es256_signature(
            scalar,
            utf8::encode_utf8(signing_input(scalar, method, url, token, jti, iat)),
        ) is None);
    }
}

} // verus!
