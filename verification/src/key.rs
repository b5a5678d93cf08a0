//! The P-256 key that proofs of possession are signed with.
use vstd::prelude::*;
use p256::ecdsa::signature::{Signer, Verifier};
use p256::ecdsa::{Signature, SigningKey, VerifyingKey};
use p256::EncodedPoint;
use crate::b64;
use crate::error::SolidError;

verus! {

/// The failure of a key or signature operation.
#[verifier::external_type_specification]
#[verifier::external_body]
pub struct ExEcdsaError(p256::ecdsa::Error);

/// What an error of `p256` is shown as.
pub uninterp spec fn ecdsa_error_text(e: p256::ecdsa::Error) -> Seq<char>;

/// The number that bytes spell, the most significant byte first.
pub open spec fn big_endian(bytes: Seq<u8>) -> nat
    decreases bytes.len(),
{
    if bytes.len() == 0 {
        0
    } else {
        256 * big_endian(bytes.drop_last()) + bytes.last() as nat
    }
}

/// The bytes are a secret scalar of P-256: thirty-two bytes that spell a number
/// between one and the order of the group.
pub open spec fn is_secret_scalar(bytes: Seq<u8>) -> bool {
    &&& bytes.len() == 32
    &&& 0 < big_endian(bytes)
        < 0xffffffff00000000ffffffffffffffffbce6faada7179e84f3b9cac2fc632551nat
}

/// The affine coordinates of the public key of a secret scalar, as computed by
/// `p256`.
pub uninterp spec fn public_point(scalar: Seq<u8>) -> (Seq<u8>, Seq<u8>);

/// The deterministic ES256 signature of a message under a secret scalar, as
/// computed by `p256`; none where the algorithm hits a zero.
pub uninterp spec fn es256_signature(scalar: Seq<u8>, message: Seq<u8>) -> Option<Seq<u8>>;

/// Whether `p256` accepts a signature of a message under a public key.
pub uninterp spec fn es256_accepts(
    point: (Seq<u8>, Seq<u8>),
    message: Seq<u8>,
    signature: Seq<u8>,
) -> bool;

/// `p256`'s `SigningKey::random`: a secret scalar drawn from the operating
/// system's generator.
#[verifier::external_body]
fn random_scalar() -> (scalar: Vec<u8>)
    ensures
        is_secret_scalar(scalar@),
{
    SigningKey::random(&mut rand::rngs::OsRng).to_bytes().to_vec()
}

/// `p256`'s `SigningKey::from_bytes` accepts exactly the secret scalars, and says
/// the same of all others. It is only defined for thirty-two bytes.
#[verifier::external_body]
fn check_scalar(bytes: &Vec<u8>) -> (r: Result<(), p256::ecdsa::Error>)
    requires
        bytes@.len() == 32,
    ensures
        match r {
            Ok(_) => is_secret_scalar(bytes@),
            Err(e) => !is_secret_scalar(bytes@) && ecdsa_error_text(e) == "signature error"@,
        },
{
    SigningKey::from_bytes(bytes.as_slice().into()).map(|_| ())
}

/// The `Display` form of `p256`'s error, which depends on the error alone.
#[verifier::external_body]
fn error_text(e: &p256::ecdsa::Error) -> (s: String)
    ensures
        s@ == ecdsa_error_text(*e),
{
    e.to_string()
}

/// `p256`'s `SigningKey::verifying_key` and its uncompressed encoding: the
/// coordinates depend on the scalar alone and are thirty-two bytes each.
#[verifier::external_body]
fn public_coordinates(scalar: &Vec<u8>) -> (point: (Vec<u8>, Vec<u8>))
    requires
        is_secret_scalar(scalar@),
    ensures
        (point.0@, point.1@) == public_point(scalar@),
        point.0@.len() == 32,
        point.1@.len() == 32,
{
    let key = SigningKey::from_bytes(scalar.as_slice().into()).unwrap();
    let point = key.verifying_key().to_encoded_point(false);
    (point.x().unwrap().to_vec(), point.y().unwrap().to_vec())
}

/// `p256`'s `Signer::try_sign`: the signature depends on the scalar and the
/// message alone, is sixty-four bytes long, and is accepted under the scalar's
/// public key.
#[verifier::external_body]
fn sign(scalar: &Vec<u8>, message: &[u8]) -> (r: Result<Vec<u8>, p256::ecdsa::Error>)
    requires
        is_secret_scalar(scalar@),
    ensures
        match r {
            Ok(signature) => {
                &&& es256_signature(scalar@, message@) == Some(signature@)
                &&& signature@.len() == 64
                &&& es256_accepts(public_point(scalar@), message@, signature@)
            },
            Err(_) => es256_signature(scalar@, message@) is None,
        },
{
    let key = SigningKey::from_bytes(scalar.as_slice().into())?;
    let signature: Signature = key.try_sign(message)?;
    Ok(signature.to_bytes().to_vec())
}

/// `p256`'s `Verifier::verify` under the public key with these coordinates:
/// whether it accepts depends on the coordinates, the message and the signature
/// alone.
#[verifier::external_body]
fn accepts(x: &Vec<u8>, y: &Vec<u8>, message: &[u8], signature: &[u8]) -> (r: bool)
    requires
        x@.len() == 32,
        y@.len() == 32,
    ensures
        r == es256_accepts((x@, y@), message@, signature@),
{
    let point = EncodedPoint::from_affine_coordinates(
        x.as_slice().into(),
        y.as_slice().into(),
        false,
    );
    VerifyingKey::from_encoded_point(&point).and_then(
        |key| Signature::from_slice(signature).and_then(|s| key.verify(message, &s)),
    ).is_ok()
}

/// A P-256 key. Its view is the secret scalar.
pub struct DpopKey {
    scalar: Vec<u8>,
}

impl View for DpopKey {
    type V = Seq<u8>;

    closed spec fn view(&self) -> Seq<u8> {
        self.scalar@
    }
}

impl DpopKey {
    #[verifier::type_invariant]
    spec fn inv(self) -> bool {
        is_secret_scalar(self.scalar@)
    }

    /// A fresh key.
    pub fn generate() -> (key: DpopKey)
        ensures
            is_secret_scalar(key@),
    {
        DpopKey { scalar: random_scalar() }
    }

    /// The secret scalar in base64url, as it is kept in a session.
    pub fn to_b64(&self) -> (s: String)
        ensures
            s@ == b64::b64url(self@),
            is_secret_scalar(self@),
            s@.len() == 43,
    {
        proof {
            use_type_invariant(self);
            b64::law_b64url_len(self.scalar@);
        }
        b64::encode(self.scalar.as_slice())
    }

    /// The coordinates of the public key.
    pub(crate) fn coordinates(&self) -> (point: (Vec<u8>, Vec<u8>))
        ensures
            (point.0@, point.1@) == public_point(self@),
            point.0@.len() == 32,
            point.1@.len() == 32,
    {
        proof {
            use_type_invariant(self);
        }
        public_coordinates(&self.scalar)
    }

    /// The ES256 signature of a message.
    pub(crate) fn signature(&self, message: &[u8]) -> (r: Result<Vec<u8>, SolidError>)
        ensures
            match r {
                Ok(signature) => {
                    &&& es256_signature(self@, message@) == Some(signature@)
                    &&& signature@.len() == 64
                    &&& es256_accepts(public_point(self@), message@, signature@)
                },
                Err(e) => e == SolidError::Signing && es256_signature(self@, message@) is None,
            },
    {
        proof {
            use_type_invariant(self);
        }
        match sign(&self.scalar, message) {
            Ok(signature) => Ok(signature),
            Err(_) => Err(SolidError::Signing),
        }
    }

    /// Whether this is a signature of the message by this key.
    pub fn verifies(&self, message: &[u8], signature: &[u8]) -> (r: bool)
        ensures
            r == es256_accepts(public_point(self@), message@, signature@),
    {
        let (x, y) = self.coordinates();
        accepts(&x, &y, message, signature)
    }
}

/// The text can be tried as a key: if it is base64url at all, it has the
/// length of a scalar.
pub open spec fn is_key_sized(b64: Seq<char>) -> bool {
    b64::is_b64url(b64) ==> b64.len() == 43
}

/// The text is the base64url form of a secret scalar.
pub open spec fn is_key_text(b64: Seq<char>) -> bool {
    exists|scalar: Seq<u8>| is_secret_scalar(scalar) && #[trigger] b64::b64url(scalar) == b64
}

/// Why a text is no key, in the words of the decoder or of the check on scalars.
pub open spec fn is_key_refusal(e: SolidError, b64: Seq<char>) -> bool {
    match e {
        SolidError::KeyEncoding(said) => !b64::is_b64url(b64) && said@ == b64::decode_refusal(b64),
        SolidError::KeyInvalid(said) => b64::is_b64url(b64) && !is_key_text(b64) && said@
            == "signature error"@,
        _ => false,
    }
}

/// Whether `key_from_b64` can take this text.
pub fn can_be_key(b64: &str) -> (r: bool)
    ensures
        r == is_key_sized(b64@),
{
    match b64::decode(b64) {
        Ok(bytes) => {
            proof {
                b64::law_b64url_len(bytes@);
            }
            bytes.len() == 32
        },
        Err(_) => true,
    }
}

/// A fresh key, and its secret scalar in base64url.
pub fn gen_key() -> (r: (DpopKey, String))
    ensures
        is_secret_scalar(r.0@),
        r.1@ == b64::b64url(r.0@),
{
    let key = DpopKey::generate();
    let b64 = key.to_b64();
    (key, b64)
}

/// The key whose secret scalar stands in base64url.
pub fn key_from_b64(b64: &str) -> (r: Result<DpopKey, SolidError>)
    requires
        is_key_sized(b64@),
    ensures
        match r {
            Ok(key) => is_secret_scalar(key@) && b64::b64url(key@) == b64@,
            Err(e) => !is_key_text(b64@) && is_key_refusal(e, b64@),
        },
{
    match b64::decode(b64) {
        Err(e) => Err(SolidError::KeyEncoding(b64::error_text(&e))),
        Ok(bytes) => {
            proof {
                b64::law_b64url_len(bytes@);
                assert(b64::is_b64url(b64@));
            }
            match check_scalar(&bytes) {
                Ok(_) => Ok(DpopKey { scalar: bytes }),
                Err(e) => {
                    proof {
                        assert forall|s: Seq<u8>| #[trigger]
                            b64::b64url(s) == b64@ implies !is_secret_scalar(s) by {
                            b64::law_b64url_injective(s, bytes@);
                        }
                    }
                    Err(SolidError::KeyInvalid(error_text(&e)))
                },
            }
        },
    }
}

/// A key that was written in base64url is read back as the same key: the text
/// of a secret scalar can be tried as a key, and no other scalar has that text.
pub proof fn law_key_round_trip(scalar: Seq<u8>, back: Seq<u8>)
    requires
        is_secret_scalar(scalar),
    ensures
        is_key_sized(b64::b64url(scalar)),
        is_key_text(b64::b64url(scalar)),
        b64::b64url(back) == b64::b64url(scalar) ==> back == scalar,
{
    b64::law_b64url_len(scalar);
    if b64::b64url(back) == b64::b64url(scalar) {
        b64::law_b64url_injective(back, scalar);
    }
}

/// A text is a key exactly if it decodes to a secret scalar; every other text is
/// refused in the words of the decoder if it does not decode at all, and else in
/// those of the check on scalars.
pub proof fn law_key_text(b64: Seq<char>, bytes: Seq<u8>, e: SolidError)
    ensures
        b64::b64url(bytes) == b64 ==> (is_key_text(b64) <==> is_secret_scalar(bytes)),
        b64::b64url(bytes) == b64 ==> (is_key_sized(b64) <==> bytes.len() == 32),
        !b64::is_b64url(b64) ==> is_key_sized(b64) && !is_key_text(b64),
        is_key_refusal(e, b64) ==> !is_key_text(b64) && e.text() == if b64::is_b64url(b64) {
            "signature error"@
        } else {
            b64::decode_refusal(b64)
        },
{
    if b64::b64url(bytes) == b64 {
        b64::law_b64url_len(bytes);
        assert(b64::is_b64url(b64));
        if is_key_text(b64) {
            let scalar = choose|scalar: Seq<u8>|
                is_secret_scalar(scalar) && #[trigger] b64::b64url(scalar) == b64;
            b64::law_b64url_injective(scalar, bytes);
        }
    }
    if is_key_text(b64) {
        let scalar = choose|scalar: Seq<u8>|
            is_secret_scalar(scalar) && #[trigger] b64::b64url(scalar) == b64;
        assert(b64::is_b64url(b64));
    }
}

} // verus!
