//! What can go wrong, and how it is reported.
use vstd::prelude::*;

verus! {

/// The failures of the library.
#[derive(Debug, PartialEq, Eq)]
pub enum SolidError {
    /// There is no session to work with.
    NotLoggedIn,
    /// The machine has no directory for configuration files.
    NoConfigDir,
    /// The configuration file is no JSON.
    ConfigInvalid,
    /// The access token has expired and nothing can renew it.
    TokenExpired,
    /// The provider refused to renew the access token.
    RefreshFailed(String),
    /// The provider refused to exchange the authorization code.
    ExchangeFailed(String),
    /// The discovery document is no JSON, for the cause given.
    DiscoveryFailed(String),
    /// The answer to the registration is no JSON, for the cause given.
    RegistrationFailed(String),
    /// The discovery document names no authorization endpoint.
    NoAuthorizationEndpoint,
    /// The discovery document names no token endpoint.
    NoTokenEndpoint,
    /// The discovery document names no registration endpoint.
    NoRegistrationEndpoint,
    /// The registration gave no client identifier.
    NoClientId,
    /// The callback answers another login attempt.
    StateMismatch,
    /// The callback carries no authorization code.
    NoCode,
    /// The callback server ended without a callback.
    CallbackClosed,
    /// The pod answered a request with a failure.
    Status { status: String, body: String },
    /// The stored key is not base64url, in the words of the decoder.
    KeyEncoding(String),
    /// The stored key is no P-256 secret scalar, in the words of the check on it.
    KeyInvalid(String),
    /// The stored key is base64url of the wrong length.
    KeyLength,
    /// The clock stands before the Unix epoch.
    ClockBeforeEpoch,
    /// The token expires later than can be written down.
    ExpiryOverflow,
    /// The signature could not be computed.
    Signing,
    /// A value could not be written as JSON.
    Json,
}

impl SolidError {
    /// The message that goes with the failure.
    pub open spec fn text(self) -> Seq<char> {
        match self {
            SolidError::NotLoggedIn => "not logged in — run `solid login`"@,
            SolidError::NoConfigDir => "no config dir"@,
            SolidError::ConfigInvalid => "config.json is not JSON"@,
            SolidError::TokenExpired => "token expired, no refresh — re-login"@,
            SolidError::RefreshFailed(body) => "refresh failed: "@ + body@,
            SolidError::ExchangeFailed(body) => "token exchange failed: "@ + body@,
            SolidError::DiscoveryFailed(_) => "OIDC discovery failed"@,
            SolidError::RegistrationFailed(_) => "client registration failed"@,
            SolidError::NoAuthorizationEndpoint => "no authorization_endpoint"@,
            SolidError::NoTokenEndpoint => "no token_endpoint"@,
            SolidError::NoRegistrationEndpoint => "no registration_endpoint"@,
            SolidError::NoClientId => "no client_id"@,
            SolidError::StateMismatch => "state mismatch"@,
            SolidError::NoCode => "no code in callback"@,
            SolidError::CallbackClosed => "callback server closed"@,
            SolidError::Status { status, body } => status@ + ": "@ + body@,
            SolidError::KeyEncoding(said) => said@,
            SolidError::KeyInvalid(said) => said@,
            SolidError::KeyLength => "key has the wrong length"@,
            SolidError::ClockBeforeEpoch => "clock is before the Unix epoch"@,
            SolidError::ExpiryOverflow => "token lifetime is out of range"@,
            SolidError::Signing => "signature operation failed"@,
            SolidError::Json => "value cannot be written as JSON"@,
        }
    }

    /// The message that goes with the failure.
    pub fn message(&self) -> (m: String)
        ensures
            m@ == self.text(),
    {
        match self {
            SolidError::NotLoggedIn => "not logged in — run `solid login`".to_owned(),
            SolidError::NoConfigDir => "no config dir".to_owned(),
            SolidError::ConfigInvalid => "config.json is not JSON".to_owned(),
            SolidError::TokenExpired => "token expired, no refresh — re-login".to_owned(),
            SolidError::RefreshFailed(body) => "refresh failed: ".to_owned().concat(body.as_str()),
            SolidError::ExchangeFailed(body) => "token exchange failed: ".to_owned().concat(
                body.as_str(),
            ),
            SolidError::DiscoveryFailed(_) => "OIDC discovery failed".to_owned(),
            SolidError::RegistrationFailed(_) => "client registration failed".to_owned(),
            SolidError::NoAuthorizationEndpoint => "no authorization_endpoint".to_owned(),
            SolidError::NoTokenEndpoint => "no token_endpoint".to_owned(),
            SolidError::NoRegistrationEndpoint => "no registration_endpoint".to_owned(),
            SolidError::NoClientId => "no client_id".to_owned(),
            SolidError::StateMismatch => "state mismatch".to_owned(),
            SolidError::NoCode => "no code in callback".to_owned(),
            SolidError::CallbackClosed => "callback server closed".to_owned(),
            SolidError::Status { status, body } => status.clone().concat(": ").concat(body.as_str()),
            SolidError::KeyEncoding(said) => said.clone(),
            SolidError::KeyInvalid(said) => said.clone(),
            SolidError::KeyLength => "key has the wrong length".to_owned(),
            SolidError::ClockBeforeEpoch => "clock is before the Unix epoch".to_owned(),
            SolidError::ExpiryOverflow => "token lifetime is out of range".to_owned(),
            SolidError::Signing => "signature operation failed".to_owned(),
            SolidError::Json => "value cannot be written as JSON".to_owned(),
        }
    }
}

/// A failure that somebody else explained is reported in their words.
pub proof fn law_messages_carry_the_words(a: String, b: String)
    ensures
        SolidError::RefreshFailed(a).text() == "refresh failed: "@ + a@,
        SolidError::ExchangeFailed(a).text() == "token exchange failed: "@ + a@,
        (SolidError::Status { status: a, body: b }).text() == a@ + ": "@ + b@,
        SolidError::KeyEncoding(a).text() == a@,
        SolidError::KeyInvalid(a).text() == a@,
        SolidError::DiscoveryFailed(a).text() == "OIDC discovery failed"@,
        SolidError::RegistrationFailed(a).text() == "client registration failed"@,
{
}

} // verus!
