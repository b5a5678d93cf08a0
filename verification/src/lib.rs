//! The core of a small command-line client for Solid pods.
//!
//! A user logs in with Solid-OIDC and then lists, reads, writes and deletes
//! resources like files. This crate holds what is decided and computed on the
//! way: discovery and client registration, the authorization request with its
//! code challenge, the callback, tokens bound to a key by proofs of possession,
//! the requests to the pod and what is made of its answers, and profiles.
//! Files, sockets and the terminal are left to the program around it.
pub mod b64;
pub mod callback;
pub mod clock;
pub mod crypto;
pub mod dpop;
pub mod error;
pub mod json;
pub mod key;
pub mod login;
pub mod percent;
pub mod profile;
pub mod prompt;
pub mod request;
pub mod resource;
pub mod session;
pub mod text;
pub mod turtle;

pub use callback::{callback_code, can_read_callback};
pub use clock::now;
pub use crypto::{rand_b64, s256};
pub use dpop::{dpop_proof, dpop_proof_at};
pub use error::SolidError;
pub use key::{can_be_key, gen_key, key_from_b64, DpopKey};
pub use percent::{can_urldec, urldec, urlenc};
pub use resource::{guess_type, resolve};
pub use session::{apply_token, apply_token_at, fresh_token, fresh_token_at, Session, TokenResp};
pub use turtle::parse_contains;
