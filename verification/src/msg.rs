//! The message envelope: the closed set of variants the two endpoints
//! exchange on the wire. Every field is a plain byte string; values that the
//! cryptographic engine produces (points, scalars, salts, parameter strings)
//! travel through the core as opaque bytes.

use vstd::prelude::*;

verus! {

/// One wire message. Exactly one of the "plain" family (`Registration`,
/// `Username`) or the "strong" family (`StrongRegistration`,
/// `StrongUsername`) is in use per deployment; the codec carries both.
#[derive(Debug, Clone, PartialEq, Eq)]
pub enum Message {
    /// Long-lived registration: username, salt, password-hash parameters and
    /// the password verifier.
    Registration { username: Vec<u8>, salt: Vec<u8>, params: Vec<u8>, verifier: Vec<u8> },
    /// Strong-variant registration: the salt is replaced by a secret exponent.
    StrongRegistration {
        username: Vec<u8>,
        secret_exponent: Vec<u8>,
        params: Vec<u8>,
        verifier: Vec<u8>,
    },
    /// Session-identifier establishment: one endpoint's nonce.
    Nonce(Vec<u8>),
    /// The client's username, opening the augmentation layer.
    Username(Vec<u8>),
    /// Strong-variant username message, carrying the blinded point.
    StrongUsername { username: Vec<u8>, blinded: Vec<u8> },
    /// The server's augmentation information, an opaque engine payload.
    AugmentationInfo(Vec<u8>),
    /// A Diffie-Hellman public key.
    PublicKey(Vec<u8>),
    /// An explicit-mutual-authentication authenticator.
    Authenticator(Vec<u8>),
}

/// The mathematical model of a message: the same variants over `Seq<u8>`.
pub enum MessageView {
    Registration { username: Seq<u8>, salt: Seq<u8>, params: Seq<u8>, verifier: Seq<u8> },
    StrongRegistration {
        username: Seq<u8>,
        secret_exponent: Seq<u8>,
        params: Seq<u8>,
        verifier: Seq<u8>,
    },
    Nonce(Seq<u8>),
    Username(Seq<u8>),
    StrongUsername { username: Seq<u8>, blinded: Seq<u8> },
    AugmentationInfo(Seq<u8>),
    PublicKey(Seq<u8>),
    Authenticator(Seq<u8>),
}

impl View for Message {
    type V = MessageView;

    open spec fn view(&self) -> MessageView {
        match self {
            Message::Registration { username, salt, params, verifier } => {
                MessageView::Registration {
                    username: username@,
                    salt: salt@,
                    params: params@,
                    verifier: verifier@,
                }
            },
            Message::StrongRegistration { username, secret_exponent, params, verifier } => {
                MessageView::StrongRegistration {
                    username: username@,
                    secret_exponent: secret_exponent@,
                    params: params@,
                    verifier: verifier@,
                }
            },
            Message::Nonce(b) => MessageView::Nonce(b@),
            Message::Username(b) => MessageView::Username(b@),
            Message::StrongUsername { username, blinded } => {
                MessageView::StrongUsername { username: username@, blinded: blinded@ }
            },
            Message::AugmentationInfo(b) => MessageView::AugmentationInfo(b@),
            Message::PublicKey(b) => MessageView::PublicKey(b@),
            Message::Authenticator(b) => MessageView::Authenticator(b@),
        }
    }
}

} // verus!
