//! The server-side handshake orchestrator: a long-lived state machine that
//! waits for one registration and then drives an unbounded sequence of
//! key-agreement sessions over a noisy channel.
//!
//! The orchestrator decides; the cryptographic engine computes. Every
//! transition returns a directive naming the engine step the caller must
//! run — nonce agreement, client-info generation, public-key exchange,
//! authenticator verification — with the message bytes that step consumes.
//! An out-of-state message restarts the whole session: the orchestrator
//! never buffers or re-interprets it.

use vstd::prelude::*;
use crate::msg::{Message, MessageView};
use crate::store::{RecordView, SingleUserDatabase};

verus! {

/// Which augmentation family the deployment runs. Exactly one is in use
/// per deployment, chosen at configuration time.
#[derive(Clone, Copy, Debug, PartialEq, Eq, Structural)]
pub enum Mode {
    /// Verifier and salt.
    Plain,
    /// Verifier and blinding scalar.
    Strong,
}

/// The server's states, one per awaited message, plus the ready state
/// between sessions.
#[derive(Clone, Copy, Debug, PartialEq, Eq, Structural)]
pub enum ServerState {
    /// Before the first successful registration.
    AwaitRegistration,
    /// Between sessions: the next `begin_session` opens one.
    SessionReady,
    /// Awaiting the client's nonce.
    AwaitNonce,
    /// Awaiting the client's username message.
    AwaitUsername,
    /// Awaiting the client's public key.
    AwaitPublicKey,
    /// Awaiting the client's authenticator.
    AwaitAuthenticator,
}

/// What the caller must do after a transition, in the model.
pub enum ServerDirectiveView {
    /// A registration was accepted and stored; sessions may begin.
    Registered { username: Seq<u8> },
    /// A registration named a username over the store's bound: reported,
    /// nothing stored, keep waiting.
    RegistrationRejected,
    /// A non-registration message before registration: reported, ignored.
    Ignored,
    /// Agree on the session identifier from the client's nonce, then send
    /// the server nonce.
    AgreeSsid { nonce: Seq<u8> },
    /// Generate the augmentation info for this username and send it.
    ClientInfo { username: Seq<u8> },
    /// The strong variant: the username arrives with a blinded point.
    ClientInfoStrong { username: Seq<u8>, blinded: Seq<u8> },
    /// Send the server public key, then take in the client's.
    ClientPublicKey { public_key: Seq<u8> },
    /// Verify the client's authenticator; on success send the server's and
    /// report the derived key, on failure report it. Either way the session
    /// is over.
    VerifyAuthenticator { authenticator: Seq<u8> },
    /// Out-of-state message: drop it, report, restart the session.
    Restart,
}

/// What the caller must do after a transition.
#[derive(Debug, PartialEq, Eq)]
pub enum ServerDirective {
    Registered { username: Vec<u8> },
    RegistrationRejected,
    Ignored,
    AgreeSsid { nonce: Vec<u8> },
    ClientInfo { username: Vec<u8> },
    ClientInfoStrong { username: Vec<u8>, blinded: Vec<u8> },
    ClientPublicKey { public_key: Vec<u8> },
    VerifyAuthenticator { authenticator: Vec<u8> },
    Restart,
}

impl View for ServerDirective {
    type V = ServerDirectiveView;

    open spec fn view(&self) -> ServerDirectiveView {
        match self {
            ServerDirective::Registered { username } => ServerDirectiveView::Registered {
                username: username@,
            },
            ServerDirective::RegistrationRejected => ServerDirectiveView::RegistrationRejected,
            ServerDirective::Ignored => ServerDirectiveView::Ignored,
            ServerDirective::AgreeSsid { nonce } => ServerDirectiveView::AgreeSsid {
                nonce: nonce@,
            },
            ServerDirective::ClientInfo { username } => ServerDirectiveView::ClientInfo {
                username: username@,
            },
            ServerDirective::ClientInfoStrong { username, blinded } => {
                ServerDirectiveView::ClientInfoStrong { username: username@, blinded: blinded@ }
            },
            ServerDirective::ClientPublicKey { public_key } => {
                ServerDirectiveView::ClientPublicKey { public_key: public_key@ }
            },
            ServerDirective::VerifyAuthenticator { authenticator } => {
                ServerDirectiveView::VerifyAuthenticator { authenticator: authenticator@ }
            },
            ServerDirective::Restart => ServerDirectiveView::Restart,
        }
    }
}

/// The transition table of the server: from a state, the deployment mode
/// and an incoming message to the next state and the directive. `bound` is
/// the credential store's username bound.
pub open spec fn server_step(s: ServerState, mode: Mode, m: MessageView, bound: nat) -> (
    ServerState,
    ServerDirectiveView,
) {
    match s {
        ServerState::AwaitRegistration => match (mode, m) {
            (Mode::Plain, MessageView::Registration { username, .. }) => {
                if username.len() <= bound {
                    (ServerState::SessionReady, ServerDirectiveView::Registered { username })
                } else {
                    (
                        ServerState::AwaitRegistration,
                        ServerDirectiveView::RegistrationRejected,
                    )
                }
            },
            (Mode::Strong, MessageView::StrongRegistration { username, .. }) => {
                if username.len() <= bound {
                    (ServerState::SessionReady, ServerDirectiveView::Registered { username })
                } else {
                    (
                        ServerState::AwaitRegistration,
                        ServerDirectiveView::RegistrationRejected,
                    )
                }
            },
            _ => (ServerState::AwaitRegistration, ServerDirectiveView::Ignored),
        },
        ServerState::SessionReady => (ServerState::SessionReady, ServerDirectiveView::Ignored),
        ServerState::AwaitNonce => match m {
            MessageView::Nonce(nonce) => (
                ServerState::AwaitUsername,
                ServerDirectiveView::AgreeSsid { nonce },
            ),
            _ => (ServerState::SessionReady, ServerDirectiveView::Restart),
        },
        ServerState::AwaitUsername => match (mode, m) {
            (Mode::Plain, MessageView::Username(username)) => (
                ServerState::AwaitPublicKey,
                ServerDirectiveView::ClientInfo { username },
            ),
            (Mode::Strong, MessageView::StrongUsername { username, blinded }) => (
                ServerState::AwaitPublicKey,
                ServerDirectiveView::ClientInfoStrong { username, blinded },
            ),
            _ => (ServerState::SessionReady, ServerDirectiveView::Restart),
        },
        ServerState::AwaitPublicKey => match m {
            MessageView::PublicKey(public_key) => (
                ServerState::AwaitAuthenticator,
                ServerDirectiveView::ClientPublicKey { public_key },
            ),
            _ => (ServerState::SessionReady, ServerDirectiveView::Restart),
        },
        ServerState::AwaitAuthenticator => match m {
            MessageView::Authenticator(authenticator) => (
                ServerState::SessionReady,
                ServerDirectiveView::VerifyAuthenticator { authenticator },
            ),
            _ => (ServerState::SessionReady, ServerDirectiveView::Restart),
        },
    }
}

/// What the credential store holds after a transition: only an accepted
/// registration in the registration state writes it.
pub open spec fn record_after(
    s: ServerState,
    mode: Mode,
    m: MessageView,
    bound: nat,
    prior: Option<RecordView>,
) -> Option<RecordView> {
    if s is AwaitRegistration {
        match (mode, m) {
            (Mode::Plain, MessageView::Registration { username, salt, params, verifier }) => {
                if username.len() <= bound {
                    Some(RecordView { username, verifier, salt_or_exponent: salt, params })
                } else {
                    prior
                }
            },
            (
                Mode::Strong,
                MessageView::StrongRegistration { username, secret_exponent, params, verifier },
            ) => {
                if username.len() <= bound {
                    Some(
                        RecordView { username, verifier, salt_or_exponent: secret_exponent, params },
                    )
                } else {
                    prior
                }
            },
            _ => prior,
        }
    } else {
        prior
    }
}

/// The states in which the server is inside a session, awaiting a client
/// message.
pub open spec fn in_session(s: ServerState) -> bool {
    ||| s is AwaitNonce
    ||| s is AwaitUsername
    ||| s is AwaitPublicKey
    ||| s is AwaitAuthenticator
}

/// The message variant a session state expects of the client.
pub open spec fn expected(s: ServerState, mode: Mode, m: MessageView) -> bool {
    match s {
        ServerState::AwaitNonce => m is Nonce,
        ServerState::AwaitUsername => {
            if mode is Plain {
                m is Username
            } else {
                m is StrongUsername
            }
        },
        ServerState::AwaitPublicKey => m is PublicKey,
        ServerState::AwaitAuthenticator => m is Authenticator,
        _ => false,
    }
}

/// Sequencing restart: a structurally valid message arriving in a session
/// state that does not expect it causes exactly one restart — the next
/// state is the ready state, from which the loop goes on — and leaves the
/// credential store exactly as it was. One noisy frame costs one session,
/// never the server.
pub proof fn lemma_sequencing_restart(
    s: ServerState,
    mode: Mode,
    m: MessageView,
    bound: nat,
    prior: Option<RecordView>,
)
    requires
        in_session(s),
        !expected(s, mode, m),
    ensures
        server_step(s, mode, m, bound).0 is SessionReady,
        server_step(s, mode, m, bound).1 is Restart,
        record_after(s, mode, m, bound, prior) == prior,
{
}

/// Capacity boundary: a registration whose username sits exactly at the
/// store's bound is accepted — stored with those very fields, and sessions
/// may begin — while one byte over leaves the store unchanged from its
/// prior state and the server still awaiting registration. That the stored
/// record is retrievable is `lookup_verifier`'s contract: it returns the
/// record's fields exactly when the names match.
pub proof fn lemma_capacity_boundary(
    username: Seq<u8>,
    salt: Seq<u8>,
    params: Seq<u8>,
    verifier: Seq<u8>,
    bound: nat,
    prior: Option<RecordView>,
)
    ensures
        ({
            let m = MessageView::Registration { username, salt, params, verifier };
            let s0 = ServerState::AwaitRegistration;
            &&& username.len() == bound ==> {
                &&& record_after(s0, Mode::Plain, m, bound, prior) == Some(
                    RecordView { username, verifier, salt_or_exponent: salt, params },
                )
                &&& server_step(s0, Mode::Plain, m, bound).0 is SessionReady
            }
            &&& username.len() == bound + 1 ==> {
                &&& record_after(s0, Mode::Plain, m, bound, prior) == prior
                &&& server_step(s0, Mode::Plain, m, bound).0 is AwaitRegistration
            }
        }),
{
}

/// An expected message always advances the session: the step never
/// restarts, and only an accepted registration touches the store.
pub proof fn lemma_expected_advances(s: ServerState, mode: Mode, m: MessageView, bound: nat)
    requires
        in_session(s),
        expected(s, mode, m),
    ensures
        !(server_step(s, mode, m, bound).1 is Restart),
        s is AwaitAuthenticator <==> server_step(s, mode, m, bound).0 is SessionReady,
{
}

/// The server orchestrator: the current state, the deployment mode, the
/// credential store, and the running count of bytes sent, kept for
/// diagnostics.
pub struct ServerOrchestrator<const USERSIZE: usize> {
    state: ServerState,
    mode: Mode,
    db: SingleUserDatabase<USERSIZE>,
    bytes_sent: u64,
}

impl<const USERSIZE: usize> ServerOrchestrator<USERSIZE> {
    /// The store's slot is always consistent.
    pub closed spec fn wf(&self) -> bool {
        self.db.wf()
    }

    /// The current state, in the model.
    pub closed spec fn state(&self) -> ServerState {
        self.state
    }

    /// The deployment mode, in the model.
    pub closed spec fn mode_spec(&self) -> Mode {
        self.mode
    }

    /// The stored credential record, in the model.
    pub closed spec fn record(&self) -> Option<RecordView> {
        self.db.record()
    }

    /// Bytes sent so far, in the model.
    pub closed spec fn sent(&self) -> u64 {
        self.bytes_sent
    }

    /// A fresh server: awaiting registration, an empty store, nothing sent.
    pub fn new(mode: Mode) -> (r: Self)
        ensures
            r.wf(),
            r.state() is AwaitRegistration,
            r.mode_spec() == mode,
            r.record() is None,
            r.sent() == 0,
    {
        ServerOrchestrator {
            state: ServerState::AwaitRegistration,
            mode,
            db: SingleUserDatabase::new(),
            bytes_sent: 0,
        }
    }

    /// The current state.
    pub fn current_state(&self) -> (r: ServerState)
        ensures
            r == self.state(),
    {
        self.state
    }

    /// Total bytes sent so far, as recorded by `record_sent`.
    pub fn total_sent(&self) -> (r: u64)
        ensures
            r == self.sent(),
    {
        self.bytes_sent
    }

    /// Opens the next session: only from the ready state, and the server
    /// then awaits the client's nonce. The caller starts the engine and
    /// holds the server nonce message it yields until the client's nonce
    /// arrives.
    pub fn begin_session(&mut self)
        requires
            old(self).wf(),
            old(self).state() is SessionReady,
        ensures
            final(self).wf(),
            final(self).state() is AwaitNonce,
            final(self).mode_spec() == old(self).mode_spec(),
            final(self).record() == old(self).record(),
            final(self).sent() == old(self).sent(),
    {
        self.state = ServerState::AwaitNonce;
    }

    /// Feeds one decoded message to the state machine and says what to do
    /// next. The transition follows `server_step` exactly; the store
    /// changes only as `record_after` says — that is, only by an accepted
    /// registration.
    pub fn on_message(&mut self, m: Message) -> (r: ServerDirective)
        requires
            old(self).wf(),
            !(old(self).state() is SessionReady),
        ensures
            final(self).wf(),
            final(self).mode_spec() == old(self).mode_spec(),
            final(self).sent() == old(self).sent(),
            final(self).state() == server_step(
                old(self).state(),
                old(self).mode_spec(),
                m@,
                USERSIZE as nat,
            ).0,
            r@ == server_step(old(self).state(), old(self).mode_spec(), m@, USERSIZE as nat).1,
            final(self).record() == record_after(
                old(self).state(),
                old(self).mode_spec(),
                m@,
                USERSIZE as nat,
                old(self).record(),
            ),
    {
        match self.state {
            ServerState::AwaitRegistration => {
                match (self.mode, m) {
                    (Mode::Plain, Message::Registration { username, salt, params, verifier }) => {
                        if username.len() <= USERSIZE {
                            self.db.store_verifier(
                                username.as_slice(),
                                salt,
                                None,
                                verifier,
                                params,
                            );
                            self.state = ServerState::SessionReady;
                            ServerDirective::Registered { username }
                        } else {
                            ServerDirective::RegistrationRejected
                        }
                    },
                    (
                        Mode::Strong,
                        Message::StrongRegistration { username, secret_exponent, params, verifier },
                    ) => {
                        if username.len() <= USERSIZE {
                            self.db.store_verifier_strong(
                                username.as_slice(),
                                None,
                                verifier,
                                secret_exponent,
                                params,
                            );
                            self.state = ServerState::SessionReady;
                            ServerDirective::Registered { username }
                        } else {
                            ServerDirective::RegistrationRejected
                        }
                    },
                    _ => ServerDirective::Ignored,
                }
            },
            ServerState::SessionReady => ServerDirective::Ignored,
            ServerState::AwaitNonce => {
                match m {
                    Message::Nonce(nonce) => {
                        self.state = ServerState::AwaitUsername;
                        ServerDirective::AgreeSsid { nonce }
                    },
                    _ => {
                        self.state = ServerState::SessionReady;
                        ServerDirective::Restart
                    },
                }
            },
            ServerState::AwaitUsername => {
                match (self.mode, m) {
                    (Mode::Plain, Message::Username(username)) => {
                        self.state = ServerState::AwaitPublicKey;
                        ServerDirective::ClientInfo { username }
                    },
                    (Mode::Strong, Message::StrongUsername { username, blinded }) => {
                        self.state = ServerState::AwaitPublicKey;
                        ServerDirective::ClientInfoStrong { username, blinded }
                    },
                    _ => {
                        self.state = ServerState::SessionReady;
                        ServerDirective::Restart
                    },
                }
            },
            ServerState::AwaitPublicKey => {
                match m {
                    Message::PublicKey(public_key) => {
                        self.state = ServerState::AwaitAuthenticator;
                        ServerDirective::ClientPublicKey { public_key }
                    },
                    _ => {
                        self.state = ServerState::SessionReady;
                        ServerDirective::Restart
                    },
                }
            },
            ServerState::AwaitAuthenticator => {
                match m {
                    Message::Authenticator(authenticator) => {
                        self.state = ServerState::SessionReady;
                        ServerDirective::VerifyAuthenticator { authenticator }
                    },
                    _ => {
                        self.state = ServerState::SessionReady;
                        ServerDirective::Restart
                    },
                }
            },
        }
    }

    /// The stored record for a username, handed to the engine's
    /// augmentation step.
    pub fn lookup_verifier(&self, username: &[u8]) -> (r: Option<(Vec<u8>, Vec<u8>, Vec<u8>)>)
        requires
            self.wf(),
        ensures
            match r {
                Some(t) => {
                    &&& self.record() is Some
                    &&& self.record().unwrap().username == username@
                    &&& t.0@ == self.record().unwrap().verifier
                    &&& t.1@ == self.record().unwrap().salt_or_exponent
                    &&& t.2@ == self.record().unwrap().params
                },
                None => self.record() is None || self.record().unwrap().username != username@,
            },
    {
        self.db.lookup_verifier(username)
    }

    /// The strong variant of the lookup.
    pub fn lookup_verifier_strong(&self, username: &[u8]) -> (r: Option<
        (Vec<u8>, Vec<u8>, Vec<u8>),
    >)
        requires
            self.wf(),
        ensures
            match r {
                Some(t) => {
                    &&& self.record() is Some
                    &&& self.record().unwrap().username == username@
                    &&& t.0@ == self.record().unwrap().verifier
                    &&& t.1@ == self.record().unwrap().salt_or_exponent
                    &&& t.2@ == self.record().unwrap().params
                },
                None => self.record() is None || self.record().unwrap().username != username@,
            },
    {
        self.db.lookup_verifier_strong(username)
    }

    /// Adds one send's byte count to the running total, saturating at the
    /// counter's top: diagnostics never panic the server.
    pub fn record_sent(&mut self, n: usize)
        requires
            old(self).wf(),
        ensures
            final(self).wf(),
            final(self).state() == old(self).state(),
            final(self).mode_spec() == old(self).mode_spec(),
            final(self).record() == old(self).record(),
            final(self).sent() == if old(self).sent() + n <= u64::MAX {
                old(self).sent() + n
            } else {
                u64::MAX as int
            },
    {
        let n64 = n as u64;
        if self.bytes_sent <= u64::MAX - n64 {
            self.bytes_sent = self.bytes_sent + n64;
        } else {
            self.bytes_sent = u64::MAX;
        }
    }
}

} // verus!
