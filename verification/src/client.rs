//! The client-side handshake orchestrator: the mirror of the server,
//! driven rather than reactive. One run is one handshake attempt; the
//! client never restarts a session. On any unexpected message it fails the
//! whole run and surfaces the failure to its caller — the two sides are
//! asymmetric on purpose: the long-lived server tolerates a noisy channel,
//! the one-shot client does not.

use vstd::prelude::*;
use crate::msg::{Message, MessageView};
use crate::server::Mode;

verus! {

/// The client's states along its single run.
#[derive(Clone, Copy, Debug, PartialEq, Eq, Structural)]
pub enum ClientState {
    /// Before `begin`: nothing sent yet.
    Start,
    /// Own nonce sent; awaiting the server's nonce.
    AwaitNonce,
    /// Username sent; awaiting the augmentation info.
    AwaitAugmentationInfo,
    /// Own public key sent; awaiting the server's public key.
    AwaitPublicKey,
    /// Own authenticator sent; awaiting the server's authenticator.
    AwaitAuthenticator,
    /// The run ended with the server's authenticator in hand.
    Done,
    /// The run failed on an unexpected message; fatal to this run.
    Failed,
}

/// What the caller must do after a client transition, in the model.
pub enum ClientDirectiveView {
    /// Agree on the session identifier from the server's nonce, then send
    /// the username message of the deployment's mode.
    AgreeSsid { nonce: Seq<u8> },
    /// Feed the augmentation info to the engine, then send the public key
    /// it yields.
    Augmentation { info: Seq<u8> },
    /// Take in the server's public key, then send the authenticator.
    ServerPublicKey { public_key: Seq<u8> },
    /// Verify the server's authenticator; its verdict is the run's verdict.
    ServerAuthenticator { authenticator: Seq<u8> },
    /// Unexpected message: the run is over, surface the failure.
    Abort,
}

/// What the caller must do after a client transition.
#[derive(Debug, PartialEq, Eq)]
pub enum ClientDirective {
    AgreeSsid { nonce: Vec<u8> },
    Augmentation { info: Vec<u8> },
    ServerPublicKey { public_key: Vec<u8> },
    ServerAuthenticator { authenticator: Vec<u8> },
    Abort,
}

impl View for ClientDirective {
    type V = ClientDirectiveView;

    open spec fn view(&self) -> ClientDirectiveView {
        match self {
            ClientDirective::AgreeSsid { nonce } => ClientDirectiveView::AgreeSsid {
                nonce: nonce@,
            },
            ClientDirective::Augmentation { info } => ClientDirectiveView::Augmentation {
                info: info@,
            },
            ClientDirective::ServerPublicKey { public_key } => {
                ClientDirectiveView::ServerPublicKey { public_key: public_key@ }
            },
            ClientDirective::ServerAuthenticator { authenticator } => {
                ClientDirectiveView::ServerAuthenticator { authenticator: authenticator@ }
            },
            ClientDirective::Abort => ClientDirectiveView::Abort,
        }
    }
}

/// The states in which the client is awaiting a server message.
pub open spec fn client_awaiting(s: ClientState) -> bool {
    ||| s is AwaitNonce
    ||| s is AwaitAugmentationInfo
    ||| s is AwaitPublicKey
    ||| s is AwaitAuthenticator
}

/// The client's transition table: from an awaiting state and an incoming
/// message to the next state and the directive. Anything unexpected ends
/// the run.
pub open spec fn client_step(s: ClientState, m: MessageView) -> (
    ClientState,
    ClientDirectiveView,
) {
    match s {
        ClientState::AwaitNonce => match m {
            MessageView::Nonce(nonce) => (
                ClientState::AwaitAugmentationInfo,
                ClientDirectiveView::AgreeSsid { nonce },
            ),
            _ => (ClientState::Failed, ClientDirectiveView::Abort),
        },
        ClientState::AwaitAugmentationInfo => match m {
            MessageView::AugmentationInfo(info) => (
                ClientState::AwaitPublicKey,
                ClientDirectiveView::Augmentation { info },
            ),
            _ => (ClientState::Failed, ClientDirectiveView::Abort),
        },
        ClientState::AwaitPublicKey => match m {
            MessageView::PublicKey(public_key) => (
                ClientState::AwaitAuthenticator,
                ClientDirectiveView::ServerPublicKey { public_key },
            ),
            _ => (ClientState::Failed, ClientDirectiveView::Abort),
        },
        ClientState::AwaitAuthenticator => match m {
            MessageView::Authenticator(authenticator) => (
                ClientState::Done,
                ClientDirectiveView::ServerAuthenticator { authenticator },
            ),
            _ => (ClientState::Failed, ClientDirectiveView::Abort),
        },
        _ => (ClientState::Failed, ClientDirectiveView::Abort),
    }
}

/// The client orchestrator: its state and the deployment mode.
pub struct ClientOrchestrator {
    state: ClientState,
    mode: Mode,
}

impl ClientOrchestrator {
    /// The current state, in the model.
    pub closed spec fn state(&self) -> ClientState {
        self.state
    }

    /// The deployment mode, in the model.
    pub closed spec fn mode_spec(&self) -> Mode {
        self.mode
    }

    /// A fresh client, ready to begin a run.
    pub fn new(mode: Mode) -> (r: Self)
        ensures
            r.state() is Start,
            r.mode_spec() == mode,
    {
        ClientOrchestrator { state: ClientState::Start, mode }
    }

    /// The current state.
    pub fn current_state(&self) -> (r: ClientState)
        ensures
            r == self.state(),
    {
        self.state
    }

    /// Begins the run: the caller starts the engine, sends its nonce
    /// message, and the client then awaits the server's nonce.
    pub fn begin(&mut self)
        requires
            old(self).state() is Start,
        ensures
            final(self).state() is AwaitNonce,
            final(self).mode_spec() == old(self).mode_spec(),
    {
        self.state = ClientState::AwaitNonce;
    }

    /// Feeds one decoded server message to the run and says what to do
    /// next, following `client_step` exactly. An unexpected message moves
    /// the run to `Failed`, from which nothing continues.
    pub fn on_message(&mut self, m: Message) -> (r: ClientDirective)
        requires
            client_awaiting(old(self).state()),
        ensures
            final(self).mode_spec() == old(self).mode_spec(),
            final(self).state() == client_step(old(self).state(), m@).0,
            r@ == client_step(old(self).state(), m@).1,
    {
        match self.state {
            ClientState::AwaitNonce => {
                match m {
                    Message::Nonce(nonce) => {
                        self.state = ClientState::AwaitAugmentationInfo;
                        ClientDirective::AgreeSsid { nonce }
                    },
                    _ => {
                        self.state = ClientState::Failed;
                        ClientDirective::Abort
                    },
                }
            },
            ClientState::AwaitAugmentationInfo => {
                match m {
                    Message::AugmentationInfo(info) => {
                        self.state = ClientState::AwaitPublicKey;
                        ClientDirective::Augmentation { info }
                    },
                    _ => {
                        self.state = ClientState::Failed;
                        ClientDirective::Abort
                    },
                }
            },
            ClientState::AwaitPublicKey => {
                match m {
                    Message::PublicKey(public_key) => {
                        self.state = ClientState::AwaitAuthenticator;
                        ClientDirective::ServerPublicKey { public_key }
                    },
                    _ => {
                        self.state = ClientState::Failed;
                        ClientDirective::Abort
                    },
                }
            },
            ClientState::AwaitAuthenticator => {
                match m {
                    Message::Authenticator(authenticator) => {
                        self.state = ClientState::Done;
                        ClientDirective::ServerAuthenticator { authenticator }
                    },
                    _ => {
                        self.state = ClientState::Failed;
                        ClientDirective::Abort
                    },
                }
            },
            _ => {
                self.state = ClientState::Failed;
                ClientDirective::Abort
            },
        }
    }
}

} // verus!
