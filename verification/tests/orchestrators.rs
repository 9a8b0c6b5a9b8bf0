//! The two handshake orchestrators: the server's session loop, its restart
//! on out-of-state messages, the credential store's capacity boundary, and
//! the client's fail-fast run.

use pake_serial::client::{ClientDirective, ClientOrchestrator, ClientState};
use pake_serial::msg::Message;
use pake_serial::server::{Mode, ServerDirective, ServerOrchestrator, ServerState};
use pake_serial::store::SingleUserDatabase;

fn registration() -> Message {
    Message::Registration {
        username: b"alice".to_vec(),
        salt: b"c2FsdHNhbHRzYWx0".to_vec(),
        params: b"ln=16,r=8,p=1".to_vec(),
        verifier: vec![7; 32],
    }
}

fn run_clean_session(server: &mut ServerOrchestrator<100>) {
    server.begin_session();
    assert_eq!(server.current_state(), ServerState::AwaitNonce);
    let d = server.on_message(Message::Nonce(vec![1; 16]));
    assert_eq!(d, ServerDirective::AgreeSsid { nonce: vec![1; 16] });
    let d = server.on_message(Message::Username(b"alice".to_vec()));
    assert_eq!(d, ServerDirective::ClientInfo { username: b"alice".to_vec() });
    let d = server.on_message(Message::PublicKey(vec![2; 32]));
    assert_eq!(d, ServerDirective::ClientPublicKey { public_key: vec![2; 32] });
    let d = server.on_message(Message::Authenticator(vec![3; 64]));
    assert_eq!(d, ServerDirective::VerifyAuthenticator { authenticator: vec![3; 64] });
    assert_eq!(server.current_state(), ServerState::SessionReady);
}

#[test]
fn server_full_session_flow() {
    let mut server = ServerOrchestrator::<100>::new(Mode::Plain);
    assert_eq!(server.current_state(), ServerState::AwaitRegistration);
    let d = server.on_message(registration());
    assert_eq!(d, ServerDirective::Registered { username: b"alice".to_vec() });
    assert_eq!(server.current_state(), ServerState::SessionReady);
    run_clean_session(&mut server);
    // The server loops forever: the next session follows at once.
    run_clean_session(&mut server);
}

#[test]
fn server_ignores_wrong_message_before_registration() {
    let mut server = ServerOrchestrator::<100>::new(Mode::Plain);
    let d = server.on_message(Message::Nonce(vec![1; 16]));
    assert_eq!(d, ServerDirective::Ignored);
    assert_eq!(server.current_state(), ServerState::AwaitRegistration);
    // The strong family's registration is not this deployment's.
    let d = server.on_message(Message::StrongRegistration {
        username: b"alice".to_vec(),
        secret_exponent: vec![1; 32],
        params: vec![],
        verifier: vec![7; 32],
    });
    assert_eq!(d, ServerDirective::Ignored);
    assert_eq!(server.current_state(), ServerState::AwaitRegistration);
}

#[test]
fn out_of_state_message_restarts_exactly_one_session() {
    let mut server = ServerOrchestrator::<100>::new(Mode::Plain);
    server.on_message(registration());
    server.begin_session();
    server.on_message(Message::Nonce(vec![1; 16]));
    assert_eq!(server.current_state(), ServerState::AwaitUsername);

    // An authenticator while the server awaits the username: one restart.
    let d = server.on_message(Message::Authenticator(vec![9; 64]));
    assert_eq!(d, ServerDirective::Restart);
    assert_eq!(server.current_state(), ServerState::SessionReady);

    // The credential store is not corrupted ...
    let rec = server.lookup_verifier(b"alice").expect("record must survive the restart");
    assert_eq!(rec.0, vec![7; 32]);
    assert_eq!(rec.1, b"c2FsdHNhbHRzYWx0".to_vec());
    assert_eq!(rec.2, b"ln=16,r=8,p=1".to_vec());

    // ... and the loop goes on: the next session runs to completion.
    run_clean_session(&mut server);
}

#[test]
fn restart_in_every_session_state() {
    let wrong = Message::AugmentationInfo(vec![1, 2, 3]);
    for n in 0..3usize {
        let mut server = ServerOrchestrator::<100>::new(Mode::Plain);
        server.on_message(registration());
        server.begin_session();
        let good = [
            Message::Nonce(vec![1; 16]),
            Message::Username(b"alice".to_vec()),
            Message::PublicKey(vec![2; 32]),
        ];
        for m in good.iter().take(n) {
            server.on_message(m.clone());
        }
        let d = server.on_message(wrong.clone());
        assert_eq!(d, ServerDirective::Restart);
        assert_eq!(server.current_state(), ServerState::SessionReady);
    }
}

#[test]
fn registration_at_bound_and_one_over() {
    // Exactly at the store's bound: accepted and retrievable.
    let mut server = ServerOrchestrator::<5>::new(Mode::Plain);
    let d = server.on_message(registration());
    assert_eq!(d, ServerDirective::Registered { username: b"alice".to_vec() });
    assert!(server.lookup_verifier(b"alice").is_some());

    // One byte over: rejected, the server keeps waiting.
    let mut server = ServerOrchestrator::<4>::new(Mode::Plain);
    let d = server.on_message(registration());
    assert_eq!(d, ServerDirective::RegistrationRejected);
    assert_eq!(server.current_state(), ServerState::AwaitRegistration);
    assert!(server.lookup_verifier(b"alice").is_none());
}

#[test]
fn store_capacity_boundary_preserves_prior_state() {
    let mut db: SingleUserDatabase<5> = Default::default();
    db.store_verifier(b"alice", b"salt1".to_vec(), None, vec![1; 32], b"p1".to_vec());
    let at_bound = db.lookup_verifier(b"alice").expect("at the bound the store succeeds");
    assert_eq!(at_bound.0, vec![1; 32]);

    // One byte over the bound leaves the store unchanged from its prior
    // state: the old record is still there, the new name is not.
    db.store_verifier(b"abcdef", b"salt2".to_vec(), None, vec![2; 32], b"p2".to_vec());
    assert!(db.lookup_verifier(b"abcdef").is_none());
    let kept = db.lookup_verifier(b"alice").expect("prior record must survive");
    assert_eq!(kept.0, vec![1; 32]);
    assert_eq!(kept.1, b"salt1".to_vec());
    assert_eq!(kept.2, b"p1".to_vec());
}

#[test]
fn store_overwrites_on_reregistration() {
    let mut db: SingleUserDatabase<10> = SingleUserDatabase::new();
    db.store_verifier(b"alice", b"s1".to_vec(), None, vec![1; 32], b"p1".to_vec());
    db.store_verifier(b"bob", b"s2".to_vec(), None, vec![2; 32], b"p2".to_vec());
    assert!(db.lookup_verifier(b"alice").is_none(), "the single slot was overwritten");
    assert_eq!(db.lookup_verifier(b"bob").unwrap().0, vec![2; 32]);
}

#[test]
fn strong_store_keeps_exponent_in_salt_slot() {
    let mut db: SingleUserDatabase<10> = SingleUserDatabase::new();
    db.store_verifier_strong(b"alice", None, vec![1; 32], vec![9; 32], b"p".to_vec());
    let rec = db.lookup_verifier_strong(b"alice").unwrap();
    assert_eq!(rec.0, vec![1; 32]);
    assert_eq!(rec.1, vec![9; 32]);
    assert_eq!(rec.2, b"p".to_vec());
}

#[test]
fn strong_server_session_flow() {
    let mut server = ServerOrchestrator::<100>::new(Mode::Strong);
    let d = server.on_message(Message::StrongRegistration {
        username: b"alice".to_vec(),
        secret_exponent: vec![5; 32],
        params: b"p".to_vec(),
        verifier: vec![6; 32],
    });
    assert_eq!(d, ServerDirective::Registered { username: b"alice".to_vec() });
    server.begin_session();
    server.on_message(Message::Nonce(vec![1; 16]));
    let d = server.on_message(Message::StrongUsername {
        username: b"alice".to_vec(),
        blinded: vec![8; 32],
    });
    assert_eq!(
        d,
        ServerDirective::ClientInfoStrong {
            username: b"alice".to_vec(),
            blinded: vec![8; 32],
        }
    );
    // The plain family's username message is out of state here.
    let mut server = ServerOrchestrator::<100>::new(Mode::Strong);
    server.on_message(Message::StrongRegistration {
        username: b"alice".to_vec(),
        secret_exponent: vec![5; 32],
        params: b"p".to_vec(),
        verifier: vec![6; 32],
    });
    server.begin_session();
    server.on_message(Message::Nonce(vec![1; 16]));
    let d = server.on_message(Message::Username(b"alice".to_vec()));
    assert_eq!(d, ServerDirective::Restart);
}

#[test]
fn bytes_sent_accumulates() {
    let mut server = ServerOrchestrator::<100>::new(Mode::Plain);
    assert_eq!(server.total_sent(), 0);
    server.record_sent(17);
    server.record_sent(25);
    assert_eq!(server.total_sent(), 42);
}

#[test]
fn bytes_sent_saturates_instead_of_panicking() {
    let mut server = ServerOrchestrator::<100>::new(Mode::Plain);
    server.record_sent(usize::MAX);
    server.record_sent(usize::MAX);
    assert_eq!(server.total_sent(), u64::MAX);
}

#[test]
fn client_happy_run() {
    let mut client = ClientOrchestrator::new(Mode::Plain);
    assert_eq!(client.current_state(), ClientState::Start);
    client.begin();
    let d = client.on_message(Message::Nonce(vec![2; 16]));
    assert_eq!(d, ClientDirective::AgreeSsid { nonce: vec![2; 16] });
    let d = client.on_message(Message::AugmentationInfo(vec![1, 2, 3]));
    assert_eq!(d, ClientDirective::Augmentation { info: vec![1, 2, 3] });
    let d = client.on_message(Message::PublicKey(vec![3; 32]));
    assert_eq!(d, ClientDirective::ServerPublicKey { public_key: vec![3; 32] });
    let d = client.on_message(Message::Authenticator(vec![4; 64]));
    assert_eq!(d, ClientDirective::ServerAuthenticator { authenticator: vec![4; 64] });
    assert_eq!(client.current_state(), ClientState::Done);
}

#[test]
fn client_aborts_whole_run_on_unexpected_message() {
    let mut client = ClientOrchestrator::new(Mode::Plain);
    client.begin();
    client.on_message(Message::Nonce(vec![2; 16]));
    // An authenticator while awaiting the augmentation info: fatal.
    let d = client.on_message(Message::Authenticator(vec![9; 64]));
    assert_eq!(d, ClientDirective::Abort);
    assert_eq!(client.current_state(), ClientState::Failed);
}
