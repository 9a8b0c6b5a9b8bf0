//! End-to-end scenario over the verified core, with the real cryptographic
//! engine at both ends: registration, a full handshake deriving equal keys
//! on both sides, and a second attempt with a wrong password that the
//! server survives.

use aucpace::{AuCPaceClient, AuCPaceServer, ClientMessage, Database, ServerMessage};
use curve25519_dalek::ristretto::{CompressedRistretto, RistrettoPoint};
use pake_serial::client::{ClientDirective, ClientOrchestrator};
use pake_serial::codec::{decode, encode};
use pake_serial::msg::Message;
use pake_serial::receiver::{FrameReceiver, FrameStep};
use pake_serial::server::{Mode, ServerDirective, ServerOrchestrator, ServerState};
use password_hash::{ParamsString, SaltString};
use rand_chacha::ChaCha8Rng;
use rand_core::SeedableRng;
use scrypt::{Params, Scrypt};
use sha2::Sha512;

const CI: &[u8] = b"Server-USART2-Client-SerialPort";

type Engine = AuCPaceServer<Sha512, ChaCha8Rng, 16>;
type ClientEngine = AuCPaceClient<Sha512, Scrypt, ChaCha8Rng, 16>;

/// Encodes a message onto the simulated serial line.
fn send_msg(wire: &mut Vec<u8>, m: &Message) -> usize {
    let f = encode(m).expect("handshake messages fit the frame buffer");
    wire.extend_from_slice(&f);
    f.len()
}

/// Reads from the simulated line in small ragged chunks until a frame
/// decodes.
fn recv_msg(wire: &mut Vec<u8>, rx: &mut FrameReceiver) -> Message {
    loop {
        match rx.next_frame() {
            FrameStep::Frame(f) => return decode(&f).expect("peer sent a valid frame"),
            FrameStep::NeedMore => {
                assert!(!wire.is_empty(), "peer is starved: nothing left to read");
                let k = wire.len().min(5);
                let chunk: Vec<u8> = wire.drain(..k).collect();
                assert_eq!(rx.absorb(&chunk), chunk.len());
            }
            FrameStep::Overflow => panic!("unexpected framing overflow"),
        }
    }
}

fn point_to_bytes(p: &RistrettoPoint) -> Vec<u8> {
    p.compress().to_bytes().to_vec()
}

fn point_from_bytes(b: &[u8]) -> RistrettoPoint {
    CompressedRistretto::from_slice(b)
        .expect("a point is 32 bytes")
        .decompress()
        .expect("the peer sent a canonical point")
}

/// The engine's view of the orchestrator's credential store.
struct EngineDb<'a> {
    orch: &'a ServerOrchestrator<100>,
}

impl<'a> Database for EngineDb<'a> {
    type PasswordVerifier = RistrettoPoint;

    fn lookup_verifier(
        &self,
        username: &[u8],
    ) -> Option<(RistrettoPoint, SaltString, ParamsString)> {
        self.orch.lookup_verifier(username).map(|(v, s, p)| {
            let point = point_from_bytes(&v);
            let salt = SaltString::from_b64(std::str::from_utf8(&s).unwrap()).unwrap();
            let params: ParamsString = std::str::from_utf8(&p).unwrap().parse().unwrap();
            (point, salt, params)
        })
    }

    fn store_verifier(
        &mut self,
        _username: &[u8],
        _salt: SaltString,
        _uad: Option<&[u8]>,
        _verifier: RistrettoPoint,
        _params: ParamsString,
    ) {
        unreachable!("the orchestrator stores registrations itself");
    }
}

fn scrypt_params_from_wire(ps: &ParamsString) -> Params {
    let log_n = ps.get_str("ln").unwrap().parse().unwrap();
    let r = ps.get_str("r").unwrap().parse().unwrap();
    let p = ps.get_str("p").unwrap().parse().unwrap();
    Params::new(log_n, r, p, Params::RECOMMENDED_LEN).unwrap()
}

/// Drives one complete handshake attempt through both verified
/// orchestrators, the codec and the receivers, with the engine doing the
/// cryptography. Returns both derived keys, or the server-side
/// authentication failure.
fn run_attempt(
    server: &mut ServerOrchestrator<100>,
    server_engine: &mut Engine,
    client_engine: &mut ClientEngine,
    username: &[u8],
    password: &[u8],
    seed: u64,
) -> Result<(Vec<u8>, Vec<u8>), aucpace::Error> {
    // One simulated serial line per direction.
    let mut to_server: Vec<u8> = Vec::new();
    let mut to_client: Vec<u8> = Vec::new();
    let mut server_rx = FrameReceiver::new(1024);
    let mut client_rx = FrameReceiver::new(1024);
    let mut session_rng = ChaCha8Rng::seed_from_u64(seed);

    let mut client = ClientOrchestrator::new(Mode::Plain);

    // ===== SSID establishment =====
    server.begin_session();
    let (srv_ssid, srv_nonce_msg) = server_engine.begin();
    let (cl_ssid, cl_nonce_msg) = client_engine.begin();

    client.begin();
    let cl_nonce = match cl_nonce_msg {
        ClientMessage::Nonce(n) => n,
        _ => unreachable!(),
    };
    send_msg(&mut to_server, &Message::Nonce(cl_nonce.to_vec()));

    let m = recv_msg(&mut to_server, &mut server_rx);
    let d = server.on_message(m);
    let srv_aug = match d {
        ServerDirective::AgreeSsid { nonce } => {
            srv_ssid.agree_ssid(<[u8; 16]>::try_from(&nonce[..]).unwrap())
        }
        other => panic!("server expected the client nonce, got {:?}", other),
    };
    let srv_nonce = match srv_nonce_msg {
        ServerMessage::Nonce(n) => n,
        _ => unreachable!(),
    };
    server.record_sent(send_msg(&mut to_client, &Message::Nonce(srv_nonce.to_vec())));

    // ===== Augmentation layer =====
    let m = recv_msg(&mut to_client, &mut client_rx);
    let cl_pre = match client.on_message(m) {
        ClientDirective::AgreeSsid { nonce } => {
            cl_ssid.agree_ssid(<[u8; 16]>::try_from(&nonce[..]).unwrap())
        }
        other => panic!("client expected the server nonce, got {:?}", other),
    };
    let (cl_aug, username_msg) = cl_pre.start_augmentation(username, password);
    let cl_username = match username_msg {
        ClientMessage::Username(u) => u,
        _ => unreachable!(),
    };
    send_msg(&mut to_server, &Message::Username(cl_username.to_vec()));

    let m = recv_msg(&mut to_server, &mut server_rx);
    let d = server.on_message(m);
    let (srv_cpace, aug_info_msg) = match d {
        ServerDirective::ClientInfo { username } => {
            let db = EngineDb { orch: server };
            srv_aug.generate_client_info(username, &db, &mut session_rng)
        }
        other => panic!("server expected the username, got {:?}", other),
    };
    let payload = postcard::to_stdvec(&aug_info_msg).unwrap();
    server.record_sent(send_msg(&mut to_client, &Message::AugmentationInfo(payload)));

    // ===== CPace substep =====
    let (srv_recv_key, srv_pubkey_msg) = srv_cpace.generate_public_key(CI);
    let srv_pubkey = match srv_pubkey_msg {
        ServerMessage::PublicKey(k) => k,
        _ => unreachable!(),
    };
    server.record_sent(send_msg(&mut to_client, &Message::PublicKey(point_to_bytes(&srv_pubkey))));

    let m = recv_msg(&mut to_client, &mut client_rx);
    let cl_cpace = match client.on_message(m) {
        ClientDirective::Augmentation { info } => {
            let sm: ServerMessage<16> = postcard::from_bytes(&info).unwrap();
            match sm {
                ServerMessage::AugmentationInfo { x_pub, salt, pbkdf_params, .. } => {
                    let params = scrypt_params_from_wire(&pbkdf_params);
                    cl_aug.generate_cpace_alloc(x_pub, &salt, params, Scrypt).unwrap()
                }
                other => panic!("opaque payload was not augmentation info: {:?}", other),
            }
        }
        other => panic!("client expected the augmentation info, got {:?}", other),
    };
    let (cl_recv_key, cl_pubkey_msg) = cl_cpace.generate_public_key(CI, &mut session_rng);
    let cl_pubkey = match cl_pubkey_msg {
        ClientMessage::PublicKey(k) => k,
        _ => unreachable!(),
    };
    send_msg(&mut to_server, &Message::PublicKey(point_to_bytes(&cl_pubkey)));

    let m = recv_msg(&mut to_server, &mut server_rx);
    let srv_auth = match server.on_message(m) {
        ServerDirective::ClientPublicKey { public_key } => srv_recv_key
            .receive_client_pubkey(point_from_bytes(&public_key))
            .unwrap(),
        other => panic!("server expected the client public key, got {:?}", other),
    };

    // ===== Explicit mutual authentication =====
    let m = recv_msg(&mut to_client, &mut client_rx);
    let (cl_auth, cl_auth_msg) = match client.on_message(m) {
        ClientDirective::ServerPublicKey { public_key } => cl_recv_key
            .receive_server_pubkey(point_from_bytes(&public_key))
            .unwrap(),
        other => panic!("client expected the server public key, got {:?}", other),
    };
    let cl_authenticator = match cl_auth_msg {
        ClientMessage::Authenticator(a) => a,
        _ => unreachable!(),
    };
    send_msg(&mut to_server, &Message::Authenticator(cl_authenticator.to_vec()));

    let m = recv_msg(&mut to_server, &mut server_rx);
    let verdict = match server.on_message(m) {
        ServerDirective::VerifyAuthenticator { authenticator } => srv_auth
            .receive_client_authenticator(<[u8; 64]>::try_from(&authenticator[..]).unwrap()),
        other => panic!("server expected the authenticator, got {:?}", other),
    };
    // Whatever the verdict, the session is over and the server is ready
    // for the next one.
    assert_eq!(server.current_state(), ServerState::SessionReady);

    let (server_key, srv_auth_msg) = verdict?;
    let srv_authenticator = match srv_auth_msg {
        ServerMessage::Authenticator(a) => a,
        _ => unreachable!(),
    };
    server.record_sent(send_msg(
        &mut to_client,
        &Message::Authenticator(srv_authenticator.to_vec()),
    ));

    let m = recv_msg(&mut to_client, &mut client_rx);
    let client_key = match client.on_message(m) {
        ClientDirective::ServerAuthenticator { authenticator } => cl_auth
            .receive_server_authenticator(<[u8; 64]>::try_from(&authenticator[..]).unwrap())
            .expect("the honest server's authenticator verifies"),
        other => panic!("client expected the server authenticator, got {:?}", other),
    };
    Ok((server_key.to_vec(), client_key.to_vec()))
}

#[test]
fn full_handshake_and_wrong_password_recovery() {
    let username: &[u8] = b"alice";
    let password: &[u8] = b"distress-code-4711";

    let mut server = ServerOrchestrator::<100>::new(Mode::Plain);
    let mut server_engine: Engine = AuCPaceServer::new(ChaCha8Rng::seed_from_u64(0xA5));
    let mut client_engine: ClientEngine = AuCPaceClient::new(ChaCha8Rng::seed_from_u64(0x5A));

    // ===== Registration =====
    // Weak parameters so the test runs quickly; never use them for real.
    let params = Params::new(8, 8, 1, Params::RECOMMENDED_LEN).unwrap();
    let registration = client_engine
        .register_alloc(username, password, params, Scrypt)
        .unwrap();
    let reg_msg = match registration {
        ClientMessage::Registration { username, salt, params, verifier } => Message::Registration {
            username: username.to_vec(),
            salt: salt.as_str().as_bytes().to_vec(),
            params: params.as_str().as_bytes().to_vec(),
            verifier: point_to_bytes(&verifier),
        },
        _ => unreachable!(),
    };
    let mut wire: Vec<u8> = Vec::new();
    let mut server_rx = FrameReceiver::new(1024);
    send_msg(&mut wire, &reg_msg);
    let m = recv_msg(&mut wire, &mut server_rx);
    let d = server.on_message(m);
    assert_eq!(d, ServerDirective::Registered { username: username.to_vec() });

    // ===== A full handshake derives equal keys on both sides =====
    let (server_key, client_key) = run_attempt(
        &mut server,
        &mut server_engine,
        &mut client_engine,
        username,
        password,
        1,
    )
    .expect("the right password must authenticate");
    assert_eq!(server_key, client_key);
    assert!(!server_key.is_empty());
    assert!(server.total_sent() > 0, "the diagnostic byte count must have grown");

    // ===== A wrong password fails authentication, the server survives =====
    let err = run_attempt(
        &mut server,
        &mut server_engine,
        &mut client_engine,
        username,
        b"wrong-password",
        2,
    )
    .expect_err("a wrong password must not authenticate");
    assert!(matches!(err, aucpace::Error::MutualAuthFail));
    assert_eq!(server.current_state(), ServerState::SessionReady);

    // ===== And the next attempt with the right password still works =====
    let (k1, k2) = run_attempt(
        &mut server,
        &mut server_engine,
        &mut client_engine,
        username,
        password,
        3,
    )
    .expect("the server must still authenticate after a failure");
    assert_eq!(k1, k2);
}
