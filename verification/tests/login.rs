use rsa::{BigUint, PaddingScheme, PublicKey, RsaPublicKey};
use shovel::crypto::{new_key, private_key_to_der, MCPrivateKey};
use shovel::phase::login::{
    authenticate, begin_login, call_mojang_auth, check_challenge, check_profile, hash_server_id,
    login_client, login_with_challenge, write_digest, AuthError, AuthStep, LoginError, LoginServer,
    LoginState, LoginStep, MinehutLoginServer, MojangLoginServer, ServerboundLoginRegistry,
};
use shovel::phase::{
    process_handshake, ConnectionInformation, ConnectionProtocol, HandshakeError,
    HandshakingRegistry, NextPhase, SocketAddr,
};
use shovel::protocol::{ClientboundLoginRegistry, GameProfile};

fn info(protocol_version: i32) -> ConnectionInformation {
    ConnectionInformation {
        protocol_version,
        address: SocketAddr::V4 { ip: 1, port: 2 },
        virtual_host: "host".to_string(),
        virtual_port: 25565,
        compression_threshold: Some(32767),
    }
}

fn hello() -> ServerboundLoginRegistry {
    ServerboundLoginRegistry::Hello { name: "Notch".to_string(), profile_id: Some(42) }
}

fn waiting(challenge: [u8; 4]) -> LoginState {
    LoginState::ExpectingKeyResponse {
        challenge,
        name: "Notch".to_string(),
        profile_id: Some(42),
    }
}

fn encrypt(key: &MCPrivateKey, bytes: &[u8]) -> Vec<u8> {
    let public =
        RsaPublicKey::new(BigUint::from_bytes_be(&key.n), BigUint::from_bytes_be(&key.e)).unwrap();
    public
        .encrypt(&mut rand::rngs::OsRng, PaddingScheme::new_pkcs1v15_encrypt(), bytes)
        .unwrap()
}

fn refusal(reason: &str, error: LoginError) -> LoginStep {
    LoginStep::Refuse { reason: reason.to_string(), error }
}

fn intention(intention: ConnectionProtocol) -> HandshakingRegistry {
    HandshakingRegistry::ClientIntention {
        protocol_version: 761,
        host_name: "host".to_string(),
        port: 25565,
        intention,
    }
}

#[test]
fn handshakes_lead_to_the_next_phase() {
    let address = SocketAddr::V4 { ip: 1, port: 2 };
    assert_eq!(
        process_handshake(intention(ConnectionProtocol::Status), address),
        Ok(NextPhase::Status)
    );
    assert_eq!(
        process_handshake(intention(ConnectionProtocol::Login), address),
        Ok(NextPhase::Login { connection_info: info(761) })
    );
    assert_eq!(
        process_handshake(intention(ConnectionProtocol::Play), address),
        Err(HandshakeError::PlayViaHandshake)
    );
}

#[test]
fn connection_information_is_copied() {
    assert_eq!(info(5).clone(), info(5));
}

#[test]
fn server_hashes_are_the_known_ones() {
    assert_eq!(
        hash_server_id("Notch", &[], &[]),
        "4ed1f46bbe04bc756bcb17c0c7ce3e4632f06a48"
    );
    assert_eq!(
        hash_server_id("jeb_", &[], &[]),
        "-7c9d5b0044c130109a5d7b5fb5c317c02b4e28c1"
    );
    assert_eq!(
        hash_server_id("simon", &[], &[]),
        "88e16a1019277b15d58faf0541e11910eb756f6"
    );
}

#[test]
fn server_hashes_are_of_the_parts_put_together() {
    assert_eq!(hash_server_id("si", b"mo", b"n"), hash_server_id("simon", &[], &[]));
}

#[test]
fn digests_are_written_as_signed_numbers() {
    assert_eq!(write_digest(&[]), "0");
    assert_eq!(write_digest(&[0x00]), "0");
    assert_eq!(write_digest(&[0x0a, 0xbc]), "abc");
    assert_eq!(write_digest(&[0xff]), "-1");
    assert_eq!(write_digest(&[0x80, 0x00]), "-8000");
    assert_eq!(write_digest(&[0x7f, 0xff]), "7fff");
}

#[test]
fn clients_of_another_version_are_refused() {
    assert_eq!(begin_login(&info(761)), Ok(LoginState::ExpectingHello));
    assert_eq!(
        begin_login(&info(760)),
        Err(refusal(
            "This server is running a different MC version.\nPlease use 1.19.3 to play on this \
             server.",
            LoginError::OutdatedClient
        ))
    );
}

#[test]
fn clients_are_asked_to_answer_a_challenge() {
    let key = new_key().unwrap();
    let step = login_with_challenge::<MojangLoginServer>(
        &key,
        LoginState::ExpectingHello,
        hello(),
        [1, 2, 3, 4],
    );
    assert_eq!(
        step,
        LoginStep::Ask {
            packet: ClientboundLoginRegistry::Hello {
                server_id: String::new(),
                public_key: private_key_to_der(&key),
                challenge: vec![1, 2, 3, 4],
            },
            state: waiting([1, 2, 3, 4]),
        }
    );
}

#[test]
fn challenges_differ() {
    let key = new_key().unwrap();
    let challenge = || match login_client::<MojangLoginServer>(
        &key,
        LoginState::ExpectingHello,
        hello(),
    ) {
        LoginStep::Ask { packet: ClientboundLoginRegistry::Hello { challenge, .. }, state } => {
            match state {
                LoginState::ExpectingKeyResponse { challenge: kept, .. } => {
                    assert_eq!(kept.to_vec(), challenge);
                }
                other => panic!("{other:?}"),
            }
            challenge
        }
        other => panic!("{other:?}"),
    };
    let challenges: Vec<Vec<u8>> = (0..8).map(|_| challenge()).collect();
    assert!(challenges.iter().any(|c| *c != challenges[0]));
    assert!(challenges.iter().all(|c| c.len() == 4));
}

#[test]
fn answered_challenges_lead_to_authentication() {
    let key = new_key().unwrap();
    let secret = [7u8; 16];
    let step = login_client::<MojangLoginServer>(
        &key,
        waiting([1, 2, 3, 4]),
        ServerboundLoginRegistry::Key {
            key_bytes: encrypt(&key, &secret),
            encrypted_challenge: encrypt(&key, &[1, 2, 3, 4]),
        },
    );
    let hash = hash_server_id("", &secret, &private_key_to_der(&key));
    assert_eq!(
        step,
        LoginStep::Authenticate {
            request: format!(
                "https://sessionserver.mojang.com/session/minecraft/hasJoined\
                 ?username=Notch&serverId={hash}"
            ),
            shared_secret: secret.to_vec(),
            name: "Notch".to_string(),
            profile_id: Some(42),
        }
    );
}

#[test]
fn wrong_answers_are_refused() {
    let key = new_key().unwrap();
    let answer = |key_bytes: Vec<u8>, encrypted_challenge: Vec<u8>| {
        login_client::<MinehutLoginServer>(
            &key,
            waiting([1, 2, 3, 4]),
            ServerboundLoginRegistry::Key { key_bytes, encrypted_challenge },
        )
    };
    assert_eq!(
        answer(encrypt(&key, &[7; 16]), encrypt(&key, &[1, 2, 3, 5])),
        refusal("Invalid challenge response.", LoginError::InvalidChallenge)
    );
    assert_eq!(
        answer(encrypt(&key, &[7; 16]), vec![1, 2, 3, 4]),
        LoginStep::Fail { error: LoginError::ChallengeNotDecrypted }
    );
    assert_eq!(
        answer(vec![7; 16], encrypt(&key, &[1, 2, 3, 4])),
        LoginStep::Fail { error: LoginError::SecretNotDecrypted }
    );
}

#[test]
fn packets_out_of_turn_are_refused() {
    let key = new_key().unwrap();
    assert_eq!(
        login_client::<MojangLoginServer>(&key, waiting([0; 4]), hello()),
        refusal("Unexpected hello packet", LoginError::UnexpectedHello)
    );
    assert_eq!(
        login_client::<MojangLoginServer>(
            &key,
            LoginState::ExpectingHello,
            ServerboundLoginRegistry::Key { key_bytes: vec![], encrypted_challenge: vec![] }
        ),
        refusal("Unexpected key packet.", LoginError::KeyBeforeHello)
    );
    assert_eq!(
        login_client::<MojangLoginServer>(
            &key,
            LoginState::ExpectingHello,
            ServerboundLoginRegistry::CustomQuery { body: vec![1] }
        ),
        refusal("Custom queries are not supported.", LoginError::UnexpectedCustomQuery)
    );
}

#[test]
fn challenges_are_compared_byte_by_byte() {
    assert_eq!(check_challenge([1, 2, 3, 4], Some(vec![1, 2, 3, 4])), None);
    for wrong in [vec![], vec![1, 2, 3], vec![1, 2, 3, 4, 5], vec![1, 2, 3, 0]] {
        assert_eq!(
            check_challenge([1, 2, 3, 4], Some(wrong)),
            Some(refusal("Invalid challenge response.", LoginError::InvalidChallenge))
        );
    }
    assert_eq!(
        check_challenge([1, 2, 3, 4], None),
        Some(LoginStep::Fail { error: LoginError::ChallengeNotDecrypted })
    );
}

#[test]
fn requests_go_to_the_login_server() {
    assert_eq!(MinehutLoginServer::url(), "https://api.minehut.com");
    assert_eq!(MinehutLoginServer::route(), "/mitm/proxy/session/minecraft/hasJoined");
    assert_eq!(MojangLoginServer::url(), "https://sessionserver.mojang.com");
    assert_eq!(MojangLoginServer::route(), "/session/minecraft/hasJoined");
    let step = authenticate::<MinehutLoginServer>(
        "jeb_".to_string(),
        None,
        Some(b"si".to_vec()),
        b"mon",
    );
    assert_eq!(
        step,
        LoginStep::Authenticate {
            request: "https://api.minehut.com/mitm/proxy/session/minecraft/hasJoined\
                      ?username=jeb_&serverId=88e16a1019277b15d58faf0541e11910eb756f6"
                .to_string(),
            shared_secret: b"si".to_vec(),
            name: "jeb_".to_string(),
            profile_id: None,
        }
    );
}

#[test]
fn profiles_have_to_be_those_of_the_client() {
    let profile = GameProfile { id: 42, name: "Notch".to_string(), properties: vec![] };
    let name = "Notch".to_string();
    assert_eq!(check_profile(&profile, &name, None), None);
    assert_eq!(check_profile(&profile, &name, Some(42)), None);
    assert_eq!(
        check_profile(&profile, &name, Some(43)),
        Some(refusal("Invalid profile id", LoginError::InvalidProfileId))
    );
    assert_eq!(
        check_profile(&profile, &"notch".to_string(), Some(43)),
        Some(refusal("Invalid username.", LoginError::InvalidUsername))
    );
}

#[test]
fn answers_of_the_login_server_are_handled() {
    let there = || Some("https://elsewhere".to_string());
    for status in [301, 307, 308] {
        assert_eq!(
            call_mojang_auth(status, there()),
            AuthStep::Follow { location: "https://elsewhere".to_string() }
        );
        assert_eq!(
            call_mojang_auth(status, None),
            AuthStep::Fail { error: AuthError::NoRedirectLocation }
        );
    }
    for status in [204, 302, 403, 500] {
        assert_eq!(
            call_mojang_auth(status, there()),
            AuthStep::Fail { error: AuthError::Status { status } }
        );
    }
    assert_eq!(call_mojang_auth(200, None), AuthStep::ReadProfile);
}
