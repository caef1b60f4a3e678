//! The phase in which a client logs in.
use crate::codec::append;
use crate::crypto::{private_key_to_der, KeyPair, MCPrivateKey, Padding};
use crate::natural::{first_bytes_count_most, number};
use crate::phase::ConnectionInformation;
use crate::protocol::{ClientboundLoginRegistry, GameProfile, LoginPacket, Profile, Uuid};
use crate::version_constants::{CURRENT_PROTOCOL_VERSION, CURRENT_PROTOCOL_VERSION_STRING};
use md5::Digest;
use rand::RngCore;
use vstd::arithmetic::power::pow;
use vstd::prelude::*;
use vstd::utf8::encode_utf8;

verus! {

/// A server that vouches for the identity of clients.
pub trait LoginServer {
    /// The address of the server.
    spec fn address() -> Seq<char>;

    /// The route of the request.
    spec fn request_route() -> Seq<char>;

    fn url() -> (url: &'static str)
        ensures
            url@ == Self::address(),
    ;

    fn route() -> (route: &'static str)
        ensures
            route@ == Self::request_route(),
    ;
}

/// The server of Mojang.
pub struct MojangLoginServer;

impl LoginServer for MojangLoginServer {
    open spec fn address() -> Seq<char> {
        "https://sessionserver.mojang.com"@
    }

    open spec fn request_route() -> Seq<char> {
        "/session/minecraft/hasJoined"@
    }

    fn url() -> (url: &'static str) {
        "https://sessionserver.mojang.com"
    }

    fn route() -> (route: &'static str) {
        "/session/minecraft/hasJoined"
    }
}

/// The server of Minehut.
pub struct MinehutLoginServer;

impl LoginServer for MinehutLoginServer {
    open spec fn address() -> Seq<char> {
        "https://api.minehut.com"@
    }

    open spec fn request_route() -> Seq<char> {
        "/mitm/proxy/session/minecraft/hasJoined"@
    }

    fn url() -> (url: &'static str) {
        "https://api.minehut.com"
    }

    fn route() -> (route: &'static str) {
        "/mitm/proxy/session/minecraft/hasJoined"
    }
}

/// The number that bytes in two's complement stand for, the most significant one first.
pub open spec fn signed_number(bytes: Seq<u8>) -> int {
    if bytes.len() > 0 && bytes[0] >= 0x80 {
        number(bytes) - pow(256, bytes.len())
    } else {
        number(bytes) as int
    }
}

/// A hexadecimal digit.
pub open spec fn hex_digit(value: nat) -> char {
    if value < 10 {
        ('0' as nat + value) as char
    } else {
        ('a' as nat + (value - 10)) as char
    }
}

/// A natural number in hexadecimal, without zeros in front.
pub open spec fn hex_digits(value: nat) -> Seq<char>
    decreases value,
{
    if value < 16 {
        seq![hex_digit(value)]
    } else {
        hex_digits(value / 16).push(hex_digit(value % 16))
    }
}

/// A number in hexadecimal, with a minus sign where it is negative.
pub open spec fn hex(value: int) -> Seq<char> {
    if value < 0 {
        seq!['-'] + hex_digits((-value) as nat)
    } else {
        hex_digits(value as nat)
    }
}

/// The digest that `sha1::Sha1` computes.
pub uninterp spec fn sha1_of(bytes: Seq<u8>) -> Seq<u8>;

/// `Sha1::digest`.
#[verifier::external_body]
fn sha1_digest(bytes: &[u8]) -> (digest: Vec<u8>)
    ensures
        digest@ == sha1_of(bytes@),
{
    sha1::Sha1::digest(bytes).to_vec()
}

/// `BigInt::from_signed_bytes_be`, written as `LowerHex` does: the number that the bytes
/// stand for in two's complement, in lower case hexadecimal.
#[verifier::external_body]
fn signed_hex(bytes: &[u8]) -> (text: String)
    ensures
        text@ == hex(signed_number(bytes@)),
{
    format!("{:x}", num_bigint::BigInt::from_signed_bytes_be(bytes))
}

/// The name under which a login is known to the server that vouches for it.
pub open spec fn server_hash(server_id: Seq<char>, secret: Seq<u8>, key: Seq<u8>) -> Seq<char> {
    hex(signed_number(sha1_of(encode_utf8(server_id) + secret + key)))
}

/// Computes the name under which a login is known to the server that vouches for it.
pub fn hash_server_id(server_id: &str, shared_secret: &[u8], public_key: &[u8]) -> (hash: String)
    ensures
        hash@ == server_hash(server_id@, shared_secret@, public_key@),
{
    let mut bytes: Vec<u8> = Vec::new();
    append(&mut bytes, server_id.as_bytes());
    append(&mut bytes, shared_secret);
    append(&mut bytes, public_key);
    assert(bytes@ =~= encode_utf8(server_id@) + shared_secret@ + public_key@);
    write_digest(&sha1_digest(&bytes))
}

/// Writes a digest as the signed number that it stands for.
pub fn write_digest(digest: &[u8]) -> (text: String)
    ensures
        text@ == hex(signed_number(digest@)),
{
    signed_hex(digest)
}

/// How far a login has come.
#[derive(Debug, PartialEq)]
pub enum LoginState {
    /// The client is to say its name.
    ExpectingHello,
    /// The client is to send the challenge back, encrypted.
    ExpectingKeyResponse { challenge: [u8; 4], name: String, profile_id: Option<Uuid> },
}

/// How far a login has come.
pub enum LoginProgress {
    ExpectingHello,
    ExpectingKeyResponse { challenge: Seq<u8>, name: Seq<char>, profile_id: Option<Uuid> },
}

impl View for LoginState {
    type V = LoginProgress;

    open spec fn view(&self) -> LoginProgress {
        match *self {
            LoginState::ExpectingHello => LoginProgress::ExpectingHello,
            LoginState::ExpectingKeyResponse { challenge, name, profile_id } => {
                LoginProgress::ExpectingKeyResponse {
                    challenge: challenge@,
                    name: name@,
                    profile_id,
                }
            },
        }
    }
}

/// Packets that a client sends while it logs in.
#[derive(Debug, PartialEq)]
pub enum ServerboundLoginRegistry {
    Hello { name: String, profile_id: Option<Uuid> },
    Key { key_bytes: Vec<u8>, encrypted_challenge: Vec<u8> },
    CustomQuery { body: Vec<u8> },
}

/// Why a login fails.
#[derive(Clone, Copy, Debug, PartialEq, Eq, Structural)]
pub enum LoginError {
    OutdatedClient,
    UnexpectedHello,
    KeyBeforeHello,
    UnexpectedCustomQuery,
    ChallengeNotDecrypted,
    InvalidChallenge,
    SecretNotDecrypted,
    InvalidUsername,
    InvalidProfileId,
}

/// What follows a packet of a client that logs in.
#[derive(Debug, PartialEq)]
pub enum LoginStep {
    /// A packet is written, and the next one is read.
    Ask { packet: ClientboundLoginRegistry, state: LoginState },
    /// The reason is written, and the login fails.
    Refuse { reason: String, error: LoginError },
    /// The login fails.
    Fail { error: LoginError },
    /// The server that vouches for clients is asked for the profile of this one.
    Authenticate {
        request: String,
        shared_secret: Vec<u8>,
        name: String,
        profile_id: Option<Uuid>,
    },
}

/// What follows a packet of a client that logs in.
pub enum NextStep {
    Ask { packet: LoginPacket, progress: LoginProgress },
    Refuse { reason: Seq<char>, error: LoginError },
    Fail { error: LoginError },
    Authenticate {
        request: Seq<char>,
        shared_secret: Seq<u8>,
        name: Seq<char>,
        profile_id: Option<Uuid>,
    },
}

impl View for LoginStep {
    type V = NextStep;

    open spec fn view(&self) -> NextStep {
        match *self {
            LoginStep::Ask { packet, state } => NextStep::Ask { packet: packet@, progress: state@ },
            LoginStep::Refuse { reason, error } => NextStep::Refuse { reason: reason@, error },
            LoginStep::Fail { error } => NextStep::Fail { error },
            LoginStep::Authenticate { request, shared_secret, name, profile_id } => {
                NextStep::Authenticate {
                    request: request@,
                    shared_secret: shared_secret@,
                    name: name@,
                    profile_id,
                }
            },
        }
    }
}

fn refuse(reason: &str, error: LoginError) -> (step: LoginStep)
    ensures
        step@ == (NextStep::Refuse { reason: reason@, error }),
{
    LoginStep::Refuse { reason: reason.to_string(), error }
}

/// What a client of another version is told.
pub open spec fn version_notice() -> Seq<char> {
    "This server is running a different MC version.\nPlease use "@
        + CURRENT_PROTOCOL_VERSION_STRING@ + " to play on this server."@
}

/// Whether a client speaks the version of this server.
pub open spec fn current(connection_info: ConnectionInformation) -> bool {
    connection_info.protocol_version == CURRENT_PROTOCOL_VERSION
}

/// Starts a login. A client of another version is refused.
pub fn begin_login(connection_info: &ConnectionInformation) -> (r: Result<LoginState, LoginStep>)
    ensures
        match r {
            Ok(state) => current(*connection_info) && state == LoginState::ExpectingHello,
            Err(step) => !current(*connection_info) && step@ == (NextStep::Refuse {
                reason: version_notice(),
                error: LoginError::OutdatedClient,
            }),
        },
{
    if connection_info.protocol_version != CURRENT_PROTOCOL_VERSION {
        let reason: String =
            "This server is running a different MC version.\nPlease use ".to_string().concat(
            CURRENT_PROTOCOL_VERSION_STRING,
        ).concat(" to play on this server.");
        return Err(LoginStep::Refuse { reason, error: LoginError::OutdatedClient });
    }
    Ok(LoginState::ExpectingHello)
}

/// `ThreadRng::fill_bytes` of the generator that `rand::thread_rng` gives. The bytes are left
/// to chance.
#[verifier::external_body]
fn random_challenge() -> (challenge: [u8; 4]) {
    let mut challenge = [0; 4];
    rand::thread_rng().fill_bytes(&mut challenge);
    challenge
}

fn same_bytes(a: &[u8], b: &[u8]) -> (same: bool)
    ensures
        same == (a@ == b@),
{
    let total: usize = a.len();
    if total != b.len() {
        return false;
    }
    let mut i: usize = 0;
    while i < total
        invariant
            i <= total,
            total == a@.len(),
            total == b@.len(),
            forall|k: int| 0 <= k < i ==> a@[k] == b@[k],
        decreases total - i,
    {
        if a[i] != b[i] {
            return false;
        }
        i = i + 1;
    }
    assert(a@ =~= b@);
    true
}

/// What follows the answer to a challenge, where it could be decrypted; nothing where the
/// answer is right.
pub open spec fn challenge_refusal(challenge: Seq<u8>, answer: Option<Seq<u8>>) -> Option<
    NextStep,
> {
    match answer {
        None => Some(NextStep::Fail { error: LoginError::ChallengeNotDecrypted }),
        Some(bytes) => if bytes != challenge {
            Some(
                NextStep::Refuse {
                    reason: "Invalid challenge response."@,
                    error: LoginError::InvalidChallenge,
                },
            )
        } else {
            None
        },
    }
}

/// Holds the answer to a challenge against it.
pub fn check_challenge(challenge: [u8; 4], answer: Option<Vec<u8>>) -> (refusal: Option<LoginStep>)
    ensures
        challenge_refusal(
            challenge@,
            match answer {
                Some(bytes) => Some(bytes@),
                None => None,
            },
        ) == (match refusal {
            Some(step) => Some(step@),
            None => None,
        }),
{
    match answer {
        None => Some(LoginStep::Fail { error: LoginError::ChallengeNotDecrypted }),
        Some(bytes) => if !same_bytes(&bytes, &challenge) {
            Some(refuse("Invalid challenge response.", LoginError::InvalidChallenge))
        } else {
            None
        },
    }
}

/// The request for the profile of a client.
pub open spec fn join_request<L: LoginServer>(
    name: Seq<char>,
    secret: Seq<u8>,
    public_key: Seq<u8>,
) -> Seq<char> {
    L::address() + L::request_route() + "?username="@ + name + "&serverId="@ + server_hash(
        ""@,
        secret,
        public_key,
    )
}

/// What follows once the challenge is answered and the secret is known, where it could be
/// decrypted.
pub open spec fn authentication<L: LoginServer>(
    name: Seq<char>,
    profile_id: Option<Uuid>,
    secret: Option<Seq<u8>>,
    public_key: Seq<u8>,
) -> NextStep {
    match secret {
        None => NextStep::Fail { error: LoginError::SecretNotDecrypted },
        Some(shared_secret) => NextStep::Authenticate {
            request: join_request::<L>(name, shared_secret, public_key),
            shared_secret,
            name,
            profile_id,
        },
    }
}

/// Asks the server that vouches for clients for the profile of this one.
pub fn authenticate<L: LoginServer>(
    name: String,
    profile_id: Option<Uuid>,
    secret: Option<Vec<u8>>,
    public_key: &[u8],
) -> (step: LoginStep)
    ensures
        step@ == authentication::<L>(
            name@,
            profile_id,
            match secret {
                Some(bytes) => Some(bytes@),
                None => None,
            },
            public_key@,
        ),
{
    match secret {
        None => LoginStep::Fail { error: LoginError::SecretNotDecrypted },
        Some(shared_secret) => {
            let hash: String = hash_server_id("", &shared_secret, public_key);
            let request: String = L::url().to_string().concat(L::route()).concat(
                "?username=",
            ).concat(name.as_str()).concat("&serverId=").concat(hash.as_str());
            LoginStep::Authenticate { request, shared_secret, name, profile_id }
        },
    }
}

/// What follows a packet, where `token` is the challenge that a new client is given.
pub open spec fn login_step<L: LoginServer>(
    key: KeyPair,
    progress: LoginProgress,
    packet: ServerboundLoginRegistry,
    token: Seq<u8>,
) -> NextStep {
    match packet {
        ServerboundLoginRegistry::Hello { name, profile_id } => match progress {
            LoginProgress::ExpectingHello => NextStep::Ask {
                packet: LoginPacket::Hello {
                    server_id: ""@,
                    public_key: key.public_half(),
                    challenge: token,
                },
                progress: LoginProgress::ExpectingKeyResponse {
                    challenge: token,
                    name: name@,
                    profile_id,
                },
            },
            _ => NextStep::Refuse {
                reason: "Unexpected hello packet"@,
                error: LoginError::UnexpectedHello,
            },
        },
        ServerboundLoginRegistry::Key { key_bytes, encrypted_challenge } => match progress {
            LoginProgress::ExpectingKeyResponse { challenge, name, profile_id } => {
                match challenge_refusal(challenge, key.plaintext(encrypted_challenge@)) {
                    Some(refusal) => refusal,
                    None => authentication::<L>(
                        name,
                        profile_id,
                        key.plaintext(key_bytes@),
                        key.public_half(),
                    ),
                }
            },
            _ => NextStep::Refuse {
                reason: "Unexpected key packet."@,
                error: LoginError::KeyBeforeHello,
            },
        },
        ServerboundLoginRegistry::CustomQuery { .. } => NextStep::Refuse {
            reason: "Custom queries are not supported."@,
            error: LoginError::UnexpectedCustomQuery,
        },
    }
}

fn decrypt(key: &MCPrivateKey, ciphertext: &[u8]) -> (plaintext: Option<Vec<u8>>)
    requires
        key@.valid(),
    ensures
        key@.plaintext(ciphertext@) == (match plaintext {
            Some(bytes) => Some(bytes@),
            None => None,
        }),
{
    match key.decrypt(Padding::PKCS1v15Encrypt, ciphertext) {
        Ok(plaintext) => Some(plaintext),
        Err(_) => None,
    }
}

/// Handles a packet of a client that logs in. A new client is given `verify_token` as its
/// challenge.
pub fn login_with_challenge<L: LoginServer>(
    key: &MCPrivateKey,
    state: LoginState,
    packet: ServerboundLoginRegistry,
    verify_token: [u8; 4],
) -> (step: LoginStep)
    requires
        key@.valid(),
    ensures
        step@ == login_step::<L>(key@, state@, packet, verify_token@),
{
    match packet {
        ServerboundLoginRegistry::Hello { name, profile_id } => match state {
            LoginState::ExpectingHello => {
                let public_key: Vec<u8> = private_key_to_der(key);
                let challenge: Vec<u8> = vec![
                    verify_token[0],
                    verify_token[1],
                    verify_token[2],
                    verify_token[3],
                ];
                assert(challenge@ =~= verify_token@);
                LoginStep::Ask {
                    packet: ClientboundLoginRegistry::Hello {
                        server_id: "".to_string(),
                        public_key,
                        challenge,
                    },
                    state: LoginState::ExpectingKeyResponse {
                        challenge: verify_token,
                        name,
                        profile_id,
                    },
                }
            },
            _ => refuse("Unexpected hello packet", LoginError::UnexpectedHello),
        },
        ServerboundLoginRegistry::Key { key_bytes, encrypted_challenge } => match state {
            LoginState::ExpectingKeyResponse { challenge, name, profile_id } => {
                match check_challenge(challenge, decrypt(key, &encrypted_challenge)) {
                    Some(refusal) => refusal,
                    None => {
                        let secret: Option<Vec<u8>> = decrypt(key, &key_bytes);
                        let public_key: Vec<u8> = private_key_to_der(key);
                        authenticate::<L>(name, profile_id, secret, &public_key)
                    },
                }
            },
            _ => refuse("Unexpected key packet.", LoginError::KeyBeforeHello),
        },
        ServerboundLoginRegistry::CustomQuery { .. } => refuse(
            "Custom queries are not supported.",
            LoginError::UnexpectedCustomQuery,
        ),
    }
}

/// Handles a packet of a client that logs in. A new client is given a random challenge.
pub fn login_client<L: LoginServer>(
    key: &MCPrivateKey,
    state: LoginState,
    packet: ServerboundLoginRegistry,
) -> (step: LoginStep)
    requires
        key@.valid(),
    ensures
        exists|token: [u8; 4]| step@ == #[trigger] login_step::<L>(key@, state@, packet, token@),
{
    let verify_token: [u8; 4] = random_challenge();
    login_with_challenge::<L>(key, state, packet, verify_token)
}

/// What a client is refused for, where it is not the one that the profile is of.
pub open spec fn profile_refusal(
    profile: Profile,
    name: Seq<char>,
    profile_id: Option<Uuid>,
) -> Option<NextStep> {
    if profile.name != name {
        Some(NextStep::Refuse { reason: "Invalid username."@, error: LoginError::InvalidUsername })
    } else if profile_id is Some && profile_id != Some(profile.id) {
        Some(
            NextStep::Refuse {
                reason: "Invalid profile id"@,
                error: LoginError::InvalidProfileId,
            },
        )
    } else {
        None
    }
}

/// Holds the profile that was vouched for against what the client said of itself.
pub fn check_profile(profile: &GameProfile, name: &String, profile_id: Option<Uuid>) -> (refusal:
    Option<LoginStep>)
    ensures
        profile_refusal(profile@, name@, profile_id) == (match refusal {
            Some(step) => Some(step@),
            None => None,
        }),
{
    if profile.name != *name {
        return Some(refuse("Invalid username.", LoginError::InvalidUsername));
    }
    if let Some(id) = profile_id {
        if id != profile.id {
            return Some(refuse("Invalid profile id", LoginError::InvalidProfileId));
        }
    }
    None
}

/// Why a profile cannot be had.
#[derive(Clone, Copy, Debug, PartialEq, Eq, Structural)]
pub enum AuthError {
    /// A redirection does not say where to.
    NoRedirectLocation,
    /// The request is answered with a status that stands for failure.
    Status { status: u16 },
}

/// What follows the answer to the request for a profile.
#[derive(Debug, PartialEq)]
pub enum AuthStep {
    /// The request is sent again, to another place.
    Follow { location: String },
    /// The profile is read from the body of the answer.
    ReadProfile,
    /// The login fails.
    Fail { error: AuthError },
}

/// Whether a status redirects.
pub open spec fn redirects(status: u16) -> bool {
    status == 301 || status == 307 || status == 308
}

/// What follows the answer to the request for a profile.
pub open spec fn auth_step(status: u16, location: Option<String>) -> AuthStep {
    if redirects(status) {
        match location {
            Some(location) => AuthStep::Follow { location },
            None => AuthStep::Fail { error: AuthError::NoRedirectLocation },
        }
    } else if status != 200 {
        AuthStep::Fail { error: AuthError::Status { status } }
    } else {
        AuthStep::ReadProfile
    }
}

/// A profile is read exactly from an answer with status 200. One with a status that redirects
/// is followed to the place that it gives, and any other ends the login with its status.
pub proof fn profiles_are_read_from_good_answers(status: u16, location: Option<String>)
    ensures
        auth_step(status, location) is ReadProfile <==> status == 200,
        status == 301 || status == 307 || status == 308 ==> match location {
            Some(place) => auth_step(status, location) matches AuthStep::Follow {
                location: followed,
            } && followed == place,
            None => auth_step(status, location) matches AuthStep::Fail {
                error: AuthError::NoRedirectLocation,
            },
        },
        status != 200 && status != 301 && status != 307 && status != 308 ==> (auth_step(
            status,
            location,
        ) matches AuthStep::Fail { error: AuthError::Status { status: told } } && told == status),
{
}

/// Handles the answer to the request for a profile, given by its status and by the place
/// that it redirects to.
pub fn call_mojang_auth(status: u16, location: Option<String>) -> (step: AuthStep)
    ensures
        step == auth_step(status, location),
        step == (if redirects(status) {
            match location {
                Some(location) => AuthStep::Follow { location },
                None => AuthStep::Fail { error: AuthError::NoRedirectLocation },
            }
        } else if status != 200 {
            AuthStep::Fail { error: AuthError::Status { status } }
        } else {
            AuthStep::ReadProfile
        }),
{
    match status {
        301 | 307 | 308 => match location {
            Some(location) => AuthStep::Follow { location },
            None => AuthStep::Fail { error: AuthError::NoRedirectLocation },
        },
        _ => if status != 200 {
            AuthStep::Fail { error: AuthError::Status { status } }
        } else {
            AuthStep::ReadProfile
        },
    }
}

/// A client is asked for by name only after it has sent back, encrypted for this server, the
/// very challenge that it was given.
pub proof fn authenticated_only_by_challenge<L: LoginServer>(
    key: KeyPair,
    progress: LoginProgress,
    packet: ServerboundLoginRegistry,
    token: Seq<u8>,
)
    requires
        login_step::<L>(key, progress, packet, token) is Authenticate,
    ensures
        match (progress, packet) {
            (
                LoginProgress::ExpectingKeyResponse { challenge, .. },
                ServerboundLoginRegistry::Key { encrypted_challenge, .. },
            ) => key.plaintext(encrypted_challenge@) == Some(challenge),
            _ => false,
        },
{
}

/// A login goes on only with the name of the client, which comes once; a packet out of turn
/// is refused.
pub proof fn login_packets_come_in_turn<L: LoginServer>(
    key: KeyPair,
    progress: LoginProgress,
    packet: ServerboundLoginRegistry,
    token: Seq<u8>,
)
    ensures
        login_step::<L>(key, progress, packet, token) matches NextStep::Ask { progress: after, .. }
            ==> packet is Hello && progress is ExpectingHello && after is ExpectingKeyResponse,
        packet is Hello && progress is ExpectingKeyResponse ==> login_step::<L>(
            key,
            progress,
            packet,
            token,
        ) is Refuse,
        packet is Key && progress is ExpectingHello ==> login_step::<L>(
            key,
            progress,
            packet,
            token,
        ) is Refuse,
        packet is CustomQuery ==> login_step::<L>(key, progress, packet, token) is Refuse,
{
}

/// A client that is let in has the name that it said, and the id where it said one.
pub proof fn accepted_profile_is_the_clients(
    profile: Profile,
    name: Seq<char>,
    profile_id: Option<Uuid>,
)
    ensures
        profile_refusal(profile, name, profile_id) is None <==> profile.name == name && (
        profile_id is None || profile_id == Some(profile.id)),
{
}

/// How far a login has come after several packets, where `tokens` are the challenges that
/// are at hand for each of them; what ended it, where it has ended.
pub open spec fn login_after<L: LoginServer>(
    key: KeyPair,
    packets: Seq<ServerboundLoginRegistry>,
    tokens: Seq<Seq<u8>>,
) -> Result<LoginProgress, NextStep>
    decreases packets.len(),
{
    if packets.len() == 0 {
        Ok(LoginProgress::ExpectingHello)
    } else {
        match login_after::<L>(key, packets.drop_last(), tokens) {
            Ok(progress) => match login_step::<L>(
                key,
                progress,
                packets.last(),
                tokens[packets.len() - 1],
            ) {
                NextStep::Ask { progress, .. } => Ok(progress),
                step => Err(step),
            },
            Err(step) => Err(step),
        }
    }
}

/// Whether a login ends well: the last of the packets ends it, the client is asked for, and
/// the profile that is vouched for is accepted. The ciphers are keyed by `secret`.
pub open spec fn logs_in<L: LoginServer>(
    key: KeyPair,
    connection_info: ConnectionInformation,
    packets: Seq<ServerboundLoginRegistry>,
    tokens: Seq<Seq<u8>>,
    profile: Profile,
    secret: Seq<u8>,
) -> bool {
    &&& current(connection_info)
    &&& packets.len() > 0
    &&& login_after::<L>(key, packets.drop_last(), tokens) is Ok
    &&& match login_after::<L>(key, packets, tokens) {
        Err(NextStep::Authenticate { shared_secret, name, profile_id, .. }) => {
            shared_secret == secret && profile_refusal(profile, name, profile_id) is None
        },
        _ => false,
    }
}

/// A login ends well exactly where a client of the current version says its name, and then
/// sends back the challenge that it was given, with a secret, both encrypted for this server,
/// and where the profile that is vouched for has that name, and the id where the client said
/// one. The ciphers are keyed by that secret.
pub proof fn logins_are_hello_and_key<L: LoginServer>(
    key: KeyPair,
    connection_info: ConnectionInformation,
    packets: Seq<ServerboundLoginRegistry>,
    tokens: Seq<Seq<u8>>,
    profile: Profile,
    secret: Seq<u8>,
)
    ensures
        logs_in::<L>(key, connection_info, packets, tokens, profile, secret) <==> {
            &&& connection_info.protocol_version == 761
            &&& packets.len() == 2
            &&& match (packets[0], packets[1]) {
                (
                    ServerboundLoginRegistry::Hello { name, profile_id },
                    ServerboundLoginRegistry::Key { key_bytes, encrypted_challenge },
                ) => {
                    &&& key.plaintext(encrypted_challenge@) == Some(tokens[0])
                    &&& key.plaintext(key_bytes@) == Some(secret)
                    &&& profile.name == name@
                    &&& profile_id is None || profile_id == Some(profile.id)
                },
                _ => false,
            }
        },
{
    let n = packets.len() as int;
    if n > 0 {
        let first = packets.drop_last();
        if n > 1 {
            let earlier = first.drop_last();
            if n > 2 {
                lemma_only_hello_goes_on::<L>(key, first, tokens);
            } else {
                assert(first[0] == packets[0]);
                assert(login_after::<L>(key, earlier, tokens) == Ok::<LoginProgress, NextStep>(
                    LoginProgress::ExpectingHello,
                ));
            }
        } else {
            assert(login_after::<L>(key, first, tokens) == Ok::<LoginProgress, NextStep>(
                LoginProgress::ExpectingHello,
            ));
        }
    }
}

proof fn lemma_only_hello_goes_on<L: LoginServer>(
    key: KeyPair,
    packets: Seq<ServerboundLoginRegistry>,
    tokens: Seq<Seq<u8>>,
)
    ensures
        login_after::<L>(key, packets, tokens) is Ok ==> packets.len() <= 1,
        login_after::<L>(key, packets, tokens) is Ok && packets.len() == 1 ==> login_after::<L>(
            key,
            packets,
            tokens,
        )->Ok_0 is ExpectingKeyResponse,
    decreases packets.len(),
{
    if packets.len() > 0 {
        lemma_only_hello_goes_on::<L>(key, packets.drop_last(), tokens);
    }
}

/// The value of a digit in lower case hexadecimal; nothing for any other character.
pub open spec fn digit_value(c: char) -> Option<nat> {
    if '0' <= c && c <= '9' {
        Some((c as nat - 48) as nat)
    } else if 'a' <= c && c <= 'f' {
        Some((c as nat - 87) as nat)
    } else {
        None
    }
}

/// The number that digits in lower case hexadecimal stand for, the most significant first.
pub open spec fn digits_value(digits: Seq<char>) -> Option<nat>
    decreases digits.len(),
{
    if digits.len() == 0 {
        Some(0)
    } else {
        match (digits_value(digits.drop_last()), digit_value(digits.last())) {
            (Some(before), Some(digit)) => Some(16 * before + digit),
            _ => None,
        }
    }
}

/// A natural number reads back from its digits, of which the first is no zero unless it is
/// the only one.
pub proof fn digits_read_back(value: nat)
    ensures
        digits_value(hex_digits(value)) == Some(value),
        hex_digits(value).len() >= 1,
        hex_digits(value)[0] != '-',
        hex_digits(value)[0] == '0' <==> value == 0,
    decreases value,
{
    let digits = hex_digits(value);
    if value < 16 {
        assert(digits.drop_last() =~= Seq::<char>::empty());
        assert(digits_value(digits.drop_last()) == Some(0nat));
    } else {
        digits_read_back(value / 16);
        assert(digits.drop_last() =~= hex_digits(value / 16));
        assert(digits[0] == hex_digits(value / 16)[0]);
    }
}

/// A number reads back from its hexadecimal form: it is negative exactly where a minus sign
/// stands in front, and what follows are the digits of its size.
pub proof fn hex_reads_back(value: int)
    ensures
        hex(value)[0] == '-' <==> value < 0,
        value < 0 ==> digits_value(hex(value).skip(1)) == Some((-value) as nat),
        value >= 0 ==> digits_value(hex(value)) == Some(value as nat),
{
    if value < 0 {
        digits_read_back((-value) as nat);
        assert(hex(value).skip(1) =~= hex_digits((-value) as nat));
    } else {
        digits_read_back(value as nat);
    }
}

/// Bytes in two's complement stand for a negative number exactly where the first bit is set.
/// It then lacks as much of zero as the bytes without a sign lack of a byte more.
pub proof fn signed_bytes_wrap_around(bytes: Seq<u8>)
    requires
        bytes.len() > 0,
    ensures
        bytes[0] >= 128 <==> signed_number(bytes) < 0,
        signed_number(bytes) == number(bytes) || signed_number(bytes) + pow(256, bytes.len())
            == number(bytes),
        -pow(256, bytes.len()) <= 2 * signed_number(bytes) < pow(256, bytes.len()),
{
    let rest = bytes.skip(1);
    assert(bytes =~= seq![bytes[0]] + rest);
    first_bytes_count_most(bytes[0], rest);
    reveal(pow);
    let p = pow(256, rest.len());
    assert(pow(256, bytes.len()) == 256 * p);
    let b = bytes[0] as int;
    let r = number(rest) as int;
    assert(b >= 128 ==> b * p >= 128 * p) by (nonlinear_arith)
        requires
            p > 0,
    ;
    assert(b < 128 ==> b * p <= 127 * p) by (nonlinear_arith)
        requires
            p > 0,
    ;
    assert(b <= 255 ==> b * p <= 255 * p) by (nonlinear_arith)
        requires
            p > 0,
    ;
}

/// A login is known by the digest of the server id, the secret and the public key, in this
/// order, read as a signed number: that number reads back from the name.
pub proof fn logins_are_known_by_their_digest(
    server_id: Seq<char>,
    secret: Seq<u8>,
    key: Seq<u8>,
)
    ensures
        ({
            let digest = sha1_of(encode_utf8(server_id) + secret + key);
            let name = server_hash(server_id, secret, key);
            let value = signed_number(digest);
            &&& value < 0 ==> name[0] == '-' && digits_value(name.skip(1)) == Some(
                (-value) as nat,
            )
            &&& value >= 0 ==> digits_value(name) == Some(value as nat)
        }),
{
    hex_reads_back(signed_number(sha1_of(encode_utf8(server_id) + secret + key)));
}

/// A new client is given the public half of the key and the challenge, for a server without
/// a name, and what is then expected of it is that very challenge. Its name and its id are
/// kept as it said them.
pub proof fn new_clients_are_challenged<L: LoginServer>(
    key: KeyPair,
    name: String,
    profile_id: Option<Uuid>,
    token: Seq<u8>,
)
    ensures
        login_step::<L>(
            key,
            LoginProgress::ExpectingHello,
            ServerboundLoginRegistry::Hello { name, profile_id },
            token,
        ) matches NextStep::Ask {
            packet: LoginPacket::Hello { server_id, public_key, challenge },
            progress: LoginProgress::ExpectingKeyResponse {
                challenge: expected,
                name: kept_name,
                profile_id: kept_id,
            },
        } && {
            &&& server_id.len() == 0
            &&& public_key == key.public_half()
            &&& challenge == token
            &&& expected == token
            &&& kept_name == name@
            &&& kept_id == profile_id
        },
{
    reveal_strlit("");
}

/// The answer to a challenge is taken exactly where it decrypts to the challenge. One that
/// does not decrypt ends the login without a word, and a wrong one is refused.
pub proof fn challenges_are_to_be_met(challenge: Seq<u8>, answer: Option<Seq<u8>>)
    ensures
        challenge_refusal(challenge, answer) is None <==> answer == Some(challenge),
        answer is None ==> challenge_refusal(challenge, answer) == Some(
            NextStep::Fail { error: LoginError::ChallengeNotDecrypted },
        ),
        answer is Some && answer != Some(challenge) ==> challenge_refusal(challenge, answer)
            == Some(
            NextStep::Refuse {
                reason: "Invalid challenge response."@,
                error: LoginError::InvalidChallenge,
            },
        ),
{
}

/// A client that has met its challenge is asked for by the name that it said, with the secret
/// that it sent and under the name of the login with that secret and the public key. Where
/// the secret does not decrypt, the login fails.
pub proof fn clients_are_asked_for_by_name<L: LoginServer>(
    key: KeyPair,
    challenge: Seq<u8>,
    name: Seq<char>,
    profile_id: Option<Uuid>,
    packet: ServerboundLoginRegistry,
    token: Seq<u8>,
)
    requires
        packet matches ServerboundLoginRegistry::Key { encrypted_challenge, .. } && key.plaintext(
            encrypted_challenge@,
        ) == Some(challenge),
    ensures
        ({
            let step = login_step::<L>(
                key,
                LoginProgress::ExpectingKeyResponse { challenge, name, profile_id },
                packet,
                token,
            );
            match key.plaintext(packet->key_bytes@) {
                None => step == (NextStep::Fail { error: LoginError::SecretNotDecrypted }),
                Some(secret) => step matches NextStep::Authenticate {
                    request,
                    shared_secret,
                    name: asked,
                    profile_id: id,
                } && {
                    &&& shared_secret == secret
                    &&& asked == name
                    &&& id == profile_id
                    &&& request == L::address() + L::request_route() + "?username="@ + name
                        + "&serverId="@ + hex(signed_number(sha1_of(secret + key.public_half())))
                },
            }
        }),
{
    reveal_strlit("");
    match key.plaintext(packet->key_bytes@) {
        Some(secret) => {
            assert(""@ =~= Seq::<char>::empty());
            assert(encode_utf8(""@) =~= Seq::<u8>::empty());
            assert(encode_utf8(""@) + secret + key.public_half() =~= secret + key.public_half());
        },
        None => {},
    }
}

/// The servers that vouch for clients are those of Mojang and of Minehut, at these addresses.
pub proof fn vouching_servers_are_known()
    ensures
        MojangLoginServer::address() == "https://sessionserver.mojang.com"@,
        MojangLoginServer::request_route() == "/session/minecraft/hasJoined"@,
        MinehutLoginServer::address() == "https://api.minehut.com"@,
        MinehutLoginServer::request_route() == "/mitm/proxy/session/minecraft/hasJoined"@,
{
}

/// What comes out of turn is refused, with the reason.
pub proof fn refusals_give_the_reason<L: LoginServer>(
    key: KeyPair,
    progress: LoginProgress,
    packet: ServerboundLoginRegistry,
    token: Seq<u8>,
)
    ensures
        ({
            let step = login_step::<L>(key, progress, packet, token);
            &&& packet is Hello && progress is ExpectingKeyResponse ==> step == (NextStep::Refuse {
                reason: "Unexpected hello packet"@,
                error: LoginError::UnexpectedHello,
            })
            &&& packet is Key && progress is ExpectingHello ==> step == (NextStep::Refuse {
                reason: "Unexpected key packet."@,
                error: LoginError::KeyBeforeHello,
            })
            &&& packet is CustomQuery ==> step == (NextStep::Refuse {
                reason: "Custom queries are not supported."@,
                error: LoginError::UnexpectedCustomQuery,
            })
        }),
{
}

/// A client whose name is not the one of the profile is refused for the name, and else one
/// whose id is not the one of the profile for the id.
pub proof fn strangers_are_refused(profile: Profile, name: Seq<char>, profile_id: Option<Uuid>)
    ensures
        profile.name != name ==> profile_refusal(profile, name, profile_id) == Some(
            NextStep::Refuse { reason: "Invalid username."@, error: LoginError::InvalidUsername },
        ),
        profile.name == name && profile_id is Some && profile_id->0 != profile.id
            ==> profile_refusal(profile, name, profile_id) == Some(
            NextStep::Refuse { reason: "Invalid profile id"@, error: LoginError::InvalidProfileId },
        ),
{
}

/// Clients of protocol version 761 are current, and others are told the name of the version.
pub proof fn other_versions_are_told_so(connection_info: ConnectionInformation)
    ensures
        current(connection_info) <==> connection_info.protocol_version == 761,
        version_notice() == "This server is running a different MC version.\nPlease use "@
            + "1.19.3"@ + " to play on this server."@,
{
}

/// How far a login has come, and what follows a packet of it, hold each of their fields.
pub proof fn login_steps_hold_their_fields(state: LoginState, step: LoginStep)
    ensures
        match state {
            LoginState::ExpectingHello => state@ is ExpectingHello,
            LoginState::ExpectingKeyResponse { challenge, name, profile_id } => state@
                matches LoginProgress::ExpectingKeyResponse {
                challenge: c,
                name: n,
                profile_id: id,
            } && c == challenge@ && n == name@ && id == profile_id,
        },
        match step {
            LoginStep::Ask { packet, state } => step@ matches NextStep::Ask {
                packet: p,
                progress,
            } && p == packet@ && progress == state@,
            LoginStep::Refuse { reason, error } => step@ matches NextStep::Refuse {
                reason: r,
                error: e,
            } && r == reason@ && e == error,
            LoginStep::Fail { error } => step@ matches NextStep::Fail { error: e } && e == error,
            LoginStep::Authenticate { request, shared_secret, name, profile_id } => step@
                matches NextStep::Authenticate {
                request: r,
                shared_secret: s,
                name: n,
                profile_id: id,
            } && r == request@ && s == shared_secret@ && n == name@ && id == profile_id,
        },
{
}

} // verus!
