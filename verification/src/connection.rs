//! The per-connection state machine: the engine that turns inbound bytes
//! into state transitions and outbound frames.
//!
//! The engine is pure with respect to the outside world.  Sockets feed it
//! raw bytes through [`Connection::receive_bytes`]; it decrypts them when
//! encryption is active, accumulates them, extracts complete frames and
//! dispatches each by the current phase.  Everything it wants done comes
//! back as [`Action`]s: wire-ready bytes to send, or a session-server
//! lookup to perform.  While that lookup is outstanding the machine is
//! parked ([`Connection::spec_awaiting_auth`]) and dispatches nothing;
//! [`Connection::auth_result`] hands the verdict back in.

use vstd::prelude::*;

use crate::aes_util::{
    cfb8_transcript, initialize, SimpleDecryptor, SimpleEncryptor, StreamDecryptor,
    StreamEncryptor,
};
use crate::auth_hash::{server_id_hash, sha1_of, spec_hex_digest};
use crate::config::Config;
use crate::errors::PacketHandleError;
use crate::json_text::{
    lemma_disconnect_json_len, lemma_status_json_len, spec_disconnect_json, spec_status_json,
    status_json,
};
use crate::mojauth::{hex_value, is_uuid_text, parse_uuid, uuid_digits, SessionServerHasJoinedResponse};
use crate::packet::{frame_bytes, le_bytes, le_value, PacketReader};
use crate::packet_utils::{lemma_encode_utf8_len, parse_string};
use crate::packets::configuration::{
    channel_split, parse_client_information, ConfigurationClientboundFinishConfiguration,
};
use crate::packets::handshaking::{HandshakeNextState, HandshakingServerboundHandshake};
use crate::packets::login::{
    encryption_request_payload, login_reply_fits, login_success_payload, parse_encryption_response,
    parse_login_start, LoginClientboundDisconnect, LoginClientboundEncryptionRequest,
    LoginClientboundLoginSuccess, LoginSuccessProperty,
};
use crate::packets::status::{StatusClientboundPingResponse, StatusClientboundStatusResponse};
use crate::packets::string_field;
use crate::rsa_util::rsa_decrypt;
use crate::server::ServerData;
use crate::text::dec_chars_i32;
use crate::PROTOCOL_VERSION;

use rand::Rng;

verus! {

use crate::identifier::{valid_namespace, valid_value};

/// The lifecycle phase of one connection.
#[derive(Debug, Clone, Copy, PartialEq, Eq, Structural)]
pub enum ConnectionState {
    Handshaking,
    Status,
    Login,
    Configuration,
    Play,
}

impl ConnectionState {
    /// The phase's name.
    pub fn to_string(&self) -> (r: String)
        ensures
            r@ == match *self {
                ConnectionState::Handshaking => "Handshaking"@,
                ConnectionState::Status => "Status"@,
                ConnectionState::Login => "Login"@,
                ConnectionState::Configuration => "Configuration"@,
                ConnectionState::Play => "Play"@,
            },
    {
        match self {
            ConnectionState::Handshaking => "Handshaking".to_owned(),
            ConnectionState::Status => "Status".to_owned(),
            ConnectionState::Login => "Login".to_owned(),
            ConnectionState::Configuration => "Configuration".to_owned(),
            ConnectionState::Play => "Play".to_owned(),
        }
    }
}

/// The position of a phase in the lifecycle ordering; transitions never
/// move to a lower rank.
pub open spec fn state_rank(s: ConnectionState) -> int {
    match s {
        ConnectionState::Handshaking => 0,
        ConnectionState::Status => 1,
        ConnectionState::Login => 2,
        ConnectionState::Configuration => 3,
        ConnectionState::Play => 4,
    }
}

/// What the handshake declared, read-only thereafter.
pub struct ConnectionInfo {
    pub protocol_version: i32,
    pub server_address: String,
    pub server_port: u16,
}

/// What the engine asks its caller to do.
#[derive(Debug)]
pub enum Action {
    /// Write these bytes to the peer, exactly as given.
    Send(Vec<u8>),
    /// Ask the session server whether this player has joined under this
    /// server hash, then call [`Connection::auth_result`].
    Authenticate { username: String, server_id_hash: String },
}

enum EncryptionSetting {
    Disabled,
    Encrypted(StreamEncryptor, StreamDecryptor),
}

impl EncryptionSetting {
    spec fn is_enabled(&self) -> bool {
        self is Encrypted
    }

    spec fn secret(&self) -> Seq<u8> {
        match self {
            EncryptionSetting::Encrypted(e, _) => e.key(),
            EncryptionSetting::Disabled => Seq::empty(),
        }
    }

    spec fn sent(&self) -> Seq<u8> {
        match self {
            EncryptionSetting::Encrypted(e, _) => e.processed(),
            EncryptionSetting::Disabled => Seq::empty(),
        }
    }

    spec fn received(&self) -> Seq<u8> {
        match self {
            EncryptionSetting::Encrypted(_, d) => d.processed(),
            EncryptionSetting::Disabled => Seq::empty(),
        }
    }

    spec fn wf(&self) -> bool {
        match self {
            EncryptionSetting::Encrypted(e, d) => e.key() == d.key() && e.key().len() == 16,
            EncryptionSetting::Disabled => true,
        }
    }

    fn encrypt(&mut self, data: &Vec<u8>) -> (r: Vec<u8>)
        requires
            old(self).wf(),
        ensures
            final(self).wf(),
            final(self).is_enabled() == old(self).is_enabled(),
            final(self).secret() == old(self).secret(),
            final(self).received() == old(self).received(),
            old(self).is_enabled() ==> cfb8_transcript(
                old(self).secret(),
                old(self).sent(),
                data@,
                r@,
            ) && final(self).sent() == old(self).sent() + r@,
            !old(self).is_enabled() ==> r@ == data@ && final(self).sent() == old(self).sent(),
    {
        match self {
            EncryptionSetting::Encrypted(encryptor, _) => encryptor.encrypt(data),
            EncryptionSetting::Disabled => vstd::slice::slice_to_vec(data.as_slice()),
        }
    }

    fn decrypt(&mut self, data: &Vec<u8>) -> (r: Vec<u8>)
        requires
            old(self).wf(),
        ensures
            final(self).wf(),
            final(self).is_enabled() == old(self).is_enabled(),
            final(self).secret() == old(self).secret(),
            final(self).sent() == old(self).sent(),
            old(self).is_enabled() ==> cfb8_transcript(
                old(self).secret(),
                old(self).received(),
                r@,
                data@,
            ) && final(self).received() == old(self).received() + data@,
            !old(self).is_enabled() ==> r@ == data@ && final(self).received() == old(
                self,
            ).received(),
    {
        match self {
            EncryptionSetting::Encrypted(_, decryptor) => decryptor.decrypt(data),
            EncryptionSetting::Disabled => vstd::slice::slice_to_vec(data.as_slice()),
        }
    }
}

/// One accepted connection's whole state.
pub struct Connection {
    state: ConnectionState,
    server_data: ServerData,
    config: Config,
    public_key_der: Vec<u8>,
    verify_token: Option<Vec<u8>>,
    encryption_setting: EncryptionSetting,
    name: Option<String>,
    uuid: u128,
    connection_info: Option<ConnectionInfo>,
    awaiting_auth: bool,
    accumulator: Vec<u8>,
}

impl Connection {
    /// The current phase.
    pub closed spec fn spec_state(&self) -> ConnectionState {
        self.state
    }

    /// The outstanding verify token, if an encryption request is pending.
    pub closed spec fn spec_verify_token(&self) -> Option<Seq<u8>> {
        match self.verify_token {
            Some(t) => Some(t@),
            None => None,
        }
    }

    /// The player name declared at login start.
    pub closed spec fn spec_name(&self) -> Option<Seq<char>> {
        match self.name {
            Some(n) => Some(n@),
            None => None,
        }
    }

    /// The connection's identifier: provisional until authentication
    /// confirms one.
    pub closed spec fn spec_uuid(&self) -> u128 {
        self.uuid
    }

    /// What the handshake declared.
    pub closed spec fn spec_info(&self) -> Option<(i32, Seq<char>, u16)> {
        match self.connection_info {
            Some(ci) => Some((ci.protocol_version, ci.server_address@, ci.server_port)),
            None => None,
        }
    }

    /// Whether the machine is parked waiting for the session server.
    pub closed spec fn spec_awaiting_auth(&self) -> bool {
        self.awaiting_auth
    }

    /// Whether logins must be verified remotely.
    pub closed spec fn spec_online_mode(&self) -> bool {
        self.config.server.online_mode
    }

    /// The advertised player capacity.
    pub closed spec fn spec_max_players(&self) -> i32 {
        self.config.server.max_players
    }

    /// The message of the day.
    pub closed spec fn spec_motd(&self) -> Seq<char> {
        self.config.status.motd@
    }

    /// The advertised version prefix.
    pub closed spec fn spec_version_prefix(&self) -> Seq<char> {
        self.config.status.version_prefix@
    }

    /// The server's DER-encoded public key.
    pub closed spec fn spec_der(&self) -> Seq<u8> {
        self.public_key_der@
    }

    /// Whether transport encryption has been switched on.
    pub closed spec fn enc_enabled(&self) -> bool {
        self.encryption_setting.is_enabled()
    }

    /// The session's shared secret, once encryption is on.
    pub closed spec fn enc_secret(&self) -> Seq<u8> {
        self.encryption_setting.secret()
    }

    /// Every ciphertext byte sent since encryption was switched on.
    pub closed spec fn enc_sent(&self) -> Seq<u8> {
        self.encryption_setting.sent()
    }

    /// Every ciphertext byte received since encryption was switched on.
    pub closed spec fn enc_received(&self) -> Seq<u8> {
        self.encryption_setting.received()
    }

    /// Bytes received but not yet framed.
    pub closed spec fn spec_accumulator(&self) -> Seq<u8> {
        self.accumulator@
    }

    /// The connection's internal consistency: an outstanding verify token
    /// is four bytes and implies a declared name; parking implies login;
    /// the cipher pair shares one 16-byte secret; the advertised strings
    /// are of frameable size.
    pub closed spec fn wf(&self) -> bool {
        &&& (self.verify_token matches Some(t) ==> t@.len() == 4 && self.name is Some)
        &&& (self.awaiting_auth ==> self.state == ConnectionState::Login && self.name is Some)
        &&& self.encryption_setting.wf()
        &&& self.config.status.motd@.len() <= 1024
        &&& self.config.status.version_prefix@.len() <= 64
        &&& self.public_key_der@.len() <= 4096
    }
}

/// The configuration-derived facts no handler changes.
pub open spec fn same_config(pre: Connection, post: Connection) -> bool {
    &&& post.spec_online_mode() == pre.spec_online_mode()
    &&& post.spec_max_players() == pre.spec_max_players()
    &&& post.spec_motd() == pre.spec_motd()
    &&& post.spec_version_prefix() == pre.spec_version_prefix()
    &&& post.spec_der() == pre.spec_der()
}

/// The cipher state is untouched in both directions.
pub open spec fn same_cipher(pre: Connection, post: Connection) -> bool {
    &&& post.enc_enabled() == pre.enc_enabled()
    &&& post.enc_secret() == pre.enc_secret()
    &&& post.enc_sent() == pre.enc_sent()
    &&& post.enc_received() == pre.enc_received()
}

/// The identity fields are untouched.
pub open spec fn same_identity(pre: Connection, post: Connection) -> bool {
    &&& post.spec_verify_token() == pre.spec_verify_token()
    &&& post.spec_name() == pre.spec_name()
    &&& post.spec_uuid() == pre.spec_uuid()
    &&& post.spec_awaiting_auth() == pre.spec_awaiting_auth()
    &&& post.spec_info() == pre.spec_info()
}

/// One frame went out: its plaintext is `plain`; on an encrypted
/// connection the wire bytes are its CFB-8 transcript and the send history
/// grows by them, otherwise the wire bytes are the plaintext itself.  The
/// receive direction is untouched.
pub open spec fn sends_frame(
    pre: Connection,
    post: Connection,
    plain: Seq<u8>,
    wire: Seq<u8>,
) -> bool {
    &&& post.enc_enabled() == pre.enc_enabled()
    &&& post.enc_secret() == pre.enc_secret()
    &&& post.enc_received() == pre.enc_received()
    &&& (pre.enc_enabled() ==> cfb8_transcript(pre.enc_secret(), pre.enc_sent(), plain, wire)
        && post.enc_sent() == pre.enc_sent() + wire)
    &&& (!pre.enc_enabled() ==> wire == plain && post.enc_sent() == pre.enc_sent())
}

/// The one action is sending `plain`, sealed for the wire.
pub open spec fn sends_one(
    pre: Connection,
    post: Connection,
    plain: Seq<u8>,
    acts: Seq<Action>,
) -> bool {
    &&& acts.len() == 1
    &&& acts[0] matches Action::Send(w) && sends_frame(pre, post, plain, w@)
}

/// The name the status response advertises.
pub open spec fn spec_version_name(prefix: Seq<char>) -> Seq<char> {
    prefix + " "@ + "1.21"@
}

/// The disconnect reason for a protocol version mismatch, naming which
/// side is out of date.
pub open spec fn version_mismatch_reason(client_version: i32) -> Seq<char> {
    "Your protocol version ("@ + dec_chars_i32(client_version)
        + ") doesn't match server's protocol version ("@ + dec_chars_i32(PROTOCOL_VERSION)
        + ").\n"@ + (if client_version < PROTOCOL_VERSION {
        "Client out-of-date."@
    } else {
        "Server out-of-date."@
    })
}

/// The handshake declared a protocol version other than the server's.
pub open spec fn version_mismatch(pre: Connection) -> bool {
    pre.spec_info() matches Some((pv, addr, port)) && pv != PROTOCOL_VERSION
}

/// The protocol version the handshake declared, or zero before one.
pub open spec fn declared_version(pre: Connection) -> i32 {
    match pre.spec_info() {
        Some((pv, addr, port)) => pv,
        None => 0,
    }
}

/// A login attempt was refused: the state is unchanged but for the
/// disconnect frame with this reason going out.
pub open spec fn login_refusal(
    pre: Connection,
    post: Connection,
    reason: Seq<char>,
    acts: Seq<Action>,
) -> bool {
    &&& sends_one(pre, post, frame_bytes(0, string_field(spec_disconnect_json(reason))), acts)
    &&& same_identity(pre, post)
    &&& same_config(pre, post)
    &&& post.spec_state() == pre.spec_state()
    &&& post.spec_accumulator() == pre.spec_accumulator()
}

/// What handling one frame in the handshaking phase does.
pub open spec fn handshake_transition(
    pre: Connection,
    post: Connection,
    id: i32,
    payload: Seq<u8>,
    r: Result<Vec<Action>, PacketHandleError>,
) -> bool {
    if id == 0 {
        match crate::packets::handshaking::parse_handshake(payload) {
            Ok((pv, addr, port, ns, adv)) => {
                &&& r matches Ok(acts) && acts@.len() == 0
                &&& post.spec_info() == Some((pv, addr, port))
                &&& post.spec_state() == (match ns {
                    HandshakeNextState::Status => ConnectionState::Status,
                    HandshakeNextState::Login => ConnectionState::Login,
                    HandshakeNextState::Transfer => pre.spec_state(),
                })
                &&& post.spec_verify_token() == pre.spec_verify_token()
                &&& post.spec_name() == pre.spec_name()
                &&& post.spec_uuid() == pre.spec_uuid()
                &&& post.spec_awaiting_auth() == pre.spec_awaiting_auth()
                &&& same_config(pre, post)
                &&& same_cipher(pre, post)
                &&& post.spec_accumulator() == pre.spec_accumulator()
            },
            Err(e) => r matches Err(he) && he matches PacketHandleError::ReadError(e2) && e2 == e
                && post == pre,
        }
    } else {
        r matches Err(he) && he matches PacketHandleError::BadId(b) && b == id && post == pre
    }
}

/// What handling one frame in the status phase does.
pub open spec fn status_transition(
    pre: Connection,
    post: Connection,
    id: i32,
    payload: Seq<u8>,
    r: Result<Vec<Action>, PacketHandleError>,
) -> bool {
    if id == 0 {
        &&& r matches Ok(acts) && sends_one(
            pre,
            post,
            frame_bytes(
                0,
                string_field(
                    spec_status_json(
                        spec_version_name(pre.spec_version_prefix()),
                        PROTOCOL_VERSION,
                        pre.spec_max_players(),
                        pre.spec_motd(),
                    ),
                ),
            ),
            acts@,
        )
        &&& same_identity(pre, post)
        &&& same_config(pre, post)
        &&& post.spec_state() == pre.spec_state()
        &&& post.spec_accumulator() == pre.spec_accumulator()
    } else if id == 1 {
        if payload.len() >= 8 {
            &&& r matches Ok(acts) && sends_one(
                pre,
                post,
                frame_bytes(1, le_bytes(le_value(payload.take(8)), 8)),
                acts@,
            )
            &&& same_identity(pre, post)
            &&& same_config(pre, post)
            &&& post.spec_state() == pre.spec_state()
            &&& post.spec_accumulator() == pre.spec_accumulator()
        } else {
            r matches Err(he) && he matches PacketHandleError::ReadError(e2) && e2
                is BufferUnderflow && post == pre
        }
    } else {
        r matches Err(he) && he matches PacketHandleError::BadId(b) && b == id && post == pre
    }
}

/// What handling an encryption response with a token outstanding does:
/// either a refusal (a failed decryption or a token mismatch), or the
/// switch to encryption followed by the session-server lookup (online
/// mode) or an immediate login success (offline mode).
pub open spec fn encryption_response_outcome(
    pre: Connection,
    post: Connection,
    r: Result<Vec<Action>, PacketHandleError>,
) -> bool {
    ||| (r matches Ok(a) && login_refusal(pre, post, "Failure to set up encryption"@, a@))
    ||| (r matches Ok(a) && login_refusal(pre, post, "Verify tokens didn't match."@, a@))
    ||| encryption_success(pre, post, r)
}

/// The encryption response checked out: the token is cleared, the cipher
/// pair is keyed with the decrypted 16-byte secret with fresh feedback
/// state, and the login proceeds by mode.
pub open spec fn encryption_success(
    pre: Connection,
    post: Connection,
    r: Result<Vec<Action>, PacketHandleError>,
) -> bool {
    &&& post.spec_verify_token() is None
    &&& post.enc_enabled() && post.enc_secret().len() == 16
    &&& post.spec_name() == pre.spec_name()
    &&& post.spec_info() == pre.spec_info()
    &&& same_config(pre, post)
    &&& post.spec_state() == ConnectionState::Login
    &&& post.spec_accumulator() == pre.spec_accumulator()
    &&& post.enc_received() == Seq::<u8>::empty()
    &&& if pre.spec_online_mode() {
        &&& post.spec_awaiting_auth()
        &&& post.spec_uuid() == pre.spec_uuid()
        &&& post.enc_sent() == Seq::<u8>::empty()
        &&& r matches Ok(acts) && ({
            &&& acts@.len() == 1
            &&& acts@[0] matches Action::Authenticate { username, server_id_hash }
                && pre.spec_name() == Some(username@) && server_id_hash@ == spec_hex_digest(
                sha1_of(post.enc_secret() + pre.spec_der()),
            )
        })
    } else {
        &&& !post.spec_awaiting_auth()
        &&& post.spec_uuid() == pre.spec_uuid()
        &&& r matches Ok(acts) && ({
            &&& acts@.len() == 1
            &&& acts@[0] matches Action::Send(w) && ({
                let plain = if login_reply_fits(
                    pre.spec_name()->0,
                    Seq::<LoginSuccessProperty>::empty(),
                ) {
                    frame_bytes(
                        2,
                        login_success_payload(
                            pre.spec_uuid(),
                            pre.spec_name()->0,
                            Seq::<LoginSuccessProperty>::empty(),
                            false,
                        ),
                    )
                } else {
                    frame_bytes(
                        0,
                        string_field(spec_disconnect_json("Failed to authenticate"@)),
                    )
                };
                &&& cfb8_transcript(post.enc_secret(), Seq::<u8>::empty(), plain, w@)
                &&& post.enc_sent() == w@
            })
        })
    }
}

/// What handling one frame in the login phase does.
pub open spec fn login_transition(
    pre: Connection,
    post: Connection,
    id: i32,
    payload: Seq<u8>,
    r: Result<Vec<Action>, PacketHandleError>,
) -> bool {
    if id == 0 {
        match parse_login_start(payload) {
            Ok((name, uuid, adv)) => {
                &&& post.spec_name() == Some(name)
                &&& post.spec_uuid() == uuid
                &&& post.spec_info() == pre.spec_info()
                &&& !post.spec_awaiting_auth()
                &&& same_config(pre, post)
                &&& post.spec_state() == ConnectionState::Login
                &&& post.spec_accumulator() == pre.spec_accumulator()
                &&& if version_mismatch(pre) {
                    &&& post.spec_verify_token() == pre.spec_verify_token()
                    &&& r matches Ok(acts) && sends_one(
                        pre,
                        post,
                        frame_bytes(
                            0,
                            string_field(
                                spec_disconnect_json(
                                    version_mismatch_reason(declared_version(pre)),
                                ),
                            ),
                        ),
                        acts@,
                    )
                } else {
                    &&& post.spec_verify_token() matches Some(t) && ({
                        &&& t.len() == 4
                        &&& r matches Ok(acts) && sends_one(
                            pre,
                            post,
                            frame_bytes(
                                1,
                                encryption_request_payload(
                                    pre.spec_der(),
                                    t,
                                    pre.spec_online_mode(),
                                ),
                            ),
                            acts@,
                        )
                    })
                }
            },
            Err(e) => r matches Err(he) && he matches PacketHandleError::ReadError(e2) && e2 == e
                && post == pre,
        }
    } else if id == 1 {
        match parse_encryption_response(payload) {
            Ok((ct_secret, ct_token, adv)) => {
                if pre.spec_verify_token() is None {
                    r matches Ok(a) && login_refusal(
                        pre,
                        post,
                        "Failure to set up encryption"@,
                        a@,
                    )
                } else {
                    encryption_response_outcome(pre, post, r)
                }
            },
            Err(e) => r matches Err(he) && he matches PacketHandleError::ReadError(e2) && e2 == e
                && post == pre,
        }
    } else if id == 3 {
        &&& r matches Ok(acts) && acts@.len() == 0
        &&& post.spec_state() == ConnectionState::Configuration
        &&& same_identity(pre, post)
        &&& same_config(pre, post)
        &&& same_cipher(pre, post)
        &&& post.spec_accumulator() == pre.spec_accumulator()
    } else {
        r matches Err(he) && he matches PacketHandleError::BadId(b) && b == id && post == pre
    }
}

/// What handling one frame in the configuration phase does.
pub open spec fn configuration_transition(
    pre: Connection,
    post: Connection,
    id: i32,
    payload: Seq<u8>,
    r: Result<Vec<Action>, PacketHandleError>,
) -> bool {
    if id == 0 {
        match parse_client_information(payload) {
            Ok(v) => {
                &&& r matches Ok(acts) && sends_one(
                    pre,
                    post,
                    frame_bytes(3, Seq::<u8>::empty()),
                    acts@,
                )
                &&& same_identity(pre, post)
                &&& same_config(pre, post)
                &&& post.spec_state() == pre.spec_state()
                &&& post.spec_accumulator() == pre.spec_accumulator()
            },
            Err(e) => r matches Err(he) && he matches PacketHandleError::ReadError(e2) && e2 == e
                && post == pre,
        }
    } else if id == 2 {
        match parse_string(payload) {
            Ok((text, l1)) => {
                let (ns, value) = channel_split(text);
                if valid_namespace(ns) && valid_value(value) {
                    r matches Ok(acts) && acts@.len() == 0 && post == pre
                } else {
                    r matches Err(he) && he matches PacketHandleError::ReadError(e2) && e2
                        is ConvertationIssue && post == pre
                }
            },
            Err(e) => r matches Err(he) && he matches PacketHandleError::ReadError(e2) && e2 == e
                && post == pre,
        }
    } else if id == 3 {
        &&& r matches Ok(acts) && acts@.len() == 0
        &&& post.spec_state() == ConnectionState::Play
        &&& same_identity(pre, post)
        &&& same_config(pre, post)
        &&& same_cipher(pre, post)
        &&& post.spec_accumulator() == pre.spec_accumulator()
    } else {
        r matches Err(he) && he matches PacketHandleError::BadId(b) && b == id && post == pre
    }
}

/// One frame's effect in whatever phase the machine is in; in the play
/// phase every frame is accepted and ignored.
#[verifier::opaque]
pub open spec fn phase_transition(
    pre: Connection,
    post: Connection,
    id: i32,
    payload: Seq<u8>,
    r: Result<Vec<Action>, PacketHandleError>,
) -> bool {
    match pre.spec_state() {
        ConnectionState::Handshaking => handshake_transition(pre, post, id, payload, r),
        ConnectionState::Status => status_transition(pre, post, id, payload, r),
        ConnectionState::Login => login_transition(pre, post, id, payload, r),
        ConnectionState::Configuration => configuration_transition(pre, post, id, payload, r),
        ConnectionState::Play => r matches Ok(acts) && acts@.len() == 0 && post == pre,
    }
}

/// A handled frame never touches the byte backlog, and a failed one
/// changes nothing at all.
proof fn lemma_phase_preserves_backlog(
    pre: Connection,
    post: Connection,
    id: i32,
    payload: Seq<u8>,
    r: Result<Vec<Action>, PacketHandleError>,
)
    requires
        phase_transition(pre, post, id, payload, r),
    ensures
        post.spec_accumulator() == pre.spec_accumulator(),
        r is Err ==> post == pre,
{
    reveal(phase_transition);
}

/// What one raw frame does to the machine: its leading varint names the
/// packet and the phase handler runs on the rest.  A frame with no
/// readable packet id, or one whose handler reports an error, is dropped
/// and changes nothing.
pub open spec fn frame_step(
    pre: Connection,
    frame: Seq<u8>,
    post: Connection,
    acts: Seq<Action>,
) -> bool {
    match crate::packet_utils::parse_varint(frame) {
        crate::packet_utils::VarintParse::Done { value, len } => {
            ||| (exists|emitted: Vec<Action>|
                #[trigger] phase_transition(pre, post, value as i32, frame.skip(len), Ok(emitted))
                    && acts == emitted@)
            ||| ((exists|e: PacketHandleError|
                phase_transition(pre, post, value as i32, frame.skip(len), Err(e))) && post == pre
                && acts.len() == 0)
        },
        crate::packet_utils::VarintParse::Incomplete => post == pre && acts.len() == 0,
        crate::packet_utils::VarintParse::TooLong => post == pre && acts.len() == 0,
    }
}

/// The two machines agree on everything but the byte backlog.
pub open spec fn eq_but_backlog(a: Connection, b: Connection) -> bool {
    &&& b.spec_state() == a.spec_state()
    &&& b.spec_verify_token() == a.spec_verify_token()
    &&& b.spec_name() == a.spec_name()
    &&& b.spec_uuid() == a.spec_uuid()
    &&& b.spec_info() == a.spec_info()
    &&& b.spec_awaiting_auth() == a.spec_awaiting_auth()
    &&& same_config(a, b)
    &&& same_cipher(a, b)
}

/// The intake step: arriving bytes are decrypted when encryption is
/// active and the plaintext joins the backlog; nothing else moves.
pub open spec fn intake(pre: Connection, raw: Seq<u8>, plain: Seq<u8>, entry: Connection) -> bool {
    &&& entry.spec_state() == pre.spec_state()
    &&& entry.spec_verify_token() == pre.spec_verify_token()
    &&& entry.spec_name() == pre.spec_name()
    &&& entry.spec_uuid() == pre.spec_uuid()
    &&& entry.spec_info() == pre.spec_info()
    &&& entry.spec_awaiting_auth() == pre.spec_awaiting_auth()
    &&& same_config(pre, entry)
    &&& entry.enc_enabled() == pre.enc_enabled()
    &&& entry.enc_secret() == pre.enc_secret()
    &&& entry.enc_sent() == pre.enc_sent()
    &&& (pre.enc_enabled() ==> cfb8_transcript(pre.enc_secret(), pre.enc_received(), plain, raw)
        && entry.enc_received() == pre.enc_received() + raw)
    &&& (!pre.enc_enabled() ==> plain == raw && entry.enc_received() == pre.enc_received())
    &&& entry.spec_accumulator() == pre.spec_accumulator() + plain
}

/// The run relation of the dispatch loop: complete frames leave the head
/// of the backlog one by one, each handled in arrival order by
/// [`frame_step`], until no complete frame remains, or until a handler
/// parks the machine for authentication, which stops the run at once.
#[verifier::opaque]
pub open spec fn engine_run(pre: Connection, post: Connection, acts: Seq<Action>) -> bool
    decreases pre.spec_accumulator().len(),
    via engine_run_decreases
{
    match crate::frames::extract_one(pre.spec_accumulator()) {
        Some((frame, rest)) => exists|drained: Connection, mid: Connection, first: Seq<Action>, more: Seq<Action>|
            #![trigger frame_step(drained, frame, mid, first), first.add(more)]
            {
            &&& eq_but_backlog(pre, drained) && drained.spec_accumulator() == rest
            &&& frame_step(drained, frame, mid, first)
            &&& acts == first + more
            &&& if mid.spec_awaiting_auth() {
                post == mid && more.len() == 0
            } else {
                engine_run(mid, post, more)
            }
        },
        None => post == pre && acts.len() == 0,
    }
}

#[via_fn]
proof fn engine_run_decreases(pre: Connection, post: Connection, acts: Seq<Action>) {
    reveal(phase_transition);
    crate::packet_utils::lemma_parse_varint_done_len(pre.spec_accumulator(), 5);
    if crate::frames::extract_one(pre.spec_accumulator()) is Some {
        assert forall|drained: Connection, mid: Connection, first: Seq<Action>|
            eq_but_backlog(pre, drained) && drained.spec_accumulator() == crate::frames::extract_one(
                pre.spec_accumulator(),
            )->Some_0.1 && #[trigger] frame_step(
                drained,
                crate::frames::extract_one(pre.spec_accumulator())->Some_0.0,
                mid,
                first,
            ) implies mid.spec_accumulator().len() < pre.spec_accumulator().len() by {
            lemma_frame_step_preserves_backlog(
                drained,
                crate::frames::extract_one(pre.spec_accumulator())->Some_0.0,
                mid,
                first,
            );
        }
    }
}

/// A dropped or handled frame never touches the byte backlog.
proof fn lemma_frame_step_preserves_backlog(
    pre: Connection,
    frame: Seq<u8>,
    post: Connection,
    acts: Seq<Action>,
)
    requires
        frame_step(pre, frame, post, acts),
    ensures
        post.spec_accumulator() == pre.spec_accumulator(),
{
    match crate::packet_utils::parse_varint(frame) {
        crate::packet_utils::VarintParse::Done { value, len } => {
            if exists|emitted: Vec<Action>|
                #[trigger] phase_transition(pre, post, value as i32, frame.skip(len), Ok(emitted))
                    && acts == emitted@ {
                let emitted = choose|emitted: Vec<Action>|
                    #[trigger] phase_transition(
                        pre,
                        post,
                        value as i32,
                        frame.skip(len),
                        Ok(emitted),
                    ) && acts == emitted@;
                lemma_phase_preserves_backlog(pre, post, value as i32, frame.skip(len), Ok(emitted));
            }
        },
        _ => {},
    }
}

/// Chaining: a run that has taken one step extends to a run of the whole.
proof fn lemma_engine_run_step(
    pre: Connection,
    drained: Connection,
    mid: Connection,
    first: Seq<Action>,
)
    requires
        crate::frames::extract_one(pre.spec_accumulator()) matches Some((frame, rest))
            && eq_but_backlog(pre, drained) && drained.spec_accumulator() == rest && frame_step(
            drained,
            frame,
            mid,
            first,
        ),
    ensures
        mid.spec_awaiting_auth() ==> engine_run(pre, mid, first),
        forall|post: Connection, more: Seq<Action>|
            !mid.spec_awaiting_auth() && #[trigger] engine_run(mid, post, more) ==> engine_run(
                pre,
                post,
                first + more,
            ),
{
    reveal(engine_run);
    let (frame, rest) = crate::frames::extract_one(pre.spec_accumulator())->Some_0;
    if mid.spec_awaiting_auth() {
        assert(first =~= first + Seq::<Action>::empty());
        assert(engine_run(pre, mid, first));
    }
    assert forall|post: Connection, more: Seq<Action>|
        !mid.spec_awaiting_auth() && #[trigger] engine_run(mid, post, more) implies engine_run(
        pre,
        post,
        first + more,
    ) by {
        assert(engine_run(pre, post, first + more));
    }
}

/// A backlog with no complete frame runs to itself with nothing emitted.
proof fn lemma_engine_run_nil(c: Connection)
    requires
        crate::frames::extract_one(c.spec_accumulator()) is None,
    ensures
        engine_run(c, c, Seq::<Action>::empty()),
{
    reveal(engine_run);
}

/// Relies on `rand::thread_rng` and `rand::Rng::fill`: `size` bytes of
/// randomness; only the length is assumed.
#[verifier::external_body]
fn random_bytes(size: usize) -> (r: Vec<u8>)
    ensures
        r@.len() == size,
{
    let mut bytes = vec![0u8; size];
    rand::thread_rng().fill(&mut bytes[..]);
    bytes
}

/// Relies on `uuid::Uuid::new_v4`: a fresh random identifier; nothing is
/// assumed of its value.
#[verifier::external_body]
fn random_uuid() -> u128 {
    uuid::Uuid::new_v4().as_u128()
}

/// A fresh random verify token.
fn generate_verify_token(size: usize) -> (r: Vec<u8>)
    ensures
        r@.len() == size,
{
    random_bytes(size)
}

fn vecs_equal(a: &Vec<u8>, b: &Vec<u8>) -> (r: bool)
    ensures
        r == (a@ == b@),
{
    if a.len() != b.len() {
        return false;
    }
    let n: usize = a.len();
    let mut i: usize = 0;
    while i < n
        invariant
            n == a@.len(),
            n == b@.len(),
            i <= n,
            forall|j: int| 0 <= j < i ==> a@[j] == b@[j],
        decreases n - i,
    {
        if a[i] != b[i] {
            return false;
        }
        i = i + 1;
    }
    proof {
        assert(a@ =~= b@);
    }
    true
}

impl Connection {
    /// A fresh connection in the handshaking phase.  `None` when the
    /// public key cannot be DER-encoded.
    pub fn new(server_data: ServerData, config: Config) -> (r: Option<Connection>)
        requires
            config.status.motd@.len() <= 1024,
            config.status.version_prefix@.len() <= 64,
        ensures
            r matches Some(c) ==> {
                &&& c.wf()
                &&& c.spec_state() == ConnectionState::Handshaking
                &&& c.spec_verify_token() is None
                &&& c.spec_name() is None
                &&& c.spec_info() is None
                &&& !c.spec_awaiting_auth()
                &&& !c.enc_enabled()
                &&& c.spec_accumulator() == Seq::<u8>::empty()
                &&& c.spec_online_mode() == config.server.online_mode
                &&& c.spec_max_players() == config.server.max_players
                &&& c.spec_motd() == config.status.motd@
                &&& c.spec_version_prefix() == config.status.version_prefix@
            },
    {
        let public_key_der: Vec<u8> = match crate::rsa_util::public_key_der(
            &server_data.public_key,
        ) {
            Some(d) => d,
            None => {
                return None;
            },
        };
        if public_key_der.len() > 4096 {
            return None;
        }
        let uuid: u128 = random_uuid();
        Some(
            Connection {
                state: ConnectionState::Handshaking,
                server_data,
                config,
                public_key_der,
                verify_token: None,
                encryption_setting: EncryptionSetting::Disabled,
                name: None,
                uuid,
                connection_info: None,
                awaiting_auth: false,
                accumulator: Vec::new(),
            },
        )
    }

    /// Send a disconnect frame shaped for the current phase; in a phase
    /// with no disconnect packet nothing goes out.
    fn disconnect(&mut self, reason: String) -> (r: Option<Vec<u8>>)
        requires
            old(self).wf(),
            reason@.len() <= 1024,
        ensures
            final(self).wf(),
            same_identity(*old(self), *final(self)),
            same_config(*old(self), *final(self)),
            final(self).spec_state() == old(self).spec_state(),
            final(self).spec_accumulator() == old(self).spec_accumulator(),
            match old(self).spec_state() {
                ConnectionState::Login => r matches Some(w) && sends_frame(
                    *old(self),
                    *final(self),
                    frame_bytes(0, string_field(spec_disconnect_json(reason@))),
                    w@,
                ),
                ConnectionState::Configuration => r matches Some(w) && sends_frame(
                    *old(self),
                    *final(self),
                    frame_bytes(2, string_field(spec_disconnect_json(reason@))),
                    w@,
                ),
                _ => r is None && same_cipher(*old(self), *final(self)),
            },
    {
        proof {
            lemma_disconnect_json_len(reason@);
            lemma_encode_utf8_len(spec_disconnect_json(reason@));
            crate::packets::login::lemma_string_field_len(spec_disconnect_json(reason@));
        }
        match self.state {
            ConnectionState::Login => {
                let packet = LoginClientboundDisconnect::from_string(reason);
                let plain: Vec<u8> = packet.build();
                let wire: Vec<u8> = self.encryption_setting.encrypt(&plain);
                Some(wire)
            },
            ConnectionState::Configuration => {
                let packet = crate::packets::configuration::ConfigurationClientboundDisconnect::from_string(
                    reason,
                );
                let plain: Vec<u8> = packet.build();
                let wire: Vec<u8> = self.encryption_setting.encrypt(&plain);
                Some(wire)
            },
            _ => None,
        }
    }

    /// Handle one frame in the handshaking phase.
    pub fn handle_handshaking_packet(&mut self, reader: PacketReader) -> (r: Result<
        Vec<Action>,
        PacketHandleError,
    >)
        requires
            old(self).wf(),
            reader.wf(),
            old(self).spec_state() == ConnectionState::Handshaking,
        ensures
            final(self).wf(),
            state_rank(final(self).spec_state()) >= state_rank(old(self).spec_state()),
            handshake_transition(*old(self), *final(self), reader.spec_id(), reader.rem(), r),
    {
        let mut reader = reader;
        let id: i32 = reader.id();
        if id != 0 {
            return Err(PacketHandleError::BadId(id));
        }
        let packet = match HandshakingServerboundHandshake::read(&mut reader) {
            Ok(p) => p,
            Err(e) => {
                return Err(PacketHandleError::ReadError(e));
            },
        };
        self.connection_info = Some(
            ConnectionInfo {
                protocol_version: packet.protocol_version,
                server_address: packet.server_address,
                server_port: packet.server_port,
            },
        );
        match packet.next_state {
            HandshakeNextState::Status => {
                self.state = ConnectionState::Status;
            },
            HandshakeNextState::Login => {
                self.state = ConnectionState::Login;
            },
            HandshakeNextState::Transfer => {},
        }
        Ok(Vec::new())
    }

    /// Handle one frame in the status phase.
    pub fn handle_status_packet(&mut self, reader: PacketReader) -> (r: Result<
        Vec<Action>,
        PacketHandleError,
    >)
        requires
            old(self).wf(),
            reader.wf(),
            old(self).spec_state() == ConnectionState::Status,
        ensures
            final(self).wf(),
            state_rank(final(self).spec_state()) >= state_rank(old(self).spec_state()),
            status_transition(*old(self), *final(self), reader.spec_id(), reader.rem(), r),
    {
        let ghost payload = reader.rem();
        let mut reader = reader;
        let id: i32 = reader.id();
        if id == 0 {
            let mut version_name: String = self.config.status.version_prefix.clone();
            version_name.append(" ");
            version_name.append(crate::version_label());
            proof {
                reveal_strlit(" ");
                reveal_strlit("1.21");
                assert(version_name@ =~= spec_version_name(self.spec_version_prefix()));
                lemma_status_json_len(
                    spec_version_name(self.spec_version_prefix()),
                    PROTOCOL_VERSION,
                    self.spec_max_players(),
                    self.spec_motd(),
                );
                lemma_encode_utf8_len(
                    spec_status_json(
                        spec_version_name(self.spec_version_prefix()),
                        PROTOCOL_VERSION,
                        self.spec_max_players(),
                        self.spec_motd(),
                    ),
                );
                crate::packets::login::lemma_string_field_len(
                    spec_status_json(
                        spec_version_name(self.spec_version_prefix()),
                        PROTOCOL_VERSION,
                        self.spec_max_players(),
                        self.spec_motd(),
                    ),
                );
            }
            let json: String = status_json(
                version_name.as_str(),
                PROTOCOL_VERSION,
                self.config.server.max_players,
                self.config.status.motd.as_str(),
            );
            let packet = StatusClientboundStatusResponse { json_response: json };
            let plain: Vec<u8> = packet.build();
            let wire: Vec<u8> = self.encryption_setting.encrypt(&plain);
            let mut acts: Vec<Action> = Vec::new();
            acts.push(Action::Send(wire));
            Ok(acts)
        } else if id == 1 {
            let packet = match crate::packets::status::StatusServerboundPingRequest::read(
                &mut reader,
            ) {
                Ok(p) => p,
                Err(e) => {
                    return Err(PacketHandleError::ReadError(e));
                },
            };
            proof {
                crate::packet::lemma_le_value_bound(payload.take(8));
                vstd::arithmetic::power2::lemma2_to64();
            }
            let response = StatusClientboundPingResponse { timestamp: packet.timestamp };
            let plain: Vec<u8> = response.build();
            proof {
                let v = le_value(payload.take(8));
                assert(payload.take(8).len() == 8);
                assert(v < vstd::arithmetic::power2::pow2(64));
                let w: u64 = v as u64;
                assert((w as i64) as u64 == w) by (bit_vector);
                assert(w as nat == v);
                assert(packet.timestamp as u64 as nat == v);
                assert(le_bytes(packet.timestamp as u64 as nat, 8) == le_bytes(
                    le_value(payload.take(8)),
                    8,
                ));
            }
            let wire: Vec<u8> = self.encryption_setting.encrypt(&plain);
            let mut acts: Vec<Action> = Vec::new();
            acts.push(Action::Send(wire));
            Ok(acts)
        } else {
            Err(PacketHandleError::BadId(id))
        }
    }

    /// Handle one frame in the login phase.
    pub fn handle_login_packet(&mut self, reader: PacketReader) -> (r: Result<
        Vec<Action>,
        PacketHandleError,
    >)
        requires
            old(self).wf(),
            reader.wf(),
            old(self).spec_state() == ConnectionState::Login,
            !old(self).spec_awaiting_auth(),
        ensures
            final(self).wf(),
            state_rank(final(self).spec_state()) >= state_rank(old(self).spec_state()),
            login_transition(*old(self), *final(self), reader.spec_id(), reader.rem(), r),
    {
        let mut reader = reader;
        let id: i32 = reader.id();
        if id == 0 {
            let packet = match crate::packets::login::LoginServerboundLoginStart::read(
                &mut reader,
            ) {
                Ok(p) => p,
                Err(e) => {
                    return Err(PacketHandleError::ReadError(e));
                },
            };
            self.name = Some(packet.name);
            self.uuid = packet.uuid;
            let mismatch: bool = match &self.connection_info {
                Some(ci) => ci.protocol_version != PROTOCOL_VERSION,
                None => false,
            };
            if mismatch {
                let client_version: i32 = match &self.connection_info {
                    Some(ci) => ci.protocol_version,
                    None => 0,
                };
                let mut reason: String = "Your protocol version (".to_owned();
                let v1: String = crate::text::int_to_string(client_version);
                reason.append(v1.as_str());
                reason.append(") doesn't match server's protocol version (");
                let v2: String = crate::text::int_to_string(PROTOCOL_VERSION);
                reason.append(v2.as_str());
                reason.append(").\n");
                if client_version < PROTOCOL_VERSION {
                    reason.append("Client out-of-date.");
                } else {
                    reason.append("Server out-of-date.");
                }
                proof {
                    assert(reason@ =~= version_mismatch_reason(client_version));
                    crate::text::lemma_dec_chars_i32_len(client_version);
                    crate::text::lemma_dec_chars_i32_len(PROTOCOL_VERSION);
                    reveal_strlit("Your protocol version (");
                    reveal_strlit(") doesn't match server's protocol version (");
                    reveal_strlit(").\n");
                    reveal_strlit("Client out-of-date.");
                    reveal_strlit("Server out-of-date.");
                }
                let wire: Option<Vec<u8>> = self.disconnect(reason);
                let mut acts: Vec<Action> = Vec::new();
                match wire {
                    Some(w) => {
                        acts.push(Action::Send(w));
                    },
                    None => {
                        proof {
                            assert(false);
                        }
                    },
                }
                return Ok(acts);
            }
            let token: Vec<u8> = generate_verify_token(4);
            let stored: Vec<u8> = vstd::slice::slice_to_vec(token.as_slice());
            self.verify_token = Some(stored);
            let request = LoginClientboundEncryptionRequest {
                public_key: vstd::slice::slice_to_vec(self.public_key_der.as_slice()),
                verify_token: token,
                should_authenticate: self.config.server.online_mode,
            };
            proof {
                crate::packet_utils::lemma_varint_bytes_len(request.public_key@.len() as u32);
            }
            let plain: Vec<u8> = request.build();
            let wire: Vec<u8> = self.encryption_setting.encrypt(&plain);
            let mut acts: Vec<Action> = Vec::new();
            acts.push(Action::Send(wire));
            Ok(acts)
        } else if id == 1 {
            let packet = match crate::packets::login::LoginServerboundEncryptionResponse::read(
                &mut reader,
            ) {
                Ok(p) => p,
                Err(e) => {
                    return Err(PacketHandleError::ReadError(e));
                },
            };
            let stored: Vec<u8> = match &self.verify_token {
                Some(t) => vstd::slice::slice_to_vec(t.as_slice()),
                None => {
                    proof {
                        reveal_strlit("Failure to set up encryption");
                    }
                    let wire: Option<Vec<u8>> = self.disconnect(
                        "Failure to set up encryption".to_owned(),
                    );
                    let mut acts: Vec<Action> = Vec::new();
                    match wire {
                        Some(w) => {
                            acts.push(Action::Send(w));
                        },
                        None => {
                            proof {
                                assert(false);
                            }
                        },
                    }
                    return Ok(acts);
                },
            };
            proof {
                reveal_strlit("Failure to set up encryption");
                reveal_strlit("Verify tokens didn't match.");
                reveal_strlit("Failed to authenticate");
            }
            let decrypted_token: Vec<u8> = match rsa_decrypt(
                &self.server_data.private_key,
                &packet.verify_token,
            ) {
                Some(v) => v,
                None => {
                    return Ok(self.refuse_login("Failure to set up encryption"));
                },
            };
            if !vecs_equal(&decrypted_token, &stored) {
                return Ok(self.refuse_login("Verify tokens didn't match."));
            }
            let shared_secret: Vec<u8> = match rsa_decrypt(
                &self.server_data.private_key,
                &packet.shared_secret,
            ) {
                Some(v) => v,
                None => {
                    return Ok(self.refuse_login("Failure to set up encryption"));
                },
            };
            if shared_secret.len() != 16 {
                return Ok(self.refuse_login("Failure to set up encryption"));
            }
            self.verify_token = None;
            let (encryptor, decryptor) = initialize(&shared_secret);
            self.encryption_setting = EncryptionSetting::Encrypted(encryptor, decryptor);
            if self.config.server.online_mode {
                let username: String = match &self.name {
                    Some(n) => n.clone(),
                    None => {
                        proof {
                            assert(false);
                        }
                        String::new()
                    },
                };
                let hash: String = server_id_hash(&shared_secret, &self.public_key_der);
                self.awaiting_auth = true;
                let mut acts: Vec<Action> = Vec::new();
                acts.push(Action::Authenticate { username, server_id_hash: hash });
                Ok(acts)
            } else {
                let username: String = match &self.name {
                    Some(n) => n.clone(),
                    None => {
                        proof {
                            assert(false);
                        }
                        String::new()
                    },
                };
                let packet = LoginClientboundLoginSuccess {
                    uuid: self.uuid,
                    username,
                    properties: Vec::new(),
                    strict_error_handling: false,
                };
                proof {
                    assert(packet.properties@ =~= Seq::<LoginSuccessProperty>::empty());
                }
                let mut acts: Vec<Action> = Vec::new();
                if packet.fits() {
                    let plain: Vec<u8> = packet.build();
                    let wire: Vec<u8> = self.encryption_setting.encrypt(&plain);
                    acts.push(Action::Send(wire));
                } else {
                    proof {
                        reveal_strlit("Failed to authenticate");
                    }
                    match self.disconnect("Failed to authenticate".to_owned()) {
                        Some(w) => {
                            acts.push(Action::Send(w));
                        },
                        None => {
                            proof {
                                assert(false);
                            }
                        },
                    }
                }
                Ok(acts)
            }
        } else if id == 3 {
            self.state = ConnectionState::Configuration;
            Ok(Vec::new())
        } else {
            Err(PacketHandleError::BadId(id))
        }
    }

    /// Send a login disconnect with this reason, leaving everything else
    /// alone.
    fn refuse_login(&mut self, reason: &str) -> (acts: Vec<Action>)
        requires
            old(self).wf(),
            old(self).spec_state() == ConnectionState::Login,
            reason@.len() <= 1024,
        ensures
            final(self).wf(),
            final(self).spec_state() == old(self).spec_state(),
            login_refusal(*old(self), *final(self), reason@, acts@),
    {
        let wire: Option<Vec<u8>> = self.disconnect(reason.to_owned());
        let mut acts: Vec<Action> = Vec::new();
        match wire {
            Some(w) => {
                acts.push(Action::Send(w));
            },
            None => {
                proof {
                    assert(false);
                }
            },
        }
        acts
    }

    /// Handle one frame in the configuration phase.
    pub fn handle_configuration_packet(&mut self, reader: PacketReader) -> (r: Result<
        Vec<Action>,
        PacketHandleError,
    >)
        requires
            old(self).wf(),
            reader.wf(),
            old(self).spec_state() == ConnectionState::Configuration,
        ensures
            final(self).wf(),
            state_rank(final(self).spec_state()) >= state_rank(old(self).spec_state()),
            configuration_transition(*old(self), *final(self), reader.spec_id(), reader.rem(), r),
    {
        let mut reader = reader;
        let id: i32 = reader.id();
        if id == 0 {
            match crate::packets::configuration::ConfigurationServerboundClientInformation::read(
                &mut reader,
            ) {
                Ok(_) => {
                    let packet = ConfigurationClientboundFinishConfiguration {};
                    let plain: Vec<u8> = packet.build();
                    let wire: Vec<u8> = self.encryption_setting.encrypt(&plain);
                    let mut acts: Vec<Action> = Vec::new();
                    acts.push(Action::Send(wire));
                    Ok(acts)
                },
                Err(e) => Err(PacketHandleError::ReadError(e)),
            }
        } else if id == 2 {
            match crate::packets::configuration::ConfigurationServerboundPluginMessage::read(
                &mut reader,
            ) {
                Ok(_) => Ok(Vec::new()),
                Err(e) => Err(PacketHandleError::ReadError(e)),
            }
        } else if id == 3 {
            self.state = ConnectionState::Play;
            Ok(Vec::new())
        } else {
            Err(PacketHandleError::BadId(id))
        }
    }

    /// Dispatch one frame by the current phase; in the play phase every
    /// frame is accepted and dropped.
    pub fn handle_packet(&mut self, reader: PacketReader) -> (r: Result<
        Vec<Action>,
        PacketHandleError,
    >)
        requires
            old(self).wf(),
            reader.wf(),
            !old(self).spec_awaiting_auth(),
        ensures
            final(self).wf(),
            state_rank(final(self).spec_state()) >= state_rank(old(self).spec_state()),
            same_config(*old(self), *final(self)),
            final(self).spec_accumulator() == old(self).spec_accumulator(),
            phase_transition(*old(self), *final(self), reader.spec_id(), reader.rem(), r),
            r is Err ==> *final(self) == *old(self),
    {
        proof {
            reveal(phase_transition);
        }
        match self.state {
            ConnectionState::Handshaking => self.handle_handshaking_packet(reader),
            ConnectionState::Status => self.handle_status_packet(reader),
            ConnectionState::Login => self.handle_login_packet(reader),
            ConnectionState::Configuration => self.handle_configuration_packet(reader),
            ConnectionState::Play => Ok(Vec::new()),
        }
    }

    /// Feed raw bytes from the peer into the engine: decrypt them if
    /// encryption is active, append the plaintext to the backlog, then
    /// extract and dispatch every complete frame in arrival order
    /// ([`engine_run`]).  While a session-server lookup is outstanding
    /// nothing is dispatched; the bytes wait.
    #[verifier::rlimit(100)]
    pub fn receive_bytes(&mut self, raw: &Vec<u8>) -> (acts: Vec<Action>)
        requires
            old(self).wf(),
        ensures
            final(self).wf(),
            state_rank(final(self).spec_state()) >= state_rank(old(self).spec_state()),
            same_config(*old(self), *final(self)),
            old(self).spec_awaiting_auth() ==> acts@.len() == 0 && exists|plain: Seq<u8>|
                #[trigger] intake(*old(self), raw@, plain, *final(self)),
            !old(self).spec_awaiting_auth() ==> exists|plain: Seq<u8>, entry: Connection|
                #[trigger] intake(*old(self), raw@, plain, entry) && engine_run(
                    entry,
                    *final(self),
                    acts@,
                ),
    {
        let plain: Vec<u8> = self.encryption_setting.decrypt(raw);
        self.accumulator.extend_from_slice(plain.as_slice());
        let ghost entry = *self;
        proof {
            assert(self.spec_accumulator() =~= old(self).spec_accumulator() + plain@);
            assert(intake(*old(self), raw@, plain@, entry));
        }
        let mut acts: Vec<Action> = Vec::new();
        if self.awaiting_auth {
            return acts;
        }
        proof {
            assert forall|post: Connection, more: Seq<Action>|
                #[trigger] engine_run(entry, post, more) implies engine_run(
                entry,
                post,
                acts@ + more,
            ) by {
                assert(acts@ + more =~= more);
            }
        }
        loop
            invariant_except_break
                !self.spec_awaiting_auth(),
                forall|post: Connection, more: Seq<Action>|
                    #[trigger] engine_run(*self, post, more) ==> engine_run(
                        entry,
                        post,
                        acts@ + more,
                    ),
            invariant
                self.wf(),
                state_rank(self.spec_state()) >= state_rank(old(self).spec_state()),
                same_config(*old(self), *self),
            ensures
                self.wf(),
                state_rank(self.spec_state()) >= state_rank(old(self).spec_state()),
                same_config(*old(self), *self),
                engine_run(entry, *self, acts@),
            decreases self.spec_accumulator().len(),
        {
            let ghost cur = *self;
            let ghost acts_prev = acts@;
            match crate::frames::extract_frame(&mut self.accumulator) {
                Some(frame) => {
                    proof {
                        crate::packet_utils::lemma_parse_varint_done_len(cur.spec_accumulator(), 5);
                    }
                    let ghost drained = *self;
                    let ghost delta = Seq::<Action>::empty();
                    proof {
                        assert(eq_but_backlog(cur, drained));
                    }
                    match PacketReader::new(frame.as_slice()) {
                        Ok(reader) => {
                            match self.handle_packet(reader) {
                                Ok(mut new_acts) => {
                                    let ghost emitted = new_acts;
                                    proof {
                                        delta = emitted@;
                                        assert(phase_transition(
                                            drained,
                                            *self,
                                            reader.spec_id(),
                                            reader.rem(),
                                            Ok(emitted),
                                        ));
                                        assert(frame_step(drained, frame@, *self, delta));
                                    }
                                    acts.append(&mut new_acts);
                                },
                                Err(e) => {
                                    let ghost err = e;
                                    proof {
                                        assert(phase_transition(
                                            drained,
                                            *self,
                                            reader.spec_id(),
                                            reader.rem(),
                                            Err::<Vec<Action>, _>(err),
                                        ));
                                        assert(*self == drained);
                                        assert(frame_step(drained, frame@, *self, delta));
                                    }
                                },
                            }
                        },
                        Err(_) => {
                            proof {
                                assert(*self == drained);
                                assert(frame_step(drained, frame@, *self, delta));
                            }
                        },
                    }
                    proof {
                        lemma_engine_run_step(cur, drained, *self, delta);
                        assert(acts@ =~= acts_prev + delta);
                        if self.spec_awaiting_auth() {
                            assert(engine_run(cur, *self, delta));
                            assert(engine_run(entry, *self, acts_prev + delta));
                        } else {
                            assert forall|post: Connection, more: Seq<Action>|
                                #[trigger] engine_run(*self, post, more) implies engine_run(
                                entry,
                                post,
                                acts@ + more,
                            ) by {
                                assert(engine_run(cur, post, delta + more));
                                assert(engine_run(entry, post, acts_prev + (delta + more)));
                                assert(acts_prev + (delta + more) =~= (acts_prev + delta) + more);
                            }
                        }
                    }
                    if self.awaiting_auth {
                        break ;
                    }
                },
                None => {
                    proof {
                        lemma_engine_run_nil(*self);
                        assert(engine_run(entry, *self, acts@ + Seq::<Action>::empty()));
                        assert(acts@ + Seq::<Action>::empty() =~= acts@);
                    }
                    break ;
                },
            }
        }
        acts
    }

    /// Hand back the session server's verdict after an
    /// [`Action::Authenticate`].  On a confirmed identity the server-given
    /// identifier replaces the client-declared one and a login success
    /// goes out; on any failure, or an identity that cannot be parsed or
    /// framed, the login is refused.  Bytes that arrived while parked stay
    /// in the backlog and are dispatched by the next
    /// [`Connection::receive_bytes`].
    pub fn auth_result(&mut self, result: Option<SessionServerHasJoinedResponse>) -> (acts: Vec<
        Action,
    >)
        requires
            old(self).wf(),
        ensures
            final(self).wf(),
            final(self).spec_state() == old(self).spec_state(),
            same_config(*old(self), *final(self)),
            !old(self).spec_awaiting_auth() ==> acts@.len() == 0 && *final(self) == *old(self),
            old(self).spec_awaiting_auth() ==> {
                &&& !final(self).spec_awaiting_auth()
                &&& final(self).spec_name() == old(self).spec_name()
                &&& final(self).spec_accumulator() == old(self).spec_accumulator()
                &&& match result {
                    Some(resp) => {
                        if is_uuid_text(resp.id@) && login_reply_fits(
                            old(self).spec_name()->0,
                            confirmed_properties(resp.properties@),
                        ) {
                            &&& final(self).spec_uuid() == hex_value(uuid_digits(resp.id@))
                            &&& acts@.len() == 1
                            &&& acts@[0] matches Action::Send(w) && sends_frame(
                                *old(self),
                                *final(self),
                                frame_bytes(
                                    2,
                                    login_success_payload(
                                        hex_value(uuid_digits(resp.id@)) as u128,
                                        old(self).spec_name()->0,
                                        confirmed_properties(resp.properties@),
                                        false,
                                    ),
                                ),
                                w@,
                            )
                        } else {
                            &&& final(self).spec_uuid() == old(self).spec_uuid()
                            &&& acts@.len() == 1
                            &&& acts@[0] matches Action::Send(w) && sends_frame(
                                *old(self),
                                *final(self),
                                frame_bytes(
                                    0,
                                    string_field(
                                        spec_disconnect_json("Failed to authenticate"@),
                                    ),
                                ),
                                w@,
                            )
                        }
                    },
                    None => {
                        &&& final(self).spec_uuid() == old(self).spec_uuid()
                        &&& acts@.len() == 1
                        &&& acts@[0] matches Action::Send(w) && sends_frame(
                            *old(self),
                            *final(self),
                            frame_bytes(
                                0,
                                string_field(spec_disconnect_json("Failed to authenticate"@)),
                            ),
                            w@,
                        )
                    },
                }
            },
    {
        if !self.awaiting_auth {
            return Vec::new();
        }
        self.awaiting_auth = false;
        proof {
            reveal_strlit("Failed to authenticate");
        }
        let response: SessionServerHasJoinedResponse = match result {
            Some(r) => r,
            None => {
                return self.refuse_login("Failed to authenticate");
            },
        };
        let confirmed: u128 = match parse_uuid(response.id.as_str()) {
            Some(v) => v,
            None => {
                return self.refuse_login("Failed to authenticate");
            },
        };
        let mut properties: Vec<LoginSuccessProperty> = Vec::new();
        let n: usize = response.properties.len();
        let mut i: usize = 0;
        let mut source: Vec<crate::mojauth::SessionServerProperty> = response.properties;
        proof {
            assert(properties@ =~= confirmed_properties(source@.take(0)));
        }
        while i < n
            invariant
                n == source@.len(),
                i <= n,
                properties@ == confirmed_properties(source@.take(i as int)),
            decreases n - i,
        {
            let p: &crate::mojauth::SessionServerProperty = &source[i];
            properties.push(
                LoginSuccessProperty {
                    name: p.name.clone(),
                    value: p.value.clone(),
                    signature: Some(p.signature.clone()),
                },
            );
            proof {
                assert(source@.take(i + 1) =~= source@.take(i as int).push(source@[i as int]));
                lemma_confirmed_push(source@.take(i as int), source@[i as int]);
                assert(properties@ =~= confirmed_properties(source@.take(i + 1)));
            }
            i = i + 1;
        }
        proof {
            assert(source@.take(n as int) =~= source@);
        }
        let username: String = match &self.name {
            Some(nm) => nm.clone(),
            None => {
                proof {
                    assert(false);
                }
                String::new()
            },
        };
        let packet = LoginClientboundLoginSuccess {
            uuid: confirmed,
            username,
            properties,
            strict_error_handling: false,
        };
        if !packet.fits() {
            return self.refuse_login("Failed to authenticate");
        }
        self.uuid = confirmed;
        let plain: Vec<u8> = packet.build();
        let wire: Vec<u8> = self.encryption_setting.encrypt(&plain);
        let mut acts: Vec<Action> = Vec::new();
        acts.push(Action::Send(wire));
        acts
    }
}

/// The profile properties of a confirmed identity, as they go into the
/// login success: each one signed.
pub open spec fn confirmed_properties(ps: Seq<crate::mojauth::SessionServerProperty>) -> Seq<
    LoginSuccessProperty,
> {
    ps.map_values(
        |p: crate::mojauth::SessionServerProperty| LoginSuccessProperty {
            name: p.name,
            value: p.value,
            signature: Some(p.signature),
        },
    )
}

proof fn lemma_confirmed_push(
    ps: Seq<crate::mojauth::SessionServerProperty>,
    p: crate::mojauth::SessionServerProperty,
)
    ensures
        confirmed_properties(ps.push(p)) == confirmed_properties(ps).push(
            LoginSuccessProperty { name: p.name, value: p.value, signature: Some(p.signature) },
        ),
{
    assert(confirmed_properties(ps.push(p)) =~= confirmed_properties(ps).push(
        LoginSuccessProperty { name: p.name, value: p.value, signature: Some(p.signature) },
    ));
}

} // verus!
