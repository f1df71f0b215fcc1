//! How two devices in a local network come to know and trust each other.
use super::framing;
use super::framing::{MAX_HANDSHAKE_PACKET_SIZE, MAX_NOISE_PACKET_SIZE};
use crate::bytes;
use crate::digest;
use crate::error::{AppError, AppResult};
use crate::identity;
use crate::identity::{TrustedDevice, KEY_LENGTH};
use crate::ids::Uuid;
use crate::state::trust;
use crate::state::{AppState, TrustMatch};
use crate::text;
use vstd::prelude::*;

verus! {

/// The first bytes on a stream that carries a connection of its own.
pub const PURE_LAN_STREAM_MAGIC: &'static str = "NWL1";

/// The text that goes into each pairing code.
pub const PAIRING_LABEL: &'static str = "nearweave-pairing-code-v1";

/// The greatest number of characters in a device's name.
pub const MAX_NAME_LENGTH: usize = 128;

/// The milliseconds for which the less preferred of two connections waits for the other.
pub const CONTENTION_MILLIS: u64 = 350;

/// A Noise handshake under way.
#[verifier::external_type_specification]
#[verifier::external_body]
pub struct ExHandshakeState(snow::HandshakeState);

/// What the devices tell each other once the stream is encrypted.
#[derive(Debug)]
pub enum LanHandshakeMessage {
    Hello { device_id: Uuid, device_name: String, tcp_port: u16 },
    Trust { status: WireTrustStatus },
    Decision { accepted: bool },
}

/// What a device knows of the other.
#[derive(Clone, Copy, Debug, PartialEq, Eq, Structural)]
pub enum WireTrustStatus {
    Trusted,
    Unknown,
    IdentityChanged,
}

/// What is next in a handshake.
#[derive(Clone, Copy, Debug, PartialEq, Eq, Structural)]
pub enum HandshakeTurn {
    Write,
    Read,
    Finished,
}

/// A Noise handshake of three messages, of which the initiator writes the first and the third.
pub struct NoiseHandshake {
    state: snow::HandshakeState,
    initiator: bool,
    messages: u8,
}

/// What a finished handshake has given.
pub struct NoiseResult {
    pub handshake_hash: Vec<u8>,
    pub remote_public_key: Vec<u8>,
    pub session: snow::TransportState,
}

/// The other device, by its own words.
#[derive(Debug)]
pub struct PeerHello {
    pub device_id: Uuid,
    pub name: String,
    pub tcp_port: u16,
}

/// How the user has answered a pairing request.
#[derive(Clone, Copy, Debug, PartialEq, Eq, Structural)]
pub enum PairingAnswer {
    Answered(bool),
    /// The request was withdrawn.
    Withdrawn,
    TimedOut,
}

/// The rest of a handshake once each device has said what it knows of the other.
#[derive(Clone, Copy, Debug, PartialEq, Eq, Structural)]
pub enum TrustStep {
    /// Each trusts the other.
    Proceed,
    /// Both users are to compare a code.
    Pair,
}

/// The number of messages in the pattern of a handshake.
pub uninterp spec fn pattern_length(state: snow::HandshakeState) -> nat;

/// The number of messages of a handshake that have been written and read.
pub uninterp spec fn messages_done(state: snow::HandshakeState) -> nat;

/// This side of a handshake writes first.
pub uninterp spec fn initiates(state: snow::HandshakeState) -> bool;

/// The private key of this side of a handshake.
pub uninterp spec fn local_key(state: snow::HandshakeState) -> Seq<u8>;

/// This is taken as the next message of a handshake, with room for a payload of so many bytes.
pub uninterp spec fn accepts(state: snow::HandshakeState, message: Seq<u8>, room: usize) -> bool;

/// The digest of what has been exchanged in a handshake.
pub uninterp spec fn hash_in(state: snow::HandshakeState) -> Seq<u8>;

/// The public key that the other side of a handshake has shown.
pub uninterp spec fn remote_key_in(state: snow::HandshakeState) -> Option<Seq<u8>>;

/// The keys under which this side of a handshake will send and receive.
pub uninterp spec fn traffic_keys(state: snow::HandshakeState) -> (Seq<u8>, Seq<u8>);

/// `Builder::build_initiator` on a builder that has been given the private key: the handshake has
/// this key, the side that writes first and the pattern of the parameters, and no message has been
/// exchanged. The calls succeed where the parameters ask for no other key and their primitives are
/// there; an error comes as its text, on the left where `Builder::local_private_key` has given it.
/// A key of the length of the curve's private keys makes neither call panic.
#[verifier::external_body]
fn build_initiator(params: snow::params::NoiseParams, private_key: &[u8]) -> (r: Result<
    snow::HandshakeState,
    Result<String, String>,
>)
    requires
        private_key@.len() == KEY_LENGTH,
    ensures
        identity::needs_own_key_only(params) ==> r is Ok,
        r matches Ok(state) ==> initiates(state) && local_key(state) == private_key@
            && pattern_length(state) == identity::pattern_messages(params) && messages_done(state)
            == 0,
{
    let builder = snow::Builder::new(params).local_private_key(private_key);
    let builder = builder.map_err(|e| Ok(format!("{e}")))?;
    builder.build_initiator().map_err(|e| Err(format!("{e}")))
}

/// `Builder::build_responder` on a builder that has been given the private key, as above, for the
/// side that reads first.
#[verifier::external_body]
fn build_responder(params: snow::params::NoiseParams, private_key: &[u8]) -> (r: Result<
    snow::HandshakeState,
    Result<String, String>,
>)
    requires
        private_key@.len() == KEY_LENGTH,
    ensures
        identity::needs_own_key_only(params) ==> r is Ok,
        r matches Ok(state) ==> !initiates(state) && local_key(state) == private_key@
            && pattern_length(state) == identity::pattern_messages(params) && messages_done(state)
            == 0,
{
    let builder = snow::Builder::new(params).local_private_key(private_key);
    let builder = builder.map_err(|e| Ok(format!("{e}")))?;
    builder.build_responder().map_err(|e| Err(format!("{e}")))
}

/// `HandshakeState::write_message` without a payload: where it succeeds, one more message of the
/// pattern has been exchanged. The side, its private key and the pattern stay. The message rests on
/// chance, so only its length is bounded, by the room that is given; an error comes as its text.
/// Too little room can make the call panic.
#[verifier::external_body]
fn handshake_write(state: &mut snow::HandshakeState, room: usize) -> (r: Result<Vec<u8>, String>)
    requires
        MAX_HANDSHAKE_PACKET_SIZE <= room <= MAX_NOISE_PACKET_SIZE,
    ensures
        initiates(*final(state)) == initiates(*old(state)),
        local_key(*final(state)) == local_key(*old(state)),
        pattern_length(*final(state)) == pattern_length(*old(state)),
        (match r {
            Ok(message) => {
                &&& messages_done(*final(state)) == messages_done(*old(state)) + 1
                &&& messages_done(*final(state)) <= pattern_length(*old(state))
                &&& message@.len() <= room
            },
            Err(_) => messages_done(*final(state)) == messages_done(*old(state)),
        }),
{
    let mut message = vec![0_u8; room];
    let length = state.write_message(&[], &mut message).map_err(|e| format!("{e}"))?;
    message.truncate(length);
    Ok(message)
}

/// `HandshakeState::read_message`, whose payload is dropped: whether it succeeds is a function of
/// the handshake, the message and the room for the payload, and where it does, one more message of
/// the pattern has been exchanged. The side, its private key and the pattern stay. An error comes
/// as its text.
#[verifier::external_body]
fn handshake_read(state: &mut snow::HandshakeState, message: &[u8], room: usize) -> (r: Result<
    (),
    String,
>)
    requires
        room <= MAX_NOISE_PACKET_SIZE,
    ensures
        initiates(*final(state)) == initiates(*old(state)),
        local_key(*final(state)) == local_key(*old(state)),
        pattern_length(*final(state)) == pattern_length(*old(state)),
        r is Ok <==> accepts(*old(state), message@, room),
        r is Ok ==> messages_done(*final(state)) == messages_done(*old(state)) + 1
            && messages_done(*final(state)) <= pattern_length(*old(state)),
        r is Err ==> messages_done(*final(state)) == messages_done(*old(state)),
{
    let mut payload = vec![0_u8; room];
    state.read_message(message, &mut payload).map(|_| ()).map_err(|e| format!("{e}"))
}

/// `HandshakeState::get_handshake_hash`: what the handshake holds under that name. It rests on the
/// messages that were exchanged, which rest on chance, so no more is said of it.
#[verifier::external_body]
fn handshake_hash(state: &snow::HandshakeState) -> (r: Vec<u8>)
    ensures
        r@ == hash_in(*state),
{
    state.get_handshake_hash().to_vec()
}

/// `HandshakeState::get_remote_static`: what the handshake holds of the other side. It is what that
/// side has sent, so no more is said of it.
#[verifier::external_body]
fn remote_static(state: &snow::HandshakeState) -> (r: Option<Vec<u8>>)
    ensures
        (match r {
            Some(key) => remote_key_in(*state) == Some(key@),
            None => remote_key_in(*state) is None,
        }),
{
    state.get_remote_static().map(|key| key.to_vec())
}

/// `HandshakeState::into_transport_mode`: succeeds exactly where the messages of the pattern have
/// been exchanged. The session then sends and receives under the keys of the handshake, and has
/// done neither yet. It does both where the pattern has more than one message: the patterns for
/// one direction have one. An error comes as its text.
#[verifier::external_body]
fn into_transport(state: snow::HandshakeState) -> (r: Result<snow::TransportState, String>)
    ensures
        r is Ok <==> messages_done(state) == pattern_length(state),
        r matches Ok(session) ==> framing::sending(session) == (traffic_keys(state).0, 0u64)
            && framing::receiving(session) == (traffic_keys(state).1, 0u64) && (pattern_length(
            state,
        ) > 1 ==> framing::two_way(session)),
{
    state.into_transport_mode().map_err(|e| format!("{e}"))
}

/// The handshake that the calls have built, or the error that they ended in.
pub fn handshake_built(
    built: Result<snow::HandshakeState, Result<String, String>>,
    initiator: bool,
) -> (r: AppResult<NoiseHandshake>)
    ensures
        match built {
            Ok(state) => r matches Ok(handshake) && handshake.state() == state
                && handshake.is_initiator() == initiator && handshake.message_count() == 0,
            Err(Ok(cause)) => r matches Err(e) && e.is_security("设备身份私钥无效："@ + cause@),
            Err(Err(cause)) => r matches Err(e) && e.is_security(
                "无法初始化 Noise 握手："@ + cause@,
            ),
        },
{
    match built {
        Ok(state) => Ok(NoiseHandshake { state, initiator, messages: 0 }),
        Err(Ok(cause)) => Err(AppError::Security(text::joined("设备身份私钥无效：", &cause))),
        Err(Err(cause)) => Err(
            AppError::Security(text::joined("无法初始化 Noise 握手：", &cause)),
        ),
    }
}

impl NoiseHandshake {
    /// The handshake in the terms of the Noise framework.
    pub closed spec fn state(&self) -> snow::HandshakeState {
        self.state
    }

    /// This side writes first.
    pub closed spec fn is_initiator(&self) -> bool {
        self.initiator
    }

    /// The number of messages that have been written and read.
    pub closed spec fn message_count(&self) -> nat {
        self.messages as nat
    }

    /// The pattern has three messages, of which those that have been exchanged are counted, and the
    /// side is that of the handshake.
    pub open spec fn wf(&self) -> bool {
        &&& pattern_length(self.state()) == 3
        &&& messages_done(self.state()) == self.message_count()
        &&& self.message_count() <= 3
        &&& self.is_initiator() == initiates(self.state())
    }

    /// What is next.
    pub open spec fn turn(&self) -> HandshakeTurn {
        if self.message_count() >= 3 {
            HandshakeTurn::Finished
        } else if (self.message_count() % 2 == 0) == self.is_initiator() {
            HandshakeTurn::Write
        } else {
            HandshakeTurn::Read
        }
    }

    /// Begins a handshake with the private key of this device.
    pub fn start(private_key: &[u8], initiator: bool) -> (r: AppResult<NoiseHandshake>)
        requires
            private_key@.len() == KEY_LENGTH,
        ensures
            r matches Ok(handshake) && {
                &&& handshake.wf()
                &&& handshake.is_initiator() == initiator
                &&& handshake.message_count() == 0
                &&& local_key(handshake.state()) == private_key@
            },
    {
        match identity::noise_params() {
            Err(cause) => Err(AppError::Security(text::joined("Noise 参数无效：", &cause))),
            Ok(params) => {
                let built = if initiator {
                    build_initiator(params, private_key)
                } else {
                    build_responder(params, private_key)
                };
                handshake_built(built, initiator)
            },
        }
    }

    /// What is next.
    pub fn next(&self) -> (r: HandshakeTurn)
        ensures
            r == self.turn(),
    {
        if self.messages >= 3 {
            HandshakeTurn::Finished
        } else if (self.messages % 2 == 0) == self.initiator {
            HandshakeTurn::Write
        } else {
            HandshakeTurn::Read
        }
    }

    /// What an attempt to write the next message leads to.
    pub fn written(&mut self, outcome: Result<Vec<u8>, String>) -> (r: AppResult<Vec<u8>>)
        requires
            old(self).turn() is Write,
        ensures
            final(self).state() == old(self).state(),
            final(self).is_initiator() == old(self).is_initiator(),
            match outcome {
                Ok(message) => {
                    &&& r == Ok::<Vec<u8>, AppError>(message)
                    &&& final(self).message_count() == old(self).message_count() + 1
                },
                Err(cause) => {
                    &&& final(self).message_count() == old(self).message_count()
                    &&& r matches Err(e)
                    &&& e.is_security(
                        "Noise 握手消息 "@ + text::decimal_of(old(self).message_count() + 1)
                            + " 失败："@ + cause@,
                    )
                },
            },
    {
        match outcome {
            Ok(message) => {
                self.messages = self.messages + 1;
                Ok(message)
            },
            Err(cause) => {
                let number = text::decimal(self.messages as u128 + 1);
                let mut detail = text::joined3("Noise 握手消息 ", &number, " 失败：");
                detail.append(&cause);
                Err(AppError::Security(detail))
            },
        }
    }

    /// Writes the next message.
    pub fn write(&mut self) -> (r: AppResult<Vec<u8>>)
        requires
            old(self).wf(),
            old(self).turn() is Write,
        ensures
            final(self).wf(),
            final(self).is_initiator() == old(self).is_initiator(),
            local_key(final(self).state()) == local_key(old(self).state()),
            match r {
                Ok(message) => message@.len() <= MAX_HANDSHAKE_PACKET_SIZE
                    && final(self).message_count() == old(self).message_count() + 1,
                Err(e) => e is Security && final(self).message_count() == old(
                    self,
                ).message_count(),
            },
    {
        let outcome = handshake_write(&mut self.state, MAX_HANDSHAKE_PACKET_SIZE);
        self.written(outcome)
    }

    /// What an attempt to read the next message leads to.
    pub fn message_read(&mut self, outcome: Result<(), String>) -> (r: AppResult<()>)
        requires
            old(self).turn() is Read,
        ensures
            final(self).state() == old(self).state(),
            final(self).is_initiator() == old(self).is_initiator(),
            match outcome {
                Ok(()) => r is Ok && final(self).message_count() == old(self).message_count() + 1,
                Err(cause) => {
                    &&& final(self).message_count() == old(self).message_count()
                    &&& r matches Err(e)
                    &&& e.is_security(
                        "Noise 握手消息 "@ + text::decimal_of(old(self).message_count() + 1)
                            + " 无效："@ + cause@,
                    )
                },
            },
    {
        match outcome {
            Ok(()) => {
                self.messages = self.messages + 1;
                Ok(())
            },
            Err(cause) => {
                let number = text::decimal(self.messages as u128 + 1);
                let mut detail = text::joined3("Noise 握手消息 ", &number, " 无效：");
                detail.append(&cause);
                Err(AppError::Security(detail))
            },
        }
    }

    /// Reads the next message.
    pub fn read(&mut self, message: &[u8]) -> (r: AppResult<()>)
        requires
            old(self).wf(),
            old(self).turn() is Read,
        ensures
            final(self).wf(),
            final(self).is_initiator() == old(self).is_initiator(),
            local_key(final(self).state()) == local_key(old(self).state()),
            r is Ok <==> accepts(old(self).state(), message@, MAX_HANDSHAKE_PACKET_SIZE),
            match r {
                Ok(()) => final(self).message_count() == old(self).message_count() + 1,
                Err(e) => e is Security && final(self).message_count() == old(
                    self,
                ).message_count(),
            },
    {
        let outcome = handshake_read(&mut self.state, message, MAX_HANDSHAKE_PACKET_SIZE);
        self.message_read(outcome)
    }

    /// Ends the handshake and begins the session.
    pub fn finish(self) -> (r: AppResult<NoiseResult>)
        requires
            self.wf(),
            self.turn() is Finished,
        ensures
            match remote_key_in(self.state()) {
                Some(key) => {
                    &&& r matches Ok(result)
                    &&& result.handshake_hash@ == hash_in(self.state())
                    &&& result.remote_public_key@ == key
                    &&& framing::sending(result.session) == (traffic_keys(self.state()).0, 0u64)
                    &&& framing::receiving(result.session) == (traffic_keys(self.state()).1, 0u64)
                    &&& framing::two_way(result.session)
                },
                None => r matches Err(e) && e.is_security("Noise 握手未提供远端静态公钥"@),
            },
    {
        let hash = handshake_hash(&self.state);
        let key = remote_static(&self.state);
        match require_remote_key(key) {
            Err(e) => Err(e),
            Ok(remote_public_key) => session_begun(
                hash,
                remote_public_key,
                into_transport(self.state),
            ),
        }
    }
}

/// Refuses a handshake in which the other side has shown no key.
pub fn require_remote_key(key: Option<Vec<u8>>) -> (r: AppResult<Vec<u8>>)
    ensures
        match key {
            Some(k) => r == Ok::<Vec<u8>, AppError>(k),
            None => r matches Err(e) && e.is_security("Noise 握手未提供远端静态公钥"@),
        },
{
    match key {
        Some(k) => Ok(k),
        None => Err(AppError::security("Noise 握手未提供远端静态公钥")),
    }
}

/// What the beginning of the session leads to.
pub fn session_begun(
    handshake_hash: Vec<u8>,
    remote_public_key: Vec<u8>,
    session: Result<snow::TransportState, String>,
) -> (r: AppResult<NoiseResult>)
    ensures
        match session {
            Ok(s) => r matches Ok(result) && result == (NoiseResult {
                handshake_hash,
                remote_public_key,
                session: s,
            }),
            Err(cause) => r matches Err(e) && e.is_security(
                "Noise 握手无法进入传输模式："@ + cause@,
            ),
        },
{
    match session {
        Ok(session) => Ok(NoiseResult { handshake_hash, remote_public_key, session }),
        Err(cause) => Err(
            AppError::Security(text::joined("Noise 握手无法进入传输模式：", &cause)),
        ),
    }
}

/// In each message of a handshake one side writes and the other reads.
pub proof fn law_turns_alternate(initiator: NoiseHandshake, responder: NoiseHandshake)
    requires
        initiator.is_initiator(),
        !responder.is_initiator(),
        initiator.message_count() == responder.message_count(),
    ensures
        initiator.turn() is Write <==> responder.turn() is Read,
        initiator.turn() is Read <==> responder.turn() is Write,
        initiator.turn() is Finished <==> responder.turn() is Finished,
{
}

/// The name can be shown: it is not blank, and not too long.
pub open spec fn is_showable_name(name: Seq<char>) -> bool {
    text::trimmed(name).len() > 0 && name.len() <= MAX_NAME_LENGTH
}

/// Whether a name can be shown.
pub fn showable_name(name: &str) -> (r: bool)
    ensures
        r == is_showable_name(name@),
{
    let chars = text::chars_of(name);
    let trimmed = text::trim(name);
    trimmed.unicode_len() > 0 && chars.len() <= MAX_NAME_LENGTH
}

/// Of two connections that two devices open to each other at once, the one to be kept: that of
/// the device with the lower identifier.
pub open spec fn is_preferred(initiator: bool, local: Uuid, peer: Uuid) -> bool {
    if initiator {
        local.value < peer.value
    } else {
        peer.value < local.value
    }
}

/// Both ends of a connection agree on whether it is the one to be kept, and of the two
/// connections that two devices open to each other exactly one is.
pub proof fn law_one_connection_is_kept(a: Uuid, b: Uuid)
    requires
        a != b,
    ensures
        is_preferred(true, a, b) == is_preferred(false, b, a),
        is_preferred(true, a, b) != is_preferred(true, b, a),
{
    assert(a.value != b.value);
}

/// Whether this end of a connection waits for another connection between the two devices.
pub fn yields(initiator: bool, local: Uuid, peer: Uuid) -> (r: bool)
    ensures
        r == !is_preferred(initiator, local, peer),
{
    if initiator {
        !(local.value < peer.value)
    } else {
        !(peer.value < local.value)
    }
}

/// The number behind a pairing code.
pub open spec fn code_value(handshake_hash: Seq<u8>, first: Uuid, second: Uuid) -> nat {
    let lower = if first.value <= second.value {
        first
    } else {
        second
    };
    let upper = if first.value <= second.value {
        second
    } else {
        first
    };
    let input = handshake_hash + bytes::be_of(lower.value as nat, 16) + bytes::be_of(
        upper.value as nat,
        16,
    ) + text::low_bytes(PAIRING_LABEL@);
    bytes::be_value(digest::sha256(input).take(4)) % 1_000_000
}

/// The six digits that both users compare.
pub fn verification_code(handshake_hash: &[u8], first: Uuid, second: Uuid) -> (r: String)
    ensures
        r@ == text::padded_of(code_value(handshake_hash@, first, second), 6),
        r@.len() == 6,
{
    let (lower, upper) = if first.value <= second.value {
        (first, second)
    } else {
        (second, first)
    };
    let mut hasher = digest::new_hasher();
    digest::update_hasher(&mut hasher, handshake_hash);
    let lower_bytes = lower.as_bytes();
    digest::update_hasher(&mut hasher, lower_bytes.as_slice());
    let upper_bytes = upper.as_bytes();
    digest::update_hasher(&mut hasher, upper_bytes.as_slice());
    let label = text::to_low_bytes(PAIRING_LABEL);
    digest::update_hasher(&mut hasher, label.as_slice());
    proof {
        assert(digest::absorbed(hasher) =~= handshake_hash@ + bytes::be_of(
            lower.value as nat,
            16,
        ) + bytes::be_of(upper.value as nat, 16) + text::low_bytes(PAIRING_LABEL@));
    }
    let digest = digest::finish_hasher(hasher);
    let value: u64 = bytes::read_be(digest.as_slice(), 0, 4) % 1_000_000;
    proof {
        assert(digest@.subrange(0, 4) =~= digest@.take(4));
        text::lemma_padded_length(value as nat, 6);
    }
    text::padded(value, 6)
}

/// Both devices come to the same code, whichever of them computes it.
pub proof fn law_pairing_code_is_shared(handshake_hash: Seq<u8>, first: Uuid, second: Uuid)
    ensures
        code_value(handshake_hash, first, second) == code_value(handshake_hash, second, first),
{
    if first.value == second.value {
        assert(first == second);
    }
}

/// What a device says on the wire of what it knows.
pub open spec fn wire_trust(known: TrustMatch) -> WireTrustStatus {
    match known {
        TrustMatch::Trusted => WireTrustStatus::Trusted,
        TrustMatch::Unknown => WireTrustStatus::Unknown,
        TrustMatch::IdentityChanged => WireTrustStatus::IdentityChanged,
    }
}

/// What follows once each device has said what it knows of the other.
pub fn judge_trust(local: WireTrustStatus, remote: &LanHandshakeMessage) -> (r: AppResult<
    TrustStep,
>)
    ensures
        match remote {
            LanHandshakeMessage::Trust { status } => match trust_step(local, *status) {
                Some(step) => r == Ok::<TrustStep, AppError>(step),
                None => r matches Err(e) && e.is_security(
                    "设备身份已变化，请在设置中移除原信任后重新配对"@,
                ),
            },
            _ => r matches Err(e) && e.is_security("远端未返回身份信任状态"@),
        },
{
    match remote {
        LanHandshakeMessage::Trust { status } => {
            if local == WireTrustStatus::IdentityChanged || *status
                == WireTrustStatus::IdentityChanged {
                return Err(
                    AppError::security("设备身份已变化，请在设置中移除原信任后重新配对"),
                );
            }
            if local != WireTrustStatus::Trusted || *status != WireTrustStatus::Trusted {
                Ok(TrustStep::Pair)
            } else {
                Ok(TrustStep::Proceed)
            }
        },
        _ => Err(AppError::security("远端未返回身份信任状态")),
    }
}

/// Both devices go on in the same way: both at once, both with a code, or not at all.
pub proof fn law_trust_is_judged_alike(a: WireTrustStatus, b: WireTrustStatus)
    ensures
        trust_step(a, b) == trust_step(b, a),
        trust_step(a, b) == Some(TrustStep::Proceed) <==> a is Trusted && b is Trusted,
{
}

/// What follows from what the two devices know of each other, where anything does.
pub open spec fn trust_step(local: WireTrustStatus, remote: WireTrustStatus) -> Option<TrustStep> {
    if local is IdentityChanged || remote is IdentityChanged {
        None
    } else if local is Trusted && remote is Trusted {
        Some(TrustStep::Proceed)
    } else {
        Some(TrustStep::Pair)
    }
}

/// Refuses to go on unless both users have accepted the pairing.
pub fn judge_decision(accepted: bool, remote: &LanHandshakeMessage) -> (r: AppResult<()>)
    ensures
        r is Ok <==> accepted && (remote matches LanHandshakeMessage::Decision {
            accepted: remote_accepted,
        } && *remote_accepted),
        r matches Err(e) ==> e.is_security("设备配对已被拒绝"@),
{
    let remote_accepted = match remote {
        LanHandshakeMessage::Decision { accepted } => *accepted,
        _ => false,
    };
    if !accepted || !remote_accepted {
        return Err(AppError::security("设备配对已被拒绝"));
    }
    Ok(())
}

impl AppState {
    /// How this device presents itself once the stream is encrypted.
    pub fn local_hello(&self) -> (r: AppResult<LanHandshakeMessage>)
        ensures
            match self.network_runtime {
                Some(runtime) => {
                    &&& r matches Ok(LanHandshakeMessage::Hello { device_id, device_name, tcp_port })
                    &&& device_id == self.device_id
                    &&& device_name@ == self.device_name@
                    &&& tcp_port == runtime.tcp_port
                },
                None => r matches Err(e) && e.is_protocol("本机局域网接收服务不可用"@),
            },
    {
        match self.network_runtime() {
            Some(runtime) => Ok(
                LanHandshakeMessage::Hello {
                    device_id: self.device_id,
                    device_name: self.device_name.clone(),
                    tcp_port: runtime.tcp_port,
                },
            ),
            None => Err(AppError::protocol("本机局域网接收服务不可用")),
        }
    }

    /// A device has presented itself in a way that can be accepted.
    pub open spec fn is_proper_hello(message: LanHandshakeMessage) -> bool {
        message matches LanHandshakeMessage::Hello { device_id, device_name, tcp_port }
            && is_showable_name(device_name@) && tcp_port != 0
    }

    /// Takes the way in which the other device presents itself, unless there is something wrong
    /// with it, it is this device itself, or it is not the device that was expected.
    pub fn accept_hello(&self, message: LanHandshakeMessage, expected: Option<Uuid>) -> (r:
        AppResult<PeerHello>)
        ensures
            if !Self::is_proper_hello(message) {
                r matches Err(e) && e.is_security("远端设备身份信息无效"@)
            } else if message->device_id == self.device_id {
                r matches Err(e) && e.is_security("拒绝连接到本机设备身份"@)
            } else if expected is Some && expected->0 != message->device_id {
                r matches Err(e) && e.is_security("局域网发现的设备身份与握手身份不一致"@)
            } else {
                r == Ok::<PeerHello, AppError>(
                    PeerHello {
                        device_id: message->device_id,
                        name: message->device_name,
                        tcp_port: message->tcp_port,
                    },
                )
            },
    {
        match message {
            LanHandshakeMessage::Hello { device_id, device_name, tcp_port } => {
                if !showable_name(&device_name) || tcp_port == 0 {
                    return Err(AppError::security("远端设备身份信息无效"));
                }
                if device_id == self.device_id {
                    return Err(AppError::security("拒绝连接到本机设备身份"));
                }
                match expected {
                    Some(id) => {
                        if id != device_id {
                            return Err(
                                AppError::security("局域网发现的设备身份与握手身份不一致"),
                            );
                        }
                    },
                    None => {},
                }
                Ok(PeerHello { device_id, name: device_name, tcp_port })
            },
            _ => Err(AppError::security("远端设备身份信息无效")),
        }
    }

    /// After its wait, the less preferred of two connections goes on only if the other has not
    /// been made.
    pub fn check_contention(&self, peer: Uuid) -> (r: AppResult<()>)
        requires
            self.wf(),
        ensures
            r is Ok <==> !self.is_connected(peer),
            r matches Err(e) ==> e.is_security("已保留双方同时发起的另一条连接"@),
    {
        if self.connection_generation_for_peer(peer).is_some() {
            return Err(AppError::security("已保留双方同时发起的另一条连接"));
        }
        Ok(())
    }

    /// What this device says of what it knows of the other.
    pub fn local_trust(&self, peer: Uuid, public_key: &[u8]) -> (r: WireTrustStatus)
        ensures
            r == wire_trust(trust::trust_of(self.trusted(), peer, public_key@)),
    {
        match self.trust_match(peer, public_key) {
            TrustMatch::Trusted => WireTrustStatus::Trusted,
            TrustMatch::Unknown => WireTrustStatus::Unknown,
            TrustMatch::IdentityChanged => WireTrustStatus::IdentityChanged,
        }
    }

    /// Asks the user to compare the code with the other device's.
    pub fn ask_for_pairing(&mut self, peer: &PeerHello, handshake_hash: &[u8]) -> (r: AppResult<
        Uuid,
    >)
        requires
            old(self).wf(),
        ensures
            final(self).wf(),
            r is Ok <==> old(self).pending_pairings@.dom().len() < crate::state::MAX_PEERS
                && !old(self).is_pairing(peer.device_id),
            match r {
                Ok(request_id) => {
                    &&& request_id.is_random()
                    &&& *final(self) == (AppState {
                        pending_pairings: final(self).pending_pairings,
                        ..*old(self)
                    })
                    &&& final(self).pending_pairings@.remove(request_id)
                        == old(self).pending_pairings@.remove(request_id)
                    &&& final(self).pending_pairings@.dom() == old(
                        self,
                    ).pending_pairings@.dom().insert(request_id)
                    &&& {
                        let request = final(self).pending_pairings@[request_id];
                        &&& request.request_id == request_id
                        &&& request.device_id == peer.device_id
                        &&& request.device_name@ == peer.name@
                        &&& request.verification_code@ == text::padded_of(
                            code_value(handshake_hash@, old(self).device_id, peer.device_id),
                            6,
                        )
                    }
                },
                Err(e) => {
                    &&& *final(self) == *old(self)
                    &&& if old(self).pending_pairings@.dom().len() >= crate::state::MAX_PEERS {
                        e.is_security("待确认的设备配对请求过多，请先处理当前请求"@)
                    } else {
                        e.is_security("该设备已有待确认的配对请求"@)
                    }
                },
            },
    {
        let code = verification_code(handshake_hash, self.device_id, peer.device_id);
        let request_id = Uuid::new_v4();
        match self.begin_pairing_as(request_id, peer.device_id, peer.name.clone(), code) {
            Ok(()) => {
                proof {
                    assert(self.pending_pairings@.remove(request_id) =~= old(
                        self,
                    ).pending_pairings@.remove(request_id));
                }
                Ok(request_id)
            },
            Err(e) => Err(e),
        }
    }

    /// Takes the user's answer to a pairing request. A request that got none stays open.
    pub fn pairing_answered(&mut self, request_id: Uuid, answer: PairingAnswer) -> (r: AppResult<
        bool,
    >)
        requires
            old(self).wf(),
        ensures
            final(self).wf(),
            if answer is TimedOut {
                &&& r matches Err(e)
                &&& e.is_security("设备配对确认超时"@)
                &&& *final(self) == *old(self)
            } else {
                &&& r == Ok::<bool, AppError>(answer == PairingAnswer::Answered(true))
                &&& *final(self) == (AppState {
                    pending_pairings: final(self).pending_pairings,
                    ..*old(self)
                })
                &&& final(self).pending_pairings@ == old(self).pending_pairings@.remove(request_id)
            },
    {
        let accepted = match answer {
            PairingAnswer::TimedOut => {
                return Err(AppError::security("设备配对确认超时"));
            },
            PairingAnswer::Answered(accepted) => accepted,
            PairingAnswer::Withdrawn => false,
        };
        self.clear_pairing(request_id);
        Ok(accepted)
    }

    /// The list of trusted devices that is to be kept at the end of a handshake, where it
    /// changes: the other device has just been paired, or it has been seen again.
    pub fn trust_after_handshake(
        &self,
        step: TrustStep,
        peer: &PeerHello,
        public_key: Vec<u8>,
        now: u64,
    ) -> (r: Option<Vec<TrustedDevice>>)
        ensures
            match step {
                TrustStep::Pair => r is Some && trust::trusted_models(r->0@)
                    == trust::trusted_with(
                    self.trusted(),
                    peer.device_id,
                    peer.name@,
                    public_key@,
                    now,
                ),
                TrustStep::Proceed => match r {
                    Some(updated) => trust::is_trusted(self.trusted(), peer.device_id)
                        && trust::trusted_models(updated@) == trust::trusted_touched(
                        self.trusted(),
                        peer.device_id,
                        peer.name@,
                        now,
                    ),
                    None => !trust::is_trusted(self.trusted(), peer.device_id),
                },
            },
    {
        match step {
            TrustStep::Pair => Some(
                self.remember_trusted_device(peer.device_id, peer.name.clone(), public_key, now),
            ),
            TrustStep::Proceed => self.touch_trusted_device(peer.device_id, &peer.name, now),
        }
    }
}

/// Both devices show the same code, of six digits, whichever of them has opened the stream.
pub proof fn law_both_devices_show_one_code(
    hash: &[u8],
    first: Uuid,
    second: Uuid,
    here: String,
    there: String,
)
    requires
        call_ensures(verification_code, (hash, first, second), here),
        call_ensures(verification_code, (hash, second, first), there),
    ensures
        here@ == there@,
        here@.len() == 6,
        forall|i: int| 0 <= i < 6 ==> '0' <= #[trigger] here@[i] <= '9',
{
    law_pairing_code_is_shared(hash@, first, second);
    text::lemma_padded_number(code_value(hash@, first, second), 6);
}

/// The code that is shown is a number below a million, drawn from the digest of the stream, of both
/// identifiers, the smaller one first, and of what it is for.
pub proof fn law_code_is_drawn_from_the_stream(
    hash: &[u8],
    lower: Uuid,
    upper: Uuid,
    lower_bytes: Vec<u8>,
    upper_bytes: Vec<u8>,
    r: String,
)
    requires
        lower.value < upper.value,
        call_ensures(Uuid::as_bytes, (&lower,), lower_bytes),
        call_ensures(Uuid::as_bytes, (&upper,), upper_bytes),
        call_ensures(verification_code, (hash, upper, lower), r),
    ensures
        text::digits_value(r@) == bytes::be_value(
            digest::sha256(
                hash@ + lower_bytes@ + upper_bytes@ + text::low_bytes("nearweave-pairing-code-v1"@),
            ).take(4),
        ) % 1_000_000,
{
    text::lemma_padded_number(code_value(hash@, upper, lower), 6);
}

/// Of two streams that two devices have opened to each other at once, the same one gives way on both
/// sides, and the other does not.
pub proof fn law_one_stream_gives_way(
    a: Uuid,
    b: Uuid,
    a_opened: bool,
    b_answers: bool,
    b_opened: bool,
    a_answers: bool,
)
    requires
        a != b,
        call_ensures(yields, (true, a, b), a_opened),
        call_ensures(yields, (false, b, a), b_answers),
        call_ensures(yields, (true, b, a), b_opened),
        call_ensures(yields, (false, a, b), a_answers),
    ensures
        a_opened == b_answers,
        b_opened == a_answers,
        a_opened != b_opened,
        a.value < b.value ==> !a_opened,
{
}

/// A name can be shown if it is not blank and has at most 128 characters.
pub proof fn law_showable_names(name: &str, r: bool)
    requires
        call_ensures(showable_name, (name,), r),
    ensures
        name@.len() > 128 ==> !r,
        name@.len() <= 128 && (exists|i: int|
            0 <= i < name@.len() && !text::is_white(#[trigger] name@[i])) ==> r,
        r ==> exists|i: int| 0 <= i < name@.len() && !text::is_white(#[trigger] name@[i]),
{
    text::lemma_trimmed_is_blank(name@);
}

/// Devices that trust each other talk; where one has another key than it is known by, they do not;
/// and otherwise the users are asked.
pub proof fn law_trust_decides(
    local: WireTrustStatus,
    status: WireTrustStatus,
    r: AppResult<TrustStep>,
)
    requires
        call_ensures(judge_trust, (local, &LanHandshakeMessage::Trust { status }), r),
    ensures
        r == Ok::<TrustStep, AppError>(TrustStep::Proceed) <==> local is Trusted
            && status is Trusted,
        r is Err <==> local is IdentityChanged || status is IdentityChanged,
{
}

/// What a device says of its trust is what it knows: trusted under the key that it has kept, changed
/// under another, and unknown without one.
pub proof fn law_trust_is_told_truly(
    app: AppState,
    peer: Uuid,
    key: &[u8],
    known: TrustMatch,
    told: WireTrustStatus,
)
    requires
        call_ensures(AppState::trust_match, (&app, peer, key), known),
        call_ensures(AppState::local_trust, (&app, peer, key), told),
    ensures
        told is Trusted <==> known is Trusted,
        told is Unknown <==> known is Unknown,
        told is IdentityChanged <==> known is IdentityChanged,
{
}

/// Devices are paired if both users have accepted, and only then.
pub proof fn law_both_users_decide(accepted: bool, remote: LanHandshakeMessage, r: AppResult<()>)
    requires
        call_ensures(judge_decision, (accepted, &remote), r),
    ensures
        r is Ok ==> accepted && remote == (LanHandshakeMessage::Decision { accepted: true }),
        accepted && remote == (LanHandshakeMessage::Decision { accepted: true }) ==> r is Ok,
{
}

/// The way in which one device presents itself is taken by another that expects it, or nobody in
/// particular, and shows there who it is.
pub proof fn law_presented_device_is_taken(
    here: AppState,
    there: AppState,
    message: LanHandshakeMessage,
    expected: Option<Uuid>,
    shown: bool,
    name: &str,
    r: AppResult<PeerHello>,
)
    requires
        call_ensures(
            AppState::local_hello,
            (&here,),
            Ok::<LanHandshakeMessage, AppError>(message),
        ),
        name@ == here.device_name@,
        call_ensures(showable_name, (name,), shown),
        call_ensures(AppState::accept_hello, (&there, message, expected), r),
    ensures
        r is Ok <==> shown && here.network_runtime->0.tcp_port != 0 && here.device_id
            != there.device_id && (expected is None || expected->0 == here.device_id),
        r matches Ok(peer) ==> peer.device_id == here.device_id && peer.name@ == here.device_name@
            && here.network_runtime is Some && peer.tcp_port == here.network_runtime->0.tcp_port,
{
}

/// A device without the services of the local network does not present itself there.
pub proof fn law_presentation_needs_services(here: AppState, r: AppResult<LanHandshakeMessage>)
    requires
        call_ensures(AppState::local_hello, (&here,), r),
    ensures
        r is Ok <==> here.network_runtime is Some,
{
}

/// A stream that has given way is kept if no other connection to the device has come.
pub proof fn law_lone_stream_is_kept(app: AppState, peer: Uuid, r: AppResult<()>)
    requires
        call_ensures(AppState::check_contention, (&app, peer), r),
    ensures
        r is Ok <==> forall|g: Uuid| #[trigger]
            app.connections@.dom().contains(g) ==> app.connections@[g].peer_device_id != Some(peer),
{
    if app.is_connected(peer) {
        let g = choose|g: Uuid| app.connects(g, peer);
        assert(app.connections@.dom().contains(g));
    } else {
        assert forall|g: Uuid| #[trigger]
            app.connections@.dom().contains(g) implies app.connections@[g].peer_device_id != Some(
            peer,
        ) by {
            assert(!app.connects(g, peer));
        }
    }
}

/// The user is asked with the code that the other device shows too.
pub proof fn law_user_sees_the_code(
    app: &mut AppState,
    peer: PeerHello,
    hash: &[u8],
    request: Uuid,
    there: String,
)
    requires
        call_ensures(
            AppState::ask_for_pairing,
            (app, &peer, hash),
            Ok::<Uuid, AppError>(request),
        ),
        call_ensures(verification_code, (hash, peer.device_id, old(app).device_id), there),
    ensures
        final(app).pending_pairings@.dom().contains(request),
        final(app).pending_pairings@[request].verification_code@ == there@,
        final(app).pending_pairings@[request].device_id == peer.device_id,
        final(app).pending_pairings@[request].device_name@ == peer.name@,
{
    law_pairing_code_is_shared(hash@, peer.device_id, old(app).device_id);
}

/// The answer of the user is passed on, and ends the question; only a clear yes is one.
pub proof fn law_only_yes_is_yes(
    app: &mut AppState,
    request: Uuid,
    answer: PairingAnswer,
    r: AppResult<bool>,
)
    requires
        call_ensures(AppState::pairing_answered, (app, request, answer), r),
    ensures
        r == Ok::<bool, AppError>(true) <==> answer == PairingAnswer::Answered(true),
        r is Err <==> answer is TimedOut,
        r is Ok ==> !final(app).pending_pairings@.dom().contains(request),
{
}

/// After a handshake, a device that was paired is trusted under the key of the stream.
pub proof fn law_paired_device_is_kept(
    app: AppState,
    peer: PeerHello,
    public_key: Vec<u8>,
    now: u64,
    updated: Vec<TrustedDevice>,
    next: &mut AppState,
    key: &[u8],
    r: TrustMatch,
)
    requires
        call_ensures(
            AppState::trust_after_handshake,
            (&app, TrustStep::Pair, &peer, public_key, now),
            Some(updated),
        ),
        *next == app,
        call_ensures(AppState::pairing_kept, (next, peer.device_id, updated), ()),
        key@ == public_key@,
        call_ensures(AppState::trust_match, (final(next), peer.device_id, key), r),
    ensures
        r is Trusted,
{
    trust::law_paired_device_is_trusted(
        app.trusted(),
        peer.device_id,
        peer.name@,
        public_key@,
        now,
        key@,
    );
}

/// A device that was trusted before stays trusted under its key.
pub proof fn law_known_device_stays_known(
    app: AppState,
    peer: PeerHello,
    public_key: Vec<u8>,
    now: u64,
    r: Option<Vec<TrustedDevice>>,
)
    requires
        call_ensures(
            AppState::trust_after_handshake,
            (&app, TrustStep::Proceed, &peer, public_key, now),
            r,
        ),
    ensures
        r matches Some(updated) ==> updated@.len() == app.trusted_devices@.len() && forall|i: int|
            0 <= i < updated@.len() ==> (#[trigger] updated@[i]).device_id
                == app.trusted_devices@[i].device_id && updated@[i].public_key@
                == app.trusted_devices@[i].public_key@,
{
    if let Some(updated) = r {
        let s = app.trusted();
        let after = trust::trusted_models(updated@);
        assert(after.len() == updated@.len());
        assert(after == trust::trusted_touched(s, peer.device_id, peer.name@, now));
        crate::lists::lemma_first_from(
            s,
            |t: trust::TrustedModel| t.device_id == peer.device_id,
            0,
        );
        assert forall|i: int| 0 <= i < updated@.len() implies (#[trigger] updated@[i]).device_id
            == app.trusted_devices@[i].device_id && updated@[i].public_key@
            == app.trusted_devices@[i].public_key@ by {
            assert(after[i] == updated@[i]@);
            assert(s[i] == app.trusted_devices@[i]@);
        }
    }
}

/// A handshake takes three messages, the first from the device that has opened the stream.
pub proof fn law_handshake_takes_three_messages(
    private_key: &[u8],
    initiator: bool,
    handshake: NoiseHandshake,
    r: HandshakeTurn,
)
    requires
        call_ensures(
            NoiseHandshake::start,
            (private_key, initiator),
            Ok::<NoiseHandshake, AppError>(handshake),
        ),
        call_ensures(NoiseHandshake::next, (&handshake,), r),
    ensures
        initiator ==> r is Write,
        !initiator ==> r is Read,
        local_key(handshake.state()) == private_key@,
{
}

/// Each message brings the turn to the other side, until all three are exchanged.
pub proof fn law_turn_passes_on(
    handshake: &mut NoiseHandshake,
    message: Vec<u8>,
    before: HandshakeTurn,
    after: HandshakeTurn,
)
    requires
        call_ensures(NoiseHandshake::next, (old(handshake),), before),
        before is Write,
        call_ensures(NoiseHandshake::write, (handshake,), Ok::<Vec<u8>, AppError>(message)),
        call_ensures(NoiseHandshake::next, (final(handshake),), after),
    ensures
        after is Read || after is Finished,
        after is Finished <==> final(handshake).message_count() == 3,
        message@.len() <= 4096,
{
}

/// A message of the other side is taken where it is valid, and then the turn passes on.
pub proof fn law_valid_message_is_taken(
    handshake: &mut NoiseHandshake,
    message: &[u8],
    r: AppResult<()>,
    after: HandshakeTurn,
)
    requires
        old(handshake).wf(),
        old(handshake).turn() is Read,
        call_ensures(NoiseHandshake::read, (handshake, message), r),
        call_ensures(NoiseHandshake::next, (final(handshake),), after),
    ensures
        r is Ok <==> accepts(old(handshake).state(), message@, 4096),
        r is Ok ==> after is Write || after is Finished,
        r is Err ==> after is Read,
{
}

/// A handshake that has come to its end gives the key of the other device, and a session that goes
/// both ways from its beginning.
pub proof fn law_finished_handshake_gives_a_session(
    handshake: NoiseHandshake,
    r: AppResult<NoiseResult>,
)
    requires
        call_ensures(NoiseHandshake::finish, (handshake,), r),
    ensures
        r is Ok <==> remote_key_in(handshake.state()) is Some,
        r matches Ok(result) ==> Some(result.remote_public_key@) == remote_key_in(handshake.state())
            && result.handshake_hash@ == hash_in(handshake.state()) && framing::two_way(
            result.session,
        ) && framing::sending(result.session).1 == 0 && framing::receiving(result.session).1 == 0,
{
}

} // verus!
