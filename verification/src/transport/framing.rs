//! Packets on network streams: their lengths, their encryption, and frames in several packets.
use crate::bytes;
use crate::error::{AppError, AppResult};
use crate::ids::Uuid;
use crate::protocol;
use crate::protocol::{Frame, FRAME_PREFIX_SIZE, MAX_HEADER_SIZE, MAX_PAYLOAD_SIZE};
use crate::state::network::LINK_KEY_LENGTH;
use crate::text;
use chacha20poly1305::aead::{Aead, Payload};
use chacha20poly1305::KeyInit;
use vstd::prelude::*;

verus! {

/// What is authenticated along with each packet of an accelerating link.
pub const LAN_AEAD_AAD: &'static str = "nearweave-lan-aead-v1";

/// The bytes before each encrypted packet that make its encryption unique.
pub const NONCE_LENGTH: usize = 12;

/// The bytes by which encryption makes a packet longer.
pub const TAG_LENGTH: usize = 16;

pub const NETWORK_PACKET_OVERHEAD: usize = 28;

pub const MAX_ENCODED_FRAME_SIZE: usize = FRAME_PREFIX_SIZE + MAX_HEADER_SIZE + MAX_PAYLOAD_SIZE;

pub const MAX_NETWORK_PACKET_SIZE: usize = MAX_ENCODED_FRAME_SIZE + NETWORK_PACKET_OVERHEAD;

pub const MAX_HANDSHAKE_PACKET_SIZE: usize = 4096;

pub const MAX_NOISE_PACKET_SIZE: usize = 65535;

pub const NOISE_FRAME_CHUNK_SIZE: usize = 61440;

/// A Noise session after its handshake.
#[verifier::external_type_specification]
#[verifier::external_body]
pub struct ExTransportState(snow::TransportState);

/// A packet on the wire: its length, then its bytes.
pub open spec fn packet_of(content: Seq<u8>) -> Seq<u8> {
    bytes::be_of(content.len(), 4) + content
}

/// The bytes of a packet on the wire.
pub fn plain_packet(content: &[u8]) -> (r: AppResult<Vec<u8>>)
    ensures
        match r {
            Ok(data) => content@.len() <= u32::MAX && data@ == packet_of(content@),
            Err(e) => content@.len() > u32::MAX && e.is_protocol("网络数据包长度溢出"@),
        },
{
    if content.len() as u64 > u32::MAX as u64 {
        return Err(AppError::protocol("网络数据包长度溢出"));
    }
    let mut out: Vec<u8> = Vec::new();
    bytes::push_be(&mut out, content.len() as u128, 4);
    bytes::append_copy(&mut out, content);
    Ok(out)
}

/// The number of bytes in the packet that these four bytes announce.
pub fn packet_length(prefix: &[u8], maximum: usize) -> (r: AppResult<usize>)
    requires
        prefix@.len() == 4,
    ensures
        match r {
            Ok(length) => length == bytes::be_value(prefix@) && 0 < length <= maximum,
            Err(e) => {
                let length = bytes::be_value(prefix@);
                &&& length == 0 || length > maximum
                &&& e.is_protocol("网络数据包长度 "@ + text::decimal_of(length) + " 超出限制"@)
            },
        },
{
    proof {
        bytes::lemma_be_value_bound(prefix@);
        reveal_with_fuel(bytes::range_of, 5);
        assert(prefix@.subrange(0, 4) =~= prefix@);
    }
    let length: u64 = bytes::read_be(prefix, 0, 4);
    if length == 0 || length > maximum as u64 {
        return Err(
            AppError::Protocol(
                text::joined3("网络数据包长度 ", &text::decimal(length as u128), " 超出限制"),
            ),
        );
    }
    Ok(length as usize)
}

/// The number of bytes in the encrypted packet that these four bytes announce.
pub fn encrypted_packet_length(prefix: &[u8]) -> (r: AppResult<usize>)
    requires
        prefix@.len() == 4,
    ensures
        match r {
            Ok(length) => length == bytes::be_value(prefix@) && NETWORK_PACKET_OVERHEAD <= length
                <= MAX_NETWORK_PACKET_SIZE,
            Err(e) => {
                let length = bytes::be_value(prefix@);
                &&& length < NETWORK_PACKET_OVERHEAD || length > MAX_NETWORK_PACKET_SIZE
                &&& e.is_protocol("局域网加密帧长度 "@ + text::decimal_of(length) + " 超出限制"@)
            },
        },
{
    proof {
        bytes::lemma_be_value_bound(prefix@);
        reveal_with_fuel(bytes::range_of, 5);
        assert(prefix@.subrange(0, 4) =~= prefix@);
    }
    let length: u64 = bytes::read_be(prefix, 0, 4);
    if length < NETWORK_PACKET_OVERHEAD as u64 || length > MAX_NETWORK_PACKET_SIZE as u64 {
        return Err(
            AppError::Protocol(
                text::joined3("局域网加密帧长度 ", &text::decimal(length as u128), " 超出限制"),
            ),
        );
    }
    Ok(length as usize)
}

/// A packet that is announced is as long as its announcement says.
pub proof fn law_packet_length_is_read_back(content: Seq<u8>)
    requires
        content.len() <= u32::MAX,
    ensures
        packet_of(content).len() == 4 + content.len(),
        bytes::be_value(packet_of(content).take(4)) == content.len(),
        packet_of(content).skip(4) == content,
{
    bytes::lemma_be_length(content.len(), 4);
    reveal_with_fuel(bytes::range_of, 5);
    bytes::lemma_be_round_trip(content.len(), 4);
    assert(packet_of(content).take(4) =~= bytes::be_of(content.len(), 4));
    assert(packet_of(content).skip(4) =~= content);
}

/// The ciphertext and tag that `ChaCha20Poly1305` makes of a message.
pub uninterp spec fn sealed(key: Seq<u8>, nonce: Seq<u8>, aad: Seq<u8>, message: Seq<u8>) -> Seq<u8>;

/// The greatest number of bytes in a message that the cipher can encrypt: a block for each value of
/// its counter but the first.
pub const MAX_MESSAGE_SIZE: u64 = 274_877_906_816;

/// The cipher can encrypt a message of this length.
pub open spec fn can_seal(length: nat) -> bool {
    length <= MAX_MESSAGE_SIZE
}

/// This message gives this ciphertext.
pub open spec fn opens_to(
    key: Seq<u8>,
    nonce: Seq<u8>,
    aad: Seq<u8>,
    ciphertext: Seq<u8>,
    message: Seq<u8>,
) -> bool {
    can_seal(message.len()) && ciphertext == sealed(key, nonce, aad, message)
}

/// `Aead::encrypt` of `ChaCha20Poly1305`: a function of key, nonce, associated data and message
/// alone, sixteen bytes longer than the message. It succeeds on each message for which the block
/// counter is large enough; on some that are longer it panics.
#[verifier::external_body]
fn seal(key: &[u8], nonce: &[u8], aad: &[u8], message: &[u8]) -> (r: Option<Vec<u8>>)
    requires
        key@.len() == LINK_KEY_LENGTH,
        nonce@.len() == NONCE_LENGTH,
        can_seal(message@.len()),
    ensures
        r is Some,
        r is Some ==> r.unwrap()@ == sealed(key@, nonce@, aad@, message@) && r.unwrap()@.len()
            == message@.len() + TAG_LENGTH,
{
    let cipher = chacha20poly1305::ChaCha20Poly1305::new(chacha20poly1305::Key::from_slice(key));
    let nonce = chacha20poly1305::Nonce::from_slice(nonce);
    cipher.encrypt(nonce, Payload { msg: message, aad }).ok()
}

/// `Aead::decrypt` of `ChaCha20Poly1305`: the message that gives this ciphertext, of which there
/// is at most one, and nothing where there is none. On some ciphertexts for which the block counter
/// is not large enough it panics.
#[verifier::external_body]
fn open_sealed(key: &[u8], nonce: &[u8], aad: &[u8], ciphertext: &[u8]) -> (r: Option<Vec<u8>>)
    requires
        key@.len() == LINK_KEY_LENGTH,
        nonce@.len() == NONCE_LENGTH,
        ciphertext@.len() <= MAX_MESSAGE_SIZE + TAG_LENGTH,
    ensures
        (match r {
            Some(m) => opens_to(key@, nonce@, aad@, ciphertext@, m@),
            None => forall|m: Seq<u8>| !opens_to(key@, nonce@, aad@, ciphertext@, m),
        }),
        r is Some ==> (forall|m: Seq<u8>| #[trigger]
            opens_to(key@, nonce@, aad@, ciphertext@, m) ==> m == r.unwrap()@),
{
    let cipher = chacha20poly1305::ChaCha20Poly1305::new(chacha20poly1305::Key::from_slice(key));
    let nonce = chacha20poly1305::Nonce::from_slice(nonce);
    cipher.decrypt(nonce, Payload { msg: ciphertext, aad }).ok()
}

/// The encrypted packet that carries a frame.
pub open spec fn encrypted_of(key: Seq<u8>, nonce: Seq<u8>, encoded: Seq<u8>) -> Seq<u8> {
    nonce + sealed(key, nonce, text::low_bytes(LAN_AEAD_AAD@), encoded)
}

/// The nonce that an identifier gives: its first twelve bytes.
pub open spec fn nonce_of(id: Uuid) -> Seq<u8> {
    bytes::be_of(id.value as nat, 16).take(NONCE_LENGTH as int)
}

/// Encrypts a frame under the nonce that `nonce_source` gives, where `header` is the notation of
/// the frame's message.
pub fn encrypt_frame_with(key: &[u8], nonce_source: Uuid, frame: &Frame, header: &[u8]) -> (r:
    AppResult<Vec<u8>>)
    requires
        key@.len() == LINK_KEY_LENGTH,
    ensures
        match r {
            Ok(packet) => {
                &&& protocol::lengths_valid(header@.len() as int, frame.payload@.len() as int)
                &&& packet@ == encrypted_of(
                    key@,
                    nonce_of(nonce_source),
                    protocol::frame_of(header@, frame.payload@),
                )
                &&& packet@.len() == FRAME_PREFIX_SIZE + header@.len() + frame.payload@.len()
                    + NETWORK_PACKET_OVERHEAD
            },
            Err(e) => {
                &&& !protocol::lengths_valid(header@.len() as int, frame.payload@.len() as int)
                &&& e.is_protocol(
                    protocol::lengths_fault(header@.len(), frame.payload@.len()),
                )
            },
        },
{
    match frame.encode(header) {
        Err(e) => Err(e),
        Ok(encoded) => {
            proof {
                bytes::lemma_be_length(nonce_source.value as nat, 16);
                bytes::lemma_be_length(protocol::PROTOCOL_VERSION as nat, 2);
                bytes::lemma_be_length(header@.len(), 4);
                bytes::lemma_be_length(frame.payload@.len(), 8);
            }
            let source = nonce_source.as_bytes();
            let nonce = bytes::copy_range(source.as_slice(), 0, NONCE_LENGTH);
            proof {
                assert(nonce@ =~= nonce_of(nonce_source));
            }
            let aad = text::to_low_bytes(LAN_AEAD_AAD);
            match seal(key, nonce.as_slice(), aad.as_slice(), encoded.as_slice()) {
                Some(encrypted) => {
                    let mut packet = nonce;
                    bytes::append_copy(&mut packet, encrypted.as_slice());
                    Ok(packet)
                },
                None => Err(AppError::protocol("无法加密局域网帧")),
            }
        },
    }
}

/// Encrypts a frame under a fresh nonce, where `header` is the notation of the frame's message.
pub fn encrypt_frame(key: &[u8], frame: &Frame, header: &[u8]) -> (r: AppResult<Vec<u8>>)
    requires
        key@.len() == LINK_KEY_LENGTH,
    ensures
        match r {
            Ok(packet) => {
                &&& protocol::lengths_valid(header@.len() as int, frame.payload@.len() as int)
                &&& packet@.len() == FRAME_PREFIX_SIZE + header@.len() + frame.payload@.len()
                    + NETWORK_PACKET_OVERHEAD
                &&& exists|id: Uuid|
                    id.is_random() && nonce_of(id).len() == NONCE_LENGTH && packet@ == encrypted_of(
                        key@,
                        #[trigger] nonce_of(id),
                        protocol::frame_of(header@, frame.payload@),
                    )
            },
            Err(e) => {
                &&& !protocol::lengths_valid(header@.len() as int, frame.payload@.len() as int)
                &&& e.is_protocol(
                    protocol::lengths_fault(header@.len(), frame.payload@.len()),
                )
            },
        },
{
    let id = Uuid::new_v4();
    proof {
        bytes::lemma_be_length(id.value as nat, 16);
        assert(nonce_of(id).len() == NONCE_LENGTH);
    }
    encrypt_frame_with(key, id, frame, header)
}

/// What an encrypted packet that reads as `message` carries.
pub open spec fn packet_carries(key: Seq<u8>, packet: Seq<u8>, message: Seq<u8>) -> bool {
    opens_to(
        key,
        packet.take(NONCE_LENGTH as int),
        text::low_bytes(LAN_AEAD_AAD@),
        packet.skip(NONCE_LENGTH as int),
        message,
    )
}

/// Where the packet is a frame that was encrypted under the key, that frame comes back.
pub open spec fn reads_back(
    key: Seq<u8>,
    packet: Seq<u8>,
    r: AppResult<(Vec<u8>, Vec<u8>)>,
) -> bool {
    forall|nonce: Seq<u8>, header: Seq<u8>, payload: Seq<u8>|
        nonce.len() == NONCE_LENGTH && NETWORK_PACKET_OVERHEAD <= packet.len()
            <= MAX_NETWORK_PACKET_SIZE && protocol::lengths_valid(
            header.len() as int,
            payload.len() as int,
        ) && packet == #[trigger] encrypted_of(key, nonce, protocol::frame_of(header, payload)) ==> (
        r matches Ok((h, p)) && h@ == header && p@ == payload)
}

/// The notation of the message in an encrypted frame, and its payload. A packet that was not made
/// under the same key is refused, and what was encrypted comes back as it was.
pub fn decrypt_frame(key: &[u8], packet: &[u8]) -> (r: AppResult<(Vec<u8>, Vec<u8>)>)
    requires
        key@.len() == LINK_KEY_LENGTH,
    ensures
        match r {
            Ok((header, payload)) => packet@.len() >= NETWORK_PACKET_OVERHEAD && exists|
                message: Seq<u8>,
            | #[trigger]
                packet_carries(key@, packet@, message) && protocol::frame_reading(message) == Ok::<
                    _,
                    Seq<char>,
                >((header@, payload@)),
            Err(e) => {
                ||| packet@.len() < NETWORK_PACKET_OVERHEAD && e.is_protocol(
                    "局域网加密帧不完整"@,
                )
                ||| packet@.len() >= NETWORK_PACKET_OVERHEAD && e.is_protocol(
                    "局域网帧认证失败"@,
                ) && (packet@.len() > MAX_MESSAGE_SIZE + NETWORK_PACKET_OVERHEAD || (forall|
                    message: Seq<u8>,
                | !packet_carries(key@, packet@, message)))
                ||| packet@.len() >= NETWORK_PACKET_OVERHEAD && exists|message: Seq<u8>| #[trigger]
                    packet_carries(key@, packet@, message) && protocol::frame_reading(
                        message,
                    ) is Err && e.is_protocol(protocol::frame_reading(message)->Err_0)
            },
        },
        forall|nonce: Seq<u8>, header: Seq<u8>, payload: Seq<u8>|
            nonce.len() == NONCE_LENGTH && NETWORK_PACKET_OVERHEAD <= packet@.len()
                <= MAX_NETWORK_PACKET_SIZE && protocol::lengths_valid(header.len() as int, payload.len() as int) && packet@
                == #[trigger] encrypted_of(key@, nonce, protocol::frame_of(header, payload)) ==> (
            r matches Ok((h, p)) && h@ == header && p@ == payload),
        reads_back(key@, packet@, r),
{
    if packet.len() < NETWORK_PACKET_OVERHEAD {
        return Err(AppError::protocol("局域网加密帧不完整"));
    }
    if (packet.len() - NETWORK_PACKET_OVERHEAD) as u64 > MAX_MESSAGE_SIZE {
        return Err(AppError::protocol("局域网帧认证失败"));
    }
    let nonce = bytes::copy_range(packet, 0, NONCE_LENGTH);
    let ciphertext = bytes::copy_range(packet, NONCE_LENGTH, packet.len());
    proof {
        assert(nonce@ =~= packet@.take(NONCE_LENGTH as int));
        assert(ciphertext@ =~= packet@.skip(NONCE_LENGTH as int));
    }
    let aad = text::to_low_bytes(LAN_AEAD_AAD);
    let opened = open_sealed(key, nonce.as_slice(), aad.as_slice(), ciphertext.as_slice());
    proof {
        assert forall|n: Seq<u8>, header: Seq<u8>, payload: Seq<u8>|
            n.len() == NONCE_LENGTH && protocol::lengths_valid(
                header.len() as int,
                payload.len() as int,
            ) && packet@ == #[trigger] encrypted_of(
                key@,
                n,
                protocol::frame_of(header, payload),
            ) implies opened is Some && opened.unwrap()@ == protocol::frame_of(header, payload)
            && protocol::frame_reading(protocol::frame_of(header, payload)) == Ok::<_, Seq<char>>(
            (header, payload),
        ) by {
            let message = protocol::frame_of(header, payload);
            assert(packet@.take(NONCE_LENGTH as int) =~= n);
            assert(packet@.skip(NONCE_LENGTH as int) =~= sealed(key@, n, aad@, message));
            bytes::lemma_be_length(protocol::PROTOCOL_VERSION as nat, 2);
            bytes::lemma_be_length(header.len(), 4);
            bytes::lemma_be_length(payload.len(), 8);
            assert(opens_to(key@, nonce@, aad@, ciphertext@, message));
            protocol::law_frame_round_trip(header, payload);
        }
        assert forall|m: Seq<u8>| packet_carries(key@, packet@, m) implies opens_to(
            key@,
            nonce@,
            aad@,
            ciphertext@,
            m,
        ) by {}
    }
    match opened {
        None => Err(AppError::protocol("局域网帧认证失败")),
        Some(encoded) => {
            proof {
                assert(packet_carries(key@, packet@, encoded@));
            }
            Frame::decode(encoded.as_slice())
        },
    }
}

/// The parts in which a frame is sent through a Noise session: each begins with a mark that says
/// whether it is the last.
pub open spec fn chunks_of(encoded: Seq<u8>) -> Seq<Seq<u8>>
    decreases encoded.len(),
{
    if encoded.len() == 0 {
        Seq::empty()
    } else if encoded.len() <= NOISE_FRAME_CHUNK_SIZE {
        seq![seq![1u8] + encoded]
    } else {
        seq![seq![0u8] + encoded.take(NOISE_FRAME_CHUNK_SIZE as int)] + chunks_of(
            encoded.skip(NOISE_FRAME_CHUNK_SIZE as int),
        )
    }
}

/// The parts in which a frame is sent.
pub fn noise_chunks(encoded: &[u8]) -> (r: Vec<Vec<u8>>)
    ensures
        r@.map_values(|chunk: Vec<u8>| chunk@) == chunks_of(encoded@),
{
    let mut out: Vec<Vec<u8>> = Vec::new();
    let mut from: usize = 0;
    proof {
        assert(encoded@.skip(0) =~= encoded@);
        assert(out@.map_values(|chunk: Vec<u8>| chunk@) + chunks_of(encoded@) =~= chunks_of(
            encoded@,
        ));
    }
    while from < encoded.len()
        invariant
            from <= encoded@.len(),
            out@.map_values(|chunk: Vec<u8>| chunk@) + chunks_of(encoded@.skip(from as int))
                == chunks_of(encoded@),
        decreases encoded@.len() - from,
    {
        let ghost rest = encoded@.skip(from as int);
        let last = encoded.len() - from <= NOISE_FRAME_CHUNK_SIZE;
        let to: usize = if last {
            encoded.len()
        } else {
            from + NOISE_FRAME_CHUNK_SIZE
        };
        let mut chunk: Vec<u8> = Vec::new();
        chunk.push(
            if last {
                1
            } else {
                0
            },
        );
        let part = bytes::copy_range(encoded, from, to);
        bytes::append_copy(&mut chunk, part.as_slice());
        let ghost before = out@.map_values(|chunk: Vec<u8>| chunk@);
        out.push(chunk);
        proof {
            assert(encoded@.skip(to as int) =~= rest.skip(to - from));
            assert(part@ =~= rest.take(to - from));
            assert(out@.map_values(|chunk: Vec<u8>| chunk@) =~= before.push(chunk@));
            if last {
                assert(rest.take(to - from) =~= rest);
                assert(chunk@ =~= seq![1u8] + rest);
            } else {
                assert(chunk@ =~= seq![0u8] + rest.take(NOISE_FRAME_CHUNK_SIZE as int));
            }
            assert(before + chunks_of(rest) =~= before.push(chunk@) + chunks_of(
                rest.skip(to - from),
            ));
        }
        from = to;
    }
    proof {
        assert(out@.map_values(|chunk: Vec<u8>| chunk@) + Seq::<Seq<u8>>::empty()
            =~= out@.map_values(|chunk: Vec<u8>| chunk@));
    }
    out
}

/// What a part makes of the parts before it.
pub enum Assembly {
    /// More parts are to come.
    More(Seq<u8>),
    /// This is the whole frame.
    Complete(Seq<u8>),
    /// The part is refused.
    Refused(Seq<char>),
}

/// What a part makes of the parts before it.
pub open spec fn assembled(buffer: Seq<u8>, chunk: Seq<u8>) -> Assembly {
    if chunk.len() == 0 {
        Assembly::Refused("Noise 数据分片为空"@)
    } else if chunk[0] > 1 {
        Assembly::Refused("Noise 数据分片标记无效"@)
    } else if buffer.len() + chunk.len() - 1 > MAX_ENCODED_FRAME_SIZE {
        Assembly::Refused("Noise 协议帧超过大小限制"@)
    } else if chunk[0] == 1 {
        Assembly::Complete(buffer + chunk.skip(1))
    } else {
        Assembly::More(buffer + chunk.skip(1))
    }
}

/// What parts in turn make of the parts before them, up to the first that ends the frame.
pub open spec fn assembled_all(buffer: Seq<u8>, chunks: Seq<Seq<u8>>) -> Assembly
    decreases chunks.len(),
{
    if chunks.len() == 0 {
        Assembly::More(buffer)
    } else {
        match assembled(buffer, chunks[0]) {
            Assembly::More(longer) => assembled_all(longer, chunks.drop_first()),
            end => end,
        }
    }
}

/// A frame that is sent in parts is put together again as it was.
pub proof fn law_chunks_are_reassembled(encoded: Seq<u8>)
    requires
        0 < encoded.len() <= MAX_ENCODED_FRAME_SIZE,
    ensures
        assembled_all(Seq::empty(), chunks_of(encoded)) == Assembly::Complete(encoded),
{
    lemma_reassembled(Seq::empty(), encoded);
    assert(Seq::<u8>::empty() + encoded =~= encoded);
}

proof fn lemma_reassembled(buffer: Seq<u8>, rest: Seq<u8>)
    requires
        0 < rest.len(),
        buffer.len() + rest.len() <= MAX_ENCODED_FRAME_SIZE,
    ensures
        assembled_all(buffer, chunks_of(rest)) == Assembly::Complete(buffer + rest),
    decreases rest.len(),
{
    let chunks = chunks_of(rest);
    if rest.len() <= NOISE_FRAME_CHUNK_SIZE {
        assert(chunks[0].skip(1) =~= rest);
    } else {
        let part = rest.take(NOISE_FRAME_CHUNK_SIZE as int);
        let tail = rest.skip(NOISE_FRAME_CHUNK_SIZE as int);
        assert(chunks[0].skip(1) =~= part);
        assert(chunks.drop_first() =~= chunks_of(tail));
        lemma_reassembled(buffer + part, tail);
        assert(buffer + part + tail =~= buffer + rest);
    }
}

/// No part is too long for a packet of a Noise session.
pub proof fn law_chunks_fit_packets(encoded: Seq<u8>)
    ensures
        forall|i: int|
            0 <= i < chunks_of(encoded).len() ==> (#[trigger] chunks_of(encoded)[i]).len()
                + TAG_LENGTH <= MAX_NOISE_PACKET_SIZE,
    decreases encoded.len(),
{
    if encoded.len() > NOISE_FRAME_CHUNK_SIZE {
        let tail = encoded.skip(NOISE_FRAME_CHUNK_SIZE as int);
        law_chunks_fit_packets(tail);
        assert forall|i: int| 0 <= i < chunks_of(encoded).len() implies (#[trigger] chunks_of(
            encoded,
        )[i]).len() + TAG_LENGTH <= MAX_NOISE_PACKET_SIZE by {
            if i > 0 {
                assert(chunks_of(encoded)[i] == chunks_of(tail)[i - 1]);
            }
        }
    }
}

/// A frame that comes in parts.
#[derive(Debug)]
pub struct FrameAssembler {
    encoded: Vec<u8>,
}

impl FrameAssembler {
    /// The parts so far, put together.
    pub closed spec fn buffer(&self) -> Seq<u8> {
        self.encoded@
    }

    /// There is room for no more than a frame.
    pub open spec fn wf(&self) -> bool {
        self.buffer().len() <= MAX_ENCODED_FRAME_SIZE
    }

    /// Before the first part.
    pub fn new() -> (r: Self)
        ensures
            r.wf(),
            r.buffer() == Seq::<u8>::empty(),
    {
        FrameAssembler { encoded: Vec::new() }
    }

    /// Takes the next part. With the last one, gives the notation of the message and the payload.
    pub fn accept(&mut self, chunk: &[u8]) -> (r: AppResult<Option<(Vec<u8>, Vec<u8>)>>)
        requires
            old(self).wf(),
        ensures
            final(self).wf(),
            match assembled(old(self).buffer(), chunk@) {
                Assembly::Refused(fault) => {
                    &&& r matches Err(e)
                    &&& e.is_protocol(fault)
                    &&& final(self).buffer() == old(self).buffer()
                },
                Assembly::More(longer) => r matches Ok(None) && final(self).buffer()
                    == longer,
                Assembly::Complete(encoded) => {
                    &&& final(self).buffer() == Seq::<u8>::empty()
                    &&& match protocol::frame_reading(encoded) {
                        Ok((header, payload)) => r matches Ok(Some((h, p))) && h@ == header && p@
                            == payload,
                        Err(fault) => r matches Err(e) && e.is_protocol(fault),
                    }
                },
            },
    {
        if chunk.len() == 0 {
            return Err(AppError::protocol("Noise 数据分片为空"));
        }
        if chunk[0] > 1 {
            return Err(AppError::protocol("Noise 数据分片标记无效"));
        }
        if chunk.len() - 1 > MAX_ENCODED_FRAME_SIZE - self.encoded.len() {
            return Err(AppError::protocol("Noise 协议帧超过大小限制"));
        }
        let part = bytes::copy_range(chunk, 1, chunk.len());
        proof {
            assert(part@ =~= chunk@.skip(1));
        }
        bytes::append_copy(&mut self.encoded, part.as_slice());
        if chunk[0] == 1 {
            let result = Frame::decode(self.encoded.as_slice());
            self.encoded = Vec::new();
            match result {
                Ok(parts) => Ok(Some(parts)),
                Err(e) => Err(e),
            }
        } else {
            Ok(None)
        }
    }
}

/// What a Noise session makes of a payload, under a key and at a place in the count of messages.
pub uninterp spec fn noise_sealed(key: Seq<u8>, count: u64, payload: Seq<u8>) -> Seq<u8>;

/// The key for what a session sends, cipher included, and the number of messages sent.
pub uninterp spec fn sending(session: snow::TransportState) -> (Seq<u8>, u64);

/// The key for what a session receives, cipher included, and the number of messages received.
pub uninterp spec fn receiving(session: snow::TransportState) -> (Seq<u8>, u64);

/// A session sends and receives.
pub uninterp spec fn two_way(session: snow::TransportState) -> bool;

/// `TransportState::write_message`: on success the packet is a function of the sending key, the
/// count of messages sent and the payload, the count goes up by one, and the packet is sixteen
/// bytes longer than the payload. It succeeds on a session that sends and receives while the count
/// is not used up. A failure, which comes as its text, leaves the counts.
#[verifier::external_body]
fn noise_write(session: &mut snow::TransportState, payload: &[u8]) -> (r: Result<Vec<u8>, String>)
    requires
        payload@.len() + TAG_LENGTH <= MAX_NOISE_PACKET_SIZE,
    ensures
        two_way(*final(session)) == two_way(*old(session)),
        receiving(*final(session)) == receiving(*old(session)),
        sending(*final(session)).0 == sending(*old(session)).0,
        two_way(*old(session)) && sending(*old(session)).1 < u64::MAX ==> r is Ok,
        (match r {
            Ok(packet) => {
                &&& packet@ == noise_sealed(sending(*old(session)).0, sending(*old(session)).1, payload@)
                &&& packet@.len() == payload@.len() + TAG_LENGTH
                &&& sending(*final(session)).1 == sending(*old(session)).1 + 1
            },
            Err(_) => sending(*final(session)) == sending(*old(session)),
        }),
{
    let mut packet = vec![0_u8; payload.len() + TAG_LENGTH];
    let length = session.write_message(payload, &mut packet).map_err(|e| format!("{e}"))?;
    packet.truncate(length);
    Ok(packet)
}

/// `TransportState::read_message`: on success the packet is what the payload gives under the
/// receiving key and the count of messages received, no other payload gives it, and the count
/// goes up by one. It succeeds on what a payload gives, on a session that sends and receives while
/// the count is not used up. A failure, which comes as its text, leaves the counts.
#[verifier::external_body]
fn noise_read(session: &mut snow::TransportState, packet: &[u8]) -> (r: Result<Vec<u8>, String>)
    ensures
        two_way(*final(session)) == two_way(*old(session)),
        sending(*final(session)) == sending(*old(session)),
        receiving(*final(session)).0 == receiving(*old(session)).0,
        (match r {
            Ok(payload) => {
                &&& packet@ == noise_sealed(
                    receiving(*old(session)).0,
                    receiving(*old(session)).1,
                    payload@,
                )
                &&& packet@.len() == payload@.len() + TAG_LENGTH
                &&& receiving(*final(session)).1 == receiving(*old(session)).1 + 1
            },
            Err(_) => receiving(*final(session)) == receiving(*old(session)),
        }),
        forall|m: Seq<u8>|
            m.len() + TAG_LENGTH <= MAX_NOISE_PACKET_SIZE && packet@ == #[trigger] noise_sealed(
                receiving(*old(session)).0,
                receiving(*old(session)).1,
                m,
            ) ==> {
                &&& r is Ok ==> m == r->Ok_0@
                &&& two_way(*old(session)) && receiving(*old(session)).1 < u64::MAX ==> r is Ok
            },
{
    let mut payload = vec![0_u8; packet.len()];
    let length = session.read_message(packet, &mut payload).map_err(|e| format!("{e}"))?;
    payload.truncate(length);
    Ok(payload)
}

/// The packet that an encryption has given, or the error that it ended in.
pub fn noise_written(outcome: Result<Vec<u8>, String>) -> (r: AppResult<Vec<u8>>)
    ensures
        match outcome {
            Ok(packet) => r == Ok::<Vec<u8>, AppError>(packet),
            Err(cause) => r matches Err(e) && e.is_security("Noise 加密失败："@ + cause@),
        },
{
    match outcome {
        Ok(packet) => Ok(packet),
        Err(cause) => Err(AppError::Security(text::joined("Noise 加密失败：", &cause))),
    }
}

/// The payload that a decryption has given, or the error that it ended in.
pub fn noise_opened(outcome: Result<Vec<u8>, String>) -> (r: AppResult<Vec<u8>>)
    ensures
        match outcome {
            Ok(payload) => r == Ok::<Vec<u8>, AppError>(payload),
            Err(cause) => r matches Err(e) && e.is_security("Noise 数据认证失败："@ + cause@),
        },
{
    match outcome {
        Ok(payload) => Ok(payload),
        Err(cause) => Err(AppError::Security(text::joined("Noise 数据认证失败：", &cause))),
    }
}

/// Encrypts a payload for the peer of a Noise session.
pub fn seal_noise_payload(session: &mut snow::TransportState, payload: &[u8]) -> (r: AppResult<
    Vec<u8>,
>)
    ensures
        two_way(*final(session)) == two_way(*old(session)),
        receiving(*final(session)) == receiving(*old(session)),
        two_way(*old(session)) && sending(*old(session)).1 < u64::MAX && payload@.len()
            + TAG_LENGTH <= MAX_NOISE_PACKET_SIZE ==> r is Ok,
        match r {
            Ok(packet) => {
                &&& payload@.len() + TAG_LENGTH <= MAX_NOISE_PACKET_SIZE
                &&& packet@ == noise_sealed(
                    sending(*old(session)).0,
                    sending(*old(session)).1,
                    payload@,
                )
                &&& packet@.len() == payload@.len() + TAG_LENGTH
                &&& sending(*final(session)).0 == sending(*old(session)).0
                &&& sending(*final(session)).1 == sending(*old(session)).1 + 1
            },
            Err(e) => {
                &&& sending(*final(session)) == sending(*old(session))
                &&& if payload@.len() + TAG_LENGTH > MAX_NOISE_PACKET_SIZE {
                    e.is_protocol("Noise 明文分片超过大小限制"@)
                } else {
                    e is Security
                }
            },
        },
{
    if payload.len() > MAX_NOISE_PACKET_SIZE - TAG_LENGTH {
        return Err(AppError::protocol("Noise 明文分片超过大小限制"));
    }
    noise_written(noise_write(session, payload))
}

/// What decrypting a packet changes in a session, and what it gives.
pub open spec fn opens_payload(
    pre: snow::TransportState,
    post: snow::TransportState,
    packet: Seq<u8>,
    r: AppResult<Vec<u8>>,
) -> bool {
    let (key, count) = receiving(pre);
    &&& two_way(post) == two_way(pre)
    &&& sending(post) == sending(pre)
    &&& forall|m: Seq<u8>|
        two_way(pre) && count < u64::MAX && m.len() + TAG_LENGTH <= MAX_NOISE_PACKET_SIZE && packet
            == #[trigger] noise_sealed(key, count, m) ==> r is Ok && r->Ok_0@ == m
    &&& match r {
        Ok(payload) => {
            &&& packet == noise_sealed(key, count, payload@)
            &&& receiving(post).0 == key
            &&& receiving(post).1 == count + 1
            &&& forall|m: Seq<u8>|
                m.len() + TAG_LENGTH <= MAX_NOISE_PACKET_SIZE && packet == #[trigger] noise_sealed(
                    key,
                    count,
                    m,
                ) ==> m == payload@
        },
        Err(e) => e is Security && receiving(post) == receiving(pre),
    }
}

/// Decrypts a packet from the peer of a Noise session. What the peer has put in comes out, if the
/// peer has encrypted it under the same key and at the same place in the count.
pub fn open_noise_payload(session: &mut snow::TransportState, packet: &[u8]) -> (r: AppResult<
    Vec<u8>,
>)
    ensures
        opens_payload(*old(session), *final(session), packet@, r),
{
    noise_opened(noise_read(session, packet))
}

/// The packets that carry an encoded frame under a key, from a place in the count on: each part of
/// the frame is encrypted at its place.
pub open spec fn are_packets(
    key: Seq<u8>,
    count: u64,
    encoded: Seq<u8>,
    packets: Seq<Seq<u8>>,
) -> bool {
    let chunks = chunks_of(encoded);
    &&& packets.len() == chunks.len()
    &&& forall|i: int|
        #![trigger packets[i]]
        0 <= i < packets.len() ==> {
            let content = noise_sealed(key, (count + i) as u64, chunks[i]);
            &&& packets[i] == packet_of(content)
            &&& content.len() == chunks[i].len() + TAG_LENGTH
            &&& packets[i].len() == 4 + chunks[i].len() + TAG_LENGTH
        }
}

/// The packets in which a session sends a frame, where `header` is the notation of the frame's
/// message: each part of the frame is encrypted at its place in the count.
pub fn noise_packets(session: &mut snow::TransportState, frame: &Frame, header: &[u8]) -> (r:
    AppResult<Vec<Vec<u8>>>)
    ensures
        two_way(*final(session)) == two_way(*old(session)),
        receiving(*final(session)) == receiving(*old(session)),
        ({
            &&& two_way(*old(session))
            &&& protocol::lengths_valid(header@.len() as int, frame.payload@.len() as int)
            &&& sending(*old(session)).1 + chunks_of(
                protocol::frame_of(header@, frame.payload@),
            ).len() <= u64::MAX
        }) ==> r is Ok,
        match r {
            Ok(packets) => {
                let encoded = protocol::frame_of(header@, frame.payload@);
                let (key, count) = sending(*old(session));
                &&& protocol::lengths_valid(header@.len() as int, frame.payload@.len() as int)
                &&& are_packets(key, count, encoded, packets@.map_values(|p: Vec<u8>| p@))
                &&& sending(*final(session)).0 == key
                &&& sending(*final(session)).1 == count + chunks_of(encoded).len()
            },
            Err(e) => if protocol::lengths_valid(header@.len() as int, frame.payload@.len() as int) {
                e is Security
            } else {
                e.is_protocol(protocol::lengths_fault(header@.len(), frame.payload@.len()))
                    && sending(*final(session)) == sending(*old(session))
            },
        },
{
    let encoded = match frame.encode(header) {
        Ok(encoded) => encoded,
        Err(e) => {
            return Err(e);
        },
    };
    let chunks = noise_chunks(encoded.as_slice());
    let ghost parts = chunks_of(encoded@);
    proof {
        law_chunks_fit_packets(encoded@);
        assert(chunks@.map_values(|chunk: Vec<u8>| chunk@) == parts);
        assert(chunks@.len() == parts.len());
    }
    let ghost key = sending(*session).0;
    let ghost count = sending(*session).1;
    let mut packets: Vec<Vec<u8>> = Vec::new();
    let mut i: usize = 0;
    while i < chunks.len()
        invariant
            i <= chunks@.len(),
            chunks@.len() == parts.len(),
            chunks@.map_values(|chunk: Vec<u8>| chunk@) == parts,
            forall|k: int|
                0 <= k < parts.len() ==> (#[trigger] parts[k]).len() + TAG_LENGTH
                    <= MAX_NOISE_PACKET_SIZE,
            protocol::lengths_valid(header@.len() as int, frame.payload@.len() as int),
            parts == chunks_of(protocol::frame_of(header@, frame.payload@)),
            sending(*old(session)).1 == count,
            two_way(*session) == two_way(*old(session)),
            receiving(*session) == receiving(*old(session)),
            sending(*session).0 == key,
            sending(*session).1 == count + i,
            packets@.len() == i,
            forall|k: int|
                #![trigger packets@[k]]
                0 <= k < i ==> {
                    let content = noise_sealed(key, (count + k) as u64, parts[k]);
                    &&& packets@[k]@ == packet_of(content)
                    &&& content.len() == parts[k].len() + TAG_LENGTH
                    &&& packets@[k]@.len() == 4 + parts[k].len() + TAG_LENGTH
                },
        decreases chunks@.len() - i,
    {
        proof {
            assert(chunks@.map_values(|chunk: Vec<u8>| chunk@)[i as int] == chunks@[i as int]@);
            assert(parts[i as int].len() + TAG_LENGTH <= MAX_NOISE_PACKET_SIZE);
        }
        let sealed_chunk = match seal_noise_payload(session, chunks[i].as_slice()) {
            Ok(sealed_chunk) => sealed_chunk,
            Err(e) => {
                return Err(e);
            },
        };
        proof {
            bytes::lemma_be_length(sealed_chunk@.len(), 4);
        }
        match plain_packet(sealed_chunk.as_slice()) {
            Ok(packet) => packets.push(packet),
            Err(e) => {
                return Err(e);
            },
        }
        i = i + 1;
    }
    proof {
        let wire = packets@.map_values(|p: Vec<u8>| p@);
        assert forall|k: int| 0 <= k < packets@.len() implies #[trigger] wire[k] == packets@[k]@ by {}
    }
    Ok(packets)
}

/// A frame that is sent through a Noise session arrives at the session of the peer as it was, if
/// that has the key and the count of the sender and reads the packets as they were sent, in turn:
/// the length of each is announced and accepted, each is decrypted, and the parts make up the frame
/// again, from which the notation of the message and the payload are read.
pub proof fn law_noise_frame_arrives(
    header: Seq<u8>,
    payload: Seq<u8>,
    packets: Seq<Seq<u8>>,
    sessions: Seq<snow::TransportState>,
    opened: Seq<AppResult<Vec<u8>>>,
)
    requires
        protocol::lengths_valid(header.len() as int, payload.len() as int),
        sessions.len() == packets.len() + 1,
        opened.len() == packets.len(),
        two_way(sessions[0]),
        receiving(sessions[0]).1 + packets.len() <= u64::MAX,
        are_packets(
            receiving(sessions[0]).0,
            receiving(sessions[0]).1,
            protocol::frame_of(header, payload),
            packets,
        ),
        forall|i: int|
            #![trigger packets[i]]
            0 <= i < packets.len() ==> opens_payload(
                sessions[i],
                sessions[i + 1],
                packets[i].skip(4),
                opened[i],
            ),
    ensures
        packets.len() > 0,
        forall|i: int|
            #![trigger packets[i]]
            0 <= i < packets.len() ==> {
                &&& packets[i].len() >= 4
                &&& bytes::be_value(packets[i].take(4)) == packets[i].len() - 4
                &&& 0 < packets[i].len() - 4 <= MAX_NOISE_PACKET_SIZE
                &&& opened[i] is Ok
            },
        assembled_all(
            Seq::empty(),
            Seq::new(opened.len(), |i: int| opened[i]->Ok_0@),
        ) == Assembly::Complete(protocol::frame_of(header, payload)),
        protocol::frame_reading(protocol::frame_of(header, payload)) == Ok::<
            (Seq<u8>, Seq<u8>),
            Seq<char>,
        >((header, payload)),
{
    let encoded = protocol::frame_of(header, payload);
    let chunks = chunks_of(encoded);
    let key = receiving(sessions[0]).0;
    let count = receiving(sessions[0]).1;
    assert(are_packets(key, count, encoded, packets));
    bytes::lemma_be_length(protocol::PROTOCOL_VERSION as nat, 2);
    bytes::lemma_be_length(header.len(), 4);
    bytes::lemma_be_length(payload.len(), 8);
    law_chunks_fit_packets(encoded);
    law_chunks_are_reassembled(encoded);
    protocol::law_frame_round_trip(header, payload);
    lemma_opened_in_turn(key, count, encoded, packets, sessions, opened, packets.len() as int);
    assert forall|i: int| #![trigger packets[i]] 0 <= i < packets.len() implies packets[i].len()
        >= 4 && bytes::be_value(packets[i].take(4)) == packets[i].len() - 4 && 0 < packets[i].len()
        - 4 <= MAX_NOISE_PACKET_SIZE && opened[i] is Ok by {
        let content = noise_sealed(key, (count + i) as u64, chunks[i]);
        assert(chunks_of(encoded)[i].len() + TAG_LENGTH <= MAX_NOISE_PACKET_SIZE);
        assert(packets[i] == packet_of(content));
        law_packet_length_is_read_back(content);
    }
    assert(Seq::new(opened.len(), |i: int| opened[i]->Ok_0@) =~= chunks) by {
        assert forall|i: int| 0 <= i < chunks.len() implies opened[i]->Ok_0@ == chunks[i] by {}
    }
}

proof fn lemma_opened_in_turn(
    key: Seq<u8>,
    count: u64,
    encoded: Seq<u8>,
    packets: Seq<Seq<u8>>,
    sessions: Seq<snow::TransportState>,
    opened: Seq<AppResult<Vec<u8>>>,
    n: int,
)
    requires
        0 <= n <= packets.len(),
        sessions.len() == packets.len() + 1,
        opened.len() == packets.len(),
        two_way(sessions[0]),
        receiving(sessions[0]) == (key, count),
        count + packets.len() <= u64::MAX,
        are_packets(key, count, encoded, packets),
        forall|i: int|
            #![trigger packets[i]]
            0 <= i < packets.len() ==> opens_payload(
                sessions[i],
                sessions[i + 1],
                packets[i].skip(4),
                opened[i],
            ),
    ensures
        two_way(sessions[n]),
        receiving(sessions[n]) == (key, (count + n) as u64),
        forall|i: int|
            #![trigger opened[i]]
            0 <= i < n ==> opened[i] is Ok && opened[i]->Ok_0@ == chunks_of(encoded)[i],
    decreases n,
{
    if n > 0 {
        let i = n - 1;
        lemma_opened_in_turn(key, count, encoded, packets, sessions, opened, i);
        law_chunks_fit_packets(encoded);
        let chunk = chunks_of(encoded)[i];
        let content = noise_sealed(key, (count + i) as u64, chunk);
        assert(packets[i] == packet_of(content));
        bytes::lemma_be_length(content.len(), 4);
        assert(packets[i].skip(4) =~= content);
        assert(opens_payload(sessions[i], sessions[i + 1], packets[i].skip(4), opened[i]));
        assert(chunk.len() + TAG_LENGTH <= MAX_NOISE_PACKET_SIZE);
        assert(two_way(sessions[i]));
        assert(receiving(sessions[i]).1 < u64::MAX);
        assert(receiving(sessions[i]).0 == key);
        assert(packets[i].skip(4) == noise_sealed(
            receiving(sessions[i]).0,
            receiving(sessions[i]).1,
            chunk,
        ));
        assert(opened[i] is Ok && opened[i]->Ok_0@ == chunk);
    }
}

/// Refuses a message of the handshake that is too long.
pub fn check_control_length(encoded: &[u8]) -> (r: AppResult<()>)
    ensures
        r is Ok <==> encoded@.len() <= MAX_HANDSHAKE_PACKET_SIZE,
        r matches Err(e) ==> e.is_security("局域网握手控制消息过大"@),
{
    if encoded.len() > MAX_HANDSHAKE_PACKET_SIZE {
        return Err(AppError::security("局域网握手控制消息过大"));
    }
    Ok(())
}

/// A frame that was encrypted under a key is read under it as it was; each frame whose parts are not
/// too long can be encrypted.
pub proof fn law_encrypted_frame_is_read(
    key: &[u8],
    frame: Frame,
    header: &[u8],
    sent: AppResult<Vec<u8>>,
    packet: &[u8],
    r: AppResult<(Vec<u8>, Vec<u8>)>,
)
    requires
        call_ensures(encrypt_frame, (key, &frame, header), sent),
        sent is Ok ==> packet@ == sent->Ok_0@,
        call_ensures(decrypt_frame, (key, packet), r),
    ensures
        sent is Ok <==> 0 < header@.len() <= 262144 && frame.payload@.len() <= 1048576,
        sent is Ok ==> packet@.len() == 20 + header@.len() + frame.payload@.len() + 28,
        sent is Ok ==> (r matches Ok((h, p)) && h@ == header@ && p@ == frame.payload@),
{
    if sent is Ok {
        let id = choose|id: Uuid|
            id.is_random() && nonce_of(id).len() == NONCE_LENGTH && packet@ == encrypted_of(
                key@,
                #[trigger] nonce_of(id),
                protocol::frame_of(header@, frame.payload@),
            );
        assert(packet@ == encrypted_of(
            key@,
            nonce_of(id),
            protocol::frame_of(header@, frame.payload@),
        ));
        assert(reads_back(key@, packet@, r));
    }
}

/// A packet is as long as it says: its length stands in its first four bytes.
pub proof fn law_packet_says_its_length(
    content: &[u8],
    written: AppResult<Vec<u8>>,
    prefix: &[u8],
    maximum: usize,
    r: AppResult<usize>,
)
    requires
        call_ensures(plain_packet, (content,), written),
        written is Ok ==> prefix@ == written->Ok_0@.take(4),
        call_ensures(packet_length, (prefix, maximum), r),
    ensures
        written is Ok <==> content@.len() <= 0xffff_ffff,
        written matches Ok(packet) ==> packet@.len() == 4 + content@.len() && packet@.skip(4)
            == content@ && (r is Ok <==> 0 < content@.len() <= maximum) && (r is Ok ==> r->Ok_0
            == content@.len()),
{
    if written is Ok {
        law_packet_length_is_read_back(content@);
    }
}

/// An encrypted packet is neither shorter than what encryption adds nor longer than the longest
/// frame.
pub proof fn law_encrypted_packet_length(prefix: &[u8], r: AppResult<usize>)
    requires
        call_ensures(encrypted_packet_length, (prefix,), r),
    ensures
        r is Ok <==> 28 <= bytes::be_value(prefix@) <= 20 + 262144 + 1048576 + 28,
        r matches Ok(length) ==> length == bytes::be_value(prefix@),
{
}

/// A piece of a frame that is not the last is kept; the last one completes the frame, which is then
/// read; and what is no piece is refused.
pub proof fn law_pieces_are_put_together(
    assembler: &mut FrameAssembler,
    chunk: &[u8],
    whole: &[u8],
    read: AppResult<(Vec<u8>, Vec<u8>)>,
    r: AppResult<Option<(Vec<u8>, Vec<u8>)>>,
)
    requires
        call_ensures(FrameAssembler::accept, (assembler, chunk), r),
        chunk@.len() > 0,
        whole@ == old(assembler).buffer() + chunk@.skip(1),
        call_ensures(Frame::decode, (whole,), read),
    ensures
        chunk@[0] > 1 ==> r is Err,
        whole@.len() > 1310740 ==> r is Err,
        chunk@[0] == 0 && whole@.len() <= 1310740 ==> (r matches Ok(none) && none is None
            && final(assembler).buffer() == whole@),
        chunk@[0] == 1 && whole@.len() <= 1310740 ==> final(assembler).buffer().len() == 0 && (
        r is Ok <==> read is Ok) && (r is Ok ==> (r->Ok_0 matches Some((h, p)) && h@
            == read->Ok_0.0@ && p@ == read->Ok_0.1@)),
{
}

/// A frame is sent in pieces of 61440 bytes, of which the last may be shorter and is marked; each
/// piece is marked as the last or not.
pub proof fn law_pieces_are_marked(encoded: &[u8], r: Vec<Vec<u8>>)
    requires
        call_ensures(noise_chunks, (encoded,), r),
        encoded@.len() > 0,
    ensures
        r@.len() > 0,
        r@.last()@[0] == 1,
        forall|i: int|
            0 <= i < r@.len() - 1 ==> (#[trigger] r@[i])@.len() == 61441 && r@[i]@[0] == 0,
        0 < r@.last()@.len() - 1 <= 61440,
{
    let cs = r@.map_values(|chunk: Vec<u8>| chunk@);
    lemma_chunk_marks(encoded@);
    assert(cs.len() == r@.len());
    assert(cs[r@.len() - 1] == r@.last()@);
    assert forall|i: int| 0 <= i < r@.len() - 1 implies (#[trigger] r@[i])@.len() == 61441
        && r@[i]@[0] == 0 by {
        assert(cs[i] == r@[i]@);
    }
}

proof fn lemma_chunk_marks(encoded: Seq<u8>)
    requires
        encoded.len() > 0,
    ensures
        ({
            let cs = chunks_of(encoded);
            &&& cs.len() > 0
            &&& cs[cs.len() - 1].len() > 1
            &&& cs[cs.len() - 1].len() <= 61441
            &&& cs[cs.len() - 1][0] == 1
            &&& forall|i: int|
                0 <= i < cs.len() - 1 ==> (#[trigger] cs[i]).len() == 61441 && cs[i][0] == 0
        }),
    decreases encoded.len(),
{
    let cs = chunks_of(encoded);
    if encoded.len() > NOISE_FRAME_CHUNK_SIZE {
        let tail = encoded.skip(NOISE_FRAME_CHUNK_SIZE as int);
        lemma_chunk_marks(tail);
        let rest = chunks_of(tail);
        assert(cs[cs.len() - 1] == rest[rest.len() - 1]);
        assert forall|i: int| 0 <= i < cs.len() - 1 implies (#[trigger] cs[i]).len() == 61441
            && cs[i][0] == 0 by {
            if i > 0 {
                assert(cs[i] == rest[i - 1]);
            }
        }
    }
}

/// What one end of a session encrypts, the other decrypts, if both have come as far.
pub proof fn law_session_carries_payloads(
    here: &mut snow::TransportState,
    there: &mut snow::TransportState,
    payload: &[u8],
    sent: AppResult<Vec<u8>>,
    packet: &[u8],
    r: AppResult<Vec<u8>>,
)
    requires
        call_ensures(seal_noise_payload, (here, payload), sent),
        sent is Ok ==> packet@ == sent->Ok_0@,
        call_ensures(open_noise_payload, (there, packet), r),
        two_way(*old(here)),
        two_way(*old(there)),
        sending(*old(here)) == receiving(*old(there)),
        sending(*old(here)).1 < u64::MAX,
    ensures
        sent is Ok <==> payload@.len() <= 65519,
        sent is Ok ==> (r matches Ok(data) && data@ == payload@) && sending(*final(here))
            == receiving(*final(there)),
{
}

/// Each frame that can be written can be sent over a session that goes both ways; and the other end,
/// which has come as far, opens what comes first: the whole frame, marked as such, where it fits into
/// one piece.
pub proof fn law_frame_is_sent_over_session(
    here: &mut snow::TransportState,
    frame: Frame,
    header: &[u8],
    encoded: AppResult<Vec<u8>>,
    r: AppResult<Vec<Vec<u8>>>,
    there: &mut snow::TransportState,
    packet: &[u8],
    opened: AppResult<Vec<u8>>,
)
    requires
        call_ensures(Frame::encode, (&frame, header), encoded),
        call_ensures(noise_packets, (here, &frame, header), r),
        two_way(*old(here)),
        two_way(*old(there)),
        sending(*old(here)) == receiving(*old(there)),
        sending(*old(here)).1 + 2000 <= u64::MAX,
        r is Ok && r->Ok_0@.len() > 0 ==> packet@ == r->Ok_0@[0]@.skip(4),
        call_ensures(open_noise_payload, (there, packet), opened),
    ensures
        r is Ok <==> encoded is Ok,
        r is Ok ==> r->Ok_0@.len() > 0,
        r is Ok && encoded->Ok_0@.len() <= 61440 ==> (opened matches Ok(piece) && piece@
            == seq![1u8] + encoded->Ok_0@),
{
    if encoded is Ok {
        let data = protocol::frame_of(header@, frame.payload@);
        protocol::law_frame_layout(frame, header, encoded->Ok_0);
        lemma_chunk_count(data);
    }
    if r is Ok {
        let data = protocol::frame_of(header@, frame.payload@);
        let packets = r->Ok_0@.map_values(|p: Vec<u8>| p@);
        lemma_chunk_marks(data);
        assert(packets.len() == r->Ok_0@.len());
        assert(packets[0] == r->Ok_0@[0]@);
        let (key, count) = sending(*old(here));
        let content = noise_sealed(key, count, chunks_of(data)[0]);
        assert(packets[0] == packet_of(content));
        law_packet_length_is_read_back(content);
        assert(packet@ == content);
        law_chunks_fit_packets(data);
        assert(chunks_of(data)[0].len() + TAG_LENGTH <= MAX_NOISE_PACKET_SIZE);
        assert(opens_payload(*old(there), *final(there), packet@, opened));
        if data.len() <= 61440 {
            assert(chunks_of(data)[0] == seq![1u8] + data);
        }
    }
}

proof fn lemma_chunk_count(data: Seq<u8>)
    ensures
        chunks_of(data).len() * 61440 < data.len() + 61440,
    decreases data.len(),
{
    if data.len() > NOISE_FRAME_CHUNK_SIZE {
        lemma_chunk_count(data.skip(NOISE_FRAME_CHUNK_SIZE as int));
    }
}

/// A message of the handshake has at most 4096 bytes.
pub proof fn law_control_messages_are_short(encoded: &[u8], r: AppResult<()>)
    requires
        call_ensures(check_control_length, (encoded,), r),
    ensures
        r is Ok <==> encoded@.len() <= 4096,
{
}

} // verus!
