//! Messages between devices, and the frames that carry them.
use crate::bytes;
use crate::error::{AppError, AppResult};
use crate::ids::Uuid;
use crate::models::TransferCancelResult;
use crate::text;
use vstd::prelude::*;

verus! {

pub const PROTOCOL_VERSION: u16 = 1;

pub const FRAME_PREFIX_SIZE: usize = 20;

pub const MAX_HEADER_SIZE: usize = 256 * 1024;

pub const MAX_PAYLOAD_SIZE: usize = 1024 * 1024;

pub const FILE_CHUNK_SIZE: usize = 48 * 1024;

pub const CAPABILITY_TRANSFER_CANCEL: &'static str = "transfer_cancel_v1";

pub const CAPABILITY_LAZY_DIRECTORY: &'static str = "lazy_directory_browse_v1";

/// What one device says to another.
#[derive(Clone, Debug)]
pub enum Message {
    Hello {
        protocol_version: u16,
        device_id: Uuid,
        device_name: String,
        capabilities: Vec<String>,
        network_offer: Option<NetworkOffer>,
    },
    NetworkHello { device_id: Uuid, session_id: Uuid, connection_id: Uuid },
    Ping { nonce: Uuid },
    Pong { nonce: Uuid },
    Disconnect { reason: String },
    ClipboardText { message_id: Uuid, sha256: String },
    FileOffer { transfer_id: Uuid, name: String, size: u64, source: TransferSource },
    FileChunk { transfer_id: Uuid, offset: u64 },
    FileComplete { transfer_id: Uuid, sha256: String },
    TransferAck { transfer_id: Uuid, accepted: bool, detail: String },
    TransferCancel { transfer_id: Uuid, reason: String },
    TransferCancelAck { transfer_id: Uuid, result: TransferCancelResult, detail: String },
    ShareFileRequest { request_id: Uuid, share_id: Uuid, relative_path: String },
    ShareRootsRequest { request_id: Uuid },
    ShareRoots { request_id: Option<Uuid>, revision: Uuid },
    DirectoryListRequest { request_id: Uuid, share_id: Uuid, relative_path: String, offset: u32 },
    DirectoryListResponse {
        request_id: Uuid,
        share_id: Uuid,
        relative_path: String,
        offset: u32,
        next_offset: Option<u32>,
    },
    Error { request_id: Option<Uuid>, message: String },
}

/// A session key for a network link beside a Bluetooth connection.
#[derive(Clone, Debug)]
pub struct NetworkOffer {
    pub session_id: Uuid,
    pub key: Vec<u8>,
}

/// Why a file is sent.
#[derive(Clone, Copy, Debug, PartialEq, Eq, Structural)]
pub enum TransferSource {
    Direct,
    SharedDirectory,
}

/// A message with the bytes that belong to it.
#[derive(Clone, Debug)]
pub struct Frame {
    pub message: Message,
    pub payload: Vec<u8>,
}

impl Message {
    /// Messages that keep the connection itself alive and in order. They stay on the link that
    /// the connection was made on.
    pub open spec fn is_link_control(&self) -> bool {
        ||| self is Hello
        ||| self is NetworkHello
        ||| self is Ping
        ||| self is Pong
        ||| self is Disconnect
        ||| self is TransferCancel
        ||| self is TransferCancelAck
    }

    /// Whether the message goes over the network where there is one.
    pub fn prefers_network(&self) -> (r: bool)
        ensures
            r == !self.is_link_control(),
    {
        !matches!(
            self,
            Message::Hello { .. } | Message::NetworkHello { .. } | Message::Ping { .. }
                | Message::Pong { .. } | Message::Disconnect { .. }
                | Message::TransferCancel { .. } | Message::TransferCancelAck { .. }
        )
    }
}

/// The four bytes that every frame starts with.
pub open spec fn magic() -> Seq<u8> {
    seq![0x4e, 0x57, 0x56, 0x31]
}

/// A header is neither empty nor too long, and a payload is not too long.
pub open spec fn lengths_valid(header_len: int, payload_len: int) -> bool {
    0 < header_len <= MAX_HEADER_SIZE && payload_len <= MAX_PAYLOAD_SIZE
}

/// What is wrong with the lengths, where something is.
pub open spec fn lengths_fault(header_len: nat, payload_len: nat) -> Seq<char> {
    if header_len == 0 || header_len > MAX_HEADER_SIZE {
        "消息头长度 "@ + text::decimal_of(header_len) + " 超出限制"@
    } else {
        "负载长度 "@ + text::decimal_of(payload_len) + " 超出限制"@
    }
}

/// The bytes before the header.
pub open spec fn prefix_of(header_len: nat, payload_len: nat) -> Seq<u8> {
    magic() + bytes::be_of(PROTOCOL_VERSION as nat, 2) + seq![0u8, 0u8] + bytes::be_of(
        header_len,
        4,
    ) + bytes::be_of(payload_len, 8)
}

/// A frame on the wire.
pub open spec fn frame_of(header: Seq<u8>, payload: Seq<u8>) -> Seq<u8> {
    prefix_of(header.len(), payload.len()) + header + payload
}

/// The lengths of header and payload that a prefix announces, or what is wrong with it.
pub open spec fn prefix_reading(prefix: Seq<u8>) -> Result<(nat, nat), Seq<char>> {
    let version = bytes::be_value(prefix.subrange(4, 6));
    let header_len = bytes::be_value(prefix.subrange(8, 12));
    let payload_len = bytes::be_value(prefix.subrange(12, 20));
    if prefix.len() != FRAME_PREFIX_SIZE {
        Err("固定消息头长度错误"@)
    } else if prefix.subrange(0, 4) != magic() {
        Err("无法识别的消息标记"@)
    } else if version != PROTOCOL_VERSION {
        Err("不支持的协议版本 "@ + text::decimal_of(version))
    } else if payload_len > usize::MAX {
        Err("负载长度超出当前平台限制"@)
    } else if !lengths_valid(header_len as int, payload_len as int) {
        Err(lengths_fault(header_len, payload_len))
    } else {
        Ok((header_len, payload_len))
    }
}

/// The header and the payload in a frame, or what is wrong with it.
pub open spec fn frame_reading(data: Seq<u8>) -> Result<(Seq<u8>, Seq<u8>), Seq<char>> {
    if data.len() < FRAME_PREFIX_SIZE {
        Err("消息头不完整"@)
    } else {
        match prefix_reading(data.take(FRAME_PREFIX_SIZE as int)) {
            Err(fault) => Err(fault),
            Ok((header_len, payload_len)) => {
                let expected = FRAME_PREFIX_SIZE as nat + header_len + payload_len;
                if data.len() != expected {
                    Err(
                        "消息长度不匹配，期望 "@ + text::decimal_of(expected) + " 字节，实际 "@
                            + text::decimal_of(data.len()) + " 字节"@,
                    )
                } else {
                    let header_end = FRAME_PREFIX_SIZE + header_len;
                    Ok(
                        (
                            data.subrange(FRAME_PREFIX_SIZE as int, header_end),
                            data.subrange(header_end, data.len() as int),
                        ),
                    )
                }
            },
        }
    }
}

impl Frame {
    /// A message alone.
    pub fn new(message: Message) -> (r: Self)
        ensures
            r.message == message,
            r.payload@ == Seq::<u8>::empty(),
    {
        Frame { message, payload: Vec::new() }
    }

    /// A message with its bytes.
    pub fn with_payload(message: Message, payload: Vec<u8>) -> (r: Self)
        ensures
            r == (Frame { message, payload }),
    {
        Frame { message, payload }
    }

    /// The frame on the wire, where `header` is the notation of its message.
    pub fn encode(&self, header: &[u8]) -> (r: AppResult<Vec<u8>>)
        ensures
            match r {
                Ok(data) => lengths_valid(header@.len() as int, self.payload@.len() as int)
                    && data@ == frame_of(header@, self.payload@),
                Err(e) => !lengths_valid(header@.len() as int, self.payload@.len() as int)
                    && e.is_protocol(lengths_fault(header@.len(), self.payload@.len())),
            },
    {
        match validate_lengths(header.len(), self.payload.len()) {
            Err(e) => Err(e),
            Ok(()) => {
                let mut output: Vec<u8> = Vec::new();
                output.push(0x4e);
                output.push(0x57);
                output.push(0x56);
                output.push(0x31);
                proof {
                    assert(output@ =~= magic());
                }
                bytes::push_be(&mut output, PROTOCOL_VERSION as u128, 2);
                output.push(0);
                output.push(0);
                proof {
                    assert(output@ =~= magic() + bytes::be_of(PROTOCOL_VERSION as nat, 2)
                        + seq![0u8, 0u8]);
                }
                bytes::push_be(&mut output, header.len() as u128, 4);
                bytes::push_be(&mut output, self.payload.len() as u128, 8);
                bytes::append_copy(&mut output, header);
                bytes::append_copy(&mut output, self.payload.as_slice());
                Ok(output)
            },
        }
    }

    /// The notation of the message in a frame, and its payload.
    pub fn decode(data: &[u8]) -> (r: AppResult<(Vec<u8>, Vec<u8>)>)
        ensures
            match r {
                Ok((header, payload)) => frame_reading(data@) == Ok::<_, Seq<char>>(
                    (header@, payload@),
                ),
                Err(e) => frame_reading(data@) matches Err(fault) && e.is_protocol(fault),
            },
    {
        if data.len() < FRAME_PREFIX_SIZE {
            return Err(AppError::protocol("消息头不完整"));
        }
        let prefix = bytes::copy_range(data, 0, FRAME_PREFIX_SIZE);
        proof {
            assert(prefix@ =~= data@.take(FRAME_PREFIX_SIZE as int));
        }
        let (header_len, payload_len) = match decode_prefix(prefix.as_slice()) {
            Ok(lengths) => lengths,
            Err(e) => {
                return Err(e);
            },
        };
        let expected: usize = FRAME_PREFIX_SIZE + header_len + payload_len;
        if data.len() != expected {
            let mut detail = text::joined("消息长度不匹配，期望 ", &text::decimal(expected as u128));
            detail.append(" 字节，实际 ");
            detail.append(&text::decimal(data.len() as u128));
            detail.append(" 字节");
            return Err(AppError::Protocol(detail));
        }
        let header_end: usize = FRAME_PREFIX_SIZE + header_len;
        Ok(
            (
                bytes::copy_range(data, FRAME_PREFIX_SIZE, header_end),
                bytes::copy_range(data, header_end, data.len()),
            ),
        )
    }
}

/// The lengths of header and payload that a prefix announces.
pub fn decode_prefix(prefix: &[u8]) -> (r: AppResult<(usize, usize)>)
    ensures
        match r {
            Ok((header_len, payload_len)) => prefix_reading(prefix@) == Ok::<_, Seq<char>>(
                (header_len as nat, payload_len as nat),
            ),
            Err(e) => prefix_reading(prefix@) matches Err(fault) && e.is_protocol(fault),
        },
        r matches Ok((header_len, payload_len)) ==> lengths_valid(
            header_len as int,
            payload_len as int,
        ),
{
    if prefix.len() != FRAME_PREFIX_SIZE {
        return Err(AppError::protocol("固定消息头长度错误"));
    }
    proof {
        let mark = prefix@.subrange(0, 4);
        assert(mark == magic() <==> (mark[0] == 0x4e && mark[1] == 0x57 && mark[2] == 0x56
            && mark[3] == 0x31)) by {
            if mark[0] == 0x4e && mark[1] == 0x57 && mark[2] == 0x56 && mark[3] == 0x31 {
                assert(mark =~= magic());
            }
        }
    }
    if prefix[0] != 0x4e || prefix[1] != 0x57 || prefix[2] != 0x56 || prefix[3] != 0x31 {
        return Err(AppError::protocol("无法识别的消息标记"));
    }
    let version: u64 = bytes::read_be(prefix, 4, 6);
    if version != PROTOCOL_VERSION as u64 {
        return Err(
            AppError::Protocol(
                text::joined("不支持的协议版本 ", &text::decimal(version as u128)),
            ),
        );
    }
    let header_len: u64 = bytes::read_be(prefix, 8, 12);
    let payload_len: u64 = bytes::read_be(prefix, 12, 20);
    proof {
        bytes::lemma_be_value_bound(prefix@.subrange(8, 12));
        reveal_with_fuel(bytes::range_of, 5);
    }
    if payload_len > usize::MAX as u64 {
        return Err(AppError::protocol("负载长度超出当前平台限制"));
    }
    match validate_lengths(header_len as usize, payload_len as usize) {
        Ok(()) => Ok((header_len as usize, payload_len as usize)),
        Err(e) => Err(e),
    }
}

/// Refuses a header that is empty or too long, and a payload that is too long.
pub fn validate_lengths(header_len: usize, payload_len: usize) -> (r: AppResult<()>)
    ensures
        r is Ok <==> lengths_valid(header_len as int, payload_len as int),
        r matches Err(e) ==> e.is_protocol(lengths_fault(header_len as nat, payload_len as nat)),
{
    if header_len == 0 || header_len > MAX_HEADER_SIZE {
        return Err(
            AppError::Protocol(
                text::joined3("消息头长度 ", &text::decimal(header_len as u128), " 超出限制"),
            ),
        );
    }
    if payload_len > MAX_PAYLOAD_SIZE {
        return Err(
            AppError::Protocol(
                text::joined3("负载长度 ", &text::decimal(payload_len as u128), " 超出限制"),
            ),
        );
    }
    Ok(())
}

/// What is read from a frame is what was written into it.
pub proof fn law_frame_round_trip(header: Seq<u8>, payload: Seq<u8>)
    requires
        lengths_valid(header.len() as int, payload.len() as int),
    ensures
        frame_reading(frame_of(header, payload)) == Ok::<_, Seq<char>>((header, payload)),
{
    let data = frame_of(header, payload);
    let prefix = prefix_of(header.len(), payload.len());
    bytes::lemma_be_length(PROTOCOL_VERSION as nat, 2);
    bytes::lemma_be_length(header.len(), 4);
    bytes::lemma_be_length(payload.len(), 8);
    assert(prefix.len() == FRAME_PREFIX_SIZE);
    assert(data.take(FRAME_PREFIX_SIZE as int) =~= prefix);
    reveal_with_fuel(bytes::range_of, 9);
    bytes::lemma_be_round_trip(PROTOCOL_VERSION as nat, 2);
    bytes::lemma_be_round_trip(header.len(), 4);
    bytes::lemma_be_round_trip(payload.len(), 8);
    assert(prefix.subrange(0, 4) =~= magic());
    assert(prefix.subrange(4, 6) =~= bytes::be_of(PROTOCOL_VERSION as nat, 2));
    assert(prefix.subrange(8, 12) =~= bytes::be_of(header.len(), 4));
    assert(prefix.subrange(12, 20) =~= bytes::be_of(payload.len(), 8));
    let header_end = FRAME_PREFIX_SIZE + header.len();
    assert(data.subrange(FRAME_PREFIX_SIZE as int, header_end) =~= header);
    assert(data.subrange(header_end, data.len() as int) =~= payload);
}

/// A frame that is read successfully is what its header and payload are written as, but for the
/// two reserved bytes, which are not looked at.
pub proof fn law_frame_reading_is_exact(data: Seq<u8>)
    requires
        frame_reading(data) is Ok,
    ensures
        ({
            let (header, payload) = frame_reading(data)->Ok_0;
            &&& lengths_valid(header.len() as int, payload.len() as int)
            &&& data.update(6, 0).update(7, 0) == frame_of(header, payload)
        }),
{
    let (header, payload) = frame_reading(data)->Ok_0;
    let prefix = data.take(FRAME_PREFIX_SIZE as int);
    bytes::lemma_be_inverse(prefix.subrange(4, 6));
    bytes::lemma_be_inverse(prefix.subrange(8, 12));
    bytes::lemma_be_inverse(prefix.subrange(12, 20));
    let clean = data.update(6, 0).update(7, 0);
    let written = frame_of(header, payload);
    assert(clean.len() == written.len());
    assert forall|i: int| 0 <= i < clean.len() implies clean[i] == written[i] by {
        if i < 4 {
            assert(prefix.subrange(0, 4)[i] == magic()[i]);
        } else if i < 6 {
            assert(prefix.subrange(4, 6)[i - 4] == written[i]);
        } else if 8 <= i < 12 {
            assert(prefix.subrange(8, 12)[i - 8] == written[i]);
        } else if 12 <= i < 20 {
            assert(prefix.subrange(12, 20)[i - 12] == written[i]);
        }
    }
    assert(clean =~= written);
}

/// What is written as a frame is read as it was; each frame whose parts are not too long can be
/// written, with up to 256 KiB for the message, which is not empty, and up to 1 MiB for the data.
pub proof fn law_written_frame_is_read(
    frame: Frame,
    header: &[u8],
    written: AppResult<Vec<u8>>,
    data: &[u8],
    read: AppResult<(Vec<u8>, Vec<u8>)>,
)
    requires
        call_ensures(Frame::encode, (&frame, header), written),
        written is Ok ==> data@ == written->Ok_0@,
        call_ensures(Frame::decode, (data,), read),
    ensures
        written is Ok <==> 0 < header@.len() <= 262144 && frame.payload@.len() <= 1048576,
        written is Ok ==> (read matches Ok((h, p)) && h@ == header@ && p@ == frame.payload@),
{
    if written is Ok {
        law_frame_round_trip(header@, frame.payload@);
    }
}

/// A frame takes twenty bytes more than its parts, and begins with the mark of the application, the
/// version, and the lengths of its parts.
pub proof fn law_frame_layout(frame: Frame, header: &[u8], written: Vec<u8>)
    requires
        call_ensures(Frame::encode, (&frame, header), Ok::<Vec<u8>, AppError>(written)),
    ensures
        written@.len() == 20 + header@.len() + frame.payload@.len(),
        written@.take(4) == seq![0x4eu8, 0x57, 0x56, 0x31],
        bytes::be_value(written@.subrange(4, 6)) == 1,
        bytes::be_value(written@.subrange(8, 12)) == header@.len(),
        bytes::be_value(written@.subrange(12, 20)) == frame.payload@.len(),
        written@.subrange(20, (20 + header@.len()) as int) == header@,
        written@.skip((20 + header@.len()) as int) == frame.payload@,
{
    let data = written@;
    let prefix = prefix_of(header@.len(), frame.payload@.len());
    bytes::lemma_be_length(PROTOCOL_VERSION as nat, 2);
    bytes::lemma_be_length(header@.len(), 4);
    bytes::lemma_be_length(frame.payload@.len(), 8);
    reveal_with_fuel(bytes::range_of, 9);
    bytes::lemma_be_round_trip(PROTOCOL_VERSION as nat, 2);
    bytes::lemma_be_round_trip(header@.len(), 4);
    bytes::lemma_be_round_trip(frame.payload@.len(), 8);
    assert(data.take(4) =~= magic());
    assert(data.subrange(4, 6) =~= bytes::be_of(PROTOCOL_VERSION as nat, 2));
    assert(data.subrange(8, 12) =~= bytes::be_of(header@.len(), 4));
    assert(data.subrange(12, 20) =~= bytes::be_of(frame.payload@.len(), 8));
    assert(data.subrange(20, (20 + header@.len()) as int) =~= header@);
    assert(data.skip((20 + header@.len()) as int) =~= frame.payload@);
}

/// What is read as a frame ends where its parts end: data that is cut off, or longer, is refused.
pub proof fn law_only_whole_frames_are_read(data: &[u8], read: AppResult<(Vec<u8>, Vec<u8>)>)
    requires
        call_ensures(Frame::decode, (data,), read),
    ensures
        read matches Ok((header, payload)) ==> data@.len() == 20 + header@.len() + payload@.len()
            && 0 < header@.len() <= 262144 && payload@.len() <= 1048576 && data@.take(4)
            == seq![0x4eu8, 0x57, 0x56, 0x31] && bytes::be_value(data@.subrange(4, 6)) == 1
            && header@ == data@.subrange(20, (20 + header@.len()) as int) && payload@ == data@.skip(
            (20 + header@.len()) as int,
        ),
{
    if read is Ok {
        let (header, payload) = read->Ok_0;
        let prefix = data@.take(20);
        assert(prefix.subrange(0, 4) =~= data@.take(4));
        assert(prefix.subrange(4, 6) =~= data@.subrange(4, 6));
        assert(payload@ =~= data@.skip((20 + header@.len()) as int));
    }
}

/// The lengths that the beginning of a frame tells are those that the whole is read with.
pub proof fn law_prefix_tells_lengths(
    frame: Frame,
    header: &[u8],
    written: Vec<u8>,
    prefix: &[u8],
    r: AppResult<(usize, usize)>,
)
    requires
        call_ensures(Frame::encode, (&frame, header), Ok::<Vec<u8>, AppError>(written)),
        prefix@ == written@.take(20),
        call_ensures(decode_prefix, (prefix,), r),
    ensures
        r matches Ok((header_len, payload_len)) && header_len == header@.len() && payload_len
            == frame.payload@.len(),
{
    law_frame_round_trip(header@, frame.payload@);
    law_frame_layout(frame, header, written);
    assert(prefix@.subrange(8, 12) =~= written@.subrange(8, 12));
    assert(prefix@.subrange(12, 20) =~= written@.subrange(12, 20));
}

/// What concerns the connection itself does not go over the network link, and everything else does.
pub proof fn law_control_messages_keep_to_the_connection(message: Message, r: bool)
    requires
        call_ensures(Message::prefers_network, (&message,), r),
    ensures
        !r <==> message is Hello || message is NetworkHello || message is Ping || message is Pong
            || message is Disconnect || message is TransferCancel || message is TransferCancelAck,
{
}

} // verus!
