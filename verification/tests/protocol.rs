use nearweave::ids::Uuid;
use nearweave::models::TransferCancelResult;
use nearweave::protocol::{
    decode_prefix, validate_lengths, Frame, Message, FRAME_PREFIX_SIZE, MAX_HEADER_SIZE,
    MAX_PAYLOAD_SIZE, PROTOCOL_VERSION,
};
use nearweave::transport::framing;
use nearweave::transport::framing::FrameAssembler;
use serde_json::Value;

fn header(fields: &[(&str, Value)]) -> Vec<u8> {
    let mut map = serde_json::Map::new();
    for (name, value) in fields {
        map.insert(name.to_string(), value.clone());
    }
    serde_json::to_vec(&Value::Object(map)).expect("header")
}

fn text(value: &str) -> Value {
    Value::String(value.to_string())
}

fn reparsed(header: &[u8]) -> Value {
    serde_json::from_slice(header).expect("JSON")
}

#[test]
fn frame_round_trip_preserves_binary_payload() {
    let frame = Frame::with_payload(
        Message::ClipboardText { message_id: Uuid::nil(), sha256: "abc".into() },
        vec![0, 1, 2, 255],
    );
    let notation = header(&[
        ("kind", text("clipboard_text")),
        ("message_id", text("00000000-0000-0000-0000-000000000000")),
        ("sha256", text("abc")),
    ]);
    let encoded = frame.encode(&notation).expect("编码应成功");
    let (decoded_header, payload) = Frame::decode(&encoded).expect("解码应成功");
    assert_eq!(decoded_header, notation);
    assert_eq!(reparsed(&decoded_header)["kind"], text("clipboard_text"));
    assert_eq!(payload, vec![0, 1, 2, 255]);
}

#[test]
fn disconnect_frame_round_trip_preserves_reason() {
    let frame = Frame::new(Message::Disconnect { reason: "用户主动断开".into() });
    let notation = header(&[("kind", text("disconnect")), ("reason", text("用户主动断开"))]);
    let encoded = frame.encode(&notation).expect("断开消息应能编码");
    let (decoded, payload) = Frame::decode(&encoded).expect("断开消息应能解码");
    assert_eq!(reparsed(&decoded)["reason"], text("用户主动断开"));
    assert!(payload.is_empty());
}

#[test]
fn bulk_messages_prefer_network_but_control_messages_do_not() {
    assert!(Message::FileChunk { transfer_id: Uuid::nil(), offset: 0 }.prefers_network());
    assert!(!Message::Ping { nonce: Uuid::nil() }.prefers_network());
    assert!(!Message::TransferCancel { transfer_id: Uuid::nil(), reason: "测试取消".into() }
        .prefers_network());
}

#[test]
fn every_message_is_sorted_to_one_kind_of_link() {
    let nil = Uuid::nil();
    assert!(!Message::NetworkHello { device_id: nil, session_id: nil, connection_id: nil }
        .prefers_network());
    assert!(!Message::Pong { nonce: nil }.prefers_network());
    assert!(!Message::Disconnect { reason: String::new() }.prefers_network());
    assert!(!Message::TransferCancelAck {
        transfer_id: nil,
        result: TransferCancelResult::NotFound,
        detail: String::new(),
    }
    .prefers_network());
    assert!(Message::TransferAck { transfer_id: nil, accepted: true, detail: String::new() }
        .prefers_network());
    assert!(Message::Error { request_id: None, message: String::new() }.prefers_network());
}

#[test]
fn transfer_cancel_round_trip_preserves_result() {
    let transfer_id = Uuid::new_v4();
    let frame = Frame::new(Message::TransferCancelAck {
        transfer_id,
        result: TransferCancelResult::AlreadyCompleted,
        detail: "任务已经完成".into(),
    });
    let notation = header(&[
        ("kind", text("transfer_cancel_ack")),
        ("transfer_id", text(&transfer_id.to_string())),
        ("result", text("already_completed")),
        ("detail", text("任务已经完成")),
    ]);
    let encoded = frame.encode(&notation).expect("取消确认应能编码");
    let (decoded, _) = Frame::decode(&encoded).expect("取消确认应能解码");
    let value = reparsed(&decoded);
    assert_eq!(value["result"], text("already_completed"));
    let id = value["transfer_id"].as_str().expect("id");
    assert_eq!(Uuid::parse_str(id), Some(transfer_id));
}

#[test]
fn directory_page_round_trip_preserves_paging_fields() {
    let request_id = Uuid::new_v4();
    let share_id = Uuid::new_v4();
    let frame = Frame::new(Message::DirectoryListResponse {
        request_id,
        share_id,
        relative_path: "一级/二级".into(),
        offset: 200,
        next_offset: Some(400),
    });
    let notation = header(&[
        ("kind", text("directory_list_response")),
        ("request_id", text(&request_id.to_string())),
        ("share_id", text(&share_id.to_string())),
        ("relative_path", text("一级/二级")),
        ("offset", Value::from(200)),
        ("next_offset", Value::from(400)),
    ]);
    let encoded = frame.encode(&notation).expect("目录分页应能编码");
    let (decoded, _) = Frame::decode(&encoded).expect("目录分页应能解码");
    let value = reparsed(&decoded);
    assert_eq!(value["offset"], Value::from(200));
    assert_eq!(value["next_offset"], Value::from(400));
    assert_eq!(Uuid::parse_str(value["request_id"].as_str().expect("id")), Some(request_id));
    assert_eq!(Uuid::parse_str(value["share_id"].as_str().expect("id")), Some(share_id));
}

fn request_frame() -> Vec<u8> {
    Frame::new(Message::ShareRootsRequest { request_id: Uuid::nil() })
        .encode(b"{\"kind\":\"share_roots_request\"}")
        .expect("编码应成功")
}

#[test]
fn invalid_magic_is_rejected() {
    let mut encoded = request_frame();
    encoded[0] = b'X';
    let error = Frame::decode(&encoded).expect_err("非法消息必须失败");
    assert!(error.to_string().contains("消息标记"));
}

#[test]
fn encoded_frame_uses_nearweave_magic() {
    let encoded = request_frame();
    assert_eq!(&encoded[..4], b"NWV1");
}

#[test]
fn oversized_payload_is_rejected_before_allocation() {
    let mut prefix = [0_u8; FRAME_PREFIX_SIZE];
    prefix[..4].copy_from_slice(b"NWV1");
    prefix[4..6].copy_from_slice(&PROTOCOL_VERSION.to_be_bytes());
    prefix[8..12].copy_from_slice(&1_u32.to_be_bytes());
    prefix[12..20].copy_from_slice(&((MAX_PAYLOAD_SIZE as u64) + 1).to_be_bytes());
    assert!(decode_prefix(&prefix).is_err());
}

#[test]
fn frame_layout_is_big_endian() {
    let encoded = Frame::with_payload(Message::Ping { nonce: Uuid::nil() }, vec![9, 8])
        .encode(b"abc")
        .expect("frame");
    let expected: Vec<u8> = vec![
        0x4e, 0x57, 0x56, 0x31, 0, 1, 0, 0, 0, 0, 0, 3, 0, 0, 0, 0, 0, 0, 0, 2, b'a', b'b', b'c',
        9, 8,
    ];
    assert_eq!(encoded, expected);
}

#[test]
fn broken_frames_are_refused_with_their_fault() {
    let encoded = request_frame();
    let fault = |data: &[u8]| Frame::decode(data).expect_err("fault").to_string();
    assert_eq!(fault(&encoded[..10]), "协议错误：消息头不完整");
    assert!(fault(&encoded[..encoded.len() - 1]).contains("消息长度不匹配"));
    let mut other = encoded.clone();
    other[5] = 2;
    assert_eq!(fault(&other), "协议错误：不支持的协议版本 2");
    let mut empty = encoded.clone();
    empty[11] = 0;
    assert_eq!(fault(&empty), "协议错误：消息头长度 0 超出限制");
    assert!(decode_prefix(&encoded[..5]).expect_err("short").to_string().contains("固定消息头长度"));
    assert!(validate_lengths(MAX_HEADER_SIZE, MAX_PAYLOAD_SIZE).is_ok());
    assert!(validate_lengths(MAX_HEADER_SIZE + 1, 0).is_err());
    let long = Frame::with_payload(Message::Ping { nonce: Uuid::nil() }, vec![0; MAX_PAYLOAD_SIZE + 1]);
    assert_eq!(
        long.encode(b"x").expect_err("long").to_string(),
        "协议错误：负载长度 1048577 超出限制"
    );
}

#[test]
fn reserved_bytes_are_not_looked_at() {
    let mut encoded = request_frame();
    encoded[6] = 7;
    encoded[7] = 9;
    assert!(Frame::decode(&encoded).is_ok());
}

#[test]
fn plain_packets_announce_their_length() {
    let packet = framing::plain_packet(&[1, 2, 3]).expect("packet");
    assert_eq!(packet, vec![0, 0, 0, 3, 1, 2, 3]);
    assert_eq!(framing::packet_length(&packet[..4], 10), Ok(3));
    assert_eq!(
        framing::packet_length(&[0, 0, 1, 0], 255).expect_err("long").to_string(),
        "协议错误：网络数据包长度 256 超出限制"
    );
    assert!(framing::packet_length(&[0, 0, 0, 0], 255).is_err());
    assert_eq!(framing::encrypted_packet_length(&[0, 0, 0, 28]), Ok(28));
    assert_eq!(
        framing::encrypted_packet_length(&[0, 0, 0, 27]).expect_err("short").to_string(),
        "协议错误：局域网加密帧长度 27 超出限制"
    );
}

#[test]
fn parts_of_a_frame_are_put_together_again() {
    let data: Vec<u8> = (0..150_000_u32).map(|n| (n % 251) as u8).collect();
    let chunks = framing::noise_chunks(&data);
    assert_eq!(chunks.len(), 3);
    assert_eq!(chunks[0].len(), 61_441);
    assert_eq!(chunks[0][0], 0);
    assert_eq!(chunks[2][0], 1);
    let mut joined = Vec::new();
    for chunk in &chunks {
        joined.extend_from_slice(&chunk[1..]);
    }
    assert_eq!(joined, data);
    assert!(framing::noise_chunks(&[]).is_empty());
    assert_eq!(framing::noise_chunks(&vec![0; 61_440]).len(), 1);
}

#[test]
fn an_assembler_refuses_broken_parts() {
    let mut assembler = FrameAssembler::new();
    assert_eq!(
        assembler.accept(&[]).expect_err("empty").to_string(),
        "协议错误：Noise 数据分片为空"
    );
    assert_eq!(
        assembler.accept(&[2, 1]).expect_err("mark").to_string(),
        "协议错误：Noise 数据分片标记无效"
    );
    let huge = vec![0_u8; framing::MAX_ENCODED_FRAME_SIZE + 2];
    assert_eq!(
        assembler.accept(&huge).expect_err("huge").to_string(),
        "协议错误：Noise 协议帧超过大小限制"
    );
    let encoded = request_frame();
    let mut first = vec![0_u8];
    first.extend_from_slice(&encoded[..7]);
    let mut last = vec![1_u8];
    last.extend_from_slice(&encoded[7..]);
    assert!(matches!(assembler.accept(&first), Ok(None)));
    let (header, payload) = assembler.accept(&last).expect("frame").expect("complete");
    assert_eq!(header, b"{\"kind\":\"share_roots_request\"}".to_vec());
    assert!(payload.is_empty());
    assert!(assembler.accept(&[1, 5]).is_err());
}
