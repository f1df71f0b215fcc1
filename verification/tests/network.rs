use nearweave::ids::Uuid;
use nearweave::protocol::{Frame, Message};
use nearweave::transport::discovery;
use nearweave::transport::discovery::{
    DiscoveryPacket, InterfaceAddress, ManualAddress, ManualStep,
};
use nearweave::transport::framing;
use nearweave::transport::framing::FrameAssembler;
use nearweave::transport::handshake;
use nearweave::transport::handshake::{
    HandshakeTurn, LanHandshakeMessage, NoiseHandshake, TrustStep, WireTrustStatus,
};

const HEADER: &[u8] = b"{\"kind\":\"clipboard_text\"}";

#[test]
fn encrypted_lan_frame_round_trip_preserves_payload() {
    let key = [7_u8; 32];
    let frame = Frame::with_payload(
        Message::ClipboardText { message_id: Uuid::nil(), sha256: "test".into() },
        b"hello".to_vec(),
    );
    let encrypted = framing::encrypt_frame(&key, &frame, HEADER).expect("应加密");
    let (header, payload) = framing::decrypt_frame(&key, &encrypted).expect("应解密");
    assert_eq!(header, HEADER.to_vec());
    assert_eq!(payload, b"hello");
}

#[test]
fn encrypted_frames_are_longer_by_nonce_and_tag() {
    let key = [7_u8; 32];
    let frame = Frame::with_payload(Message::Ping { nonce: Uuid::nil() }, b"hello".to_vec());
    let plain = frame.encode(HEADER).expect("应编码").len();
    let packet = framing::encrypt_frame(&key, &frame, HEADER).expect("应加密");
    assert_eq!(packet.len(), plain + framing::NETWORK_PACKET_OVERHEAD);
    assert_eq!(packet.len(), 20 + HEADER.len() + 5 + 28);
}

#[test]
fn tampered_lan_frame_is_rejected() {
    let key = [9_u8; 32];
    let frame = Frame::new(Message::ShareRootsRequest { request_id: Uuid::nil() });
    let mut encrypted = framing::encrypt_frame(&key, &frame, b"{}").expect("应加密");
    let last = encrypted.len() - 1;
    encrypted[last] ^= 1;
    assert!(framing::decrypt_frame(&key, &encrypted).is_err());
}

#[test]
fn encryption_hides_the_frame_and_depends_on_key_and_nonce() {
    let key = [9_u8; 32];
    let frame = Frame::with_payload(Message::Ping { nonce: Uuid::nil() }, b"payload".to_vec());
    let id = Uuid::from_u128(0x0102030405060708090a0b0c0d0e0f10);
    let packet = framing::encrypt_frame_with(&key, id, &frame, b"head").expect("packet");
    assert_eq!(&packet[..12], &[1, 2, 3, 4, 5, 6, 7, 8, 9, 10, 11, 12]);
    assert_eq!(packet.len(), 12 + 20 + 4 + 7 + 16);
    assert!(!packet.windows(7).any(|part| part == b"payload"));
    assert_eq!(framing::encrypt_frame_with(&key, id, &frame, b"head").expect("packet"), packet);
    let other = Uuid::from_u128(0x1102030405060708090a0b0c0d0e0f10);
    assert_ne!(framing::encrypt_frame_with(&key, other, &frame, b"head").expect("packet"), packet);
    assert_eq!(
        framing::decrypt_frame(&[8_u8; 32], &packet).expect_err("key").to_string(),
        "协议错误：局域网帧认证失败"
    );
    assert_eq!(
        framing::decrypt_frame(&key, &packet[..27]).expect_err("short").to_string(),
        "协议错误：局域网加密帧不完整"
    );
    assert!(framing::encrypt_frame(&key, &frame, b"").is_err());
}

#[test]
fn pairing_code_is_stable_for_reversed_device_order() {
    let first = Uuid::from_u128(1);
    let second = Uuid::from_u128(2);
    assert_eq!(
        handshake::verification_code(b"handshake", first, second),
        handshake::verification_code(b"handshake", second, first)
    );
    assert_eq!(handshake::verification_code(b"handshake", first, second).len(), 6);
}

#[test]
fn pairing_code_is_taken_from_the_digest() {
    let first = Uuid::from_u128(1);
    let second = Uuid::from_u128(2);
    let mut input = b"handshake".to_vec();
    input.extend_from_slice(&first.as_bytes());
    input.extend_from_slice(&second.as_bytes());
    input.extend_from_slice(b"nearweave-pairing-code-v1");
    let digest = nearweave::digest::hash_bytes(&input);
    let value = u32::from_str_radix(&digest[..8], 16).expect("hex") % 1_000_000;
    assert_eq!(handshake::verification_code(b"handshake", first, second), format!("{value:06}"));
    assert_ne!(
        handshake::verification_code(b"handshake", first, second),
        handshake::verification_code(b"handshakf", first, second)
    );
}

#[test]
fn discovery_identity_rejects_oversized_names_and_bad_fingerprints() {
    assert!(discovery::validate_discovery_identity("设备", &"a".repeat(64)).is_ok());
    assert!(discovery::validate_discovery_identity(&"名".repeat(129), &"a".repeat(64)).is_err());
    assert!(discovery::validate_discovery_identity("设备", "not-a-fingerprint").is_err());
}

#[test]
fn discovery_identity_limits_are_exact() {
    let fingerprint = "0123456789abcdefABCDEF".repeat(2) + &"0".repeat(20);
    assert_eq!(fingerprint.len(), 64);
    assert!(discovery::validate_discovery_identity(&"名".repeat(128), &fingerprint).is_ok());
    assert_eq!(
        discovery::validate_discovery_identity(" \t\u{3000}", &fingerprint)
            .expect_err("blank")
            .to_string(),
        "协议错误：局域网设备名称无效"
    );
    assert_eq!(
        discovery::validate_discovery_identity("设备", &"g".repeat(64))
            .expect_err("digits")
            .to_string(),
        "协议错误：局域网设备身份指纹无效"
    );
}

fn session_pair() -> (handshake::NoiseResult, handshake::NoiseResult) {
    let a = nearweave::identity::create_identity().expect("identity");
    let b = nearweave::identity::create_identity().expect("identity");
    let mut initiator = NoiseHandshake::start(&a.private_key, true).expect("initiator");
    let mut responder = NoiseHandshake::start(&b.private_key, false).expect("responder");
    while initiator.next() != HandshakeTurn::Finished {
        if initiator.next() == HandshakeTurn::Write {
            assert_eq!(responder.next(), HandshakeTurn::Read);
            let message = initiator.write().expect("message");
            responder.read(&message).expect("read");
        } else {
            assert_eq!(responder.next(), HandshakeTurn::Write);
            let message = responder.write().expect("message");
            initiator.read(&message).expect("read");
        }
    }
    assert_eq!(responder.next(), HandshakeTurn::Finished);
    let first = initiator.finish().expect("session");
    let second = responder.finish().expect("session");
    assert_eq!(first.remote_public_key, b.public_key);
    assert_eq!(second.remote_public_key, a.public_key);
    assert_eq!(first.handshake_hash, second.handshake_hash);
    (first, second)
}

#[test]
fn noise_transport_reassembles_large_nearweave_frame() {
    let (mut initiator, mut responder) = session_pair();
    let frame = Frame::with_payload(
        Message::ClipboardText { message_id: Uuid::nil(), sha256: "large".into() },
        vec![5_u8; 200 * 1024],
    );
    let packets = framing::noise_packets(&mut initiator.session, &frame, HEADER).expect("应分片加密");
    assert_eq!(packets.len(), 4);
    let mut assembler = FrameAssembler::new();
    let mut decoded = None;
    for packet in &packets {
        let length = framing::packet_length(&packet[..4], framing::MAX_NOISE_PACKET_SIZE)
            .expect("length");
        assert_eq!(length, packet.len() - 4);
        let chunk = framing::open_noise_payload(&mut responder.session, &packet[4..])
            .expect("应重组解密");
        decoded = assembler.accept(&chunk).expect("应重组解密");
    }
    let (header, payload) = decoded.expect("frame");
    assert_eq!(payload, frame.payload);
    assert_eq!(header, HEADER.to_vec());
}

#[test]
fn a_noise_packet_is_read_once_and_in_order() {
    let (mut initiator, mut responder) = session_pair();
    let first = framing::seal_noise_payload(&mut initiator.session, b"one").expect("packet");
    let second = framing::seal_noise_payload(&mut initiator.session, b"two").expect("packet");
    assert_ne!(first, b"one".to_vec());
    assert_eq!(first.len(), 3 + 16);
    assert!(framing::open_noise_payload(&mut responder.session, &second).is_err());
    assert_eq!(framing::open_noise_payload(&mut responder.session, &first), Ok(b"one".to_vec()));
    assert!(framing::open_noise_payload(&mut responder.session, &first).is_err());
    assert_eq!(framing::open_noise_payload(&mut responder.session, &second), Ok(b"two".to_vec()));
    assert_eq!(
        framing::seal_noise_payload(&mut initiator.session, &vec![0; 65_520])
            .expect_err("long")
            .to_string(),
        "协议错误：Noise 明文分片超过大小限制"
    );
}

#[test]
fn a_handshake_with_a_broken_message_fails() {
    let identity = nearweave::identity::create_identity().expect("identity");
    let mut responder = NoiseHandshake::start(&identity.private_key, false).expect("responder");
    let error = responder.read(b"short").expect_err("broken");
    assert_eq!(error.to_string(), "安全校验失败：Noise 握手消息 1 无效：input error");
    assert_eq!(responder.next(), HandshakeTurn::Read);
}

#[test]
fn outcomes_of_the_noise_calls_are_worded() {
    assert_eq!(
        framing::noise_written(Err("x".into())).expect_err("error").to_string(),
        "安全校验失败：Noise 加密失败：x"
    );
    assert_eq!(
        framing::noise_opened(Err("x".into())).expect_err("error").to_string(),
        "安全校验失败：Noise 数据认证失败：x"
    );
    assert_eq!(
        handshake::require_remote_key(None).expect_err("error").to_string(),
        "安全校验失败：Noise 握手未提供远端静态公钥"
    );
    assert_eq!(handshake::require_remote_key(Some(vec![1])), Ok(vec![1]));
    assert!(framing::check_control_length(&vec![0; 4096]).is_ok());
    assert!(framing::check_control_length(&vec![0; 4097]).is_err());
}

#[test]
fn one_of_two_simultaneous_connections_yields() {
    let low = Uuid::from_u128(3);
    let high = Uuid::from_u128(4);
    assert!(!handshake::yields(true, low, high));
    assert!(!handshake::yields(false, high, low));
    assert!(handshake::yields(true, high, low));
    assert!(handshake::yields(false, low, high));
}

#[test]
fn trust_is_judged_alike_on_both_sides() {
    let says = |status: WireTrustStatus| LanHandshakeMessage::Trust { status };
    let judge = |local: WireTrustStatus, remote: WireTrustStatus| {
        handshake::judge_trust(local, &says(remote)).ok()
    };
    use_all(&judge);
    assert_eq!(
        handshake::judge_trust(
            WireTrustStatus::Trusted,
            &LanHandshakeMessage::Decision { accepted: true },
        )
        .expect_err("error")
        .to_string(),
        "安全校验失败：远端未返回身份信任状态"
    );
}

fn use_all(judge: &dyn Fn(WireTrustStatus, WireTrustStatus) -> Option<TrustStep>) {
    let all = [WireTrustStatus::Trusted, WireTrustStatus::Unknown, WireTrustStatus::IdentityChanged];
    for a in all {
        for b in all {
            assert_eq!(judge(a, b), judge(b, a));
        }
    }
    assert_eq!(judge(all[0], all[0]), Some(TrustStep::Proceed));
    assert_eq!(judge(all[0], all[1]), Some(TrustStep::Pair));
    assert_eq!(judge(all[1], all[1]), Some(TrustStep::Pair));
    assert_eq!(judge(all[2], all[0]), None);
}

#[test]
fn both_users_have_to_accept() {
    let yes = LanHandshakeMessage::Decision { accepted: true };
    let no = LanHandshakeMessage::Decision { accepted: false };
    assert!(handshake::judge_decision(true, &yes).is_ok());
    assert!(handshake::judge_decision(false, &yes).is_err());
    assert!(handshake::judge_decision(true, &no).is_err());
    assert_eq!(
        handshake::judge_decision(
            true,
            &LanHandshakeMessage::Trust { status: WireTrustStatus::Trusted },
        )
        .expect_err("error")
        .to_string(),
        "安全校验失败：设备配对已被拒绝"
    );
}

fn response(request_id: Uuid, tcp_port: u16) -> DiscoveryPacket {
    DiscoveryPacket::Response {
        magic: "nearweave-discovery-v1".into(),
        version: 1,
        request_id,
        device_id: Uuid::from_u128(5),
        device_name: "书房".into(),
        tcp_port,
        fingerprint: "a".repeat(64),
        instance_id: Uuid::from_u128(6),
    }
}

#[test]
fn an_answer_has_to_fit_the_question() {
    let asked = Uuid::from_u128(77);
    let peer = discovery::check_response(response(asked, 4000), asked, "10.0.0.2".into())
        .expect("peer");
    assert_eq!(peer.device_id, Uuid::from_u128(5));
    assert_eq!(peer.endpoint.to_string(), "10.0.0.2:4000");
    assert!(discovery::check_response(response(asked, 0), asked, "h".into()).is_err());
    assert!(discovery::check_response(response(Uuid::nil(), 1), asked, "h".into()).is_err());
    assert_eq!(
        discovery::check_response(discovery::query_packet(asked), asked, "h".into())
            .expect_err("query")
            .to_string(),
        "协议错误：局域网查询响应无效"
    );
    assert!(discovery::query_timeout("10.0.0.9").to_string().contains("未收到 10.0.0.9 的"));
}

#[test]
fn typed_addresses_lead_to_a_target_or_a_question() {
    assert_eq!(discovery::manual_input("  10.0.0.2 ").expect("input"), "10.0.0.2");
    assert_eq!(
        discovery::manual_input(" \n").expect_err("blank").to_string(),
        "输入无效：请输入 IP 地址或 IP:端口"
    );
    let endpoint = nearweave::models::Endpoint { host: "::1".into(), port: 9 };
    let step = discovery::manual_step(ManualAddress::Endpoint(endpoint)).expect("target");
    match step {
        ManualStep::Connect(target) => {
            assert_eq!(target.display_name, "::1");
            assert_eq!(target.lan_endpoint.expect("endpoint").to_string(), "[::1]:9");
            assert!(target.device_id.is_none());
        }
        ManualStep::Query(_) => panic!("target expected"),
    }
    assert!(matches!(
        discovery::manual_step(ManualAddress::Host("10.0.0.2".into())),
        Ok(ManualStep::Query(host)) if host == "10.0.0.2"
    ));
    assert!(discovery::manual_step(ManualAddress::Invalid).is_err());
}

fn interface(name: &str, address: u32, netmask: u32, broadcast: Option<u32>) -> InterfaceAddress {
    InterfaceAddress { name: name.into(), address, netmask, broadcast }
}

#[test]
fn addresses_are_shown_once_and_in_order() {
    let interfaces = vec![
        interface("wlan", 0xc0a8_0105, 0xffff_ff00, None),
        interface("lo", 0x7f00_0001, 0xff00_0000, None),
        interface("eth", 0x0a00_0002, 0xff00_0000, Some(0x0aff_ffff)),
        interface("ll", 0xa9fe_0102, 0xffff_0000, None),
        interface("none", 0, 0, None),
        interface("wlan", 0xc0a8_0105, 0xffff_ff00, None),
    ];
    assert_eq!(
        discovery::local_connection_addresses(&interfaces, 37992),
        vec!["eth · 10.0.0.2:37992".to_string(), "wlan · 192.168.1.5:37992".to_string()]
    );
    assert_eq!(
        discovery::local_broadcast_targets(&interfaces),
        vec![0x0aff_ffff, 0xc0a8_01ff, 0xffff_ffff]
    );
    assert_eq!(discovery::local_broadcast_targets(&Vec::new()), vec![0xffff_ffff]);
    assert_eq!(discovery::to_dotted(0xc0a8_01ff), "192.168.1.255");
}

#[test]
fn faults_of_the_services_are_worded() {
    assert_eq!(
        discovery::discovery_bind_fault("busy"),
        "局域网发现端口 UDP 37991 被占用或不可用：busy"
    );
    assert_eq!(discovery::broadcast_fault("no"), "无法启用局域网广播：no");
    assert_eq!(
        discovery::tcp_bind_fault("a", "b").to_string(),
        "文件操作失败：固定端口 37992 被占用（a），动态端口也无法监听（b）"
    );
}
