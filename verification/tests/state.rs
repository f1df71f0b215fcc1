use nearweave::clipboard::{ClipboardStep, ClipboardSync};
use nearweave::clock::{Duration, Instant};
use nearweave::error::AppError;
use nearweave::handlers::FrameAction;
use nearweave::ids::{PeerItem, Uuid};
use nearweave::models::{
    ActiveLink, ConnectionKind, ConnectionServiceState, Endpoint, NearbyDevice, NoticeLevel,
    ServiceStatus, TransferCancelResult, TransferDirection, TransferState, TransferView,
};
use nearweave::protocol::{Frame, Message, TransferSource};
use nearweave::settings::{settings_or_default, UserSettings};
use nearweave::state::lifecycle::IdentityOutcome;
use nearweave::state::routing::{sent, sent_at_once, sent_to_all, Route};
use nearweave::state::snapshot::TransferFigures;
use nearweave::state::{AppState, AppStateConfig, TrustMatch};
use nearweave::transport::discovery::{DiscoveryPacket, DiscoveryReaction};
use nearweave::transport::establish::{EstablishEvent, EstablishStep, Establishment, Stage};
use nearweave::transport::handshake::{
    LanHandshakeMessage, PairingAnswer, TrustStep, WireTrustStatus,
};
use nearweave::transport::queue::{TransportCommand, TransportQueue};
use nearweave::{commands, digest, transport};

fn at(seconds: u64) -> Instant {
    Instant { nanos: seconds as u128 * 1_000_000_000 }
}

fn test_state() -> AppState {
    AppState::new(AppStateConfig {
        device_id: Uuid::nil(),
        device_name: "test".into(),
        receive_directory: "received".into(),
        legacy_receive_directory: None,
        identity: nearweave::identity::DeviceIdentity {
            private_key: vec![1; 32],
            public_key: vec![2; 32],
        },
        trusted_devices: Vec::new(),
        clipboard_enabled: false,
        autostart_enabled: false,
        lan_enabled: false,
        lan_setup_decided: true,
    })
}

fn connect(state: &mut AppState, peer: Uuid, kind: ConnectionKind) -> Uuid {
    state
        .install_connection(kind, "peer".into(), Some(peer), None, None, at(1))
        .expect("connection")
        .generation
}

/// Sends a frame as the application does: on the first link that takes it.
fn send(
    state: &mut AppState,
    peer: Uuid,
    frame: Frame,
    network: &mut TransportQueue,
    primary: &mut TransportQueue,
) -> Result<(), AppError> {
    let route = state.send_route(peer, &frame.message, at(2))?;
    if let Route::Network(_) = route {
        if network.try_send(TransportCommand::Send(frame.clone())).is_ok() {
            return sent(true);
        }
        state.fallback_route(peer, at(2))?;
    }
    sent(primary.try_send(TransportCommand::Send(frame)).is_ok())
}

#[test]
fn data_prefers_network_while_control_stays_on_bluetooth() {
    let mut state = test_state();
    let peer_device_id = Uuid::new_v4();
    let mut bluetooth = TransportQueue::new(4);
    connect(&mut state, peer_device_id, ConnectionKind::Bluetooth);
    let mut network = TransportQueue::new(4);
    state.install_network_connection(peer_device_id).expect("应安装局域网连接");

    send(
        &mut state,
        peer_device_id,
        Frame::new(Message::ShareRootsRequest { request_id: Uuid::nil() }),
        &mut network,
        &mut bluetooth,
    )
    .expect("数据消息应发送");
    assert!(matches!(network.try_recv(), Some(TransportCommand::Send(_))));
    assert!(bluetooth.try_recv().is_none());

    send(
        &mut state,
        peer_device_id,
        Frame::new(Message::Ping { nonce: Uuid::nil() }),
        &mut network,
        &mut bluetooth,
    )
    .expect("控制消息应发送");
    assert!(matches!(bluetooth.try_recv(), Some(TransportCommand::Send(_))));
    assert!(network.try_recv().is_none());
}

#[test]
fn unavailable_network_queue_falls_back_to_bluetooth() {
    let mut state = test_state();
    let peer_device_id = Uuid::new_v4();
    let mut bluetooth = TransportQueue::new(4);
    connect(&mut state, peer_device_id, ConnectionKind::Bluetooth);
    let mut network = TransportQueue::new(1);
    network.close();
    state.install_network_connection(peer_device_id).expect("应安装局域网连接");
    send(
        &mut state,
        peer_device_id,
        Frame::new(Message::ShareRootsRequest { request_id: Uuid::nil() }),
        &mut network,
        &mut bluetooth,
    )
    .expect("局域网失效时应回退蓝牙");
    assert!(matches!(bluetooth.try_recv(), Some(TransportCommand::Send(_))));
}

fn transfer(id: Uuid, name: &str, state: TransferState, size: u64, detail: &str) -> TransferView {
    TransferView::new(
        id,
        (Uuid::nil(), "测试设备".into()),
        name.into(),
        TransferDirection::Sending,
        state,
        size,
        detail.into(),
        at(1),
    )
}

#[test]
fn removes_only_the_selected_terminal_transfer() {
    let mut state = test_state();
    let completed_id = Uuid::new_v4();
    let failed_id = Uuid::new_v4();
    state.add_transfer(transfer(completed_id, "已完成.txt", TransferState::Completed, 128, "已完成"));
    state.add_transfer(TransferView::new(
        failed_id,
        (Uuid::nil(), "测试设备".into()),
        "失败.txt".into(),
        TransferDirection::Receiving,
        TransferState::Failed,
        256,
        "失败".into(),
        at(1),
    ));
    assert_eq!(state.remove_transfer(completed_id).expect("应能删除指定的终态任务"), "已完成.txt");
    assert_eq!(state.transfers.len(), 1);
    assert_eq!(state.transfers[0].id, failed_id);
}

#[test]
fn refuses_to_delete_an_active_transfer() {
    let mut state = test_state();
    let transfer_id = Uuid::new_v4();
    state.add_transfer(transfer(
        transfer_id,
        "发送中.txt",
        TransferState::Transferring,
        128,
        "正在发送",
    ));
    let error = state
        .remove_transfer(transfer_id)
        .expect_err("进行中任务不能被误当成取消任务删除");
    assert!(error.to_string().contains("完成后才能删除"));
    assert_eq!(state.transfers.len(), 1);
}

#[test]
fn limits_active_and_pending_connections_to_eight_each() {
    let mut state = test_state();
    for index in 0..8_u128 {
        state
            .install_connection(
                ConnectionKind::Lan,
                format!("peer-{index}"),
                Some(Uuid::from_u128(index + 1)),
                None,
                None,
                at(1),
            )
            .expect("前八台设备应允许连接");
        assert!(state.begin_pending_handshake(Uuid::from_u128(index + 100)));
    }
    assert!(state
        .install_connection(
            ConnectionKind::Lan,
            "peer-9".into(),
            Some(Uuid::from_u128(9)),
            None,
            None,
            at(1),
        )
        .is_err());
    assert!(!state.begin_pending_handshake(Uuid::from_u128(999)));
}

/// The quotients that are handed in with a refresh.
fn figures(view: &TransferView, now: Instant) -> (u64, u64) {
    let rate = match view.rate_window(now) {
        Some(window) => (view.bytes_done as f64 / (window.nanos as f64 / 1e9)).round() as u64,
        None => 0,
    };
    let left = view.total_bytes.saturating_sub(view.bytes_done);
    let remaining = if rate > 0 { (left as f64 / rate as f64).ceil() as u64 } else { 0 };
    (rate, remaining)
}

fn refresh(view: &mut TransferView, now: Instant) {
    let (rate, remaining) = figures(view, now);
    view.refresh_metrics(now, rate, remaining);
}

#[test]
fn transfer_metrics_include_rate_elapsed_time_and_eta() {
    let mut transfer = TransferView::new(
        Uuid::nil(),
        (Uuid::nil(), "测试设备".into()),
        "测试文件.bin".into(),
        TransferDirection::Sending,
        TransferState::Transferring,
        10 * 1024 * 1024,
        "正在发送".into(),
        at(100),
    );
    transfer.bytes_done = 4 * 1024 * 1024;
    refresh(&mut transfer, at(102));
    assert_eq!(transfer.bytes_per_second, 2 * 1024 * 1024);
    assert_eq!(transfer.elapsed_millis, 2_000);
    assert_eq!(transfer.estimated_remaining_seconds, Some(3));
}

#[test]
fn completed_transfer_freezes_elapsed_time_and_has_no_eta() {
    let mut transfer = TransferView::new(
        Uuid::nil(),
        (Uuid::nil(), "测试设备".into()),
        "测试文件.bin".into(),
        TransferDirection::Receiving,
        TransferState::Completed,
        1024,
        "已完成".into(),
        at(100),
    );
    transfer.bytes_done = 1024;
    refresh(&mut transfer, at(102));
    refresh(&mut transfer, at(108));
    assert_eq!(transfer.elapsed_millis, 2_000);
    assert_eq!(transfer.bytes_per_second, 512);
    assert_eq!(transfer.estimated_remaining_seconds, None);
}

#[test]
fn missing_settings_enable_clipboard_by_default() {
    let settings = settings_or_default(None);
    assert!(settings.clipboard_enabled);
    assert!(!settings.lan_enabled);
    assert!(!settings.lan_setup_decided);
    assert_eq!(UserSettings::default(), settings);
}

#[test]
fn invalid_settings_fall_back_to_default_enabled() {
    let parsed: Option<serde_json::Value> = serde_json::from_slice(b"not-json").ok();
    let stored = parsed.map(|_| UserSettings {
        clipboard_enabled: false,
        lan_enabled: true,
        lan_setup_decided: true,
    });
    let settings = settings_or_default(stored);
    assert!(settings.clipboard_enabled);
    assert!(!settings.lan_enabled);
    assert!(!settings.lan_setup_decided);
}

#[test]
fn stored_settings_are_kept() {
    let stored =
        UserSettings { clipboard_enabled: false, lan_enabled: true, lan_setup_decided: true };
    assert_eq!(settings_or_default(Some(stored)), stored);
    assert!(commands::initial_lan(&stored, true));
    assert!(!commands::initial_lan(&stored, false));
}

#[test]
fn a_device_is_connected_once() {
    let mut state = test_state();
    let peer = Uuid::from_u128(5);
    let first = connect(&mut state, peer, ConnectionKind::Lan);
    let installed = state
        .install_connection(ConnectionKind::Lan, "again".into(), Some(peer), None, None, at(2))
        .expect("connection");
    assert_eq!(installed.replaced, Some(first));
    assert_eq!(state.connections.len(), 1);
    let unknown = state
        .install_connection(ConnectionKind::Bluetooth, "bt".into(), None, None, None, at(3))
        .expect("connection")
        .generation;
    assert_eq!(
        state.update_peer_identity(unknown, peer, "x".into(), Vec::new()),
        IdentityOutcome::Duplicate
    );
    assert_eq!(state.connections.len(), 1);
    assert_eq!(
        state.update_peer_identity(unknown, peer, "x".into(), Vec::new()),
        IdentityOutcome::Missing
    );
}

#[test]
fn sends_come_to_what_the_last_link_says() {
    assert_eq!(sent(false), Err(AppError::NotConnected));
    assert_eq!(
        sent_at_once(false).expect_err("busy").to_string(),
        "协议错误：发送队列繁忙，请稍后重试"
    );
    assert_eq!(sent_to_all(0, 0), Err(AppError::NotConnected));
    assert!(sent_to_all(2, 0).is_err());
    assert!(sent_to_all(2, 1).is_ok());
}

fn hello(protocol_version: u16, device_id: Uuid) -> Frame {
    Frame::new(Message::Hello {
        protocol_version,
        device_id,
        device_name: "书房".into(),
        capabilities: vec!["lazy_directory_browse_v1".into()],
        network_offer: None,
    })
}

#[test]
fn frames_lead_to_their_actions() {
    let mut state = test_state();
    let peer = Uuid::from_u128(5);
    let generation = state
        .install_connection(ConnectionKind::Bluetooth, "bt".into(), None, None, None, at(1))
        .expect("connection")
        .generation;
    let chunk = || {
        Frame::with_payload(Message::FileChunk { transfer_id: Uuid::nil(), offset: 7 }, vec![1])
    };
    assert_eq!(
        state.handle_frame(generation, chunk(), at(2)).expect_err("unknown"),
        AppError::NotConnected
    );
    assert_eq!(
        state.handle_frame(generation, hello(2, peer), at(2)).expect_err("version").to_string(),
        "协议错误：对方协议版本 2 与本机不兼容"
    );
    match state.handle_frame(generation, hello(1, peer), at(3)).expect("hello") {
        FrameAction::Greeted(greeting) => {
            assert_eq!(greeting.device_id, peer);
            assert!(greeting.send_roots);
            assert!(!greeting.announce_link);
            assert_eq!(greeting.notice.message, "已连接 书房");
        }
        _ => panic!("greeting expected"),
    }
    assert!(matches!(
        state.handle_frame(generation, chunk(), at(4)),
        Ok(FrameAction::ReceiveChunk { device_id, offset: 7, payload, .. })
            if device_id == peer && payload == vec![1]
    ));
    assert!(matches!(
        state.handle_frame(
            generation,
            Frame::new(Message::Ping { nonce: Uuid::from_u128(8) }),
            at(5)
        ),
        Ok(FrameAction::Reply(Frame { message: Message::Pong { nonce }, .. }))
            if nonce == Uuid::from_u128(8)
    ));
    assert!(matches!(
        state.handle_frame(generation, Frame::new(Message::Pong { nonce: peer }), at(6)),
        Ok(FrameAction::Nothing)
    ));
    assert_eq!(state.pong_elapsed(generation, at(9)).expect("pong"), Duration::from_secs(3));
    assert_eq!(
        state
            .handle_frame(
                generation,
                Frame::new(Message::NetworkHello {
                    device_id: peer,
                    session_id: peer,
                    connection_id: peer,
                }),
                at(7),
            )
            .expect_err("hello")
            .to_string(),
        "协议错误：局域网握手消息不能出现在业务消息流中"
    );
    let offer = Frame::new(Message::FileOffer {
        transfer_id: Uuid::from_u128(1),
        name: "a".into(),
        size: 3,
        source: TransferSource::Direct,
    });
    assert!(matches!(
        state.handle_frame(generation, offer, at(8)),
        Ok(FrameAction::ReceiveFile { size: 3, .. })
    ));
    assert!(matches!(
        state.handle_frame(generation, Frame::new(Message::Disconnect { reason: "再见".into() }), at(9)),
        Ok(FrameAction::Close { reason }) if reason == "对方主动断开连接：再见"
    ));
    assert!(matches!(
        state.handle_frame(generation, Frame::new(Message::Disconnect { reason: String::new() }), at(9)),
        Ok(FrameAction::Close { reason }) if reason == "对方主动断开连接"
    ));
}

#[test]
fn acknowledgements_end_transfers() {
    let mut state = test_state();
    let peer = Uuid::from_u128(5);
    let generation = connect(&mut state, peer, ConnectionKind::Lan);
    let id = Uuid::from_u128(70);
    state.add_transfer(transfer(id, "a", TransferState::WaitingForPeer, 3, "等待"));
    state.begin_transfer_ack(peer, id);
    let ack = |accepted: bool| {
        Frame::new(Message::TransferAck { transfer_id: id, accepted, detail: "好".into() })
    };
    let key = PeerItem { peer, item: id };
    assert!(matches!(
        state.handle_frame(generation, ack(true), at(2)),
        Ok(FrameAction::Acknowledged { key: k, waited: true, accepted: true, .. }) if k == key
    ));
    assert_eq!(state.transfers[0].state, TransferState::Completed);
    assert!(matches!(
        state.handle_frame(generation, ack(false), at(3)),
        Ok(FrameAction::Acknowledged { waited: false, .. })
    ));
    let answer = Frame::new(Message::TransferCancelAck {
        transfer_id: id,
        result: TransferCancelResult::NotFound,
        detail: "无".into(),
    });
    assert!(matches!(
        state.handle_frame(generation, answer, at(4)),
        Ok(FrameAction::CancelAnswered { waited: false, .. })
    ));
    let report = Frame::new(Message::Error { request_id: Some(id), message: "坏".into() });
    assert!(matches!(
        state.handle_frame(generation, report, at(5)),
        Ok(FrameAction::Reported { waiting: None, notice }) if notice.level == NoticeLevel::Error
    ));
}

#[test]
fn remote_clipboard_text_is_checked() {
    let mut state = test_state();
    let peer = Uuid::from_u128(5);
    let generation = connect(&mut state, peer, ConnectionKind::Lan);
    let frame = |payload: Vec<u8>, sha256: String| {
        Frame::with_payload(Message::ClipboardText { message_id: Uuid::nil(), sha256 }, payload)
    };
    let good = || frame("你好".as_bytes().to_vec(), digest::hash_bytes("你好".as_bytes()));
    assert!(matches!(state.handle_frame(generation, good(), at(1)), Ok(FrameAction::Nothing)));
    state.set_clipboard_enabled(true);
    assert!(matches!(
        state.handle_frame(generation, good(), at(1)),
        Ok(FrameAction::ApplyClipboard { text, .. }) if text == "你好"
    ));
    let fault = |state: &mut AppState, f: Frame| {
        state.handle_frame(generation, f, at(1)).expect_err("fault").to_string()
    };
    assert!(fault(&mut state, frame(b"x".to_vec(), "00".into())).contains("校验失败"));
    let bad = vec![0xff_u8, 0xfe];
    let sha = digest::hash_bytes(&bad);
    assert!(fault(&mut state, frame(bad, sha)).contains("UTF-8"));
    let long = vec![b'a'; 512 * 1024 + 1];
    assert!(fault(&mut state, frame(long, String::new())).contains("超过大小限制"));
}

#[test]
fn clipboard_text_does_not_go_round_in_circles() {
    let mut sync = ClipboardSync::new();
    let text = b"hello".to_vec();
    let sha256 = digest::hash_bytes(&text);
    assert!(matches!(sync.local_changed(false, text.clone()), ClipboardStep::Nothing));
    assert!(matches!(
        sync.local_changed(true, text.clone()),
        ClipboardStep::Offer(frame) if frame.payload == text
    ));
    sync.offered(sha256.clone(), true);
    assert!(matches!(sync.local_changed(true, text.clone()), ClipboardStep::Nothing));
    assert!(matches!(sync.peer_joined(true, text.clone()), ClipboardStep::Offer(_)));
    let other = b"other".to_vec();
    assert!(sync.remote_applied(digest::hash_bytes(&other), &Ok(())).is_none());
    assert!(matches!(sync.local_changed(true, other), ClipboardStep::Nothing));
    assert!(matches!(sync.local_changed(true, text), ClipboardStep::Offer(_)));
    assert_eq!(
        sync.remote_applied(sha256, &Err("占用".into())).expect("notice").message,
        "写入剪贴板失败：占用"
    );
    let long = vec![b'a'; 512 * 1024 + 1];
    assert!(matches!(sync.local_changed(true, long.clone()), ClipboardStep::Skipped(_)));
    assert!(matches!(sync.local_changed(true, long.clone()), ClipboardStep::Nothing));
    assert!(matches!(sync.peer_joined(true, long), ClipboardStep::Skipped(_)));
}

fn establishment(initiator: bool) -> Establishment {
    Establishment {
        initiator,
        expected: None,
        handshake_hash: b"hash".to_vec(),
        remote_public_key: vec![3; 32],
    }
}

fn lan_hello(device_id: Uuid) -> EstablishEvent {
    EstablishEvent::Message(LanHandshakeMessage::Hello {
        device_id,
        device_name: "书房".into(),
        tcp_port: 4000,
    })
}

#[test]
fn strangers_are_paired_by_both_users() {
    let mut state = test_state();
    let peer = Uuid::from_u128(5);
    let e = establishment(true);
    assert_eq!(
        state.begin_establishment().expect_err("no service").to_string(),
        "协议错误：本机局域网接收服务不可用"
    );
    let step = state.establish(&e, Stage::Hello, lan_hello(peer)).expect("step");
    let stage = match step {
        EstablishStep::Exchange(stage, LanHandshakeMessage::Trust { status }) => {
            assert_eq!(status, WireTrustStatus::Unknown);
            stage
        }
        _ => panic!("exchange expected"),
    };
    let unknown = EstablishEvent::Message(LanHandshakeMessage::Trust {
        status: WireTrustStatus::Unknown,
    });
    let step = state.establish(&e, stage, unknown).expect("step");
    let (stage, request) = match step {
        EstablishStep::AskUser(stage, request) => (stage, request),
        _ => panic!("question expected"),
    };
    assert_eq!(state.pending_pairings.len(), 1);
    let code = transport::handshake::verification_code(b"hash", Uuid::nil(), peer);
    assert_eq!(state.pending_pairings.get(&request).expect("request").verification_code, code);
    let answer = EstablishEvent::Answer(PairingAnswer::Answered(true));
    let step = state.establish(&e, stage, answer).expect("step");
    let stage = match step {
        EstablishStep::Exchange(stage, LanHandshakeMessage::Decision { accepted: true }) => stage,
        _ => panic!("exchange expected"),
    };
    assert_eq!(state.pending_pairings.len(), 0);
    let yes = EstablishEvent::Message(LanHandshakeMessage::Decision { accepted: true });
    let peer_hello = match state.establish(&e, stage, yes).expect("step") {
        EstablishStep::Established(peer_hello, TrustStep::Pair) => peer_hello,
        _ => panic!("end expected"),
    };
    let updated = state
        .trust_after_handshake(TrustStep::Pair, &peer_hello, vec![3; 32], 10)
        .expect("list");
    state.pairing_kept(peer, updated);
    assert_eq!(state.trust_match(peer, &[3; 32]), TrustMatch::Trusted);
    assert_eq!(state.trust_match(peer, &[4; 32]), TrustMatch::IdentityChanged);
    assert_eq!(state.trust_match(Uuid::from_u128(6), &[3; 32]), TrustMatch::Unknown);
    let attached = state
        .attach_primary_lan(peer_hello, "fp", None, "10.0.0.2".into(), at(1))
        .expect("connection");
    assert_eq!(attached.notice.message, "已通过纯局域网连接 书房");
    let (updated, name) = state.withdraw_trust(peer).expect("trusted");
    assert_eq!(name, "书房");
    let (closing, notice) = state.trust_withdrawn(peer, updated, &name);
    assert_eq!(closing.primary, Some(attached.installed.generation));
    assert_eq!(notice.message, "已移除对 书房 的信任");
    assert_eq!(state.trust_match(peer, &[3; 32]), TrustMatch::Unknown);
    assert_eq!(state.withdraw_trust(peer).expect_err("unknown"), "未找到该信任设备");
}

#[test]
fn trusted_devices_are_let_in_unasked() {
    let mut state = test_state();
    let peer = Uuid::from_u128(5);
    let known = transport::handshake::PeerHello {
        device_id: peer,
        name: "书房".into(),
        tcp_port: 4000,
    };
    let updated = state
        .trust_after_handshake(TrustStep::Pair, &known, vec![3; 32], 10)
        .expect("list");
    state.pairing_kept(peer, updated);
    let e = Establishment { expected: Some(peer), ..establishment(true) };
    let trusted = || EstablishEvent::Message(LanHandshakeMessage::Trust {
        status: WireTrustStatus::Trusted,
    });
    let step = state.establish(&e, Stage::Hello, lan_hello(peer)).expect("step");
    let stage = match step {
        EstablishStep::Exchange(stage, LanHandshakeMessage::Trust { status }) => {
            assert_eq!(status, WireTrustStatus::Trusted);
            stage
        }
        _ => panic!("exchange expected"),
    };
    assert!(matches!(
        state.establish(&e, stage, trusted()),
        Ok(EstablishStep::Established(hello, TrustStep::Proceed)) if hello.device_id == peer
    ));
    let other_key = Establishment { remote_public_key: vec![4; 32], ..establishment(true) };
    let step = state.establish(&other_key, Stage::Hello, lan_hello(peer)).expect("step");
    let stage = match step {
        EstablishStep::Exchange(stage, LanHandshakeMessage::Trust { status }) => {
            assert_eq!(status, WireTrustStatus::IdentityChanged);
            stage
        }
        _ => panic!("exchange expected"),
    };
    assert!(state
        .establish(&other_key, stage, trusted())
        .expect_err("changed")
        .to_string()
        .contains("设备身份已变化"));
}

#[test]
fn handshakes_fail_for_cause() {
    let mut state = test_state();
    let e = establishment(true);
    let mut fault = |stage: Stage, event: EstablishEvent| {
        state.establish(&e, stage, event).expect_err("fault").to_string()
    };
    assert!(fault(Stage::Hello, lan_hello(Uuid::nil())).contains("拒绝连接到本机设备身份"));
    let nameless = EstablishEvent::Message(LanHandshakeMessage::Hello {
        device_id: Uuid::from_u128(5),
        device_name: " ".into(),
        tcp_port: 1,
    });
    assert!(fault(Stage::Hello, nameless).contains("远端设备身份信息无效"));
    let peer = || transport::handshake::PeerHello {
        device_id: Uuid::from_u128(5),
        name: "书房".into(),
        tcp_port: 1,
    };
    let changed = EstablishEvent::Message(LanHandshakeMessage::Trust {
        status: WireTrustStatus::IdentityChanged,
    });
    assert!(fault(Stage::Trust(peer(), WireTrustStatus::Trusted), changed).contains("设备身份已变化"));
    let late = EstablishEvent::Answer(PairingAnswer::TimedOut);
    assert!(fault(Stage::Pairing(peer(), Uuid::nil()), late).contains("设备配对确认超时"));
    let no = EstablishEvent::Message(LanHandshakeMessage::Decision { accepted: false });
    assert!(fault(Stage::Deciding(peer(), true), no).contains("设备配对已被拒绝"));
    let other = Establishment { expected: Some(Uuid::from_u128(6)), ..establishment(true) };
    assert!(state
        .establish(&other, Stage::Hello, lan_hello(Uuid::from_u128(5)))
        .expect_err("other")
        .to_string()
        .contains("身份与握手身份不一致"));
    let responder = establishment(false);
    let step = state
        .establish(&responder, Stage::Hello, lan_hello(Uuid::from_u128(5)))
        .expect("step");
    let stage = match step {
        EstablishStep::Wait(stage) => stage,
        _ => panic!("wait expected"),
    };
    connect(&mut state, Uuid::from_u128(5), ConnectionKind::Lan);
    assert!(state
        .establish(&responder, stage, EstablishEvent::Waited)
        .expect_err("kept")
        .to_string()
        .contains("已保留双方同时发起的另一条连接"));
}

fn seen_by_bluetooth(endpoint: &str, id: Option<u128>) -> NearbyDevice {
    transport::bluetooth::scanned_device(
        endpoint.into(),
        "名".into(),
        id.map(|value| transport::bluetooth::LiveService {
            name: None,
            device_id: Some(Uuid::from_u128(value)),
        }),
    )
}

#[test]
fn both_sights_of_a_device_make_one_entry() {
    let mut state = test_state();
    let peer = Uuid::from_u128(5);
    let endpoint = || Endpoint { host: "10.0.0.2".into(), port: 4000 };
    state.upsert_lan_device(peer, "书房".into(), endpoint(), "fp", at(1));
    state.replace_bluetooth_devices(vec![seen_by_bluetooth("bt", Some(5)), seen_by_bluetooth("x", None)]);
    assert_eq!(state.devices.len(), 2);
    let merged = state.find_device(&peer.to_string()).expect("device");
    assert!(merged.lan_endpoint.is_some());
    assert_eq!(merged.bluetooth_endpoint, Some("bt".to_string()));
    state.associate_bluetooth_identity("x", peer, "书房");
    assert_eq!(state.devices.len(), 1);
    assert!(state.expire_lan_devices(Duration::from_secs(7), at(9)));
    assert_eq!(state.devices.len(), 1);
    assert!(state.devices[0].lan_endpoint.is_none());
    assert!(!state.expire_lan_devices(Duration::from_secs(7), at(20)));
}

#[test]
fn discovery_answers_and_takes_notice() {
    let mut state = test_state();
    let query = || transport::discovery::query_packet(Uuid::from_u128(3));
    assert!(matches!(
        state.accept_discovery(query(), "h".into(), at(1)),
        DiscoveryReaction::Nothing
    ));
    state.install_network_runtime(transport::links::new_network_runtime(4000, true), None, Vec::new());
    match state.accept_discovery(query(), "h".into(), at(1)) {
        DiscoveryReaction::Respond(DiscoveryPacket::Response { request_id, tcp_port, fingerprint, .. }) => {
            assert_eq!(request_id, Uuid::from_u128(3));
            assert_eq!(tcp_port, 4000);
            assert_eq!(fingerprint, state.identity.fingerprint());
        }
        _ => panic!("answer expected"),
    }
    let announcement = |id: u128, version: u16| DiscoveryPacket::Announcement {
        magic: "nearweave-discovery-v1".into(),
        version,
        device_id: Uuid::from_u128(id),
        device_name: "书房".into(),
        tcp_port: 4001,
        fingerprint: "a".repeat(64),
        instance_id: Uuid::nil(),
    };
    assert!(matches!(
        state.accept_discovery(announcement(0, 1), "h".into(), at(1)),
        DiscoveryReaction::Nothing
    ));
    assert!(matches!(
        state.accept_discovery(announcement(5, 2), "h".into(), at(1)),
        DiscoveryReaction::Nothing
    ));
    assert!(matches!(
        state.accept_discovery(announcement(5, 1), "h".into(), at(1)),
        DiscoveryReaction::Seen
    ));
    assert_eq!(state.devices.len(), 1);
    assert_eq!(state.discovery_retried(Ok(())), Ok(false));
    state.discovery_failed("断", true);
    assert!(!state.network_runtime().expect("runtime").discovery_available());
    assert!(state.discovery_retried(Err("忙".into())).is_err());
    assert_eq!(state.discovery_retried(Ok(())), Ok(true));
    assert!(state.discovery_error.is_none());
}

#[test]
fn snapshot_shows_the_state() {
    let mut state = test_state();
    let peer = Uuid::from_u128(5);
    connect(&mut state, peer, ConnectionKind::Bluetooth);
    state.install_network_connection(peer).expect("link");
    let mut view = transfer(Uuid::from_u128(7), "a", TransferState::Transferring, 100, "正在发送");
    view.bytes_done = 50;
    state.add_transfer(view);
    let (rate, remaining) = figures(&state.transfers[0], at(6));
    let shown = state.snapshot("windows".into(), at(6), &vec![TransferFigures { rate, remaining }]);
    assert_eq!(shown.platform, "windows");
    assert!(shown.connected);
    assert!(shown.network_connected);
    assert_eq!(shown.active_link, ActiveLink::Network);
    assert_eq!(shown.peer_name, Some("peer".to_string()));
    assert_eq!(shown.connections.len(), 1);
    assert_eq!(shown.transfers[0].bytes_per_second, 10);
    assert_eq!(shown.transfers[0].estimated_remaining_seconds, Some(5));
    assert!(!shown.lan_setup_required);
    assert_eq!(shown.listener_status.discovery, ServiceStatus::Off);
    assert_eq!(shown.connection_service_state, ConnectionServiceState::Stopped);
    let mut empty = test_state();
    let shown = empty.snapshot("x".into(), at(1), &Vec::new());
    assert_eq!(shown.active_link, ActiveLink::Offline);
    assert!(shown.pairing_request.is_none());
}

#[test]
fn user_requests_are_guarded() {
    let mut state = test_state();
    let peer = Uuid::from_u128(5);
    assert_eq!(state.check_send(peer, 1).expect_err("peer"), "目标设备尚未连接");
    let generation = connect(&mut state, peer, ConnectionKind::Lan);
    assert_eq!(state.check_send(peer, 0).expect_err("none"), "至少选择一个文件");
    assert!(state.check_send(peer, 1).is_ok());
    assert_eq!(state.check_lan().expect_err("lan"), "请先在设置中启用局域网传输");
    assert!(state.refresh_remote_shares(peer).expect_err("old").contains("请升级 NearWeave"));
    state.update_peer_identity(generation, peer, "p".into(), vec!["lazy_directory_browse_v1".into()]);
    assert!(state.refresh_remote_shares(peer).is_ok());
    assert_eq!(state.share_audience(), vec![peer]);
    let share = Uuid::from_u128(30);
    assert!(state.request_shared_file(peer, share, "a".into()).is_err());
    let root = nearweave::models::SharedRoot { id: share, name: "文档".into() };
    state.accept_share_roots(peer, Uuid::from_u128(1), vec![root]).expect("roots");
    assert!(state.request_shared_file(peer, share, "a".into()).is_ok());
    assert!(state.device_to_connect("nothing").expect_err("gone").contains("重新扫描"));
    state.replace_bluetooth_devices(vec![seen_by_bluetooth("bt", None)]);
    assert!(state.device_to_connect("bluetooth:bt").expect_err("off").contains("启用局域网传输"));
    state.replace_bluetooth_devices(vec![seen_by_bluetooth("bt", Some(9))]);
    assert!(state.device_to_connect(&Uuid::from_u128(9).to_string()).is_ok());
    let farewell = state.begin_disconnect(peer).expect("farewell");
    assert!(matches!(farewell.message, Message::Disconnect { .. }));
    let (closing, discard) = state.finish_disconnect(peer, at(3));
    assert_eq!(closing.primary, Some(generation));
    assert!(discard.is_empty());
    assert!(state.begin_disconnect(peer).is_none());
    state.listening = false;
    assert_eq!(state.check_service().expect_err("off"), "连接服务已停止");
}

#[test]
fn shared_directories_are_limited_and_distinct() {
    let mut state = test_state();
    let id = state.add_shared_directory("/a/b".into(), Some("b".into())).expect("share");
    assert_eq!(state.local_shares[0].name, "b");
    assert_eq!(
        state.add_shared_directory("/a/b".into(), None).expect_err("twice"),
        "该目录已经共享"
    );
    state.add_shared_directory("/".into(), None).expect("share");
    assert_eq!(state.local_shares[1].name, "/");
    for index in 0..62 {
        state.add_shared_directory(format!("/d{index}"), None).expect("share");
    }
    assert_eq!(
        state.add_shared_directory("/x".into(), None).expect_err("full"),
        "最多同时共享 64 个目录"
    );
    assert!(state.remove_shared_directory(id).is_ok());
    assert_eq!(state.remove_shared_directory(id).expect_err("gone"), "共享目录不存在");
    assert_eq!(state.local_shares.len(), 63);
}

#[test]
fn notices_and_defaults_are_worded() {
    assert_eq!(commands::clipboard_notice(true).message, "文本剪贴板同步已开启");
    assert_eq!(commands::autostart_notice(false).message, "已关闭开机自启动");
    assert_eq!(commands::history_notice(3).message, "已清理 3 条传输记录");
    assert_eq!(commands::history_notice(0).level, NoticeLevel::Info);
    assert_eq!(commands::removal_notice("a").message, "已删除传输记录：a");
    assert_eq!(commands::device_name_or_default(None), "此电脑");
    assert_eq!(commands::device_name_or_default(Some("PC".into())), "PC");
    let id = Uuid::from_u128(99);
    assert_eq!(commands::stored_device_id(&format!(" {}\n", id.to_string())), Some(id));
    assert_eq!(commands::stored_device_id("x"), None);
}

#[test]
fn history_is_cleared_of_what_has_ended() {
    let mut state = test_state();
    state.add_transfer(transfer(Uuid::from_u128(1), "a", TransferState::Completed, 1, ""));
    state.add_transfer(transfer(Uuid::from_u128(2), "b", TransferState::Transferring, 1, ""));
    state.add_transfer(transfer(Uuid::from_u128(3), "c", TransferState::Canceled, 1, ""));
    assert_eq!(state.clear_transfer_history(), 2);
    assert_eq!(state.transfers.len(), 1);
    for id in 10..200_u128 {
        state.add_transfer(transfer(Uuid::from_u128(id), "x", TransferState::Failed, 1, ""));
    }
    assert_eq!(state.transfers.len(), 100);
    assert_eq!(state.transfers[0].id, Uuid::from_u128(199));
}

#[test]
fn a_transfer_that_ends_has_no_estimate_at_once() {
    let mut state = test_state();
    let id = Uuid::from_u128(3);
    let mut view = transfer(id, "a", TransferState::Transferring, 100, "正在发送");
    view.bytes_done = 50;
    view.bytes_per_second = 10;
    view.estimated_remaining_seconds = Some(5);
    state.add_transfer(view);
    state.update_transfer(id, None, None, Some("x".into()), at(20));
    assert_eq!(state.transfers[0].estimated_remaining_seconds, Some(5));
    state.update_transfer(id, None, Some(TransferState::Failed), None, at(21));
    assert_eq!(state.transfers[0].estimated_remaining_seconds, None);
    assert_eq!(state.transfers[0].bytes_per_second, 10);
    state.update_transfer(id, Some(0), None, None, at(22));
    assert_eq!(state.transfers[0].bytes_per_second, 0);
    state.update_transfer(id, Some(40), Some(TransferState::Transferring), None, at(21));
    let (rate, remaining) = figures(&state.transfers[0], at(21));
    state.refresh_transfer(id, at(21), rate, remaining);
    assert_eq!(state.transfers[0].bytes_per_second, 2);
    assert_eq!(state.transfers[0].estimated_remaining_seconds, Some(30));
}

#[test]
fn disconnecting_a_device_leaves_the_rest() {
    let mut state = test_state();
    let (near, far) = (Uuid::from_u128(1), Uuid::from_u128(2));
    connect(&mut state, near, ConnectionKind::Bluetooth);
    connect(&mut state, far, ConnectionKind::Lan);
    let (closing, discard) = state.finish_disconnect(near, at(3));
    assert!(closing.primary.is_some() && discard.is_empty());
    assert_eq!(state.connected_peer_ids(), vec![far]);
    assert!(!state.lan_enabled && state.trusted_devices.is_empty() && state.listening);
}
