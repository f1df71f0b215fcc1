use nearweave::clock::{Duration, Instant};
use nearweave::error::AppError;
use nearweave::ids::Uuid;
use nearweave::models::{ConnectionKind, Endpoint, NearbyDevice, TransferDirection, TransferState, TransferView};
use nearweave::protocol::{Frame, Message};
use nearweave::state::{AppState, AppStateConfig, ReconnectTarget};
use nearweave::transport::bluetooth;
use nearweave::transport::bluetooth::{BluetoothError, Heartbeat, LiveService};
use nearweave::transport::connecting;
use nearweave::transport::connecting::ConnectStep;
use nearweave::transport::links;
use nearweave::transport::links::Attached;
use nearweave::transport::queue::{Offered, TransportCommand, TransportQueue};
use nearweave::transport::service;
use nearweave::transport::service::{Farewell, NetworkRetry};

fn at(seconds: u64) -> Instant {
    Instant { nanos: seconds as u128 * 1_000_000_000 }
}

fn state(lan_enabled: bool) -> AppState {
    AppState::new(AppStateConfig {
        device_id: Uuid::from_u128(1),
        device_name: "test".into(),
        receive_directory: "received".into(),
        legacy_receive_directory: None,
        identity: nearweave::identity::DeviceIdentity {
            private_key: vec![1; 32],
            public_key: vec![2; 32],
        },
        trusted_devices: Vec::new(),
        clipboard_enabled: false,
        autostart_enabled: false,
        lan_enabled,
        lan_setup_decided: true,
    })
}

fn target(lan: bool, bluetooth: bool) -> ReconnectTarget {
    ReconnectTarget {
        device_id: Some(Uuid::from_u128(9)),
        display_name: "书房".into(),
        lan_endpoint: if lan { Some(Endpoint { host: "10.0.0.2".into(), port: 1 }) } else { None },
        bluetooth_endpoint: if bluetooth { Some("bt".into()) } else { None },
    }
}

#[test]
fn reconnect_delay_increases_and_caps_at_thirty_seconds() {
    let seconds = (0..7)
        .map(|attempt| connecting::reconnect_delay(attempt).as_secs())
        .collect::<Vec<_>>();
    assert_eq!(seconds, vec![1, 2, 5, 10, 30, 30, 30]);
}

#[test]
fn heartbeat_timeout_starts_at_ninety_seconds() {
    assert!(!bluetooth::heartbeat_timed_out(Duration::from_secs(89)));
    assert!(bluetooth::heartbeat_timed_out(Duration::from_secs(90)));
}

#[test]
fn bluetooth_service_errors_have_actionable_messages() {
    assert_eq!(
        bluetooth::bluetooth_error_text(BluetoothError::DeviceNotConnected),
        "对方设备当前不可达"
    );
    assert_eq!(
        bluetooth::bluetooth_error_text(BluetoothError::ConsentRequired),
        "Windows 尚未授权访问该蓝牙服务"
    );
}

fn chunk(byte: u8) -> TransportCommand {
    TransportCommand::Send(Frame::with_payload(
        Message::FileChunk { transfer_id: Uuid::nil(), offset: 0 },
        vec![byte],
    ))
}

fn cancel() -> TransportCommand {
    TransportCommand::Send(Frame::new(Message::TransferCancel {
        transfer_id: Uuid::nil(),
        reason: "测试".into(),
    }))
}

#[test]
fn control_messages_jump_ahead_of_bulk_frames() {
    let mut queue = TransportQueue::new(1);
    queue.try_send(chunk(1)).expect("应加入普通队列");
    queue.try_send(cancel()).expect("应加入控制队列");
    assert!(matches!(
        queue.try_recv(),
        Some(TransportCommand::Send(Frame { message: Message::TransferCancel { .. }, .. }))
    ));
}

#[test]
fn each_lane_of_a_queue_keeps_its_order_and_its_limit() {
    let mut queue = TransportQueue::new(2);
    assert!(queue.try_send(chunk(1)).is_ok());
    assert!(queue.try_send(chunk(2)).is_ok());
    assert!(matches!(queue.offer(chunk(3)), Offered::Full(_)));
    for _ in 0..16 {
        assert!(queue.try_send(TransportCommand::Close { reason: None }).is_ok());
    }
    assert!(queue.try_send(cancel()).is_err());
    for _ in 0..16 {
        assert!(matches!(queue.try_recv(), Some(TransportCommand::Close { .. })));
    }
    for expected in 1..3_u8 {
        match queue.try_recv() {
            Some(TransportCommand::Send(frame)) => assert_eq!(frame.payload, vec![expected]),
            _ => panic!("chunk expected"),
        }
    }
    assert!(queue.try_recv().is_none());
    queue.close();
    assert!(matches!(queue.offer(chunk(4)), Offered::Closed(_)));
}

#[test]
fn every_lookup_error_has_words() {
    let words = |e: BluetoothError| bluetooth::bluetooth_error_text(e);
    assert_eq!(words(BluetoothError::RadioNotAvailable), "蓝牙适配器不可用");
    assert_eq!(words(BluetoothError::ResourceInUse), "蓝牙资源正在被占用");
    assert_eq!(words(BluetoothError::DisabledByPolicy), "蓝牙被系统策略禁用");
    assert_eq!(words(BluetoothError::NotSupported), "当前蓝牙适配器不支持该操作");
    assert_eq!(words(BluetoothError::DisabledByUser), "蓝牙已被用户关闭");
    assert_eq!(words(BluetoothError::TransportNotSupported), "对方不支持 RFCOMM 传输");
    assert_eq!(words(BluetoothError::Success), "成功");
    assert_eq!(words(BluetoothError::OtherError), "未知蓝牙错误");
    assert!(bluetooth::check_lookup(BluetoothError::Success, 1).is_ok());
    assert_eq!(
        bluetooth::check_lookup(BluetoothError::DisabledByUser, 1).expect_err("off").to_string(),
        "蓝牙操作失败：实时查询 NearWeave 服务失败：蓝牙已被用户关闭"
    );
    assert!(bluetooth::check_lookup(BluetoothError::Success, 0).is_err());
}

#[test]
fn device_id_survives_the_service_record() {
    let id = Uuid::from_u128(0x0123456789abcdef_fedcba9876543210);
    let record = bluetooth::encode_device_id(id);
    assert_eq!(record.len(), 17);
    assert_eq!(record[0], 0x1c);
    assert_eq!(record[1], 0x01);
    assert_eq!(bluetooth::decode_device_id(&record), Some(id));
    assert_eq!(bluetooth::decode_device_id(&record[..16]), None);
    let mut other = record.clone();
    other[0] = 0x09;
    assert_eq!(bluetooth::decode_device_id(&other), None);
    assert_eq!(bluetooth::encode_protocol_version(), vec![0x09, 0, 1]);
}

#[test]
fn scanned_devices_are_sorted_and_not_repeated() {
    let live = |name: &str, id: u128| Some(LiveService {
        name: Some(name.to_string()),
        device_id: Some(Uuid::from_u128(id)),
    });
    let devices = vec![
        bluetooth::scanned_device("e1".into(), "f1".into(), live("b", 1)),
        bluetooth::scanned_device("e2".into(), "f2".into(), live("b", 1)),
        bluetooth::scanned_device("e3".into(), "a".into(), None),
    ];
    let settled = bluetooth::settle_scan(devices);
    assert_eq!(settled.len(), 2);
    assert_eq!(settled[0].id, "bluetooth:e3");
    assert_eq!(settled[0].name, "a");
    assert!(!settled[0].nearweave_enabled);
    assert_eq!(settled[1].bluetooth_endpoint, Some("e1".to_string()));
    assert_eq!(settled[1].id, "00000000-0000-0000-0000-000000000001");
}

#[test]
fn reads_are_bounded() {
    assert_eq!(bluetooth::after_load(10, 4), Ok(6));
    assert_eq!(
        bluetooth::after_load(10, 0).expect_err("closed").to_string(),
        "蓝牙操作失败：对方已断开连接"
    );
    assert!(bluetooth::after_load(3, 4).is_err());
    assert_eq!(bluetooth::request_size(5), Ok(5));
    let encoded = Frame::with_payload(Message::Ping { nonce: Uuid::nil() }, vec![1, 2])
        .encode(b"abc")
        .expect("frame");
    assert_eq!(bluetooth::frame_remainder(&encoded[..20]), Ok(5));
    assert!(bluetooth::frame_remainder(&[0; 20]).is_err());
}

#[test]
fn lan_is_used_only_with_consent() {
    let off = state(false);
    assert!(matches!(off.first_connect_step(&target(true, true)), ConnectStep::Bluetooth(e) if e == "bt"));
    assert!(matches!(
        off.first_connect_step(&target(true, false)),
        ConnectStep::Failed(e) if e.to_string() == "输入无效：设备当前没有可用的局域网或蓝牙连接地址"
    ));
    let on = state(true);
    assert!(matches!(on.first_connect_step(&target(true, true)), ConnectStep::Lan(_)));
    assert!(matches!(
        connecting::second_connect_step(&target(true, true), AppError::NotConnected),
        ConnectStep::Bluetooth(_)
    ));
    assert!(matches!(
        connecting::second_connect_step(&target(true, false), AppError::NotConnected),
        ConnectStep::Failed(AppError::NotConnected)
    ));
    let mut off = state(false);
    let plan = off.begin_start().expect("plan");
    assert!(!plan.network);
    let (token, notice) = off.finish_start();
    assert!(notice.is_some());
    let retry = off.retry_plan(token).expect("plan");
    assert_eq!(retry.network, NetworkRetry::Nothing);
    assert!(retry.bluetooth);
    assert!(off.due_announcement().is_none());
    let mut on = state(true);
    assert!(on.begin_start().expect("plan").network);
    assert!(on.begin_start().is_none());
    let (token, _) = on.finish_start();
    assert_eq!(on.retry_plan(token).expect("plan").network, NetworkRetry::Start);
    on.install_network_runtime(links::new_network_runtime(4000, true), None, Vec::new());
    assert_eq!(on.retry_plan(token).expect("plan").network, NetworkRetry::Nothing);
    assert!(on.due_announcement().is_some());
    assert!(on.retry_plan(Uuid::nil()).is_none());
}

#[test]
fn retries_wait_longer_while_something_is_wrong() {
    let mut state = state(false);
    assert_eq!(state.next_retry(0), 4);
    assert!(state.bluetooth_started(&Err(AppError::NotConnected)).is_some());
    assert_eq!(state.next_retry(1), 2);
    assert_eq!(state.next_retry(usize::MAX), usize::MAX);
    assert!(state.bluetooth_started(&Ok(())).is_none());
    assert_eq!(state.next_retry(1), 4);
    let notice = state.network_start_failed(&AppError::NotConnected);
    assert_eq!(notice.message, "局域网服务未开启，蓝牙仍可使用：尚未连接另一台设备");
    assert_eq!(state.next_retry(1), 2);
}

#[test]
fn stopping_says_farewell_and_ends_everything() {
    let mut state = state(false);
    state.begin_start().expect("plan");
    state.finish_start();
    let peer = Uuid::from_u128(9);
    let installed = state
        .install_connection(ConnectionKind::Lan, "peer".into(), Some(peer), None, None, at(1))
        .expect("connection");
    state.update_peer_identity(
        installed.generation,
        peer,
        "peer".into(),
        vec!["transfer_cancel_v1".into()],
    );
    let transfer = Uuid::from_u128(70);
    state.add_transfer(TransferView::new(
        transfer,
        (peer, "peer".into()),
        "a.txt".into(),
        TransferDirection::Sending,
        TransferState::Transferring,
        10,
        "正在发送".into(),
        at(1),
    ));
    let farewells = state.begin_stop().expect("farewells");
    assert_eq!(farewells, vec![Farewell::Cancel { peer, transfer }, Farewell::Disconnect { peer }]);
    assert_eq!(state.transfers[0].state, TransferState::Cancelling);
    assert!(matches!(
        service::farewell_frame(farewells[1]).message,
        Message::Disconnect { reason } if reason == "对方已停止 NearWeave 连接"
    ));
    let end = state.end_connections(at(2));
    assert_eq!(end.closings.primary, vec![installed.generation]);
    assert_eq!(state.transfers[0].state, TransferState::Canceled);
    assert_eq!(state.connections.len(), 0);
    assert!(state.finish_stop(None).is_none());
    assert!(!state.listening);
    assert!(state.begin_stop().is_none());
}

#[test]
fn a_connection_is_planned_and_refreshed() {
    let mut state = state(true);
    let session = state.begin_connect(target(true, false)).expect("session");
    state.devices.push(NearbyDevice {
        id: Uuid::from_u128(9).to_string(),
        device_id: Some(Uuid::from_u128(9)),
        name: "新名".into(),
        bluetooth_endpoint: Some("bt2".into()),
        lan_endpoint: None,
        bluetooth_paired: true,
        nearweave_enabled: true,
        trusted: false,
    });
    let fresh = state.refresh_target(target(true, false), session).expect("target");
    assert_eq!(fresh.display_name, "新名");
    assert_eq!(fresh.bluetooth_endpoint, Some("bt2".to_string()));
    assert_eq!(fresh.lan_endpoint.expect("endpoint").port, 1);
    let round = state.reconnect_round(session, 2).expect("round");
    assert_eq!(round.notice.message, "5 秒后尝试重新连接 书房");
    let (next, notice) = state
        .reconnect_failed(session, 2, &AppError::NotConnected)
        .expect("next");
    assert_eq!(next, 3);
    assert_eq!(notice.message, "自动重连失败：尚未连接另一台设备");
    assert_eq!(connecting::reconnected_notice(&target(true, true)).message, "已恢复与 书房 的连接");
    state.cancel_reconnect_session(session);
    assert!(state.reconnect_round(session, 0).is_none());
    assert!(state.refresh_target(target(true, false), session).is_err());
    state
        .install_connection(
            ConnectionKind::Lan,
            "peer".into(),
            Some(Uuid::from_u128(9)),
            None,
            None,
            at(1),
        )
        .expect("connection");
    assert_eq!(
        state.begin_connect(target(true, false)).expect_err("connected").to_string(),
        "输入无效：该设备已经连接"
    );
    state.listening = false;
    assert!(state.begin_connect(target(true, false)).is_err());
}

#[test]
fn a_lost_connection_is_planned_again() {
    let mut state = state(false);
    let session = state.begin_reconnect_session(target(false, true));
    let attached = state
        .attach_socket("附近设备".into(), Some("bt".into()), Some(session), at(1))
        .expect("socket");
    let generation = attached.installed.generation;
    assert!(matches!(state.heartbeat(generation, at(90)), Heartbeat::Ping));
    assert!(matches!(
        state.heartbeat(generation, at(91)),
        Heartbeat::Lost(reason) if reason == "90 秒未收到 Pong，连接已判定失联"
    ));
    let done = state
        .finish_primary_connection(generation, Some("失联".into()), at(100))
        .expect("end");
    assert_eq!(done.notice.message, "连接已断开：失联");
    assert_eq!(done.reconnect, Some(session));
    assert!(done.network.is_none());
    assert!(matches!(state.heartbeat(generation, at(101)), Heartbeat::Gone));
    assert!(state.finish_primary_connection(generation, None, at(102)).is_none());
}

#[test]
fn a_network_link_is_admitted_once() {
    let mut state = state(true);
    state.install_network_runtime(links::new_network_runtime(4000, true), None, Vec::new());
    let peer = Uuid::from_u128(9);
    let attached = state.attach_socket("peer".into(), None, None, at(1)).expect("socket");
    let generation = attached.installed.generation;
    match attached.hello.message {
        Message::Hello { capabilities, network_offer, .. } => {
            assert_eq!(capabilities.len(), 6);
            assert_eq!(capabilities[5], "lan_encrypted_tcp");
            assert_eq!(network_offer.expect("offer").key.len(), 32);
        }
        _ => panic!("hello expected"),
    }
    state.update_peer_identity(generation, peer, "peer".into(), Vec::new());
    let offer = nearweave::protocol::NetworkOffer { session_id: Uuid::from_u128(3), key: vec![5; 32] };
    assert_eq!(state.negotiate_network(generation, peer, offer), Ok(true));
    let short = nearweave::protocol::NetworkOffer { session_id: Uuid::from_u128(3), key: vec![5; 31] };
    assert!(state.negotiate_network(generation, peer, short).is_err());
    let session = state.network_runtime().expect("runtime").session_id;
    let hello = links::link_hello(peer, session, Uuid::from_u128(50));
    assert_eq!(state.accept_link_hello(&hello), Ok(generation));
    assert_eq!(
        state.accept_link_hello(&hello).expect_err("again").to_string(),
        "协议错误：局域网链路握手已被使用"
    );
    let stale = links::link_hello(peer, Uuid::nil(), Uuid::from_u128(51));
    assert_eq!(
        state.accept_link_hello(&stale).expect_err("stale").to_string(),
        "协议错误：局域网链路会话已过期"
    );
    let stranger = links::link_hello(Uuid::from_u128(12), session, Uuid::from_u128(52));
    assert!(state.accept_link_hello(&stranger).is_err());
    let other = Frame::new(Message::Ping { nonce: Uuid::nil() });
    assert!(state.accept_link_hello(&other).is_err());
    let link = match state.attach_rfcomm_lan(generation).expect("link") {
        Attached::Installed(link) => link,
        Attached::Redundant => panic!("link expected"),
    };
    assert!(matches!(state.attach_rfcomm_lan(generation), Ok(Attached::Redundant)));
    assert_eq!(
        state.finish_rfcomm_lan(link.generation, None).expect("notice").message,
        "局域网高速链路已断开，数据将回退到蓝牙"
    );
    assert!(state.finish_rfcomm_lan(link.generation, None).is_none());
    assert!(state.attach_rfcomm_lan(Uuid::nil()).is_err());
    assert!(links::check_link_message(&Message::FileChunk { transfer_id: peer, offset: 0 }).is_ok());
    assert!(links::check_link_message(&Message::Ping { nonce: peer }).is_err());
}

#[test]
fn word_of_a_link_is_taken_by_the_lower_device() {
    let mut state = state(true);
    let peer = Uuid::from_u128(9);
    let attached = state.attach_socket("peer".into(), None, None, at(1)).expect("socket");
    let generation = attached.installed.generation;
    state.update_peer_identity(generation, peer, "peer".into(), Vec::new());
    let offer = nearweave::protocol::NetworkOffer { session_id: Uuid::from_u128(3), key: vec![5; 32] };
    state.negotiate_network(generation, peer, offer).expect("offer");
    let packet = |session: u128| nearweave::transport::discovery::RfcommLanDiscoveryPacket {
        magic: "nearweave-discovery-v1".into(),
        device_id: peer,
        session_id: Uuid::from_u128(session),
        tcp_port: 4001,
    };
    assert!(state.process_rfcomm_lan_discovery(packet(4), "10.0.0.2".into()).is_none());
    let plan = state
        .process_rfcomm_lan_discovery(packet(3), "10.0.0.2".into())
        .expect("plan");
    assert_eq!(plan.target.to_string(), "10.0.0.2:4001");
    assert_eq!(plan.key, vec![5; 32]);
    assert!(state.process_rfcomm_lan_discovery(packet(3), "10.0.0.2".into()).is_none());
    state.link_failed(peer, &AppError::NotConnected);
    assert!(state.process_rfcomm_lan_discovery(packet(3), "10.0.0.2".into()).is_some());
}

#[test]
fn streams_are_sorted_and_counted() {
    let mut state = state(true);
    assert_eq!(state.sort_stream(b"NWL1"), Ok(true));
    assert_eq!(state.sort_stream(&[0, 0, 0, 40]), Ok(false));
    for id in 0..8_u128 {
        assert!(state.admit_stream(Uuid::from_u128(id)).is_none());
    }
    assert_eq!(
        state.admit_stream(Uuid::from_u128(8)).expect("full").message,
        "待握手连接已达 8 个，已拒绝新连接"
    );
    assert!(state.stream_settled(Uuid::from_u128(0), &Ok(())).is_none());
    assert_eq!(
        state
            .stream_settled(Uuid::from_u128(1), &Err(AppError::NotConnected))
            .expect("notice")
            .message,
        "已拒绝无效的局域网连接：尚未连接另一台设备"
    );
    state.listening = false;
    assert!(state.sort_stream(b"NWL1").is_err());
}

#[test]
fn a_stopped_service_leaves_nothing_open() {
    let mut state = state(true);
    assert!(state.begin_start().is_some());
    state.finish_start();
    let peer = Uuid::from_u128(5);
    state
        .install_connection(ConnectionKind::Lan, "peer".into(), Some(peer), None, None, at(1))
        .expect("connection");
    let finished = Uuid::from_u128(6);
    let done = TransferView::new(
        finished,
        (peer, "peer".into()),
        "old.bin".into(),
        TransferDirection::Receiving,
        TransferState::Completed,
        3,
        "已完成".into(),
        at(1),
    );
    state.add_transfer(done);
    let received = Uuid::from_u128(7);
    state.accept_file_offer(
        peer,
        received,
        "new.bin".into(),
        9,
        "new.bin".into(),
        ".part".into(),
        at(1),
    );
    state
        .begin_pairing(Uuid::from_u128(8), "other".into(), "000000".into())
        .expect("request");
    let epoch = state.transfer_epoch();
    assert!(state.begin_stop().is_some());
    assert_eq!(state.transfer_epoch(), epoch + 1);
    assert_eq!(state.pending_pairings.len(), 0);
    let end = state.end_connections(at(2));
    assert_eq!(end.discard, vec![".part".to_string()]);
    assert_eq!(state.incoming.len(), 0);
    assert!(!state.is_destination_reserved("new.bin"));
    assert!(state.is_canceled_incoming(peer, received, at(3)));
    let old = state.transfer(peer, finished).expect("transfer");
    assert_eq!((old.state, old.detail.as_str()), (TransferState::Completed, "已完成"));
    let new = state.transfer(peer, received).expect("transfer");
    assert_eq!(new.state, TransferState::Canceled);
    assert_eq!(new.detail, "连接服务已停止，未完成的临时文件已删除");
    state.finish_stop(None);
    assert!(state.begin_stop().is_none());
}

#[test]
fn the_services_of_the_network_have_random_keys() {
    let runtime = links::new_network_runtime(1, true);
    assert_eq!(runtime.key.len(), 32);
    assert_eq!(runtime.key[6] >> 4, 4);
    assert_eq!(runtime.key[22] >> 4, 4);
    assert_eq!((runtime.session_id.value >> 76) & 0xf, 4);
    assert_ne!(runtime.key, links::new_network_runtime(1, true).key);
}
