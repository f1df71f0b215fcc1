//! Connections over Bluetooth, and the heartbeat of all connections.
use super::links;
use crate::bytes;
use crate::clock::{Duration, Instant, NANOS_PER_SECOND};
use crate::error::{AppError, AppResult};
use crate::ids;
use crate::ids::Uuid;
use crate::lists;
use crate::models::{ConnectionKind, NearbyDevice, Notice, NoticeLevel};
use crate::protocol;
use crate::protocol::{
    Frame, Message, CAPABILITY_LAZY_DIRECTORY, CAPABILITY_TRANSFER_CANCEL, PROTOCOL_VERSION,
};
use crate::state::connections::Installed;
use crate::state::reconnects;
use crate::state::{AppState, ConnectionMeta, ReconnectTarget};
use crate::text;
use vstd::prelude::*;

verus! {

/// The identifier of the service that devices look for.
pub const SERVICE_UUID: u128 = 0x6a144fb2_f5c7_507a_8293_a3976e0e1a34;

/// The attribute of the service record that holds the identifier of the device.
pub const SDP_DEVICE_ID_ATTRIBUTE: u32 = 0x0300;

/// The attribute of the service record that holds the version of the protocol.
pub const SDP_PROTOCOL_VERSION_ATTRIBUTE: u32 = 0x0301;

/// The mark of a 128-bit identifier in a service record.
pub const SDP_UUID128_ELEMENT: u8 = 0x1c;

/// The mark of a 16-bit number in a service record.
pub const SDP_UINT16_ELEMENT: u8 = 0x09;

pub const OUTBOUND_QUEUE_CAPACITY: usize = 24;

pub const HEARTBEAT_INTERVAL_SECONDS: u64 = 30;

pub const HEARTBEAT_TIMEOUT_SECONDS: u64 = 90;

/// Why a service could not be looked up.
#[derive(Clone, Copy, Debug, PartialEq, Eq, Structural)]
pub enum BluetoothError {
    Success,
    RadioNotAvailable,
    ResourceInUse,
    DeviceNotConnected,
    OtherError,
    DisabledByPolicy,
    NotSupported,
    DisabledByUser,
    ConsentRequired,
    TransportNotSupported,
}

/// What the live service of a paired device has said of it.
#[derive(Debug)]
pub struct LiveService {
    pub name: Option<String>,
    pub device_id: Option<Uuid>,
}

/// A connection over Bluetooth that has been installed.
#[derive(Debug)]
pub struct AttachedSocket {
    pub installed: Installed,
    pub hello: Frame,
}

/// What a beat of the heart of a connection leads to.
#[derive(Debug)]
pub enum Heartbeat {
    /// The connection is no longer there.
    Gone,
    /// The other device has been silent for too long: the connection is to be closed.
    Lost(String),
    /// The other device is to be asked for a sign of life.
    Ping,
}

/// The words for an error.
pub open spec fn error_words(error: BluetoothError) -> Seq<char> {
    match error {
        BluetoothError::RadioNotAvailable => "蓝牙适配器不可用"@,
        BluetoothError::ResourceInUse => "蓝牙资源正在被占用"@,
        BluetoothError::DeviceNotConnected => "对方设备当前不可达"@,
        BluetoothError::DisabledByPolicy => "蓝牙被系统策略禁用"@,
        BluetoothError::NotSupported => "当前蓝牙适配器不支持该操作"@,
        BluetoothError::DisabledByUser => "蓝牙已被用户关闭"@,
        BluetoothError::ConsentRequired => "Windows 尚未授权访问该蓝牙服务"@,
        BluetoothError::TransportNotSupported => "对方不支持 RFCOMM 传输"@,
        BluetoothError::Success => "成功"@,
        BluetoothError::OtherError => "未知蓝牙错误"@,
    }
}

/// The words for an error.
pub fn bluetooth_error_text(error: BluetoothError) -> (r: &'static str)
    ensures
        r@ == error_words(error),
{
    match error {
        BluetoothError::RadioNotAvailable => "蓝牙适配器不可用",
        BluetoothError::ResourceInUse => "蓝牙资源正在被占用",
        BluetoothError::DeviceNotConnected => "对方设备当前不可达",
        BluetoothError::DisabledByPolicy => "蓝牙被系统策略禁用",
        BluetoothError::NotSupported => "当前蓝牙适配器不支持该操作",
        BluetoothError::DisabledByUser => "蓝牙已被用户关闭",
        BluetoothError::ConsentRequired => "Windows 尚未授权访问该蓝牙服务",
        BluetoothError::TransportNotSupported => "对方不支持 RFCOMM 传输",
        BluetoothError::Success => "成功",
        BluetoothError::OtherError => "未知蓝牙错误",
    }
}

/// Refuses a lookup that has failed or has found no service.
pub fn check_lookup(status: BluetoothError, services: u32) -> (r: AppResult<()>)
    ensures
        r is Ok <==> status is Success && services > 0,
        r matches Err(e) ==> (e matches AppError::Bluetooth(detail) && detail@
            == if !(status is Success) {
            "实时查询 NearWeave 服务失败："@ + error_words(status)
        } else {
            "对方当前未开启 NearWeave 连接"@
        }),
{
    if status != BluetoothError::Success {
        return Err(
            AppError::Bluetooth(
                text::joined("实时查询 NearWeave 服务失败：", bluetooth_error_text(status)),
            ),
        );
    }
    if services == 0 {
        return Err(AppError::Bluetooth(String::from_str("对方当前未开启 NearWeave 连接")));
    }
    Ok(())
}

/// The identifier of a device in a service record.
pub open spec fn sdp_device_id(device_id: Uuid) -> Seq<u8> {
    seq![SDP_UUID128_ELEMENT] + bytes::be_of(device_id.value as nat, 16)
}

/// The identifier of a device in a service record.
pub fn encode_device_id(device_id: Uuid) -> (r: Vec<u8>)
    ensures
        r@ == sdp_device_id(device_id),
{
    let mut out: Vec<u8> = Vec::new();
    out.push(SDP_UUID128_ELEMENT);
    bytes::push_be(&mut out, device_id.value, 16);
    proof {
        assert(out@ =~= sdp_device_id(device_id));
    }
    out
}

/// The version of the protocol in a service record.
pub fn encode_protocol_version() -> (r: Vec<u8>)
    ensures
        r@ == seq![SDP_UINT16_ELEMENT] + bytes::be_of(PROTOCOL_VERSION as nat, 2),
{
    let mut out: Vec<u8> = Vec::new();
    out.push(SDP_UINT16_ELEMENT);
    bytes::push_be(&mut out, PROTOCOL_VERSION as u128, 2);
    proof {
        assert(out@ =~= seq![SDP_UINT16_ELEMENT] + bytes::be_of(PROTOCOL_VERSION as nat, 2));
    }
    out
}

/// The identifier that a service record holds, where it holds one.
pub fn decode_device_id(data: &[u8]) -> (r: Option<Uuid>)
    ensures
        match r {
            Some(id) => data@ == sdp_device_id(id),
            None => forall|id: Uuid| #![trigger sdp_device_id(id)] data@ != sdp_device_id(id),
        },
{
    proof {
        assert forall|id: Uuid| data@ == #[trigger] sdp_device_id(id) implies data@.len() == 17
            && data@[0] == SDP_UUID128_ELEMENT by {
            bytes::lemma_be_length(id.value as nat, 16);
        }
    }
    if data.len() != 17 || data[0] != SDP_UUID128_ELEMENT {
        return None;
    }
    let high: u64 = bytes::read_be(data, 1, 9);
    let low: u64 = bytes::read_be(data, 9, 17);
    let value: u128 = high as u128 * 0x1_0000_0000_0000_0000 + low as u128;
    proof {
        let s = data@.subrange(1, 17);
        let (a, b) = (data@.subrange(1, 9), data@.subrange(9, 17));
        assert(s =~= a + b);
        lemma_be_value_joined(a, b);
        reveal_with_fuel(bytes::range_of, 9);
        assert(bytes::range_of(8) == 0x1_0000_0000_0000_0000);
        assert(value == bytes::be_value(s));
        bytes::lemma_be_inverse(s);
        assert(data@ =~= sdp_device_id(Uuid { value }));
    }
    Some(Uuid::from_u128(value))
}

proof fn lemma_be_value_joined(a: Seq<u8>, b: Seq<u8>)
    ensures
        bytes::be_value(a + b) == bytes::be_value(a) * bytes::range_of(b.len()) + bytes::be_value(
            b,
        ),
    decreases b.len(),
{
    if b.len() == 0 {
        assert(a + b =~= a);
        assert(bytes::be_value(a) * 1 == bytes::be_value(a));
    } else {
        assert((a + b).last() == b.last());
        assert((a + b).drop_last() =~= a + b.drop_last());
        lemma_be_value_joined(a, b.drop_last());
        let (x, y, z) = (
            bytes::be_value(a),
            bytes::range_of((b.len() - 1) as nat),
            bytes::be_value(b.drop_last()),
        );
        assert((x * y + z) * 256 + b.last() as nat == x * (y * 256) + (z * 256 + b.last() as nat))
            by (nonlinear_arith);
    }
}

/// The identifier of a device is read back from its service record.
pub proof fn law_device_id_is_read_back(a: Uuid, b: Uuid)
    requires
        sdp_device_id(a) == sdp_device_id(b),
    ensures
        a == b,
{
    let (s, t) = (bytes::be_of(a.value as nat, 16), bytes::be_of(b.value as nat, 16));
    assert(s =~= sdp_device_id(a).skip(1));
    assert(t =~= sdp_device_id(b).skip(1));
    reveal_with_fuel(bytes::range_of, 17);
    bytes::lemma_be_round_trip(a.value as nat, 16);
    bytes::lemma_be_round_trip(b.value as nat, 16);
}

/// How a paired device appears in the list.
pub open spec fn is_scanned(
    device: NearbyDevice,
    endpoint: Seq<char>,
    fallback_name: Seq<char>,
    service: Option<LiveService>,
) -> bool {
    let device_id = match service {
        Some(live) => live.device_id,
        None => None,
    };
    &&& device.id@ == match device_id {
        Some(id) => ids::hyphenated(id.value),
        None => "bluetooth:"@ + endpoint,
    }
    &&& device.device_id == device_id
    &&& device.name@ == if service is Some && service->0.name is Some {
        service->0.name->0@
    } else {
        fallback_name
    }
    &&& device.bluetooth_endpoint is Some
    &&& device.bluetooth_endpoint->0@ == endpoint
    &&& device.lan_endpoint is None
    &&& device.bluetooth_paired
    &&& device.nearweave_enabled == (service is Some)
    &&& !device.trusted
}

/// How a paired device appears in the list, with what its live service has said where it has one.
pub fn scanned_device(endpoint: String, fallback_name: String, service: Option<LiveService>) -> (r:
    NearbyDevice)
    ensures
        is_scanned(r, endpoint@, fallback_name@, service),
{
    let nearweave_enabled = service.is_some();
    let (name, device_id) = match service {
        Some(live) => (
            match live.name {
                Some(name) => name,
                None => fallback_name,
            },
            live.device_id,
        ),
        None => (fallback_name, None),
    };
    let id = match device_id {
        Some(value) => value.to_string(),
        None => text::joined("bluetooth:", &endpoint),
    };
    NearbyDevice {
        id,
        device_id,
        name,
        bluetooth_endpoint: Some(endpoint),
        lan_endpoint: None,
        bluetooth_paired: true,
        nearweave_enabled,
        trusted: false,
    }
}

/// Of each run of entries for the same device, the first.
pub open spec fn without_repeats(s: Seq<NearbyDevice>) -> Seq<NearbyDevice>
    decreases s.len(),
{
    if s.len() == 0 {
        s
    } else {
        let front = without_repeats(s.drop_last());
        if front.len() > 0 && front.last().id@ == s.last().id@ {
            front
        } else {
            front.push(s.last())
        }
    }
}

fn drop_repeats(items: Vec<NearbyDevice>) -> (r: Vec<NearbyDevice>)
    ensures
        r@ == without_repeats(items@),
    decreases items@.len(),
{
    let mut rest = items;
    match rest.pop() {
        None => rest,
        Some(last) => {
            proof {
                assert(rest@ =~= items@.drop_last());
            }
            let mut out = drop_repeats(rest);
            let repeated = out.len() > 0 && text::same(&out[out.len() - 1].id, &last.id);
            if !repeated {
                out.push(last);
            }
            out
        },
    }
}

/// The paired devices in the order of their names, those that stand together under one identifier
/// only once.
pub fn settle_scan(devices: Vec<NearbyDevice>) -> (r: Vec<NearbyDevice>)
    ensures
        r@ == without_repeats(
            lists::stable_sorted(devices@, lists::rank_order::<NearbyDevice>()),
        ),
{
    let mut sorted = devices;
    lists::sort(&mut sorted);
    drop_repeats(sorted)
}

/// Whether silence has lasted too long.
pub fn heartbeat_timed_out(elapsed: Duration) -> (r: bool)
    ensures
        r == (elapsed.nanos >= HEARTBEAT_TIMEOUT_SECONDS * NANOS_PER_SECOND),
{
    elapsed.nanos >= HEARTBEAT_TIMEOUT_SECONDS as u128 * NANOS_PER_SECOND
}

/// The number of bytes of a frame that follow its prefix.
pub fn frame_remainder(prefix: &[u8]) -> (r: AppResult<usize>)
    ensures
        match protocol::prefix_reading(prefix@) {
            Ok((header_len, payload_len)) => r matches Ok(n) && n == header_len + payload_len,
            Err(fault) => r matches Err(e) && e.is_protocol(fault),
        },
{
    match protocol::decode_prefix(prefix) {
        Ok((header_len, payload_len)) => Ok(header_len + payload_len),
        Err(e) => Err(e),
    }
}

/// The number of bytes to ask for where so many are missing.
pub fn request_size(missing: usize) -> (r: AppResult<u32>)
    ensures
        match r {
            Ok(n) => n == missing,
            Err(e) => missing > u32::MAX && e.is_protocol("单次读取长度超出限制"@),
        },
{
    if missing as u64 > u32::MAX as u64 {
        return Err(AppError::protocol("单次读取长度超出限制"));
    }
    Ok(missing as u32)
}

/// The number of bytes that are missing after so many have come.
pub fn after_load(missing: usize, loaded: usize) -> (r: AppResult<usize>)
    ensures
        match r {
            Ok(n) => 0 < loaded <= missing && n == missing - loaded,
            Err(e) => if loaded == 0 {
                e matches AppError::Bluetooth(detail) && detail@ == "对方已断开连接"@
            } else {
                loaded > missing && e.is_protocol("底层读取返回了超量数据"@)
            },
        },
{
    if loaded == 0 {
        return Err(AppError::Bluetooth(String::from_str("对方已断开连接")));
    }
    if loaded > missing {
        return Err(AppError::protocol("底层读取返回了超量数据"));
    }
    Ok(missing - loaded)
}

/// What a device with a connection over Bluetooth can do.
pub open spec fn bluetooth_capabilities(with_network: bool) -> Seq<Seq<char>> {
    let base = seq![
        "files"@,
        "shared_directories"@,
        "clipboard_text"@,
        CAPABILITY_TRANSFER_CANCEL@,
        CAPABILITY_LAZY_DIRECTORY@,
    ];
    if with_network {
        base.push("lan_encrypted_tcp"@)
    } else {
        base
    }
}

/// What the user is told when paired devices could not be looked for. Nothing on a platform
/// without support.
pub fn scan_notice(error: &AppError) -> (r: Option<Notice>)
    ensures
        if error is Unsupported {
            r is None
        } else {
            r is Some && r->0.level == NoticeLevel::Info && r->0.message@
                == "蓝牙设备刷新失败，局域网发现仍可使用："@ + error.message()
        },
{
    match error {
        AppError::Unsupported(_) => None,
        _ => Some(
            Notice {
                level: NoticeLevel::Info,
                message: text::joined(
                    "蓝牙设备刷新失败，局域网发现仍可使用：",
                    &error.to_string(),
                ),
            },
        ),
    }
}

/// What is said on a platform without support for Bluetooth.
pub fn unsupported() -> (r: AppError)
    ensures
        r matches AppError::Unsupported(detail) && detail@
            == "当前版本仅实现 Windows RFCOMM 传输适配器"@,
{
    AppError::Unsupported(String::from_str("当前版本仅实现 Windows RFCOMM 传输适配器"))
}

impl AppState {
    /// Where a planned connection over Bluetooth is to be opened.
    pub fn bluetooth_endpoint_for(&self, target: &ReconnectTarget, session: Uuid) -> (r: AppResult<
        String,
    >)
        requires
            self.wf(),
        ensures
            if !self.reconnects@.dom().contains(session) {
                r matches Err(AppError::Bluetooth(detail)) && detail@ == "自动重连已取消"@
            } else {
                match target.bluetooth_endpoint {
                    Some(endpoint) => r == Ok::<String, AppError>(endpoint),
                    None => r matches Err(AppError::Bluetooth(detail)) && detail@
                        == "设备没有可用的蓝牙服务地址"@,
                }
            },
    {
        match self.check_plan(session) {
            Err(e) => Err(e),
            Ok(()) => match &target.bluetooth_endpoint {
                Some(endpoint) => Ok(endpoint.clone()),
                None => Err(
                    AppError::Bluetooth(String::from_str("设备没有可用的蓝牙服务地址")),
                ),
            },
        }
    }

    /// Refuses to go on once the plan has been given up.
    pub fn check_plan(&self, session: Uuid) -> (r: AppResult<()>)
        requires
            self.wf(),
        ensures
            r is Ok <==> self.reconnects@.dom().contains(session),
            r matches Err(e) ==> (e matches AppError::Bluetooth(detail) && detail@
                == "自动重连已取消"@),
    {
        if !self.is_reconnect_session_active(session) {
            return Err(AppError::Bluetooth(String::from_str("自动重连已取消")));
        }
        Ok(())
    }

    /// This is how this device presents itself on a connection over Bluetooth: with an offer of a
    /// network link where the services of the local network run.
    pub open spec fn is_bluetooth_hello(&self, frame: Frame) -> bool {
        &&& links::is_hello(
            frame.message,
            self.device_id,
            self.device_name@,
            bluetooth_capabilities(self.network_runtime is Some),
        )
        &&& match self.network_runtime {
            Some(runtime) => frame.message->network_offer is Some
                && frame.message->network_offer->0.session_id == runtime.session_id
                && frame.message->network_offer->0.key@ == runtime.key@,
            None => frame.message->network_offer is None,
        }
        &&& frame.payload@.len() == 0
    }

    /// How this device presents itself on a connection over Bluetooth.
    pub fn bluetooth_hello(&self) -> (r: Frame)
        ensures
            self.is_bluetooth_hello(r),
    {
        let network_offer = self.network_offer();
        let mut capabilities: Vec<String> = Vec::new();
        capabilities.push(String::from_str("files"));
        capabilities.push(String::from_str("shared_directories"));
        capabilities.push(String::from_str("clipboard_text"));
        capabilities.push(String::from_str(CAPABILITY_TRANSFER_CANCEL));
        capabilities.push(String::from_str(CAPABILITY_LAZY_DIRECTORY));
        if network_offer.is_some() {
            capabilities.push(String::from_str("lan_encrypted_tcp"));
        }
        proof {
            assert(links::texts(capabilities@) =~= bluetooth_capabilities(
                self.network_runtime is Some,
            ));
        }
        Frame::new(
            Message::Hello {
                protocol_version: PROTOCOL_VERSION,
                device_id: self.device_id,
                device_name: self.device_name.clone(),
                capabilities,
                network_offer,
            },
        )
    }

    /// The device that the list has under the place from which a connection has come.
    pub open spec fn device_at(&self, endpoint: Option<String>) -> Option<Uuid> {
        match endpoint {
            Some(place) => match lists::first_where(
                self.devices@,
                |d: NearbyDevice| AppState::goes_by(d, place@),
            ) {
                Some(i) => self.devices@[i].device_id,
                None => None,
            },
            None => None,
        }
    }

    /// The plans to connect again once a connection over Bluetooth is there: one that was not
    /// planned ends those for its device.
    pub open spec fn drops_plans(
        pre: AppState,
        post: AppState,
        endpoint: Option<String>,
        session: Option<Uuid>,
    ) -> bool {
        &&& post == (AppState { reconnects: post.reconnects, ..pre })
        &&& post.reconnects@ == if session is None && pre.device_at(endpoint) is Some {
            reconnects::plans_without(pre.reconnects@, pre.device_at(endpoint)->0)
        } else {
            pre.reconnects@
        }
    }

    /// Makes a socket the connection to a device that is yet to present itself.
    pub fn attach_socket(
        &mut self,
        peer_hint: String,
        bluetooth_endpoint: Option<String>,
        reconnect_session: Option<Uuid>,
        now: Instant,
    ) -> (r: AppResult<AttachedSocket>)
        requires
            old(self).wf(),
        ensures
            final(self).wf(),
            r is Ok <==> old(self).listening && !old(self).is_full_for(None),
            exists|middle: AppState| #[trigger]
                AppState::drops_plans(*old(self), middle, bluetooth_endpoint, reconnect_session)
                    && match r {
                    Ok(attached) => {
                        &&& AppState::installs(
                            middle,
                            *final(self),
                            ConnectionMeta {
                                generation: attached.installed.generation,
                                kind: ConnectionKind::Bluetooth,
                                peer_name: peer_hint,
                                last_pong: now,
                                last_active: now,
                                reconnect_session,
                                peer_device_id: None,
                                bluetooth_endpoint,
                            },
                        )
                        &&& attached.installed.generation.is_random()
                        &&& attached.installed.replaced is None
                        &&& old(self).is_bluetooth_hello(attached.hello)
                    },
                    Err(e) => *final(self) == middle && if !old(self).listening {
                        e.is_invalid_input("连接服务已停止"@)
                    } else {
                        e.is_protocol("最多同时连接 8 台设备"@)
                    },
                },
    {
        if reconnect_session.is_none() {
            let known = match &bluetooth_endpoint {
                Some(endpoint) => match self.find_device(endpoint) {
                    Some(device) => device.device_id,
                    None => None,
                },
                None => None,
            };
            proof {
                assert(known == self.device_at(bluetooth_endpoint));
            }
            match known {
                Some(device_id) => self.cancel_reconnect_for_peer(device_id),
                None => {},
            }
        }
        let ghost middle = *self;
        proof {
            assert(AppState::drops_plans(
                *old(self),
                middle,
                bluetooth_endpoint,
                reconnect_session,
            ));
        }
        match self.install_connection(
            ConnectionKind::Bluetooth,
            peer_hint,
            None,
            bluetooth_endpoint,
            reconnect_session,
            now,
        ) {
            Err(e) => Err(e),
            Ok(installed) => {
                let hello = self.bluetooth_hello();
                Ok(AttachedSocket { installed, hello })
            },
        }
    }

    /// What a beat of the heart of a connection leads to.
    pub fn heartbeat(&self, generation: Uuid, now: Instant) -> (r: Heartbeat)
        requires
            self.wf(),
        ensures
            if !self.connections@.dom().contains(generation) {
                r is Gone
            } else {
                let connection = self.connections@[generation];
                if now.since(connection.last_pong) >= HEARTBEAT_TIMEOUT_SECONDS * NANOS_PER_SECOND {
                    r matches Heartbeat::Lost(reason) && reason@ == text::decimal_of(
                        HEARTBEAT_TIMEOUT_SECONDS as nat,
                    ) + if connection.kind is Lan {
                        " 秒未收到 Pong，局域网连接已判定失联"@
                    } else {
                        " 秒未收到 Pong，连接已判定失联"@
                    }
                } else {
                    r is Ping
                }
            },
    {
        let elapsed = match self.pong_elapsed(generation, now) {
            Some(elapsed) => elapsed,
            None => {
                return Heartbeat::Gone;
            },
        };
        if !heartbeat_timed_out(elapsed) {
            return Heartbeat::Ping;
        }
        let seconds = text::decimal(HEARTBEAT_TIMEOUT_SECONDS as u128);
        let tail = match self.connection_kind(generation) {
            Some(ConnectionKind::Lan) => " 秒未收到 Pong，局域网连接已判定失联",
            _ => " 秒未收到 Pong，连接已判定失联",
        };
        Heartbeat::Lost(text::joined(&seconds, tail))
    }
}

/// A device that announces itself over Bluetooth is known by the identifier that it has announced.
pub proof fn law_announced_identifier_is_read(
    id: Uuid,
    written: Vec<u8>,
    data: &[u8],
    r: Option<Uuid>,
)
    requires
        call_ensures(encode_device_id, (id,), written),
        data@ == written@,
        call_ensures(decode_device_id, (data,), r),
    ensures
        r == Some(id),
        written@.len() == 17,
        written@[0] == 0x1c,
        bytes::be_value(written@.skip(1)) == id.value,
{
    bytes::lemma_be_length(id.value as nat, 16);
    reveal_with_fuel(bytes::range_of, 17);
    bytes::lemma_be_round_trip(id.value as nat, 16);
    assert(written@.skip(1) =~= bytes::be_of(id.value as nat, 16));
    assert(data@ == sdp_device_id(id));
    if let Some(other) = r {
        law_device_id_is_read_back(id, other);
    }
}

/// The version that is announced over Bluetooth is that of the protocol.
pub proof fn law_announced_version(r: Vec<u8>)
    requires
        call_ensures(encode_protocol_version, (), r),
    ensures
        r@ == seq![0x09u8, 0x00, 0x01],
{
    reveal_with_fuel(bytes::be_of, 3);
    assert(r@ =~= seq![0x09u8, 0x00, 0x01]);
}

/// A paired device that was found is listed with its Bluetooth address, under the name and the
/// identity that its service has given; without a service there, under the name that it is paired
/// with, and it cannot be connected to.
pub proof fn law_found_device_is_described(
    endpoint: String,
    fallback: String,
    service: Option<LiveService>,
    r: NearbyDevice,
)
    requires
        call_ensures(scanned_device, (endpoint, fallback, service), r),
    ensures
        r.bluetooth_endpoint matches Some(at) && at@ == endpoint@,
        r.bluetooth_paired,
        !r.trusted,
        r.lan_endpoint is None,
        r.nearweave_enabled <==> service is Some,
        service matches Some(live) ==> r.device_id == live.device_id && (live.name is Some
            ==> r.name@ == live.name->0@) && (live.name is None ==> r.name@ == fallback@),
        service is None ==> r.device_id is None && r.name@ == fallback@,
        r.device_id matches Some(id) ==> r.id@ == ids::hyphenated(id.value),
{
}

/// A service is there if it was looked up successfully and found.
pub proof fn law_found_service_is_there(status: BluetoothError, services: u32, r: AppResult<()>)
    requires
        call_ensures(check_lookup, (status, services), r),
    ensures
        r is Ok <==> status is Success && services >= 1,
        r matches Err(e) ==> e is Bluetooth,
{
}

/// A connection without a sign of life for 90 seconds is lost; one with an earlier sign is asked for
/// another, and one that is not there is not.
pub proof fn law_silent_connection_is_lost(
    app: AppState,
    generation: Uuid,
    now: Instant,
    r: Heartbeat,
)
    requires
        call_ensures(AppState::heartbeat, (&app, generation, now), r),
    ensures
        r is Gone <==> !app.connections@.dom().contains(generation),
        app.connections@.dom().contains(generation) ==> (r is Lost <==> now.nanos
            - app.connections@[generation].last_pong.nanos >= 90_000_000_000),
        app.connections@.dom().contains(generation) ==> (r is Ping <==> now.nanos
            - app.connections@[generation].last_pong.nanos < 90_000_000_000),
{
}

/// An answered heartbeat keeps a connection for another 90 seconds.
pub proof fn law_answer_keeps_connection(
    app: &mut AppState,
    generation: Uuid,
    then: Instant,
    now: Instant,
    r: Heartbeat,
)
    requires
        call_ensures(AppState::record_pong, (app, generation, then), ()),
        old(app).connections@.dom().contains(generation),
        call_ensures(AppState::heartbeat, (final(app), generation, now), r),
        then.nanos <= now.nanos,
    ensures
        r is Ping <==> now.nanos - then.nanos < 90_000_000_000,
        r is Lost <==> now.nanos - then.nanos >= 90_000_000_000,
{
}

/// Time without a sign of life is over at 90 seconds.
pub proof fn law_heartbeat_limit(elapsed: Duration, r: bool)
    requires
        call_ensures(heartbeat_timed_out, (elapsed,), r),
    ensures
        r <==> elapsed.nanos >= 90_000_000_000,
{
}

/// As much of a frame is read as its beginning tells, piece by piece, and neither more nor nothing.
pub proof fn law_frame_is_read_to_its_end(
    missing: usize,
    loaded: usize,
    asked: AppResult<u32>,
    r: AppResult<usize>,
)
    requires
        call_ensures(request_size, (missing,), asked),
        call_ensures(after_load, (missing, loaded), r),
    ensures
        asked is Ok && asked->Ok_0 == missing || asked is Err && missing > u32::MAX,
        r is Ok <==> 0 < loaded <= missing,
        r matches Ok(rest) ==> rest + loaded == missing,
{
}

/// What is left of a frame behind its beginning is its message and its data.
pub proof fn law_rest_of_frame(
    frame: Frame,
    header: &[u8],
    written: Vec<u8>,
    prefix: &[u8],
    r: AppResult<usize>,
)
    requires
        call_ensures(Frame::encode, (&frame, header), Ok::<Vec<u8>, AppError>(written)),
        prefix@ == written@.take(20),
        call_ensures(frame_remainder, (prefix,), r),
    ensures
        r matches Ok(n) && n == written@.len() - 20 && n == header@.len() + frame.payload@.len(),
{
    protocol::law_frame_round_trip(header@, frame.payload@);
    protocol::law_frame_layout(frame, header, written);
    assert(prefix@ == written@.take(20));
}

/// This device presents itself over Bluetooth with its identity and its name, and offers the network
/// link if it has one.
pub proof fn law_bluetooth_presentation(app: AppState, r: Frame, offer: Option<protocol::NetworkOffer>)
    requires
        call_ensures(AppState::bluetooth_hello, (&app,), r),
        call_ensures(AppState::network_offer, (&app,), offer),
    ensures
        r.message is Hello,
        r.message->Hello_device_id == app.device_id,
        r.message->device_name@ == app.device_name@,
        r.message->protocol_version == 1,
        r.message->network_offer is Some <==> offer is Some,
        offer matches Some(o) ==> r.message->network_offer->0.key@ == o.key@
            && r.message->network_offer->0.session_id == o.session_id,
        exists|i: int|
            0 <= i < r.message->capabilities@.len() && (#[trigger] r.message->capabilities@[i])@
                == "transfer_cancel_v1"@,
        exists|i: int|
            0 <= i < r.message->capabilities@.len() && (#[trigger] r.message->capabilities@[i])@
                == "lazy_directory_browse_v1"@,
{
    let s = links::texts(r.message->capabilities@);
    assert(s.len() == r.message->capabilities@.len());
    assert(s[3] == r.message->capabilities@[3]@);
    assert(s[4] == r.message->capabilities@[4]@);
}

/// A Bluetooth stream becomes a connection while the service runs and there are fewer than eight,
/// with nobody known at its other end yet.
pub proof fn law_bluetooth_stream_is_attached(
    app: &mut AppState,
    hint: String,
    endpoint: Option<String>,
    session: Option<Uuid>,
    now: Instant,
    r: AppResult<AttachedSocket>,
)
    requires
        call_ensures(AppState::attach_socket, (app, hint, endpoint, session, now), r),
    ensures
        r is Ok <==> old(app).listening && old(app).connections@.dom().len() < 8,
        r matches Ok(attached) ==> {
            let meta = final(app).connections@[attached.installed.generation];
            &&& final(app).connections@.dom().contains(attached.installed.generation)
            &&& meta.kind is Bluetooth
            &&& meta.peer_device_id is None
            &&& meta.peer_name@ == hint@
            &&& meta.bluetooth_endpoint == endpoint
            &&& meta.reconnect_session == session
            &&& attached.hello.message is Hello
            &&& attached.hello.message->Hello_device_id == old(app).device_id
        },
        r is Err ==> final(app).connections == old(app).connections,
{
}

/// A device is connected to over Bluetooth at its address there, as long as the plan stands.
pub proof fn law_bluetooth_address_is_used(
    app: AppState,
    target: ReconnectTarget,
    session: Uuid,
    r: AppResult<String>,
    plan: AppResult<()>,
)
    requires
        call_ensures(AppState::bluetooth_endpoint_for, (&app, &target, session), r),
        call_ensures(AppState::check_plan, (&app, session), plan),
    ensures
        plan is Ok <==> app.reconnects@.dom().contains(session),
        r is Ok <==> plan is Ok && target.bluetooth_endpoint is Some,
        r matches Ok(at) ==> target.bluetooth_endpoint == Some(at),
{
}

proof fn lemma_without_repeats(s: Seq<NearbyDevice>, d: NearbyDevice)
    ensures
        s.contains(d) ==> exists|e: NearbyDevice| #[trigger]
            without_repeats(s).contains(e) && e.id@ == d.id@,
        without_repeats(s).contains(d) ==> s.contains(d),
        s.len() > 0 ==> without_repeats(s).len() > 0 && without_repeats(s).last().id@
            == s.last().id@,
    decreases s.len(),
{
    if s.len() > 0 {
        let front = s.drop_last();
        let kept = without_repeats(front);
        let all = without_repeats(s);
        lemma_without_repeats(front, d);
        assert(s[s.len() - 1] == s.last());
        if front.contains(d) {
            let e = choose|e: NearbyDevice| #[trigger] kept.contains(e) && e.id@ == d.id@;
            assert(all[kept.index_of(e)] == e);
            assert(all.contains(e));
        } else if s.contains(d) {
            let i = s.index_of(d);
            assert(i == s.len() - 1 || front[i] == d);
            assert(all[all.len() - 1] == all.last());
            assert(all.contains(all.last()));
        }
        if all.contains(d) {
            let i = all.index_of(d);
            if i < kept.len() {
                assert(kept[i] == d);
                assert(kept.contains(d));
                let k = front.index_of(d);
                assert(s[k] == d);
            }
        }
    }
}

/// A scan that has come to its end shows each device that was found, and nothing else, in the order
/// of the names.
pub proof fn law_scan_shows_all(found: Vec<NearbyDevice>, r: Vec<NearbyDevice>, d: NearbyDevice)
    requires
        call_ensures(settle_scan, (found,), r),
    ensures
        found@.contains(d) ==> exists|e: NearbyDevice| #[trigger]
            r@.contains(e) && e.id@ == d.id@,
        r@.contains(d) ==> found@.contains(d),
{
    let lt = lists::rank_order::<NearbyDevice>();
    lists::lemma_rank_order::<NearbyDevice>();
    let sorted = lists::stable_sorted(found@, lt);
    lists::lemma_sorted_members(found@, lt, d);
    lemma_without_repeats(sorted, d);
}

proof fn lemma_repeats_dropped(s: Seq<NearbyDevice>)
    ensures
        forall|i: int|
            #![trigger without_repeats(s)[i]]
            0 <= i < without_repeats(s).len() - 1 ==> without_repeats(s)[i].id@
                != without_repeats(s)[i + 1].id@,
    decreases s.len(),
{
    if s.len() > 0 {
        lemma_repeats_dropped(s.drop_last());
        let front = without_repeats(s.drop_last());
        let all = without_repeats(s);
        assert forall|i: int|
            #![trigger all[i]]
            0 <= i < all.len() - 1 implies all[i].id@ != all[i + 1].id@ by {
            assert(front[i] == all[i]);
            if i + 1 < front.len() {
                assert(front[i + 1] == all[i + 1]);
            }
        }
    }
}

proof fn lemma_repeats_keep_order(s: Seq<NearbyDevice>)
    requires
        lists::in_order(s, lists::rank_order::<NearbyDevice>()),
    ensures
        lists::in_order(without_repeats(s), lists::rank_order::<NearbyDevice>()),
    decreases s.len(),
{
    let lt = lists::rank_order::<NearbyDevice>();
    if s.len() > 0 {
        let shorter = s.drop_last();
        assert forall|i: int, j: int|
            #![trigger shorter[i], shorter[j]]
            0 <= i < j < shorter.len() implies !lt(shorter[j], shorter[i]) by {
            assert(s[i] == shorter[i] && s[j] == shorter[j]);
        }
        lemma_repeats_keep_order(shorter);
        let front = without_repeats(shorter);
        let all = without_repeats(s);
        assert forall|i: int, j: int|
            #![trigger all[i], all[j]]
            0 <= i < j < all.len() implies !lt(all[j], all[i]) by {
            assert(all[i] == front[i]);
            if j < front.len() {
                assert(all[j] == front[j]);
            } else {
                assert(front.contains(front[i]));
                lemma_without_repeats(shorter, front[i]);
                let k = shorter.index_of(front[i]);
                assert(s[k] == front[i]);
                assert(s[s.len() - 1] == all[j]);
            }
        }
    }
}

/// A scan that has come to its end shows no device twice in a row, and all in the order of their
/// names.
pub proof fn law_scan_is_in_order(found: Vec<NearbyDevice>, r: Vec<NearbyDevice>, i: int)
    requires
        call_ensures(settle_scan, (found,), r),
        0 <= i < r@.len() - 1,
    ensures
        r@[i].id@ != r@[i + 1].id@,
        r@[i].name@ == r@[i + 1].name@ || text::before(r@[i].name@, r@[i + 1].name@),
{
    let lt = lists::rank_order::<NearbyDevice>();
    lists::lemma_rank_order::<NearbyDevice>();
    let sorted = lists::stable_sorted(found@, lt);
    lists::lemma_stable_sorted(found@, lt);
    lemma_repeats_dropped(sorted);
    lemma_repeats_keep_order(sorted);
    assert(!lt(r@[i + 1], r@[i]));
    text::lemma_before_total(r@[i].name@, r@[i + 1].name@);
}

/// A connection is lost after three signs of life in a row have not come.
pub proof fn law_three_signs_may_fail(
    interval: Duration,
    elapsed: Duration,
    r: bool,
)
    requires
        call_ensures(Duration::from_secs, (HEARTBEAT_INTERVAL_SECONDS,), interval),
        call_ensures(heartbeat_timed_out, (elapsed,), r),
    ensures
        r <==> elapsed.nanos >= 3 * interval.nanos,
{
}

} // verus!
