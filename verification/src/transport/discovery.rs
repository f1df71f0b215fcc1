//! How devices in a local network find each other.
use super::handshake;
use crate::clock::Instant;
use crate::digest;
use crate::error::{AppError, AppResult};
use crate::ids::Uuid;
use crate::lists;
use crate::lists::Ranked;
use crate::models::{Endpoint, Notice, NoticeLevel};
use crate::state::devices;
use crate::state::{AppState, NetworkRuntime, ReconnectTarget};
use crate::text;
use vstd::prelude::*;

verus! {

pub const DISCOVERY_PORT: u16 = 37991;

pub const PREFERRED_TCP_PORT: u16 = 37992;

/// The mark of all packets of this protocol.
pub const DISCOVERY_MAGIC: &'static str = "nearweave-discovery-v1";

pub const DISCOVERY_VERSION: u16 = 1;

pub const DISCOVERY_INTERVAL_SECONDS: u64 = 5;

/// The seconds after which a device that no longer announces itself is taken to be gone.
pub const DISCOVERY_TTL_SECONDS: u64 = 7;

pub const MANUAL_QUERY_TIMEOUT_SECONDS: u64 = 3;

pub const MAX_DISCOVERY_PACKET_SIZE: usize = 1024;

/// How often it is said where a network link can be reached.
pub const LINK_ANNOUNCEMENTS: u32 = 6;

/// The milliseconds between two of these announcements.
pub const LINK_ANNOUNCEMENT_MILLIS: u64 = 400;

/// The number of characters in a fingerprint.
pub const FINGERPRINT_LENGTH: usize = 64;

/// How a connected device says where its network link can be reached.
#[derive(Debug)]
pub struct RfcommLanDiscoveryPacket {
    pub magic: String,
    pub device_id: Uuid,
    pub session_id: Uuid,
    pub tcp_port: u16,
}

/// What devices in a local network say to each other before they are connected.
#[derive(Debug)]
pub enum DiscoveryPacket {
    Announcement {
        magic: String,
        version: u16,
        device_id: Uuid,
        device_name: String,
        tcp_port: u16,
        fingerprint: String,
        instance_id: Uuid,
    },
    Query { magic: String, version: u16, request_id: Uuid },
    Response {
        magic: String,
        version: u16,
        request_id: Uuid,
        device_id: Uuid,
        device_name: String,
        tcp_port: u16,
        fingerprint: String,
        instance_id: Uuid,
    },
}

/// A device that has answered.
#[derive(Debug)]
pub struct DiscoveredLanPeer {
    pub device_id: Uuid,
    pub device_name: String,
    pub endpoint: Endpoint,
    pub fingerprint: String,
}

/// What a packet leads to.
#[derive(Debug)]
pub enum DiscoveryReaction {
    Nothing,
    /// The packet is to be sent back.
    Respond(DiscoveryPacket),
    /// The list of devices has been brought up to date.
    Seen,
}

/// A network link that is to be made beside a Bluetooth connection.
#[derive(Debug)]
pub struct LinkPlan {
    pub target: Endpoint,
    pub device_id: Uuid,
    pub session_id: Uuid,
    pub key: Vec<u8>,
    pub bluetooth_generation: Uuid,
}

/// An address that the user has typed, as far as it can be understood.
#[derive(Debug)]
pub enum ManualAddress {
    Endpoint(Endpoint),
    Host(String),
    Invalid,
}

/// What an address that the user has typed leads to.
#[derive(Debug)]
pub enum ManualStep {
    Connect(ReconnectTarget),
    /// The host is to be asked for the port.
    Query(String),
}

/// An IPv4 address of a network interface.
#[derive(Debug)]
pub struct InterfaceAddress {
    pub name: String,
    pub address: u32,
    pub netmask: u32,
    pub broadcast: Option<u32>,
}

/// The packet is one of this protocol.
pub open spec fn is_ours(magic: Seq<char>, version: u16) -> bool {
    magic == DISCOVERY_MAGIC@ && version == DISCOVERY_VERSION
}

/// A hexadecimal digit.
pub open spec fn is_hex(c: char) -> bool {
    '0' <= c <= '9' || 'a' <= c <= 'f' || 'A' <= c <= 'F'
}

/// The digest of a public key in hexadecimal notation.
pub open spec fn is_fingerprint(s: Seq<char>) -> bool {
    s.len() == FINGERPRINT_LENGTH && forall|i: int| 0 <= i < s.len() ==> is_hex(#[trigger] s[i])
}

fn all_hex(chars: &Vec<char>) -> (r: bool)
    ensures
        r == (forall|i: int| 0 <= i < chars@.len() ==> is_hex(#[trigger] chars@[i])),
{
    let mut i: usize = 0;
    while i < chars.len()
        invariant
            i <= chars@.len(),
            forall|k: int| 0 <= k < i ==> is_hex(#[trigger] chars@[k]),
        decreases chars@.len() - i,
    {
        let c: char = chars[i];
        if !(('0' <= c && c <= '9') || ('a' <= c && c <= 'f') || ('A' <= c && c <= 'F')) {
            return false;
        }
        i = i + 1;
    }
    true
}

/// Refuses a name that cannot be shown and a fingerprint that is none.
pub fn validate_discovery_identity(device_name: &str, public_fingerprint: &str) -> (r: AppResult<
    (),
>)
    ensures
        if !handshake::is_showable_name(device_name@) {
            r matches Err(e) && e.is_protocol("局域网设备名称无效"@)
        } else if !is_fingerprint(public_fingerprint@) {
            r matches Err(e) && e.is_protocol("局域网设备身份指纹无效"@)
        } else {
            r is Ok
        },
{
    if !handshake::showable_name(device_name) {
        return Err(AppError::protocol("局域网设备名称无效"));
    }
    let chars = text::chars_of(public_fingerprint);
    if chars.len() != FINGERPRINT_LENGTH || !all_hex(&chars) {
        return Err(AppError::protocol("局域网设备身份指纹无效"));
    }
    Ok(())
}

/// The question that is put to a host whose port is not known.
pub fn query_packet(request_id: Uuid) -> (r: DiscoveryPacket)
    ensures
        r matches DiscoveryPacket::Query { magic, version, request_id: id } && is_ours(
            magic@,
            version,
        ) && id == request_id,
{
    DiscoveryPacket::Query {
        magic: String::from_str(DISCOVERY_MAGIC),
        version: DISCOVERY_VERSION,
        request_id,
    }
}

/// The packet answers this question in a way that can be used.
pub open spec fn answers(packet: DiscoveryPacket, asked: Uuid) -> bool {
    match packet {
        DiscoveryPacket::Response { magic, version, request_id, tcp_port, .. } => is_ours(
            magic@,
            version,
        ) && request_id == asked && tcp_port != 0,
        _ => false,
    }
}

/// The device that has answered a question from this host.
pub fn check_response(packet: DiscoveryPacket, asked: Uuid, source: String) -> (r: AppResult<
    DiscoveredLanPeer,
>)
    ensures
        if !answers(packet, asked) {
            r matches Err(e) && e.is_protocol("局域网查询响应无效"@)
        } else if !handshake::is_showable_name(packet->Response_device_name@) {
            r matches Err(e) && e.is_protocol("局域网设备名称无效"@)
        } else if !is_fingerprint(packet->Response_fingerprint@) {
            r matches Err(e) && e.is_protocol("局域网设备身份指纹无效"@)
        } else {
            r == Ok::<DiscoveredLanPeer, AppError>(
                DiscoveredLanPeer {
                    device_id: packet->Response_device_id,
                    device_name: packet->Response_device_name,
                    endpoint: Endpoint { host: source, port: packet->Response_tcp_port },
                    fingerprint: packet->Response_fingerprint,
                },
            )
        },
{
    match packet {
        DiscoveryPacket::Response {
            magic,
            version,
            request_id,
            device_id,
            device_name,
            tcp_port,
            fingerprint,
            instance_id: _,
        } => {
            if !text::same(&magic, DISCOVERY_MAGIC) || version != DISCOVERY_VERSION || request_id
                != asked || tcp_port == 0 {
                return Err(AppError::protocol("局域网查询响应无效"));
            }
            match validate_discovery_identity(&device_name, &fingerprint) {
                Err(e) => Err(e),
                Ok(()) => Ok(
                    DiscoveredLanPeer {
                        device_id,
                        device_name,
                        endpoint: Endpoint { host: source, port: tcp_port },
                        fingerprint,
                    },
                ),
            }
        },
        _ => Err(AppError::protocol("局域网查询响应无效")),
    }
}

/// What the user is told when a host has not answered.
pub fn query_timeout(host: &str) -> (r: AppError)
    ensures
        r.is_protocol(
            "未收到 "@ + host@
                + " 的局域网查询响应，请确认对方已开启 NearWeave 连接，或输入 IP:端口"@,
        ),
{
    AppError::Protocol(
        text::joined3(
            "未收到 ",
            host,
            " 的局域网查询响应，请确认对方已开启 NearWeave 连接，或输入 IP:端口",
        ),
    )
}

/// The address that the user has typed, without the space around it.
pub fn manual_input(input: &str) -> (r: AppResult<String>)
    ensures
        match r {
            Ok(address) => text::trimmed(input@).len() > 0 && address@ == text::trimmed(input@),
            Err(e) => text::trimmed(input@).len() == 0 && e.is_invalid_input(
                "请输入 IP 地址或 IP:端口"@,
            ),
        },
{
    let trimmed = text::trim(input);
    if trimmed.unicode_len() == 0 {
        return Err(AppError::invalid_input("请输入 IP 地址或 IP:端口"));
    }
    Ok(trimmed)
}

/// What an address that the user has typed leads to.
pub fn manual_step(address: ManualAddress) -> (r: AppResult<ManualStep>)
    ensures
        match address {
            ManualAddress::Endpoint(endpoint) => {
                &&& r matches Ok(ManualStep::Connect(target))
                &&& target.device_id is None
                &&& target.display_name == endpoint.host
                &&& target.lan_endpoint == Some(endpoint)
                &&& target.bluetooth_endpoint is None
            },
            ManualAddress::Host(host) => r == Ok::<ManualStep, AppError>(ManualStep::Query(host)),
            ManualAddress::Invalid => r matches Err(e) && e.is_invalid_input(
                "请输入有效的 IPv4、IPv6 或 IP:端口"@,
            ),
        },
{
    match address {
        ManualAddress::Endpoint(endpoint) => Ok(
            ManualStep::Connect(super::connecting::target_at(endpoint)),
        ),
        ManualAddress::Host(host) => Ok(ManualStep::Query(host)),
        ManualAddress::Invalid => Err(
            AppError::invalid_input("请输入有效的 IPv4、IPv6 或 IP:端口"),
        ),
    }
}

impl AppState {
    /// How this device announces itself.
    pub open spec fn is_announcement(&self, packet: DiscoveryPacket, runtime: NetworkRuntime) -> bool {
        packet matches DiscoveryPacket::Announcement {
            magic,
            version,
            device_id,
            device_name,
            tcp_port,
            fingerprint,
            instance_id,
        } && {
            &&& is_ours(magic@, version)
            &&& device_id == self.device_id
            &&& device_name@ == self.device_name@
            &&& tcp_port == runtime.tcp_port
            &&& fingerprint@ == digest::digest_text(self.identity.public_key@)
            &&& instance_id == runtime.instance_id
        }
    }

    /// How this device announces itself.
    pub fn announcement_packet(&self, runtime: &NetworkRuntime) -> (r: DiscoveryPacket)
        ensures
            self.is_announcement(r, *runtime),
    {
        DiscoveryPacket::Announcement {
            magic: String::from_str(DISCOVERY_MAGIC),
            version: DISCOVERY_VERSION,
            device_id: self.device_id,
            device_name: self.device_name.clone(),
            tcp_port: runtime.tcp_port,
            fingerprint: self.identity.fingerprint(),
            instance_id: runtime.instance_id,
        }
    }

    /// This device announces itself: the local network may be used, and the services run.
    pub open spec fn announces(&self) -> bool {
        self.lan_enabled && self.listening && self.network_runtime is Some
    }

    /// The announcement that is due, while the service runs and the local network may be used.
    pub fn due_announcement(&self) -> (r: Option<DiscoveryPacket>)
        ensures
            r is Some <==> self.announces(),
            r matches Some(packet) ==> self.is_announcement(packet, self.network_runtime->0),
    {
        if !self.receiver_enabled() || !self.lan_enabled() {
            return None;
        }
        match self.network_runtime() {
            Some(runtime) => Some(self.announcement_packet(runtime)),
            None => None,
        }
    }

    /// How this device answers a question.
    pub open spec fn is_response(
        &self,
        packet: DiscoveryPacket,
        runtime: NetworkRuntime,
        asked: Uuid,
    ) -> bool {
        packet matches DiscoveryPacket::Response {
            magic,
            version,
            request_id,
            device_id,
            device_name,
            tcp_port,
            fingerprint,
            instance_id,
        } && {
            &&& is_ours(magic@, version)
            &&& request_id == asked
            &&& device_id == self.device_id
            &&& device_name@ == self.device_name@
            &&& tcp_port == runtime.tcp_port
            &&& fingerprint@ == digest::digest_text(self.identity.public_key@)
            &&& instance_id == runtime.instance_id
        }
    }

    /// How this device answers a question.
    pub fn response_packet(&self, runtime: &NetworkRuntime, request_id: Uuid) -> (r:
        DiscoveryPacket)
        ensures
            self.is_response(r, *runtime, request_id),
    {
        DiscoveryPacket::Response {
            magic: String::from_str(DISCOVERY_MAGIC),
            version: DISCOVERY_VERSION,
            request_id,
            device_id: self.device_id,
            device_name: self.device_name.clone(),
            tcp_port: runtime.tcp_port,
            fingerprint: self.identity.fingerprint(),
            instance_id: runtime.instance_id,
        }
    }

    /// This device takes notice of another that presents itself like this.
    pub open spec fn notices(
        &self,
        magic: Seq<char>,
        version: u16,
        device_id: Uuid,
        device_name: Seq<char>,
        tcp_port: u16,
        fingerprint: Seq<char>,
    ) -> bool {
        &&& is_ours(magic, version)
        &&& device_id != self.device_id
        &&& tcp_port != 0
        &&& handshake::is_showable_name(device_name)
        &&& is_fingerprint(fingerprint)
    }

    /// What another device that presents itself changes.
    pub open spec fn sees(
        pre: AppState,
        post: AppState,
        device_id: Uuid,
        device_name: Seq<char>,
        endpoint: (Seq<char>, u16),
        fingerprint: Seq<char>,
        now: Instant,
    ) -> bool {
        &&& post == (AppState {
            devices: post.devices,
            lan_last_seen: post.lan_last_seen,
            ..pre
        })
        &&& post.lan_last_seen@ == pre.lan_last_seen@.insert(device_id, now)
        &&& post.seen() == devices::after_announcement(
            pre.seen(),
            device_id,
            device_name,
            endpoint,
            pre.trusts_fingerprint(device_id, fingerprint),
        )
    }

    fn take_notice(
        &mut self,
        magic: &str,
        version: u16,
        device_id: Uuid,
        device_name: String,
        endpoint: Endpoint,
        fingerprint: &str,
        now: Instant,
    ) -> (r: DiscoveryReaction)
        requires
            old(self).wf(),
        ensures
            final(self).wf(),
            if old(self).notices(
                magic@,
                version,
                device_id,
                device_name@,
                endpoint.port,
                fingerprint@,
            ) {
                r is Seen && AppState::sees(
                    *old(self),
                    *final(self),
                    device_id,
                    device_name@,
                    (endpoint.host@, endpoint.port),
                    fingerprint@,
                    now,
                )
            } else {
                r is Nothing && *final(self) == *old(self)
            },
    {
        if !text::same(magic, DISCOVERY_MAGIC) || version != DISCOVERY_VERSION || device_id
            == self.device_id || endpoint.port == 0 || validate_discovery_identity(
            &device_name,
            fingerprint,
        ).is_err() {
            return DiscoveryReaction::Nothing;
        }
        self.upsert_lan_device(device_id, device_name, endpoint, fingerprint, now);
        DiscoveryReaction::Seen
    }

    /// Takes a packet from a host: a question is answered while the service runs, and another
    /// device that presents itself properly is put on the list.
    pub fn accept_discovery(&mut self, packet: DiscoveryPacket, source: String, now: Instant) -> (r:
        DiscoveryReaction)
        requires
            old(self).wf(),
        ensures
            final(self).wf(),
            match packet {
                DiscoveryPacket::Query { magic, version, request_id } => {
                    &&& *final(self) == *old(self)
                    &&& if is_ours(magic@, version) && old(self).listening && old(
                        self,
                    ).network_runtime is Some {
                        r matches DiscoveryReaction::Respond(answer) && old(self).is_response(
                            answer,
                            old(self).network_runtime->0,
                            request_id,
                        )
                    } else {
                        r is Nothing
                    }
                },
                DiscoveryPacket::Announcement {
                    magic,
                    version,
                    device_id,
                    device_name,
                    tcp_port,
                    fingerprint,
                    instance_id,
                } => if old(self).notices(
                    magic@,
                    version,
                    device_id,
                    device_name@,
                    tcp_port,
                    fingerprint@,
                ) {
                    r is Seen && AppState::sees(
                        *old(self),
                        *final(self),
                        device_id,
                        device_name@,
                        (source@, tcp_port),
                        fingerprint@,
                        now,
                    )
                } else {
                    r is Nothing && *final(self) == *old(self)
                },
                DiscoveryPacket::Response {
                    magic,
                    version,
                    request_id,
                    device_id,
                    device_name,
                    tcp_port,
                    fingerprint,
                    instance_id,
                } => if old(self).notices(
                    magic@,
                    version,
                    device_id,
                    device_name@,
                    tcp_port,
                    fingerprint@,
                ) {
                    r is Seen && AppState::sees(
                        *old(self),
                        *final(self),
                        device_id,
                        device_name@,
                        (source@, tcp_port),
                        fingerprint@,
                        now,
                    )
                } else {
                    r is Nothing && *final(self) == *old(self)
                },
            },
    {
        match packet {
            DiscoveryPacket::Query { magic, version, request_id } => {
                if !text::same(&magic, DISCOVERY_MAGIC) || version != DISCOVERY_VERSION
                    || !self.receiver_enabled() {
                    return DiscoveryReaction::Nothing;
                }
                match self.network_runtime() {
                    Some(runtime) => DiscoveryReaction::Respond(
                        self.response_packet(runtime, request_id),
                    ),
                    None => DiscoveryReaction::Nothing,
                }
            },
            DiscoveryPacket::Announcement {
                magic,
                version,
                device_id,
                device_name,
                tcp_port,
                fingerprint,
                instance_id: _,
            } => self.take_notice(
                &magic,
                version,
                device_id,
                device_name,
                Endpoint { host: source, port: tcp_port },
                &fingerprint,
                now,
            ),
            DiscoveryPacket::Response {
                magic,
                version,
                request_id: _,
                device_id,
                device_name,
                tcp_port,
                fingerprint,
                instance_id: _,
            } => self.take_notice(
                &magic,
                version,
                device_id,
                device_name,
                Endpoint { host: source, port: tcp_port },
                &fingerprint,
                now,
            ),
        }
    }

    /// Puts a device that has answered on the list, and gives where it can be reached.
    pub fn discovered_target(&mut self, peer: DiscoveredLanPeer, now: Instant) -> (r:
        ReconnectTarget)
        requires
            old(self).wf(),
        ensures
            final(self).wf(),
            AppState::sees(
                *old(self),
                *final(self),
                peer.device_id,
                peer.device_name@,
                (peer.endpoint.host@, peer.endpoint.port),
                peer.fingerprint@,
                now,
            ),
            r == (ReconnectTarget {
                device_id: Some(peer.device_id),
                display_name: peer.device_name,
                lan_endpoint: Some(peer.endpoint),
                bluetooth_endpoint: None,
            }),
    {
        self.upsert_lan_device(
            peer.device_id,
            peer.device_name.clone(),
            peer.endpoint.clone(),
            &peer.fingerprint,
            now,
        );
        ReconnectTarget {
            device_id: Some(peer.device_id),
            display_name: peer.device_name,
            lan_endpoint: Some(peer.endpoint),
            bluetooth_endpoint: None,
        }
    }

    /// How this device says to a connected one where its network link can be reached, or what the
    /// user is told where it cannot. Nothing while the services of the local network do not run.
    pub fn link_announcement(&self) -> (r: Option<Result<RfcommLanDiscoveryPacket, Notice>>)
        ensures
            match self.network_runtime {
                None => r is None,
                Some(runtime) => if runtime.discovery_available {
                    r matches Some(Ok(packet)) && packet.magic@ == DISCOVERY_MAGIC@
                        && packet.device_id == self.device_id && packet.session_id
                        == runtime.session_id && packet.tcp_port == runtime.tcp_port
                } else {
                    r matches Some(Err(notice)) && notice.level == NoticeLevel::Info
                        && notice.message@ == "UDP "@ + text::decimal_of(DISCOVERY_PORT as nat)
                        + " 不可用，无法建立蓝牙加速链路"@
                },
            },
    {
        match self.network_runtime() {
            None => None,
            Some(runtime) => {
                if !runtime.discovery_available {
                    let port = text::decimal(DISCOVERY_PORT as u128);
                    return Some(
                        Err(
                            Notice {
                                level: NoticeLevel::Info,
                                message: text::joined3(
                                    "UDP ",
                                    &port,
                                    " 不可用，无法建立蓝牙加速链路",
                                ),
                            },
                        ),
                    );
                }
                Some(
                    Ok(
                        RfcommLanDiscoveryPacket {
                            magic: String::from_str(DISCOVERY_MAGIC),
                            device_id: self.device_id,
                            session_id: runtime.session_id,
                            tcp_port: runtime.tcp_port,
                        },
                    ),
                )
            },
        }
    }

    /// The packet comes from a device with which this one is to make a network link: the session
    /// is the one that the device has offered over Bluetooth, this device has the lower
    /// identifier, and there is no such link yet.
    pub open spec fn is_to_link(&self, packet: RfcommLanDiscoveryPacket) -> bool {
        &&& packet.magic@ == DISCOVERY_MAGIC@
        &&& packet.device_id != self.device_id
        &&& self.network_peers@.dom().contains(packet.device_id)
        &&& self.network_peers@[packet.device_id].device_id == packet.device_id
        &&& self.network_peers@[packet.device_id].session_id == packet.session_id
        &&& self.device_id.value < packet.device_id.value
        &&& !self.network_connections@.dom().contains(packet.device_id)
    }

    /// Takes word of where the network link of a connected device can be reached. Gives the link
    /// that is to be made, unless that is under way already.
    pub fn process_rfcomm_lan_discovery(
        &mut self,
        packet: RfcommLanDiscoveryPacket,
        source: String,
    ) -> (r: Option<LinkPlan>)
        requires
            old(self).wf(),
        ensures
            final(self).wf(),
            *final(self) == (AppState {
                network_connecting: final(self).network_connecting,
                ..*old(self)
            }),
            r is Some <==> old(self).is_to_link(packet) && !old(
                self,
            ).network_connecting@.dom().contains(packet.device_id),
            final(self).network_connecting@ == if old(self).is_to_link(packet) {
                old(self).network_connecting@.insert(packet.device_id, ())
            } else {
                old(self).network_connecting@
            },
            r matches Some(plan) ==> {
                let peer = old(self).network_peers@[packet.device_id];
                &&& plan.target == (Endpoint { host: source, port: packet.tcp_port })
                &&& plan.device_id == packet.device_id
                &&& plan.session_id == peer.session_id
                &&& plan.key@ == peer.key@
                &&& plan.bluetooth_generation == peer.bluetooth_generation
            },
    {
        if !text::same(&packet.magic, DISCOVERY_MAGIC) || packet.device_id == self.device_id {
            return None;
        }
        let (session_id, key, bluetooth_generation) = match self.network_peer(packet.device_id) {
            None => {
                return None;
            },
            Some(peer) => {
                if peer.device_id != packet.device_id || peer.session_id != packet.session_id {
                    return None;
                }
                let key = crate::bytes::copy_range(peer.key.as_slice(), 0, peer.key.len());
                proof {
                    assert(key@ =~= peer.key@);
                }
                (peer.session_id, key, peer.bluetooth_generation)
            },
        };
        if self.device_id.value >= packet.device_id.value || self.has_network_connection(
            packet.device_id,
        ) || !self.begin_network_connect(packet.device_id) {
            proof {
                assert(self.network_connecting@ =~= if old(self).is_to_link(packet) {
                    old(self).network_connecting@.insert(packet.device_id, ())
                } else {
                    old(self).network_connecting@
                });
            }
            return None;
        }
        Some(
            LinkPlan {
                target: Endpoint { host: source, port: packet.tcp_port },
                device_id: packet.device_id,
                session_id,
                key,
                bluetooth_generation,
            },
        )
    }

    /// Gives up a network link that could not be made.
    pub fn link_failed(&mut self, device_id: Uuid, error: &AppError) -> (r: Notice)
        requires
            old(self).wf(),
        ensures
            final(self).wf(),
            *final(self) == (AppState {
                network_connecting: final(self).network_connecting,
                ..*old(self)
            }),
            final(self).network_connecting@ == old(self).network_connecting@.remove(device_id),
            r.level == NoticeLevel::Info,
            r.message@ == "局域网高速链路连接失败，继续使用蓝牙："@ + error.message(),
    {
        self.finish_network_connect(device_id);
        Notice {
            level: NoticeLevel::Info,
            message: text::joined(
                "局域网高速链路连接失败，继续使用蓝牙：",
                &error.to_string(),
            ),
        }
    }

    /// Notes that the discovery service has ended with an error.
    pub fn discovery_failed(&mut self, cause: &str, is_current: bool)
        ensures
            final(self).discovery_error is Some,
            final(self).discovery_error->0@ == "局域网发现接收失败："@ + cause@,
            *final(self) == (AppState {
                discovery_error: final(self).discovery_error,
                network_runtime: match old(self).network_runtime {
                    Some(runtime) => Some(
                        NetworkRuntime {
                            discovery_available: runtime.discovery_available && !is_current,
                            ..runtime
                        },
                    ),
                    None => None,
                },
                ..*old(self)
            }),
    {
        if is_current {
            self.set_discovery_available(false);
        }
        self.set_discovery_error(Some(text::joined("局域网发现接收失败：", cause)));
    }

    /// Notes whether the discovery service could be started again beside the TCP service. Gives
    /// an error where it could not, and says whether it now has to be served.
    pub fn discovery_retried(&mut self, bound: Result<(), String>) -> (r: AppResult<bool>)
        ensures
            match old(self).network_runtime {
                None => {
                    &&& r matches Err(e)
                    &&& e.is_protocol("局域网 TCP 服务尚未就绪"@)
                    &&& *final(self) == *old(self)
                },
                Some(runtime) => if runtime.discovery_available {
                    &&& r == Ok::<bool, AppError>(false)
                    &&& *final(self) == (AppState { discovery_error: None, ..*old(self) })
                } else {
                    match bound {
                        Ok(()) => {
                            &&& r == Ok::<bool, AppError>(true)
                            &&& *final(self) == (AppState {
                                discovery_error: None,
                                network_runtime: Some(
                                    NetworkRuntime { discovery_available: true, ..runtime },
                                ),
                                ..*old(self)
                            })
                        },
                        Err(detail) => {
                            &&& r matches Err(e)
                            &&& e.is_protocol(detail@)
                            &&& *final(self) == (AppState {
                                discovery_error: Some(detail),
                                ..*old(self)
                            })
                        },
                    }
                },
            },
    {
        let available = match self.network_runtime() {
            None => {
                return Err(AppError::protocol("局域网 TCP 服务尚未就绪"));
            },
            Some(runtime) => runtime.discovery_available,
        };
        if available {
            self.set_discovery_error(None);
            return Ok(false);
        }
        match bound {
            Ok(()) => {
                self.set_discovery_available(true);
                self.set_discovery_error(None);
                Ok(true)
            },
            Err(detail) => {
                self.set_discovery_error(Some(detail.clone()));
                Err(AppError::Protocol(detail))
            },
        }
    }
}

/// Why the discovery service could not be started.
pub fn discovery_bind_fault(cause: &str) -> (r: String)
    ensures
        r@ == "局域网发现端口 UDP "@ + text::decimal_of(DISCOVERY_PORT as nat)
            + " 被占用或不可用："@ + cause@,
{
    let port = text::decimal(DISCOVERY_PORT as u128);
    let mut out = text::joined3("局域网发现端口 UDP ", &port, " 被占用或不可用：");
    out.append(cause);
    out
}

/// Why packets cannot be sent to all devices.
pub fn broadcast_fault(cause: &str) -> (r: String)
    ensures
        r@ == "无法启用局域网广播："@ + cause@,
{
    text::joined("无法启用局域网广播：", cause)
}

/// Why the TCP service could not be started on any port.
pub fn tcp_bind_fault(preferred: &str, dynamic: &str) -> (r: AppError)
    ensures
        r matches AppError::Io(detail) && detail@ == "固定端口 "@ + text::decimal_of(
            PREFERRED_TCP_PORT as nat,
        ) + " 被占用（"@ + preferred@ + "），动态端口也无法监听（"@ + dynamic@ + "）"@,
{
    let port = text::decimal(PREFERRED_TCP_PORT as u128);
    let mut out = text::joined3("固定端口 ", &port, " 被占用（");
    out.append(preferred);
    out.append("），动态端口也无法监听（");
    out.append(dynamic);
    out.append("）");
    AppError::Io(out)
}

/// The address can be reached from other devices: it is neither loopback, nor link-local, nor
/// unspecified.
pub open spec fn is_reachable(address: u32) -> bool {
    &&& address / 0x100_0000 != 127
    &&& address / 0x1_0000 != 169 * 256 + 254
    &&& address != 0
}

fn reachable(address: u32) -> (r: bool)
    ensures
        r == is_reachable(address),
{
    address / 0x100_0000 != 127 && address / 0x1_0000 != 169 * 256 + 254 && address != 0
}

/// Four numbers with points between them.
pub open spec fn dotted(address: u32) -> Seq<char> {
    text::decimal_of((address / 0x100_0000) as nat) + "."@ + text::decimal_of(
        (address / 0x1_0000 % 256) as nat,
    ) + "."@ + text::decimal_of((address / 0x100 % 256) as nat) + "."@ + text::decimal_of(
        (address % 256) as nat,
    )
}

/// An IPv4 address in its usual notation.
pub fn to_dotted(address: u32) -> (r: String)
    ensures
        r@ == dotted(address),
{
    let mut out = text::decimal((address / 0x100_0000) as u128);
    out.append(".");
    out.append(&text::decimal((address / 0x1_0000 % 256) as u128));
    out.append(".");
    out.append(&text::decimal((address / 0x100 % 256) as u128));
    out.append(".");
    out.append(&text::decimal((address % 256) as u128));
    out
}

impl Ranked for String {
    /// Texts stand in the order of their characters.
    open spec fn precedes(&self, other: &Self) -> bool {
        text::before(self@, other@)
    }

    proof fn lemma_asymmetric(a: &Self, b: &Self) {
        if text::before(b@, a@) {
            text::lemma_before_transitive(a@, b@, a@);
            text::lemma_before_irreflexive(a@);
        }
    }

    proof fn lemma_negatively_transitive(a: &Self, b: &Self, c: &Self) {
        text::lemma_before_total(a@, b@);
        text::lemma_before_total(b@, c@);
        if text::before(a@, c@) && a@ != b@ && text::before(b@, a@) {
            text::lemma_before_transitive(b@, a@, c@);
        }
    }

    fn comes_before(&self, other: &Self) -> (r: bool) {
        text::less(self, other)
    }
}

impl Ranked for u32 {
    /// Numbers stand in their usual order.
    open spec fn precedes(&self, other: &Self) -> bool {
        *self < *other
    }

    proof fn lemma_asymmetric(a: &Self, b: &Self) {
    }

    proof fn lemma_negatively_transitive(a: &Self, b: &Self, c: &Self) {
    }

    fn comes_before(&self, other: &Self) -> (r: bool) {
        *self < *other
    }
}

/// How an address is shown together with the port under which this device can be reached.
pub open spec fn shown_address(interface: InterfaceAddress, port: u16) -> Seq<char> {
    interface.name@ + " · "@ + dotted(interface.address) + ":"@ + text::decimal_of(port as nat)
}

/// The reachable addresses, as they are shown, in the order of the interfaces.
pub open spec fn shown_addresses(interfaces: Seq<InterfaceAddress>, port: u16) -> Seq<Seq<char>>
    decreases interfaces.len(),
{
    if interfaces.len() == 0 {
        Seq::empty()
    } else {
        let front = shown_addresses(interfaces.drop_last(), port);
        if is_reachable(interfaces.last().address) {
            front.push(shown_address(interfaces.last(), port))
        } else {
            front
        }
    }
}

/// The order of texts.
pub open spec fn text_order() -> spec_fn(Seq<char>, Seq<char>) -> bool {
    |a: Seq<char>, b: Seq<char>| text::before(a, b)
}

/// The addresses under which this device can be reached, each once and in order.
pub fn local_connection_addresses(interfaces: &Vec<InterfaceAddress>, port: u16) -> (r: Vec<String>)
    ensures
        r@.map_values(|s: String| s@) == lists::runs(
            lists::stable_sorted(shown_addresses(interfaces@, port), text_order()),
            text_order(),
        ),
{
    let mut out: Vec<String> = Vec::new();
    let mut i: usize = 0;
    let ghost view = |s: String| s@;
    proof {
        assert(interfaces@.take(0) =~= Seq::<InterfaceAddress>::empty());
        assert(out@.map_values(view) =~= Seq::<Seq<char>>::empty());
    }
    while i < interfaces.len()
        invariant
            i <= interfaces@.len(),
            view == (|s: String| s@),
            out@.map_values(view) == shown_addresses(interfaces@.take(i as int), port),
        decreases interfaces@.len() - i,
    {
        let interface = &interfaces[i];
        proof {
            assert(interfaces@.take(i + 1).drop_last() =~= interfaces@.take(i as int));
            assert(interfaces@.take(i + 1).last() == *interface);
        }
        if reachable(interface.address) {
            let mut shown = text::joined3(&interface.name, " · ", &to_dotted(interface.address));
            shown.append(":");
            shown.append(&text::decimal(port as u128));
            let ghost before = out@;
            proof {
                assert(shown@ =~= shown_address(*interface, port));
                assert(before.push(shown).map_values(view) =~= before.map_values(view).push(shown@));
            }
            out.push(shown);
        }
        i = i + 1;
    }
    proof {
        assert(interfaces@.take(i as int) =~= interfaces@);
        lists::lemma_sorted_images(out@, view, lists::rank_order::<String>(), text_order());
    }
    lists::sort(&mut out);
    proof {
        lists::lemma_runs_images(out@, view, lists::rank_order::<String>(), text_order());
    }
    lists::dedup(out)
}

/// The address that reaches all devices behind an interface.
pub open spec fn broadcast_of(interface: InterfaceAddress) -> u32 {
    match interface.broadcast {
        Some(address) => address,
        None => interface.address | !interface.netmask,
    }
}

/// The addresses that reach all devices behind each interface, in the order of the interfaces.
pub open spec fn broadcasts(interfaces: Seq<InterfaceAddress>) -> Seq<u32>
    decreases interfaces.len(),
{
    if interfaces.len() == 0 {
        Seq::empty()
    } else {
        let front = broadcasts(interfaces.drop_last());
        if is_reachable(interfaces.last().address) {
            front.push(broadcast_of(interfaces.last()))
        } else {
            front
        }
    }
}

/// The addresses to which announcements are sent, each once and in order: those that reach all
/// devices behind an interface, and the one for all devices.
pub fn local_broadcast_targets(interfaces: &Vec<InterfaceAddress>) -> (r: Vec<u32>)
    ensures
        r@ == lists::runs(
            lists::stable_sorted(
                broadcasts(interfaces@).push(u32::MAX),
                lists::rank_order::<u32>(),
            ),
            lists::rank_order::<u32>(),
        ),
{
    let mut out: Vec<u32> = Vec::new();
    let mut i: usize = 0;
    proof {
        assert(interfaces@.take(0) =~= Seq::<InterfaceAddress>::empty());
    }
    while i < interfaces.len()
        invariant
            i <= interfaces@.len(),
            out@ == broadcasts(interfaces@.take(i as int)),
        decreases interfaces@.len() - i,
    {
        let interface = &interfaces[i];
        proof {
            assert(interfaces@.take(i + 1).drop_last() =~= interfaces@.take(i as int));
            assert(interfaces@.take(i + 1).last() == *interface);
        }
        if reachable(interface.address) {
            let address: u32 = match interface.broadcast {
                Some(address) => address,
                None => interface.address | !interface.netmask,
            };
            out.push(address);
        }
        i = i + 1;
    }
    proof {
        assert(interfaces@.take(i as int) =~= interfaces@);
    }
    out.push(u32::MAX);
    lists::sort(&mut out);
    lists::dedup(out)
}

/// An announcement reaches every device that can be reached by one packet.
pub proof fn law_announcements_go_everywhere(interfaces: Seq<InterfaceAddress>)
    ensures
        lists::runs(
            lists::stable_sorted(
                broadcasts(interfaces).push(u32::MAX),
                lists::rank_order::<u32>(),
            ),
            lists::rank_order::<u32>(),
        ).contains(u32::MAX),
{
    broadcast use vstd::seq_lib::group_to_multiset_ensures;

    let lt = lists::rank_order::<u32>();
    let s = broadcasts(interfaces).push(u32::MAX);
    lists::lemma_rank_order::<u32>();
    lists::lemma_stable_sorted(s, lt);
    assert(s[s.len() - 1] == u32::MAX);
    assert(s.contains(u32::MAX));
    assert(s.to_multiset().contains(u32::MAX));
    let sorted = lists::stable_sorted(s, lt);
    assert(sorted.to_multiset().contains(u32::MAX));
    assert(sorted.contains(u32::MAX));
    lemma_runs_keep(sorted, u32::MAX);
}

proof fn lemma_runs_keep(s: Seq<u32>, x: u32)
    requires
        s.contains(x),
    ensures
        lists::runs(s, lists::rank_order::<u32>()).contains(x),
    decreases s.len(),
{
    let lt = lists::rank_order::<u32>();
    let front = lists::runs(s.drop_last(), lt);
    if s.drop_last().contains(x) {
        lemma_runs_keep(s.drop_last(), x);
        let i = front.index_of(x);
        assert(front.push(s.last())[i] == x);
    } else {
        let i = choose|i: int| 0 <= i < s.len() && s[i] == x;
        assert(i == s.len() - 1) by {
            if i < s.len() - 1 {
                assert(s.drop_last()[i] == x);
            }
        }
        if front.len() > 0 && !lt(front.last(), x) && !lt(x, front.last()) {
            assert(front.last() == x);
        } else {
            assert(front.push(x)[front.len() as int] == x);
        }
    }
}

proof fn lemma_seen(
    pre: AppState,
    post: AppState,
    device_id: Uuid,
    name: Seq<char>,
    address: (Seq<char>, u16),
    fingerprint: Seq<char>,
    now: Instant,
)
    requires
        AppState::sees(pre, post, device_id, name, address, fingerprint, now),
    ensures
        exists|d: devices::DeviceModel| #[trigger]
            post.seen().contains(d) && d.device_id == Some(device_id) && d.name == name
                && d.lan_endpoint == Some(address),
        post.lan_last_seen@.dom().contains(device_id),
        post.lan_last_seen@[device_id] == now,
{
    devices::lemma_announced(
        pre.seen(),
        device_id,
        name,
        address,
        pre.trusts_fingerprint(device_id, fingerprint),
    );
}

/// What one device announces, another sees: it lists the device with its name, the address that the
/// announcement came from, and the port that it has announced.
pub proof fn law_announced_device_is_seen(
    here: AppState,
    runtime: NetworkRuntime,
    packet: DiscoveryPacket,
    name: &str,
    shown: bool,
    own: String,
    there: &mut AppState,
    source: String,
    now: Instant,
    r: DiscoveryReaction,
)
    requires
        call_ensures(crate::identity::DeviceIdentity::fingerprint, (&here.identity,), own),
        call_ensures(AppState::announcement_packet, (&here, &runtime), packet),
        name@ == here.device_name@,
        call_ensures(handshake::showable_name, (name,), shown),
        shown,
        runtime.tcp_port != 0,
        here.device_id != old(there).device_id,
        call_ensures(AppState::accept_discovery, (there, packet, source, now), r),
    ensures
        r is Seen,
        exists|d: devices::DeviceModel| #[trigger]
            final(there).seen().contains(d) && d.device_id == Some(here.device_id) && d.name
                == here.device_name@ && d.lan_endpoint == Some((source@, runtime.tcp_port)),
        final(there).lan_last_seen@.dom().contains(here.device_id),
        final(there).lan_last_seen@[here.device_id] == now,
{
    lemma_fingerprint(here.identity.public_key@);
    lemma_seen(
        *old(there),
        *final(there),
        here.device_id,
        here.device_name@,
        (source@, runtime.tcp_port),
        packet->Announcement_fingerprint@,
        now,
    );
}

proof fn lemma_fingerprint(key: Seq<u8>)
    requires
        digest::digest_text(key).len() == 64,
    ensures
        is_fingerprint(digest::digest_text(key)),
{
    digest::lemma_digest_text(key);
    let f = digest::digest_text(key);
    assert forall|i: int| 0 <= i < f.len() implies is_hex(#[trigger] f[i]) by {}
}

/// A device does not list itself, nor what is not announced in the way of this application.
pub proof fn law_only_other_devices_are_seen(
    app: &mut AppState,
    packet: DiscoveryPacket,
    source: String,
    now: Instant,
    r: DiscoveryReaction,
)
    requires
        call_ensures(AppState::accept_discovery, (app, packet, source, now), r),
    ensures
        packet matches DiscoveryPacket::Announcement {
            magic,
            version,
            device_id,
            device_name,
            tcp_port,
            fingerprint,
            instance_id,
        } ==> (magic@ != "nearweave-discovery-v1"@ || version != 1 || tcp_port == 0
            || device_id == old(app).device_id || fingerprint@.len() != 64 ==> r is Nothing),
        packet matches DiscoveryPacket::Query { magic, version, request_id } ==> (
        magic@ != "nearweave-discovery-v1"@ || version != 1 ==> r is Nothing),
        !(r is Seen) ==> *final(app) == *old(app),
{
}

/// A question in the network is answered by each device that listens, with the number of the
/// question, and the answer is taken by the one that has asked: it finds the device there, at the
/// address that the answer came from.
pub proof fn law_question_is_answered(
    request: Uuid,
    question: DiscoveryPacket,
    here: &mut AppState,
    asker: String,
    now: Instant,
    r: DiscoveryReaction,
    answer: DiscoveryPacket,
    source: String,
    name: &str,
    shown: bool,
    own: String,
    found: AppResult<DiscoveredLanPeer>,
)
    requires
        call_ensures(crate::identity::DeviceIdentity::fingerprint, (&old(here).identity,), own),
        call_ensures(query_packet, (request,), question),
        call_ensures(AppState::accept_discovery, (here, question, asker, now), r),
        r == DiscoveryReaction::Respond(answer),
        call_ensures(check_response, (answer, request, source), found),
        name@ == old(here).device_name@,
        call_ensures(handshake::showable_name, (name,), shown),
    ensures
        old(here).listening && old(here).network_runtime is Some,
        found is Ok <==> shown && old(here).network_runtime->0.tcp_port != 0,
        found matches Ok(peer) ==> peer.device_id == old(here).device_id && peer.device_name@
            == old(here).device_name@ && peer.endpoint.host@ == source@ && peer.endpoint.port
            == old(here).network_runtime->0.tcp_port && peer.fingerprint@ == own@,
{
    lemma_fingerprint(old(here).identity.public_key@);
}

/// Whoever listens answers.
pub proof fn law_listening_device_answers(
    request: Uuid,
    question: DiscoveryPacket,
    here: &mut AppState,
    asker: String,
    now: Instant,
    r: DiscoveryReaction,
)
    requires
        call_ensures(query_packet, (request,), question),
        call_ensures(AppState::accept_discovery, (here, question, asker, now), r),
    ensures
        r is Respond <==> old(here).listening && old(here).network_runtime is Some,
        !(r is Respond) ==> r is Nothing,
        *final(here) == *old(here),
{
}

/// An answer to another question is not taken.
pub proof fn law_stray_answer_is_not_taken(
    packet: DiscoveryPacket,
    asked: Uuid,
    source: String,
    r: AppResult<DiscoveredLanPeer>,
)
    requires
        call_ensures(check_response, (packet, asked, source), r),
        r is Ok,
    ensures
        packet matches DiscoveryPacket::Response {
            magic,
            version,
            request_id,
            device_id,
            device_name,
            tcp_port,
            fingerprint,
            instance_id,
        } && request_id == asked && tcp_port != 0 && magic@ == "nearweave-discovery-v1"@ && version
            == 1 && fingerprint@.len() == 64,
{
}

/// This device announces itself while it listens in the local network, and the user has chosen that;
/// not otherwise.
pub proof fn law_announcements_need_consent(app: AppState, r: Option<DiscoveryPacket>)
    requires
        call_ensures(AppState::due_announcement, (&app,), r),
    ensures
        r is Some <==> app.lan_enabled && app.listening && app.network_runtime is Some,
        r matches Some(packet) ==> (packet matches DiscoveryPacket::Announcement {
            magic,
            version,
            device_id,
            device_name,
            tcp_port,
            fingerprint,
            instance_id,
        } && device_id == app.device_id && device_name@ == app.device_name@ && tcp_port
            == app.network_runtime->0.tcp_port && fingerprint@ == digest::digest_text(
            app.identity.public_key@,
        )),
{
}

/// A device that was found can be connected to where it was found.
pub proof fn law_found_device_is_a_target(
    app: &mut AppState,
    peer: DiscoveredLanPeer,
    now: Instant,
    r: ReconnectTarget,
)
    requires
        call_ensures(AppState::discovered_target, (app, peer, now), r),
    ensures
        r.device_id == Some(peer.device_id),
        r.display_name@ == peer.device_name@,
        r.lan_endpoint == Some(peer.endpoint),
        exists|d: devices::DeviceModel| #[trigger]
            final(app).seen().contains(d) && d.device_id == Some(peer.device_id) && d.lan_endpoint
                == Some((peer.endpoint.host@, peer.endpoint.port)),
{
    lemma_seen(
        *old(app),
        *final(app),
        peer.device_id,
        peer.device_name@,
        (peer.endpoint.host@, peer.endpoint.port),
        peer.fingerprint@,
        now,
    );
}

/// What the user types leads to an address or to a question to a host, and nothing to neither.
pub proof fn law_typed_address_is_used(
    input: &str,
    typed: AppResult<String>,
    endpoint: Endpoint,
    host: String,
    direct: AppResult<ManualStep>,
    asked: AppResult<ManualStep>,
    invalid: AppResult<ManualStep>,
)
    requires
        call_ensures(manual_input, (input,), typed),
        call_ensures(manual_step, (ManualAddress::Endpoint(endpoint),), direct),
        call_ensures(manual_step, (ManualAddress::Host(host),), asked),
        call_ensures(manual_step, (ManualAddress::Invalid,), invalid),
    ensures
        typed is Ok <==> exists|i: int| 0 <= i < input@.len() && !text::is_white(
            #[trigger] input@[i],
        ),
        typed matches Ok(address) ==> address@ == text::trimmed(input@),
        direct matches Ok(ManualStep::Connect(target)) && target.lan_endpoint == Some(endpoint)
            && target.device_id is None,
        asked matches Ok(ManualStep::Query(to)) && to@ == host@,
        invalid is Err,
{
    text::lemma_trimmed_is_blank(input@);
}

/// Of two devices that have agreed on a link, the one with the smaller identifier opens it, once,
/// with the key that was agreed on, where the other has announced it.
pub proof fn law_one_side_opens_the_link(
    here: AppState,
    there: &mut AppState,
    next: &mut AppState,
    packet: RfcommLanDiscoveryPacket,
    source: String,
    r: Option<LinkPlan>,
    again: Option<LinkPlan>,
)
    requires
        call_ensures(
            AppState::link_announcement,
            (&here,),
            Some(Ok::<RfcommLanDiscoveryPacket, Notice>(packet)),
        ),
        call_ensures(AppState::process_rfcomm_lan_discovery, (there, packet, source), r),
        *next == *final(there),
        call_ensures(AppState::process_rfcomm_lan_discovery, (next, packet, source), again),
        old(there).network_peers@.dom().contains(here.device_id),
        old(there).network_peers@[here.device_id].device_id == here.device_id,
        here.network_runtime is Some,
        old(there).network_peers@[here.device_id].session_id
            == here.network_runtime->0.session_id,
    ensures
        r is Some <==> old(there).device_id.value < here.device_id.value
            && !old(there).network_connections@.dom().contains(here.device_id)
            && !old(there).network_connecting@.dom().contains(here.device_id),
        r matches Some(plan) ==> plan.target.host@ == source@ && plan.target.port
            == here.network_runtime->0.tcp_port
                && plan.key@ == old(there).network_peers@[here.device_id].key@
                && plan.device_id == here.device_id
            && plan.session_id == here.network_runtime->0.session_id,
        again is None,
{
}

/// A link is not opened to a device that has not agreed on it, or in another session.
pub proof fn law_link_needs_agreement(
    app: &mut AppState,
    packet: RfcommLanDiscoveryPacket,
    source: String,
    r: Option<LinkPlan>,
)
    requires
        call_ensures(AppState::process_rfcomm_lan_discovery, (app, packet, source), r),
        r is Some,
    ensures
        packet.magic@ == "nearweave-discovery-v1"@,
        old(app).network_peers@.dom().contains(packet.device_id),
        old(app).network_peers@[packet.device_id].session_id == packet.session_id,
        old(app).device_id.value < packet.device_id.value,
{
}

/// A link that could not be opened can be tried again.
pub proof fn law_failed_link_can_be_tried_again(
    app: &mut AppState,
    next: &mut AppState,
    device_id: Uuid,
    error: AppError,
    told: Notice,
    r: bool,
)
    requires
        call_ensures(AppState::link_failed, (app, device_id, &error), told),
        *next == *final(app),
        call_ensures(AppState::begin_network_connect, (next, device_id), r),
    ensures
        r,
{
}

/// Discovery that has failed is shown as failed, and is over when it has been set up again.
pub proof fn law_discovery_is_set_up_again(
    app: &mut AppState,
    next: &mut AppState,
    cause: &str,
    r: AppResult<bool>,
)
    requires
        call_ensures(AppState::discovery_failed, (app, cause, true), ()),
        *next == *final(app),
        call_ensures(AppState::discovery_retried, (next, Ok::<(), String>(())), r),
        old(app).network_runtime is Some,
    ensures
        final(app).discovery_error is Some,
        final(app).network_runtime matches Some(runtime) && !runtime.discovery_available,
        r == Ok::<bool, AppError>(true),
        final(next).discovery_error is None,
        final(next).network_runtime matches Some(runtime) && runtime.discovery_available
            && runtime.tcp_port == old(app).network_runtime->0.tcp_port,
{
}

/// A device presents itself well in the network if its name can be shown and its fingerprint has 64
/// digits.
pub proof fn law_presented_identity_is_checked(
    name: &str,
    fingerprint: &str,
    shown: bool,
    r: AppResult<()>,
)
    requires
        call_ensures(validate_discovery_identity, (name, fingerprint), r),
        call_ensures(handshake::showable_name, (name,), shown),
    ensures
        r is Ok <==> shown && fingerprint@.len() == 64 && forall|i: int|
            0 <= i < 64 ==> '0' <= #[trigger] fingerprint@[i] <= '9' || 'a' <= fingerprint@[i]
                <= 'f' || 'A' <= fingerprint@[i] <= 'F',
{
    let f = fingerprint@;
    if f.len() == 64 {
        if is_fingerprint(f) {
            assert forall|i: int| 0 <= i < 64 implies '0' <= #[trigger] f[i] <= '9' || 'a' <= f[i]
                <= 'f' || 'A' <= f[i] <= 'F' by {
                assert(is_hex(f[i]));
            }
        } else {
            let i = choose|i: int| 0 <= i < f.len() && !is_hex(#[trigger] f[i]);
            assert(!('0' <= f[i] <= '9' || 'a' <= f[i] <= 'f' || 'A' <= f[i] <= 'F'));
        }
    }
}

/// The network is told at each address by which all of it is reached: of each interface that others
/// can reach, and at the one for all.
pub proof fn law_each_interface_is_announced_on(
    interfaces: Vec<InterfaceAddress>,
    r: Vec<u32>,
    i: int,
)
    requires
        call_ensures(local_broadcast_targets, (&interfaces,), r),
        0 <= i < interfaces@.len(),
    ensures
        r@.contains(u32::MAX),
        is_reachable(interfaces@[i].address) && interfaces@[i].broadcast is Some ==> r@.contains(
            interfaces@[i].broadcast->0,
        ),
        is_reachable(interfaces@[i].address) && interfaces@[i].broadcast is None ==> r@.contains(
            interfaces@[i].address | !interfaces@[i].netmask,
        ),
{
    let all = broadcasts(interfaces@).push(u32::MAX);
    law_announcements_go_everywhere(interfaces@);
    lists::lemma_rank_order::<u32>();
    if is_reachable(interfaces@[i].address) {
        let x = broadcast_of(interfaces@[i]);
        lemma_broadcast(interfaces@, i);
        let k = broadcasts(interfaces@).index_of(x);
        assert(all[k] == x);
        lists::lemma_sorted_members(all, lists::rank_order::<u32>(), x);
        lemma_runs_keep(lists::stable_sorted(all, lists::rank_order::<u32>()), x);
    }
}

proof fn lemma_broadcast(interfaces: Seq<InterfaceAddress>, i: int)
    requires
        0 <= i < interfaces.len(),
        is_reachable(interfaces[i].address),
    ensures
        broadcasts(interfaces).contains(broadcast_of(interfaces[i])),
    decreases interfaces.len(),
{
    let front = broadcasts(interfaces.drop_last());
    let all = broadcasts(interfaces);
    if i == interfaces.len() - 1 {
        assert(all[front.len() as int] == broadcast_of(interfaces[i]));
    } else {
        lemma_broadcast(interfaces.drop_last(), i);
        let k = front.index_of(broadcast_of(interfaces[i]));
        assert(all[k] == broadcast_of(interfaces[i]));
    }
}

/// An address in dotted notation is its four bytes.
pub proof fn law_address_is_dotted(a: u8, b: u8, c: u8, d: u8, address: u32, r: String)
    requires
        address == a * 0x100_0000 + b * 0x1_0000 + c * 0x100 + d,
        call_ensures(to_dotted, (address,), r),
    ensures
        r@ == text::decimal_of(a as nat) + "."@ + text::decimal_of(b as nat) + "."@
            + text::decimal_of(c as nat) + "."@ + text::decimal_of(d as nat),
{
    lemma_address_bytes(a as int, b as int, c as int, d as int);
}

proof fn lemma_address_bytes(a: int, b: int, c: int, d: int)
    requires
        0 <= a < 256,
        0 <= b < 256,
        0 <= c < 256,
        0 <= d < 256,
    ensures
        (a * 0x100_0000 + b * 0x1_0000 + c * 0x100 + d) / 0x100_0000 == a,
        (a * 0x100_0000 + b * 0x1_0000 + c * 0x100 + d) / 0x1_0000 == a * 256 + b,
        (a * 256 + b) % 256 == b,
        (a * 0x100_0000 + b * 0x1_0000 + c * 0x100 + d) / 0x100 == (a * 256 + b) * 256 + c,
        ((a * 256 + b) * 256 + c) % 256 == c,
        (a * 0x100_0000 + b * 0x1_0000 + c * 0x100 + d) % 256 == d,
{
}

/// Addresses of this machine alone, and those that were not given by anyone, are not announced on.
pub proof fn law_reachable_addresses(a: u8, b: u8, c: u8, d: u8, address: u32)
    requires
        address == a * 0x100_0000 + b * 0x1_0000 + c * 0x100 + d,
    ensures
        is_reachable(address) <==> a != 127 && !(a == 169 && b == 254) && address != 0,
{
    lemma_address_bytes(a as int, b as int, c as int, d as int);
}

/// The user is shown each address at which others can reach this device, with the port, and no other
/// address.
pub proof fn law_reachable_addresses_are_shown(
    interfaces: Vec<InterfaceAddress>,
    port: u16,
    i: int,
    address: String,
    number: String,
    r: Vec<String>,
)
    requires
        call_ensures(local_connection_addresses, (&interfaces, port), r),
        0 <= i < interfaces@.len(),
        is_reachable(interfaces@[i].address),
        call_ensures(to_dotted, (interfaces@[i].address,), address),
        call_ensures(text::decimal, (port as u128,), number),
    ensures
        exists|k: int|
            0 <= k < r@.len() && (#[trigger] r@[k])@ == interfaces@[i].name@ + " · "@ + address@
                + ":"@ + number@,
{
    let x = shown_address(interfaces@[i], port);
    let all = shown_addresses(interfaces@, port);
    lemma_shown(interfaces@, port, i);
    lemma_text_order();
    lists::lemma_sorted_members(all, text_order(), x);
    let sorted = lists::stable_sorted(all, text_order());
    lemma_text_runs_keep(sorted, x);
    let shown = r@.map_values(|s: String| s@);
    let k = shown.index_of(x);
    assert(shown[k] == r@[k]@);
}

proof fn lemma_text_order()
    ensures
        lists::is_ranking(text_order()),
{
    let lt = text_order();
    assert forall|a: Seq<char>, b: Seq<char>| #[trigger] lt(a, b) implies !lt(b, a) by {
        if text::before(b, a) {
            text::lemma_before_transitive(a, b, a);
            text::lemma_before_irreflexive(a);
        }
    }
    assert forall|a: Seq<char>, b: Seq<char>, c: Seq<char>|
        #![trigger lt(a, b), lt(b, c)]
        !lt(a, b) && !lt(b, c) implies !lt(a, c) by {
        text::lemma_before_total(a, b);
        text::lemma_before_total(b, c);
        if text::before(a, c) && a != b && text::before(b, a) {
            text::lemma_before_transitive(b, a, c);
        }
    }
}

proof fn lemma_shown(interfaces: Seq<InterfaceAddress>, port: u16, i: int)
    requires
        0 <= i < interfaces.len(),
        is_reachable(interfaces[i].address),
    ensures
        shown_addresses(interfaces, port).contains(shown_address(interfaces[i], port)),
    decreases interfaces.len(),
{
    let front = shown_addresses(interfaces.drop_last(), port);
    let all = shown_addresses(interfaces, port);
    let x = shown_address(interfaces[i], port);
    if i == interfaces.len() - 1 {
        assert(all[front.len() as int] == x);
    } else {
        lemma_shown(interfaces.drop_last(), port, i);
        let k = front.index_of(x);
        assert(all[k] == x);
    }
}

proof fn lemma_text_runs_keep(s: Seq<Seq<char>>, x: Seq<char>)
    requires
        s.contains(x),
    ensures
        lists::runs(s, text_order()).contains(x),
    decreases s.len(),
{
    let front = lists::runs(s.drop_last(), text_order());
    let all = lists::runs(s, text_order());
    if s.drop_last().contains(x) {
        lemma_text_runs_keep(s.drop_last(), x);
        let k = front.index_of(x);
        assert(all[k] == x);
    } else {
        let i = s.index_of(x);
        assert(i == s.len() - 1 || s.drop_last()[i] == x);
        let lt = text_order();
        if front.len() > 0 && !lt(front.last(), s.last()) && !lt(s.last(), front.last()) {
            text::lemma_before_total(front.last(), s.last());
            assert(all[front.len() - 1] == x);
        } else {
            assert(all[front.len() as int] == x);
        }
    }
}

/// No address is told twice.
pub proof fn law_no_address_is_told_twice(
    interfaces: Vec<InterfaceAddress>,
    port: u16,
    targets: Vec<u32>,
    shown: Vec<String>,
    i: int,
    j: int,
)
    requires
        call_ensures(local_broadcast_targets, (&interfaces,), targets),
        call_ensures(local_connection_addresses, (&interfaces, port), shown),
        0 <= i < j,
    ensures
        j < targets@.len() ==> targets@[i] < targets@[j],
        j < shown@.len() ==> text::before(shown@[i]@, shown@[j]@) && shown@[i]@ != shown@[j]@,
{
    let lt = lists::rank_order::<u32>();
    lists::lemma_rank_order::<u32>();
    let sorted = lists::stable_sorted(broadcasts(interfaces@).push(u32::MAX), lt);
    lists::lemma_stable_sorted(broadcasts(interfaces@).push(u32::MAX), lt);
    lists::lemma_runs_ascend(sorted, lt);
    if j < targets@.len() {
        let r = lists::runs(sorted, lt);
        assert(lt(r[i], r[j]));
    }
    let below = text_order();
    lemma_text_order();
    let texts = lists::stable_sorted(shown_addresses(interfaces@, port), below);
    lists::lemma_stable_sorted(shown_addresses(interfaces@, port), below);
    lists::lemma_runs_ascend(texts, below);
    if j < shown@.len() {
        let r = lists::runs(texts, below);
        let all = shown@.map_values(|s: String| s@);
        assert(all[i] == shown@[i]@ && all[j] == shown@[j]@);
        assert(below(r[i], r[j]));
        text::lemma_before_irreflexive(shown@[i]@);
    }
}

/// An answer from the network is seen like an announcement.
pub proof fn law_answering_device_is_seen(
    here: AppState,
    runtime: NetworkRuntime,
    request: Uuid,
    packet: DiscoveryPacket,
    name: &str,
    shown: bool,
    own: String,
    there: &mut AppState,
    source: String,
    now: Instant,
    r: DiscoveryReaction,
)
    requires
        call_ensures(crate::identity::DeviceIdentity::fingerprint, (&here.identity,), own),
        call_ensures(AppState::response_packet, (&here, &runtime, request), packet),
        name@ == here.device_name@,
        call_ensures(handshake::showable_name, (name,), shown),
        shown,
        runtime.tcp_port != 0,
        here.device_id != old(there).device_id,
        call_ensures(AppState::accept_discovery, (there, packet, source, now), r),
    ensures
        r is Seen,
        packet->Response_request_id == request,
        packet->Response_fingerprint@ == own@,
        exists|d: devices::DeviceModel| #[trigger]
            final(there).seen().contains(d) && d.device_id == Some(here.device_id) && d.name
                == here.device_name@ && d.lan_endpoint == Some((source@, runtime.tcp_port)),
{
    lemma_fingerprint(here.identity.public_key@);
    lemma_seen(
        *old(there),
        *final(there),
        here.device_id,
        here.device_name@,
        (source@, runtime.tcp_port),
        packet->Response_fingerprint@,
        now,
    );
}

/// A device that goes on announcing itself is not dropped in between.
pub proof fn law_announcing_device_is_kept(
    app: &mut AppState,
    device_id: Uuid,
    now: Instant,
    ttl: crate::clock::Duration,
    interval: crate::clock::Duration,
    r: bool,
)
    requires
        call_ensures(crate::clock::Duration::from_secs, (DISCOVERY_TTL_SECONDS,), ttl),
        call_ensures(crate::clock::Duration::from_secs, (DISCOVERY_INTERVAL_SECONDS,), interval),
        call_ensures(AppState::expire_lan_devices, (app, ttl, now), r),
        old(app).lan_last_seen@.dom().contains(device_id),
        now.nanos <= old(app).lan_last_seen@[device_id].nanos + interval.nanos,
    ensures
        final(app).lan_last_seen@.dom().contains(device_id),
        interval.nanos == 5_000_000_000,
        ttl.nanos == 7_000_000_000,
{
}

} // verus!
