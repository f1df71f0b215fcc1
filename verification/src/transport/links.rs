//! Connections over the local network, and network links that speed Bluetooth connections up.
use super::handshake::PeerHello;
use crate::clock::Instant;
use crate::error::{AppError, AppResult};
use crate::ids;
use crate::ids::Uuid;
use crate::models::{ConnectionKind, Endpoint, Notice, NoticeLevel};
use crate::protocol::{
    Frame, Message, NetworkOffer, CAPABILITY_LAZY_DIRECTORY, CAPABILITY_TRANSFER_CANCEL,
    PROTOCOL_VERSION,
};
use crate::state::connections::Installed;
use crate::state::devices;
use crate::state::network::InstalledLink;
use crate::state::{AppState, ConnectionMeta, NetworkRuntime, ReconnectPlan, ReconnectTarget};
use crate::text;
use vstd::prelude::*;

verus! {

pub const OUTBOUND_QUEUE_CAPACITY: usize = 64;

pub const NETWORK_CONNECT_TIMEOUT_SECONDS: u64 = 4;

pub const NETWORK_HANDSHAKE_TIMEOUT_SECONDS: u64 = 8;

pub const PAIRING_TIMEOUT_SECONDS: u64 = 60;

/// What a device with a connection of its own in the local network can do.
pub open spec fn lan_capabilities() -> Seq<Seq<char>> {
    seq![
        "files"@,
        "shared_directories"@,
        "clipboard_text"@,
        "lan_noise_xx"@,
        CAPABILITY_TRANSFER_CANCEL@,
        CAPABILITY_LAZY_DIRECTORY@,
    ]
}

/// The texts in a list.
pub open spec fn texts(s: Seq<String>) -> Seq<Seq<char>> {
    s.map_values(|t: String| t@)
}

/// How a device presents itself on a connection.
pub open spec fn is_hello(
    message: Message,
    device_id: Uuid,
    device_name: Seq<char>,
    capabilities: Seq<Seq<char>>,
) -> bool {
    &&& message is Hello
    &&& message->protocol_version == PROTOCOL_VERSION
    &&& message->Hello_device_id == device_id
    &&& message->device_name@ == device_name
    &&& texts(message->capabilities@) == capabilities
}

/// The key that two identifiers make: their bytes, one after the other.
pub open spec fn key_of(first: Uuid, second: Uuid) -> Seq<u8> {
    crate::bytes::be_of(first.value as nat, 16) + crate::bytes::be_of(second.value as nat, 16)
}

/// The key that two identifiers make.
pub fn link_key(first: Uuid, second: Uuid) -> (r: Vec<u8>)
    ensures
        r@ == key_of(first, second),
        r@.len() == crate::state::network::LINK_KEY_LENGTH,
{
    let mut key: Vec<u8> = Vec::new();
    crate::bytes::push_be(&mut key, first.value, 16);
    crate::bytes::push_be(&mut key, second.value, 16);
    proof {
        crate::bytes::lemma_be_length(first.value as nat, 16);
        crate::bytes::lemma_be_length(second.value as nat, 16);
    }
    key
}

/// The services of the local network on this port, with a session and a key of their own.
pub fn new_network_runtime(tcp_port: u16, discovery_available: bool) -> (r: NetworkRuntime)
    ensures
        r.tcp_port == tcp_port,
        r.discovery_available == discovery_available,
        r.session_id.is_random(),
        r.instance_id.is_random(),
        r.key@.len() == crate::state::network::LINK_KEY_LENGTH,
        exists|first: Uuid, second: Uuid|
            first.is_random() && second.is_random() && r.key@ == #[trigger] key_of(first, second),
{
    let first = Uuid::new_v4();
    let second = Uuid::new_v4();
    let key = link_key(first, second);
    proof {
        assert(key@ == key_of(first, second));
    }
    NetworkRuntime {
        session_id: Uuid::new_v4(),
        key,
        tcp_port,
        instance_id: Uuid::new_v4(),
        discovery_available,
    }
}

/// The greeting with which a network link is opened.
pub fn link_hello(device_id: Uuid, session_id: Uuid, connection_id: Uuid) -> (r: Frame)
    ensures
        r.message == (Message::NetworkHello { device_id, session_id, connection_id }),
        r.payload@.len() == 0,
{
    Frame::new(Message::NetworkHello { device_id, session_id, connection_id })
}

/// What the user is told when a network link is there.
pub fn link_notice() -> (r: Notice)
    ensures
        r.level == NoticeLevel::Success,
        r.message@ == "已建立加密局域网高速链路，数据传输将自动优先使用"@,
{
    Notice {
        level: NoticeLevel::Success,
        message: String::from_str("已建立加密局域网高速链路，数据传输将自动优先使用"),
    }
}

/// What became of a stream that is to be a network link.
#[derive(Debug)]
pub enum Attached {
    Installed(InstalledLink),
    /// There is a link already.
    Redundant,
}

/// A connection over the local network that has been installed.
#[derive(Debug)]
pub struct AttachedLan {
    pub installed: Installed,
    pub hello: Frame,
    pub notice: Notice,
}

/// Whether a message may come over a network link: all but those about the link itself.
pub fn check_link_message(message: &Message) -> (r: Result<(), String>)
    ensures
        r is Ok <==> !message.is_link_control(),
        r matches Err(reason) ==> reason@ == "局域网高速链路收到了控制消息"@,
{
    if message.prefers_network() {
        Ok(())
    } else {
        Err(String::from_str("局域网高速链路收到了控制消息"))
    }
}

impl AppState {
    /// What this device offers to a device that is connected over Bluetooth.
    pub fn network_offer(&self) -> (r: Option<NetworkOffer>)
        ensures
            match self.network_runtime {
                Some(runtime) => r is Some && r->0.session_id == runtime.session_id && r->0.key@
                    == runtime.key@,
                None => r is None,
            },
    {
        match self.network_runtime() {
            Some(runtime) => {
                let key = crate::bytes::copy_range(runtime.key.as_slice(), 0, runtime.key.len());
                proof {
                    assert(key@ =~= runtime.key@);
                }
                Some(NetworkOffer { session_id: runtime.session_id, key })
            },
            None => None,
        }
    }

    /// Takes the offer of a device that is connected over Bluetooth, and says whether the network
    /// link is to be announced.
    pub fn negotiate_network(
        &mut self,
        bluetooth_generation: Uuid,
        peer_device_id: Uuid,
        offer: NetworkOffer,
    ) -> (r: AppResult<bool>)
        requires
            old(self).wf(),
        ensures
            final(self).wf(),
            if !old(self).is_bluetooth_link(bluetooth_generation, None) {
                r == Ok::<bool, AppError>(false) && *final(self) == *old(self)
            } else if offer.key@.len() != crate::state::network::LINK_KEY_LENGTH {
                &&& r matches Err(e)
                &&& e.is_protocol("局域网链路密钥长度无效"@)
                &&& *final(self) == *old(self)
            } else if !old(self).is_bluetooth_link(bluetooth_generation, Some(peer_device_id)) {
                &&& r matches Err(e)
                &&& e is NotConnected
                &&& *final(self) == *old(self)
            } else {
                &&& r == Ok::<bool, AppError>(true)
                &&& *final(self) == (AppState {
                    network_peers: final(self).network_peers,
                    ..*old(self)
                })
                &&& final(self).network_peers@ == old(self).network_peers@.insert(
                    peer_device_id,
                    crate::state::NetworkPeer {
                        bluetooth_generation,
                        device_id: peer_device_id,
                        session_id: offer.session_id,
                        key: offer.key,
                    },
                )
            },
    {
        if !matches!(self.connection_kind(bluetooth_generation), Some(ConnectionKind::Bluetooth)) {
            return Ok(false);
        }
        match self.set_network_peer(bluetooth_generation, peer_device_id, offer) {
            Ok(()) => Ok(true),
            Err(e) => Err(e),
        }
    }

    /// The key under which a stream that wants to be a network link is read.
    pub fn incoming_link_key(&self) -> (r: AppResult<Vec<u8>>)
        ensures
            match self.network_runtime {
                Some(runtime) => r matches Ok(key) && key@ == runtime.key@,
                None => r matches Err(e) && e.is_protocol("局域网服务尚未就绪"@),
            },
    {
        match self.network_runtime() {
            Some(runtime) => {
                let key = crate::bytes::copy_range(runtime.key.as_slice(), 0, runtime.key.len());
                proof {
                    assert(key@ =~= runtime.key@);
                }
                Ok(key)
            },
            None => Err(AppError::protocol("局域网服务尚未就绪")),
        }
    }

    /// A stream with this greeting may become a network link.
    pub open spec fn admits_link(&self, frame: Frame) -> bool {
        &&& self.network_runtime is Some
        &&& frame.message is NetworkHello
        &&& frame.payload@.len() == 0
        &&& frame.message->session_id == self.network_runtime->0.session_id
        &&& !self.used_handshakes@.dom().contains(frame.message->connection_id)
        &&& self.network_peers@.dom().contains(frame.message->NetworkHello_device_id)
        &&& self.is_bluetooth_link(
            self.network_peers@[frame.message->NetworkHello_device_id].bluetooth_generation,
            Some(frame.message->NetworkHello_device_id),
        )
    }

    /// Admits a stream as a network link by its greeting, and gives the Bluetooth connection
    /// beside which it stands: the session is the current one, the greeting has not been used
    /// before, and the device is connected over Bluetooth. A greeting by which a stream has been
    /// admitted does not admit another.
    pub fn accept_link_hello(&mut self, frame: &Frame) -> (r: AppResult<Uuid>)
        requires
            old(self).wf(),
        ensures
            final(self).wf(),
            r is Ok <==> old(self).admits_link(*frame),
            r is Ok ==> !final(self).admits_link(*frame),
            if old(self).network_runtime is None {
                &&& r matches Err(e)
                &&& e.is_protocol("局域网服务尚未就绪"@)
                &&& *final(self) == *old(self)
            } else if !(frame.message is NetworkHello && frame.payload@.len() == 0) {
                &&& r matches Err(e)
                &&& e.is_protocol("局域网链路缺少有效握手"@)
                &&& *final(self) == *old(self)
            } else if frame.message->session_id != old(self).network_runtime->0.session_id {
                &&& r matches Err(e)
                &&& e.is_protocol("局域网链路会话已过期"@)
                &&& *final(self) == *old(self)
            } else if old(self).used_handshakes@.dom().contains(frame.message->connection_id) {
                &&& r matches Err(e)
                &&& e.is_protocol("局域网链路握手已被使用"@)
                &&& *final(self) == (AppState {
                    used_handshakes: final(self).used_handshakes,
                    ..*old(self)
                })
                &&& final(self).used_handshakes@ == old(self).used_handshakes@
            } else {
                let device_id = frame.message->NetworkHello_device_id;
                let peers = old(self).network_peers@;
                &&& *final(self) == (AppState {
                    used_handshakes: final(self).used_handshakes,
                    ..*old(self)
                })
                &&& final(self).used_handshakes@ == old(self).used_handshakes@.insert(
                    frame.message->connection_id,
                    (),
                )
                &&& if !peers.dom().contains(device_id) {
                    r matches Err(e) && e.is_protocol("局域网设备未通过当前蓝牙连接授权"@)
                } else if !old(self).is_bluetooth_link(
                    peers[device_id].bluetooth_generation,
                    Some(device_id),
                ) {
                    r matches Err(e) && e is NotConnected
                } else {
                    r == Ok::<Uuid, AppError>(peers[device_id].bluetooth_generation)
                }
            },
    {
        let current = match self.network_runtime() {
            Some(runtime) => runtime.session_id,
            None => {
                return Err(AppError::protocol("局域网服务尚未就绪"));
            },
        };
        let (device_id, session_id, connection_id) = match &frame.message {
            Message::NetworkHello { device_id, session_id, connection_id } => {
                if frame.payload.len() != 0 {
                    return Err(AppError::protocol("局域网链路缺少有效握手"));
                }
                (*device_id, *session_id, *connection_id)
            },
            _ => {
                return Err(AppError::protocol("局域网链路缺少有效握手"));
            },
        };
        if session_id != current {
            return Err(AppError::protocol("局域网链路会话已过期"));
        }
        if self.used_handshakes.insert(connection_id, ()).is_some() {
            proof {
                assert(self.used_handshakes@ =~= old(self).used_handshakes@);
            }
            return Err(AppError::protocol("局域网链路握手已被使用"));
        }
        let generation = match self.network_peer(device_id) {
            Some(peer) => peer.bluetooth_generation,
            None => {
                return Err(AppError::protocol("局域网设备未通过当前蓝牙连接授权"));
            },
        };
        if !self.is_bluetooth_generation_active(generation, Some(device_id)) {
            return Err(AppError::NotConnected);
        }
        Ok(generation)
    }

    /// Makes a stream the network link beside a Bluetooth connection, unless there is one.
    pub fn attach_rfcomm_lan(&mut self, bluetooth_generation: Uuid) -> (r: AppResult<Attached>)
        requires
            old(self).wf(),
        ensures
            final(self).wf(),
            if !old(self).is_bluetooth_link(bluetooth_generation, None) || old(
                self,
            ).connections@[bluetooth_generation].peer_device_id is None {
                &&& r matches Err(e)
                &&& e is NotConnected
                &&& *final(self) == *old(self)
            } else {
                let device_id = old(self).connections@[bluetooth_generation].peer_device_id->0;
                if old(self).network_connections@.dom().contains(device_id) {
                    &&& r matches Ok(Attached::Redundant)
                    &&& *final(self) == (AppState {
                        network_connecting: final(self).network_connecting,
                        ..*old(self)
                    })
                    &&& final(self).network_connecting@ == old(self).network_connecting@.remove(
                        device_id,
                    )
                } else if !old(self).listening {
                    &&& r matches Err(e)
                    &&& e is NotConnected
                    &&& *final(self) == *old(self)
                } else {
                    &&& r matches Ok(Attached::Installed(link))
                    &&& link.generation.is_random()
                    &&& AppState::links(*old(self), *final(self), device_id, link)
                }
            },
    {
        if !self.is_bluetooth_generation_active(bluetooth_generation, None) {
            return Err(AppError::NotConnected);
        }
        let device_id = match self.peer_for_generation(bluetooth_generation) {
            Some(device_id) => device_id,
            None => {
                return Err(AppError::NotConnected);
            },
        };
        if self.has_network_connection(device_id) {
            self.finish_network_connect(device_id);
            return Ok(Attached::Redundant);
        }
        proof {
            assert(self.connects(bluetooth_generation, device_id));
        }
        match self.install_network_connection(device_id) {
            Ok(link) => Ok(Attached::Installed(link)),
            Err(e) => Err(e),
        }
    }

    /// Takes a network link out that has come to its end. Gives what the user is told, where it
    /// was still there.
    pub fn finish_rfcomm_lan(&mut self, generation: Uuid, failure: Option<String>) -> (r: Option<
        Notice,
    >)
        requires
            old(self).wf(),
        ensures
            final(self).wf(),
            *final(self) == (AppState {
                network_connections: final(self).network_connections,
                network_connecting: final(self).network_connecting,
                ..*old(self)
            }),
            match r {
                Some(notice) => {
                    &&& exists|d: Uuid| #[trigger]
                        old(self).is_link(d, generation) && final(self).network_connections@
                            == old(self).network_connections@.remove(d) && final(
                            self
                        ).network_connecting@ == old(self).network_connecting@.remove(d)
                    &&& notice.level == NoticeLevel::Info
                    &&& notice.message@ == match failure {
                        Some(reason) => "局域网高速链路已断开，数据将回退到蓝牙："@ + reason@,
                        None => "局域网高速链路已断开，数据将回退到蓝牙"@,
                    }
                },
                None => (forall|d: Uuid| !old(self).is_link(d, generation)) && *final(self)
                    == *old(self),
            },
            r is None ==> old(self).has_no_link(generation),
    {
        if !self.clear_network_connection(generation) {
            return None;
        }
        let message = match &failure {
            Some(reason) => text::joined("局域网高速链路已断开，数据将回退到蓝牙：", reason),
            None => String::from_str("局域网高速链路已断开，数据将回退到蓝牙"),
        };
        Some(Notice { level: NoticeLevel::Info, message })
    }

    /// How this device presents itself on a connection over the local network.
    pub fn lan_hello(&self) -> (r: Frame)
        ensures
            is_hello(r.message, self.device_id, self.device_name@, lan_capabilities()),
            r.message->network_offer is None,
            r.payload@.len() == 0,
    {
        let mut capabilities: Vec<String> = Vec::new();
        capabilities.push(String::from_str("files"));
        capabilities.push(String::from_str("shared_directories"));
        capabilities.push(String::from_str("clipboard_text"));
        capabilities.push(String::from_str("lan_noise_xx"));
        capabilities.push(String::from_str(CAPABILITY_TRANSFER_CANCEL));
        capabilities.push(String::from_str(CAPABILITY_LAZY_DIRECTORY));
        proof {
            assert(texts(capabilities@) =~= lan_capabilities());
        }
        Frame::new(
            Message::Hello {
                protocol_version: PROTOCOL_VERSION,
                device_id: self.device_id,
                device_name: self.device_name.clone(),
                capabilities,
                network_offer: None,
            },
        )
    }

    /// What the beginning of a connection over the local network changes before it is installed:
    /// the device is on the list, and there is a plan to connect to it again.
    pub open spec fn prepares_lan(
        pre: AppState,
        post: AppState,
        peer: PeerHello,
        fingerprint: Seq<char>,
        session: Option<Uuid>,
        host: String,
        now: Instant,
        chosen: Uuid,
    ) -> bool {
        let endpoint = Endpoint { host, port: peer.tcp_port };
        &&& post == (AppState {
            devices: post.devices,
            lan_last_seen: post.lan_last_seen,
            reconnects: post.reconnects,
            ..pre
        })
        &&& post.lan_last_seen@ == pre.lan_last_seen@.insert(peer.device_id, now)
        &&& post.seen() == devices::after_announcement(
            pre.seen(),
            peer.device_id,
            peer.name@,
            (host@, peer.tcp_port),
            pre.trusts_fingerprint(peer.device_id, fingerprint),
        )
        &&& match session {
            Some(s) => {
                &&& chosen == s
                &&& post.reconnects@ == if pre.reconnects@.dom().contains(s) {
                    let plan = pre.reconnects@[s];
                    pre.reconnects@.insert(
                        s,
                        ReconnectPlan {
                            target: ReconnectTarget {
                                device_id: Some(peer.device_id),
                                display_name: peer.name,
                                lan_endpoint: Some(endpoint),
                                ..plan.target
                            },
                            ..plan
                        },
                    )
                } else {
                    pre.reconnects@
                }
            },
            None => chosen.is_random() && exists|bluetooth: Option<String>| #[trigger]
                AppState::is_bluetooth_place(post, peer.device_id, bluetooth)
                    && post.reconnects@ == pre.reconnects@.insert(
                    chosen,
                    ReconnectPlan {
                        target: ReconnectTarget {
                            device_id: Some(peer.device_id),
                            display_name: peer.name,
                            lan_endpoint: Some(endpoint),
                            bluetooth_endpoint: bluetooth,
                        },
                        task_running: false,
                        reconnecting: false,
                    },
                ),
        }
    }

    /// This is where the list of devices says that a device can be reached over Bluetooth.
    pub open spec fn is_bluetooth_place(
        state: AppState,
        device_id: Uuid,
        bluetooth: Option<String>,
    ) -> bool {
        let id = ids::hyphenated(device_id.value);
        bluetooth == match crate::lists::first_where(
            state.devices@,
            |d: crate::models::NearbyDevice| AppState::goes_by(d, id),
        ) {
            Some(i) => state.devices@[i].bluetooth_endpoint,
            None => None,
        }
    }

    /// Makes an encrypted stream to a device the connection to it.
    pub fn attach_primary_lan(
        &mut self,
        peer: PeerHello,
        fingerprint: &str,
        reconnect_session: Option<Uuid>,
        host: String,
        now: Instant,
    ) -> (r: AppResult<AttachedLan>)
        requires
            old(self).wf(),
        ensures
            final(self).wf(),
            r is Ok <==> !old(self).is_connected(peer.device_id) && old(self).listening && !old(
                self,
            ).is_full_for(Some(peer.device_id)),
            old(self).is_connected(peer.device_id) ==> *final(self) == *old(self) && (
            r matches Err(e) && e.is_protocol("该设备已经连接"@)),
            !old(self).is_connected(peer.device_id) ==> exists|middle: AppState, chosen: Uuid| #[trigger]
                AppState::prepares_lan(
                    *old(self),
                    middle,
                    peer,
                    fingerprint@,
                    reconnect_session,
                    host,
                    now,
                    chosen,
                ) && match r {
                    Ok(attached) => {
                        &&& attached.installed.generation.is_random()
                        &&& AppState::installs(
                            middle,
                            *final(self),
                            ConnectionMeta {
                                generation: attached.installed.generation,
                                kind: ConnectionKind::Lan,
                                peer_name: peer.name,
                                last_pong: now,
                                last_active: now,
                                reconnect_session: Some(chosen),
                                peer_device_id: Some(peer.device_id),
                                bluetooth_endpoint: None,
                            },
                        )
                        &&& attached.installed.replaced is None
                        &&& is_hello(
                            attached.hello.message,
                            old(self).device_id,
                            old(self).device_name@,
                            lan_capabilities(),
                        )
                        &&& attached.hello.message->network_offer is None
                        &&& attached.hello.payload@.len() == 0
                        &&& attached.notice.level == NoticeLevel::Success
                        &&& attached.notice.message@ == "已通过纯局域网连接 "@ + peer.name@
                    },
                    Err(e) => *final(self) == middle && if !old(self).listening {
                        e.is_invalid_input("连接服务已停止"@)
                    } else {
                        e.is_protocol("最多同时连接 8 台设备"@)
                    },
                },
    {
        if self.connection_generation_for_peer(peer.device_id).is_some() {
            return Err(AppError::protocol("该设备已经连接"));
        }
        let endpoint = Endpoint { host, port: peer.tcp_port };
        self.upsert_lan_device(
            peer.device_id,
            peer.name.clone(),
            endpoint.clone(),
            fingerprint,
            now,
        );
        let ghost listed = *self;
        let chosen = match reconnect_session {
            Some(session) => {
                self.update_reconnect_target(
                    session,
                    peer.device_id,
                    peer.name.clone(),
                    Some(endpoint),
                );
                session
            },
            None => {
                let id = peer.device_id.to_string();
                let found = self.find_device(&id);
                proof {
                    let spelled = ids::hyphenated(peer.device_id.value);
                    assert((|d: crate::models::NearbyDevice| AppState::goes_by(d, id@)) =~= (
                    |d: crate::models::NearbyDevice| AppState::goes_by(d, spelled)));
                }
                let bluetooth = match found {
                    Some(device) => device.bluetooth_endpoint,
                    None => None,
                };
                let ghost place = bluetooth;
                let target = ReconnectTarget {
                    device_id: Some(peer.device_id),
                    display_name: peer.name.clone(),
                    lan_endpoint: Some(endpoint),
                    bluetooth_endpoint: bluetooth,
                };
                let session = self.begin_reconnect_session(target);
                proof {
                    assert(AppState::is_bluetooth_place(*self, peer.device_id, place));
                }
                session
            },
        };
        let ghost middle = *self;
        proof {
            assert(AppState::prepares_lan(
                *old(self),
                middle,
                peer,
                fingerprint@,
                reconnect_session,
                host,
                now,
                chosen,
            ));
            assert forall|g: Uuid| #[trigger] middle.connects(g, peer.device_id) == old(
                self,
            ).connects(g, peer.device_id) by {}
            assert(middle.is_connected(peer.device_id) == old(self).is_connected(peer.device_id));
            assert(middle.is_full_for(Some(peer.device_id)) == old(self).is_full_for(
                Some(peer.device_id),
            ));
        }
        match self.install_connection(
            ConnectionKind::Lan,
            peer.name.clone(),
            Some(peer.device_id),
            None,
            Some(chosen),
            now,
        ) {
            Err(e) => Err(e),
            Ok(installed) => {
                let hello = self.lan_hello();
                let notice = Notice {
                    level: NoticeLevel::Success,
                    message: text::joined("已通过纯局域网连接 ", &peer.name),
                };
                Ok(AttachedLan { installed, hello, notice })
            },
        }
    }

    /// Admits a stream from another device, unless too many handshakes are under way.
    pub fn admit_stream(&mut self, handshake_id: Uuid) -> (r: Option<Notice>)
        requires
            old(self).wf(),
            !old(self).pending_handshakes@.dom().contains(handshake_id),
        ensures
            final(self).wf(),
            *final(self) == (AppState {
                pending_handshakes: final(self).pending_handshakes,
                ..*old(self)
            }),
            match r {
                None => {
                    &&& old(self).pending_handshakes@.dom().len() < crate::state::MAX_PEERS
                    &&& final(self).pending_handshakes@ == old(self).pending_handshakes@.insert(
                        handshake_id,
                        (),
                    )
                },
                Some(notice) => {
                    &&& old(self).pending_handshakes@.dom().len() >= crate::state::MAX_PEERS
                    &&& final(self).pending_handshakes@ == old(self).pending_handshakes@
                    &&& notice.level == NoticeLevel::Info
                    &&& notice.message@ == "待握手连接已达 8 个，已拒绝新连接"@
                },
            },
    {
        if self.begin_pending_handshake(handshake_id) {
            return None;
        }
        Some(
            Notice {
                level: NoticeLevel::Info,
                message: String::from_str("待握手连接已达 8 个，已拒绝新连接"),
            },
        )
    }

    /// Whether a stream with these first bytes carries a connection of its own, which is refused
    /// while the service does not run.
    pub fn sort_stream(&self, prefix: &[u8]) -> (r: AppResult<bool>)
        ensures
            if prefix@ == text::low_bytes(super::handshake::PURE_LAN_STREAM_MAGIC@) {
                if self.listening {
                    r == Ok::<bool, AppError>(true)
                } else {
                    r matches Err(e) && e.is_protocol("对方尚未开启 NearWeave 连接"@)
                }
            } else {
                r == Ok::<bool, AppError>(false)
            },
    {
        let magic = text::to_low_bytes(super::handshake::PURE_LAN_STREAM_MAGIC);
        if !crate::bytes::equal(prefix, magic.as_slice()) {
            return Ok(false);
        }
        if !self.receiver_enabled() {
            return Err(AppError::protocol("对方尚未开启 NearWeave 连接"));
        }
        Ok(true)
    }

    /// Notes that a stream has been sorted out, and gives what the user is told of an error.
    pub fn stream_settled(&mut self, handshake_id: Uuid, result: &Result<(), AppError>) -> (r:
        Option<Notice>)
        requires
            old(self).wf(),
        ensures
            final(self).wf(),
            *final(self) == (AppState {
                pending_handshakes: final(self).pending_handshakes,
                ..*old(self)
            }),
            final(self).pending_handshakes@ == old(self).pending_handshakes@.remove(handshake_id),
            match result {
                Ok(()) => r is None,
                Err(error) => r is Some && r->0.level == NoticeLevel::Info && r->0.message@
                    == "已拒绝无效的局域网连接："@ + error.message(),
            },
    {
        self.finish_pending_handshake(handshake_id);
        match result {
            Ok(()) => None,
            Err(error) => Some(
                Notice {
                    level: NoticeLevel::Info,
                    message: text::joined("已拒绝无效的局域网连接：", &error.to_string()),
                },
            ),
        }
    }

    /// The address at which a planned connection over the local network is to be opened.
    pub fn lan_endpoint_for(&self, target: &ReconnectTarget, session: Uuid) -> (r: AppResult<
        Endpoint,
    >)
        requires
            self.wf(),
        ensures
            match self.target_now(*target).lan_endpoint {
                None => r matches Err(e) && e.is_invalid_input("设备当前没有可用的局域网地址"@),
                Some(endpoint) => if self.reconnects@.dom().contains(session) {
                    r == Ok::<Endpoint, AppError>(endpoint)
                } else {
                    r matches Err(e) && e is NotConnected
                },
            },
    {
        match self.resolve_target_endpoint(target) {
            None => Err(AppError::invalid_input("设备当前没有可用的局域网地址")),
            Some(endpoint) => {
                if !self.is_reconnect_session_active(session) {
                    return Err(AppError::NotConnected);
                }
                Ok(endpoint)
            },
        }
    }
}

/// A device that takes over the link of another, as that one has offered it, can open a link to it:
/// the one that was offered is the one that is taken.
pub proof fn law_offered_link_is_taken(
    here: AppState,
    there: &mut AppState,
    offer: NetworkOffer,
    generation: Uuid,
    peer: Uuid,
    r: AppResult<bool>,
)
    requires
        call_ensures(AppState::network_offer, (&here,), Some(offer)),
        call_ensures(AppState::negotiate_network, (there, generation, peer, offer), r),
        old(there).connections@.dom().contains(generation),
        old(there).connections@[generation].kind is Bluetooth,
        old(there).connections@[generation].peer_device_id == Some(peer),
        offer.key@.len() == 32,
    ensures
        r == Ok::<bool, AppError>(true),
        here.network_runtime is Some,
        final(there).network_peers@.dom().contains(peer),
        final(there).network_peers@[peer].key@ == here.network_runtime->0.key@,
        final(there).network_peers@[peer].session_id == here.network_runtime->0.session_id,
        final(there).network_peers@[peer].bluetooth_generation == generation,
{
}

/// Over a connection that is not one over Bluetooth no link is taken, and a key of the wrong length
/// is refused.
pub proof fn law_link_needs_bluetooth(
    app: &mut AppState,
    generation: Uuid,
    peer: Uuid,
    offer: NetworkOffer,
    r: AppResult<bool>,
)
    requires
        call_ensures(AppState::negotiate_network, (app, generation, peer, offer), r),
    ensures
        ({
            let over_bluetooth = old(app).connections@.dom().contains(generation)
                && old(app).connections@[generation].kind is Bluetooth;
            &&& r == Ok::<bool, AppError>(true) ==> over_bluetooth && offer.key@.len() == 32
            &&& r == Ok::<bool, AppError>(false) <==> !over_bluetooth
            &&& over_bluetooth && offer.key@.len() != 32 ==> r is Err
            &&& r != Ok::<bool, AppError>(true) ==> *final(app) == *old(app)
        }),
{
}

/// A new runtime offers a link with a key of 32 bytes, and the key that it gives for links that come
/// in is the one that it offers.
pub proof fn law_link_key_is_the_offered_one(
    tcp_port: u16,
    available: bool,
    runtime: NetworkRuntime,
    app: AppState,
    offer: Option<NetworkOffer>,
    key: AppResult<Vec<u8>>,
)
    requires
        call_ensures(new_network_runtime, (tcp_port, available), runtime),
        app.network_runtime == Some(runtime),
        call_ensures(AppState::network_offer, (&app,), offer),
        call_ensures(AppState::incoming_link_key, (&app,), key),
    ensures
        runtime.tcp_port == tcp_port,
        runtime.discovery_available == available,
        runtime.key@.len() == 32,
        offer matches Some(o) && o.key@ == runtime.key@ && o.session_id == runtime.session_id,
        key matches Ok(k) && k@ == runtime.key@,
{
}

/// A key is made of two identifiers, one behind the other.
pub proof fn law_key_holds_both_identifiers(
    first: Uuid,
    second: Uuid,
    a: Vec<u8>,
    b: Vec<u8>,
    r: Vec<u8>,
)
    requires
        call_ensures(link_key, (first, second), r),
        call_ensures(Uuid::as_bytes, (&first,), a),
        call_ensures(Uuid::as_bytes, (&second,), b),
    ensures
        r@ == a@ + b@,
        r@.len() == 32,
{
}

/// A link is let in once: its greeting is taken if it is of this session, comes from a device that
/// is connected over Bluetooth and has agreed on the link, and has not been used before.
pub proof fn law_link_greeting_is_taken_once(
    app: &mut AppState,
    next: &mut AppState,
    device_id: Uuid,
    session_id: Uuid,
    connection_id: Uuid,
    frame: Frame,
    first: AppResult<Uuid>,
    second: AppResult<Uuid>,
)
    requires
        call_ensures(link_hello, (device_id, session_id, connection_id), frame),
        call_ensures(AppState::accept_link_hello, (app, &frame), first),
        *next == *final(app),
        call_ensures(AppState::accept_link_hello, (next, &frame), second),
    ensures
        ({
            let g = old(app).network_peers@[device_id].bluetooth_generation;
            first is Ok <==> {
                &&& old(app).network_runtime is Some
                &&& session_id == old(app).network_runtime->0.session_id
                &&& !old(app).used_handshakes@.dom().contains(connection_id)
                &&& old(app).network_peers@.dom().contains(device_id)
                &&& old(app).connections@.dom().contains(g)
                &&& old(app).connections@[g].kind is Bluetooth
                &&& old(app).connections@[g].peer_device_id == Some(device_id)
            }
        }),
        first matches Ok(g) ==> g == old(app).network_peers@[device_id].bluetooth_generation,
        second is Err,
{
}

/// A link is put beside the Bluetooth connection of a device if it has none yet, and the device is
/// the one at the other end.
pub proof fn law_link_is_put_beside_bluetooth(
    app: &mut AppState,
    generation: Uuid,
    device_id: Uuid,
    r: AppResult<Attached>,
)
    requires
        call_ensures(AppState::attach_rfcomm_lan, (app, generation), r),
        old(app).connections@.dom().contains(generation),
        old(app).connections@[generation].kind is Bluetooth,
        old(app).connections@[generation].peer_device_id == Some(device_id),
    ensures
        (r matches Ok(a) && a is Redundant) <==> old(app).network_connections@.dom().contains(
            device_id,
        ),
        (r matches Ok(a) && a is Installed) <==> !old(app).network_connections@.dom().contains(
            device_id,
        ) && old(app).listening,
        r matches Ok(Attached::Installed(link))
            ==> final(app).network_connections@.dom().contains(device_id)
            && final(app).network_connections@[device_id].generation == link.generation,
        r is Ok ==> !final(app).network_connecting@.dom().contains(device_id),
{
}

/// A link that has come to its end is gone, and the user is told that data goes over Bluetooth
/// again; what is no link changes nothing.
pub proof fn law_lost_link_falls_back(
    app: &mut AppState,
    generation: Uuid,
    failure: Option<String>,
    device_id: Uuid,
    r: Option<Notice>,
)
    requires
        call_ensures(AppState::finish_rfcomm_lan, (app, generation, failure), r),
        old(app).network_connections@.dom().contains(device_id),
        old(app).network_connections@[device_id].generation == generation,
        forall|d: Uuid| #[trigger]
            old(app).network_connections@.dom().contains(d) && d != device_id
                ==> old(app).network_connections@[d].generation != generation,
    ensures
        r is Some,
        !final(app).network_connections@.dom().contains(device_id),
        final(app).connections == old(app).connections,
        forall|d: Uuid| #[trigger]
            old(app).network_connections@.dom().contains(d) && d != device_id
                ==> final(app).network_connections@.dom().contains(d),
{
    assert(old(app).is_link(device_id, generation));
    let d = choose|d: Uuid| #[trigger]
        old(app).is_link(d, generation)
            && final(app).network_connections@ == old(app).network_connections@.remove(d);
    assert(old(app).network_connections@.dom().contains(d));
}

/// Messages that belong on the connection itself are not taken over a link.
pub proof fn law_link_takes_data_only(message: Message, r: Result<(), String>)
    requires
        call_ensures(check_link_message, (&message,), r),
    ensures
        r is Err <==> message is Hello || message is NetworkHello || message is Ping
            || message is Pong || message is Disconnect || message is TransferCancel
            || message is TransferCancelAck,
{
}

/// This device presents itself over a connection with its identity, its name and what it can do.
pub proof fn law_device_presents_itself(app: AppState, r: Frame)
    requires
        call_ensures(AppState::lan_hello, (&app,), r),
    ensures
        r.message is Hello,
        r.message->Hello_device_id == app.device_id,
        r.message->device_name@ == app.device_name@,
        r.message->protocol_version == 1,
        r.message->network_offer is None,
        exists|i: int|
            0 <= i < r.message->capabilities@.len() && (#[trigger] r.message->capabilities@[i])@
                == "transfer_cancel_v1"@,
        exists|i: int|
            0 <= i < r.message->capabilities@.len() && (#[trigger] r.message->capabilities@[i])@
                == "lazy_directory_browse_v1"@,
{
    let s = texts(r.message->capabilities@);
    assert(s.len() == r.message->capabilities@.len());
    assert(s[4] == r.message->capabilities@[4]@);
    assert(s[5] == r.message->capabilities@[5]@);
}

/// A device that was greeted over a stream of the local network is connected over it, is listed with
/// its address, and stays connected: there is a plan for it.
pub proof fn law_greeted_device_is_connected(
    app: &mut AppState,
    peer: PeerHello,
    fingerprint: &str,
    session: Option<Uuid>,
    host: String,
    now: Instant,
    r: AppResult<AttachedLan>,
)
    requires
        old(app).wf(),
        call_ensures(
            AppState::attach_primary_lan,
            (app, peer, fingerprint, session, host, now),
            r,
        ),
        r is Ok,
        session matches Some(s) ==> old(app).reconnects@.dom().contains(s),
    ensures
        ({
            let g = r->Ok_0.installed.generation;
            let meta = final(app).connections@[g];
            &&& final(app).connections@.dom().contains(g)
            &&& meta.peer_device_id == Some(peer.device_id)
            &&& meta.kind is Lan
            &&& meta.peer_name@ == peer.name@
            &&& meta.reconnect_session is Some
            &&& final(app).reconnects@.dom().contains(meta.reconnect_session->0)
            &&& {
                let target = final(app).reconnects@[meta.reconnect_session->0].target;
                &&& target.device_id == Some(peer.device_id)
                &&& target.lan_endpoint is Some
                &&& target.lan_endpoint->0.host@ == host@
                &&& target.lan_endpoint->0.port == peer.tcp_port
            }
            &&& session is Some ==> meta.reconnect_session == session
            &&& final(app).lan_last_seen@.dom().contains(peer.device_id)
            &&& r->Ok_0.hello.message is Hello
            &&& r->Ok_0.hello.message->Hello_device_id == old(app).device_id
        }),
        forall|g: Uuid| #[trigger]
            old(app).connections@.dom().contains(g) ==> old(app).connections@[g].peer_device_id
                != Some(peer.device_id),
{
    assert forall|g: Uuid| #[trigger]
        old(app).connections@.dom().contains(g) implies old(app).connections@[g].peer_device_id
        != Some(peer.device_id) by {
        assert(!old(app).connects(g, peer.device_id));
    }
}

/// At most eight streams wait for their handshake, and each makes room when it is settled.
pub proof fn law_waiting_streams_are_limited(
    app: &mut AppState,
    next: &mut AppState,
    id: Uuid,
    result: Result<(), AppError>,
    r: Option<Notice>,
    told: Option<Notice>,
)
    requires
        call_ensures(AppState::admit_stream, (app, id), r),
        *next == *final(app),
        call_ensures(AppState::stream_settled, (next, id, &result), told),
    ensures
        r is None <==> old(app).pending_handshakes@.dom().len() < 8,
        r is None ==> final(app).pending_handshakes@.dom().contains(id),
        !final(next).pending_handshakes@.dom().contains(id),
        told is Some <==> result is Err,
{
}

/// A stream is told by its first bytes, and is taken as one of another device while the service
/// runs.
pub proof fn law_stream_is_told_by_its_beginning(
    app: AppState,
    prefix: &[u8],
    r: AppResult<bool>,
)
    requires
        call_ensures(AppState::sort_stream, (&app, prefix), r),
    ensures
        prefix@ == seq![78u8, 87, 76, 49] && app.listening <==> r == Ok::<bool, AppError>(true),
        prefix@ == seq![78u8, 87, 76, 49] && !app.listening <==> r is Err,
        prefix@ != seq![78u8, 87, 76, 49] <==> r == Ok::<bool, AppError>(false),
{
    reveal_strlit("NWL1");
    assert(text::low_bytes("NWL1"@) =~= seq![78u8, 87, 76, 49]);
}

/// A device is connected to at the address that it was last seen at, as long as the plan stands.
pub proof fn law_plan_leads_to_an_address(
    app: AppState,
    target: ReconnectTarget,
    session: Uuid,
    now: AppResult<ReconnectTarget>,
    r: AppResult<Endpoint>,
)
    requires
        call_ensures(AppState::refresh_target, (&app, target, session), now),
        call_ensures(AppState::lan_endpoint_for, (&app, &target, session), r),
    ensures
        r is Ok <==> (now matches Ok(t) && t.lan_endpoint is Some),
        r matches Ok(at) ==> now->Ok_0.lan_endpoint == Some(at),
{
}

} // verus!
