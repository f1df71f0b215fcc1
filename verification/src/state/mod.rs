//! Everything that the application knows while it runs.
use crate::clock::Instant;
use crate::digest;
use crate::identity::{DeviceIdentity, TrustedDevice};
use crate::ids::{PeerItem, Uuid};
use crate::models::{
    ConnectionKind, ConnectionServiceState, DirectoryPageView, Endpoint, LocalShare, NearbyDevice,
    PairingRequestView, SharedRoot, TransferView,
};
use crate::table::Table;
use vstd::prelude::*;

pub mod connections;
pub mod devices;
pub mod network;
pub mod pairing;
pub mod lifecycle;
pub mod reconnects;
pub mod routing;
pub mod service;
pub mod snapshot;
pub mod transfers;
pub mod trust;
pub mod workspace;

verus! {

/// The greatest number of connections, of handshakes under way and of open pairing requests.
pub const MAX_PEERS: usize = 8;

/// The greatest number of transfers in the list.
pub const MAX_TRANSFERS: usize = 100;

/// The greatest number of directory pages that are kept for a peer.
pub const MAX_CACHED_PAGES: usize = 64;

/// The greatest number of directories that are shared, here and by a peer.
pub const MAX_SHARES: usize = 64;

/// A connection to another device.
#[derive(Debug)]
pub struct ConnectionMeta {
    pub generation: Uuid,
    pub kind: ConnectionKind,
    pub peer_name: String,
    pub last_pong: Instant,
    pub last_active: Instant,
    pub reconnect_session: Option<Uuid>,
    pub peer_device_id: Option<Uuid>,
    pub bluetooth_endpoint: Option<String>,
}

/// The session key that a connected device has offered for a network link.
#[derive(Debug)]
pub struct NetworkPeer {
    pub bluetooth_generation: Uuid,
    pub device_id: Uuid,
    pub session_id: Uuid,
    pub key: Vec<u8>,
}

/// A network link beside a Bluetooth connection.
#[derive(Clone, Copy, Debug, PartialEq, Eq, Structural)]
pub struct NetworkConnectionMeta {
    pub generation: Uuid,
}

/// The services of the local network that are running.
#[derive(Debug)]
pub struct NetworkRuntime {
    pub session_id: Uuid,
    pub key: Vec<u8>,
    pub tcp_port: u16,
    pub instance_id: Uuid,
    pub discovery_available: bool,
}

/// Stands for the Bluetooth service while it waits for other devices.
#[derive(Clone, Copy, Debug, PartialEq, Eq, Structural)]
pub struct ListenerHandle;

/// Where a device can be reached again.
#[derive(Debug)]
pub struct ReconnectTarget {
    pub device_id: Option<Uuid>,
    pub display_name: String,
    pub lan_endpoint: Option<Endpoint>,
    pub bluetooth_endpoint: Option<String>,
}

/// A device that the user wants to stay connected to.
#[derive(Debug)]
pub struct ReconnectPlan {
    pub target: ReconnectTarget,
    pub task_running: bool,
    pub reconnecting: bool,
}

/// What is left to do after a connection has been cleared.
#[derive(Clone, Copy, Debug, PartialEq, Eq, Structural)]
pub struct ClosedConnection {
    pub reconnect_session: Option<Uuid>,
    pub peer_device_id: Option<Uuid>,
}

/// What is known of a device that shows a public key.
#[derive(Clone, Copy, Debug, PartialEq, Eq, Structural)]
pub enum TrustMatch {
    Trusted,
    Unknown,
    IdentityChanged,
}

/// A file that is being received.
pub struct IncomingTransfer {
    pub final_path: String,
    pub temporary_path: String,
    pub hasher: sha2::Sha256,
    pub received: u64,
    pub expected: u64,
}

/// What the clipboard worker is asked to do.
#[derive(Debug)]
pub enum ClipboardCommand {
    ApplyRemoteText(Uuid, String, String),
    LocalClipboardChanged,
    SyncPeer(Uuid),
    Stop,
}

/// What the application knows when it starts.
pub struct AppStateConfig {
    pub device_id: Uuid,
    pub device_name: String,
    pub receive_directory: String,
    pub legacy_receive_directory: Option<String>,
    pub identity: DeviceIdentity,
    pub trusted_devices: Vec<TrustedDevice>,
    pub clipboard_enabled: bool,
    pub autostart_enabled: bool,
    pub lan_enabled: bool,
    pub lan_setup_decided: bool,
}

/// Everything that the application knows while it runs.
pub struct AppState {
    pub device_id: Uuid,
    pub device_name: String,
    pub receive_directory: String,
    pub legacy_receive_directory: Option<String>,
    pub identity: DeviceIdentity,
    pub listening: bool,
    pub connection_service_state: ConnectionServiceState,
    pub service_retry_token: Option<Uuid>,
    pub listener: Option<ListenerHandle>,
    pub bluetooth_error: Option<String>,
    pub discovery_error: Option<String>,
    pub tcp_error: Option<String>,
    pub tcp_port: Option<u16>,
    pub local_addresses: Vec<String>,
    pub connections: Table<Uuid, ConnectionMeta>,
    pub network_runtime: Option<NetworkRuntime>,
    pub used_handshakes: Table<Uuid, ()>,
    pub network_peers: Table<Uuid, NetworkPeer>,
    pub network_connections: Table<Uuid, NetworkConnectionMeta>,
    pub network_connecting: Table<Uuid, ()>,
    pub pending_handshakes: Table<Uuid, ()>,
    pub reconnects: Table<Uuid, ReconnectPlan>,
    pub clipboard_enabled: bool,
    pub autostart_enabled: bool,
    pub lan_enabled: bool,
    pub lan_setup_decided: bool,
    pub devices: Vec<NearbyDevice>,
    pub lan_last_seen: Table<Uuid, Instant>,
    pub trusted_devices: Vec<TrustedDevice>,
    pub pending_pairings: Table<Uuid, PairingRequestView>,
    pub local_shares: Vec<LocalShare>,
    pub remote_shares: Table<Uuid, Vec<SharedRoot>>,
    pub remote_share_revisions: Table<Uuid, Uuid>,
    pub remote_directory_cache: Table<Uuid, Vec<DirectoryPageView>>,
    pub peer_capabilities: Table<Uuid, Vec<String>>,
    pub directory_requests: Table<PeerItem, ()>,
    pub transfers: Vec<TransferView>,
    pub transfer_epoch: u64,
    pub incoming: Table<PeerItem, IncomingTransfer>,
    pub reserved_destinations: Vec<String>,
    pub transfer_cancellations: Table<PeerItem, ()>,
    pub transfer_acks: Table<PeerItem, ()>,
    pub canceled_incoming: Table<PeerItem, Instant>,
    pub pending_cancel_acks: Table<PeerItem, ()>,
}

/// Each connection stands under its own generation, and no device is connected twice.
pub open spec fn connections_valid(m: Map<Uuid, ConnectionMeta>) -> bool {
    &&& m.dom().finite()
    &&& m.dom().len() <= MAX_PEERS
    &&& forall|g: Uuid| #[trigger] m.dom().contains(g) ==> m[g].generation == g
    &&& forall|a: Uuid, b: Uuid|
        #![trigger m.dom().contains(a), m.dom().contains(b)]
        m.dom().contains(a) && m.dom().contains(b) && m[a].peer_device_id is Some
            && m[a].peer_device_id == m[b].peer_device_id ==> a == b
}

/// Each pairing request stands under its own identifier, and no device has two.
pub open spec fn pairings_valid(m: Map<Uuid, PairingRequestView>) -> bool {
    &&& m.dom().finite()
    &&& m.dom().len() <= MAX_PEERS
    &&& forall|r: Uuid| #[trigger] m.dom().contains(r) ==> m[r].request_id == r
    &&& forall|a: Uuid, b: Uuid|
        #![trigger m.dom().contains(a), m.dom().contains(b)]
        m.dom().contains(a) && m.dom().contains(b) && m[a].device_id == m[b].device_id ==> a == b
}

/// The list is not too long, and no transfer of a peer stands in it twice.
pub open spec fn transfers_valid(s: Seq<TransferView>) -> bool {
    &&& s.len() <= MAX_TRANSFERS
    &&& forall|i: int, j: int|
        #![trigger s[i], s[j]]
        0 <= i < j < s.len() ==> s[i].id != s[j].id || s[i].peer_device_id
            != s[j].peer_device_id
}

/// The data that was hashed is as long as what was received, which is not more than announced.
pub open spec fn incoming_valid(m: Map<PeerItem, IncomingTransfer>) -> bool {
    forall|k: PeerItem| #[trigger]
        m.dom().contains(k) ==> {
            &&& digest::absorbed(m[k].hasher).len() == m[k].received
            &&& m[k].received <= m[k].expected
        }
}

/// No peer has more pages in the cache than are kept.
pub open spec fn cache_valid(m: Map<Uuid, Vec<DirectoryPageView>>) -> bool {
    forall|d: Uuid| #[trigger] m.dom().contains(d) ==> m[d]@.len() <= MAX_CACHED_PAGES
}

impl AppState {
    /// What holds at all times.
    pub open spec fn wf(&self) -> bool {
        &&& self.connections.wf()
        &&& connections_valid(self.connections@)
        &&& self.used_handshakes.wf()
        &&& self.network_peers.wf()
        &&& self.network_connections.wf()
        &&& self.network_connecting.wf()
        &&& self.pending_handshakes.wf()
        &&& self.pending_handshakes@.dom().len() <= MAX_PEERS
        &&& self.reconnects.wf()
        &&& self.lan_last_seen.wf()
        &&& self.pending_pairings.wf()
        &&& pairings_valid(self.pending_pairings@)
        &&& self.local_shares@.len() <= MAX_SHARES
        &&& self.remote_shares.wf()
        &&& self.remote_share_revisions.wf()
        &&& self.remote_directory_cache.wf()
        &&& cache_valid(self.remote_directory_cache@)
        &&& self.peer_capabilities.wf()
        &&& self.directory_requests.wf()
        &&& transfers_valid(self.transfers@)
        &&& self.incoming.wf()
        &&& incoming_valid(self.incoming@)
        &&& self.transfer_cancellations.wf()
        &&& self.transfer_acks.wf()
        &&& self.canceled_incoming.wf()
        &&& self.pending_cancel_acks.wf()
    }

    /// The state at the start: nothing is connected and the service does not run yet.
    pub fn new(config: AppStateConfig) -> (r: Self)
        ensures
            r.wf(),
            r.device_id == config.device_id,
            r.device_name == config.device_name,
            r.receive_directory == config.receive_directory,
            r.legacy_receive_directory == config.legacy_receive_directory,
            r.identity == config.identity,
            r.trusted_devices == config.trusted_devices,
            r.clipboard_enabled == config.clipboard_enabled,
            r.autostart_enabled == config.autostart_enabled,
            r.lan_enabled == config.lan_enabled,
            r.lan_setup_decided == config.lan_setup_decided,
            r.listening,
            r.connection_service_state == ConnectionServiceState::Stopped,
            r.service_retry_token is None,
            r.listener is None,
            r.bluetooth_error is None,
            r.discovery_error is None,
            r.tcp_error is None,
            r.tcp_port is None,
            r.local_addresses@.len() == 0,
            r.connections@ == Map::<Uuid, ConnectionMeta>::empty(),
            r.connections.order().len() == 0,
            r.network_runtime is None,
            r.used_handshakes@ == Map::<Uuid, ()>::empty(),
            r.network_peers@ == Map::<Uuid, NetworkPeer>::empty(),
            r.network_connections@ == Map::<Uuid, NetworkConnectionMeta>::empty(),
            r.network_connecting@ == Map::<Uuid, ()>::empty(),
            r.pending_handshakes@ == Map::<Uuid, ()>::empty(),
            r.reconnects@ == Map::<Uuid, ReconnectPlan>::empty(),
            r.devices@.len() == 0,
            r.lan_last_seen@ == Map::<Uuid, Instant>::empty(),
            r.pending_pairings@ == Map::<Uuid, PairingRequestView>::empty(),
            r.local_shares@.len() == 0,
            r.remote_shares@ == Map::<Uuid, Vec<SharedRoot>>::empty(),
            r.remote_share_revisions@ == Map::<Uuid, Uuid>::empty(),
            r.remote_directory_cache@ == Map::<Uuid, Vec<DirectoryPageView>>::empty(),
            r.peer_capabilities@ == Map::<Uuid, Vec<String>>::empty(),
            r.directory_requests@ == Map::<PeerItem, ()>::empty(),
            r.transfers@.len() == 0,
            r.transfer_epoch == 0,
            r.incoming@ == Map::<PeerItem, IncomingTransfer>::empty(),
            r.reserved_destinations@.len() == 0,
            r.transfer_cancellations@ == Map::<PeerItem, ()>::empty(),
            r.transfer_acks@ == Map::<PeerItem, ()>::empty(),
            r.canceled_incoming@ == Map::<PeerItem, Instant>::empty(),
            r.pending_cancel_acks@ == Map::<PeerItem, ()>::empty(),
    {
        AppState {
            device_id: config.device_id,
            device_name: config.device_name,
            receive_directory: config.receive_directory,
            legacy_receive_directory: config.legacy_receive_directory,
            identity: config.identity,
            listening: true,
            connection_service_state: ConnectionServiceState::Stopped,
            service_retry_token: None,
            listener: None,
            bluetooth_error: None,
            discovery_error: None,
            tcp_error: None,
            tcp_port: None,
            local_addresses: Vec::new(),
            connections: Table::new(),
            network_runtime: None,
            used_handshakes: Table::new(),
            network_peers: Table::new(),
            network_connections: Table::new(),
            network_connecting: Table::new(),
            pending_handshakes: Table::new(),
            reconnects: Table::new(),
            clipboard_enabled: config.clipboard_enabled,
            autostart_enabled: config.autostart_enabled,
            lan_enabled: config.lan_enabled,
            lan_setup_decided: config.lan_setup_decided,
            devices: Vec::new(),
            lan_last_seen: Table::new(),
            trusted_devices: config.trusted_devices,
            pending_pairings: Table::new(),
            local_shares: Vec::new(),
            remote_shares: Table::new(),
            remote_share_revisions: Table::new(),
            remote_directory_cache: Table::new(),
            peer_capabilities: Table::new(),
            directory_requests: Table::new(),
            transfers: Vec::new(),
            transfer_epoch: 0,
            incoming: Table::new(),
            reserved_destinations: Vec::new(),
            transfer_cancellations: Table::new(),
            transfer_acks: Table::new(),
            canceled_incoming: Table::new(),
            pending_cancel_acks: Table::new(),
        }
    }
}

/// The application starts with what is known of the device and what the user has chosen, connected
/// to nobody, and with nothing under way.
pub proof fn law_application_starts_empty(config: AppStateConfig, r: AppState, key: PeerItem, id: Uuid)
    requires
        call_ensures(AppState::new, (config,), r),
    ensures
        r.device_id == config.device_id,
        r.device_name@ == config.device_name@,
        r.receive_directory@ == config.receive_directory@,
        r.identity == config.identity,
        r.trusted_devices == config.trusted_devices,
        r.clipboard_enabled == config.clipboard_enabled,
        r.autostart_enabled == config.autostart_enabled,
        r.lan_enabled == config.lan_enabled,
        r.lan_setup_decided == config.lan_setup_decided,
        r.connection_service_state is Stopped,
        r.listening,
        !r.connections@.dom().contains(id),
        !r.network_connections@.dom().contains(id),
        !r.reconnects@.dom().contains(id),
        !r.pending_pairings@.dom().contains(id),
        !r.incoming@.dom().contains(key),
        r.transfers@.len() == 0,
        r.devices@.len() == 0,
        r.local_shares@.len() == 0,
        r.network_runtime is None,
        r.tcp_port is None,
{
}

} // verus!
