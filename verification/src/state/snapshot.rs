//! What the user sees of the state.
use super::{AppState, ConnectionMeta};
use crate::clock::Instant;
use crate::identity::TrustedDevice;
use crate::ids::Uuid;
use crate::lists;
use crate::lists::Ranked;
use crate::models;
use crate::models::{
    ActiveLink, AppSnapshot, ConnectionKind, ListenerStatus, LocalShare, LocalShareView,
    PairingRequestView, PeerConnectionView, RemoteWorkspaceView, ServiceStatus, TransferView,
    TrustedDeviceView,
};
use vstd::prelude::*;

verus! {

/// A connection as it is shown, with the time of its last use.
#[derive(Debug)]
pub struct RankedConnection {
    pub view: PeerConnectionView,
    pub last_active: Instant,
}

impl Ranked for RankedConnection {
    open spec fn precedes(&self, other: &Self) -> bool {
        self.last_active.nanos > other.last_active.nanos
    }

    proof fn lemma_asymmetric(a: &Self, b: &Self) {
    }

    proof fn lemma_negatively_transitive(a: &Self, b: &Self, c: &Self) {
    }

    fn comes_before(&self, other: &Self) -> (r: bool) {
        self.last_active.nanos > other.last_active.nanos
    }
}

/// The figures of a transfer that are quotients: the bytes in a second, rounded, and the seconds
/// that remain at this rate, rounded up.
#[derive(Clone, Copy, Debug, PartialEq, Eq, Structural)]
pub struct TransferFigures {
    pub rate: u64,
    pub remaining: u64,
}

/// The state of a service that is wanted or not, runs or not, and has failed or not.
pub open spec fn component_status(
    listening: bool,
    enabled: bool,
    available: bool,
    failed: bool,
) -> ServiceStatus {
    if !listening || !enabled {
        ServiceStatus::Off
    } else if failed || !available {
        ServiceStatus::Error
    } else {
        ServiceStatus::Ready
    }
}

fn component(listening: bool, enabled: bool, available: bool, failed: bool) -> (r: ServiceStatus)
    ensures
        r == component_status(listening, enabled, available, failed),
{
    if !listening || !enabled {
        ServiceStatus::Off
    } else if failed || !available {
        ServiceStatus::Error
    } else {
        ServiceStatus::Ready
    }
}

/// A trusted device as it is shown.
pub open spec fn trusted_view(t: TrustedDevice) -> TrustedDeviceView {
    TrustedDeviceView {
        device_id: t.device_id,
        name: t.name,
        fingerprint: t.fingerprint,
        last_seen_at: t.last_seen_at,
    }
}

/// A shared directory as it is shown.
pub open spec fn share_view(s: LocalShare) -> LocalShareView {
    LocalShareView { id: s.id, name: s.name, path: s.path }
}

impl From<&LocalShare> for LocalShareView {
    fn from(value: &LocalShare) -> (r: Self) {
        LocalShareView { id: value.id, name: value.name.clone(), path: value.path.clone() }
    }
}

impl vstd::std_specs::convert::FromSpecImpl<&LocalShare> for LocalShareView {
    open spec fn obeys_from_spec() -> bool {
        true
    }

    open spec fn from_spec(value: &LocalShare) -> Self {
        share_view(*value)
    }
}

impl AppState {
    /// A plan to connect to this device is being carried out.
    pub open spec fn is_reconnecting_to(&self, session: Uuid, device_id: Uuid) -> bool {
        self.plans_for(session, device_id) && self.reconnects@[session].reconnecting
    }

    /// A plan is being carried out.
    pub open spec fn is_reconnecting(&self, session: Uuid) -> bool {
        self.reconnects@.dom().contains(session) && self.reconnects@[session].reconnecting
    }

    /// A connection as it is shown.
    pub open spec fn connection_view(&self, c: ConnectionMeta) -> PeerConnectionView {
        let device_id = c.peer_device_id->0;
        PeerConnectionView {
            device_id,
            name: c.peer_name,
            connection_kind: c.kind,
            bluetooth_connected: c.kind is Bluetooth,
            network_connected: c.kind is Lan || self.network_connections@.dom().contains(device_id),
            reconnecting: exists|s: Uuid| self.is_reconnecting_to(s, device_id),
        }
    }

    /// The connections in this order to devices that are known, as they are shown.
    pub open spec fn ranked_connections(&self, order: Seq<Uuid>) -> Seq<RankedConnection>
        decreases order.len(),
    {
        if order.len() == 0 {
            Seq::empty()
        } else {
            let front = self.ranked_connections(order.drop_last());
            let c = self.connections@[order.last()];
            if c.peer_device_id is Some {
                front.push(
                    RankedConnection {
                        view: self.connection_view(c),
                        last_active: c.last_active,
                    },
                )
            } else {
                front
            }
        }
    }

    /// The connections to devices that are known, the last used first.
    pub open spec fn connection_views(&self) -> Seq<PeerConnectionView> {
        lists::stable_sorted(
            self.ranked_connections(self.connections.order()),
            lists::rank_order::<RankedConnection>(),
        ).map_values(|c: RankedConnection| c.view)
    }

    /// A network link to this connection's device is up, or it is one itself.
    pub open spec fn is_networked(&self, c: ConnectionMeta) -> bool {
        ||| c.kind is Lan
        ||| c.peer_device_id is Some && self.network_connections@.dom().contains(
            c.peer_device_id->0,
        )
    }

    /// The first of the connections.
    pub open spec fn first_connection(&self) -> Option<ConnectionMeta> {
        if self.connections.order().len() > 0 {
            Some(self.connections@[self.connections.order()[0]])
        } else {
            None
        }
    }

    /// The open pairing requests, in the order in which they came.
    pub open spec fn pairing_views(&self) -> Seq<PairingRequestView> {
        Seq::new(
            self.pending_pairings.order().len(),
            |i: int| self.pending_pairings@[self.pending_pairings.order()[i]],
        )
    }

    fn reconnects_to(&self, device_id: Uuid) -> (r: bool)
        requires
            self.wf(),
        ensures
            r == exists|s: Uuid| self.is_reconnecting_to(s, device_id),
    {
        let mut i: usize = 0;
        proof {
            self.reconnects.lemma_order();
        }
        while i < self.reconnects.len()
            invariant
                self.wf(),
                i <= self.reconnects.order().len(),
                forall|j: int|
                    0 <= j < i ==> !self.is_reconnecting_to(
                        #[trigger] self.reconnects.order()[j],
                        device_id,
                    ),
            decreases self.reconnects.order().len() - i,
        {
            let plan = self.reconnects.value_at(i);
            let session = self.reconnects.key_at(i);
            let same = match plan.target.device_id {
                Some(peer) => peer == device_id,
                None => false,
            };
            if same && plan.reconnecting {
                assert(self.is_reconnecting_to(session, device_id));
                return true;
            }
            i = i + 1;
        }
        proof {
            self.reconnects.lemma_order();
            assert forall|s: Uuid| !self.is_reconnecting_to(s, device_id) by {
                if self.reconnects@.dom().contains(s) {
                    let j = self.reconnects.order().index_of(s);
                    assert(self.reconnects.order()[j] == s);
                }
            }
        }
        false
    }

    fn reconnects_at_all(&self) -> (r: bool)
        requires
            self.wf(),
        ensures
            r == exists|s: Uuid| self.is_reconnecting(s),
    {
        let mut i: usize = 0;
        proof {
            self.reconnects.lemma_order();
        }
        while i < self.reconnects.len()
            invariant
                self.wf(),
                i <= self.reconnects.order().len(),
                forall|j: int|
                    0 <= j < i ==> !self.is_reconnecting(#[trigger] self.reconnects.order()[j]),
            decreases self.reconnects.order().len() - i,
        {
            let session = self.reconnects.key_at(i);
            if self.reconnects.value_at(i).reconnecting {
                assert(self.is_reconnecting(session));
                return true;
            }
            i = i + 1;
        }
        proof {
            self.reconnects.lemma_order();
            assert forall|s: Uuid| !self.is_reconnecting(s) by {
                if self.reconnects@.dom().contains(s) {
                    let j = self.reconnects.order().index_of(s);
                    assert(self.reconnects.order()[j] == s);
                }
            }
        }
        false
    }

    fn list_connections(&self) -> (r: Vec<PeerConnectionView>)
        requires
            self.wf(),
        ensures
            r@ == self.connection_views(),
    {
        let mut ranked: Vec<RankedConnection> = Vec::new();
        let mut i: usize = 0;
        while i < self.connections.len()
            invariant
                self.wf(),
                i <= self.connections.order().len(),
                ranked@ == self.ranked_connections(self.connections.order().take(i as int)),
            decreases self.connections.order().len() - i,
        {
            proof {
                let order = self.connections.order();
                assert(order.take(i + 1).drop_last() =~= order.take(i as int));
                assert(order.take(i + 1).last() == order[i as int]);
            }
            let connection = self.connections.value_at(i);
            if let Some(device_id) = connection.peer_device_id {
                let view = PeerConnectionView {
                    device_id,
                    name: connection.peer_name.clone(),
                    connection_kind: connection.kind,
                    bluetooth_connected: matches!(connection.kind, ConnectionKind::Bluetooth),
                    network_connected: matches!(connection.kind, ConnectionKind::Lan)
                        || self.network_connections.contains(&device_id),
                    reconnecting: self.reconnects_to(device_id),
                };
                ranked.push(RankedConnection { view, last_active: connection.last_active });
            }
            i = i + 1;
        }
        proof {
            assert(self.connections.order().take(i as int) =~= self.connections.order());
        }
        lists::sort(&mut ranked);
        let ghost sorted = ranked@;
        let ghost views = sorted.map_values(|c: RankedConnection| c.view);
        let mut out: Vec<PeerConnectionView> = Vec::new();
        proof {
            assert(sorted.skip(0) =~= sorted);
        }
        while ranked.len() > 0
            invariant
                out@.len() <= sorted.len(),
                ranked@ == sorted.skip(out@.len() as int),
                views == sorted.map_values(|c: RankedConnection| c.view),
                out@ == views.take(out@.len() as int),
            decreases ranked@.len(),
        {
            let ghost n = out@.len() as int;
            let first = ranked.remove(0);
            proof {
                assert(sorted.skip(n).len() == sorted.len() - n);
                assert(first == sorted[n]);
                assert(ranked@ =~= sorted.skip(n + 1));
                assert(views.take(n + 1) =~= views.take(n).push(first.view));
            }
            out.push(first.view);
        }
        proof {
            assert(sorted.skip(out@.len() as int).len() == sorted.len() - out@.len());
            assert(views.take(out@.len() as int) =~= views);
        }
        out
    }

    fn list_pairings(&self) -> (r: Vec<PairingRequestView>)
        requires
            self.wf(),
        ensures
            r@ == self.pairing_views(),
    {
        let mut out: Vec<PairingRequestView> = Vec::new();
        let mut i: usize = 0;
        while i < self.pending_pairings.len()
            invariant
                self.wf(),
                i <= self.pending_pairings.order().len(),
                out@ == self.pairing_views().take(i as int),
            decreases self.pending_pairings.order().len() - i,
        {
            out.push(self.pending_pairings.value_at(i).clone());
            i = i + 1;
        }
        proof {
            assert(self.pairing_views().take(i as int) =~= self.pairing_views());
        }
        out
    }

    fn list_trusted(&self) -> (r: Vec<TrustedDeviceView>)
        ensures
            r@ == self.trusted_devices@.map_values(|t: TrustedDevice| trusted_view(t)),
    {
        let ghost views = self.trusted_devices@.map_values(|t: TrustedDevice| trusted_view(t));
        let mut out: Vec<TrustedDeviceView> = Vec::new();
        let mut i: usize = 0;
        while i < self.trusted_devices.len()
            invariant
                i <= self.trusted_devices@.len(),
                views == self.trusted_devices@.map_values(|t: TrustedDevice| trusted_view(t)),
                out@ == views.take(i as int),
            decreases self.trusted_devices@.len() - i,
        {
            let t = &self.trusted_devices[i];
            out.push(
                TrustedDeviceView {
                    device_id: t.device_id,
                    name: t.name.clone(),
                    fingerprint: t.fingerprint.clone(),
                    last_seen_at: t.last_seen_at,
                },
            );
            i = i + 1;
        }
        proof {
            assert(views.take(i as int) =~= views);
        }
        out
    }

    fn list_shares(&self) -> (r: Vec<LocalShareView>)
        ensures
            r@ == self.local_shares@.map_values(|s: LocalShare| share_view(s)),
    {
        let ghost views = self.local_shares@.map_values(|s: LocalShare| share_view(s));
        let mut out: Vec<LocalShareView> = Vec::new();
        let mut i: usize = 0;
        while i < self.local_shares.len()
            invariant
                i <= self.local_shares@.len(),
                views == self.local_shares@.map_values(|s: LocalShare| share_view(s)),
                out@ == views.take(i as int),
            decreases self.local_shares@.len() - i,
        {
            out.push(LocalShareView::from(&self.local_shares[i]));
            i = i + 1;
        }
        proof {
            assert(views.take(i as int) =~= views);
        }
        out
    }

    /// The views hold what each peer shares, in the order of the peers.
    pub open spec fn shows_workspaces(&self, views: Seq<RemoteWorkspaceView>) -> bool {
        &&& views.len() == self.remote_shares.order().len()
        &&& forall|i: int|
            #![trigger views[i]]
            0 <= i < views.len() ==> {
                &&& views[i].device_id == self.remote_shares.order()[i]
                &&& views[i].roots@ == self.remote_shares@[self.remote_shares.order()[i]]@
            }
    }

    fn list_workspaces(&self) -> (r: Vec<RemoteWorkspaceView>)
        requires
            self.wf(),
        ensures
            self.shows_workspaces(r@),
    {
        let mut out: Vec<RemoteWorkspaceView> = Vec::new();
        let mut i: usize = 0;
        while i < self.remote_shares.len()
            invariant
                self.wf(),
                i <= self.remote_shares.order().len(),
                out@.len() == i,
                forall|j: int|
                    #![trigger out@[j]]
                    0 <= j < i ==> {
                        &&& out@[j].device_id == self.remote_shares.order()[j]
                        &&& out@[j].roots@ == self.remote_shares@[self.remote_shares.order()[j]]@
                    },
            decreases self.remote_shares.order().len() - i,
        {
            out.push(
                RemoteWorkspaceView {
                    device_id: self.remote_shares.key_at(i),
                    roots: lists::copy_list(self.remote_shares.value_at(i)),
                },
            );
            i = i + 1;
        }
        out
    }

    /// The state of the services, as it is shown.
    pub open spec fn shows_listeners(&self, listening: bool, status: ListenerStatus) -> bool {
        &&& status.bluetooth == component_status(
            listening,
            true,
            self.listener is Some,
            self.bluetooth_error is Some,
        )
        &&& status.discovery == component_status(
            listening,
            self.lan_enabled,
            self.network_runtime is Some && self.network_runtime->0.discovery_available,
            self.discovery_error is Some,
        )
        &&& status.tcp == component_status(
            listening,
            self.lan_enabled,
            self.tcp_port is Some,
            self.tcp_error is Some,
        )
        &&& status.bluetooth_error == self.bluetooth_error
        &&& status.discovery_error == self.discovery_error
        &&& status.tcp_error == self.tcp_error
        &&& status.tcp_port == self.tcp_port
        &&& status.local_addresses@ == self.local_addresses@
    }

    /// The state of the services.
    pub fn listener_status(&self, listening: bool) -> (r: ListenerStatus)
        ensures
            self.shows_listeners(listening, r),
    {
        let discovery_available = match &self.network_runtime {
            Some(runtime) => runtime.discovery_available,
            None => false,
        };
        ListenerStatus {
            bluetooth: component(
                listening,
                true,
                self.listener.is_some(),
                self.bluetooth_error.is_some(),
            ),
            discovery: component(
                listening,
                self.lan_enabled,
                discovery_available,
                self.discovery_error.is_some(),
            ),
            tcp: component(
                listening,
                self.lan_enabled,
                self.tcp_port.is_some(),
                self.tcp_error.is_some(),
            ),
            bluetooth_error: models::copy_text(&self.bluetooth_error),
            discovery_error: models::copy_text(&self.discovery_error),
            tcp_error: models::copy_text(&self.tcp_error),
            tcp_port: self.tcp_port,
            local_addresses: lists::copy_list(&self.local_addresses),
        }
    }

    /// The transfers with their figures brought up to date.
    pub open spec fn transfers_refreshed(
        s: Seq<TransferView>,
        now: Instant,
        figures: Seq<TransferFigures>,
    ) -> Seq<TransferView> {
        Seq::new(s.len(), |i: int| s[i].refreshed(now, figures[i].rate, figures[i].remaining))
    }

    fn refresh_transfers(&mut self, now: Instant, figures: &Vec<TransferFigures>)
        requires
            old(self).wf(),
            figures@.len() == old(self).transfers@.len(),
        ensures
            final(self).wf(),
            *final(self) == (AppState { transfers: final(self).transfers, ..*old(self) }),
            final(self).transfers@ == AppState::transfers_refreshed(
                old(self).transfers@,
                now,
                figures@,
            ),
    {
        let ghost before = self.transfers@;
        let ghost after = AppState::transfers_refreshed(before, now, figures@);
        let mut i: usize = 0;
        while i < self.transfers.len()
            invariant
                i <= self.transfers@.len(),
                self.transfers@.len() == before.len(),
                figures@.len() == before.len(),
                after == AppState::transfers_refreshed(before, now, figures@),
                *self == (AppState { transfers: self.transfers, ..*old(self) }),
                forall|j: int| 0 <= j < i ==> #[trigger] self.transfers@[j] == after[j],
                forall|j: int|
                    i <= j < self.transfers@.len() ==> #[trigger] self.transfers@[j] == before[j],
            decreases self.transfers@.len() - i,
        {
            let transfer = &mut self.transfers[i];
            transfer.refresh_metrics(now, figures[i].rate, figures[i].remaining);
            i = i + 1;
        }
        proof {
            assert(self.transfers@ =~= after);
            super::transfers::lemma_same_keys(before, after);
        }
    }

    /// What the user sees is what the state holds.
    pub open spec fn shows(&self, shown: AppSnapshot) -> bool {
        let first = self.first_connection();
        &&& shown.device_id == self.device_id
        &&& shown.device_name == self.device_name
        &&& shown.listening == self.listening
        &&& shown.connection_service_state == self.connection_service_state
        &&& self.shows_listeners(self.listening, shown.listener_status)
        &&& shown.connected == (self.connections@.dom().len() > 0)
        &&& shown.network_connected == (first is Some && self.is_networked(first->0))
        &&& shown.active_link == if shown.network_connected {
            ActiveLink::Network
        } else if shown.connected {
            ActiveLink::Bluetooth
        } else {
            ActiveLink::Offline
        }
        &&& shown.reconnecting == exists|s: Uuid| self.is_reconnecting(s)
        &&& match first {
            Some(c) => shown.peer_name == Some(c.peer_name) && shown.connection_kind == Some(c.kind),
            None => shown.peer_name is None && shown.connection_kind is None,
        }
        &&& shown.pairing_requests@ == self.pairing_views()
        &&& shown.pairing_request == if self.pairing_views().len() > 0 {
            Some(self.pairing_views()[0])
        } else {
            None
        }
        &&& shown.connections@ == self.connection_views()
        &&& shown.trusted_devices@ == self.trusted_devices@.map_values(
            |t: TrustedDevice| trusted_view(t),
        )
        &&& shown.clipboard_enabled == self.clipboard_enabled
        &&& shown.autostart_enabled == self.autostart_enabled
        &&& shown.lan_enabled == self.lan_enabled
        &&& shown.lan_setup_required == !self.lan_setup_decided
        &&& shown.receive_directory == self.receive_directory
        &&& shown.legacy_receive_directory == self.legacy_receive_directory
        &&& shown.devices@ == self.devices@
        &&& shown.local_shares@ == self.local_shares@.map_values(|s: LocalShare| share_view(s))
        &&& self.shows_workspaces(shown.remote_workspaces@)
        &&& shown.transfers@ == self.transfers@
    }

    /// Brings the transfers up to date at `now` and gives all that the user sees. `figures` holds
    /// the quotients for each transfer in the list.
    pub fn snapshot(
        &mut self,
        platform: String,
        now: Instant,
        figures: &Vec<TransferFigures>,
    ) -> (r: AppSnapshot)
        requires
            old(self).wf(),
            figures@.len() == old(self).transfers@.len(),
        ensures
            final(self).wf(),
            *final(self) == (AppState { transfers: final(self).transfers, ..*old(self) }),
            final(self).transfers@ == AppState::transfers_refreshed(
                old(self).transfers@,
                now,
                figures@,
            ),
            r.platform == platform,
            final(self).shows(r),
    {
        self.refresh_transfers(now, figures);
        let connections = self.list_connections();
        let pairing_requests = self.list_pairings();
        let pairing_request = if pairing_requests.len() > 0 {
            Some(pairing_requests[0].clone())
        } else {
            None
        };
        let connected = self.connections.len() > 0;
        let (peer_name, connection_kind, network_connected) = if connected {
            let first = self.connections.value_at(0);
            let linked = match first.peer_device_id {
                Some(device_id) => self.network_connections.contains(&device_id),
                None => false,
            };
            (
                Some(first.peer_name.clone()),
                Some(first.kind),
                matches!(first.kind, ConnectionKind::Lan) || linked,
            )
        } else {
            (None, None, false)
        };
        AppSnapshot {
            platform,
            device_id: self.device_id,
            device_name: self.device_name.clone(),
            listening: self.listening,
            connection_service_state: self.connection_service_state,
            listener_status: self.listener_status(self.listening),
            connected,
            network_connected,
            active_link: if network_connected {
                ActiveLink::Network
            } else if connected {
                ActiveLink::Bluetooth
            } else {
                ActiveLink::Offline
            },
            reconnecting: self.reconnects_at_all(),
            peer_name,
            connection_kind,
            pairing_request,
            pairing_requests,
            connections,
            trusted_devices: self.list_trusted(),
            clipboard_enabled: self.clipboard_enabled,
            autostart_enabled: self.autostart_enabled,
            lan_enabled: self.lan_enabled,
            lan_setup_required: !self.lan_setup_decided,
            receive_directory: self.receive_directory.clone(),
            legacy_receive_directory: models::copy_text(&self.legacy_receive_directory),
            devices: lists::copy_list(&self.devices),
            local_shares: self.list_shares(),
            remote_workspaces: self.list_workspaces(),
            transfers: lists::copy_list(&self.transfers),
        }
    }
}

/// What the user sees is what is: who this device is, what it shares, whom it trusts, what it has
/// been asked, what is being transferred, and what the user has chosen.
pub proof fn law_user_sees_what_is(
    app: &mut AppState,
    platform: String,
    now: Instant,
    figures: &Vec<TransferFigures>,
    r: AppSnapshot,
)
    requires
        old(app).wf(),
        call_ensures(AppState::snapshot, (app, platform, now, figures), r),
        figures@.len() == old(app).transfers@.len(),
    ensures
        r.device_id == old(app).device_id,
        r.device_name@ == old(app).device_name@,
        r.platform@ == platform@,
        r.listening == old(app).listening,
        r.connection_service_state == old(app).connection_service_state,
        r.clipboard_enabled == old(app).clipboard_enabled,
        r.autostart_enabled == old(app).autostart_enabled,
        r.lan_enabled == old(app).lan_enabled,
        r.lan_setup_required == !old(app).lan_setup_decided,
        r.receive_directory@ == old(app).receive_directory@,
        r.devices@ == old(app).devices@,
        r.connected <==> old(app).connections@.dom().len() > 0,
        r.active_link is Offline <==> !r.connected,
        r.active_link is Network <==> r.network_connected,
        r.local_shares@.len() == old(app).local_shares@.len(),
        forall|i: int|
            0 <= i < r.local_shares@.len()
                ==> (#[trigger] r.local_shares@[i]).id == old(app).local_shares@[i].id
                && r.local_shares@[i].name@ == old(app).local_shares@[i].name@
                && r.local_shares@[i].path@ == old(app).local_shares@[i].path@,
        r.trusted_devices@.len() == old(app).trusted_devices@.len(),
        forall|i: int|
            0 <= i < r.trusted_devices@.len() ==> (#[trigger] r.trusted_devices@[i]).device_id
                == old(app).trusted_devices@[i].device_id
                    && r.trusted_devices@[i].name@ == old(app).trusted_devices@[i].name@
                    && r.trusted_devices@[i].fingerprint@
                    == old(app).trusted_devices@[i].fingerprint@
                    && r.trusted_devices@[i].last_seen_at
                    == old(app).trusted_devices@[i].last_seen_at,
        r.transfers@.len() == old(app).transfers@.len(),
        forall|i: int|
            0 <= i < r.transfers@.len()
                ==> (#[trigger] r.transfers@[i]).id == old(app).transfers@[i].id
                && r.transfers@[i].state == old(app).transfers@[i].state
                && r.transfers@[i].bytes_done == old(app).transfers@[i].bytes_done
                && r.transfers@[i].name == old(app).transfers@[i].name,
{
    old(app).connections.lemma_order();
    let shares = old(app).local_shares@.map_values(|s: LocalShare| share_view(s));
    let trusted = old(app).trusted_devices@.map_values(|t: TrustedDevice| trusted_view(t));
    assert(r.local_shares@ == shares);
    assert(r.trusted_devices@ == trusted);
}

/// Each question to the user is shown.
pub proof fn law_questions_are_shown(
    app: &mut AppState,
    platform: String,
    now: Instant,
    figures: &Vec<TransferFigures>,
    request: Uuid,
    r: AppSnapshot,
)
    requires
        old(app).wf(),
        call_ensures(AppState::snapshot, (app, platform, now, figures), r),
    ensures
        r.pairing_requests@.len() == old(app).pending_pairings@.dom().len(),
        old(app).pending_pairings@.dom().contains(request) ==> r.pairing_requests@.contains(
            old(app).pending_pairings@[request],
        ),
        r.pairing_request is Some <==> old(app).pending_pairings@.dom().len() > 0,
{
    old(app).pending_pairings.lemma_order();
    if old(app).pending_pairings@.dom().contains(request) {
        let order = old(app).pending_pairings.order();
        assert(order.contains(request));
        let i = order.index_of(request);
        assert(r.pairing_requests@[i] == old(app).pending_pairings@[request]);
    }
}

proof fn lemma_ranked(app: AppState, order: Seq<Uuid>, g: Uuid)
    requires
        order.contains(g),
        app.connections@[g].peer_device_id is Some,
    ensures
        app.ranked_connections(order).contains(
            RankedConnection {
                view: app.connection_view(app.connections@[g]),
                last_active: app.connections@[g].last_active,
            },
        ),
    decreases order.len(),
{
    let x = RankedConnection {
        view: app.connection_view(app.connections@[g]),
        last_active: app.connections@[g].last_active,
    };
    let front = app.ranked_connections(order.drop_last());
    let all = app.ranked_connections(order);
    if order.last() == g {
        assert(all[front.len() as int] == x);
    } else {
        let i = order.index_of(g);
        assert(order.drop_last()[i] == g);
        lemma_ranked(app, order.drop_last(), g);
        let k = front.index_of(x);
        assert(all[k] == x);
    }
}

/// Each connected device is shown, with its name, the way it is connected, and whether there is a
/// network link to it.
pub proof fn law_connected_devices_are_shown(
    app: &mut AppState,
    platform: String,
    now: Instant,
    figures: &Vec<TransferFigures>,
    g: Uuid,
    device_id: Uuid,
    r: AppSnapshot,
)
    requires
        old(app).wf(),
        call_ensures(AppState::snapshot, (app, platform, now, figures), r),
        old(app).connections@.dom().contains(g),
        old(app).connections@[g].peer_device_id == Some(device_id),
    ensures
        exists|i: int|
            0 <= i < r.connections@.len() && {
                let view = #[trigger] r.connections@[i];
                let meta = old(app).connections@[g];
                &&& view.device_id == device_id
                &&& view.name@ == meta.peer_name@
                &&& view.connection_kind == meta.kind
                &&& view.bluetooth_connected <==> meta.kind is Bluetooth
                &&& view.network_connected <==> meta.kind is Lan
                    || old(app).network_connections@.dom().contains(device_id)
            },
{
    old(app).connections.lemma_order();
    let order = old(app).connections.order();
    lemma_ranked(*final(app), order, g);
    let x = RankedConnection {
        view: final(app).connection_view(final(app).connections@[g]),
        last_active: final(app).connections@[g].last_active,
    };
    let ranked = final(app).ranked_connections(order);
    let lt = lists::rank_order::<RankedConnection>();
    lists::lemma_rank_order::<RankedConnection>();
    lists::lemma_sorted_members(ranked, lt, x);
    let sorted = lists::stable_sorted(ranked, lt);
    let i = sorted.index_of(x);
    assert(r.connections@[i] == x.view);
}

/// What a peer shares is shown with the peer.
pub proof fn law_shares_of_peers_are_shown(
    app: &mut AppState,
    platform: String,
    now: Instant,
    figures: &Vec<TransferFigures>,
    device_id: Uuid,
    r: AppSnapshot,
)
    requires
        old(app).wf(),
        call_ensures(AppState::snapshot, (app, platform, now, figures), r),
        old(app).remote_shares@.dom().contains(device_id),
    ensures
        exists|i: int|
            0 <= i < r.remote_workspaces@.len() && (#[trigger] r.remote_workspaces@[i]).device_id
                == device_id && r.remote_workspaces@[i].roots@ == old(app).remote_shares@[device_id]@,
{
    old(app).remote_shares.lemma_order();
    let order = old(app).remote_shares.order();
    assert(order.contains(device_id));
    let i = order.index_of(device_id);
    assert(r.remote_workspaces@[i].device_id == device_id);
}

/// A service is shown as off while nothing is listened for or it was not chosen, as failed where
/// something is wrong with it or it is not there, and else as ready.
pub proof fn law_services_are_shown(app: AppState, listening: bool, r: ListenerStatus)
    requires
        call_ensures(AppState::listener_status, (&app, listening), r),
    ensures
        r.bluetooth is Off <==> !listening,
        r.bluetooth is Ready <==> listening && app.listener is Some && app.bluetooth_error is None,
        r.tcp is Off <==> !(listening && app.lan_enabled),
        r.tcp is Ready <==> listening && app.lan_enabled && app.tcp_port is Some
            && app.tcp_error is None,
        r.discovery is Off <==> !(listening && app.lan_enabled),
        r.discovery is Ready <==> listening && app.lan_enabled && app.network_runtime is Some
            && app.network_runtime->0.discovery_available && app.discovery_error is None,
        r.tcp_port == app.tcp_port,
{
}

proof fn lemma_ranked_from(app: AppState, order: Seq<Uuid>, x: RankedConnection)
    requires
        app.ranked_connections(order).contains(x),
    ensures
        exists|g: Uuid| #[trigger]
            order.contains(g) && app.connections@[g].peer_device_id == Some(x.view.device_id)
                && app.connections@[g].last_active == x.last_active,
    decreases order.len(),
{
    if order.len() > 0 {
        let front = app.ranked_connections(order.drop_last());
        let all = app.ranked_connections(order);
        let i = all.index_of(x);
        if i < front.len() {
            assert(front[i] == x);
            assert(front.contains(x));
            lemma_ranked_from(app, order.drop_last(), x);
            let g = choose|g: Uuid| #[trigger]
                order.drop_last().contains(g) && app.connections@[g].peer_device_id == Some(
                    x.view.device_id,
                ) && app.connections@[g].last_active == x.last_active;
            let k = order.drop_last().index_of(g);
            assert(order[k] == g);
            assert(order.contains(g));
        } else {
            let g = order.last();
            assert(order[order.len() - 1] == g);
            assert(order.contains(g));
            assert(all[i] == x);
            assert(app.connections@[g].peer_device_id is Some);
        }
    }
}

/// Connections are shown with the one that was in use last before all others.
pub proof fn law_latest_connection_is_shown_first(
    app: &mut AppState,
    platform: String,
    now: Instant,
    figures: &Vec<TransferFigures>,
    i: int,
    j: int,
    g: Uuid,
    h: Uuid,
    r: AppSnapshot,
)
    requires
        old(app).wf(),
        call_ensures(AppState::snapshot, (app, platform, now, figures), r),
        0 <= i < j < r.connections@.len(),
        old(app).connections@.dom().contains(g),
        old(app).connections@[g].peer_device_id == Some(r.connections@[i].device_id),
        old(app).connections@.dom().contains(h),
        old(app).connections@[h].peer_device_id == Some(r.connections@[j].device_id),
    ensures
        old(app).connections@[g].last_active.nanos >= old(app).connections@[h].last_active.nanos,
{
    old(app).connections.lemma_order();
    let order = old(app).connections.order();
    let ranked = final(app).ranked_connections(order);
    let lt = lists::rank_order::<RankedConnection>();
    lists::lemma_rank_order::<RankedConnection>();
    lists::lemma_stable_sorted(ranked, lt);
    let sorted = lists::stable_sorted(ranked, lt);
    assert(r.connections@[i] == sorted[i].view);
    assert(r.connections@[j] == sorted[j].view);
    assert(!lt(sorted[j], sorted[i]));
    assert(sorted.contains(sorted[i]) && sorted.contains(sorted[j]));
    lists::lemma_sorted_members(ranked, lt, sorted[i]);
    lists::lemma_sorted_members(ranked, lt, sorted[j]);
    lemma_ranked_from(*final(app), order, sorted[i]);
    lemma_ranked_from(*final(app), order, sorted[j]);
    let a = choose|a: Uuid| #[trigger]
        order.contains(a) && final(app).connections@[a].peer_device_id == Some(
            sorted[i].view.device_id,
        ) && final(app).connections@[a].last_active == sorted[i].last_active;
    let b = choose|b: Uuid| #[trigger]
        order.contains(b) && final(app).connections@[b].peer_device_id == Some(
            sorted[j].view.device_id,
        ) && final(app).connections@[b].last_active == sorted[j].last_active;
    assert(old(app).connections@.dom().contains(a) && old(app).connections@.dom().contains(b));
    assert(a == g && b == h);
}

/// A connection that is shown as the one in use is one that is there, with its name and its kind.
pub proof fn law_shown_connection_is_there(
    app: &mut AppState,
    platform: String,
    now: Instant,
    figures: &Vec<TransferFigures>,
    r: AppSnapshot,
)
    requires
        old(app).wf(),
        call_ensures(AppState::snapshot, (app, platform, now, figures), r),
    ensures
        r.peer_name is Some <==> r.connected,
        r.connection_kind is Some <==> r.connected,
        r.connected ==> exists|g: Uuid| #[trigger]
            old(app).connections@.dom().contains(g)
                && r.peer_name->0@ == old(app).connections@[g].peer_name@
                && r.connection_kind->0 == old(app).connections@[g].kind
                && (r.network_connected <==> old(app).connections@[g].kind is Lan
                    || old(app).connections@[g].peer_device_id is Some
                    && old(app).network_connections@.dom().contains(old(app).connections@[g].peer_device_id->0)),
{
    old(app).connections.lemma_order();
    if r.connected {
        let g = old(app).connections.order()[0];
        assert(old(app).connections@.dom().contains(g));
    }
}

/// It is shown whether this device tries to connect to others again, and to which.
pub proof fn law_reconnecting_is_shown(
    app: &mut AppState,
    platform: String,
    now: Instant,
    figures: &Vec<TransferFigures>,
    g: Uuid,
    device_id: Uuid,
    r: AppSnapshot,
)
    requires
        old(app).wf(),
        call_ensures(AppState::snapshot, (app, platform, now, figures), r),
        old(app).connections@.dom().contains(g),
        old(app).connections@[g].peer_device_id == Some(device_id),
    ensures
        r.reconnecting <==> exists|s: Uuid| #[trigger]
            old(app).reconnects@.dom().contains(s) && old(app).reconnects@[s].reconnecting,
        exists|i: int|
            0 <= i < r.connections@.len() && (#[trigger] r.connections@[i]).device_id == device_id
                && (r.connections@[i].reconnecting <==> exists|s: Uuid| #[trigger]
                old(app).reconnects@.dom().contains(s) && old(app).reconnects@[s].reconnecting
                    && old(app).reconnects@[s].target.device_id == Some(device_id)),
        r.legacy_receive_directory == old(app).legacy_receive_directory,
{
    old(app).connections.lemma_order();
    let order = old(app).connections.order();
    lemma_ranked(*final(app), order, g);
    let x = RankedConnection {
        view: final(app).connection_view(final(app).connections@[g]),
        last_active: final(app).connections@[g].last_active,
    };
    let ranked = final(app).ranked_connections(order);
    let lt = lists::rank_order::<RankedConnection>();
    lists::lemma_rank_order::<RankedConnection>();
    lists::lemma_sorted_members(ranked, lt, x);
    let sorted = lists::stable_sorted(ranked, lt);
    let i = sorted.index_of(x);
    assert(r.connections@[i] == x.view);
    if exists|s: Uuid| #[trigger]
        old(app).reconnects@.dom().contains(s) && old(app).reconnects@[s].reconnecting {
        let s = choose|s: Uuid| #[trigger]
            old(app).reconnects@.dom().contains(s) && old(app).reconnects@[s].reconnecting;
        assert(final(app).is_reconnecting(s));
    }
    if r.reconnecting {
        let s = choose|s: Uuid| final(app).is_reconnecting(s);
        assert(old(app).reconnects@.dom().contains(s));
    }
    if exists|s: Uuid| #[trigger]
        old(app).reconnects@.dom().contains(s) && old(app).reconnects@[s].reconnecting
            && old(app).reconnects@[s].target.device_id == Some(device_id) {
        let s = choose|s: Uuid| #[trigger]
            old(app).reconnects@.dom().contains(s) && old(app).reconnects@[s].reconnecting
                && old(app).reconnects@[s].target.device_id == Some(device_id);
        assert(final(app).is_reconnecting_to(s, device_id));
    }
    if x.view.reconnecting {
        let s = choose|s: Uuid| final(app).is_reconnecting_to(s, device_id);
        assert(old(app).reconnects@.dom().contains(s));
    }
}

} // verus!
