//! Network links beside Bluetooth connections, and the services of the local network.
use super::{AppState, NetworkConnectionMeta, NetworkPeer, NetworkRuntime, MAX_PEERS};
use crate::error::{AppError, AppResult};
use crate::ids::Uuid;
use crate::models::ConnectionKind;
use crate::protocol::NetworkOffer;
use crate::table::Table;
use vstd::prelude::*;

verus! {

/// The number of bytes in the key of a network link.
pub const LINK_KEY_LENGTH: usize = 32;

/// A network link that has been installed, and the one that it took the place of.
#[derive(Clone, Copy, Debug, PartialEq, Eq, Structural)]
pub struct InstalledLink {
    pub generation: Uuid,
    pub replaced: Option<Uuid>,
}

/// The generations of the links, in the order of their devices.
pub open spec fn link_generations(links: Table<Uuid, NetworkConnectionMeta>) -> Seq<Uuid> {
    Seq::new(links.order().len(), |i: int| links@[links.order()[i]].generation)
}

impl NetworkRuntime {
    /// Whether the discovery service runs beside the TCP service.
    pub fn discovery_available(&self) -> (r: bool)
        ensures
            r == self.discovery_available,
    {
        self.discovery_available
    }
}

impl AppState {
    /// This is a Bluetooth connection, to this device if one is given.
    pub open spec fn is_bluetooth_link(&self, generation: Uuid, device_id: Option<Uuid>) -> bool {
        &&& self.connections@.dom().contains(generation)
        &&& self.connections@[generation].kind is Bluetooth
        &&& device_id is Some ==> self.connections@[generation].peer_device_id == device_id
    }

    /// Whether this is a Bluetooth connection, to this device if one is given.
    pub fn is_bluetooth_generation_active(&self, generation: Uuid, device_id: Option<Uuid>) -> (r:
        bool)
        requires
            self.wf(),
        ensures
            r == self.is_bluetooth_link(generation, device_id),
    {
        match self.connections.get(&generation) {
            Some(connection) => {
                let same_peer = match device_id {
                    Some(value) => match connection.peer_device_id {
                        Some(peer) => peer == value,
                        None => false,
                    },
                    None => true,
                };
                matches!(connection.kind, ConnectionKind::Bluetooth) && connection.generation
                    == generation && same_peer
            },
            None => false,
        }
    }

    /// Notes the session key that a device has offered over its Bluetooth connection.
    pub fn set_network_peer(
        &mut self,
        bluetooth_generation: Uuid,
        device_id: Uuid,
        offer: NetworkOffer,
    ) -> (r: AppResult<()>)
        requires
            old(self).wf(),
        ensures
            final(self).wf(),
            if offer.key@.len() != LINK_KEY_LENGTH {
                &&& r matches Err(e)
                &&& e.is_protocol("局域网链路密钥长度无效"@)
                &&& *final(self) == *old(self)
            } else if !old(self).is_bluetooth_link(bluetooth_generation, Some(device_id)) {
                &&& r matches Err(e)
                &&& e is NotConnected
                &&& *final(self) == *old(self)
            } else {
                &&& r is Ok
                &&& *final(self) == (AppState {
                    network_peers: final(self).network_peers,
                    ..*old(self)
                })
                &&& final(self).network_peers@ == old(self).network_peers@.insert(
                    device_id,
                    NetworkPeer {
                        bluetooth_generation,
                        device_id,
                        session_id: offer.session_id,
                        key: offer.key,
                    },
                )
            },
    {
        if offer.key.len() != LINK_KEY_LENGTH {
            return Err(AppError::protocol("局域网链路密钥长度无效"));
        }
        if !self.is_bluetooth_generation_active(bluetooth_generation, Some(device_id)) {
            return Err(AppError::NotConnected);
        }
        self.network_peers.insert(
            device_id,
            NetworkPeer {
                bluetooth_generation,
                device_id,
                session_id: offer.session_id,
                key: offer.key,
            },
        );
        Ok(())
    }

    /// The session key that a device has offered.
    pub fn network_peer(&self, device_id: Uuid) -> (r: Option<&NetworkPeer>)
        requires
            self.wf(),
        ensures
            match r {
                Some(peer) => self.network_peers@.dom().contains(device_id) && *peer
                    == self.network_peers@[device_id],
                None => !self.network_peers@.dom().contains(device_id),
            },
    {
        self.network_peers.get(&device_id)
    }

    /// Claims the making of a network link to a device. One claim at a time succeeds.
    pub fn begin_network_connect(&mut self, device_id: Uuid) -> (r: bool)
        requires
            old(self).wf(),
        ensures
            final(self).wf(),
            *final(self) == (AppState {
                network_connecting: final(self).network_connecting,
                ..*old(self)
            }),
            r == !old(self).network_connecting@.dom().contains(device_id),
            final(self).network_connecting@ == old(self).network_connecting@.insert(device_id, ()),
    {
        self.network_connecting.insert(device_id, ()).is_none()
    }

    /// Gives the claim on a network link back.
    pub fn finish_network_connect(&mut self, device_id: Uuid)
        requires
            old(self).wf(),
        ensures
            final(self).wf(),
            *final(self) == (AppState {
                network_connecting: final(self).network_connecting,
                ..*old(self)
            }),
            final(self).network_connecting@ == old(self).network_connecting@.remove(device_id),
    {
        self.network_connecting.remove(&device_id);
    }

    /// Admits a handshake unless too many are under way or this one is already.
    pub fn begin_pending_handshake(&mut self, handshake_id: Uuid) -> (r: bool)
        requires
            old(self).wf(),
        ensures
            final(self).wf(),
            *final(self) == (AppState {
                pending_handshakes: final(self).pending_handshakes,
                ..*old(self)
            }),
            r == (old(self).pending_handshakes@.dom().len() < MAX_PEERS && !old(
                self,
            ).pending_handshakes@.dom().contains(handshake_id)),
            final(self).pending_handshakes@ == if r {
                old(self).pending_handshakes@.insert(handshake_id, ())
            } else {
                old(self).pending_handshakes@
            },
    {
        if self.pending_handshakes.len() >= MAX_PEERS {
            return false;
        }
        proof {
            self.pending_handshakes.lemma_order();
        }
        let fresh = self.pending_handshakes.insert(handshake_id, ()).is_none();
        proof {
            let m = old(self).pending_handshakes@;
            assert(self.pending_handshakes@.dom() =~= m.dom().insert(handshake_id));
            if !fresh {
                assert(self.pending_handshakes@ =~= m);
            }
        }
        fresh
    }

    /// Notes that a handshake has come to its end.
    pub fn finish_pending_handshake(&mut self, handshake_id: Uuid)
        requires
            old(self).wf(),
        ensures
            final(self).wf(),
            *final(self) == (AppState {
                pending_handshakes: final(self).pending_handshakes,
                ..*old(self)
            }),
            final(self).pending_handshakes@ == old(self).pending_handshakes@.remove(handshake_id),
    {
        proof {
            self.pending_handshakes.lemma_order();
        }
        self.pending_handshakes.remove(&handshake_id);
        proof {
            assert(self.pending_handshakes@.dom() =~= old(self).pending_handshakes@.dom().remove(
                handshake_id,
            ));
        }
    }

    /// Installs a network link to a connected device under a fresh generation.
    pub fn install_network_connection(&mut self, device_id: Uuid) -> (r: AppResult<InstalledLink>)
        requires
            old(self).wf(),
        ensures
            final(self).wf(),
            r is Ok <==> old(self).listening && old(self).is_connected(device_id),
            match r {
                Ok(link) => link.generation.is_random() && AppState::links(
                    *old(self),
                    *final(self),
                    device_id,
                    link,
                ),
                Err(e) => e is NotConnected && *final(self) == *old(self),
            },
    {
        let generation = Uuid::new_v4();
        self.install_network_connection_as(generation, device_id)
    }

    /// What an installed network link changes.
    pub open spec fn links(
        pre: AppState,
        post: AppState,
        device_id: Uuid,
        link: InstalledLink,
    ) -> bool {
        &&& post == (AppState {
            network_connections: post.network_connections,
            network_connecting: post.network_connecting,
            ..pre
        })
        &&& post.network_connections@ == pre.network_connections@.insert(
            device_id,
            NetworkConnectionMeta { generation: link.generation },
        )
        &&& post.network_connecting@ == pre.network_connecting@.remove(device_id)
        &&& link.replaced == if pre.network_connections@.dom().contains(device_id) {
            Some(pre.network_connections@[device_id].generation)
        } else {
            None
        }
    }

    /// Installs a network link to a connected device under this generation.
    pub fn install_network_connection_as(&mut self, generation: Uuid, device_id: Uuid) -> (r:
        AppResult<InstalledLink>)
        requires
            old(self).wf(),
        ensures
            final(self).wf(),
            r is Ok <==> old(self).listening && old(self).is_connected(device_id),
            match r {
                Ok(link) => link.generation == generation && AppState::links(
                    *old(self),
                    *final(self),
                    device_id,
                    link,
                ),
                Err(e) => e is NotConnected && *final(self) == *old(self),
            },
    {
        if !self.receiver_enabled() || self.connection_generation_for_peer(device_id).is_none() {
            return Err(AppError::NotConnected);
        }
        let replaced = match self.network_connections.insert(
            device_id,
            NetworkConnectionMeta { generation },
        ) {
            Some(previous) => Some(previous.generation),
            None => None,
        };
        self.finish_network_connect(device_id);
        Ok(InstalledLink { generation, replaced })
    }

    /// A device has this network link.
    pub open spec fn is_link(&self, device_id: Uuid, generation: Uuid) -> bool {
        self.network_connections@.dom().contains(device_id)
            && self.network_connections@[device_id].generation == generation
    }

    /// This is no link to any device.
    pub open spec fn has_no_link(&self, generation: Uuid) -> bool {
        forall|d: Uuid| !self.is_link(d, generation)
    }

    /// Takes a network link out, if it is still there.
    pub fn clear_network_connection(&mut self, generation: Uuid) -> (r: bool)
        requires
            old(self).wf(),
        ensures
            final(self).wf(),
            *final(self) == (AppState {
                network_connections: final(self).network_connections,
                network_connecting: final(self).network_connecting,
                ..*old(self)
            }),
            r == exists|d: Uuid| old(self).is_link(d, generation),
            !r ==> old(self).has_no_link(generation),
            r ==> exists|d: Uuid| #[trigger]
                old(self).is_link(d, generation) && final(self).network_connections@ == old(
                    self,
                ).network_connections@.remove(d) && final(self).network_connecting@ == old(
                    self,
                ).network_connecting@.remove(d),
            !r ==> *final(self) == *old(self),
    {
        let mut i: usize = 0;
        proof {
            self.network_connections.lemma_order();
        }
        while i < self.network_connections.len()
            invariant
                self.wf(),
                *self == *old(self),
                i <= self.network_connections.order().len(),
                forall|j: int|
                    0 <= j < i
                        ==> self.network_connections@[#[trigger] self.network_connections.order()[j]].generation
                        != generation,
            decreases self.network_connections.order().len() - i,
        {
            if self.network_connections.value_at(i).generation == generation {
                let device_id = self.network_connections.key_at(i);
                assert(old(self).is_link(device_id, generation));
                self.network_connections.remove(&device_id);
                self.finish_network_connect(device_id);
                return true;
            }
            i = i + 1;
        }
        proof {
            self.network_connections.lemma_order();
            assert forall|d: Uuid| !self.is_link(d, generation) by {
                if self.network_connections@.dom().contains(d) {
                    let j = self.network_connections.order().index_of(d);
                    assert(self.network_connections.order()[j] == d);
                }
            }
        }
        false
    }

    /// Whether there is a network link to a device.
    pub fn has_network_connection(&self, device_id: Uuid) -> (r: bool)
        requires
            self.wf(),
        ensures
            r == self.network_connections@.dom().contains(device_id),
    {
        self.network_connections.contains(&device_id)
    }

    /// What the end of the network link to a device changes.
    pub open spec fn unlinks(
        pre: AppState,
        post: AppState,
        device_id: Uuid,
        closed: Option<Uuid>,
    ) -> bool {
        &&& post.network_peers@ == pre.network_peers@.remove(device_id)
        &&& post.network_connecting@ == pre.network_connecting@.remove(device_id)
        &&& post.network_connections@ == pre.network_connections@.remove(device_id)
        &&& closed == if pre.network_connections@.dom().contains(device_id) {
            Some(pre.network_connections@[device_id].generation)
        } else {
            None
        }
    }

    /// Ends the network link to a device, and says which one is to be closed.
    pub fn disconnect_network(&mut self, device_id: Uuid) -> (r: Option<Uuid>)
        requires
            old(self).wf(),
        ensures
            final(self).wf(),
            *final(self) == (AppState {
                network_peers: final(self).network_peers,
                network_connecting: final(self).network_connecting,
                network_connections: final(self).network_connections,
                ..*old(self)
            }),
            AppState::unlinks(*old(self), *final(self), device_id, r),
    {
        self.network_peers.remove(&device_id);
        self.finish_network_connect(device_id);
        match self.network_connections.remove(&device_id) {
            Some(connection) => Some(connection.generation),
            None => None,
        }
    }

    /// Ends all network links, and says which are to be closed.
    pub fn disconnect_all_networks(&mut self) -> (r: Vec<Uuid>)
        requires
            old(self).wf(),
        ensures
            final(self).wf(),
            *final(self) == (AppState {
                network_peers: final(self).network_peers,
                network_connecting: final(self).network_connecting,
                network_connections: final(self).network_connections,
                ..*old(self)
            }),
            final(self).network_peers@ == Map::<Uuid, NetworkPeer>::empty(),
            final(self).network_connecting@ == Map::<Uuid, ()>::empty(),
            final(self).network_connections@ == Map::<Uuid, NetworkConnectionMeta>::empty(),
            r@ == link_generations(old(self).network_connections),
    {
        self.network_peers.clear();
        self.network_connecting.clear();
        let mut closed: Vec<Uuid> = Vec::new();
        let mut i: usize = 0;
        while i < self.network_connections.len()
            invariant
                self.wf(),
                self.network_connections == old(self).network_connections,
                i <= self.network_connections.order().len(),
                closed@ == link_generations(self.network_connections).take(i as int),
            decreases self.network_connections.order().len() - i,
        {
            closed.push(self.network_connections.value_at(i).generation);
            i = i + 1;
        }
        proof {
            assert(link_generations(self.network_connections).take(i as int)
                =~= link_generations(self.network_connections));
        }
        self.network_connections.clear();
        closed
    }

    /// Notes that the services of the local network run. No handshake has been used with them yet.
    pub fn install_network_runtime(
        &mut self,
        runtime: NetworkRuntime,
        discovery_error: Option<String>,
        local_addresses: Vec<String>,
    )
        requires
            old(self).wf(),
        ensures
            final(self).wf(),
            *final(self) == (AppState {
                tcp_port: Some(runtime.tcp_port),
                discovery_error,
                tcp_error: None,
                local_addresses,
                network_runtime: Some(runtime),
                used_handshakes: final(self).used_handshakes,
                ..*old(self)
            }),
            final(self).used_handshakes@ == Map::<Uuid, ()>::empty(),
    {
        self.tcp_port = Some(runtime.tcp_port);
        self.discovery_error = discovery_error;
        self.tcp_error = None;
        self.local_addresses = local_addresses;
        self.network_runtime = Some(runtime);
        self.used_handshakes.clear();
    }

    /// The services of the local network that run.
    pub fn network_runtime(&self) -> (r: Option<&NetworkRuntime>)
        ensures
            match r {
                Some(runtime) => self.network_runtime == Some(*runtime),
                None => self.network_runtime is None,
            },
    {
        self.network_runtime.as_ref()
    }

    /// Notes whether the discovery service runs beside the TCP service.
    pub fn set_discovery_available(&mut self, available: bool)
        ensures
            *final(self) == (AppState {
                network_runtime: match old(self).network_runtime {
                    Some(runtime) => Some(
                        NetworkRuntime { discovery_available: available, ..runtime },
                    ),
                    None => None,
                },
                ..*old(self)
            }),
    {
        if let Some(runtime) = self.network_runtime.as_mut() {
            runtime.discovery_available = available;
        }
    }

    /// Notes the addresses of this device, and says whether they have changed.
    pub fn update_local_addresses(&mut self, addresses: Vec<String>) -> (r: bool)
        ensures
            r == !same_texts(old(self).local_addresses@, addresses@),
            *final(self) == if r {
                AppState { local_addresses: addresses, ..*old(self) }
            } else {
                *old(self)
            },
    {
        if equal_texts(&self.local_addresses, &addresses) {
            return false;
        }
        self.local_addresses = addresses;
        true
    }

    /// Notes that the services of the local network are to end, and gives them to be stopped.
    pub fn take_network_runtime(&mut self) -> (r: Option<NetworkRuntime>)
        ensures
            *final(self) == (AppState {
                tcp_port: None,
                local_addresses: final(self).local_addresses,
                network_runtime: None,
                ..*old(self)
            }),
            final(self).local_addresses@.len() == 0,
            r == old(self).network_runtime,
    {
        self.tcp_port = None;
        self.local_addresses = Vec::new();
        self.network_runtime.take()
    }

    /// Notes that the services of the local network could not be started.
    pub fn set_network_start_error(&mut self, error: String)
        ensures
            *final(self) == (AppState {
                tcp_error: Some(error),
                discovery_error: Some(error),
                tcp_port: None,
                ..*old(self)
            }),
    {
        self.tcp_error = Some(error.clone());
        self.discovery_error = Some(error);
        self.tcp_port = None;
    }
}

/// The lists hold the same texts in the same order.
pub open spec fn same_texts(a: Seq<String>, b: Seq<String>) -> bool {
    &&& a.len() == b.len()
    &&& forall|i: int| 0 <= i < a.len() ==> (#[trigger] a[i])@ == b[i]@
}

/// Whether two lists hold the same texts in the same order.
pub fn equal_texts(a: &Vec<String>, b: &Vec<String>) -> (r: bool)
    ensures
        r == same_texts(a@, b@),
{
    if a.len() != b.len() {
        return false;
    }
    let mut i: usize = 0;
    while i < a.len()
        invariant
            i <= a@.len(),
            a@.len() == b@.len(),
            forall|j: int| 0 <= j < i ==> (#[trigger] a@[j])@ == b@[j]@,
        decreases a@.len() - i,
    {
        if a[i] != b[i] {
            assert(a@[i as int]@ != b@[i as int]@);
            return false;
        }
        i = i + 1;
    }
    true
}

/// The link that a device offers over Bluetooth is noted, with its key, if the key is 32 bytes long
/// and the device is at the other end of that Bluetooth connection; otherwise nothing is.
pub proof fn law_offered_link_is_noted(
    app: &mut AppState,
    generation: Uuid,
    device_id: Uuid,
    offer: NetworkOffer,
    r: AppResult<()>,
    found: Option<&NetworkPeer>,
)
    requires
        call_ensures(AppState::set_network_peer, (app, generation, device_id, offer), r),
        call_ensures(AppState::network_peer, (final(app), device_id), found),
    ensures
        r is Ok <==> offer.key@.len() == 32 && old(app).connections@.dom().contains(generation)
            && old(app).connections@[generation].kind is Bluetooth
                && old(app).connections@[generation].peer_device_id == Some(device_id),
        r is Ok ==> (found matches Some(peer) && peer.key@ == offer.key@ && peer.session_id
            == offer.session_id && peer.bluetooth_generation == generation && peer.device_id
            == device_id),
        r is Err ==> *final(app) == *old(app),
{
}

/// A link to a device is being made by one at a time.
pub proof fn law_link_is_made_by_one(
    app: &mut AppState,
    next: &mut AppState,
    ended: &mut AppState,
    last: &mut AppState,
    device_id: Uuid,
    first: bool,
    second: bool,
    third: bool,
)
    requires
        call_ensures(AppState::begin_network_connect, (app, device_id), first),
        *next == *final(app),
        call_ensures(AppState::begin_network_connect, (next, device_id), second),
        *ended == *final(next),
        call_ensures(AppState::finish_network_connect, (ended, device_id), ()),
        *last == *final(ended),
        call_ensures(AppState::begin_network_connect, (last, device_id), third),
    ensures
        first <==> !old(app).network_connecting@.dom().contains(device_id),
        !second,
        third,
{
}

/// At most eight handshakes are under way, each once.
pub proof fn law_handshakes_are_limited(
    app: &mut AppState,
    next: &mut AppState,
    handshake_id: Uuid,
    first: bool,
    second: bool,
)
    requires
        old(app).wf(),
        call_ensures(AppState::begin_pending_handshake, (app, handshake_id), first),
        *next == *final(app),
        call_ensures(AppState::begin_pending_handshake, (next, handshake_id), second),
    ensures
        first <==> old(app).pending_handshakes@.dom().len() < 8
            && !old(app).pending_handshakes@.dom().contains(handshake_id),
        !second,
        final(next).pending_handshakes@.dom().len() <= 8,
        first ==> final(next).pending_handshakes@.dom().contains(handshake_id),
{
}

/// A link to a connected device is there once it has been put in, until it is taken out, and takes
/// the place of an earlier one.
pub proof fn law_link_is_there_until_cleared(
    app: &mut AppState,
    next: &mut AppState,
    generation: Uuid,
    device_id: Uuid,
    other: Uuid,
    r: AppResult<InstalledLink>,
    before: bool,
    cleared: bool,
)
    requires
        call_ensures(AppState::install_network_connection_as, (app, generation, device_id), r),
        call_ensures(AppState::has_network_connection, (final(app), device_id), before),
        *next == *final(app),
        call_ensures(AppState::clear_network_connection, (next, generation), cleared),
        other != device_id,
    ensures
        r is Ok <==> old(app).listening && exists|g: Uuid| #[trigger]
            old(app).connections@.dom().contains(g) && old(app).connections@[g].peer_device_id
                == Some(device_id),
        r matches Ok(link) ==> before && cleared && link.generation == generation && (
        link.replaced is Some <==> old(app).network_connections@.dom().contains(device_id)) && (
        link.replaced is Some
            ==> link.replaced->0 == old(app).network_connections@[device_id].generation)
            && final(app).network_connections@[device_id].generation == generation,
        r is Ok && (!old(app).network_connections@.dom().contains(other)
            || old(app).network_connections@[other].generation != generation)
            ==> final(next).network_connections@.dom().contains(other)
            == old(app).network_connections@.dom().contains(other),
        r is Ok && (forall|d: Uuid| #[trigger]
            old(app).network_connections@.dom().contains(d)
                ==> old(app).network_connections@[d].generation != generation)
                ==> !final(next).network_connections@.dom().contains(device_id),
{
    if exists|g: Uuid| #[trigger]
        old(app).connections@.dom().contains(g) && old(app).connections@[g].peer_device_id == Some(
            device_id,
        ) {
        let g = choose|g: Uuid| #[trigger]
            old(app).connections@.dom().contains(g) && old(app).connections@[g].peer_device_id
                == Some(device_id);
        assert(old(app).connects(g, device_id));
    }
    if old(app).is_connected(device_id) {
        let g = choose|g: Uuid| old(app).connects(g, device_id);
        assert(old(app).connections@.dom().contains(g));
    }
    if r is Ok {
        assert(old(next).is_link(device_id, generation));
        let d = choose|d: Uuid| #[trigger]
            old(next).is_link(d, generation)
                && final(next).network_connections@ == old(next).network_connections@.remove(d);
        if d != device_id {
            assert(old(app).network_connections@.dom().contains(d));
        }
    }
}

/// Every link that is given up is named, and none is left.
pub proof fn law_all_links_are_given_up(
    app: &mut AppState,
    one: &mut AppState,
    device_id: Uuid,
    r: Vec<Uuid>,
    closed: Option<Uuid>,
)
    requires
        old(app).wf(),
        call_ensures(AppState::disconnect_all_networks, (app,), r),
        call_ensures(AppState::disconnect_network, (one, device_id), closed),
    ensures
        !final(app).network_connections@.dom().contains(device_id),
        !final(app).network_peers@.dom().contains(device_id),
        old(app).network_connections@.dom().contains(device_id) ==> r@.contains(
            old(app).network_connections@[device_id].generation,
        ),
        !final(one).network_connections@.dom().contains(device_id),
        !final(one).network_peers@.dom().contains(device_id),
        closed is Some <==> old(one).network_connections@.dom().contains(device_id),
        closed matches Some(g) ==> g == old(one).network_connections@[device_id].generation,
{
    let links = old(app).network_connections;
    links.lemma_order();
    if links@.dom().contains(device_id) {
        let i = links.order().index_of(device_id);
        assert(links.order().contains(device_id));
        assert(r@[i] == links@[device_id].generation);
    }
}

/// The services of the local network are found from their start to their end, with the port that
/// they listen on.
pub proof fn law_services_run_until_taken(
    app: &mut AppState,
    next: &mut AppState,
    runtime: NetworkRuntime,
    discovery_error: Option<String>,
    addresses: Vec<String>,
    found: Option<&NetworkRuntime>,
    taken: Option<NetworkRuntime>,
    after: Option<&NetworkRuntime>,
)
    requires
        call_ensures(
            AppState::install_network_runtime,
            (app, runtime, discovery_error, addresses),
            (),
        ),
        call_ensures(AppState::network_runtime, (final(app),), found),
        *next == *final(app),
        call_ensures(AppState::take_network_runtime, (next,), taken),
        call_ensures(AppState::network_runtime, (final(next),), after),
    ensures
        found matches Some(there) && *there == runtime,
        final(app).tcp_port == Some(runtime.tcp_port),
        final(app).local_addresses@ == addresses@,
        final(app).tcp_error is None,
        final(app).discovery_error == discovery_error,
        taken == Some(runtime),
        after is None,
        final(next).tcp_port is None,
        final(next).local_addresses@.len() == 0,
{
}

/// It is noticed when the addresses of this device are others than before, and then they are noted.
pub proof fn law_new_addresses_are_noticed(app: &mut AppState, addresses: Vec<String>, r: bool)
    requires
        call_ensures(AppState::update_local_addresses, (app, addresses), r),
    ensures
        final(app).local_addresses@.len() == addresses@.len(),
        forall|i: int|
            0 <= i < addresses@.len() ==> (#[trigger] final(app).local_addresses@[i])@
                == addresses@[i]@,
        !r ==> *final(app) == *old(app),
        r ==> old(app).local_addresses@.len() != addresses@.len() || exists|i: int|
            0 <= i < addresses@.len() && (#[trigger] old(app).local_addresses@[i])@
                != addresses@[i]@,
{
}

/// A handshake that has ended makes room for another.
pub proof fn law_ended_handshake_makes_room(
    app: &mut AppState,
    next: &mut AppState,
    id: Uuid,
    r: bool,
)
    requires
        old(app).wf(),
        old(app).pending_handshakes@.dom().contains(id),
        call_ensures(AppState::finish_pending_handshake, (app, id), ()),
        *next == *final(app),
        call_ensures(AppState::begin_pending_handshake, (next, id), r),
    ensures
        r,
{
    old(app).pending_handshakes.lemma_order();
}

/// A connection is one over Bluetooth if it was made so, and is to this device if it is at its other
/// end.
pub proof fn law_bluetooth_connections_are_told(
    app: AppState,
    generation: Uuid,
    device_id: Uuid,
    any: bool,
    this: bool,
)
    requires
        call_ensures(AppState::is_bluetooth_generation_active, (&app, generation, None), any),
        call_ensures(
            AppState::is_bluetooth_generation_active,
            (&app, generation, Some(device_id)),
            this,
        ),
    ensures
        any <==> app.connections@.dom().contains(generation)
            && app.connections@[generation].kind is Bluetooth,
        this <==> any && app.connections@[generation].peer_device_id == Some(device_id),
{
}

/// Discovery is there or not as it was last noted, and a failed start is noted for both services.
pub proof fn law_state_of_services_is_noted(
    app: &mut AppState,
    failed: &mut AppState,
    available: bool,
    error: String,
)
    requires
        call_ensures(AppState::set_discovery_available, (app, available), ()),
        call_ensures(AppState::set_network_start_error, (failed, error), ()),
    ensures
        old(app).network_runtime is Some <==> final(app).network_runtime is Some,
        final(app).network_runtime matches Some(runtime) ==> runtime.discovery_available
            == available && runtime.tcp_port == old(app).network_runtime->0.tcp_port,
        final(failed).tcp_error == Some(error),
        final(failed).discovery_error == Some(error),
        final(failed).tcp_port is None,
{
}

} // verus!
