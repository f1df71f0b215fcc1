//! How connections learn who is at their other end, and how they come to their end.
use super::connections;
use super::devices;
use super::network;
use super::reconnects;
use super::transfers;
use super::trust;
use super::{
    AppState, ClosedConnection, ConnectionMeta, NetworkConnectionMeta, NetworkPeer, ReconnectPlan,
};
use crate::ids::{PeerItem, Uuid};
use crate::models;
use crate::models::{DirectoryPageView, SharedRoot};
use vstd::prelude::*;

verus! {

/// What became of a connection whose device has said who it is.
#[derive(Clone, Copy, Debug, PartialEq, Eq, Structural)]
pub enum IdentityOutcome {
    /// The connection is now known as one to that device.
    Accepted,
    /// That device is connected already: this connection was taken out and is to be closed.
    Duplicate,
    /// There is no such connection any more.
    Missing,
}

/// A connection that was taken out, and the network link beside it that is to be closed.
#[derive(Clone, Copy, Debug, PartialEq, Eq, Structural)]
pub struct ClearedConnection {
    pub closed: ClosedConnection,
    pub network: Option<Uuid>,
}

/// The connections and network links that are to be closed.
#[derive(Debug)]
pub struct Closings {
    pub primary: Vec<Uuid>,
    pub network: Vec<Uuid>,
}

impl AppState {
    /// Another connection than this one is to this device.
    pub open spec fn is_connected_elsewhere(&self, generation: Uuid, device_id: Uuid) -> bool {
        exists|g: Uuid| #[trigger] self.connects(g, device_id) && g != generation
    }

    /// What becomes of a connection whose device says who it is.
    pub open spec fn identity_outcome(&self, generation: Uuid, device_id: Uuid) -> IdentityOutcome {
        if !self.connections@.dom().contains(generation) {
            IdentityOutcome::Missing
        } else if self.is_connected_elsewhere(generation, device_id) {
            IdentityOutcome::Duplicate
        } else {
            IdentityOutcome::Accepted
        }
    }

    /// What an identified connection changes.
    pub open spec fn identifies(
        pre: AppState,
        post: AppState,
        generation: Uuid,
        device_id: Uuid,
        peer_name: String,
        capabilities: Vec<String>,
    ) -> bool {
        &&& post == (AppState {
            connections: post.connections,
            peer_capabilities: post.peer_capabilities,
            devices: post.devices,
            ..pre
        })
        &&& post.connections@ == pre.connections@.insert(
            generation,
            ConnectionMeta {
                peer_device_id: Some(device_id),
                peer_name,
                ..pre.connections@[generation]
            },
        )
        &&& post.peer_capabilities@ == pre.peer_capabilities@.insert(device_id, capabilities)
        &&& match pre.connections@[generation].bluetooth_endpoint {
            Some(endpoint) => post.seen() == devices::after_identification(
                pre.seen(),
                endpoint@,
                device_id,
                peer_name@,
                trust::is_trusted(pre.trusted(), device_id),
            ),
            None => post.devices == pre.devices,
        }
    }

    /// Notes who is at the other end of a connection.
    pub fn update_peer_identity(
        &mut self,
        generation: Uuid,
        device_id: Uuid,
        peer_name: String,
        capabilities: Vec<String>,
    ) -> (r: IdentityOutcome)
        requires
            old(self).wf(),
        ensures
            final(self).wf(),
            r == old(self).identity_outcome(generation, device_id),
            match r {
                IdentityOutcome::Missing => *final(self) == *old(self),
                IdentityOutcome::Duplicate => {
                    &&& *final(self) == (AppState {
                        connections: final(self).connections,
                        ..*old(self)
                    })
                    &&& final(self).connections@ == old(self).connections@.remove(generation)
                },
                IdentityOutcome::Accepted => AppState::identifies(
                    *old(self),
                    *final(self),
                    generation,
                    device_id,
                    peer_name,
                    capabilities,
                ),
            },
    {
        if !self.connections.contains(&generation) {
            return IdentityOutcome::Missing;
        }
        let other = self.connection_generation_for_peer(device_id);
        let elsewhere = match other {
            Some(g) => g != generation,
            None => false,
        };
        proof {
            match other {
                Some(g) => {
                    assert(self.connects(g, device_id));
                    if !elsewhere {
                        assert forall|o: Uuid| self.connects(o, device_id) implies o
                            == generation by {
                            assert(self.connections@.dom().contains(o)
                                && self.connections@.dom().contains(generation));
                        }
                    }
                },
                None => {
                    assert forall|o: Uuid| !self.connects(o, device_id) by {}
                },
            }
        }
        if elsewhere {
            proof {
                self.lemma_connection_removed(generation);
            }
            self.connections.remove(&generation);
            return IdentityOutcome::Duplicate;
        }
        let endpoint = match self.connections.get(&generation) {
            Some(connection) => models::copy_text(&connection.bluetooth_endpoint),
            None => None,
        };
        let shown = peer_name.clone();
        if let Some(connection) = self.connections.get_mut(&generation) {
            connection.peer_device_id = Some(device_id);
            connection.peer_name = peer_name;
        }
        proof {
            let m = old(self).connections@;
            assert forall|o: Uuid| #[trigger] m.dom().contains(o) && o != generation implies m[o].peer_device_id
                != Some(device_id) by {
                assert(!old(self).connects(o, device_id));
            }
            connections::lemma_connection_changed(m, generation, self.connections@[generation]);
        }
        self.peer_capabilities.insert(device_id, capabilities);
        if let Some(endpoint) = endpoint {
            self.associate_bluetooth_identity(&endpoint, device_id, &shown);
        }
        IdentityOutcome::Accepted
    }

    /// A connection that is taken out leaves what holds of the others.
    proof fn lemma_connection_removed(&self, generation: Uuid)
        requires
            self.wf(),
        ensures
            super::connections_valid(self.connections@.remove(generation)),
    {
        let m = self.connections@;
        let w = m.remove(generation);
        assert(w.dom() =~= m.dom().remove(generation));
        assert forall|g: Uuid| #[trigger] w.dom().contains(g) implies w[g].generation == g by {
            assert(m.dom().contains(g));
        }
        assert forall|a: Uuid, b: Uuid|
            #![trigger w.dom().contains(a), w.dom().contains(b)]
            w.dom().contains(a) && w.dom().contains(b) && w[a].peer_device_id is Some
                && w[a].peer_device_id == w[b].peer_device_id implies a == b by {
            assert(m.dom().contains(a) && m.dom().contains(b));
        }
    }

    /// Whether there is a connection to be asked to close.
    pub fn close_connection(&self, generation: Uuid) -> (r: bool)
        requires
            self.wf(),
        ensures
            r == self.connections@.dom().contains(generation),
    {
        self.connections.contains(&generation)
    }

    /// What is forgotten of a device when the link to it ends.
    pub open spec fn forgets_links(
        pre: AppState,
        post: AppState,
        device_id: Uuid,
        closed: Option<Uuid>,
    ) -> bool {
        &&& post.transfer_acks@ == transfers::keys_without(pre.transfer_acks@, device_id)
        &&& AppState::unlinks(pre, post, device_id, closed)
        &&& post.remote_shares@ == pre.remote_shares@.remove(device_id)
        &&& post.remote_share_revisions@ == pre.remote_share_revisions@.remove(device_id)
        &&& post.remote_directory_cache@ == pre.remote_directory_cache@.remove(device_id)
    }

    fn forget_links(&mut self, device_id: Uuid) -> (r: Option<Uuid>)
        requires
            old(self).wf(),
        ensures
            final(self).wf(),
            *final(self) == (AppState {
                transfer_acks: final(self).transfer_acks,
                network_peers: final(self).network_peers,
                network_connecting: final(self).network_connecting,
                network_connections: final(self).network_connections,
                remote_shares: final(self).remote_shares,
                remote_share_revisions: final(self).remote_share_revisions,
                remote_directory_cache: final(self).remote_directory_cache,
                ..*old(self)
            }),
            AppState::forgets_links(*old(self), *final(self), device_id, r),
    {
        self.cancel_transfer_acks_for_peer(device_id);
        let closed = self.disconnect_network(device_id);
        self.remote_shares.remove(&device_id);
        self.remote_share_revisions.remove(&device_id);
        self.clear_remote_directory_cache(device_id);
        closed
    }

    /// What the end of a connection changes.
    pub open spec fn clears(
        pre: AppState,
        post: AppState,
        generation: Uuid,
        cleared: ClearedConnection,
    ) -> bool {
        let meta = pre.connections@[generation];
        &&& cleared.closed == (ClosedConnection {
            reconnect_session: meta.reconnect_session,
            peer_device_id: meta.peer_device_id,
        })
        &&& post.connections@ == pre.connections@.remove(generation)
        &&& match meta.peer_device_id {
            Some(device_id) => {
                &&& post == (AppState {
                    connections: post.connections,
                    transfer_acks: post.transfer_acks,
                    network_peers: post.network_peers,
                    network_connecting: post.network_connecting,
                    network_connections: post.network_connections,
                    remote_shares: post.remote_shares,
                    remote_share_revisions: post.remote_share_revisions,
                    remote_directory_cache: post.remote_directory_cache,
                    peer_capabilities: post.peer_capabilities,
                    ..pre
                })
                &&& AppState::forgets_links(pre, post, device_id, cleared.network)
                &&& post.peer_capabilities@ == pre.peer_capabilities@.remove(device_id)
            },
            None => {
                &&& post == (AppState { connections: post.connections, ..pre })
                &&& cleared.network is None
            },
        }
    }

    /// Takes a connection out that has come to its end.
    pub fn clear_connection(&mut self, generation: Uuid) -> (r: Option<ClearedConnection>)
        requires
            old(self).wf(),
        ensures
            final(self).wf(),
            match r {
                Some(cleared) => old(self).connections@.dom().contains(generation)
                    && AppState::clears(*old(self), *final(self), generation, cleared),
                None => !old(self).connections@.dom().contains(generation) && *final(self) == *old(
                    self,
                ),
            },
    {
        proof {
            self.lemma_connection_removed(generation);
        }
        match self.connections.remove(&generation) {
            None => None,
            Some(connection) => {
                let network = match connection.peer_device_id {
                    Some(device_id) => {
                        let network = self.forget_links(device_id);
                        self.peer_capabilities.remove(&device_id);
                        network
                    },
                    None => None,
                };
                Some(
                    ClearedConnection {
                        closed: ClosedConnection {
                            reconnect_session: connection.reconnect_session,
                            peer_device_id: connection.peer_device_id,
                        },
                        network,
                    },
                )
            },
        }
    }

    /// Ends all connections, and says which are to be closed.
    pub fn disconnect(&mut self) -> (r: Closings)
        requires
            old(self).wf(),
        ensures
            final(self).wf(),
            *final(self) == (AppState {
                reconnects: final(self).reconnects,
                transfer_acks: final(self).transfer_acks,
                connections: final(self).connections,
                network_peers: final(self).network_peers,
                network_connecting: final(self).network_connecting,
                network_connections: final(self).network_connections,
                remote_shares: final(self).remote_shares,
                remote_share_revisions: final(self).remote_share_revisions,
                remote_directory_cache: final(self).remote_directory_cache,
                ..*old(self)
            }),
            final(self).reconnects@ == Map::<Uuid, ReconnectPlan>::empty(),
            final(self).transfer_acks@ == Map::<PeerItem, ()>::empty(),
            final(self).connections@ == Map::<Uuid, ConnectionMeta>::empty(),
            final(self).network_peers@ == Map::<Uuid, NetworkPeer>::empty(),
            final(self).network_connecting@ == Map::<Uuid, ()>::empty(),
            final(self).network_connections@ == Map::<Uuid, NetworkConnectionMeta>::empty(),
            final(self).remote_shares@ == Map::<Uuid, Vec<SharedRoot>>::empty(),
            final(self).remote_share_revisions@ == Map::<Uuid, Uuid>::empty(),
            final(self).remote_directory_cache@ == Map::<Uuid, Vec<DirectoryPageView>>::empty(),
            r.primary@ == old(self).connections.order(),
            r.network@ == network::link_generations(old(self).network_connections),
    {
        self.cancel_reconnect();
        self.cancel_all_transfer_acks();
        let mut primary: Vec<Uuid> = Vec::new();
        let mut i: usize = 0;
        while i < self.connections.len()
            invariant
                self.wf(),
                i <= self.connections.order().len(),
                primary@ == self.connections.order().take(i as int),
            decreases self.connections.order().len() - i,
        {
            primary.push(self.connections.key_at(i));
            i = i + 1;
        }
        proof {
            assert(self.connections.order().take(i as int) =~= self.connections.order());
        }
        self.connections.clear();
        let network = self.disconnect_all_networks();
        self.remote_shares.clear();
        self.remote_share_revisions.clear();
        self.remote_directory_cache.clear();
        Closings { primary, network }
    }

    /// What ending the connection to a device and the wish to have one changes.
    pub open spec fn leaves_peer(
        pre: AppState,
        post: AppState,
        device_id: Uuid,
        primary: Option<Uuid>,
        network: Option<Uuid>,
    ) -> bool {
        &&& post == (AppState {
            reconnects: post.reconnects,
            connections: post.connections,
            transfer_acks: post.transfer_acks,
            network_peers: post.network_peers,
            network_connecting: post.network_connecting,
            network_connections: post.network_connections,
            remote_shares: post.remote_shares,
            remote_share_revisions: post.remote_share_revisions,
            remote_directory_cache: post.remote_directory_cache,
            ..pre
        })
        &&& post.reconnects@ == reconnects::plans_without(pre.reconnects@, device_id)
        &&& post.connections@ == connections::without_peer(pre.connections@, Some(device_id))
        &&& AppState::forgets_links(pre, post, device_id, network)
        &&& match primary {
            Some(g) => pre.connects(g, device_id),
            None => !pre.is_connected(device_id),
        }
    }

    /// Ends the connection to a device and the wish to have one, and says which links are to be
    /// closed.
    pub fn disconnect_peer(&mut self, device_id: Uuid) -> (r: (Option<Uuid>, Option<Uuid>))
        requires
            old(self).wf(),
        ensures
            final(self).wf(),
            AppState::leaves_peer(*old(self), *final(self), device_id, r.0, r.1),
            !final(self).is_connected(device_id),
    {
        self.cancel_reconnect_for_peer(device_id);
        let ghost middle = *self;
        let primary = self.take_peer_connection(device_id);
        proof {
            assert forall|g: Uuid|
                #![trigger old(self).connects(g, device_id)]
                #![trigger middle.connects(g, device_id)]
                old(self).connects(g, device_id) == middle.connects(g, device_id) by {}
        }
        let network = self.forget_links(device_id);
        proof {
            assert forall|g: Uuid| !self.connects(g, device_id) by {}
        }
        (primary, network)
    }
}

/// Once a connection has come to its end, it is gone with all that went over it: links, pages and
/// roots of the device, and what was waited for from it. Nothing of another device changes.
pub proof fn law_ended_connection_leaves_nothing(
    app: &mut AppState,
    generation: Uuid,
    device_id: Uuid,
    other: Uuid,
    item: Uuid,
    r: Option<ClearedConnection>,
)
    requires
        call_ensures(AppState::clear_connection, (app, generation), r),
        old(app).connections@.dom().contains(generation),
        old(app).connections@[generation].peer_device_id == Some(device_id),
        other != device_id,
    ensures
        !final(app).connections@.dom().contains(generation),
        r matches Some(cleared) && cleared.closed.peer_device_id == Some(device_id)
            && cleared.closed.reconnect_session
                == old(app).connections@[generation].reconnect_session
                && (cleared.network is Some
                <==> old(app).network_connections@.dom().contains(device_id))
                && (cleared.network is Some
            ==> cleared.network->0 == old(app).network_connections@[device_id].generation),
        !final(app).network_connections@.dom().contains(device_id),
        !final(app).network_peers@.dom().contains(device_id),
        !final(app).remote_shares@.dom().contains(device_id),
        !final(app).remote_directory_cache@.dom().contains(device_id),
        !final(app).peer_capabilities@.dom().contains(device_id),
        !final(app).transfer_acks@.dom().contains(PeerItem { peer: device_id, item }),
        forall|g: Uuid| #[trigger]
            old(app).connections@.dom().contains(g) && g != generation
                ==> final(app).connections@.dom().contains(g)
                && final(app).connections@[g] == old(app).connections@[g],
        final(app).remote_shares@.dom().contains(other)
            <==> old(app).remote_shares@.dom().contains(other),
        final(app).network_connections@.dom().contains(other)
            <==> old(app).network_connections@.dom().contains(other),
        final(app).transfer_acks@.dom().contains(PeerItem { peer: other, item })
            <==> old(app).transfer_acks@.dom().contains(PeerItem { peer: other, item }),
        final(app).reconnects == old(app).reconnects,
        final(app).transfers == old(app).transfers,
        final(app).trusted_devices == old(app).trusted_devices,
{
}

/// A connection that is not there is not ended, and one that is there is found when it is to be
/// closed.
pub proof fn law_only_connections_are_ended(
    app: &mut AppState,
    generation: Uuid,
    there: bool,
    r: Option<ClearedConnection>,
)
    requires
        call_ensures(AppState::close_connection, (old(app), generation), there),
        call_ensures(AppState::clear_connection, (app, generation), r),
    ensures
        there <==> old(app).connections@.dom().contains(generation),
        r is Some <==> there,
        !there ==> *final(app) == *old(app),
{
}

/// To disconnect from a device ends its connections, and it is not connected to again by itself; the
/// connections to others stay.
pub proof fn law_disconnected_device_is_left(
    app: &mut AppState,
    device_id: Uuid,
    other: Uuid,
    r: (Option<Uuid>, Option<Uuid>),
)
    requires
        call_ensures(AppState::disconnect_peer, (app, device_id), r),
    ensures
        forall|g: Uuid| #[trigger]
            final(app).connections@.dom().contains(g) ==> final(app).connections@[g].peer_device_id
                != Some(device_id),
        forall|g: Uuid| #[trigger]
            old(app).connections@.dom().contains(g) && old(app).connections@[g].peer_device_id
                != Some(device_id) ==> final(app).connections@.dom().contains(g)
                    && final(app).connections@[g] == old(app).connections@[g],
        forall|s: Uuid| #[trigger]
            final(app).reconnects@.dom().contains(s) <==> old(app).reconnects@.dom().contains(s)
                && old(app).reconnects@[s].target.device_id != Some(device_id),
        !final(app).network_connections@.dom().contains(device_id),
        !final(app).remote_shares@.dom().contains(device_id),
        r.0 matches Some(g) ==> old(app).connections@.dom().contains(g)
            && old(app).connections@[g].peer_device_id == Some(device_id),
        r.0 is None ==> forall|g: Uuid| #[trigger]
            old(app).connections@.dom().contains(g) ==> old(app).connections@[g].peer_device_id
                != Some(device_id),
        r.1 is Some <==> old(app).network_connections@.dom().contains(device_id),
        r.1 matches Some(g) ==> g == old(app).network_connections@[device_id].generation,
        final(app).trusted_devices == old(app).trusted_devices,
{
    assert forall|g: Uuid| #[trigger]
        final(app).connections@.dom().contains(g)
            implies final(app).connections@[g].peer_device_id != Some(device_id) by {
        assert(!final(app).connects(g, device_id));
    }
    if r.0 is None {
        assert forall|g: Uuid| #[trigger]
            old(app).connections@.dom().contains(g)
                implies old(app).connections@[g].peer_device_id != Some(device_id) by {
            assert(!old(app).connects(g, device_id));
        }
    }
    if let Some(g) = r.0 {
        assert(old(app).connects(g, device_id));
    }
}

/// To disconnect from all ends every connection and every link, each of which is named, and nothing
/// is connected to again by itself.
pub proof fn law_disconnecting_ends_all(app: &mut AppState, g: Uuid, d: Uuid, r: Closings)
    requires
        old(app).wf(),
        call_ensures(AppState::disconnect, (app,), r),
    ensures
        !final(app).connections@.dom().contains(g),
        !final(app).network_connections@.dom().contains(d),
        !final(app).reconnects@.dom().contains(g),
        !final(app).remote_shares@.dom().contains(d),
        r.primary@.contains(g) <==> old(app).connections@.dom().contains(g),
        old(app).network_connections@.dom().contains(d) ==> r.network@.contains(
            old(app).network_connections@[d].generation,
        ),
        final(app).trusted_devices == old(app).trusted_devices,
        final(app).transfers == old(app).transfers,
{
    old(app).connections.lemma_order();
    old(app).network_connections.lemma_order();
    if old(app).network_connections@.dom().contains(d) {
        let links = old(app).network_connections;
        let i = links.order().index_of(d);
        assert(links.order().contains(d));
        assert(r.network@[i] == links@[d].generation);
    }
}

/// Who is at the other end of a connection is noted with its name and what it can do; a device that
/// is connected over another connection is not noted, and the newer connection is given up.
pub proof fn law_identity_is_noted_once(
    app: &mut AppState,
    generation: Uuid,
    device_id: Uuid,
    peer_name: String,
    capabilities: Vec<String>,
    r: IdentityOutcome,
)
    requires
        call_ensures(
            AppState::update_peer_identity,
            (app, generation, device_id, peer_name, capabilities),
            r,
        ),
    ensures
        r is Missing <==> !old(app).connections@.dom().contains(generation),
        r is Duplicate <==> old(app).connections@.dom().contains(generation) && exists|g: Uuid|
            #[trigger]
            old(app).connections@.dom().contains(g) && g != generation
                && old(app).connections@[g].peer_device_id == Some(device_id),
        r is Accepted ==> {
            let meta = final(app).connections@[generation];
            &&& final(app).connections@.dom().contains(generation)
            &&& meta.peer_device_id == Some(device_id)
            &&& meta.peer_name@ == peer_name@
            &&& meta.kind == old(app).connections@[generation].kind
            &&& final(app).peer_capabilities@.dom().contains(device_id)
            &&& final(app).peer_capabilities@[device_id] == capabilities
        },
        r is Duplicate ==> !final(app).connections@.dom().contains(generation),
        r is Missing ==> *final(app) == *old(app),
        forall|g: Uuid| #[trigger]
            old(app).connections@.dom().contains(g) && g != generation
                ==> final(app).connections@.dom().contains(g)
                && final(app).connections@[g] == old(app).connections@[g],
{
    if exists|g: Uuid| #[trigger]
        old(app).connections@.dom().contains(g) && g != generation
            && old(app).connections@[g].peer_device_id == Some(device_id) {
        let g = choose|g: Uuid| #[trigger]
            old(app).connections@.dom().contains(g) && g != generation
                && old(app).connections@[g].peer_device_id == Some(device_id);
        assert(old(app).connects(g, device_id));
    }
    if old(app).is_connected_elsewhere(generation, device_id) {
        let g = choose|g: Uuid| #[trigger]
            old(app).connects(g, device_id) && g != generation;
        assert(old(app).connections@.dom().contains(g));
    }
}

} // verus!
