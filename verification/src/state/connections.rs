//! The connections to other devices.
use super::{AppState, ConnectionMeta, ReconnectPlan, MAX_PEERS};
use crate::clock::{Duration, Instant};
use crate::error::{AppError, AppResult};
use crate::ids;
use crate::ids::Uuid;
use crate::models::ConnectionKind;
use vstd::prelude::*;

verus! {

/// A connection that has been installed, and the one to the same device that it took the place of.
#[derive(Clone, Copy, Debug, PartialEq, Eq, Structural)]
pub struct Installed {
    pub generation: Uuid,
    pub replaced: Option<Uuid>,
}

/// The connections without the one to this device.
pub open spec fn without_peer(m: Map<Uuid, ConnectionMeta>, peer: Option<Uuid>) -> Map<
    Uuid,
    ConnectionMeta,
> {
    if peer is None {
        m
    } else {
        m.restrict(Set::new(|g: Uuid| m.dom().contains(g) && m[g].peer_device_id != peer))
    }
}

/// The plans after a connection was made for `session`.
pub open spec fn reconnected(m: Map<Uuid, ReconnectPlan>, session: Option<Uuid>) -> Map<
    Uuid,
    ReconnectPlan,
> {
    match session {
        Some(s) => if m.dom().contains(s) {
            m.insert(s, ReconnectPlan { task_running: false, reconnecting: false, ..m[s] })
        } else {
            m
        },
        None => m,
    }
}

/// Taking connections away keeps what holds of them.
pub proof fn lemma_without_peer(m: Map<Uuid, ConnectionMeta>, peer: Option<Uuid>)
    requires
        super::connections_valid(m),
    ensures
        super::connections_valid(without_peer(m, peer)),
        without_peer(m, peer).dom().subset_of(m.dom()),
        without_peer(m, peer).dom().len() <= m.dom().len(),
        (exists|g: Uuid| #[trigger] m.dom().contains(g) && peer is Some && m[g].peer_device_id == peer)
            ==> without_peer(m, peer).dom().len() < m.dom().len(),
{
    let w = without_peer(m, peer);
    assert(w.dom().subset_of(m.dom()));
    vstd::set_lib::lemma_len_subset(w.dom(), m.dom());
    if exists|g: Uuid| #[trigger] m.dom().contains(g) && peer is Some && m[g].peer_device_id == peer {
        let g = choose|g: Uuid| #[trigger] m.dom().contains(g) && peer is Some && m[g].peer_device_id == peer;
        assert(!w.dom().contains(g));
        assert(w.dom().subset_of(m.dom().remove(g)));
        vstd::set_lib::lemma_len_subset(w.dom(), m.dom().remove(g));
    }
    assert forall|g: Uuid| #[trigger] w.dom().contains(g) implies w[g].generation == g by {
        assert(m.dom().contains(g));
    }
    assert forall|a: Uuid, b: Uuid|
        #![trigger w.dom().contains(a), w.dom().contains(b)]
        w.dom().contains(a) && w.dom().contains(b) && w[a].peer_device_id is Some
            && w[a].peer_device_id == w[b].peer_device_id implies a == b by {
        assert(m.dom().contains(a) && m.dom().contains(b));
    }
}

/// A changed connection keeps what holds of all where it stays under its generation and no other
/// is made to the same device.
pub proof fn lemma_connection_changed(m: Map<Uuid, ConnectionMeta>, g: Uuid, meta: ConnectionMeta)
    requires
        super::connections_valid(m),
        m.dom().contains(g) || m.dom().len() < MAX_PEERS,
        meta.generation == g,
        meta.peer_device_id is Some ==> forall|o: Uuid| #[trigger]
            m.dom().contains(o) && o != g ==> m[o].peer_device_id != meta.peer_device_id,
    ensures
        super::connections_valid(m.insert(g, meta)),
{
    let w = m.insert(g, meta);
    assert(w.dom() =~= m.dom().insert(g));
    assert forall|a: Uuid| #[trigger] w.dom().contains(a) implies w[a].generation == a by {
        assert(a == g || m.dom().contains(a));
    }
    assert forall|a: Uuid, b: Uuid|
        #![trigger w.dom().contains(a), w.dom().contains(b)]
        w.dom().contains(a) && w.dom().contains(b) && w[a].peer_device_id is Some
            && w[a].peer_device_id == w[b].peer_device_id implies a == b by {
        assert(a == g || m.dom().contains(a));
        assert(b == g || m.dom().contains(b));
    }
}

impl AppState {
    /// This connection is one to this device.
    pub open spec fn connects(&self, generation: Uuid, device_id: Uuid) -> bool {
        self.connections@.dom().contains(generation)
            && self.connections@[generation].peer_device_id == Some(device_id)
    }

    /// There is a connection to this device.
    pub open spec fn is_connected(&self, device_id: Uuid) -> bool {
        exists|g: Uuid| self.connects(g, device_id)
    }

    /// What an installed connection changes.
    pub open spec fn installs(pre: AppState, post: AppState, meta: ConnectionMeta) -> bool {
        &&& post == (AppState { connections: post.connections, reconnects: post.reconnects, ..pre })
        &&& post.connections@ == without_peer(pre.connections@, meta.peer_device_id).insert(
            meta.generation,
            meta,
        )
        &&& post.reconnects@ == reconnected(pre.reconnects@, meta.reconnect_session)
    }

    /// A connection to this device, or one whose device is not known yet, would be one too many.
    pub open spec fn is_full_for(&self, peer_device_id: Option<Uuid>) -> bool {
        &&& self.connections@.dom().len() >= MAX_PEERS
        &&& match peer_device_id {
            Some(device_id) => !self.is_connected(device_id),
            None => true,
        }
    }

    /// The generation of the connection to this device.
    pub fn connection_generation_for_peer(&self, device_id: Uuid) -> (r: Option<Uuid>)
        requires
            self.wf(),
        ensures
            match r {
                Some(g) => self.connects(g, device_id),
                None => !self.is_connected(device_id),
            },
    {
        let mut i: usize = 0;
        proof {
            self.connections.lemma_order();
        }
        while i < self.connections.len()
            invariant
                self.wf(),
                i <= self.connections.order().len(),
                forall|j: int|
                    0 <= j < i ==> self.connections@[#[trigger] self.connections.order()[j]].peer_device_id
                        != Some(device_id),
            decreases self.connections.order().len() - i,
        {
            let found = match self.connections.value_at(i).peer_device_id {
                Some(peer) => peer == device_id,
                None => false,
            };
            if found {
                return Some(self.connections.key_at(i));
            }
            i = i + 1;
        }
        proof {
            self.connections.lemma_order();
            assert forall|g: Uuid| !self.connects(g, device_id) by {
                if self.connections@.dom().contains(g) {
                    let j = self.connections.order().index_of(g);
                    assert(self.connections.order()[j] == g);
                }
            }
        }
        None
    }

    /// The kind of a connection.
    pub fn connection_kind(&self, generation: Uuid) -> (r: Option<ConnectionKind>)
        requires
            self.wf(),
        ensures
            match r {
                Some(kind) => self.connections@.dom().contains(generation)
                    && kind == self.connections@[generation].kind,
                None => !self.connections@.dom().contains(generation),
            },
    {
        match self.connections.get(&generation) {
            Some(connection) => Some(connection.kind),
            None => None,
        }
    }

    /// The device of a connection, where it is known.
    pub open spec fn peer_of(&self, generation: Uuid) -> Option<Uuid> {
        if self.connections@.dom().contains(generation) {
            self.connections@[generation].peer_device_id
        } else {
            None
        }
    }

    /// The device of a connection, where it is known.
    pub fn peer_for_generation(&self, generation: Uuid) -> (r: Option<Uuid>)
        requires
            self.wf(),
        ensures
            r == self.peer_of(generation),
    {
        match self.connections.get(&generation) {
            Some(connection) => connection.peer_device_id,
            None => None,
        }
    }

    /// The name by which a device is shown: the one of its connection, or else its identifier.
    pub fn peer_name(&self, device_id: Uuid) -> (r: String)
        requires
            self.wf(),
        ensures
            forall|g: Uuid| #[trigger]
                self.connects(g, device_id) ==> r == self.connections@[g].peer_name,
            !self.is_connected(device_id) ==> r@ == ids::hyphenated(device_id.value),
    {
        match self.connection_generation_for_peer(device_id) {
            Some(generation) => match self.connections.get(&generation) {
                Some(connection) => connection.peer_name.clone(),
                None => device_id.to_string(),
            },
            None => device_id.to_string(),
        }
    }

    /// Whether connections are accepted.
    pub fn receiver_enabled(&self) -> (r: bool)
        ensures
            r == self.listening,
    {
        self.listening
    }

    /// Takes the connection to this device out, and says which one it was.
    pub(crate) fn take_peer_connection(&mut self, device_id: Uuid) -> (r: Option<Uuid>)
        requires
            old(self).wf(),
        ensures
            final(self).wf(),
            *final(self) == (AppState { connections: final(self).connections, ..*old(self) }),
            final(self).connections@ == without_peer(old(self).connections@, Some(device_id)),
            match r {
                Some(g) => old(self).connects(g, device_id),
                None => !old(self).is_connected(device_id),
            },
    {
        let found = self.connection_generation_for_peer(device_id);
        proof {
            lemma_without_peer(self.connections@, Some(device_id));
            let m = self.connections@;
            match found {
                Some(g) => {
                    assert(m.remove(g) =~= without_peer(m, Some(device_id)));
                },
                None => {
                    assert forall|g: Uuid| m.dom().contains(g) implies m[g].peer_device_id
                        != Some(device_id) by {
                        assert(!self.connects(g, device_id));
                    }
                    assert(m =~= without_peer(m, Some(device_id)));
                },
            }
        }
        match found {
            Some(generation) => {
                self.connections.remove(&generation);
                Some(generation)
            },
            None => None,
        }
    }

    /// Installs a connection under a fresh generation.
    pub fn install_connection(
        &mut self,
        kind: ConnectionKind,
        peer_hint: String,
        peer_device_id: Option<Uuid>,
        bluetooth_endpoint: Option<String>,
        reconnect_session: Option<Uuid>,
        now: Instant,
    ) -> (r: AppResult<Installed>)
        requires
            old(self).wf(),
        ensures
            final(self).wf(),
            match r {
                Ok(installed) => {
                    &&& installed.generation.is_random()
                    &&& old(self).listening
                    &&& !old(self).is_full_for(peer_device_id)
                    &&& AppState::installs(
                        *old(self),
                        *final(self),
                        ConnectionMeta {
                            generation: installed.generation,
                            kind,
                            peer_name: peer_hint,
                            last_pong: now,
                            last_active: now,
                            reconnect_session,
                            peer_device_id,
                            bluetooth_endpoint,
                        },
                    )
                    &&& match installed.replaced {
                        Some(g) => peer_device_id matches Some(device_id) && old(self).connects(
                            g,
                            device_id,
                        ),
                        None => peer_device_id matches Some(device_id) ==> !old(self).is_connected(
                            device_id,
                        ),
                    }
                },
                Err(e) => {
                    &&& *final(self) == *old(self)
                    &&& if !old(self).listening {
                        e.is_invalid_input("连接服务已停止"@)
                    } else {
                        old(self).is_full_for(peer_device_id) && e.is_protocol(
                            "最多同时连接 8 台设备"@,
                        )
                    }
                },
            },
    {
        let generation = Uuid::new_v4();
        self.install_connection_as(
            generation,
            kind,
            peer_hint,
            peer_device_id,
            bluetooth_endpoint,
            reconnect_session,
            now,
        )
    }

    /// Installs a connection under this generation, in place of one to the same device.
    pub fn install_connection_as(
        &mut self,
        generation: Uuid,
        kind: ConnectionKind,
        peer_hint: String,
        peer_device_id: Option<Uuid>,
        bluetooth_endpoint: Option<String>,
        reconnect_session: Option<Uuid>,
        now: Instant,
    ) -> (r: AppResult<Installed>)
        requires
            old(self).wf(),
        ensures
            final(self).wf(),
            r is Ok <==> old(self).listening && !old(self).is_full_for(peer_device_id),
            match r {
                Ok(installed) => {
                    &&& installed.generation == generation
                    &&& AppState::installs(
                        *old(self),
                        *final(self),
                        ConnectionMeta {
                            generation,
                            kind,
                            peer_name: peer_hint,
                            last_pong: now,
                            last_active: now,
                            reconnect_session,
                            peer_device_id,
                            bluetooth_endpoint,
                        },
                    )
                    &&& match installed.replaced {
                        Some(g) => peer_device_id matches Some(device_id) && old(self).connects(
                            g,
                            device_id,
                        ),
                        None => peer_device_id matches Some(device_id) ==> !old(self).is_connected(
                            device_id,
                        ),
                    }
                },
                Err(e) => {
                    &&& *final(self) == *old(self)
                    &&& if !old(self).listening {
                        e.is_invalid_input("连接服务已停止"@)
                    } else {
                        e.is_protocol("最多同时连接 8 台设备"@)
                    }
                },
            },
    {
        if !self.receiver_enabled() {
            return Err(AppError::invalid_input("连接服务已停止"));
        }
        let known = match peer_device_id {
            Some(device_id) => self.connection_generation_for_peer(device_id).is_some(),
            None => false,
        };
        if self.connections.len() >= MAX_PEERS && !known {
            return Err(AppError::protocol("最多同时连接 8 台设备"));
        }
        proof {
            lemma_without_peer(self.connections@, peer_device_id);
            if known {
                let device_id = peer_device_id.unwrap();
                let g = choose|g: Uuid| self.connects(g, device_id);
                assert(self.connections@.dom().contains(g));
            }
        }
        let replaced = match peer_device_id {
            Some(device_id) => self.take_peer_connection(device_id),
            None => None,
        };
        let meta = ConnectionMeta {
            generation,
            kind,
            peer_name: peer_hint,
            last_pong: now,
            last_active: now,
            reconnect_session,
            peer_device_id,
            bluetooth_endpoint,
        };
        proof {
            lemma_connection_changed(self.connections@, generation, meta);
        }
        self.connections.insert(generation, meta);
        if let Some(session) = reconnect_session {
            self.mark_reconnected(session);
        }
        Ok(Installed { generation, replaced })
    }

    /// Notes that the device of a reconnection plan is connected.
    pub fn mark_reconnected(&mut self, session: Uuid)
        requires
            old(self).wf(),
        ensures
            final(self).wf(),
            *final(self) == (AppState { reconnects: final(self).reconnects, ..*old(self) }),
            final(self).reconnects@ == reconnected(old(self).reconnects@, Some(session)),
    {
        if let Some(reconnect) = self.reconnects.get_mut(&session) {
            reconnect.task_running = false;
            reconnect.reconnecting = false;
        }
    }

    /// Notes that a heartbeat was answered.
    pub fn record_pong(&mut self, generation: Uuid, now: Instant)
        requires
            old(self).wf(),
        ensures
            final(self).wf(),
            *final(self) == (AppState { connections: final(self).connections, ..*old(self) }),
            final(self).connections.order() == old(self).connections.order(),
            final(self).connections@ == if old(self).connections@.dom().contains(generation) {
                old(self).connections@.insert(
                    generation,
                    ConnectionMeta {
                        last_pong: now,
                        last_active: now,
                        ..old(self).connections@[generation]
                    },
                )
            } else {
                old(self).connections@
            },
    {
        if let Some(connection) = self.connections.get_mut(&generation) {
            connection.last_pong = now;
            connection.last_active = now;
        }
        proof {
            if old(self).connections@.dom().contains(generation) {
                lemma_connection_changed(
                    old(self).connections@,
                    generation,
                    self.connections@[generation],
                );
            }
        }
    }

    /// The connections after one of them was used at `now`.
    pub open spec fn used_at(m: Map<Uuid, ConnectionMeta>, generation: Uuid, now: Instant) -> Map<
        Uuid,
        ConnectionMeta,
    > {
        if m.dom().contains(generation) {
            m.insert(generation, ConnectionMeta { last_active: now, ..m[generation] })
        } else {
            m
        }
    }

    /// Notes that a connection was used.
    pub fn record_activity(&mut self, generation: Uuid, now: Instant)
        requires
            old(self).wf(),
        ensures
            final(self).wf(),
            *final(self) == (AppState { connections: final(self).connections, ..*old(self) }),
            final(self).connections.order() == old(self).connections.order(),
            final(self).connections@ == AppState::used_at(
                old(self).connections@,
                generation,
                now,
            ),
    {
        if let Some(connection) = self.connections.get_mut(&generation) {
            connection.last_active = now;
        }
        proof {
            if old(self).connections@.dom().contains(generation) {
                lemma_connection_changed(
                    old(self).connections@,
                    generation,
                    self.connections@[generation],
                );
            }
        }
    }

    /// The time since the last heartbeat was answered.
    pub fn pong_elapsed(&self, generation: Uuid, now: Instant) -> (r: Option<Duration>)
        requires
            self.wf(),
        ensures
            match r {
                Some(elapsed) => self.connections@.dom().contains(generation) && elapsed.nanos
                    == now.since(self.connections@[generation].last_pong),
                None => !self.connections@.dom().contains(generation),
            },
    {
        match self.connections.get(&generation) {
            Some(connection) => Some(now.duration_since(connection.last_pong)),
            None => None,
        }
    }
}

/// A device is connected from the moment that a connection to it is put in, over that connection and
/// no other, and others stay connected.
pub proof fn law_installed_connection_is_found(
    app: &mut AppState,
    kind: ConnectionKind,
    peer_hint: String,
    device_id: Uuid,
    bluetooth_endpoint: Option<String>,
    reconnect_session: Option<Uuid>,
    now: Instant,
    other: Uuid,
    r: AppResult<Installed>,
    found: Option<Uuid>,
    at_end: Option<Uuid>,
    found_kind: Option<ConnectionKind>,
    name: String,
)
    requires
        old(app).wf(),
        call_ensures(
            AppState::install_connection,
            (
                app,
                kind,
                peer_hint,
                Some(device_id),
                bluetooth_endpoint,
                reconnect_session,
                now,
            ),
            r,
        ),
        r is Ok,
        call_ensures(AppState::connection_generation_for_peer, (final(app), device_id), found),
        call_ensures(AppState::peer_for_generation, (final(app), r->Ok_0.generation), at_end),
        call_ensures(AppState::connection_kind, (final(app), r->Ok_0.generation), found_kind),
        call_ensures(AppState::peer_name, (final(app), device_id), name),
    ensures
        found == Some(r->Ok_0.generation),
        at_end == Some(device_id),
        found_kind == Some(kind),
        name@ == peer_hint@,
        final(app).connections@[r->Ok_0.generation].last_pong == now,
        final(app).connections@[r->Ok_0.generation].last_active == now,
        final(app).connections@[r->Ok_0.generation].reconnect_session == reconnect_session,
        final(app).connections@[r->Ok_0.generation].bluetooth_endpoint == bluetooth_endpoint,
        old(app).connections@.dom().contains(other) && other != r->Ok_0.generation
            && old(app).connections@[other].peer_device_id != Some(device_id)
            ==> final(app).connections@.dom().contains(other)
            && final(app).connections@[other] == old(app).connections@[other],
        r->Ok_0.replaced matches Some(g) ==> old(app).connections@.dom().contains(g)
            && old(app).connections@[g].peer_device_id == Some(device_id),
        (forall|g: Uuid| #[trigger]
            old(app).connections@.dom().contains(g) ==> old(app).connections@[g].peer_device_id
                != Some(device_id)) ==> r->Ok_0.replaced is None,
        final(app).connections@.dom().len() <= 8,
{
    let generation = r->Ok_0.generation;
    assert(final(app).connects(generation, device_id));
    assert forall|g: Uuid| #[trigger] final(app).connects(g, device_id) implies g == generation by {
        assert(final(app).connections@.dom().contains(g));
    }
    if let Some(g) = r->Ok_0.replaced {
        assert(old(app).connects(g, device_id));
    }
}

/// There are at most eight connections, and a device that is connected already does not count as
/// one more; nothing is connected to while nothing is listened for.
pub proof fn law_connections_are_limited(
    app: &mut AppState,
    generation: Uuid,
    kind: ConnectionKind,
    peer_hint: String,
    peer: Option<Uuid>,
    bluetooth_endpoint: Option<String>,
    reconnect_session: Option<Uuid>,
    now: Instant,
    r: AppResult<Installed>,
)
    requires
        call_ensures(
            AppState::install_connection_as,
            (
                app,
                generation,
                kind,
                peer_hint,
                peer,
                bluetooth_endpoint,
                reconnect_session,
                now,
            ),
            r,
        ),
    ensures
        r is Ok <==> old(app).listening && (old(app).connections@.dom().len() < 8 || peer is Some
            && exists|g: Uuid| #[trigger]
            old(app).connections@.dom().contains(g) && old(app).connections@[g].peer_device_id
                == peer),
        r is Err ==> *final(app) == *old(app),
        r matches Ok(installed) ==> installed.generation == generation,
{
    if peer is Some && exists|g: Uuid| #[trigger]
        old(app).connections@.dom().contains(g) && old(app).connections@[g].peer_device_id == peer {
        let g = choose|g: Uuid| #[trigger]
            old(app).connections@.dom().contains(g) && old(app).connections@[g].peer_device_id
                == peer;
        assert(old(app).connects(g, peer->0));
    }
    if peer is Some && old(app).is_connected(peer->0) {
        let g = choose|g: Uuid| old(app).connects(g, peer->0);
        assert(old(app).connections@.dom().contains(g));
    }
}

/// The time since the last sign of life is counted from that sign.
pub proof fn law_sign_of_life_is_counted_from(
    app: &mut AppState,
    generation: Uuid,
    then: Instant,
    now: Instant,
    r: Option<Duration>,
)
    requires
        call_ensures(AppState::record_pong, (app, generation, then), ()),
        call_ensures(AppState::pong_elapsed, (final(app), generation, now), r),
        old(app).connections@.dom().contains(generation),
        then.nanos <= now.nanos,
    ensures
        r matches Some(elapsed) && elapsed.nanos == now.nanos - then.nanos,
{
}

/// Activity over a connection is noted of that connection, and is no sign of life by itself.
pub proof fn law_activity_is_noted(app: &mut AppState, generation: Uuid, now: Instant, other: Uuid)
    requires
        call_ensures(AppState::record_activity, (app, generation, now), ()),
        old(app).connections@.dom().contains(generation),
        other != generation,
    ensures
        final(app).connections@.dom() =~= old(app).connections@.dom(),
        final(app).connections@[generation].last_active == now,
        final(app).connections@[generation].last_pong == old(app).connections@[generation].last_pong,
        final(app).connections@[other] == old(app).connections@[other],
{
}

/// A connection to a device that is connected already takes the place of the earlier one, which is
/// named.
pub proof fn law_earlier_connection_is_replaced(
    app: &mut AppState,
    generation: Uuid,
    kind: ConnectionKind,
    hint: String,
    device_id: Uuid,
    endpoint: Option<String>,
    session: Option<Uuid>,
    now: Instant,
    earlier: Uuid,
    r: AppResult<Installed>,
)
    requires
        old(app).wf(),
        call_ensures(
            AppState::install_connection_as,
            (app, generation, kind, hint, Some(device_id), endpoint, session, now),
            r,
        ),
        old(app).connections@.dom().contains(earlier),
        old(app).connections@[earlier].peer_device_id == Some(device_id),
        generation != earlier,
        old(app).listening,
    ensures
        r matches Ok(installed) && installed.replaced == Some(earlier),
        !final(app).connections@.dom().contains(earlier),
        final(app).connections@.dom().contains(generation),
{
    assert(old(app).connects(earlier, device_id));
    if r is Ok {
        if let Some(g) = r->Ok_0.replaced {
            assert(old(app).connects(g, device_id));
            assert(old(app).connections@.dom().contains(g));
        }
    }
}

} // verus!
