//! Which link a frame takes.
use super::AppState;
use crate::clock::Instant;
use crate::error::{AppError, AppResult};
use crate::ids::Uuid;
use crate::protocol::Message;
use vstd::prelude::*;

verus! {

/// The link that a frame is to be queued on.
#[derive(Clone, Copy, Debug, PartialEq, Eq, Structural)]
pub enum Route {
    /// The network link with this generation.
    Network(Uuid),
    /// The connection with this generation.
    Primary(Uuid),
}

/// The devices of the connections in this order, those that are known.
pub open spec fn peers_in(
    order: Seq<Uuid>,
    m: Map<Uuid, super::ConnectionMeta>,
) -> Seq<Uuid>
    decreases order.len(),
{
    if order.len() == 0 {
        Seq::empty()
    } else {
        let front = peers_in(order.drop_last(), m);
        match m[order.last()].peer_device_id {
            Some(device_id) => front.push(device_id),
            None => front,
        }
    }
}

proof fn lemma_peers_in(order: Seq<Uuid>, m: Map<Uuid, super::ConnectionMeta>)
    requires
        order.no_duplicates(),
        forall|i: int| 0 <= i < order.len() ==> m.dom().contains(#[trigger] order[i]),
        super::connections_valid(m),
    ensures
        peers_in(order, m).no_duplicates(),
        forall|d: Uuid| #[trigger]
            peers_in(order, m).contains(d) <==> exists|i: int|
                0 <= i < order.len() && m[#[trigger] order[i]].peer_device_id == Some(d),
    decreases order.len(),
{
    let all = peers_in(order, m);
    if order.len() > 0 {
        let rest = order.drop_last();
        lemma_peers_in(rest, m);
        let front = peers_in(rest, m);
        let last = order.last();
        assert forall|d: Uuid| #[trigger] all.contains(d) <==> exists|i: int|
            0 <= i < order.len() && m[#[trigger] order[i]].peer_device_id == Some(d) by {
            if all.contains(d) {
                let k = all.index_of(d);
                if k < front.len() {
                    assert(front[k] == d);
                    assert(front.contains(d));
                    let i = choose|i: int|
                        0 <= i < rest.len() && m[#[trigger] rest[i]].peer_device_id == Some(d);
                    assert(order[i] == rest[i]);
                } else {
                    assert(order[order.len() - 1] == last);
                }
            }
            if exists|i: int| 0 <= i < order.len() && m[#[trigger] order[i]].peer_device_id == Some(d) {
                let i = choose|i: int|
                    0 <= i < order.len() && m[#[trigger] order[i]].peer_device_id == Some(d);
                if i < rest.len() {
                    assert(rest[i] == order[i]);
                    assert(front.contains(d));
                    let k = front.index_of(d);
                    assert(all[k] == d);
                } else {
                    assert(all[all.len() - 1] == d);
                }
            }
        }
        assert(all.no_duplicates()) by {
            if let Some(d) = m[last].peer_device_id {
                if front.contains(d) {
                    let i = choose|i: int|
                        0 <= i < rest.len() && m[#[trigger] rest[i]].peer_device_id == Some(d);
                    assert(order[i] == rest[i] && order[order.len() - 1] == last);
                    assert(m.dom().contains(order[i]) && m.dom().contains(last));
                }
            }
        }
    }
}

impl AppState {
    /// The devices of the connections are those that are connected, each once.
    pub proof fn lemma_peers_in(&self)
        requires
            self.wf(),
        ensures
            peers_in(self.connections.order(), self.connections@).no_duplicates(),
            forall|d: Uuid| #[trigger]
                peers_in(self.connections.order(), self.connections@).contains(d)
                    <==> self.is_connected(d),
    {
        let order = self.connections.order();
        let peers = peers_in(order, self.connections@);
        self.connections.lemma_order();
        lemma_peers_in(order, self.connections@);
        assert forall|d: Uuid| #[trigger] peers.contains(d) <==> self.is_connected(d) by {
            if peers.contains(d) {
                let k = choose|k: int|
                    0 <= k < order.len() && self.connections@[#[trigger] order[k]].peer_device_id
                        == Some(d);
                assert(self.connects(order[k], d));
            }
            if self.is_connected(d) {
                let g = choose|g: Uuid| self.connects(g, d);
                let k = order.index_of(g);
                assert(order[k] == g);
            }
        }
    }

    /// The connected devices, each once.
    pub fn connected_peer_ids(&self) -> (r: Vec<Uuid>)
        requires
            self.wf(),
        ensures
            r@ == peers_in(self.connections.order(), self.connections@),
            r@.no_duplicates(),
            forall|d: Uuid| #[trigger] r@.contains(d) <==> self.is_connected(d),
    {
        let mut out: Vec<Uuid> = Vec::new();
        let mut i: usize = 0;
        while i < self.connections.len()
            invariant
                self.wf(),
                i <= self.connections.order().len(),
                out@ == peers_in(self.connections.order().take(i as int), self.connections@),
            decreases self.connections.order().len() - i,
        {
            proof {
                let order = self.connections.order();
                assert(order.take(i + 1).drop_last() =~= order.take(i as int));
                assert(order.take(i + 1).last() == order[i as int]);
            }
            if let Some(device_id) = self.connections.value_at(i).peer_device_id {
                out.push(device_id);
            }
            i = i + 1;
        }
        proof {
            let order = self.connections.order();
            assert(order.take(i as int) =~= order);
            self.lemma_peers_in();
        }
        out
    }

    /// Chooses the connection to a device for a frame, and notes that it is used.
    pub fn fallback_route(&mut self, device_id: Uuid, now: Instant) -> (r: AppResult<Route>)
        requires
            old(self).wf(),
        ensures
            final(self).wf(),
            match r {
                Ok(route) => {
                    &&& route matches Route::Primary(g)
                    &&& old(self).connects(g, device_id)
                    &&& *final(self) == (AppState {
                        connections: final(self).connections,
                        ..*old(self)
                    })
                    &&& final(self).connections@ == AppState::used_at(
                        old(self).connections@,
                        g,
                        now,
                    )
                },
                Err(e) => e is NotConnected && !old(self).is_connected(device_id) && *final(self)
                    == *old(self),
            },
    {
        match self.connection_generation_for_peer(device_id) {
            Some(generation) => {
                self.record_activity(generation, now);
                Ok(Route::Primary(generation))
            },
            None => Err(AppError::NotConnected),
        }
    }

    /// Chooses the link for a message to a device: the network link where there is one and the
    /// message may take it, or else the connection. Where the network link does not take the
    /// frame, `fallback_route` gives the connection.
    pub fn send_route(&mut self, device_id: Uuid, message: &Message, now: Instant) -> (r: AppResult<
        Route,
    >)
        requires
            old(self).wf(),
        ensures
            final(self).wf(),
            if !message.is_link_control() && old(self).network_connections@.dom().contains(
                device_id,
            ) {
                &&& r == Ok::<Route, AppError>(
                    Route::Network(old(self).network_connections@[device_id].generation),
                )
                &&& *final(self) == *old(self)
            } else {
                match r {
                    Ok(route) => {
                        &&& route matches Route::Primary(g)
                        &&& old(self).connects(g, device_id)
                        &&& *final(self) == (AppState {
                            connections: final(self).connections,
                            ..*old(self)
                        })
                        &&& final(self).connections@ == AppState::used_at(
                            old(self).connections@,
                            g,
                            now,
                        )
                    },
                    Err(e) => e is NotConnected && !old(self).is_connected(device_id) && *final(self) == *old(self),
                }
            },
    {
        if message.prefers_network() {
            if let Some(link) = self.network_connections.get(&device_id) {
                return Ok(Route::Network(link.generation));
            }
        }
        self.fallback_route(device_id, now)
    }

    /// Chooses the link for an answer on a connection: the one for its device where that is
    /// known, or else the connection itself.
    pub fn send_route_for_generation(
        &mut self,
        generation: Uuid,
        message: &Message,
        now: Instant,
    ) -> (r: AppResult<Route>)
        requires
            old(self).wf(),
        ensures
            final(self).wf(),
            match old(self).peer_of(generation) {
                Some(device_id) => {
                    &&& old(self).is_connected(device_id)
                    &&& r is Ok
                    &&& if !message.is_link_control() && old(
                        self,
                    ).network_connections@.dom().contains(device_id) {
                        r == Ok::<Route, AppError>(
                            Route::Network(old(self).network_connections@[device_id].generation),
                        ) && *final(self) == *old(self)
                    } else {
                        &&& r == Ok::<Route, AppError>(Route::Primary(generation))
                        &&& *final(self) == (AppState {
                            connections: final(self).connections,
                            ..*old(self)
                        })
                        &&& final(self).connections@ == AppState::used_at(
                            old(self).connections@,
                            generation,
                            now,
                        )
                    }
                },
                None => {
                    &&& *final(self) == *old(self)
                    &&& if old(self).connections@.dom().contains(generation) {
                        r == Ok::<Route, AppError>(Route::Primary(generation))
                    } else {
                        r matches Err(e) && e is NotConnected
                    }
                },
            },
    {
        match self.peer_for_generation(generation) {
            Some(device_id) => {
                proof {
                    assert(self.connects(generation, device_id));
                    assert forall|g: Uuid| self.connects(g, device_id) implies g == generation by {
                        assert(self.connections@.dom().contains(g)
                            && self.connections@.dom().contains(generation));
                    }
                }
                self.send_route(device_id, message, now)
            },
            None => {
                if self.connections.contains(&generation) {
                    Ok(Route::Primary(generation))
                } else {
                    Err(AppError::NotConnected)
                }
            },
        }
    }
}

/// What a send comes to, once its last link has taken the frame or not.
pub fn sent(queued: bool) -> (r: AppResult<()>)
    ensures
        match r {
            Ok(()) => queued,
            Err(e) => !queued && e is NotConnected,
        },
{
    if queued {
        Ok(())
    } else {
        Err(AppError::NotConnected)
    }
}

/// What a send that does not wait comes to, once its last link has taken the frame or not.
pub fn sent_at_once(queued: bool) -> (r: AppResult<()>)
    ensures
        match r {
            Ok(()) => queued,
            Err(e) => !queued && e.is_protocol("发送队列繁忙，请稍后重试"@),
        },
{
    if queued {
        Ok(())
    } else {
        Err(AppError::protocol("发送队列繁忙，请稍后重试"))
    }
}

/// What a send to all of so many devices comes to, where `queued` of them took the frame.
pub fn sent_to_all(peers: usize, queued: usize) -> (r: AppResult<()>)
    ensures
        match r {
            Ok(()) => peers > 0 && queued > 0,
            Err(e) => if peers == 0 {
                e is NotConnected
            } else {
                queued == 0 && e.is_protocol("发送队列繁忙，请稍后重试"@)
            },
        },
{
    if peers == 0 {
        return Err(AppError::NotConnected);
    }
    sent_at_once(queued > 0)
}

/// The messages that go over the connection itself, whatever links there are.
pub open spec fn stays_on_connection(message: Message) -> bool {
    message is Hello || message is NetworkHello || message is Ping || message is Pong
        || message is Disconnect || message is TransferCancel || message is TransferCancelAck
}

/// A frame goes over the network link of a device if there is one, and over its connection if not;
/// what concerns the link itself goes over the connection, and a device without one gets nothing.
pub proof fn law_network_link_is_preferred(
    app: &mut AppState,
    device_id: Uuid,
    message: &Message,
    now: Instant,
    r: AppResult<Route>,
)
    requires
        old(app).wf(),
        call_ensures(AppState::send_route, (app, device_id, message, now), r),
    ensures
        (r matches Ok(route) && route is Network) <==> old(app).network_connections@.dom().contains(
            device_id,
        ) && !stays_on_connection(*message),
        r matches Ok(Route::Network(g)) ==> g == old(app).network_connections@[device_id].generation,
        r matches Ok(Route::Primary(g)) ==> old(app).connections@.dom().contains(g)
            && old(app).connections@[g].peer_device_id == Some(device_id)
            && final(app).connections@[g].last_active == now,
        r is Err ==> (r->Err_0 is NotConnected) && forall|g: Uuid| #[trigger]
            old(app).connections@.dom().contains(g) ==> old(app).connections@[g].peer_device_id
                != Some(device_id),
{
    if let Ok(Route::Primary(g)) = r {
        assert(old(app).connects(g, device_id));
    }
    if r is Err {
        assert forall|g: Uuid| #[trigger]
            old(app).connections@.dom().contains(g)
                implies old(app).connections@[g].peer_device_id != Some(device_id) by {
            assert(!old(app).connects(g, device_id));
        }
    }
}

/// Where the link does not take a frame, the connection does, if there is one.
pub proof fn law_connection_is_the_fallback(
    app: &mut AppState,
    device_id: Uuid,
    now: Instant,
    r: AppResult<Route>,
)
    requires
        call_ensures(AppState::fallback_route, (app, device_id, now), r),
    ensures
        r is Ok <==> exists|g: Uuid| #[trigger]
            old(app).connections@.dom().contains(g) && old(app).connections@[g].peer_device_id
                == Some(device_id),
        r matches Ok(route) ==> (route matches Route::Primary(g)
            && old(app).connections@.dom().contains(g)
            && old(app).connections@[g].peer_device_id == Some(
            device_id,
        )),
{
    if let Ok(Route::Primary(g)) = r {
        assert(old(app).connects(g, device_id));
        assert(old(app).connections@.dom().contains(g));
    }
    if exists|g: Uuid| #[trigger]
        old(app).connections@.dom().contains(g) && old(app).connections@[g].peer_device_id == Some(
            device_id,
        ) {
        let g = choose|g: Uuid| #[trigger]
            old(app).connections@.dom().contains(g) && old(app).connections@[g].peer_device_id
                == Some(device_id);
        assert(old(app).connects(g, device_id));
    }
}

/// An answer over a connection goes to the device at its other end.
pub proof fn law_answer_goes_back(
    app: &mut AppState,
    generation: Uuid,
    message: &Message,
    now: Instant,
    r: AppResult<Route>,
)
    requires
        call_ensures(AppState::send_route_for_generation, (app, generation, message, now), r),
    ensures
        r is Ok <==> old(app).connections@.dom().contains(generation),
        r matches Ok(Route::Primary(g)) ==> g == generation,
        r matches Ok(Route::Network(g))
            ==> old(app).connections@[generation].peer_device_id matches Some(d)
            && old(app).network_connections@.dom().contains(d)
            && g == old(app).network_connections@[d].generation
            && !stays_on_connection(*message),
{
}

/// Frames to all go to each connected device, once.
pub proof fn law_all_connected_devices_are_reached(app: AppState, d: Uuid, r: Vec<Uuid>)
    requires
        call_ensures(AppState::connected_peer_ids, (&app,), r),
    ensures
        r@.contains(d) <==> exists|g: Uuid| #[trigger]
            app.connections@.dom().contains(g) && app.connections@[g].peer_device_id == Some(d),
        r@.no_duplicates(),
{
    if exists|g: Uuid| #[trigger]
        app.connections@.dom().contains(g) && app.connections@[g].peer_device_id == Some(d) {
        let g = choose|g: Uuid| #[trigger]
            app.connections@.dom().contains(g) && app.connections@[g].peer_device_id == Some(d);
        assert(app.connects(g, d));
    }
    if app.is_connected(d) {
        let g = choose|g: Uuid| app.connects(g, d);
        assert(app.connections@.dom().contains(g));
    }
}

/// A frame has been sent if it was put into the queue; a frame to all, if it was put into one.
pub proof fn law_sent_means_queued(
    queued: bool,
    peers: usize,
    count: usize,
    one: AppResult<()>,
    at_once: AppResult<()>,
    all: AppResult<()>,
)
    requires
        call_ensures(sent, (queued,), one),
        call_ensures(sent_at_once, (queued,), at_once),
        call_ensures(sent_to_all, (peers, count), all),
    ensures
        one is Ok <==> queued,
        at_once is Ok <==> queued,
        all is Ok <==> peers > 0 && count > 0,
        peers == 0 ==> (all matches Err(e) && e is NotConnected),
        !queued ==> (one matches Err(e) && e is NotConnected),
{
}

} // verus!
