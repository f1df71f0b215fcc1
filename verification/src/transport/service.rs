//! The connection service: how it is started, kept up and stopped.
use crate::clock::Instant;
use crate::error::AppError;
use crate::files::canceling;
use crate::ids::{PeerItem, Uuid};
use crate::models::{
    ConnectionServiceState, DirectoryPageView, Notice, NoticeLevel, PairingRequestView, SharedRoot,
    TransferState,
};
use crate::protocol::{Frame, Message, CAPABILITY_TRANSFER_CANCEL};
use crate::state::lifecycle::Closings;
use crate::state::network;
use crate::state::routing;
use crate::state::transfers;
use crate::state::{
    AppState, ConnectionMeta, IncomingTransfer, NetworkConnectionMeta, NetworkPeer, NetworkRuntime,
    ReconnectPlan, ReconnectTarget,
};
use crate::text;
use crate::transport::connecting::RECONNECT_DELAYS;
use vstd::prelude::*;

verus! {

/// The milliseconds for which farewells are given time to go out.
pub const FAREWELL_MILLIS: u64 = 500;

/// What is to be started.
#[derive(Clone, Copy, Debug, PartialEq, Eq, Structural)]
pub struct StartPlan {
    /// The services of the local network, which the user has turned on.
    pub network: bool,
}

/// A farewell to a peer when the service stops.
#[derive(Clone, Copy, Debug, PartialEq, Eq, Structural)]
pub enum Farewell {
    Cancel { peer: Uuid, transfer: Uuid },
    Disconnect { peer: Uuid },
}

/// What is left to do when the service has stopped.
#[derive(Debug)]
pub struct StopEnd {
    pub closings: Closings,
    /// The files that are to be removed.
    pub discard: Vec<String>,
}

/// What is tried in a round of keeping the service up.
#[derive(Clone, Copy, Debug, PartialEq, Eq, Structural)]
pub struct RetryPlan {
    pub bluetooth: bool,
    pub network: NetworkRetry,
}

/// What is tried with the services of the local network.
#[derive(Clone, Copy, Debug, PartialEq, Eq, Structural)]
pub enum NetworkRetry {
    Nothing,
    Start,
    Discovery,
}

/// The cancellations that are told to a peer, in the order of the keys.
pub open spec fn cancels_for(peer: Uuid, keys: Seq<PeerItem>) -> Seq<Farewell>
    decreases keys.len(),
{
    if keys.len() == 0 {
        Seq::empty()
    } else {
        let front = cancels_for(peer, keys.drop_last());
        if keys.last().peer == peer {
            front.push(Farewell::Cancel { peer, transfer: keys.last().item })
        } else {
            front
        }
    }
}

impl AppState {
    /// What all these peers are told, in turn: which transfers end, where they can be told, and
    /// that the connection ends.
    pub open spec fn farewells(&self, peers: Seq<Uuid>, keys: Seq<PeerItem>) -> Seq<Farewell>
        decreases peers.len(),
    {
        if peers.len() == 0 {
            Seq::empty()
        } else {
            let peer = peers.last();
            let cancels = if self.is_capable(peer, CAPABILITY_TRANSFER_CANCEL@) {
                cancels_for(peer, keys)
            } else {
                Seq::empty()
            };
            (self.farewells(peers.drop_last(), keys) + cancels).push(Farewell::Disconnect { peer })
        }
    }

    /// The services of the local network are to be started.
    pub open spec fn starts_network(&self) -> bool {
        self.lan_enabled && self.network_runtime is None
    }

    /// Begins to start the service, unless it runs or starts already.
    pub fn begin_start(&mut self) -> (r: Option<StartPlan>)
        ensures
            match r {
                None => AppState::accepts(old(self).connection_service_state) && *final(self)
                    == *old(self),
                Some(plan) => {
                    &&& !AppState::accepts(old(self).connection_service_state)
                    &&& *final(self) == (AppState {
                        connection_service_state: ConnectionServiceState::Starting,
                        listening: true,
                        ..*old(self)
                    })
                    &&& plan.network == old(self).starts_network()
                },
            },
    {
        if matches!(
            self.connection_service_state,
            ConnectionServiceState::Running | ConnectionServiceState::Starting
        ) {
            return None;
        }
        self.set_connection_service_state(ConnectionServiceState::Starting);
        Some(StartPlan { network: self.lan_enabled && self.network_runtime.is_none() })
    }

    /// Notes that the services of the local network could not be started.
    pub fn network_start_failed(&mut self, error: &AppError) -> (r: Notice)
        ensures
            final(self).tcp_error is Some,
            final(self).tcp_error->0@ == error.message(),
            *final(self) == (AppState {
                tcp_error: final(self).tcp_error,
                discovery_error: final(self).tcp_error,
                tcp_port: None,
                ..*old(self)
            }),
            r.level == NoticeLevel::Info,
            r.message@ == "局域网服务未开启，蓝牙仍可使用："@ + error.message(),
    {
        self.set_network_start_error(error.to_string());
        Notice {
            level: NoticeLevel::Info,
            message: text::joined("局域网服务未开启，蓝牙仍可使用：", &error.to_string()),
        }
    }

    /// Notes whether the Bluetooth service could be started.
    pub fn bluetooth_started(&mut self, result: &Result<(), AppError>) -> (r: Option<Notice>)
        ensures
            *final(self) == (AppState {
                bluetooth_error: final(self).bluetooth_error,
                ..*old(self)
            }),
            match result {
                Ok(()) => final(self).bluetooth_error is None && r is None,
                Err(error) => {
                    &&& final(self).bluetooth_error is Some
                    &&& final(self).bluetooth_error->0@ == error.message()
                    &&& r is Some
                    &&& r->0.level == NoticeLevel::Info
                    &&& r->0.message@ == "蓝牙接收服务未开启，纯局域网仍可使用："@
                        + error.message()
                },
            },
    {
        match result {
            Ok(()) => {
                self.set_bluetooth_error(None);
                None
            },
            Err(error) => {
                self.set_bluetooth_error(Some(error.to_string()));
                Some(
                    Notice {
                        level: NoticeLevel::Info,
                        message: text::joined(
                            "蓝牙接收服务未开启，纯局域网仍可使用：",
                            &error.to_string(),
                        ),
                    },
                )
            },
        }
    }

    /// Ends the start of the service: it runs, and is kept up under a fresh token.
    pub fn finish_start(&mut self) -> (r: (Uuid, Option<Notice>))
        ensures
            *final(self) == (AppState {
                connection_service_state: ConnectionServiceState::Running,
                listening: true,
                service_retry_token: Some(r.0),
                ..*old(self)
            }),
            r.0.is_random(),
            r.1 is Some <==> old(self).network_runtime is None && old(self).listener is None,
            r.1 matches Some(notice) ==> notice.level == NoticeLevel::Error && notice.message@
                == "蓝牙和局域网接收服务均不可用，NearWeave 将继续后台重试"@,
    {
        self.set_connection_service_state(ConnectionServiceState::Running);
        let token = self.begin_service_retry();
        let notice = if self.network_runtime.is_none() && self.listener.is_none() {
            Some(
                Notice {
                    level: NoticeLevel::Error,
                    message: String::from_str(
                        "蓝牙和局域网接收服务均不可用，NearWeave 将继续后台重试",
                    ),
                },
            )
        } else {
            None
        };
        (token, notice)
    }

    fn list_farewells(&self, peers: &Vec<Uuid>, keys: &Vec<PeerItem>) -> (r: Vec<Farewell>)
        requires
            self.wf(),
        ensures
            r@ == self.farewells(peers@, keys@),
    {
        let mut out: Vec<Farewell> = Vec::new();
        let mut i: usize = 0;
        while i < peers.len()
            invariant
                self.wf(),
                i <= peers@.len(),
                out@ == self.farewells(peers@.take(i as int), keys@),
            decreases peers@.len() - i,
        {
            let peer = peers[i];
            proof {
                assert(peers@.take(i + 1).drop_last() =~= peers@.take(i as int));
                assert(peers@.take(i + 1).last() == peer);
            }
            let ghost before = out@;
            if self.supports_capability(peer, CAPABILITY_TRANSFER_CANCEL) {
                let mut k: usize = 0;
                proof {
                    assert(keys@.take(0) =~= Seq::<PeerItem>::empty());
                    assert(out@ =~= before + cancels_for(peer, keys@.take(0)));
                }
                while k < keys.len()
                    invariant
                        k <= keys@.len(),
                        out@ == before + cancels_for(peer, keys@.take(k as int)),
                    decreases keys@.len() - k,
                {
                    proof {
                        assert(keys@.take(k + 1).drop_last() =~= keys@.take(k as int));
                        assert(keys@.take(k + 1).last() == keys@[k as int]);
                    }
                    if keys[k].peer == peer {
                        out.push(Farewell::Cancel { peer, transfer: keys[k].item });
                        proof {
                            assert(out@ =~= before + cancels_for(peer, keys@.take(k + 1)));
                        }
                    }
                    k = k + 1;
                }
                proof {
                    assert(keys@.take(k as int) =~= keys@);
                }
            } else {
                proof {
                    assert(out@ =~= before + Seq::<Farewell>::empty());
                }
            }
            out.push(Farewell::Disconnect { peer });
            i = i + 1;
        }
        proof {
            assert(peers@.take(i as int) =~= peers@);
        }
        out
    }

    /// What beginning to stop the service changes, and what the connected peers are told.
    pub open spec fn begins_stop(pre: AppState, post: AppState, farewells: Seq<Farewell>) -> bool {
        &&& post == (AppState {
            connection_service_state: ConnectionServiceState::Stopping,
            listening: false,
            service_retry_token: None,
            transfers: post.transfers,
            transfer_epoch: post.transfer_epoch,
            reconnects: post.reconnects,
            pending_pairings: post.pending_pairings,
            directory_requests: post.directory_requests,
            transfer_acks: post.transfer_acks,
            ..pre
        })
        &&& transfers::all_set_to(
            pre.transfers@,
            post.transfers@,
            TransferState::Cancelling,
            "正在停止连接并取消任务"@,
        )
        &&& post.transfer_epoch == if pre.transfer_epoch == u64::MAX {
            0
        } else {
            pre.transfer_epoch + 1
        }
        &&& post.reconnects@ == Map::<Uuid, ReconnectPlan>::empty()
        &&& post.pending_pairings@ == Map::<Uuid, PairingRequestView>::empty()
        &&& post.directory_requests@ == Map::<PeerItem, ()>::empty()
        &&& post.transfer_acks@ == Map::<PeerItem, ()>::empty()
        &&& farewells == pre.farewells(
            routing::peers_in(pre.connections.order(), pre.connections@),
            AppState::active_keys(pre.transfers@),
        )
    }

    /// Begins to stop the service, unless it is stopped or stops already, and gives what the
    /// connected peers are told.
    pub fn begin_stop(&mut self) -> (r: Option<Vec<Farewell>>)
        requires
            old(self).wf(),
        ensures
            final(self).wf(),
            match r {
                None => !AppState::accepts(old(self).connection_service_state) && *final(self)
                    == *old(self),
                Some(farewells) => AppState::accepts(old(self).connection_service_state)
                    && AppState::begins_stop(*old(self), *final(self), farewells@),
            },
    {
        if matches!(
            self.connection_service_state,
            ConnectionServiceState::Stopped | ConnectionServiceState::Stopping
        ) {
            return None;
        }
        let keys = self.active_transfer_keys();
        let peers = self.connected_peer_ids();
        let farewells = self.list_farewells(&peers, &keys);
        self.set_connection_service_state(ConnectionServiceState::Stopping);
        self.cancel_service_retry();
        self.cancel_all_transfers();
        self.cancel_reconnect();
        self.cancel_all_pairings();
        self.cancel_all_directory_requests();
        self.cancel_all_transfer_acks();
        Some(farewells)
    }

    /// What ending all connections and transfers changes when the service stops, and what is left
    /// to do: files that were being received are given up as canceled, and then all other
    /// unfinished transfers.
    pub open spec fn ends_connections(
        pre: AppState,
        post: AppState,
        now: Instant,
        end: StopEnd,
    ) -> bool {
        let keys = canceling::keys_of(pre.incoming.order(), None);
        &&& post == (AppState {
            reconnects: post.reconnects,
            transfer_acks: post.transfer_acks,
            connections: post.connections,
            network_peers: post.network_peers,
            network_connecting: post.network_connecting,
            network_connections: post.network_connections,
            remote_shares: post.remote_shares,
            remote_share_revisions: post.remote_share_revisions,
            remote_directory_cache: post.remote_directory_cache,
            incoming: post.incoming,
            reserved_destinations: post.reserved_destinations,
            canceled_incoming: post.canceled_incoming,
            transfers: post.transfers,
            transfer_cancellations: post.transfer_cancellations,
            pending_cancel_acks: post.pending_cancel_acks,
            ..pre
        })
        &&& post.reconnects@ == Map::<Uuid, ReconnectPlan>::empty()
        &&& post.transfer_acks@ == Map::<PeerItem, ()>::empty()
        &&& post.connections@ == Map::<Uuid, ConnectionMeta>::empty()
        &&& post.network_peers@ == Map::<Uuid, NetworkPeer>::empty()
        &&& post.network_connecting@ == Map::<Uuid, ()>::empty()
        &&& post.network_connections@ == Map::<Uuid, NetworkConnectionMeta>::empty()
        &&& post.remote_shares@ == Map::<Uuid, Vec<SharedRoot>>::empty()
        &&& post.remote_share_revisions@ == Map::<Uuid, Uuid>::empty()
        &&& post.remote_directory_cache@ == Map::<Uuid, Vec<DirectoryPageView>>::empty()
        &&& post.transfer_cancellations@ == Map::<PeerItem, ()>::empty()
        &&& post.pending_cancel_acks@ == Map::<PeerItem, ()>::empty()
        &&& post.incoming@ == Map::<PeerItem, IncomingTransfer>::empty()
        &&& post.reserved() == pre.reserved().difference(pre.final_names(keys))
        &&& post.canceled_incoming@ == canceling::all_canceled(pre.canceled_incoming@, keys, now)
        &&& exists|reason: String|
            reason@ == "连接服务已停止，未完成的临时文件已删除"@ && transfers::all_set_to(
                #[trigger] canceling::transfers_closed(
                    pre.transfers@,
                    keys,
                    TransferState::Canceled,
                    reason,
                    now,
                ),
                post.transfers@,
                TransferState::Canceled,
                "连接服务已停止，任务已取消"@,
            )
        &&& end.closings.primary@ == pre.connections.order()
        &&& end.closings.network@ == network::link_generations(pre.network_connections)
        &&& end.discard@ == pre.temporary_paths(keys)
    }

    /// Ends all connections and transfers when the service stops.
    pub fn end_connections(&mut self, now: Instant) -> (r: StopEnd)
        requires
            old(self).wf(),
        ensures
            final(self).wf(),
            AppState::ends_connections(*old(self), *final(self), now, r),
    {
        let closings = self.disconnect();
        let reason = String::from_str("连接服务已停止，未完成的临时文件已删除");
        let ghost middle = *self;
        let discard = self.cancel_all_incoming(&reason, now);
        proof {
            let keys = canceling::keys_of(middle.incoming.order(), None);
            middle.incoming.lemma_order();
            lemma_all_keys(middle.incoming.order());
            assert(self.incoming@ =~= Map::<PeerItem, IncomingTransfer>::empty()) by {
                assert forall|k: PeerItem| !self.incoming@.dom().contains(k) by {
                    if middle.incoming@.dom().contains(k) {
                        assert(keys.to_set().contains(k));
                    }
                }
            }
        }
        self.mark_all_transfers_canceled("连接服务已停止，任务已取消");
        proof {
            assert(old(self).final_names(canceling::keys_of(old(self).incoming.order(), None))
                =~= middle.final_names(canceling::keys_of(middle.incoming.order(), None)));
        }
        StopEnd { closings, discard }
    }

    /// What ending the stop of the service changes.
    pub open spec fn finishes_stop(
        pre: AppState,
        post: AppState,
        listener_error: Option<String>,
        runtime: Option<NetworkRuntime>,
    ) -> bool {
        &&& post == (AppState {
            listener: None,
            bluetooth_error: listener_error,
            tcp_port: None,
            local_addresses: post.local_addresses,
            network_runtime: None,
            connection_service_state: ConnectionServiceState::Stopped,
            listening: false,
            ..pre
        })
        &&& post.local_addresses@.len() == 0
        &&& runtime == pre.network_runtime
    }

    /// Ends the stop of the service, after the Bluetooth service has been asked to end. Gives the
    /// services of the local network that are to be ended.
    pub fn finish_stop(&mut self, listener_error: Option<String>) -> (r: Option<NetworkRuntime>)
        ensures
            AppState::finishes_stop(*old(self), *final(self), listener_error, r),
    {
        self.set_listener(None);
        self.set_bluetooth_error(listener_error);
        let runtime = self.take_network_runtime();
        self.set_connection_service_state(ConnectionServiceState::Stopped);
        runtime
    }

    /// What is to be tried in a round of keeping the service up, while the round goes on.
    pub fn retry_plan(&self, token: Uuid) -> (r: Option<RetryPlan>)
        ensures
            match r {
                None => !(self.service_retry_token == Some(token) && self.listening),
                Some(plan) => {
                    &&& self.service_retry_token == Some(token)
                    &&& self.listening
                    &&& plan.bluetooth == (self.listener is None)
                    &&& plan.network == if self.starts_network() {
                        NetworkRetry::Start
                    } else if self.network_runtime is Some && self.discovery_error is Some {
                        NetworkRetry::Discovery
                    } else {
                        NetworkRetry::Nothing
                    }
                },
            },
    {
        if !self.service_retry_active(token) {
            return None;
        }
        let network = if self.network_runtime.is_none() {
            if self.lan_enabled {
                NetworkRetry::Start
            } else {
                NetworkRetry::Nothing
            }
        } else if self.discovery_error.is_some() {
            NetworkRetry::Discovery
        } else {
            NetworkRetry::Nothing
        };
        Some(RetryPlan { bluetooth: self.listener.is_none(), network })
    }

    /// Something is wrong with one of the services.
    pub open spec fn has_component_error(&self) -> bool {
        self.bluetooth_error is Some || self.discovery_error is Some || self.tcp_error is Some
    }

    /// The number of the next round: the waits grow while something is wrong, and are the longest
    /// while nothing is.
    pub fn next_retry(&self, attempt: usize) -> (r: usize)
        ensures
            r == if self.has_component_error() {
                if attempt == usize::MAX {
                    attempt as int
                } else {
                    attempt + 1
                }
            } else {
                RECONNECT_DELAYS - 1
            },
    {
        if self.bluetooth_error.is_some() || self.discovery_error.is_some()
            || self.tcp_error.is_some() {
            attempt.saturating_add(1)
        } else {
            RECONNECT_DELAYS - 1
        }
    }
}

proof fn lemma_all_keys(order: Seq<PeerItem>)
    ensures
        canceling::keys_of(order, None) == order,
    decreases order.len(),
{
    reveal(Seq::filter);
    if order.len() > 0 {
        lemma_all_keys(order.drop_last());
        assert(order.drop_last().push(order.last()) =~= order);
    }
}

/// The frame that a farewell is told in.
pub fn farewell_frame(farewell: Farewell) -> (r: Frame)
    ensures
        r.payload@.len() == 0,
        match farewell {
            Farewell::Cancel { peer, transfer } => {
                &&& r.message matches Message::TransferCancel { transfer_id, reason }
                &&& transfer_id == transfer
                &&& reason@ == "本机正在停止 NearWeave 连接"@
            },
            Farewell::Disconnect { peer } => {
                &&& r.message matches Message::Disconnect { reason }
                &&& reason@ == "对方已停止 NearWeave 连接"@
            },
        },
{
    match farewell {
        Farewell::Cancel { peer: _, transfer } => Frame::new(
            Message::TransferCancel {
                transfer_id: transfer,
                reason: String::from_str("本机正在停止 NearWeave 连接"),
            },
        ),
        Farewell::Disconnect { peer: _ } => Frame::new(
            Message::Disconnect { reason: String::from_str("对方已停止 NearWeave 连接") },
        ),
    }
}

proof fn lemma_farewells(state: AppState, peers: Seq<Uuid>, keys: Seq<PeerItem>, peer: Uuid)
    requires
        peers.contains(peer),
    ensures
        state.farewells(peers, keys).contains(Farewell::Disconnect { peer }),
    decreases peers.len(),
{
    let all = state.farewells(peers, keys);
    let farewell = Farewell::Disconnect { peer };
    if peers.last() == peer {
        assert(all.last() == farewell);
    } else {
        let k = peers.index_of(peer);
        assert(peers.drop_last()[k] == peer);
        lemma_farewells(state, peers.drop_last(), keys, peer);
        let front = state.farewells(peers.drop_last(), keys);
        let j = front.index_of(farewell);
        assert(all[j] == farewell);
    }
}

/// A service that has been stopped, with nothing else done meanwhile, leaves nothing open: no
/// connection, no plan to connect again, no pairing request, no file that is being received, no
/// service that listens, and no unfinished transfer. Each connected device is told. Transfers that
/// were finished stay as they were, unless a file is being received under their identifier, and so
/// do the devices that are trusted and the settings. Stopping the service again does nothing.
pub proof fn law_stopped_service_leaves_nothing_open(
    start: AppState,
    begun: AppState,
    ended: AppState,
    stopped: AppState,
    farewells: Seq<Farewell>,
    end: StopEnd,
    listener_error: Option<String>,
    runtime: Option<NetworkRuntime>,
    now: Instant,
)
    requires
        start.wf(),
        AppState::begins_stop(start, begun, farewells),
        AppState::ends_connections(begun, ended, now, end),
        AppState::finishes_stop(ended, stopped, listener_error, runtime),
    ensures
        stopped.connection_service_state is Stopped,
        !AppState::accepts(stopped.connection_service_state),
        !stopped.listening,
        stopped.service_retry_token is None,
        stopped.connections@ == Map::<Uuid, ConnectionMeta>::empty(),
        stopped.network_connections@ == Map::<Uuid, NetworkConnectionMeta>::empty(),
        stopped.reconnects@ == Map::<Uuid, ReconnectPlan>::empty(),
        stopped.pending_pairings@ == Map::<Uuid, PairingRequestView>::empty(),
        stopped.directory_requests@ == Map::<PeerItem, ()>::empty(),
        stopped.transfer_acks@ == Map::<PeerItem, ()>::empty(),
        stopped.incoming@ == Map::<PeerItem, IncomingTransfer>::empty(),
        stopped.listener is None,
        stopped.network_runtime is None,
        runtime == start.network_runtime,
        forall|peer: Uuid|
            start.is_connected(peer) ==> #[trigger] farewells.contains(
                Farewell::Disconnect { peer },
            ),
        stopped.transfers@.len() == start.transfers@.len(),
        forall|i: int|
            0 <= i < stopped.transfers@.len() ==> (#[trigger] stopped.transfers@[i]).terminal(),
        forall|i: int|
            0 <= i < start.transfers@.len() && (#[trigger] start.transfers@[i]).terminal() && (
            forall|k: PeerItem| #[trigger]
                start.incoming@.dom().contains(k) ==> k.item != start.transfers@[i].id)
                ==> stopped.transfers@[i] == start.transfers@[i],
        stopped.trusted_devices == start.trusted_devices,
        stopped.chosen() == start.chosen(),
{
    let keys = canceling::keys_of(begun.incoming.order(), None);
    let reason = choose|reason: String|
        reason@ == "连接服务已停止，未完成的临时文件已删除"@ && transfers::all_set_to(
            #[trigger] canceling::transfers_closed(
                begun.transfers@,
                keys,
                TransferState::Canceled,
                reason,
                now,
            ),
            ended.transfers@,
            TransferState::Canceled,
            "连接服务已停止，任务已取消"@,
        );
    let closed = canceling::transfers_closed(
        begun.transfers@,
        keys,
        TransferState::Canceled,
        reason,
        now,
    );
    canceling::lemma_closed_length(begun.transfers@, keys, TransferState::Canceled, reason, now);
    assert forall|peer: Uuid| start.is_connected(peer) implies #[trigger] farewells.contains(
        Farewell::Disconnect { peer },
    ) by {
        start.lemma_peers_in();
        let peers = routing::peers_in(start.connections.order(), start.connections@);
        assert(peers.contains(peer));
        lemma_farewells(start, peers, AppState::active_keys(start.transfers@), peer);
    }
    assert forall|i: int| 0 <= i < stopped.transfers@.len() implies (
    #[trigger] stopped.transfers@[i]).terminal() by {
        if closed[i].terminal() {
            assert(ended.transfers@[i] == closed[i]);
        }
    }
    assert forall|i: int|
        0 <= i < start.transfers@.len() && (#[trigger] start.transfers@[i]).terminal() && (forall|
            k: PeerItem,
        | #[trigger]
            start.incoming@.dom().contains(k) ==> k.item != start.transfers@[i].id) implies
    stopped.transfers@[i] == start.transfers@[i] by {
        assert(begun.transfers@[i] == start.transfers@[i]);
        start.incoming.lemma_order();
        lemma_all_keys(start.incoming.order());
        assert forall|k: int| 0 <= k < keys.len() implies (#[trigger] keys[k]).item
            != begun.transfers@[i].id by {
            assert(start.incoming@.dom().contains(start.incoming.order()[k]));
        }
        canceling::lemma_closed_leaves(
            begun.transfers@,
            keys,
            TransferState::Canceled,
            reason,
            now,
            i,
        );
        assert(ended.transfers@[i] == closed[i]);
    }
}

/// Until the user has allowed the use of the local network, nothing is announced there, no service
/// is started there, and no device is connected to over it.
pub proof fn law_lan_waits_for_consent(state: AppState, target: ReconnectTarget)
    requires
        !state.lan_enabled,
    ensures
        !state.announces(),
        !state.starts_network(),
        !state.tries_lan(target),
{
}

/// The service starts if it does not run yet, and takes connections from then on; the local network
/// is started with it if the user has chosen it and it is not there yet.
pub proof fn law_service_starts_once(
    app: &mut AppState,
    next: &mut AppState,
    r: Option<StartPlan>,
    again: Option<StartPlan>,
)
    requires
        call_ensures(AppState::begin_start, (app,), r),
        *next == *final(app),
        call_ensures(AppState::begin_start, (next,), again),
    ensures
        r is None <==> old(app).connection_service_state is Starting
            || old(app).connection_service_state is Running,
        again is None,
        r matches Some(plan) ==> (plan.network <==> old(app).lan_enabled
            && old(app).network_runtime is None)
            && final(app).connection_service_state is Starting && final(app).listening,
        r is None ==> *final(app) == *old(app),
{
}

/// Once started, the service runs; the user is told if it cannot receive at all.
pub proof fn law_started_service_runs(app: &mut AppState, r: (Uuid, Option<Notice>), active: bool)
    requires
        call_ensures(AppState::finish_start, (app,), r),
        call_ensures(AppState::service_retry_active, (final(app), r.0), active),
    ensures
        final(app).connection_service_state is Running,
        final(app).listening,
        active,
        r.1 is Some <==> old(app).network_runtime is None && old(app).listener is None,
        r.1 matches Some(notice) ==> notice.level is Error,
{
}

/// What has failed at the start is noted and told, and what has not is not.
pub proof fn law_start_failures_are_noted(
    app: &mut AppState,
    error: AppError,
    result: Result<(), AppError>,
    other: &mut AppState,
    network: Notice,
    bluetooth: Option<Notice>,
)
    requires
        call_ensures(AppState::network_start_failed, (app, &error), network),
        call_ensures(AppState::bluetooth_started, (other, &result), bluetooth),
    ensures
        final(app).tcp_error matches Some(text) && text@ == error.message(),
        final(app).discovery_error matches Some(text) && text@ == error.message(),
        final(app).tcp_port is None,
        bluetooth is Some <==> result is Err,
        final(other).bluetooth_error is Some <==> result is Err,
        result matches Err(e) ==> final(other).bluetooth_error->0@ == e.message(),
{
}

proof fn lemma_cancels_for(peer: Uuid, keys: Seq<PeerItem>, transfer: Uuid)
    ensures
        cancels_for(peer, keys).contains(Farewell::Cancel { peer, transfer }) <==> keys.contains(
            PeerItem { peer, item: transfer },
        ),
    decreases keys.len(),
{
    if keys.len() > 0 {
        let front = keys.drop_last();
        lemma_cancels_for(peer, front, transfer);
        let x = Farewell::Cancel { peer, transfer };
        let key = PeerItem { peer, item: transfer };
        let kept = cancels_for(peer, front);
        let all = cancels_for(peer, keys);
        assert(keys[keys.len() - 1] == keys.last());
        if front.contains(key) {
            assert(keys[front.index_of(key)] == key);
        }
        if keys.contains(key) && !front.contains(key) {
            let i = keys.index_of(key);
            assert(i == keys.len() - 1 || front[i] == key);
        }
        if kept.contains(x) {
            assert(all[kept.index_of(x)] == x);
        } else if all.contains(x) {
            let i = all.index_of(x);
            assert(i == kept.len() || kept[i] == x);
        }
        if keys.last() == key {
            assert(all[kept.len() as int] == x);
        }
    }
}

proof fn lemma_cancel_farewells(
    state: AppState,
    peers: Seq<Uuid>,
    keys: Seq<PeerItem>,
    peer: Uuid,
    transfer: Uuid,
)
    requires
        peers.contains(peer),
        state.is_capable(peer, CAPABILITY_TRANSFER_CANCEL@),
        keys.contains(PeerItem { peer, item: transfer }),
    ensures
        state.farewells(peers, keys).contains(Farewell::Cancel { peer, transfer }),
    decreases peers.len(),
{
    let x = Farewell::Cancel { peer, transfer };
    let front = state.farewells(peers.drop_last(), keys);
    let all = state.farewells(peers, keys);
    if peers.last() == peer {
        lemma_cancels_for(peer, keys, transfer);
        let cancels = cancels_for(peer, keys);
        let i = cancels.index_of(x);
        assert(all[front.len() + i] == x);
    } else {
        let i = peers.index_of(peer);
        assert(peers.drop_last()[i] == peer);
        lemma_cancel_farewells(state, peers.drop_last(), keys, peer, transfer);
        let k = front.index_of(x);
        assert(all[k] == x);
    }
}

/// When the service stops, each connected device is taken leave of, and is asked to cancel what runs
/// between it and this device, if it can; nothing is taken or made any more.
pub proof fn law_stop_takes_leave(
    app: &mut AppState,
    r: Option<Vec<Farewell>>,
    g: Uuid,
    peer: Uuid,
    k: int,
)
    requires
        old(app).wf(),
        call_ensures(AppState::begin_stop, (app,), r),
        old(app).connections@.dom().contains(g),
        old(app).connections@[g].peer_device_id == Some(peer),
        0 <= k < old(app).transfers@.len(),
    ensures
        r is Some <==> old(app).connection_service_state is Starting
            || old(app).connection_service_state is Running,
        r matches Some(farewells) ==> {
            let t = old(app).transfers@[k];
            &&& farewells@.contains(Farewell::Disconnect { peer })
            &&& t.peer_device_id == peer && !(t.state is Completed || t.state is Failed
                || t.state is Canceled) && old(app).is_capable(peer, CAPABILITY_TRANSFER_CANCEL@)
                ==> farewells@.contains(Farewell::Cancel { peer, transfer: t.id })
            &&& !final(app).listening
            &&& final(app).connection_service_state is Stopping
            &&& final(app).service_retry_token is None
            &&& final(app).connections == old(app).connections
        },
        r is None ==> *final(app) == *old(app),
{
    if r is Some {
        let peers = routing::peers_in(old(app).connections.order(), old(app).connections@);
        let keys = AppState::active_keys(old(app).transfers@);
        old(app).lemma_peers_in();
        assert(old(app).connects(g, peer));
        assert(old(app).is_connected(peer));
        lemma_farewells(*old(app), peers, keys, peer);
        let t = old(app).transfers@[k];
        if t.peer_device_id == peer && !(t.state is Completed || t.state is Failed
            || t.state is Canceled) && old(app).is_capable(peer, CAPABILITY_TRANSFER_CANCEL@) {
            transfers::lemma_active_keys(
                old(app).transfers@,
                PeerItem { peer, item: t.id },
            );
            lemma_cancel_farewells(*old(app), peers, keys, peer, t.id);
        }
    }
}

/// The end of the connections leaves none open, and names each that is to be closed and each file
/// that is to go.
pub proof fn law_stop_ends_connections(
    app: &mut AppState,
    now: Instant,
    g: Uuid,
    key: PeerItem,
    r: StopEnd,
)
    requires
        old(app).wf(),
        call_ensures(AppState::end_connections, (app, now), r),
    ensures
        r.closings.primary@.contains(g) <==> old(app).connections@.dom().contains(g),
        !final(app).connections@.dom().contains(g),
        !final(app).incoming@.dom().contains(key),
        old(app).incoming@.dom().contains(key) ==> r.discard@.contains(
            old(app).incoming@[key].temporary_path,
        ),
        !final(app).transfer_cancellations@.dom().contains(key),
        !final(app).reconnects@.dom().contains(g),
        final(app).trusted_devices == old(app).trusted_devices,
        final(app).local_shares == old(app).local_shares,
{
    old(app).connections.lemma_order();
    old(app).incoming.lemma_order();
    lemma_all_keys(old(app).incoming.order());
    if old(app).incoming@.dom().contains(key) {
        let order = old(app).incoming.order();
        assert(order.contains(key));
        let i = order.index_of(key);
        assert(order[i] == key);
        assert(r.discard@[i] == old(app).incoming@[key].temporary_path);
    }
}

/// A stopped service can be started again.
pub proof fn law_stopped_service_can_start(
    app: &mut AppState,
    next: &mut AppState,
    listener_error: Option<String>,
    runtime: Option<NetworkRuntime>,
    r: Option<StartPlan>,
)
    requires
        call_ensures(AppState::finish_stop, (app, listener_error), runtime),
        *next == *final(app),
        call_ensures(AppState::begin_start, (next,), r),
    ensures
        runtime == old(app).network_runtime,
        final(app).connection_service_state is Stopped,
        !final(app).listening,
        final(app).listener is None,
        final(app).tcp_port is None,
        final(app).bluetooth_error == listener_error,
        r matches Some(plan) && plan.network == old(app).lan_enabled,
{
}

/// The attempt to start what is missing again goes on while it is the latest and the service runs:
/// for Bluetooth if nothing listens there, and for the local network if the user has chosen it.
pub proof fn law_missing_services_are_retried(app: AppState, token: Uuid, r: Option<RetryPlan>)
    requires
        call_ensures(AppState::retry_plan, (&app, token), r),
    ensures
        r is Some <==> app.service_retry_token == Some(token) && app.listening,
        r matches Some(plan) ==> {
            &&& plan.bluetooth <==> app.listener is None
            &&& plan.network is Start <==> app.lan_enabled && app.network_runtime is None
            &&& plan.network is Discovery <==> app.network_runtime is Some
                && app.discovery_error is Some
        },
{
}

/// While something is wrong, the waits between attempts grow; while nothing is, they are as long as
/// they get.
pub proof fn law_retries_slow_down(
    app: AppState,
    attempt: usize,
    next: usize,
    delay: crate::clock::Duration,
)
    requires
        call_ensures(AppState::next_retry, (&app, attempt), next),
        call_ensures(crate::transport::connecting::reconnect_delay, (next,), delay),
        attempt < usize::MAX,
    ensures
        app.bluetooth_error is Some || app.discovery_error is Some || app.tcp_error is Some ==> next
            == attempt + 1,
        app.bluetooth_error is None && app.discovery_error is None && app.tcp_error is None
            ==> delay.nanos == 30_000_000_000,
{
}

/// A farewell is what it says: a request to cancel the transfer, or leave.
pub proof fn law_farewells_are_sent(peer: Uuid, transfer: Uuid, cancel: Frame, leave: Frame)
    requires
        call_ensures(farewell_frame, (Farewell::Cancel { peer, transfer },), cancel),
        call_ensures(farewell_frame, (Farewell::Disconnect { peer },), leave),
    ensures
        cancel.message matches Message::TransferCancel { transfer_id, reason } && transfer_id
            == transfer,
        leave.message is Disconnect,
{
}

} // verus!
