//! How connections are made, lost and made again.
use crate::clock::{Duration, Instant, NANOS_PER_SECOND};
use crate::error::{AppError, AppResult};
use crate::files::canceling;
use crate::ids::Uuid;
use crate::lists;
use crate::models::{Endpoint, NearbyDevice, Notice, NoticeLevel, TransferState};
use crate::state::lifecycle::ClearedConnection;
use crate::state::{AppState, ReconnectPlan, ReconnectTarget};
use crate::text;
use vstd::prelude::*;

verus! {

/// The number of waits before the last one is repeated.
pub const RECONNECT_DELAYS: usize = 5;

/// The seconds to wait before an attempt to connect again.
pub open spec fn delay_seconds(attempt: nat) -> u64 {
    if attempt == 0 {
        1
    } else if attempt == 1 {
        2
    } else if attempt == 2 {
        5
    } else if attempt == 3 {
        10
    } else {
        30
    }
}

/// The time to wait before an attempt to connect again.
pub fn reconnect_delay(attempt: usize) -> (r: Duration)
    ensures
        r.nanos == delay_seconds(attempt as nat) * NANOS_PER_SECOND,
{
    let seconds: u64 = if attempt == 0 {
        1
    } else if attempt == 1 {
        2
    } else if attempt == 2 {
        5
    } else if attempt == 3 {
        10
    } else {
        30
    };
    Duration::from_secs(seconds)
}

/// The waits never get shorter, and none is longer than half a minute.
pub proof fn law_delays_grow_to_a_limit(earlier: nat, later: nat)
    requires
        earlier <= later,
    ensures
        delay_seconds(earlier) <= delay_seconds(later) <= 30,
{
}

/// The link that is to be tried.
#[derive(Debug)]
pub enum ConnectStep {
    Lan(Endpoint),
    Bluetooth(String),
    Failed(AppError),
}

/// What the end of a connection has led to.
#[derive(Debug)]
pub struct FinishedConnection {
    /// The network link beside the connection is to be closed.
    pub network: Option<Uuid>,
    /// The files that are to be removed.
    pub discard: Vec<String>,
    pub notice: Notice,
    /// The plan under which the device is to be connected again.
    pub reconnect: Option<Uuid>,
}

/// A round of the attempt to connect again.
#[derive(Debug)]
pub struct ReconnectRound {
    pub target: ReconnectTarget,
    pub delay: Duration,
    pub notice: Notice,
}

/// Where a device that was seen can be reached.
pub fn target_of(device: NearbyDevice) -> (r: ReconnectTarget)
    ensures
        r == (ReconnectTarget {
            device_id: device.device_id,
            display_name: device.name,
            lan_endpoint: device.lan_endpoint,
            bluetooth_endpoint: device.bluetooth_endpoint,
        }),
{
    ReconnectTarget {
        device_id: device.device_id,
        display_name: device.name,
        lan_endpoint: device.lan_endpoint,
        bluetooth_endpoint: device.bluetooth_endpoint,
    }
}

/// Where a device at an address that the user has typed can be reached.
pub fn target_at(endpoint: Endpoint) -> (r: ReconnectTarget)
    ensures
        r.device_id is None,
        r.display_name == endpoint.host,
        r.lan_endpoint == Some(endpoint),
        r.bluetooth_endpoint is None,
{
    ReconnectTarget {
        device_id: None,
        display_name: endpoint.host.clone(),
        lan_endpoint: Some(endpoint),
        bluetooth_endpoint: None,
    }
}

impl AppState {
    /// The device of the target is connected.
    pub open spec fn is_target_connected(&self, target: ReconnectTarget) -> bool {
        target.device_id is Some && self.is_connected(target.device_id->0)
    }

    /// Begins to connect to a device on the user's wish.
    pub fn begin_connect(&mut self, target: ReconnectTarget) -> (r: AppResult<Uuid>)
        requires
            old(self).wf(),
        ensures
            final(self).wf(),
            r is Ok <==> old(self).listening && !old(self).is_target_connected(target),
            match r {
                Ok(session) => {
                    &&& session.is_random()
                    &&& *final(self) == (AppState {
                        reconnects: final(self).reconnects,
                        ..*old(self)
                    })
                    &&& final(self).reconnects@ == old(self).reconnects@.insert(
                        session,
                        ReconnectPlan { target, task_running: false, reconnecting: false },
                    )
                },
                Err(e) => {
                    &&& *final(self) == *old(self)
                    &&& if !old(self).listening {
                        e.is_invalid_input("NearWeave 连接已停止，请先恢复连接"@)
                    } else {
                        e.is_invalid_input("该设备已经连接"@)
                    }
                },
            },
    {
        if !self.receiver_enabled() {
            return Err(AppError::invalid_input("NearWeave 连接已停止，请先恢复连接"));
        }
        let connected = match target.device_id {
            Some(device_id) => self.connection_generation_for_peer(device_id).is_some(),
            None => false,
        };
        if connected {
            return Err(AppError::invalid_input("该设备已经连接"));
        }
        Ok(self.begin_reconnect_session(target))
    }

    /// The device that the target stands for, where it is in the list.
    pub open spec fn target_device(&self, target: ReconnectTarget) -> Option<NearbyDevice> {
        match target.device_id {
            Some(device_id) => {
                let id = crate::ids::hyphenated(device_id.value);
                match lists::first_where(
                    self.devices@,
                    |d: NearbyDevice| AppState::goes_by(d, id),
                ) {
                    Some(i) => Some(self.devices@[i]),
                    None => None,
                }
            },
            None => None,
        }
    }

    /// The target with what is known of its device now.
    pub open spec fn target_now(&self, target: ReconnectTarget) -> ReconnectTarget {
        match self.target_device(target) {
            Some(device) => ReconnectTarget {
                device_id: target.device_id,
                display_name: device.name,
                lan_endpoint: if device.lan_endpoint is Some {
                    device.lan_endpoint
                } else {
                    target.lan_endpoint
                },
                bluetooth_endpoint: if device.bluetooth_endpoint is Some {
                    device.bluetooth_endpoint
                } else {
                    target.bluetooth_endpoint
                },
            },
            None => target,
        }
    }

    fn find_target_device(&self, target: &ReconnectTarget) -> (r: Option<NearbyDevice>)
        ensures
            r == self.target_device(*target),
    {
        match target.device_id {
            Some(device_id) => {
                let id = device_id.to_string();
                let found = self.find_device(&id);
                proof {
                    let spelled = crate::ids::hyphenated(device_id.value);
                    assert((|d: NearbyDevice| AppState::goes_by(d, id@)) =~= (|d: NearbyDevice|
                        AppState::goes_by(d, spelled)));
                }
                found
            },
            None => None,
        }
    }

    /// Brings the target of a plan that still stands up to date.
    pub fn refresh_target(&self, target: ReconnectTarget, session: Uuid) -> (r: AppResult<
        ReconnectTarget,
    >)
        requires
            self.wf(),
        ensures
            if self.reconnects@.dom().contains(session) {
                r == Ok::<ReconnectTarget, AppError>(self.target_now(target))
            } else {
                r matches Err(e) && e is NotConnected
            },
    {
        if !self.is_reconnect_session_active(session) {
            return Err(AppError::NotConnected);
        }
        match self.find_target_device(&target) {
            Some(device) => Ok(
                ReconnectTarget {
                    device_id: target.device_id,
                    display_name: device.name,
                    lan_endpoint: match device.lan_endpoint {
                        Some(endpoint) => Some(endpoint),
                        None => target.lan_endpoint,
                    },
                    bluetooth_endpoint: match device.bluetooth_endpoint {
                        Some(endpoint) => Some(endpoint),
                        None => target.bluetooth_endpoint,
                    },
                },
            ),
            None => Ok(target),
        }
    }

    /// The address in the local network at which the device of a target is to be reached.
    pub fn resolve_target_endpoint(&self, target: &ReconnectTarget) -> (r: Option<Endpoint>)
        ensures
            r == self.target_now(*target).lan_endpoint,
    {
        let listed = match self.find_target_device(target) {
            Some(device) => device.lan_endpoint,
            None => None,
        };
        match listed {
            Some(endpoint) => Some(endpoint),
            None => match &target.lan_endpoint {
                Some(endpoint) => Some(endpoint.clone()),
                None => None,
            },
        }
    }

    /// The local network is tried for this target.
    pub open spec fn tries_lan(&self, target: ReconnectTarget) -> bool {
        self.lan_enabled && target.lan_endpoint is Some
    }

    /// The link to be tried first: the local network where it may be used and an address is
    /// known, or else Bluetooth.
    pub fn first_connect_step(&self, target: &ReconnectTarget) -> (r: ConnectStep)
        ensures
            if self.tries_lan(*target) {
                r == ConnectStep::Lan(target.lan_endpoint->0)
            } else if target.bluetooth_endpoint is Some {
                r == ConnectStep::Bluetooth(target.bluetooth_endpoint->0)
            } else {
                r matches ConnectStep::Failed(e) && e.is_invalid_input(
                    "设备当前没有可用的局域网或蓝牙连接地址"@,
                )
            },
    {
        if self.lan_enabled {
            if let Some(endpoint) = &target.lan_endpoint {
                return ConnectStep::Lan(endpoint.clone());
            }
        }
        match &target.bluetooth_endpoint {
            Some(endpoint) => ConnectStep::Bluetooth(endpoint.clone()),
            None => ConnectStep::Failed(
                AppError::invalid_input("设备当前没有可用的局域网或蓝牙连接地址"),
            ),
        }
    }

    /// What the end of a connection changes.
    pub open spec fn finishes(
        pre: AppState,
        post: AppState,
        generation: Uuid,
        failure: Option<String>,
        now: Instant,
        done: FinishedConnection,
    ) -> bool {
        exists|middle: AppState, cleared: ClearedConnection| #[trigger]
            AppState::clears(pre, middle, generation, cleared) && AppState::finishes_after(
                middle,
                post,
                cleared,
                failure,
                now,
                done,
            )
    }

    /// What follows once a connection has been taken out.
    pub open spec fn finishes_after(
        middle: AppState,
        post: AppState,
        cleared: ClearedConnection,
        failure: Option<String>,
        now: Instant,
        done: FinishedConnection,
    ) -> bool {
        &&& done.network == cleared.network
        &&& match cleared.closed.peer_device_id {
            Some(device_id) => {
                let keys = canceling::keys_of(middle.incoming.order(), Some(device_id));
                &&& exists|reason: String|
                    reason@ == "连接中断，未完成的临时文件已删除"@ && #[trigger]
                    AppState::cleans_up(middle, post, keys, TransferState::Failed, reason, now)
                &&& done.discard@ == middle.temporary_paths(keys)
            },
            None => post == middle && done.discard@.len() == 0,
        }
        &&& done.notice.level == NoticeLevel::Info
        &&& done.notice.message@ == match failure {
            Some(cause) => "连接已断开："@ + cause@,
            None => "连接已断开"@,
        }
        &&& done.reconnect == match cleared.closed.reconnect_session {
            Some(session) => if post.reconnects@.dom().contains(session) {
                Some(session)
            } else {
                None
            },
            None => None,
        }
    }

    /// Takes a connection out that has come to its end, and says what is left to do.
    pub fn finish_primary_connection(
        &mut self,
        generation: Uuid,
        failure: Option<String>,
        now: Instant,
    ) -> (r: Option<FinishedConnection>)
        requires
            old(self).wf(),
        ensures
            final(self).wf(),
            match r {
                Some(done) => old(self).connections@.dom().contains(generation)
                    && AppState::finishes(
                    *old(self),
                    *final(self),
                    generation,
                    failure,
                    now,
                    done,
                ),
                None => !old(self).connections@.dom().contains(generation) && *final(self) == *old(
                    self,
                ),
            },
    {
        match self.clear_connection(generation) {
            None => None,
            Some(cleared) => {
                let ghost middle = *self;
                let discard = match cleared.closed.peer_device_id {
                    Some(device_id) => {
                        let reason = String::from_str("连接中断，未完成的临时文件已删除");
                        self.cleanup_incoming_for_peer(device_id, &reason, now)
                    },
                    None => Vec::new(),
                };
                let message = match &failure {
                    Some(cause) => text::joined("连接已断开：", cause),
                    None => String::from_str("连接已断开"),
                };
                let reconnect = match cleared.closed.reconnect_session {
                    Some(session) => if self.is_reconnect_session_active(session) {
                        Some(session)
                    } else {
                        None
                    },
                    None => None,
                };
                let done = FinishedConnection {
                    network: cleared.network,
                    discard,
                    notice: Notice { level: NoticeLevel::Info, message },
                    reconnect,
                };
                proof {
                    assert(AppState::clears(*old(self), middle, generation, cleared));
                    assert(AppState::finishes_after(middle, *self, cleared, failure, now, done));
                }
                Some(done)
            },
        }
    }

    /// The next round of the attempt to connect again, while the plan stands.
    pub fn reconnect_round(&self, session: Uuid, attempt: usize) -> (r: Option<ReconnectRound>)
        requires
            self.wf(),
        ensures
            match r {
                Some(round) => {
                    &&& self.reconnects@.dom().contains(session)
                    &&& round.target == self.reconnects@[session].target
                    &&& round.delay.nanos == delay_seconds(attempt as nat) * NANOS_PER_SECOND
                    &&& round.notice.level == NoticeLevel::Info
                    &&& round.notice.message@ == text::decimal_of(
                        delay_seconds(attempt as nat) as nat,
                    ) + " 秒后尝试重新连接 "@ + round.target.display_name@
                },
                None => !self.reconnects@.dom().contains(session),
            },
    {
        match self.reconnect_target(session) {
            None => None,
            Some(target) => {
                let delay = reconnect_delay(attempt);
                let seconds: u64 = delay.as_secs();
                let message = text::joined3(
                    &text::decimal(seconds as u128),
                    " 秒后尝试重新连接 ",
                    &target.display_name,
                );
                Some(
                    ReconnectRound {
                        target,
                        delay,
                        notice: Notice { level: NoticeLevel::Info, message },
                    },
                )
            },
        }
    }

    /// What a failed round leads to, while the plan stands: the number of the next attempt, and
    /// what the user is told.
    pub fn reconnect_failed(&self, session: Uuid, attempt: usize, error: &AppError) -> (r: Option<
        (usize, Notice),
    >)
        requires
            self.wf(),
        ensures
            match r {
                Some((next, notice)) => {
                    &&& self.reconnects@.dom().contains(session)
                    &&& next == if attempt == usize::MAX {
                        attempt as int
                    } else {
                        attempt + 1
                    }
                    &&& notice.level == NoticeLevel::Info
                    &&& notice.message@ == "自动重连失败："@ + error.message()
                },
                None => !self.reconnects@.dom().contains(session),
            },
    {
        if !self.is_reconnect_session_active(session) {
            return None;
        }
        let next: usize = attempt.saturating_add(1);
        let message = text::joined("自动重连失败：", &error.to_string());
        Some((next, Notice { level: NoticeLevel::Info, message }))
    }
}

/// What the user is told when a connection has been made again.
pub fn reconnected_notice(target: &ReconnectTarget) -> (r: Notice)
    ensures
        r.level == NoticeLevel::Success,
        r.message@ == "已恢复与 "@ + target.display_name@ + " 的连接"@,
{
    Notice {
        level: NoticeLevel::Success,
        message: text::joined3("已恢复与 ", &target.display_name, " 的连接"),
    }
}

/// The link to be tried after the local network has failed.
pub fn second_connect_step(target: &ReconnectTarget, lan_error: AppError) -> (r: ConnectStep)
    ensures
        match target.bluetooth_endpoint {
            Some(endpoint) => r == ConnectStep::Bluetooth(endpoint),
            None => r == ConnectStep::Failed(lan_error),
        },
{
    match &target.bluetooth_endpoint {
        Some(endpoint) => ConnectStep::Bluetooth(endpoint.clone()),
        None => ConnectStep::Failed(lan_error),
    }
}

/// The waits before attempts to connect again are of 1, 2, 5, 10 and then always 30 seconds.
pub proof fn law_waits_get_longer(
    attempt: usize,
    later: usize,
    r: Duration,
    s: Duration,
)
    requires
        call_ensures(reconnect_delay, (attempt,), r),
        call_ensures(reconnect_delay, (later,), s),
        attempt <= later,
    ensures
        r.nanos <= s.nanos <= 30_000_000_000,
        r.nanos >= 1_000_000_000,
        attempt < later && attempt < 4 ==> r.nanos < s.nanos,
        attempt >= 4 ==> r.nanos == 30_000_000_000,
        attempt == 0 ==> r.nanos == 1_000_000_000,
        attempt == 1 ==> r.nanos == 2_000_000_000,
        attempt == 2 ==> r.nanos == 5_000_000_000,
        attempt == 3 ==> r.nanos == 10_000_000_000,
{
}

/// A device is connected to by all that is known of it; an address alone is one in the local
/// network.
pub proof fn law_target_is_the_device(
    device: NearbyDevice,
    endpoint: Endpoint,
    r: ReconnectTarget,
    s: ReconnectTarget,
)
    requires
        call_ensures(target_of, (device,), r),
        call_ensures(target_at, (endpoint,), s),
    ensures
        r.device_id == device.device_id,
        r.display_name@ == device.name@,
        r.lan_endpoint == device.lan_endpoint,
        r.bluetooth_endpoint == device.bluetooth_endpoint,
        s.device_id is None,
        s.lan_endpoint matches Some(at) && at.host@ == endpoint.host@ && at.port == endpoint.port,
        s.bluetooth_endpoint is None,
{
}

/// A connection can be begun while the service runs, to a device that is not connected yet, and the
/// plan for it is found from then on.
pub proof fn law_connection_can_be_begun(
    app: &mut AppState,
    target: ReconnectTarget,
    r: AppResult<Uuid>,
)
    requires
        call_ensures(AppState::begin_connect, (app, target), r),
    ensures
        r is Ok <==> old(app).listening && (target.device_id is None || forall|g: Uuid| #[trigger]
            old(app).connections@.dom().contains(g) ==> old(app).connections@[g].peer_device_id
                != target.device_id),
        r matches Ok(session) ==> final(app).reconnects@.dom().contains(session)
            && final(app).reconnects@[session].target == target,
        r is Err ==> *final(app) == *old(app),
{
    if target.device_id is Some {
        let d = target.device_id->0;
        if old(app).is_connected(d) {
            let g = choose|g: Uuid| old(app).connects(g, d);
            assert(old(app).connections@.dom().contains(g));
        } else {
            assert forall|g: Uuid| #[trigger]
                old(app).connections@.dom().contains(g)
                    implies old(app).connections@[g].peer_device_id != target.device_id by {
                assert(!old(app).connects(g, d));
            }
        }
    }
}

/// The local network is tried first where the user has chosen it and the device has an address
/// there; then Bluetooth; and with neither the attempt has failed.
pub proof fn law_local_network_is_tried_first(
    app: AppState,
    target: ReconnectTarget,
    error: AppError,
    first: ConnectStep,
    second: ConnectStep,
)
    requires
        call_ensures(AppState::first_connect_step, (&app, &target), first),
        call_ensures(second_connect_step, (&target, error), second),
    ensures
        first is Lan <==> app.lan_enabled && target.lan_endpoint is Some,
        first matches ConnectStep::Lan(at) ==> target.lan_endpoint == Some(at),
        first matches ConnectStep::Bluetooth(at) ==> target.bluetooth_endpoint == Some(at),
        first is Failed <==> !(app.lan_enabled && target.lan_endpoint is Some)
            && target.bluetooth_endpoint is None,
        second is Bluetooth <==> target.bluetooth_endpoint is Some,
        second matches ConnectStep::Bluetooth(at) ==> target.bluetooth_endpoint == Some(at),
        second matches ConnectStep::Failed(e) ==> e == error,
        !(second is Lan),
{
}

/// The addresses of a target are those that the device was last seen under, and those of before
/// where it was not.
pub proof fn law_target_is_brought_up_to_date(
    app: AppState,
    target: ReconnectTarget,
    session: Uuid,
    id: &str,
    found: Option<NearbyDevice>,
    r: AppResult<ReconnectTarget>,
    at: Option<Endpoint>,
)
    requires
        target.device_id is Some,
        id@ == crate::ids::hyphenated(target.device_id->0.value),
        call_ensures(AppState::find_device, (&app, id), found),
        call_ensures(AppState::refresh_target, (&app, target, session), r),
        call_ensures(AppState::resolve_target_endpoint, (&app, &target), at),
    ensures
        r is Ok <==> app.reconnects@.dom().contains(session),
        r matches Ok(now) ==> {
            &&& now.device_id == target.device_id
            &&& found matches Some(d) ==> now.display_name@ == d.name@
            &&& found is Some && found->0.lan_endpoint is Some ==> now.lan_endpoint
                == found->0.lan_endpoint
            &&& found is None || found->0.lan_endpoint is None ==> now.lan_endpoint
                == target.lan_endpoint
            &&& found is Some && found->0.bluetooth_endpoint is Some ==> now.bluetooth_endpoint
                == found->0.bluetooth_endpoint
            &&& found is None || found->0.bluetooth_endpoint is None ==> now.bluetooth_endpoint
                == target.bluetooth_endpoint
            &&& at == now.lan_endpoint
        },
{
    assert(app.target_device(target) == found);
}

/// A connection that is lost is gone; what was being received from the device is given up; and the
/// device is connected to again if and only if the user wants to stay connected to it.
pub proof fn law_lost_connection_is_made_again(
    app: &mut AppState,
    generation: Uuid,
    failure: Option<String>,
    now: Instant,
    key: crate::ids::PeerItem,
    r: Option<FinishedConnection>,
)
    requires
        old(app).wf(),
        call_ensures(AppState::finish_primary_connection, (app, generation, failure, now), r),
    ensures
        r is Some <==> old(app).connections@.dom().contains(generation),
        !final(app).connections@.dom().contains(generation),
        r matches Some(done) ==> {
            let session = old(app).connections@[generation].reconnect_session;
            &&& done.reconnect is Some <==> session is Some && old(app).reconnects@.dom().contains(
                session->0,
            )
            &&& done.reconnect is Some ==> done.reconnect == session
            &&& old(app).connections@[generation].peer_device_id == Some(key.peer)
                && old(app).incoming@.dom().contains(key)
                ==> !final(app).incoming@.dom().contains(key)
                && done.discard@.contains(old(app).incoming@[key].temporary_path)
            &&& old(app).connections@[generation].peer_device_id != Some(key.peer)
                && old(app).incoming@.dom().contains(key)
                ==> final(app).incoming@.dom().contains(key)
        },
        r is None ==> *final(app) == *old(app),
{
    if r is Some {
        let done = r->0;
        let (middle, cleared) = choose|middle: AppState, cleared: ClearedConnection| #[trigger]
            AppState::clears(*old(app), middle, generation, cleared) && AppState::finishes_after(
                middle,
                *final(app),
                cleared,
                failure,
                now,
                done,
            );
        if let Some(device_id) = cleared.closed.peer_device_id {
            let keys = canceling::keys_of(middle.incoming.order(), Some(device_id));
            let p = |k: crate::ids::PeerItem|
                Some(device_id) is None || k.peer == Some(device_id)->0;
            assert(middle.incoming == old(app).incoming);
            old(app).incoming.lemma_order();
            assert(keys == old(app).incoming.order().filter(p));
            lists::lemma_filter_members(old(app).incoming.order(), p, key);
            if keys.contains(key) {
                let i = keys.index_of(key);
                assert(keys[i] == key);
                assert(done.discard@[i] == old(app).incoming@[key].temporary_path);
            }
        }
    }
}

/// Attempts to connect again go on as long as the plan stands, each after the wait that is due.
pub proof fn law_attempts_go_on(
    app: AppState,
    session: Uuid,
    attempt: usize,
    error: AppError,
    delay: Duration,
    round: Option<ReconnectRound>,
    failed: Option<(usize, Notice)>,
)
    requires
        call_ensures(AppState::reconnect_round, (&app, session, attempt), round),
        call_ensures(AppState::reconnect_failed, (&app, session, attempt, &error), failed),
        call_ensures(reconnect_delay, (attempt,), delay),
        attempt < usize::MAX,
    ensures
        round is Some <==> app.reconnects@.dom().contains(session),
        failed is Some <==> app.reconnects@.dom().contains(session),
        round matches Some(next) ==> next.delay.nanos == delay.nanos && next.target
            == app.reconnects@[session].target,
        failed matches Some((next, notice)) ==> next == attempt + 1,
{
}

} // verus!
