//! What the library shows of its state.
use crate::clock;
use crate::clock::{Duration, Instant};
use crate::ids::Uuid;
use crate::lists::Duplicate;
use crate::text;
use vstd::prelude::*;

verus! {

/// All that the user sees.
#[derive(Debug)]
pub struct AppSnapshot {
    pub platform: String,
    pub device_id: Uuid,
    pub device_name: String,
    pub listening: bool,
    pub connection_service_state: ConnectionServiceState,
    pub listener_status: ListenerStatus,
    pub connected: bool,
    pub network_connected: bool,
    pub active_link: ActiveLink,
    pub reconnecting: bool,
    pub peer_name: Option<String>,
    pub connection_kind: Option<ConnectionKind>,
    pub pairing_request: Option<PairingRequestView>,
    pub pairing_requests: Vec<PairingRequestView>,
    pub connections: Vec<PeerConnectionView>,
    pub trusted_devices: Vec<TrustedDeviceView>,
    pub clipboard_enabled: bool,
    pub autostart_enabled: bool,
    pub lan_enabled: bool,
    pub lan_setup_required: bool,
    pub receive_directory: String,
    pub legacy_receive_directory: Option<String>,
    pub devices: Vec<NearbyDevice>,
    pub local_shares: Vec<LocalShareView>,
    pub remote_workspaces: Vec<RemoteWorkspaceView>,
    pub transfers: Vec<TransferView>,
}

/// Whether the connection service runs.
#[derive(Clone, Copy, Debug, PartialEq, Eq, Structural)]
pub enum ConnectionServiceState {
    Starting,
    Running,
    Stopping,
    Stopped,
}

/// The link that data takes to the first connected device.
#[derive(Clone, Copy, Debug, PartialEq, Eq, Structural)]
pub enum ActiveLink {
    Offline,
    Bluetooth,
    Network,
}

/// The kind of link that a connection stands on.
#[derive(Clone, Copy, Debug, PartialEq, Eq, Structural)]
pub enum ConnectionKind {
    Bluetooth,
    Lan,
}

/// Whether one of the services is up.
#[derive(Clone, Copy, Debug, PartialEq, Eq, Structural)]
pub enum ServiceStatus {
    Off,
    Ready,
    Error,
}

/// The state of the services that wait for other devices.
#[derive(Clone, Debug)]
pub struct ListenerStatus {
    pub bluetooth: ServiceStatus,
    pub discovery: ServiceStatus,
    pub tcp: ServiceStatus,
    pub bluetooth_error: Option<String>,
    pub discovery_error: Option<String>,
    pub tcp_error: Option<String>,
    pub tcp_port: Option<u16>,
    pub local_addresses: Vec<String>,
}

/// A TCP endpoint: the textual address of a host, and a port.
#[derive(Debug, PartialEq, Eq)]
pub struct Endpoint {
    pub host: String,
    pub port: u16,
}

/// The connected devices in the order in which they are shown.
#[derive(Clone, Debug)]
pub struct PeerConnectionView {
    pub device_id: Uuid,
    pub name: String,
    pub connection_kind: ConnectionKind,
    pub bluetooth_connected: bool,
    pub network_connected: bool,
    pub reconnecting: bool,
}

/// A device that was seen on one link or on both.
#[derive(Debug)]
pub struct NearbyDevice {
    pub id: String,
    pub device_id: Option<Uuid>,
    pub name: String,
    pub bluetooth_endpoint: Option<String>,
    pub lan_endpoint: Option<Endpoint>,
    pub bluetooth_paired: bool,
    pub nearweave_enabled: bool,
    pub trusted: bool,
}

/// A question to the user: do both devices show this code?
#[derive(Debug)]
pub struct PairingRequestView {
    pub request_id: Uuid,
    pub device_id: Uuid,
    pub device_name: String,
    pub verification_code: String,
}

/// A trusted device, without its key.
#[derive(Clone, Debug)]
pub struct TrustedDeviceView {
    pub device_id: Uuid,
    pub name: String,
    pub fingerprint: String,
    pub last_seen_at: u64,
}

/// A directory that this device shares, as it is shown.
#[derive(Clone, Debug)]
pub struct LocalShareView {
    pub id: Uuid,
    pub name: String,
    pub path: String,
}

/// A directory that this device shares.
#[derive(Debug)]
pub struct LocalShare {
    pub id: Uuid,
    pub name: String,
    pub path: String,
}

/// A directory that a peer shares.
#[derive(Debug)]
pub struct SharedRoot {
    pub id: Uuid,
    pub name: String,
}

/// A file or a directory inside a share.
#[derive(Debug)]
pub struct RemoteEntry {
    pub share_id: Uuid,
    pub share_name: String,
    pub relative_path: String,
    pub name: String,
    pub size: u64,
    pub is_directory: bool,
}

/// What a peer shares.
#[derive(Clone, Debug)]
pub struct RemoteWorkspaceView {
    pub device_id: Uuid,
    pub roots: Vec<SharedRoot>,
}

/// One page of a directory of a peer.
#[derive(Clone, Debug)]
pub struct DirectoryPageView {
    pub device_id: Uuid,
    pub share_id: Uuid,
    pub relative_path: String,
    pub offset: u32,
    pub next_offset: Option<u32>,
    pub entries: Vec<RemoteEntry>,
}

/// The side of a transfer that this device is on.
#[derive(Clone, Copy, Debug, PartialEq, Eq, Structural)]
pub enum TransferDirection {
    Sending,
    Receiving,
}

/// How far a transfer has come.
#[derive(Clone, Copy, Debug, PartialEq, Eq, Structural)]
pub enum TransferState {
    Queued,
    Transferring,
    WaitingForPeer,
    Cancelling,
    Canceled,
    Completed,
    Failed,
}

/// What became of a request to cancel a transfer.
#[derive(Clone, Copy, Debug, PartialEq, Eq, Structural)]
pub enum TransferCancelResult {
    Canceled,
    AlreadyCompleted,
    NotFound,
}

/// A message to the user.
#[derive(Clone, Debug)]
pub struct Notice {
    pub level: NoticeLevel,
    pub message: String,
}

/// How a message to the user is meant.
#[derive(Clone, Copy, Debug, PartialEq, Eq, Structural)]
pub enum NoticeLevel {
    Info,
    Success,
    Error,
}

/// A transfer in the list that the user sees.
#[derive(Debug)]
pub struct TransferView {
    pub id: Uuid,
    pub peer_device_id: Uuid,
    pub peer_name: String,
    pub name: String,
    pub direction: TransferDirection,
    pub state: TransferState,
    pub bytes_done: u64,
    pub total_bytes: u64,
    pub detail: String,
    pub bytes_per_second: u64,
    pub elapsed_millis: u64,
    pub estimated_remaining_seconds: Option<u64>,
    pub started_at: Instant,
    pub data_finished_at: Option<Instant>,
    pub finished_at: Option<Instant>,
}

/// A copy of an optional text.
pub fn copy_text(value: &Option<String>) -> (r: Option<String>)
    ensures
        r == *value,
{
    match value {
        Some(text) => Some(text.clone()),
        None => None,
    }
}

impl Endpoint {
    /// The host is written in brackets where it is an IPv6 address.
    pub open spec fn notation(&self) -> Seq<char> {
        if self.host@.contains(':') {
            "["@ + self.host@ + "]:"@ + text::decimal_of(self.port as nat)
        } else {
            self.host@ + ":"@ + text::decimal_of(self.port as nat)
        }
    }

    /// The usual notation of the endpoint.
    pub fn to_string(&self) -> (r: String)
        ensures
            r@ == self.notation(),
    {
        let port = text::decimal(self.port as u128);
        if text::contains_char(&self.host, ':') {
            let mut out = text::joined3("[", &self.host, "]:");
            out.append(&port);
            out
        } else {
            text::joined3(&self.host, ":", &port)
        }
    }
}

impl Clone for Endpoint {
    fn clone(&self) -> (r: Self)
        ensures
            r == *self,
    {
        Endpoint { host: self.host.clone(), port: self.port }
    }
}

impl Clone for NearbyDevice {
    fn clone(&self) -> (r: Self)
        ensures
            r == *self,
    {
        NearbyDevice {
            id: self.id.clone(),
            device_id: self.device_id,
            name: self.name.clone(),
            bluetooth_endpoint: copy_text(&self.bluetooth_endpoint),
            lan_endpoint: match &self.lan_endpoint {
                Some(endpoint) => Some(endpoint.clone()),
                None => None,
            },
            bluetooth_paired: self.bluetooth_paired,
            nearweave_enabled: self.nearweave_enabled,
            trusted: self.trusted,
        }
    }
}

impl Clone for SharedRoot {
    fn clone(&self) -> (r: Self)
        ensures
            r == *self,
    {
        SharedRoot {
            id: self.id,
            name: self.name.clone(),
        }
    }
}

impl Clone for RemoteEntry {
    fn clone(&self) -> (r: Self)
        ensures
            r == *self,
    {
        RemoteEntry {
            share_id: self.share_id,
            share_name: self.share_name.clone(),
            relative_path: self.relative_path.clone(),
            name: self.name.clone(),
            size: self.size,
            is_directory: self.is_directory,
        }
    }
}

impl Clone for TransferView {
    fn clone(&self) -> (r: Self)
        ensures
            r == *self,
    {
        TransferView {
            id: self.id,
            peer_device_id: self.peer_device_id,
            peer_name: self.peer_name.clone(),
            name: self.name.clone(),
            direction: self.direction,
            state: self.state,
            bytes_done: self.bytes_done,
            total_bytes: self.total_bytes,
            detail: self.detail.clone(),
            bytes_per_second: self.bytes_per_second,
            elapsed_millis: self.elapsed_millis,
            estimated_remaining_seconds: self.estimated_remaining_seconds,
            started_at: self.started_at,
            data_finished_at: self.data_finished_at,
            finished_at: self.finished_at,
        }
    }
}

impl Clone for LocalShare {
    fn clone(&self) -> (r: Self)
        ensures
            r == *self,
    {
        LocalShare {
            id: self.id,
            name: self.name.clone(),
            path: self.path.clone(),
        }
    }
}

impl Clone for PairingRequestView {
    fn clone(&self) -> (r: Self)
        ensures
            r == *self,
    {
        PairingRequestView {
            request_id: self.request_id,
            device_id: self.device_id,
            device_name: self.device_name.clone(),
            verification_code: self.verification_code.clone(),
        }
    }
}

impl TransferView {
    /// Nothing more can happen to the transfer.
    pub open spec fn terminal(&self) -> bool {
        self.state is Completed || self.state is Failed || self.state is Canceled
    }

    /// The reading at which all data had come through, as of `now`.
    pub open spec fn data_end(&self, now: Instant) -> Option<Instant> {
        if self.total_bytes > 0 && self.bytes_done >= self.total_bytes && self.data_finished_at is None {
            Some(now)
        } else {
            self.data_finished_at
        }
    }

    /// The reading at which the transfer came to its end, as of `now`.
    pub open spec fn task_end(&self, now: Instant) -> Option<Instant> {
        if self.terminal() && self.finished_at is None {
            Some(now)
        } else {
            self.finished_at
        }
    }

    /// The nanoseconds over which the rate is measured, as of `now`.
    pub open spec fn data_nanos(&self, now: Instant) -> nat {
        match self.data_end(now) {
            Some(end) => end.since(self.started_at),
            None => now.since(self.started_at),
        }
    }

    /// The nanoseconds that the transfer has taken, as of `now`.
    pub open spec fn task_nanos(&self, now: Instant) -> nat {
        match self.task_end(now) {
            Some(end) => end.since(self.started_at),
            None => now.since(self.started_at),
        }
    }

    /// The transfer as it stands at `now`, where `rate` is the rounded quotient of the bytes and
    /// the seconds of `data_nanos`, and `remaining` the rounded-up quotient of what is left and
    /// the rate.
    pub open spec fn refreshed(self, now: Instant, rate: u64, remaining: u64) -> TransferView {
        let bytes_per_second = if self.bytes_done > 0 && self.data_nanos(now) > 0 {
            rate
        } else {
            0
        };
        TransferView {
            data_finished_at: self.data_end(now),
            finished_at: self.task_end(now),
            elapsed_millis: clock::whole_millis(self.task_nanos(now)),
            bytes_per_second,
            estimated_remaining_seconds: if self.state is Transferring && self.bytes_done
                < self.total_bytes && bytes_per_second > 0 {
                Some(remaining)
            } else {
                None
            },
            ..self
        }
    }

    /// The transfer with its ends noted and its time measured at `now`. Where there is no rate, it
    /// is zero, and where nothing is to be estimated, there is no estimate; other figures stay until
    /// they are next computed.
    pub open spec fn settled(self, now: Instant) -> TransferView {
        let bytes_per_second = if self.bytes_done > 0 && self.data_nanos(now) > 0 {
            self.bytes_per_second
        } else {
            0
        };
        TransferView {
            data_finished_at: self.data_end(now),
            finished_at: self.task_end(now),
            elapsed_millis: clock::whole_millis(self.task_nanos(now)),
            bytes_per_second,
            estimated_remaining_seconds: if self.state is Transferring && self.bytes_done
                < self.total_bytes && bytes_per_second > 0 {
                self.estimated_remaining_seconds
            } else {
                None
            },
            ..self
        }
    }

    /// A transfer that starts at `now`.
    pub fn new(
        id: Uuid,
        peer: (Uuid, String),
        name: String,
        direction: TransferDirection,
        state: TransferState,
        total_bytes: u64,
        detail: String,
        now: Instant,
    ) -> (r: Self)
        ensures
            r == (TransferView {
                id,
                peer_device_id: peer.0,
                peer_name: peer.1,
                name,
                direction,
                state,
                bytes_done: 0,
                total_bytes,
                detail,
                bytes_per_second: 0,
                elapsed_millis: 0,
                estimated_remaining_seconds: None,
                started_at: now,
                data_finished_at: None,
                finished_at: None,
            }),
    {
        TransferView {
            id,
            peer_device_id: peer.0,
            peer_name: peer.1,
            name,
            direction,
            state,
            bytes_done: 0,
            total_bytes,
            detail,
            bytes_per_second: 0,
            elapsed_millis: 0,
            estimated_remaining_seconds: None,
            started_at: now,
            data_finished_at: None,
            finished_at: None,
        }
    }

    /// Whether nothing more can happen to the transfer.
    pub fn is_terminal(&self) -> (r: bool)
        ensures
            r == self.terminal(),
    {
        matches!(
            self.state,
            TransferState::Completed | TransferState::Failed | TransferState::Canceled
        )
    }

    /// The time over which the rate is to be measured at `now`, nothing where there is no rate.
    pub fn rate_window(&self, now: Instant) -> (r: Option<Duration>)
        ensures
            match r {
                Some(window) => self.bytes_done > 0 && window.nanos == self.data_nanos(now)
                    && window.nanos > 0,
                None => self.bytes_done == 0 || self.data_nanos(now) == 0,
            },
    {
        let end = if self.total_bytes > 0 && self.bytes_done >= self.total_bytes
            && self.data_finished_at.is_none() {
            now
        } else {
            match self.data_finished_at {
                Some(end) => end,
                None => now,
            }
        };
        let window = end.duration_since(self.started_at);
        if self.bytes_done > 0 && window.nanos > 0 {
            Some(window)
        } else {
            None
        }
    }

    /// Notes the ends that the transfer has come to, measures its time at `now`, and takes back
    /// figures that no longer stand.
    pub fn settle(&mut self, now: Instant)
        ensures
            *final(self) == old(self).settled(now),
    {
        let has_rate = self.rate_window(now).is_some();
        if self.total_bytes > 0 && self.bytes_done >= self.total_bytes
            && self.data_finished_at.is_none() {
            self.data_finished_at = Some(now);
        }
        if self.is_terminal() && self.finished_at.is_none() {
            self.finished_at = Some(now);
        }
        let end = match self.finished_at {
            Some(end) => end,
            None => now,
        };
        self.elapsed_millis = end.duration_since(self.started_at).as_millis();
        if !has_rate {
            self.bytes_per_second = 0;
        }
        let has_estimate = matches!(self.state, TransferState::Transferring) && self.bytes_done
            < self.total_bytes && self.bytes_per_second > 0;
        if !has_estimate {
            self.estimated_remaining_seconds = None;
        }
    }

    /// Brings the figures up to date. `rate` is the quotient of the bytes and the seconds of
    /// `rate_window`, rounded; `remaining` the quotient of what is left and the rate, rounded up.
    pub fn refresh_metrics(&mut self, now: Instant, rate: u64, remaining: u64)
        ensures
            *final(self) == old(self).refreshed(now, rate, remaining),
    {
        let window = self.rate_window(now);
        self.settle(now);
        self.bytes_per_second = if window.is_some() {
            rate
        } else {
            0
        };
        self.estimated_remaining_seconds = if matches!(self.state, TransferState::Transferring)
            && self.bytes_done < self.total_bytes && self.bytes_per_second > 0 {
            Some(remaining)
        } else {
            None
        };
    }
}

/// The figures of a transfer that has just been settled come out as those of the transfer before:
/// settling it, and bringing its figures up to date at the same reading, is one step.
pub proof fn law_settling_keeps_figures_open(
    t: TransferView,
    now: Instant,
    rate: u64,
    remaining: u64,
)
    ensures
        t.settled(now).refreshed(now, rate, remaining) == t.refreshed(now, rate, remaining),
{
}

/// Once a transfer has come to its end, the time that it took stays as it is at the first look,
/// there is no estimate of what remains, and the span of the rate no longer grows if all data
/// came through.
pub proof fn law_finished_transfer_is_frozen(
    t: TransferView,
    first: Instant,
    rate: u64,
    remaining: u64,
    later: Instant,
    later_rate: u64,
    later_remaining: u64,
)
    requires
        t.terminal(),
    ensures
        ({
            let once = t.refreshed(first, rate, remaining);
            let again = once.refreshed(later, later_rate, later_remaining);
            &&& again.elapsed_millis == once.elapsed_millis
            &&& again.finished_at == once.finished_at
            &&& once.estimated_remaining_seconds is None
            &&& again.estimated_remaining_seconds is None
            &&& t.total_bytes > 0 && t.bytes_done >= t.total_bytes ==> once.data_nanos(later)
                == t.data_nanos(first)
        }),
{
}

impl Duplicate for NearbyDevice {
    fn duplicate(&self) -> (r: Self) {
        self.clone()
    }
}

impl Duplicate for SharedRoot {
    fn duplicate(&self) -> (r: Self) {
        self.clone()
    }
}

impl Duplicate for RemoteEntry {
    fn duplicate(&self) -> (r: Self) {
        self.clone()
    }
}

impl Duplicate for TransferView {
    fn duplicate(&self) -> (r: Self) {
        self.clone()
    }
}

impl Duplicate for LocalShare {
    fn duplicate(&self) -> (r: Self) {
        self.clone()
    }
}

impl Duplicate for PairingRequestView {
    fn duplicate(&self) -> (r: Self) {
        self.clone()
    }
}

impl Duplicate for Endpoint {
    fn duplicate(&self) -> (r: Self) {
        self.clone()
    }
}

/// To bring the figures of a transfer up to date changes neither what is sent nor how it stands: it
/// notes when all data had come through and when it came to its end, each once, and measures its
/// time until then.
pub proof fn law_figures_follow_the_clock(t: &mut TransferView, now: Instant, rate: u64, remaining: u64)
    requires
        call_ensures(TransferView::refresh_metrics, (t, now, rate, remaining), ()),
        old(t).started_at.nanos <= now.nanos,
        now.nanos - old(t).started_at.nanos < 0xffff_ffff_ffff,
    ensures
        final(t).id == old(t).id,
        final(t).name == old(t).name,
        final(t).state == old(t).state,
        final(t).bytes_done == old(t).bytes_done,
        final(t).total_bytes == old(t).total_bytes,
        ({
            let over = old(t).state is Completed || old(t).state is Failed
                || old(t).state is Canceled;
            let through = old(t).total_bytes > 0 && old(t).bytes_done >= old(t).total_bytes;
            &&& old(t).finished_at is Some ==> final(t).finished_at == old(t).finished_at
            &&& old(t).finished_at is None ==> (final(t).finished_at is Some <==> over)
            &&& old(t).finished_at is None && over ==> final(t).finished_at == Some(now)
            &&& old(t).data_finished_at is Some
                ==> final(t).data_finished_at == old(t).data_finished_at
            &&& old(t).data_finished_at is None ==> (final(t).data_finished_at is Some <==> through)
            &&& old(t).data_finished_at is None && through ==> final(t).data_finished_at == Some(
                now,
            )
            &&& final(t).finished_at is None
                ==> final(t).elapsed_millis == (now.nanos - old(t).started_at.nanos) / 1_000_000
        }),
        final(t).estimated_remaining_seconds is Some ==> final(t).state is Transferring
            && final(t).bytes_done < final(t).total_bytes,
        final(t).bytes_per_second > 0 ==> final(t).bytes_done > 0,
        final(t).bytes_done == 0 ==> final(t).bytes_per_second == 0
            && final(t).estimated_remaining_seconds is None,
{
}

/// The rate and the time that remains are shown where there are such: while data has come through
/// and time has passed, and while something is left to come.
pub proof fn law_rate_is_shown(t: &mut TransferView, now: Instant, rate: u64, remaining: u64)
    requires
        call_ensures(TransferView::refresh_metrics, (t, now, rate, remaining), ()),
        old(t).state is Transferring,
        0 < old(t).bytes_done < old(t).total_bytes,
        old(t).data_finished_at is None,
        old(t).started_at.nanos < now.nanos,
        rate > 0,
    ensures
        final(t).bytes_per_second == rate,
        final(t).estimated_remaining_seconds == Some(remaining),
{
}

/// The rate is measured over the time from the start until all data had come through.
pub proof fn law_rate_is_measured_over_data(t: TransferView, now: Instant, r: Option<Duration>)
    requires
        call_ensures(TransferView::rate_window, (&t, now), r),
        t.started_at.nanos <= now.nanos,
    ensures
        t.bytes_done == 0 ==> r is None,
        r is Some && t.data_finished_at is None ==> r->0.nanos == now.nanos - t.started_at.nanos,
        r is Some && t.data_finished_at is Some && t.data_finished_at->0.nanos
            >= t.started_at.nanos ==> r->0.nanos == t.data_finished_at->0.nanos
            - t.started_at.nanos,
        t.bytes_done > 0 && t.data_finished_at is None && t.started_at.nanos < now.nanos
            ==> r is Some,
{
}

/// A transfer that starts has done nothing yet.
pub proof fn law_new_transfer_has_done_nothing(
    id: Uuid,
    peer: (Uuid, String),
    name: String,
    direction: TransferDirection,
    state: TransferState,
    total_bytes: u64,
    detail: String,
    now: Instant,
    r: TransferView,
    over: bool,
)
    requires
        call_ensures(
            TransferView::new,
            (id, peer, name, direction, state, total_bytes, detail, now),
            r,
        ),
        call_ensures(TransferView::is_terminal, (&r,), over),
    ensures
        r.id == id && r.peer_device_id == peer.0 && r.peer_name@ == peer.1@ && r.name@ == name@,
        r.direction == direction && r.state == state && r.total_bytes == total_bytes,
        r.bytes_done == 0 && r.bytes_per_second == 0 && r.elapsed_millis == 0,
        r.started_at == now && r.finished_at is None && r.data_finished_at is None,
        over <==> state is Completed || state is Failed || state is Canceled,
{
}

} // verus!
