//! The devices that were seen, merged over both kinds of link.
use super::trust;
use super::trust::TrustedModel;
use super::AppState;
use crate::clock::{Duration, Instant};
use crate::ids;
use crate::ids::Uuid;
use crate::lists;
use crate::lists::Ranked;
use crate::models::{Endpoint, NearbyDevice};
use crate::table::Table;
use crate::text;
use vstd::prelude::*;

verus! {

/// A device as plain values.
pub struct DeviceModel {
    pub id: Seq<char>,
    pub device_id: Option<Uuid>,
    pub name: Seq<char>,
    pub bluetooth_endpoint: Option<Seq<char>>,
    pub lan_endpoint: Option<(Seq<char>, u16)>,
    pub bluetooth_paired: bool,
    pub nearweave_enabled: bool,
    pub trusted: bool,
}

/// An optional text as a plain value.
pub open spec fn text_model(value: Option<String>) -> Option<Seq<char>> {
    match value {
        Some(t) => Some(t@),
        None => None,
    }
}

/// An optional endpoint as a plain value.
pub open spec fn endpoint_model(value: Option<Endpoint>) -> Option<(Seq<char>, u16)> {
    match value {
        Some(e) => Some((e.host@, e.port)),
        None => None,
    }
}

impl View for NearbyDevice {
    type V = DeviceModel;

    open spec fn view(&self) -> DeviceModel {
        DeviceModel {
            id: self.id@,
            device_id: self.device_id,
            name: self.name@,
            bluetooth_endpoint: text_model(self.bluetooth_endpoint),
            lan_endpoint: endpoint_model(self.lan_endpoint),
            bluetooth_paired: self.bluetooth_paired,
            nearweave_enabled: self.nearweave_enabled,
            trusted: self.trusted,
        }
    }
}

/// A list of devices as plain values.
pub open spec fn device_models(s: Seq<NearbyDevice>) -> Seq<DeviceModel> {
    s.map_values(|d: NearbyDevice| d@)
}

impl Ranked for NearbyDevice {
    open spec fn precedes(&self, other: &Self) -> bool {
        text::before(self.name@, other.name@)
    }

    proof fn lemma_asymmetric(a: &Self, b: &Self) {
        if text::before(b.name@, a.name@) {
            text::lemma_before_transitive(a.name@, b.name@, a.name@);
            text::lemma_before_irreflexive(a.name@);
        }
    }

    proof fn lemma_negatively_transitive(a: &Self, b: &Self, c: &Self) {
        text::lemma_before_total(a.name@, b.name@);
        text::lemma_before_total(b.name@, c.name@);
        if text::before(a.name@, c.name@) {
            if a.name@ != b.name@ {
                text::lemma_before_transitive(b.name@, a.name@, c.name@);
            }
        }
    }

    fn comes_before(&self, other: &Self) -> (r: bool) {
        text::less(&self.name, &other.name)
    }
}

/// Devices are shown in the order of their names.
pub open spec fn by_name() -> spec_fn(DeviceModel, DeviceModel) -> bool {
    |a: DeviceModel, b: DeviceModel| text::before(a.name, b.name)
}

/// The place of a device with this identity.
pub open spec fn device_at(s: Seq<DeviceModel>, device_id: Uuid) -> Option<int> {
    lists::first_where(s, |d: DeviceModel| d.device_id == Some(device_id))
}

/// The place of a device with this Bluetooth address.
pub open spec fn bluetooth_at(s: Seq<DeviceModel>, endpoint: Seq<char>) -> Option<int> {
    lists::first_where(s, |d: DeviceModel| d.bluetooth_endpoint == Some(endpoint))
}

/// A device of which nothing is known by Bluetooth.
pub open spec fn bluetooth_cleared(d: DeviceModel) -> DeviceModel {
    DeviceModel {
        bluetooth_endpoint: None,
        bluetooth_paired: false,
        nearweave_enabled: false,
        ..d
    }
}

/// What is left of the list without what was known by Bluetooth.
pub open spec fn lan_only(s: Seq<DeviceModel>) -> Seq<DeviceModel> {
    s.map_values(|d: DeviceModel| bluetooth_cleared(d)).filter(
        |d: DeviceModel| d.lan_endpoint is Some,
    )
}

/// The place of the device that a scanned one is the same as.
pub open spec fn merge_at(s: Seq<DeviceModel>, incoming: DeviceModel) -> Option<int> {
    let by_identity = match incoming.device_id {
        Some(device_id) => device_at(s, device_id),
        None => None,
    };
    if by_identity is Some {
        by_identity
    } else {
        match incoming.bluetooth_endpoint {
            Some(endpoint) => bluetooth_at(s, endpoint),
            None => None,
        }
    }
}

/// A known device with what a scan has found of it.
pub open spec fn merged_device(
    known: DeviceModel,
    incoming: DeviceModel,
    trusted: Seq<TrustedModel>,
) -> DeviceModel {
    let device_id = if known.device_id is Some {
        known.device_id
    } else {
        incoming.device_id
    };
    DeviceModel {
        id: match device_id {
            Some(value) => ids::hyphenated(value.value),
            None => incoming.id,
        },
        device_id,
        name: incoming.name,
        bluetooth_endpoint: incoming.bluetooth_endpoint,
        lan_endpoint: known.lan_endpoint,
        bluetooth_paired: incoming.bluetooth_paired,
        nearweave_enabled: incoming.nearweave_enabled,
        trusted: match device_id {
            Some(value) => trust::is_trusted(trusted, value),
            None => false,
        },
    }
}

/// The list with one scanned device.
pub open spec fn merged_one(
    s: Seq<DeviceModel>,
    incoming: DeviceModel,
    trusted: Seq<TrustedModel>,
) -> Seq<DeviceModel> {
    match merge_at(s, incoming) {
        Some(i) => s.update(i, merged_device(s[i], incoming, trusted)),
        None => s.push(incoming),
    }
}

/// The list with all scanned devices, in turn.
pub open spec fn merged_all(
    s: Seq<DeviceModel>,
    incoming: Seq<DeviceModel>,
    trusted: Seq<TrustedModel>,
) -> Seq<DeviceModel>
    decreases incoming.len(),
{
    if incoming.len() == 0 {
        s
    } else {
        merged_one(merged_all(s, incoming.drop_last(), trusted), incoming.last(), trusted)
    }
}

/// The list after a scan by Bluetooth.
pub open spec fn after_scan(
    s: Seq<DeviceModel>,
    incoming: Seq<DeviceModel>,
    trusted: Seq<TrustedModel>,
) -> Seq<DeviceModel> {
    lists::stable_sorted(merged_all(lan_only(s), incoming, trusted), by_name())
}

/// The list after a device has announced itself in the local network.
pub open spec fn after_announcement(
    s: Seq<DeviceModel>,
    device_id: Uuid,
    name: Seq<char>,
    endpoint: (Seq<char>, u16),
    trusted: bool,
) -> Seq<DeviceModel> {
    let all = match device_at(s, device_id) {
        Some(i) => s.update(
            i,
            DeviceModel { name, lan_endpoint: Some(endpoint), trusted, ..s[i] },
        ),
        None => s.push(
            DeviceModel {
                id: ids::hyphenated(device_id.value),
                device_id: Some(device_id),
                name,
                bluetooth_endpoint: None,
                lan_endpoint: Some(endpoint),
                bluetooth_paired: false,
                nearweave_enabled: false,
                trusted,
            },
        ),
    };
    lists::stable_sorted(all, by_name())
}

/// The list after the device at a Bluetooth address has said who it is.
pub open spec fn after_identification(
    s: Seq<DeviceModel>,
    endpoint: Seq<char>,
    device_id: Uuid,
    name: Seq<char>,
    trusted: bool,
) -> Seq<DeviceModel> {
    match bluetooth_at(s, endpoint) {
        None => s,
        Some(i) => {
            let found = s[i];
            let others = s.remove(i);
            match device_at(others, device_id) {
                Some(k) => others.update(
                    k,
                    DeviceModel {
                        bluetooth_endpoint: found.bluetooth_endpoint,
                        bluetooth_paired: true,
                        nearweave_enabled: found.nearweave_enabled,
                        ..others[k]
                    },
                ),
                None => others.push(
                    DeviceModel {
                        id: ids::hyphenated(device_id.value),
                        device_id: Some(device_id),
                        name,
                        bluetooth_endpoint: found.bluetooth_endpoint,
                        lan_endpoint: None,
                        bluetooth_paired: true,
                        nearweave_enabled: found.nearweave_enabled,
                        trusted,
                    },
                ),
            }
        },
    }
}

/// A device that was last heard of too long ago.
pub open spec fn has_expired(
    seen: Map<Uuid, Instant>,
    device_id: Uuid,
    ttl: Duration,
    now: Instant,
) -> bool {
    seen.dom().contains(device_id) && now.since(seen[device_id]) > ttl.nanos
}

/// All devices of the local network have announced themselves lately.
pub open spec fn none_has_expired(seen: Map<Uuid, Instant>, ttl: Duration, now: Instant) -> bool {
    forall|d: Uuid| !has_expired(seen, d, ttl, now)
}

/// A device without its address in the local network where that has expired.
pub open spec fn expired_cleared(
    d: DeviceModel,
    seen: Map<Uuid, Instant>,
    ttl: Duration,
    now: Instant,
) -> DeviceModel {
    if d.device_id is Some && has_expired(seen, d.device_id->0, ttl, now) {
        DeviceModel { lan_endpoint: None, ..d }
    } else {
        d
    }
}

/// The list after addresses have expired.
pub open spec fn after_expiry(
    s: Seq<DeviceModel>,
    seen: Map<Uuid, Instant>,
    ttl: Duration,
    now: Instant,
) -> Seq<DeviceModel> {
    s.map_values(|d: DeviceModel| expired_cleared(d, seen, ttl, now)).filter(
        |d: DeviceModel| d.lan_endpoint is Some || d.bluetooth_paired,
    )
}

/// The list after the first device with this identity has been marked.
pub open spec fn marked_trusted(s: Seq<DeviceModel>, device_id: Uuid, trusted: bool) -> Seq<
    DeviceModel,
> {
    match device_at(s, device_id) {
        Some(i) => s.update(i, DeviceModel { trusted, ..s[i] }),
        None => s,
    }
}

fn same_identity(value: Option<Uuid>, device_id: Uuid) -> (r: bool)
    ensures
        r == (value == Some(device_id)),
{
    match value {
        Some(id) => id == device_id,
        None => false,
    }
}

fn same_text(value: &Option<String>, t: &str) -> (r: bool)
    ensures
        r == (text_model(*value) == Some(t@)),
{
    match value {
        Some(v) => text::same(v, t),
        None => false,
    }
}

fn find_identity(devices: &Vec<NearbyDevice>, device_id: Uuid) -> (r: Option<usize>)
    ensures
        match r {
            Some(i) => i < devices@.len() && device_at(device_models(devices@), device_id) == Some(
                i as int,
            ),
            None => device_at(device_models(devices@), device_id) is None,
        },
{
    let test = |d: &NearbyDevice| -> (b: bool)
        ensures
            b == (d.device_id == Some(device_id)),
        { same_identity(d.device_id, device_id) };
    proof {
        lists::lemma_first_of_images(
            devices@,
            |d: NearbyDevice| d@,
            |d: NearbyDevice| d.device_id == Some(device_id),
            |d: DeviceModel| d.device_id == Some(device_id),
        );
    }
    lists::position(devices, test, Ghost(|d: NearbyDevice| d.device_id == Some(device_id)))
}

fn find_bluetooth(devices: &Vec<NearbyDevice>, endpoint: &str) -> (r: Option<usize>)
    ensures
        match r {
            Some(i) => i < devices@.len() && bluetooth_at(device_models(devices@), endpoint@)
                == Some(i as int),
            None => bluetooth_at(device_models(devices@), endpoint@) is None,
        },
{
    let test = |d: &NearbyDevice| -> (b: bool)
        ensures
            b == (text_model(d.bluetooth_endpoint) == Some(endpoint@)),
        { same_text(&d.bluetooth_endpoint, endpoint) };
    proof {
        lists::lemma_first_of_images(
            devices@,
            |d: NearbyDevice| d@,
            |d: NearbyDevice| text_model(d.bluetooth_endpoint) == Some(endpoint@),
            |d: DeviceModel| d.bluetooth_endpoint == Some(endpoint@),
        );
    }
    lists::position(
        devices,
        test,
        Ghost(|d: NearbyDevice| text_model(d.bluetooth_endpoint) == Some(endpoint@)),
    )
}

fn sort_by_name(devices: &mut Vec<NearbyDevice>)
    ensures
        device_models(final(devices)@) == lists::stable_sorted(
            device_models(old(devices)@),
            by_name(),
        ),
{
    proof {
        lists::lemma_sorted_images(
            devices@,
            |d: NearbyDevice| d@,
            lists::rank_order::<NearbyDevice>(),
            by_name(),
        );
    }
    lists::sort(devices);
}

fn clear_bluetooth(devices: &mut Vec<NearbyDevice>)
    ensures
        device_models(final(devices)@) == device_models(old(devices)@).map_values(
            |d: DeviceModel| bluetooth_cleared(d),
        ),
{
    let ghost before = device_models(devices@);
    let ghost cleared = before.map_values(|d: DeviceModel| bluetooth_cleared(d));
    let mut i: usize = 0;
    while i < devices.len()
        invariant
            i <= devices@.len(),
            devices@.len() == before.len(),
            cleared == before.map_values(|d: DeviceModel| bluetooth_cleared(d)),
            forall|j: int| 0 <= j < i ==> (#[trigger] devices@[j])@ == cleared[j],
            forall|j: int| i <= j < devices@.len() ==> (#[trigger] devices@[j])@ == before[j],
        decreases devices@.len() - i,
    {
        let device = &mut devices[i];
        device.bluetooth_endpoint = None;
        device.bluetooth_paired = false;
        device.nearweave_enabled = false;
        i = i + 1;
    }
    proof {
        assert(device_models(devices@) =~= cleared);
    }
}

fn clear_expired(
    devices: &mut Vec<NearbyDevice>,
    seen: &Table<Uuid, Instant>,
    ttl: Duration,
    now: Instant,
)
    requires
        seen.wf(),
    ensures
        device_models(final(devices)@) == device_models(old(devices)@).map_values(
            |d: DeviceModel| expired_cleared(d, seen@, ttl, now),
        ),
{
    let ghost before = device_models(devices@);
    let ghost cleared = before.map_values(|d: DeviceModel| expired_cleared(d, seen@, ttl, now));
    let mut i: usize = 0;
    while i < devices.len()
        invariant
            i <= devices@.len(),
            seen.wf(),
            devices@.len() == before.len(),
            cleared == before.map_values(|d: DeviceModel| expired_cleared(d, seen@, ttl, now)),
            forall|j: int| 0 <= j < i ==> (#[trigger] devices@[j])@ == cleared[j],
            forall|j: int| i <= j < devices@.len() ==> (#[trigger] devices@[j])@ == before[j],
        decreases devices@.len() - i,
    {
        let expired = match devices[i].device_id {
            Some(device_id) => match seen.get(&device_id) {
                Some(then) => now.duration_since(*then).nanos > ttl.nanos,
                None => false,
            },
            None => false,
        };
        if expired {
            let device = &mut devices[i];
            device.lan_endpoint = None;
        }
        i = i + 1;
    }
    proof {
        assert(device_models(devices@) =~= cleared);
    }
}

fn merge_one(
    devices: &mut Vec<NearbyDevice>,
    incoming: NearbyDevice,
    state_trusts: bool,
    known: Option<usize>,
    device_id: Option<Uuid>,
)
    requires
        known matches Some(i) ==> i < old(devices)@.len() && device_id == (if old(
            devices,
        )@[i as int].device_id is Some {
            old(devices)@[i as int].device_id
        } else {
            incoming.device_id
        }),
    ensures
        device_models(final(devices)@) == match known {
            Some(i) => device_models(old(devices)@).update(
                i as int,
                DeviceModel {
                    id: match device_id {
                        Some(value) => ids::hyphenated(value.value),
                        None => incoming.id@,
                    },
                    device_id,
                    name: incoming.name@,
                    bluetooth_endpoint: text_model(incoming.bluetooth_endpoint),
                    lan_endpoint: endpoint_model(old(devices)@[i as int].lan_endpoint),
                    bluetooth_paired: incoming.bluetooth_paired,
                    nearweave_enabled: incoming.nearweave_enabled,
                    trusted: state_trusts,
                },
            ),
            None => device_models(old(devices)@).push(incoming@),
        },
{
    let ghost before = devices@;
    match known {
        Some(i) => {
            let existing = &mut devices[i];
            existing.name = incoming.name;
            existing.bluetooth_endpoint = incoming.bluetooth_endpoint;
            existing.bluetooth_paired = incoming.bluetooth_paired;
            existing.nearweave_enabled = incoming.nearweave_enabled;
            existing.device_id = device_id;
            existing.id = match device_id {
                Some(value) => value.to_string(),
                None => incoming.id,
            };
            existing.trusted = state_trusts;
            proof {
                assert(device_models(devices@) =~= device_models(before).update(
                    i as int,
                    devices@[i as int]@,
                ));
            }
        },
        None => {
            proof {
                assert(device_models(before.push(incoming)) =~= device_models(before).push(
                    incoming@,
                ));
            }
            devices.push(incoming);
        },
    }
}

impl AppState {
    /// The devices that were seen, as plain values.
    pub open spec fn seen(&self) -> Seq<DeviceModel> {
        device_models(self.devices@)
    }

    /// Notes what a scan by Bluetooth has found.
    pub fn replace_bluetooth_devices(&mut self, bluetooth_devices: Vec<NearbyDevice>)
        ensures
            *final(self) == (AppState { devices: final(self).devices, ..*old(self) }),
            final(self).seen() == after_scan(
                old(self).seen(),
                device_models(bluetooth_devices@),
                old(self).trusted(),
            ),
    {
        clear_bluetooth(&mut self.devices);
        let ghost cleared = self.devices@;
        let keep = |d: &NearbyDevice| -> (b: bool)
            ensures
                b == (d.lan_endpoint is Some),
            { d.lan_endpoint.is_some() };
        lists::retain(
            &mut self.devices,
            keep,
            Ghost(|d: NearbyDevice| d.lan_endpoint is Some),
        );
        proof {
            lists::lemma_filter_images(
                cleared,
                |d: NearbyDevice| d@,
                |d: NearbyDevice| d.lan_endpoint is Some,
                |d: DeviceModel| d.lan_endpoint is Some,
            );
        }
        let ghost base = self.seen();
        let ghost scanned = device_models(bluetooth_devices@);
        let mut rest = bluetooth_devices;
        let ghost mut taken: int = 0;
        proof {
            assert(base == lan_only(old(self).seen()));
            assert(scanned.take(0) =~= Seq::<DeviceModel>::empty());
            assert(scanned.skip(0) =~= scanned);
        }
        while rest.len() > 0
            invariant
                0 <= taken <= scanned.len(),
                device_models(rest@) == scanned.skip(taken),
                *self == (AppState { devices: self.devices, ..*old(self) }),
                self.seen() == merged_all(base, scanned.take(taken), old(self).trusted()),
            decreases rest@.len(),
        {
            let ghost waiting = rest@;
            let incoming = rest.remove(0);
            proof {
                assert(device_models(waiting).len() == waiting.len());
                assert(incoming@ == device_models(waiting)[0]);
                assert(scanned.skip(taken).len() == scanned.len() - taken);
                assert(device_models(waiting)[0] == scanned.skip(taken)[0]);
                assert(incoming@ == scanned[taken]);
                assert(device_models(rest@) =~= scanned.skip(taken).skip(1));
                assert(scanned.skip(taken).skip(1) =~= scanned.skip(taken + 1));
                assert(scanned.take(taken + 1).drop_last() =~= scanned.take(taken));
                assert(scanned.take(taken + 1).last() == incoming@);
            }
            let by_identity = match incoming.device_id {
                Some(device_id) => find_identity(&self.devices, device_id),
                None => None,
            };
            let known = if by_identity.is_some() {
                by_identity
            } else {
                match &incoming.bluetooth_endpoint {
                    Some(endpoint) => find_bluetooth(&self.devices, endpoint),
                    None => None,
                }
            };
            let device_id = match known {
                Some(i) => match self.devices[i].device_id {
                    Some(value) => Some(value),
                    None => incoming.device_id,
                },
                None => None,
            };
            let trusted = match device_id {
                Some(value) => self.is_device_trusted(value),
                None => false,
            };
            merge_one(&mut self.devices, incoming, trusted, known, device_id);
            proof {
                taken = taken + 1;
            }
        }
        proof {
            assert(scanned.take(taken) =~= scanned);
        }
        sort_by_name(&mut self.devices);
    }

    /// Notes that a device has announced itself in the local network.
    pub fn upsert_lan_device(
        &mut self,
        device_id: Uuid,
        name: String,
        endpoint: Endpoint,
        advertised_fingerprint: &str,
        now: Instant,
    )
        requires
            old(self).wf(),
        ensures
            final(self).wf(),
            *final(self) == (AppState {
                devices: final(self).devices,
                lan_last_seen: final(self).lan_last_seen,
                ..*old(self)
            }),
            final(self).lan_last_seen@ == old(self).lan_last_seen@.insert(device_id, now),
            final(self).seen() == after_announcement(
                old(self).seen(),
                device_id,
                name@,
                (endpoint.host@, endpoint.port),
                old(self).trusts_fingerprint(device_id, advertised_fingerprint@),
            ),
    {
        self.lan_last_seen.insert(device_id, now);
        let trusted = self.is_fingerprint_trusted(device_id, advertised_fingerprint);
        let ghost before = self.devices@;
        match find_identity(&self.devices, device_id) {
            Some(i) => {
                let device = &mut self.devices[i];
                device.name = name;
                device.lan_endpoint = Some(endpoint);
                device.trusted = trusted;
                proof {
                    assert(self.seen() =~= device_models(before).update(
                        i as int,
                        self.devices@[i as int]@,
                    ));
                }
            },
            None => {
                let device = NearbyDevice {
                    id: device_id.to_string(),
                    device_id: Some(device_id),
                    name,
                    bluetooth_endpoint: None,
                    lan_endpoint: Some(endpoint),
                    bluetooth_paired: false,
                    nearweave_enabled: false,
                    trusted,
                };
                proof {
                    assert(device_models(before.push(device)) =~= device_models(before).push(
                        device@,
                    ));
                }
                self.devices.push(device);
            },
        }
        sort_by_name(&mut self.devices);
    }

    /// A device with this identity and this fingerprint is trusted.
    pub open spec fn trusts_fingerprint(&self, device_id: Uuid, fingerprint: Seq<char>) -> bool {
        exists|i: int|
            0 <= i < self.trusted_devices@.len() && (#[trigger] self.trusted_devices@[i]).device_id
                == device_id && self.trusted_devices@[i].fingerprint@ == fingerprint
    }

    fn is_fingerprint_trusted(&self, device_id: Uuid, fingerprint: &str) -> (r: bool)
        ensures
            r == self.trusts_fingerprint(device_id, fingerprint@),
    {
        let mut i: usize = 0;
        while i < self.trusted_devices.len()
            invariant
                i <= self.trusted_devices@.len(),
                forall|j: int|
                    0 <= j < i ==> !((#[trigger] self.trusted_devices@[j]).device_id == device_id
                        && self.trusted_devices@[j].fingerprint@ == fingerprint@),
            decreases self.trusted_devices@.len() - i,
        {
            if self.trusted_devices[i].device_id == device_id && text::same(
                &self.trusted_devices[i].fingerprint,
                fingerprint,
            ) {
                return true;
            }
            i = i + 1;
        }
        false
    }

    fn any_expired(&self, ttl: Duration, now: Instant) -> (r: bool)
        requires
            self.wf(),
        ensures
            r == exists|d: Uuid| has_expired(self.lan_last_seen@, d, ttl, now),
    {
        let mut i: usize = 0;
        proof {
            self.lan_last_seen.lemma_order();
        }
        while i < self.lan_last_seen.len()
            invariant
                self.wf(),
                i <= self.lan_last_seen.order().len(),
                forall|j: int|
                    0 <= j < i ==> !has_expired(
                        self.lan_last_seen@,
                        #[trigger] self.lan_last_seen.order()[j],
                        ttl,
                        now,
                    ),
            decreases self.lan_last_seen.order().len() - i,
        {
            let device_id = self.lan_last_seen.key_at(i);
            if now.duration_since(*self.lan_last_seen.value_at(i)).nanos > ttl.nanos {
                assert(has_expired(self.lan_last_seen@, device_id, ttl, now));
                return true;
            }
            i = i + 1;
        }
        proof {
            self.lan_last_seen.lemma_order();
            assert forall|d: Uuid| !has_expired(self.lan_last_seen@, d, ttl, now) by {
                if self.lan_last_seen@.dom().contains(d) {
                    let j = self.lan_last_seen.order().index_of(d);
                    assert(self.lan_last_seen.order()[j] == d);
                }
            }
        }
        false
    }

    /// Forgets the addresses of devices that were last heard of too long ago, and says whether
    /// there were any.
    pub fn expire_lan_devices(&mut self, ttl: Duration, now: Instant) -> (r: bool)
        requires
            old(self).wf(),
        ensures
            final(self).wf(),
            r == exists|d: Uuid| has_expired(old(self).lan_last_seen@, d, ttl, now),
            !r ==> none_has_expired(old(self).lan_last_seen@, ttl, now),
            !r ==> *final(self) == *old(self),
            r ==> {
                &&& *final(self) == (AppState {
                    devices: final(self).devices,
                    lan_last_seen: final(self).lan_last_seen,
                    ..*old(self)
                })
                &&& final(self).lan_last_seen@ == old(self).lan_last_seen@.restrict(
                    Set::new(
                        |d: Uuid|
                            old(self).lan_last_seen@.dom().contains(d) && !has_expired(
                                old(self).lan_last_seen@,
                                d,
                                ttl,
                                now,
                            ),
                    ),
                )
                &&& final(self).seen() == after_expiry(
                    old(self).seen(),
                    old(self).lan_last_seen@,
                    ttl,
                    now,
                )
            },
    {
        if !self.any_expired(ttl, now) {
            return false;
        }
        clear_expired(&mut self.devices, &self.lan_last_seen, ttl, now);
        let ghost cleared = self.devices@;
        let keep = |d: &NearbyDevice| -> (b: bool)
            ensures
                b == (d.lan_endpoint is Some || d.bluetooth_paired),
            { d.lan_endpoint.is_some() || d.bluetooth_paired };
        lists::retain(
            &mut self.devices,
            keep,
            Ghost(|d: NearbyDevice| d.lan_endpoint is Some || d.bluetooth_paired),
        );
        proof {
            lists::lemma_filter_images(
                cleared,
                |d: NearbyDevice| d@,
                |d: NearbyDevice| d.lan_endpoint is Some || d.bluetooth_paired,
                |d: DeviceModel| d.lan_endpoint is Some || d.bluetooth_paired,
            );
        }
        let fresh = |_d: &Uuid, then: &Instant| -> (b: bool)
            ensures
                b == (now.since(*then) <= ttl.nanos),
            { now.duration_since(*then).nanos <= ttl.nanos };
        self.lan_last_seen.retain(
            fresh,
            Ghost(|_d: Uuid, then: Instant| now.since(then) <= ttl.nanos),
        );
        proof {
            assert(self.lan_last_seen@ =~= old(self).lan_last_seen@.restrict(
                Set::new(
                    |d: Uuid|
                        old(self).lan_last_seen@.dom().contains(d) && !has_expired(
                            old(self).lan_last_seen@,
                            d,
                            ttl,
                            now,
                        ),
                ),
            ));
        }
        true
    }

    /// The device goes by this identifier.
    pub open spec fn goes_by(d: NearbyDevice, id: Seq<char>) -> bool {
        ||| d.id@ == id
        ||| d.device_id is Some && ids::hyphenated(d.device_id->0.value) == id
    }

    /// The first device that goes by this identifier.
    pub fn find_device(&self, id: &str) -> (r: Option<NearbyDevice>)
        ensures
            match lists::first_where(
                self.devices@,
                |d: NearbyDevice| AppState::goes_by(d, id@),
            ) {
                Some(i) => r == Some(self.devices@[i]),
                None => r is None,
            },
    {
        let test = |d: &NearbyDevice| -> (b: bool)
            ensures
                b == AppState::goes_by(*d, id@),
            {
                text::same(&d.id, id) || match d.device_id {
                    Some(value) => text::same(&value.to_string(), id),
                    None => false,
                }
            };
        match lists::position(
            &self.devices,
            test,
            Ghost(|d: NearbyDevice| AppState::goes_by(d, id@)),
        ) {
            Some(i) => Some(self.devices[i].clone()),
            None => None,
        }
    }

    /// Notes who the device at a Bluetooth address is.
    pub fn associate_bluetooth_identity(
        &mut self,
        bluetooth_endpoint: &str,
        device_id: Uuid,
        name: &str,
    )
        ensures
            *final(self) == (AppState { devices: final(self).devices, ..*old(self) }),
            final(self).seen() == after_identification(
                old(self).seen(),
                bluetooth_endpoint@,
                device_id,
                name@,
                trust::is_trusted(old(self).trusted(), device_id),
            ),
    {
        let trusted = self.is_device_trusted(device_id);
        match find_bluetooth(&self.devices, bluetooth_endpoint) {
            None => {},
            Some(index) => {
                let ghost before = self.devices@;
                let bluetooth = self.devices.remove(index);
                let ghost others = self.devices@;
                proof {
                    assert(device_models(others) =~= device_models(before).remove(index as int));
                    assert(bluetooth@ == device_models(before)[index as int]);
                }
                match find_identity(&self.devices, device_id) {
                    Some(i) => {
                        let existing = &mut self.devices[i];
                        existing.bluetooth_endpoint = bluetooth.bluetooth_endpoint;
                        existing.bluetooth_paired = true;
                        existing.nearweave_enabled = bluetooth.nearweave_enabled;
                        proof {
                            assert(self.seen() =~= device_models(others).update(
                                i as int,
                                self.devices@[i as int]@,
                            ));
                        }
                    },
                    None => {
                        let device = NearbyDevice {
                            id: device_id.to_string(),
                            device_id: Some(device_id),
                            name: String::from_str(name),
                            bluetooth_endpoint: bluetooth.bluetooth_endpoint,
                            lan_endpoint: None,
                            bluetooth_paired: true,
                            nearweave_enabled: bluetooth.nearweave_enabled,
                            trusted,
                        };
                        proof {
                            assert(device_models(others.push(device)) =~= device_models(
                                others,
                            ).push(device@));
                        }
                        self.devices.push(device);
                    },
                }
            },
        }
    }

    /// Marks the first device with this identity as trusted or not.
    pub fn set_device_trusted(&mut self, device_id: Uuid, trusted: bool)
        ensures
            *final(self) == (AppState { devices: final(self).devices, ..*old(self) }),
            final(self).seen() == marked_trusted(old(self).seen(), device_id, trusted),
    {
        let ghost before = self.devices@;
        if let Some(i) = find_identity(&self.devices, device_id) {
            let device = &mut self.devices[i];
            device.trusted = trusted;
            proof {
                assert(self.seen() =~= device_models(before).update(
                    i as int,
                    self.devices@[i as int]@,
                ));
            }
        }
    }
}

/// The entry is one of this device.
pub open spec fn entry_of(device_id: Uuid) -> spec_fn(DeviceModel) -> bool {
    |d: DeviceModel| d.device_id == Some(device_id)
}

/// No device has two entries.
pub open spec fn one_entry_each(s: Seq<DeviceModel>) -> bool {
    forall|device_id: Uuid| lists::count(s, #[trigger] entry_of(device_id)) <= 1
}

proof fn lemma_device_at(s: Seq<DeviceModel>, device_id: Uuid)
    ensures
        device_at(s, device_id) is None ==> lists::count(s, entry_of(device_id)) == 0,
        device_at(s, device_id) matches Some(i) ==> 0 <= i < s.len() && s[i].device_id == Some(
            device_id,
        ),
{
    let p = |d: DeviceModel| d.device_id == Some(device_id);
    assert(p == entry_of(device_id));
    lists::lemma_first_from(s, p, 0);
    lists::lemma_count_none(s, p);
}

proof fn lemma_one_entry_pushed(s: Seq<DeviceModel>, d: DeviceModel)
    requires
        one_entry_each(s),
        d.device_id is Some ==> lists::count(s, entry_of(d.device_id->0)) == 0,
    ensures
        one_entry_each(s.push(d)),
{
    assert forall|id: Uuid| lists::count(s.push(d), #[trigger] entry_of(id)) <= 1 by {
        lists::lemma_count_push(s, d, entry_of(id));
        assert(lists::count(s, entry_of(id)) <= 1);
    }
}

proof fn lemma_one_entry_updated(s: Seq<DeviceModel>, i: int, d: DeviceModel)
    requires
        one_entry_each(s),
        0 <= i < s.len(),
        d.device_id != s[i].device_id && d.device_id is Some ==> lists::count(
            s,
            entry_of(d.device_id->0),
        ) == 0,
    ensures
        one_entry_each(s.update(i, d)),
{
    assert forall|id: Uuid| lists::count(s.update(i, d), #[trigger] entry_of(id)) <= 1 by {
        lists::lemma_count_update(s, i, d, entry_of(id));
        assert(lists::count(s, entry_of(id)) <= 1);
    }
}

proof fn lemma_one_entry_removed(s: Seq<DeviceModel>, i: int)
    requires
        one_entry_each(s),
        0 <= i < s.len(),
    ensures
        one_entry_each(s.remove(i)),
{
    assert forall|id: Uuid| lists::count(s.remove(i), #[trigger] entry_of(id)) <= 1 by {
        lists::lemma_count_remove(s, i, entry_of(id));
        assert(lists::count(s, entry_of(id)) <= 1);
    }
}

proof fn lemma_one_entry_sorted(s: Seq<DeviceModel>)
    requires
        one_entry_each(s),
    ensures
        one_entry_each(lists::stable_sorted(s, by_name())),
{
    assert forall|id: Uuid|
        lists::count(lists::stable_sorted(s, by_name()), #[trigger] entry_of(id)) <= 1 by {
        lists::lemma_count_sorted(s, by_name(), entry_of(id));
        assert(lists::count(s, entry_of(id)) <= 1);
    }
}

proof fn lemma_one_entry_merged(
    s: Seq<DeviceModel>,
    incoming: Seq<DeviceModel>,
    trusted: Seq<TrustedModel>,
)
    requires
        one_entry_each(s),
    ensures
        one_entry_each(merged_all(s, incoming, trusted)),
    decreases incoming.len(),
{
    if incoming.len() > 0 {
        let front = merged_all(s, incoming.drop_last(), trusted);
        let d = incoming.last();
        lemma_one_entry_merged(s, incoming.drop_last(), trusted);
        if d.device_id is Some {
            lemma_device_at(front, d.device_id->0);
        }
        match merge_at(front, d) {
            Some(i) => {
                if d.bluetooth_endpoint is Some {
                    lists::lemma_first_from(
                        front,
                        |m: DeviceModel| m.bluetooth_endpoint == Some(d.bluetooth_endpoint->0),
                        0,
                    );
                }
                assert(0 <= i < front.len());
                lemma_one_entry_updated(front, i, merged_device(front[i], d, trusted));
            },
            None => lemma_one_entry_pushed(front, d),
        }
    }
}

/// A scan by Bluetooth, whatever it finds, leaves one entry for each device.
pub proof fn law_scan_merges_devices(
    s: Seq<DeviceModel>,
    incoming: Seq<DeviceModel>,
    trusted: Seq<TrustedModel>,
)
    requires
        one_entry_each(s),
    ensures
        one_entry_each(after_scan(s, incoming, trusted)),
{
    let cleared = s.map_values(|d: DeviceModel| bluetooth_cleared(d));
    let kept = lan_only(s);
    assert forall|id: Uuid| lists::count(kept, #[trigger] entry_of(id)) <= 1 by {
        lists::lemma_count_images(
            s,
            |d: DeviceModel| bluetooth_cleared(d),
            entry_of(id),
            entry_of(id),
        );
        lists::lemma_count_filter(
            cleared,
            |d: DeviceModel| d.lan_endpoint is Some,
            entry_of(id),
        );
        assert(lists::count(s, entry_of(id)) <= 1);
    }
    lemma_one_entry_merged(kept, incoming, trusted);
    lemma_one_entry_sorted(merged_all(kept, incoming, trusted));
}

/// An announcement leaves one entry for each device: what is known of a device by Bluetooth and in
/// the local network stands together.
pub proof fn law_announcement_merges_devices(
    s: Seq<DeviceModel>,
    device_id: Uuid,
    name: Seq<char>,
    endpoint: (Seq<char>, u16),
    trusted: bool,
)
    requires
        one_entry_each(s),
    ensures
        one_entry_each(after_announcement(s, device_id, name, endpoint, trusted)),
        lists::count(
            after_announcement(s, device_id, name, endpoint, trusted),
            entry_of(device_id),
        ) == 1,
{
    lemma_device_at(s, device_id);
    let all = match device_at(s, device_id) {
        Some(i) => s.update(
            i,
            DeviceModel { name, lan_endpoint: Some(endpoint), trusted, ..s[i] },
        ),
        None => s.push(
            DeviceModel {
                id: ids::hyphenated(device_id.value),
                device_id: Some(device_id),
                name,
                bluetooth_endpoint: None,
                lan_endpoint: Some(endpoint),
                bluetooth_paired: false,
                nearweave_enabled: false,
                trusted,
            },
        ),
    };
    match device_at(s, device_id) {
        Some(i) => {
            lemma_one_entry_updated(s, i, all[i]);
            lists::lemma_count_update(s, i, all[i], entry_of(device_id));
            lists::lemma_count_none(s, entry_of(device_id));
            assert(entry_of(device_id)(s[i]));
        },
        None => {
            lemma_one_entry_pushed(s, all.last());
            lists::lemma_count_push(s, all.last(), entry_of(device_id));
        },
    }
    assert(lists::count(s, entry_of(device_id)) <= 1);
    lemma_one_entry_sorted(all);
    lists::lemma_count_sorted(all, by_name(), entry_of(device_id));
}

/// A device that says over Bluetooth who it is has one entry from then on, as all others have.
pub proof fn law_identification_merges_devices(
    s: Seq<DeviceModel>,
    endpoint: Seq<char>,
    device_id: Uuid,
    name: Seq<char>,
    trusted: bool,
)
    requires
        one_entry_each(s),
    ensures
        one_entry_each(after_identification(s, endpoint, device_id, name, trusted)),
{
    match bluetooth_at(s, endpoint) {
        None => {},
        Some(i) => {
            lists::lemma_first_from(
                s,
                |d: DeviceModel| d.bluetooth_endpoint == Some(endpoint),
                0,
            );
            let others = s.remove(i);
            lemma_one_entry_removed(s, i);
            lemma_device_at(others, device_id);
            let all = after_identification(s, endpoint, device_id, name, trusted);
            match device_at(others, device_id) {
                Some(k) => lemma_one_entry_updated(others, k, all[k]),
                None => lemma_one_entry_pushed(others, all.last()),
            }
        },
    }
}

/// When addresses expire, each device that is left has one entry.
pub proof fn law_expiry_keeps_devices_apart(
    s: Seq<DeviceModel>,
    seen: Map<Uuid, Instant>,
    ttl: Duration,
    now: Instant,
)
    requires
        one_entry_each(s),
    ensures
        one_entry_each(after_expiry(s, seen, ttl, now)),
{
    let f = |d: DeviceModel| expired_cleared(d, seen, ttl, now);
    assert forall|id: Uuid|
        lists::count(after_expiry(s, seen, ttl, now), #[trigger] entry_of(id)) <= 1 by {
        lists::lemma_count_images(s, f, entry_of(id), entry_of(id));
        lists::lemma_count_filter(
            s.map_values(f),
            |d: DeviceModel| d.lan_endpoint is Some || d.bluetooth_paired,
            entry_of(id),
        );
        assert(lists::count(s, entry_of(id)) <= 1);
    }
}

proof fn lemma_by_name()
    ensures
        lists::is_ranking(by_name()),
{
    let lt = by_name();
    assert forall|a: DeviceModel, b: DeviceModel| #[trigger] lt(a, b) implies !lt(b, a) by {
        if text::before(b.name, a.name) {
            text::lemma_before_transitive(a.name, b.name, a.name);
            text::lemma_before_irreflexive(a.name);
        }
    }
    assert forall|a: DeviceModel, b: DeviceModel, c: DeviceModel|
        #![trigger lt(a, b), lt(b, c)]
        !lt(a, b) && !lt(b, c) implies !lt(a, c) by {
        text::lemma_before_total(a.name, b.name);
        text::lemma_before_total(b.name, c.name);
        if text::before(a.name, c.name) && a.name != b.name && text::before(b.name, a.name) {
            text::lemma_before_transitive(b.name, a.name, c.name);
        }
    }
}

/// The names of the devices in the list ascend.
pub open spec fn names_ascend(s: Seq<DeviceModel>) -> bool {
    forall|i: int, j: int|
        #![trigger s[i], s[j]]
        0 <= i < j < s.len() ==> s[i].name == s[j].name || text::before(s[i].name, s[j].name)
}

proof fn lemma_names_ascend(s: Seq<DeviceModel>)
    ensures
        names_ascend(lists::stable_sorted(s, by_name())),
{
    lemma_by_name();
    lists::lemma_stable_sorted(s, by_name());
    let r = lists::stable_sorted(s, by_name());
    let lt = by_name();
    assert forall|i: int, j: int|
        #![trigger r[i], r[j]]
        0 <= i < j < r.len() implies r[i].name == r[j].name || text::before(
        r[i].name,
        r[j].name,
    ) by {
        assert(!lt(r[j], r[i]));
        text::lemma_before_total(r[i].name, r[j].name);
    }
}

/// A device that announces itself in the local network is in the list from then on, with the name
/// and the address that it has announced, as trusted if and only if the fingerprint is that of a
/// trusted device; what is known of other devices stays, and the list is in the order of the names.
pub proof fn law_announced_device_is_listed(
    app: &mut AppState,
    device_id: Uuid,
    name: String,
    endpoint: Endpoint,
    fingerprint: &str,
    now: Instant,
    other: DeviceModel,
)
    requires
        call_ensures(
            AppState::upsert_lan_device,
            (app, device_id, name, endpoint, fingerprint, now),
            (),
        ),
        other.device_id != Some(device_id),
    ensures
        exists|d: DeviceModel| #[trigger]
            final(app).seen().contains(d) && d.device_id == Some(device_id) && d.name == name@
                && d.lan_endpoint == Some((endpoint.host@, endpoint.port)) && (d.trusted
                <==> exists|i: int|
                0 <= i < old(app).trusted_devices@.len() && (
                #[trigger] old(app).trusted_devices@[i]).device_id == device_id
                    && old(app).trusted_devices@[i].fingerprint@ == fingerprint@),
        old(app).seen().contains(other) <==> final(app).seen().contains(other),
        names_ascend(final(app).seen()),
        final(app).lan_last_seen@.dom().contains(device_id),
        final(app).lan_last_seen@[device_id] == now,
{
    let s = old(app).seen();
    let trusted = old(app).trusts_fingerprint(device_id, fingerprint@);
    let address = (endpoint.host@, endpoint.port);
    let known = DeviceModel {
        id: ids::hyphenated(device_id.value),
        device_id: Some(device_id),
        name: name@,
        bluetooth_endpoint: None,
        lan_endpoint: Some(address),
        bluetooth_paired: false,
        nearweave_enabled: false,
        trusted,
    };
    lists::lemma_first_from(s, |d: DeviceModel| d.device_id == Some(device_id), 0);
    let all = match device_at(s, device_id) {
        Some(i) => s.update(
            i,
            DeviceModel { name: name@, lan_endpoint: Some(address), trusted, ..s[i] },
        ),
        None => s.push(known),
    };
    lemma_names_ascend(all);
    lemma_by_name();
    let d = match device_at(s, device_id) {
        Some(i) => all[i],
        None => all[s.len() as int],
    };
    assert(all.contains(d));
    lists::lemma_sorted_members(all, by_name(), d);
    assert(final(app).seen().contains(d));
    lists::lemma_sorted_members(all, by_name(), other);
    if s.contains(other) {
        let k = s.index_of(other);
        assert(all[k] == other);
    }
    if all.contains(other) {
        let k = all.index_of(other);
        assert(k < s.len() && s[k] == other);
    }
}

/// A device that has not announced itself for longer than the given time has no address in the local
/// network any more, and is dropped unless it is paired over Bluetooth; others stay as they are.
pub proof fn law_silent_device_expires(
    app: &mut AppState,
    ttl: Duration,
    now: Instant,
    d: DeviceModel,
    r: bool,
)
    requires
        call_ensures(AppState::expire_lan_devices, (app, ttl, now), r),
        r,
        old(app).seen().contains(d),
    ensures
        ({
            let silent = d.device_id is Some && old(app).lan_last_seen@.dom().contains(
                d.device_id->0,
            ) && now.nanos - old(app).lan_last_seen@[d.device_id->0].nanos > ttl.nanos;
            &&& silent && d.bluetooth_paired ==> final(app).seen().contains(
                DeviceModel { lan_endpoint: None, ..d },
            )
            &&& !silent && (d.lan_endpoint is Some || d.bluetooth_paired)
                ==> final(app).seen().contains(d)
            &&& silent ==> !final(app).lan_last_seen@.dom().contains(d.device_id->0)
        }),
        forall|e: DeviceModel| #[trigger]
            final(app).seen().contains(e) ==> !(e.lan_endpoint is Some && e.device_id is Some
                && old(app).lan_last_seen@.dom().contains(e.device_id->0)
                && now.nanos - old(app).lan_last_seen@[e.device_id->0].nanos > ttl.nanos),
{
    let s = old(app).seen();
    let seen = old(app).lan_last_seen@;
    let f = |d: DeviceModel| expired_cleared(d, seen, ttl, now);
    let p = |d: DeviceModel| d.lan_endpoint is Some || d.bluetooth_paired;
    let images = s.map_values(f);
    let k = s.index_of(d);
    assert(images[k] == f(d));
    assert(images.contains(f(d)));
    lists::lemma_filter_members(images, p, f(d));
    assert forall|e: DeviceModel| #[trigger]
        final(app).seen().contains(e) implies !(e.lan_endpoint is Some && e.device_id is Some
        && has_expired(seen, e.device_id->0, ttl, now)) by {
        lists::lemma_filter_members(images, p, e);
        let i = images.index_of(e);
        assert(images[i] == f(s[i]));
    }
}

/// To look for silent devices finds some exactly where there are any.
pub proof fn law_expiry_is_noticed(
    app: &mut AppState,
    ttl: Duration,
    now: Instant,
    device_id: Uuid,
    r: bool,
)
    requires
        call_ensures(AppState::expire_lan_devices, (app, ttl, now), r),
    ensures
        old(app).lan_last_seen@.dom().contains(device_id)
            && now.nanos - old(app).lan_last_seen@[device_id].nanos > ttl.nanos ==> r,
        !r ==> *final(app) == *old(app),
{
    if !r {
        assert(!has_expired(old(app).lan_last_seen@, device_id, ttl, now));
    }
}

/// A device is found by its identifier.
pub proof fn law_found_device_goes_by_its_identifier(
    app: AppState,
    id: &str,
    r: Option<NearbyDevice>,
)
    requires
        call_ensures(AppState::find_device, (&app, id), r),
    ensures
        r matches Some(d) ==> app.devices@.contains(d) && (d.id@ == id@ || d.device_id is Some
            && ids::hyphenated(d.device_id->0.value) == id@),
        r is None ==> forall|i: int|
            0 <= i < app.devices@.len() ==> (#[trigger] app.devices@[i]).id@ != id@ && (
            app.devices@[i].device_id is Some ==> ids::hyphenated(app.devices@[i].device_id->0.value)
                != id@),
{
    lists::lemma_first_from(app.devices@, |d: NearbyDevice| AppState::goes_by(d, id@), 0);
}

/// Trust in a device is shown where the device is listed, and nothing else changes.
pub proof fn law_trust_is_shown(app: &mut AppState, device_id: Uuid, trusted: bool, d: DeviceModel)
    requires
        one_entry_each(old(app).seen()),
        call_ensures(AppState::set_device_trusted, (app, device_id, trusted), ()),
        old(app).seen().contains(d),
    ensures
        d.device_id == Some(device_id) ==> final(app).seen().contains(DeviceModel { trusted, ..d }),
        d.device_id != Some(device_id) ==> final(app).seen().contains(d),
        final(app).seen().len() == old(app).seen().len(),
{
    let s = old(app).seen();
    lists::lemma_first_from(s, |d: DeviceModel| d.device_id == Some(device_id), 0);
    let k = s.index_of(d);
    assert(s[k] == d);
    if d.device_id == Some(device_id) {
        let i = device_at(s, device_id)->0;
        lemma_same_entry(s, i, k, device_id);
        assert(final(app).seen()[i] == (DeviceModel { trusted, ..d }));
    } else {
        assert(final(app).seen()[k] == d);
    }
}

proof fn lemma_same_entry(s: Seq<DeviceModel>, i: int, k: int, device_id: Uuid)
    requires
        one_entry_each(s),
        0 <= i < s.len(),
        0 <= k < s.len(),
        s[i].device_id == Some(device_id),
        s[k].device_id == Some(device_id),
    ensures
        i == k,
{
    if i != k {
        let p = entry_of(device_id);
        lists::lemma_count_remove(s, i, p);
        let rest = s.remove(i);
        let j = if k < i {
            k
        } else {
            k - 1
        };
        assert(rest[j] == s[k]);
        lists::lemma_count_remove(rest, j, p);
        assert(lists::count(s, p) <= 1);
    }
}

/// A device that is known in the local network and turns out to be one that was seen over Bluetooth
/// is one device from then on, with both addresses.
pub proof fn law_identified_device_has_both_addresses(
    app: &mut AppState,
    endpoint: &str,
    device_id: Uuid,
    name: &str,
    seen: DeviceModel,
    known: DeviceModel,
)
    requires
        one_entry_each(old(app).seen()),
        call_ensures(AppState::associate_bluetooth_identity, (app, endpoint, device_id, name), ()),
        bluetooth_at(old(app).seen(), endpoint@) is Some,
        seen == old(app).seen()[bluetooth_at(old(app).seen(), endpoint@)->0],
        seen.device_id is None,
        old(app).seen().contains(known),
        known.device_id == Some(device_id),
    ensures
        final(app).seen().contains(
            DeviceModel {
                bluetooth_endpoint: Some(endpoint@),
                bluetooth_paired: true,
                nearweave_enabled: seen.nearweave_enabled,
                ..known
            },
        ),
        final(app).seen().len() == old(app).seen().len() - 1,
{
    let s = old(app).seen();
    lists::lemma_first_from(s, |d: DeviceModel| d.bluetooth_endpoint == Some(endpoint@), 0);
    let i = bluetooth_at(s, endpoint@)->0;
    let others = s.remove(i);
    let k = s.index_of(known);
    let j = if k < i {
        k
    } else {
        k - 1
    };
    assert(others[j] == known);
    lists::lemma_first_from(others, |d: DeviceModel| d.device_id == Some(device_id), 0);
    let m = device_at(others, device_id)->0;
    lemma_one_entry_removed(s, i);
    lemma_same_entry(others, m, j, device_id);
    assert(final(app).seen()[m].bluetooth_paired);
}

/// A device that was seen over Bluetooth without an identity, and of which nothing else is known, is
/// listed under its identity once it has presented itself.
pub proof fn law_identified_device_is_listed(
    app: &mut AppState,
    endpoint: &str,
    device_id: Uuid,
    name: &str,
    known: bool,
)
    requires
        call_ensures(AppState::associate_bluetooth_identity, (app, endpoint, device_id, name), ()),
        call_ensures(AppState::is_device_trusted, (old(app), device_id), known),
        exists|d: DeviceModel| #[trigger]
            old(app).seen().contains(d) && d.bluetooth_endpoint == Some(endpoint@),
        forall|d: DeviceModel| #[trigger]
            old(app).seen().contains(d) ==> d.device_id != Some(device_id),
    ensures
        exists|d: DeviceModel| #[trigger]
            final(app).seen().contains(d) && d.device_id == Some(device_id) && d.name == name@
                && d.bluetooth_endpoint == Some(endpoint@) && d.bluetooth_paired && d.trusted
                == known,
        final(app).seen().len() == old(app).seen().len(),
{
    let s = old(app).seen();
    lists::lemma_first_from(s, |d: DeviceModel| d.bluetooth_endpoint == Some(endpoint@), 0);
    let d = choose|d: DeviceModel| #[trigger]
        s.contains(d) && d.bluetooth_endpoint == Some(endpoint@);
    let at = s.index_of(d);
    assert(s[at].bluetooth_endpoint == Some(endpoint@));
    let i = bluetooth_at(s, endpoint@)->0;
    let others = s.remove(i);
    lists::lemma_first_from(others, |d: DeviceModel| d.device_id == Some(device_id), 0);
    if device_at(others, device_id) is Some {
        let m = device_at(others, device_id)->0;
        let k = if m < i {
            m
        } else {
            m + 1
        };
        assert(others[m] == s[k]);
        assert(s.contains(s[k]));
    }
    let last = final(app).seen()[others.len() as int];
    assert(final(app).seen().contains(last));
}

/// What a scan keeps of a device of the local network: its identity and its address.
proof fn lemma_merged_keeps(
    s: Seq<DeviceModel>,
    incoming: Seq<DeviceModel>,
    trusted: Seq<TrustedModel>,
)
    ensures
        merged_all(s, incoming, trusted).len() >= s.len(),
        forall|i: int|
            #![trigger merged_all(s, incoming, trusted)[i]]
            0 <= i < s.len() ==> merged_all(s, incoming, trusted)[i].lan_endpoint
                == s[i].lan_endpoint && (s[i].device_id is Some ==> merged_all(
                s,
                incoming,
                trusted,
            )[i].device_id == s[i].device_id),
    decreases incoming.len(),
{
    if incoming.len() > 0 {
        lemma_merged_keeps(s, incoming.drop_last(), trusted);
        let before = merged_all(s, incoming.drop_last(), trusted);
        let d = incoming.last();
        lemma_merge_at(before, d);
        let after = merged_all(s, incoming, trusted);
        assert forall|i: int|
            #![trigger after[i]]
            0 <= i < s.len() implies after[i].lan_endpoint == s[i].lan_endpoint && (
        s[i].device_id is Some ==> after[i].device_id == s[i].device_id) by {
            assert(before[i].lan_endpoint == s[i].lan_endpoint);
        }
    }
}

proof fn lemma_merge_at(s: Seq<DeviceModel>, d: DeviceModel)
    ensures
        merge_at(s, d) matches Some(i) ==> 0 <= i < s.len() && (d.device_id is Some
            && s[i].device_id == d.device_id || d.bluetooth_endpoint is Some
            && s[i].bluetooth_endpoint == d.bluetooth_endpoint),
        merge_at(s, d) is None && d.device_id is Some ==> forall|j: int|
            0 <= j < s.len() ==> (#[trigger] s[j]).device_id != d.device_id,
        d.device_id is Some && (exists|j: int|
            0 <= j < s.len() && (#[trigger] s[j]).device_id == d.device_id) ==> merge_at(
            s,
            d,
        ) is Some && s[merge_at(s, d)->0].device_id == d.device_id,
{
    if let Some(device_id) = d.device_id {
        lists::lemma_first_from(s, |x: DeviceModel| x.device_id == Some(device_id), 0);
    }
    if let Some(endpoint) = d.bluetooth_endpoint {
        lists::lemma_first_from(s, |x: DeviceModel| x.bluetooth_endpoint == Some(endpoint), 0);
    }
}

/// Each device of the scan is found at its place, under its name and its Bluetooth address.
spec fn shows_scanned(all: Seq<DeviceModel>, d: DeviceModel) -> bool {
    exists|j: int|
        0 <= j < all.len() && {
            let e = #[trigger] all[j];
            &&& e.bluetooth_endpoint == d.bluetooth_endpoint
            &&& e.name == d.name
            &&& e.bluetooth_paired == d.bluetooth_paired
            &&& e.nearweave_enabled == d.nearweave_enabled
            &&& e.device_id == d.device_id
        }
}

/// The devices of a scan each have a Bluetooth address of their own and, where it is known, an
/// identity of their own.
pub open spec fn are_apart(incoming: Seq<DeviceModel>) -> bool {
    &&& forall|i: int|
        0 <= i < incoming.len() ==> (#[trigger] incoming[i]).bluetooth_endpoint is Some
    &&& forall|i: int, j: int|
        #![trigger incoming[i], incoming[j]]
        0 <= i < j < incoming.len() ==> incoming[i].bluetooth_endpoint
            != incoming[j].bluetooth_endpoint && (incoming[i].device_id is Some
            ==> incoming[i].device_id != incoming[j].device_id)
}

proof fn lemma_merged_shows(
    s: Seq<DeviceModel>,
    incoming: Seq<DeviceModel>,
    trusted: Seq<TrustedModel>,
)
    requires
        are_apart(incoming),
        forall|i: int| 0 <= i < s.len() ==> (#[trigger] s[i]).bluetooth_endpoint is None,
    ensures
        forall|k: int|
            0 <= k < incoming.len() ==> shows_scanned(
                merged_all(s, incoming, trusted),
                #[trigger] incoming[k],
            ),
        forall|j: int|
            0 <= j < merged_all(s, incoming, trusted).len() ==> (
            #[trigger] merged_all(s, incoming, trusted)[j]).bluetooth_endpoint is None || exists|
                k: int,
            |
                0 <= k < incoming.len() && (#[trigger] incoming[k]).bluetooth_endpoint
                    == merged_all(s, incoming, trusted)[j].bluetooth_endpoint
                    && incoming[k].device_id == merged_all(s, incoming, trusted)[j].device_id,
    decreases incoming.len(),
{
    if incoming.len() > 0 {
        let front = incoming.drop_last();
        let d = incoming.last();
        assert forall|i: int, j: int|
            #![trigger front[i], front[j]]
            0 <= i < j < front.len() implies front[i].bluetooth_endpoint
            != front[j].bluetooth_endpoint && (front[i].device_id is Some ==> front[i].device_id
            != front[j].device_id) by {
            assert(front[i] == incoming[i] && front[j] == incoming[j]);
        }
        assert forall|i: int| 0 <= i < front.len() implies (
        #[trigger] front[i]).bluetooth_endpoint is Some by {
            assert(front[i] == incoming[i]);
        }
        lemma_merged_shows(s, front, trusted);
        let before = merged_all(s, front, trusted);
        let after = merged_all(s, incoming, trusted);
        lemma_merge_at(before, d);
        let at = merge_at(before, d);
        assert(incoming[incoming.len() - 1] == d);
        if let Some(i) = at {
            if before[i].bluetooth_endpoint is Some {
                let k = choose|k: int|
                    0 <= k < front.len() && (#[trigger] front[k]).bluetooth_endpoint
                        == before[i].bluetooth_endpoint && front[k].device_id
                        == before[i].device_id;
                assert(front[k] == incoming[k]);
                assert(incoming[k].bluetooth_endpoint != d.bluetooth_endpoint);
            }
            assert(before[i].bluetooth_endpoint is None);
            assert(before[i].device_id == d.device_id);
            assert(after[i].bluetooth_endpoint == d.bluetooth_endpoint);
        } else {
            assert(after[before.len() as int] == d);
        }
        assert(shows_scanned(after, d));
        assert forall|k: int| 0 <= k < incoming.len() implies shows_scanned(
            after,
            #[trigger] incoming[k],
        ) by {
            if k < front.len() {
                assert(front[k] == incoming[k]);
                assert(shows_scanned(before, front[k]));
                let j = choose|j: int|
                    0 <= j < before.len() && {
                        let e = #[trigger] before[j];
                        &&& e.bluetooth_endpoint == front[k].bluetooth_endpoint
                        &&& e.name == front[k].name
                        &&& e.bluetooth_paired == front[k].bluetooth_paired
                        &&& e.nearweave_enabled == front[k].nearweave_enabled
                        &&& e.device_id == front[k].device_id
                    };
                assert(at is None || at->0 != j);
                assert(after[j] == before[j]);
            }
        }
        assert forall|j: int| 0 <= j < after.len() implies (
        #[trigger] after[j]).bluetooth_endpoint is None || exists|k: int|
            0 <= k < incoming.len() && (#[trigger] incoming[k]).bluetooth_endpoint
                == after[j].bluetooth_endpoint && incoming[k].device_id == after[j].device_id by {
            if at == Some(j) || at is None && j == before.len() {
                assert(incoming[incoming.len() - 1].bluetooth_endpoint
                    == after[j].bluetooth_endpoint);
            } else {
                assert(after[j] == before[j]);
                if before[j].bluetooth_endpoint is Some {
                    let k = choose|k: int|
                        0 <= k < front.len() && (#[trigger] front[k]).bluetooth_endpoint
                            == before[j].bluetooth_endpoint && front[k].device_id
                            == before[j].device_id;
                    assert(front[k] == incoming[k]);
                }
            }
        }
    }
}

/// After a scan, the list shows each device that was found, under its name and its Bluetooth
/// address, and no Bluetooth address that was not found; a device of the local network stays, with
/// its identity and its address there. The list is in the order of the names.
pub proof fn law_scanned_devices_are_listed(
    app: &mut AppState,
    found: Vec<NearbyDevice>,
    k: int,
    i: int,
)
    requires
        call_ensures(AppState::replace_bluetooth_devices, (app, found), ()),
        are_apart(device_models(found@)),
        0 <= k < found@.len(),
        0 <= i < old(app).devices@.len(),
    ensures
        exists|e: DeviceModel| #[trigger]
            final(app).seen().contains(e) && e.bluetooth_endpoint == found@[k]@.bluetooth_endpoint
                && e.name == found@[k].name@ && e.bluetooth_paired == found@[k].bluetooth_paired
                && e.nearweave_enabled == found@[k].nearweave_enabled && e.device_id
                == found@[k].device_id,
        forall|e: DeviceModel| #[trigger]
            final(app).seen().contains(e) ==> e.bluetooth_endpoint is None || exists|m: int|
                0 <= m < found@.len() && (#[trigger] found@[m])@.bluetooth_endpoint
                    == e.bluetooth_endpoint,
        old(app).devices@[i].lan_endpoint is Some && old(app).devices@[i].device_id is Some
            ==> exists|e: DeviceModel| #[trigger]
            final(app).seen().contains(e) && e.lan_endpoint == old(app).devices@[i]@.lan_endpoint
                && e.device_id == old(app).devices@[i].device_id,
        names_ascend(final(app).seen()),
{
    let s = old(app).seen();
    let incoming = device_models(found@);
    let trusted = old(app).trusted();
    let f = |d: DeviceModel| bluetooth_cleared(d);
    let p = |d: DeviceModel| d.lan_endpoint is Some;
    let images = s.map_values(f);
    let kept = lan_only(s);
    assert forall|j: int| 0 <= j < kept.len() implies (
    #[trigger] kept[j]).bluetooth_endpoint is None by {
        assert(kept.contains(kept[j]));
        lists::lemma_filter_members(images, p, kept[j]);
        let m = images.index_of(kept[j]);
        assert(images[m] == f(s[m]));
    }
    let all = merged_all(kept, incoming, trusted);
    lemma_merged_shows(kept, incoming, trusted);
    lemma_merged_keeps(kept, incoming, trusted);
    lemma_names_ascend(all);
    lemma_by_name();
    assert forall|e: DeviceModel| #[trigger] final(app).seen().contains(e) <==> all.contains(
        e,
    ) by {
        lists::lemma_sorted_members(all, by_name(), e);
    }
    assert(incoming[k] == found@[k]@);
    assert(shows_scanned(all, incoming[k]));
    let j = choose|j: int|
        0 <= j < all.len() && {
            let e = #[trigger] all[j];
            &&& e.bluetooth_endpoint == incoming[k].bluetooth_endpoint
            &&& e.name == incoming[k].name
            &&& e.bluetooth_paired == incoming[k].bluetooth_paired
            &&& e.nearweave_enabled == incoming[k].nearweave_enabled
            &&& e.device_id == incoming[k].device_id
        };
    assert(all.contains(all[j]));
    assert(final(app).seen().contains(all[j]));
    assert forall|e: DeviceModel| #[trigger]
        final(app).seen().contains(e) implies e.bluetooth_endpoint is None || exists|m: int|
        0 <= m < found@.len() && (#[trigger] found@[m])@.bluetooth_endpoint
            == e.bluetooth_endpoint by {
        let x = all.index_of(e);
        assert(all[x] == e);
        if e.bluetooth_endpoint is Some {
            let m = choose|m: int|
                0 <= m < incoming.len() && (#[trigger] incoming[m]).bluetooth_endpoint
                    == all[x].bluetooth_endpoint && incoming[m].device_id == all[x].device_id;
            assert(incoming[m] == found@[m]@);
        }
    }
    if old(app).devices@[i].lan_endpoint is Some && old(app).devices@[i].device_id is Some {
        assert(s[i] == old(app).devices@[i]@);
        assert(images[i] == f(s[i]));
        assert(images.contains(f(s[i])));
        lists::lemma_filter_members(images, p, f(s[i]));
        let m = kept.index_of(f(s[i]));
        assert(kept[m] == f(s[i]));
        assert(all[m].lan_endpoint == kept[m].lan_endpoint);
        assert(all.contains(all[m]));
        assert(final(app).seen().contains(all[m]));
    }
}

/// A device that has announced itself is listed.
pub proof fn lemma_announced(
    s: Seq<DeviceModel>,
    device_id: Uuid,
    name: Seq<char>,
    endpoint: (Seq<char>, u16),
    trusted: bool,
)
    ensures
        exists|d: DeviceModel| #[trigger]
            after_announcement(s, device_id, name, endpoint, trusted).contains(d) && d.device_id
                == Some(device_id) && d.name == name && d.lan_endpoint == Some(endpoint) && d.trusted
                == trusted,
{
    lists::lemma_first_from(s, |d: DeviceModel| d.device_id == Some(device_id), 0);
    let all = match device_at(s, device_id) {
        Some(i) => s.update(
            i,
            DeviceModel { name, lan_endpoint: Some(endpoint), trusted, ..s[i] },
        ),
        None => s.push(
            DeviceModel {
                id: ids::hyphenated(device_id.value),
                device_id: Some(device_id),
                name,
                bluetooth_endpoint: None,
                lan_endpoint: Some(endpoint),
                bluetooth_paired: false,
                nearweave_enabled: false,
                trusted,
            },
        ),
    };
    let d = match device_at(s, device_id) {
        Some(i) => all[i],
        None => all[s.len() as int],
    };
    assert(all.contains(d));
    lemma_by_name();
    lists::lemma_sorted_members(all, by_name(), d);
    assert(after_announcement(s, device_id, name, endpoint, trusted).contains(d));
}

/// An announcement in the local network leaves what is known of the device over Bluetooth.
pub proof fn law_announcement_keeps_bluetooth(
    app: &mut AppState,
    device_id: Uuid,
    name: String,
    endpoint: Endpoint,
    fingerprint: &str,
    now: Instant,
    known: DeviceModel,
)
    requires
        one_entry_each(old(app).seen()),
        call_ensures(
            AppState::upsert_lan_device,
            (app, device_id, name, endpoint, fingerprint, now),
            (),
        ),
        old(app).seen().contains(known),
        known.device_id == Some(device_id),
    ensures
        exists|d: DeviceModel| #[trigger]
            final(app).seen().contains(d) && d.device_id == Some(device_id) && d.bluetooth_endpoint
                == known.bluetooth_endpoint && d.bluetooth_paired == known.bluetooth_paired
                && d.nearweave_enabled == known.nearweave_enabled && d.name == name@
                && d.lan_endpoint == Some((endpoint.host@, endpoint.port)) && d.id == known.id,
        final(app).seen().len() == old(app).seen().len(),
{
    let s = old(app).seen();
    let trusted = old(app).trusts_fingerprint(device_id, fingerprint@);
    lists::lemma_first_from(s, |d: DeviceModel| d.device_id == Some(device_id), 0);
    let k = s.index_of(known);
    assert(s[k] == known);
    let i = device_at(s, device_id)->0;
    lemma_same_entry(s, i, k, device_id);
    let d = DeviceModel {
        name: name@,
        lan_endpoint: Some((endpoint.host@, endpoint.port)),
        trusted,
        ..known
    };
    let all = s.update(i, d);
    assert(all[i] == d);
    lemma_by_name();
    lists::lemma_sorted_members(all, by_name(), d);
    assert(final(app).seen().contains(d));
}

/// A trusted device that is known in the local network and is found over Bluetooth too is shown as
/// trusted, and one that is not trusted is not, whatever the scan says.
pub proof fn law_scan_shows_trust(
    app: &mut AppState,
    found: Vec<NearbyDevice>,
    device_id: Uuid,
    i: int,
    known: bool,
)
    requires
        call_ensures(AppState::replace_bluetooth_devices, (app, found), ()),
        found@.len() == 1,
        found@[0].device_id == Some(device_id),
        0 <= i < old(app).devices@.len(),
        old(app).devices@[i].device_id == Some(device_id),
        old(app).devices@[i].lan_endpoint is Some,
        call_ensures(AppState::is_device_trusted, (old(app), device_id), known),
    ensures
        exists|e: DeviceModel| #[trigger]
            final(app).seen().contains(e) && e.device_id == Some(device_id) && e.trusted == known
                && e.bluetooth_endpoint == found@[0]@.bluetooth_endpoint && e.lan_endpoint is Some,
{
    let s = old(app).seen();
    let incoming = device_models(found@);
    let trusted = old(app).trusted();
    let f = |d: DeviceModel| bluetooth_cleared(d);
    let p = |d: DeviceModel| d.lan_endpoint is Some;
    let images = s.map_values(f);
    let kept = lan_only(s);
    assert(s[i] == old(app).devices@[i]@);
    assert(images[i] == f(s[i]));
    assert(images.contains(f(s[i])));
    lists::lemma_filter_members(images, p, f(s[i]));
    let m = kept.index_of(f(s[i]));
    assert(kept[m] == f(s[i]));
    let d = incoming[0];
    assert(incoming.last() == d && d == found@[0]@);
    assert(incoming.drop_last() =~= Seq::<DeviceModel>::empty());
    reveal_with_fuel(merged_all, 2);
    let all = merged_all(kept, incoming, trusted);
    assert(all == merged_one(kept, d, trusted));
    lemma_merge_at(kept, d);
    assert(kept[m].device_id == d.device_id);
    let at = merge_at(kept, d)->0;
    let e = all[at];
    assert(all.contains(e));
    assert(kept.contains(kept[at]));
    lists::lemma_filter_members(images, p, kept[at]);
    lemma_by_name();
    lists::lemma_sorted_members(all, by_name(), e);
    assert(final(app).seen().contains(e));
}

} // verus!
