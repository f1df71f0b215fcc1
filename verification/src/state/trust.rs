//! The devices that are trusted.
use super::devices;
use super::{AppState, TrustMatch};
use crate::bytes;
use crate::digest;
use crate::identity;
use crate::identity::TrustedDevice;
use crate::ids::Uuid;
use crate::lists;
use vstd::prelude::*;

verus! {

/// A trusted device as plain values.
pub struct TrustedModel {
    pub device_id: Uuid,
    pub name: Seq<char>,
    pub public_key: Seq<u8>,
    pub fingerprint: Seq<char>,
    pub created_at: u64,
    pub last_seen_at: u64,
}

impl View for TrustedDevice {
    type V = TrustedModel;

    open spec fn view(&self) -> TrustedModel {
        TrustedModel {
            device_id: self.device_id,
            name: self.name@,
            public_key: self.public_key@,
            fingerprint: self.fingerprint@,
            created_at: self.created_at,
            last_seen_at: self.last_seen_at,
        }
    }
}

/// A list of trusted devices as plain values.
pub open spec fn trusted_models(s: Seq<TrustedDevice>) -> Seq<TrustedModel> {
    s.map_values(|t: TrustedDevice| t@)
}

/// The place of a device in the list.
pub open spec fn trusted_at(s: Seq<TrustedModel>, device_id: Uuid) -> Option<int> {
    lists::first_where(s, |t: TrustedModel| t.device_id == device_id)
}

/// The device is in the list.
pub open spec fn is_trusted(s: Seq<TrustedModel>, device_id: Uuid) -> bool {
    trusted_at(s, device_id) is Some
}

/// What the list says of a device that shows this key.
pub open spec fn trust_of(s: Seq<TrustedModel>, device_id: Uuid, public_key: Seq<u8>) -> TrustMatch {
    match trusted_at(s, device_id) {
        Some(i) => if s[i].public_key == public_key {
            TrustMatch::Trusted
        } else {
            TrustMatch::IdentityChanged
        },
        None => TrustMatch::Unknown,
    }
}

/// The list after a device has been paired.
pub open spec fn trusted_with(
    s: Seq<TrustedModel>,
    device_id: Uuid,
    name: Seq<char>,
    public_key: Seq<u8>,
    now: u64,
) -> Seq<TrustedModel> {
    match trusted_at(s, device_id) {
        Some(i) => s.update(
            i,
            TrustedModel {
                name,
                public_key,
                fingerprint: digest::digest_text(public_key),
                last_seen_at: now,
                ..s[i]
            },
        ),
        None => s.push(
            TrustedModel {
                device_id,
                name,
                public_key,
                fingerprint: digest::digest_text(public_key),
                created_at: now,
                last_seen_at: now,
            },
        ),
    }
}

/// The list after a device has been seen.
pub open spec fn trusted_touched(
    s: Seq<TrustedModel>,
    device_id: Uuid,
    name: Seq<char>,
    now: u64,
) -> Seq<TrustedModel> {
    match trusted_at(s, device_id) {
        Some(i) => s.update(i, TrustedModel { name, last_seen_at: now, ..s[i] }),
        None => s,
    }
}

/// The list after the trust in a device has been withdrawn.
pub open spec fn trusted_without(s: Seq<TrustedModel>, device_id: Uuid) -> Seq<TrustedModel> {
    match trusted_at(s, device_id) {
        Some(i) => s.remove(i),
        None => s,
    }
}

fn copy_trusted(devices: &Vec<TrustedDevice>) -> (r: Vec<TrustedDevice>)
    ensures
        trusted_models(r@) == trusted_models(devices@),
{
    let mut out: Vec<TrustedDevice> = Vec::new();
    let mut i: usize = 0;
    while i < devices.len()
        invariant
            i <= devices@.len(),
            trusted_models(out@) == trusted_models(devices@).take(i as int),
        decreases devices@.len() - i,
    {
        let d = &devices[i];
        let ghost before = out@;
        let copy = TrustedDevice {
            device_id: d.device_id,
            name: d.name.clone(),
            public_key: bytes::copy_range(d.public_key.as_slice(), 0, d.public_key.len()),
            fingerprint: d.fingerprint.clone(),
            created_at: d.created_at,
            last_seen_at: d.last_seen_at,
        };
        proof {
            assert(copy.public_key@ =~= d.public_key@);
            assert(trusted_models(before.push(copy)) =~= trusted_models(before).push(copy@));
            assert(trusted_models(devices@).take(i + 1) =~= trusted_models(devices@).take(
                i as int,
            ).push(d@));
        }
        out.push(copy);
        i = i + 1;
    }
    proof {
        assert(trusted_models(devices@).take(i as int) =~= trusted_models(devices@));
    }
    out
}

fn find_trusted(devices: &Vec<TrustedDevice>, device_id: Uuid) -> (r: Option<usize>)
    ensures
        match r {
            Some(i) => i < devices@.len() && trusted_at(trusted_models(devices@), device_id)
                == Some(i as int),
            None => trusted_at(trusted_models(devices@), device_id) is None,
        },
{
    let test = |t: &TrustedDevice| -> (b: bool)
        ensures
            b == (t.device_id == device_id),
        { t.device_id == device_id };
    proof {
        lists::lemma_first_of_images(
            devices@,
            |t: TrustedDevice| t@,
            |t: TrustedDevice| t.device_id == device_id,
            |t: TrustedModel| t.device_id == device_id,
        );
    }
    lists::position(devices, test, Ghost(|t: TrustedDevice| t.device_id == device_id))
}

impl AppState {
    /// The trusted devices as plain values.
    pub open spec fn trusted(&self) -> Seq<TrustedModel> {
        trusted_models(self.trusted_devices@)
    }

    /// What is known of a device that shows this key.
    pub fn trust_match(&self, device_id: Uuid, public_key: &[u8]) -> (r: TrustMatch)
        ensures
            r == trust_of(self.trusted(), device_id, public_key@),
    {
        match find_trusted(&self.trusted_devices, device_id) {
            Some(i) => {
                if bytes::equal(self.trusted_devices[i].public_key.as_slice(), public_key) {
                    TrustMatch::Trusted
                } else {
                    TrustMatch::IdentityChanged
                }
            },
            None => TrustMatch::Unknown,
        }
    }

    /// Whether a device is trusted.
    pub fn is_device_trusted(&self, device_id: Uuid) -> (r: bool)
        ensures
            r == is_trusted(self.trusted(), device_id),
    {
        find_trusted(&self.trusted_devices, device_id).is_some()
    }

    /// The list of trusted devices that is to be kept once a device has been paired.
    pub fn remember_trusted_device(
        &self,
        device_id: Uuid,
        name: String,
        public_key: Vec<u8>,
        now: u64,
    ) -> (r: Vec<TrustedDevice>)
        ensures
            trusted_models(r@) == trusted_with(
                self.trusted(),
                device_id,
                name@,
                public_key@,
                now,
            ),
    {
        let mut updated = copy_trusted(&self.trusted_devices);
        let fingerprint = identity::fingerprint(public_key.as_slice());
        let ghost before = updated@;
        match find_trusted(&updated, device_id) {
            Some(i) => {
                let device = &mut updated[i];
                device.name = name;
                device.public_key = public_key;
                device.fingerprint = fingerprint;
                device.last_seen_at = now;
                proof {
                    assert(trusted_models(updated@) =~= trusted_models(before).update(
                        i as int,
                        updated@[i as int]@,
                    ));
                }
            },
            None => {
                let device = TrustedDevice {
                    device_id,
                    name,
                    public_key,
                    fingerprint,
                    created_at: now,
                    last_seen_at: now,
                };
                proof {
                    assert(trusted_models(before.push(device)) =~= trusted_models(before).push(
                        device@,
                    ));
                }
                updated.push(device);
            },
        }
        updated
    }

    /// The list of trusted devices that is to be kept once a device has been seen, where it is
    /// one of them.
    pub fn touch_trusted_device(&self, device_id: Uuid, name: &str, now: u64) -> (r: Option<
        Vec<TrustedDevice>,
    >)
        ensures
            match r {
                Some(updated) => is_trusted(self.trusted(), device_id) && trusted_models(updated@)
                    == trusted_touched(self.trusted(), device_id, name@, now),
                None => !is_trusted(self.trusted(), device_id),
            },
    {
        let mut updated = copy_trusted(&self.trusted_devices);
        let ghost before = updated@;
        match find_trusted(&updated, device_id) {
            Some(i) => {
                let device = &mut updated[i];
                device.name = String::from_str(name);
                device.last_seen_at = now;
                proof {
                    assert(trusted_models(updated@) =~= trusted_models(before).update(
                        i as int,
                        updated@[i as int]@,
                    ));
                }
                Some(updated)
            },
            None => None,
        }
    }

    /// The list of trusted devices that is to be kept once the trust in a device has been
    /// withdrawn, and the name of that device, where it is one of them.
    pub fn remove_trusted_device(&self, device_id: Uuid) -> (r: Option<
        (Vec<TrustedDevice>, String),
    >)
        ensures
            match r {
                Some((updated, name)) => {
                    &&& is_trusted(self.trusted(), device_id)
                    &&& trusted_models(updated@) == trusted_without(self.trusted(), device_id)
                    &&& name@ == self.trusted()[trusted_at(self.trusted(), device_id)->0].name
                },
                None => !is_trusted(self.trusted(), device_id),
            },
    {
        let mut updated = copy_trusted(&self.trusted_devices);
        let ghost before = updated@;
        match find_trusted(&updated, device_id) {
            Some(i) => {
                let removed = updated.remove(i);
                proof {
                    assert(trusted_models(updated@) =~= trusted_models(before).remove(i as int));
                    assert(removed@ == trusted_models(before)[i as int]);
                }
                Some((updated, removed.name))
            },
            None => None,
        }
    }

    /// Takes a list of trusted devices over that has been kept.
    pub fn commit_trusted_devices(&mut self, updated: Vec<TrustedDevice>)
        ensures
            *final(self) == (AppState { trusted_devices: updated, ..*old(self) }),
    {
        self.trusted_devices = updated;
    }
}

/// A device that has been paired is trusted under the key that it showed, and under no other.
pub proof fn law_paired_device_is_trusted(
    s: Seq<TrustedModel>,
    device_id: Uuid,
    name: Seq<char>,
    public_key: Seq<u8>,
    now: u64,
    shown: Seq<u8>,
)
    ensures
        trust_of(trusted_with(s, device_id, name, public_key, now), device_id, shown)
            == if shown == public_key {
            TrustMatch::Trusted
        } else {
            TrustMatch::IdentityChanged
        },
{
    let p = |t: TrustedModel| t.device_id == device_id;
    let after = trusted_with(s, device_id, name, public_key, now);
    lists::lemma_first_from(s, p, 0);
    match trusted_at(s, device_id) {
        Some(i) => {
            assert forall|j: int| 0 <= j < i implies !p(#[trigger] after[j]) by {
                assert(after[j] == s[j]);
            }
            lists::lemma_first_is(after, p, i);
        },
        None => {
            let i = s.len() as int;
            assert forall|j: int| 0 <= j < i implies !p(#[trigger] after[j]) by {
                assert(after[j] == s[j]);
            }
            assert(after[i].device_id == device_id);
            lists::lemma_first_is(after, p, i);
        },
    }
}

/// Pairing one device leaves the trust in all others as it is.
pub proof fn law_pairing_leaves_others(
    s: Seq<TrustedModel>,
    device_id: Uuid,
    name: Seq<char>,
    public_key: Seq<u8>,
    now: u64,
    other: Uuid,
    shown: Seq<u8>,
)
    requires
        other != device_id,
    ensures
        trust_of(trusted_with(s, device_id, name, public_key, now), other, shown) == trust_of(
            s,
            other,
            shown,
        ),
{
    let p = |t: TrustedModel| t.device_id == other;
    let after = trusted_with(s, device_id, name, public_key, now);
    lists::lemma_first_from(s, |t: TrustedModel| t.device_id == device_id, 0);
    lists::lemma_first_from(s, p, 0);
    lists::lemma_first_from(after, p, 0);
    match trusted_at(s, other) {
        Some(k) => {
            assert(after[k] == s[k]);
            assert forall|j: int| 0 <= j < k implies !p(#[trigger] after[j]) by {
                assert(!p(s[j]));
            }
            lists::lemma_first_is(after, p, k);
        },
        None => {
            if let Some(k) = trusted_at(after, other) {
                assert(p(after[k]));
                if k < s.len() {
                    assert(!p(s[k]));
                }
            }
        },
    }
}

/// Once the trust in a device has been withdrawn it is unknown, whatever key it shows.
pub proof fn law_withdrawn_device_is_unknown(s: Seq<TrustedModel>, device_id: Uuid, shown: Seq<u8>)
    requires
        forall|i: int, j: int|
            #![trigger s[i], s[j]]
            0 <= i < j < s.len() ==> s[i].device_id != s[j].device_id,
    ensures
        trust_of(trusted_without(s, device_id), device_id, shown) == TrustMatch::Unknown,
{
    let p = |t: TrustedModel| t.device_id == device_id;
    let after = trusted_without(s, device_id);
    lists::lemma_first_from(s, p, 0);
    lists::lemma_first_from(after, p, 0);
    if let Some(k) = trusted_at(after, device_id) {
        assert(p(after[k]));
        if let Some(i) = trusted_at(s, device_id) {
            let m = if k < i { k } else { k + 1 };
            assert(after[k] == s[m]);
            assert(s[m].device_id == s[i].device_id);
        }
    }
}

/// A device that was paired is trusted from then on under the key that it was paired with, and known
/// as changed under any other; other devices are judged as before.
pub proof fn law_remembered_device_is_trusted(
    app: AppState,
    device_id: Uuid,
    name: String,
    public_key: Vec<u8>,
    now: u64,
    updated: Vec<TrustedDevice>,
    next: &mut AppState,
    shown: &[u8],
    other: Uuid,
    r: TrustMatch,
    others_before: TrustMatch,
    others_after: TrustMatch,
    known: bool,
)
    requires
        call_ensures(
            AppState::remember_trusted_device,
            (&app, device_id, name, public_key, now),
            updated,
        ),
        *next == app,
        call_ensures(AppState::commit_trusted_devices, (next, updated), ()),
        call_ensures(AppState::trust_match, (final(next), device_id, shown), r),
        call_ensures(AppState::trust_match, (&app, other, shown), others_before),
        call_ensures(AppState::trust_match, (final(next), other, shown), others_after),
        call_ensures(AppState::is_device_trusted, (final(next), device_id), known),
        other != device_id,
    ensures
        shown@ == public_key@ ==> r is Trusted,
        shown@ != public_key@ ==> r is IdentityChanged,
        others_after == others_before,
        known,
{
    law_paired_device_is_trusted(app.trusted(), device_id, name@, public_key@, now, shown@);
    law_pairing_leaves_others(app.trusted(), device_id, name@, public_key@, now, other, shown@);
}

/// What is remembered of a device that was paired: its name, its key, the digest of its key, when it
/// was first paired, and when it was last seen.
pub proof fn law_pairing_is_remembered(
    app: AppState,
    device_id: Uuid,
    name: String,
    public_key: Vec<u8>,
    now: u64,
    updated: Vec<TrustedDevice>,
)
    requires
        call_ensures(
            AppState::remember_trusted_device,
            (&app, device_id, name, public_key, now),
            updated,
        ),
    ensures
        exists|i: int|
            0 <= i < updated@.len() && {
                let t = #[trigger] updated@[i];
                &&& t.device_id == device_id
                &&& t.name@ == name@
                &&& t.public_key@ == public_key@
                &&& t.fingerprint@ == digest::digest_text(public_key@)
                &&& t.last_seen_at == now
                &&& t.created_at == now || exists|j: int|
                    0 <= j < app.trusted_devices@.len() && (
                    #[trigger] app.trusted_devices@[j]).device_id == device_id && t.created_at
                        == app.trusted_devices@[j].created_at
            },
        updated@.len() <= app.trusted_devices@.len() + 1,
        forall|j: int|
            0 <= j < app.trusted_devices@.len() && (#[trigger] app.trusted_devices@[j]).device_id
                != device_id ==> updated@[j]@ == app.trusted_devices@[j]@,
{
    let s = app.trusted();
    let after = trusted_models(updated@);
    lists::lemma_first_from(s, |t: TrustedModel| t.device_id == device_id, 0);
    assert(after.len() == updated@.len());
    assert(after == trusted_with(s, device_id, name@, public_key@, now));
    match trusted_at(s, device_id) {
        Some(i) => {
            assert(after[i] == updated@[i]@);
            assert(s[i] == app.trusted_devices@[i]@);
        },
        None => {
            let i = s.len() as int;
            assert(after[i] == updated@[i]@);
        },
    }
    assert forall|j: int|
        0 <= j < app.trusted_devices@.len() && (#[trigger] app.trusted_devices@[j]).device_id
            != device_id implies updated@[j]@ == app.trusted_devices@[j]@ by {
        assert(s[j] == app.trusted_devices@[j]@);
        assert(after[j] == updated@[j]@);
    }
}

/// To note that a trusted device was seen changes its name and the time, and not whom it is trusted
/// as.
pub proof fn law_seen_device_stays_trusted(
    app: AppState,
    device_id: Uuid,
    name: &str,
    now: u64,
    r: Option<Vec<TrustedDevice>>,
)
    requires
        call_ensures(AppState::touch_trusted_device, (&app, device_id, name, now), r),
    ensures
        r is Some <==> exists|i: int|
            0 <= i < app.trusted_devices@.len() && (#[trigger] app.trusted_devices@[i]).device_id
                == device_id,
        r matches Some(updated) ==> updated@.len() == app.trusted_devices@.len() && forall|i: int|
            0 <= i < updated@.len() ==> (#[trigger] updated@[i]).device_id
                == app.trusted_devices@[i].device_id && updated@[i].public_key@
                == app.trusted_devices@[i].public_key@ && updated@[i].fingerprint@
                == app.trusted_devices@[i].fingerprint@ && updated@[i].created_at
                == app.trusted_devices@[i].created_at && (updated@[i].device_id != device_id
                ==> updated@[i].name@ == app.trusted_devices@[i].name@ && updated@[i].last_seen_at
                == app.trusted_devices@[i].last_seen_at),
        r matches Some(updated) ==> exists|i: int|
            0 <= i < updated@.len() && (#[trigger] updated@[i]).device_id == device_id
                && updated@[i].name@ == name@ && updated@[i].last_seen_at == now,
{
    let s = app.trusted();
    lists::lemma_first_from(s, |t: TrustedModel| t.device_id == device_id, 0);
    if let Some(at) = trusted_at(s, device_id) {
        assert(s[at] == app.trusted_devices@[at]@);
        let updated = r->0;
        let after = trusted_models(updated@);
        assert(after.len() == updated@.len());
        assert(after == trusted_touched(s, device_id, name@, now));
        assert forall|i: int| 0 <= i < updated@.len() implies (#[trigger] updated@[i])@ == after[i]
            && s[i] == app.trusted_devices@[i]@ by {}
        assert(updated@[at].device_id == device_id);
    } else {
        assert forall|i: int| 0 <= i < app.trusted_devices@.len() implies (
        #[trigger] app.trusted_devices@[i]).device_id != device_id by {
            assert(s[i] == app.trusted_devices@[i]@);
        }
    }
}

/// A device from which the trust was taken is unknown from then on, and others are judged as before.
pub proof fn law_removed_device_is_unknown(
    app: AppState,
    device_id: Uuid,
    updated: Vec<TrustedDevice>,
    name: String,
    next: &mut AppState,
    shown: &[u8],
    after: TrustMatch,
)
    requires
        call_ensures(
            AppState::remove_trusted_device,
            (&app, device_id),
            Some((updated, name)),
        ),
        forall|i: int, j: int|
            #![trigger app.trusted_devices@[i], app.trusted_devices@[j]]
            0 <= i < j < app.trusted_devices@.len() ==> app.trusted_devices@[i].device_id
                != app.trusted_devices@[j].device_id,
        *next == app,
        call_ensures(AppState::commit_trusted_devices, (next, updated), ()),
        call_ensures(AppState::trust_match, (final(next), device_id, shown), after),
    ensures
        after is Unknown,
        updated@.len() == app.trusted_devices@.len() - 1,
        forall|i: int|
            0 <= i < app.trusted_devices@.len() && (#[trigger] app.trusted_devices@[i]).device_id
                != device_id ==> exists|j: int|
                0 <= j < updated@.len() && (#[trigger] updated@[j])@ == app.trusted_devices@[i]@,
{
    let s = app.trusted();
    assert forall|i: int, j: int|
        #![trigger s[i], s[j]]
        0 <= i < j < s.len() implies s[i].device_id != s[j].device_id by {
        assert(s[i] == app.trusted_devices@[i]@ && s[j] == app.trusted_devices@[j]@);
    }
    law_withdrawn_device_is_unknown(s, device_id, shown@);
    lists::lemma_first_from(s, |t: TrustedModel| t.device_id == device_id, 0);
    let at = trusted_at(s, device_id)->0;
    let kept = updated@;
    let models = trusted_models(kept);
    assert(models.len() == s.len() - 1);
    assert forall|i: int|
        0 <= i < app.trusted_devices@.len() && (#[trigger] app.trusted_devices@[i]).device_id
            != device_id implies exists|j: int|
        0 <= j < kept.len() && (#[trigger] kept[j])@ == app.trusted_devices@[i]@ by {
        assert(s[i] == app.trusted_devices@[i]@);
        let j = if i < at {
            i
        } else {
            i - 1
        };
        assert(models[j] == kept[j]@);
    }
}

/// Who is trusted is decided by the list: a device that is not in it is unknown.
pub proof fn law_unlisted_device_is_unknown(
    app: AppState,
    device_id: Uuid,
    shown: &[u8],
    r: TrustMatch,
    known: bool,
)
    requires
        call_ensures(AppState::trust_match, (&app, device_id, shown), r),
        call_ensures(AppState::is_device_trusted, (&app, device_id), known),
    ensures
        r is Unknown <==> forall|i: int|
            0 <= i < app.trusted_devices@.len() ==> (#[trigger] app.trusted_devices@[i]).device_id
                != device_id,
        r is Trusted ==> exists|i: int|
            0 <= i < app.trusted_devices@.len() && (#[trigger] app.trusted_devices@[i]).device_id
                == device_id && app.trusted_devices@[i].public_key@ == shown@,
        known <==> !(r is Unknown),
{
    let s = app.trusted();
    lists::lemma_first_from(s, |t: TrustedModel| t.device_id == device_id, 0);
    if let Some(at) = trusted_at(s, device_id) {
        assert(s[at] == app.trusted_devices@[at]@);
    } else {
        assert forall|i: int| 0 <= i < app.trusted_devices@.len() implies (
        #[trigger] app.trusted_devices@[i]).device_id != device_id by {
            assert(s[i] == app.trusted_devices@[i]@);
        }
    }
}

/// A device that is paired again keeps the time of its first pairing, and a new one has the present
/// time.
pub proof fn law_first_pairing_is_remembered(
    app: AppState,
    device_id: Uuid,
    name: String,
    public_key: Vec<u8>,
    now: u64,
    updated: Vec<TrustedDevice>,
    k: int,
)
    requires
        call_ensures(
            AppState::remember_trusted_device,
            (&app, device_id, name, public_key, now),
            updated,
        ),
        0 <= k <= app.trusted_devices@.len(),
        forall|j: int| 0 <= j < k ==> (#[trigger] app.trusted_devices@[j]).device_id != device_id,
        k < app.trusted_devices@.len() ==> app.trusted_devices@[k].device_id == device_id,
    ensures
        k < updated@.len(),
        updated@[k].device_id == device_id,
        updated@[k].public_key@ == public_key@,
        k < app.trusted_devices@.len() ==> updated@[k].created_at
            == app.trusted_devices@[k].created_at && updated@.len() == app.trusted_devices@.len(),
        k == app.trusted_devices@.len() ==> updated@[k].created_at == now && updated@.len()
            == app.trusted_devices@.len() + 1,
{
    let s = app.trusted();
    let p = |t: TrustedModel| t.device_id == device_id;
    let after = trusted_models(updated@);
    assert(after.len() == updated@.len());
    assert(after == trusted_with(s, device_id, name@, public_key@, now));
    assert forall|j: int| 0 <= j < k implies !p(#[trigger] s[j]) by {
        assert(s[j] == app.trusted_devices@[j]@);
    }
    lists::lemma_first_from(s, p, 0);
    if k < app.trusted_devices@.len() {
        assert(s[k] == app.trusted_devices@[k]@);
        lists::lemma_first_is(s, p, k);
    }
    assert(after[k] == updated@[k]@);
}

} // verus!
