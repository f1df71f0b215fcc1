//! The list of transfers, and what is waited for on their account.
use super::{AppState, MAX_TRANSFERS};
use crate::clock::{Duration, Instant, NANOS_PER_SECOND};
use crate::error::{AppError, AppResult};
use crate::ids::{PeerItem, Uuid};
use crate::lists;
use crate::models::{TransferState, TransferView};
use vstd::prelude::*;

verus! {

/// How long it is remembered that the receiving of a file was canceled, in seconds.
pub const CANCELED_MEMORY_SECONDS: u64 = 120;

/// The list with `t` at its front, in place of an earlier entry for the same transfer of the same
/// peer, and not too long.
pub open spec fn transfers_with(s: Seq<TransferView>, t: TransferView) -> Seq<TransferView> {
    let same = |o: TransferView| o.id == t.id && o.peer_device_id == t.peer_device_id;
    let others = match lists::first_where(s, same) {
        Some(i) => s.remove(i),
        None => s,
    };
    let all = seq![t] + others;
    if all.len() > MAX_TRANSFERS {
        all.take(MAX_TRANSFERS as int)
    } else {
        all
    }
}

/// A transfer with what is new of it.
pub open spec fn transfer_updated(
    t: TransferView,
    bytes_done: Option<u64>,
    state: Option<TransferState>,
    detail: Option<String>,
    now: Instant,
) -> TransferView {
    (TransferView {
        bytes_done: if bytes_done is Some {
            bytes_done->0
        } else {
            t.bytes_done
        },
        state: if state is Some {
            state->0
        } else {
            t.state
        },
        detail: if detail is Some {
            detail->0
        } else {
            t.detail
        },
        ..t
    }).settled(now)
}

/// The list after what is new of the first transfer with this identifier has been noted.
pub open spec fn transfers_updated(
    s: Seq<TransferView>,
    id: Uuid,
    bytes_done: Option<u64>,
    state: Option<TransferState>,
    detail: Option<String>,
    now: Instant,
) -> Seq<TransferView> {
    match lists::first_where(s, |t: TransferView| t.id == id) {
        Some(i) => s.update(i, transfer_updated(s[i], bytes_done, state, detail, now)),
        None => s,
    }
}

/// Waiting keys that are not of this peer.
pub open spec fn keys_without(m: Map<PeerItem, ()>, device_id: Uuid) -> Map<PeerItem, ()> {
    m.restrict(Set::new(|k: PeerItem| m.dom().contains(k) && k.peer != device_id))
}

/// The transfers of which `after` is made from `before` by giving all unfinished ones this state
/// and this detail.
pub open spec fn all_set_to(
    before: Seq<TransferView>,
    after: Seq<TransferView>,
    state: TransferState,
    detail: Seq<char>,
) -> bool {
    &&& after.len() == before.len()
    &&& forall|i: int|
        #![trigger after[i]]
        0 <= i < before.len() ==> if before[i].terminal() {
            after[i] == before[i]
        } else {
            after[i] == (TransferView { state, detail: after[i].detail, ..before[i] })
                && after[i].detail@ == detail
        }
}

/// A list with the identifiers of another keeps what holds of it.
pub proof fn lemma_same_keys(before: Seq<TransferView>, after: Seq<TransferView>)
    requires
        super::transfers_valid(before),
        after.len() == before.len(),
        forall|i: int|
            #![trigger after[i]]
            0 <= i < after.len() ==> after[i].id == before[i].id && after[i].peer_device_id
                == before[i].peer_device_id,
    ensures
        super::transfers_valid(after),
{
    assert forall|i: int, j: int|
        #![trigger after[i], after[j]]
        0 <= i < j < after.len() implies after[i].id != after[j].id || after[i].peer_device_id
        != after[j].peer_device_id by {
        assert(before[i].id != before[j].id || before[i].peer_device_id
            != before[j].peer_device_id);
    }
}

/// Part of a list keeps what holds of it.
pub proof fn lemma_filter_valid(s: Seq<TransferView>, p: spec_fn(TransferView) -> bool)
    requires
        super::transfers_valid(s),
    ensures
        super::transfers_valid(s.filter(p)),
        s.filter(p).len() <= s.len(),
        forall|t: TransferView| #[trigger] s.filter(p).contains(t) ==> s.contains(t),
    decreases s.len(),
{
    reveal(Seq::filter);
    if s.len() > 0 {
        let front = s.drop_last();
        assert(super::transfers_valid(front)) by {
            assert forall|i: int, j: int|
                #![trigger front[i], front[j]]
                0 <= i < j < front.len() implies front[i].id != front[j].id
                || front[i].peer_device_id != front[j].peer_device_id by {
                assert(s[i] == front[i] && s[j] == front[j]);
            }
        }
        lemma_filter_valid(front, p);
        let kept = front.filter(p);
        let all = s.filter(p);
        assert forall|t: TransferView| #[trigger] all.contains(t) implies s.contains(t) by {
            let k = all.index_of(t);
            if k < kept.len() {
                assert(kept[k] == t);
                assert(kept.contains(t));
                let m = front.index_of(t);
                assert(s[m] == t);
            } else {
                assert(s[s.len() - 1] == t);
            }
        }
        assert forall|i: int, j: int|
            #![trigger all[i], all[j]]
            0 <= i < j < all.len() implies all[i].id != all[j].id || all[i].peer_device_id
            != all[j].peer_device_id by {
            assert(all[i] == kept[i]);
            if j < kept.len() {
                assert(all[j] == kept[j]);
                assert(kept[i].id != kept[j].id || kept[i].peer_device_id
                    != kept[j].peer_device_id);
            } else {
                assert(kept.contains(kept[i]));
                let m = front.index_of(kept[i]);
                assert(s[m] == kept[i] && s[s.len() - 1] == all[j]);
            }
        }
    }
}

impl AppState {
    /// Puts a transfer at the front of the list.
    pub fn add_transfer(&mut self, transfer: TransferView)
        requires
            old(self).wf(),
        ensures
            final(self).wf(),
            *final(self) == (AppState { transfers: final(self).transfers, ..*old(self) }),
            final(self).transfers@ == transfers_with(old(self).transfers@, transfer),
    {
        let ghost before = self.transfers@;
        let test = |o: &TransferView| -> (b: bool)
            ensures
                b == (o.id == transfer.id && o.peer_device_id == transfer.peer_device_id),
            { o.id == transfer.id && o.peer_device_id == transfer.peer_device_id };
        let ghost same = |o: TransferView|
            o.id == transfer.id && o.peer_device_id == transfer.peer_device_id;
        let earlier = lists::position(&self.transfers, test, Ghost(same));
        if let Some(index) = earlier {
            self.transfers.remove(index);
        }
        let ghost others = self.transfers@;
        proof {
            assert forall|i: int| 0 <= i < others.len() implies !same(#[trigger] others[i]) by {
                if let Some(index) = earlier {
                    let k = if i < index { i } else { i + 1 };
                    assert(others[i] == before[k]);
                    assert(before[k].id != before[index as int].id || before[k].peer_device_id
                        != before[index as int].peer_device_id);
                }
            }
        }
        self.transfers.insert(0, transfer);
        proof {
            assert(self.transfers@ =~= seq![transfer] + others);
        }
        let ghost all = self.transfers@;
        if self.transfers.len() > MAX_TRANSFERS {
            self.transfers.truncate(MAX_TRANSFERS);
        }
        proof {
            let after = self.transfers@;
            assert forall|i: int, j: int|
                #![trigger after[i], after[j]]
                0 <= i < j < after.len() implies after[i].id != after[j].id
                || after[i].peer_device_id != after[j].peer_device_id by {
                assert(after[j] == others[j - 1]);
                if i == 0 {
                    assert(!same(others[j - 1]));
                } else {
                    assert(after[i] == others[i - 1]);
                    if let Some(index) = earlier {
                        let a = if i - 1 < index { i - 1 } else { i };
                        let b = if j - 1 < index { j - 1 } else { j };
                        assert(others[i - 1] == before[a] && others[j - 1] == before[b]);
                    }
                }
            }
        }
    }

    /// The number by which work that was begun before a stop is told from later work.
    pub fn transfer_epoch(&self) -> (r: u64)
        ensures
            r == self.transfer_epoch,
    {
        self.transfer_epoch
    }

    /// Whether nothing has been stopped since.
    pub fn transfer_epoch_is_current(&self, epoch: u64) -> (r: bool)
        ensures
            r == (self.transfer_epoch == epoch),
    {
        self.transfer_epoch == epoch
    }

    /// Notes what is new of a transfer.
    pub fn update_transfer(
        &mut self,
        id: Uuid,
        bytes_done: Option<u64>,
        state: Option<TransferState>,
        detail: Option<String>,
        now: Instant,
    )
        requires
            old(self).wf(),
        ensures
            final(self).wf(),
            *final(self) == (AppState { transfers: final(self).transfers, ..*old(self) }),
            final(self).transfers@ == transfers_updated(
                old(self).transfers@,
                id,
                bytes_done,
                state,
                detail,
                now,
            ),
    {
        let ghost before = self.transfers@;
        let test = |t: &TransferView| -> (b: bool)
            ensures
                b == (t.id == id),
            { t.id == id };
        let found = lists::position(&self.transfers, test, Ghost(|t: TransferView| t.id == id));
        if let Some(index) = found {
            let transfer = &mut self.transfers[index];
            if let Some(bytes_done) = bytes_done {
                transfer.bytes_done = bytes_done;
            }
            if let Some(state) = state {
                transfer.state = state;
            }
            if let Some(detail) = detail {
                transfer.detail = detail;
            }
            transfer.settle(now);
        }
        proof {
            lemma_same_keys(before, self.transfers@);
        }
    }

    /// Brings the figures of a transfer up to date, right after something new of it has been noted.
    /// `rate` and `remaining` are the quotients that it is shown with.
    pub fn refresh_transfer(&mut self, id: Uuid, now: Instant, rate: u64, remaining: u64)
        requires
            old(self).wf(),
        ensures
            final(self).wf(),
            *final(self) == (AppState { transfers: final(self).transfers, ..*old(self) }),
            final(self).transfers@ == match lists::first_where(
                old(self).transfers@,
                |t: TransferView| t.id == id,
            ) {
                Some(i) => old(self).transfers@.update(
                    i,
                    old(self).transfers@[i].refreshed(now, rate, remaining),
                ),
                None => old(self).transfers@,
            },
    {
        let ghost before = self.transfers@;
        let test = |t: &TransferView| -> (b: bool)
            ensures
                b == (t.id == id),
            { t.id == id };
        let found = lists::position(&self.transfers, test, Ghost(|t: TransferView| t.id == id));
        if let Some(index) = found {
            let transfer = &mut self.transfers[index];
            transfer.refresh_metrics(now, rate, remaining);
        }
        proof {
            lemma_same_keys(before, self.transfers@);
        }
    }

    /// The transfer in the list.
    pub open spec fn transfer_at(&self, device_id: Uuid, transfer_id: Uuid) -> Option<int> {
        lists::first_where(
            self.transfers@,
            |t: TransferView| t.id == transfer_id && t.peer_device_id == device_id,
        )
    }

    /// A transfer of a peer.
    pub fn transfer(&self, device_id: Uuid, transfer_id: Uuid) -> (r: Option<TransferView>)
        ensures
            match self.transfer_at(device_id, transfer_id) {
                Some(i) => r == Some(self.transfers@[i]),
                None => r is None,
            },
    {
        let test = |t: &TransferView| -> (b: bool)
            ensures
                b == (t.id == transfer_id && t.peer_device_id == device_id),
            { t.id == transfer_id && t.peer_device_id == device_id };
        match lists::position(
            &self.transfers,
            test,
            Ghost(|t: TransferView| t.id == transfer_id && t.peer_device_id == device_id),
        ) {
            Some(i) => Some(self.transfers[i].clone()),
            None => None,
        }
    }

    /// Notes that a transfer can be canceled.
    pub fn register_transfer_cancellation(&mut self, device_id: Uuid, transfer_id: Uuid)
        requires
            old(self).wf(),
        ensures
            final(self).wf(),
            *final(self) == (AppState {
                transfer_cancellations: final(self).transfer_cancellations,
                ..*old(self)
            }),
            final(self).transfer_cancellations@ == old(self).transfer_cancellations@.insert(
                PeerItem { peer: device_id, item: transfer_id },
                (),
            ),
    {
        self.transfer_cancellations.insert(PeerItem { peer: device_id, item: transfer_id }, ());
    }

    /// Whether there is a sender to be told that a transfer is canceled.
    pub fn request_transfer_cancellation(&self, device_id: Uuid, transfer_id: Uuid) -> (r: bool)
        requires
            self.wf(),
        ensures
            r == self.transfer_cancellations@.dom().contains(
                PeerItem { peer: device_id, item: transfer_id },
            ),
    {
        self.transfer_cancellations.contains(&PeerItem { peer: device_id, item: transfer_id })
    }

    /// Notes that a transfer can no longer be canceled.
    pub fn finish_transfer_cancellation(&mut self, device_id: Uuid, transfer_id: Uuid)
        requires
            old(self).wf(),
        ensures
            final(self).wf(),
            *final(self) == (AppState {
                transfer_cancellations: final(self).transfer_cancellations,
                ..*old(self)
            }),
            final(self).transfer_cancellations@ == old(self).transfer_cancellations@.remove(
                PeerItem { peer: device_id, item: transfer_id },
            ),
    {
        self.transfer_cancellations.remove(&PeerItem { peer: device_id, item: transfer_id });
    }

    /// Notes that the acknowledgement of a transfer is waited for.
    pub fn begin_transfer_ack(&mut self, device_id: Uuid, transfer_id: Uuid)
        requires
            old(self).wf(),
        ensures
            final(self).wf(),
            *final(self) == (AppState { transfer_acks: final(self).transfer_acks, ..*old(self) }),
            final(self).transfer_acks@ == old(self).transfer_acks@.insert(
                PeerItem { peer: device_id, item: transfer_id },
                (),
            ),
    {
        self.transfer_acks.insert(PeerItem { peer: device_id, item: transfer_id }, ());
    }

    /// Ends the wait for the acknowledgement of a transfer, and says whether there was one.
    pub fn resolve_transfer_ack(&mut self, device_id: Uuid, transfer_id: Uuid) -> (r: bool)
        requires
            old(self).wf(),
        ensures
            final(self).wf(),
            *final(self) == (AppState { transfer_acks: final(self).transfer_acks, ..*old(self) }),
            ({
                let key = PeerItem { peer: device_id, item: transfer_id };
                &&& r == old(self).transfer_acks@.dom().contains(key)
                &&& final(self).transfer_acks@ == old(self).transfer_acks@.remove(key)
            }),
    {
        self.transfer_acks.remove(&PeerItem { peer: device_id, item: transfer_id }).is_some()
    }

    /// Gives up the wait for the acknowledgement of a transfer.
    pub fn cancel_transfer_ack(&mut self, device_id: Uuid, transfer_id: Uuid)
        requires
            old(self).wf(),
        ensures
            final(self).wf(),
            *final(self) == (AppState { transfer_acks: final(self).transfer_acks, ..*old(self) }),
            final(self).transfer_acks@ == old(self).transfer_acks@.remove(
                PeerItem { peer: device_id, item: transfer_id },
            ),
    {
        self.transfer_acks.remove(&PeerItem { peer: device_id, item: transfer_id });
    }

    /// Gives up the wait for all acknowledgements.
    pub fn cancel_all_transfer_acks(&mut self)
        requires
            old(self).wf(),
        ensures
            final(self).wf(),
            *final(self) == (AppState { transfer_acks: final(self).transfer_acks, ..*old(self) }),
            final(self).transfer_acks@ == Map::<PeerItem, ()>::empty(),
    {
        self.transfer_acks.clear();
    }

    /// Gives up the wait for the acknowledgements of a peer.
    pub fn cancel_transfer_acks_for_peer(&mut self, device_id: Uuid)
        requires
            old(self).wf(),
        ensures
            final(self).wf(),
            *final(self) == (AppState { transfer_acks: final(self).transfer_acks, ..*old(self) }),
            final(self).transfer_acks@ == keys_without(old(self).transfer_acks@, device_id),
    {
        let keep = |k: &PeerItem, _v: &()| -> (b: bool)
            ensures
                b == (k.peer != device_id),
            { k.peer != device_id };
        self.transfer_acks.retain(keep, Ghost(|k: PeerItem, _v: ()| k.peer != device_id));
        proof {
            assert(self.transfer_acks@ =~= keys_without(old(self).transfer_acks@, device_id));
        }
    }

    /// Notes that a peer has been asked to confirm a cancellation.
    pub fn begin_cancel_ack_wait(&mut self, device_id: Uuid, transfer_id: Uuid)
        requires
            old(self).wf(),
        ensures
            final(self).wf(),
            *final(self) == (AppState {
                pending_cancel_acks: final(self).pending_cancel_acks,
                ..*old(self)
            }),
            final(self).pending_cancel_acks@ == old(self).pending_cancel_acks@.insert(
                PeerItem { peer: device_id, item: transfer_id },
                (),
            ),
    {
        self.pending_cancel_acks.insert(PeerItem { peer: device_id, item: transfer_id }, ());
    }

    /// Ends the wait for the confirmation of a cancellation, and says whether there was one.
    pub fn finish_cancel_ack_wait(&mut self, device_id: Uuid, transfer_id: Uuid) -> (r: bool)
        requires
            old(self).wf(),
        ensures
            final(self).wf(),
            *final(self) == (AppState {
                pending_cancel_acks: final(self).pending_cancel_acks,
                ..*old(self)
            }),
            ({
                let key = PeerItem { peer: device_id, item: transfer_id };
                &&& r == old(self).pending_cancel_acks@.dom().contains(key)
                &&& final(self).pending_cancel_acks@ == old(self).pending_cancel_acks@.remove(key)
            }),
    {
        self.pending_cancel_acks.remove(&PeerItem { peer: device_id, item: transfer_id }).is_some()
    }

    /// The keys of the transfers that have not come to their end, in the order of the list.
    pub open spec fn active_keys(s: Seq<TransferView>) -> Seq<PeerItem>
        decreases s.len(),
    {
        if s.len() == 0 {
            Seq::empty()
        } else {
            let front = AppState::active_keys(s.drop_last());
            if s.last().terminal() {
                front
            } else {
                front.push(PeerItem { peer: s.last().peer_device_id, item: s.last().id })
            }
        }
    }

    /// The keys of the transfers that have not come to their end.
    pub fn active_transfer_keys(&self) -> (r: Vec<PeerItem>)
        ensures
            r@ == AppState::active_keys(self.transfers@),
    {
        let mut out: Vec<PeerItem> = Vec::new();
        let mut i: usize = 0;
        while i < self.transfers.len()
            invariant
                i <= self.transfers@.len(),
                out@ == AppState::active_keys(self.transfers@.take(i as int)),
            decreases self.transfers@.len() - i,
        {
            proof {
                assert(self.transfers@.take(i + 1).drop_last() =~= self.transfers@.take(i as int));
                assert(self.transfers@.take(i + 1).last() == self.transfers@[i as int]);
            }
            if !self.transfers[i].is_terminal() {
                out.push(
                    PeerItem {
                        peer: self.transfers[i].peer_device_id,
                        item: self.transfers[i].id,
                    },
                );
            }
            i = i + 1;
        }
        proof {
            assert(self.transfers@.take(i as int) =~= self.transfers@);
        }
        out
    }

    fn set_all_active(&mut self, state: TransferState, detail: &str)
        requires
            old(self).wf(),
        ensures
            final(self).wf(),
            *final(self) == (AppState { transfers: final(self).transfers, ..*old(self) }),
            all_set_to(old(self).transfers@, final(self).transfers@, state, detail@),
    {
        let ghost before = self.transfers@;
        let mut i: usize = 0;
        while i < self.transfers.len()
            invariant
                i <= self.transfers@.len(),
                before == old(self).transfers@,
                *self == (AppState { transfers: self.transfers, ..*old(self) }),
                self.transfers@.len() == before.len(),
                all_set_to(before.take(i as int), self.transfers@.take(i as int), state, detail@),
                self.transfers@.skip(i as int) == before.skip(i as int),
            decreases self.transfers@.len() - i,
        {
            let ghost current = self.transfers@;
            proof {
                assert(current[i as int] == current.skip(i as int)[0]);
                assert(before[i as int] == before.skip(i as int)[0]);
            }
            if !self.transfers[i].is_terminal() {
                let transfer = &mut self.transfers[i];
                transfer.state = state;
                transfer.detail = String::from_str(detail);
            }
            proof {
                let now = self.transfers@;
                assert forall|j: int|
                    #![trigger now.take(i + 1)[j]]
                    0 <= j < i + 1 implies if before.take(i + 1)[j].terminal() {
                    now.take(i + 1)[j] == before.take(i + 1)[j]
                } else {
                    now.take(i + 1)[j] == (TransferView {
                        state,
                        detail: now.take(i + 1)[j].detail,
                        ..before.take(i + 1)[j]
                    }) && now.take(i + 1)[j].detail@ == detail@
                } by {
                    if j < i {
                        assert(current.take(i as int)[j] == now.take(i + 1)[j]);
                        assert(before.take(i as int)[j] == before.take(i + 1)[j]);
                    }
                }
                assert(now.skip(i + 1) =~= current.skip(i as int).skip(1));
                assert(before.skip(i + 1) =~= before.skip(i as int).skip(1));
            }
            i = i + 1;
        }
        proof {
            assert(before.take(i as int) =~= before);
            assert(self.transfers@.take(i as int) =~= self.transfers@);
            lemma_same_keys(before, self.transfers@);
        }
    }

    /// Begins to stop all transfers: later work is told from earlier work, and all unfinished
    /// transfers are shown as being canceled. All senders are to be told.
    pub fn cancel_all_transfers(&mut self)
        requires
            old(self).wf(),
        ensures
            final(self).wf(),
            *final(self) == (AppState {
                transfers: final(self).transfers,
                transfer_epoch: final(self).transfer_epoch,
                ..*old(self)
            }),
            final(self).transfer_epoch == if old(self).transfer_epoch == u64::MAX {
                0
            } else {
                old(self).transfer_epoch + 1
            },
            all_set_to(
                old(self).transfers@,
                final(self).transfers@,
                TransferState::Cancelling,
                "正在停止连接并取消任务"@,
            ),
    {
        self.transfer_epoch = self.transfer_epoch.wrapping_add(1);
        self.set_all_active(TransferState::Cancelling, "正在停止连接并取消任务");
    }

    /// Ends all unfinished transfers as canceled.
    pub fn mark_all_transfers_canceled(&mut self, detail: &str)
        requires
            old(self).wf(),
        ensures
            final(self).wf(),
            *final(self) == (AppState {
                transfers: final(self).transfers,
                transfer_cancellations: final(self).transfer_cancellations,
                pending_cancel_acks: final(self).pending_cancel_acks,
                ..*old(self)
            }),
            all_set_to(
                old(self).transfers@,
                final(self).transfers@,
                TransferState::Canceled,
                detail@,
            ),
            final(self).transfer_cancellations@ == Map::<PeerItem, ()>::empty(),
            final(self).pending_cancel_acks@ == Map::<PeerItem, ()>::empty(),
    {
        self.set_all_active(TransferState::Canceled, detail);
        self.transfer_cancellations.clear();
        self.pending_cancel_acks.clear();
    }

    /// A reading of the clock that is not too long ago to be remembered.
    pub open spec fn remembered(then: Instant, now: Instant) -> bool {
        now.since(then) < CANCELED_MEMORY_SECONDS * NANOS_PER_SECOND
    }

    fn is_remembered(then: Instant, now: Instant) -> (r: bool)
        ensures
            r == AppState::remembered(then, now),
    {
        now.duration_since(then).nanos < Duration::from_secs(CANCELED_MEMORY_SECONDS).nanos
    }

    /// The receiving of this file was canceled not long ago.
    pub open spec fn was_canceled(&self, device_id: Uuid, transfer_id: Uuid, now: Instant) -> bool {
        let key = PeerItem { peer: device_id, item: transfer_id };
        self.canceled_incoming@.dom().contains(key) && AppState::remembered(
            self.canceled_incoming@[key],
            now,
        )
    }

    /// The memory of canceled files after this one, without what is too long ago.
    pub open spec fn canceled_with(
        m: Map<PeerItem, Instant>,
        device_id: Uuid,
        transfer_id: Uuid,
        now: Instant,
    ) -> Map<PeerItem, Instant> {
        m.restrict(
            Set::new(|k: PeerItem| m.dom().contains(k) && AppState::remembered(m[k], now)),
        ).insert(PeerItem { peer: device_id, item: transfer_id }, now)
    }

    /// Remembers that the receiving of a file was canceled.
    pub fn mark_canceled_incoming(&mut self, device_id: Uuid, transfer_id: Uuid, now: Instant)
        requires
            old(self).wf(),
        ensures
            final(self).wf(),
            *final(self) == (AppState {
                canceled_incoming: final(self).canceled_incoming,
                ..*old(self)
            }),
            final(self).canceled_incoming@ == AppState::canceled_with(
                old(self).canceled_incoming@,
                device_id,
                transfer_id,
                now,
            ),
    {
        let keep = |_k: &PeerItem, then: &Instant| -> (b: bool)
            ensures
                b == AppState::remembered(*then, now),
            { AppState::is_remembered(*then, now) };
        self.canceled_incoming.retain(
            keep,
            Ghost(|_k: PeerItem, then: Instant| AppState::remembered(then, now)),
        );
        self.canceled_incoming.insert(PeerItem { peer: device_id, item: transfer_id }, now);
        proof {
            assert(self.canceled_incoming@ =~= AppState::canceled_with(
                old(self).canceled_incoming@,
                device_id,
                transfer_id,
                now,
            ));
        }
    }

    /// Whether the receiving of a file was canceled not long ago.
    pub fn is_canceled_incoming(&self, device_id: Uuid, transfer_id: Uuid, now: Instant) -> (r:
        bool)
        requires
            self.wf(),
        ensures
            r == self.was_canceled(device_id, transfer_id, now),
    {
        match self.canceled_incoming.get(&PeerItem { peer: device_id, item: transfer_id }) {
            Some(then) => AppState::is_remembered(*then, now),
            None => false,
        }
    }

    /// Takes a transfer that has come to its end out of the list, and gives its name.
    pub fn remove_transfer(&mut self, id: Uuid) -> (r: AppResult<String>)
        requires
            old(self).wf(),
        ensures
            final(self).wf(),
            match lists::first_where(old(self).transfers@, |t: TransferView| t.id == id) {
                None => {
                    &&& r matches Err(e)
                    &&& e.is_invalid_input("未找到要删除的传输任务"@)
                    &&& *final(self) == *old(self)
                },
                Some(i) => if !old(self).transfers@[i].terminal() {
                    &&& r matches Err(e)
                    &&& e.is_invalid_input("传输进行中，完成后才能删除记录"@)
                    &&& *final(self) == *old(self)
                } else {
                    &&& r == Ok::<String, AppError>(old(self).transfers@[i].name)
                    &&& *final(self) == (AppState {
                        transfers: final(self).transfers,
                        ..*old(self)
                    })
                    &&& final(self).transfers@ == old(self).transfers@.remove(i)
                },
            },
    {
        let ghost before = self.transfers@;
        let test = |t: &TransferView| -> (b: bool)
            ensures
                b == (t.id == id),
            { t.id == id };
        match lists::position(&self.transfers, test, Ghost(|t: TransferView| t.id == id)) {
            None => Err(AppError::invalid_input("未找到要删除的传输任务")),
            Some(index) => {
                if !self.transfers[index].is_terminal() {
                    return Err(
                        AppError::invalid_input("传输进行中，完成后才能删除记录"),
                    );
                }
                let removed = self.transfers.remove(index);
                proof {
                    let after = self.transfers@;
                    assert forall|i: int, j: int|
                        #![trigger after[i], after[j]]
                        0 <= i < j < after.len() implies after[i].id != after[j].id
                        || after[i].peer_device_id != after[j].peer_device_id by {
                        let a = if i < index { i } else { i + 1 };
                        let b = if j < index { j } else { j + 1 };
                        assert(after[i] == before[a] && after[j] == before[b]);
                    }
                }
                Ok(removed.name)
            },
        }
    }

    /// Takes all transfers that have come to their end out of the list, and gives their number.
    pub fn clear_transfer_history(&mut self) -> (r: usize)
        requires
            old(self).wf(),
        ensures
            final(self).wf(),
            *final(self) == (AppState { transfers: final(self).transfers, ..*old(self) }),
            final(self).transfers@ == old(self).transfers@.filter(|t: TransferView| !t.terminal()),
            r == old(self).transfers@.len() - final(self).transfers@.len(),
    {
        let count: usize = self.transfers.len();
        let test = |t: &TransferView| -> (b: bool)
            ensures
                b == !t.terminal(),
            { !t.is_terminal() };
        proof {
            lemma_filter_valid(self.transfers@, |t: TransferView| !t.terminal());
        }
        lists::retain(&mut self.transfers, test, Ghost(|t: TransferView| !t.terminal()));
        count - self.transfers.len()
    }
}

/// The transfer at this place of the list is the first with its identifier.
pub open spec fn is_first_of(s: Seq<TransferView>, k: int, id: Uuid) -> bool {
    &&& 0 <= k < s.len()
    &&& s[k].id == id
    &&& forall|j: int| 0 <= j < k ==> (#[trigger] s[j]).id != id
}

/// What changes where something new of a transfer is noted: what was given, and nothing of what
/// tells which file it is, whose, and how large.
pub open spec fn is_changed_to(
    before: TransferView,
    after: TransferView,
    bytes_done: Option<u64>,
    state: Option<TransferState>,
    detail: Option<Seq<char>>,
) -> bool {
    &&& after.bytes_done == (if bytes_done is Some { bytes_done->0 } else { before.bytes_done })
    &&& after.state == (if state is Some { state->0 } else { before.state })
    &&& after.detail@ == (if detail is Some { detail->0 } else { before.detail@ })
    &&& after.id == before.id
    &&& after.peer_device_id == before.peer_device_id
    &&& after.peer_name == before.peer_name
    &&& after.name == before.name
    &&& after.direction == before.direction
    &&& after.total_bytes == before.total_bytes
    &&& after.started_at == before.started_at
}

/// The list is as before but for this transfer.
pub open spec fn only_changes(before: Seq<TransferView>, after: Seq<TransferView>, k: int) -> bool {
    &&& after.len() == before.len()
    &&& forall|j: int| 0 <= j < before.len() && j != k ==> #[trigger] after[j] == before[j]
}

/// What an update of a list does to it.
pub proof fn lemma_updated(
    s: Seq<TransferView>,
    id: Uuid,
    bytes_done: Option<u64>,
    state: Option<TransferState>,
    detail: Option<String>,
    now: Instant,
)
    ensures
        forall|k: int| #[trigger]
            is_first_of(s, k, id) ==> {
                let after = transfers_updated(s, id, bytes_done, state, detail, now);
                &&& only_changes(s, after, k)
                &&& is_changed_to(
                    s[k],
                    after[k],
                    bytes_done,
                    state,
                    if detail is Some {
                        Some(detail->0@)
                    } else {
                        None
                    },
                )
            },
        (forall|j: int| 0 <= j < s.len() ==> (#[trigger] s[j]).id != id) ==> transfers_updated(
            s,
            id,
            bytes_done,
            state,
            detail,
            now,
        ) == s,
{
    let p = |t: TransferView| t.id == id;
    lists::lemma_first_from(s, p, 0);
    assert forall|k: int| #[trigger] is_first_of(s, k, id) implies lists::first_where(s, p) == Some(
        k,
    ) by {
        lists::lemma_first_is(s, p, k);
    }
}

/// What is new of a transfer is noted of it, and of no other.
pub proof fn law_update_is_noted(
    app: &mut AppState,
    id: Uuid,
    bytes_done: Option<u64>,
    state: Option<TransferState>,
    detail: Option<String>,
    now: Instant,
    k: int,
)
    requires
        call_ensures(AppState::update_transfer, (app, id, bytes_done, state, detail, now), ()),
        is_first_of(old(app).transfers@, k, id),
    ensures
        only_changes(old(app).transfers@, final(app).transfers@, k),
        bytes_done matches Some(n) ==> final(app).transfers@[k].bytes_done == n,
        bytes_done is None
            ==> final(app).transfers@[k].bytes_done == old(app).transfers@[k].bytes_done,
        state matches Some(s) ==> final(app).transfers@[k].state == s,
        state is None ==> final(app).transfers@[k].state == old(app).transfers@[k].state,
        detail matches Some(d) ==> final(app).transfers@[k].detail@ == d@,
        detail is None ==> final(app).transfers@[k].detail@ == old(app).transfers@[k].detail@,
        final(app).transfers@[k].name == old(app).transfers@[k].name,
        final(app).transfers@[k].total_bytes == old(app).transfers@[k].total_bytes,
        final(app).transfers@[k].started_at == old(app).transfers@[k].started_at,
{
    lemma_updated(old(app).transfers@, id, bytes_done, state, detail, now);
}

/// A transfer that is put in the list stands at its front, once only, and the list keeps the
/// others, the newest first, as far as there is room for a hundred.
pub proof fn law_new_transfer_comes_first(app: &mut AppState, t: TransferView)
    requires
        old(app).wf(),
        call_ensures(AppState::add_transfer, (app, t), ()),
    ensures
        final(app).transfers@.len() > 0,
        final(app).transfers@[0] == t,
        final(app).transfers@.len() <= 100,
        forall|i: int|
            0 < i < final(app).transfers@.len() ==> ((#[trigger] final(app).transfers@[i]).id != t.id
                || final(app).transfers@[i].peer_device_id != t.peer_device_id)
                    && old(app).transfers@.contains(final(app).transfers@[i]),
        old(app).transfers@.len() < 100 ==> forall|i: int|
            0 <= i < old(app).transfers@.len() && ((#[trigger] old(app).transfers@[i]).id != t.id
                || old(app).transfers@[i].peer_device_id != t.peer_device_id)
                    ==> final(app).transfers@.contains(old(app).transfers@[i]),
{
    let before = old(app).transfers@;
    let after = final(app).transfers@;
    let same = |o: TransferView| o.id == t.id && o.peer_device_id == t.peer_device_id;
    lists::lemma_first_from(before, same, 0);
    let earlier = lists::first_where(before, same);
    assert forall|i: int| 0 < i < after.len() implies ((#[trigger] after[i]).id != t.id
        || after[i].peer_device_id != t.peer_device_id) && before.contains(after[i]) by {
        let k = match earlier {
            Some(e) => if i - 1 < e {
                i - 1
            } else {
                i
            },
            None => i - 1,
        };
        assert(after[i] == before[k]);
        assert(!same(before[k]));
    }
    if before.len() < 100 {
        assert forall|i: int|
            0 <= i < before.len() && ((#[trigger] before[i]).id != t.id || before[i].peer_device_id
                != t.peer_device_id) implies after.contains(before[i]) by {
            let k = match earlier {
                Some(e) => if i < e {
                    i + 1
                } else {
                    i
                },
                None => i + 1,
            };
            assert(after[k] == before[i]);
        }
    }
}

/// A message about a file that was canceled less than two minutes ago is known to be late, and one
/// that comes later is not, nor one about another file.
pub proof fn law_cancellation_is_remembered(
    app: &mut AppState,
    device_id: Uuid,
    transfer_id: Uuid,
    then: Instant,
    now: Instant,
    r: bool,
)
    requires
        call_ensures(
            AppState::mark_canceled_incoming,
            (app, device_id, transfer_id, then),
            (),
        ),
        call_ensures(
            AppState::is_canceled_incoming,
            (final(app), device_id, transfer_id, now),
            r,
        ),
        now.nanos >= then.nanos,
    ensures
        r == (now.nanos - then.nanos < 120_000_000_000),
{
}

/// A file that was never canceled is not known as canceled, and the memory of one does not make
/// another known.
pub proof fn law_other_files_are_not_canceled(
    app: &mut AppState,
    device_id: Uuid,
    transfer_id: Uuid,
    then: Instant,
    other_device: Uuid,
    other: Uuid,
    now: Instant,
    r: bool,
)
    requires
        call_ensures(
            AppState::mark_canceled_incoming,
            (app, device_id, transfer_id, then),
            (),
        ),
        call_ensures(AppState::is_canceled_incoming, (final(app), other_device, other, now), r),
        other != transfer_id || other_device != device_id,
        !old(app).canceled_incoming@.dom().contains(PeerItem { peer: other_device, item: other }),
    ensures
        !r,
{
}

/// Only a transfer that has come to its end can be taken out of the list: then it is gone, and the
/// others stay in their order.
pub proof fn law_running_transfer_is_kept(app: &mut AppState, id: Uuid, k: int, r: AppResult<String>)
    requires
        call_ensures(AppState::remove_transfer, (app, id), r),
        is_first_of(old(app).transfers@, k, id),
    ensures
        r is Ok <==> old(app).transfers@[k].state is Completed
            || old(app).transfers@[k].state is Failed
            || old(app).transfers@[k].state is Canceled,
        r matches Ok(name) ==> name@ == old(app).transfers@[k].name@ && final(app).transfers@.len()
            == old(app).transfers@.len() - 1 && forall|j: int|
            0 <= j < final(app).transfers@.len()
                ==> #[trigger] final(app).transfers@[j] == old(app).transfers@[if j
                < k { j } else { j + 1 }],
        r is Err ==> final(app).transfers@ == old(app).transfers@,
{
    lists::lemma_first_is(old(app).transfers@, |t: TransferView| t.id == id, k);
}

/// Clearing the list takes out what has come to its end, and nothing that is still running.
pub proof fn law_clearing_keeps_running_transfers(app: &mut AppState, r: usize)
    requires
        call_ensures(AppState::clear_transfer_history, (app,), r),
    ensures
        forall|t: TransferView| #[trigger]
            final(app).transfers@.contains(t) <==> old(app).transfers@.contains(t) && !(
            t.state is Completed || t.state is Failed || t.state is Canceled),
        r + final(app).transfers@.len() == old(app).transfers@.len(),
{
    let p = |t: TransferView| !t.terminal();
    let before = old(app).transfers@;
    assert forall|t: TransferView| #[trigger]
        before.filter(p).contains(t) <==> before.contains(t) && p(t) by {
        lists::lemma_filter_members(before, p, t);
    }
}

/// When all transfers are stopped, what is running is shown as being canceled and what has come to
/// its end stays, and work that was begun before is known as such.
pub proof fn law_stop_reaches_running_transfers(app: &mut AppState, epoch: u64, current: bool, k: int)
    requires
        call_ensures(AppState::cancel_all_transfers, (app,), ()),
        call_ensures(AppState::transfer_epoch, (old(app),), epoch),
        call_ensures(AppState::transfer_epoch_is_current, (final(app), epoch), current),
        0 <= k < old(app).transfers@.len(),
    ensures
        !current,
        final(app).transfers@.len() == old(app).transfers@.len(),
        ({
            let before = old(app).transfers@[k];
            let after = final(app).transfers@[k];
            if before.state is Completed || before.state is Failed || before.state is Canceled {
                after == before
            } else {
                after.state is Cancelling && after.id == before.id && after.name == before.name
                    && after.bytes_done == before.bytes_done
            }
        }),
{
}

/// After all transfers have been marked as canceled, none is running, none can be canceled any
/// more, and no confirmation is waited for.
pub proof fn law_nothing_runs_after_stop(app: &mut AppState, detail: &str, k: int)
    requires
        call_ensures(AppState::mark_all_transfers_canceled, (app, detail), ()),
        0 <= k < old(app).transfers@.len(),
    ensures
        final(app).transfers@.len() == old(app).transfers@.len(),
        ({
            let before = old(app).transfers@[k];
            let after = final(app).transfers@[k];
            if before.state is Completed || before.state is Failed || before.state is Canceled {
                after == before
            } else {
                after.state is Canceled && after.detail@ == detail@ && after.id == before.id
            }
        }),
        forall|key: PeerItem| !(#[trigger] final(app).transfer_cancellations@.dom().contains(key)),
        forall|key: PeerItem| !(#[trigger] final(app).pending_cancel_acks@.dom().contains(key)),
{
}

/// The keys of running transfers are those of the list that have not come to their end.
pub proof fn law_active_keys_are_of_running_transfers(app: AppState, r: Vec<PeerItem>, key: PeerItem)
    requires
        call_ensures(AppState::active_transfer_keys, (&app,), r),
    ensures
        r@.contains(key) <==> exists|i: int|
            0 <= i < app.transfers@.len() && (#[trigger] app.transfers@[i]).id == key.item
                && app.transfers@[i].peer_device_id == key.peer
                    && !(app.transfers@[i].state is Completed
                || app.transfers@[i].state is Failed || app.transfers@[i].state is Canceled),
{
    lemma_active_keys(app.transfers@, key);
}

/// The keys of the transfers that have not come to their end.
pub proof fn lemma_active_keys(s: Seq<TransferView>, key: PeerItem)
    ensures
        AppState::active_keys(s).contains(key) <==> exists|i: int|
            0 <= i < s.len() && (#[trigger] s[i]).id == key.item && s[i].peer_device_id == key.peer
                && !s[i].terminal(),
    decreases s.len(),
{
    if s.len() > 0 {
        let front = s.drop_last();
        lemma_active_keys(front, key);
        let kept = AppState::active_keys(front);
        let all = AppState::active_keys(s);
        if kept.contains(key) {
            let j = kept.index_of(key);
            assert(all[j] == key);
            let i = choose|i: int|
                0 <= i < front.len() && (#[trigger] front[i]).id == key.item
                    && front[i].peer_device_id == key.peer && !front[i].terminal();
            assert(s[i] == front[i]);
        } else if !s.last().terminal() && s.last().id == key.item && s.last().peer_device_id
            == key.peer {
            assert(all[all.len() - 1] == key);
            assert(s[s.len() - 1] == s.last());
        } else {
            if all.contains(key) {
                let j = all.index_of(key);
                assert(j == kept.len() || kept[j] == key);
            }
            assert forall|i: int| 0 <= i < s.len() && (#[trigger] s[i]).id == key.item
                && s[i].peer_device_id == key.peer implies s[i].terminal() by {
                if i < front.len() {
                    assert(front[i] == s[i]);
                }
            }
        }
    }
}

/// A transfer is found by its identifier and its peer, and no other is given in its place.
pub proof fn law_found_transfer_is_the_one(
    app: AppState,
    device_id: Uuid,
    transfer_id: Uuid,
    r: Option<TransferView>,
)
    requires
        call_ensures(AppState::transfer, (&app, device_id, transfer_id), r),
    ensures
        r matches Some(t) ==> t.id == transfer_id && t.peer_device_id == device_id
            && app.transfers@.contains(t),
        r is None ==> forall|i: int|
            0 <= i < app.transfers@.len() ==> (#[trigger] app.transfers@[i]).id != transfer_id
                || app.transfers@[i].peer_device_id != device_id,
{
    lists::lemma_first_from(
        app.transfers@,
        |t: TransferView| t.id == transfer_id && t.peer_device_id == device_id,
        0,
    );
}

/// An acknowledgement is waited for from the beginning of the wait to its resolution or its end,
/// whichever comes first, and only for this transfer.
pub proof fn law_acknowledgement_is_taken_once(
    app: &mut AppState,
    next: &mut AppState,
    last: &mut AppState,
    device_id: Uuid,
    transfer_id: Uuid,
    first: bool,
    second: bool,
)
    requires
        call_ensures(AppState::begin_transfer_ack, (app, device_id, transfer_id), ()),
        *next == *final(app),
        call_ensures(AppState::resolve_transfer_ack, (next, device_id, transfer_id), first),
        *last == *final(next),
        call_ensures(AppState::resolve_transfer_ack, (last, device_id, transfer_id), second),
    ensures
        first,
        !second,
{
}

/// A confirmation of a cancellation is waited for from the beginning of the wait to its end.
pub proof fn law_confirmation_is_taken_once(
    app: &mut AppState,
    next: &mut AppState,
    last: &mut AppState,
    device_id: Uuid,
    transfer_id: Uuid,
    first: bool,
    second: bool,
)
    requires
        call_ensures(AppState::begin_cancel_ack_wait, (app, device_id, transfer_id), ()),
        *next == *final(app),
        call_ensures(AppState::finish_cancel_ack_wait, (next, device_id, transfer_id), first),
        *last == *final(next),
        call_ensures(AppState::finish_cancel_ack_wait, (last, device_id, transfer_id), second),
    ensures
        first,
        !second,
{
}

/// A sender can be told of a cancellation from its registration to its end.
pub proof fn law_registered_sender_is_told(
    app: &mut AppState,
    next: &mut AppState,
    device_id: Uuid,
    transfer_id: Uuid,
    before: bool,
    after: bool,
)
    requires
        call_ensures(AppState::register_transfer_cancellation, (app, device_id, transfer_id), ()),
        call_ensures(
            AppState::request_transfer_cancellation,
            (final(app), device_id, transfer_id),
            before,
        ),
        *next == *final(app),
        call_ensures(AppState::finish_transfer_cancellation, (next, device_id, transfer_id), ()),
        call_ensures(
            AppState::request_transfer_cancellation,
            (final(next), device_id, transfer_id),
            after,
        ),
    ensures
        before,
        !after,
{
}

/// The figures of a transfer are brought up to date for that transfer alone, and how it stands is not
/// touched.
pub proof fn law_figures_change_nothing_else(
    app: &mut AppState,
    id: Uuid,
    now: Instant,
    rate: u64,
    remaining: u64,
    k: int,
)
    requires
        call_ensures(AppState::refresh_transfer, (app, id, now, rate, remaining), ()),
        is_first_of(old(app).transfers@, k, id),
    ensures
        only_changes(old(app).transfers@, final(app).transfers@, k),
        final(app).transfers@[k].state == old(app).transfers@[k].state,
        final(app).transfers@[k].bytes_done == old(app).transfers@[k].bytes_done,
        final(app).transfers@[k].name == old(app).transfers@[k].name,
        final(app).transfers@[k].id == id,
{
    lists::lemma_first_is(old(app).transfers@, |t: TransferView| t.id == id, k);
}

/// To give up the acknowledgements of a device leaves those of others.
pub proof fn law_acknowledgements_of_one_device_are_given_up(
    app: &mut AppState,
    device_id: Uuid,
    key: PeerItem,
)
    requires
        call_ensures(AppState::cancel_transfer_acks_for_peer, (app, device_id), ()),
    ensures
        final(app).transfer_acks@.dom().contains(key) <==> old(app).transfer_acks@.dom().contains(
            key,
        ) && key.peer != device_id,
{
}

/// The end of a transfer is noted when it comes to it, once, and its time is measured until then.
pub proof fn law_end_of_transfer_is_noted(
    app: &mut AppState,
    id: Uuid,
    bytes_done: Option<u64>,
    state: TransferState,
    detail: Option<String>,
    now: Instant,
    k: int,
)
    requires
        call_ensures(
            AppState::update_transfer,
            (app, id, bytes_done, Some(state), detail, now),
            (),
        ),
        is_first_of(old(app).transfers@, k, id),
        old(app).transfers@[k].started_at.nanos <= now.nanos,
        now.nanos - old(app).transfers@[k].started_at.nanos < 0xffff_ffff_ffff,
    ensures
        ({
            let before = old(app).transfers@[k];
            let after = final(app).transfers@[k];
            let over = state is Completed || state is Failed || state is Canceled;
            &&& before.finished_at is Some ==> after.finished_at == before.finished_at
            &&& before.finished_at is None && over ==> after.finished_at == Some(now)
            &&& before.finished_at is None && !over ==> after.finished_at is None
            &&& before.finished_at is None ==> after.elapsed_millis == (now.nanos
                - before.started_at.nanos) / 1_000_000
            &&& over ==> after.estimated_remaining_seconds is None
            &&& before.data_finished_at is None && after.total_bytes > 0 && after.bytes_done
                >= after.total_bytes ==> after.data_finished_at == Some(now)
            &&& before.data_finished_at is Some ==> after.data_finished_at
                == before.data_finished_at
        }),
{
    lists::lemma_first_is(old(app).transfers@, |t: TransferView| t.id == id, k);
}

/// To remember a cancellation does not make another one forgotten before its time.
pub proof fn law_recent_cancellations_are_kept(
    app: &mut AppState,
    device_id: Uuid,
    transfer_id: Uuid,
    other_device: Uuid,
    other: Uuid,
    then: Instant,
    now: Instant,
    before: bool,
    after: bool,
)
    requires
        call_ensures(
            AppState::mark_canceled_incoming,
            (app, device_id, transfer_id, then),
            (),
        ),
        other != transfer_id || other_device != device_id,
        then.nanos <= now.nanos,
        call_ensures(AppState::is_canceled_incoming, (old(app), other_device, other, now), before),
        call_ensures(AppState::is_canceled_incoming, (final(app), other_device, other, now), after),
    ensures
        after == before,
{
}

/// A full list gives up its oldest transfer for a new one, and no other.
pub proof fn law_full_list_gives_up_the_oldest(app: &mut AppState, t: TransferView)
    requires
        call_ensures(AppState::add_transfer, (app, t), ()),
        old(app).transfers@.len() == 100,
        forall|i: int|
            0 <= i < old(app).transfers@.len() ==> (#[trigger] old(app).transfers@[i]).id != t.id,
    ensures
        final(app).transfers@.len() == 100,
        forall|i: int|
            0 < i < 100 ==> #[trigger] final(app).transfers@[i] == old(app).transfers@[i - 1],
{
    let before = old(app).transfers@;
    lists::lemma_first_from(
        before,
        |o: TransferView| o.id == t.id && o.peer_device_id == t.peer_device_id,
        0,
    );
}

/// A list with room keeps the others in their order behind a new transfer.
pub proof fn law_others_keep_their_order(app: &mut AppState, t: TransferView)
    requires
        call_ensures(AppState::add_transfer, (app, t), ()),
        old(app).transfers@.len() < 100,
        forall|i: int|
            0 <= i < old(app).transfers@.len() ==> (#[trigger] old(app).transfers@[i]).id != t.id,
    ensures
        final(app).transfers@.len() == old(app).transfers@.len() + 1,
        forall|i: int|
            0 < i < final(app).transfers@.len()
                ==> #[trigger] final(app).transfers@[i] == old(app).transfers@[i - 1],
{
    let before = old(app).transfers@;
    lists::lemma_first_from(
        before,
        |o: TransferView| o.id == t.id && o.peer_device_id == t.peer_device_id,
        0,
    );
}

} // verus!
