//! The canceling of transfers.
use crate::clock::Instant;
use crate::error::{AppError, AppResult};
use crate::files::receiving;
use crate::handlers;
use crate::handlers::FrameAction;
use crate::ids::{PeerItem, Uuid};
use crate::lists;
use crate::models::{TransferCancelResult, TransferState, TransferView};
use crate::protocol::{Frame, Message, CAPABILITY_TRANSFER_CANCEL};
use crate::state::transfers;
use crate::state::AppState;
use crate::text;
use vstd::prelude::*;

verus! {

/// The seconds for which the confirmation of a cancellation is waited for.
pub const CANCEL_ACK_SECONDS: u64 = 5;

/// What canceling a transfer has come to on this side.
#[derive(Debug)]
pub struct LocalCancel {
    pub result: TransferCancelResult,
    /// The sender of the file is to be told to stop.
    pub stop_sender: bool,
    /// The file that was written to is to be removed.
    pub discard: Option<String>,
}

/// What is still to be done so that the other side stops too.
#[derive(Debug)]
pub enum CancelNotice {
    Nothing,
    /// The peer is asked to cancel, and its confirmation is waited for.
    Ask(Frame),
    /// The peer cannot cancel single transfers: it is told that the connection ends, which then
    /// is to be ended.
    Disconnect(Frame),
}

/// The keys that are of this device, or all where none is given.
pub open spec fn keys_of(order: Seq<PeerItem>, only_device: Option<Uuid>) -> Seq<PeerItem> {
    order.filter(|k: PeerItem| only_device is None || k.peer == only_device->0)
}

/// The list after the transfers with these keys have been given a state and a detail, in turn.
pub open spec fn transfers_closed(
    s: Seq<TransferView>,
    keys: Seq<PeerItem>,
    new_state: TransferState,
    reason: String,
    now: Instant,
) -> Seq<TransferView>
    decreases keys.len(),
{
    if keys.len() == 0 {
        s
    } else {
        transfers::transfers_updated(
            transfers_closed(s, keys.drop_last(), new_state, reason, now),
            keys.last().item,
            None,
            Some(new_state),
            Some(reason),
            now,
        )
    }
}

/// A transfer that goes by none of the keys stays as it is.
pub proof fn lemma_closed_leaves(
    s: Seq<TransferView>,
    keys: Seq<PeerItem>,
    new_state: TransferState,
    reason: String,
    now: Instant,
    i: int,
)
    requires
        0 <= i < s.len(),
        forall|k: int| 0 <= k < keys.len() ==> (#[trigger] keys[k]).item != s[i].id,
    ensures
        transfers_closed(s, keys, new_state, reason, now)[i] == s[i],
    decreases keys.len(),
{
    if keys.len() > 0 {
        let front = transfers_closed(s, keys.drop_last(), new_state, reason, now);
        assert forall|k: int| 0 <= k < keys.drop_last().len() implies (
        #[trigger] keys.drop_last()[k]).item != s[i].id by {
            assert(keys.drop_last()[k] == keys[k]);
        }
        lemma_closed_leaves(s, keys.drop_last(), new_state, reason, now, i);
        lemma_closed_length(s, keys.drop_last(), new_state, reason, now);
        lists::lemma_first_from(front, |t: TransferView| t.id == keys.last().item, 0);
    }
}

/// Giving transfers a state leaves the length of the list.
pub proof fn lemma_closed_length(
    s: Seq<TransferView>,
    keys: Seq<PeerItem>,
    new_state: TransferState,
    reason: String,
    now: Instant,
)
    ensures
        transfers_closed(s, keys, new_state, reason, now).len() == s.len(),
    decreases keys.len(),
{
    if keys.len() > 0 {
        lemma_closed_length(s, keys.drop_last(), new_state, reason, now);
        let front = transfers_closed(s, keys.drop_last(), new_state, reason, now);
        lists::lemma_first_from(front, |t: TransferView| t.id == keys.last().item, 0);
    }
}

/// The memory of canceled files after these, in turn.
pub open spec fn all_canceled(m: Map<PeerItem, Instant>, keys: Seq<PeerItem>, now: Instant) -> Map<
    PeerItem,
    Instant,
>
    decreases keys.len(),
{
    if keys.len() == 0 {
        m
    } else {
        AppState::canceled_with(
            all_canceled(m, keys.drop_last(), now),
            keys.last().peer,
            keys.last().item,
            now,
        )
    }
}

impl AppState {
    /// The transfer has come to its end already.
    pub open spec fn has_ended(&self, device_id: Uuid, transfer_id: Uuid) -> bool {
        match self.transfer_at(device_id, transfer_id) {
            Some(i) => self.transfers@[i].terminal(),
            None => false,
        }
    }

    /// Nothing is known of the transfer.
    pub open spec fn is_unknown(&self, device_id: Uuid, transfer_id: Uuid) -> bool {
        let key = PeerItem { peer: device_id, item: transfer_id };
        &&& !self.transfer_cancellations@.dom().contains(key)
        &&& !self.incoming@.dom().contains(key)
        &&& self.transfer_at(device_id, transfer_id) is None
    }

    /// The detail that is shown of a canceled transfer.
    pub open spec fn cancel_detail(reason: Seq<char>) -> Seq<char> {
        if reason.len() == 0 {
            "任务已取消"@
        } else {
            "任务已取消："@ + reason
        }
    }

    /// What canceling a transfer changes on this side, and what it comes to.
    pub open spec fn cancels(
        pre: AppState,
        post: AppState,
        device_id: Uuid,
        transfer_id: Uuid,
        reason: Seq<char>,
        now: Instant,
        done: LocalCancel,
    ) -> bool {
        let key = PeerItem { peer: device_id, item: transfer_id };
        let receiving = pre.incoming@.dom().contains(key);
        if pre.has_ended(device_id, transfer_id) {
            &&& post == pre
            &&& !done.stop_sender
            &&& done.discard is None
            &&& done.result == if pre.transfers@[pre.transfer_at(
                device_id,
                transfer_id,
            )->0].state is Completed {
                TransferCancelResult::AlreadyCompleted
            } else {
                TransferCancelResult::Canceled
            }
        } else if pre.is_unknown(device_id, transfer_id) {
            &&& post == pre
            &&& !done.stop_sender
            &&& done.discard is None
            &&& done.result == TransferCancelResult::NotFound
        } else {
            &&& done.result == TransferCancelResult::Canceled
            &&& done.stop_sender == pre.transfer_cancellations@.dom().contains(key)
            &&& done.discard == if receiving {
                Some(pre.incoming@[key].temporary_path)
            } else {
                None
            }
            &&& post == (AppState {
                incoming: post.incoming,
                reserved_destinations: post.reserved_destinations,
                canceled_incoming: post.canceled_incoming,
                transfers: post.transfers,
                transfer_cancellations: post.transfer_cancellations,
                ..pre
            })
            &&& post.incoming@ == pre.incoming@.remove(key)
            &&& post.reserved() == if receiving {
                pre.reserved().remove(pre.incoming@[key].final_path@)
            } else {
                pre.reserved()
            }
            &&& post.canceled_incoming@ == if receiving {
                AppState::canceled_with(pre.canceled_incoming@, device_id, transfer_id, now)
            } else {
                pre.canceled_incoming@
            }
            &&& post.transfer_cancellations@ == pre.transfer_cancellations@.remove(key)
            &&& receiving::is_updated(
                pre.transfers@,
                post.transfers@,
                transfer_id,
                None,
                TransferState::Canceled,
                AppState::cancel_detail(reason),
                now,
            )
        }
    }

    /// Cancels a transfer on this side.
    pub fn cancel_local_transfer(
        &mut self,
        device_id: Uuid,
        transfer_id: Uuid,
        reason: &str,
        now: Instant,
    ) -> (r: LocalCancel)
        requires
            old(self).wf(),
        ensures
            final(self).wf(),
            AppState::cancels(*old(self), *final(self), device_id, transfer_id, reason@, now, r),
    {
        let key = PeerItem { peer: device_id, item: transfer_id };
        let known = self.transfer(device_id, transfer_id);
        if let Some(transfer) = &known {
            if transfer.is_terminal() {
                let result = if matches!(transfer.state, TransferState::Completed) {
                    TransferCancelResult::AlreadyCompleted
                } else {
                    TransferCancelResult::Canceled
                };
                return LocalCancel { result, stop_sender: false, discard: None };
            }
        }
        let stop_sender = self.request_transfer_cancellation(device_id, transfer_id);
        let incoming = self.remove_incoming(key);
        let mut found = stop_sender;
        let mut discard: Option<String> = None;
        if let Some(incoming) = incoming {
            found = true;
            self.release_reserved_destination(&incoming.final_path);
            self.mark_canceled_incoming(device_id, transfer_id, now);
            discard = Some(incoming.temporary_path);
        }
        proof {
            assert(self.incoming@ =~= old(self).incoming@.remove(key));
        }
        if !found && known.is_none() {
            return LocalCancel {
                result: TransferCancelResult::NotFound,
                stop_sender: false,
                discard: None,
            };
        }
        let detail = if reason.is_empty() {
            String::from_str("任务已取消")
        } else {
            text::joined("任务已取消：", reason)
        };
        self.update_transfer(transfer_id, None, Some(TransferState::Canceled), Some(detail), now);
        self.finish_transfer_cancellation(device_id, transfer_id);
        LocalCancel { result: TransferCancelResult::Canceled, stop_sender, discard }
    }

    /// Cancels a transfer that the user wants canceled, and says how the peer is told.
    pub fn cancel_transfer(
        &mut self,
        device_id: Uuid,
        transfer_id: Uuid,
        reason: String,
        now: Instant,
    ) -> (r: (LocalCancel, CancelNotice))
        requires
            old(self).wf(),
        ensures
            final(self).wf(),
            ({
                let key = PeerItem { peer: device_id, item: transfer_id };
                let asks = r.0.result == TransferCancelResult::Canceled && old(self).is_capable(
                    device_id,
                    CAPABILITY_TRANSFER_CANCEL@,
                );
                let middle = AppState {
                    pending_cancel_acks: old(self).pending_cancel_acks,
                    ..*final(self)
                };
                &&& AppState::cancels(
                    *old(self),
                    middle,
                    device_id,
                    transfer_id,
                    reason@,
                    now,
                    r.0,
                )
                &&& asks ==> final(self).pending_cancel_acks@ == old(
                    self,
                ).pending_cancel_acks@.insert(key, ())
                &&& !asks ==> final(self).pending_cancel_acks == old(self).pending_cancel_acks
                &&& if r.0.result != TransferCancelResult::Canceled {
                    r.1 is Nothing
                } else if asks {
                    &&& r.1 matches CancelNotice::Ask(frame)
                    &&& frame.payload@.len() == 0
                    &&& frame.message == (Message::TransferCancel { transfer_id, reason })
                } else {
                    &&& r.1 matches CancelNotice::Disconnect(frame)
                    &&& frame.payload@.len() == 0
                    &&& frame.message matches Message::Disconnect { reason: text }
                    &&& text@ == "对方版本不支持单任务取消，已断开连接"@
                }
            }),
    {
        let local = self.cancel_local_transfer(device_id, transfer_id, &reason, now);
        if !matches!(local.result, TransferCancelResult::Canceled) {
            return (local, CancelNotice::Nothing);
        }
        if self.supports_capability(device_id, CAPABILITY_TRANSFER_CANCEL) {
            self.begin_cancel_ack_wait(device_id, transfer_id);
            let frame = Frame::new(Message::TransferCancel { transfer_id, reason });
            (local, CancelNotice::Ask(frame))
        } else {
            let frame = Frame::new(
                Message::Disconnect {
                    reason: String::from_str("对方版本不支持单任务取消，已断开连接"),
                },
            );
            (local, CancelNotice::Disconnect(frame))
        }
    }

    /// Notes that a peer has not confirmed a cancellation in time, unless it has.
    pub fn cancel_ack_timeout(&mut self, device_id: Uuid, transfer_id: Uuid, now: Instant) -> (r:
        bool)
        requires
            old(self).wf(),
        ensures
            final(self).wf(),
            *final(self) == (AppState {
                pending_cancel_acks: final(self).pending_cancel_acks,
                transfers: final(self).transfers,
                ..*old(self)
            }),
            ({
                let key = PeerItem { peer: device_id, item: transfer_id };
                &&& r == old(self).pending_cancel_acks@.dom().contains(key)
                &&& final(self).pending_cancel_acks@ == old(self).pending_cancel_acks@.remove(key)
                &&& if r {
                    receiving::is_updated(
                        old(self).transfers@,
                        final(self).transfers@,
                        transfer_id,
                        None,
                        TransferState::Canceled,
                        "本机已停止，对方未确认"@,
                        now,
                    )
                } else {
                    final(self).transfers == old(self).transfers
                }
            }),
    {
        let waiting = self.finish_cancel_ack_wait(device_id, transfer_id);
        if waiting {
            self.update_transfer(
                transfer_id,
                None,
                Some(TransferState::Canceled),
                Some(String::from_str("本机已停止，对方未确认")),
                now,
            );
        }
        waiting
    }

    /// The detail of the answer to a peer that has asked to cancel a transfer.
    pub open spec fn cancel_answer(result: TransferCancelResult) -> Seq<char> {
        match result {
            TransferCancelResult::Canceled => "任务已取消"@,
            TransferCancelResult::AlreadyCompleted => "任务已经完成，无法撤回"@,
            TransferCancelResult::NotFound => "未找到该传输任务"@,
        }
    }

    /// Cancels a transfer that a peer wants canceled, and gives the answer.
    pub fn accept_transfer_cancel(
        &mut self,
        device_id: Uuid,
        transfer_id: Uuid,
        reason: &str,
        now: Instant,
    ) -> (r: (LocalCancel, Frame))
        requires
            old(self).wf(),
        ensures
            final(self).wf(),
            AppState::cancels(*old(self), *final(self), device_id, transfer_id, reason@, now, r.0),
            r.1.payload@.len() == 0,
            r.1.message matches Message::TransferCancelAck { transfer_id: id, result, detail } && id
                == transfer_id && result == r.0.result && detail@ == AppState::cancel_answer(
                result,
            ),
    {
        let local = self.cancel_local_transfer(device_id, transfer_id, reason, now);
        let result = local.result;
        let detail = match result {
            TransferCancelResult::Canceled => String::from_str("任务已取消"),
            TransferCancelResult::AlreadyCompleted => String::from_str(
                "任务已经完成，无法撤回",
            ),
            TransferCancelResult::NotFound => String::from_str("未找到该传输任务"),
        };
        (local, Frame::new(Message::TransferCancelAck { transfer_id, result, detail }))
    }

    fn incoming_keys(&self, only_device: Option<Uuid>) -> (r: Vec<PeerItem>)
        requires
            self.wf(),
        ensures
            r@ == keys_of(self.incoming.order(), only_device),
    {
        let ghost p = |k: PeerItem| only_device is None || k.peer == only_device->0;
        let ghost order = self.incoming.order();
        let mut out: Vec<PeerItem> = Vec::new();
        let mut i: usize = 0;
        proof {
            reveal(Seq::filter);
            assert(order.take(0).filter(p) =~= Seq::<PeerItem>::empty());
        }
        while i < self.incoming.len()
            invariant
                self.wf(),
                order == self.incoming.order(),
                i <= order.len(),
                p == (|k: PeerItem| only_device is None || k.peer == only_device->0),
                out@ == order.take(i as int).filter(p),
            decreases order.len() - i,
        {
            proof {
                reveal(Seq::filter);
                assert(order.take(i + 1).drop_last() =~= order.take(i as int));
                assert(order.take(i + 1).last() == order[i as int]);
            }
            let key = self.incoming.key_at(i);
            let wanted = match only_device {
                Some(device_id) => key.peer == device_id,
                None => true,
            };
            if wanted {
                out.push(key);
            }
            i = i + 1;
        }
        proof {
            assert(order.take(i as int) =~= order);
        }
        out
    }

    /// The names that are kept for the files with these keys.
    pub open spec fn final_names(&self, keys: Seq<PeerItem>) -> Set<Seq<char>> {
        Set::new(
            |n: Seq<char>| exists|i: int|
                0 <= i < keys.len() && self.incoming@[#[trigger] keys[i]].final_path@ == n,
        )
    }

    /// What ending the receiving of the files with these keys changes.
    pub open spec fn cleans_up(
        pre: AppState,
        post: AppState,
        keys: Seq<PeerItem>,
        new_state: TransferState,
        reason: String,
        now: Instant,
    ) -> bool {
        &&& post == (AppState {
            incoming: post.incoming,
            reserved_destinations: post.reserved_destinations,
            canceled_incoming: post.canceled_incoming,
            transfers: post.transfers,
            ..pre
        })
        &&& post.incoming@ == pre.incoming@.remove_keys(keys.to_set())
        &&& post.reserved() == pre.reserved().difference(pre.final_names(keys))
        &&& post.canceled_incoming@ == if new_state is Canceled {
            all_canceled(pre.canceled_incoming@, keys, now)
        } else {
            pre.canceled_incoming@
        }
        &&& post.transfers@ == transfers_closed(pre.transfers@, keys, new_state, reason, now)
    }

    fn clean_up_one(
        &mut self,
        key: PeerItem,
        new_state: TransferState,
        reason: &String,
        now: Instant,
    ) -> (r: String)
        requires
            old(self).wf(),
            old(self).incoming@.dom().contains(key),
        ensures
            final(self).wf(),
            *final(self) == (AppState {
                incoming: final(self).incoming,
                reserved_destinations: final(self).reserved_destinations,
                canceled_incoming: final(self).canceled_incoming,
                transfers: final(self).transfers,
                ..*old(self)
            }),
            r == old(self).incoming@[key].temporary_path,
            final(self).incoming@ == old(self).incoming@.remove(key),
            final(self).reserved() == old(self).reserved().remove(
                old(self).incoming@[key].final_path@,
            ),
            final(self).canceled_incoming@ == if new_state is Canceled {
                AppState::canceled_with(old(self).canceled_incoming@, key.peer, key.item, now)
            } else {
                old(self).canceled_incoming@
            },
            final(self).transfers@ == transfers::transfers_updated(
                old(self).transfers@,
                key.item,
                None,
                Some(new_state),
                Some(*reason),
                now,
            ),
    {
        let removed = self.remove_incoming(key);
        let temporary_path = match removed {
            Some(incoming) => {
                self.release_reserved_destination(&incoming.final_path);
                incoming.temporary_path
            },
            None => String::new(),
        };
        if matches!(new_state, TransferState::Canceled) {
            self.mark_canceled_incoming(key.peer, key.item, now);
        }
        self.update_transfer(key.item, None, Some(new_state), Some(reason.clone()), now);
        temporary_path
    }

    /// The files that were written to for these keys.
    pub open spec fn temporary_paths(&self, keys: Seq<PeerItem>) -> Seq<String> {
        Seq::new(keys.len(), |i: int| self.incoming@[keys[i]].temporary_path)
    }

    /// Ends the receiving of all files, or of those of one device, and gives the files that are
    /// to be removed.
    pub fn cleanup_incoming_with_state(
        &mut self,
        only_device: Option<Uuid>,
        reason: &String,
        final_state: TransferState,
        now: Instant,
    ) -> (r: Vec<String>)
        requires
            old(self).wf(),
        ensures
            final(self).wf(),
            AppState::cleans_up(
                *old(self),
                *final(self),
                keys_of(old(self).incoming.order(), only_device),
                final_state,
                *reason,
                now,
            ),
            r@ == old(self).temporary_paths(keys_of(old(self).incoming.order(), only_device)),
    {
        let keys = self.incoming_keys(only_device);
        let ghost all = keys@;
        proof {
            self.incoming.lemma_order();
            let p = |k: PeerItem| only_device is None || k.peer == only_device->0;
            self.incoming.order().filter_lemma(p);
            lemma_filter_unique(self.incoming.order(), p);
            assert forall|i: int| 0 <= i < all.len() implies self.incoming@.dom().contains(
                #[trigger] all[i],
            ) by {
                self.incoming.order().lemma_filter_contains_rev(p, all[i]);
            }
        }
        let mut out: Vec<String> = Vec::new();
        let mut i: usize = 0;
        proof {
            assert(all.take(0).to_set() =~= Set::<PeerItem>::empty());
            assert(self.incoming@ =~= old(self).incoming@.remove_keys(all.take(0).to_set()));
            assert(self.reserved() =~= old(self).reserved().difference(old(self).final_names(all.take(0))));
            assert(out@ =~= old(self).temporary_paths(all).take(0));
            assert(all.take(0) =~= Seq::<PeerItem>::empty());
        }
        while i < keys.len()
            invariant
                self.wf(),
                keys@ == all,
                i <= all.len(),
                all.no_duplicates(),
                forall|j: int| 0 <= j < all.len() ==> old(self).incoming@.dom().contains(
                    #[trigger] all[j],
                ),
                *self == (AppState {
                    incoming: self.incoming,
                    reserved_destinations: self.reserved_destinations,
                    canceled_incoming: self.canceled_incoming,
                    transfers: self.transfers,
                    ..*old(self)
                }),
                self.incoming@ == old(self).incoming@.remove_keys(all.take(i as int).to_set()),
                self.reserved() == old(self).reserved().difference(old(self).final_names(all.take(i as int))),
                self.canceled_incoming@ == if final_state is Canceled {
                    all_canceled(old(self).canceled_incoming@, all.take(i as int), now)
                } else {
                    old(self).canceled_incoming@
                },
                self.transfers@ == transfers_closed(
                    old(self).transfers@,
                    all.take(i as int),
                    final_state,
                    *reason,
                    now,
                ),
                out@ == old(self).temporary_paths(all).take(i as int),
            decreases all.len() - i,
        {
            let key = keys[i];
            let ghost done = all.take(i as int);
            let ghost next = all.take(i + 1);
            proof {
                assert(next.drop_last() =~= done);
                assert(next.last() == key);
                assert(!done.to_set().contains(key)) by {
                    if done.to_set().contains(key) {
                        let j = done.index_of(key);
                        assert(all[j] == all[i as int]);
                    }
                }
                assert(self.incoming@.dom().contains(key));
                assert(next.to_set() =~= done.to_set().insert(key)) by {
                    assert(next =~= done.push(key));
                    assert forall|k: PeerItem| next.contains(k) <==> done.contains(k) || k == key by {
                        if done.contains(k) {
                            let j = done.index_of(k);
                            assert(next[j] == k);
                        }
                        if k == key {
                            assert(next[i as int] == k);
                        }
                        if next.contains(k) && k != key {
                            let j = next.index_of(k);
                            assert(done[j] == k);
                        }
                    }
                }
            }
            let temporary_path = self.clean_up_one(key, final_state, reason, now);
            proof {
                assert(self.incoming@ =~= old(self).incoming@.remove_keys(next.to_set()));
                let name = old(self).incoming@[key].final_path@;
                assert forall|f: Seq<char>| #[trigger]
                    old(self).final_names(next).contains(f) <==> old(self).final_names(
                        done,
                    ).contains(f) || f == name by {
                    if old(self).final_names(done).contains(f) {
                        let j = choose|j: int|
                            0 <= j < i && old(self).incoming@[#[trigger] done[j]].final_path@ == f;
                        assert(old(self).incoming@[next[j]].final_path@ == f);
                    }
                    if f == name {
                        assert(old(self).incoming@[next[i as int]].final_path@ == f);
                    }
                    if old(self).final_names(next).contains(f) && f != name {
                        let j = choose|j: int|
                            0 <= j < i + 1 && old(self).incoming@[#[trigger] next[j]].final_path@
                                == f;
                        assert(old(self).incoming@[done[j]].final_path@ == f);
                    }
                }
                assert(self.reserved() =~= old(self).reserved().difference(
                    old(self).final_names(next),
                ));
                assert(old(self).temporary_paths(all).take(i + 1) =~= old(self).temporary_paths(
                    all,
                ).take(i as int).push(temporary_path));
            }
            out.push(temporary_path);
            i = i + 1;
        }
        proof {
            assert(all.take(i as int) =~= all);
            assert(old(self).temporary_paths(all).take(i as int) =~= old(self).temporary_paths(
                all,
            ));
        }
        out
    }

    /// Ends the receiving of all files, as canceled.
    pub fn cancel_all_incoming(&mut self, reason: &String, now: Instant) -> (r: Vec<String>)
        requires
            old(self).wf(),
        ensures
            final(self).wf(),
            AppState::cleans_up(
                *old(self),
                *final(self),
                keys_of(old(self).incoming.order(), None),
                TransferState::Canceled,
                *reason,
                now,
            ),
            r@ == old(self).temporary_paths(keys_of(old(self).incoming.order(), None)),
    {
        self.cleanup_incoming_with_state(None, reason, TransferState::Canceled, now)
    }

    /// Ends the receiving of the files of a device, as failed.
    pub fn cleanup_incoming_for_peer(
        &mut self,
        device_id: Uuid,
        reason: &String,
        now: Instant,
    ) -> (r: Vec<String>)
        requires
            old(self).wf(),
        ensures
            final(self).wf(),
            AppState::cleans_up(
                *old(self),
                *final(self),
                keys_of(old(self).incoming.order(), Some(device_id)),
                TransferState::Failed,
                *reason,
                now,
            ),
            r@ == old(self).temporary_paths(keys_of(old(self).incoming.order(), Some(device_id))),
    {
        self.cleanup_incoming_with_state(Some(device_id), reason, TransferState::Failed, now)
    }
}

proof fn lemma_filter_unique(s: Seq<PeerItem>, p: spec_fn(PeerItem) -> bool)
    requires
        s.no_duplicates(),
    ensures
        s.filter(p).no_duplicates(),
    decreases s.len(),
{
    reveal(Seq::filter);
    if s.len() > 0 {
        let front = s.drop_last();
        lemma_filter_unique(front, p);
        let kept = front.filter(p);
        if p(s.last()) {
            assert forall|i: int| 0 <= i < kept.len() implies #[trigger] kept[i] != s.last() by {
                front.lemma_filter_contains_rev(p, kept[i]);
                let j = front.index_of(kept[i]);
                assert(s[j] == kept[i]);
            }
        }
    }
}

/// The transfer with this key stands at this place of the list, and no other entry is of the same
/// identifier.
pub open spec fn is_only(s: Seq<TransferView>, k: int, key: PeerItem) -> bool {
    &&& 0 <= k < s.len()
    &&& s[k].id == key.item
    &&& s[k].peer_device_id == key.peer
    &&& forall|j: int| 0 <= j < s.len() && j != k ==> (#[trigger] s[j]).id != key.item
}

proof fn lemma_only(app: AppState, k: int, key: PeerItem)
    requires
        is_only(app.transfers@, k, key),
    ensures
        app.transfer_at(key.peer, key.item) == Some(k),
        transfers::is_first_of(app.transfers@, k, key.item),
{
    lists::lemma_first_is(
        app.transfers@,
        |t: TransferView| t.id == key.item && t.peer_device_id == key.peer,
        k,
    );
}

/// A running transfer that is canceled here is shown as canceled; one that has been completed stays
/// so, and that is said; one that has failed or was canceled before stays as it is.
pub proof fn law_running_transfer_is_canceled(
    app: &mut AppState,
    device_id: Uuid,
    transfer_id: Uuid,
    reason: &str,
    now: Instant,
    k: int,
    r: LocalCancel,
)
    requires
        call_ensures(
            AppState::cancel_local_transfer,
            (app, device_id, transfer_id, reason, now),
            r,
        ),
        is_only(old(app).transfers@, k, PeerItem { peer: device_id, item: transfer_id }),
    ensures
        ({
            let before = old(app).transfers@[k];
            let after = final(app).transfers@[k];
            let over = before.state is Completed || before.state is Failed
                || before.state is Canceled;
            &&& r.result is AlreadyCompleted <==> before.state is Completed
            &&& r.result is Canceled <==> !(before.state is Completed)
            &&& over ==> *final(app) == *old(app) && !r.stop_sender && r.discard is None
            &&& !over ==> after.state is Canceled && after.bytes_done == before.bytes_done
                && transfers::only_changes(old(app).transfers@, final(app).transfers@, k)
        }),
{
    let key = PeerItem { peer: device_id, item: transfer_id };
    lemma_only(*old(app), k, key);
    let before = old(app).transfers@[k];
    if !(before.state is Completed || before.state is Failed || before.state is Canceled) {
        receiving::lemma_is_updated(
            old(app).transfers@,
            final(app).transfers@,
            transfer_id,
            None,
            TransferState::Canceled,
            AppState::cancel_detail(reason@),
            now,
        );
    }
}

/// The cancellation of a running transfer stops its sender if it has one here; and if it was being
/// received, what was written goes, its name is free again, and what comes late is passed over.
pub proof fn law_canceled_file_leaves_nothing(
    app: &mut AppState,
    device_id: Uuid,
    transfer_id: Uuid,
    reason: &str,
    now: Instant,
    later: Instant,
    k: int,
    late: AppResult<receiving::Attention>,
    r: LocalCancel,
)
    requires
        call_ensures(
            AppState::cancel_local_transfer,
            (app, device_id, transfer_id, reason, now),
            r,
        ),
        is_only(old(app).transfers@, k, PeerItem { peer: device_id, item: transfer_id }),
        !(old(app).transfers@[k].state is Completed || old(app).transfers@[k].state is Failed
            || old(app).transfers@[k].state is Canceled),
        call_ensures(
            AppState::check_file_offer,
            (final(app), device_id, transfer_id, later),
            late,
        ),
        now.nanos <= later.nanos,
    ensures
        ({
            let key = PeerItem { peer: device_id, item: transfer_id };
            &&& r.stop_sender <==> old(app).transfer_cancellations@.dom().contains(key)
            &&& !final(app).transfer_cancellations@.dom().contains(key)
            &&& !final(app).incoming@.dom().contains(key)
            &&& old(app).incoming@.dom().contains(key) ==> {
                &&& r.discard == Some(old(app).incoming@[key].temporary_path)
                &&& !final(app).reserved().contains(old(app).incoming@[key].final_path@)
                &&& later.nanos - now.nanos < 120_000_000_000 ==> (late matches Ok(a)
                    && a is Ignore)
                &&& later.nanos - now.nanos >= 120_000_000_000 ==> (late matches Ok(a)
                    && a is Proceed)
            }
            &&& !old(app).incoming@.dom().contains(key) ==> r.discard is None
                && final(app).reserved() == old(app).reserved()
            &&& forall|o: PeerItem| #[trigger]
                old(app).incoming@.dom().contains(o) && o != key
                    ==> final(app).incoming@.dom().contains(o)
                    && final(app).incoming@[o] == old(app).incoming@[o]
        }),
{
    lemma_only(*old(app), k, PeerItem { peer: device_id, item: transfer_id });
}

/// A transfer that nothing is known of cannot be canceled, and nothing changes.
pub proof fn law_unknown_transfer_is_not_canceled(
    app: &mut AppState,
    device_id: Uuid,
    transfer_id: Uuid,
    reason: &str,
    now: Instant,
    r: LocalCancel,
)
    requires
        call_ensures(
            AppState::cancel_local_transfer,
            (app, device_id, transfer_id, reason, now),
            r,
        ),
        forall|j: int|
            0 <= j < old(app).transfers@.len() ==> (#[trigger] old(app).transfers@[j]).id
                != transfer_id || old(app).transfers@[j].peer_device_id != device_id,
    ensures
        ({
            let key = PeerItem { peer: device_id, item: transfer_id };
            let known = old(app).incoming@.dom().contains(key)
                || old(app).transfer_cancellations@.dom().contains(key);
            &&& r.result is NotFound <==> !known
            &&& r.result is Canceled <==> known
            &&& !known ==> *final(app) == *old(app) && !r.stop_sender && r.discard is None
        }),
{
    lists::lemma_first_from(
        old(app).transfers@,
        |t: TransferView| t.id == transfer_id && t.peer_device_id == device_id,
        0,
    );
}

/// The other device is asked to cancel a transfer that is canceled here, under its identifier and
/// with the reason, if it can; if it cannot, the connection is ended; and where nothing was
/// canceled, it is told nothing.
pub proof fn law_other_device_is_asked_to_cancel(
    app: &mut AppState,
    device_id: Uuid,
    transfer_id: Uuid,
    reason: String,
    now: Instant,
    k: int,
    r: (LocalCancel, CancelNotice),
)
    requires
        call_ensures(AppState::cancel_transfer, (app, device_id, transfer_id, reason, now), r),
        is_only(old(app).transfers@, k, PeerItem { peer: device_id, item: transfer_id }),
    ensures
        ({
            let key = PeerItem { peer: device_id, item: transfer_id };
            let before = old(app).transfers@[k];
            let able = old(app).is_capable(device_id, CAPABILITY_TRANSFER_CANCEL@);
            &&& r.1 is Nothing <==> before.state is Completed
            &&& r.1 is Ask <==> !(before.state is Completed) && able
            &&& r.1 is Disconnect <==> !(before.state is Completed) && !able
            &&& r.1 matches CancelNotice::Ask(frame) ==> frame.message
                matches Message::TransferCancel { transfer_id: id, reason: text } && id
                == transfer_id && text@ == reason@
                    && final(app).pending_cancel_acks@.dom().contains(key)
            &&& r.1 matches CancelNotice::Disconnect(frame) ==> frame.message is Disconnect
            &&& before.state is Transferring || before.state is Queued
                || before.state is WaitingForPeer || before.state is Cancelling
                    ==> final(app).transfers@[k].state is Canceled
        }),
{
    let key = PeerItem { peer: device_id, item: transfer_id };
    lemma_only(*old(app), k, key);
    let before = old(app).transfers@[k];
    if !(before.state is Completed || before.state is Failed || before.state is Canceled) {
        receiving::lemma_is_updated(
            old(app).transfers@,
            final(app).transfers@,
            transfer_id,
            None,
            TransferState::Canceled,
            AppState::cancel_detail(reason@),
            now,
        );
    }
}

/// A transfer that runs between two devices and is canceled on one of them ends as canceled on
/// both: the other is asked, cancels it too, and confirms it.
pub proof fn law_both_sides_end_canceled(
    here: &mut AppState,
    there: &mut AppState,
    back: &mut AppState,
    here_id: Uuid,
    there_id: Uuid,
    transfer_id: Uuid,
    reason: String,
    text: &str,
    generation: Uuid,
    now: Instant,
    k: int,
    m: int,
    asked: (LocalCancel, CancelNotice),
    answered: (LocalCancel, Frame),
    r: AppResult<FrameAction>,
)
    requires
        call_ensures(AppState::cancel_transfer, (here, there_id, transfer_id, reason, now), asked),
        asked.1 is Ask,
        is_only(old(here).transfers@, k, PeerItem { peer: there_id, item: transfer_id }),
        old(here).transfers@[k].state is Transferring,
        text@ == reason@,
        call_ensures(
            AppState::accept_transfer_cancel,
            (
                there,
                here_id,
                asked.1->Ask_0.message->TransferCancel_transfer_id,
                text,
                now,
            ),
            answered,
        ),
        is_only(old(there).transfers@, m, PeerItem { peer: here_id, item: transfer_id }),
        old(there).transfers@[m].state is Transferring,
        *back == *final(here),
        handlers::is_peer(*back, generation, there_id),
        call_ensures(AppState::handle_frame, (back, generation, answered.1, now), r),
    ensures
        final(there).transfers@[m].state is Canceled,
        final(back).transfers@[k].state is Canceled,
        !final(back).pending_cancel_acks@.dom().contains(
            PeerItem { peer: there_id, item: transfer_id },
        ),
        r matches Ok(FrameAction::CancelAnswered { key, waited }) && waited && key.item
            == transfer_id,
{
    law_other_device_is_asked_to_cancel(here, there_id, transfer_id, reason, now, k, asked);
    lemma_only(*old(here), k, PeerItem { peer: there_id, item: transfer_id });
    lemma_only(*old(there), m, PeerItem { peer: here_id, item: transfer_id });
    receiving::lemma_is_updated(
        old(here).transfers@,
        final(here).transfers@,
        transfer_id,
        None,
        TransferState::Canceled,
        AppState::cancel_detail(reason@),
        now,
    );
    receiving::lemma_is_updated(
        old(there).transfers@,
        final(there).transfers@,
        transfer_id,
        None,
        TransferState::Canceled,
        AppState::cancel_detail(text@),
        now,
    );
    let before = old(here).transfers@;
    let after = final(here).transfers@;
    assert forall|j: int| 0 <= j < k implies (#[trigger] after[j]).id != transfer_id by {
        assert(after[j] == before[j]);
    }
    assert(transfers::is_first_of(after, k, transfer_id));
    let frame = answered.1;
    assert(frame == (Frame {
        message: Message::TransferCancelAck {
            transfer_id,
            result: frame.message->result,
            detail: frame.message->TransferCancelAck_detail,
        },
        payload: frame.payload,
    }));
    handlers::law_cancellation_answer_is_shown(
        back,
        generation,
        there_id,
        transfer_id,
        frame.message->result,
        frame.message->TransferCancelAck_detail,
        frame.payload,
        now,
        k,
        r,
    );
}

/// A device that is asked to cancel a transfer answers with what has come of it, under the same
/// identifier.
pub proof fn law_request_to_cancel_is_answered(
    app: &mut AppState,
    device_id: Uuid,
    transfer_id: Uuid,
    reason: &str,
    now: Instant,
    k: int,
    r: (LocalCancel, Frame),
)
    requires
        call_ensures(
            AppState::accept_transfer_cancel,
            (app, device_id, transfer_id, reason, now),
            r,
        ),
        is_only(old(app).transfers@, k, PeerItem { peer: device_id, item: transfer_id }),
    ensures
        r.1.message matches Message::TransferCancelAck { transfer_id: id, result, detail } && id
            == transfer_id && (result is AlreadyCompleted
                <==> old(app).transfers@[k].state is Completed) && (result is Canceled
                <==> !(old(app).transfers@[k].state is Completed)),
        !(old(app).transfers@[k].state is Completed || old(app).transfers@[k].state is Failed)
            ==> final(app).transfers@[k].state is Canceled,
{
    let key = PeerItem { peer: device_id, item: transfer_id };
    lemma_only(*old(app), k, key);
    let before = old(app).transfers@[k];
    if !(before.state is Completed || before.state is Failed || before.state is Canceled) {
        receiving::lemma_is_updated(
            old(app).transfers@,
            final(app).transfers@,
            transfer_id,
            None,
            TransferState::Canceled,
            AppState::cancel_detail(reason@),
            now,
        );
    }
}

/// A cancellation that the other device has not confirmed in time is shown as one, and one that it
/// has confirmed is left as it is.
pub proof fn law_unconfirmed_cancellation_stands(
    app: &mut AppState,
    device_id: Uuid,
    transfer_id: Uuid,
    now: Instant,
    k: int,
    r: bool,
)
    requires
        call_ensures(AppState::cancel_ack_timeout, (app, device_id, transfer_id, now), r),
        transfers::is_first_of(old(app).transfers@, k, transfer_id),
    ensures
        ({
            let key = PeerItem { peer: device_id, item: transfer_id };
            &&& r <==> old(app).pending_cancel_acks@.dom().contains(key)
            &&& !final(app).pending_cancel_acks@.dom().contains(key)
            &&& r ==> final(app).transfers@[k].state is Canceled && transfers::only_changes(
                old(app).transfers@,
                final(app).transfers@,
                k,
            )
            &&& !r ==> final(app).transfers == old(app).transfers
        }),
{
    if r {
        receiving::lemma_is_updated(
            old(app).transfers@,
            final(app).transfers@,
            transfer_id,
            None,
            TransferState::Canceled,
            "本机已停止，对方未确认"@,
            now,
        );
    }
}

proof fn lemma_keys_of(app: AppState, only_device: Option<Uuid>, key: PeerItem)
    requires
        app.wf(),
    ensures
        keys_of(app.incoming.order(), only_device).contains(key) <==> app.incoming@.dom().contains(
            key,
        ) && (only_device is None || key.peer == only_device->0),
{
    app.incoming.lemma_order();
    lists::lemma_filter_members(
        app.incoming.order(),
        |k: PeerItem| only_device is None || k.peer == only_device->0,
        key,
    );
}

/// When a device goes, what was being received from it is given up, and what is received from others
/// goes on; every file that was written to is named.
pub proof fn law_files_of_lost_device_are_given_up(
    app: &mut AppState,
    device_id: Uuid,
    reason: &String,
    now: Instant,
    key: PeerItem,
    r: Vec<String>,
)
    requires
        old(app).wf(),
        call_ensures(AppState::cleanup_incoming_for_peer, (app, device_id, reason, now), r),
    ensures
        final(app).incoming@.dom().contains(key) <==> old(app).incoming@.dom().contains(key)
            && key.peer != device_id,
        final(app).incoming@.dom().contains(key)
            ==> final(app).incoming@[key] == old(app).incoming@[key],
        old(app).incoming@.dom().contains(key) && key.peer == device_id ==> r@.contains(
            old(app).incoming@[key].temporary_path,
        ) && !final(app).reserved().contains(old(app).incoming@[key].final_path@),
        final(app).canceled_incoming == old(app).canceled_incoming
            || final(app).canceled_incoming@ == old(app).canceled_incoming@,
{
    lemma_keys_of(*old(app), Some(device_id), key);
    let keys = keys_of(old(app).incoming.order(), Some(device_id));
    if keys.contains(key) {
        let i = keys.index_of(key);
        assert(keys[i] == key);
        assert(r@[i] == old(app).incoming@[key].temporary_path);
        assert(old(app).incoming@[keys[i]].final_path@ == old(app).incoming@[key].final_path@);
    }
}

/// When everything is stopped, nothing is being received any more, and every file that was written
/// to is named.
pub proof fn law_all_files_are_given_up(
    app: &mut AppState,
    reason: &String,
    now: Instant,
    key: PeerItem,
    r: Vec<String>,
)
    requires
        old(app).wf(),
        call_ensures(AppState::cancel_all_incoming, (app, reason, now), r),
    ensures
        !final(app).incoming@.dom().contains(key),
        old(app).incoming@.dom().contains(key) ==> r@.contains(
            old(app).incoming@[key].temporary_path,
        ) && !final(app).reserved().contains(old(app).incoming@[key].final_path@),
        r@.len() == old(app).incoming@.dom().len(),
{
    lemma_keys_of(*old(app), None, key);
    let keys = keys_of(old(app).incoming.order(), None);
    if keys.contains(key) {
        let i = keys.index_of(key);
        assert(keys[i] == key);
        assert(r@[i] == old(app).incoming@[key].temporary_path);
        assert(old(app).incoming@[keys[i]].final_path@ == old(app).incoming@[key].final_path@);
    }
    assert forall|x: PeerItem| keys.to_set().contains(x) == old(app).incoming@.dom().contains(
        x,
    ) by {
        lemma_keys_of(*old(app), None, x);
    }
    assert(keys.to_set() =~= old(app).incoming@.dom());
    old(app).incoming.lemma_order();
    lemma_filter_unique(
        old(app).incoming.order(),
        |k: PeerItem| None::<Uuid> is None || k.peer == None::<Uuid>->0,
    );
    keys.unique_seq_to_set();
}

proof fn lemma_closed_sets(
    s: Seq<TransferView>,
    keys: Seq<PeerItem>,
    new_state: TransferState,
    reason: String,
    now: Instant,
    k: int,
    key: PeerItem,
)
    requires
        is_only(s, k, key),
    ensures
        is_only(transfers_closed(s, keys, new_state, reason, now), k, key),
        keys.contains(key) ==> transfers_closed(s, keys, new_state, reason, now)[k].state
            == new_state,
    decreases keys.len(),
{
    if keys.len() > 0 {
        let front = keys.drop_last();
        let before = transfers_closed(s, front, new_state, reason, now);
        let after = transfers_closed(s, keys, new_state, reason, now);
        lemma_closed_sets(s, front, new_state, reason, now, k, key);
        let item = keys.last().item;
        lists::lemma_first_from(before, |t: TransferView| t.id == item, 0);
        transfers::lemma_updated(before, item, None, Some(new_state), Some(reason), now);
        if keys.contains(key) && !front.contains(key) {
            let i = keys.index_of(key);
            assert(i == keys.len() - 1 || front[i] == key);
        }
        if item == key.item {
            assert(transfers::is_first_of(before, k, item));
            assert forall|j: int| 0 <= j < after.len() && j != k implies (#[trigger] after[j]).id
                != key.item by {
                assert(after[j] == before[j]);
            }
        } else {
            assert forall|j: int| 0 <= j < after.len() && j != k implies (#[trigger] after[j]).id
                != key.item by {
                assert(before[j].id != key.item);
            }
        }
    }
}

/// What is given up because its device is gone is shown as failed, with the reason; what was stopped
/// here, as canceled.
pub proof fn law_given_up_files_are_shown(
    app: &mut AppState,
    only: Option<Uuid>,
    reason: &String,
    final_state: TransferState,
    now: Instant,
    k: int,
    key: PeerItem,
    r: Vec<String>,
)
    requires
        old(app).wf(),
        call_ensures(
            AppState::cleanup_incoming_with_state,
            (app, only, reason, final_state, now),
            r,
        ),
        is_only(old(app).transfers@, k, key),
        old(app).incoming@.dom().contains(key),
        only is None || only->0 == key.peer,
    ensures
        final(app).transfers@[k].state == final_state,
        !final(app).incoming@.dom().contains(key),
        r@.contains(old(app).incoming@[key].temporary_path),
{
    let keys = keys_of(old(app).incoming.order(), only);
    lemma_keys_of(*old(app), only, key);
    lemma_closed_sets(old(app).transfers@, keys, final_state, *reason, now, k, key);
    let i = keys.index_of(key);
    assert(keys[i] == key);
    assert(r@[i] == old(app).incoming@[key].temporary_path);
}

/// The files of a device that is gone are shown as failed, and files that were stopped here as
/// canceled.
pub proof fn law_lost_files_fail(
    lost: &mut AppState,
    stopped: &mut AppState,
    reason: &String,
    now: Instant,
    k: int,
    key: PeerItem,
    a: Vec<String>,
    b: Vec<String>,
)
    requires
        old(lost).wf(),
        old(stopped).wf(),
        call_ensures(AppState::cleanup_incoming_for_peer, (lost, key.peer, reason, now), a),
        call_ensures(AppState::cancel_all_incoming, (stopped, reason, now), b),
        is_only(old(lost).transfers@, k, key),
        is_only(old(stopped).transfers@, k, key),
        old(lost).incoming@.dom().contains(key),
        old(stopped).incoming@.dom().contains(key),
    ensures
        final(lost).transfers@[k].state is Failed,
        final(stopped).transfers@[k].state is Canceled,
{
    lemma_keys_of(*old(lost), Some(key.peer), key);
    lemma_keys_of(*old(stopped), None, key);
    lemma_closed_sets(
        old(lost).transfers@,
        keys_of(old(lost).incoming.order(), Some(key.peer)),
        TransferState::Failed,
        *reason,
        now,
        k,
        key,
    );
    lemma_closed_sets(
        old(stopped).transfers@,
        keys_of(old(stopped).incoming.order(), None),
        TransferState::Canceled,
        *reason,
        now,
        k,
        key,
    );
}

/// Whoever looks at a transfer that was canceled sees the reason that was given.
pub proof fn law_reason_is_shown(
    app: &mut AppState,
    device_id: Uuid,
    transfer_id: Uuid,
    reason: &str,
    now: Instant,
    k: int,
    r: LocalCancel,
)
    requires
        call_ensures(
            AppState::cancel_local_transfer,
            (app, device_id, transfer_id, reason, now),
            r,
        ),
        is_only(old(app).transfers@, k, PeerItem { peer: device_id, item: transfer_id }),
        !(old(app).transfers@[k].state is Completed || old(app).transfers@[k].state is Failed
            || old(app).transfers@[k].state is Canceled),
    ensures
        ({
            let detail = final(app).transfers@[k].detail@;
            detail.len() >= reason@.len() && detail.skip(detail.len() - reason@.len()) == reason@
        }),
{
    lemma_only(*old(app), k, PeerItem { peer: device_id, item: transfer_id });
    receiving::lemma_is_updated(
        old(app).transfers@,
        final(app).transfers@,
        transfer_id,
        None,
        TransferState::Canceled,
        AppState::cancel_detail(reason@),
        now,
    );
    let detail = final(app).transfers@[k].detail@;
    assert(detail.skip(detail.len() - reason@.len()) =~= reason@);
}

} // verus!
