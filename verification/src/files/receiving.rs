//! Files that are received.
use crate::clock::Instant;
use crate::digest;
use crate::error::{AppError, AppResult};
use crate::ids;
use crate::ids::{PeerItem, Uuid};
use crate::models::{Notice, NoticeLevel, TransferDirection, TransferState, TransferView};
use crate::protocol::{Frame, Message};
use crate::state;
use crate::state::transfers;
use crate::state::{AppState, IncomingTransfer};
use crate::text;
use vstd::prelude::*;

verus! {

/// Whether a message about a file is to be acted on.
#[derive(Clone, Copy, Debug, PartialEq, Eq, Structural)]
pub enum Attention {
    /// The file was canceled not long ago: the message is a latecomer.
    Ignore,
    Proceed,
}

/// What follows from the end of a file's data.
#[derive(Debug)]
pub enum CompletionStep {
    /// The file that was written to is to be given its final name.
    Rename(ReceivedFile),
    /// It is over.
    Finished(Completion),
}

/// A file whose data has come in completely and is as it was announced.
#[derive(Debug)]
pub struct ReceivedFile {
    pub device_id: Uuid,
    pub transfer_id: Uuid,
    pub final_path: String,
    pub temporary_path: String,
    pub received: u64,
}

/// How the receiving of a file has ended, and what is left to do.
#[derive(Debug)]
pub struct Completion {
    /// The file that was written to is to be removed.
    pub discard: Option<String>,
    /// The answer to the sender.
    pub reply: Option<Frame>,
    /// What is told to the user once the answer has been sent.
    pub notice: Option<Notice>,
    /// What the receiving comes to.
    pub result: AppResult<()>,
}

/// The acknowledgement of a transfer.
pub open spec fn is_ack(
    frame: Frame,
    transfer_id: Uuid,
    accepted: bool,
    detail: Seq<char>,
) -> bool {
    &&& frame.payload@.len() == 0
    &&& frame.message matches Message::TransferAck { transfer_id: id, accepted: a, detail: d }
    &&& id == transfer_id
    &&& a == accepted
    &&& d@ == detail
}

/// The acknowledgement of a transfer.
pub fn transfer_ack(transfer_id: Uuid, accepted: bool, detail: String) -> (r: Frame)
    ensures
        is_ack(r, transfer_id, accepted, detail@),
{
    Frame::new(Message::TransferAck { transfer_id, accepted, detail })
}

/// The transfer in the list has these values and this detail.
pub open spec fn is_updated(
    before: Seq<TransferView>,
    after: Seq<TransferView>,
    transfer_id: Uuid,
    bytes_done: Option<u64>,
    new_state: TransferState,
    detail: Seq<char>,
    now: Instant,
) -> bool {
    exists|text: String|
        #![trigger transfers::transfers_updated(before, transfer_id, bytes_done, Some(new_state), Some(text), now)]
        text@ == detail && after == transfers::transfers_updated(
            before,
            transfer_id,
            bytes_done,
            Some(new_state),
            Some(text),
            now,
        )
}

impl AppState {
    /// This file is being received from this device.
    pub open spec fn is_receiving(&self, device_id: Uuid, transfer_id: Uuid) -> bool {
        self.incoming@.dom().contains(PeerItem { peer: device_id, item: transfer_id })
    }

    /// Whether the offer of a file is to be taken up.
    pub fn check_file_offer(&self, device_id: Uuid, transfer_id: Uuid, now: Instant) -> (r:
        AppResult<Attention>)
        requires
            self.wf(),
        ensures
            if self.was_canceled(device_id, transfer_id, now) {
                r == Ok::<Attention, AppError>(Attention::Ignore)
            } else if self.is_receiving(device_id, transfer_id) {
                r matches Err(e) && e.is_protocol("收到重复的文件发送请求"@)
            } else {
                r == Ok::<Attention, AppError>(Attention::Proceed)
            },
    {
        if self.is_canceled_incoming(device_id, transfer_id, now) {
            return Ok(Attention::Ignore);
        }
        if self.incoming.contains(&PeerItem { peer: device_id, item: transfer_id }) {
            return Err(AppError::protocol("收到重复的文件发送请求"));
        }
        Ok(Attention::Proceed)
    }

    /// What the start of a file changes.
    pub open spec fn starts_receiving(
        pre: AppState,
        post: AppState,
        device_id: Uuid,
        transfer_id: Uuid,
        name: String,
        size: u64,
        final_path: String,
        temporary_path: String,
        now: Instant,
    ) -> bool {
        let key = PeerItem { peer: device_id, item: transfer_id };
        &&& post == (AppState { incoming: post.incoming, transfers: post.transfers, ..pre })
        &&& post.incoming@.dom() == pre.incoming@.dom().insert(key)
        &&& forall|k: PeerItem| #[trigger]
            pre.incoming@.dom().contains(k) && k != key ==> post.incoming@[k] == pre.incoming@[k]
        &&& post.incoming@[key].final_path == final_path
        &&& post.incoming@[key].temporary_path == temporary_path
        &&& post.incoming@[key].received == 0
        &&& post.incoming@[key].expected == size
        &&& digest::absorbed(post.incoming@[key].hasher) == Seq::<u8>::empty()
        &&& post.transfers@.len() > 0
        &&& post.transfers@ == transfers::transfers_with(pre.transfers@, post.transfers@[0])
        &&& post.transfers@[0] == (TransferView {
            id: transfer_id,
            peer_device_id: device_id,
            peer_name: post.transfers@[0].peer_name,
            name,
            direction: TransferDirection::Receiving,
            state: TransferState::Transferring,
            bytes_done: 0,
            total_bytes: size,
            detail: post.transfers@[0].detail,
            bytes_per_second: 0,
            elapsed_millis: 0,
            estimated_remaining_seconds: None,
            started_at: now,
            data_finished_at: None,
            finished_at: None,
        })
        &&& post.transfers@[0].detail@ == "正在接收"@
        &&& forall|g: Uuid| #[trigger]
            pre.connects(g, device_id) ==> post.transfers@[0].peer_name
                == pre.connections@[g].peer_name
        &&& !pre.is_connected(device_id) ==> post.transfers@[0].peer_name@ == ids::hyphenated(
            device_id.value,
        )
    }

    /// Begins to receive a file, once there is a file to write its data to.
    pub fn accept_file_offer(
        &mut self,
        device_id: Uuid,
        transfer_id: Uuid,
        name: String,
        size: u64,
        final_path: String,
        temporary_path: String,
        now: Instant,
    )
        requires
            old(self).wf(),
        ensures
            final(self).wf(),
            AppState::starts_receiving(
                *old(self),
                *final(self),
                device_id,
                transfer_id,
                name,
                size,
                final_path,
                temporary_path,
                now,
            ),
    {
        let key = PeerItem { peer: device_id, item: transfer_id };
        let hasher = digest::new_hasher();
        self.incoming.insert(
            key,
            IncomingTransfer { final_path, temporary_path, hasher, received: 0, expected: size },
        );
        proof {
            let m = old(self).incoming@;
            let w = self.incoming@;
            assert(w.dom() =~= m.dom().insert(key));
            assert forall|k: PeerItem| #[trigger] w.dom().contains(k) implies digest::absorbed(
                w[k].hasher,
            ).len() == w[k].received && w[k].received <= w[k].expected by {
                assert(k == key || m.dom().contains(k));
            }
            assert forall|g: Uuid|
                #![trigger old(self).connects(g, device_id)]
                #![trigger self.connects(g, device_id)]
                old(self).connects(g, device_id) == self.connects(g, device_id) by {}
        }
        let peer_name = self.peer_name(device_id);
        let view = TransferView::new(
            transfer_id,
            (device_id, peer_name),
            name,
            TransferDirection::Receiving,
            TransferState::Transferring,
            size,
            String::from_str("正在接收"),
            now,
        );
        self.add_transfer(view);
        proof {
            assert(self.transfers@[0] == view);
        }
    }

    /// The error for a file that cannot be created: its name is given free again.
    pub fn refuse_file_offer(&mut self, final_path: &str, shown_path: &str, cause: &str) -> (r:
        AppError)
        requires
            old(self).wf(),
        ensures
            final(self).wf(),
            *final(self) == (AppState {
                reserved_destinations: final(self).reserved_destinations,
                ..*old(self)
            }),
            final(self).reserved() == old(self).reserved().remove(final_path@),
            r matches AppError::Io(m) && m@ == "无法创建临时接收文件 "@ + shown_path@ + "："@
                + cause@,
    {
        self.release_reserved_destination(final_path);
        let mut detail = text::joined3("无法创建临时接收文件 ", shown_path, "：");
        detail.append(cause);
        AppError::Io(detail)
    }

    /// What is wrong with a piece of a file's data, where something is.
    pub open spec fn chunk_fault(
        &self,
        device_id: Uuid,
        transfer_id: Uuid,
        offset: u64,
        length: nat,
    ) -> Option<Seq<char>> {
        let t = self.incoming@[PeerItem { peer: device_id, item: transfer_id }];
        if !self.is_receiving(device_id, transfer_id) {
            Some("收到未知文件的分块"@)
        } else if t.received != offset {
            Some(
                "文件分块偏移错误，期望 "@ + text::decimal_of(t.received as nat) + "，收到 "@
                    + text::decimal_of(offset as nat),
            )
        } else if t.received + length > t.expected {
            Some("接收数据超过文件声明大小"@)
        } else {
            None
        }
    }

    /// Whether a piece of a file's data is to be written.
    pub fn check_file_chunk(
        &self,
        device_id: Uuid,
        transfer_id: Uuid,
        offset: u64,
        payload: &[u8],
        now: Instant,
    ) -> (r: AppResult<Attention>)
        requires
            self.wf(),
        ensures
            if self.was_canceled(device_id, transfer_id, now) {
                r == Ok::<Attention, AppError>(Attention::Ignore)
            } else {
                match self.chunk_fault(device_id, transfer_id, offset, payload@.len()) {
                    Some(fault) => r matches Err(e) && e.is_protocol(fault),
                    None => r == Ok::<Attention, AppError>(Attention::Proceed),
                }
            },
    {
        if self.is_canceled_incoming(device_id, transfer_id, now) {
            return Ok(Attention::Ignore);
        }
        match self.incoming.get(&PeerItem { peer: device_id, item: transfer_id }) {
            None => Err(AppError::protocol("收到未知文件的分块")),
            Some(transfer) => {
                if transfer.received != offset {
                    let mut detail = text::joined(
                        "文件分块偏移错误，期望 ",
                        &text::decimal(transfer.received as u128),
                    );
                    detail.append("，收到 ");
                    detail.append(&text::decimal(offset as u128));
                    return Err(AppError::Protocol(detail));
                }
                if payload.len() as u64 > transfer.expected - transfer.received {
                    return Err(AppError::protocol("接收数据超过文件声明大小"));
                }
                Ok(Attention::Proceed)
            },
        }
    }

    /// Notes a piece of a file's data, once it has been written.
    pub fn accept_file_chunk(
        &mut self,
        device_id: Uuid,
        transfer_id: Uuid,
        offset: u64,
        payload: &[u8],
        now: Instant,
    )
        requires
            old(self).wf(),
            old(self).chunk_fault(device_id, transfer_id, offset, payload@.len()) is None,
        ensures
            final(self).wf(),
            *final(self) == (AppState {
                incoming: final(self).incoming,
                transfers: final(self).transfers,
                ..*old(self)
            }),
            ({
                let key = PeerItem { peer: device_id, item: transfer_id };
                let before = old(self).incoming@[key];
                let after = final(self).incoming@[key];
                &&& final(self).incoming@ == old(self).incoming@.insert(key, after)
                &&& after == (IncomingTransfer {
                    hasher: after.hasher,
                    received: after.received,
                    ..before
                })
                &&& after.received == before.received + payload@.len()
                &&& digest::absorbed(after.hasher) == digest::absorbed(before.hasher) + payload@
                &&& final(self).transfers@ == transfers::transfers_updated(
                    old(self).transfers@,
                    transfer_id,
                    Some(after.received),
                    None,
                    None,
                    now,
                )
            }),
    {
        let key = PeerItem { peer: device_id, item: transfer_id };
        let mut received: u64 = offset;
        if let Some(transfer) = self.incoming.get_mut(&key) {
            digest::update_hasher(&mut transfer.hasher, payload);
            transfer.received = transfer.received + payload.len() as u64;
            received = transfer.received;
        }
        proof {
            let m = old(self).incoming@;
            let w = self.incoming@;
            assert forall|k: PeerItem| #[trigger] w.dom().contains(k) implies digest::absorbed(
                w[k].hasher,
            ).len() == w[k].received && w[k].received <= w[k].expected by {
                assert(m.dom().contains(k));
            }
        }
        self.update_transfer(transfer_id, Some(received), None, None, now);
    }

    /// Takes a file out whose data has come to its end, to be checked.
    pub fn take_incoming(&mut self, device_id: Uuid, transfer_id: Uuid, now: Instant) -> (r:
        AppResult<Option<IncomingTransfer>>)
        requires
            old(self).wf(),
        ensures
            final(self).wf(),
            ({
                let key = PeerItem { peer: device_id, item: transfer_id };
                if old(self).was_canceled(device_id, transfer_id, now) {
                    r matches Ok(found) && found is None && *final(self) == *old(self)
                } else if !old(self).is_receiving(device_id, transfer_id) {
                    r matches Err(e) && e.is_protocol("收到未知文件的完成消息"@)
                        && *final(self) == *old(self)
                } else {
                    &&& r == Ok::<Option<IncomingTransfer>, AppError>(
                        Some(old(self).incoming@[key]),
                    )
                    &&& *final(self) == (AppState { incoming: final(self).incoming, ..*old(self) })
                    &&& final(self).incoming@ == old(self).incoming@.remove(key)
                }
            }),
    {
        if self.is_canceled_incoming(device_id, transfer_id, now) {
            return Ok(None);
        }
        match self.remove_incoming(PeerItem { peer: device_id, item: transfer_id }) {
            Some(transfer) => Ok(Some(transfer)),
            None => Err(AppError::protocol("收到未知文件的完成消息")),
        }
    }

    pub(crate) fn remove_incoming(&mut self, key: PeerItem) -> (r: Option<IncomingTransfer>)
        requires
            old(self).wf(),
        ensures
            final(self).wf(),
            match r {
                Some(transfer) => {
                    &&& old(self).incoming@.dom().contains(key)
                    &&& transfer == old(self).incoming@[key]
                    &&& *final(self) == (AppState { incoming: final(self).incoming, ..*old(self) })
                    &&& final(self).incoming@ == old(self).incoming@.remove(key)
                },
                None => !old(self).incoming@.dom().contains(key) && *final(self) == *old(self),
            },
    {
        let removed = self.incoming.remove(&key);
        proof {
            let m = old(self).incoming@;
            let w = self.incoming@;
            assert forall|k: PeerItem| #[trigger] w.dom().contains(k) implies digest::absorbed(
                w[k].hasher,
            ).len() == w[k].received && w[k].received <= w[k].expected by {
                assert(m.dom().contains(k));
            }
        }
        removed
    }

    fn close_incoming(
        &mut self,
        transfer_id: Uuid,
        final_path: &str,
        received: u64,
        new_state: TransferState,
        detail: String,
        now: Instant,
    )
        requires
            old(self).wf(),
        ensures
            final(self).wf(),
            AppState::closes_incoming(
                *old(self),
                *final(self),
                transfer_id,
                final_path@,
                received,
                new_state,
                detail@,
                now,
            ),
    {
        self.release_reserved_destination(final_path);
        self.update_transfer(transfer_id, Some(received), Some(new_state), Some(detail), now);
    }

    /// What the end of the receiving of a file changes.
    pub open spec fn closes_incoming(
        pre: AppState,
        post: AppState,
        transfer_id: Uuid,
        final_path: Seq<char>,
        received: u64,
        new_state: TransferState,
        detail: Seq<char>,
        now: Instant,
    ) -> bool {
        &&& post == (AppState {
            reserved_destinations: post.reserved_destinations,
            transfers: post.transfers,
            ..pre
        })
        &&& post.reserved() == pre.reserved().remove(final_path)
        &&& is_updated(
            pre.transfers@,
            post.transfers@,
            transfer_id,
            Some(received),
            new_state,
            detail,
            now,
        )
    }

    /// The data of the file is as long as was announced and has the digest that was announced.
    pub open spec fn is_intact(incoming: IncomingTransfer, expected_sha256: Seq<char>) -> bool {
        incoming.received == incoming.expected && digest::digest_text(
            digest::absorbed(incoming.hasher),
        ) == expected_sha256
    }

    /// Checks a file whose data has come to its end, after what was written has been flushed.
    pub fn check_incoming_file(
        &mut self,
        device_id: Uuid,
        transfer_id: Uuid,
        incoming: IncomingTransfer,
        expected_sha256: &str,
        flushed: Result<(), String>,
        now: Instant,
    ) -> (r: CompletionStep)
        requires
            old(self).wf(),
        ensures
            final(self).wf(),
            match flushed {
                Err(cause) => {
                    &&& r matches CompletionStep::Finished(c)
                    &&& c.discard == Some(incoming.temporary_path)
                    &&& c.reply is None
                    &&& c.notice is None
                    &&& c.result == Err::<(), AppError>(AppError::Io(cause))
                    &&& AppState::closes_incoming(
                        *old(self),
                        *final(self),
                        transfer_id,
                        incoming.final_path@,
                        incoming.received,
                        TransferState::Failed,
                        "写入接收文件失败："@ + cause@,
                        now,
                    )
                },
                Ok(()) => if AppState::is_intact(incoming, expected_sha256@) {
                    &&& *final(self) == *old(self)
                    &&& r == CompletionStep::Rename(
                        ReceivedFile {
                            device_id,
                            transfer_id,
                            final_path: incoming.final_path,
                            temporary_path: incoming.temporary_path,
                            received: incoming.received,
                        },
                    )
                } else {
                    &&& r matches CompletionStep::Finished(c)
                    &&& c.discard == Some(incoming.temporary_path)
                    &&& c.reply is Some
                    &&& is_ack(
                        c.reply->0,
                        transfer_id,
                        false,
                        "文件大小或 SHA-256 校验不一致"@,
                    )
                    &&& c.notice is None
                    &&& c.result is Err
                    &&& c.result->Err_0.is_protocol("文件大小或 SHA-256 校验不一致"@)
                    &&& AppState::closes_incoming(
                        *old(self),
                        *final(self),
                        transfer_id,
                        incoming.final_path@,
                        incoming.received,
                        TransferState::Failed,
                        "文件校验失败，临时文件已删除"@,
                        now,
                    )
                },
            },
    {
        let IncomingTransfer { final_path, temporary_path, hasher, received, expected } = incoming;
        if let Err(cause) = flushed {
            self.close_incoming(
                transfer_id,
                &final_path,
                received,
                TransferState::Failed,
                text::joined("写入接收文件失败：", &cause),
                now,
            );
            return CompletionStep::Finished(
                Completion {
                    discard: Some(temporary_path),
                    reply: None,
                    notice: None,
                    result: Err(AppError::Io(cause)),
                },
            );
        }
        let actual = digest::finish_text(hasher);
        if received != expected || !text::same(&actual, expected_sha256) {
            self.close_incoming(
                transfer_id,
                &final_path,
                received,
                TransferState::Failed,
                String::from_str("文件校验失败，临时文件已删除"),
                now,
            );
            let detail = String::from_str("文件大小或 SHA-256 校验不一致");
            return CompletionStep::Finished(
                Completion {
                    discard: Some(temporary_path),
                    reply: Some(transfer_ack(transfer_id, false, detail.clone())),
                    notice: None,
                    result: Err(AppError::Protocol(detail)),
                },
            );
        }
        CompletionStep::Rename(
            ReceivedFile { device_id, transfer_id, final_path, temporary_path, received },
        )
    }

    /// Ends the receiving of a file, once the attempt to give it its final name has been made.
    pub fn complete_incoming_file(
        &mut self,
        file: ReceivedFile,
        shown_path: &str,
        renamed: Result<(), String>,
        now: Instant,
    ) -> (r: Completion)
        requires
            old(self).wf(),
        ensures
            final(self).wf(),
            r.reply is Some,
            match renamed {
                Err(cause) => {
                    &&& r.discard == Some(file.temporary_path)
                    &&& is_ack(r.reply->0, file.transfer_id, false, "保存文件失败："@ + cause@)
                    &&& r.notice is None
                    &&& r.result == Err::<(), AppError>(AppError::Io(cause))
                    &&& AppState::closes_incoming(
                        *old(self),
                        *final(self),
                        file.transfer_id,
                        file.final_path@,
                        file.received,
                        TransferState::Failed,
                        "保存文件失败："@ + cause@,
                        now,
                    )
                },
                Ok(()) => {
                    &&& r.discard is None
                    &&& is_ack(r.reply->0, file.transfer_id, true, "接收并校验完成"@)
                    &&& r.notice is Some
                    &&& r.notice->0.level == NoticeLevel::Success
                    &&& r.notice->0.message@ == "已接收 "@ + shown_path@
                    &&& r.result is Ok
                    &&& AppState::closes_incoming(
                        *old(self),
                        *final(self),
                        file.transfer_id,
                        file.final_path@,
                        file.received,
                        TransferState::Completed,
                        "已保存到 "@ + shown_path@,
                        now,
                    )
                },
            },
    {
        match renamed {
            Err(cause) => {
                let detail = text::joined("保存文件失败：", &cause);
                self.close_incoming(
                    file.transfer_id,
                    &file.final_path,
                    file.received,
                    TransferState::Failed,
                    detail.clone(),
                    now,
                );
                Completion {
                    discard: Some(file.temporary_path),
                    reply: Some(transfer_ack(file.transfer_id, false, detail)),
                    notice: None,
                    result: Err(AppError::Io(cause)),
                }
            },
            Ok(()) => {
                self.close_incoming(
                    file.transfer_id,
                    &file.final_path,
                    file.received,
                    TransferState::Completed,
                    text::joined("已保存到 ", shown_path),
                    now,
                );
                Completion {
                    discard: None,
                    reply: Some(
                        transfer_ack(
                            file.transfer_id,
                            true,
                            String::from_str("接收并校验完成"),
                        ),
                    ),
                    notice: Some(
                        Notice {
                            level: NoticeLevel::Success,
                            message: text::joined("已接收 ", shown_path),
                        },
                    ),
                    result: Ok(()),
                }
            },
        }
    }
}

/// A piece of a file that goes on where the data has come to, and does not go beyond the size that
/// was announced, is written, whatever its length; any other is refused.
pub proof fn law_fitting_chunk_is_taken(
    state: AppState,
    device_id: Uuid,
    transfer_id: Uuid,
    offset: u64,
    payload: &[u8],
    now: Instant,
    r: AppResult<Attention>,
)
    requires
        call_ensures(
            AppState::check_file_chunk,
            (&state, device_id, transfer_id, offset, payload, now),
            r,
        ),
        ({
            let key = PeerItem { peer: device_id, item: transfer_id };
            !(state.canceled_incoming@.dom().contains(key) && now.nanos
                - state.canceled_incoming@[key].nanos < 120_000_000_000)
        }),
    ensures
        ({
            let key = PeerItem { peer: device_id, item: transfer_id };
            let t = state.incoming@[key];
            &&& r == Ok::<Attention, AppError>(Attention::Proceed)
                <==> state.incoming@.dom().contains(key) && t.received == offset && t.received
                + payload@.len() <= t.expected
            &&& r is Err || r == Ok::<Attention, AppError>(Attention::Proceed)
        }),
{
}

/// What an update of a list does to it.
pub proof fn lemma_is_updated(
    before: Seq<TransferView>,
    after: Seq<TransferView>,
    transfer_id: Uuid,
    bytes_done: Option<u64>,
    new_state: TransferState,
    detail: Seq<char>,
    now: Instant,
)
    requires
        is_updated(before, after, transfer_id, bytes_done, new_state, detail, now),
    ensures
        forall|k: int| #[trigger]
            transfers::is_first_of(before, k, transfer_id) ==> transfers::only_changes(
                before,
                after,
                k,
            ) && transfers::is_changed_to(
                before[k],
                after[k],
                bytes_done,
                Some(new_state),
                Some(detail),
            ),
{
    let text = choose|text: String|
        #![trigger transfers::transfers_updated(before, transfer_id, bytes_done, Some(new_state), Some(text), now)]
        text@ == detail && after == transfers::transfers_updated(
            before,
            transfer_id,
            bytes_done,
            Some(new_state),
            Some(text),
            now,
        );
    transfers::lemma_updated(before, transfer_id, bytes_done, Some(new_state), Some(text), now);
}

/// A file that is offered is received unless it is being received already, and an offer that comes
/// late, less than two minutes after the file was canceled here, is passed over.
pub proof fn law_offer_is_taken_up(
    state: AppState,
    device_id: Uuid,
    transfer_id: Uuid,
    now: Instant,
    r: AppResult<Attention>,
)
    requires
        call_ensures(AppState::check_file_offer, (&state, device_id, transfer_id, now), r),
    ensures
        ({
            let key = PeerItem { peer: device_id, item: transfer_id };
            let late = state.canceled_incoming@.dom().contains(key) && now.nanos
                - state.canceled_incoming@[key].nanos < 120_000_000_000;
            &&& late <==> (r matches Ok(a) && a is Ignore)
            &&& !late && !state.incoming@.dom().contains(key) <==> (r matches Ok(a)
                && a is Proceed)
            &&& !late && state.incoming@.dom().contains(key) <==> r is Err
        }),
{
}

/// A piece that comes late, less than two minutes after the file was canceled here, is passed over;
/// one of a file that is not being received is refused.
pub proof fn law_stray_chunks_are_not_written(
    state: AppState,
    device_id: Uuid,
    transfer_id: Uuid,
    offset: u64,
    payload: &[u8],
    now: Instant,
    r: AppResult<Attention>,
)
    requires
        call_ensures(
            AppState::check_file_chunk,
            (&state, device_id, transfer_id, offset, payload, now),
            r,
        ),
    ensures
        ({
            let key = PeerItem { peer: device_id, item: transfer_id };
            let late = state.canceled_incoming@.dom().contains(key) && now.nanos
                - state.canceled_incoming@[key].nanos < 120_000_000_000;
            &&& late <==> (r matches Ok(a) && a is Ignore)
            &&& !late && !state.incoming@.dom().contains(key) ==> r is Err
        }),
{
}

/// A file that is taken up is received from its start, under the names that were chosen for it, and
/// stands at the front of the list.
pub proof fn law_accepted_file_is_received_from_its_start(
    state: &mut AppState,
    device_id: Uuid,
    transfer_id: Uuid,
    name: String,
    size: u64,
    final_path: String,
    temporary_path: String,
    now: Instant,
)
    requires
        call_ensures(
            AppState::accept_file_offer,
            (state, device_id, transfer_id, name, size, final_path, temporary_path, now),
            (),
        ),
    ensures
        ({
            let key = PeerItem { peer: device_id, item: transfer_id };
            let t = final(state).incoming@[key];
            let shown = final(state).transfers@[0];
            &&& final(state).incoming@.dom().contains(key)
            &&& t.received == 0
            &&& t.expected == size
            &&& t.final_path == final_path
            &&& t.temporary_path == temporary_path
            &&& digest::absorbed(t.hasher).len() == 0
            &&& final(state).transfers@.len() > 0
            &&& shown.id == transfer_id
            &&& shown.peer_device_id == device_id
            &&& shown.name == name
            &&& shown.total_bytes == size
            &&& shown.bytes_done == 0
            &&& shown.state is Transferring
            &&& shown.direction is Receiving
        }),
        forall|k: PeerItem| #[trigger]
            old(state).incoming@.dom().contains(k) && k != (PeerItem {
                peer: device_id,
                item: transfer_id,
            }) ==> final(state).incoming@.dom().contains(k)
                && final(state).incoming@[k] == old(state).incoming@[k],
{
}

/// A file of which all data has come in, with the digest that was announced, is kept under its
/// final name, and only such a file.
pub proof fn law_only_intact_files_are_kept(
    state: &mut AppState,
    device_id: Uuid,
    transfer_id: Uuid,
    incoming: IncomingTransfer,
    sha256: &str,
    flushed: Result<(), String>,
    now: Instant,
    r: CompletionStep,
)
    requires
        call_ensures(
            AppState::check_incoming_file,
            (state, device_id, transfer_id, incoming, sha256, flushed, now),
            r,
        ),
    ensures
        r is Rename <==> flushed is Ok && incoming.received == incoming.expected
            && digest::digest_text(digest::absorbed(incoming.hasher)) == sha256@,
        r matches CompletionStep::Rename(file) ==> {
            &&& file.device_id == device_id
            &&& file.transfer_id == transfer_id
            &&& file.final_path == incoming.final_path
            &&& file.temporary_path == incoming.temporary_path
            &&& file.received == incoming.received
            &&& *final(state) == *old(state)
        },
        r matches CompletionStep::Finished(done) ==> {
            &&& done.discard == Some(incoming.temporary_path)
            &&& done.result is Err
            &&& done.notice is None
            &&& final(state).reserved() == old(state).reserved().remove(incoming.final_path@)
            &&& flushed is Ok ==> (done.reply matches Some(frame)
                && frame.message matches Message::TransferAck { transfer_id: id, accepted, detail }
                && id == transfer_id && !accepted)
            &&& forall|k: int| #[trigger]
                transfers::is_first_of(old(state).transfers@, k, transfer_id)
                    ==> final(state).transfers@[k].state is Failed && transfers::only_changes(
                    old(state).transfers@,
                    final(state).transfers@,
                    k,
                )
        },
{
    if let Err(cause) = flushed {
        lemma_is_updated(
            old(state).transfers@,
            final(state).transfers@,
            transfer_id,
            Some(incoming.received),
            TransferState::Failed,
            "写入接收文件失败："@ + cause@,
            now,
        );
    } else if r is Finished {
        lemma_is_updated(
            old(state).transfers@,
            final(state).transfers@,
            transfer_id,
            Some(incoming.received),
            TransferState::Failed,
            "文件校验失败，临时文件已删除"@,
            now,
        );
    }
}

/// Once a file has its final name it is shown as completed and the sender is told so; if it could
/// not be given its name, it is shown as failed, the sender is told so, and what was written goes.
pub proof fn law_renamed_file_is_complete(
    state: &mut AppState,
    file: ReceivedFile,
    shown_path: &str,
    renamed: Result<(), String>,
    now: Instant,
    r: Completion,
)
    requires
        call_ensures(
            AppState::complete_incoming_file,
            (state, file, shown_path, renamed, now),
            r,
        ),
    ensures
        r.result is Ok <==> renamed is Ok,
        r.discard is None <==> renamed is Ok,
        renamed is Err ==> r.discard == Some(file.temporary_path),
        r.notice is Some <==> renamed is Ok,
        r.reply matches Some(frame) && frame.message matches Message::TransferAck {
            transfer_id,
            accepted,
            detail,
        } && transfer_id == file.transfer_id && accepted == renamed is Ok,
        final(state).reserved() == old(state).reserved().remove(file.final_path@),
        forall|k: int| #[trigger]
            transfers::is_first_of(old(state).transfers@, k, file.transfer_id) ==> {
                &&& renamed is Ok ==> final(state).transfers@[k].state is Completed
                &&& renamed is Err ==> final(state).transfers@[k].state is Failed
                &&& final(state).transfers@[k].bytes_done == file.received
                &&& transfers::only_changes(old(state).transfers@, final(state).transfers@, k)
            },
{
    match renamed {
        Err(cause) => {
            lemma_is_updated(
                old(state).transfers@,
                final(state).transfers@,
                file.transfer_id,
                Some(file.received),
                TransferState::Failed,
                "保存文件失败："@ + cause@,
                now,
            );
        },
        Ok(()) => {
            lemma_is_updated(
                old(state).transfers@,
                final(state).transfers@,
                file.transfer_id,
                Some(file.received),
                TransferState::Completed,
                "已保存到 "@ + shown_path@,
                now,
            );
        },
    }
}

/// The end of a file's data takes the file out, as it stands, unless it was canceled here or is not
/// being received.
pub proof fn law_finished_file_is_taken_out(
    state: &mut AppState,
    device_id: Uuid,
    transfer_id: Uuid,
    now: Instant,
    r: AppResult<Option<IncomingTransfer>>,
)
    requires
        call_ensures(AppState::take_incoming, (state, device_id, transfer_id, now), r),
    ensures
        ({
            let key = PeerItem { peer: device_id, item: transfer_id };
            let late = old(state).canceled_incoming@.dom().contains(key)
                && now.nanos - old(state).canceled_incoming@[key].nanos < 120_000_000_000;
            &&& late ==> (r matches Ok(found) && found is None)
            &&& !late && !old(state).incoming@.dom().contains(key) ==> r is Err
            &&& !late && old(state).incoming@.dom().contains(key) ==> {
                &&& r == Ok::<Option<IncomingTransfer>, AppError>(
                    Some(old(state).incoming@[key]),
                )
                &&& !final(state).incoming@.dom().contains(key)
            }
            &&& forall|k: PeerItem| #[trigger]
                old(state).incoming@.dom().contains(k) && k != key
                    ==> final(state).incoming@.dom().contains(k)
                    && final(state).incoming@[k] == old(state).incoming@[k]
        }),
{
}

/// A file that cannot be created gives its name free again, and nothing else changes.
pub proof fn law_refused_file_frees_its_name(
    state: &mut AppState,
    final_path: &str,
    shown_path: &str,
    cause: &str,
    other: Seq<char>,
    r: AppError,
)
    requires
        call_ensures(AppState::refuse_file_offer, (state, final_path, shown_path, cause), r),
        other != final_path@,
    ensures
        r is Io,
        !final(state).reserved().contains(final_path@),
        final(state).reserved().contains(other) <==> old(state).reserved().contains(other),
        final(state).transfers == old(state).transfers,
        final(state).incoming == old(state).incoming,
{
}

/// A file that is received is shown with the name that its sender has on the connection to it.
pub proof fn law_received_file_shows_its_sender(
    state: &mut AppState,
    device_id: Uuid,
    transfer_id: Uuid,
    name: String,
    size: u64,
    final_path: String,
    temporary_path: String,
    now: Instant,
    g: Uuid,
)
    requires
        call_ensures(
            AppState::accept_file_offer,
            (state, device_id, transfer_id, name, size, final_path, temporary_path, now),
            (),
        ),
        old(state).connections@.dom().contains(g),
        old(state).connections@[g].peer_device_id == Some(device_id),
    ensures
        final(state).transfers@[0].peer_name@ == old(state).connections@[g].peer_name@,
{
    assert(old(state).connects(g, device_id));
}

} // verus!
