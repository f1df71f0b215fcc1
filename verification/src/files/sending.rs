//! Files that are sent.
use crate::clock::{Duration, Instant, NANOS_PER_SECOND};
use crate::digest;
use crate::error::{AppError, AppResult};
use crate::files::receiving;
use crate::ids;
use crate::ids::{PeerItem, Uuid};
use crate::models::{TransferDirection, TransferState, TransferView};
use crate::paths;
use crate::protocol::{Frame, Message, TransferSource, FILE_CHUNK_SIZE};
use crate::state::transfers;
use crate::state::{AppState, IncomingTransfer};
use crate::text;
use vstd::prelude::*;

verus! {

/// How often a file is sent again from its start after the link has changed.
pub const TRANSFER_RETRY_LIMIT: usize = 2;

/// How long a new link is waited for, in seconds.
pub const TRANSFER_RECONNECT_WAIT_SECONDS: u64 = 45;

/// How long the acknowledgement of a file is waited for, in seconds.
pub const TRANSFER_ACK_WAIT_SECONDS: u64 = 30;

/// A file that is being sent.
#[derive(Debug)]
pub struct OutgoingTransfer {
    pub device_id: Uuid,
    pub transfer_id: Uuid,
    pub name: String,
    pub size: u64,
    pub source: TransferSource,
    pub retry_count: usize,
    /// The connection that the present attempt was begun on.
    pub previous_generation: Option<Uuid>,
}

/// What follows from the end of an attempt to send a file.
#[derive(Debug)]
pub enum AttemptEnd {
    /// The file has been sent, or cannot be.
    Finished(AppResult<()>),
    /// A new link is to be waited for; the error stands if there is none.
    AwaitLink(OutgoingTransfer, AppError),
}

/// What a look at the links shows to one who waits for a new one.
#[derive(Clone, Copy, Debug, PartialEq, Eq, Structural)]
pub enum LinkWait {
    Ready,
    Lost,
    Waiting,
}

/// What happens to one who waits for the acknowledgement of a file.
#[derive(Debug)]
pub enum AckEvent {
    /// The peer has answered.
    Answer(bool, String),
    /// There will be no answer.
    Dropped,
    /// Time has passed.
    Tick { canceled: bool, waited: Duration },
}

/// The data of a file as it is sent.
pub struct FileSender {
    pub transfer_id: Uuid,
    pub offset: u64,
    pub hasher: sha2::Sha256,
}

impl AppState {
    /// Whether work that was begun in this epoch may go on.
    pub fn may_send(&self, epoch: u64) -> (r: bool)
        ensures
            r == (self.transfer_epoch == epoch && self.listening),
    {
        self.transfer_epoch_is_current(epoch) && self.receiver_enabled()
    }

    /// What the start of the sending of a file changes.
    pub open spec fn starts_sending(pre: AppState, post: AppState, out: OutgoingTransfer, now: Instant) -> bool {
        let key = PeerItem { peer: out.device_id, item: out.transfer_id };
        &&& post == (AppState {
            transfers: post.transfers,
            transfer_cancellations: post.transfer_cancellations,
            ..pre
        })
        &&& post.transfer_cancellations@ == pre.transfer_cancellations@.insert(key, ())
        &&& post.transfers@.len() > 0
        &&& post.transfers@ == transfers::transfers_with(pre.transfers@, post.transfers@[0])
        &&& post.transfers@[0] == (TransferView {
            id: out.transfer_id,
            peer_device_id: out.device_id,
            peer_name: post.transfers@[0].peer_name,
            name: out.name,
            direction: TransferDirection::Sending,
            state: TransferState::Queued,
            bytes_done: 0,
            total_bytes: out.size,
            detail: post.transfers@[0].detail,
            bytes_per_second: 0,
            elapsed_millis: 0,
            estimated_remaining_seconds: None,
            started_at: now,
            data_finished_at: None,
            finished_at: None,
        })
        &&& post.transfers@[0].detail@ == "等待发送"@
        &&& forall|g: Uuid| #[trigger]
            pre.connects(g, out.device_id) ==> post.transfers@[0].peer_name
                == pre.connections@[g].peer_name
        &&& !pre.is_connected(out.device_id) ==> post.transfers@[0].peer_name@ == ids::hyphenated(
            out.device_id.value,
        )
    }

    /// The name that a file is sent under: the one to be shown, or its own.
    pub open spec fn outgoing_name(display_name: Option<String>, file_name: Option<String>) -> Seq<char> {
        match display_name {
            Some(name) => name@,
            None => match file_name {
                Some(name) => name@,
                None => paths::UNNAMED@,
            },
        }
    }

    /// Puts a file in the list under a fresh identifier, to be sent.
    pub fn begin_outgoing(
        &mut self,
        device_id: Uuid,
        shown_path: &str,
        is_file: bool,
        file_name: Option<String>,
        display_name: Option<String>,
        size: u64,
        source: TransferSource,
        now: Instant,
    ) -> (r: AppResult<OutgoingTransfer>)
        requires
            old(self).wf(),
        ensures
            final(self).wf(),
            r is Ok <==> is_file,
            match r {
                Ok(out) => {
                    &&& out.transfer_id.is_random()
                    &&& out.device_id == device_id
                    &&& out.name@ == AppState::outgoing_name(display_name, file_name)
                    &&& out.size == size
                    &&& out.source == source
                    &&& out.retry_count == 0
                    &&& out.previous_generation is None
                    &&& AppState::starts_sending(*old(self), *final(self), out, now)
                },
                Err(e) => *final(self) == *old(self) && e.is_invalid_input(
                    shown_path@ + " 不是普通文件"@,
                ),
            },
    {
        let transfer_id = Uuid::new_v4();
        self.begin_outgoing_as(
            transfer_id,
            device_id,
            shown_path,
            is_file,
            file_name,
            display_name,
            size,
            source,
            now,
        )
    }

    /// Puts a file in the list under this identifier, to be sent.
    pub fn begin_outgoing_as(
        &mut self,
        transfer_id: Uuid,
        device_id: Uuid,
        shown_path: &str,
        is_file: bool,
        file_name: Option<String>,
        display_name: Option<String>,
        size: u64,
        source: TransferSource,
        now: Instant,
    ) -> (r: AppResult<OutgoingTransfer>)
        requires
            old(self).wf(),
        ensures
            final(self).wf(),
            r is Ok <==> is_file,
            match r {
                Ok(out) => {
                    &&& out.device_id == device_id
                    &&& out.transfer_id == transfer_id
                    &&& out.name@ == AppState::outgoing_name(display_name, file_name)
                    &&& out.size == size
                    &&& out.source == source
                    &&& out.retry_count == 0
                    &&& out.previous_generation is None
                    &&& AppState::starts_sending(*old(self), *final(self), out, now)
                },
                Err(e) => *final(self) == *old(self) && e.is_invalid_input(
                    shown_path@ + " 不是普通文件"@,
                ),
            },
    {
        if !is_file {
            return Err(AppError::InvalidInput(text::joined(shown_path, " 不是普通文件")));
        }
        let name = match display_name {
            Some(name) => name,
            None => match file_name {
                Some(name) => name,
                None => String::from_str(paths::UNNAMED),
            },
        };
        let peer_name = self.peer_name(device_id);
        let view = TransferView::new(
            transfer_id,
            (device_id, peer_name),
            name.clone(),
            TransferDirection::Sending,
            TransferState::Queued,
            size,
            String::from_str("等待发送"),
            now,
        );
        self.add_transfer(view);
        proof {
            assert(self.transfers@[0] == view);
        }
        self.register_transfer_cancellation(device_id, transfer_id);
        Ok(
            OutgoingTransfer {
                device_id,
                transfer_id,
                name,
                size,
                source,
                retry_count: 0,
                previous_generation: None,
            },
        )
    }
}

impl OutgoingTransfer {
    /// The key under which the transfer is known.
    pub open spec fn key(&self) -> PeerItem {
        PeerItem { peer: self.device_id, item: self.transfer_id }
    }

    /// The transfer in the list has this state and this detail, and can no longer be canceled.
    pub open spec fn ends(
        &self,
        pre: AppState,
        post: AppState,
        new_state: TransferState,
        detail: Seq<char>,
        now: Instant,
    ) -> bool {
        &&& post == (AppState {
            transfers: post.transfers,
            transfer_cancellations: post.transfer_cancellations,
            ..pre
        })
        &&& post.transfer_cancellations@ == pre.transfer_cancellations@.remove(self.key())
        &&& receiving::is_updated(
            pre.transfers@,
            post.transfers@,
            self.transfer_id,
            None,
            new_state,
            detail,
            now,
        )
    }

    /// Begins an attempt with the offer of the file, unless the transfer has been canceled.
    pub fn begin_attempt(&mut self, state: &mut AppState, canceled: bool, now: Instant) -> (r:
        AppResult<Frame>)
        requires
            old(state).wf(),
        ensures
            final(state).wf(),
            if canceled {
                &&& r matches Err(e)
                &&& e is TransferCanceled
                &&& *final(self) == *old(self)
                &&& old(self).ends(
                    *old(state),
                    *final(state),
                    TransferState::Canceled,
                    "传输已取消"@,
                    now,
                )
            } else {
                &&& r matches Ok(frame)
                &&& frame.payload@.len() == 0
                &&& frame.message == (Message::FileOffer {
                    transfer_id: old(self).transfer_id,
                    name: old(self).name,
                    size: old(self).size,
                    source: old(self).source,
                })
                &&& *final(self) == (OutgoingTransfer {
                    previous_generation: final(self).previous_generation,
                    ..*old(self)
                })
                &&& match final(self).previous_generation {
                    Some(g) => old(state).connects(g, old(self).device_id),
                    None => !old(state).is_connected(old(self).device_id),
                }
                &&& *final(state) == (AppState {
                    transfer_acks: final(state).transfer_acks,
                    ..*old(state)
                })
                &&& final(state).transfer_acks@ == old(state).transfer_acks@.insert(
                    old(self).key(),
                    (),
                )
            },
    {
        if canceled {
            state.update_transfer(
                self.transfer_id,
                None,
                Some(TransferState::Canceled),
                Some(String::from_str("传输已取消")),
                now,
            );
            state.finish_transfer_cancellation(self.device_id, self.transfer_id);
            return Err(AppError::TransferCanceled);
        }
        self.previous_generation = state.connection_generation_for_peer(self.device_id);
        state.begin_transfer_ack(self.device_id, self.transfer_id);
        Ok(
            Frame::new(
                Message::FileOffer {
                    transfer_id: self.transfer_id,
                    name: self.name.clone(),
                    size: self.size,
                    source: self.source,
                },
            ),
        )
    }

    /// Notes that the offer has been sent, and gives the sender of the data.
    pub fn offer_sent(&self, state: &mut AppState, now: Instant) -> (r: FileSender)
        requires
            old(state).wf(),
        ensures
            final(state).wf(),
            *final(state) == (AppState { transfers: final(state).transfers, ..*old(state) }),
            receiving::is_updated(
                old(state).transfers@,
                final(state).transfers@,
                self.transfer_id,
                Some(0),
                TransferState::Transferring,
                "正在发送"@,
                now,
            ),
            r.wf(),
            r.transfer_id == self.transfer_id,
            r.offset == 0,
    {
        state.update_transfer(
            self.transfer_id,
            Some(0),
            Some(TransferState::Transferring),
            Some(String::from_str("正在发送")),
            now,
        );
        FileSender { transfer_id: self.transfer_id, offset: 0, hasher: digest::new_hasher() }
    }

    /// The error is one after which the file may be sent again over another link.
    pub open spec fn is_link_error(error: AppError) -> bool {
        error is NotConnected || error is Bluetooth
    }

    /// The file is to be sent again if there is a new link.
    pub open spec fn may_retry(&self, state: AppState, error: AppError) -> bool {
        &&& OutgoingTransfer::is_link_error(error)
        &&& self.retry_count < TRANSFER_RETRY_LIMIT
        &&& self.previous_generation is Some
        &&& exists|s: Uuid| state.plans_for(s, self.device_id)
    }

    /// Ends an attempt: the file has been sent, or a new link is to be waited for, or the file
    /// cannot be sent.
    pub fn end_attempt(
        self,
        state: &mut AppState,
        attempt: AppResult<()>,
        canceled: bool,
        now: Instant,
    ) -> (r: AttemptEnd)
        requires
            old(state).wf(),
        ensures
            final(state).wf(),
            match attempt {
                Ok(()) => {
                    &&& r matches AttemptEnd::Finished(result)
                    &&& result is Ok
                    &&& *final(state) == (AppState {
                        transfer_cancellations: final(state).transfer_cancellations,
                        ..*old(state)
                    })
                    &&& final(state).transfer_cancellations@ == old(
                        state,
                    ).transfer_cancellations@.remove(self.key())
                },
                Err(error) => if self.may_retry(*old(state), error) {
                    &&& r == AttemptEnd::AwaitLink(self, error)
                    &&& *final(state) == (AppState {
                        transfers: final(state).transfers,
                        ..*old(state)
                    })
                    &&& receiving::is_updated(
                        old(state).transfers@,
                        final(state).transfers@,
                        self.transfer_id,
                        None,
                        TransferState::Queued,
                        "连接中断，等待切换链路后自动重试"@,
                        now,
                    )
                } else {
                    &&& r == AttemptEnd::Finished(Err::<(), AppError>(error))
                    &&& self.fails(*old(state), *final(state), error, canceled, now)
                },
            },
    {
        match attempt {
            Ok(()) => {
                state.finish_transfer_cancellation(self.device_id, self.transfer_id);
                AttemptEnd::Finished(Ok(()))
            },
            Err(error) => {
                let link_error = matches!(&error, AppError::NotConnected | AppError::Bluetooth(_));
                let target = state.reconnect_target_for_peer(self.device_id);
                if link_error && self.retry_count < TRANSFER_RETRY_LIMIT
                    && self.previous_generation.is_some() && target.is_some() {
                    state.update_transfer(
                        self.transfer_id,
                        None,
                        Some(TransferState::Queued),
                        Some(String::from_str("连接中断，等待切换链路后自动重试")),
                        now,
                    );
                    return AttemptEnd::AwaitLink(self, error);
                }
                let error = self.fail(state, error, canceled, now);
                AttemptEnd::Finished(Err(error))
            },
        }
    }

    /// What the failure of a file changes.
    pub open spec fn fails(
        &self,
        pre: AppState,
        post: AppState,
        error: AppError,
        canceled: bool,
        now: Instant,
    ) -> bool {
        if error is TransferCanceled || canceled {
            self.ends(pre, post, TransferState::Canceled, "传输已取消"@, now)
        } else {
            self.ends(pre, post, TransferState::Failed, error.message(), now)
        }
    }

    /// Notes that a file cannot be sent.
    pub fn fail(&self, state: &mut AppState, error: AppError, canceled: bool, now: Instant) -> (r:
        AppError)
        requires
            old(state).wf(),
        ensures
            final(state).wf(),
            r == error,
            self.fails(*old(state), *final(state), error, canceled, now),
    {
        let stopped = matches!(&error, AppError::TransferCanceled) || canceled;
        let (new_state, detail) = if stopped {
            (TransferState::Canceled, String::from_str("传输已取消"))
        } else {
            (TransferState::Failed, error.to_string())
        };
        state.update_transfer(self.transfer_id, None, Some(new_state), Some(detail), now);
        state.finish_transfer_cancellation(self.device_id, self.transfer_id);
        error
    }

    /// What one who has waited so long for a new link finds.
    pub open spec fn link_wait(&self, state: AppState, waited: Duration) -> LinkWait {
        if waited.nanos >= TRANSFER_RECONNECT_WAIT_SECONDS * NANOS_PER_SECOND {
            LinkWait::Lost
        } else if exists|g: Uuid| #[trigger]
            state.connects(g, self.device_id) && Some(g) != self.previous_generation {
            LinkWait::Ready
        } else if !(exists|s: Uuid| state.plans_for(s, self.device_id)) {
            LinkWait::Lost
        } else {
            LinkWait::Waiting
        }
    }

    /// Looks for a new link.
    pub fn poll_link(&self, state: &AppState, waited: Duration) -> (r: LinkWait)
        requires
            state.wf(),
        ensures
            r == self.link_wait(*state, waited),
    {
        if waited.nanos >= Duration::from_secs(TRANSFER_RECONNECT_WAIT_SECONDS).nanos {
            return LinkWait::Lost;
        }
        let generation = state.connection_generation_for_peer(self.device_id);
        let fresh = match generation {
            Some(g) => match self.previous_generation {
                Some(previous) => g != previous,
                None => true,
            },
            None => false,
        };
        proof {
            match generation {
                Some(g) => {
                    assert(state.connects(g, self.device_id));
                    assert forall|o: Uuid| #[trigger] state.connects(
                        o,
                        self.device_id,
                    ) implies o == g by {
                        assert(state.connections@.dom().contains(o)
                            && state.connections@.dom().contains(g));
                    }
                },
                None => {
                    assert forall|o: Uuid| !#[trigger] state.connects(o, self.device_id) by {}
                },
            }
        }
        if fresh {
            return LinkWait::Ready;
        }
        if state.reconnect_target_for_peer(self.device_id).is_none() {
            return LinkWait::Lost;
        }
        LinkWait::Waiting
    }

    /// Goes back to the start of the file, over a new link.
    pub fn retry(&mut self, state: &mut AppState, now: Instant)
        requires
            old(state).wf(),
            old(self).retry_count < TRANSFER_RETRY_LIMIT,
        ensures
            final(state).wf(),
            *final(self) == (OutgoingTransfer {
                retry_count: (old(self).retry_count + 1) as usize,
                ..*old(self)
            }),
            *final(state) == (AppState { transfers: final(state).transfers, ..*old(state) }),
            receiving::is_updated(
                old(state).transfers@,
                final(state).transfers@,
                old(self).transfer_id,
                Some(0),
                TransferState::Queued,
                "链路已切换，正在从头重试（"@ + text::decimal_of(
                    (old(self).retry_count + 1) as nat,
                ) + "/"@ + text::decimal_of(TRANSFER_RETRY_LIMIT as nat) + "）"@,
                now,
            ),
    {
        self.retry_count = self.retry_count + 1;
        let mut detail = text::joined(
            "链路已切换，正在从头重试（",
            &text::decimal(self.retry_count as u128),
        );
        detail.append("/");
        detail.append(&text::decimal(TRANSFER_RETRY_LIMIT as u128));
        detail.append("）");
        state.update_transfer(
            self.transfer_id,
            Some(0),
            Some(TransferState::Queued),
            Some(detail),
            now,
        );
    }

    /// What an event means to one who waits for the acknowledgement of a file: nothing where the
    /// wait goes on.
    pub open spec fn ack_outcome(event: AckEvent) -> Option<AppResult<()>> {
        match event {
            AckEvent::Answer(accepted, detail) => if accepted {
                Some(Ok(()))
            } else {
                Some(Err(AppError::Protocol(detail)))
            },
            AckEvent::Dropped => Some(Err(AppError::NotConnected)),
            AckEvent::Tick { canceled, waited } => if canceled {
                Some(Err(AppError::TransferCanceled))
            } else {
                None
            },
        }
    }

    /// The acknowledgement has been waited for too long.
    pub open spec fn ack_overdue(event: AckEvent) -> bool {
        event matches AckEvent::Tick { canceled, waited } && !canceled && waited.nanos
            >= TRANSFER_ACK_WAIT_SECONDS * NANOS_PER_SECOND
    }

    /// Says what an event means to one who waits for the acknowledgement of the file: nothing
    /// where the wait goes on.
    pub fn await_ack(&self, state: &mut AppState, event: AckEvent) -> (r: Option<AppResult<()>>)
        requires
            old(state).wf(),
        ensures
            final(state).wf(),
            if OutgoingTransfer::ack_overdue(event) {
                r matches Some(Err(e)) && e.is_protocol("等待对方确认传输完成超时"@)
            } else {
                r == OutgoingTransfer::ack_outcome(event)
            },
            if event is Tick && r is Some {
                &&& *final(state) == (AppState {
                    transfer_acks: final(state).transfer_acks,
                    ..*old(state)
                })
                &&& final(state).transfer_acks@ == old(state).transfer_acks@.remove(self.key())
            } else {
                *final(state) == *old(state)
            },
    {
        match event {
            AckEvent::Answer(accepted, detail) => if accepted {
                Some(Ok(()))
            } else {
                Some(Err(AppError::Protocol(detail)))
            },
            AckEvent::Dropped => Some(Err(AppError::NotConnected)),
            AckEvent::Tick { canceled, waited } => {
                if canceled {
                    state.cancel_transfer_ack(self.device_id, self.transfer_id);
                    return Some(Err(AppError::TransferCanceled));
                }
                if waited.nanos >= Duration::from_secs(TRANSFER_ACK_WAIT_SECONDS).nanos {
                    state.cancel_transfer_ack(self.device_id, self.transfer_id);
                    return Some(Err(AppError::protocol("等待对方确认传输完成超时")));
                }
                None
            },
        }
    }
}

impl FileSender {
    /// The bytes that have been sent.
    pub open spec fn sent(&self) -> Seq<u8> {
        digest::absorbed(self.hasher)
    }

    /// The offset counts the bytes that have been sent.
    pub open spec fn wf(&self) -> bool {
        self.sent().len() == self.offset
    }

    /// The next piece of the data.
    pub fn chunk(&mut self, payload: Vec<u8>) -> (r: Frame)
        requires
            old(self).wf(),
            0 < payload@.len() <= FILE_CHUNK_SIZE,
            old(self).offset + payload@.len() <= u64::MAX,
        ensures
            final(self).wf(),
            final(self).transfer_id == old(self).transfer_id,
            final(self).sent() == old(self).sent() + payload@,
            r == (Frame {
                message: Message::FileChunk {
                    transfer_id: old(self).transfer_id,
                    offset: old(self).offset,
                },
                payload,
            }),
    {
        digest::update_hasher(&mut self.hasher, payload.as_slice());
        let offset: u64 = self.offset;
        self.offset = self.offset + payload.len() as u64;
        Frame::with_payload(Message::FileChunk { transfer_id: self.transfer_id, offset }, payload)
    }

    /// Notes how much has been sent.
    pub fn chunk_sent(&self, state: &mut AppState, now: Instant)
        requires
            old(state).wf(),
        ensures
            final(state).wf(),
            *final(state) == (AppState { transfers: final(state).transfers, ..*old(state) }),
            final(state).transfers@ == transfers::transfers_updated(
                old(state).transfers@,
                self.transfer_id,
                Some(self.offset),
                None,
                None,
                now,
            ),
    {
        state.update_transfer(self.transfer_id, Some(self.offset), None, None, now);
    }

    /// The end of the data, with its digest.
    pub fn complete(self) -> (r: Frame)
        ensures
            r.payload@.len() == 0,
            r.message matches Message::FileComplete { transfer_id, sha256 } && transfer_id
                == self.transfer_id && sha256@ == digest::digest_text(self.sent()),
    {
        Frame::new(
            Message::FileComplete {
                transfer_id: self.transfer_id,
                sha256: digest::finish_text(self.hasher),
            },
        )
    }
}

/// Notes that all data of a file has been sent.
pub fn all_sent(state: &mut AppState, transfer_id: Uuid, offset: u64, now: Instant)
    requires
        old(state).wf(),
    ensures
        final(state).wf(),
        *final(state) == (AppState { transfers: final(state).transfers, ..*old(state) }),
        receiving::is_updated(
            old(state).transfers@,
            final(state).transfers@,
            transfer_id,
            Some(offset),
            TransferState::WaitingForPeer,
            "等待对方校验"@,
            now,
        ),
{
    state.update_transfer(
        transfer_id,
        Some(offset),
        Some(TransferState::WaitingForPeer),
        Some(String::from_str("等待对方校验")),
        now,
    );
}

/// The pieces one behind the other.
pub open spec fn concatenated(chunks: Seq<Seq<u8>>) -> Seq<u8>
    decreases chunks.len(),
{
    if chunks.len() == 0 {
        Seq::empty()
    } else {
        concatenated(chunks.drop_last()) + chunks.last()
    }
}

/// In whatever pieces a file is sent, each piece starts where the pieces before it ended and fits
/// into what was announced, so that the receiver takes it.
pub proof fn law_chunks_fit(chunks: Seq<Seq<u8>>, i: int)
    requires
        0 <= i < chunks.len(),
    ensures
        concatenated(chunks.take(i + 1)) == concatenated(chunks.take(i)) + chunks[i],
        concatenated(chunks.take(i)).len() + chunks[i].len() <= concatenated(chunks).len(),
    decreases chunks.len() - i,
{
    assert(chunks.take(i + 1).drop_last() =~= chunks.take(i));
    assert(chunks.take(i + 1).last() == chunks[i]);
    if i + 1 < chunks.len() {
        law_chunks_fit(chunks, i + 1);
    } else {
        assert(chunks.take(i + 1) =~= chunks);
    }
}

/// A receiver that has taken in all that a sender has sent finds the file intact: its length is
/// the one that was offered and its digest the one that the sender gives at the end.
pub proof fn law_sent_file_is_intact(sender: FileSender, incoming: IncomingTransfer, size: u64)
    requires
        sender.wf(),
        sender.offset == size,
        incoming.expected == size,
        incoming.received == digest::absorbed(incoming.hasher).len(),
        digest::absorbed(incoming.hasher) == sender.sent(),
    ensures
        AppState::is_intact(incoming, digest::digest_text(sender.sent())),
{
}

/// A file is sent at most three times: once, and again as often as the limit allows.
pub proof fn law_retries_are_limited(out: OutgoingTransfer, state: AppState, error: AppError)
    requires
        out.retry_count >= TRANSFER_RETRY_LIMIT,
    ensures
        !out.may_retry(state, error),
{
}

/// A file is sent under the name that is to be shown, else under its own, and only a file without
/// either goes as an unnamed one. The name in the list and in the offer is the same.
pub proof fn law_file_keeps_its_name(
    state: &mut AppState,
    device_id: Uuid,
    shown_path: &str,
    is_file: bool,
    file_name: Option<String>,
    display_name: Option<String>,
    size: u64,
    source: TransferSource,
    now: Instant,
    r: AppResult<OutgoingTransfer>,
)
    requires
        call_ensures(
            AppState::begin_outgoing,
            (state, device_id, shown_path, is_file, file_name, display_name, size, source, now),
            r,
        ),
        r is Ok,
    ensures
        display_name matches Some(shown) ==> r->Ok_0.name@ == shown@,
        display_name is None && file_name is Some ==> r->Ok_0.name@ == file_name->0@,
        r->Ok_0.name@ == paths::UNNAMED@ ==> display_name is None && file_name is None
            || display_name is Some && display_name->0@ == paths::UNNAMED@ || display_name is None
            && file_name is Some && file_name->0@ == paths::UNNAMED@,
        final(state).transfers@.len() > 0,
        final(state).transfers@[0].name == r->Ok_0.name,
        final(state).transfers@[0].id == r->Ok_0.transfer_id,
        final(state).transfers@[0].peer_device_id == device_id,
        final(state).transfers@[0].total_bytes == size,
        final(state).transfers@[0].direction is Sending,
{
}

/// Each piece that a sender makes of a file, of whatever length, is taken by a receiver that has got
/// all pieces before it, as long as the file does not grow beyond the size that was offered.
pub proof fn law_sent_chunk_is_taken(
    sender: &mut FileSender,
    payload: Vec<u8>,
    frame: Frame,
    data: &[u8],
    state: AppState,
    peer: Uuid,
    now: Instant,
    r: AppResult<receiving::Attention>,
)
    requires
        call_ensures(FileSender::chunk, (sender, payload), frame),
        data@ == frame.payload@,
        call_ensures(
            AppState::check_file_chunk,
            (
                &state,
                peer,
                frame.message->FileChunk_transfer_id,
                frame.message->FileChunk_offset,
                data,
                now,
            ),
            r,
        ),
        ({
            let key = PeerItem { peer, item: old(sender).transfer_id };
            &&& state.incoming@.dom().contains(key)
            &&& !state.canceled_incoming@.dom().contains(key)
            &&& state.incoming@[key].received == old(sender).offset
            &&& old(sender).offset + payload@.len() <= state.incoming@[key].expected
        }),
    ensures
        frame.message is FileChunk,
        frame.payload@ == payload@,
        r == Ok::<receiving::Attention, AppError>(receiving::Attention::Proceed),
{
}

/// A receiver that has got what the sender had sent, and takes the next piece, has again got what
/// the sender has sent, and shows how much that is.
pub proof fn law_receiver_keeps_up(
    sender: &mut FileSender,
    payload: Vec<u8>,
    frame: Frame,
    data: &[u8],
    state: &mut AppState,
    peer: Uuid,
    now: Instant,
    k: int,
)
    requires
        old(sender).wf(),
        call_ensures(FileSender::chunk, (sender, payload), frame),
        data@ == frame.payload@,
        call_ensures(
            AppState::accept_file_chunk,
            (
                state,
                peer,
                frame.message->FileChunk_transfer_id,
                frame.message->FileChunk_offset,
                data,
                now,
            ),
            (),
        ),
        ({
            let key = PeerItem { peer, item: old(sender).transfer_id };
            &&& old(state).incoming@.dom().contains(key)
            &&& old(state).incoming@[key].received == old(sender).offset
            &&& digest::absorbed(old(state).incoming@[key].hasher) == digest::absorbed(
                old(sender).hasher,
            )
        }),
        transfers::is_first_of(old(state).transfers@, k, old(sender).transfer_id),
    ensures
        ({
            let key = PeerItem { peer, item: old(sender).transfer_id };
            let before = old(state).incoming@[key];
            let after = final(state).incoming@[key];
            &&& final(state).incoming@.dom().contains(key)
            &&& after.received == final(sender).offset
            &&& after.received == before.received + payload@.len()
            &&& digest::absorbed(after.hasher) == digest::absorbed(final(sender).hasher)
            &&& after.expected == before.expected
            &&& after.final_path == before.final_path
            &&& after.temporary_path == before.temporary_path
            &&& final(state).transfers@[k].bytes_done == after.received
            &&& final(state).transfers@[k].state == old(state).transfers@[k].state
            &&& transfers::only_changes(old(state).transfers@, final(state).transfers@, k)
        }),
{
    let key = PeerItem { peer, item: old(sender).transfer_id };
    transfers::lemma_updated(
        old(state).transfers@,
        old(sender).transfer_id,
        Some(final(state).incoming@[key].received),
        None,
        None,
        now,
    );
}

/// A file of which a receiver has got all that was sent, and that is as long as was offered, is kept
/// when the sender's last message comes.
pub proof fn law_sent_file_is_kept(
    sender: FileSender,
    last: Frame,
    state: &mut AppState,
    peer: Uuid,
    incoming: IncomingTransfer,
    sha256: &str,
    now: Instant,
    r: receiving::CompletionStep,
)
    requires
        call_ensures(FileSender::complete, (sender,), last),
        sha256@ == last.message->FileComplete_sha256@,
        digest::absorbed(incoming.hasher) == digest::absorbed(sender.hasher),
        incoming.received == incoming.expected,
        call_ensures(
            AppState::check_incoming_file,
            (
                state,
                peer,
                last.message->FileComplete_transfer_id,
                incoming,
                sha256,
                Ok::<(), String>(()),
                now,
            ),
            r,
        ),
    ensures
        r matches receiving::CompletionStep::Rename(file) && file.final_path == incoming.final_path
            && file.transfer_id == sender.transfer_id,
{
}

/// An attempt begins with the offer of the file as it stands in the list, and its acknowledgement
/// is waited for from then on.
pub proof fn law_attempt_begins_with_offer(
    out: &mut OutgoingTransfer,
    state: &mut AppState,
    now: Instant,
    r: AppResult<Frame>,
)
    requires
        call_ensures(OutgoingTransfer::begin_attempt, (out, state, false, now), r),
    ensures
        r matches Ok(frame) && frame.message matches Message::FileOffer {
            transfer_id,
            name,
            size,
            source,
        } && transfer_id == old(out).transfer_id && name@ == old(out).name@ && size == old(out).size
            && source == old(out).source,
        final(state).transfer_acks@.dom().contains(
            PeerItem { peer: old(out).device_id, item: old(out).transfer_id },
        ),
        final(state).transfers == old(state).transfers,
        final(out).retry_count == old(out).retry_count,
        final(out).previous_generation matches Some(g)
            ==> old(state).connections@.dom().contains(g)
            && old(state).connections@[g].peer_device_id == Some(
            old(out).device_id,
        ),
{
}

/// A transfer that was canceled before it was offered is not offered, and is shown as canceled.
pub proof fn law_canceled_transfer_is_not_offered(
    out: &mut OutgoingTransfer,
    state: &mut AppState,
    now: Instant,
    k: int,
    r: AppResult<Frame>,
)
    requires
        call_ensures(OutgoingTransfer::begin_attempt, (out, state, true, now), r),
        transfers::is_first_of(old(state).transfers@, k, old(out).transfer_id),
    ensures
        r matches Err(e) && e is TransferCanceled,
        final(state).transfers@[k].state is Canceled,
        transfers::only_changes(old(state).transfers@, final(state).transfers@, k),
        !final(state).transfer_cancellations@.dom().contains(
            PeerItem { peer: old(out).device_id, item: old(out).transfer_id },
        ),
        final(state).transfer_acks == old(state).transfer_acks,
{
    receiving::lemma_is_updated(
        old(state).transfers@,
        final(state).transfers@,
        old(out).transfer_id,
        None,
        TransferState::Canceled,
        "传输已取消"@,
        now,
    );
}

/// A file that could not be sent for want of a link is sent again once there is another, at most
/// twice, and only where the device is to be connected to again; any other failure is final.
pub proof fn law_only_lost_links_are_retried(
    out: OutgoingTransfer,
    state: &mut AppState,
    error: AppError,
    canceled: bool,
    now: Instant,
    k: int,
    r: AttemptEnd,
)
    requires
        call_ensures(
            OutgoingTransfer::end_attempt,
            (out, state, Err::<(), AppError>(error), canceled, now),
            r,
        ),
        transfers::is_first_of(old(state).transfers@, k, out.transfer_id),
    ensures
        r is AwaitLink <==> (error is NotConnected || error is Bluetooth) && out.retry_count < 2
            && out.previous_generation is Some && exists|s: Uuid| #[trigger]
            old(state).reconnects@.dom().contains(s) && old(state).reconnects@[s].target.device_id
                == Some(out.device_id),
        r matches AttemptEnd::AwaitLink(again, e) ==> again == out && e == error
            && final(state).transfers@[k].state is Queued,
        r is Finished && (canceled || error is TransferCanceled)
            ==> final(state).transfers@[k].state is Canceled,
        r is Finished && !canceled && !(error is TransferCanceled)
            ==> final(state).transfers@[k].state is Failed
            && final(state).transfers@[k].detail@ == error.message(),
        r matches AttemptEnd::Finished(result) ==> result == Err::<(), AppError>(error),
        transfers::only_changes(old(state).transfers@, final(state).transfers@, k),
{
    if r is AwaitLink {
        receiving::lemma_is_updated(
            old(state).transfers@,
            final(state).transfers@,
            out.transfer_id,
            None,
            TransferState::Queued,
            "连接中断，等待切换链路后自动重试"@,
            now,
        );
    } else if canceled || error is TransferCanceled {
        receiving::lemma_is_updated(
            old(state).transfers@,
            final(state).transfers@,
            out.transfer_id,
            None,
            TransferState::Canceled,
            "传输已取消"@,
            now,
        );
    } else {
        receiving::lemma_is_updated(
            old(state).transfers@,
            final(state).transfers@,
            out.transfer_id,
            None,
            TransferState::Failed,
            error.message(),
            now,
        );
    }
    if exists|s: Uuid| #[trigger]
        old(state).reconnects@.dom().contains(s) && old(state).reconnects@[s].target.device_id
            == Some(out.device_id) {
        let s = choose|s: Uuid| #[trigger]
            old(state).reconnects@.dom().contains(s) && old(state).reconnects@[s].target.device_id
                == Some(out.device_id);
        assert(old(state).plans_for(s, out.device_id));
    }
    if exists|s: Uuid| old(state).plans_for(s, out.device_id) {
        let s = choose|s: Uuid| old(state).plans_for(s, out.device_id);
        assert(old(state).reconnects@.dom().contains(s));
    }
}

/// A file that has been sent can no longer be canceled, and the list is left as it is.
pub proof fn law_sent_file_is_over(
    out: OutgoingTransfer,
    state: &mut AppState,
    canceled: bool,
    now: Instant,
    r: AttemptEnd,
)
    requires
        call_ensures(
            OutgoingTransfer::end_attempt,
            (out, state, Ok::<(), AppError>(()), canceled, now),
            r,
        ),
    ensures
        r matches AttemptEnd::Finished(result) && result is Ok,
        final(state).transfers == old(state).transfers,
        !final(state).transfer_cancellations@.dom().contains(
            PeerItem { peer: out.device_id, item: out.transfer_id },
        ),
{
}

/// A new link is waited for less than 45 seconds. Within them, another connection to the device than
/// the one that was lost is taken as soon as it is there, and without one the wait goes on as long
/// as the device is to be connected to again.
pub proof fn law_new_link_is_waited_for(
    out: OutgoingTransfer,
    state: AppState,
    waited: Duration,
    r: LinkWait,
)
    requires
        call_ensures(OutgoingTransfer::poll_link, (&out, &state, waited), r),
    ensures
        waited.nanos >= 45_000_000_000 ==> r is Lost,
        waited.nanos < 45_000_000_000 ==> (r is Ready <==> exists|g: Uuid| #[trigger]
            state.connections@.dom().contains(g) && state.connections@[g].peer_device_id == Some(
                out.device_id,
            ) && out.previous_generation != Some(g)),
        r is Waiting ==> exists|s: Uuid| #[trigger]
            state.reconnects@.dom().contains(s) && state.reconnects@[s].target.device_id == Some(
                out.device_id,
            ),
        waited.nanos < 45_000_000_000 && r is Lost ==> forall|s: Uuid| #[trigger]
            state.reconnects@.dom().contains(s) ==> state.reconnects@[s].target.device_id != Some(
                out.device_id,
            ),
{
    if exists|g: Uuid| #[trigger]
        state.connections@.dom().contains(g) && state.connections@[g].peer_device_id == Some(
            out.device_id,
        ) && out.previous_generation != Some(g) {
        let g = choose|g: Uuid| #[trigger]
            state.connections@.dom().contains(g) && state.connections@[g].peer_device_id == Some(
                out.device_id,
            ) && out.previous_generation != Some(g);
        assert(state.connects(g, out.device_id));
    }
    if r is Ready {
        let g = choose|g: Uuid| #[trigger]
            state.connects(g, out.device_id) && Some(g) != out.previous_generation;
        assert(state.connections@.dom().contains(g));
    }
    if exists|s: Uuid| state.plans_for(s, out.device_id) {
        let s = choose|s: Uuid| state.plans_for(s, out.device_id);
        assert(state.reconnects@.dom().contains(s));
    } else {
        assert forall|s: Uuid| #[trigger] state.reconnects@.dom().contains(
            s,
        ) implies state.reconnects@[s].target.device_id != Some(out.device_id) by {
            assert(!state.plans_for(s, out.device_id));
        }
    }
}

/// A transfer that is tried again starts over, and it is counted.
pub proof fn law_retry_starts_over(
    out: &mut OutgoingTransfer,
    state: &mut AppState,
    now: Instant,
    k: int,
)
    requires
        call_ensures(OutgoingTransfer::retry, (out, state, now), ()),
        old(out).retry_count < 2,
        transfers::is_first_of(old(state).transfers@, k, old(out).transfer_id),
    ensures
        final(out).retry_count == old(out).retry_count + 1,
        final(out).transfer_id == old(out).transfer_id,
        final(out).name == old(out).name,
        final(out).device_id == old(out).device_id,
        final(state).transfers@[k].state is Queued,
        final(state).transfers@[k].bytes_done == 0,
        transfers::only_changes(old(state).transfers@, final(state).transfers@, k),
{
    receiving::lemma_is_updated(
        old(state).transfers@,
        final(state).transfers@,
        old(out).transfer_id,
        Some(0),
        TransferState::Queued,
        "链路已切换，正在从头重试（"@ + text::decimal_of((old(out).retry_count + 1) as nat) + "/"@
            + text::decimal_of(TRANSFER_RETRY_LIMIT as nat) + "）"@,
        now,
    );
}

/// The wait for an acknowledgement ends with the answer, which decides; with the loss of the
/// connection; with the cancellation of the transfer; or after 30 seconds. Until then it goes on.
pub proof fn law_acknowledgement_decides(
    out: OutgoingTransfer,
    state: &mut AppState,
    event: AckEvent,
    r: Option<AppResult<()>>,
)
    requires
        call_ensures(OutgoingTransfer::await_ack, (&out, state, event), r),
    ensures
        (r matches Some(result) && result is Ok) <==> (event matches AckEvent::Answer(
            accepted,
            detail,
        ) && accepted),
        event matches AckEvent::Answer(accepted, detail) ==> r is Some && (!accepted ==> (
        r->0 matches Err(e) && e.is_protocol(detail@))),
        event is Dropped ==> (r matches Some(Err(e)) && e is NotConnected),
        event matches AckEvent::Tick { canceled, waited } ==> {
            &&& canceled ==> (r matches Some(Err(e)) && e is TransferCanceled)
            &&& r is None <==> !canceled && waited.nanos < 30_000_000_000
            &&& r is Some ==> !final(state).transfer_acks@.dom().contains(
                PeerItem { peer: out.device_id, item: out.transfer_id },
            )
        },
{
}

/// When the offer has been sent the data follows from its start, and the transfer is shown as
/// running; when all data has been sent, as waiting for the other device.
pub proof fn law_sending_is_shown(
    out: OutgoingTransfer,
    offered: &mut AppState,
    running: &mut AppState,
    waiting: &mut AppState,
    sender: FileSender,
    now: Instant,
    k: int,
)
    requires
        call_ensures(OutgoingTransfer::offer_sent, (&out, offered, now), sender),
        call_ensures(FileSender::chunk_sent, (&sender, running, now), ()),
        call_ensures(all_sent, (waiting, out.transfer_id, sender.offset, now), ()),
        transfers::is_first_of(old(offered).transfers@, k, out.transfer_id),
        transfers::is_first_of(old(running).transfers@, k, out.transfer_id),
        transfers::is_first_of(old(waiting).transfers@, k, out.transfer_id),
    ensures
        sender.offset == 0,
        sender.transfer_id == out.transfer_id,
        digest::absorbed(sender.hasher).len() == 0,
        final(offered).transfers@[k].state is Transferring,
        final(offered).transfers@[k].bytes_done == 0,
        final(running).transfers@[k].state == old(running).transfers@[k].state,
        final(waiting).transfers@[k].state is WaitingForPeer,
        transfers::only_changes(old(offered).transfers@, final(offered).transfers@, k),
        transfers::only_changes(old(running).transfers@, final(running).transfers@, k),
        transfers::only_changes(old(waiting).transfers@, final(waiting).transfers@, k),
{
    receiving::lemma_is_updated(
        old(offered).transfers@,
        final(offered).transfers@,
        out.transfer_id,
        Some(0),
        TransferState::Transferring,
        "正在发送"@,
        now,
    );
    transfers::lemma_updated(
        old(running).transfers@,
        out.transfer_id,
        Some(sender.offset),
        None,
        None,
        now,
    );
    receiving::lemma_is_updated(
        old(waiting).transfers@,
        final(waiting).transfers@,
        out.transfer_id,
        Some(sender.offset),
        TransferState::WaitingForPeer,
        "等待对方校验"@,
        now,
    );
}

/// As much as has been sent is shown.
pub proof fn law_progress_is_shown(
    sender: FileSender,
    running: &mut AppState,
    waiting: &mut AppState,
    transfer_id: Uuid,
    offset: u64,
    now: Instant,
    k: int,
)
    requires
        call_ensures(FileSender::chunk_sent, (&sender, running, now), ()),
        call_ensures(all_sent, (waiting, transfer_id, offset, now), ()),
        transfers::is_first_of(old(running).transfers@, k, sender.transfer_id),
        transfers::is_first_of(old(waiting).transfers@, k, transfer_id),
    ensures
        final(running).transfers@[k].bytes_done == sender.offset,
        final(waiting).transfers@[k].bytes_done == offset,
{
    transfers::lemma_updated(
        old(running).transfers@,
        sender.transfer_id,
        Some(sender.offset),
        None,
        None,
        now,
    );
    receiving::lemma_is_updated(
        old(waiting).transfers@,
        final(waiting).transfers@,
        transfer_id,
        Some(offset),
        TransferState::WaitingForPeer,
        "等待对方校验"@,
        now,
    );
}

/// What is no file is not sent, and everything else is, under a new identifier of its own.
pub proof fn law_only_files_are_sent(
    state: &mut AppState,
    transfer_id: Uuid,
    device_id: Uuid,
    shown_path: &str,
    is_file: bool,
    file_name: Option<String>,
    display_name: Option<String>,
    size: u64,
    source: TransferSource,
    now: Instant,
    r: AppResult<OutgoingTransfer>,
)
    requires
        call_ensures(
            AppState::begin_outgoing_as,
            (
                state,
                transfer_id,
                device_id,
                shown_path,
                is_file,
                file_name,
                display_name,
                size,
                source,
                now,
            ),
            r,
        ),
    ensures
        r is Ok <==> is_file,
        r is Err ==> *final(state) == *old(state),
        r matches Ok(out) ==> {
            &&& out.transfer_id == transfer_id
            &&& out.device_id == device_id
            &&& out.size == size
            &&& out.source == source
            &&& out.retry_count == 0
            &&& out.name@ == (if display_name is Some {
                display_name->0@
            } else if file_name is Some {
                file_name->0@
            } else {
                "未命名文件"@
            })
            &&& final(state).transfers@[0].id == transfer_id
            &&& final(state).transfers@[0].state is Queued
            &&& final(state).transfers@[0].bytes_done == 0
            &&& final(state).transfers@[0].name == out.name
            &&& final(state).transfer_cancellations@.dom().contains(
                PeerItem { peer: device_id, item: transfer_id },
            )
        },
{
}

/// Work that was begun before a stop does not go on after it, nor does any while nothing is
/// listened for.
pub proof fn law_stopped_work_does_not_go_on(
    state: &mut AppState,
    epoch: u64,
    before: bool,
    after: bool,
)
    requires
        call_ensures(AppState::transfer_epoch, (old(state),), epoch),
        call_ensures(AppState::may_send, (old(state), epoch), before),
        call_ensures(AppState::cancel_all_transfers, (state,), ()),
        call_ensures(AppState::may_send, (final(state), epoch), after),
    ensures
        before == old(state).listening,
        !after,
{
}

/// An attempt that begins without a connection to the device has none to wait for another of.
pub proof fn law_attempt_notes_its_connection(
    out: &mut OutgoingTransfer,
    state: &mut AppState,
    now: Instant,
    r: AppResult<Frame>,
)
    requires
        call_ensures(OutgoingTransfer::begin_attempt, (out, state, false, now), r),
    ensures
        final(out).previous_generation is Some <==> exists|g: Uuid| #[trigger]
            old(state).connections@.dom().contains(g) && old(state).connections@[g].peer_device_id
                == Some(old(out).device_id),
{
    if exists|g: Uuid| #[trigger]
        old(state).connections@.dom().contains(g) && old(state).connections@[g].peer_device_id
            == Some(old(out).device_id) {
        let g = choose|g: Uuid| #[trigger]
            old(state).connections@.dom().contains(g) && old(state).connections@[g].peer_device_id
                == Some(old(out).device_id);
        assert(old(state).connects(g, old(out).device_id));
    }
    if let Some(g) = final(out).previous_generation {
        assert(old(state).connects(g, old(out).device_id));
        assert(old(state).connections@.dom().contains(g));
    }
}

/// A file that has failed can no longer be canceled, and the error is the one that is reported.
pub proof fn law_failure_is_reported(
    out: OutgoingTransfer,
    state: &mut AppState,
    error: AppError,
    canceled: bool,
    now: Instant,
    k: int,
    r: AppError,
)
    requires
        call_ensures(OutgoingTransfer::fail, (&out, state, error, canceled, now), r),
        transfers::is_first_of(old(state).transfers@, k, out.transfer_id),
    ensures
        r == error,
        canceled || error is TransferCanceled <==> final(state).transfers@[k].state is Canceled,
        !(canceled || error is TransferCanceled) <==> final(state).transfers@[k].state is Failed,
        transfers::only_changes(old(state).transfers@, final(state).transfers@, k),
        !final(state).transfer_cancellations@.dom().contains(
            PeerItem { peer: out.device_id, item: out.transfer_id },
        ),
{
    let (new_state, detail) = if canceled || error is TransferCanceled {
        (TransferState::Canceled, "传输已取消"@)
    } else {
        (TransferState::Failed, error.message())
    };
    receiving::lemma_is_updated(
        old(state).transfers@,
        final(state).transfers@,
        out.transfer_id,
        None,
        new_state,
        detail,
        now,
    );
}

/// A file that is sent is shown with the name that its receiver has on the connection to it.
pub proof fn law_sent_file_shows_its_receiver(
    state: &mut AppState,
    transfer_id: Uuid,
    device_id: Uuid,
    shown_path: &str,
    file_name: Option<String>,
    display_name: Option<String>,
    size: u64,
    source: TransferSource,
    now: Instant,
    g: Uuid,
    r: AppResult<OutgoingTransfer>,
)
    requires
        call_ensures(
            AppState::begin_outgoing_as,
            (
                state,
                transfer_id,
                device_id,
                shown_path,
                true,
                file_name,
                display_name,
                size,
                source,
                now,
            ),
            r,
        ),
        old(state).connections@.dom().contains(g),
        old(state).connections@[g].peer_device_id == Some(device_id),
    ensures
        r is Ok,
        final(state).transfers@[0].peer_name@ == old(state).connections@[g].peer_name@,
        final(state).transfers@[0].started_at == now,
{
    assert(old(state).connects(g, device_id));
}

/// A file can be sent in pieces of up to 48 KiB, from its start to the largest size that there is.
pub proof fn law_pieces_of_a_file_can_be_sent(sender: &mut FileSender, payload: Vec<u8>)
    requires
        old(sender).wf(),
        0 < payload@.len() <= 49152,
        old(sender).offset + payload@.len() <= 0xffff_ffff_ffff_ffff,
    ensures
        call_requires(FileSender::chunk, (sender, payload)),
{
}

} // verus!
